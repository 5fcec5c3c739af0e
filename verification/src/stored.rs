//! What reading the configuration texts gives back of the settings they were written for.
use vstd::prelude::*;

use crate::preferences::{
    account_text, account_changed, appearance_changed, appearance_text, apply_line, apply_lines, apply_setting,
    apply_texts, config_line, decimal_entries, decimal_entries_of_texts, decimal_entry, default_preferences,
    diagnostics_changed, diagnostics_text, general_changed, general_text, input_changed, input_text,
    is_decimal_setting, network_changed, network_text, security_changed, security_text, setting_name,
    setting_named, PreferencesView, Setting,
};
use crate::text::{
    bool_text, decimal, lemma_first_index_after, lemma_lines_push, lemma_trim_unchanged, lines, split_once, trim,
};
use crate::values::{
    clean_text, parse_usize_text,
    is_storable_text, lemma_bool_round_trip, lemma_decimal_digits, lemma_number_round_trip,
    lemma_storable_text_round_trip, single_line_text,
};

verus! {

/// Whether `v` can stand as the value of a configuration line: it holds no line feed and
/// does not end with a carriage return.
pub open spec fn fits_on_line(v: Seq<char>) -> bool {
    !v.contains('\n') && (v.len() == 0 || v.last() != '\r')
}

/// Whether the settings `p` are read back as they are written: their texts are storable,
/// their numbers within the ranges read, and their decimal texts fit on a line.
pub open spec fn is_storable(p: PreferencesView) -> bool {
    is_storable_text(p.device_name)
    && is_storable_text(p.language)
    && is_storable_text(p.region)
    && is_storable_text(p.timezone)
    && p.appearance <= 2
    && p.accent <= 5
    && is_storable_text(p.wallpaper)
    && fits_on_line(p.ui_scale)
    && fits_on_line(p.font_size)
    && p.keyboard_layout <= 2
    && fits_on_line(p.repeat_delay)
    && fits_on_line(p.repeat_rate)
    && fits_on_line(p.mouse_speed)
    && p.network_mode <= 1
    && is_storable_text(p.ip_address)
    && is_storable_text(p.dns_server)
    && is_storable_text(p.proxy)
    && is_storable_text(p.auto_login_user)
    && p.unsigned_policy <= 1
}

/// The key of each setting names that setting, holds no equals sign and no white space
/// at either end.
pub proof fn lemma_setting_names(s: Setting)
    ensures
        setting_named(setting_name(s)) == Some(s),
        !setting_name(s).contains('='),
        !setting_name(s).contains('\n'),
        setting_name(s).len() > 0,
        trim(setting_name(s)) == setting_name(s),
{
    reveal_strlit("device_name");
    reveal_strlit("language");
    reveal_strlit("region");
    reveal_strlit("timezone");
    reveal_strlit("automatic_time");
    reveal_strlit("appearance");
    reveal_strlit("accent");
    reveal_strlit("wallpaper");
    reveal_strlit("ui_scale");
    reveal_strlit("font_size");
    reveal_strlit("keyboard_layout");
    reveal_strlit("repeat_delay");
    reveal_strlit("repeat_rate");
    reveal_strlit("mouse_speed");
    reveal_strlit("natural_scrolling");
    reveal_strlit("touchpad_tap");
    reveal_strlit("ethernet_enabled");
    reveal_strlit("wifi_enabled");
    reveal_strlit("network_mode");
    reveal_strlit("ip_address");
    reveal_strlit("dns_server");
    reveal_strlit("proxy");
    reveal_strlit("proxy_enabled");
    reveal_strlit("auto_login");
    reveal_strlit("auto_login_user");
    reveal_strlit("unsigned_policy");
    reveal_strlit("diagnostics_enabled");
    reveal_strlit("diagnostics_consent");
    let n = setting_name(s);
    assert(!n.contains('=')) by {
        if n.contains('=') {
            let k = choose|k: int| 0 <= k < n.len() && n[k] == '=';
        }
    }
    assert(!n.contains('\n')) by {
        if n.contains('\n') {
            let k = choose|k: int| 0 <= k < n.len() && n[k] == '\n';
        }
    }
    lemma_trim_unchanged(n);
}

/// The configuration line that `t` ends with, once a line for `s` with the value `v` is
/// appended, is read as the value `v` of `s`.
proof fn lemma_read_line(q: PreferencesView, t: Seq<char>, s: Setting, v: Seq<char>)
    requires
        t.len() == 0 || t.last() == '\n',
        fits_on_line(v),
    ensures
        lines(t + config_line(setting_name(s), v)) == lines(t).push(setting_name(s) + "="@ + v),
        (t + config_line(setting_name(s), v)).last() == '\n',
        apply_line(q, setting_name(s) + "="@ + v) == apply_setting(q, s, v),
        decimal_entry(setting_name(s) + "="@ + v) == (if is_decimal_setting(s) {
            seq![(s, v)]
        } else {
            Seq::<(Setting, Seq<char>)>::empty()
        }),
{
    reveal_strlit("=");
    lemma_setting_names(s);
    let n = setting_name(s);
    let line = n + "="@ + v;
    assert("="@ == seq!['=']);
    assert(line == n + seq!['='] + v);
    lemma_first_index_after(n, v, '=');
    assert(line.subrange(0, n.len() as int) == n);
    assert(line.subrange(n.len() as int + 1, line.len() as int) == v);
    assert(split_once(line, '=') == Some((n, v)));
    assert(!line.contains('\n')) by {
        if line.contains('\n') {
            let k = choose|k: int| 0 <= k < line.len() && line[k] == '\n';
            if k < n.len() {
                assert(line[k] == n[k]);
                assert(n.contains('\n'));
            } else if k == n.len() {
                assert(line[k] == '=');
            } else {
                assert(line[k] == v[k - n.len() - 1]);
                assert(v.contains('\n'));
            }
        }
    }
    assert(line.last() != '\r') by {
        if v.len() > 0 {
            assert(line.last() == v.last());
        } else {
            assert(line.last() == '=');
        }
    }
    assert(t + config_line(n, v) == t + line + "\n"@);
    lemma_lines_push(t, line);
}

/// A written value fits on a line.
proof fn lemma_values_fit(p: PreferencesView, b: bool, n: nat)
    requires
        is_storable(p),
    ensures
        fits_on_line(bool_text(b)),
        fits_on_line(decimal(n)),

        fits_on_line(single_line_text(p.device_name)),
        fits_on_line(single_line_text(p.language)),
        fits_on_line(single_line_text(p.region)),
        fits_on_line(single_line_text(p.timezone)),
        fits_on_line(single_line_text(p.wallpaper)),
        fits_on_line(single_line_text(p.ip_address)),
        fits_on_line(single_line_text(p.dns_server)),
        fits_on_line(single_line_text(p.proxy)),
        fits_on_line(single_line_text(p.auto_login_user)),
{
    reveal_strlit("true");
    reveal_strlit("false");
    assert(!"true"@.contains('\n')) by {
        if "true"@.contains('\n') {
            let k = choose|k: int| 0 <= k < "true"@.len() && "true"@[k] == '\n';
        }
    }
    assert(!"false"@.contains('\n')) by {
        if "false"@.contains('\n') {
            let k = choose|k: int| 0 <= k < "false"@.len() && "false"@[k] == '\n';
        }
    }
    lemma_decimal_digits(n);
    assert(!decimal(n).contains('\n')) by {
        if decimal(n).contains('\n') {
            let k = choose|k: int| 0 <= k < decimal(n).len() && decimal(n)[k] == '\n';
        }
    }
    assert(decimal(n).last() == decimal(n)[decimal(n).len() - 1]);
    lemma_storable_text_round_trip(p.device_name);
    assert(!p.device_name.contains('\n')) by {
        if p.device_name.contains('\n') {
            let k = choose|k: int| 0 <= k < p.device_name.len() && p.device_name[k] == '\n';
        }
    }
    assert(p.device_name.len() == 0 || p.device_name.last() != '\r') by {
        if p.device_name.len() > 0 {
            assert(p.device_name.last() == p.device_name[p.device_name.len() - 1]);
        }
    }
    lemma_storable_text_round_trip(p.language);
    assert(!p.language.contains('\n')) by {
        if p.language.contains('\n') {
            let k = choose|k: int| 0 <= k < p.language.len() && p.language[k] == '\n';
        }
    }
    assert(p.language.len() == 0 || p.language.last() != '\r') by {
        if p.language.len() > 0 {
            assert(p.language.last() == p.language[p.language.len() - 1]);
        }
    }
    lemma_storable_text_round_trip(p.region);
    assert(!p.region.contains('\n')) by {
        if p.region.contains('\n') {
            let k = choose|k: int| 0 <= k < p.region.len() && p.region[k] == '\n';
        }
    }
    assert(p.region.len() == 0 || p.region.last() != '\r') by {
        if p.region.len() > 0 {
            assert(p.region.last() == p.region[p.region.len() - 1]);
        }
    }
    lemma_storable_text_round_trip(p.timezone);
    assert(!p.timezone.contains('\n')) by {
        if p.timezone.contains('\n') {
            let k = choose|k: int| 0 <= k < p.timezone.len() && p.timezone[k] == '\n';
        }
    }
    assert(p.timezone.len() == 0 || p.timezone.last() != '\r') by {
        if p.timezone.len() > 0 {
            assert(p.timezone.last() == p.timezone[p.timezone.len() - 1]);
        }
    }
    lemma_storable_text_round_trip(p.wallpaper);
    assert(!p.wallpaper.contains('\n')) by {
        if p.wallpaper.contains('\n') {
            let k = choose|k: int| 0 <= k < p.wallpaper.len() && p.wallpaper[k] == '\n';
        }
    }
    assert(p.wallpaper.len() == 0 || p.wallpaper.last() != '\r') by {
        if p.wallpaper.len() > 0 {
            assert(p.wallpaper.last() == p.wallpaper[p.wallpaper.len() - 1]);
        }
    }
    lemma_storable_text_round_trip(p.ip_address);
    assert(!p.ip_address.contains('\n')) by {
        if p.ip_address.contains('\n') {
            let k = choose|k: int| 0 <= k < p.ip_address.len() && p.ip_address[k] == '\n';
        }
    }
    assert(p.ip_address.len() == 0 || p.ip_address.last() != '\r') by {
        if p.ip_address.len() > 0 {
            assert(p.ip_address.last() == p.ip_address[p.ip_address.len() - 1]);
        }
    }
    lemma_storable_text_round_trip(p.dns_server);
    assert(!p.dns_server.contains('\n')) by {
        if p.dns_server.contains('\n') {
            let k = choose|k: int| 0 <= k < p.dns_server.len() && p.dns_server[k] == '\n';
        }
    }
    assert(p.dns_server.len() == 0 || p.dns_server.last() != '\r') by {
        if p.dns_server.len() > 0 {
            assert(p.dns_server.last() == p.dns_server[p.dns_server.len() - 1]);
        }
    }
    lemma_storable_text_round_trip(p.proxy);
    assert(!p.proxy.contains('\n')) by {
        if p.proxy.contains('\n') {
            let k = choose|k: int| 0 <= k < p.proxy.len() && p.proxy[k] == '\n';
        }
    }
    assert(p.proxy.len() == 0 || p.proxy.last() != '\r') by {
        if p.proxy.len() > 0 {
            assert(p.proxy.last() == p.proxy[p.proxy.len() - 1]);
        }
    }
    lemma_storable_text_round_trip(p.auto_login_user);
    assert(!p.auto_login_user.contains('\n')) by {
        if p.auto_login_user.contains('\n') {
            let k = choose|k: int| 0 <= k < p.auto_login_user.len() && p.auto_login_user[k] == '\n';
        }
    }
    assert(p.auto_login_user.len() == 0 || p.auto_login_user.last() != '\r') by {
        if p.auto_login_user.len() > 0 {
            assert(p.auto_login_user.last() == p.auto_login_user[p.auto_login_user.len() - 1]);
        }
    }
}

/// Reading the text written for the category `general` of `p` gives those settings back.
pub proof fn lemma_general_read_back(p: PreferencesView, q: PreferencesView)
    requires
        is_storable(p),
    ensures
        apply_lines(q, lines(general_text(p))) == (PreferencesView { device_name: p.device_name, language: p.language, region: p.region, timezone: p.timezone, automatic_time: p.automatic_time, ..q }),
        decimal_entries(lines(general_text(p))) == Seq::<(Setting, Seq<char>)>::empty(),
{
    reveal(general_text);
    let e = Seq::<char>::empty();
    let mut t = e;
    let mut ls = Seq::<Seq<char>>::empty();
    let mut ds = Seq::<(Setting, Seq<char>)>::empty();
    assert(lines(e) == Seq::<Seq<char>>::empty());
    lemma_values_fit(p, true, 0);
    lemma_storable_text_round_trip(p.device_name);
    lemma_storable_text_round_trip(p.language);
    lemma_storable_text_round_trip(p.region);
    lemma_storable_text_round_trip(p.timezone);
    lemma_values_fit(p, p.automatic_time, 0);
    lemma_bool_round_trip(p.automatic_time, true);
    let q0 = q;
    assert(apply_lines(q, ls) == q0);
    assert(decimal_entries(ls) == ds);
    let l0 = setting_name(Setting::DeviceName) + "="@ + single_line_text(p.device_name);
    lemma_read_line(q0, t, Setting::DeviceName, single_line_text(p.device_name));
    assert(ls.push(l0).drop_last() == ls);
    ls = ls.push(l0);
    t = t + config_line(setting_name(Setting::DeviceName), single_line_text(p.device_name));
    let q1 = apply_line(q0, l0);
    ds = ds + decimal_entry(l0);
    assert(lines(t) == ls);
    assert(apply_lines(q, ls) == q1);
    assert(decimal_entries(ls) == ds);
    let l1 = setting_name(Setting::Language) + "="@ + single_line_text(p.language);
    lemma_read_line(q1, t, Setting::Language, single_line_text(p.language));
    assert(ls.push(l1).drop_last() == ls);
    ls = ls.push(l1);
    t = t + config_line(setting_name(Setting::Language), single_line_text(p.language));
    let q2 = apply_line(q1, l1);
    ds = ds + decimal_entry(l1);
    assert(lines(t) == ls);
    assert(apply_lines(q, ls) == q2);
    assert(decimal_entries(ls) == ds);
    let l2 = setting_name(Setting::Region) + "="@ + single_line_text(p.region);
    lemma_read_line(q2, t, Setting::Region, single_line_text(p.region));
    assert(ls.push(l2).drop_last() == ls);
    ls = ls.push(l2);
    t = t + config_line(setting_name(Setting::Region), single_line_text(p.region));
    let q3 = apply_line(q2, l2);
    ds = ds + decimal_entry(l2);
    assert(lines(t) == ls);
    assert(apply_lines(q, ls) == q3);
    assert(decimal_entries(ls) == ds);
    let l3 = setting_name(Setting::Timezone) + "="@ + single_line_text(p.timezone);
    lemma_read_line(q3, t, Setting::Timezone, single_line_text(p.timezone));
    assert(ls.push(l3).drop_last() == ls);
    ls = ls.push(l3);
    t = t + config_line(setting_name(Setting::Timezone), single_line_text(p.timezone));
    let q4 = apply_line(q3, l3);
    ds = ds + decimal_entry(l3);
    assert(lines(t) == ls);
    assert(apply_lines(q, ls) == q4);
    assert(decimal_entries(ls) == ds);
    let l4 = setting_name(Setting::AutomaticTime) + "="@ + bool_text(p.automatic_time);
    lemma_read_line(q4, t, Setting::AutomaticTime, bool_text(p.automatic_time));
    assert(ls.push(l4).drop_last() == ls);
    ls = ls.push(l4);
    t = t + config_line(setting_name(Setting::AutomaticTime), bool_text(p.automatic_time));
    let q5 = apply_line(q4, l4);
    ds = ds + decimal_entry(l4);
    assert(lines(t) == ls);
    assert(apply_lines(q, ls) == q5);
    assert(decimal_entries(ls) == ds);
    assert(general_text(p) == t);
    assert(lines(general_text(p)) == ls);
}

/// Reading the text written for the category `appearance` of `p` gives those settings back.
pub proof fn lemma_appearance_read_back(p: PreferencesView, q: PreferencesView)
    requires
        is_storable(p),
    ensures
        apply_lines(q, lines(appearance_text(p))) == (PreferencesView { appearance: p.appearance, accent: p.accent, wallpaper: p.wallpaper, ..q }),
        decimal_entries(lines(appearance_text(p))) == seq![(Setting::UiScale, p.ui_scale), (Setting::FontSize, p.font_size)],
{
    reveal(appearance_text);
    let e = Seq::<char>::empty();
    let mut t = e;
    let mut ls = Seq::<Seq<char>>::empty();
    let mut ds = Seq::<(Setting, Seq<char>)>::empty();
    assert(lines(e) == Seq::<Seq<char>>::empty());
    lemma_values_fit(p, true, 0);
    lemma_values_fit(p, true, p.appearance as nat);
    lemma_number_round_trip(p.appearance as nat, 2, 2);
    lemma_values_fit(p, true, p.accent as nat);
    lemma_number_round_trip(p.accent as nat, 0, 5);
    lemma_storable_text_round_trip(p.wallpaper);
    let q0 = q;
    assert(apply_lines(q, ls) == q0);
    assert(decimal_entries(ls) == ds);
    let l0 = setting_name(Setting::Appearance) + "="@ + decimal(p.appearance as nat);
    lemma_read_line(q0, t, Setting::Appearance, decimal(p.appearance as nat));
    assert(ls.push(l0).drop_last() == ls);
    ls = ls.push(l0);
    t = t + config_line(setting_name(Setting::Appearance), decimal(p.appearance as nat));
    let q1 = apply_line(q0, l0);
    ds = ds + decimal_entry(l0);
    assert(lines(t) == ls);
    assert(apply_lines(q, ls) == q1);
    assert(decimal_entries(ls) == ds);
    let l1 = setting_name(Setting::Accent) + "="@ + decimal(p.accent as nat);
    lemma_read_line(q1, t, Setting::Accent, decimal(p.accent as nat));
    assert(ls.push(l1).drop_last() == ls);
    ls = ls.push(l1);
    t = t + config_line(setting_name(Setting::Accent), decimal(p.accent as nat));
    let q2 = apply_line(q1, l1);
    ds = ds + decimal_entry(l1);
    assert(lines(t) == ls);
    assert(apply_lines(q, ls) == q2);
    assert(decimal_entries(ls) == ds);
    let l2 = setting_name(Setting::Wallpaper) + "="@ + single_line_text(p.wallpaper);
    lemma_read_line(q2, t, Setting::Wallpaper, single_line_text(p.wallpaper));
    assert(ls.push(l2).drop_last() == ls);
    ls = ls.push(l2);
    t = t + config_line(setting_name(Setting::Wallpaper), single_line_text(p.wallpaper));
    let q3 = apply_line(q2, l2);
    ds = ds + decimal_entry(l2);
    assert(lines(t) == ls);
    assert(apply_lines(q, ls) == q3);
    assert(decimal_entries(ls) == ds);
    let l3 = setting_name(Setting::UiScale) + "="@ + p.ui_scale;
    lemma_read_line(q3, t, Setting::UiScale, p.ui_scale);
    assert(ls.push(l3).drop_last() == ls);
    ls = ls.push(l3);
    t = t + config_line(setting_name(Setting::UiScale), p.ui_scale);
    let q4 = apply_line(q3, l3);
    ds = ds + decimal_entry(l3);
    assert(lines(t) == ls);
    assert(apply_lines(q, ls) == q4);
    assert(decimal_entries(ls) == ds);
    let l4 = setting_name(Setting::FontSize) + "="@ + p.font_size;
    lemma_read_line(q4, t, Setting::FontSize, p.font_size);
    assert(ls.push(l4).drop_last() == ls);
    ls = ls.push(l4);
    t = t + config_line(setting_name(Setting::FontSize), p.font_size);
    let q5 = apply_line(q4, l4);
    ds = ds + decimal_entry(l4);
    assert(lines(t) == ls);
    assert(apply_lines(q, ls) == q5);
    assert(decimal_entries(ls) == ds);
    assert(appearance_text(p) == t);
    assert(lines(appearance_text(p)) == ls);
}

/// Reading the text written for the category `input` of `p` gives those settings back.
#[verifier::rlimit(50)]
pub proof fn lemma_input_read_back(p: PreferencesView, q: PreferencesView)
    requires
        is_storable(p),
    ensures
        apply_lines(q, lines(input_text(p))) == (PreferencesView { keyboard_layout: p.keyboard_layout, natural_scrolling: p.natural_scrolling, touchpad_tap: p.touchpad_tap, ..q }),
        decimal_entries(lines(input_text(p))) == seq![(Setting::RepeatDelay, p.repeat_delay), (Setting::RepeatRate, p.repeat_rate), (Setting::MouseSpeed, p.mouse_speed)],
{
    reveal(input_text);
    let e = Seq::<char>::empty();
    let mut t = e;
    let mut ls = Seq::<Seq<char>>::empty();
    let mut ds = Seq::<(Setting, Seq<char>)>::empty();
    assert(lines(e) == Seq::<Seq<char>>::empty());
    lemma_values_fit(p, true, 0);
    lemma_values_fit(p, true, p.keyboard_layout as nat);
    lemma_number_round_trip(p.keyboard_layout as nat, 1, 2);
    lemma_values_fit(p, p.natural_scrolling, 0);
    lemma_bool_round_trip(p.natural_scrolling, true);
    lemma_values_fit(p, p.touchpad_tap, 0);
    lemma_bool_round_trip(p.touchpad_tap, true);
    let q0 = q;
    assert(apply_lines(q, ls) == q0);
    assert(decimal_entries(ls) == ds);
    let l0 = setting_name(Setting::KeyboardLayout) + "="@ + decimal(p.keyboard_layout as nat);
    lemma_read_line(q0, t, Setting::KeyboardLayout, decimal(p.keyboard_layout as nat));
    assert(ls.push(l0).drop_last() == ls);
    ls = ls.push(l0);
    t = t + config_line(setting_name(Setting::KeyboardLayout), decimal(p.keyboard_layout as nat));
    let q1 = apply_line(q0, l0);
    ds = ds + decimal_entry(l0);
    assert(lines(t) == ls);
    assert(apply_lines(q, ls) == q1);
    assert(decimal_entries(ls) == ds);
    let l1 = setting_name(Setting::RepeatDelay) + "="@ + p.repeat_delay;
    lemma_read_line(q1, t, Setting::RepeatDelay, p.repeat_delay);
    assert(ls.push(l1).drop_last() == ls);
    ls = ls.push(l1);
    t = t + config_line(setting_name(Setting::RepeatDelay), p.repeat_delay);
    let q2 = apply_line(q1, l1);
    ds = ds + decimal_entry(l1);
    assert(lines(t) == ls);
    assert(apply_lines(q, ls) == q2);
    assert(decimal_entries(ls) == ds);
    let l2 = setting_name(Setting::RepeatRate) + "="@ + p.repeat_rate;
    lemma_read_line(q2, t, Setting::RepeatRate, p.repeat_rate);
    assert(ls.push(l2).drop_last() == ls);
    ls = ls.push(l2);
    t = t + config_line(setting_name(Setting::RepeatRate), p.repeat_rate);
    let q3 = apply_line(q2, l2);
    ds = ds + decimal_entry(l2);
    assert(lines(t) == ls);
    assert(apply_lines(q, ls) == q3);
    assert(decimal_entries(ls) == ds);
    let l3 = setting_name(Setting::MouseSpeed) + "="@ + p.mouse_speed;
    lemma_read_line(q3, t, Setting::MouseSpeed, p.mouse_speed);
    assert(ls.push(l3).drop_last() == ls);
    ls = ls.push(l3);
    t = t + config_line(setting_name(Setting::MouseSpeed), p.mouse_speed);
    let q4 = apply_line(q3, l3);
    ds = ds + decimal_entry(l3);
    assert(lines(t) == ls);
    assert(apply_lines(q, ls) == q4);
    assert(decimal_entries(ls) == ds);
    let l4 = setting_name(Setting::NaturalScrolling) + "="@ + bool_text(p.natural_scrolling);
    lemma_read_line(q4, t, Setting::NaturalScrolling, bool_text(p.natural_scrolling));
    assert(ls.push(l4).drop_last() == ls);
    ls = ls.push(l4);
    t = t + config_line(setting_name(Setting::NaturalScrolling), bool_text(p.natural_scrolling));
    let q5 = apply_line(q4, l4);
    ds = ds + decimal_entry(l4);
    assert(lines(t) == ls);
    assert(apply_lines(q, ls) == q5);
    assert(decimal_entries(ls) == ds);
    let l5 = setting_name(Setting::TouchpadTap) + "="@ + bool_text(p.touchpad_tap);
    lemma_read_line(q5, t, Setting::TouchpadTap, bool_text(p.touchpad_tap));
    assert(ls.push(l5).drop_last() == ls);
    ls = ls.push(l5);
    t = t + config_line(setting_name(Setting::TouchpadTap), bool_text(p.touchpad_tap));
    let q6 = apply_line(q5, l5);
    ds = ds + decimal_entry(l5);
    assert(lines(t) == ls);
    assert(apply_lines(q, ls) == q6);
    assert(decimal_entries(ls) == ds);
    assert(input_text(p) == t);
    assert(lines(input_text(p)) == ls);
}

/// Reading the text written for the category `network` of `p` gives those settings back.
#[verifier::rlimit(50)]
pub proof fn lemma_network_read_back(p: PreferencesView, q: PreferencesView)
    requires
        is_storable(p),
    ensures
        apply_lines(q, lines(network_text(p))) == (PreferencesView { ethernet_enabled: p.ethernet_enabled, wifi_enabled: p.wifi_enabled, network_mode: p.network_mode, ip_address: p.ip_address, dns_server: p.dns_server, proxy: p.proxy, proxy_enabled: p.proxy_enabled, ..q }),
        decimal_entries(lines(network_text(p))) == Seq::<(Setting, Seq<char>)>::empty(),
{
    reveal(network_text);
    let e = Seq::<char>::empty();
    let mut t = e;
    let mut ls = Seq::<Seq<char>>::empty();
    let mut ds = Seq::<(Setting, Seq<char>)>::empty();
    assert(lines(e) == Seq::<Seq<char>>::empty());
    lemma_values_fit(p, true, 0);
    lemma_values_fit(p, p.ethernet_enabled, 0);
    lemma_bool_round_trip(p.ethernet_enabled, true);
    lemma_values_fit(p, p.wifi_enabled, 0);
    lemma_bool_round_trip(p.wifi_enabled, false);
    lemma_values_fit(p, true, p.network_mode as nat);
    lemma_number_round_trip(p.network_mode as nat, 0, 1);
    lemma_storable_text_round_trip(p.ip_address);
    lemma_storable_text_round_trip(p.dns_server);
    lemma_storable_text_round_trip(p.proxy);
    lemma_values_fit(p, p.proxy_enabled, 0);
    lemma_bool_round_trip(p.proxy_enabled, false);
    let q0 = q;
    assert(apply_lines(q, ls) == q0);
    assert(decimal_entries(ls) == ds);
    let l0 = setting_name(Setting::EthernetEnabled) + "="@ + bool_text(p.ethernet_enabled);
    lemma_read_line(q0, t, Setting::EthernetEnabled, bool_text(p.ethernet_enabled));
    assert(ls.push(l0).drop_last() == ls);
    ls = ls.push(l0);
    t = t + config_line(setting_name(Setting::EthernetEnabled), bool_text(p.ethernet_enabled));
    let q1 = apply_line(q0, l0);
    ds = ds + decimal_entry(l0);
    assert(lines(t) == ls);
    assert(apply_lines(q, ls) == q1);
    assert(decimal_entries(ls) == ds);
    let l1 = setting_name(Setting::WifiEnabled) + "="@ + bool_text(p.wifi_enabled);
    lemma_read_line(q1, t, Setting::WifiEnabled, bool_text(p.wifi_enabled));
    assert(ls.push(l1).drop_last() == ls);
    ls = ls.push(l1);
    t = t + config_line(setting_name(Setting::WifiEnabled), bool_text(p.wifi_enabled));
    let q2 = apply_line(q1, l1);
    ds = ds + decimal_entry(l1);
    assert(lines(t) == ls);
    assert(apply_lines(q, ls) == q2);
    assert(decimal_entries(ls) == ds);
    let l2 = setting_name(Setting::NetworkMode) + "="@ + decimal(p.network_mode as nat);
    lemma_read_line(q2, t, Setting::NetworkMode, decimal(p.network_mode as nat));
    assert(ls.push(l2).drop_last() == ls);
    ls = ls.push(l2);
    t = t + config_line(setting_name(Setting::NetworkMode), decimal(p.network_mode as nat));
    let q3 = apply_line(q2, l2);
    ds = ds + decimal_entry(l2);
    assert(lines(t) == ls);
    assert(apply_lines(q, ls) == q3);
    assert(decimal_entries(ls) == ds);
    let l3 = setting_name(Setting::IpAddress) + "="@ + single_line_text(p.ip_address);
    lemma_read_line(q3, t, Setting::IpAddress, single_line_text(p.ip_address));
    assert(ls.push(l3).drop_last() == ls);
    ls = ls.push(l3);
    t = t + config_line(setting_name(Setting::IpAddress), single_line_text(p.ip_address));
    let q4 = apply_line(q3, l3);
    ds = ds + decimal_entry(l3);
    assert(lines(t) == ls);
    assert(apply_lines(q, ls) == q4);
    assert(decimal_entries(ls) == ds);
    let l4 = setting_name(Setting::DnsServer) + "="@ + single_line_text(p.dns_server);
    lemma_read_line(q4, t, Setting::DnsServer, single_line_text(p.dns_server));
    assert(ls.push(l4).drop_last() == ls);
    ls = ls.push(l4);
    t = t + config_line(setting_name(Setting::DnsServer), single_line_text(p.dns_server));
    let q5 = apply_line(q4, l4);
    ds = ds + decimal_entry(l4);
    assert(lines(t) == ls);
    assert(apply_lines(q, ls) == q5);
    assert(decimal_entries(ls) == ds);
    let l5 = setting_name(Setting::Proxy) + "="@ + single_line_text(p.proxy);
    lemma_read_line(q5, t, Setting::Proxy, single_line_text(p.proxy));
    assert(ls.push(l5).drop_last() == ls);
    ls = ls.push(l5);
    t = t + config_line(setting_name(Setting::Proxy), single_line_text(p.proxy));
    let q6 = apply_line(q5, l5);
    ds = ds + decimal_entry(l5);
    assert(lines(t) == ls);
    assert(apply_lines(q, ls) == q6);
    assert(decimal_entries(ls) == ds);
    let l6 = setting_name(Setting::ProxyEnabled) + "="@ + bool_text(p.proxy_enabled);
    lemma_read_line(q6, t, Setting::ProxyEnabled, bool_text(p.proxy_enabled));
    assert(ls.push(l6).drop_last() == ls);
    ls = ls.push(l6);
    t = t + config_line(setting_name(Setting::ProxyEnabled), bool_text(p.proxy_enabled));
    let q7 = apply_line(q6, l6);
    ds = ds + decimal_entry(l6);
    assert(lines(t) == ls);
    assert(apply_lines(q, ls) == q7);
    assert(decimal_entries(ls) == ds);
    assert(network_text(p) == t);
    assert(lines(network_text(p)) == ls);
}

/// Reading the text written for the category `account` of `p` gives those settings back.
pub proof fn lemma_account_read_back(p: PreferencesView, q: PreferencesView)
    requires
        is_storable(p),
    ensures
        apply_lines(q, lines(account_text(p))) == (PreferencesView { auto_login: p.auto_login, auto_login_user: p.auto_login_user, ..q }),
        decimal_entries(lines(account_text(p))) == Seq::<(Setting, Seq<char>)>::empty(),
{
    reveal(account_text);
    let e = Seq::<char>::empty();
    let mut t = e;
    let mut ls = Seq::<Seq<char>>::empty();
    let mut ds = Seq::<(Setting, Seq<char>)>::empty();
    assert(lines(e) == Seq::<Seq<char>>::empty());
    lemma_values_fit(p, true, 0);
    lemma_values_fit(p, p.auto_login, 0);
    lemma_bool_round_trip(p.auto_login, false);
    lemma_storable_text_round_trip(p.auto_login_user);
    let q0 = q;
    assert(apply_lines(q, ls) == q0);
    assert(decimal_entries(ls) == ds);
    let l0 = setting_name(Setting::AutoLogin) + "="@ + bool_text(p.auto_login);
    lemma_read_line(q0, t, Setting::AutoLogin, bool_text(p.auto_login));
    assert(ls.push(l0).drop_last() == ls);
    ls = ls.push(l0);
    t = t + config_line(setting_name(Setting::AutoLogin), bool_text(p.auto_login));
    let q1 = apply_line(q0, l0);
    ds = ds + decimal_entry(l0);
    assert(lines(t) == ls);
    assert(apply_lines(q, ls) == q1);
    assert(decimal_entries(ls) == ds);
    let l1 = setting_name(Setting::AutoLoginUser) + "="@ + single_line_text(p.auto_login_user);
    lemma_read_line(q1, t, Setting::AutoLoginUser, single_line_text(p.auto_login_user));
    assert(ls.push(l1).drop_last() == ls);
    ls = ls.push(l1);
    t = t + config_line(setting_name(Setting::AutoLoginUser), single_line_text(p.auto_login_user));
    let q2 = apply_line(q1, l1);
    ds = ds + decimal_entry(l1);
    assert(lines(t) == ls);
    assert(apply_lines(q, ls) == q2);
    assert(decimal_entries(ls) == ds);
    assert(account_text(p) == t);
    assert(lines(account_text(p)) == ls);
}

/// Reading the text written for the category `security` of `p` gives those settings back.
pub proof fn lemma_security_read_back(p: PreferencesView, q: PreferencesView)
    requires
        is_storable(p),
    ensures
        apply_lines(q, lines(security_text(p))) == (PreferencesView { unsigned_policy: p.unsigned_policy, ..q }),
        decimal_entries(lines(security_text(p))) == Seq::<(Setting, Seq<char>)>::empty(),
{
    reveal(security_text);
    let e = Seq::<char>::empty();
    let mut t = e;
    let mut ls = Seq::<Seq<char>>::empty();
    let mut ds = Seq::<(Setting, Seq<char>)>::empty();
    assert(lines(e) == Seq::<Seq<char>>::empty());
    lemma_values_fit(p, true, 0);
    lemma_values_fit(p, true, p.unsigned_policy as nat);
    lemma_number_round_trip(p.unsigned_policy as nat, 0, 1);
    let q0 = q;
    assert(apply_lines(q, ls) == q0);
    assert(decimal_entries(ls) == ds);
    let l0 = setting_name(Setting::UnsignedPolicy) + "="@ + decimal(p.unsigned_policy as nat);
    lemma_read_line(q0, t, Setting::UnsignedPolicy, decimal(p.unsigned_policy as nat));
    assert(ls.push(l0).drop_last() == ls);
    ls = ls.push(l0);
    t = t + config_line(setting_name(Setting::UnsignedPolicy), decimal(p.unsigned_policy as nat));
    let q1 = apply_line(q0, l0);
    ds = ds + decimal_entry(l0);
    assert(lines(t) == ls);
    assert(apply_lines(q, ls) == q1);
    assert(decimal_entries(ls) == ds);
    assert(security_text(p) == t);
    assert(lines(security_text(p)) == ls);
}

/// Reading the text written for the category `diagnostics` of `p` gives those settings back.
pub proof fn lemma_diagnostics_read_back(p: PreferencesView, q: PreferencesView)
    requires
        is_storable(p),
    ensures
        apply_lines(q, lines(diagnostics_text(p))) == (PreferencesView { diagnostics_enabled: p.diagnostics_enabled, diagnostics_consent: p.diagnostics_enabled && p.diagnostics_consent, ..q }),
        decimal_entries(lines(diagnostics_text(p))) == Seq::<(Setting, Seq<char>)>::empty(),
{
    reveal(diagnostics_text);
    let e = Seq::<char>::empty();
    let mut t = e;
    let mut ls = Seq::<Seq<char>>::empty();
    let mut ds = Seq::<(Setting, Seq<char>)>::empty();
    assert(lines(e) == Seq::<Seq<char>>::empty());
    lemma_values_fit(p, true, 0);
    lemma_values_fit(p, p.diagnostics_enabled, 0);
    lemma_bool_round_trip(p.diagnostics_enabled, true);
    lemma_values_fit(p, p.diagnostics_enabled && p.diagnostics_consent, 0);
    lemma_bool_round_trip(p.diagnostics_enabled && p.diagnostics_consent, false);
    let q0 = q;
    assert(apply_lines(q, ls) == q0);
    assert(decimal_entries(ls) == ds);
    let l0 = setting_name(Setting::DiagnosticsEnabled) + "="@ + bool_text(p.diagnostics_enabled);
    lemma_read_line(q0, t, Setting::DiagnosticsEnabled, bool_text(p.diagnostics_enabled));
    assert(ls.push(l0).drop_last() == ls);
    ls = ls.push(l0);
    t = t + config_line(setting_name(Setting::DiagnosticsEnabled), bool_text(p.diagnostics_enabled));
    let q1 = apply_line(q0, l0);
    ds = ds + decimal_entry(l0);
    assert(lines(t) == ls);
    assert(apply_lines(q, ls) == q1);
    assert(decimal_entries(ls) == ds);
    let l1 = setting_name(Setting::DiagnosticsConsent) + "="@ + bool_text(p.diagnostics_enabled && p.diagnostics_consent);
    lemma_read_line(q1, t, Setting::DiagnosticsConsent, bool_text(p.diagnostics_enabled && p.diagnostics_consent));
    assert(ls.push(l1).drop_last() == ls);
    ls = ls.push(l1);
    t = t + config_line(setting_name(Setting::DiagnosticsConsent), bool_text(p.diagnostics_enabled && p.diagnostics_consent));
    let q2 = apply_line(q1, l1);
    ds = ds + decimal_entry(l1);
    assert(lines(t) == ls);
    assert(apply_lines(q, ls) == q2);
    assert(decimal_entries(ls) == ds);
    assert(diagnostics_text(p) == t);
    assert(lines(diagnostics_text(p)) == ls);
}
/// The texts written for every category of `p`, in the order the categories are read.
pub open spec fn written_texts(p: PreferencesView) -> Seq<Option<Seq<char>>> {
    seq![
        Some(general_text(p)),
        Some(appearance_text(p)),
        Some(input_text(p)),
        Some(network_text(p)),
        Some(account_text(p)),
        Some(security_text(p)),
        Some(diagnostics_text(p)),
    ]
}

/// Reading back, over the defaults, the texts written for every category of `p` gives
/// `p` back: its decimal settings as the texts handed back in order for the caller to
/// read, and consent to diagnostics as given only while diagnostics are enabled.
#[verifier::rlimit(50)]
pub proof fn lemma_settings_read_back(p: PreferencesView)
    requires
        is_storable(p),
    ensures
        apply_texts(default_preferences(), written_texts(p)) == (PreferencesView {
            ui_scale: default_preferences().ui_scale,
            font_size: default_preferences().font_size,
            repeat_delay: default_preferences().repeat_delay,
            repeat_rate: default_preferences().repeat_rate,
            mouse_speed: default_preferences().mouse_speed,
            diagnostics_consent: p.diagnostics_enabled && p.diagnostics_consent,
            ..p
        }),
        decimal_entries_of_texts(written_texts(p)) == seq![
            (Setting::UiScale, p.ui_scale),
            (Setting::FontSize, p.font_size),
            (Setting::RepeatDelay, p.repeat_delay),
            (Setting::RepeatRate, p.repeat_rate),
            (Setting::MouseSpeed, p.mouse_speed),
        ],
{
    let w = written_texts(p);
    let d = default_preferences();
    let s0 = d;
    assert(w.take(0) == Seq::<Option<Seq<char>>>::empty());
    assert(apply_texts(d, w.take(0)) == d);
    assert(decimal_entries_of_texts(w.take(0)) == Seq::<(Setting, Seq<char>)>::empty());
    lemma_general_read_back(p, s0);
    let s1 = apply_lines(s0, lines(general_text(p)));
    assert(w.take(1).drop_last() == w.take(0));
    assert(w.take(1).last() == Some(general_text(p)));
    assert(apply_texts(d, w.take(1)) == s1);
    lemma_appearance_read_back(p, s1);
    let s2 = apply_lines(s1, lines(appearance_text(p)));
    assert(w.take(2).drop_last() == w.take(1));
    assert(w.take(2).last() == Some(appearance_text(p)));
    assert(apply_texts(d, w.take(2)) == s2);
    lemma_input_read_back(p, s2);
    let s3 = apply_lines(s2, lines(input_text(p)));
    assert(w.take(3).drop_last() == w.take(2));
    assert(w.take(3).last() == Some(input_text(p)));
    assert(apply_texts(d, w.take(3)) == s3);
    lemma_network_read_back(p, s3);
    let s4 = apply_lines(s3, lines(network_text(p)));
    assert(w.take(4).drop_last() == w.take(3));
    assert(w.take(4).last() == Some(network_text(p)));
    assert(apply_texts(d, w.take(4)) == s4);
    lemma_account_read_back(p, s4);
    let s5 = apply_lines(s4, lines(account_text(p)));
    assert(w.take(5).drop_last() == w.take(4));
    assert(w.take(5).last() == Some(account_text(p)));
    assert(apply_texts(d, w.take(5)) == s5);
    lemma_security_read_back(p, s5);
    let s6 = apply_lines(s5, lines(security_text(p)));
    assert(w.take(6).drop_last() == w.take(5));
    assert(w.take(6).last() == Some(security_text(p)));
    assert(apply_texts(d, w.take(6)) == s6);
    lemma_diagnostics_read_back(p, s6);
    let s7 = apply_lines(s6, lines(diagnostics_text(p)));
    assert(w.take(7).drop_last() == w.take(6));
    assert(w.take(7).last() == Some(diagnostics_text(p)));
    assert(apply_texts(d, w.take(7)) == s7);
    assert(w.take(7) == w);
    let e0 = Seq::<(Setting, Seq<char>)>::empty();
    let e1 = e0 + decimal_entries(lines(general_text(p)));
    assert(decimal_entries_of_texts(w.take(1)) == e1);
    let e2 = e1 + decimal_entries(lines(appearance_text(p)));
    assert(decimal_entries_of_texts(w.take(2)) == e2);
    let e3 = e2 + decimal_entries(lines(input_text(p)));
    assert(decimal_entries_of_texts(w.take(3)) == e3);
    let e4 = e3 + decimal_entries(lines(network_text(p)));
    assert(decimal_entries_of_texts(w.take(4)) == e4);
    let e5 = e4 + decimal_entries(lines(account_text(p)));
    assert(decimal_entries_of_texts(w.take(5)) == e5);
    let e6 = e5 + decimal_entries(lines(security_text(p)));
    assert(decimal_entries_of_texts(w.take(6)) == e6);
    let e7 = e6 + decimal_entries(lines(diagnostics_text(p)));
    assert(decimal_entries_of_texts(w.take(7)) == e7);
}

/// Saving `a` over `b` leaves every category holding the text written for `a`: a
/// category that is not written already holds that text, since none of its settings changed.
pub proof fn lemma_save_covers_changes(a: PreferencesView, b: PreferencesView)
    ensures
        general_changed(a, b) || general_text(a) == general_text(b),
        appearance_changed(a, b) || appearance_text(a) == appearance_text(b),
        input_changed(a, b) || input_text(a) == input_text(b),
        network_changed(a, b) || network_text(a) == network_text(b),
        account_changed(a, b) || account_text(a) == account_text(b),
        security_changed(a, b) || security_text(a) == security_text(b),
        diagnostics_changed(a, b) || diagnostics_text(a) == diagnostics_text(b),
{
    reveal(general_text);
    reveal(appearance_text);
    reveal(input_text);
    reveal(network_text);
    reveal(account_text);
    reveal(security_text);
    reveal(diagnostics_text);
}

/// Whether the settings `p` are within what reading a configuration file can give: the
/// numbered choices within their ranges and the texts at most 256 characters long.
pub open spec fn within_bounds(p: PreferencesView) -> bool {
    &&& p.appearance <= 2
    &&& p.accent <= 5
    &&& p.keyboard_layout <= 2
    &&& p.network_mode <= 1
    &&& p.unsigned_policy <= 1
    &&& p.device_name.len() <= 256
    &&& p.language.len() <= 256
    &&& p.region.len() <= 256
    &&& p.timezone.len() <= 256
    &&& p.wallpaper.len() <= 256
    &&& p.ip_address.len() <= 256
    &&& p.dns_server.len() <= 256
    &&& p.proxy.len() <= 256
    &&& p.auto_login_user.len() <= 256
}

proof fn lemma_parse_usize_bounded(v: Seq<char>, fallback: nat, maximum: nat)
    requires
        fallback <= maximum,
    ensures
        parse_usize_text(v, fallback, maximum) <= maximum,
{
}

proof fn lemma_apply_setting_keeps_bounds(p: PreferencesView, s: Setting, v: Seq<char>)
    requires
        within_bounds(p),
    ensures
        within_bounds(apply_setting(p, s, v)),
{
    lemma_parse_usize_bounded(v, 2, 2);
    lemma_parse_usize_bounded(v, 0, 5);
    lemma_parse_usize_bounded(v, 1, 2);
    lemma_parse_usize_bounded(v, 0, 1);
    assert(clean_text(v).len() <= 256);
}

/// The defaults are within bounds, and reading any configuration lines keeps settings
/// within bounds: whatever a file holds, the numbered choices stay in their ranges and the
/// texts at most 256 characters long.
pub proof fn lemma_apply_keeps_bounds(p: PreferencesView, ls: Seq<Seq<char>>)
    requires
        within_bounds(p),
    ensures
        within_bounds(default_preferences()),
        within_bounds(apply_lines(p, ls)),
    decreases ls.len(),
{
    reveal_strlit("mochiOS");
    reveal_strlit("Japanese");
    reveal_strlit("Japan");
    reveal_strlit("Asia/Tokyo");
    reveal_strlit("/system/libraries/wallpapers/default.png");
    reveal_strlit("");
    if ls.len() > 0 {
        lemma_apply_keeps_bounds(p, ls.drop_last());
        let q = apply_lines(p, ls.drop_last());
        match split_once(ls.last(), '=') {
            Some((k, v)) => match setting_named(trim(k)) {
                Some(s) => lemma_apply_setting_keeps_bounds(q, s, v),
                None => {},
            },
            None => {},
        }
    }
}

} // verus!
