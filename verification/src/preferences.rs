//! The settings that the application keeps in configuration files, how a configuration
//! text changes them, and the texts written back when they change.
use vstd::prelude::*;

use crate::text::{
    bool_text, chars_of, decimal, find_char, line_bounds, lines, push_decimal, slices, split_once, trim,
    trim_bounds,
};
use crate::values::{
    clean_range, clean_text, parse_bool_range, parse_bool_text, parse_usize_range, parse_usize_text,
    range_is, single_line, single_line_text,
};

verus! {

/// The settings of the device. A decimal setting (a scale, size, delay, rate or speed) is
/// held as the decimal text that the configuration file holds for it.
pub struct Preferences {
    pub device_name: String,
    pub language: String,
    pub region: String,
    pub timezone: String,
    pub automatic_time: bool,
    pub appearance: usize,
    pub accent: usize,
    pub wallpaper: String,
    pub ui_scale: String,
    pub font_size: String,
    pub keyboard_layout: usize,
    pub repeat_delay: String,
    pub repeat_rate: String,
    pub mouse_speed: String,
    pub natural_scrolling: bool,
    pub touchpad_tap: bool,
    pub ethernet_enabled: bool,
    pub wifi_enabled: bool,
    pub network_mode: usize,
    pub ip_address: String,
    pub dns_server: String,
    pub proxy: String,
    pub proxy_enabled: bool,
    pub auto_login: bool,
    pub auto_login_user: String,
    pub unsigned_policy: usize,
    pub diagnostics_enabled: bool,
    pub diagnostics_consent: bool,
}

/// The settings as mathematical values.
pub struct PreferencesView {
    pub device_name: Seq<char>,
    pub language: Seq<char>,
    pub region: Seq<char>,
    pub timezone: Seq<char>,
    pub automatic_time: bool,
    pub appearance: usize,
    pub accent: usize,
    pub wallpaper: Seq<char>,
    pub ui_scale: Seq<char>,
    pub font_size: Seq<char>,
    pub keyboard_layout: usize,
    pub repeat_delay: Seq<char>,
    pub repeat_rate: Seq<char>,
    pub mouse_speed: Seq<char>,
    pub natural_scrolling: bool,
    pub touchpad_tap: bool,
    pub ethernet_enabled: bool,
    pub wifi_enabled: bool,
    pub network_mode: usize,
    pub ip_address: Seq<char>,
    pub dns_server: Seq<char>,
    pub proxy: Seq<char>,
    pub proxy_enabled: bool,
    pub auto_login: bool,
    pub auto_login_user: Seq<char>,
    pub unsigned_policy: usize,
    pub diagnostics_enabled: bool,
    pub diagnostics_consent: bool,
}

impl View for Preferences {
    type V = PreferencesView;

    open spec fn view(&self) -> PreferencesView {
        PreferencesView {
            device_name: self.device_name@,
            language: self.language@,
            region: self.region@,
            timezone: self.timezone@,
            automatic_time: self.automatic_time,
            appearance: self.appearance,
            accent: self.accent,
            wallpaper: self.wallpaper@,
            ui_scale: self.ui_scale@,
            font_size: self.font_size@,
            keyboard_layout: self.keyboard_layout,
            repeat_delay: self.repeat_delay@,
            repeat_rate: self.repeat_rate@,
            mouse_speed: self.mouse_speed@,
            natural_scrolling: self.natural_scrolling,
            touchpad_tap: self.touchpad_tap,
            ethernet_enabled: self.ethernet_enabled,
            wifi_enabled: self.wifi_enabled,
            network_mode: self.network_mode,
            ip_address: self.ip_address@,
            dns_server: self.dns_server@,
            proxy: self.proxy@,
            proxy_enabled: self.proxy_enabled,
            auto_login: self.auto_login,
            auto_login_user: self.auto_login_user@,
            unsigned_policy: self.unsigned_policy,
            diagnostics_enabled: self.diagnostics_enabled,
            diagnostics_consent: self.diagnostics_consent,
        }
    }
}

/// A setting, as a configuration line names it.
#[derive(Clone, Copy, Debug, PartialEq, Eq)]
pub enum Setting {
    DeviceName,
    Language,
    Region,
    Timezone,
    AutomaticTime,
    Appearance,
    Accent,
    Wallpaper,
    UiScale,
    FontSize,
    KeyboardLayout,
    RepeatDelay,
    RepeatRate,
    MouseSpeed,
    NaturalScrolling,
    TouchpadTap,
    EthernetEnabled,
    WifiEnabled,
    NetworkMode,
    IpAddress,
    DnsServer,
    Proxy,
    ProxyEnabled,
    AutoLogin,
    AutoLoginUser,
    UnsignedPolicy,
    DiagnosticsEnabled,
    DiagnosticsConsent,
}

/// The key of `s` in a configuration file.
pub open spec fn setting_name(s: Setting) -> Seq<char> {
    match s {
        Setting::DeviceName => "device_name"@,
        Setting::Language => "language"@,
        Setting::Region => "region"@,
        Setting::Timezone => "timezone"@,
        Setting::AutomaticTime => "automatic_time"@,
        Setting::Appearance => "appearance"@,
        Setting::Accent => "accent"@,
        Setting::Wallpaper => "wallpaper"@,
        Setting::UiScale => "ui_scale"@,
        Setting::FontSize => "font_size"@,
        Setting::KeyboardLayout => "keyboard_layout"@,
        Setting::RepeatDelay => "repeat_delay"@,
        Setting::RepeatRate => "repeat_rate"@,
        Setting::MouseSpeed => "mouse_speed"@,
        Setting::NaturalScrolling => "natural_scrolling"@,
        Setting::TouchpadTap => "touchpad_tap"@,
        Setting::EthernetEnabled => "ethernet_enabled"@,
        Setting::WifiEnabled => "wifi_enabled"@,
        Setting::NetworkMode => "network_mode"@,
        Setting::IpAddress => "ip_address"@,
        Setting::DnsServer => "dns_server"@,
        Setting::Proxy => "proxy"@,
        Setting::ProxyEnabled => "proxy_enabled"@,
        Setting::AutoLogin => "auto_login"@,
        Setting::AutoLoginUser => "auto_login_user"@,
        Setting::UnsignedPolicy => "unsigned_policy"@,
        Setting::DiagnosticsEnabled => "diagnostics_enabled"@,
        Setting::DiagnosticsConsent => "diagnostics_consent"@,
    }
}

/// The setting that the key `k` names, if any.
pub open spec fn setting_named(k: Seq<char>) -> Option<Setting> {
    if k == "device_name"@ {
        Some(Setting::DeviceName)
    } else if k == "language"@ {
        Some(Setting::Language)
    } else if k == "region"@ {
        Some(Setting::Region)
    } else if k == "timezone"@ {
        Some(Setting::Timezone)
    } else if k == "automatic_time"@ {
        Some(Setting::AutomaticTime)
    } else if k == "appearance"@ {
        Some(Setting::Appearance)
    } else if k == "accent"@ {
        Some(Setting::Accent)
    } else if k == "wallpaper"@ {
        Some(Setting::Wallpaper)
    } else if k == "ui_scale"@ {
        Some(Setting::UiScale)
    } else if k == "font_size"@ {
        Some(Setting::FontSize)
    } else if k == "keyboard_layout"@ {
        Some(Setting::KeyboardLayout)
    } else if k == "repeat_delay"@ {
        Some(Setting::RepeatDelay)
    } else if k == "repeat_rate"@ {
        Some(Setting::RepeatRate)
    } else if k == "mouse_speed"@ {
        Some(Setting::MouseSpeed)
    } else if k == "natural_scrolling"@ {
        Some(Setting::NaturalScrolling)
    } else if k == "touchpad_tap"@ {
        Some(Setting::TouchpadTap)
    } else if k == "ethernet_enabled"@ {
        Some(Setting::EthernetEnabled)
    } else if k == "wifi_enabled"@ {
        Some(Setting::WifiEnabled)
    } else if k == "network_mode"@ {
        Some(Setting::NetworkMode)
    } else if k == "ip_address"@ {
        Some(Setting::IpAddress)
    } else if k == "dns_server"@ {
        Some(Setting::DnsServer)
    } else if k == "proxy"@ {
        Some(Setting::Proxy)
    } else if k == "proxy_enabled"@ {
        Some(Setting::ProxyEnabled)
    } else if k == "auto_login"@ {
        Some(Setting::AutoLogin)
    } else if k == "auto_login_user"@ {
        Some(Setting::AutoLoginUser)
    } else if k == "unsigned_policy"@ {
        Some(Setting::UnsignedPolicy)
    } else if k == "diagnostics_enabled"@ {
        Some(Setting::DiagnosticsEnabled)
    } else if k == "diagnostics_consent"@ {
        Some(Setting::DiagnosticsConsent)
    } else {
        None
    }
}

/// Whether `s` holds a decimal number, which the library carries as text but does not read.
pub open spec fn is_decimal_setting(s: Setting) -> bool {
    s == Setting::UiScale || s == Setting::FontSize || s == Setting::RepeatDelay || s == Setting::RepeatRate || s == Setting::MouseSpeed
}

/// The settings `p` after the value `v` was read for the setting `s`; a decimal setting is left as it is.
pub open spec fn apply_setting(p: PreferencesView, s: Setting, v: Seq<char>) -> PreferencesView {
    match s {
        Setting::DeviceName => PreferencesView { device_name: clean_text(v), ..p },
        Setting::Language => PreferencesView { language: clean_text(v), ..p },
        Setting::Region => PreferencesView { region: clean_text(v), ..p },
        Setting::Timezone => PreferencesView { timezone: clean_text(v), ..p },
        Setting::AutomaticTime => PreferencesView { automatic_time: parse_bool_text(v, true), ..p },
        Setting::Appearance => PreferencesView { appearance: parse_usize_text(v, 2, 2) as usize, ..p },
        Setting::Accent => PreferencesView { accent: parse_usize_text(v, 0, 5) as usize, ..p },
        Setting::Wallpaper => PreferencesView { wallpaper: clean_text(v), ..p },
        Setting::UiScale => p,
        Setting::FontSize => p,
        Setting::KeyboardLayout => PreferencesView { keyboard_layout: parse_usize_text(v, 1, 2) as usize, ..p },
        Setting::RepeatDelay => p,
        Setting::RepeatRate => p,
        Setting::MouseSpeed => p,
        Setting::NaturalScrolling => PreferencesView { natural_scrolling: parse_bool_text(v, true), ..p },
        Setting::TouchpadTap => PreferencesView { touchpad_tap: parse_bool_text(v, true), ..p },
        Setting::EthernetEnabled => PreferencesView { ethernet_enabled: parse_bool_text(v, true), ..p },
        Setting::WifiEnabled => PreferencesView { wifi_enabled: parse_bool_text(v, false), ..p },
        Setting::NetworkMode => PreferencesView { network_mode: parse_usize_text(v, 0, 1) as usize, ..p },
        Setting::IpAddress => PreferencesView { ip_address: clean_text(v), ..p },
        Setting::DnsServer => PreferencesView { dns_server: clean_text(v), ..p },
        Setting::Proxy => PreferencesView { proxy: clean_text(v), ..p },
        Setting::ProxyEnabled => PreferencesView { proxy_enabled: parse_bool_text(v, false), ..p },
        Setting::AutoLogin => PreferencesView { auto_login: parse_bool_text(v, false), ..p },
        Setting::AutoLoginUser => PreferencesView { auto_login_user: clean_text(v), ..p },
        Setting::UnsignedPolicy => PreferencesView { unsigned_policy: parse_usize_text(v, 0, 1) as usize, ..p },
        Setting::DiagnosticsEnabled => PreferencesView { diagnostics_enabled: parse_bool_text(v, true), ..p },
        Setting::DiagnosticsConsent => PreferencesView { diagnostics_consent: parse_bool_text(v, false), ..p },
    }
}

/// The settings in force before any configuration file is read.
pub open spec fn default_preferences() -> PreferencesView {
    PreferencesView {
        device_name: "mochiOS"@,
        language: "Japanese"@,
        region: "Japan"@,
        timezone: "Asia/Tokyo"@,
        automatic_time: true,
        appearance: 2,
        accent: 0,
        wallpaper: "/system/libraries/wallpapers/default.png"@,
        ui_scale: "1"@,
        font_size: "13"@,
        keyboard_layout: 1,
        repeat_delay: "0.5"@,
        repeat_rate: "30"@,
        mouse_speed: "1"@,
        natural_scrolling: true,
        touchpad_tap: true,
        ethernet_enabled: true,
        wifi_enabled: false,
        network_mode: 0,
        ip_address: ""@,
        dns_server: ""@,
        proxy: ""@,
        proxy_enabled: false,
        auto_login: false,
        auto_login_user: ""@,
        unsigned_policy: 0,
        diagnostics_enabled: true,
        diagnostics_consent: false,
    }
}

/// The setting that `v[from..to]` names, if any.
pub fn setting_of(v: &Vec<char>, from: usize, to: usize) -> (r: Option<Setting>)
    requires
        from <= to <= v.len(),
    ensures
        r == setting_named(v@.subrange(from as int, to as int)),
{
    if range_is(v, from, to, "device_name") {
        Some(Setting::DeviceName)
    } else if range_is(v, from, to, "language") {
        Some(Setting::Language)
    } else if range_is(v, from, to, "region") {
        Some(Setting::Region)
    } else if range_is(v, from, to, "timezone") {
        Some(Setting::Timezone)
    } else if range_is(v, from, to, "automatic_time") {
        Some(Setting::AutomaticTime)
    } else if range_is(v, from, to, "appearance") {
        Some(Setting::Appearance)
    } else if range_is(v, from, to, "accent") {
        Some(Setting::Accent)
    } else if range_is(v, from, to, "wallpaper") {
        Some(Setting::Wallpaper)
    } else if range_is(v, from, to, "ui_scale") {
        Some(Setting::UiScale)
    } else if range_is(v, from, to, "font_size") {
        Some(Setting::FontSize)
    } else if range_is(v, from, to, "keyboard_layout") {
        Some(Setting::KeyboardLayout)
    } else if range_is(v, from, to, "repeat_delay") {
        Some(Setting::RepeatDelay)
    } else if range_is(v, from, to, "repeat_rate") {
        Some(Setting::RepeatRate)
    } else if range_is(v, from, to, "mouse_speed") {
        Some(Setting::MouseSpeed)
    } else if range_is(v, from, to, "natural_scrolling") {
        Some(Setting::NaturalScrolling)
    } else if range_is(v, from, to, "touchpad_tap") {
        Some(Setting::TouchpadTap)
    } else if range_is(v, from, to, "ethernet_enabled") {
        Some(Setting::EthernetEnabled)
    } else if range_is(v, from, to, "wifi_enabled") {
        Some(Setting::WifiEnabled)
    } else if range_is(v, from, to, "network_mode") {
        Some(Setting::NetworkMode)
    } else if range_is(v, from, to, "ip_address") {
        Some(Setting::IpAddress)
    } else if range_is(v, from, to, "dns_server") {
        Some(Setting::DnsServer)
    } else if range_is(v, from, to, "proxy") {
        Some(Setting::Proxy)
    } else if range_is(v, from, to, "proxy_enabled") {
        Some(Setting::ProxyEnabled)
    } else if range_is(v, from, to, "auto_login") {
        Some(Setting::AutoLogin)
    } else if range_is(v, from, to, "auto_login_user") {
        Some(Setting::AutoLoginUser)
    } else if range_is(v, from, to, "unsigned_policy") {
        Some(Setting::UnsignedPolicy)
    } else if range_is(v, from, to, "diagnostics_enabled") {
        Some(Setting::DiagnosticsEnabled)
    } else if range_is(v, from, to, "diagnostics_consent") {
        Some(Setting::DiagnosticsConsent)
    } else {
        None
    }
}

impl Default for Preferences {
    fn default() -> (p: Self)
        ensures
            p@ == default_preferences(),
    {
        Preferences {
            device_name: String::from_str("mochiOS"),
            language: String::from_str("Japanese"),
            region: String::from_str("Japan"),
            timezone: String::from_str("Asia/Tokyo"),
            automatic_time: true,
            appearance: 2,
            accent: 0,
            wallpaper: String::from_str("/system/libraries/wallpapers/default.png"),
            ui_scale: String::from_str("1"),
            font_size: String::from_str("13"),
            keyboard_layout: 1,
            repeat_delay: String::from_str("0.5"),
            repeat_rate: String::from_str("30"),
            mouse_speed: String::from_str("1"),
            natural_scrolling: true,
            touchpad_tap: true,
            ethernet_enabled: true,
            wifi_enabled: false,
            network_mode: 0,
            ip_address: String::from_str(""),
            dns_server: String::from_str(""),
            proxy: String::from_str(""),
            proxy_enabled: false,
            auto_login: false,
            auto_login_user: String::from_str(""),
            unsigned_policy: 0,
            diagnostics_enabled: true,
            diagnostics_consent: false,
        }
    }
}

impl Preferences {
    #[verifier::rlimit(60)]
    /// Reads `v[from..to]` as the value of `s`; returns whether `s` is a decimal setting,
    /// which this leaves unchanged.
    pub fn apply_value(&mut self, s: Setting, v: &Vec<char>, from: usize, to: usize) -> (decimal: bool)
        requires
            from <= to <= v.len(),
        ensures
            final(self)@ == apply_setting(old(self)@, s, v@.subrange(from as int, to as int)),
            decimal == is_decimal_setting(s),
    {
        match s {
            Setting::DeviceName => {
                self.device_name = clean_range(v, from, to);
            },
            Setting::Language => {
                self.language = clean_range(v, from, to);
            },
            Setting::Region => {
                self.region = clean_range(v, from, to);
            },
            Setting::Timezone => {
                self.timezone = clean_range(v, from, to);
            },
            Setting::AutomaticTime => {
                self.automatic_time = parse_bool_range(v, from, to, true);
            },
            Setting::Appearance => {
                self.appearance = parse_usize_range(v, from, to, 2, 2);
            },
            Setting::Accent => {
                self.accent = parse_usize_range(v, from, to, 0, 5);
            },
            Setting::Wallpaper => {
                self.wallpaper = clean_range(v, from, to);
            },
            Setting::UiScale => {
                return true;
            },
            Setting::FontSize => {
                return true;
            },
            Setting::KeyboardLayout => {
                self.keyboard_layout = parse_usize_range(v, from, to, 1, 2);
            },
            Setting::RepeatDelay => {
                return true;
            },
            Setting::RepeatRate => {
                return true;
            },
            Setting::MouseSpeed => {
                return true;
            },
            Setting::NaturalScrolling => {
                self.natural_scrolling = parse_bool_range(v, from, to, true);
            },
            Setting::TouchpadTap => {
                self.touchpad_tap = parse_bool_range(v, from, to, true);
            },
            Setting::EthernetEnabled => {
                self.ethernet_enabled = parse_bool_range(v, from, to, true);
            },
            Setting::WifiEnabled => {
                self.wifi_enabled = parse_bool_range(v, from, to, false);
            },
            Setting::NetworkMode => {
                self.network_mode = parse_usize_range(v, from, to, 0, 1);
            },
            Setting::IpAddress => {
                self.ip_address = clean_range(v, from, to);
            },
            Setting::DnsServer => {
                self.dns_server = clean_range(v, from, to);
            },
            Setting::Proxy => {
                self.proxy = clean_range(v, from, to);
            },
            Setting::ProxyEnabled => {
                self.proxy_enabled = parse_bool_range(v, from, to, false);
            },
            Setting::AutoLogin => {
                self.auto_login = parse_bool_range(v, from, to, false);
            },
            Setting::AutoLoginUser => {
                self.auto_login_user = clean_range(v, from, to);
            },
            Setting::UnsignedPolicy => {
                self.unsigned_policy = parse_usize_range(v, from, to, 0, 1);
            },
            Setting::DiagnosticsEnabled => {
                self.diagnostics_enabled = parse_bool_range(v, from, to, true);
            },
            Setting::DiagnosticsConsent => {
                self.diagnostics_consent = parse_bool_range(v, from, to, false);
            },
        }
        false
    }
}

/// The settings `p` after the configuration line `line` was read: a line `key=value` whose
/// trimmed key names a setting gives that setting its value; every other line changes nothing.
pub open spec fn apply_line(p: PreferencesView, line: Seq<char>) -> PreferencesView {
    match split_once(line, '=') {
        Some((k, v)) => match setting_named(trim(k)) {
            Some(s) => apply_setting(p, s, v),
            None => p,
        },
        None => p,
    }
}

/// The settings `p` after the lines `ls` were read in order.
pub open spec fn apply_lines(p: PreferencesView, ls: Seq<Seq<char>>) -> PreferencesView
    decreases ls.len(),
{
    if ls.len() == 0 {
        p
    } else {
        apply_line(apply_lines(p, ls.drop_last()), ls.last())
    }
}

/// The decimal setting that `line` assigns, with the text of its value, if any.
pub open spec fn decimal_entry(line: Seq<char>) -> Seq<(Setting, Seq<char>)> {
    match split_once(line, '=') {
        Some((k, v)) => match setting_named(trim(k)) {
            Some(s) => if is_decimal_setting(s) {
                seq![(s, v)]
            } else {
                seq![]
            },
            None => seq![],
        },
        None => seq![],
    }
}

/// The decimal settings that the lines `ls` assign, in order, with the texts of their values.
pub open spec fn decimal_entries(ls: Seq<Seq<char>>) -> Seq<(Setting, Seq<char>)>
    decreases ls.len(),
{
    if ls.len() == 0 {
        seq![]
    } else {
        decimal_entries(ls.drop_last()) + decimal_entry(ls.last())
    }
}

/// A value read for a decimal setting, left for the caller to read as a number.
pub struct DecimalValue {
    pub setting: Setting,
    pub value: String,
}

/// The settings and texts of decimal values.
pub open spec fn decimal_values(d: Seq<DecimalValue>) -> Seq<(Setting, Seq<char>)> {
    d.map_values(|x: DecimalValue| (x.setting, x.value@))
}

/// The texts of configuration files that could be read, in the order they are read.
pub open spec fn present_texts(texts: Seq<Option<String>>) -> Seq<Option<Seq<char>>> {
    texts.map_values(|t: Option<String>| match t {
        Some(s) => Some(s@),
        None => None,
    })
}

/// The settings after each configuration text that could be read was applied in turn.
pub open spec fn apply_texts(p: PreferencesView, texts: Seq<Option<Seq<char>>>) -> PreferencesView
    decreases texts.len(),
{
    if texts.len() == 0 {
        p
    } else {
        let q = apply_texts(p, texts.drop_last());
        match texts.last() {
            Some(t) => apply_lines(q, lines(t)),
            None => q,
        }
    }
}

/// The decimal values that the configuration texts that could be read assign, in order.
pub open spec fn decimal_entries_of_texts(texts: Seq<Option<Seq<char>>>) -> Seq<(Setting, Seq<char>)>
    decreases texts.len(),
{
    if texts.len() == 0 {
        seq![]
    } else {
        decimal_entries_of_texts(texts.drop_last()) + match texts.last() {
            Some(t) => decimal_entries(lines(t)),
            None => seq![],
        }
    }
}

impl Preferences {
    /// Reads the configuration text `text` line by line into the settings. The values of
    /// decimal settings are returned in order, for the caller to read as numbers.
    pub fn apply(&mut self, text: &str) -> (decimals: Vec<DecimalValue>)
        ensures
            final(self)@ == apply_lines(old(self)@, lines(text@)),
            decimal_values(decimals@) == decimal_entries(lines(text@)),
    {
        let v = chars_of(text);
        assert(v@.subrange(0, v.len() as int) == text@);
        let ls = line_bounds(&v, 0, v.len());
        let ghost all = lines(text@);
        let mut decimals: Vec<DecimalValue> = Vec::new();
        let mut k: usize = 0;
        while k < ls.len()
            invariant
                v@ == text@,
                all == lines(text@),
                slices(v@, ls@) == all,
                forall|j: int| 0 <= j < ls@.len() ==> 0 <= (#[trigger] ls@[j]).0 <= ls@[j].1 <= v@.len(),
                k <= ls.len(),
                self@ == apply_lines(old(self)@, all.take(k as int)),
                decimal_values(decimals@) == decimal_entries(all.take(k as int)),
            decreases ls.len() - k,
        {
            let (a, b) = ls[k];
            assert(ls@[k as int] == (a, b));
            let ghost line = v@.subrange(a as int, b as int);
            assert(all[k as int] == line);
            assert(all.take(k + 1).drop_last() == all.take(k as int));
            assert(all.take(k + 1).last() == line);
            match find_char(&v, a, b, '=') {
                Some(eq) => {
                    assert(line.subrange(0, eq - a) == v@.subrange(a as int, eq as int));
                    assert(line.subrange(eq - a + 1, line.len() as int) == v@.subrange(eq + 1, b as int));
                    let (ka, kb) = trim_bounds(&v, a, eq);
                    match setting_of(&v, ka, kb) {
                        Some(s) => {
                            let decimal = self.apply_value(s, &v, eq + 1, b);
                            if decimal {
                                let value = crate::text::string_of(&v, eq + 1, b);
                                let ghost prev = decimals@;
                                let ghost value_view = value@;
                                decimals.push(DecimalValue { setting: s, value });
                                assert(decimal_values(decimals@) == decimal_values(prev).push((s, value_view)));
                            }
                        },
                        None => {},
                    }
                },
                None => {},
            }
            k = k + 1;
        }
        assert(all.take(ls.len() as int) == all);
        decimals
    }
}


/// A line `name=value` of a configuration file.
pub open spec fn config_line(name: Seq<char>, value: Seq<char>) -> Seq<char> {
    name + "="@ + value + "\n"@
}

/// The configuration text of the category `general`.
#[verifier::opaque]
pub open spec fn general_text(p: PreferencesView) -> Seq<char> {
    config_line("device_name"@, single_line_text(p.device_name)) + config_line(
        "language"@,
        single_line_text(p.language),
    ) + config_line("region"@, single_line_text(p.region)) + config_line(
        "timezone"@,
        single_line_text(p.timezone),
    ) + config_line("automatic_time"@, bool_text(p.automatic_time))
}

/// The configuration text of the category `appearance`.
#[verifier::opaque]
pub open spec fn appearance_text(p: PreferencesView) -> Seq<char> {
    config_line("appearance"@, decimal(p.appearance as nat)) + config_line(
        "accent"@,
        decimal(p.accent as nat),
    ) + config_line("wallpaper"@, single_line_text(p.wallpaper)) + config_line(
        "ui_scale"@,
        p.ui_scale,
    ) + config_line("font_size"@, p.font_size)
}

/// The configuration text of the category `input`.
#[verifier::opaque]
pub open spec fn input_text(p: PreferencesView) -> Seq<char> {
    config_line("keyboard_layout"@, decimal(p.keyboard_layout as nat)) + config_line(
        "repeat_delay"@,
        p.repeat_delay,
    ) + config_line("repeat_rate"@, p.repeat_rate) + config_line("mouse_speed"@, p.mouse_speed)
        + config_line("natural_scrolling"@, bool_text(p.natural_scrolling)) + config_line(
        "touchpad_tap"@,
        bool_text(p.touchpad_tap),
    )
}

/// The configuration text of the category `network`.
#[verifier::opaque]
pub open spec fn network_text(p: PreferencesView) -> Seq<char> {
    config_line("ethernet_enabled"@, bool_text(p.ethernet_enabled)) + config_line(
        "wifi_enabled"@,
        bool_text(p.wifi_enabled),
    ) + config_line("network_mode"@, decimal(p.network_mode as nat)) + config_line(
        "ip_address"@,
        single_line_text(p.ip_address),
    ) + config_line("dns_server"@, single_line_text(p.dns_server)) + config_line(
        "proxy"@,
        single_line_text(p.proxy),
    ) + config_line("proxy_enabled"@, bool_text(p.proxy_enabled))
}

/// The configuration text of the category `account`.
#[verifier::opaque]
pub open spec fn account_text(p: PreferencesView) -> Seq<char> {
    config_line("auto_login"@, bool_text(p.auto_login)) + config_line(
        "auto_login_user"@,
        single_line_text(p.auto_login_user),
    )
}

/// The configuration text of the category `security`.
#[verifier::opaque]
pub open spec fn security_text(p: PreferencesView) -> Seq<char> {
    config_line("unsigned_policy"@, decimal(p.unsigned_policy as nat))
}

/// The configuration text of the category `diagnostics`: consent is recorded as given only
/// while diagnostics are enabled.
#[verifier::opaque]
pub open spec fn diagnostics_text(p: PreferencesView) -> Seq<char> {
    config_line("diagnostics_enabled"@, bool_text(p.diagnostics_enabled)) + config_line(
        "diagnostics_consent"@,
        bool_text(p.diagnostics_enabled && p.diagnostics_consent),
    )
}

pub open spec fn general_changed(a: PreferencesView, b: PreferencesView) -> bool {
    a.device_name != b.device_name || a.language != b.language || a.region != b.region
        || a.timezone != b.timezone || a.automatic_time != b.automatic_time
}

pub open spec fn appearance_changed(a: PreferencesView, b: PreferencesView) -> bool {
    a.appearance != b.appearance || a.accent != b.accent || a.wallpaper != b.wallpaper
        || a.ui_scale != b.ui_scale || a.font_size != b.font_size
}

pub open spec fn input_changed(a: PreferencesView, b: PreferencesView) -> bool {
    a.keyboard_layout != b.keyboard_layout || a.repeat_delay != b.repeat_delay || a.repeat_rate
        != b.repeat_rate || a.mouse_speed != b.mouse_speed || a.natural_scrolling
        != b.natural_scrolling || a.touchpad_tap != b.touchpad_tap
}

pub open spec fn network_changed(a: PreferencesView, b: PreferencesView) -> bool {
    a.ethernet_enabled != b.ethernet_enabled || a.wifi_enabled != b.wifi_enabled || a.network_mode
        != b.network_mode || a.ip_address != b.ip_address || a.dns_server != b.dns_server || a.proxy
        != b.proxy || a.proxy_enabled != b.proxy_enabled
}

pub open spec fn account_changed(a: PreferencesView, b: PreferencesView) -> bool {
    a.auto_login != b.auto_login || a.auto_login_user != b.auto_login_user
}

pub open spec fn security_changed(a: PreferencesView, b: PreferencesView) -> bool {
    a.unsigned_policy != b.unsigned_policy
}

pub open spec fn diagnostics_changed(a: PreferencesView, b: PreferencesView) -> bool {
    a.diagnostics_enabled != b.diagnostics_enabled || a.diagnostics_consent != b.diagnostics_consent
}

/// `(category, text)` when `changed`, else nothing.
pub open spec fn write_if(changed: bool, category: Seq<char>, text: Seq<char>) -> Seq<(Seq<char>, Seq<char>)> {
    if changed {
        seq![(category, text)]
    } else {
        seq![]
    }
}

/// The configuration files written when the settings change from `b` to `a`, in the
/// order they are written: each category with a changed setting, with its full text.
pub open spec fn changed_configs(a: PreferencesView, b: PreferencesView) -> Seq<(Seq<char>, Seq<char>)> {
    write_if(general_changed(a, b), "general"@, general_text(a)) + write_if(
        appearance_changed(a, b),
        "appearance"@,
        appearance_text(a),
    ) + write_if(input_changed(a, b), "input"@, input_text(a)) + write_if(
        network_changed(a, b),
        "network"@,
        network_text(a),
    ) + write_if(account_changed(a, b), "account"@, account_text(a)) + write_if(
        security_changed(a, b),
        "security"@,
        security_text(a),
    ) + write_if(diagnostics_changed(a, b), "diagnostics"@, diagnostics_text(a))
}

/// A configuration file to write: the category it belongs to and its full text.
pub struct ConfigFile {
    pub category: String,
    pub contents: String,
}

/// The categories and texts of configuration files.
pub open spec fn config_files(f: Seq<ConfigFile>) -> Seq<(Seq<char>, Seq<char>)> {
    f.map_values(|c: ConfigFile| (c.category@, c.contents@))
}

/// Appends the line `name=value` to `s`.
fn push_line(s: &mut String, name: &str, value: &str)
    ensures
        final(s)@ == old(s)@ + config_line(name@, value@),
{
    s.append(name);
    s.append("=");
    s.append(value);
    s.append("\n");
}

/// Appends the line `name=value` to `s`, with the value written on one line.
fn push_text_line(s: &mut String, name: &str, value: &String)
    ensures
        final(s)@ == old(s)@ + config_line(name@, single_line_text(value@)),
{
    let v = single_line(value.as_str());
    push_line(s, name, v.as_str());
}

/// Appends the line `name=value` to `s` for a boolean value.
fn push_bool_line(s: &mut String, name: &str, value: bool)
    ensures
        final(s)@ == old(s)@ + config_line(name@, bool_text(value)),
{
    if value {
        push_line(s, name, "true");
    } else {
        push_line(s, name, "false");
    }
}

/// Appends the line `name=value` to `s` for a number.
fn push_number_line(s: &mut String, name: &str, value: usize)
    ensures
        final(s)@ == old(s)@ + config_line(name@, decimal(value as nat)),
{
    let mut t = String::new();
    push_decimal(&mut t, value as u64, 0);
    push_line(s, name, t.as_str());
}

/// Whether two strings hold the same text.
fn same_text(a: &String, b: &String) -> (r: bool)
    ensures
        r == (a@ == b@),
{
    a.eq(b)
}

/// Adds the file `category` with `contents` to `files`.
fn push_file(files: &mut Vec<ConfigFile>, category: &str, contents: String)
    ensures
        config_files(final(files)@) == config_files(old(files)@) + seq![(category@, contents@)],
{
    let ghost prev = files@;
    let ghost text = contents@;
    files.push(ConfigFile { category: String::from_str(category), contents });
    assert(config_files(files@) == config_files(prev).push((category@, text)));
}

impl Preferences {
    /// The text of the category `general`.
    pub fn general_config(&self) -> (s: String)
        ensures
            s@ == general_text(self@),
    {
        reveal(general_text);
        let mut s = String::new();
        push_text_line(&mut s, "device_name", &self.device_name);
        push_text_line(&mut s, "language", &self.language);
        push_text_line(&mut s, "region", &self.region);
        push_text_line(&mut s, "timezone", &self.timezone);
        push_bool_line(&mut s, "automatic_time", self.automatic_time);
        s
    }

    /// The text of the category `appearance`.
    pub fn appearance_config(&self) -> (s: String)
        ensures
            s@ == appearance_text(self@),
    {
        reveal(appearance_text);
        let mut s = String::new();
        push_number_line(&mut s, "appearance", self.appearance);
        push_number_line(&mut s, "accent", self.accent);
        push_text_line(&mut s, "wallpaper", &self.wallpaper);
        push_line(&mut s, "ui_scale", self.ui_scale.as_str());
        push_line(&mut s, "font_size", self.font_size.as_str());
        s
    }

    /// The text of the category `input`.
    pub fn input_config(&self) -> (s: String)
        ensures
            s@ == input_text(self@),
    {
        reveal(input_text);
        let mut s = String::new();
        push_number_line(&mut s, "keyboard_layout", self.keyboard_layout);
        push_line(&mut s, "repeat_delay", self.repeat_delay.as_str());
        push_line(&mut s, "repeat_rate", self.repeat_rate.as_str());
        push_line(&mut s, "mouse_speed", self.mouse_speed.as_str());
        push_bool_line(&mut s, "natural_scrolling", self.natural_scrolling);
        push_bool_line(&mut s, "touchpad_tap", self.touchpad_tap);
        s
    }

    /// The text of the category `network`.
    pub fn network_config(&self) -> (s: String)
        ensures
            s@ == network_text(self@),
    {
        reveal(network_text);
        let mut s = String::new();
        push_bool_line(&mut s, "ethernet_enabled", self.ethernet_enabled);
        push_bool_line(&mut s, "wifi_enabled", self.wifi_enabled);
        push_number_line(&mut s, "network_mode", self.network_mode);
        push_text_line(&mut s, "ip_address", &self.ip_address);
        push_text_line(&mut s, "dns_server", &self.dns_server);
        push_text_line(&mut s, "proxy", &self.proxy);
        push_bool_line(&mut s, "proxy_enabled", self.proxy_enabled);
        s
    }

    /// The text of the category `account`.
    pub fn account_config(&self) -> (s: String)
        ensures
            s@ == account_text(self@),
    {
        reveal(account_text);
        let mut s = String::new();
        push_bool_line(&mut s, "auto_login", self.auto_login);
        push_text_line(&mut s, "auto_login_user", &self.auto_login_user);
        s
    }

    /// The text of the category `security`.
    pub fn security_config(&self) -> (s: String)
        ensures
            s@ == security_text(self@),
    {
        reveal(security_text);
        let mut s = String::new();
        push_number_line(&mut s, "unsigned_policy", self.unsigned_policy);
        s
    }

    /// The text of the category `diagnostics`.
    pub fn diagnostics_config(&self) -> (s: String)
        ensures
            s@ == diagnostics_text(self@),
    {
        reveal(diagnostics_text);
        let mut s = String::new();
        push_bool_line(&mut s, "diagnostics_enabled", self.diagnostics_enabled);
        push_bool_line(&mut s, "diagnostics_consent", self.diagnostics_enabled && self.diagnostics_consent);
        s
    }

    fn general_differs(&self, b: &Preferences) -> (r: bool)
        ensures
            r == general_changed(self@, b@),
    {
        !same_text(&self.device_name, &b.device_name) || !same_text(&self.language, &b.language)
            || !same_text(&self.region, &b.region) || !same_text(&self.timezone, &b.timezone)
            || self.automatic_time != b.automatic_time
    }

    fn appearance_differs(&self, b: &Preferences) -> (r: bool)
        ensures
            r == appearance_changed(self@, b@),
    {
        self.appearance != b.appearance || self.accent != b.accent || !same_text(&self.wallpaper, &b.wallpaper)
            || !same_text(&self.ui_scale, &b.ui_scale) || !same_text(&self.font_size, &b.font_size)
    }

    fn input_differs(&self, b: &Preferences) -> (r: bool)
        ensures
            r == input_changed(self@, b@),
    {
        self.keyboard_layout != b.keyboard_layout || !same_text(&self.repeat_delay, &b.repeat_delay)
            || !same_text(&self.repeat_rate, &b.repeat_rate) || !same_text(&self.mouse_speed, &b.mouse_speed)
            || self.natural_scrolling != b.natural_scrolling || self.touchpad_tap != b.touchpad_tap
    }

    fn network_differs(&self, b: &Preferences) -> (r: bool)
        ensures
            r == network_changed(self@, b@),
    {
        self.ethernet_enabled != b.ethernet_enabled || self.wifi_enabled != b.wifi_enabled || self.network_mode
            != b.network_mode || !same_text(&self.ip_address, &b.ip_address) || !same_text(
            &self.dns_server,
            &b.dns_server,
        ) || !same_text(&self.proxy, &b.proxy) || self.proxy_enabled != b.proxy_enabled
    }

    /// The configuration files to write so that the files hold `self` where they held
    /// `previous`: each category with a changed setting, in order, with its full text.
    pub fn changed_configs(&self, previous: &Preferences) -> (files: Vec<ConfigFile>)
        ensures
            config_files(files@) == changed_configs(self@, previous@),
    {
        let mut files: Vec<ConfigFile> = Vec::new();
        let ghost a = self@;
        let ghost b = previous@;
        if self.general_differs(previous) {
            push_file(&mut files, "general", self.general_config());
        }
        let ghost acc1 = config_files(files@);
        assert(acc1 == write_if(general_changed(a, b), "general"@, general_text(a)));
        if self.appearance_differs(previous) {
            push_file(&mut files, "appearance", self.appearance_config());
        }
        let ghost acc2 = config_files(files@);
        assert(acc2 == acc1 + write_if(appearance_changed(a, b), "appearance"@, appearance_text(a)));
        if self.input_differs(previous) {
            push_file(&mut files, "input", self.input_config());
        }
        let ghost acc3 = config_files(files@);
        assert(acc3 == acc2 + write_if(input_changed(a, b), "input"@, input_text(a)));
        if self.network_differs(previous) {
            push_file(&mut files, "network", self.network_config());
        }
        let ghost acc4 = config_files(files@);
        assert(acc4 == acc3 + write_if(network_changed(a, b), "network"@, network_text(a)));
        if self.auto_login != previous.auto_login || !same_text(&self.auto_login_user, &previous.auto_login_user) {
            push_file(&mut files, "account", self.account_config());
        }
        let ghost acc5 = config_files(files@);
        assert(acc5 == acc4 + write_if(account_changed(a, b), "account"@, account_text(a)));
        if self.unsigned_policy != previous.unsigned_policy {
            push_file(&mut files, "security", self.security_config());
        }
        let ghost acc6 = config_files(files@);
        assert(acc6 == acc5 + write_if(security_changed(a, b), "security"@, security_text(a)));
        if self.diagnostics_enabled != previous.diagnostics_enabled || self.diagnostics_consent
            != previous.diagnostics_consent {
            push_file(&mut files, "diagnostics", self.diagnostics_config());
        }
        assert(config_files(files@) == acc6 + write_if(diagnostics_changed(a, b), "diagnostics"@, diagnostics_text(a)));
        files
    }
}

/// How far the writing of the changed configuration files has got: how many were written,
/// in order, and whether the last write failed, which ends the save.
pub struct SaveProgress {
    pub written: usize,
    pub failed: bool,
}

/// The progress `(written, failed)` after a write that went as `ok`: a failure ends the
/// save, and once the save has ended further outcomes change nothing.
pub open spec fn save_step(written: nat, failed: bool, ok: bool) -> (nat, bool) {
    if failed {
        (written, failed)
    } else if ok {
        (written + 1, false)
    } else {
        (written, true)
    }
}

/// The progress after the writes went as `oks` says, in order.
pub open spec fn save_run(oks: Seq<bool>) -> (nat, bool)
    decreases oks.len(),
{
    if oks.len() == 0 {
        (0, false)
    } else {
        let (w, f) = save_run(oks.drop_last());
        save_step(w, f, oks.last())
    }
}

impl SaveProgress {
    /// Nothing written yet.
    pub fn new() -> (p: SaveProgress)
        ensures
            p.written == 0,
            !p.failed,
    {
        SaveProgress { written: 0, failed: false }
    }

    /// The position of the file to write next among `count` files: the first one not yet
    /// written, unless the save failed or every file is written.
    pub fn next_file(&self, count: usize) -> (r: Option<usize>)
        ensures
            r == (if self.failed || self.written >= count { None } else { Some(self.written) }),
    {
        if self.failed || self.written >= count {
            None
        } else {
            Some(self.written)
        }
    }

    /// Records how the write of the file that `next_file` named went.
    pub fn record(&mut self, ok: bool)
        requires
            old(self).failed || old(self).written < usize::MAX,
        ensures
            (final(self).written as nat, final(self).failed) == save_step(old(self).written as nat, old(self).failed, ok),
    {
        if !self.failed {
            if ok {
                self.written = self.written + 1;
            } else {
                self.failed = true;
            }
        }
    }
}

/// Where the `k`-th write fails, the save has written the files before it, in order, and
/// writes none after it; where no write fails, every file is written.
pub proof fn lemma_save_stops_at_first_failure(oks: Seq<bool>)
    ensures
        save_run(oks).0 <= oks.len(),
        forall|i: int| 0 <= i < save_run(oks).0 ==> #[trigger] oks[i],
        save_run(oks).1 <==> save_run(oks).0 < oks.len(),
        save_run(oks).1 ==> !oks[save_run(oks).0 as int],
    decreases oks.len(),
{
    if oks.len() > 0 {
        lemma_save_stops_at_first_failure(oks.drop_last());
        assert forall|i: int| 0 <= i < save_run(oks.drop_last()).0 implies #[trigger] oks[i] by {
            assert(oks.drop_last()[i] == oks[i]);
        }
        let (w, f) = save_run(oks.drop_last());
        if f {
            assert(oks.drop_last()[w as int] == oks[w as int]);
        }
    }
}

/// The configuration categories, in the order their files are read.
pub open spec fn config_category_names() -> Seq<Seq<char>> {
    seq!["general"@, "appearance"@, "input"@, "network"@, "account"@, "security"@, "diagnostics"@]
}

/// The configuration categories, in the order their files are read.
pub fn config_categories() -> (c: Vec<&'static str>)
    ensures
        c@.map_values(|s: &str| s@) == config_category_names(),
{
    let c = vec!["general", "appearance", "input", "network", "account", "security", "diagnostics"];
    assert(c@.map_values(|s: &str| s@) == config_category_names());
    c
}

/// The path of the configuration file of `category` under the configuration root `root`.
pub fn config_path(root: &str, category: &str) -> (path: String)
    ensures
        path@ == root@ + "/"@ + category@ + "/settings.conf"@,
{
    let mut path = String::from_str(root);
    path.append("/");
    path.append(category);
    path.append("/settings.conf");
    path
}

impl Preferences {
    /// The settings after the configuration texts that could be read, in the order of the
    /// categories, were applied to the defaults; and the decimal values they hold, in order.
    pub fn load_from(texts: &Vec<Option<String>>) -> (r: (Preferences, Vec<DecimalValue>))
        ensures
            r.0@ == apply_texts(default_preferences(), present_texts(texts@)),
            decimal_values(r.1@) == decimal_entries_of_texts(present_texts(texts@)),
    {
        let mut p = Preferences::default();
        let mut decimals: Vec<DecimalValue> = Vec::new();
        let ghost all = present_texts(texts@);
        let mut i: usize = 0;
        while i < texts.len()
            invariant
                i <= texts.len(),
                all == present_texts(texts@),
                p@ == apply_texts(default_preferences(), all.take(i as int)),
                decimal_values(decimals@) == decimal_entries_of_texts(all.take(i as int)),
            decreases texts.len() - i,
        {
            assert(all.take(i + 1).drop_last() == all.take(i as int));
            match &texts[i] {
                Some(t) => {
                    let mut d = p.apply(t.as_str());
                    let ghost before = decimals@;
                    let ghost added = d@;
                    decimals.append(&mut d);
                    assert(decimal_values(decimals@) == decimal_values(before) + decimal_values(added));
                },
                None => {},
            }
            i = i + 1;
        }
        assert(all.take(texts.len() as int) == all);
        (p, decimals)
    }
}

impl Preferences {
    /// Whether `self` and `other` hold the same settings.
    pub fn same_as(&self, other: &Preferences) -> (r: bool)
        ensures
            r == (self@ == other@),
    {
        same_text(&self.device_name, &other.device_name)
            && same_text(&self.language, &other.language)
            && same_text(&self.region, &other.region)
            && same_text(&self.timezone, &other.timezone)
            && self.automatic_time == other.automatic_time
            && self.appearance == other.appearance
            && self.accent == other.accent
            && same_text(&self.wallpaper, &other.wallpaper)
            && same_text(&self.ui_scale, &other.ui_scale)
            && same_text(&self.font_size, &other.font_size)
            && self.keyboard_layout == other.keyboard_layout
            && same_text(&self.repeat_delay, &other.repeat_delay)
            && same_text(&self.repeat_rate, &other.repeat_rate)
            && same_text(&self.mouse_speed, &other.mouse_speed)
            && self.natural_scrolling == other.natural_scrolling
            && self.touchpad_tap == other.touchpad_tap
            && self.ethernet_enabled == other.ethernet_enabled
            && self.wifi_enabled == other.wifi_enabled
            && self.network_mode == other.network_mode
            && same_text(&self.ip_address, &other.ip_address)
            && same_text(&self.dns_server, &other.dns_server)
            && same_text(&self.proxy, &other.proxy)
            && self.proxy_enabled == other.proxy_enabled
            && self.auto_login == other.auto_login
            && same_text(&self.auto_login_user, &other.auto_login_user)
            && self.unsigned_policy == other.unsigned_policy
            && self.diagnostics_enabled == other.diagnostics_enabled
            && self.diagnostics_consent == other.diagnostics_consent
    }

    /// A copy of the settings.
    pub fn duplicate(&self) -> (p: Preferences)
        ensures
            p@ == self@,
    {
        Preferences {
            device_name: self.device_name.clone(),
            language: self.language.clone(),
            region: self.region.clone(),
            timezone: self.timezone.clone(),
            automatic_time: self.automatic_time,
            appearance: self.appearance,
            accent: self.accent,
            wallpaper: self.wallpaper.clone(),
            ui_scale: self.ui_scale.clone(),
            font_size: self.font_size.clone(),
            keyboard_layout: self.keyboard_layout,
            repeat_delay: self.repeat_delay.clone(),
            repeat_rate: self.repeat_rate.clone(),
            mouse_speed: self.mouse_speed.clone(),
            natural_scrolling: self.natural_scrolling,
            touchpad_tap: self.touchpad_tap,
            ethernet_enabled: self.ethernet_enabled,
            wifi_enabled: self.wifi_enabled,
            network_mode: self.network_mode,
            ip_address: self.ip_address.clone(),
            dns_server: self.dns_server.clone(),
            proxy: self.proxy.clone(),
            proxy_enabled: self.proxy_enabled,
            auto_login: self.auto_login,
            auto_login_user: self.auto_login_user.clone(),
            unsigned_policy: self.unsigned_policy,
            diagnostics_enabled: self.diagnostics_enabled,
            diagnostics_consent: self.diagnostics_consent,
        }
    }
}

} // verus!
