use mochios_settings::preferences::{config_categories, config_path, Preferences, SaveProgress, Setting};
use mochios_settings::values::{clean, parse_bool, parse_usize, single_line};

#[test]
fn single_line_removes_config_delimiters() {
    assert_eq!(single_line("mochi=OS\nnext"), "mochiOSnext");
}

#[test]
fn numeric_values_are_bounded() {
    assert_eq!(parse_usize("9", 1, 2), 1);
}

#[test]
fn diagnostics_is_offline_until_explicit_consent() {
    let defaults = Preferences::default();
    assert!(defaults.diagnostics_enabled);
    assert!(!defaults.diagnostics_consent);
}

#[test]
fn single_line_keeps_at_most_256_characters() {
    let long: String = std::iter::repeat('x').take(300).collect();
    assert_eq!(single_line(&long).chars().count(), 256);
    assert_eq!(single_line("a\r\nb"), "ab");
}

#[test]
fn clean_trims_and_cuts() {
    assert_eq!(clean("  Tokyo \t"), "Tokyo");
    let long: String = std::iter::repeat('y').take(400).collect();
    assert_eq!(clean(&format!(" {long}")).chars().count(), 256);
    assert_eq!(clean("\u{3000}mochi\u{a0}"), "mochi");
}

#[test]
fn parse_bool_reads_true_false_or_falls_back() {
    assert!(parse_bool(" true ", false));
    assert!(!parse_bool("false", true));
    assert!(parse_bool("TRUE", true));
    assert!(!parse_bool("yes", false));
}

#[test]
fn parse_usize_reads_bounded_numbers() {
    assert_eq!(parse_usize(" 2 ", 0, 5), 2);
    assert_eq!(parse_usize("+3", 0, 5), 3);
    assert_eq!(parse_usize("-1", 4, 5), 4);
    assert_eq!(parse_usize("", 4, 5), 4);
    assert_eq!(parse_usize("+", 4, 5), 4);
    assert_eq!(parse_usize("05", 0, 5), 5);
    assert_eq!(parse_usize("99999999999999999999999", 1, 5), 1);
    assert_eq!(parse_usize("2x", 1, 5), 1);
}

#[test]
fn defaults_match_the_system_defaults() {
    let p = Preferences::default();
    assert_eq!(p.device_name, "mochiOS");
    assert_eq!(p.language, "Japanese");
    assert_eq!(p.region, "Japan");
    assert_eq!(p.timezone, "Asia/Tokyo");
    assert_eq!(p.appearance, 2);
    assert_eq!(p.keyboard_layout, 1);
    assert_eq!(p.ui_scale, "1");
    assert_eq!(p.font_size, "13");
    assert_eq!(p.repeat_delay, "0.5");
    assert_eq!(p.repeat_rate, "30");
    assert!(p.ethernet_enabled);
    assert!(!p.wifi_enabled);
}

#[test]
fn apply_reads_known_keys_and_bounds_values() {
    let mut p = Preferences::default();
    let decimals = p.apply(
        "device_name = Laptop \nlanguage=English\r\nappearance=7\naccent=3\nunknown=1\nno equals sign\nui_scale= 1.25\nfont_size=14\nwifi_enabled=true\n",
    );
    assert_eq!(p.device_name, "Laptop");
    assert_eq!(p.language, "English");
    assert_eq!(p.appearance, 2);
    assert_eq!(p.accent, 3);
    assert!(p.wifi_enabled);
    assert_eq!(p.ui_scale, "1");
    assert_eq!(decimals.len(), 2);
    assert_eq!(decimals[0].setting, Setting::UiScale);
    assert_eq!(decimals[0].value, " 1.25");
    assert_eq!(decimals[1].setting, Setting::FontSize);
    assert_eq!(decimals[1].value, "14");
}

#[test]
fn apply_later_lines_win() {
    let mut p = Preferences::default();
    p.apply("region=Japan\nregion=United States");
    assert_eq!(p.region, "United States");
}

#[test]
fn saved_settings_read_back() {
    let mut p = Preferences::default();
    p.device_name = String::from("Desk");
    p.accent = 4;
    p.proxy = String::from("proxy.example:8080");
    p.diagnostics_consent = true;
    p.ui_scale = String::from("1.5");
    let previous = Preferences::default();
    let files = p.changed_configs(&previous);
    let categories: Vec<&str> = files.iter().map(|f| f.category.as_str()).collect();
    assert_eq!(categories, vec!["general", "appearance", "network", "diagnostics"]);
    let mut texts = Vec::new();
    for category in config_categories() {
        let written = files.iter().find(|f| f.category == category).map(|f| f.contents.clone());
        texts.push(written);
    }
    let (loaded, decimals) = Preferences::load_from(&texts);
    assert_eq!(loaded.device_name, "Desk");
    assert_eq!(loaded.accent, 4);
    assert_eq!(loaded.proxy, "proxy.example:8080");
    assert!(loaded.diagnostics_consent);
    assert_eq!(decimals.len(), 2);
    assert_eq!(decimals[0].value, "1.5");
}

#[test]
fn general_config_text_is_exact() {
    let mut p = Preferences::default();
    p.device_name = String::from("mochi=OS\nbox");
    assert_eq!(
        p.general_config(),
        "device_name=mochiOSbox\nlanguage=Japanese\nregion=Japan\ntimezone=Asia/Tokyo\nautomatic_time=true\n"
    );
}

#[test]
fn diagnostics_consent_is_written_only_while_enabled() {
    let mut p = Preferences::default();
    p.diagnostics_enabled = false;
    p.diagnostics_consent = true;
    assert_eq!(p.diagnostics_config(), "diagnostics_enabled=false\ndiagnostics_consent=false\n");
}

#[test]
fn unchanged_settings_write_nothing() {
    let p = Preferences::default();
    assert!(p.changed_configs(&Preferences::default()).is_empty());
    assert!(p.same_as(&p.duplicate()));
}

#[test]
fn appearance_and_security_texts() {
    let mut p = Preferences::default();
    p.unsigned_policy = 1;
    assert_eq!(p.security_config(), "unsigned_policy=1\n");
    assert_eq!(
        p.appearance_config(),
        "appearance=2\naccent=0\nwallpaper=/system/libraries/wallpapers/default.png\nui_scale=1\nfont_size=13\n"
    );
}

#[test]
fn config_path_joins_root_and_category() {
    assert_eq!(config_path("/var/config", "general"), "/var/config/general/settings.conf");
    assert_eq!(config_categories().len(), 7);
}

#[test]
fn single_line_output_is_clean_and_stable() {
    let long: String = "a=\r\nb".repeat(200);
    let once = single_line(&long);
    assert_eq!(once.chars().count(), 256);
    assert!(!once.contains('\n') && !once.contains('\r') && !once.contains('='));
    assert_eq!(single_line(&once), once);
}

#[test]
fn apply_keeps_choices_in_range_and_texts_short() {
    let mut p = Preferences::default();
    let long = "x".repeat(400);
    let text = format!("appearance=7\naccent=99\nkeyboard_layout=3\nnetwork_mode=2\nunsigned_policy=5\ndevice_name={long}\n");
    p.apply(&text);
    assert_eq!(p.appearance, 2);
    assert_eq!(p.accent, 0);
    assert_eq!(p.keyboard_layout, 1);
    assert_eq!(p.network_mode, 0);
    assert_eq!(p.unsigned_policy, 0);
    assert_eq!(p.device_name.chars().count(), 256);
}

#[test]
fn saving_stops_at_the_first_failed_write() {
    let mut progress = SaveProgress::new();
    let outcomes = [true, false, true];
    let mut attempted = Vec::new();
    while let Some(index) = progress.next_file(3) {
        attempted.push(index);
        progress.record(outcomes[index]);
    }
    assert_eq!(attempted, vec![0, 1]);
    assert_eq!(progress.written, 1);
    assert!(progress.failed);
    let mut progress = SaveProgress::new();
    while let Some(_) = progress.next_file(2) {
        progress.record(true);
    }
    assert_eq!(progress.written, 2);
    assert!(!progress.failed);
}
