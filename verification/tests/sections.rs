use mochios_settings::pages::{
    auto_login_user_after, can_delete_user, clamp_selection, connection_status, consent_button_label, consent_label,
    next_section_index, position_of, previous_section_index, security_event_count, user_role, wifi_connect_refusal,
    wifi_password_acceptable,
};
use mochios_settings::sections::{build_metadata, section_matches_search, sidebar_sections, Section, SectionSymbol};

#[test]
fn settings_search_matches_category_names_and_descriptions() {
    assert!(section_matches_search(Section::General, "general"));
    assert!(section_matches_search(Section::General, "DEVICE"));
    assert!(section_matches_search(Section::Security, "execution"));
    assert!(!section_matches_search(Section::Appearance, "network"));
}

#[test]
fn empty_search_selects_everything() {
    assert!(section_matches_search(Section::Account, "   "));
}

#[test]
fn sections_round_trip_through_their_index() {
    for i in 0..8 {
        assert_eq!(Section::from_index(i).index(), i);
    }
    assert_eq!(Section::from_index(42), Section::General);
    assert_eq!(Section::DefaultApps.label(), "Default Apps");
    assert_eq!(Section::Network.symbol(), Some(SectionSymbol::Network));
    assert_eq!(Section::Security.symbol(), None);
}

#[test]
fn sidebar_filters_sections_except_on_applications() {
    let (primary, system) = sidebar_sections(1, " wi-fi ");
    assert_eq!(primary, vec![Section::Network]);
    assert!(system.is_empty());
    let (primary, system) = sidebar_sections(7, "wi-fi");
    assert_eq!(primary.len(), 5);
    assert_eq!(system.len(), 3);
}

#[test]
fn build_metadata_picks_lines() {
    let metadata = "development\nunavailable\n1.2\n42";
    assert_eq!(build_metadata(metadata, 0), "development");
    assert_eq!(build_metadata(metadata, 3), "42");
    assert_eq!(build_metadata(metadata, 4), "unavailable");
}

#[test]
fn page_decisions() {
    assert_eq!(clamp_selection(5, 3), 2);
    assert_eq!(clamp_selection(1, 3), 1);
    assert_eq!(clamp_selection(4, 0), 0);
    assert_eq!(previous_section_index(0), 0);
    assert_eq!(previous_section_index(3), 2);
    assert_eq!(next_section_index(7), 7);
    assert_eq!(next_section_index(2), 3);
    assert_eq!(user_role(0), "Administrator");
    assert_eq!(user_role(1000), "User");
    assert!(!can_delete_user(Some("root")));
    assert!(can_delete_user(Some("mochi")));
    assert!(!can_delete_user(None));
    assert!(wifi_password_acceptable(false, ""));
    assert!(!wifi_password_acceptable(true, "short"));
    assert!(wifi_password_acceptable(true, "longenough"));
    assert_eq!(connection_status(true, true, true, "home"), "Connected to home");
    assert_eq!(connection_status(false, true, true, "home"), "Not connected");
    assert_eq!(connection_status(false, false, true, "home"), "Unavailable");
    assert_eq!(consent_label(false, true), "Not sending");
    assert_eq!(consent_label(true, true), "Granted");
    assert_eq!(auto_login_user_after(false, false, Some("a")), None);
    assert_eq!(auto_login_user_after(false, true, Some("a")), Some(String::from("a")));
    assert_eq!(auto_login_user_after(true, false, Some("a")), Some(String::new()));
}

#[test]
fn security_events_are_counted_by_line() {
    assert_eq!(security_event_count(""), 0);
    assert_eq!(security_event_count("deny a\nallow b\n"), 2);
    assert_eq!(security_event_count("deny a\r\nallow b"), 2);
    assert_eq!(security_event_count("\n\n"), 2);
}

#[test]
fn automatic_login_user_is_found_by_name() {
    let names = vec![String::from("root"), String::from("mochi"), String::from("mochi")];
    assert_eq!(position_of(&names, "mochi"), Some(1));
    assert_eq!(position_of(&names, "root"), Some(0));
    assert_eq!(position_of(&names, "guest"), None);
    assert_eq!(position_of(&Vec::new(), ""), None);
}

#[test]
fn consent_button_and_wifi_refusals() {
    assert_eq!(consent_button_label(true), "Withdraw Consent");
    assert_eq!(consent_button_label(false), "Allow Sharing");
    assert_eq!(wifi_connect_refusal(None, "longenough"), Some("Select a Wi-Fi network."));
    assert_eq!(wifi_connect_refusal(Some(true), "short"), Some("Wi-Fi passwords must be 8 to 63 bytes."));
    assert_eq!(wifi_connect_refusal(Some(true), "longenough"), None);
    assert_eq!(wifi_connect_refusal(Some(false), ""), None);
}
