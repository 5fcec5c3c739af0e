use mochios_settings::applications::{
    application_matches_search, association_extensions, content_type_for_extension, default_application_name,
    file_associations, parse_about, parse_string_array_field, parse_string_field, set_default, sort_applications, valid_extension,
    ApplicationEntry, AssociationApplication, FileAssociationSetting,
};
use mochios_settings::grants::{application_grants, persistent_grant_count, revoke_grants};

fn entry(name: &str, bundle: &str, extensions: &[&str]) -> ApplicationEntry {
    ApplicationEntry {
        name: name.to_string(),
        bundle_id: bundle.to_string(),
        developer: String::from("Unknown developer"),
        executable: format!("/applications/{bundle}/main"),
        icon: None,
        document_extensions: extensions.iter().map(|e| e.to_string()).collect(),
    }
}

#[test]
fn application_metadata_parser_requires_quoted_values() {
    assert_eq!(
        parse_string_field("name = \"Settings\"\nversion = 1", "name"),
        Some(String::from("Settings"))
    );
    assert_eq!(parse_string_field("name = Settings", "name"), None);
}

#[test]
fn string_field_takes_the_first_quoted_line() {
    assert_eq!(parse_string_field("name = x\nname = \"Second\"", "name"), Some(String::from("Second")));
    assert_eq!(parse_string_field("name = \"\"", "name"), Some(String::new()));
    assert_eq!(parse_string_field("name = \"", "name"), None);
    assert_eq!(parse_string_field("title = \"x\"", "name"), None);
}

#[test]
fn string_arrays_span_lines() {
    let content = "name = \"Editor\"\ndocument_extensions = [\n  \".TXT\", \"md\",\n  \"rs\"\n]\nother = [\"no\"]";
    assert_eq!(parse_string_array_field(content, "document_extensions"), vec![".TXT", "md", "rs"]);
    assert_eq!(parse_string_array_field("document_extensions = [\"a\", \"b\"]", "document_extensions"), vec!["a", "b"]);
    assert!(parse_string_array_field("document_extensions = \"a\"", "document_extensions").is_empty());
}

#[test]
fn extensions_are_validated() {
    assert!(valid_extension("tar-gz_1"));
    assert!(!valid_extension(""));
    assert!(!valid_extension("a.b"));
    assert!(!valid_extension(&"x".repeat(64)));
    assert!(valid_extension(&"x".repeat(63)));
    assert!(!valid_extension("é"));
}

#[test]
fn about_files_describe_applications() {
    let content = "name = \"Editor\"\nbundle_id = \"org.mochi.editor\"\nentry = \"editor\"\nvendor = \"Mochi\"\nicon = \"icon.svg\"\ndocument_extensions = [\"..TXT\", \"bad.ext\", \"Md\"]";
    let about = parse_about(content).unwrap();
    assert_eq!(about.name, "Editor");
    assert_eq!(about.bundle_id, "org.mochi.editor");
    assert_eq!(about.entry, "editor");
    assert_eq!(about.developer, "Mochi");
    assert_eq!(about.icon, Some(String::from("icon.svg")));
    assert_eq!(about.document_extensions, vec!["txt", "md"]);
    assert!(parse_about("name = \"A\"\nbundle_id = \"b\"").is_none());
    let about = parse_about("name = \"A\"\nbundle_id = \"b\"\nentry = \"c\"").unwrap();
    assert_eq!(about.developer, "Unknown developer");
}

#[test]
fn applications_are_sorted_by_name_then_bundle() {
    let apps = vec![entry("beta", "b.2", &[]), entry("Alpha", "a", &[]), entry("Beta", "b.1", &[]), entry("beta", "b.1", &["x"])];
    let sorted = sort_applications(apps);
    let order: Vec<(&str, &str)> = sorted.iter().map(|a| (a.name.as_str(), a.bundle_id.as_str())).collect();
    assert_eq!(order, vec![("Alpha", "a"), ("Beta", "b.1"), ("beta", "b.1"), ("beta", "b.2")]);
    assert!(sorted[1].document_extensions.is_empty());
    assert_eq!(sorted[2].document_extensions, vec!["x"]);
}

#[test]
fn file_associations_list_handlers_and_defaults() {
    let apps = vec![entry("Editor", "org.editor", &["txt", "md"]), entry("Viewer", "org.viewer", &["md", "png"])];
    let extensions = association_extensions(&apps);
    assert_eq!(extensions, vec!["md", "png", "txt"]);
    let resolved = vec![Some(String::from("org.viewer")), Some(String::from("org.other")), None];
    let mut associations = file_associations(&apps, &extensions, &resolved);
    assert_eq!(associations.len(), 3);
    assert_eq!(associations[0].handlers.len(), 2);
    assert_eq!(associations[0].default_bundle_id, "org.viewer");
    assert_eq!(associations[1].default_bundle_id, "org.viewer");
    assert_eq!(associations[2].default_bundle_id, "org.editor");
    set_default(&mut associations, "md", "org.editor");
    assert_eq!(associations[0].default_bundle_id, "org.editor");
    assert_eq!(associations[0].extension, "md");
    set_default(&mut associations, "gif", "org.editor");
    assert_eq!(associations[1].default_bundle_id, "org.viewer");
}

#[test]
fn content_types_of_extensions() {
    assert_eq!(content_type_for_extension("json"), "application/json");
    assert_eq!(content_type_for_extension("hpp"), "text/x-c++");
    assert_eq!(content_type_for_extension("yml"), "text/yaml");
    assert_eq!(content_type_for_extension("md"), "text/markdown");
    assert_eq!(content_type_for_extension("txt"), "text/plain");
}

#[test]
fn application_search_uses_name_and_bundle() {
    let app = entry("Text Editor", "org.mochi.Editor", &[]);
    assert!(application_matches_search(&app, ""));
    assert!(application_matches_search(&app, " EDITOR "));
    assert!(application_matches_search(&app, "mochi"));
    assert!(!application_matches_search(&app, "viewer"));
}

#[test]
fn grants_are_listed_once_and_sorted() {
    let db = "/app/a\td1\tnet\n/app/a\td1\tcamera\n/app/b\td2\tnet\n/app/a\td1\tnet\n/app/a\n\n/app/a\td1\n";
    assert_eq!(application_grants(db, "/app/a"), vec!["camera", "net"]);
    assert!(application_grants(db, "/app/c").is_empty());
    assert_eq!(persistent_grant_count(db), 6);
}

#[test]
fn revoking_grants_keeps_other_lines() {
    let db = "/app/a\td1\tnet\n/app/b\td2\tnet\n/app/a\td1\tcamera";
    let (kept, removed) = revoke_grants(db, "/app/a");
    assert_eq!(removed, 2);
    assert_eq!(kept, "/app/b\td2\tnet\n");
    let (kept, removed) = revoke_grants(db, "/app/z");
    assert_eq!(removed, 0);
    assert_eq!(kept, "/app/a\td1\tnet\n/app/b\td2\tnet\n/app/a\td1\tcamera\n");
}

#[test]
fn default_application_is_named_by_its_handler() {
    let apps = vec![entry("Editor", "org.editor", &["md"]), entry("Viewer", "org.viewer", &["md"])];
    let extensions = association_extensions(&apps);
    let associations = file_associations(&apps, &extensions, &vec![Some(String::from("org.viewer"))]);
    assert_eq!(default_application_name(&associations[0]), "Viewer");
    let unknown = FileAssociationSetting {
        extension: String::from("md"),
        handlers: vec![AssociationApplication { name: String::from("Editor"), bundle_id: String::from("org.editor") }],
        default_bundle_id: String::from("org.gone"),
    };
    assert_eq!(default_application_name(&unknown), "Not set");
}

#[test]
fn revoked_executables_keep_no_grant() {
    let db = "/app/a\td1\tnet\n/app/b\td2\tnet\n/app/a\td1\tcamera\r";
    let (kept, _) = revoke_grants(db, "/app/a");
    assert!(application_grants(&kept, "/app/a").is_empty());
    assert_eq!(application_grants(&kept, "/app/b"), vec!["net"]);
}
