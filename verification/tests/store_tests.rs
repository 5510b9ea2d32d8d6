//! Names, paths and settings.

use cielago::store::{
    collection_path, collections_dir, config_dir, legacy_dir_names, match_name, resolve_collection,
    slugify, sorted_names, split_editor, AppConfig,
};

#[test]
fn slugify_basic() {
    assert_eq!(slugify("My Pet API"), "my-pet-api");
    assert_eq!(slugify("pets_v2 (internal)"), "pets-v2-internal");
    assert_eq!(slugify("!!!"), "collection");
    assert_eq!(slugify("a"), "a");
}

#[test]
fn match_name_exact_then_slug() {
    let names = vec!["Some API".to_string(), "Other API".to_string()];
    assert_eq!(match_name(&names, "Some API").as_deref(), Some("Some API"));
    assert_eq!(match_name(&names, "some api").as_deref(), Some("Some API"));
    assert_eq!(match_name(&names, "some-api").as_deref(), Some("Some API"));
    assert_eq!(match_name(&names, "nope"), None);
}

#[test]
fn slugs_of_slugs_are_themselves() {
    for name in ["My Pet API", "--x--", "ünïcode", ""] {
        let s = slugify(name);
        assert_eq!(slugify(&s), s);
        assert!(s.chars().all(|c| c.is_ascii_lowercase() || c.is_ascii_digit() || c == '-'));
    }
}

#[test]
fn same_slug_same_file() {
    assert_eq!(config_dir("/home/u"), "/home/u/.config/cielago");
    assert_eq!(config_dir("/home/u/"), "/home/u/.config/cielago");
    assert_eq!(config_dir("/"), "/.config/cielago");
    assert_eq!(collections_dir("/home/u"), "/home/u/.config/cielago/collections");
    assert_eq!(
        collection_path("/home/u", "Some API"),
        "/home/u/.config/cielago/collections/some-api.json"
    );
    assert_eq!(
        collection_path("/h", "Some API"),
        collection_path("/h", "some_api")
    );
    assert_eq!(legacy_dir_names(), vec!["manpost", "stableman", "getman"]);
}

#[test]
fn unknown_names_list_what_there_is() {
    let names = vec!["Some API".to_string(), "Other \"API\"".to_string()];
    assert_eq!(resolve_collection(&names, "SOME api").unwrap(), "Some API");
    assert_eq!(
        resolve_collection(&names, "a \"b\"").unwrap_err(),
        "No collection named \"a \\\"b\\\"\".\n\nAvailable: Some API, Other \"API\""
    );
    assert!(resolve_collection(&vec![], "x")
        .unwrap_err()
        .starts_with("No collections yet. Import one:"));
}

#[test]
fn names_are_sorted() {
    let names: Vec<String> = ["b", "a", "", "aa", "B"].iter().map(|s| s.to_string()).collect();
    assert_eq!(sorted_names(&names), vec!["", "B", "a", "aa", "b"]);
}

#[test]
fn editor_comes_from_the_settings_first() {
    let mut c = AppConfig::default();
    assert_eq!(c.editor_cmd(None), "vi");
    assert_eq!(c.editor_cmd(Some("nano".to_string())), "nano");
    assert_eq!(c.editor_cmd(Some(String::new())), "vi");
    c.editor = Some("code --wait".to_string());
    assert_eq!(c.editor_cmd(Some("nano".to_string())), "code --wait");
    assert_eq!(
        split_editor("code --wait  -n"),
        ("code".to_string(), vec!["--wait".to_string(), "-n".to_string()])
    );
    assert_eq!(split_editor("  "), ("vi".to_string(), vec![]));
}

#[test]
fn last_collection_follows_renames_and_deletions() {
    let mut c = AppConfig::default();
    c.last_collection = Some("a".to_string());
    assert!(!c.follow_rename("b", "c"));
    assert!(c.follow_rename("a", "c"));
    assert_eq!(c.last_collection.as_deref(), Some("c"));
    assert!(!c.forget("a"));
    assert!(c.forget("c"));
    assert_eq!(c.last_collection, None);
}
