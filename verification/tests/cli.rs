use turnstile::cli::{
    apply_action, config_origins, edit_config_text, empty_list_message, extract_config_path, sitekey, updated_message,
    SitekeyAction,
};

fn args(v: &[&str]) -> Vec<String> {
    v.iter().map(|s| s.to_string()).collect()
}

#[test]
fn sitekey_parses_actions_and_config_path() {
    let c = sitekey(&args(&["list"])).unwrap();
    assert_eq!(c.config_path, "webrify.toml");
    assert!(matches!(c.action, SitekeyAction::List));
    let c = sitekey(&args(&["add", "https://app2.example.com"])).unwrap();
    assert!(matches!(c.action, SitekeyAction::Add(ref o) if o == "https://app2.example.com"));
    let c = sitekey(&args(&["remove", "https://old.example.com", "--config", "/etc/webrify.toml"])).unwrap();
    assert_eq!(c.config_path, "/etc/webrify.toml");
    assert!(matches!(c.action, SitekeyAction::Remove(ref o) if o == "https://old.example.com"));
    let c = sitekey(&args(&["list", "--config", "/etc/webrify.toml"])).unwrap();
    assert_eq!(c.config_path, "/etc/webrify.toml");
}

#[test]
fn sitekey_reports_usage_errors() {
    assert_eq!(
        sitekey(&args(&[])).unwrap_err(),
        "missing action: use `add <origin>`, `remove <origin>`, or `list`"
    );
    assert_eq!(sitekey(&args(&["add"])).unwrap_err(), "missing origin to add");
    assert_eq!(sitekey(&args(&["remove", "--x"])).unwrap_err(), "missing origin to remove");
    assert_eq!(sitekey(&args(&["frob"])).unwrap_err(), "unknown action `frob`: use add, remove, or list");
}

#[test]
fn config_path_is_the_value_after_the_first_flag() {
    assert_eq!(extract_config_path(&args(&["--config", "a", "--config", "b"])), Some("a".to_string()));
    assert_eq!(extract_config_path(&args(&["list", "--config"])), None);
    assert_eq!(extract_config_path(&args(&["list"])), None);
}

#[test]
fn add_is_idempotent_and_remove_drops_all_copies() {
    let list = vec!["a".to_string(), "b".to_string(), "a".to_string()];
    let added = apply_action(list.clone(), &SitekeyAction::Add("c".into()));
    assert_eq!(added, vec!["a", "b", "a", "c"]);
    let again = apply_action(added.clone(), &SitekeyAction::Add("c".into()));
    assert_eq!(again, added);
    let removed = apply_action(list.clone(), &SitekeyAction::Remove("a".into()));
    assert_eq!(removed, vec!["b"]);
    assert_eq!(apply_action(list.clone(), &SitekeyAction::List), list);
}

#[test]
fn cli_messages() {
    assert_eq!(empty_list_message("webrify.toml"), "(no allowed_origins in webrify.toml)");
    assert_eq!(updated_message("w.toml", 3), "updated w.toml — 3 allowed_origins");
}

const CONFIG: &str = "bind_addr = \"127.0.0.1:3000\"\nallowed_origins = [\"https://a.com\", 3, \"https://b.com\"]\n";

#[test]
fn config_origins_lists_the_string_entries() {
    assert_eq!(config_origins(CONFIG).unwrap(), vec!["https://a.com".to_string(), "https://b.com".to_string()]);
    assert_eq!(config_origins("bind_addr = \"x\"\n").unwrap(), Vec::<String>::new());
    assert_eq!(config_origins("allowed_origins = \"https://a.com\"\n").unwrap(), Vec::<String>::new());
    assert!(config_origins("allowed_origins = [").is_err());
}

#[test]
fn edit_config_text_rewrites_only_the_origins() {
    let added = edit_config_text(CONFIG, &SitekeyAction::Add("https://c.com".into())).unwrap();
    assert_eq!(added.origins, vec!["https://a.com", "https://b.com", "https://c.com"]);
    assert_eq!(config_origins(&added.text).unwrap(), added.origins);
    assert!(added.text.contains("bind_addr = \"127.0.0.1:3000\""), "{}", added.text);
    let removed = edit_config_text(&added.text, &SitekeyAction::Remove("https://c.com".into())).unwrap();
    assert_eq!(removed.origins, vec!["https://a.com", "https://b.com"]);
    assert_eq!(config_origins(&removed.text).unwrap(), removed.origins);
    assert!(edit_config_text("not = [toml", &SitekeyAction::List).is_err());
}
