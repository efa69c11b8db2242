use cc_switch_auth::json::JsonValue;
use cc_switch_auth::vscode_copilot_config::{
    add_enabled_provider_id, get_enabled_providers_path, get_vscode_copilot_dir,
    parse_enabled_ids, parse_enabled_provider_ids, remove_enabled_provider_id,
};

fn s(v: &str) -> String {
    v.to_string()
}

#[test]
fn copilot_dir_uses_override_or_home() {
    assert_eq!(get_vscode_copilot_dir(Some(s("/custom/dir")), "/home/u"), "/custom/dir");
    assert_eq!(get_vscode_copilot_dir(None, "/home/u"), "/home/u/.cc-switch/vscode-copilot");
    assert_eq!(
        get_enabled_providers_path(None, "/home/u"),
        "/home/u/.cc-switch/vscode-copilot/enabled-providers.json"
    );
    assert_eq!(get_enabled_providers_path(Some(s("/o")), "/home/u"), "/o/enabled-providers.json");
}

#[test]
fn add_appends_once() {
    let ids = add_enabled_provider_id(None, "a");
    assert_eq!(ids, vec![s("a")]);
    let ids = add_enabled_provider_id(Some(ids), "b");
    assert_eq!(ids, vec![s("a"), s("b")]);
    let again = add_enabled_provider_id(Some(ids.clone()), "a");
    assert_eq!(again, ids);
}

#[test]
fn remove_drops_every_occurrence() {
    assert_eq!(remove_enabled_provider_id(None, "a"), None);
    let r = remove_enabled_provider_id(Some(vec![s("a"), s("b"), s("a"), s("c")]), "a");
    assert_eq!(r, Some(vec![s("b"), s("c")]));
    let r = remove_enabled_provider_id(Some(vec![s("b")]), "a");
    assert_eq!(r, Some(vec![s("b")]));
}

#[test]
fn remove_after_add_is_remove() {
    let base = vec![s("x"), s("y")];
    let added = add_enabled_provider_id(Some(base.clone()), "z");
    assert_eq!(remove_enabled_provider_id(Some(added), "z"), remove_enabled_provider_id(Some(base), "z"));
}

#[test]
fn parses_plain_array() {
    assert_eq!(parse_enabled_provider_ids(r#"["a", " b "]"#).unwrap(), vec![s("a"), s(" b ")]);
}

#[test]
fn parses_object_form_trimming_and_dropping_blanks() {
    let text = r#"{"enabledProviderIds": [" a ", "", 3, "b", "   "], "other": 1}"#;
    assert_eq!(parse_enabled_provider_ids(text).unwrap(), vec![s("a"), s("b")]);
    assert_eq!(parse_enabled_provider_ids(r#"{"x": 1}"#).unwrap(), Vec::<String>::new());
    assert_eq!(parse_enabled_provider_ids("42").unwrap(), Vec::<String>::new());
}

#[test]
fn invalid_json_is_an_error() {
    assert!(parse_enabled_provider_ids("not json").is_err());
    assert!(parse_enabled_provider_ids("[\"a\",").is_err());
}

#[test]
fn parse_enabled_ids_reads_value() {
    let v = JsonValue::Object(vec![(
        s("enabledProviderIds"),
        JsonValue::Array(vec![JsonValue::String(s("p1")), JsonValue::Null, JsonValue::String(s("\tp2\n"))]),
    )]);
    assert_eq!(parse_enabled_ids(&v), vec![s("p1"), s("p2")]);
    assert!(parse_enabled_ids(&JsonValue::Array(vec![])).is_empty());
}
