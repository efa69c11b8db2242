use cc_switch_auth::machine_id::{fallback_machine_id, machine_id_from_files, platform_uuid_in};

#[test]
fn platform_uuid_is_read_from_ioreg_output() {
    let out = "+-o Root  <class IOPlatformExpertDevice>\n    {\n      \"IOPlatformSerialNumber\" = \"C02XYZ\"\r\n      \"IOPlatformUUID\" = \"12345678-ABCD-EF00-1111-222233334444\"\n    }\n";
    assert_eq!(platform_uuid_in(out), Some("12345678-ABCD-EF00-1111-222233334444".to_string()));
}

#[test]
fn platform_uuid_skips_lines_without_a_fourth_field() {
    let out = "\"IOPlatformUUID\" = broken\n\"IOPlatformUUID\" = \"second\"";
    assert_eq!(platform_uuid_in(out), Some("second".to_string()));
    assert_eq!(platform_uuid_in("\"IOPlatformUUID\" = broken\n"), None);
    assert_eq!(platform_uuid_in(""), None);
    assert_eq!(platform_uuid_in("no key here \"a\" \"b\""), None);
}

#[test]
fn platform_uuid_keeps_a_carriage_return_only_without_newline() {
    // A final line without `\n` keeps its `\r`, as `str::lines` does.
    assert_eq!(platform_uuid_in("\"IOPlatformUUID\" = \"u\r"), Some("u\r".to_string()));
    assert_eq!(platform_uuid_in("\"IOPlatformUUID\" = \"u\r\n"), Some("u".to_string()));
}

#[test]
fn machine_id_files_are_tried_in_order_and_trimmed() {
    assert_eq!(
        machine_id_from_files(Some("  abc\n".to_string()), Some("def".to_string())),
        Some("abc".to_string())
    );
    assert_eq!(machine_id_from_files(None, Some("def\n".to_string())), Some("def".to_string()));
    assert_eq!(machine_id_from_files(None, None), None);
}

#[test]
fn fallback_machine_id_joins_user_and_host() {
    assert_eq!(fallback_machine_id("ann", Some("box".to_string())), "ann-box");
    assert_eq!(fallback_machine_id("ann", None), "ann-unknown");
}
