use rm_monitor::patch_metadata::{
    parse_i64, plan_shell_version, plan_version_pin, shell_version_edit, version_pin, MetadataError,
    ShellVersionEdit, VersionValue,
};

#[test]
fn a_missing_shell_version_list_is_replaced() {
    assert_eq!(shell_version_edit(&None, "46"), ShellVersionEdit::ReplaceWithList);
}

#[test]
fn a_new_shell_version_is_appended() {
    let entries = Some(vec![Some("45".to_string())]);
    assert_eq!(shell_version_edit(&entries, "46"), ShellVersionEdit::Append);
}

#[test]
fn already_present_shell_version_is_a_no_op() {
    let entries = Some(vec![Some("46".to_string())]);
    assert_eq!(shell_version_edit(&entries, "46"), ShellVersionEdit::AlreadyListed);
}

#[test]
fn non_string_entries_never_match() {
    let entries = Some(vec![None, Some("45".to_string())]);
    assert_eq!(shell_version_edit(&entries, "46"), ShellVersionEdit::Append);
}

#[test]
fn pins_the_version_upwards_only() {
    assert_eq!(version_pin(&Some(VersionValue::Number(Some(27))), 9999), (27, true));
    assert_eq!(version_pin(&Some(VersionValue::Number(Some(9999))), 9999), (9999, false));
    assert_eq!(version_pin(&Some(VersionValue::Number(Some(9999))), 10), (9999, false));
}

#[test]
fn missing_version_field_is_treated_as_zero() {
    assert_eq!(version_pin(&None, 1), (0, true));
    assert_eq!(version_pin(&Some(VersionValue::Other), 1), (0, true));
    assert_eq!(version_pin(&Some(VersionValue::Number(None)), 1), (0, true));
}

#[test]
fn string_versions_are_parsed() {
    assert_eq!(version_pin(&Some(VersionValue::Text("42".to_string())), 10), (42, false));
    assert_eq!(version_pin(&Some(VersionValue::Text("v42".to_string())), 10), (0, true));
}

#[test]
fn invalid_pin_argument_is_rejected() {
    assert_eq!(parse_i64("not-a-number"), None);
    assert_eq!(parse_i64("9999"), Some(9999));
}

#[test]
fn parse_i64_follows_the_standard_grammar() {
    assert_eq!(parse_i64("+7"), Some(7));
    assert_eq!(parse_i64("-7"), Some(-7));
    assert_eq!(parse_i64("007"), Some(7));
    assert_eq!(parse_i64(""), None);
    assert_eq!(parse_i64("-"), None);
    assert_eq!(parse_i64(" 7"), None);
    assert_eq!(parse_i64("7 "), None);
    assert_eq!(parse_i64("1_000"), None);
    assert_eq!(parse_i64("9223372036854775807"), Some(i64::MAX));
    assert_eq!(parse_i64("-9223372036854775808"), Some(i64::MIN));
    assert_eq!(parse_i64("9223372036854775808"), None);
    assert_eq!(parse_i64("-9223372036854775809"), None);
    assert_eq!(parse_i64("99999999999999999999999"), None);
    for text in ["0", "12", "-34", "+5", "x", "--1", "+-1", "1e3"] {
        assert_eq!(parse_i64(text), text.parse::<i64>().ok(), "{text}");
    }
}

#[test]
fn metadata_errors_render_like_the_cli() {
    assert_eq!(
        MetadataError::NotFound("/x/metadata.json".to_string()).message(),
        "Metadata file not found: /x/metadata.json"
    );
    assert_eq!(
        MetadataError::InvalidJson {
            path: "/x/metadata.json".to_string(),
            source: "EOF".to_string(),
        }
        .message(),
        "Invalid JSON in /x/metadata.json: EOF"
    );
}

#[test]
fn metadata_text_without_a_list_gets_one() {
    assert_eq!(
        plan_shell_version(r#"{"uuid": "test@ext"}"#, "m.json", "46"),
        Ok(ShellVersionEdit::ReplaceWithList)
    );
    assert_eq!(
        plan_shell_version(r#"{"shell-version": "46"}"#, "m.json", "46"),
        Ok(ShellVersionEdit::ReplaceWithList)
    );
}

#[test]
fn metadata_text_list_is_appended_to_or_kept() {
    assert_eq!(
        plan_shell_version(r#"{"shell-version": ["45"]}"#, "m.json", "46"),
        Ok(ShellVersionEdit::Append)
    );
    assert_eq!(
        plan_shell_version(r#"{"shell-version": [46, "45"]}"#, "m.json", "46"),
        Ok(ShellVersionEdit::Append)
    );
    assert_eq!(
        plan_shell_version(r#"{"shell-version": ["46"]}"#, "m.json", "46"),
        Ok(ShellVersionEdit::AlreadyListed)
    );
}

#[test]
fn metadata_text_version_is_pinned_upwards_only() {
    assert_eq!(plan_version_pin(r#"{"uuid": "t", "version": 27}"#, "m.json", 9999), Ok((27, true)));
    assert_eq!(plan_version_pin(r#"{"version": 9999}"#, "m.json", 9999), Ok((9999, false)));
    assert_eq!(plan_version_pin(r#"{"version": "12000"}"#, "m.json", 9999), Ok((12000, false)));
    assert_eq!(plan_version_pin(r#"{"uuid": "t"}"#, "m.json", 1), Ok((0, true)));
    assert_eq!(plan_version_pin(r#"{"version": 1.5}"#, "m.json", 1), Ok((0, true)));
}

#[test]
fn invalid_metadata_text_names_its_path() {
    match plan_shell_version("{not json", "/x/metadata.json", "46") {
        Err(MetadataError::InvalidJson { path, .. }) => assert_eq!(path, "/x/metadata.json"),
        other => panic!("unexpected {other:?}"),
    }
    assert!(matches!(
        plan_version_pin("{not json", "/x/metadata.json", 1),
        Err(MetadataError::InvalidJson { .. })
    ));
}
