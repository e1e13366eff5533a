use rm_monitor::gsettings_strv::{
    append_strv, format_strv, parse_strv, remove_strv, strv_command_output, unique_values,
};

#[test]
fn parse_and_format_round_trip_shape() {
    let parsed = parse_strv(Some("['a', 'b']"));
    assert_eq!(parsed, vec!["a".to_string(), "b".to_string()]);
    assert_eq!(format_strv(&parsed), "['a', 'b']");
}

#[test]
fn append_dedupes() {
    assert_eq!(append_strv(Some("['a']"), "a"), vec!["a".to_string()]);
    assert_eq!(
        append_strv(Some("['a']"), "b"),
        vec!["a".to_string(), "b".to_string()]
    );
}

#[test]
fn strips_as_prefix() {
    assert_eq!(parse_strv(Some("@as ['x']")), vec!["x".to_string()]);
}

#[test]
fn empty_and_missing_input_parse_to_nothing() {
    assert!(parse_strv(None).is_empty());
    assert!(parse_strv(Some("   ")).is_empty());
    assert!(parse_strv(Some("@as []")).is_empty());
    assert!(parse_strv(Some("not a list")).is_empty());
    assert!(parse_strv(Some("[a, b]")).is_empty());
}

#[test]
fn double_quotes_and_escapes_are_understood() {
    assert_eq!(
        parse_strv(Some(r#"["a b", 'it\'s', 'back\\slash']"#)),
        vec!["a b".to_string(), "it's".to_string(), "back\\slash".to_string()]
    );
}

#[test]
fn format_escapes_quotes_and_backslashes() {
    assert_eq!(
        format_strv(&["it's".to_string(), "a\\b".to_string()]),
        r"['it\'s', 'a\\b']"
    );
    assert_eq!(format_strv(&[]), "[]");
}

#[test]
fn formatted_lists_parse_back() {
    let values = vec!["x@y".to_string(), "it's".to_string(), "a\\b".to_string()];
    assert_eq!(parse_strv(Some(&format_strv(&values))), values);
}

#[test]
fn unique_values_keeps_first_appearance() {
    let values = vec!["b".to_string(), "a".to_string(), "b".to_string(), "a".to_string()];
    assert_eq!(unique_values(values), vec!["b".to_string(), "a".to_string()]);
}

#[test]
fn append_ignores_empty_values() {
    assert_eq!(append_strv(Some("['a', 'a']"), ""), vec!["a".to_string()]);
}

#[test]
fn remove_drops_every_occurrence() {
    assert_eq!(
        remove_strv(Some("['a', 'b', 'a', 'c']"), "a"),
        vec!["b".to_string(), "c".to_string()]
    );
    assert!(remove_strv(None, "a").is_empty());
}

#[test]
fn command_output_rejects_unknown_actions() {
    assert_eq!(strv_command_output("toggle", None, "x"), Err(2));
    assert_eq!(strv_command_output("append", Some("['a']"), "b"), Ok("['a', 'b']".to_string()));
    assert_eq!(strv_command_output("remove", Some("['a', 'b']"), "a"), Ok("['b']".to_string()));
}

#[test]
fn appended_lists_hold_each_value_once() {
    let appended = append_strv(Some("['a', 'b', 'a']"), "c");
    assert_eq!(appended, vec!["a".to_string(), "b".to_string(), "c".to_string()]);
}

#[test]
fn removed_lists_never_hold_the_value() {
    let removed = remove_strv(Some("['a', 'b', 'b', 'a']"), "a");
    assert_eq!(removed, vec!["b".to_string()]);
}
