use rm_monitor::patch_text::{
    replace_known_snippet, replace_known_snippet_optional, replace_known_snippet_or_patterns,
    replace_known_snippet_with_migration, replace_stale_balanced_block, replace_stale_block,
    replace_stale_block_including_anchor, Migration, StaleBlockOutcome,
};

#[test]
fn already_marker_short_circuits() {
    let (out, status) =
        replace_known_snippet("aaMARKER", &["missing"], "x", "MARKER", "t").unwrap();
    assert_eq!(status, "already");
    assert_eq!(out, "aaMARKER");
}

#[test]
fn replaces_first_snippet() {
    let (out, status) =
        replace_known_snippet("hello world", &["world"], "rust", "MARKER", "t").unwrap();
    assert_eq!(status, "patched");
    assert_eq!(out, "hello rust");
}

#[test]
fn marker_with_stale_body_is_upgraded_from_a_known_old_snippet() {
    let (out, status) = replace_known_snippet(
        "prefix OLD_BODY MARKER suffix",
        &["OLD_BODY"],
        "NEW_BODY",
        "MARKER",
        "t",
    )
    .unwrap();
    assert_eq!(status, "patched");
    assert_eq!(out, "prefix NEW_BODY MARKER suffix");
}

#[test]
fn marker_with_unrecognized_body_and_no_known_old_snippet_is_left_alone() {
    let (out, status) = replace_known_snippet(
        "prefix UNRECOGNIZED_BODY MARKER suffix",
        &["OLD_BODY"],
        "NEW_BODY",
        "MARKER",
        "t",
    )
    .unwrap();
    assert_eq!(status, "already");
    assert_eq!(out, "prefix UNRECOGNIZED_BODY MARKER suffix");
}

#[test]
fn replace_stale_block_replaces_a_stale_body_and_preserves_trailing_whitespace() {
    let content = "prefix\nSTART\nold body\nEND\nsuffix";
    match replace_stale_block(content, "START\n", "END", "START\nnew body") {
        StaleBlockOutcome::Replaced(out) => {
            assert_eq!(out, "prefix\nSTART\nnew body\nEND\nsuffix");
        }
        other => panic!("expected Replaced, got {other:?}"),
    }
}

#[test]
fn replace_stale_block_reports_unchanged_when_body_already_matches() {
    let content = "prefix\nSTART\ncurrent body\nEND\nsuffix";
    assert_eq!(
        replace_stale_block(content, "START\n", "END", "START\ncurrent body"),
        StaleBlockOutcome::Unchanged
    );
}

#[test]
fn replace_stale_block_reports_anchors_missing() {
    assert_eq!(
        replace_stale_block("no markers here", "START\n", "END", "x"),
        StaleBlockOutcome::AnchorsMissing
    );
    assert_eq!(
        replace_stale_block("START\nbody, no end anchor", "START\n", "END", "x"),
        StaleBlockOutcome::AnchorsMissing
    );
}

#[test]
fn replace_stale_block_including_anchor_replaces_up_to_and_including_the_tail() {
    let content = "prefix\nSTART\nold body\nTAIL\nafter";
    match replace_stale_block_including_anchor(content, "START\n", "TAIL", "START\nnew body\nTAIL")
    {
        StaleBlockOutcome::Replaced(out) => {
            assert_eq!(out, "prefix\nSTART\nnew body\nTAIL\nafter");
        }
        other => panic!("expected Replaced, got {other:?}"),
    }
}

#[test]
fn replace_stale_block_including_anchor_reports_unchanged_and_anchors_missing() {
    let content = "START\ncurrent body\nTAIL\nafter";
    assert_eq!(
        replace_stale_block_including_anchor(
            content,
            "START\n",
            "TAIL",
            "START\ncurrent body\nTAIL"
        ),
        StaleBlockOutcome::Unchanged
    );
    assert_eq!(
        replace_stale_block_including_anchor("no markers", "START\n", "TAIL", "x"),
        StaleBlockOutcome::AnchorsMissing
    );
}

#[test]
fn replace_stale_balanced_block_replaces_a_stale_function_body() {
    let content = "before\nfunction f() {\n  old();\n}\nafter";
    match replace_stale_balanced_block(
        content,
        "function f() {",
        '{',
        '}',
        None,
        "function f() {\n  new();\n}",
    ) {
        StaleBlockOutcome::Replaced(out) => {
            assert_eq!(out, "before\nfunction f() {\n  new();\n}\nafter");
        }
        other => panic!("expected Replaced, got {other:?}"),
    }
}

#[test]
fn replace_stale_balanced_block_handles_nested_delimiters() {
    let content = "wire(target, (x) =>\n  inner(x)\n);\nafter";
    match replace_stale_balanced_block(
        content,
        "wire(target,",
        '(',
        ')',
        Some(';'),
        "wire(target, (x) =>\n  inner2(x)\n);",
    ) {
        StaleBlockOutcome::Replaced(out) => {
            assert_eq!(out, "wire(target, (x) =>\n  inner2(x)\n);\nafter");
        }
        other => panic!("expected Replaced, got {other:?}"),
    }
}

#[test]
fn replace_stale_balanced_block_reports_unchanged_and_anchors_missing() {
    let content = "function f() {\n  body();\n}";
    assert_eq!(
        replace_stale_balanced_block(
            content,
            "function f() {",
            '{',
            '}',
            None,
            "function f() {\n  body();\n}",
        ),
        StaleBlockOutcome::Unchanged
    );
    assert_eq!(
        replace_stale_balanced_block("no function here", "function f() {", '{', '}', None, "x"),
        StaleBlockOutcome::AnchorsMissing
    );
}

#[test]
fn missing_target_reports_the_target_name() {
    let err = replace_known_snippet("abc", &["zzz"], "x", "MARKER", "demo target").unwrap_err();
    assert_eq!(err.0, "demo target");
    assert_eq!(err.message(), "Could not find target code in demo target");
}

#[test]
fn stale_block_with_unbalanced_braces_reports_anchors_missing() {
    assert_eq!(
        replace_stale_balanced_block("function f() {\n  x();\n", "function f() {", '{', '}', None, "x"),
        StaleBlockOutcome::AnchorsMissing
    );
}

#[test]
fn migrations_upgrade_older_forms_before_snippets() {
    let migrations = [
        Migration { from: "old", to: "MARK new", all: true, required_marker: None },
        Migration { from: "never", to: "x", all: false, required_marker: Some("absent") },
    ];
    let (out, status) = replace_known_snippet_with_migration(
        "a old b old",
        &["zzz"],
        "R",
        "MARK",
        &migrations,
        "t",
    )
    .unwrap();
    assert_eq!(status, "migrated");
    assert_eq!(out, "a MARK new b MARK new");
}

#[test]
fn required_marker_gates_a_migration() {
    let migrations = [Migration { from: "old", to: "new", all: false, required_marker: Some("GATE") }];
    let (out, status) =
        replace_known_snippet_with_migration("old old", &["old"], "R", "MARK", &migrations, "t")
            .unwrap();
    assert_eq!(status, "patched");
    assert_eq!(out, "R old");
}

#[test]
fn partial_migration_falls_back_to_the_current_replacement() {
    let migrations = [Migration { from: "style", to: "STYLE", all: false, required_marker: None }];
    let (out, status) = replace_known_snippet_with_migration(
        "style old",
        &["old"],
        "MARK body",
        "MARK",
        &migrations,
        "t",
    )
    .unwrap();
    assert_eq!(status, "patched");
    assert_eq!(out, "STYLE MARK body");
}

#[test]
fn migration_without_target_is_an_error() {
    assert!(replace_known_snippet_with_migration("plain", &["x"], "R", "MARK", &[], "t").is_err());
}

#[test]
fn optional_replacement_skips_missing_targets() {
    assert_eq!(replace_known_snippet_optional("abc", &["zz"], "R", "M", "t"), "abc");
    // A marked text that already holds the replacement is left alone.
    assert_eq!(replace_known_snippet_optional("abcMR", &["b"], "R", "M", "t"), "abcMR");
    // A marked text with a stale body is upgraded, as the required form would be.
    assert_eq!(replace_known_snippet_optional("abcM", &["b"], "R", "M", "t"), "aRcM");
    // A marked text with no target left is kept.
    assert_eq!(replace_known_snippet_optional("acM", &["b"], "R", "M", "t"), "acM");
    assert_eq!(replace_known_snippet_optional("abcb", &["zz", "b"], "R", "M", "t"), "aRcb");
}

#[test]
fn escaped_patterns_match_their_literal_text() {
    // The pattern `regex::escape` makes of "a.b(c)$".
    let pattern = String::from(r"a\.b\(c\)\$");
    let (out, status) = replace_known_snippet_or_patterns(
        "x a.b(c)$ y",
        &[],
        &[pattern.as_str()],
        "${keep}",
        "MARK",
        "t",
    )
    .unwrap();
    assert_eq!(status, "patched");
    assert_eq!(out, "x ${keep} y");
    // The escaped pattern does not match other text the raw pattern would.
    assert!(replace_known_snippet_or_patterns("x aXb(c) y", &[], &[pattern.as_str()], "R", "M", "t")
        .is_err());
}
