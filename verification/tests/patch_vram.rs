use rm_monitor::patch_vram::{patch_containers, VramError, MARKER, NEW_CODE, OLD_CODE};

fn upstream() -> String {
    format!("prefix\n{OLD_CODE}\nsuffix\n")
}

#[test]
fn replaces_the_bracket_labels() {
    let (patched, changed) = patch_containers(&upstream()).expect("patched");
    assert!(changed);
    assert!(patched.contains(NEW_CODE));
    assert!(!patched.contains("_createBracketLabel"));
    assert!(patched.starts_with("prefix\n"));
    assert!(patched.ends_with("suffix\n"));
}

#[test]
fn already_patched_content_is_a_no_op_success() {
    let (again, changed) = patch_containers(NEW_CODE).expect("already patched");
    assert!(!changed);
    assert_eq!(again, NEW_CODE);
}

#[test]
fn unsupported_content_is_rejected() {
    assert_eq!(
        patch_containers("// unrelated"),
        Err(VramError::MissingTarget)
    );
}

#[test]
fn vram_error_message_names_the_file() {
    assert_eq!(
        VramError::MissingTarget.message(),
        "Could not find target code in containers.js - unsupported extension version"
    );
}

#[test]
fn marker_alone_counts_as_patched() {
    let text = format!("x {MARKER} y");
    assert_eq!(patch_containers(&text), Ok((text.clone(), false)));
}
