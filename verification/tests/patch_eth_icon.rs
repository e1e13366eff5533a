use rm_monitor::patch_eth_icon::{
    patch_main_gui, EthIconError, ETH_MARKER, ETH_SIGNATURE, FN_SIGNATURE, ICON_GUARD_MARKER, NEW_FN,
    NEW_SNIPPET, OLD_FN, OLD_SNIPPET,
};

fn upstream() -> String {
    format!("{OLD_FN}\n\n{OLD_SNIPPET}\n")
}

#[test]
fn applies_both_edits_to_upstream_source() {
    let (patched, changed) = patch_main_gui(&upstream()).expect("patch");
    assert!(changed);
    assert!(patched.contains(ICON_GUARD_MARKER));
    assert!(patched.contains(ETH_MARKER));
    assert!(patched.contains("      null,\n      indicator._ethValue,"));
}

#[test]
fn patch_eth_icon_re_running_the_patch_changes_nothing() {
    let (patched, _) = patch_main_gui(&upstream()).expect("first patch");
    let (again, changed) = patch_main_gui(&patched).expect("second patch");
    assert!(!changed);
    assert_eq!(patched, again);
}

#[test]
fn stale_guard_body_is_upgraded_when_marker_present() {
    let (once, _) = patch_main_gui(&upstream()).expect("first patch");
    // Simulate a stale patched form: marker present, but the guard body
    // dropped the inner `if` around the trailing addChild(icon) call.
    let stale = once.replacen(
        "  if (icon) {\n    if (iconsPosition !== \"left\") {\n      addChild(icon);\n    }\n  }\n}",
        "  if (iconsPosition !== \"left\") {\n    addChild(icon);\n  }\n}",
        1,
    );
    assert!(stale.contains(ICON_GUARD_MARKER));
    assert_ne!(stale, once);

    let (upgraded, changed) = patch_main_gui(&stale).expect("upgrade");
    assert!(changed);
    assert_eq!(upgraded, once);

    let (again, changed_again) = patch_main_gui(&upgraded).expect("idempotent");
    assert!(!changed_again);
    assert_eq!(upgraded, again);
}

#[test]
fn stale_eth_wiring_body_is_upgraded_when_marker_present() {
    let (once, _) = patch_main_gui(&upstream()).expect("first patch");
    // Simulate a stale patched form: marker present, but the wiring
    // still routed through the icon parameter instead of null.
    let stale = once.replacen(
        "    _appendSimpleChildren(\n      null,\n      indicator._ethValue,",
        "    _appendSimpleChildren(\n      indicator._ethIcon,\n      indicator._ethValue,",
        1,
    );
    assert!(stale.contains(ETH_MARKER));
    assert_ne!(stale, once);

    let (upgraded, changed) = patch_main_gui(&stale).expect("upgrade");
    assert!(changed);
    assert_eq!(upgraded, once);

    let (again, changed_again) = patch_main_gui(&upgraded).expect("idempotent");
    assert!(!changed_again);
    assert_eq!(upgraded, again);
}

#[test]
fn marker_present_without_locatable_bounds_fails_hard() {
    // The marker is present but the block's own signature line is gone
    // (e.g. an unsupported upstream rewrite), so bounds cannot be found.
    let broken_fn = format!("// {ICON_GUARD_MARKER}\n{OLD_SNIPPET}\n");
    assert!(matches!(
        patch_main_gui(&broken_fn),
        Err(EthIconError::MissingAppendSimpleChildren)
    ));

    let broken_eth = format!("{NEW_FN}\n// {ETH_MARKER}\n");
    assert!(matches!(
        patch_main_gui(&broken_eth),
        Err(EthIconError::MissingEthWiring)
    ));
}

#[test]
fn missing_append_simple_children_fails_fast() {
    assert!(matches!(
        patch_main_gui("// unrelated"),
        Err(EthIconError::MissingAppendSimpleChildren)
    ));
}

#[test]
fn missing_eth_wiring_fails_fast() {
    assert!(matches!(
        patch_main_gui(OLD_FN),
        Err(EthIconError::MissingEthWiring)
    ));
}

#[test]
fn patched_source_has_both_current_blocks_at_their_signatures() {
    let (patched, _) = patch_main_gui(&upstream()).expect("patch");
    let guard = patched.find(FN_SIGNATURE).expect("guard signature");
    assert!(patched[guard..].starts_with(NEW_FN));
    let wiring = patched.find(ETH_SIGNATURE).expect("wiring call site");
    assert!(patched[wiring..].starts_with(NEW_SNIPPET));
}
