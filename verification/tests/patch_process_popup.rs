use rm_monitor::patch_process_popup::{
    methods, methods_template, patch_extension_js, ProcessPopupError, CLICK_MANAGER_ANCHOR,
    DEFAULT_WINDOW_MINUTES, LEGACY_CLICK, LEGACY_METHODS_START, LEGACY_TOOLTIP, MARKER,
    MAX_WINDOW_MINUTES, METHODS_START, NEW_CLICK, NEW_DESTROY_HEAD, NEW_INIT_TAIL, NEW_KEY,
    NEW_TOOLTIP, OLD_CLICK, OLD_DESTROY_HEAD, OLD_INIT_TAIL, OLD_KEY, OLD_TOOLTIP,
    PANEL_MENU_IMPORT, POPUP_MENU_IMPORT, WINDOW_PLACEHOLDER,
};


fn upstream() -> String {
    format!(
        "{PANEL_MENU_IMPORT}\n\n\
         {OLD_INIT_TAIL}\n\
         {OLD_DESTROY_HEAD}\n\
         {CLICK_MANAGER_ANCHOR}\n\
         {OLD_CLICK}\n\
         {OLD_KEY}\n\
         const tooltip = {OLD_TOOLTIP};\n"
    )
}

fn patched_upstream() -> String {
    let (patched, changed) =
        patch_extension_js(&upstream(), DEFAULT_WINDOW_MINUTES).expect("patch");
    assert!(changed);
    patched
}

#[test]
fn injected_methods_carry_the_idempotence_marker() {
    let template = methods_template();
    assert!(METHODS_START.contains(MARKER));
    assert!(template.starts_with(METHODS_START));
    assert!(template.ends_with("    }\n\n"));
}

#[test]
fn injected_methods_keep_javascript_escapes_literal() {
    let template = methods_template();
    // These must reach extension.js as backslash escapes for GJS to parse.
    assert!(template.contains(r#"stdout.split("\n")"#));
    assert!(template.contains(r"line.trim().split(/\s+/)"));
    assert!(template.contains(r"/^\s/.test(line)"));
    assert!(template.contains(r"/MemTotal:\s+(\d+)/"));
    assert!(template.contains(r"/bytes_sent:(\d+)/"));
    assert!(
        template.contains("`[Resource_Monitor] Top-users sampling failed: ${error}`")
    );
}

#[test]
fn every_requested_metric_has_its_own_section() {
    let template = methods_template();
    // CPU, RAM, disk *usage* (IO, never free space), network, GPU usage and
    // GPU VRAM each get their own top-users list.
    for metric in ["cpu", "ram", "disk", "net", "gpu", "vram"] {
        assert!(
            template.contains(&format!("metric: \"{metric}\",")),
            "{metric} section missing"
        );
    }
    assert!(template.contains(r#"_("Disk usage")"#));
    assert!(template.contains(r#"_("GPU usage")"#));
    assert!(template.contains(r#"_("GPU VRAM")"#));
    assert!(template.contains(r#"_("Network")"#));
    // Disk rows are IO rate, not capacity: no free/total-space maths here.
    assert!(!template.contains("availableBytes"));
}

#[test]
fn every_row_carries_a_live_column_beside_the_average() {
    let template = methods_template();
    // One formatter owns both columns, so an in-place live repaint cannot
    // drift out of alignment with the row the initial render produced.
    assert!(template.contains("_topRowText(label, current, average, format) {"));
    assert!(template
        .contains(r#"${label.padEnd(19)}${format(current).padStart(11)}${format("#));
    // The header names the two columns.
    assert!(template.contains(r#"_("now").padStart(11)}${_("avg").padStart(11)}"#));
    // Rows stay ranked by the average, so their order holds still while
    // the live column ticks underneath.
    assert!(template.contains(".sort((a, b) => b[1] - a[1])"));
}

#[test]
fn live_column_has_its_own_refresh_interval() {
    let template = methods_template();
    // The popup paces itself; it must not read the panel's refresh-time.
    assert!(!template.contains("this._refreshTime"));
    // U2TSSM_LIVE_MS is read live, inside the documented bounds, and falls
    // back to the default this module documents.
    assert!(template.contains(r#"GLib.getenv("U2TSSM_LIVE_MS")"#));
    assert!(template
        .contains("if (Number.isFinite(parsed) && parsed >= 100 && parsed <= 60000) {"));
    assert!(template.contains("      return 1000;\n"));
    assert!(template.contains("this._topLiveIntervalMs(),"));
    // Started on open and stopped on close, on destroy, and by the tick
    // itself when the menu closed without going through the toggle.
    assert!(template.contains("this._topLiveStart();"));
    assert!(template.contains("this._topLiveStop();"));
    assert!(
        template.contains("if (this._destroyed || !this.menu || !this.menu.isOpen) {")
    );
    // Repaint the existing rows; never rebuild the menu under the pointer.
    assert!(template.contains("item.label.set_text("));
    assert!(!template.contains("this.menu.removeAll();\n      this._topRender"));
}

#[test]
fn live_sampling_never_feeds_the_rolling_averages() {
    let template = methods_template();
    // Contributing the extra live runs would weight every average towards
    // whenever the popup happened to be open.
    assert!(template.contains("this._topSampleGpu(false);"));
    assert!(template.contains("this._topSampleNetwork(false);"));
    // The 10 s bucket tick keeps the feeding default.
    assert!(template
        .contains("        this._topSampleGpu();\n        this._topSampleNetwork();"));
    // A bucket sample requested while a live run is in flight is handed to
    // the next run to complete instead of being dropped.
    for pending in ["_topGpuFeedPending", "_topNetFeedPending"] {
        assert!(
            template.contains(&format!("this.{pending} = true;")),
            "{pending} is never requested"
        );
        assert!(
            template.contains(&format!("this.{pending} = false;")),
            "{pending} is never consumed"
        );
    }
}

#[test]
fn live_sampling_sweeps_every_process() {
    let template = methods_template();
    // Ranking by the current reading only works if the sweep behind it can
    // see a process that has no history yet, so the live pass must reuse
    // the full walker rather than filter down to the rows already shown.
    assert!(template.contains("this._topBeginWalk(true);"));
    assert!(template.contains("this._topBeginWalk(false);"));
    assert!(!template.contains("wanted.has(name)"));
    // It keeps delta state of its own rather than disturbing the sampler's.
    assert!(template.contains("this._topLivePrev = walk.current;"));
    assert!(template.contains("this._topLiveProc = walk.totals;"));
    assert!(template.contains("this._topProcPrev = walk.current;"));
}

#[test]
fn rows_are_ranked_by_the_live_reading() {
    let template = methods_template();
    // The whole point of the change: order follows "now", not "avg".
    assert!(template.contains("_topRankLive(metric) {"));
    assert!(template.contains("const value = this._topLiveValue(name, metric);"));
    assert!(template.contains("return ranked.sort((a, b) => b[1] - a[1])"));
    // Re-ranking must not rebuild the menu under the pointer: the rows are
    // fixed slots the renderer rewrites.
    assert!(template.contains("slots.push(item);"));
    // One ranking path serves the first paint and every later tick.
    assert!(template.contains("      this._topRenderLiveValues();\n    }"));
}

#[test]
fn sections_keep_their_height_when_nothing_is_active() {
    let template = methods_template();
    // Spare rows are written, never hidden — hiding them is what made the
    // popup jump vertically when a metric went quiet.
    assert!(!template.contains("visible = false"));
    assert!(!template.contains("visible = true"));
    assert!(template
        .contains("item.label.set_text(this._topPlaceholderRowText(i, names.length));"));
    // A blank spare row still has to occupy a line.
    assert!(template.contains("      return \" \";\n"));
    assert!(
        template.contains(r#"new PopupMenu.PopupMenuItem(" ", { reactive: false })"#)
    );
    // A section that ranked nothing says so in its own first row instead
    // of through an extra item that appears and disappears.
    assert!(template.contains("if (index === 0 && ranked === 0) {"));
    assert!(!template.contains("No data yet."));
    assert!(!template.contains("section.empty"));
}

#[test]
fn live_readings_decay_to_zero_instead_of_sticking() {
    let template = methods_template();
    // A process that stopped using the GPU or network must not keep
    // showing the last value it was seen with.
    assert!(template.contains("_topLiveMerge(values, keys) {"));
    assert!(template.contains("if (!values.has(name)) {"));
    assert!(template.contains(r#"this._topLiveMerge(live, ["gpu", "vram"]);"#));
    assert!(template.contains(r#"this._topLiveMerge(live, ["net"]);"#));
    // The live store is bounded exactly like the buckets are.
    assert!(template.contains("if (store.size >= 256) {"));
}

#[test]
fn applies_every_edit_to_upstream_source() {
    let patched = patched_upstream();
    assert!(patched.contains(POPUP_MENU_IMPORT));
    assert!(patched.contains(MARKER));
    assert!(patched.contains(NEW_CLICK));
    assert!(patched.contains(NEW_KEY));
    assert!(patched.contains(NEW_TOOLTIP));
    assert!(patched.contains(NEW_INIT_TAIL));
    assert!(patched.contains(NEW_DESTROY_HEAD));
    assert!(!patched.contains("this._launchPrimaryAction();"));
    // The methods must land immediately before _clickManager.
    let methods_at = patched.find(MARKER).expect("marker");
    let anchor_at = patched.find(CLICK_MANAGER_ANCHOR).expect("anchor");
    assert!(methods_at < anchor_at);
}

#[test]
fn sampler_is_started_in_init_and_stopped_in_destroy() {
    // Without both hooks the popup would either have no history to show or
    // would keep a GLib timeout alive across an extension disable.
    let patched = patched_upstream();
    assert_eq!(patched.matches("this._topUsersStart();").count(), 1);
    assert_eq!(patched.matches("this._topUsersStop();").count(), 1);
    assert!(patched.contains("    _topUsersStart() {"));
    assert!(patched.contains("    _topUsersStop() {"));
}

#[test]
fn only_one_toggle_owner_survives_the_patch() {
    let patched = patched_upstream();
    // vfunc_event is the sole click-driven toggle: _clickManager's
    // left-click case must no longer call _toggleProcessMenu, otherwise the
    // two toggles cancel out and the popup stops opening (see module docs).
    assert!(patched.contains("    vfunc_event(event) {"));
    assert_eq!(patched.matches("this._toggleProcessMenu();").count(), 2);
    let click_at = patched.find(NEW_CLICK).expect("left-click case");
    let key_at = patched.find(NEW_KEY).expect("key case");
    assert!(!patched[click_at..key_at].contains("_toggleProcessMenu"));
}

#[test]
fn vfunc_event_toggles_only_for_primary_press() {
    let template = methods_template();
    // Right-click must reach _clickManager's preferences case without the
    // base-class toggle leaving a stray popup open behind the dialog.
    assert!(template.contains("type === Clutter.EventType.TOUCH_BEGIN"));
    assert!(template
        .contains("(type === Clutter.EventType.BUTTON_PRESS && event.get_button() === 1)"));
    assert!(template.contains("return Clutter.EVENT_PROPAGATE;"));
}

#[test]
fn window_minutes_is_baked_into_the_injected_source() {
    let (patched, _) = patch_extension_js(&upstream(), 90).expect("patch");
    assert!(patched.contains("const patchedMinutes = 90;"));
    assert!(!patched.contains(WINDOW_PLACEHOLDER));
    // The live override keeps the documented name and bounds.
    assert!(patched.contains(r#"GLib.getenv("U2TSSM")"#));
    assert!(patched.contains(&format!("parsed <= {MAX_WINDOW_MINUTES}")));
}

#[test]
fn reconfiguring_the_window_rewrites_an_installed_body() {
    let (sixty, _) = patch_extension_js(&upstream(), 60).expect("patch");
    let (ninety, changed) = patch_extension_js(&sixty, 90).expect("reconfigure");
    assert!(changed);
    assert!(ninety.contains("const patchedMinutes = 90;"));
    assert!(!ninety.contains("const patchedMinutes = 60;"));
    // One block, not two: the rewrite replaces rather than appends.
    assert_eq!(ninety.matches(METHODS_START).count(), 1);
}

#[test]
fn out_of_range_windows_are_rejected() {
    assert!(matches!(
        patch_extension_js(&upstream(), 0),
        Err(ProcessPopupError::WindowOutOfRange)
    ));
    assert!(matches!(
        patch_extension_js(&upstream(), MAX_WINDOW_MINUTES + 1),
        Err(ProcessPopupError::WindowOutOfRange)
    ));
}

#[test]
fn patch_process_popup_re_running_the_patch_changes_nothing() {
    let once = patched_upstream();
    let (twice, changed) = patch_extension_js(&once, DEFAULT_WINDOW_MINUTES).expect("second");
    assert!(!changed);
    assert_eq!(once, twice);
}

#[test]
fn first_generation_install_is_upgraded_in_place() {
    // An installed tree carrying the old header, the double-toggling click
    // case and the old tooltip must converge on the current shape without
    // gaining a duplicated method block.
    let legacy = format!(
        "{PANEL_MENU_IMPORT}\n{POPUP_MENU_IMPORT}\n\n\
         {NEW_INIT_TAIL}\n\
         {NEW_DESTROY_HEAD}\n\
         {LEGACY_METHODS_START}\n    // stale body\n\
         {CLICK_MANAGER_ANCHOR}\n\
         {LEGACY_CLICK}\n\
         {NEW_KEY}\n\
         const tooltip = {LEGACY_TOOLTIP};\n"
    );
    let (upgraded, changed) =
        patch_extension_js(&legacy, DEFAULT_WINDOW_MINUTES).expect("upgrade");
    assert!(changed);
    assert!(upgraded.contains(NEW_CLICK));
    assert!(upgraded.contains(NEW_TOOLTIP));
    assert!(!upgraded.contains(LEGACY_CLICK));
    assert!(!upgraded.contains(LEGACY_TOOLTIP));
    assert!(!upgraded.contains(LEGACY_METHODS_START));
    assert!(!upgraded.contains("// stale body"));
    assert_eq!(upgraded.matches(METHODS_START).count(), 1);

    let (again, changed_again) =
        patch_extension_js(&upgraded, DEFAULT_WINDOW_MINUTES).expect("idempotent");
    assert!(!changed_again);
    assert_eq!(upgraded, again);
}

#[test]
fn missing_panel_menu_import_fails_fast() {
    assert!(matches!(
        patch_extension_js("// unrelated", DEFAULT_WINDOW_MINUTES),
        Err(ProcessPopupError::MissingPanelMenuImport)
    ));
}

#[test]
fn missing_click_manager_fails_fast() {
    assert!(matches!(
        patch_extension_js(PANEL_MENU_IMPORT, DEFAULT_WINDOW_MINUTES),
        Err(ProcessPopupError::MissingClickManager)
    ));
}

#[test]
fn missing_click_and_key_cases_fail_fast() {
    let no_click = format!("{PANEL_MENU_IMPORT}\n{CLICK_MANAGER_ANCHOR}\n{OLD_KEY}\n");
    assert!(matches!(
        patch_extension_js(&no_click, DEFAULT_WINDOW_MINUTES),
        Err(ProcessPopupError::MissingLeftClickCase)
    ));

    let no_key = format!("{PANEL_MENU_IMPORT}\n{CLICK_MANAGER_ANCHOR}\n{OLD_CLICK}\n");
    assert!(matches!(
        patch_extension_js(&no_key, DEFAULT_WINDOW_MINUTES),
        Err(ProcessPopupError::MissingKeyboardCase)
    ));
}

#[test]
fn missing_sampler_hooks_fail_fast() {
    let no_init = format!(
        "{PANEL_MENU_IMPORT}\n{CLICK_MANAGER_ANCHOR}\n{OLD_CLICK}\n{OLD_KEY}\n\
         const tooltip = {OLD_TOOLTIP};\n"
    );
    assert!(matches!(
        patch_extension_js(&no_init, DEFAULT_WINDOW_MINUTES),
        Err(ProcessPopupError::MissingInitHook)
    ));

    let no_destroy = format!(
        "{PANEL_MENU_IMPORT}\n{OLD_INIT_TAIL}\n{CLICK_MANAGER_ANCHOR}\n\
         {OLD_CLICK}\n{OLD_KEY}\nconst tooltip = {OLD_TOOLTIP};\n"
    );
    assert!(matches!(
        patch_extension_js(&no_destroy, DEFAULT_WINDOW_MINUTES),
        Err(ProcessPopupError::MissingDestroyHook)
    ));
}

#[test]
fn methods_bake_the_window_for_every_placeholder() {
    let rendered = methods(45);
    assert!(!rendered.contains(WINDOW_PLACEHOLDER));
    assert!(rendered.contains("const patchedMinutes = 45;"));
    assert_eq!(
        rendered,
        methods_template().replace(WINDOW_PLACEHOLDER, "45")
    );
}

#[test]
fn already_patched_source_reports_no_change_for_each_window_bound() {
    for window in [1, MAX_WINDOW_MINUTES] {
        let (once, changed) = patch_extension_js(&upstream(), window).expect("patch");
        assert!(changed);
        let (twice, changed_again) = patch_extension_js(&once, window).expect("again");
        assert!(!changed_again);
        assert_eq!(once, twice);
    }
}

#[test]
fn missing_tooltip_fails_fast() {
    let no_tooltip = format!(
        "{PANEL_MENU_IMPORT}\n{OLD_INIT_TAIL}\n{OLD_DESTROY_HEAD}\n{CLICK_MANAGER_ANCHOR}\n{OLD_CLICK}\n{OLD_KEY}\n"
    );
    assert_eq!(
        patch_extension_js(&no_tooltip, DEFAULT_WINDOW_MINUTES),
        Err(ProcessPopupError::MissingTooltip)
    );
}

#[test]
fn popup_error_messages_match_the_cli_output() {
    assert_eq!(
        ProcessPopupError::WindowOutOfRange.message(),
        "ERROR: --window-minutes must be between 1 and 1440."
    );
    assert_eq!(
        ProcessPopupError::MissingClickManager.message(),
        "ERROR: _clickManager not found; upstream layout changed — aborting."
    );
}

#[test]
fn patched_source_is_in_the_settled_form() {
    let patched = patched_upstream();
    let start = patched.find(METHODS_START).expect("methods header");
    let end = start + patched[start..].find(CLICK_MANAGER_ANCHOR).expect("anchor after methods");
    assert_eq!(&patched[start..end], methods(DEFAULT_WINDOW_MINUTES));
    for present in [POPUP_MENU_IMPORT, NEW_CLICK, NEW_KEY, NEW_TOOLTIP, NEW_INIT_TAIL, NEW_DESTROY_HEAD] {
        assert!(patched.contains(present));
    }
    for absent in [OLD_CLICK, LEGACY_CLICK, OLD_KEY, OLD_TOOLTIP, LEGACY_TOOLTIP] {
        assert!(!patched.contains(absent));
    }
}
