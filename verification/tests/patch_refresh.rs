use rm_monitor::patch_refresh::{
    refresh_targets, transform_refresh_file, RefreshPatchError, GSCHEMA_FILE_NAME, GSCHEMA_PATH,
};

// Indentation is load-bearing: several substitutions match on the exact
// leading whitespace of the upstream source.
const UPSTREAM_EXTENSION_JS: &str = r#"const GPU_MIN_REFRESH_INTERVAL_SECONDS = 5;
this._refreshTime = this._settings.get_int(REFRESH_TIME);
    this._timeout = GLib.timeout_add_seconds(
        GLib.PRIORITY_DEFAULT,
        this._refreshTime,
        () => {}
    );
"#;

const UPSTREAM_SETTINGS_JS: &str =
    "  indicator._refreshTime = indicator._settings.get_int(keys.REFRESH_TIME);\n";

const UPSTREAM_PREFS_JS: &str = r#"      this._secondsSpinbutton = this._createSpinButton({
        upper: 60,
        step: 1,
        page: 1,
      });
"#;

const UPSTREAM_GSCHEMA: &str = r#"<schemalist>
    <schema id="org.gnome.shell.extensions.resource-monitor" path="/org/gnome/shell/extensions/resource-monitor/">
        <key name="refreshtime" type="i">
            <default>2</default>
            <range min="1" max="60"/>
        </key>
    </schema>
</schemalist>
"#;

fn transform(path: &str, content: &str) -> String {
    transform_refresh_file(path, content).expect("patch")
}

#[test]
fn targets_are_the_four_refresh_files() {
    assert_eq!(
        refresh_targets(),
        vec![
            "extension.js",
            "services/settings.js",
            "prefs.js",
            "schemas/org.gnome.shell.extensions.resource-monitor.gschema.xml",
        ]
    );
    assert!(GSCHEMA_PATH.ends_with(GSCHEMA_FILE_NAME));
}

#[test]
fn every_target_file_is_rewritten() {
    let extension = transform("extension.js", UPSTREAM_EXTENSION_JS);
    assert!(extension.contains("this._settings.get_double(REFRESH_TIME)"));
    assert!(extension.contains("GLib.timeout_add("));
    assert!(!extension.contains("GLib.timeout_add_seconds("));
    assert!(extension.contains("Math.round(this._refreshTime * 1000),"));
    assert!(extension.contains("GPU_MIN_REFRESH_INTERVAL_SECONDS = 0.1;"));

    let settings = transform("services/settings.js", UPSTREAM_SETTINGS_JS);
    assert!(settings.contains("get_double(keys.REFRESH_TIME)"));

    let prefs = transform("prefs.js", UPSTREAM_PREFS_JS);
    assert!(prefs.contains("lower: 0.1,"));
    assert!(prefs.contains("digits: 1,"));

    let gschema = transform(GSCHEMA_PATH, UPSTREAM_GSCHEMA);
    assert!(gschema.contains("type=\"d\""));
    assert!(gschema.contains("<range min=\"0.1\" max=\"60\"/>"));
}

#[test]
fn transforming_twice_changes_nothing() {
    for (path, source) in [
        ("extension.js", UPSTREAM_EXTENSION_JS),
        ("services/settings.js", UPSTREAM_SETTINGS_JS),
        ("prefs.js", UPSTREAM_PREFS_JS),
        (GSCHEMA_PATH, UPSTREAM_GSCHEMA),
    ] {
        let once = transform(path, source);
        assert_ne!(once, source);
        assert_eq!(transform(path, &once), once);
    }
}

#[test]
fn legacy_five_hundred_millisecond_patch_is_upgraded() {
    let legacy_extension = UPSTREAM_EXTENSION_JS.replace(
        "GPU_MIN_REFRESH_INTERVAL_SECONDS = 5;",
        "GPU_MIN_REFRESH_INTERVAL_SECONDS = 0.5;",
    );
    let extension = transform("extension.js", &legacy_extension);
    assert!(extension.contains("GPU_MIN_REFRESH_INTERVAL_SECONDS = 0.1;"));

    let legacy_prefs = r#"      this._secondsSpinbutton = this._createSpinButton({
        lower: 0.5,
        upper: 60,
        step: 0.5,
        page: 1,
        digits: 1,
      });
"#;
    let prefs = transform("prefs.js", legacy_prefs);
    assert!(prefs.contains("lower: 0.1,"));
    assert!(prefs.contains("step: 0.1,"));
}

#[test]
fn unsupported_source_names_the_file() {
    let err = transform_refresh_file("prefs.js", "// unrelated\n").unwrap_err();
    assert_eq!(err, RefreshPatchError::Unsupported("prefs.js".to_string()));
    assert_eq!(err.message(), "Unsupported Resource Monitor source in prefs.js");
}

#[test]
fn files_outside_the_table_pass_through() {
    assert_eq!(transform("README.md", "anything"), "anything");
}

#[test]
fn refresh_error_messages_match_the_cli_output() {
    assert_eq!(
        RefreshPatchError::SchemaCompile("exited with 1".to_string()).message(),
        "glib-compile-schemas failed: exited with 1"
    );
    assert_eq!(RefreshPatchError::Io("denied".to_string()).message(), "denied");
}
