use modern_ddcui::command::{
    has_i2c_node, permission_report, plan_preset, plan_set_value, set_value_result,
    store_settings, CommandError,
};
use modern_ddcui::ddcutil::{
    capabilities_command, detect_command, getvcp_command, help_command, process_result, program,
    setvcp_command, ProcessError, ProcessOutput,
};
use modern_ddcui::detect::parse_detect_text;
use modern_ddcui::preset::{apply_order_list, builtin_preset, ordered_calls};
use modern_ddcui::registry::Registry;
use modern_ddcui::settings::{PresetScope, Settings, UserPreset};
use modern_ddcui::text::same_text;
use modern_ddcui::textmap::TextMap;

fn registry_with_one_display() -> Registry {
    let mut r = Registry::new();
    r.replace_identities(parse_detect_text("Display 2\nModel: M\nSerial: S\n"));
    r
}

#[test]
fn argument_lists() {
    assert_eq!(program(), "ddcutil");
    assert_eq!(detect_command(), vec!["detect"]);
    assert_eq!(capabilities_command("1"), vec!["capabilities", "--display", "1"]);
    assert_eq!(getvcp_command(0x1a, "2"), vec!["getvcp", "0x1a", "--display", "2"]);
    assert_eq!(setvcp_command("0x10", 75, "3"), vec!["setvcp", "0x10", "75", "--display", "3"]);
    assert_eq!(help_command(), vec!["--help"]);
}

#[test]
fn output_of_a_call_that_ended_well() {
    let out = ProcessOutput { success: true, stdout: "text".to_string(), stderr: "warning".to_string() };
    match process_result(Ok(out)) {
        Ok(text) => assert_eq!(text, "text"),
        Err(e) => panic!("unexpected error {:?}", e),
    }
}

#[test]
fn call_that_ended_with_another_status_fails() {
    let out = ProcessOutput { success: false, stdout: "text".to_string(), stderr: "bad display".to_string() };
    match process_result(Ok(out)) {
        Err(ProcessError::Failed(stderr)) => assert_eq!(stderr, "bad display"),
        other => panic!("unexpected result {:?}", other),
    }
    let e = ProcessError::Failed("bad display".to_string());
    assert_eq!(e.message(), "ddcutil failed: bad display");
}

#[test]
fn call_that_could_not_start_fails() {
    match process_result(Err("No such file or directory".to_string())) {
        Err(ProcessError::Spawn(cause)) => assert_eq!(cause, "No such file or directory"),
        other => panic!("unexpected result {:?}", other),
    }
    let e = ProcessError::Spawn("No such file or directory".to_string());
    assert_eq!(e.message(), "No such file or directory");
}

#[test]
fn set_value_on_a_known_display() {
    let r = registry_with_one_display();
    match plan_set_value(&r, "2:M:S", "0x10", 40) {
        Ok(args) => assert_eq!(args, vec!["setvcp", "0x10", "40", "--display", "2"]),
        Err(e) => panic!("unexpected error {:?}", e),
    }
}

#[test]
fn set_value_on_an_unknown_display_is_not_found() {
    let r = registry_with_one_display();
    match plan_set_value(&r, "3:M:S", "0x10", 40) {
        Err(CommandError::DisplayNotFound) => {}
        other => panic!("unexpected result {:?}", other),
    }
    match plan_set_value(&Registry::new(), "2:M:S", "0x10", 40) {
        Err(e) => assert_eq!(e.message(), "display not found"),
        Ok(args) => panic!("unexpected call {:?}", args),
    }
}

#[test]
fn failure_of_the_set_call_is_the_failure_of_the_request() {
    assert!(set_value_result(Ok("anything".to_string())).is_ok());
    match set_value_result(Err(ProcessError::Failed("verify failed".to_string()))) {
        Err(e) => assert_eq!(e.message(), "ddcutil failed: verify failed"),
        Ok(()) => panic!("unexpected success"),
    }
}

#[test]
fn brightest_sets_brightness_then_contrast() {
    let r = registry_with_one_display();
    let calls = plan_preset(&r, "2:M:S", "brightest").expect("known display");
    assert_eq!(calls, vec![("0x10".to_string(), 100), ("0x12".to_string(), 75)]);
}

#[test]
fn other_built_in_presets() {
    let r = registry_with_one_display();
    let mid = plan_preset(&r, "2:M:S", "mid").unwrap();
    assert_eq!(mid, vec![("0x10".to_string(), 50), ("0x12".to_string(), 50)]);
    let midnight = plan_preset(&r, "2:M:S", "midnight").unwrap();
    assert_eq!(midnight, vec![("0x10".to_string(), 10), ("0x12".to_string(), 40)]);
    assert!(builtin_preset("Brightest").is_none());
    assert!(builtin_preset("").is_none());
    assert_eq!(builtin_preset("mid").unwrap().get("0x12"), Some(&50));
}

#[test]
fn preset_that_is_not_built_in_sets_nothing() {
    let r = registry_with_one_display();
    let calls = plan_preset(&r, "2:M:S", "my-own").expect("no error");
    assert!(calls.is_empty());
}

#[test]
fn preset_for_an_unknown_display_is_not_found() {
    let r = registry_with_one_display();
    assert!(matches!(plan_preset(&r, "nobody", "brightest"), Err(CommandError::DisplayNotFound)));
    assert!(matches!(plan_preset(&r, "nobody", "my-own"), Err(CommandError::DisplayNotFound)));
}

#[test]
fn calls_follow_the_order_and_skip_absent_codes() {
    assert_eq!(apply_order_list(), vec!["0x10", "0x12", "0x16", "0x18", "0x1A"]);
    let mut values = TextMap::new();
    values.insert("0x1A".to_string(), 5);
    values.insert("0x60".to_string(), 15);
    values.insert("0x16".to_string(), 3);
    values.insert("0x1a".to_string(), 9);
    values.insert("0x10".to_string(), 1);
    let calls = ordered_calls(&values);
    assert_eq!(
        calls,
        vec![("0x10".to_string(), 1), ("0x16".to_string(), 3), ("0x1A".to_string(), 5)]
    );
    assert!(ordered_calls(&TextMap::new()).is_empty());
}

#[test]
fn i2c_nodes_are_known_by_their_prefix() {
    let names = |v: &[&str]| v.iter().map(|s| s.to_string()).collect::<Vec<String>>();
    assert!(has_i2c_node(&names(&["null", "i2c-0", "tty"])));
    assert!(has_i2c_node(&names(&["i2c-"])));
    assert!(!has_i2c_node(&names(&["null", "i2c", "xi2c-1", "I2C-1"])));
    assert!(!has_i2c_node(&names(&[])));
}

#[test]
fn permission_report_of_a_ready_machine() {
    let entries = vec!["i2c-3".to_string()];
    let r = permission_report(true, Some(&entries), Some("Usage: ddcutil [--json] ..."));
    assert!(r.ddcutil);
    assert!(r.i2c);
    assert!(r.json_supported);
}

#[test]
fn permission_report_of_a_machine_that_lacks_things() {
    let r = permission_report(false, None, None);
    assert!(!r.ddcutil);
    assert!(!r.i2c);
    assert!(!r.json_supported);
    let entries = vec!["sda".to_string()];
    let r = permission_report(true, Some(&entries), Some("Usage: ddcutil --verbose"));
    assert!(r.ddcutil);
    assert!(!r.i2c);
    assert!(!r.json_supported);
    let r = permission_report(false, Some(&entries), Some("--json"));
    assert!(!r.json_supported);
    let r = permission_report(true, None, None);
    assert!(!r.json_supported);
}

#[test]
fn same_text_compares_characters() {
    assert!(same_text("mid", "mid"));
    assert!(!same_text("mid", "midnight"));
    assert!(!same_text("Mid", "mid"));
    assert!(same_text("", ""));
}

#[test]
fn default_settings_are_empty() {
    let s = Settings::default();
    assert_eq!(s.last_selected_display_id, None);
    assert_eq!(s.startup_preset, None);
    assert!(s.presets.is_empty());
    assert!(s.has_unique_preset_ids());
    assert_eq!(PresetScope::default(), PresetScope::AllMonitors);
}

#[test]
fn settings_that_could_not_be_read_are_the_defaults() {
    let s = Settings::loaded_or_default(None);
    assert!(s.presets.is_empty());
    assert_eq!(s.startup_preset, None);
    let read = Settings {
        last_selected_display_id: Some("1:M:S".to_string()),
        startup_preset: Some("mid".to_string()),
        presets: Vec::new(),
    };
    let s = Settings::loaded_or_default(Some(read));
    assert_eq!(s.last_selected_display_id.as_deref(), Some("1:M:S"));
    assert_eq!(s.startup_preset.as_deref(), Some("mid"));
}

fn preset(id: &str, scope: PresetScope) -> UserPreset {
    let mut values = TextMap::new();
    values.insert("0x10".to_string(), 80);
    let mut own = TextMap::new();
    own.insert("0x10".to_string(), 20);
    let mut monitor_overrides = TextMap::new();
    monitor_overrides.insert("1:M:S".to_string(), own);
    UserPreset { id: id.to_string(), name: id.to_uppercase(), scope, values, monitor_overrides }
}

#[test]
fn scope_decides_which_values_apply() {
    let all = preset("a", PresetScope::AllMonitors);
    assert_eq!(all.values_for("1:M:S").unwrap().get("0x10"), Some(&80));
    assert_eq!(all.values_for("2:M:S").unwrap().get("0x10"), Some(&80));
    let per = preset("b", PresetScope::PerMonitor);
    assert_eq!(per.values_for("1:M:S").unwrap().get("0x10"), Some(&20));
    assert!(per.values_for("2:M:S").is_none());
}

#[test]
fn preset_ids_must_differ() {
    let mut s = Settings::default();
    s.presets.push(preset("a", PresetScope::AllMonitors));
    s.presets.push(preset("b", PresetScope::PerMonitor));
    assert!(s.has_unique_preset_ids());
    s.presets.push(preset("a", PresetScope::PerMonitor));
    assert!(!s.has_unique_preset_ids());
}

#[test]
fn written_settings_replace_the_held_ones() {
    let mut held = Settings::default();
    let mut new = Settings::default();
    new.startup_preset = Some("mid".to_string());
    new.presets.push(preset("a", PresetScope::PerMonitor));
    assert!(store_settings(&mut held, new, Ok(())).is_ok());
    assert_eq!(held.startup_preset.as_deref(), Some("mid"));
    assert_eq!(held.presets.len(), 1);
    assert_eq!(held.presets[0].scope, PresetScope::PerMonitor);
    let copy = held.clone();
    assert_eq!(copy.presets[0].id, "a");
    assert_eq!(copy.presets[0].monitor_overrides.get("1:M:S").unwrap().get("0x10"), Some(&20));
    assert_eq!(copy.presets[0].values.get("0x10"), Some(&80));
}

#[test]
fn settings_that_could_not_be_written_are_not_taken() {
    let mut held = Settings::default();
    held.last_selected_display_id = Some("1:M:S".to_string());
    let mut new = Settings::default();
    new.startup_preset = Some("mid".to_string());
    match store_settings(&mut held, new, Err("Permission denied".to_string())) {
        Err(CommandError::Persistence(cause)) => assert_eq!(cause, "Permission denied"),
        other => panic!("unexpected result {:?}", other),
    }
    assert_eq!(held.startup_preset, None);
    assert_eq!(held.last_selected_display_id.as_deref(), Some("1:M:S"));
    let e = CommandError::Persistence("disk full".to_string());
    assert_eq!(e.message(), "disk full");
}
