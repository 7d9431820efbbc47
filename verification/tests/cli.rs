use swaybind::{config_from_field, config_from_swaymsg_output, config_path, dump_line, wants_dump, wants_help, Binding};

fn args(a: &[&str]) -> Vec<String> {
    a.iter().map(|s| s.to_string()).collect()
}

#[test]
fn config_path_none_without_arguments() {
    assert_eq!(config_path(&args(&[])), Ok(None));
    assert_eq!(config_path(&args(&["--dump", "-h", "--help"])), Ok(None));
}

#[test]
fn config_path_takes_path() {
    assert_eq!(config_path(&args(&["-c", "/tmp/x"])), Ok(Some("/tmp/x".to_string())));
    assert_eq!(config_path(&args(&["--dump", "--config", "a"])), Ok(Some("a".to_string())));
}

#[test]
fn config_path_last_one_counts() {
    assert_eq!(config_path(&args(&["-c", "a", "-c", "b"])), Ok(Some("b".to_string())));
}

#[test]
fn config_path_missing_path() {
    assert_eq!(config_path(&args(&["--config"])), Err("missing path after -c/--config".to_string()));
    assert_eq!(config_path(&args(&["-c", "a", "-c"])), Err("missing path after -c/--config".to_string()));
}

#[test]
fn config_path_unknown_argument() {
    assert_eq!(config_path(&args(&["-x"])), Err("unknown argument: -x".to_string()));
    assert_eq!(config_path(&args(&["-c", "a", "extra"])), Err("unknown argument: extra".to_string()));
}

#[test]
fn config_path_path_may_look_like_option() {
    assert_eq!(config_path(&args(&["-c", "--dump"])), Ok(Some("--dump".to_string())));
}

#[test]
fn wants_help_and_dump() {
    assert!(wants_help(&args(&["--dump", "-h"])));
    assert!(wants_help(&args(&["--help"])));
    assert!(!wants_help(&args(&["--dump", "-c", "x"])));
    assert!(wants_dump(&args(&["-c", "x", "--dump"])));
    assert!(!wants_dump(&args(&["-c", "x"])));
}

#[test]
fn dump_line_without_mode() {
    let b = Binding { keys: "Super+Return".to_string(), command: "exec foot".to_string(), mode: None };
    assert_eq!(dump_line(&b), format!("{:<24} {}", "Super+Return", "exec foot"));
    assert_eq!(dump_line(&b), "Super+Return             exec foot");
}

#[test]
fn dump_line_with_mode() {
    let b = Binding { keys: "Left".to_string(), command: "resize shrink".to_string(), mode: Some("resize".to_string()) };
    assert_eq!(dump_line(&b), format!("[{}] {:<24} {}", "resize", "Left", "resize shrink"));
}

#[test]
fn dump_line_long_keys_are_not_cut() {
    let keys = "Super+Shift+Control+Alt+XF86AudioRaiseVolume";
    let b = Binding { keys: keys.to_string(), command: "x".to_string(), mode: None };
    assert_eq!(dump_line(&b), format!("{} x", keys));
}

#[test]
fn dump_line_counts_characters() {
    let b = Binding { keys: "\u{2318}+é".to_string(), command: "x".to_string(), mode: None };
    assert_eq!(dump_line(&b), format!("{:<24} {}", "\u{2318}+é", "x"));
}

#[test]
fn swaymsg_output_with_config() {
    let out = br#"{"config": "set $mod Mod4\nbindsym $mod+a exec x\n"}"#;
    assert_eq!(config_from_swaymsg_output(out), Ok("set $mod Mod4\nbindsym $mod+a exec x\n".to_string()));
}

#[test]
fn swaymsg_output_missing_config() {
    assert_eq!(
        config_from_swaymsg_output(br#"{"other": 1}"#),
        Err("swaymsg output missing \"config\" field".to_string())
    );
    assert_eq!(
        config_from_swaymsg_output(br#"{"config": 5}"#),
        Err("swaymsg output missing \"config\" field".to_string())
    );
    assert_eq!(
        config_from_swaymsg_output(br#"["config"]"#),
        Err("swaymsg output missing \"config\" field".to_string())
    );
}

#[test]
fn swaymsg_output_not_json() {
    let bad = b"not json";
    let detail = serde_json::from_slice::<serde_json::Value>(bad).unwrap_err().to_string();
    assert_eq!(config_from_swaymsg_output(bad), Err(format!("failed to parse swaymsg output: {detail}")));
}

#[test]
fn config_from_field_cases() {
    assert_eq!(config_from_field(Ok(Some("x".to_string()))), Ok("x".to_string()));
    assert_eq!(config_from_field(Ok(None)), Err("swaymsg output missing \"config\" field".to_string()));
    assert_eq!(config_from_field(Err("boom".to_string())), Err("failed to parse swaymsg output: boom".to_string()));
}
