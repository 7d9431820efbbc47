use swaybind::{parse_bindsym, parse_config, Binding, Vars};

fn b(keys: &str, command: &str, mode: Option<&str>) -> Binding {
    Binding { keys: keys.to_string(), command: command.to_string(), mode: mode.map(|m| m.to_string()) }
}

const SAMPLE: &str = "# sway config
set $mod Mod4
set $term foot
bindsym $mod+Return exec $term
bindsym --release Print exec grim   # screenshot
mode \"resize\" {
    bindsym Left resize shrink width 10px
    bindsym Return mode \"default\"
}
bindsym $mod+r mode \"resize\"
";

#[test]
fn parse_config_reads_sample() {
    assert_eq!(
        parse_config(SAMPLE),
        vec![
            b("Super+Return", "exec foot", None),
            b("Print", "exec grim", None),
            b("Left", "resize shrink width 10px", Some("resize")),
            b("Return", "mode \"default\"", Some("resize")),
            b("Super+r", "mode \"resize\"", None),
        ]
    );
}

#[test]
fn parse_config_empty() {
    assert_eq!(parse_config(""), vec![]);
    assert_eq!(parse_config("\n\n# nothing\n"), vec![]);
}

#[test]
fn parse_config_crlf_and_no_final_newline() {
    assert_eq!(
        parse_config("bindsym a exec x\r\nbindsym c exec y"),
        vec![b("a", "exec x", None), b("c", "exec y", None)]
    );
}

#[test]
fn parse_config_unbalanced_close_brace() {
    assert_eq!(parse_config("}\n}\nbindsym a b\n"), vec![b("a", "b", None)]);
}

#[test]
fn parse_config_nested_modes() {
    let src = "mode \"outer\" {\nmode \"inner\" {\nbindsym a b\n}\nbindsym c d\n}\nbindsym e f\n";
    assert_eq!(
        parse_config(src),
        vec![b("a", "b", Some("inner")), b("c", "d", Some("outer")), b("e", "f", None)]
    );
}

#[test]
fn parse_config_mode_needs_brace_and_quotes() {
    let src = "mode \"x\"\nbindsym a b\nmode plain {\nbindsym c d\n";
    assert_eq!(parse_config(src), vec![b("a", "b", None), b("c", "d", None)]);
}

#[test]
fn parse_config_later_set_replaces_earlier() {
    let src = "set $mod Mod1\nset $mod Mod4\nbindsym $mod+a exec x\n";
    assert_eq!(parse_config(src), vec![b("Super+a", "exec x", None)]);
}

#[test]
fn parse_config_set_after_use_does_not_apply() {
    let src = "bindsym $mod+a exec x\nset $mod Mod4\n";
    assert_eq!(parse_config(src), vec![b("$mod+a", "exec x", None)]);
}

#[test]
fn parse_config_skips_incomplete_bindsym() {
    assert_eq!(parse_config("bindsym a\nbindsym\nbindsym --release\n"), vec![]);
}

#[test]
fn parse_config_ignores_other_lines() {
    let src = "output * bg #000000 solid_color\nbindcode 10 exec x\nexec swayidle\n";
    assert_eq!(parse_config(src), vec![]);
}

#[test]
fn parse_bindsym_skips_options() {
    let mut vars = Vars::new();
    vars.insert("$mod".to_string(), "Mod4".to_string());
    assert_eq!(
        parse_bindsym("  --release --locked $mod+x exec foo", &vars, None),
        Some(b("Super+x", "exec foo", None))
    );
}

#[test]
fn parse_bindsym_keeps_mode() {
    let vars = Vars::new();
    let mode = "resize".to_string();
    assert_eq!(parse_bindsym("Left resize shrink", &vars, Some(&mode)), Some(b("Left", "resize shrink", Some("resize"))));
}

#[test]
fn parse_bindsym_needs_keys_and_command() {
    let vars = Vars::new();
    assert_eq!(parse_bindsym("Mod4+x", &vars, None), None);
    assert_eq!(parse_bindsym("--to-code", &vars, None), None);
    assert_eq!(parse_bindsym("", &vars, None), None);
}

#[test]
fn parse_bindsym_command_keeps_inner_spacing() {
    let vars = Vars::new();
    assert_eq!(parse_bindsym("x exec  a   b ", &vars, None), Some(b("x", "exec  a   b ", None)));
}
