use swaybind::text::trim;
use swaybind::{first_token_and_rest, quoted_token, strip_comment};
use swaybind::{dump_line, display_keys, key_chip_symbols, key_to_symbol, parse_config, resolve_keys, substitute_vars, Binding, Vars};

#[test]
fn law_display_keys_idempotent_example() {
    for k in ["Mod4+Mod1+Control+x", "Super+Alt", "Mod2+Ctrl", "a++b", ""] {
        let once = display_keys(k);
        assert_eq!(display_keys(&once), once);
    }
}

#[test]
fn law_display_keys_keeps_chips_example() {
    for k in ["Mod4+Shift+Return", "Mod1+Control+Delete", "Mod5+x"] {
        assert_eq!(key_chip_symbols(&display_keys(k)), key_chip_symbols(k));
    }
}

#[test]
fn law_display_name_keeps_symbol_example() {
    for (name, shown) in [("Mod4", "Super"), ("Mod1", "Alt"), ("Control", "Ctrl")] {
        assert_eq!(key_to_symbol(name), key_to_symbol(shown));
    }
}

#[test]
fn law_resolve_keys_without_vars_example() {
    let empty = Vars::new();
    for k in ["$mod+x", "a++b", "", "$a+$b"] {
        assert_eq!(resolve_keys(k, &empty), k);
    }
}

#[test]
fn law_substitute_without_vars_example() {
    let empty = Vars::new();
    assert_eq!(substitute_vars("exec $term --flag $x_1", &empty), "exec $term --flag $x_1");
}

#[test]
fn law_substitute_without_dollar_example() {
    let mut v = Vars::new();
    v.insert("$term".to_string(), "foot".to_string());
    assert_eq!(substitute_vars("exec term", &v), "exec term");
}

#[test]
fn law_substitute_fails_outside_ascii() {
    let empty = Vars::new();
    assert_ne!(substitute_vars("é", &empty), "é");
}

#[test]
fn law_blank_lines_ignored_example() {
    let base = "set $m Mod4\nbindsym $m+a exec x\n";
    let with_blank = "set $m Mod4\n\n   # note\n\t\nbindsym $m+a exec x\n";
    assert_eq!(parse_config(with_blank), parse_config(base));
}

#[test]
fn law_config_in_parts_example() {
    let a = "set $m Mod4\nmode \"x\" {\n";
    let b = "bindsym $m+a exec y\n}\nbindsym q exec z\n";
    let joined = parse_config(&format!("{a}{b}"));
    assert_eq!(joined.len(), 2);
    assert_eq!(joined[0].mode, Some("x".to_string()));
    assert_eq!(joined[0].keys, "Super+a");
    assert_eq!(parse_config(a), vec![]);
}

#[test]
fn law_bindings_bounded_example() {
    let src = "bindsym a b\nbindsym c d\nfoo\n";
    assert!(parse_config(src).len() <= src.lines().count());
}

#[test]
fn law_no_mode_blocks_example() {
    let src = "bindsym a b\n}\nbindsym c d\n";
    assert!(parse_config(src).iter().all(|b| b.mode.is_none()));
}

#[test]
fn law_dump_command_column_example() {
    let b = Binding { keys: "Super+x".to_string(), command: "exec foot".to_string(), mode: None };
    let line = dump_line(&b);
    let chars: Vec<char> = line.chars().collect();
    assert_eq!(chars.len(), 24 + 1 + "exec foot".len());
    assert_eq!(chars[25..].iter().collect::<String>(), "exec foot");
}

#[test]
fn law_trim_idempotent_example() {
    for s in ["  a b  ", "\u{3000}x\t", "", "   "] {
        assert_eq!(trim(trim(s)), trim(s));
    }
}

#[test]
fn law_strip_comment_example() {
    let line = "bindsym a exec b # c";
    let r = strip_comment(line);
    assert!(line.starts_with(r));
    assert!(!r.contains('#'));
    assert_eq!(strip_comment("no hash here"), "no hash here");
}

#[test]
fn law_first_token_and_rest_example() {
    let (t, r) = first_token_and_rest("  bindsym   $mod+a  exec x");
    assert!(!t.chars().any(char::is_whitespace));
    assert!(!r.starts_with(char::is_whitespace));
    assert_eq!((t, r), ("bindsym", "$mod+a  exec x"));
}

#[test]
fn law_quoted_token_example() {
    let s = "mode \"resize\" {";
    let t = quoted_token(s).unwrap();
    assert!(!t.contains('"'));
    assert!(s.contains(&format!("\"{t}\"")));
}

#[test]
fn law_join_split_example() {
    for k in ["Super+Shift+q", "a++b", "", "+"] {
        let parts: Vec<&str> = k.split('+').collect();
        assert_eq!(parts.join("+"), k);
        assert_eq!(swaybind::key_chip_symbols(k).len(), parts.len());
    }
}

#[test]
fn law_config_concat_example() {
    let a = "bindsym a exec x\n# note\nbindsym --release b exec y";
    let b = "set $m Mod4\nmode \"r\" {\nbindsym $m+c exec z\n}\n";
    let mut expected = parse_config(a);
    expected.extend(parse_config(b));
    assert_eq!(parse_config(&format!("{a}\n{b}")), expected);
    assert_eq!(parse_config(&format!("{a}\n\n{b}")), expected);
}

#[test]
fn law_trailing_comment_example() {
    let src = "set $m Mod4\nbindsym $m+a exec x\r\nmode \"r\" {\nbindsym b exec y\n}";
    let lines: Vec<&str> = src.lines().collect();
    for (i, line) in lines.iter().enumerate() {
        if line.contains('#') {
            continue;
        }
        let mut changed: Vec<String> = lines.iter().map(|l| l.to_string()).collect();
        changed[i] = format!("{line}# a comment");
        let src2 = changed.join("\n");
        assert_eq!(parse_config(&src2), parse_config(src));
    }
}

#[test]
fn law_trailing_comment_crlf_example() {
    let src = "set $m Mod4\r\nbindsym $m+a exec x\r\nmode \"r\" {\r\nbindsym b exec y\r\n}\r\n";
    let lines: Vec<&str> = src.lines().collect();
    for (i, line) in lines.iter().enumerate() {
        let mut changed: Vec<String> = lines.iter().map(|l| l.to_string()).collect();
        changed[i] = format!("{line}#c");
        let src2 = changed.join("\r\n") + "\r\n";
        assert_eq!(parse_config(&src2), parse_config(src));
    }
}
