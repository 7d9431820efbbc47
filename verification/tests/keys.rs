use swaybind::{display_keys, key_chip_symbols, key_to_symbol, resolve_keys, Vars};

fn vars(pairs: &[(&str, &str)]) -> Vars {
    let mut v = Vars::new();
    for (k, val) in pairs {
        v.insert(k.to_string(), val.to_string());
    }
    v
}

#[test]
fn resolve_keys_replaces_variables() {
    let v = vars(&[("$mod", "Mod4")]);
    assert_eq!(resolve_keys("$mod+Shift+q", &v), "Mod4+Shift+q");
    assert_eq!(resolve_keys("Shift+q", &v), "Shift+q");
}

#[test]
fn resolve_keys_keeps_unknown_variables() {
    let v = vars(&[("$mod", "Mod4")]);
    assert_eq!(resolve_keys("$alt+x", &v), "$alt+x");
}

#[test]
fn resolve_keys_follows_chains() {
    let v = vars(&[("$a", "$b"), ("$b", "Mod1")]);
    assert_eq!(resolve_keys("$a+x", &v), "Mod1+x");
}

#[test]
fn resolve_keys_stops_on_cycles() {
    let v = vars(&[("$x", "$y"), ("$y", "$x")]);
    assert_eq!(resolve_keys("$x", &v), "$y");
    assert_eq!(resolve_keys("$y+k", &v), "$x+k");
}

#[test]
fn resolve_keys_only_whole_parts() {
    let v = vars(&[("$mod", "Mod4")]);
    assert_eq!(resolve_keys("x$mod", &v), "x$mod");
    assert_eq!(resolve_keys("a++$mod", &v), "a++Mod4");
}

#[test]
fn display_keys_names_modifiers() {
    assert_eq!(display_keys("Mod4+Shift+Return"), "Super+Shift+Return");
    assert_eq!(display_keys("Mod1+Control+x"), "Alt+Ctrl+x");
    assert_eq!(display_keys("Mod2+Mod3+Mod5"), "Mod2+Mod3+Mod5");
}

#[test]
fn display_keys_keeps_other_parts() {
    assert_eq!(display_keys("a++b"), "a++b");
    assert_eq!(display_keys(""), "");
    assert_eq!(display_keys("mod4"), "mod4");
}

#[test]
fn key_to_symbol_modifiers() {
    assert_eq!(key_to_symbol("Super"), "\u{2318}");
    assert_eq!(key_to_symbol("Mod4"), "\u{2318}");
    assert_eq!(key_to_symbol("Alt"), "\u{2325}");
    assert_eq!(key_to_symbol("Ctrl"), "\u{2303}");
    assert_eq!(key_to_symbol("Shift"), "\u{21E7}");
    assert_eq!(key_to_symbol("Mod3"), "\u{2318}");
}

#[test]
fn key_to_symbol_named_keys() {
    assert_eq!(key_to_symbol("Return"), "\u{23CE}");
    assert_eq!(key_to_symbol("Escape_LC"), "\u{238B}");
    assert_eq!(key_to_symbol("Page_Down"), "\u{21DF}");
    assert_eq!(key_to_symbol("space"), "\u{2423}");
    assert_eq!(key_to_symbol("XF86AudioMute"), "\u{1F507}");
    assert_eq!(key_to_symbol("Brightness_Down"), "\u{263E}");
    assert_eq!(key_to_symbol("XF86Network"), "\u{1F4F6}");
    assert_eq!(key_to_symbol("PausePlayback"), "\u{23F8}");
}

#[test]
fn key_to_symbol_falls_back_to_name() {
    assert_eq!(key_to_symbol("F5"), "F5");
    assert_eq!(key_to_symbol("q"), "q");
    assert_eq!(key_to_symbol("return"), "return");
    assert_eq!(key_to_symbol(""), "");
}

#[test]
fn key_chip_symbols_one_per_part() {
    assert_eq!(key_chip_symbols("Super+Shift+q"), vec!["\u{2318}", "\u{21E7}", "q"]);
    assert_eq!(key_chip_symbols("x"), vec!["x"]);
    assert_eq!(key_chip_symbols("a++"), vec!["a", "", ""]);
}
