use swaybind::{matches_lowered, parse_config, App, Binding, Message};

fn sample() -> Vec<Binding> {
    parse_config(
        "set $mod Mod4\nbindsym $mod+Return exec foot\nmode \"resize\" {\nbindsym Left resize shrink width 10px\n}\nbindsym $mod+r mode \"resize\"\nbindsym Print exec grim\n",
    )
}

#[test]
fn app_new_starts_unfiltered() {
    let bs = sample();
    let app = App::new(bs.clone(), None);
    assert_eq!(app.filter, "");
    assert_eq!(app.bindings, bs);
    assert_eq!(app.error, None);
    assert_eq!(app.matching(), vec![0, 1, 2, 3]);
}

#[test]
fn app_new_keeps_error() {
    let app = App::new(Vec::new(), Some("failed".to_string()));
    assert_eq!(app.error, Some("failed".to_string()));
    assert_eq!(app.matching(), Vec::<usize>::new());
}

#[test]
fn app_update_sets_filter() {
    let mut app = App::new(sample(), None);
    app.update(Message::FilterChanged("grim".to_string()));
    assert_eq!(app.filter, "grim");
    assert_eq!(app.bindings.len(), 4);
    assert_eq!(app.matching(), vec![3]);
}

#[test]
fn filter_is_case_insensitive_and_trimmed() {
    let mut app = App::new(sample(), None);
    app.update(Message::FilterChanged("  SUPER ".to_string()));
    assert_eq!(app.matching(), vec![0, 2]);
}

#[test]
fn filter_searches_mode_and_command() {
    let mut app = App::new(sample(), None);
    app.update(Message::FilterChanged("resize".to_string()));
    assert_eq!(app.matching(), vec![1, 2]);
}

#[test]
fn blank_filter_matches_everything() {
    let mut app = App::new(sample(), None);
    app.update(Message::FilterChanged(" \t ".to_string()));
    assert_eq!(app.matching(), vec![0, 1, 2, 3]);
    for b in &app.bindings {
        assert!(app.matches_filter(b));
    }
}

#[test]
fn filter_without_match() {
    let mut app = App::new(sample(), None);
    app.update(Message::FilterChanged("nothing-like-this".to_string()));
    assert_eq!(app.matching(), Vec::<usize>::new());
}

#[test]
fn matches_filter_uses_unicode_lowercase() {
    let mut app = App::new(Vec::new(), None);
    app.update(Message::FilterChanged("ÄPFEL".to_string()));
    let b = Binding { keys: "x".to_string(), command: "exec äpfel".to_string(), mode: None };
    assert!(app.matches_filter(&b));
}

#[test]
fn matches_lowered_cases() {
    assert!(matches_lowered("", "x", "y", "z"));
    assert!(matches_lowered("ab", "xaby", "", ""));
    assert!(matches_lowered("ab", "", "", "ab"));
    assert!(!matches_lowered("ab", "a", "b", "ba"));
}
