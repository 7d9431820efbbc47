use swaybind::{substitute_vars, Vars};

fn vars(pairs: &[(&str, &str)]) -> Vars {
    let mut v = Vars::new();
    for (k, val) in pairs {
        v.insert(k.to_string(), val.to_string());
    }
    v
}

#[test]
fn substitute_vars_replaces_defined_names() {
    let v = vars(&[("$term", "foot")]);
    assert_eq!(substitute_vars("exec $term -e $editor", &v), "exec foot -e $editor");
}

#[test]
fn substitute_vars_takes_the_longest_name() {
    let v = vars(&[("$term", "foot")]);
    assert_eq!(substitute_vars("exec $term_x", &v), "exec $term_x");
    assert_eq!(substitute_vars("exec $term-x", &v), "exec foot-x");
}

#[test]
fn substitute_vars_lone_dollars() {
    let v = vars(&[("$term", "foot")]);
    assert_eq!(substitute_vars("$", &v), "$");
    assert_eq!(substitute_vars("$$term", &v), "$foot");
    assert_eq!(substitute_vars("cost $5", &v), "cost $5");
}

#[test]
fn substitute_vars_values_are_not_rescanned() {
    let v = vars(&[("$a", "$b"), ("$b", "x")]);
    assert_eq!(substitute_vars("$a", &v), "$b");
}

#[test]
fn substitute_vars_reads_bytes_as_latin1() {
    let v = vars(&[]);
    assert_eq!(substitute_vars("caf\u{e9}", &v), "caf\u{c3}\u{a9}");
}

#[test]
fn substitute_vars_plain_ascii_unchanged() {
    let v = vars(&[("$x", "y")]);
    assert_eq!(substitute_vars("exec notify-send hi", &v), "exec notify-send hi");
}
