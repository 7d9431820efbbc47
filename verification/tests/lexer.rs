use swaybind::{first_token_and_rest, quoted_token, strip_comment};

#[test]
fn strip_comment_cuts_at_first_hash() {
    assert_eq!(strip_comment("bindsym $mod+a exec foo # run foo"), "bindsym $mod+a exec foo ");
    assert_eq!(strip_comment("a # b # c"), "a ");
}

#[test]
fn strip_comment_keeps_line_without_hash() {
    assert_eq!(strip_comment("set $mod Mod4"), "set $mod Mod4");
    assert_eq!(strip_comment(""), "");
}

#[test]
fn strip_comment_of_comment_line_is_empty() {
    assert_eq!(strip_comment("# only a comment"), "");
}

#[test]
fn first_token_and_rest_splits_at_whitespace() {
    assert_eq!(first_token_and_rest("  set $mod   Mod4 "), ("set", "$mod   Mod4 "));
    assert_eq!(first_token_and_rest("bindsym\t--release x"), ("bindsym", "--release x"));
}

#[test]
fn first_token_and_rest_single_token() {
    assert_eq!(first_token_and_rest("single"), ("single", ""));
    assert_eq!(first_token_and_rest("   single   "), ("single", ""));
}

#[test]
fn first_token_and_rest_empty() {
    assert_eq!(first_token_and_rest(""), ("", ""));
    assert_eq!(first_token_and_rest(" \t "), ("", ""));
}

#[test]
fn first_token_and_rest_unicode_whitespace() {
    assert_eq!(first_token_and_rest("\u{3000}a\u{a0}b"), ("a", "b"));
    assert_eq!(first_token_and_rest("é\u{2003}ü"), ("é", "ü"));
}

#[test]
fn quoted_token_finds_first_pair() {
    assert_eq!(quoted_token("\"resize\" {"), Some("resize"));
    assert_eq!(quoted_token("--pango_markup \"a b\" \"c\" {"), Some("a b"));
    assert_eq!(quoted_token("\"\" {"), Some(""));
}

#[test]
fn quoted_token_needs_two_quotes() {
    assert_eq!(quoted_token("resize {"), None);
    assert_eq!(quoted_token("\"resize {"), None);
}
