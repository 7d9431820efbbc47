use swaybind::text::{chars_of, contains_chars, is_whitespace, split_chars, str_eq, trim, trim_end, trim_start};

#[test]
fn is_whitespace_agrees_with_std_on_every_char() {
    for u in 0u32..=0x10FFFF {
        if let Some(c) = char::from_u32(u) {
            assert_eq!(is_whitespace(c), c.is_whitespace(), "U+{:04X}", u);
        }
    }
}

#[test]
fn trim_agrees_with_std() {
    let samples = [
        "", " ", "a", "  a b  ", "\t\nx\r\n", "\u{3000}全角\u{3000}", "\u{85}x\u{a0}", "é ", " ü",
        "\u{2028}\u{2029}", "a\u{200b}",
    ];
    for s in samples {
        assert_eq!(trim(s), s.trim());
        assert_eq!(trim_start(s), s.trim_start());
        assert_eq!(trim_end(s), s.trim_end());
    }
}

#[test]
fn chars_of_gives_chars() {
    assert_eq!(chars_of("aé⌘"), vec!['a', 'é', '⌘']);
    assert_eq!(chars_of(""), Vec::<char>::new());
}

#[test]
fn str_eq_compares_text() {
    assert!(str_eq("Mod4", "Mod4"));
    assert!(!str_eq("Mod4", "Mod1"));
    assert!(!str_eq("Mod", "Mod4"));
}

#[test]
fn contains_chars_cases() {
    assert!(contains_chars(&chars_of("hello"), &chars_of("ell")));
    assert!(contains_chars(&chars_of("hello"), &chars_of("")));
    assert!(!contains_chars(&chars_of("hello"), &chars_of("hellos")));
    assert!(!contains_chars(&chars_of("hel"), &chars_of("lo")));
}

#[test]
fn split_chars_agrees_with_std() {
    for s in ["", "a", "a+b", "+", "a++b", "Super+Shift+q", "+a+"] {
        let ours: Vec<String> = split_chars(&chars_of(s), '+').iter().map(|p| p.iter().collect()).collect();
        let std: Vec<String> = s.split('+').map(|p| p.to_string()).collect();
        assert_eq!(ours, std);
    }
}
