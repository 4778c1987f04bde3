use nexus_linux::text::{is_white_space, text_contains, text_equals, trim_text};

#[test]
fn white_space_is_that_of_unicode() {
    for n in 0..=0x10ffffu32 {
        if let Some(c) = char::from_u32(n) {
            assert_eq!(is_white_space(c), c.is_whitespace());
        }
    }
}

#[test]
fn trimming_takes_white_space_off_both_ends() {
    for s in ["", " ", "a", " a", "a\r\n", "\u{3000} a b\t\u{a0}", "\n\n"] {
        assert_eq!(trim_text(s), s.trim());
    }
}

#[test]
fn searching_finds_every_part() {
    for s in ["", "a", "terminal", "xterm-ter", "tete term", "ééx"] {
        for part in ["", "term", "éx", "terminal", "a"] {
            assert_eq!(text_contains(s, part), s.contains(part));
            assert_eq!(text_equals(s, part), s == part);
        }
    }
}
