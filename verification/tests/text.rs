use st_narrative::text::{
    char_is_whitespace, chars_of, find_from, occurs_at, rfind_char, trim_window,
};

fn chars(s: &str) -> Vec<char> {
    s.chars().collect()
}

#[test]
fn whitespace_agrees_with_the_standard_library_on_every_character() {
    let mut code: u32 = 0;
    while code <= 0x10FFFF {
        if let Some(c) = char::from_u32(code) {
            assert_eq!(char_is_whitespace(c), c.is_whitespace(), "U+{:04X}", code);
        }
        code += 1;
    }
}

#[test]
fn whitespace_examples() {
    assert!(char_is_whitespace(' '));
    assert!(char_is_whitespace('\n'));
    assert!(char_is_whitespace('\t'));
    assert!(char_is_whitespace('\u{85}'));
    assert!(char_is_whitespace('\u{3000}'));
    assert!(!char_is_whitespace('a'));
    assert!(!char_is_whitespace('\u{200B}'));
    assert!(!char_is_whitespace('\u{180E}'));
}

#[test]
fn chars_of_lists_characters_in_order() {
    assert_eq!(chars_of("aé✓"), vec!['a', 'é', '✓']);
    assert_eq!(chars_of(""), Vec::<char>::new());
}

#[test]
fn occurs_at_checks_one_position() {
    let hay = chars("abcabc");
    assert!(occurs_at(&hay, &chars("abc"), 0));
    assert!(occurs_at(&hay, &chars("abc"), 3));
    assert!(!occurs_at(&hay, &chars("abc"), 1));
    assert!(!occurs_at(&hay, &chars("abc"), 4));
    assert!(!occurs_at(&hay, &chars("abc"), 100));
    assert!(occurs_at(&hay, &chars(""), 6));
    assert!(!occurs_at(&hay, &chars(""), 7));
}

#[test]
fn find_from_returns_the_first_match() {
    let hay = chars("xx```json```");
    assert_eq!(find_from(&hay, &chars("```"), 0), Some(2));
    assert_eq!(find_from(&hay, &chars("```"), 3), Some(9));
    assert_eq!(find_from(&hay, &chars("```"), 10), None);
    assert_eq!(find_from(&hay, &chars("```json"), 0), Some(2));
    assert_eq!(find_from(&hay, &chars("nope"), 0), None);
    assert_eq!(find_from(&hay, &chars("longer than the haystack"), 0), None);
    assert_eq!(find_from(&hay, &chars("x"), 50), None);
}

#[test]
fn find_from_agrees_with_str_find_on_ascii() {
    let texts = ["", "a", "aaa", "abcabcabd", "```a```", "{}{}", "``` ```json ```"];
    let pats = ["a", "ab", "abd", "```", "```json", "{", "}"];
    for text in texts {
        for pat in pats {
            assert_eq!(find_from(&chars(text), &chars(pat), 0), text.find(pat), "{:?} in {:?}", pat, text);
        }
    }
}

#[test]
fn rfind_char_returns_the_last_position() {
    assert_eq!(rfind_char(&chars("a}b}c"), '}'), Some(3));
    assert_eq!(rfind_char(&chars("}"), '}'), Some(0));
    assert_eq!(rfind_char(&chars("abc"), '}'), None);
    assert_eq!(rfind_char(&chars(""), '}'), None);
}

#[test]
fn trim_window_agrees_with_str_trim() {
    let texts = ["", " ", "  a  ", "a", "\n\t a b \r\n", "\u{a0}x\u{3000}", "   ", "ab"];
    for text in texts {
        let cs = chars(text);
        let (lo, hi) = trim_window(&cs, 0, cs.len());
        let got: String = cs[lo..hi].iter().collect();
        assert_eq!(got, text.trim(), "{:?}", text);
    }
}

#[test]
fn trim_window_stays_inside_the_window() {
    let cs = chars("ab  cd  ef");
    assert_eq!(trim_window(&cs, 2, 8), (4, 6));
    assert_eq!(trim_window(&cs, 2, 4), (4, 4));
    assert_eq!(trim_window(&cs, 3, 3), (3, 3));
    assert_eq!(trim_window(&cs, 0, 10), (0, 10));
}
