use pleiades_explorer::number::decimal_chars;
use pleiades_explorer::text::{chars_le, chars_of, contains_chars, is_blank, is_whitespace};

#[test]
fn white_space_agrees_with_char_is_whitespace() {
    for c in (0u32..=0x10FFFF).filter_map(char::from_u32) {
        assert_eq!(is_whitespace(c), c.is_whitespace(), "{:#x}", c as u32);
    }
}

#[test]
fn blank_means_nothing_left_after_trim() {
    for s in ["", " ", "\t\n", "\u{3000}\u{a0}", " a ", "x", "\u{200b}"] {
        assert_eq!(is_blank(s), s.trim().is_empty(), "{s:?}");
    }
}

#[test]
fn character_order_is_string_order() {
    let words = ["", "a", "ab", "b", "B", "é", "e\u{301}", "z", "ÿ", "中", "😀", "a😀", "aé"];
    for x in words {
        for y in words {
            assert_eq!(chars_le(&chars_of(x), &chars_of(y)), x <= y, "{x:?} {y:?}");
        }
    }
}

#[test]
fn substring_search_is_str_contains() {
    let hays = ["", "readme.md", "naïve café", "aaab", "😀x😀"];
    let needles = ["", "a", "ab", "me.m", "é c", "ï", "x😀", "zz", "aaab", "aaaab"];
    for h in hays {
        for n in needles {
            assert_eq!(contains_chars(&chars_of(h), &chars_of(n)), h.contains(n), "{h:?} {n:?}");
        }
    }
}

#[test]
fn decimal_text() {
    for n in [0u128, 7, 10, 99, 100, 12345, u64::MAX as u128, u128::MAX] {
        let s: String = decimal_chars(n).into_iter().collect();
        assert_eq!(s, n.to_string());
    }
}
