use nv_overlay_slint::text::{
    char_to_upper, contains_str, is_whitespace, upper_chars, decimal_string, lines_of, parse_u32_str, split_chars, trim_str, words_of,
};

fn chars(s: &str) -> Vec<char> {
    s.chars().collect()
}

fn strings(v: Vec<Vec<char>>) -> Vec<String> {
    v.into_iter().map(|c| c.into_iter().collect()).collect()
}

const SAMPLES: [&str; 12] = [
    "",
    "a",
    "\n",
    "a\nb",
    "a\r\nb\r\n",
    "a\n\nb\n\n",
    "  x  y\t z ",
    "\u{2003}spaced\u{3000}",
    "a\rb\r",
    "one,two,,three,",
    ",",
    "\u{85}x\u{a0}",
];

#[test]
fn trim_matches_std() {
    for s in SAMPLES {
        assert_eq!(trim_str(s), s.trim());
    }
}

#[test]
fn lines_match_std() {
    for s in SAMPLES {
        let expected: Vec<String> = s.lines().map(|l| l.to_string()).collect();
        assert_eq!(strings(lines_of(&chars(s))), expected);
    }
}

#[test]
fn words_match_std() {
    for s in SAMPLES {
        let expected: Vec<String> = s.split_whitespace().map(|l| l.to_string()).collect();
        assert_eq!(strings(words_of(&chars(s))), expected);
    }
}

#[test]
fn split_matches_std() {
    for s in SAMPLES {
        let expected: Vec<String> = s.split(',').map(|l| l.to_string()).collect();
        assert_eq!(strings(split_chars(&chars(s), ',')), expected);
    }
}

#[test]
fn contains_matches_std() {
    for s in SAMPLES {
        for p in ["", "a", "two", ",,", "\n", "zz"] {
            assert_eq!(contains_str(s, p), s.contains(p));
        }
    }
}

#[test]
fn decimal_matches_display() {
    for n in [0u32, 7, 10, 99, 100, 12345, u32::MAX] {
        assert_eq!(decimal_string(n), n.to_string());
        assert_eq!(parse_u32_str(&decimal_string(n)), Some(n));
    }
}

#[test]
fn parse_u32_matches_std() {
    for s in ["0", "42", "+42", "-0", "+", "", " 1", "1 ", "007", "4294967295", "4294967296", "99999999999", "1a", "٣"] {
        assert_eq!(parse_u32_str(s), s.parse::<u32>().ok(), "input {:?}", s);
    }
}

#[test]
fn whitespace_matches_std_for_every_char() {
    for u in 0u32..=0x10ffff {
        if let Some(c) = char::from_u32(u) {
            assert_eq!(is_whitespace(c), c.is_whitespace(), "char {:#x}", u);
        }
    }
}

#[test]
fn upper_case_matches_std_for_every_char() {
    for u in 0u32..=0x10ffff {
        if let Some(c) = char::from_u32(u) {
            let expected: Vec<char> = c.to_uppercase().collect();
            assert_eq!(char_to_upper(c), expected, "char {:#x}", u);
        }
    }
}

#[test]
fn upper_case_of_strings_matches_std() {
    for s in ["hello", "Stra\u{df}e", "\u{fb02}ip", "p\u{131}ng", "", "\u{3c3}\u{3a3}"] {
        let got: String = upper_chars(&chars(s)).into_iter().collect();
        assert_eq!(got, s.to_uppercase());
    }
}
