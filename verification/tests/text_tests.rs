use leadscraper::text;

fn chars(s: &str) -> Vec<char> {
    s.chars().collect()
}

fn strings(lines: Vec<Vec<char>>) -> Vec<String> {
    lines.into_iter().map(|l| l.into_iter().collect()).collect()
}

#[test]
fn lines_are_cut_as_the_standard_library_cuts_them() {
    for sample in ["", "a", "a\n", "a\nb", "\n", "\n\n", "a\r\nb\r", "a\r\r\nb", "\r\n", "x\n\ny\n\n"] {
        let expected: Vec<String> = sample.lines().map(String::from).collect();
        assert_eq!(strings(text::split_lines(&chars(sample))), expected, "sample {:?}", sample);
    }
}

#[test]
fn trimming_agrees_with_the_standard_library() {
    for sample in ["", " ", "  a  ", "\t\u{a0}a b\u{3000}\n", "ab", " \u{1F600} "] {
        assert_eq!(text::str_trim(sample), sample.trim(), "sample {:?}", sample);
    }
}

#[test]
fn searching_agrees_with_the_standard_library() {
    let samples = ["", "a", "ab", "abcabc", "github.com/x", "aaa"];
    let needles = ["", "a", "bc", "abc", "abcabcd", "github.com", "aa"];
    for s in samples {
        for p in needles {
            assert_eq!(text::str_contains(s, p), s.contains(p), "{:?} contains {:?}", s, p);
            assert_eq!(text::str_starts_with(s, p), s.starts_with(p), "{:?} starts with {:?}", s, p);
            assert_eq!(text::str_ends_with(s, p), s.ends_with(p), "{:?} ends with {:?}", s, p);
            assert_eq!(text::same_text(s, p), s == p);
        }
    }
}

#[test]
fn cleaning_keeps_ascii_and_white_space() {
    let cleaned: String = text::clean_chars(&chars(" caf\u{e9}\u{a0}bar \n\n tab\there ")).into_iter().collect();
    assert_eq!(cleaned, "caf\u{a0}bar tab\there");
}

#[test]
fn first_index_of_a_character() {
    let s = chars("a.b.c");
    assert_eq!(text::find_char(&s, '.', 0), 1);
    assert_eq!(text::find_char(&s, '.', 2), 3);
    assert_eq!(text::find_char(&s, '.', 4), 5);
    assert_eq!(text::find_char(&s, 'z', 0), 5);
    assert_eq!(text::slice_chars(&s, 2, 5), chars("b.c"));
}

#[test]
fn white_space_is_the_unicode_property() {
    for code in 0..=0x10FFFFu32 {
        if let Some(c) = char::from_u32(code) {
            assert_eq!(text::is_whitespace(c), c.is_whitespace(), "U+{:04X}", code);
        }
    }
}
