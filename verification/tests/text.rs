use oxidize::text::{contains, decimal, is_white_space, join, lines, split, trim};

fn strings(list: &[&str]) -> Vec<String> {
    list.iter().map(|s| s.to_string()).collect()
}

#[test]
fn split_agrees_with_std() {
    for text in ["", "_", "a", "a_b", "_a", "a_", "__", "a__b_c", "ä_ö", "no separator"] {
        let expected: Vec<String> = text.split('_').map(str::to_string).collect();
        assert_eq!(split(text, '_'), expected, "{text:?}");
    }
}

#[test]
fn lines_agree_with_std() {
    for text in [
        "", "\n", "\r\n", "a", "a\n", "a\r\n", "a\r", "a\nb", "a\n\nb\n", "a\r\r\nb", "\r", "a\rb\nc", "é\r\nü",
    ] {
        let expected: Vec<String> = text.lines().map(str::to_string).collect();
        assert_eq!(lines(text), expected, "{text:?}");
    }
}

#[test]
fn contains_agrees_with_std() {
    let texts = ["", "a", "ab", "[Info(", "x [Info(\"", "[Inf[Info(", "[Info", "aaab", "ünü"];
    let needles = ["", "a", "ab", "[Info(", "aab", "ü", "nü"];
    for text in texts {
        for needle in needles {
            assert_eq!(contains(text, needle), text.contains(needle), "{text:?} {needle:?}");
        }
    }
}

#[test]
fn join_agrees_with_std() {
    for list in [vec![], vec!["a"], vec!["a", "b"], vec!["", "", "c"]] {
        assert_eq!(join(&strings(&list), "; "), list.join("; "));
    }
}

#[test]
fn white_space_is_that_of_unicode() {
    for n in 0..=0x10ffff_u32 {
        if let Some(c) = char::from_u32(n) {
            assert_eq!(is_white_space(c), c.is_whitespace(), "{n:x}");
        }
    }
}

#[test]
fn trim_agrees_with_std() {
    for text in ["", " ", "a", " a ", "10.0.100\n", "\r\n\t10.0 rc\u{a0}\n", "\u{3000}x y\u{2029}"] {
        assert_eq!(trim(text), text.trim());
    }
}

#[test]
fn decimal_agrees_with_std() {
    for n in [0, 1, 9, 10, 11, 99, 100, 258550, usize::MAX] {
        assert_eq!(decimal(n), n.to_string());
    }
}
