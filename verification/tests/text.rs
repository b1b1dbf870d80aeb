use mindmap_cli::path::{base_directory_of, is_absolute, is_within, join, parent_of};
use mindmap_cli::text::{
    chars_of, decimal_string, find, find_char, has_at, is_space, parse_u32_at, skip_spaces,
    split_lines, string_from, string_of, trim_chars, trim_end_len, trim_start_chars, NumberError,
};

fn chars(s: &str) -> Vec<char> {
    s.chars().collect()
}

#[test]
fn chars_and_strings_convert_both_ways() {
    assert_eq!(chars_of("a→b"), vec!['a', '→', 'b']);
    assert_eq!(chars_of(""), Vec::<char>::new());
    assert_eq!(string_of(&chars("é [1]")), "é [1]");
    assert_eq!(string_from(&chars("abcdef"), 2, 4), "cd");
    assert_eq!(string_from(&chars("abcdef"), 3, 3), "");
}

#[test]
fn decimal_numerals() {
    assert_eq!(decimal_string(0), "0");
    assert_eq!(decimal_string(7), "7");
    assert_eq!(decimal_string(10), "10");
    assert_eq!(decimal_string(4294967295), "4294967295");
    assert_eq!(decimal_string(u64::MAX), "18446744073709551615");
}

#[test]
fn numbers_are_read_as_the_standard_library_reads_them() {
    let read = |s: &str| {
        let cs = chars(s);
        parse_u32_at(&cs, 0, cs.len())
    };
    for text in ["0", "7", "007", "+7", "4294967295", "+0004294967295", "", "+", "-", "-1", "1 ", " 1", "1a", "a", "4294967296", "99999999999999999999x", "x99999999999999999999", "１"] {
        let expected = match text.parse::<u32>() {
            Ok(n) => Ok(n),
            Err(e) => Err(match e.kind() {
                std::num::IntErrorKind::Empty => NumberError::Empty,
                std::num::IntErrorKind::InvalidDigit => NumberError::InvalidDigit,
                _ => NumberError::TooLarge,
            }),
        };
        assert_eq!(read(text), expected, "for {:?}", text);
    }
    assert_eq!(read("12"), Ok(12));
    assert_eq!(read("4294967296"), Err(NumberError::TooLarge));
    let cs = chars("[42]");
    assert_eq!(parse_u32_at(&cs, 1, 3), Ok(42));
}

#[test]
fn searching_finds_the_first_occurrence() {
    let cs = chars("a**b**c");
    assert_eq!(find(&cs, &chars("**"), 0), Some(1));
    assert_eq!(find(&cs, &chars("**"), 2), Some(4));
    assert_eq!(find(&cs, &chars("**"), 5), None);
    assert_eq!(find(&cs, &chars(""), 7), Some(7));
    assert_eq!(find(&cs, &chars(""), 8), None);
    assert_eq!(find(&cs, &chars("a**b**c!"), 0), None);
    assert_eq!(find_char(&cs, 'b', 0), Some(3));
    assert_eq!(find_char(&cs, 'b', 4), None);
    assert!(has_at(&cs, &chars("b**"), 3));
    assert!(!has_at(&cs, &chars("b**"), 4));
    assert!(!has_at(&cs, &chars("c!"), 6));
    assert!(has_at(&cs, &chars(""), 7));
}

#[test]
fn white_space_is_what_unicode_says() {
    for code in 0u32..=0x3100 {
        if let Some(c) = char::from_u32(code) {
            assert_eq!(is_space(c), c.is_whitespace(), "for U+{:04X}", code);
        }
    }
    let cs = chars(" \t\u{a0}x y \u{2003}\n");
    assert_eq!(skip_spaces(&cs, 0, cs.len()), 3);
    assert_eq!(trim_end_len(&cs, cs.len()), 6);
    assert_eq!(trim_chars(&cs, 0, cs.len()), chars("x y"));
    assert_eq!(trim_start_chars(&cs, 0, cs.len()), chars("x y \u{2003}\n"));
    assert_eq!(trim_chars(&chars("   "), 0, 3), chars(""));
    assert_eq!(trim_chars(&chars("ab cd"), 1, 4), chars("b c"));
}

#[test]
fn lines_are_split_as_the_standard_library_splits_them() {
    for text in ["", "\n", "a", "a\n", "a\nb", "a\r\nb\r\n", "a\rb\n", "a\n\n\nb", "\r\n", "\r", "a\r", "a\n\r", "é\n→"] {
        let expected: Vec<String> = text.lines().map(|l| l.to_string()).collect();
        assert_eq!(split_lines(text), expected, "for {:?}", text);
    }
}

#[test]
fn absolute_references_are_recognised() {
    for reference in ["/", "/etc/passwd", "//x", "C:", "c:\\x", "Z:rel", "a:b", "\\\\server\\share", "\\\\"] {
        assert!(is_absolute(reference), "{:?}", reference);
    }
    for reference in ["", ".", "./a.md", "../a.md", "a/b", "ab:c", "1:", ":", "\\a", "é:", "~/.x", "file:///x"] {
        assert!(!is_absolute(reference), "{:?}", reference);
    }
}

#[test]
fn parent_directories() {
    assert_eq!(parent_of("/ws/sub/M.md"), Some("/ws/sub".to_string()));
    assert_eq!(parent_of("/ws/sub/"), Some("/ws".to_string()));
    assert_eq!(parent_of("/ws//sub"), Some("/ws".to_string()));
    assert_eq!(parent_of("/M.md"), Some("/".to_string()));
    assert_eq!(parent_of("M.md"), Some("".to_string()));
    assert_eq!(parent_of("a/b"), Some("a".to_string()));
    assert_eq!(parent_of("/"), None);
    assert_eq!(parent_of("///"), None);
    assert_eq!(parent_of(""), None);
    assert_eq!(base_directory_of("/ws/sub/M.md", "/ws"), "/ws/sub");
    assert_eq!(base_directory_of("", "/ws"), "/ws");
}

#[test]
fn joining_puts_one_separator_between() {
    assert_eq!(join("/ws/sub", "./B.md"), "/ws/sub/./B.md");
    assert_eq!(join("/ws/sub/", "B.md"), "/ws/sub/B.md");
    assert_eq!(join("/", "B.md"), "/B.md");
    assert_eq!(join("", "B.md"), "B.md");
    assert_eq!(join("/ws", ""), "/ws/");
}

#[test]
fn containment_goes_by_whole_segments() {
    assert!(is_within("/ws", "/ws"));
    assert!(is_within("/ws/a.md", "/ws"));
    assert!(is_within("/ws/sub/a.md", "/ws"));
    assert!(is_within("/ws/a.md", "/ws/"));
    assert!(is_within("/a", "/"));
    assert!(is_within("/", "/"));
    assert!(is_within("/a", ""));
    assert!(!is_within("/ws-old/a.md", "/ws"));
    assert!(!is_within("/wsa", "/ws"));
    assert!(!is_within("/w", "/ws"));
    assert!(!is_within("/etc/passwd", "/ws"));
    assert!(!is_within("/ws", "/ws/"));
    assert!(!is_within("", "/ws"));
}
