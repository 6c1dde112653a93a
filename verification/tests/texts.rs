use oxiclaw::{guard, numerals, order, paths, search, text};
use std::path::Path;

const SAMPLES: [&str; 14] = [
    "",
    " ",
    "abc",
    "  abc  def ",
    "\tun\u{a0}deux\u{3000}trois\n",
    "\r\n",
    "a\r\nb\rc\n\nd",
    "fin\n",
    "fin\r",
    "x\u{85}y\u{2028}z",
    "éàü ÇŒ",
    "--- a - b ---",
    "///",
    "İstanbul ΑΣ",
];

#[test]
fn white_space_is_that_of_char() {
    for n in 0..=0x10ffffu32 {
        if let Some(c) = char::from_u32(n) {
            assert_eq!(text::is_white(c), c.is_whitespace(), "{n:x}");
        }
    }
}

#[test]
fn trimming_and_words_agree_with_std() {
    for s in SAMPLES {
        assert_eq!(text::trim(s), s.trim());
        assert_eq!(text::is_blank(s), s.trim().is_empty());
        let words: Vec<String> = s.split_whitespace().map(|w| w.to_string()).collect();
        assert_eq!(text::split_whitespace(s), words);
    }
}

#[test]
fn lines_agree_with_std() {
    for s in SAMPLES {
        let lines: Vec<String> = s.lines().map(|l| l.to_string()).collect();
        assert_eq!(search::split_lines(s), lines);
        for p in ["a", "b", "fin", "\r", "y", " ", ""] {
            assert_eq!(search::any_line_contains(s, p), s.lines().any(|l| l.contains(p)));
        }
    }
}

#[test]
fn searching_agrees_with_std() {
    for s in SAMPLES {
        for p in ["", "a", "bc", "def ", "\n", "é", "---", "/"] {
            assert_eq!(search::contains(s, p), s.contains(p));
            assert_eq!(search::starts_with(s, p), s.starts_with(p));
            assert_eq!(search::ends_with(s, p), s.ends_with(p));
            if !p.is_empty() {
                assert_eq!(search::replace(s, p, "<é>"), s.replace(p, "<é>"));
            }
        }
        for c in ['a', '-', '/', '\n', 'É', '@'] {
            assert_eq!(search::replace_char(s, c, "__"), s.replace(c, "__"));
            assert_eq!(search::trim_end_matches(s, c), s.trim_end_matches(c));
            assert_eq!(search::trim_start_matches(s, c), s.trim_start_matches(c));
            assert_eq!(search::before_char(s, c), s.split(c).next().unwrap_or(s));
        }
        for n in [0usize, 1, 3, 100] {
            assert_eq!(search::take_chars(s, n), s.chars().take(n).collect::<String>());
        }
    }
}

#[test]
fn overlapping_pieces_are_replaced_from_the_left() {
    assert_eq!(search::replace("aaaaa", "aa", "b"), "bba");
}

#[test]
fn joining_agrees_with_std() {
    let parts = vec!["a".to_string(), "".to_string(), "b".to_string()];
    assert_eq!(search::join(&parts, ", "), parts.join(", "));
    assert_eq!(search::join(&Vec::new(), ", "), "");
}

#[test]
fn a_piece_is_found_on_its_line() {
    assert!(search::any_line_contains("un\n- [t] deux\ntrois", "deux"));
    assert!(!search::any_line_contains("un\ndeux", "un\ndeux"));
}

#[test]
fn numbers_are_written_as_std_writes_them() {
    for n in [0u64, 1, 9, 10, 42, 255, 65_536, u64::MAX] {
        assert_eq!(numerals::write_decimal(n), format!("{n}"));
        assert_eq!(numerals::write_hexadecimal(n, 16), format!("{n:016x}"));
    }
}

#[test]
fn numbers_are_read_as_std_reads_them() {
    let texts = [
        "", "+", "-", "0", "7", "+7", "-7", "007", "12a", " 1", "18446744073709551615",
        "18446744073709551616", "9223372036854775807", "-9223372036854775808",
        "-9223372036854775809", "+-1", "--1", "٣",
    ];
    for s in texts {
        assert_eq!(numerals::read_unsigned(s), s.parse::<u64>().ok(), "{s}");
        assert_eq!(numerals::read_signed(s), s.parse::<i64>().ok(), "{s}");
    }
}

#[test]
fn a_written_number_is_read_back() {
    for n in [0u64, 5, 1_000_000, u64::MAX] {
        assert_eq!(numerals::read_unsigned(&numerals::write_decimal(n)), Some(n));
    }
}

#[test]
fn names_are_sorted_as_std_sorts_them() {
    let names: Vec<String> = ["b", "a", "ab", "", "B", "é", "z", "a", "session-2026", "😀", "\u{ffff}"]
        .iter()
        .map(|s| s.to_string())
        .collect();
    let mut expected = names.clone();
    expected.sort();
    assert_eq!(order::sort_names(names.clone()), expected);
    for a in &names {
        for b in &names {
            assert_eq!(order::is_before(a, b), a < b);
        }
    }
}

#[test]
fn paths_are_joined_as_std_joins_them() {
    for base in ["", "a", "a/", "/", "/a/b", "./x", "a//"] {
        for name in ["conf", "AGENT.md", "session-2026-01-01.jsonl"] {
            assert_eq!(paths::join(base, name), Path::new(base).join(name).to_str().unwrap());
        }
    }
}

#[test]
fn parents_are_those_of_std() {
    for p in [
        "", "/", "a", "a/b", "a/b/", "/a", "/a/b/c", "a//b", "./a", "a/.", "a/./b", "//", "a/b//", "..",
        "../x", "a/..", ".", "./", "/.", "/./a", "a/.//", "x/./.",
    ] {
        let expected = Path::new(p).parent().map(|q| q.to_str().unwrap().to_string());
        assert_eq!(paths::parent(p), expected, "{p}");
    }
}

#[test]
fn the_parent_of_a_joined_path_is_the_base() {
    assert_eq!(paths::parent(&paths::join("home/me", "AGENT.md")), Some("home/me".to_string()));
}

#[test]
fn credentials_are_noticed_in_any_case() {
    for s in ["my TOKEN", "Password=1", "API_KEY", "un Secret", "Bearer abc", "ssh-rsa"] {
        assert!(guard::contains_sensitive(s), "{s}");
    }
    assert!(guard::lower_names_credential("my token"));
    assert!(!guard::lower_names_credential("my TOKEN"));
    for s in ["", "bearer", "ssh", "clé", "jeton"] {
        assert!(!guard::contains_sensitive(s), "{s}");
    }
}

#[test]
fn lengths_are_counted_in_bytes() {
    assert!(!guard::longer_than("éé", 4));
    assert!(guard::longer_than("éé", 3));
    assert!(!guard::longer_than("", 0));
}

#[test]
fn credential_words_are_found_in_any_case_and_place() {
    for w in ["token", "PassWord", "API_KEY", "Secret", "BEARER ", "ssh-"] {
        assert!(guard::contains_sensitive(w));
        assert!(guard::contains_sensitive(&format!("avant {w} après")));
        assert!(guard::contains_sensitive(&format!("x{w}y").to_ascii_uppercase()));
        assert!(guard::contains_sensitive(&format!("ÉTÉ ΟΔΟΣ{w}Σ é👋")));
    }
    for s in ["", "tok en", "bearer", "ssh", "le chat dort"] {
        assert!(!guard::contains_sensitive(s));
        assert!(!guard::contains_sensitive(&s.to_uppercase()));
    }
}
