use perihelion::text::{
    chars_of, contains_text, decimal, joined, parse_u64, remove_all, same_text, trim, truncate,
};

#[test]
fn characters_are_counted_not_bytes() {
    assert_eq!(chars_of("aé準"), vec!['a', 'é', '準']);
    assert!(chars_of("").is_empty());
}

#[test]
fn texts_are_compared_character_by_character() {
    assert!(same_text("準備完了", "準備完了"));
    assert!(!same_text("準備完了", "準備完"));
    assert!(!same_text("a", "b"));
    assert!(same_text("", ""));
}

#[test]
fn search_agrees_with_the_standard_library() {
    let texts = ["", "a", "ab", "aab", "<|en|>hi", "xx<|<|en|>", "日本語のマイク"];
    let parts = ["", "a", "ab", "<|en|>", "マイク", "aabb"];
    for text in texts {
        for part in parts {
            assert_eq!(contains_text(text, part), text.contains(part), "{text:?} {part:?}");
        }
    }
}

#[test]
fn removal_agrees_with_the_standard_library() {
    let texts = ["", "aaa", "aaaa", "<|en|>hi<|en|>", "<|en<|en|>|>", "xyx", "日本日本語"];
    let parts = ["a", "aa", "<|en|>", "xyx", "日本"];
    for text in texts {
        for part in parts {
            assert_eq!(remove_all(text, part), text.replace(part, ""), "{text:?} {part:?}");
        }
    }
    assert_eq!(remove_all("abc", ""), "abc");
}

#[test]
fn every_white_space_character_is_trimmed_and_no_other() {
    for c in '\0'..=char::MAX {
        assert_eq!(trim(&c.to_string()).is_empty(), c.is_whitespace(), "{:x}", c as u32);
    }
}

#[test]
fn trimming_keeps_white_space_inside() {
    for text in ["", " ", " a b ", "\t\u{3000}a  b\n\u{a0}", "a", " \n "] {
        assert_eq!(trim(text), text.trim());
    }
}

#[test]
fn truncation_cuts_at_characters() {
    assert_eq!(truncate("準備完了", 2), "準備");
    assert_eq!(truncate("abc", 3), "abc");
    assert_eq!(truncate("abc", 4), "abc");
    assert_eq!(truncate("abc", 0), "");
}

#[test]
fn joining_puts_the_second_behind_the_first() {
    assert_eq!(joined("ab", "cd"), "abcd");
}

#[test]
fn numbers_are_written_in_decimal() {
    for n in [0, 7, 9, 10, 42, 100, 1_000_000, 987_654_321, u64::MAX] {
        assert_eq!(decimal(n), n.to_string());
    }
}

#[test]
fn numbers_are_read_as_the_standard_library_reads_them() {
    let texts = [
        "0",
        "7",
        "1048576",
        "+12",
        "",
        "+",
        "-1",
        "-0",
        "++1",
        " 1",
        "1 ",
        "1_000",
        "0x10",
        "18446744073709551615",
        "18446744073709551616",
        "00000000000000000000000001",
        "99999999999999999999",
        "１",
    ];
    for text in texts {
        assert_eq!(parse_u64(text), text.parse::<u64>().ok(), "{text:?}");
    }
}
