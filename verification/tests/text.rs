//! Texts, character by character.
use alas_launcher::platform::{join_path, OsPath, Platform};
use alas_launcher::text::{
    any_contains, any_starts_with, chars_of, contains, copy_texts, decimal, ends_with, find,
    find_in, is_among, join, lines, not_after, pair_among, parse_up_to, replace, replace_first,
    replace_last, same, slice, split, stands_at, starts_with, string_of, strip_suffix, trim,
    trim_end, white, words,
};

const SAMPLES: [&str; 8] =
    ["", "a", "aXbXc", "XX", "  舰 娘\t", "a\r\nb\n\nc\r", "\u{a0}x\u{3000}", "a\nb\n"];

fn owned(items: &[&str]) -> Vec<String> {
    items.iter().map(|t| t.to_string()).collect()
}

#[test]
fn searching_agrees_with_the_standard_library() {
    for s in SAMPLES {
        for pat in ["X", "a", "b", "娘", "\n", "XX", "zz"] {
            let at = s.find(pat).map(|i| s[..i].chars().count());
            assert_eq!(find(s, pat), at, "{s:?} {pat:?}");
            assert_eq!(contains(s, pat), s.contains(pat));
            assert_eq!(starts_with(s, pat), s.starts_with(pat));
            assert_eq!(ends_with(s, pat), s.ends_with(pat));
            assert_eq!(replace(s, pat, "--"), s.replace(pat, "--"));
            assert_eq!(replace_first(s, pat, "--"), s.replacen(pat, "--", 1));
            assert_eq!(strip_suffix(s, pat).as_deref(), s.strip_suffix(pat));
        }
    }
    assert_eq!(replace_last("aXbXc", "X", "-"), "aXb-c");
    assert_eq!(replace_last("abc", "X", "-"), "abc");
}

#[test]
fn cutting_agrees_with_the_standard_library() {
    for s in SAMPLES {
        assert_eq!(trim(s), s.trim());
        assert_eq!(trim_end(s), s.trim_end());
        assert_eq!(lines(s), s.lines().collect::<Vec<_>>(), "{s:?}");
        assert_eq!(words(s), s.split_whitespace().collect::<Vec<_>>());
        assert_eq!(split(s, 'X'), s.split('X').collect::<Vec<_>>());
        assert_eq!(chars_of(s), s.chars().collect::<Vec<_>>());
    }
    for c in (0..=0x10ffffu32).filter_map(char::from_u32) {
        if white(c) != c.is_whitespace() {
            panic!("{c:?}");
        }
    }
}

#[test]
fn numbers_agree_with_the_standard_library() {
    for n in [0u64, 7, 10, 99, 65_535, 65_536, u64::MAX] {
        assert_eq!(decimal(n), n.to_string());
    }
    for t in ["0", "7", "+7", "007", "", "-1", "65535", "65536", "4294967296", "1x", " 1", "+"] {
        assert_eq!(parse_up_to(t, 65_535), t.parse::<u16>().ok().map(u32::from), "{t:?}");
        assert_eq!(parse_up_to(t, u32::MAX), t.parse::<u32>().ok(), "{t:?}");
    }
}

#[test]
fn order_agrees_with_the_standard_library() {
    for a in SAMPLES {
        for b in SAMPLES {
            assert_eq!(not_after(a, b), a <= b, "{a:?} {b:?}");
            assert_eq!(same(a, b), a == b);
        }
    }
    assert!(not_after("\u{ffff}", "\u{10000}"));
}

#[test]
fn lists_of_texts_are_searched() {
    let v = owned(&["gui.py", "--port", "22267"]);
    assert!(is_among(&v, "--port"));
    assert!(!is_among(&v, "port"));
    assert!(any_contains(&v, "port"));
    assert!(any_starts_with(&v, "gui"));
    assert!(!any_starts_with(&v, "ui"));
    assert!(pair_among(&v, "--port", "22267"));
    assert!(!pair_among(&v, "gui.py", "22267"));
    assert_eq!(join(&v, " "), "gui.py --port 22267");
    assert_eq!(join(&vec![], " "), "");
    assert_eq!(copy_texts(&v), v);
}

#[test]
fn parts_are_taken_by_position() {
    assert_eq!(slice("舰娘abc", 1, 3), "娘a");
    let chars = chars_of("abcabc");
    assert_eq!(string_of(&chars, 1, 4), "bca");
    assert!(stands_at(&chars, &['c', 'a'], 2));
    assert!(!stands_at(&chars, &['c', 'a'], 4));
    assert_eq!(find_in(&chars, &['c']), Some(2));
}

#[test]
fn paths_are_compared_by_their_parts() {
    let toolkit = OsPath::from_slashes("/repo/toolkit/bin/python");
    let repo = OsPath::from_slashes("/repo");
    assert!(toolkit.is_under(&repo, "toolkit"));
    assert!(!OsPath::from_slashes("/repo/toolkits/x").is_under(&repo, "toolkit"));
    assert!(OsPath::from_slashes("/repo/").same_place(&repo));
    assert!(OsPath::from_slashes("/repo/./").same_place(&repo));
    assert!(!OsPath::from_slashes("repo").same_place(&repo));
    assert_eq!(join_path("/repo", "x", Platform::Linux), "/repo/x");
    assert_eq!(join_path("C:\\repo", "x", Platform::Windows), "C:\\repo\\x");
}
