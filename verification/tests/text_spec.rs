//! Texts, numbers and paths, on which the rest is built.

use std::path::Path;

use asset_shelf::digits::{
    decimal_chars, parse_i32, parse_u32, parse_u64, parse_usize, push_number, push_padded,
    push_signed, push_text,
};
use asset_shelf::import::ContentSession;
use asset_shelf::intake::{kind_by_extension, EntryKind};
use asset_shelf::paths::{extension, extension_of_name, file_name, parent_directory};
use asset_shelf::text::{
    chars_of, contains_case_fold, ends_with, fold_lower, is_whitespace, same_text, starts_with,
    strip_prefix, to_ascii_lower, trim, trim_quotes,
};

#[test]
fn texts_are_trimmed_and_compared() {
    assert_eq!(trim(" \t\u{3000}a b\u{a0}\n"), "a b");
    assert_eq!(trim("   "), "");
    assert_eq!(trim_quotes("\"\"a\"b\""), "a\"b");
    for code in 0..0x3100u32 {
        if let Some(c) = char::from_u32(code) {
            assert_eq!(is_whitespace(c), c.is_whitespace(), "{code:x}");
        }
    }
    assert!(same_text("素材", "素材"));
    assert!(!same_text("素材", "素"));
    assert!(starts_with("--a", "--") && !starts_with("-", "--"));
    assert!(ends_with("a.log", ".log") && !ends_with("log", ".log"));
    assert_eq!(strip_prefix("PROBE\t3", "PROBE\t"), Some("3"));
    assert_eq!(strip_prefix("PROBE 3", "PROBE\t"), None);
    assert_eq!(chars_of("素a"), vec!['素', 'a']);
    assert_eq!(to_ascii_lower("AbÄ"), "abÄ");
}

#[test]
fn texts_are_found_whatever_the_case() {
    let mut ring = Vec::new();
    let needle = fold_lower(" PrOmO ");
    assert_eq!(needle, vec!['p', 'r', 'o', 'm', 'o']);
    assert!(contains_case_fold("a PROMO b", &needle, &mut ring));
    assert!(!contains_case_fold("PRMO", &needle, &mut ring));
    assert!(contains_case_fold("x", &[], &mut ring));
    assert!(contains_case_fold("İstanbul", &fold_lower("i\u{307}st"), &mut ring));
    assert!(contains_case_fold("aab", &fold_lower("ab"), &mut ring));
}

#[test]
fn numbers_are_written_and_read() {
    assert_eq!(decimal_chars(1024), vec!['1', '0', '2', '4']);
    let mut out = Vec::new();
    push_text(&mut out, "n=");
    push_number(&mut out, 0);
    push_padded(&mut out, 7, 3);
    push_padded(&mut out, 12345, 3);
    push_signed(&mut out, -42);
    push_signed(&mut out, i64::MIN);
    let text: String = out.into_iter().collect();
    assert_eq!(text, "n=000712345-42-9223372036854775808");
    assert_eq!(parse_u32("4294967295"), Some(u32::MAX));
    assert_eq!(parse_u32("4294967296"), None);
    assert_eq!(parse_u64("18446744073709551615"), Some(u64::MAX));
    assert_eq!(parse_u64("18446744073709551616"), None);
    assert_eq!(parse_usize("007"), Some(7));
    assert_eq!(parse_i32("-2147483648"), Some(i32::MIN));
    assert_eq!(parse_i32("2147483648"), None);
    for text in ["", "+", "-", "+1", " 1", "1a", "-0", "１"] {
        assert_eq!(parse_u32(text), text.parse::<u32>().ok(), "{text}");
        assert_eq!(parse_i32(text), text.parse::<i32>().ok(), "{text}");
    }
}

#[test]
fn paths_are_taken_apart() {
    for path in ["a/b.tar.gz", "a/.hidden", "a/b.", "a/..", "", "/", "a/./b", "x", "./a/", "a//b.c"] {
        let std_path = Path::new(path);
        let ext = std_path.extension().map(|ext| ext.to_string_lossy().into_owned());
        let name = std_path.file_name().map(|name| name.to_string_lossy().into_owned());
        assert_eq!(extension(path), ext, "{path}");
        assert_eq!(file_name(path), name, "{path}");
    }
    assert_eq!(parent_directory("a/b/c.png").as_deref(), Some("b"));
    assert_eq!(parent_directory("c.png"), None);
    assert_eq!(extension_of_name("a.PNG").as_deref(), Some("PNG"));
    assert_eq!(kind_by_extension(true, Some("emo")), EntryKind::Directory);
    assert_eq!(kind_by_extension(false, Some("EMO")), EntryKind::EmoPackage);
    assert_eq!(kind_by_extension(false, None), EntryKind::LooseFile);
}

#[test]
fn digests_of_a_session_are_remembered() {
    let mut session = ContentSession::new();
    let digest = |last: u8| {
        let mut bytes = vec![9u8; 31];
        bytes.push(last);
        bytes
    };
    assert_eq!(session.lookup(&digest(1)), None);
    session.register(&digest(1), "a");
    session.register(&digest(2), "b");
    session.register(&digest(1), "c");
    assert_eq!(session.lookup(&digest(1)).as_deref(), Some("c"));
    assert_eq!(session.lookup(&digest(2)).as_deref(), Some("b"));
    assert_eq!(session.lookup(&digest(3)), None);
    assert_eq!(session.lookup(&vec![]), None);
}

#[test]
fn needles_are_found_in_the_texts_they_are_made_of() {
    let mut ring = Vec::new();
    for text in ["  PNG ", "İ", "", " \u{3000}Straße\t", "a b"] {
        assert_eq!(fold_lower(text), fold_lower(text.trim()));
        assert!(contains_case_fold(text, &fold_lower(text), &mut ring), "{text}");
    }
    assert_eq!(fold_lower("  PNG "), vec!['p', 'n', 'g']);
}
