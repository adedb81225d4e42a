//! The kinds of files, and the encoding of texts.

use asset_shelf::domain::AssetKind;
use asset_shelf::media::{
    all, by_extension, is_importable, is_paste_derivable, is_thumbnailable, kind_of,
    normalize_text_to_utf8, TextBytes,
};
use asset_shelf::paths::{extension, file_name, parent_directory};

#[test]
fn registry_covers_the_four_kinds_and_importable_core() {
    let kinds: std::collections::HashSet<AssetKind> = all().iter().map(|t| t.kind).collect();
    for kind in [AssetKind::Image, AssetKind::Video, AssetKind::Text] {
        assert!(kinds.contains(&kind), "{kind:?}");
    }
    assert!(all().iter().all(|t| t.importable));
}

#[test]
fn by_extension_is_lowercase_contract() {
    assert_eq!(by_extension("jpg").unwrap().kind, AssetKind::Image);
    assert_eq!(by_extension("mp4").unwrap().kind, AssetKind::Video);
    assert_eq!(by_extension("txt").unwrap().kind, AssetKind::Text);
    assert!(by_extension("JPG").is_none());
    assert!(by_extension("avif").is_none());
}

#[test]
fn kind_of_path_falls_back_to_other() {
    assert_eq!(kind_of("a/b/photo.jpg"), AssetKind::Image);
    assert_eq!(kind_of("clips/clip.mov"), AssetKind::Video);
    assert_eq!(kind_of("notes/readme.md"), AssetKind::Text);
    assert_eq!(kind_of("archive.zip"), AssetKind::Other);
    assert_eq!(kind_of("noext"), AssetKind::Other);
}

#[test]
fn capability_flags_match_import_thumbnail_paste_semantics() {
    assert!(is_thumbnailable("png"));
    assert!(is_thumbnailable("mp4"));
    assert!(!is_thumbnailable("txt"));
    assert!(is_paste_derivable("gif"));
    assert!(!is_paste_derivable("avi"));
    assert!(!is_paste_derivable("unknown"));
    assert!(is_importable("x/photo.webp"));
    assert!(!is_importable("x/pdf"));
}

#[test]
fn extension_of_a_path_is_read_whatever_its_case() {
    assert_eq!(kind_of("a/PHOTO.JPG"), AssetKind::Image);
    assert!(is_importable("x/clip.MP4"));
    assert_eq!(extension("a.b/c").as_deref(), None);
    assert_eq!(extension("a/.hidden").as_deref(), None);
    assert_eq!(extension("a/x.tar.gz").as_deref(), Some("gz"));
    assert_eq!(file_name("a/b/").as_deref(), Some("b"));
    assert_eq!(file_name("a/..").as_deref(), None);
    assert_eq!(parent_directory("a/b/c.png").as_deref(), Some("b"));
    assert_eq!(parent_directory("c.png").as_deref(), None);
}

#[test]
fn text_normalization_covers_utf8_gbk_bom_and_utf16() {
    let utf8 = "你好，world".as_bytes().to_vec();
    assert!(matches!(normalize_text_to_utf8(&utf8), TextBytes::Borrowed(_)));

    let gbk = [0xC4u8, 0xE3, 0xBA, 0xC3, b'a', b'b'];
    assert_eq!(normalize_text_to_utf8(&gbk).as_ref(), "你好ab".as_bytes());

    let mut bom_utf8 = vec![0xEFu8, 0xBB, 0xBF];
    bom_utf8.extend_from_slice("hi".as_bytes());
    assert_eq!(normalize_text_to_utf8(&bom_utf8).as_ref(), b"hi");

    let mut utf16 = vec![0xFFu8, 0xFE];
    for unit in "你好".encode_utf16() {
        utf16.extend_from_slice(&unit.to_le_bytes());
    }
    assert_eq!(normalize_text_to_utf8(&utf16).as_ref(), "你好".as_bytes());

    for input in [gbk.as_slice(), bom_utf8.as_slice(), utf16.as_slice()] {
        let out = normalize_text_to_utf8(input);
        assert!(std::str::from_utf8(out.as_ref()).is_ok());
    }
}

#[test]
fn normalizing_covers_the_rest() {
    let mut utf16 = vec![0xFEu8, 0xFF];
    for unit in "你好".encode_utf16() {
        utf16.extend_from_slice(&unit.to_be_bytes());
    }
    assert_eq!(normalize_text_to_utf8(&utf16).as_ref(), "你好".as_bytes());
    let mut marked_gbk = vec![0xEFu8, 0xBB, 0xBF];
    marked_gbk.extend_from_slice(&[0xC4, 0xE3]);
    assert_eq!(normalize_text_to_utf8(&marked_gbk).as_ref(), "你".as_bytes());
    assert_eq!(normalize_text_to_utf8(b"").as_ref(), b"");
    let once = normalize_text_to_utf8(&utf16).as_ref().to_vec();
    assert_eq!(normalize_text_to_utf8(&once).as_ref(), once.as_slice());
}

#[test]
fn normalized_texts_begin_with_no_mark() {
    let twice = [0xEFu8, 0xBB, 0xBF, 0xEF, 0xBB, 0xBF, b'a'];
    assert_eq!(normalize_text_to_utf8(&twice), TextBytes::Borrowed(b"a"));
    let thrice = "\u{feff}\u{feff}\u{feff}".as_bytes();
    assert_eq!(normalize_text_to_utf8(thrice).as_ref(), b"");
    let inner = "\u{feff}a\u{feff}b".as_bytes();
    assert_eq!(normalize_text_to_utf8(inner).as_ref(), "a\u{feff}b".as_bytes());
    let utf16 = [0xFFu8, 0xFE, 0xFF, 0xFE, b'a', 0];
    assert_eq!(normalize_text_to_utf8(&utf16).as_ref(), b"a");
    let cut_short = [0xEFu8, 0xBB, 0xBF, 0xEF, 0xBB, 0xBF, 0xFF];
    let once = normalize_text_to_utf8(&cut_short).as_ref().to_vec();
    assert!(std::str::from_utf8(&once).is_ok());
    assert!(!once.starts_with(&[0xEF, 0xBB, 0xBF]));
    assert_eq!(normalize_text_to_utf8(&once).as_ref(), once.as_slice());
}
