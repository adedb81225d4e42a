//! The media types that the library knows, and the encoding of its texts.

use vstd::prelude::*;
use vstd::utf8::{encode_utf8, valid_utf8};

use crate::domain::AssetKind;
use crate::paths::extension;
#[allow(unused_imports)]
use crate::paths::{
    file_names_come_last, last_dot_is_before_the_extension, path_extension, separator, text_of, told,
};
#[allow(unused_imports)]
use crate::text::ascii_folded;
use crate::text::{same_text, to_ascii_lower};

verus! {

/// What can be done with files of one extension.
#[derive(Debug, Clone, Copy, PartialEq, Eq)]
pub struct MediaType {
    /// The extension, in lower case and without a dot.
    pub key: &'static str,
    pub kind: AssetKind,
    /// Files of this type can be imported.
    pub importable: bool,
    /// A thumbnail can be derived.
    pub thumbnailable: bool,
    /// An image for the clipboard is derived.
    pub paste_derivable: bool,
}

pub open spec fn image_key(ext: Seq<char>) -> bool {
    ext == "png"@ || ext == "jpg"@ || ext == "jpeg"@ || ext == "gif"@ || ext == "webp"@ || ext
        == "bmp"@
}

pub open spec fn video_key(ext: Seq<char>) -> bool {
    ext == "mp4"@ || ext == "mov"@ || ext == "mkv"@ || ext == "avi"@ || ext == "webm"@
}

pub open spec fn text_key(ext: Seq<char>) -> bool {
    ext == "txt"@ || ext == "md"@
}

/// The kind that an extension stands for.
pub open spec fn kind_for(ext: Seq<char>) -> Option<AssetKind> {
    if image_key(ext) {
        Some(AssetKind::Image)
    } else if video_key(ext) {
        Some(AssetKind::Video)
    } else if text_key(ext) {
        Some(AssetKind::Text)
    } else {
        None
    }
}

impl MediaType {
    /// Everything registered can be imported; images and videos have thumbnails; images
    /// alone have a derived image for the clipboard.
    pub open spec fn capable(self) -> bool {
        &&& self.importable
        &&& self.thumbnailable == (self.kind == AssetKind::Image || self.kind == AssetKind::Video)
        &&& self.paste_derivable == (self.kind == AssetKind::Image)
    }
}

/// The registered extensions with their kinds, in the order of the registry.
pub open spec fn registry() -> Seq<(Seq<char>, AssetKind)> {
    seq![
        ("png"@, AssetKind::Image),
        ("jpg"@, AssetKind::Image),
        ("jpeg"@, AssetKind::Image),
        ("gif"@, AssetKind::Image),
        ("webp"@, AssetKind::Image),
        ("bmp"@, AssetKind::Image),
        ("mp4"@, AssetKind::Video),
        ("mov"@, AssetKind::Video),
        ("mkv"@, AssetKind::Video),
        ("avi"@, AssetKind::Video),
        ("webm"@, AssetKind::Video),
        ("txt"@, AssetKind::Text),
        ("md"@, AssetKind::Text),
    ]
}

/// The kind of a file under one reading of its path.
pub open spec fn path_kind(path: Seq<char>, windows: bool) -> Option<AssetKind> {
    match path_extension(path, windows) {
        Some(ext) => kind_for(ascii_folded(ext)),
        None => None,
    }
}

/// The kinds of the registry are those of [`kind_for`].
proof fn registry_decides(ext: Seq<char>, kind: AssetKind)
    ensures
        kind_for(ext) == Some(kind) ==> registry().contains((ext, kind)),
{
    let r = registry();
    assert(r[0] == ("png"@, AssetKind::Image));
    assert(r[1] == ("jpg"@, AssetKind::Image));
    assert(r[2] == ("jpeg"@, AssetKind::Image));
    assert(r[3] == ("gif"@, AssetKind::Image));
    assert(r[4] == ("webp"@, AssetKind::Image));
    assert(r[5] == ("bmp"@, AssetKind::Image));
    assert(r[6] == ("mp4"@, AssetKind::Video));
    assert(r[7] == ("mov"@, AssetKind::Video));
    assert(r[8] == ("mkv"@, AssetKind::Video));
    assert(r[9] == ("avi"@, AssetKind::Video));
    assert(r[10] == ("webm"@, AssetKind::Video));
    assert(r[11] == ("txt"@, AssetKind::Text));
    assert(r[12] == ("md"@, AssetKind::Text));
}

/// No extension stands for two kinds.
proof fn keys_are_distinct()
    ensures
        forall|ext: Seq<char>| !(image_key(ext) && video_key(ext)),
        forall|ext: Seq<char>| !(image_key(ext) && text_key(ext)),
        forall|ext: Seq<char>| !(video_key(ext) && text_key(ext)),
{
    reveal_strlit("png");
    reveal_strlit("jpg");
    reveal_strlit("jpeg");
    reveal_strlit("gif");
    reveal_strlit("webp");
    reveal_strlit("bmp");
    reveal_strlit("mp4");
    reveal_strlit("mov");
    reveal_strlit("mkv");
    reveal_strlit("avi");
    reveal_strlit("webm");
    reveal_strlit("txt");
    reveal_strlit("md");
    assert("png"@[0] == 'p' && "jpg"@[0] == 'j' && "jpeg"@[0] == 'j' && "gif"@[0] == 'g'
        && "webp"@[3] == 'p' && "bmp"@[0] == 'b' && "mp4"@[0] == 'm' && "mov"@[0] == 'm'
        && "mkv"@[0] == 'm' && "avi"@[0] == 'a' && "webm"@[3] == 'm' && "txt"@[0] == 't'
        && "md"@.len() == 2);
}

fn image(key: &'static str) -> (r: MediaType)
    ensures
        r.key@ == key@,
        r.kind == AssetKind::Image,
        r.capable(),
{
    MediaType {
        key,
        kind: AssetKind::Image,
        importable: true,
        thumbnailable: true,
        paste_derivable: true,
    }
}

fn video(key: &'static str) -> (r: MediaType)
    ensures
        r.key@ == key@,
        r.kind == AssetKind::Video,
        r.capable(),
{
    MediaType {
        key,
        kind: AssetKind::Video,
        importable: true,
        thumbnailable: true,
        paste_derivable: false,
    }
}

fn plain_text(key: &'static str) -> (r: MediaType)
    ensures
        r.key@ == key@,
        r.kind == AssetKind::Text,
        r.capable(),
{
    MediaType {
        key,
        kind: AssetKind::Text,
        importable: true,
        thumbnailable: false,
        paste_derivable: false,
    }
}

/// The registry.
pub fn all() -> (r: Vec<MediaType>)
    ensures
        r@.len() == registry().len(),
        forall|i: int|
            0 <= i < registry().len() ==> {
                &&& (#[trigger] r@[i]).key@ == registry()[i].0
                &&& r@[i].kind == registry()[i].1
                &&& r@[i].capable()
            },
        r@.len() == 13,
        r@[0].key@ == "png"@ && r@[0].kind == AssetKind::Image,
        r@[1].key@ == "jpg"@ && r@[1].kind == AssetKind::Image,
        r@[2].key@ == "jpeg"@ && r@[2].kind == AssetKind::Image,
        r@[3].key@ == "gif"@ && r@[3].kind == AssetKind::Image,
        r@[4].key@ == "webp"@ && r@[4].kind == AssetKind::Image,
        r@[5].key@ == "bmp"@ && r@[5].kind == AssetKind::Image,
        r@[6].key@ == "mp4"@ && r@[6].kind == AssetKind::Video,
        r@[7].key@ == "mov"@ && r@[7].kind == AssetKind::Video,
        r@[8].key@ == "mkv"@ && r@[8].kind == AssetKind::Video,
        r@[9].key@ == "avi"@ && r@[9].kind == AssetKind::Video,
        r@[10].key@ == "webm"@ && r@[10].kind == AssetKind::Video,
        r@[11].key@ == "txt"@ && r@[11].kind == AssetKind::Text,
        r@[12].key@ == "md"@ && r@[12].kind == AssetKind::Text,
        forall|i: int|
            0 <= i < 13 ==> (#[trigger] r@[i]).importable && r@[i].thumbnailable == (r@[i].kind
                != AssetKind::Text) && r@[i].paste_derivable == (r@[i].kind == AssetKind::Image),
{
    let r: Vec<MediaType> = vec![
        image("png"),
        image("jpg"),
        image("jpeg"),
        image("gif"),
        image("webp"),
        image("bmp"),
        video("mp4"),
        video("mov"),
        video("mkv"),
        video("avi"),
        video("webm"),
        plain_text("txt"),
        plain_text("md"),
    ];
    r
}

/// The media type of an extension, given in lower case and without a dot.
pub fn by_extension(ext: &str) -> (r: Option<MediaType>)
    ensures
        match r {
            Some(media) => {
                &&& media.key@ == ext@
                &&& kind_for(ext@) == Some(media.kind)
                &&& media.capable()
            },
            None => kind_for(ext@) is None,
        },
        (r matches Some(media) && media.kind == AssetKind::Image) <==> (ext@ == "png"@
            || ext@ == "jpg"@ || ext@ == "jpeg"@ || ext@ == "gif"@ || ext@ == "webp"@
            || ext@ == "bmp"@),
        (r matches Some(media) && media.kind == AssetKind::Video) <==> (ext@ == "mp4"@
            || ext@ == "mov"@ || ext@ == "mkv"@ || ext@ == "avi"@ || ext@ == "webm"@),
        (r matches Some(media) && media.kind == AssetKind::Text) <==> (ext@ == "txt"@
            || ext@ == "md"@),
        r matches Some(media) ==> media.kind != AssetKind::Other && media.importable
            && media.thumbnailable == (media.kind != AssetKind::Text) && media.paste_derivable == (
        media.kind == AssetKind::Image),
{
    proof {
        extensions_and_their_kinds(ext@);
    }
    let types = all();
    let mut i: usize = 0;
    while i < types.len()
        invariant
            i <= types@.len(),
            types@.len() == registry().len(),
            forall|k: int|
                0 <= k < registry().len() ==> {
                    &&& (#[trigger] types@[k]).key@ == registry()[k].0
                    &&& types@[k].kind == registry()[k].1
                    &&& types@[k].capable()
                },
            forall|k: int| 0 <= k < i ==> (#[trigger] registry()[k]).0 != ext@,
        decreases types@.len() - i,
    {
        let media = types[i];
        if same_text(media.key, ext) {
            proof {
                keys_are_distinct();
                assert(registry()[i as int] == (ext@, media.kind));
                assert(kind_for(ext@) == Some(media.kind));
            }
            return Some(media);
        }
        i = i + 1;
    }
    proof {
        if let Some(kind) = kind_for(ext@) {
            registry_decides(ext@, kind);
            let k = choose|k: int| 0 <= k < registry().len() && registry()[k] == (ext@, kind);
            assert(registry()[k].0 == ext@);
        }
    }
    None
}

/// The extension of a path in lower case.
fn ext_of(path: &str) -> (r: Option<String>)
    ensures
        told(path@) ==> exists|windows: bool|
            text_of(r) == match #[trigger] path_extension(path@, windows) {
                Some(ext) => Some(ascii_folded(ext)),
                None => None,
            },
{
    let ext = extension(path);
    let r = match &ext {
        Some(ext) => Some(to_ascii_lower(ext.as_str())),
        None => None,
    };
    proof {
        if told(path@) {
            let windows = choose|windows: bool| #[trigger]
                path_extension(path@, windows) == text_of(ext);
            assert(text_of(r) == match path_extension(path@, windows) {
                Some(ext) => Some(ascii_folded(ext)),
                None => None,
            });
        }
    }
    r
}

/// The media type of a file, by its extension in any case.
fn media_of(path: &str) -> (r: Option<MediaType>)
    ensures
        r matches Some(media) ==> media.capable(),
        told(path@) ==> exists|windows: bool|
            #[trigger] path_kind(path@, windows) == match r {
                Some(media) => Some(media.kind),
                None => None,
            },
{
    let ext = ext_of(path);
    let r = match &ext {
        Some(ext) => by_extension(ext.as_str()),
        None => None,
    };
    proof {
        if told(path@) {
            let windows = choose|windows: bool|
                text_of(ext) == match #[trigger] path_extension(path@, windows) {
                    Some(ext) => Some(ascii_folded(ext)),
                    None => None,
                };
            assert(path_kind(path@, windows) == match r {
                Some(media) => Some(media.kind),
                None => None,
            });
        }
    }
    r
}

/// The kind of a file; `Other` where the extension is not registered.
pub fn kind_of(path: &str) -> (r: AssetKind)
    ensures
        told(path@) ==> exists|windows: bool|
            r == match #[trigger] path_kind(path@, windows) {
                Some(kind) => kind,
                None => AssetKind::Other,
            },
{
    match media_of(path) {
        Some(media) => media.kind,
        None => AssetKind::Other,
    }
}

/// Whether a file can be imported.
pub fn is_importable(path: &str) -> (r: bool)
    ensures
        told(path@) ==> exists|windows: bool| r == (#[trigger] path_kind(path@, windows) is Some),
{
    match media_of(path) {
        Some(media) => media.importable,
        None => false,
    }
}

/// Whether files of the extension have thumbnails.
pub fn is_thumbnailable(ext: &str) -> (r: bool)
    ensures
        r == (image_key(ext@) || video_key(ext@)),
        r == (ext@ == "png"@ || ext@ == "jpg"@ || ext@ == "jpeg"@ || ext@ == "gif"@
            || ext@ == "webp"@ || ext@ == "bmp"@ || ext@ == "mp4"@ || ext@ == "mov"@
            || ext@ == "mkv"@ || ext@ == "avi"@ || ext@ == "webm"@),
{
    proof {
        keys_are_distinct();
    }
    match by_extension(ext) {
        Some(media) => media.thumbnailable,
        None => false,
    }
}

/// Whether files of the extension have a derived image for the clipboard.
pub fn is_paste_derivable(ext: &str) -> (r: bool)
    ensures
        r == image_key(ext@),
        r == (ext@ == "png"@ || ext@ == "jpg"@ || ext@ == "jpeg"@ || ext@ == "gif"@
            || ext@ == "webp"@ || ext@ == "bmp"@),
{
    match by_extension(ext) {
        Some(media) => media.paste_derivable,
        None => false,
    }
}

/// The encodings that a text may come in.
#[derive(Debug, Clone, Copy, PartialEq, Eq, Structural)]
pub enum TextEncoding {
    Utf8,
    Utf16Le,
    Utf16Be,
    Gbk,
}

/// The text that `encoding_rs` reads from bytes in an encoding: what
/// `Encoding::decode` gives for them.
pub uninterp spec fn decoded(encoding: TextEncoding, bytes: Seq<u8>) -> Seq<char>;

pub open spec fn starts_with(bytes: Seq<u8>, mark: Seq<u8>) -> bool {
    bytes.len() >= mark.len() && bytes.take(mark.len() as int) == mark
}

/// The encoding that a byte order mark at the start of `bytes` announces, with the
/// length of the mark.
pub open spec fn announced(bytes: Seq<u8>) -> Option<(TextEncoding, usize)> {
    if starts_with(bytes, seq![0xEFu8, 0xBBu8, 0xBFu8]) {
        Some((TextEncoding::Utf8, 3usize))
    } else if starts_with(bytes, seq![0xFFu8, 0xFEu8]) {
        Some((TextEncoding::Utf16Le, 2usize))
    } else if starts_with(bytes, seq![0xFEu8, 0xFFu8]) {
        Some((TextEncoding::Utf16Be, 2usize))
    } else {
        None
    }
}

/// The UTF-8 byte order mark.
pub open spec fn utf8_mark() -> Seq<u8> {
    seq![0xEFu8, 0xBBu8, 0xBFu8]
}

/// What follows all the UTF-8 byte order marks at the start of `bytes`.
pub open spec fn without_marks(bytes: Seq<u8>) -> Seq<u8>
    decreases bytes.len(),
{
    if starts_with(bytes, utf8_mark()) {
        without_marks(bytes.skip(3))
    } else {
        bytes
    }
}

/// A text that came as `bytes`, read in the encoding it is in.
///
/// After a UTF-8 mark: the rest, read as GBK where it is not UTF-8. After a UTF-16 mark:
/// what that encoding reads. Without a mark: the bytes themselves where they are UTF-8,
/// else what GBK reads.
pub open spec fn converted(bytes: Seq<u8>) -> Seq<u8> {
    match announced(bytes) {
        Some((TextEncoding::Utf8, mark)) => {
            let rest = bytes.skip(mark as int);
            if valid_utf8(rest) {
                rest
            } else {
                encode_utf8(decoded(TextEncoding::Gbk, rest))
            }
        },
        Some((encoding, _)) => encode_utf8(decoded(encoding, bytes)),
        None => if valid_utf8(bytes) {
            bytes
        } else {
            encode_utf8(decoded(TextEncoding::Gbk, bytes))
        },
    }
}

/// The UTF-8 form of a text that came as `bytes`, without a byte order mark.
pub open spec fn normalized(bytes: Seq<u8>) -> Seq<u8> {
    without_marks(converted(bytes))
}

/// `std::str::from_utf8`: whether the bytes are UTF-8.
#[verifier::external_body]
fn is_utf8(bytes: &[u8]) -> (r: bool)
    ensures
        r == valid_utf8(bytes@),
{
    std::str::from_utf8(bytes).is_ok()
}

/// `encoding_rs::Encoding::for_bom`: the encoding that a byte order mark announces.
///
/// Claims the three marks that its documentation lists, with their lengths.
#[verifier::external_body]
fn for_bom(bytes: &[u8]) -> (r: Option<(TextEncoding, usize)>)
    ensures
        r == announced(bytes@),
{
    match encoding_rs::Encoding::for_bom(bytes) {
        Some((encoding, mark)) if encoding == encoding_rs::UTF_8 => Some((TextEncoding::Utf8, mark)),
        Some((encoding, mark)) if encoding == encoding_rs::UTF_16LE => {
            Some((TextEncoding::Utf16Le, mark))
        },
        Some((_, mark)) => Some((TextEncoding::Utf16Be, mark)),
        None => None,
    }
}

/// `encoding_rs::Encoding::decode`: the text that an encoding reads from bytes.
///
/// Claims only that the text is a function of the encoding and the bytes. The bound
/// keeps the size of its buffer, a small multiple of the input, within `usize`: beyond
/// that it panics.
#[verifier::external_body]
fn decode(encoding: TextEncoding, bytes: &[u8]) -> (r: String)
    requires
        bytes@.len() <= usize::MAX / 16,
    ensures
        r@ == decoded(encoding, bytes@),
{
    let encoding = match encoding {
        TextEncoding::Utf8 => encoding_rs::UTF_8,
        TextEncoding::Utf16Le => encoding_rs::UTF_16LE,
        TextEncoding::Utf16Be => encoding_rs::UTF_16BE,
        TextEncoding::Gbk => encoding_rs::GBK,
    };
    encoding.decode(bytes).0.into_owned()
}

/// Bytes that are either part of the input or new.
#[derive(Debug, Clone, PartialEq, Eq)]
pub enum TextBytes<'a> {
    Borrowed(&'a [u8]),
    Owned(Vec<u8>),
}

impl<'a> TextBytes<'a> {
    pub open spec fn view(&self) -> Seq<u8> {
        match self {
            TextBytes::Borrowed(bytes) => bytes@,
            TextBytes::Owned(bytes) => bytes@,
        }
    }

    /// The bytes.
    pub fn as_ref(&self) -> (r: &[u8])
        ensures
            r@ == self.view(),
    {
        match self {
            TextBytes::Borrowed(bytes) => bytes,
            TextBytes::Owned(bytes) => bytes.as_slice(),
        }
    }
}

/// Whether a UTF-8 byte order mark stands at `at`.
fn mark_at(bytes: &[u8], at: usize) -> (r: bool)
    requires
        at <= bytes@.len(),
    ensures
        r == starts_with(bytes@.skip(at as int), utf8_mark()),
{
    let ghost rest = bytes@.skip(at as int);
    if bytes.len() - at < 3 {
        return false;
    }
    let r = bytes[at] == 0xEF && bytes[at + 1] == 0xBB && bytes[at + 2] == 0xBF;
    proof {
        let first = rest.take(3);
        assert(first[0] == bytes@[at as int]);
        assert(first[1] == bytes@[at + 1]);
        assert(first[2] == bytes@[at + 2]);
        if r {
            assert(first =~= utf8_mark());
        }
    }
    r
}

/// How many bytes the UTF-8 byte order marks at the start take.
fn marks_length(bytes: &[u8]) -> (r: usize)
    ensures
        r <= bytes@.len(),
        bytes@.skip(r as int) == without_marks(bytes@),
{
    let mut n: usize = 0;
    assert(bytes@.skip(0) =~= bytes@);
    while mark_at(bytes, n)
        invariant
            n <= bytes@.len(),
            without_marks(bytes@.skip(n as int)) == without_marks(bytes@),
        decreases bytes@.len() - n,
    {
        assert(bytes@.skip(n as int).skip(3) =~= bytes@.skip(n + 3));
        assert(n + 3 <= bytes.len());
        n = n + 3;
    }
    n
}

fn part_without_marks<'a>(bytes: &'a [u8]) -> (r: TextBytes<'a>)
    ensures
        r is Borrowed,
        r@ == without_marks(bytes@),
{
    let (_, rest) = bytes.split_at(marks_length(bytes));
    assert(rest@ =~= without_marks(bytes@));
    TextBytes::Borrowed(rest)
}

fn text_without_marks<'a>(text: &str) -> (r: TextBytes<'a>)
    ensures
        r is Owned,
        r@ == without_marks(encode_utf8(text@)),
{
    let mut bytes = text.as_bytes_vec();
    let marks: usize = marks_length(bytes.as_slice());
    let rest = bytes.split_off(marks);
    assert(rest@ =~= without_marks(encode_utf8(text@)));
    TextBytes::Owned(rest)
}

/// The UTF-8 form of a text; nothing is copied where the input holds it already.
pub fn normalize_text_to_utf8<'a>(bytes: &'a [u8]) -> (r: TextBytes<'a>)
    requires
        bytes@.len() <= usize::MAX / 16,
    ensures
        r@ == normalized(bytes@),
        r is Borrowed <==> (match announced(bytes@) {
            Some((TextEncoding::Utf8, mark)) => valid_utf8(bytes@.skip(mark as int)),
            Some(_) => false,
            None => valid_utf8(bytes@),
        }),
{
    match for_bom(bytes) {
        Some((TextEncoding::Utf8, mark)) => {
            let (_, rest) = bytes.split_at(mark);
            assert(rest@ =~= bytes@.skip(mark as int));
            if is_utf8(rest) {
                part_without_marks(rest)
            } else {
                text_without_marks(decode(TextEncoding::Gbk, rest).as_str())
            }
        },
        Some((encoding, _)) => text_without_marks(decode(encoding, bytes).as_str()),
        None => if is_utf8(bytes) {
            part_without_marks(bytes)
        } else {
            text_without_marks(decode(TextEncoding::Gbk, bytes).as_str())
        },
    }
}

/// Cutting marks off leaves none, and leaves UTF-8 as UTF-8.
proof fn without_marks_has_none(bytes: Seq<u8>)
    ensures
        !starts_with(without_marks(bytes), utf8_mark()),
        valid_utf8(bytes) ==> valid_utf8(without_marks(bytes)),
    decreases bytes.len(),
{
    if starts_with(bytes, utf8_mark()) {
        let first = bytes.take(3);
        assert(first[0] == bytes[0]);
        assert(bytes[0] == 0xEF);
        assert(!(0xEFu8 & 0x80 == 0) && !(0xEFu8 & 0xE0 == 0xC0) && 0xEFu8 & 0xF0 == 0xE0)
            by (bit_vector);
        if valid_utf8(bytes) {
            assert(vstd::utf8::pop_first_scalar(bytes) =~= bytes.skip(3));
        }
        without_marks_has_none(bytes.skip(3));
    }
}

/// Whatever comes in, a normalized text is UTF-8.
pub proof fn normalized_text_is_utf8(bytes: Seq<u8>)
    ensures
        valid_utf8(normalized(bytes)),
{
    broadcast use vstd::utf8::encode_utf8_valid_utf8;

    without_marks_has_none(converted(bytes));
}

/// Whatever comes in, a normalized text does not begin with a byte order mark, of UTF-8 or
/// of another encoding.
pub proof fn normalized_text_has_no_mark(bytes: Seq<u8>)
    ensures
        !starts_with(normalized(bytes), utf8_mark()),
        announced(normalized(bytes)) is None,
{
    normalized_text_is_utf8(bytes);
    without_marks_has_none(converted(bytes));
    let text = normalized(bytes);
    if text.len() >= 2 {
        assert(text.take(2)[0] == text[0]);
        assert(seq![0xFFu8, 0xFEu8][0] == 0xFF);
        assert(seq![0xFEu8, 0xFFu8][0] == 0xFE);
        assert(text[0] != 0xFF && text[0] != 0xFE) by {
            first_byte_of_utf8(text);
        }
    }
}

/// Normalizing again changes nothing.
pub proof fn normalizing_twice_is_normalizing(bytes: Seq<u8>)
    ensures
        normalized(normalized(bytes)) == normalized(bytes),
{
    normalized_text_is_utf8(bytes);
    normalized_text_has_no_mark(bytes);
}

proof fn first_byte_of_utf8(text: Seq<u8>)
    requires
        valid_utf8(text),
        text.len() > 0,
    ensures
        text[0] != 0xFF,
        text[0] != 0xFE,
{
    assert(vstd::utf8::valid_first_scalar(text));
    let b = text[0];
    assert(b == 0xFF || b == 0xFE ==> !(b & 0x80 == 0) && !(b & 0xE0 == 0xC0) && !(b & 0xF0 == 0xE0)
        && !(b & 0xF8 == 0xF0)) by (bit_vector);
}

/// A text that is UTF-8 and has no byte order mark is stored as it is.
pub proof fn utf8_without_mark_is_kept(bytes: Seq<u8>)
    requires
        valid_utf8(bytes),
        announced(bytes) is None,
    ensures
        normalized(bytes) == bytes,
{
}

/// The thirteen extensions that are known: pictures are PNG, JPEG, GIF, WebP and BMP, videos
/// MP4, QuickTime, Matroska, AVI and WebM, texts plain text and Markdown. No other extension
/// has a kind.
pub proof fn extensions_and_their_kinds(ext: Seq<char>)
    ensures
        kind_for(ext) == Some(AssetKind::Image) <==> (ext == "png"@ || ext == "jpg"@
            || ext == "jpeg"@ || ext == "gif"@ || ext == "webp"@ || ext == "bmp"@),
        kind_for(ext) == Some(AssetKind::Video) <==> (ext == "mp4"@ || ext == "mov"@
            || ext == "mkv"@ || ext == "avi"@ || ext == "webm"@),
        kind_for(ext) == Some(AssetKind::Text) <==> (ext == "txt"@ || ext == "md"@),
        kind_for(ext) != Some(AssetKind::Other),
{
    keys_are_distinct();
}

/// A file is known by what follows the last dot of its name, in any case: so the kind of
/// `dir/stem.ext` is that of `ext` in lower case.
pub proof fn files_are_known_by_their_extension(
    dir: Seq<char>,
    stem: Seq<char>,
    ext: Seq<char>,
    windows: bool,
)
    requires
        stem.len() > 0,
        forall|i: int|
            0 <= i < stem.len() ==> #[trigger] stem[i] != '/' && !(windows && stem[i] == '\\'),
        forall|i: int|
            0 <= i < ext.len() ==> #[trigger] ext[i] != '/' && ext[i] != '.' && !(windows && ext[i]
                == '\\'),
        stem + seq!['.'] + ext != seq!['.', '.'],
    ensures
        path_extension(dir + seq!['/'] + (stem + seq!['.'] + ext), windows) == Some(ext),
        path_kind(dir + seq!['/'] + (stem + seq!['.'] + ext), windows) == kind_for(
            ascii_folded(ext),
        ),
{
    let name = stem + seq!['.'] + ext;
    assert forall|i: int| 0 <= i < name.len() implies !separator(#[trigger] name[i], windows) by {
        if i < stem.len() {
            assert(name[i] == stem[i]);
        } else if i > stem.len() {
            assert(name[i] == ext[i - stem.len() - 1]);
        }
    }
    file_names_come_last(dir, '/', name, windows);
    last_dot_is_before_the_extension(stem, ext);
    assert(name.skip(stem.len() as int + 1) =~= ext);
}

/// A text that is UTF-8 is taken as it is, and without the mark it may begin with; one that
/// begins with a mark of UTF-16 is read in that encoding; any other is read as GBK.
pub proof fn texts_are_read_in_their_encoding(bytes: Seq<u8>)
    ensures
        valid_utf8(bytes) && !starts_with(bytes, seq![0xEFu8, 0xBBu8, 0xBFu8]) ==> normalized(bytes)
            == bytes,
        valid_utf8(bytes) && !starts_with(bytes, seq![0xEFu8, 0xBBu8, 0xBFu8]) ==> normalized(
            seq![0xEFu8, 0xBBu8, 0xBFu8] + bytes,
        ) == bytes,
        converted(seq![0xFFu8, 0xFEu8] + bytes) == encode_utf8(
            decoded(TextEncoding::Utf16Le, seq![0xFFu8, 0xFEu8] + bytes),
        ),
        converted(seq![0xFEu8, 0xFFu8] + bytes) == encode_utf8(
            decoded(TextEncoding::Utf16Be, seq![0xFEu8, 0xFFu8] + bytes),
        ),
        !valid_utf8(bytes) && !starts_with(bytes, seq![0xEFu8, 0xBBu8, 0xBFu8]) && !starts_with(
            bytes,
            seq![0xFFu8, 0xFEu8],
        ) && !starts_with(bytes, seq![0xFEu8, 0xFFu8]) ==> converted(bytes) == encode_utf8(
            decoded(TextEncoding::Gbk, bytes),
        ),
        !valid_utf8(bytes) ==> converted(seq![0xEFu8, 0xBBu8, 0xBFu8] + bytes) == encode_utf8(
            decoded(TextEncoding::Gbk, bytes),
        ),
{
    let mark = seq![0xEFu8, 0xBBu8, 0xBFu8];
    let little = seq![0xFFu8, 0xFEu8];
    let big = seq![0xFEu8, 0xFFu8];
    assert((mark + bytes).take(3) =~= mark);
    assert((mark + bytes).skip(3) =~= bytes);
    assert((little + bytes).take(2) =~= little);
    assert((big + bytes).take(2) =~= big);
    assert(!starts_with(little + bytes, mark)) by {
        if starts_with(little + bytes, mark) {
            assert((little + bytes).take(3)[0] == 0xFF);
        }
    }
    assert(!starts_with(big + bytes, mark)) by {
        if starts_with(big + bytes, mark) {
            assert((big + bytes).take(3)[0] == 0xFE);
        }
    }
    assert(!starts_with(big + bytes, little)) by {
        if starts_with(big + bytes, little) {
            assert((big + bytes).take(2)[0] == 0xFE);
        }
    }
    if valid_utf8(bytes) && bytes.len() > 0 {
        first_byte_of_utf8(bytes);
        assert(!starts_with(bytes, little)) by {
            if starts_with(bytes, little) {
                assert(bytes.take(2)[0] == bytes[0]);
            }
        }
        assert(!starts_with(bytes, big)) by {
            if starts_with(bytes, big) {
                assert(bytes.take(2)[0] == bytes[0]);
            }
        }
    }
}

/// Bytes begin with a mark exactly where the mark is followed by the rest of them; and the
/// marks at the start of a text are cut off one after the other until there is none.
pub proof fn marks_are_cut_off(bytes: Seq<u8>, mark: Seq<u8>)
    ensures
        starts_with(mark + bytes, mark),
        starts_with(bytes, mark) ==> bytes == mark + bytes.skip(mark.len() as int),
        without_marks(seq![0xEFu8, 0xBBu8, 0xBFu8] + bytes) == without_marks(bytes),
        !starts_with(bytes, seq![0xEFu8, 0xBBu8, 0xBFu8]) ==> without_marks(bytes) == bytes,
{
    assert((mark + bytes).take(mark.len() as int) =~= mark);
    if starts_with(bytes, mark) {
        assert(bytes =~= mark + bytes.skip(mark.len() as int));
    }
    let first = seq![0xEFu8, 0xBBu8, 0xBFu8];
    assert((first + bytes).take(3) =~= first);
    assert((first + bytes).skip(3) =~= bytes);
}

} // verus!
