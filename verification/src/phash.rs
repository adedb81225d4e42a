//! Perceptual hashes: how a hash is read off a frequency grid, and how far two hashes
//! are apart.
//!
//! The grid itself is computed in floating point elsewhere. It arrives here as integers
//! that are ordered as its coefficients are.

#[allow(unused_imports)]
use vstd::arithmetic::power2::{lemma2_to64, lemma2_to64_rest, lemma_pow2_unfold, pow2};
use vstd::prelude::*;

#[allow(unused_imports)]
use crate::media::image_key;
use crate::order::{sorted_positions, Ranked};
#[allow(unused_imports)]
use crate::order::{before, stable_sort, stably_reads};
use crate::paths::extension;
#[allow(unused_imports)]
use crate::paths::{path_extension, text_of, told};
#[allow(unused_imports)]
use crate::text::ascii_folded;

verus! {

/// The edge of the square of pixels that a hash looks at.
pub const SAMPLE_EDGE: u32 = 32;

/// The number of coefficients that a hash is read off: eight by eight, without the
/// constant one.
pub const COEFFICIENTS: usize = 63;

/// The number of ones among the bits of `x`.
pub open spec fn ones(x: u64) -> nat
    decreases x,
{
    if x == 0 {
        0
    } else {
        (x % 2) as nat + ones(x / 2)
    }
}

proof fn ones_of_narrow(x: u64, width: nat)
    requires
        x < pow2(width),
    ensures
        ones(x) <= width,
    decreases width,
{
    if width == 0 {
        lemma2_to64();
    } else if x != 0 {
        lemma_pow2_unfold(width);
        ones_of_narrow(x / 2, (width - 1) as nat);
    }
}

proof fn ones_at_most_64(x: u64)
    ensures
        ones(x) <= 64,
{
    lemma2_to64();
    lemma2_to64_rest();
    ones_of_narrow(x, 64);
}

/// The number of bits in which two hashes differ.
pub fn hamming_distance(a: u64, b: u64) -> (r: u32)
    ensures
        r == ones(a ^ b),
        r <= 64,
{
    let mut rest: u64 = a ^ b;
    let mut count: u32 = 0;
    proof {
        ones_at_most_64(rest);
    }
    while rest != 0
        invariant
            count + ones(rest) == ones(a ^ b),
            ones(a ^ b) <= 64,
        decreases rest,
    {
        if rest % 2 == 1 {
            count = count + 1;
        }
        rest = rest / 2;
    }
    count
}

/// The distance does not depend on the order.
pub proof fn distance_is_symmetric(a: u64, b: u64)
    ensures
        ones(a ^ b) == ones(b ^ a),
{
    assert(a ^ b == b ^ a) by (bit_vector);
}

/// Equal hashes, and no others, are at distance zero.
pub proof fn distance_zero_is_equality(a: u64, b: u64)
    ensures
        ones(a ^ b) == 0 <==> a == b,
{
    assert(a ^ b == 0 <==> a == b) by (bit_vector);
    if ones(a ^ b) == 0 {
        no_ones_is_zero(a ^ b);
    }
}

proof fn no_ones_is_zero(x: u64)
    requires
        ones(x) == 0,
    ensures
        x == 0,
    decreases x,
{
    if x != 0 {
        no_ones_is_zero(x / 2);
    }
}

proof fn ones_of_xor(x: u64, y: u64)
    ensures
        ones(x ^ y) <= ones(x) + ones(y),
    decreases x + y,
{
    if x == 0 {
        assert(0u64 ^ y == y) by (bit_vector);
    } else if y == 0 {
        assert(x ^ 0u64 == x) by (bit_vector);
    } else {
        assert((x ^ y) / 2 == (x / 2) ^ (y / 2)) by (bit_vector);
        assert((x ^ y) % 2 <= x % 2 + y % 2) by (bit_vector);
        ones_of_xor(x / 2, y / 2);
    }
}

/// A detour is never shorter.
pub proof fn distance_obeys_triangle(a: u64, b: u64, c: u64)
    ensures
        ones(a ^ c) <= ones(a ^ b) + ones(b ^ c),
{
    assert(a ^ c == (a ^ b) ^ (b ^ c)) by (bit_vector);
    ones_of_xor(a ^ b, b ^ c);
}

/// A frequency grid: its coefficients, and the largest of their magnitudes, as integers
/// that are ordered as the coefficients are.
#[derive(Debug, Clone, PartialEq, Eq)]
pub struct AcGrid {
    pub values: Vec<i64>,
    pub max_abs: i64,
}

pub open spec fn ascending_values() -> spec_fn(i64, i64) -> bool {
    |a: i64, b: i64| a <= b
}

/// `median` is the middle one of the values in ascending order.
pub open spec fn is_median(values: Seq<i64>, median: i64) -> bool {
    exists|sorted: Seq<i64>| #[trigger]
        stable_sort(ascending_values(), values, sorted) && median == sorted[values.len() as int / 2]
}

pub open spec fn bit(x: u64, i: int) -> bool {
    (x >> (i as u64)) & 1 == 1
}

/// `hash` has exactly the bits of the values above the median.
pub open spec fn marks_above_median(values: Seq<i64>, hash: u64) -> bool {
    exists|median: i64| #[trigger]
        is_median(values, median) && (forall|i: int|
            0 <= i < 64 ==> #[trigger] bit(hash, i) == (i < values.len() && values[i] > median))
}

struct Values<'a> {
    values: &'a Vec<i64>,
}

impl<'a> Ranked for Values<'a> {
    closed spec fn count(&self) -> nat {
        self.values@.len()
    }

    closed spec fn le(&self, i: int, j: int) -> bool {
        self.values@[i] <= self.values@[j]
    }

    proof fn total(&self, i: int, j: int) {
    }

    proof fn transitive(&self, i: int, j: int, k: int) {
    }

    fn leq(&self, i: usize, j: usize) -> (r: bool) {
        self.values[i] <= self.values[j]
    }
}

proof fn setting_a_bit(x: u64, i: u64, j: u64)
    requires
        i < 64,
        j < 64,
    ensures
        bit(x | (1u64 << i), j as int) == (bit(x, j as int) || i == j),
{
    assert((((x | (1u64 << i)) >> j) & 1 == 1) == (((x >> j) & 1 == 1) || i == j)) by (bit_vector)
        requires
            i < 64,
            j < 64,
    ;
}

/// The hash of a grid: one bit for each coefficient above the median.
fn median_threshold(values: &Vec<i64>) -> (r: u64)
    requires
        0 < values@.len() <= 64,
    ensures
        marks_above_median(values@, r),
{
    let n: usize = values.len();
    let ranked = Values { values };
    let positions = sorted_positions(&ranked, n);
    let median: i64 = values[positions[n / 2]];
    proof {
        let perm: Seq<int> = positions@.map_values(|p: usize| p as int);
        let sorted = Seq::new(n as nat, |a: int| values@[perm[a]]);
        assert forall|k: int| 0 <= k < n implies #[trigger] perm.contains(k) by {
            assert(positions@.contains(k as usize));
            let a = choose|a: int| 0 <= a < positions@.len() && positions@[a] == k as usize;
            assert(perm[a] == k);
        }
        assert forall|a: int, b: int| 0 <= a < b < sorted.len() implies {
            &&& (ascending_values())(#[trigger] sorted[a], #[trigger] sorted[b])
            &&& (ascending_values())(sorted[b], sorted[a]) ==> perm[a] < perm[b]
        } by {
            assert(before(&ranked, positions@[a] as int, positions@[b] as int));
        }
        assert(stably_reads(ascending_values(), values@, perm, sorted));
        assert(stable_sort(ascending_values(), values@, sorted));
        assert(is_median(values@, median));
    }
    let mut hash: u64 = 0;
    let mut i: usize = 0;
    proof {
        assert forall|j: int| 0 <= j < 64 implies !#[trigger] bit(0, j) by {
            let k = j as u64;
            assert((0u64 >> k) & 1 == 0) by (bit_vector);
        }
    }
    while i < n
        invariant
            n == values@.len(),
            n <= 64,
            i <= n,
            forall|j: int|
                0 <= j < 64 ==> #[trigger] bit(hash, j) == (j < i && values@[j] > median),
        decreases n - i,
    {
        let ghost was = hash;
        if values[i] > median {
            hash = hash | (1u64 << i as u64);
            proof {
                assert forall|j: int| 0 <= j < 64 implies #[trigger] bit(hash, j) == (j < i + 1
                    && values@[j] > median) by {
                    setting_a_bit(was, i as u64, j as u64);
                    assert(bit(was, j) == (j < i && values@[j] > median));
                }
            }
        } else {
            proof {
                assert forall|j: int| 0 <= j < 64 implies #[trigger] bit(hash, j) == (j < i + 1
                    && values@[j] > median) by {
                    assert(bit(was, j) == (j < i && values@[j] > median));
                }
            }
        }
        i = i + 1;
    }
    hash
}

/// The hash of a grid, whatever its energy.
pub fn perceptual_hash_gray(grid: &AcGrid) -> (r: u64)
    requires
        grid.values@.len() == COEFFICIENTS,
    ensures
        marks_above_median(grid.values@, r),
{
    median_threshold(&grid.values)
}

/// The hash of a grid that has energy enough; of a nearly even picture there is none,
/// since its coefficients are rounding noise.
pub fn reliable_phash(grid: &AcGrid, floor: i64) -> (r: Option<u64>)
    requires
        grid.values@.len() == COEFFICIENTS,
    ensures
        r is None <==> grid.max_abs < floor,
        r matches Some(hash) ==> marks_above_median(grid.values@, hash),
{
    if grid.max_abs < floor {
        return None;
    }
    Some(median_threshold(&grid.values))
}

/// A grid has one hash.
pub proof fn hash_is_unique(values: Seq<i64>, first: u64, second: u64)
    requires
        marks_above_median(values, first),
        marks_above_median(values, second),
    ensures
        first == second,
{
    let m1 = choose|median: i64| #[trigger]
        is_median(values, median) && (forall|i: int|
            0 <= i < 64 ==> #[trigger] bit(first, i) == (i < values.len() && values[i] > median));
    let m2 = choose|median: i64| #[trigger]
        is_median(values, median) && (forall|i: int|
            0 <= i < 64 ==> #[trigger] bit(second, i) == (i < values.len() && values[i] > median));
    let s1 = choose|sorted: Seq<i64>| #[trigger]
        stable_sort(ascending_values(), values, sorted) && m1 == sorted[values.len() as int / 2];
    let s2 = choose|sorted: Seq<i64>| #[trigger]
        stable_sort(ascending_values(), values, sorted) && m2 == sorted[values.len() as int / 2];
    crate::order::stable_sort_is_unique(ascending_values(), values, s1, s2);
    assert forall|i: u64| i < 64 implies (first >> i) & 1 == (second >> i) & 1 by {
        assert(bit(first, i as int) == bit(second, i as int));
        assert((first >> i) & 1 == 0 || (first >> i) & 1 == 1) by (bit_vector);
        assert((second >> i) & 1 == 0 || (second >> i) & 1 == 1) by (bit_vector);
    }
    same_bits_same_number(first, second);
}

proof fn same_bits_same_number(x: u64, y: u64)
    requires
        forall|i: u64| i < 64 ==> #[trigger] ((x >> i) & 1) == (y >> i) & 1,
    ensures
        x == y,
    decreases x + y,
{
    if x != 0 || y != 0 {
        let hx = x / 2;
        let hy = y / 2;
        assert forall|i: u64| i < 64 implies #[trigger] ((hx >> i) & 1) == (hy >> i) & 1 by {
            let next = if i < 63 {
                (i + 1) as u64
            } else {
                0
            };
            assert((x >> next) & 1 == (y >> next) & 1);
            assert(i < 63 && next == i + 1 ==> ((x / 2) >> i) & 1 == (x >> next) & 1)
                by (bit_vector);
            assert(i < 63 && next == i + 1 ==> ((y / 2) >> i) & 1 == (y >> next) & 1)
                by (bit_vector);
            assert(i == 63 ==> ((x / 2) >> i) & 1 == 0) by (bit_vector);
            assert(i == 63 ==> ((y / 2) >> i) & 1 == 0) by (bit_vector);
        }
        same_bits_same_number(hx, hy);
        assert((x >> 0u64) & 1 == (y >> 0u64) & 1);
        assert((x >> 0u64) & 1 == x % 2) by (bit_vector);
        assert((y >> 0u64) & 1 == y % 2) by (bit_vector);
    }
}

/// A grey picture: a byte for each pixel, row by row.
#[derive(Debug, Clone, PartialEq, Eq)]
pub struct GrayPixels {
    pub width: u32,
    pub height: u32,
    pub pixels: Vec<u8>,
}

impl GrayPixels {
    pub open spec fn wf(&self) -> bool {
        self.pixels@.len() == self.width * self.height
    }
}

/// The pixels of a picture resized to another format: what `image::imageops::resize`
/// makes of it with the nearest-neighbour filter.
pub uninterp spec fn nearest_resized(
    width: u32,
    height: u32,
    pixels: Seq<u8>,
    new_width: u32,
    new_height: u32,
) -> Seq<u8>;

/// `image::imageops::resize` with `FilterType::Nearest`.
///
/// Claims that the result has the new format and is a function of the picture and that
/// format. The bounds keep its buffers within what a vector can hold: beyond that it
/// panics.
#[verifier::external_body]
fn resize_nearest(picture: &GrayPixels, new_width: u32, new_height: u32) -> (r: Vec<u8>)
    requires
        picture.wf(),
        picture.width <= new_width,
        picture.height <= new_height,
        16 * (new_width * new_height) <= isize::MAX,
    ensures
        r@ == nearest_resized(
            picture.width,
            picture.height,
            picture.pixels@,
            new_width,
            new_height,
        ),
        r@.len() == new_width * new_height,
{
    let source = image::GrayImage::from_raw(picture.width, picture.height, picture.pixels.clone())
        .expect("one byte for each pixel");
    let nearest = image::imageops::FilterType::Nearest;
    image::imageops::resize(&source, new_width, new_height, nearest).into_raw()
}

pub open spec fn at_least(edge: u32) -> u32 {
    if edge < SAMPLE_EDGE {
        SAMPLE_EDGE
    } else {
        edge
    }
}

/// The picture that is sampled: one that is smaller than the sample in some direction is
/// stretched to it first.
pub open spec fn sampled_pixels(picture: GrayPixels) -> Seq<u8> {
    if picture.width < SAMPLE_EDGE || picture.height < SAMPLE_EDGE {
        nearest_resized(
            picture.width,
            picture.height,
            picture.pixels@,
            at_least(picture.width),
            at_least(picture.height),
        )
    } else {
        picture.pixels@
    }
}

fn edge_for_sampling(edge: u32) -> (r: u32)
    ensures
        r == at_least(edge),
{
    if edge < SAMPLE_EDGE {
        SAMPLE_EDGE
    } else {
        edge
    }
}

/// The pixels that a hash looks at: the upper left square of the picture, row by row.
pub fn hash_window(picture: &GrayPixels) -> (r: Vec<u8>)
    requires
        picture.wf(),
        16 * (at_least(picture.width) * at_least(picture.height)) <= isize::MAX,
    ensures
        r@.len() == SAMPLE_EDGE * SAMPLE_EDGE,
        forall|x: int, y: int|
            0 <= x < SAMPLE_EDGE && 0 <= y < SAMPLE_EDGE ==> #[trigger] r@[y * SAMPLE_EDGE + x]
                == sampled_pixels(*picture)[y * at_least(picture.width) + x],
        r@.len() == 1024,
        picture.width >= 32 && picture.height >= 32 ==> forall|x: int, y: int|
            0 <= x < 32 && 0 <= y < 32 ==> #[trigger] r@[y * 32 + x] == picture.pixels@[y
                * picture.width + x],
        picture.width < 32 || picture.height < 32 ==> forall|x: int, y: int|
            0 <= x < 32 && 0 <= y < 32 ==> #[trigger] r@[y * 32 + x] == nearest_resized(
                picture.width,
                picture.height,
                picture.pixels@,
                if picture.width < 32 {
                    32
                } else {
                    picture.width
                },
                if picture.height < 32 {
                    32
                } else {
                    picture.height
                },
            )[y * (if picture.width < 32 {
                32
            } else {
                picture.width as int
            }) + x],
{
    let width: u32 = edge_for_sampling(picture.width);
    let height: u32 = edge_for_sampling(picture.height);
    let stretched: Vec<u8>;
    let source: &Vec<u8> = if picture.width < SAMPLE_EDGE || picture.height < SAMPLE_EDGE {
        stretched = resize_nearest(picture, width, height);
        &stretched
    } else {
        &picture.pixels
    };
    let mut out: Vec<u8> = Vec::new();
    let mut y: u32 = 0;
    proof {
        assert(source@.len() == width * height);
    }
    while y < SAMPLE_EDGE
        invariant
            y <= SAMPLE_EDGE,
            SAMPLE_EDGE <= width,
            SAMPLE_EDGE <= height,
            source@.len() == width * height,
            16 * (width * height) <= isize::MAX,
            out@.len() == y * SAMPLE_EDGE,
            forall|i: int|
                0 <= i < out@.len() ==> #[trigger] out@[i] == source@[(i / SAMPLE_EDGE as int)
                    * width + i % SAMPLE_EDGE as int],
        decreases SAMPLE_EDGE - y,
    {
        let mut x: u32 = 0;
        while x < SAMPLE_EDGE
            invariant
                x <= SAMPLE_EDGE,
                y < SAMPLE_EDGE,
                SAMPLE_EDGE <= width,
                SAMPLE_EDGE <= height,
                source@.len() == width * height,
                16 * (width * height) <= isize::MAX,
                out@.len() == y * SAMPLE_EDGE + x,
                forall|i: int|
                    0 <= i < out@.len() ==> #[trigger] out@[i] == source@[(i / SAMPLE_EDGE as int)
                        * width + i % SAMPLE_EDGE as int],
            decreases SAMPLE_EDGE - x,
        {
            proof {
                assert(y * width + x < width * height) by (nonlinear_arith)
                    requires
                        x < width,
                        y < height,
                ;
                assert(y * width <= y * width + x);
            }
            let at: usize = y as usize * width as usize + x as usize;
            out.push(source[at]);
            proof {
                let i = y * SAMPLE_EDGE + x;
                assert(i / SAMPLE_EDGE as int == y);
                assert(i % SAMPLE_EDGE as int == x);
            }
            x = x + 1;
        }
        y = y + 1;
    }
    proof {
        assert forall|x: int, y: int|
            0 <= x < SAMPLE_EDGE && 0 <= y < SAMPLE_EDGE implies #[trigger] out@[y * SAMPLE_EDGE
            + x] == source@[y * width + x] by {
            let i = y * SAMPLE_EDGE + x;
            assert(i / SAMPLE_EDGE as int == y);
            assert(i % SAMPLE_EDGE as int == x);
        }
    }
    out
}

/// `bytes` begin with `mark`.
pub open spec fn marked(bytes: Seq<u8>, mark: Seq<u8>) -> bool {
    bytes.len() >= mark.len() && bytes.take(mark.len() as int) == mark
}

/// `mark` stands in `bytes` at `at`.
pub open spec fn marked_at(bytes: Seq<u8>, at: int, mark: Seq<u8>) -> bool {
    bytes.len() >= at + mark.len() && bytes.subrange(at, at + mark.len()) == mark
}

/// The format that the first bytes of a file tell, by its usual extension. The first mark
/// that fits decides.
pub open spec fn content_format(bytes: Seq<u8>) -> Option<Seq<char>> {
    if marked(bytes, seq![0x89u8, 0x50, 0x4e, 0x47, 0x0d, 0x0a, 0x1a, 0x0a]) {
        Some("png"@)
    } else if marked(bytes, seq![0xffu8, 0xd8, 0xff]) {
        Some("jpg"@)
    } else if marked(bytes, seq![0x47u8, 0x49, 0x46, 0x38, 0x39, 0x61]) || marked(
        bytes,
        seq![0x47u8, 0x49, 0x46, 0x38, 0x37, 0x61],
    ) {
        Some("gif"@)
    } else if marked(bytes, seq![0x52u8, 0x49, 0x46, 0x46]) && marked_at(
        bytes,
        8,
        seq![0x57u8, 0x45, 0x42, 0x50],
    ) {
        Some("webp"@)
    } else if marked(bytes, seq![0x42u8, 0x4d]) {
        Some("bmp"@)
    } else {
        other_content_format(bytes)
    }
}

/// The same for the formats that no picture of the library has.
pub open spec fn other_content_format(bytes: Seq<u8>) -> Option<Seq<char>> {
    if marked(bytes, seq![0x4du8, 0x4d, 0x00, 0x2a]) || marked(
        bytes,
        seq![0x49u8, 0x49, 0x2a, 0x00],
    ) {
        Some("tiff"@)
    } else if marked(bytes, seq![0x44u8, 0x44, 0x53, 0x20]) {
        Some("dds"@)
    } else if marked(bytes, seq![0x00u8, 0x00, 0x01, 0x00]) {
        Some("ico"@)
    } else if marked(bytes, seq![0x23u8, 0x3f, 0x52, 0x41, 0x44, 0x49, 0x41, 0x4e, 0x43, 0x45]) {
        Some("hdr"@)
    } else if marked(bytes, seq![0x00u8, 0x00]) && marked_at(
        bytes,
        4,
        seq![0x66u8, 0x74, 0x79, 0x70, 0x61, 0x76, 0x69, 0x66],
    ) {
        Some("avif"@)
    } else if marked(bytes, seq![0x76u8, 0x2f, 0x31, 0x01]) {
        Some("exr"@)
    } else if marked(bytes, seq![0x71u8, 0x6f, 0x69, 0x66]) {
        Some("qoi"@)
    } else if marked(bytes, seq![0x50u8]) && bytes.len() >= 2 && 0x31 <= bytes[1] <= 0x37 {
        Some("pbm"@)
    } else if marked(bytes, seq![0x66u8, 0x61, 0x72, 0x62, 0x66, 0x65, 0x6c, 0x64]) {
        Some("ff"@)
    } else {
        None
    }
}

/// The extensions, in lower case, that stand for a format of pictures.
pub open spec fn format_key(ext: Seq<char>) -> bool {
    ||| image_key(ext)
    ||| ext == "jfif"@ || ext == "apng"@ || ext == "avif"@ || ext == "tif"@ || ext == "tiff"@
    ||| ext == "tga"@ || ext == "dds"@ || ext == "ico"@ || ext == "hdr"@ || ext == "exr"@
    ||| ext == "pbm"@ || ext == "pam"@ || ext == "ppm"@ || ext == "pgm"@ || ext == "pnm"@
    ||| ext == "ff"@ || ext == "qoi"@
}

/// Width and height of the picture that `bytes` encode in the format that files with the
/// extension `ext` have: what `image::ImageReader::decode` says of a picture it decoded.
pub uninterp spec fn picture_size(ext: Seq<char>, bytes: Seq<u8>) -> (u32, u32);

/// `image::guess_format`, with the first of `image::ImageFormat::extensions_str`: the
/// format that the first bytes of a file tell, or why they tell none.
///
/// Claims that the format is the one of [`content_format`], and that there is none exactly
/// where that has none. The words of the error are left unsaid.
#[verifier::external_body]
fn format_of_content(bytes: &[u8]) -> (r: Result<&'static str, String>)
    ensures
        match content_format(bytes@) {
            Some(ext) => r matches Ok(found) && found@ == ext,
            None => r is Err,
        },
{
    let guess = image::guess_format(bytes).map_err(|error| error.to_string())?;
    Ok(guess.extensions_str()[0])
}

/// `image::ImageReader::decode` with `to_luma8`, on bytes in memory that are taken to have
/// the format that `image::ImageFormat::from_extension` has for an extension: the picture
/// that they encode, in grey, or why there is none.
///
/// Claims that a picture comes only of an extension of [`format_key`], however its letters
/// are cased, that it has one byte for each pixel, and that its size is a function of the
/// extension and the bytes. The value of a pixel is left unsaid: the decoders and the
/// conversion to grey round as the machine's instructions do. So is on which bytes there is
/// a picture: the decoders also fail where the machine has no memory for it.
#[verifier::external_body]
fn decode_as(ext: &str, bytes: &[u8]) -> (r: Result<GrayPixels, String>)
    ensures
        r matches Ok(picture) ==> picture.wf() && format_key(ascii_folded(ext@)) && (
            picture.width,
            picture.height,
        ) == picture_size(ext@, bytes@),
{
    let cursor = std::io::Cursor::new(bytes);
    let reader = match image::ImageFormat::from_extension(ext) {
        Some(format) => image::ImageReader::with_format(cursor, format),
        None => image::ImageReader::new(cursor),
    };
    let gray = reader.decode().map_err(|error| error.to_string())?.to_luma8();
    Ok(GrayPixels { width: gray.width(), height: gray.height(), pixels: gray.into_raw() })
}

/// A picture is only in `r` where there is a format to decode `bytes` by, and then it has
/// the size that this format gives it.
pub open spec fn decoded_by(
    r: Result<GrayPixels, String>,
    format: Option<Seq<char>>,
    bytes: Seq<u8>,
) -> bool {
    match (r, format) {
        (Ok(picture), Some(ext)) => {
            &&& picture.wf()
            &&& format_key(ascii_folded(ext))
            &&& (picture.width, picture.height) == picture_size(ext, bytes)
        },
        (Ok(_), None) => false,
        (Err(_), _) => true,
    }
}

/// The picture in a file with these bytes, in grey, or why it cannot be decoded. The
/// content says which format it has, and only where it does not the extension of the
/// file: a wrong extension does no harm.
///
/// On which bytes there is a picture is for the decoders to say.
pub fn decode_for_phash(path: &str, bytes: &[u8]) -> (r: Result<GrayPixels, String>)
    ensures
        r matches Ok(picture) ==> picture.wf(),
        content_format(bytes@) is Some ==> decoded_by(r, content_format(bytes@), bytes@),
        content_format(bytes@) is None && told(path@) ==> exists|windows: bool|
            decoded_by(r, #[trigger] path_extension(path@, windows), bytes@),
{
    match format_of_content(bytes) {
        Ok(ext) => decode_as(ext, bytes),
        Err(unknown) => {
            let named = extension(path);
            let r = match &named {
                Some(ext) => decode_as(ext.as_str(), bytes),
                None => Err(unknown),
            };
            assert(decoded_by(r, text_of(named), bytes@));
            r
        },
    }
}

/// The number that eight bytes stand for, the first of them the weightiest.
pub open spec fn big_endian(bytes: Seq<u8>) -> int
    decreases bytes.len(),
{
    if bytes.len() == 0 {
        0
    } else {
        big_endian(bytes.drop_last()) * 256 + bytes.last()
    }
}

/// The hash that is stored as `bytes`; `None` unless there are eight of them.
pub fn hash_of_be(bytes: &[u8]) -> (r: Option<u64>)
    ensures
        r is Some <==> bytes@.len() == 8,
        r matches Some(hash) ==> hash == big_endian(bytes@),
{
    if bytes.len() != 8 {
        return None;
    }
    let mut value: u64 = 0;
    let mut i: usize = 0;
    let ghost mut bound: int = 1;
    proof {
        assert(bytes@.take(0) =~= Seq::<u8>::empty());
        vstd::arithmetic::power::lemma_pow0(256);
    }
    while i < 8
        invariant
            bytes@.len() == 8,
            i <= 8,
            value == big_endian(bytes@.take(i as int)),
            value < bound,
            bound == vstd::arithmetic::power::pow(256, i as nat),
        decreases 8 - i,
    {
        proof {
            assert(bytes@.take(i + 1).drop_last() =~= bytes@.take(i as int));
            reveal_with_fuel(vstd::arithmetic::power::pow, 9);
            bound = bound * 256;
        }
        value = value * 256 + bytes[i] as u64;
        i = i + 1;
    }
    assert(bytes@.take(8) =~= bytes@);
    Some(value)
}

/// The eight bytes that a hash is stored as.
pub fn be_of_hash(hash: u64) -> (r: Vec<u8>)
    ensures
        r@.len() == 8,
        big_endian(r@) == hash,
{
    let mut out: Vec<u8> = Vec::new();
    let mut shift: u32 = 64;
    while shift > 0
        invariant
            shift <= 64,
            shift % 8 == 0,
            out@.len() == (64 - shift) / 8,
            shift < 64 ==> big_endian(out@) == hash >> (shift as u64),
            shift == 64 ==> big_endian(out@) == 0,
        decreases shift,
    {
        shift = shift - 8;
        let byte: u8 = ((hash >> (shift as u64)) & 0xFF) as u8;
        let ghost was = out@;
        out.push(byte);
        proof {
            assert(out@.drop_last() =~= was);
            let s = shift as u64;
            if s < 56 {
                assert(hash >> s == (hash >> ((s + 8) as u64)) * 256 + ((hash >> s) & 0xFF))
                    by (bit_vector)
                    requires
                        s < 56,
                ;
            } else {
                assert(hash >> s == (hash >> s) & 0xFF) by (bit_vector)
                    requires
                        s == 56,
                ;
            }
            assert((hash >> s) & 0xFF <= 255) by (bit_vector);
        }
    }
    assert(hash >> 0u64 == hash) by (bit_vector);
    out
}

/// How many of the lowest `n` bits are ones.
spec fn low_ones(x: u64, n: nat) -> nat
    decreases n,
{
    if n == 0 {
        0
    } else {
        low_ones(x, (n - 1) as nat) + if (x >> ((n - 1) as u64)) & 1 == 1 {
            1nat
        } else {
            0nat
        }
    }
}

proof fn low_ones_halve(x: u64, n: nat)
    requires
        0 < n <= 64,
    ensures
        low_ones(x, n) == (x % 2) as nat + low_ones(x / 2, (n - 1) as nat),
    decreases n,
{
    if n == 1 {
        reveal_with_fuel(low_ones, 2);
        assert((x >> 0u64) & 1 == x % 2) by (bit_vector);
    } else {
        low_ones_halve(x, (n - 1) as nat);
        let high = (n - 1) as u64;
        let low = (n - 2) as u64;
        assert((x >> high) & 1 == ((x / 2) >> low) & 1) by (bit_vector)
            requires
                high == low + 1,
                high < 64,
        ;
    }
}

proof fn ones_are_low_ones(x: u64, n: nat)
    requires
        n <= 64,
        x < pow2(n),
    ensures
        ones(x) == low_ones(x, n),
    decreases n,
{
    if n == 0 {
        lemma2_to64();
    } else {
        lemma_pow2_unfold(n);
        low_ones_halve(x, n);
        ones_are_low_ones(x / 2, (n - 1) as nat);
    }
}

proof fn low_ones_are_positions(x: u64, n: nat)
    requires
        n <= 64,
    ensures
        Set::new(|i: int| 0 <= i < n && (x >> (i as u64)) & 1 == 1).finite(),
        Set::new(|i: int| 0 <= i < n && (x >> (i as u64)) & 1 == 1).len() == low_ones(x, n),
    decreases n,
{
    let all = Set::new(|i: int| 0 <= i < n && (x >> (i as u64)) & 1 == 1);
    if n == 0 {
        assert(all =~= Set::empty());
    } else {
        let last = n - 1;
        let fewer = Set::new(|i: int| 0 <= i < last && (x >> (i as u64)) & 1 == 1);
        low_ones_are_positions(x, (n - 1) as nat);
        if (x >> ((n - 1) as u64)) & 1 == 1 {
            assert(all =~= fewer.insert(last));
        } else {
            assert(all =~= fewer);
        }
    }
}

/// The distance of two hashes is the number of places at which their bits differ.
pub proof fn distance_counts_the_places_that_differ(a: u64, b: u64)
    ensures
        ones(a ^ b) == Set::new(
            |i: int| 0 <= i < 64 && (a >> (i as u64)) & 1 != (b >> (i as u64)) & 1,
        ).len(),
{
    let x = a ^ b;
    lemma2_to64();
    lemma2_to64_rest();
    ones_are_low_ones(x, 64);
    low_ones_are_positions(x, 64);
    let set = Set::new(|i: int| 0 <= i < 64 && (x >> (i as u64)) & 1 == 1);
    let differ = Set::new(|i: int| 0 <= i < 64 && (a >> (i as u64)) & 1 != (b >> (i as u64)) & 1);
    assert forall|i: int| #[trigger] set.contains(i) == differ.contains(i) by {
        let k = i as u64;
        assert((((a ^ b) >> k) & 1 == 1) == ((a >> k) & 1 != (b >> k) & 1)) by (bit_vector);
    }
    assert(set =~= differ);
}

/// Changing one bit of a hash changes its distance to any other by one.
pub proof fn one_bit_more_or_less(a: u64, b: u64, i: u64)
    requires
        i < 64,
    ensures
        (a >> i) & 1 == (b >> i) & 1 ==> ones((a ^ (1u64 << i)) ^ b) == ones(a ^ b) + 1,
        (a >> i) & 1 != (b >> i) & 1 ==> ones((a ^ (1u64 << i)) ^ b) + 1 == ones(a ^ b),
{
    let c = a ^ (1u64 << i);
    distance_counts_the_places_that_differ(a, b);
    distance_counts_the_places_that_differ(c, b);
    let before = Set::new(|j: int| 0 <= j < 64 && (a >> (j as u64)) & 1 != (b >> (j as u64)) & 1);
    let after = Set::new(|j: int| 0 <= j < 64 && (c >> (j as u64)) & 1 != (b >> (j as u64)) & 1);
    places_are_finite(a, b);
    places_are_finite(c, b);
    assert forall|j: int| 0 <= j < 64 implies #[trigger] after.contains(j) == (before.contains(j)
        != (j == i)) by {
        let k = j as u64;
        assert((((a ^ (1u64 << i)) >> k) & 1 != (b >> k) & 1) == (((a >> k) & 1 != (b >> k) & 1) != (
        k == i))) by (bit_vector)
            requires
                i < 64,
                k < 64,
        ;
    }
    assert(before.contains(i as int) == ((a >> i) & 1 != (b >> i) & 1));
    if (a >> i) & 1 == (b >> i) & 1 {
        assert(after =~= before.insert(i as int));
        assert(!before.contains(i as int));
    } else {
        assert(before =~= after.insert(i as int));
        assert(!after.contains(i as int));
    }
}

proof fn places_are_finite(a: u64, b: u64)
    ensures
        Set::new(
            |i: int| 0 <= i < 64 && (a >> (i as u64)) & 1 != (b >> (i as u64)) & 1,
        ).finite(),
{
    let all = vstd::set_lib::set_int_range(0, 64);
    vstd::set_lib::lemma_int_range(0, 64);
    let differ = Set::new(|i: int| 0 <= i < 64 && (a >> (i as u64)) & 1 != (b >> (i as u64)) & 1);
    vstd::set_lib::lemma_len_subset(differ, all);
}

/// The places of the values above `t`.
spec fn places_above(values: Seq<i64>, t: i64) -> Set<int> {
    Set::new(|i: int| 0 <= i < values.len() && values[i] > t)
}

spec fn places_below(values: Seq<i64>, t: i64) -> Set<int> {
    Set::new(|i: int| 0 <= i < values.len() && values[i] < t)
}

/// Read in ascending order, the value at `h` has at most `h` values below it, and above it
/// at most those that follow.
proof fn rank_in_a_reading(values: Seq<i64>, perm: Seq<int>, h: int)
    requires
        crate::order::is_permutation(perm, values.len()),
        forall|a: int, b: int|
            0 <= a < b < perm.len() ==> values[#[trigger] perm[a]] <= values[#[trigger] perm[b]],
        0 <= h < values.len(),
    ensures
        places_above(values, values[perm[h]]).finite(),
        places_below(values, values[perm[h]]).finite(),
        places_above(values, values[perm[h]]).len() <= values.len() - h - 1,
        places_below(values, values[perm[h]]).len() <= h,
        places_above(values, values[perm[h]]).subset_of(
            perm.subrange(h + 1, values.len() as int).to_set(),
        ),
{
    let n = values.len() as int;
    let t = values[perm[h]];
    let tail = perm.subrange(h + 1, n);
    let head = perm.subrange(0, h);
    tail.lemma_cardinality_of_set();
    head.lemma_cardinality_of_set();
    assert forall|i: int| places_above(values, t).contains(i) implies tail.to_set().contains(i) by {
        assert(perm.contains(i));
        let a = choose|a: int| 0 <= a < perm.len() && perm[a] == i;
        if a < h {
            assert(values[perm[a]] <= values[perm[h]]);
        }
        assert(tail[a - h - 1] == i);
    }
    assert forall|i: int| places_below(values, t).contains(i) implies head.to_set().contains(i) by {
        assert(perm.contains(i));
        let a = choose|a: int| 0 <= a < perm.len() && perm[a] == i;
        if a > h {
            assert(values[perm[h]] <= values[perm[a]]);
        }
        assert(head[a] == i);
    }
    vstd::set_lib::lemma_len_subset(places_above(values, t), tail.to_set());
    vstd::set_lib::lemma_len_subset(places_below(values, t), head.to_set());
}

/// Only one value has that rank.
proof fn ranks_are_unique(values: Seq<i64>, h: int, t: i64, u: i64)
    requires
        0 <= h < values.len(),
        places_above(values, t).finite(),
        places_below(values, u).finite(),
        places_above(values, t).len() <= values.len() - h - 1,
        places_below(values, u).len() <= h,
    ensures
        t >= u,
{
    if t < u {
        let all = vstd::set_lib::set_int_range(0, values.len() as int);
        vstd::set_lib::lemma_int_range(0, values.len() as int);
        let above = places_above(values, t);
        let below = places_below(values, u);
        assert(all =~= above.union(below)) by {
            assert forall|i: int| all.contains(i) implies above.union(below).contains(i) by {
                assert(values[i] > t || values[i] < u);
            }
        }
        vstd::set_lib::lemma_len_union(above, below);
    }
}

/// The order in which the values are read, and the value in the middle.
proof fn median_of(values: Seq<i64>, hash: u64) -> (r: (Seq<int>, i64))
    requires
        marks_above_median(values, hash),
        values.len() > 0,
    ensures
        crate::order::is_permutation(r.0, values.len()),
        forall|a: int, b: int|
            0 <= a < b < r.0.len() ==> values[#[trigger] r.0[a]] <= values[#[trigger] r.0[b]],
        r.1 == values[r.0[values.len() as int / 2]],
        forall|i: int|
            0 <= i < 64 ==> #[trigger] bit(hash, i) == (i < values.len() && values[i] > r.1),
{
    let t = choose|median: i64| #[trigger]
        is_median(values, median) && (forall|i: int|
            0 <= i < 64 ==> #[trigger] bit(hash, i) == (i < values.len() && values[i] > median));
    let sorted = choose|sorted: Seq<i64>| #[trigger]
        stable_sort(ascending_values(), values, sorted) && t == sorted[values.len() as int / 2];
    let perm = choose|perm: Seq<int>|
        stably_reads(ascending_values(), values, perm, sorted);
    assert forall|a: int, b: int| 0 <= a < b < perm.len() implies values[#[trigger] perm[a]]
        <= values[#[trigger] perm[b]] by {
        assert((ascending_values())(sorted[a], sorted[b]));
    }
    (perm, t)
}

/// The bits of a hash are those of the values above a threshold that is one of the values,
/// with at most half of the others below it and at most half of them above it.
pub proof fn the_threshold_is_in_the_middle(values: Seq<i64>, hash: u64)
    requires
        marks_above_median(values, hash),
        0 < values.len() <= 64,
    ensures
        exists|t: i64| #[trigger]
            values.contains(t) && (forall|i: u64|
                i < 64 ==> ((#[trigger] (hash >> i) & 1 == 1) <==> (i < values.len()
                    && values[i as int] > t))) && Set::new(
                |i: int| 0 <= i < values.len() && values[i] > t,
            ).len() <= (values.len() - 1) / 2 && Set::new(
                |i: int| 0 <= i < values.len() && values[i] < t,
            ).len() <= values.len() / 2,
{
    let (perm, t) = median_of(values, hash);
    let h = values.len() as int / 2;
    rank_in_a_reading(values, perm, h);
    assert(values[perm[h]] == t);
    assert(values.contains(t));
    assert(places_above(values, t) =~= Set::new(
        |i: int| 0 <= i < values.len() && values[i] > t,
    ));
    assert(places_below(values, t) =~= Set::new(
        |i: int| 0 <= i < values.len() && values[i] < t,
    ));
    assert forall|i: u64| i < 64 implies ((#[trigger] (hash >> i) & 1 == 1) <==> (i < values.len()
        && values[i as int] > t)) by {
        assert(bit(hash, i as int) == (i < values.len() && values[i as int] > t));
    }
}

/// Of values that all differ, just those above the middle one are marked: of 63 values 31,
/// and of any number one less than half of them, rounded up.
pub proof fn values_that_differ_mark_half_of_the_bits(values: Seq<i64>, hash: u64)
    requires
        marks_above_median(values, hash),
        0 < values.len() <= 64,
        values.no_duplicates(),
    ensures
        Set::new(|i: int| 0 <= i < 64 && (hash >> (i as u64)) & 1 == 1).len() == (values.len() - 1)
            / 2,
        ones(hash) == (values.len() - 1) / 2,
{
    let (perm, t) = median_of(values, hash);
    let n = values.len() as int;
    let h = n / 2;
    rank_in_a_reading(values, perm, h);
    crate::order::permutation_is_injective(perm, values.len());
    let marked = Set::new(|i: int| 0 <= i < 64 && (hash >> (i as u64)) & 1 == 1);
    let tail = perm.subrange(h + 1, n);
    assert(tail.no_duplicates());
    tail.unique_seq_to_set();
    assert forall|i: int| marked.contains(i) <==> tail.to_set().contains(i) by {
        if 0 <= i < 64 {
            assert(bit(hash, i) == (i < n && values[i] > t));
        }
        if tail.to_set().contains(i) {
            let a = choose|a: int| 0 <= a < tail.len() && tail[a] == i;
            assert(perm[a + h + 1] == i);
            assert(values[perm[h]] <= values[perm[a + h + 1]]);
            assert(perm[h] != perm[a + h + 1]);
        }
        if marked.contains(i) {
            assert(places_above(values, t).contains(i));
        }
    }
    assert(marked =~= tail.to_set());
    lemma2_to64();
    lemma2_to64_rest();
    ones_are_low_ones(hash, 64);
    low_ones_are_positions(hash, 64);
}

/// The order of the values does not matter: where they are permuted, so are the bits.
pub proof fn permuting_the_values_permutes_the_bits(
    values: Seq<i64>,
    hash: u64,
    others: Seq<i64>,
    other: u64,
    perm: Seq<int>,
)
    requires
        0 < values.len() <= 64,
        marks_above_median(values, hash),
        marks_above_median(others, other),
        others.len() == values.len(),
        perm.len() == values.len(),
        forall|i: int| 0 <= i < perm.len() ==> 0 <= #[trigger] perm[i] < values.len(),
        forall|k: int| 0 <= k < values.len() ==> #[trigger] perm.contains(k),
        forall|i: int| 0 <= i < others.len() ==> #[trigger] others[i] == values[perm[i]],
    ensures
        forall|i: int|
            0 <= i < values.len() ==> (other >> (i as u64)) & 1 == (hash >> (
            #[trigger] perm[i] as u64)) & 1,
{
    let n = values.len() as int;
    let h = n / 2;
    let (p, t) = median_of(values, hash);
    let (q, u) = median_of(others, other);
    let through = Seq::new(n as nat, |a: int| perm[q[a]]);
    assert forall|k: int| 0 <= k < n implies #[trigger] through.contains(k) by {
        assert(perm.contains(k));
        let i = choose|i: int| 0 <= i < perm.len() && perm[i] == k;
        assert(q.contains(i));
        let a = choose|a: int| 0 <= a < q.len() && q[a] == i;
        assert(through[a] == k);
    }
    assert forall|a: int, b: int| 0 <= a < b < through.len() implies values[#[trigger] through[a]]
        <= values[#[trigger] through[b]] by {
        assert(others[q[a]] <= others[q[b]]);
    }
    rank_in_a_reading(values, p, h);
    rank_in_a_reading(values, through, h);
    assert(values[through[h]] == u);
    ranks_are_unique(values, h, t, u);
    ranks_are_unique(values, h, u, t);
    assert forall|i: int| 0 <= i < n implies (other >> (i as u64)) & 1 == (hash >> (
    #[trigger] perm[i] as u64)) & 1 by {
        assert(bit(other, i) == (others[i] > u));
        assert(bit(hash, perm[i]) == (values[perm[i]] > t));
        let (x, y, j, k) = (other, hash, i as u64, perm[i] as u64);
        assert((x >> j) & 1 == 0 || (x >> j) & 1 == 1) by (bit_vector);
        assert((y >> k) & 1 == 0 || (y >> k) & 1 == 1) by (bit_vector);
    }
}

/// A hash looks at a square of 32 pixels by 32, and has a bit for each of 63 coefficients.
pub proof fn sizes_of_a_hash()
    ensures
        SAMPLE_EDGE == 32,
        COEFFICIENTS == 63,
{
}

/// The first byte of a stored hash is the weightiest: each byte behind it weighs as much less
/// as a byte holds.
pub proof fn stored_hashes_are_big_endian(bytes: Seq<u8>, byte: u8)
    ensures
        big_endian(Seq::<u8>::empty()) == 0,
        big_endian(bytes.push(byte)) == 256 * big_endian(bytes) + byte,
{
    assert(bytes.push(byte).drop_last() =~= bytes);
}

/// Hashes are stored apart: no two are stored as the same bytes, and no two sequences of eight
/// bytes stand for the same hash.
pub proof fn stored_hashes_are_told_apart(a: Seq<u8>, b: Seq<u8>)
    requires
        a.len() == b.len(),
        big_endian(a) == big_endian(b),
    ensures
        a == b,
    decreases a.len(),
{
    if a.len() > 0 {
        let x = big_endian(a.drop_last());
        let y = big_endian(b.drop_last());
        assert(x == y) by (nonlinear_arith)
            requires
                x * 256 + a.last() == y * 256 + b.last(),
                0 <= a.last() < 256,
                0 <= b.last() < 256,
        ;
        stored_hashes_are_told_apart(a.drop_last(), b.drop_last());
        assert(a =~= a.drop_last().push(a.last()));
        assert(b =~= b.drop_last().push(b.last()));
    } else {
        assert(a =~= b);
    }
}

/// The picture formats of the library are told by the marks their files begin with, whatever
/// follows.
pub proof fn pictures_are_told_by_their_marks(rest: Seq<u8>, size: Seq<u8>)
    requires
        size.len() == 4,
    ensures
        content_format(seq![0x89u8, 0x50, 0x4e, 0x47, 0x0d, 0x0a, 0x1a, 0x0a] + rest) == Some(
            "png"@,
        ),
        content_format(seq![0xffu8, 0xd8, 0xff] + rest) == Some("jpg"@),
        content_format(seq![0x47u8, 0x49, 0x46, 0x38, 0x39, 0x61] + rest) == Some("gif"@),
        content_format(seq![0x47u8, 0x49, 0x46, 0x38, 0x37, 0x61] + rest) == Some("gif"@),
        content_format(
            seq![0x52u8, 0x49, 0x46, 0x46] + size + seq![0x57u8, 0x45, 0x42, 0x50] + rest,
        ) == Some("webp"@),
        content_format(seq![0x42u8, 0x4d] + rest) == Some("bmp"@),
{
    let png = seq![0x89u8, 0x50, 0x4e, 0x47, 0x0d, 0x0a, 0x1a, 0x0a];
    let jpg = seq![0xffu8, 0xd8, 0xff];
    let gif = seq![0x47u8, 0x49, 0x46, 0x38, 0x39, 0x61];
    let gif_87 = seq![0x47u8, 0x49, 0x46, 0x38, 0x37, 0x61];
    let riff = seq![0x52u8, 0x49, 0x46, 0x46];
    let webp = seq![0x57u8, 0x45, 0x42, 0x50];
    let bmp = seq![0x42u8, 0x4d];
    let picture = riff + size + webp + rest;
    assert((png + rest).take(8) =~= png);
    assert((jpg + rest).take(3) =~= jpg);
    assert((gif + rest).take(6) =~= gif);
    assert((gif_87 + rest).take(6) =~= gif_87);
    assert(picture.take(4) =~= riff);
    assert(picture.subrange(8, 12) =~= webp);
    assert((bmp + rest).take(2) =~= bmp);
    marks_are_told_by_their_first_byte(jpg + rest, png);
    marks_are_told_by_their_first_byte(gif + rest, png);
    marks_are_told_by_their_first_byte(gif + rest, jpg);
    marks_are_told_by_their_first_byte(gif_87 + rest, png);
    marks_are_told_by_their_first_byte(gif_87 + rest, jpg);
    marks_are_told_by_their_first_byte(picture, png);
    marks_are_told_by_their_first_byte(picture, jpg);
    marks_are_told_by_their_first_byte(picture, gif);
    marks_are_told_by_their_first_byte(picture, gif_87);
    marks_are_told_by_their_first_byte(bmp + rest, png);
    marks_are_told_by_their_first_byte(bmp + rest, jpg);
    marks_are_told_by_their_first_byte(bmp + rest, gif);
    marks_are_told_by_their_first_byte(bmp + rest, gif_87);
    marks_are_told_by_their_first_byte(bmp + rest, riff);
}

proof fn marks_are_told_by_their_first_byte(bytes: Seq<u8>, mark: Seq<u8>)
    requires
        bytes.len() > 0,
        mark.len() > 0,
        bytes[0] != mark[0],
    ensures
        !marked(bytes, mark),
{
    if marked(bytes, mark) {
        assert(bytes.take(mark.len() as int)[0] == bytes[0]);
    }
}

/// A picture that was decoded has the size that its format gives it, and one byte for each
/// pixel; without a format there is none.
pub proof fn decoded_pictures_have_their_size(
    picture: GrayPixels,
    format: Option<Seq<char>>,
    bytes: Seq<u8>,
)
    requires
        decoded_by(Ok(picture), format, bytes),
    ensures
        format is Some,
        picture.pixels@.len() == picture.width * picture.height,
        picture_size(format->0, bytes) == (picture.width, picture.height),
{
}

} // verus!
