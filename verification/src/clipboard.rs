//! The clipboard watcher's decisions: when a clipboard content is new, what to
//! search for it, and how an image is told apart from the last one seen.

use vstd::prelude::*;

use md5::Digest;

use crate::text::{join_spec, join_strings, push_char, views_of};

verus! {

/// The MD5 digest of `data`, as computed by the `md-5` crate.
pub uninterp spec fn md5_digest_of(data: Seq<u8>) -> Seq<u8>;

/// Calls `<md5::Md5 as Digest>::digest`. The contract claims that the digest
/// is a function of the data, named `md5_digest_of`, and that it is 16 bytes
/// long (the crate's output size is `U16`).
#[verifier::external_body]
fn md5_digest(data: &[u8]) -> (digest: Vec<u8>)
    ensures
        digest@ == md5_digest_of(data@),
        digest@.len() == 16,
{
    md5::Md5::digest(data).to_vec()
}

/// The lowercase hexadecimal digit of `n`, for `n < 16`.
pub open spec fn hex_digit(n: u8) -> char {
    if n < 10 {
        (48 + n) as char
    } else {
        (87 + n) as char
    }
}

/// Each byte of `bytes` as two lowercase hexadecimal digits, high half first.
pub open spec fn lower_hex(bytes: Seq<u8>) -> Seq<char>
    decreases bytes.len(),
{
    if bytes.len() == 0 {
        seq![]
    } else {
        lower_hex(bytes.drop_last()) + seq![
            hex_digit(bytes.last() / 16),
            hex_digit(bytes.last() % 16),
        ]
    }
}

fn hex_digit_of(n: u8) -> (c: char)
    requires
        n < 16,
    ensures
        c == hex_digit(n),
{
    if n < 10 {
        (48 + n) as char
    } else {
        (87 + n) as char
    }
}

/// `bytes` in lowercase hexadecimal.
pub fn to_lower_hex(bytes: &[u8]) -> (hex: String)
    ensures
        hex@ == lower_hex(bytes@),
{
    let mut hex = String::new();
    let n = bytes.len();
    for i in 0..n
        invariant
            n == bytes@.len(),
            hex@ == lower_hex(bytes@.take(i as int)),
    {
        let b = bytes[i];
        assert(bytes@.take(i + 1).drop_last() =~= bytes@.take(i as int));
        push_char(&mut hex, hex_digit_of(b / 16));
        push_char(&mut hex, hex_digit_of(b % 16));
    }
    assert(bytes@.take(n as int) =~= bytes@);
    hex
}

/// Each byte gives two digits.
pub proof fn lemma_lower_hex_len(bytes: Seq<u8>)
    ensures
        lower_hex(bytes).len() == 2 * bytes.len(),
    decreases bytes.len(),
{
    if bytes.len() > 0 {
        lemma_lower_hex_len(bytes.drop_last());
    }
}

/// The number a lowercase hexadecimal digit stands for.
pub open spec fn hex_digit_value(c: char) -> int {
    if '0' <= c && c <= '9' {
        c as int - '0' as int
    } else {
        c as int - 'a' as int + 10
    }
}

/// Whether `c` is a lowercase hexadecimal digit.
pub open spec fn is_lower_hex_digit(c: char) -> bool {
    ('0' <= c && c <= '9') || ('a' <= c && c <= 'f')
}

/// The hexadecimal text of bytes is two lowercase digits per byte, the high
/// half first: reading the digits back gives every byte.
pub proof fn lemma_lower_hex_reads_back(bytes: Seq<u8>)
    ensures
        lower_hex(bytes).len() == 2 * bytes.len(),
        forall|i: int|
            0 <= i < bytes.len() ==> {
                &&& is_lower_hex_digit(#[trigger] lower_hex(bytes)[2 * i])
                &&& is_lower_hex_digit(lower_hex(bytes)[2 * i + 1])
                &&& hex_digit_value(lower_hex(bytes)[2 * i]) * 16 + hex_digit_value(
                    lower_hex(bytes)[2 * i + 1],
                ) == bytes[i]
            },
    decreases bytes.len(),
{
    if bytes.len() > 0 {
        let init = bytes.drop_last();
        lemma_lower_hex_reads_back(init);
        let b = bytes.last();
        let h = lower_hex(bytes);
        assert(h == lower_hex(init) + seq![hex_digit(b / 16), hex_digit(b % 16)]);
        assert forall|i: int|
            0 <= i < bytes.len() implies {
                &&& is_lower_hex_digit(#[trigger] h[2 * i])
                &&& is_lower_hex_digit(h[2 * i + 1])
                &&& hex_digit_value(h[2 * i]) * 16 + hex_digit_value(h[2 * i + 1]) == bytes[i]
            } by {
            if i < init.len() {
                assert(h[2 * i] == lower_hex(init)[2 * i]);
                assert(h[2 * i + 1] == lower_hex(init)[2 * i + 1]);
                assert(init[i] == bytes[i]);
            } else {
                assert(h[2 * i] == hex_digit(b / 16));
                assert(h[2 * i + 1] == hex_digit(b % 16));
                assert(bytes[i] == b);
                assert(b == (b / 16) * 16 + b % 16);
            }
        }
        assert forall|i: int|
            0 <= i < bytes.len() implies {
                &&& is_lower_hex_digit(#[trigger] lower_hex(bytes)[2 * i])
                &&& is_lower_hex_digit(lower_hex(bytes)[2 * i + 1])
                &&& hex_digit_value(lower_hex(bytes)[2 * i]) * 16 + hex_digit_value(
                    lower_hex(bytes)[2 * i + 1],
                ) == bytes[i]
            } by {
            assert(is_lower_hex_digit(h[2 * i]));
        }
    }
}

/// The signature of an image: the MD5 digest of its pixels in lowercase hex.
pub open spec fn image_signature_spec(bytes: Seq<u8>) -> Seq<char> {
    lower_hex(md5_digest_of(bytes))
}

/// The signature of an image's pixel bytes: their MD5 digest, 32 lowercase
/// hexadecimal digits.
pub fn image_signature(bytes: &[u8]) -> (signature: String)
    ensures
        signature@ == image_signature_spec(bytes@),
        signature@.len() == 32,
{
    let digest = md5_digest(bytes);
    proof {
        lemma_lower_hex_len(digest@);
    }
    to_lower_hex(digest.as_slice())
}

/// What the clipboard held when it was read.
#[derive(Debug, Clone)]
pub enum ClipboardContent {
    /// Text.
    Text(String),
    /// An image: its width and height in pixels and its RGBA pixel bytes.
    Image { width: usize, height: usize, pixels: Vec<u8> },
    /// Neither text nor an image could be read.
    Unavailable,
}

/// What the watcher does about a clipboard content.
#[derive(Debug)]
pub enum ClipboardStep {
    /// Nothing: the content was seen already, is empty, or could not be read.
    Ignore,
    /// Search for this text.
    Search(String),
    /// Recognise the text in the image, then search for it.
    Recognize,
}

/// The signature by which a content is told apart from the one seen before:
/// text by itself, an image by its digest, nothing by the empty text.
pub open spec fn signature_spec(content: ClipboardContent) -> Seq<char> {
    match content {
        ClipboardContent::Text(t) => t@,
        ClipboardContent::Image { pixels, .. } => image_signature_spec(pixels@),
        ClipboardContent::Unavailable => Seq::empty(),
    }
}

/// The signature remembered after observing `content` when `last` was.
pub open spec fn next_signature(last: Seq<char>, content: ClipboardContent) -> Seq<char> {
    match content {
        ClipboardContent::Unavailable => last,
        _ => signature_spec(content),
    }
}

/// What is done about `content` when `last` is the signature seen before.
pub open spec fn next_step(last: Seq<char>, content: ClipboardContent) -> ClipboardStep {
    match content {
        ClipboardContent::Text(t) => if t@ == last || t@.len() == 0 {
            ClipboardStep::Ignore
        } else {
            ClipboardStep::Search(t)
        },
        ClipboardContent::Image { pixels, .. } => if image_signature_spec(pixels@) == last {
            ClipboardStep::Ignore
        } else {
            ClipboardStep::Recognize
        },
        ClipboardContent::Unavailable => ClipboardStep::Ignore,
    }
}

/// The signature of a clipboard content; the watcher starts from the signature
/// of what the clipboard holds when it starts.
pub fn clipboard_signature(content: &ClipboardContent) -> (signature: String)
    ensures
        signature@ == signature_spec(*content),
{
    match content {
        ClipboardContent::Text(t) => t.clone(),
        ClipboardContent::Image { pixels, .. } => image_signature(pixels.as_slice()),
        ClipboardContent::Unavailable => String::new(),
    }
}

/// Compares `content` with the signature seen last, remembers the new one,
/// and says what to do: search new non-empty text, recognise a new image,
/// and ignore anything else.
pub fn observe_clipboard(last_signature: &mut String, content: &ClipboardContent) -> (step:
    ClipboardStep)
    ensures
        final(last_signature)@ == next_signature(old(last_signature)@, *content),
        step == next_step(old(last_signature)@, *content),
{
    match content {
        ClipboardContent::Text(t) => {
            if *t == *last_signature {
                return ClipboardStep::Ignore;
            }
            *last_signature = t.clone();
            if t.as_str().is_empty() {
                ClipboardStep::Ignore
            } else {
                ClipboardStep::Search(t.clone())
            }
        },
        ClipboardContent::Image { pixels, .. } => {
            let signature = image_signature(pixels.as_slice());
            if signature == *last_signature {
                return ClipboardStep::Ignore;
            }
            *last_signature = signature;
            ClipboardStep::Recognize
        },
        ClipboardContent::Unavailable => ClipboardStep::Ignore,
    }
}

/// The search text of recognised text fragments: the fragments joined by
/// single spaces, or nothing when that is empty.
pub fn recognized_text(fragments: &Vec<String>) -> (text: Option<String>)
    ensures
        ({
            let joined = join_spec(views_of(fragments@), seq![' ']);
            match text {
                Some(t) => joined.len() > 0 && t@ == joined,
                None => joined.len() == 0,
            }
        }),
{
    let joined = join_strings(fragments, " ");
    proof {
        reveal_strlit(" ");
    }
    assert(" "@ =~= seq![' ']);
    if joined.as_str().is_empty() {
        None
    } else {
        Some(joined)
    }
}

/// The pixels of an RGBA image, as an `image::RgbaImage` (an
/// `image::ImageBuffer` of `Rgba<u8>` pixels over a `Vec<u8>`), held opaquely:
/// the buffer type's pixel parameter is bound by the outside trait
/// `image::Pixel`.
#[verifier::external_body]
pub struct RgbaBuffer {
    pub rgba: image::RgbaImage,
}

/// An RGBA image ready for text recognition: its buffer, its width and height
/// in pixels, and the bytes it was built from, four per pixel, row by row.
pub struct RecognitionImage {
    pub buffer: RgbaBuffer,
    pub width: u32,
    pub height: u32,
    pub pixels: Ghost<Seq<u8>>,
}

/// Calls `ImageBuffer::<Rgba<u8>, Vec<u8>>::from_raw`. Its documentation says
/// that it returns `None` exactly when the container is not big enough for
/// `width * height` pixels of four bytes each; its source stores the width,
/// the height and the container unchanged in the image.
#[verifier::external_body]
fn rgba_image_from_raw(width: u32, height: u32, pixels: Vec<u8>) -> (image: Option<
    RecognitionImage,
>)
    ensures
        image is Some <==> 4 * width * height <= pixels@.len(),
        image matches Some(i) ==> i.width == width && i.height == height && i.pixels@
            == pixels@,
{
    let bytes = Ghost(pixels@);
    match image::RgbaImage::from_raw(width, height, pixels) {
        Some(rgba) => Some(RecognitionImage { buffer: RgbaBuffer { rgba }, width, height, pixels: bytes }),
        None => None,
    }
}

/// Whether a clipboard content is an image whose pixel bytes fill its size,
/// taken as 32-bit width and height, at four bytes per pixel.
pub open spec fn is_decodable_image(content: ClipboardContent) -> bool {
    content matches ClipboardContent::Image { width, height, pixels } && 4 * (width as u32) * (
    height as u32) <= pixels@.len()
}

/// Whether `image` is what `ImageBuffer::from_raw` gives for the content's own
/// width and height (as 32-bit numbers) and its own pixel bytes, handed over
/// unchanged.
pub closed spec fn decoded_from(content: ClipboardContent, image: Option<RecognitionImage>) -> bool {
    content matches ClipboardContent::Image { width, height, pixels } && call_ensures(
        rgba_image_from_raw,
        (width as u32, height as u32, pixels),
        image,
    )
}

/// An image decoded from a clipboard image is built from exactly that image's
/// size and pixel bytes: it exists exactly when the bytes fill the size, and
/// then it has the content's width, height and bytes.
pub proof fn lemma_decoded_image_is_the_content(content: ClipboardContent, image: Option<
    RecognitionImage,
>)
    requires
        decoded_from(content, image),
    ensures
        content matches ClipboardContent::Image { width, height, pixels } && {
            &&& image is Some <==> 4 * (width as u32) * (height as u32) <= pixels@.len()
            &&& image matches Some(i) ==> i.width == width as u32 && i.height == height as u32
                && i.pixels@ == pixels@
        },
{
}

/// The image to recognise for a clipboard content: an RGBA image of the
/// content's size (as 32-bit numbers) when its pixel bytes fill that size, and
/// nothing for a smaller buffer or a content that is not an image.
pub fn clipboard_image(content: ClipboardContent) -> (image: Option<RecognitionImage>)
    ensures
        content is Image ==> decoded_from(content, image),
        image is Some <==> is_decodable_image(content),
        image matches Some(i) ==> (content matches ClipboardContent::Image { width, height, pixels }
            && i.width == width as u32 && i.height == height as u32 && i.pixels@ == pixels@),
{
    match content {
        ClipboardContent::Image { width, height, pixels } => {
            rgba_image_from_raw(width as u32, height as u32, pixels)
        },
        _ => None,
    }
}

/// What observing each kind of content does: new non-empty text is searched
/// as it is, and any text is remembered; a new image is recognised and
/// remembered by the lowercase hex of its pixels' MD5 digest; a repeat is
/// ignored; an unreadable clipboard is ignored and forgotten about.
pub proof fn lemma_observation_outcomes(last: Seq<char>, content: ClipboardContent)
    ensures
        content matches ClipboardContent::Text(t) ==> {
            &&& next_signature(last, content) == t@
            &&& (t@ != last && t@.len() > 0) ==> next_step(last, content) == ClipboardStep::Search(
                t,
            )
            &&& (t@ == last || t@.len() == 0) ==> next_step(last, content) is Ignore
        },
        content matches ClipboardContent::Image { pixels, .. } ==> {
            &&& next_signature(last, content) == lower_hex(md5_digest_of(pixels@))
            &&& lower_hex(md5_digest_of(pixels@)) != last ==> next_step(last, content) is Recognize
            &&& lower_hex(md5_digest_of(pixels@)) == last ==> next_step(last, content) is Ignore
        },
        content is Unavailable ==> next_signature(last, content) == last && next_step(
            last,
            content,
        ) is Ignore,
{
}

/// Observing a content a second time does nothing and changes nothing: each
/// clipboard content is searched at most once until it changes.
pub proof fn lemma_repeat_observation_ignored(last: Seq<char>, content: ClipboardContent)
    ensures
        next_step(next_signature(last, content), content) == ClipboardStep::Ignore,
        next_signature(next_signature(last, content), content) == next_signature(last, content),
{
}

/// What the clipboard holds when the watcher starts is never searched.
pub proof fn lemma_initial_content_ignored(content: ClipboardContent)
    ensures
        next_step(signature_spec(content), content) == ClipboardStep::Ignore,
        next_signature(signature_spec(content), content) == signature_spec(content),
{
}

/// `std::path::PathBuf`, a file system path.
#[verifier::external_type_specification]
#[verifier::external_body]
pub struct ExPathBuf(std::path::PathBuf);

/// `PathBuf::clone`: the copy is the same path.
pub assume_specification[ <std::path::PathBuf as Clone>::clone ](path: &std::path::PathBuf) -> (copy: std::path::PathBuf)
    ensures
        copy == *path,
;

/// Where the OCR engine's model files are.
#[derive(Clone)]
pub struct OcrModelPaths {
    pub detection: std::path::PathBuf,
    pub recognition: std::path::PathBuf,
    pub charset: std::path::PathBuf,
}

} // verus!
