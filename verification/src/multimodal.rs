//! The request that asks a vision model to describe an image: the image's
//! media type, guessed from its file name, and its bytes as a data URL.
use vstd::prelude::*;
use base64::Engine;
use crate::text::{chars_of, ends_with_chars, is_suffix};
use crate::types::{ContentPart, ImageUrl, Message};

verus! {

broadcast use vstd::string::group_string_axioms;

/// The media type of an image file, by its extension; JPEG when unknown.
pub open spec fn mime_type_of(path: Seq<char>) -> Seq<char> {
    if is_suffix(".png"@, path) {
        "image/png"@
    } else if is_suffix(".jpg"@, path) || is_suffix(".jpeg"@, path) {
        "image/jpeg"@
    } else if is_suffix(".webp"@, path) {
        "image/webp"@
    } else {
        "image/jpeg"@
    }
}

/// The media type follows the file's extension: `.png` is PNG, `.jpg` and
/// `.jpeg` are JPEG, `.webp` is WebP, and any other name is taken for JPEG.
pub proof fn media_types_follow_extensions(path: Seq<char>)
    ensures
        is_suffix(".png"@, path) ==> mime_type_of(path) == "image/png"@,
        is_suffix(".jpg"@, path) || is_suffix(".jpeg"@, path) ==> mime_type_of(path) == "image/jpeg"@,
        is_suffix(".webp"@, path) ==> mime_type_of(path) == "image/webp"@,
        !is_suffix(".png"@, path) && !is_suffix(".webp"@, path) ==> mime_type_of(path) == "image/jpeg"@,
{
    reveal_strlit(".png");
    reveal_strlit(".jpg");
    reveal_strlit(".jpeg");
    reveal_strlit(".webp");
    let n = path.len() as int;
    if is_suffix(".png"@, path) {
        assert(path[n - 3] == path.subrange(n - 4, n)[1]);
        assert(path[n - 4] == path.subrange(n - 4, n)[0]);
        assert(path[n - 3] == 'p' && path[n - 4] == '.');
        if is_suffix(".jpg"@, path) {
            assert(path[n - 3] == path.subrange(n - 4, n)[1]);
        }
        if is_suffix(".jpeg"@, path) {
            assert(path[n - 4] == path.subrange(n - 5, n)[1]);
        }
        if is_suffix(".webp"@, path) {
            assert(path[n - 3] == path.subrange(n - 5, n)[2]);
        }
    }
    if is_suffix(".webp"@, path) {
        assert(path[n - 4] == path.subrange(n - 5, n)[1]);
        assert(path[n - 4] == 'w');
        if is_suffix(".jpg"@, path) {
            assert(path[n - 4] == path.subrange(n - 4, n)[0]);
        }
        if is_suffix(".jpeg"@, path) {
            assert(path[n - 4] == path.subrange(n - 5, n)[1]);
        }
    }
}

/// Whether `s` ends with `suffix`.
fn ends_with(s: &str, suffix: &str) -> (b: bool)
    ensures
        b == is_suffix(suffix@, s@),
{
    let v = chars_of(s);
    let p = chars_of(suffix);
    ends_with_chars(v.as_slice(), p.as_slice())
}

/// The media type of the image at `path`.
pub fn guess_mime_type(path: &str) -> (m: &'static str)
    ensures
        m@ == mime_type_of(path@),
{
    if ends_with(path, ".png") {
        "image/png"
    } else if ends_with(path, ".jpg") || ends_with(path, ".jpeg") {
        "image/jpeg"
    } else if ends_with(path, ".webp") {
        "image/webp"
    } else {
        "image/jpeg"
    }
}

/// The character of a six-bit value in the standard base64 alphabet:
/// `A`-`Z`, `a`-`z`, `0`-`9`, `+`, `/`.
pub open spec fn base64_digit(v: int) -> char {
    if v < 26 {
        (('A' as u32) + v) as char
    } else if v < 52 {
        (('a' as u32) + (v - 26)) as char
    } else if v < 62 {
        (('0' as u32) + (v - 52)) as char
    } else if v == 62 {
        '+'
    } else {
        '/'
    }
}

/// The standard, padded base64 encoding of some bytes: each group of three
/// bytes gives four characters of six bits each, high bits first; a last
/// group of one or two bytes is filled with zero bits and padded with `=`
/// to four characters.
pub open spec fn base64_standard(bytes: Seq<u8>) -> Seq<char>
    decreases bytes.len(),
{
    if bytes.len() == 0 {
        Seq::empty()
    } else if bytes.len() == 1 {
        let b0 = bytes[0] as int;
        seq![base64_digit(b0 / 4), base64_digit((b0 % 4) * 16), '=', '=']
    } else if bytes.len() == 2 {
        let (b0, b1) = (bytes[0] as int, bytes[1] as int);
        seq![base64_digit(b0 / 4), base64_digit((b0 % 4) * 16 + b1 / 16), base64_digit((b1 % 16) * 4), '=']
    } else {
        let (b0, b1, b2) = (bytes[0] as int, bytes[1] as int, bytes[2] as int);
        seq![
            base64_digit(b0 / 4),
            base64_digit((b0 % 4) * 16 + b1 / 16),
            base64_digit((b1 % 16) * 4 + b2 / 64),
            base64_digit(b2 % 64),
        ] + base64_standard(bytes.skip(3))
    }
}

/// Calls `STANDARD.encode` of the `base64` crate
/// (`base64::engine::general_purpose::STANDARD`): the padded standard
/// encoding, four characters for every three bytes or part of them. The
/// crate panics when that length does not fit in `usize`, which `requires`
/// rules out.
#[verifier::external_body]
fn encode_base64(bytes: &[u8]) -> (s: String)
    requires
        (bytes@.len() + 2) / 3 * 4 <= usize::MAX,
    ensures
        s@ == base64_standard(bytes@),
        s@.len() == (bytes@.len() + 2) / 3 * 4,
{
    base64::engine::general_purpose::STANDARD.encode(bytes)
}

/// The prompt that asks for a description.
pub open spec fn describe_prompt() -> Seq<char> {
    "Please describe this image in detail."@
}

/// The data URL of an image: its media type and its base64 bytes.
pub open spec fn data_url_of(path: Seq<char>, data: Seq<u8>) -> Seq<char> {
    "data:"@ + mime_type_of(path) + ";base64,"@ + base64_standard(data)
}

/// The user message asking a vision model to describe the image with bytes
/// `image_data` read from `path`.
pub fn describe_request(image_data: &[u8], path: &str) -> (m: Message)
    requires
        (image_data@.len() + 2) / 3 * 4 <= usize::MAX,
    ensures
        m.role@ == "user"@,
        m.tool_calls is None,
        m.tool_call_id is None,
        m.content matches Some(parts) && parts@.len() == 2 && (parts@[0] matches ContentPart::Text { text }
            && text@ == describe_prompt()) && (parts@[1] matches ContentPart::ImageUrl { image_url }
            && image_url.url@ == data_url_of(path@, image_data@)),
{
    let encoded = encode_base64(image_data);
    let mut url = "data:".to_owned();
    url.append(guess_mime_type(path));
    url.append(";base64,");
    url.append(encoded.as_str());
    let parts = vec![
        ContentPart::Text { text: "Please describe this image in detail.".to_owned() },
        ContentPart::ImageUrl { image_url: ImageUrl { url } },
    ];
    Message { role: "user".to_owned(), content: Some(parts), tool_calls: None, tool_call_id: None }
}

} // verus!
