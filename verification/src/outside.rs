//! What the library takes from other crates.
//!
//! Each function here makes one call into another crate, or into a part of the
//! standard library that has no specification of its own. What its contract
//! says of the call is not proved; the rest of the library rests on it.
use base64::Engine;
use chrono::{TimeZone, Timelike};
use sha2::Digest;
use vstd::prelude::*;
use vstd::string::*;
use vstd::utf8::*;

use crate::text::opt_view;

verus! {

// ---- hashes -------------------------------------------------------------

/// The SHA-256 digest of some bytes.
pub uninterp spec fn sha256_of(bytes: Seq<u8>) -> Seq<u8>;

/// The SHA-512/256 digest of some bytes.
pub uninterp spec fn sha512_256_of(bytes: Seq<u8>) -> Seq<u8>;

/// The MD5 digest of some bytes.
pub uninterp spec fn md5_of(bytes: Seq<u8>) -> Seq<u8>;

/// `sha2::Sha256::digest`: the result is the SHA-256 digest of the bytes and
/// is 32 bytes long.
#[verifier::external_body]
pub(crate) fn sha256(bytes: &[u8]) -> (r: Vec<u8>)
    ensures
        r@ == sha256_of(bytes@),
        r@.len() == 32,
{
    sha2::Sha256::digest(bytes).to_vec()
}

/// `sha2::Sha512_256::digest`: the result is the SHA-512/256 digest of the
/// bytes and is 32 bytes long.
#[verifier::external_body]
pub(crate) fn sha512_256(bytes: &[u8]) -> (r: Vec<u8>)
    ensures
        r@ == sha512_256_of(bytes@),
        r@.len() == 32,
{
    sha2::Sha512_256::digest(bytes).to_vec()
}

/// `md5::Md5::digest`: the result is the MD5 digest of the bytes and is
/// 16 bytes long.
#[verifier::external_body]
pub(crate) fn md5(bytes: &[u8]) -> (r: Vec<u8>)
    ensures
        r@ == md5_of(bytes@),
        r@.len() == 16,
{
    md5::Md5::digest(bytes).to_vec()
}

// ---- Base64 -------------------------------------------------------------

/// The character of the standard Base64 alphabet for the value `n`.
pub open spec fn base64_char(n: int) -> char {
    if n < 26 {
        ('A' as int + n) as char
    } else if n < 52 {
        ('a' as int + n - 26) as char
    } else if n < 62 {
        ('0' as int + n - 52) as char
    } else if n == 62 {
        '+'
    } else {
        '/'
    }
}

/// The bytes in the standard Base64 alphabet, with padding.
pub open spec fn base64_text(b: Seq<u8>) -> Seq<char>
    decreases b.len(),
{
    if b.len() == 0 {
        Seq::empty()
    } else if b.len() == 1 {
        seq![base64_char((b[0] / 4) as int), base64_char(b[0] % 4 * 16), '=', '=']
    } else if b.len() == 2 {
        seq![
            base64_char((b[0] / 4) as int),
            base64_char(b[0] % 4 * 16 + b[1] / 16),
            base64_char(b[1] % 16 * 4),
            '=',
        ]
    } else {
        seq![
            base64_char((b[0] / 4) as int),
            base64_char(b[0] % 4 * 16 + b[1] / 16),
            base64_char(b[1] % 16 * 4 + b[2] / 64),
            base64_char((b[2] % 64) as int),
        ] + base64_text(b.skip(3))
    }
}

/// The longest input that one call encodes.
pub const BASE64_BLOCK: usize = 3072;

/// `Engine::encode` of `base64`'s `STANDARD` engine: the result is the text of
/// the bytes in the standard alphabet, padded. The call panics where the text
/// would be longer than a string can be, so the input is kept short.
#[verifier::external_body]
pub(crate) fn encode_base64(bytes: &[u8]) -> (r: String)
    requires
        bytes@.len() <= BASE64_BLOCK,
    ensures
        r@ == base64_text(bytes@),
{
    base64::engine::general_purpose::STANDARD.encode(bytes)
}

// ---- URLs ---------------------------------------------------------------

/// What the `url` crate makes of a text: the path and the query of the URL,
/// both percent-encoded, or what it says of a text that is no URL.
pub uninterp spec fn url_parts(s: Seq<char>) -> Result<
    (Seq<char>, Option<Seq<char>>),
    Seq<char>,
>;

/// The views of the parts of a URL.
pub open spec fn parts_view(r: Result<(String, Option<String>), String>) -> Result<
    (Seq<char>, Option<Seq<char>>),
    Seq<char>,
> {
    match r {
        Ok((path, query)) => Ok((path@, opt_view(query))),
        Err(e) => Err(e@),
    }
}

/// `reqwest::Url::parse`, then `Url::path` and `Url::query` of the URL, or
/// the text of the error: the result depends on the text alone.
#[verifier::external_body]
pub(crate) fn parse_url(s: &str) -> (r: Result<(String, Option<String>), String>)
    ensures
        parts_view(r) == url_parts(s@),
{
    match reqwest::Url::parse(s) {
        Ok(u) => Ok((u.path().to_string(), u.query().map(String::from))),
        Err(e) => Err(e.to_string()),
    }
}

// ---- HTTP status codes --------------------------------------------------

/// The standard reason phrase of a status code, where there is one.
pub uninterp spec fn reason_of(status: u16) -> Option<Seq<char>>;

/// `reqwest::StatusCode::canonical_reason` of the given code: the phrase
/// depends on the code alone. A number that is no status code has none.
#[verifier::external_body]
pub(crate) fn canonical_reason(status: u16) -> (r: Option<String>)
    ensures
        opt_view(r) == reason_of(status),
{
    let code = reqwest::StatusCode::from_u16(status).ok()?;
    code.canonical_reason().map(String::from)
}

// ---- pictures -----------------------------------------------------------

/// What the `image` crate makes of the bytes of a picture: the width, the
/// height, and the red, green, blue and alpha of each pixel, row by row, or
/// nothing where it cannot decode them.
pub uninterp spec fn picture_of(bytes: Seq<u8>) -> Option<(u32, u32, Seq<u8>)>;

/// The view of a decoded picture.
pub open spec fn picture_view(r: Option<(u32, u32, Vec<u8>)>) -> Option<(u32, u32, Seq<u8>)> {
    match r {
        Some((width, height, pixels)) => Some((width, height, pixels@)),
        None => None,
    }
}

/// `image::load_from_memory`, then `DynamicImage::to_rgba8`, and
/// `ImageBuffer::dimensions` and `ImageBuffer::into_raw` of the result: the
/// picture depends on the bytes alone, and there are four bytes for each of its
/// pixels.
#[verifier::external_body]
pub(crate) fn decode_picture(bytes: &[u8]) -> (r: Option<(u32, u32, Vec<u8>)>)
    ensures
        picture_view(r) == picture_of(bytes@),
        r matches Some((width, height, pixels)) ==> pixels@.len() == 4 * width * height,
{
    let picture = image::load_from_memory(bytes).ok()?.to_rgba8();
    let (width, height) = picture.dimensions();
    Some((width, height, picture.into_raw()))
}

// ---- time of day --------------------------------------------------------

/// The first second, of those since 1970, that `chrono` can represent.
pub const FIRST_SECOND: i64 = -8334601228800;

/// The last second, of those since 1970, that `chrono` can represent.
pub const LAST_SECOND: i64 = 8210266876799;

/// `FixedOffset::east_opt`, then `TimeZone::timestamp_opt`, `Timelike::hour`
/// and `Timelike::minute` of `chrono`: the hour and the minute that a clock
/// shows `offset` seconds ahead of UTC, or nothing where the second lies
/// outside the years that `chrono` can represent.
#[verifier::external_body]
pub(crate) fn clock(unix: i64, offset: i32) -> (r: Option<(u32, u32)>)
    requires
        -86400 < offset < 86400,
    ensures
        r is Some <==> FIRST_SECOND <= unix <= LAST_SECOND,
        r matches Some((hour, minute)) ==> hour == (unix + offset) % 86400 / 3600 && minute == (unix
            + offset) % 3600 / 60,
{
    let zone = chrono::FixedOffset::east_opt(offset)?;
    let time = zone.timestamp_opt(unix, 0).single()?;
    Some((time.hour(), time.minute()))
}

// ---- text ---------------------------------------------------------------

/// A text in lower case, by Unicode's rules.
pub uninterp spec fn lowercase_of(s: Seq<char>) -> Seq<char>;

/// `str::to_lowercase`: the result depends on the text alone. It leaves the
/// empty text empty.
pub assume_specification[ str::to_lowercase ](s: &str) -> (r: String)
    ensures
        r@ == lowercase_of(s@),
        s@.len() == 0 ==> r@.len() == 0,
;

/// Some bytes as text, each part that is not UTF-8 replaced.
pub uninterp spec fn lossy_text(bytes: Seq<u8>) -> Seq<char>;

/// `String::from_utf8_lossy`: the result depends on the bytes alone. Bytes
/// that are UTF-8 give the text that they encode.
#[verifier::external_body]
pub(crate) fn text_lossy(bytes: &[u8]) -> (r: String)
    ensures
        r@ == lossy_text(bytes@),
        valid_utf8(bytes@) ==> r@ == decode_utf8(bytes@),
{
    String::from_utf8_lossy(bytes).into_owned()
}

} // verus!
