//! HTTP authentication for TVHeadend requests.
//!
//! Two schemes are supported:
//!   - Digest with MD5 (the default), SHA-256 and SHA-512-256: TVHeadend from
//!     version 4.3 on can ask for any of these by the `algorithm` parameter.
//!   - Basic, where the server asks for it.
//!
//! TVHeadend wants the `algorithm` value quoted in the response header, even
//! though RFC 7616 says that it should not be. That is followed here.
use vstd::prelude::*;
use vstd::slice::slice_subrange;
use vstd::string::*;
use vstd::utf8::*;

use crate::numbers::{decimal, decimal_string, digits, hex, hex_of, lemma_hex_len, push_digits};
use crate::outside::{
    base64_text, encode_base64, md5, md5_of, sha256, sha256_of, sha512_256, sha512_256_of,
    BASE64_BLOCK,
};
use crate::text::{
    char_position, chars_of, index_of, is_white_space, lemma_index_from, lemma_trim_stays, lower,
    opt_str_view, opt_view, owned, same_ignoring_case, slice_views, string_of, to_lower, trim,
    trimmed, white_space,
};
use crate::text_map::{lemma_texts_insert, texts, TextMap};

verus! {

/// A parsed `WWW-Authenticate` challenge header, for example
/// `Digest realm="tvheadend", qop="auth", nonce="...", algorithm=SHA-256`.
#[derive(Debug)]
pub struct Challenge {
    pub scheme: String,
    params: TextMap<String>,
}

/// The text of a challenge: its scheme, and the value of each parameter under
/// the parameter's name in lower case.
#[verifier::ext_equal]
pub struct ChallengeView {
    pub scheme: Seq<char>,
    pub params: Map<Seq<char>, Seq<char>>,
}

impl View for Challenge {
    type V = ChallengeView;

    closed spec fn view(&self) -> ChallengeView {
        ChallengeView { scheme: self.scheme@, params: texts(self.params@) }
    }
}

// ---- the header ---------------------------------------------------------

/// The first white space from `from` on, or the end.
pub open spec fn word_end(s: Seq<char>, from: int) -> int
    decreases s.len() - from,
{
    if from >= s.len() || is_white_space(s[from]) {
        from
    } else {
        word_end(s, from + 1)
    }
}

/// Whether the character at `i` stands between quotes.
pub open spec fn in_quotes(s: Seq<char>, i: int) -> bool
    decreases i,
{
    i > 0 && (s[i - 1] == '"') != in_quotes(s, i - 1)
}

/// The first comma outside quotes from `from` on, or the end.
pub open spec fn field_end(s: Seq<char>, from: int) -> int
    decreases s.len() - from,
{
    if from >= s.len() || (s[from] == ',' && !in_quotes(s, from)) {
        from
    } else {
        field_end(s, from + 1)
    }
}

/// A field reaches from `from` to a place in the text or to its end.
pub proof fn lemma_field_end(s: Seq<char>, from: int)
    requires
        from <= s.len(),
    ensures
        from <= field_end(s, from) <= s.len(),
    decreases s.len() - from,
{
    if from < s.len() && !(s[from] == ',' && !in_quotes(s, from)) {
        lemma_field_end(s, from + 1);
    }
}

/// The fields from `from` on, parted by the commas outside quotes. A last
/// field that holds only white space is none.
pub open spec fn fields(s: Seq<char>, from: int) -> Seq<Seq<char>>
    decreases s.len() - from,
{
    let to = field_end(s, from);
    if from < 0 || to >= s.len() {
        let last = s.subrange(from, s.len() as int);
        if trim(last).len() == 0 {
            Seq::empty()
        } else {
            seq![last]
        }
    } else {
        proof {
            lemma_field_end(s, from);
        }
        seq![s.subrange(from, to)] + fields(s, to + 1)
    }
}

/// Without the quotes at the start.
pub open spec fn unquote_start(s: Seq<char>) -> Seq<char>
    decreases s.len(),
{
    if s.len() > 0 && s[0] == '"' {
        unquote_start(s.subrange(1, s.len() as int))
    } else {
        s
    }
}

/// Without the quotes at the end.
pub open spec fn unquote_end(s: Seq<char>) -> Seq<char>
    decreases s.len(),
{
    if s.len() > 0 && s.last() == '"' {
        unquote_end(s.drop_last())
    } else {
        s
    }
}

/// Without the quotes at both ends.
pub open spec fn unquote(s: Seq<char>) -> Seq<char> {
    unquote_end(unquote_start(s))
}

/// The name, in lower case, and the value of the parameter that a field sets.
/// A field without an equals sign sets none.
pub open spec fn parameter(field: Seq<char>) -> Option<(Seq<char>, Seq<char>)> {
    let f = trim(field);
    match index_of(f, '=') {
        None => None,
        Some(i) => Some(
            (
                lower(trim(f.subrange(0, i))),
                unquote(trim(f.subrange(i + 1, f.len() as int))),
            ),
        ),
    }
}

/// The parameters that the fields set. A later field wins over an earlier one.
pub open spec fn parameters(fs: Seq<Seq<char>>) -> Map<Seq<char>, Seq<char>>
    decreases fs.len(),
{
    if fs.len() == 0 {
        Map::empty()
    } else {
        match parameter(fs.last()) {
            Some((k, v)) => parameters(fs.drop_last()).insert(k, v),
            None => parameters(fs.drop_last()),
        }
    }
}

/// What a header value says: the scheme up to the first white space, then the
/// parameters. A blank value is no challenge.
pub open spec fn challenge_of(header: Seq<char>) -> Option<ChallengeView> {
    let h = trim(header);
    if h.len() == 0 {
        None
    } else {
        let end = word_end(h, 0);
        let rest = if end < h.len() {
            trim(h.subrange(end + 1, h.len() as int))
        } else {
            Seq::empty()
        };
        Some(
            ChallengeView {
                scheme: trim(h.subrange(0, end)),
                params: parameters(fields(rest, 0)),
            },
        )
    }
}

/// The view of an optional challenge.
pub open spec fn opt_challenge(o: Option<Challenge>) -> Option<ChallengeView> {
    match o {
        Some(c) => Some(c@),
        None => None,
    }
}

impl ChallengeView {
    /// Whether the scheme is Digest.
    pub open spec fn is_digest(self) -> bool {
        lower(self.scheme) == lower("digest"@)
    }

    /// Whether the scheme is Basic.
    pub open spec fn is_basic(self) -> bool {
        lower(self.scheme) == lower("basic"@)
    }

    /// The value of a parameter.
    pub open spec fn get(self, key: Seq<char>) -> Option<Seq<char>> {
        if self.params.contains_key(key) {
            Some(self.params[key])
        } else {
            None
        }
    }
}

/// `s` without the quotes at both ends.
fn unquoted<'a>(s: &'a [char]) -> (r: &'a [char])
    ensures
        r@ == unquote(s@),
{
    let n: usize = s.len();
    let mut from: usize = 0;
    proof {
        assert(s@.subrange(0, n as int) =~= s@);
    }
    while from < n && s[from] == '"'
        invariant
            n == s@.len(),
            from <= n,
            unquote_start(s@) == unquote_start(s@.subrange(from as int, n as int)),
        decreases n - from,
    {
        proof {
            let cur = s@.subrange(from as int, n as int);
            assert(cur.subrange(1, cur.len() as int) =~= s@.subrange(from + 1, n as int));
        }
        from = from + 1;
    }
    let mut to: usize = n;
    let ghost body = s@.subrange(from as int, n as int);
    proof {
        assert(unquote_start(s@) == body);
    }
    while from < to && s[to - 1] == '"'
        invariant
            n == s@.len(),
            from <= to <= n,
            unquote_end(body) == unquote_end(s@.subrange(from as int, to as int)),
        decreases to,
    {
        proof {
            let cur = s@.subrange(from as int, to as int);
            assert(cur.drop_last() =~= s@.subrange(from as int, to - 1));
        }
        to = to - 1;
    }
    slice_subrange(s, from, to)
}

/// Parts a text at the commas outside quotes.
fn split_fields<'a>(s: &'a [char]) -> (r: Vec<&'a [char]>)
    ensures
        slice_views(r@) == fields(s@, 0),
{
    let n: usize = s.len();
    let mut out: Vec<&'a [char]> = Vec::new();
    let mut from: usize = 0;
    let mut i: usize = 0;
    let mut quoted: bool = false;
    proof {
        assert(slice_views(out@) + fields(s@, 0) =~= fields(s@, 0));
    }
    while i < n
        invariant
            n == s@.len(),
            from <= i <= n,
            quoted == in_quotes(s@, i as int),
            field_end(s@, from as int) == field_end(s@, i as int),
            slice_views(out@) + fields(s@, from as int) == fields(s@, 0),
        decreases n - i,
    {
        if s[i] == '"' {
            quoted = !quoted;
        } else if s[i] == ',' && !quoted {
            let ghost before = out@;
            let field: &'a [char] = slice_subrange(s, from, i);
            out.push(field);
            proof {
                assert(slice_views(out@) =~= slice_views(before).push(field@));
                assert(slice_views(before) + (seq![field@] + fields(s@, i + 1)) =~= slice_views(
                    before,
                ).push(field@) + fields(s@, i + 1));
            }
            from = i + 1;
        }
        i = i + 1;
    }
    let last: &'a [char] = slice_subrange(s, from, n);
    let ghost before = out@;
    if trimmed(last).len() > 0 {
        out.push(last);
        proof {
            assert(slice_views(out@) =~= slice_views(before).push(last@));
            assert(slice_views(before) + seq![last@] =~= slice_views(before).push(last@));
        }
    } else {
        proof {
            assert(slice_views(out@) + Seq::<Seq<char>>::empty() =~= slice_views(out@));
        }
    }
    out
}

/// The name and the value of the parameter that a field sets.
fn read_parameter(field: &[char]) -> (r: Option<(String, String)>)
    ensures
        r is Some <==> parameter(field@) is Some,
        r matches Some((k, v)) ==> parameter(field@) == Some((k@, v@)),
{
    let f = trimmed(field);
    let n: usize = f.len();
    match char_position(f, '=') {
        None => None,
        Some(i) => {
            let key = to_lower(trimmed(slice_subrange(f, 0, i)));
            let value = unquoted(trimmed(slice_subrange(f, i + 1, n)));
            Some((string_of(key.as_slice()), string_of(value)))
        },
    }
}

impl Challenge {
    /// Parses a `WWW-Authenticate` header value. Returns `None` where it does
    /// not look like a challenge at all.
    pub fn parse(header: &str) -> (r: Option<Self>)
        ensures
            opt_challenge(r) == challenge_of(header@),
    {
        let text = chars_of(header);
        let h = trimmed(text.as_slice());
        let n: usize = h.len();
        if n == 0 {
            return None;
        }
        let mut end: usize = 0;
        while end < n && !white_space(h[end])
            invariant
                n == h@.len(),
                end <= n,
                word_end(h@, 0) == word_end(h@, end as int),
            decreases n - end,
        {
            end = end + 1;
        }
        let scheme = string_of(trimmed(slice_subrange(h, 0, end)));
        let fs = if end < n {
            split_fields(trimmed(slice_subrange(h, end + 1, n)))
        } else {
            split_fields(slice_subrange(h, n, n))
        };
        let ghost rest = if end < n {
            trim(h@.subrange(end + 1, n as int))
        } else {
            Seq::empty()
        };
        proof {
            assert(h@.subrange(n as int, n as int) =~= Seq::<char>::empty());
            assert(slice_views(fs@) == fields(rest, 0));
        }
        let ghost v = slice_views(fs@);
        let mut params: TextMap<String> = TextMap::new();
        let m: usize = fs.len();
        let mut i: usize = 0;
        proof {
            assert(texts(params@) =~= Map::<Seq<char>, Seq<char>>::empty());
        }
        while i < m
            invariant
                m == fs@.len(),
                v == slice_views(fs@),
                i <= m,
                texts(params@) == parameters(v.take(i as int)),
            decreases m - i,
        {
            proof {
                assert(v.take(i + 1).drop_last() =~= v.take(i as int));
                assert(v.take(i + 1).last() == fs@[i as int]@);
            }
            match read_parameter(fs[i]) {
                Some((key, value)) => {
                    proof {
                        lemma_texts_insert(params@, key@, value);
                    }
                    params.insert(key.as_str(), value);
                },
                None => {},
            }
            i = i + 1;
        }
        proof {
            assert(v.take(m as int) =~= v);
        }
        Some(Challenge { scheme, params })
    }

    /// The value of a parameter, by its name in lower case.
    pub fn get(&self, key: &str) -> (r: Option<&str>)
        ensures
            opt_str_view(r) == self@.get(key@),
    {
        match self.params.get(key) {
            Some(v) => Some(v.as_str()),
            None => None,
        }
    }

    /// Whether the server asks for Digest authentication.
    pub fn is_digest(&self) -> (r: bool)
        ensures
            r == self@.is_digest(),
    {
        same_ignoring_case(self.scheme.as_str(), "digest")
    }

    /// Whether the server asks for Basic authentication.
    pub fn is_basic(&self) -> (r: bool)
        ensures
            r == self@.is_basic(),
    {
        same_ignoring_case(self.scheme.as_str(), "basic")
    }
}

// ---- answers ------------------------------------------------------------

/// The hash that a Digest answer is made with.
#[derive(Debug, Clone, Copy, PartialEq, Eq, Structural)]
pub enum Algorithm {
    Md5,
    Sha256,
    Sha512_256,
}

impl Algorithm {
    /// The name of the algorithm in headers.
    pub open spec fn label_view(self) -> Seq<char> {
        match self {
            Algorithm::Md5 => "MD5"@,
            Algorithm::Sha256 => "SHA-256"@,
            Algorithm::Sha512_256 => "SHA-512-256"@,
        }
    }

    /// The digest of a text in hexadecimal.
    pub open spec fn hash_view(self, s: Seq<char>) -> Seq<char> {
        hex_of(
            match self {
                Algorithm::Md5 => md5_of(encode_utf8(s)),
                Algorithm::Sha256 => sha256_of(encode_utf8(s)),
                Algorithm::Sha512_256 => sha512_256_of(encode_utf8(s)),
            },
        )
    }

    /// The name of the algorithm in headers.
    pub fn label(self) -> (r: &'static str)
        ensures
            r@ == self.label_view(),
    {
        match self {
            Algorithm::Md5 => "MD5",
            Algorithm::Sha256 => "SHA-256",
            Algorithm::Sha512_256 => "SHA-512-256",
        }
    }

    /// The digest of a text in hexadecimal.
    pub fn hash(self, s: &str) -> (r: String)
        ensures
            r@ == self.hash_view(s@),
            r@.len() == (if self == Algorithm::Md5 {
                32int
            } else {
                64int
            }),
    {
        let bytes = match self {
            Algorithm::Md5 => md5(s.as_bytes()),
            Algorithm::Sha256 => sha256(s.as_bytes()),
            Algorithm::Sha512_256 => sha512_256(s.as_bytes()),
        };
        proof {
            lemma_hex_len(bytes@);
        }
        hex(bytes.as_slice())
    }
}

/// The algorithm that a challenge asks for: SHA-256 or SHA-512-256 where it
/// names them, in any case, and MD5 otherwise.
pub open spec fn algorithm_of(c: ChallengeView) -> Algorithm {
    match c.get("algorithm"@) {
        Some(a) => if lower(a) == lower("SHA-256"@) {
            Algorithm::Sha256
        } else if lower(a) == lower("SHA-512-256"@) {
            Algorithm::Sha512_256
        } else {
            Algorithm::Md5
        },
        None => Algorithm::Md5,
    }
}

/// The text of a parameter, or the given one where it is missing.
pub open spec fn param_or(c: ChallengeView, key: Seq<char>, other: Seq<char>) -> Seq<char> {
    match c.get(key) {
        Some(v) => v,
        None => other,
    }
}

/// What the first digest is taken of: the user, the realm and the password.
pub open spec fn credentials_view(
    c: ChallengeView,
    user: Seq<char>,
    password: Seq<char>,
) -> Seq<char> {
    user + ":"@ + param_or(c, "realm"@, ""@) + ":"@ + password
}

/// What the second digest is taken of: the method and the path.
pub open spec fn request_view(method: Seq<char>, path: Seq<char>) -> Seq<char> {
    method + ":"@ + path
}

/// What the last digest is taken of: the first two, and what keeps the answer
/// from being used twice.
pub open spec fn response_view(
    c: ChallengeView,
    ha1: Seq<char>,
    cnonce: Seq<char>,
    ha2: Seq<char>,
) -> Seq<char> {
    ha1 + ":"@ + param_or(c, "nonce"@, ""@) + ":"@ + "00000001"@ + ":"@ + cnonce + ":"@ + param_or(
        c,
        "qop"@,
        "auth"@,
    ) + ":"@ + ha2
}

/// The answer to a Digest challenge by RFC 2617, for one request: the digest
/// over the credentials, over the request, and over both.
pub open spec fn digest_response(
    c: ChallengeView,
    user: Seq<char>,
    password: Seq<char>,
    method: Seq<char>,
    path: Seq<char>,
    cnonce: Seq<char>,
) -> Seq<char> {
    let a = algorithm_of(c);
    let ha1 = a.hash_view(credentials_view(c, user, password));
    let ha2 = a.hash_view(request_view(method, path));
    a.hash_view(response_view(c, ha1, cnonce, ha2))
}

/// The `Authorization` header that carries the answer to a Digest challenge.
pub open spec fn header_view(
    c: ChallengeView,
    user: Seq<char>,
    path: Seq<char>,
    cnonce: Seq<char>,
    response: Seq<char>,
) -> Seq<char> {
    let head = "Digest username=\""@ + user + "\", realm=\""@ + param_or(c, "realm"@, ""@)
        + "\", nonce=\""@ + param_or(c, "nonce"@, ""@) + "\", uri=\""@ + path
        + "\", algorithm=\""@ + algorithm_of(c).label_view() + "\", cnonce=\""@ + cnonce
        + "\", nc="@ + "00000001"@ + ", qop="@ + param_or(c, "qop"@, "auth"@) + ", response=\""@
        + response + "\""@;
    match c.get("opaque"@) {
        Some(opaque) => head + ", opaque=\""@ + opaque + "\""@,
        None => head,
    }
}

/// The `Authorization` header that answers a Digest challenge.
pub open spec fn digest_header(
    c: ChallengeView,
    user: Seq<char>,
    password: Seq<char>,
    method: Seq<char>,
    path: Seq<char>,
    cnonce: Seq<char>,
) -> Seq<char> {
    header_view(
        c,
        user,
        path,
        cnonce,
        digest_response(c, user, password, method, path, cnonce),
    )
}

/// The `Authorization` header for Basic authentication.
pub open spec fn basic_header(user: Seq<char>, password: Seq<char>) -> Seq<char> {
    "Basic "@ + base64_text(encode_utf8(user + ":"@ + password))
}

/// The header that answers a challenge: for Basic from the credentials, for
/// Digest from the whole request, unless the server gave no nonce; for any
/// other scheme there is none.
pub open spec fn answer(
    c: ChallengeView,
    user: Seq<char>,
    password: Seq<char>,
    method: Seq<char>,
    path: Seq<char>,
    cnonce: Seq<char>,
) -> Option<Seq<char>> {
    if c.is_basic() {
        Some(basic_header(user, password))
    } else if c.is_digest() && c.get("nonce"@) is Some {
        Some(digest_header(c, user, password, method, path, cnonce))
    } else {
        None
    }
}

/// Bytes in a number that three divides are encoded on their own.
proof fn lemma_base64_split(a: Seq<u8>, b: Seq<u8>)
    requires
        a.len() % 3 == 0,
    ensures
        base64_text(a + b) == base64_text(a) + base64_text(b),
    decreases a.len(),
{
    if a.len() == 0 {
        assert(a + b =~= b);
        assert(base64_text(a) + base64_text(b) =~= base64_text(b));
    } else {
        lemma_base64_split(a.skip(3), b);
        assert((a + b).skip(3) =~= a.skip(3) + b);
        assert(base64_text(a + b) =~= base64_text(a) + base64_text(b));
    }
}

/// Bytes of any number in Base64, encoded block by block.
fn base64(bytes: &[u8]) -> (r: String)
    ensures
        r@ == base64_text(bytes@),
{
    let mut out = String::new();
    let n: usize = bytes.len();
    let mut from: usize = 0;
    while n - from > BASE64_BLOCK
        invariant
            n == bytes@.len(),
            from <= n,
            from % 3 == 0,
            out@ == base64_text(bytes@.take(from as int)),
        decreases n - from,
    {
        let block = slice_subrange(bytes, from, from + BASE64_BLOCK);
        out.append(encode_base64(block).as_str());
        proof {
            let done = bytes@.take(from as int);
            assert(bytes@.take(from + BASE64_BLOCK) =~= done + block@);
            lemma_base64_split(done, block@);
        }
        from = from + BASE64_BLOCK;
    }
    let block = slice_subrange(bytes, from, n);
    out.append(encode_base64(block).as_str());
    proof {
        let done = bytes@.take(from as int);
        assert(bytes@ =~= done + block@);
        lemma_base64_split(done, block@);
    }
    out
}

/// The answer to a Basic challenge.
pub fn basic_auth(user: &str, password: &str) -> (r: String)
    ensures
        r@ == basic_header(user@, password@),
{
    let mut pair = owned(user);
    pair.append(":");
    pair.append(password);
    let mut out = owned("Basic ");
    out.append(base64(pair.as_str().as_bytes()).as_str());
    out
}

/// The algorithm that a challenge asks for.
fn algorithm(challenge: &Challenge) -> (r: Algorithm)
    ensures
        r == algorithm_of(challenge@),
{
    match challenge.get("algorithm") {
        Some(a) => if same_ignoring_case(a, "SHA-256") {
            Algorithm::Sha256
        } else if same_ignoring_case(a, "SHA-512-256") {
            Algorithm::Sha512_256
        } else {
            Algorithm::Md5
        },
        None => Algorithm::Md5,
    }
}

/// The text of a parameter, or the given one where it is missing.
fn param<'a>(challenge: &'a Challenge, key: &str, other: &'a str) -> (r: &'a str)
    ensures
        r@ == param_or(challenge@, key@, other@),
{
    match challenge.get(key) {
        Some(v) => v,
        None => other,
    }
}

/// What the first digest of an answer is taken of.
pub fn credentials_text(challenge: &Challenge, user: &str, password: &str) -> (r: String)
    ensures
        r@ == credentials_view(challenge@, user@, password@),
{
    let mut out = owned(user);
    out.append(":");
    out.append(param(challenge, "realm", ""));
    out.append(":");
    out.append(password);
    out
}

/// What the second digest of an answer is taken of.
pub fn request_text(method: &str, path: &str) -> (r: String)
    ensures
        r@ == request_view(method@, path@),
{
    let mut out = owned(method);
    out.append(":");
    out.append(path);
    out
}

/// What the last digest of an answer is taken of, where `ha1` and `ha2` are
/// the first two.
pub fn response_text(challenge: &Challenge, ha1: &str, cnonce: &str, ha2: &str) -> (r: String)
    ensures
        r@ == response_view(challenge@, ha1@, cnonce@, ha2@),
{
    let mut out = owned(ha1);
    out.append(":");
    out.append(param(challenge, "nonce", ""));
    out.append(":");
    out.append("00000001");
    out.append(":");
    out.append(cnonce);
    out.append(":");
    out.append(param(challenge, "qop", "auth"));
    out.append(":");
    out.append(ha2);
    out
}

/// The header that carries `response`, the last digest of an answer.
pub fn header_text(
    challenge: &Challenge,
    user: &str,
    path: &str,
    cnonce: &str,
    response: &str,
) -> (r: String)
    ensures
        r@ == header_view(challenge@, user@, path@, cnonce@, response@),
{
    let mut header = owned("Digest username=\"");
    header.append(user);
    header.append("\", realm=\"");
    header.append(param(challenge, "realm", ""));
    header.append("\", nonce=\"");
    header.append(param(challenge, "nonce", ""));
    header.append("\", uri=\"");
    header.append(path);
    header.append("\", algorithm=\"");
    header.append(algorithm(challenge).label());
    header.append("\", cnonce=\"");
    header.append(cnonce);
    header.append("\", nc=");
    header.append("00000001");
    header.append(", qop=");
    header.append(param(challenge, "qop", "auth"));
    header.append(", response=\"");
    header.append(response);
    header.append("\"");
    match challenge.get("opaque") {
        Some(opaque) => {
            header.append(", opaque=\"");
            header.append(opaque);
            header.append("\"");
        },
        None => {},
    }
    header
}

/// The answer to a Digest challenge, or `None` where the server gave no nonce.
/// `cnonce` is the client's own nonce for this request.
pub fn digest_auth(
    challenge: &Challenge,
    user: &str,
    password: &str,
    method: &str,
    path: &str,
    cnonce: &str,
) -> (r: Option<String>)
    ensures
        r is Some <==> challenge@.get("nonce"@) is Some,
        r matches Some(header) ==> header@ == digest_header(
            challenge@,
            user@,
            password@,
            method@,
            path@,
            cnonce@,
        ),
{
    if challenge.get("nonce").is_none() {
        return None;
    }
    let a = algorithm(challenge);
    let ha1 = a.hash(credentials_text(challenge, user, password).as_str());
    let ha2 = a.hash(request_text(method, path).as_str());
    let response = a.hash(
        response_text(challenge, ha1.as_str(), cnonce, ha2.as_str()).as_str(),
    );
    Some(header_text(challenge, user, path, cnonce, response.as_str()))
}

/// What a client nonce is made from: the time in nanoseconds, a number that no
/// other request of this process has, and the name of the thread.
#[derive(Debug)]
pub struct NonceSeed {
    pub nanos: u128,
    pub count: u64,
    pub thread: String,
}

impl NonceSeed {
    /// The text of the seed.
    pub open spec fn text_view(self) -> Seq<char> {
        digits(self.nanos as nat, 10) + "-"@ + decimal(self.count as int) + "-"@ + self.thread@
    }

    /// The client nonce of the seed: the first 20 digits of a digest over it.
    pub open spec fn nonce_view(self) -> Seq<char> {
        hex_of(sha256_of(encode_utf8(self.text_view()))).take(20)
    }

    /// The text of the seed.
    pub fn text(&self) -> (r: String)
        ensures
            r@ == self.text_view(),
    {
        let mut out = String::new();
        push_digits(&mut out, self.nanos, 10);
        proof {
            assert(out@ =~= digits(self.nanos as nat, 10));
        }
        out.append("-");
        out.append(decimal_string(self.count).as_str());
        out.append("-");
        out.append(self.thread.as_str());
        out
    }
}

/// The first 20 hexadecimal digits of a digest.
pub fn nonce_digits(hash: &[u8]) -> (r: String)
    requires
        hash@.len() >= 10,
    ensures
        r@ == hex_of(hash@).take(20),
{
    proof {
        lemma_hex_len(hash@);
    }
    let all = chars_of(hex(hash).as_str());
    proof {
        assert(all@.subrange(0, 20) =~= all@.take(20));
    }
    string_of(slice_subrange(all.as_slice(), 0, 20))
}

/// A client nonce. It only needs to differ from one request to the next.
pub fn client_nonce(seed: &NonceSeed) -> (r: String)
    ensures
        r@ == seed.nonce_view(),
        r@.len() == 20,
{
    let hash = sha256(seed.text().as_str().as_bytes());
    proof {
        lemma_hex_len(hash@);
    }
    nonce_digits(hash.as_slice())
}

/// The `Authorization` header value to send in answer to `challenge` for a
/// request with `method` (such as "GET") for `path` (such as
/// "/api/serverinfo", which must be exactly what is sent on the wire).
pub fn authorization_header(
    challenge: &Challenge,
    user: &str,
    password: &str,
    method: &str,
    path: &str,
    seed: &NonceSeed,
) -> (r: Option<String>)
    ensures
        opt_view(r) == answer(
            challenge@,
            user@,
            password@,
            method@,
            path@,
            seed.nonce_view(),
        ),
{
    if challenge.is_basic() {
        Some(basic_auth(user, password))
    } else if challenge.is_digest() {
        let cnonce = client_nonce(seed);
        digest_auth(challenge, user, password, method, path, cnonce.as_str())
    } else {
        None
    }
}

// ---- laws ---------------------------------------------------------------

/// The value of a parameter is the same with quotes around it and without.
pub proof fn law_quotes_do_not_matter(key: Seq<char>, value: Seq<char>)
    requires
        key.len() > 0,
        !is_white_space(key[0]),
        index_of(key, '=') is None,
        value.len() > 0,
        !is_white_space(value[0]),
        !is_white_space(value.last()),
        value[0] != '"',
        value.last() != '"',
    ensures
        parameter(key.push('=') + value) == Some((lower(trim(key)), value)),
        parameter(key.push('=').push('"') + value.push('"')) == Some((lower(trim(key)), value)),
{
    let plain = key.push('=') + value;
    let quoted = key.push('=').push('"') + value.push('"');
    lemma_trim_stays(plain);
    lemma_trim_stays(quoted);
    lemma_first_equals(key, value);
    lemma_first_equals(key, seq!['"'] + value.push('"'));
    let inner = seq!['"'] + value.push('"');
    assert(quoted =~= key.push('=') + inner);
    assert(plain.subrange(0, key.len() as int) =~= key);
    assert(quoted.subrange(0, key.len() as int) =~= key);
    assert(plain.subrange(key.len() as int + 1, plain.len() as int) =~= value);
    assert(quoted.subrange(key.len() as int + 1, quoted.len() as int) =~= inner);
    lemma_trim_stays(value);
    lemma_trim_stays(inner);
    assert(inner.subrange(1, inner.len() as int) =~= value.push('"'));
    assert(unquote_start(inner) == unquote_start(value.push('"')));
    assert(unquote_start(value.push('"')) == value.push('"'));
    assert(value.push('"').drop_last() =~= value);
    assert(unquote_end(value.push('"')) == unquote_end(value));
}

/// The first equals sign behind a text without one.
proof fn lemma_first_equals(key: Seq<char>, rest: Seq<char>)
    requires
        index_of(key, '=') is None,
    ensures
        index_of(key.push('=') + rest, '=') == Some(key.len() as int),
{
    let s = key.push('=') + rest;
    lemma_index_from(key, '=', 0);
    lemma_index_from(s, '=', 0);
    assert(s[key.len() as int] == '=');
    match index_of(s, '=') {
        Some(i) => {
            if i < key.len() {
                assert(s[i] == key[i]);
            }
        },
        None => {},
    }
}

/// A scheme that is neither Basic nor Digest is not answered, nor is a Digest
/// challenge without a nonce; everything else is.
pub proof fn law_what_is_answered(
    c: ChallengeView,
    user: Seq<char>,
    password: Seq<char>,
    method: Seq<char>,
    path: Seq<char>,
    cnonce: Seq<char>,
)
    ensures
        answer(c, user, password, method, path, cnonce) is Some <==> c.is_basic() || (c.is_digest()
            && c.get("nonce"@) is Some),
{
}

/// The second digest is taken of the method, a colon, and the whole of what is
/// asked for, with its query: requests that differ in any of it have different
/// texts.
pub proof fn law_second_digest(method: Seq<char>, path: Seq<char>, other: Seq<char>)
    ensures
        request_view(method, path).len() == method.len() + 1 + path.len(),
        request_view(method, path).take(method.len() as int) == method,
        request_view(method, path)[method.len() as int] == ':',
        request_view(method, path).skip(method.len() as int + 1) == path,
        path != other ==> request_view(method, path) != request_view(method, other),
{
    reveal_strlit(":");
    let n = method.len() as int;
    let s = request_view(method, path);
    assert(s.take(n) =~= method);
    assert(s.skip(n + 1) =~= path);
    assert(request_view(method, other).skip(n + 1) =~= other);
}

/// What a challenge gives under a name, and nothing where it gives nothing.
pub open spec fn given(c: ChallengeView, key: Seq<char>) -> Seq<char> {
    if c.params.contains_key(key) {
        c.params[key]
    } else {
        Seq::empty()
    }
}

/// The first digest is taken of the whole user, realm and password, with colons
/// between them.
pub proof fn law_first_digest(c: ChallengeView, user: Seq<char>, password: Seq<char>)
    ensures
        ({
            let s = credentials_view(c, user, password);
            let realm = given(c, "realm"@);
            let n = user.len() as int;
            let m = n + 1 + realm.len();
            &&& s.len() == n + realm.len() + password.len() + 2
            &&& s.subrange(0, n) == user
            &&& s[n] == ':'
            &&& s.subrange(n + 1, m) == realm
            &&& s[m] == ':'
            &&& s.subrange(m + 1, s.len() as int) == password
        }),
{
    reveal_strlit(":");
    reveal_strlit("");
    let s = credentials_view(c, user, password);
    let realm = given(c, "realm"@);
    let n = user.len() as int;
    let m = n + 1 + realm.len();
    assert(param_or(c, "realm"@, ""@) =~= realm);
    assert(s.subrange(0, n) =~= user);
    assert(s.subrange(n + 1, m) =~= realm);
    assert(s.subrange(m + 1, s.len() as int) =~= password);
}

/// The digest of a text, by the hash that an algorithm stands for.
pub open spec fn digest_by(a: Algorithm, s: Seq<char>) -> Seq<char> {
    if a == Algorithm::Md5 {
        hex_of(md5_of(encode_utf8(s)))
    } else if a == Algorithm::Sha256 {
        hex_of(sha256_of(encode_utf8(s)))
    } else {
        hex_of(sha512_256_of(encode_utf8(s)))
    }
}

/// The answer to a Digest challenge is the digest of the digest of the
/// credentials, the server's nonce, the count of one, the client's nonce, the
/// quality, `auth` where the server names none, and the digest of the request,
/// all with colons between them.
#[verifier::rlimit(50)]
pub proof fn law_digest_answer(
    c: ChallengeView,
    user: Seq<char>,
    password: Seq<char>,
    method: Seq<char>,
    path: Seq<char>,
    cnonce: Seq<char>,
)
    ensures
        ({
            let a = algorithm_of(c);
            let qop = if c.params.contains_key("qop"@) {
                c.params["qop"@]
            } else {
                "auth"@
            };
            let first = digest_by(a, user + ":"@ + given(c, "realm"@) + ":"@ + password);
            let second = digest_by(a, method + ":"@ + path);
            digest_response(c, user, password, method, path, cnonce) == digest_by(
                a,
                first + ":"@ + given(c, "nonce"@) + ":00000001:"@ + cnonce + ":"@ + qop + ":"@
                    + second,
            )
        }),
{
    reveal_strlit("");
    reveal_strlit(":");
    reveal_strlit("00000001");
    reveal_strlit(":00000001:");
    let a = algorithm_of(c);
    let qop = if c.params.contains_key("qop"@) {
        c.params["qop"@]
    } else {
        "auth"@
    };
    assert(param_or(c, "realm"@, ""@) =~= given(c, "realm"@));
    assert(param_or(c, "nonce"@, ""@) =~= given(c, "nonce"@));
    let first = digest_by(a, user + ":"@ + given(c, "realm"@) + ":"@ + password);
    let second = digest_by(a, method + ":"@ + path);
    let colon = ":"@;
    let count = "00000001"@;
    assert(":00000001:"@ =~= colon + count + colon);
    let whole = first + ":"@ + given(c, "nonce"@) + ":00000001:"@ + cnonce + ":"@ + qop + ":"@
        + second;
    assert(first + colon + given(c, "nonce"@) + colon + count + colon =~= first + colon + given(
        c,
        "nonce"@,
    ) + (colon + count + colon));
    assert(response_view(c, first, cnonce, second) =~= whole);
}

/// The algorithm is named by the server, in any case; any other name, or none,
/// stands for MD5. Each has its own name in the answer.
pub proof fn law_algorithm(c: ChallengeView)
    ensures
        algorithm_of(c) == Algorithm::Sha256 <==> c.params.contains_key("algorithm"@) && lower(
            c.params["algorithm"@],
        ) == "sha-256"@,
        algorithm_of(c) == Algorithm::Sha512_256 <==> c.params.contains_key("algorithm"@) && lower(
            c.params["algorithm"@],
        ) == "sha-512-256"@,
        Algorithm::Md5.label_view() == "MD5"@,
        Algorithm::Sha256.label_view() == "SHA-256"@,
        Algorithm::Sha512_256.label_view() == "SHA-512-256"@,
{
    reveal_strlit("SHA-256");
    reveal_strlit("sha-256");
    reveal_strlit("SHA-512-256");
    reveal_strlit("sha-512-256");
    assert(lower("SHA-256"@) =~= "sha-256"@);
    assert(lower("SHA-512-256"@) =~= "sha-512-256"@);
    assert("sha-256"@.len() != "sha-512-256"@.len());
}

/// The scheme of a challenge is told without regard to case.
pub proof fn law_schemes(c: ChallengeView)
    ensures
        c.is_basic() <==> lower(c.scheme) == "basic"@,
        c.is_digest() <==> lower(c.scheme) == "digest"@,
        !(c.is_basic() && c.is_digest()),
        forall|k: Seq<char>| #[trigger] c.get(k) is Some <==> c.params.contains_key(k),
        forall|k: Seq<char>|
            c.params.contains_key(k) ==> #[trigger] c.get(k) == Some(c.params[k]),
{
    reveal_strlit("basic");
    reveal_strlit("digest");
    assert(lower("basic"@) =~= "basic"@);
    assert(lower("digest"@) =~= "digest"@);
    assert("basic"@.len() != "digest"@.len());
}

/// Whether a text holds a part.
pub open spec fn holds(s: Seq<char>, part: Seq<char>) -> bool {
    exists|i: int| 0 <= i && i + part.len() <= s.len() && (#[trigger] s.skip(i)).take(
        part.len() as int,
    ) == part
}

/// A text holds its end, and what its beginning holds.
proof fn lemma_holds(a: Seq<char>, b: Seq<char>)
    ensures
        holds(a + b, b),
        forall|part: Seq<char>| holds(a, part) ==> #[trigger] holds(a + b, part),
{
    let s = a + b;
    assert(s.skip(a.len() as int).take(b.len() as int) =~= b);
    assert forall|part: Seq<char>| holds(a, part) implies #[trigger] holds(a + b, part) by {
        let n = part.len() as int;
        let i = choose|i: int|
            0 <= i && i + part.len() <= a.len() && (#[trigger] a.skip(i)).take(n) == part;
        assert(s.skip(i).take(n) =~= a.skip(i).take(n));
    }
}

/// A field behind a text that lacks its closing quote closes it, and the text
/// then holds the field and all that it held before.
proof fn lemma_field(
    s: Seq<char>,
    quote: Seq<char>,
    name: Seq<char>,
    literal: Seq<char>,
    value: Seq<char>,
    start: Seq<char>,
)
    requires
        literal == quote + name,
        (s + quote).take(start.len() as int) == start,
        start.len() <= (s + quote).len(),
    ensures
        holds(s + literal + value + quote, name + value + quote),
        forall|part: Seq<char>|
            holds(s + quote, part) ==> #[trigger] holds(s + literal + value + quote, part),
        (s + literal + value + quote).take(start.len() as int) == start,
        start.len() <= (s + literal + value + quote).len(),
{
    let end = name + value + quote;
    assert(s + literal + value + quote =~= (s + quote) + end);
    lemma_holds(s + quote, end);
    assert(((s + quote) + end).take(start.len() as int) =~= (s + quote).take(start.len() as int));
}

/// Texts can be put together in any order of steps.
proof fn lemma_regroup(a: Seq<char>, b: Seq<char>, c: Seq<char>)
    ensures
        a + b + c == a + (b + c),
{
    assert(a + b + c =~= a + (b + c));
}

/// The end of a header: the count and the quality, then the answer.
#[verifier::rlimit(50)]
proof fn lemma_header_end(
    s: Seq<char>,
    quote: Seq<char>,
    count: Seq<char>,
    literals: (Seq<char>, Seq<char>, Seq<char>),
    qop: Seq<char>,
    comma: Seq<char>,
    name: Seq<char>,
    response: Seq<char>,
    start: Seq<char>,
)
    requires
        literals.0 + literals.1 + literals.2 == quote + count,
        (s + quote).take(start.len() as int) == start,
        start.len() <= (s + quote).len(),
    ensures
        ({
            let all = s + literals.0 + literals.1 + literals.2 + qop + (comma + name) + response
                + quote;
            &&& holds(all, count + qop + comma)
            &&& holds(all, comma + name + response + quote)
            &&& forall|part: Seq<char>| holds(s + quote, part) ==> #[trigger] holds(all, part)
            &&& all.take(start.len() as int) == start
            &&& start.len() <= all.len()
        }),
{
    let all = s + literals.0 + literals.1 + literals.2 + qop + (comma + name) + response + quote;
    let a = s + quote;
    let b = count + qop + comma;
    let c = name + response + quote;
    let l = literals;
    lemma_regroup(s, l.0, l.1);
    lemma_regroup(s, l.0 + l.1, l.2);
    lemma_regroup(s, quote, count);
    lemma_regroup(a, count, qop);
    lemma_regroup(a + (count + qop), comma, name);
    lemma_regroup(a, count + qop, comma);
    lemma_regroup(a + b, name, response);
    lemma_regroup(a + b, name + response, quote);
    lemma_holds(a, b);
    lemma_holds(a + b, c);
    let d = comma + name + response + quote;
    let e = s + literals.0 + literals.1 + literals.2 + qop;
    lemma_regroup(e, comma + name, response);
    lemma_regroup(e, comma + name + response, quote);
    lemma_holds(e, d);
    assert(((a + b) + c).take(start.len() as int) =~= a.take(start.len() as int));
}

/// The header that answers a Digest challenge names the user, and repeats the
/// realm and the nonce of the challenge and all of what is asked for, as it is
/// hashed; it says which algorithm was used, what keeps the answer from being
/// used twice, and the answer; and it gives back what the server wants back.
#[verifier::rlimit(50)]
pub proof fn law_header_fields(
    c: ChallengeView,
    user: Seq<char>,
    password: Seq<char>,
    method: Seq<char>,
    path: Seq<char>,
    cnonce: Seq<char>,
)
    ensures
        ({
            let h = digest_header(c, user, password, method, path, cnonce);
            let qop = if c.params.contains_key("qop"@) {
                c.params["qop"@]
            } else {
                "auth"@
            };
            &&& h.take(("Digest username=\""@ + user + "\""@).len() as int)
                == "Digest username=\""@ + user + "\""@
            &&& holds(h, ", realm=\""@ + given(c, "realm"@) + "\""@)
            &&& holds(h, ", nonce=\""@ + given(c, "nonce"@) + "\""@)
            &&& holds(h, ", uri=\""@ + path + "\""@)
            &&& holds(h, ", algorithm=\""@ + algorithm_of(c).label_view() + "\""@)
            &&& holds(h, ", cnonce=\""@ + cnonce + "\""@)
            &&& holds(h, ", nc=00000001, qop="@ + qop + ", "@)
            &&& holds(
                h,
                ", response=\""@ + digest_response(c, user, password, method, path, cnonce)
                    + "\""@,
            )
            &&& c.params.contains_key("opaque"@) ==> holds(
                h,
                ", opaque=\""@ + c.params["opaque"@] + "\""@,
            )
        }),
{
    let response = digest_response(c, user, password, method, path, cnonce);
    let realm = given(c, "realm"@);
    let nonce = given(c, "nonce"@);
    let label = algorithm_of(c).label_view();
    let qop = param_or(c, "qop"@, "auth"@);
    assert(param_or(c, "realm"@, ""@) =~= realm && param_or(c, "nonce"@, ""@) =~= nonce) by {
        reveal_strlit("");
    }
    let q = "\""@;
    let h1 = "Digest username=\""@ + user;
    let start = h1 + q;
    assert(start.take(start.len() as int) =~= start);
    lemma_literal_realm();
    lemma_field(h1, q, ", realm=\""@, "\", realm=\""@, realm, start);
    let h2 = h1 + "\", realm=\""@ + realm;
    lemma_literal_nonce();
    lemma_field(h2, q, ", nonce=\""@, "\", nonce=\""@, nonce, start);
    let h3 = h2 + "\", nonce=\""@ + nonce;
    lemma_literal_uri();
    lemma_field(h3, q, ", uri=\""@, "\", uri=\""@, path, start);
    let h4 = h3 + "\", uri=\""@ + path;
    lemma_literal_algorithm();
    lemma_field(h4, q, ", algorithm=\""@, "\", algorithm=\""@, label, start);
    let h5 = h4 + "\", algorithm=\""@ + label;
    lemma_literal_cnonce();
    lemma_field(h5, q, ", cnonce=\""@, "\", cnonce=\""@, cnonce, start);
    let h6 = h5 + "\", cnonce=\""@ + cnonce;
    lemma_literal_count();
    lemma_literal_response();
    lemma_header_end(
        h6,
        q,
        ", nc=00000001, qop="@,
        ("\", nc="@, "00000001"@, ", qop="@),
        qop,
        ", "@,
        "response=\""@,
        response,
        start,
    );
    let h8 = h6 + "\", nc="@ + "00000001"@ + ", qop="@ + qop + ", response=\""@ + response + q;
    match c.get("opaque"@) {
        Some(opaque) => {
            lemma_opaque(h8, ", opaque=\""@, opaque, q, start);
        },
        None => {},
    }
}

/// What the server wants back stands behind everything else.
proof fn lemma_opaque(
    s: Seq<char>,
    name: Seq<char>,
    value: Seq<char>,
    quote: Seq<char>,
    start: Seq<char>,
)
    requires
        s.take(start.len() as int) == start,
        start.len() <= s.len(),
    ensures
        holds(s + name + value + quote, name + value + quote),
        forall|part: Seq<char>|
            holds(s, part) ==> #[trigger] holds(s + name + value + quote, part),
        (s + name + value + quote).take(start.len() as int) == start,
{
    let end = name + value + quote;
    assert(s + name + value + quote =~= s + end);
    lemma_holds(s, end);
    assert((s + end).take(start.len() as int) =~= s.take(start.len() as int));
}

proof fn lemma_literal_realm()
    ensures
        "\", realm=\""@ == "\""@ + ", realm=\""@,
{
    reveal_strlit("\"");
    reveal_strlit(", realm=\"");
    reveal_strlit("\", realm=\"");
    assert("\", realm=\""@ =~= "\""@ + ", realm=\""@);
}

proof fn lemma_literal_nonce()
    ensures
        "\", nonce=\""@ == "\""@ + ", nonce=\""@,
{
    reveal_strlit("\"");
    reveal_strlit(", nonce=\"");
    reveal_strlit("\", nonce=\"");
    assert("\", nonce=\""@ =~= "\""@ + ", nonce=\""@);
}

proof fn lemma_literal_uri()
    ensures
        "\", uri=\""@ == "\""@ + ", uri=\""@,
{
    reveal_strlit("\"");
    reveal_strlit(", uri=\"");
    reveal_strlit("\", uri=\"");
    assert("\", uri=\""@ =~= "\""@ + ", uri=\""@);
}

proof fn lemma_literal_algorithm()
    ensures
        "\", algorithm=\""@ == "\""@ + ", algorithm=\""@,
{
    reveal_strlit("\"");
    reveal_strlit(", algorithm=\"");
    reveal_strlit("\", algorithm=\"");
    assert("\", algorithm=\""@ =~= "\""@ + ", algorithm=\""@);
}

proof fn lemma_literal_cnonce()
    ensures
        "\", cnonce=\""@ == "\""@ + ", cnonce=\""@,
{
    reveal_strlit("\"");
    reveal_strlit(", cnonce=\"");
    reveal_strlit("\", cnonce=\"");
    assert("\", cnonce=\""@ =~= "\""@ + ", cnonce=\""@);
}

proof fn lemma_literal_count()
    ensures
        "\", nc="@ + "00000001"@ + ", qop="@ == "\""@ + ", nc=00000001, qop="@,
{
    reveal_strlit("\"");
    reveal_strlit("\", nc=");
    reveal_strlit("00000001");
    reveal_strlit(", qop=");
    reveal_strlit(", nc=00000001, qop=");
    assert("\", nc="@ + "00000001"@ + ", qop="@ =~= "\""@ + ", nc=00000001, qop="@);
}

proof fn lemma_literal_response()
    ensures
        ", response=\""@ == ", "@ + "response=\""@,
{
    reveal_strlit(", response=\"");
    reveal_strlit(", ");
    reveal_strlit("response=\"");
    assert(", response=\""@ =~= ", "@ + "response=\""@);
}

/// The answer to a Basic challenge is the word for it and the whole of the
/// user and the password, with a colon between them, in Base64.
pub proof fn law_basic_answer(user: Seq<char>, password: Seq<char>)
    ensures
        basic_header(user, password).take(6) == "Basic "@,
        exists|s: Seq<char>|
            #![trigger encode_utf8(s)]
            s.len() == user.len() + 1 + password.len() && s.take(user.len() as int) == user
                && s[user.len() as int] == ':' && s.skip(user.len() as int + 1) == password
                && basic_header(user, password).skip(6) == base64_text(encode_utf8(s)),
{
    reveal_strlit("Basic ");
    reveal_strlit(":");
    let s = user + ":"@ + password;
    let h = basic_header(user, password);
    assert(s.take(user.len() as int) =~= user);
    assert(s.skip(user.len() as int + 1) =~= password);
    assert(h.take(6) =~= "Basic "@);
    assert(h.skip(6) =~= base64_text(encode_utf8(s)));
}

/// A Basic challenge is answered with the credentials, a Digest challenge that
/// gives a nonce with the digest over the request, and nothing else is
/// answered.
pub proof fn law_answers(
    c: ChallengeView,
    user: Seq<char>,
    password: Seq<char>,
    method: Seq<char>,
    path: Seq<char>,
    cnonce: Seq<char>,
)
    ensures
        lower(c.scheme) == "basic"@ ==> answer(c, user, password, method, path, cnonce) == Some(
            basic_header(user, password),
        ),
        lower(c.scheme) == "digest"@ && c.params.contains_key("nonce"@) ==> answer(
            c,
            user,
            password,
            method,
            path,
            cnonce,
        ) == Some(digest_header(c, user, password, method, path, cnonce)),
        lower(c.scheme) == "digest"@ && !c.params.contains_key("nonce"@) ==> answer(
            c,
            user,
            password,
            method,
            path,
            cnonce,
        ) is None,
        lower(c.scheme) != "basic"@ && lower(c.scheme) != "digest"@ ==> answer(
            c,
            user,
            password,
            method,
            path,
            cnonce,
        ) is None,
{
    law_schemes(c);
}

/// How many quotes a text holds.
pub open spec fn quotes(s: Seq<char>) -> nat
    decreases s.len(),
{
    if s.len() == 0 {
        0
    } else {
        quotes(s.drop_last()) + if s.last() == '"' {
            1nat
        } else {
            0nat
        }
    }
}

/// A character stands between quotes where an odd number of them stands before
/// it.
pub proof fn law_in_quotes(s: Seq<char>, i: int)
    requires
        0 <= i <= s.len(),
    ensures
        in_quotes(s, i) <==> quotes(s.take(i)) % 2 == 1,
    decreases i,
{
    if i > 0 {
        law_in_quotes(s, i - 1);
        assert(s.take(i).drop_last() =~= s.take(i - 1));
    }
}

/// A field ends at the first comma that does not stand between quotes, and the
/// next one begins behind it. What follows the last such comma is a field too,
/// unless it is blank.
pub proof fn law_fields(s: Seq<char>, from: int, to: int)
    requires
        0 <= from <= to <= s.len(),
        forall|i: int| from <= i < to && s[i] == ',' ==> quotes(#[trigger] s.take(i)) % 2 == 1,
    ensures
        to < s.len() && s[to] == ',' && quotes(s.take(to)) % 2 == 0 ==> fields(s, from) == seq![
            s.subrange(from, to),
        ] + fields(s, to + 1),
        to == s.len() && trim(s.subrange(from, to)).len() > 0 ==> fields(s, from) == seq![
            s.subrange(from, to),
        ],
        to == s.len() && trim(s.subrange(from, to)).len() == 0 ==> fields(s, from).len() == 0,
{
    if to == s.len() || (s[to] == ',' && quotes(s.take(to)) % 2 == 0) {
        if to < s.len() {
            law_in_quotes(s, to);
        }
        lemma_field_end_at(s, from, to);
    }
}

proof fn lemma_field_end_at(s: Seq<char>, from: int, to: int)
    requires
        0 <= from <= to <= s.len(),
        forall|i: int| from <= i < to && s[i] == ',' ==> quotes(#[trigger] s.take(i)) % 2 == 1,
        to < s.len() ==> s[to] == ',' && !in_quotes(s, to),
    ensures
        field_end(s, from) == to,
    decreases to - from,
{
    if from < to {
        law_in_quotes(s, from);
        if s[from] == ',' {
            assert(quotes(s.take(from)) % 2 == 1);
        }
        lemma_field_end_at(s, from + 1, to);
    }
}

/// Each field that sets a parameter sets it in place of any before it, and
/// changes no other.
pub proof fn law_parameters(fs: Seq<Seq<char>>, field: Seq<char>)
    ensures
        parameters(Seq::<Seq<char>>::empty()) == Map::<Seq<char>, Seq<char>>::empty(),
        parameter(field) is None ==> parameters(fs.push(field)) == parameters(fs),
        parameter(field) matches Some((k, v)) ==> parameters(fs.push(field)) == parameters(
            fs,
        ).insert(k, v),
{
    assert(fs.push(field).drop_last() =~= fs);
}

/// A challenge is its scheme, which ends at the first white space, and the
/// parameters of the fields behind it. A blank header is none.
pub proof fn law_challenge(scheme: Seq<char>, rest: Seq<char>, header: Seq<char>)
    requires
        scheme.len() > 0,
        forall|i: int| 0 <= i < scheme.len() ==> !is_white_space(#[trigger] scheme[i]),
    ensures
        trim(header).len() == 0 <==> challenge_of(header) is None,
        trim(header) == scheme ==> (challenge_of(header) matches Some(c) && c.scheme == scheme
            && c.params == Map::<Seq<char>, Seq<char>>::empty()),
        trim(header) == scheme.push(' ') + rest ==> (challenge_of(header) matches Some(c) && c.scheme
            == scheme && c.params == parameters(fields(trim(rest), 0))),
{
    let h = trim(header);
    lemma_trim_stays(scheme);
    if h == scheme {
        lemma_word_end(h, 0, scheme.len() as int);
        assert(h.subrange(0, h.len() as int) =~= h);
        let none = Seq::<char>::empty();
        assert(none.subrange(0, 0) =~= none);
        assert(trim(none).len() == 0);
        assert(fields(none, 0).len() == 0);
        assert(fields(none, 0) =~= Seq::<Seq<char>>::empty());
    }
    if h == scheme.push(' ') + rest {
        let n = scheme.len() as int;
        assert(h[n] == ' ');
        assert(forall|i: int| 0 <= i < n ==> h[i] == scheme[i]);
        lemma_word_end(h, 0, n);
        assert(h.subrange(0, n) =~= scheme);
        assert(h.subrange(n + 1, h.len() as int) =~= rest);
    }
}

proof fn lemma_word_end(s: Seq<char>, from: int, to: int)
    requires
        0 <= from <= to <= s.len(),
        forall|i: int| from <= i < to ==> !is_white_space(#[trigger] s[i]),
        to < s.len() ==> is_white_space(s[to]),
    ensures
        word_end(s, from) == to,
    decreases to - from,
{
    if from < to {
        lemma_word_end(s, from + 1, to);
    }
}

/// The client's nonce is the first 20 hexadecimal digits of the SHA-256 digest
/// of its seed.
pub proof fn law_nonce(seed: NonceSeed)
    ensures
        hex_of(sha256_of(encode_utf8(seed.text_view()))).len() >= 20 ==> seed.nonce_view().len()
            == 20,
        seed.nonce_view() == hex_of(sha256_of(encode_utf8(seed.text_view()))).subrange(0, 20),
{
}

/// Requests with different numbers, or at different times, or of different
/// threads, have different seeds.
pub proof fn law_seeds_differ(a: NonceSeed, b: NonceSeed)
    requires
        a.text_view() == b.text_view(),
    ensures
        a.nanos == b.nanos,
        a.count == b.count,
        a.thread@ == b.thread@,
{
    reveal_strlit("-");
    let (x, y) = (digits(a.nanos as nat, 10), digits(b.nanos as nat, 10));
    let (u, v) = (digits(a.count as nat, 10), digits(b.count as nat, 10));
    lemma_no_dash(a.nanos as nat);
    lemma_no_dash(b.nanos as nat);
    lemma_no_dash(a.count as nat);
    lemma_no_dash(b.count as nat);
    let p = u + "-"@ + a.thread@;
    let q = v + "-"@ + b.thread@;
    let s = a.text_view();
    assert(s =~= x.push('-') + p);
    assert(s =~= y.push('-') + q);
    lemma_same_head(x, p, y, q);
    assert(p =~= u.push('-') + a.thread@);
    assert(q =~= v.push('-') + b.thread@);
    lemma_same_head(u, a.thread@, v, b.thread@);
    crate::numbers::lemma_digits_differ(a.nanos as nat, b.nanos as nat, 10);
    crate::numbers::lemma_digits_differ(a.count as nat, b.count as nat, 10);
}

proof fn lemma_no_dash(n: nat)
    ensures
        forall|i: int| 0 <= i < digits(n, 10).len() ==> #[trigger] digits(n, 10)[i] != '-',
{
    crate::numbers::lemma_digit_chars(n, 10);
    assert forall|i: int| 0 <= i < digits(n, 10).len() implies #[trigger] digits(n, 10)[i]
        != '-' by {
        assert(crate::numbers::is_digit_char(digits(n, 10)[i]));
    }
}

/// What stands before the first dash is the same in the same text.
proof fn lemma_same_head(x: Seq<char>, p: Seq<char>, y: Seq<char>, q: Seq<char>)
    requires
        x.push('-') + p == y.push('-') + q,
        forall|i: int| 0 <= i < x.len() ==> x[i] != '-',
        forall|i: int| 0 <= i < y.len() ==> y[i] != '-',
    ensures
        x == y,
        p == q,
{
    let s = x.push('-') + p;
    let t = y.push('-') + q;
    assert(s[x.len() as int] == '-');
    assert(t[y.len() as int] == '-');
    if x.len() < y.len() {
        assert(t[x.len() as int] == y[x.len() as int]);
    } else if y.len() < x.len() {
        assert(s[y.len() as int] == x[y.len() as int]);
    }
    assert(x =~= s.subrange(0, x.len() as int));
    assert(y =~= s.subrange(0, x.len() as int));
    assert(p =~= s.skip(x.len() as int + 1));
    assert(q =~= s.skip(x.len() as int + 1));
}

/// Quotes around a value are no part of it, however many there are; those
/// within are.
pub proof fn law_unquote(before: Seq<char>, value: Seq<char>, after: Seq<char>)
    requires
        forall|i: int| 0 <= i < before.len() ==> #[trigger] before[i] == '"',
        forall|i: int| 0 <= i < after.len() ==> #[trigger] after[i] == '"',
        value.len() > 0 ==> value[0] != '"' && value.last() != '"',
    ensures
        unquote(before + value + after) == value,
{
    lemma_unquote_start(before, value + after);
    assert(before + (value + after) =~= before + value + after);
    if value.len() == 0 {
        lemma_unquote_start(after, value);
        assert(after + value =~= after);
        assert(value + after =~= after);
    } else {
        assert((value + after)[0] == value[0]);
        lemma_unquote_end(value, after);
    }
}

proof fn lemma_unquote_start(before: Seq<char>, rest: Seq<char>)
    requires
        forall|i: int| 0 <= i < before.len() ==> #[trigger] before[i] == '"',
    ensures
        unquote_start(before + rest) == unquote_start(rest),
    decreases before.len(),
{
    if before.len() == 0 {
        assert(before + rest =~= rest);
    } else {
        let all = before + rest;
        assert(all[0] == before[0]);
        let t = before.subrange(1, before.len() as int);
        assert(all.subrange(1, all.len() as int) =~= t + rest);
        lemma_unquote_start(t, rest);
    }
}

proof fn lemma_unquote_end(value: Seq<char>, after: Seq<char>)
    requires
        forall|i: int| 0 <= i < after.len() ==> #[trigger] after[i] == '"',
    ensures
        unquote_end(value + after) == unquote_end(value),
    decreases after.len(),
{
    if after.len() == 0 {
        assert(value + after =~= value);
    } else {
        let all = value + after;
        assert(all.last() == after.last());
        assert(all.drop_last() =~= value + after.drop_last());
        lemma_unquote_end(value, after.drop_last());
    }
}

/// A field sets the parameter before its first equals sign, in lower case, to
/// the value behind it, both without white space and the value without quotes
/// around it. A field without an equals sign sets none.
pub proof fn law_parameter(key: Seq<char>, value: Seq<char>, field: Seq<char>)
    requires
        forall|i: int| 0 <= i < key.len() ==> #[trigger] key[i] != '=',
    ensures
        trim(field) == key.push('=') + value ==> parameter(field) == Some(
            (lower(trim(key)), unquote(trim(value))),
        ),
        trim(field) == key ==> parameter(field) is None,
{
    lemma_index_from(key, '=', 0);
    lemma_first_equals(key, value);
    let f = key.push('=') + value;
    assert(f.subrange(0, key.len() as int) =~= key);
    assert(f.subrange(key.len() as int + 1, f.len() as int) =~= value);
}

/// A challenge that was read is told as it is.
pub proof fn law_opt_challenge(c: Challenge)
    ensures
        opt_challenge(Some(c)) == Some(c@),
        opt_challenge(None) is None,
{
}

} // verus!
