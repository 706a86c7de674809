//! A local HTTP server between the player and a recording.
//!
//! The player is pointed at `http://127.0.0.1:<port>/`, which looks to it like
//! an ordinary complete video that can be seeked with `Range` requests. Every
//! request is passed on to TVHeadend with the same `Range` header, and the
//! answer is passed back as it is: nothing is cached and no offsets are kept.
use vstd::prelude::*;
use vstd::slice::slice_subrange;
use vstd::string::*;

use crate::numbers::{decimal, push_digits};
use crate::outside::{canonical_reason, lossy_text, reason_of, text_lossy};
use crate::text::{
    begins, chars_of, lines, opt_str_view, opt_view, owned, slice_views, split_lines, starts_with,
    string_of, trim, trimmed,
};

verus! {

/// A running proxy, by its port on the local machine.
#[derive(Debug)]
pub struct RecordingProxy {
    port: u16,
}

impl RecordingProxy {
    /// The port that the proxy listens on.
    pub closed spec fn port_view(self) -> u16 {
        self.port
    }

    /// A proxy that listens on a port.
    pub fn new(port: u16) -> (r: Self)
        ensures
            r.port_view() == port,
    {
        RecordingProxy { port }
    }

    /// The port that the proxy listens on.
    pub fn port(&self) -> (r: u16)
        ensures
            r == self.port_view(),
    {
        self.port
    }

    /// What to hand to the player.
    pub fn url(&self) -> (r: String)
        ensures
            r@ == "http://127.0.0.1:"@ + decimal(self.port_view() as int) + "/"@,
    {
        let mut out = owned("http://127.0.0.1:");
        push_digits(&mut out, self.port as u128, 10);
        out.append("/");
        out
    }
}

// ---- the request --------------------------------------------------------

/// The bytes that end the head of a request.
pub open spec fn head_ends_at(b: Seq<u8>, i: int) -> bool {
    0 <= i && i + 4 <= b.len() && b[i] == 13 && b[i + 1] == 10 && b[i + 2] == 13 && b[i + 3] == 10
}

/// Whether enough of a request has been read: its head, which a blank line
/// ends, or more than any request of the player holds.
pub open spec fn is_complete(b: Seq<u8>) -> bool {
    (exists|i: int| #[trigger] head_ends_at(b, i)) || b.len() > 16384
}

/// Whether enough of a request has been read.
pub fn request_complete(bytes: &[u8]) -> (r: bool)
    ensures
        r == is_complete(bytes@),
{
    let n: usize = bytes.len();
    if n > 16384 {
        return true;
    }
    if n < 4 {
        return false;
    }
    let last: usize = n - 4;
    let mut i: usize = 0;
    while i <= last
        invariant
            4 <= n <= 16384,
            n == bytes@.len(),
            last == n - 4,
            i <= last + 1,
            forall|j: int| 0 <= j < i ==> !#[trigger] head_ends_at(bytes@, j),
        decreases last + 1 - i,
    {
        if bytes[i] == 13 && bytes[i + 1] == 10 && bytes[i + 2] == 13 && bytes[i + 3] == 10 {
            proof {
                assert(head_ends_at(bytes@, i as int));
            }
            return true;
        }
        i = i + 1;
    }
    false
}

/// The value of a `Range` header line.
pub open spec fn range_value(line: Seq<char>) -> Option<Seq<char>> {
    if begins(line, "Range:"@) || begins(line, "range:"@) {
        Some(trim(line.subrange(6, line.len() as int)))
    } else {
        None
    }
}

/// The value of the first `Range` header from line `from` on.
pub open spec fn first_range(ls: Seq<Seq<char>>, from: int) -> Option<Seq<char>>
    decreases ls.len() - from,
{
    if from >= ls.len() {
        None
    } else {
        match range_value(ls[from]) {
            Some(v) => Some(v),
            None => first_range(ls, from + 1),
        }
    }
}

/// The value of the first `Range` header in the text of a request.
pub fn range_of_text(text: &str) -> (r: Option<String>)
    ensures
        opt_view(r) == first_range(lines(text@), 0),
{
    proof {
        reveal_strlit("Range:");
        reveal_strlit("range:");
    }
    let upper = chars_of("Range:");
    let lower = chars_of("range:");
    let all = chars_of(text);
    let ls = split_lines(all.as_slice());
    let ghost v = slice_views(ls@);
    let n: usize = ls.len();
    for i in 0..n
        invariant
            n == ls@.len(),
            v == slice_views(ls@),
            upper@ == "Range:"@,
            lower@ == "range:"@,
            "Range:"@.len() == 6,
            "range:"@.len() == 6,
            v == lines(text@),
            first_range(v, 0) == first_range(v, i as int),
    {
        let line = ls[i];
        proof {
            assert(v[i as int] == line@);
        }
        if starts_with(line, upper.as_slice()) || starts_with(line, lower.as_slice()) {
            let m: usize = line.len();
            return Some(string_of(trimmed(slice_subrange(line, 6, m))));
        }
    }
    None
}

/// The value of the `Range` header of a request, as far as it was read. The
/// request line and every other header do not matter: there is only one thing
/// to ask for.
pub fn range_header(request: &[u8]) -> (r: Option<String>)
    ensures
        opt_view(r) == first_range(lines(lossy_text(request@)), 0),
{
    range_of_text(text_lossy(request).as_str())
}

// ---- the reply ----------------------------------------------------------

/// A header line, where there is a value.
pub open spec fn header_line(name: Seq<char>, value: Option<Seq<char>>) -> Seq<char> {
    match value {
        Some(v) => name + ": "@ + v + "\r\n"@,
        None => Seq::empty(),
    }
}

/// The head of a reply that is passed back.
pub open spec fn head_text(
    status: u16,
    reason: Option<Seq<char>>,
    length: Option<Seq<char>>,
    range: Option<Seq<char>>,
    kind: Option<Seq<char>>,
) -> Seq<char> {
    "HTTP/1.1 "@ + decimal(status as int) + " "@ + (match reason {
        Some(r) => r,
        None => Seq::empty(),
    }) + "\r\nAccept-Ranges: bytes\r\nConnection: close\r\n"@ + header_line(
        "content-length"@,
        length,
    ) + header_line("content-range"@, range) + header_line("content-type"@, kind) + "\r\n"@
}

/// The whole of a reply that only says what went wrong.
pub open spec fn error_text(status: u16) -> Seq<char> {
    "HTTP/1.1 "@ + decimal(status as int) + " Error\r\nConnection: close\r\n\r\n"@
}

/// Appends a header line, where there is a value.
fn push_header(out: &mut String, name: &str, value: Option<&str>)
    ensures
        final(out)@ == old(out)@ + header_line(name@, opt_str_view(value)),
{
    match value {
        Some(v) => {
            let mut line = owned(name);
            line.append(": ");
            line.append(v);
            line.append("\r\n");
            out.append(line.as_str());
        },
        None => {
            proof {
                assert(out@ + Seq::<char>::empty() =~= out@);
            }
        },
    }
}

/// The head of a reply that is passed back, by the reason phrase of its status.
pub fn head_with_reason(
    status: u16,
    reason: Option<String>,
    length: Option<&str>,
    range: Option<&str>,
    kind: Option<&str>,
) -> (r: String)
    ensures
        r@ == head_text(
            status,
            opt_view(reason),
            opt_str_view(length),
            opt_str_view(range),
            opt_str_view(kind),
        ),
{
    let mut out = owned("HTTP/1.1 ");
    push_digits(&mut out, status as u128, 10);
    out.append(" ");
    match reason {
        Some(r) => out.append(r.as_str()),
        None => {
            proof {
                assert(out@ + Seq::<char>::empty() =~= out@);
            }
        },
    }
    out.append("\r\nAccept-Ranges: bytes\r\nConnection: close\r\n");
    push_header(&mut out, "content-length", length);
    push_header(&mut out, "content-range", range);
    push_header(&mut out, "content-type", kind);
    out.append("\r\n");
    out
}

/// The head of the reply to the player, from the status and the headers of the
/// server's reply, whatever the status is. The body of the server's reply
/// follows it.
pub fn reply_head(
    status: u16,
    length: Option<&str>,
    range: Option<&str>,
    kind: Option<&str>,
) -> (r: String)
    ensures
        r@ == head_text(
            status,
            reason_of(status),
            opt_str_view(length),
            opt_str_view(range),
            opt_str_view(kind),
        ),
{
    head_with_reason(status, canonical_reason(status), length, range, kind)
}

/// The whole of a reply that only says what went wrong. Where the server
/// cannot be reached at all, that is 502.
pub fn error_head(status: u16) -> (r: String)
    ensures
        r@ == error_text(status),
{
    let mut out = owned("HTTP/1.1 ");
    push_digits(&mut out, status as u128, 10);
    out.append(" Error\r\nConnection: close\r\n\r\n");
    out
}

// ---- laws ---------------------------------------------------------------

/// A request is read up to the first blank line, which two line ends after one
/// another make, and no further than 16 KiB and a bit.
pub proof fn law_request_read(b: Seq<u8>, head: Seq<u8>, rest: Seq<u8>)
    ensures
        b == head + seq![13u8, 10u8, 13u8, 10u8] + rest ==> is_complete(b),
        b.len() > 16 * 1024 ==> is_complete(b),
        is_complete(b) && b.len() <= 16 * 1024 ==> exists|i: int|
            0 <= i && i + 4 <= b.len() && (#[trigger] b.skip(i)).take(4) == seq![
                13u8,
                10u8,
                13u8,
                10u8,
            ],
{
    if b == head + seq![13u8, 10u8, 13u8, 10u8] + rest {
        assert(head_ends_at(b, head.len() as int));
    }
    if is_complete(b) && b.len() <= 16 * 1024 {
        let i = choose|i: int| #[trigger] head_ends_at(b, i);
        assert(b.skip(i).take(4) =~= seq![13u8, 10u8, 13u8, 10u8]);
    }
}

/// The range that is asked for is the whole value of the first line that begins
/// with the name of the header, without white space around it.
pub proof fn law_range(ls: Seq<Seq<char>>, k: int, value: Seq<char>)
    ensures
        0 <= k < ls.len() && (ls[k] == "Range:"@ + value || ls[k] == "range:"@ + value) && (forall|
            j: int,
        |
            0 <= j < k ==> !begins(#[trigger] ls[j], "Range:"@) && !begins(ls[j], "range:"@))
            ==> first_range(ls, 0) == Some(trim(value)),
        (forall|j: int|
            0 <= j < ls.len() ==> !begins(#[trigger] ls[j], "Range:"@) && !begins(ls[j], "range:"@))
            ==> first_range(ls, 0) is None,
{
    reveal_strlit("Range:");
    reveal_strlit("range:");
    assert("Range:"@.len() == 6 && "range:"@.len() == 6);
    lemma_first_range(ls, 0, k);
    if 0 <= k < ls.len() && (ls[k] == "Range:"@ + value || ls[k] == "range:"@ + value) {
        let line = ls[k];
        if line == "Range:"@ + value {
            assert(line.subrange(0, 6) =~= "Range:"@);
        } else {
            assert(line.subrange(0, 6) =~= "range:"@);
        }
        assert(line.subrange(6, line.len() as int) =~= value);
    }
}

proof fn lemma_first_range(ls: Seq<Seq<char>>, from: int, k: int)
    requires
        0 <= from,
    ensures
        from <= k < ls.len() && range_value(ls[k]) is Some && (forall|j: int|
            from <= j < k ==> range_value(#[trigger] ls[j]) is None) ==> first_range(ls, from)
            == range_value(ls[k]),
        (forall|j: int| from <= j < ls.len() ==> range_value(#[trigger] ls[j]) is None)
            ==> first_range(ls, from) is None,
    decreases ls.len() - from,
{
    if from < ls.len() && range_value(ls[from]) is None {
        lemma_first_range(ls, from + 1, k);
    }
}

/// The head of a reply that is passed back gives the status, then says that
/// ranges can be asked for and that the connection is closed, then gives each
/// of the three headers that the server gave, in full, and ends with a blank
/// line.
#[verifier::rlimit(50)]
pub proof fn law_head(
    status: u16,
    reason: Seq<char>,
    length: Seq<char>,
    range: Seq<char>,
    kind: Seq<char>,
)
    ensures
        ({
            let start = "HTTP/1.1 "@ + decimal(status as int) + " "@;
            let fixed = "\r\nAccept-Ranges: bytes\r\nConnection: close\r\n"@;
            &&& head_text(status, None, None, None, None) == start + fixed + "\r\n"@
            &&& head_text(status, Some(reason), None, None, None) == start + reason + fixed
                + "\r\n"@
            &&& head_text(status, Some(reason), Some(length), None, None) == start + reason + fixed
                + "content-length: "@ + length + "\r\n"@ + "\r\n"@
            &&& head_text(status, Some(reason), Some(length), Some(range), Some(kind)) == start
                + reason + fixed + "content-length: "@ + length + "\r\n"@ + "content-range: "@
                + range + "\r\n"@ + "content-type: "@ + kind + "\r\n"@ + "\r\n"@
        }),
        header_line("x"@, None).len() == 0,
        error_text(status) == "HTTP/1.1 "@ + decimal(status as int)
            + " Error\r\nConnection: close\r\n\r\n"@,
{
    let start = "HTTP/1.1 "@ + decimal(status as int) + " "@;
    let fixed = "\r\nAccept-Ranges: bytes\r\nConnection: close\r\n"@;
    lemma_names();
    let e = Seq::<char>::empty();
    assert(start + e =~= start);
    assert(start + fixed + e =~= start + fixed);
    let a = start + reason + fixed;
    assert(a + e =~= a);
    let b = header_line("content-length"@, Some(length));
    assert(a + b =~= a + "content-length: "@ + length + "\r\n"@);
    assert(a + b + e =~= a + b);
    let c = header_line("content-range"@, Some(range));
    assert(a + b + c =~= a + b + "content-range: "@ + range + "\r\n"@);
    let d = header_line("content-type"@, Some(kind));
    assert(a + b + c + d =~= a + b + c + "content-type: "@ + kind + "\r\n"@);
}

/// The names of the headers with what follows them.
proof fn lemma_names()
    ensures
        "content-length"@ + ": "@ == "content-length: "@,
        "content-range"@ + ": "@ == "content-range: "@,
        "content-type"@ + ": "@ == "content-type: "@,
{
    reveal_strlit(": ");
    reveal_strlit("content-length");
    reveal_strlit("content-length: ");
    reveal_strlit("content-range");
    reveal_strlit("content-range: ");
    reveal_strlit("content-type");
    reveal_strlit("content-type: ");
    assert("content-length"@ + ": "@ =~= "content-length: "@);
    assert("content-range"@ + ": "@ =~= "content-range: "@);
    assert("content-type"@ + ": "@ =~= "content-type: "@);
}

/// A header that the server gave is passed back with its whole value, and one
/// that it did not give is left out, whichever of the three it is.
pub proof fn law_header_lines(
    status: u16,
    reason: Option<Seq<char>>,
    length: Option<Seq<char>>,
    range: Option<Seq<char>>,
    kind: Option<Seq<char>>,
    name: Seq<char>,
    value: Seq<char>,
)
    ensures
        header_line(name, None) == Seq::<char>::empty(),
        header_line(name, Some(value)).len() == name.len() + value.len() + 4,
        header_line(name, Some(value)).take(name.len() as int) == name,
        header_line(name, Some(value)).subrange(
            name.len() as int + 2,
            name.len() as int + 2 + value.len(),
        ) == value,
        ({
            let lines = header_line("content-length"@, length) + header_line(
                "content-range"@,
                range,
            ) + header_line("content-type"@, kind) + "\r\n"@;
            let head = head_text(status, reason, length, range, kind);
            &&& head.len() >= lines.len()
            &&& head.skip(head.len() - lines.len()) == lines
            &&& head.take(head.len() - lines.len()) + "\r\n"@ == head_text(
                status,
                reason,
                None,
                None,
                None,
            )
        }),
{
    reveal_strlit(": ");
    reveal_strlit("\r\n");
    let l = header_line(name, Some(value));
    assert(l.take(name.len() as int) =~= name);
    assert(l.subrange(name.len() as int + 2, name.len() as int + 2 + value.len()) =~= value);
    let a = header_line("content-length"@, length);
    let b = header_line("content-range"@, range);
    let c = header_line("content-type"@, kind);
    let end = "\r\n"@;
    let start = "HTTP/1.1 "@ + decimal(status as int) + " "@ + (match reason {
        Some(r) => r,
        None => Seq::empty(),
    }) + "\r\nAccept-Ranges: bytes\r\nConnection: close\r\n"@;
    let head = head_text(status, reason, length, range, kind);
    let rest = a + b + c + end;
    lemma_head_parts(start, a, b, c, end);
    assert(head == start + rest);
    assert(head.skip(start.len() as int) =~= rest);
    assert(head.take(start.len() as int) =~= start);
    let none = Seq::<char>::empty();
    assert(start + none + none + none =~= start);
}

proof fn lemma_head_parts(s: Seq<char>, a: Seq<char>, b: Seq<char>, c: Seq<char>, d: Seq<char>)
    ensures
        s + a + b + c + d == s + (a + b + c + d),
{
    assert(s + a + b =~= s + (a + b));
    assert(s + (a + b) + c =~= s + (a + b + c));
    assert(s + (a + b + c) + d =~= s + (a + b + c + d));
}

} // verus!
