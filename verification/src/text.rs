//! Text as sequences of characters.
//!
//! Every string of the library is specified by its view, the sequence of its
//! Unicode scalar values. The functions here read and cut such sequences; the
//! other modules state what they do with text over the specifications below.
use vstd::prelude::*;
use vstd::slice::slice_subrange;
use vstd::string::*;
use vstd::utf8::*;

verus! {

/// `String::push` appends one character to the end of the string.
pub assume_specification[ String::push ](s: &mut String, c: char)
    ensures
        final(s)@ == old(s)@.push(c),
;

// ---- characters ---------------------------------------------------------

/// The characters with Unicode's `White_Space` property.
pub open spec fn is_white_space(c: char) -> bool {
    ||| '\u{9}' <= c <= '\u{d}'
    ||| c == ' '
    ||| c == '\u{85}'
    ||| c == '\u{a0}'
    ||| c == '\u{1680}'
    ||| '\u{2000}' <= c <= '\u{200a}'
    ||| c == '\u{2028}'
    ||| c == '\u{2029}'
    ||| c == '\u{202f}'
    ||| c == '\u{205f}'
    ||| c == '\u{3000}'
}

/// An ASCII digit or letter.
pub open spec fn is_ascii_alnum(c: char) -> bool {
    '0' <= c <= '9' || 'A' <= c <= 'Z' || 'a' <= c <= 'z'
}

/// `A`-`Z` become `a`-`z`, every other character stays.
pub open spec fn lower_char(c: char) -> char {
    if 'A' <= c <= 'Z' {
        ((c as u32 + 32) as u32) as char
    } else {
        c
    }
}

/// Whether `c` has Unicode's `White_Space` property.
pub fn white_space(c: char) -> (r: bool)
    ensures
        r == is_white_space(c),
{
    ('\u{9}' <= c && c <= '\u{d}') || c == ' ' || c == '\u{85}' || c == '\u{a0}' || c == '\u{1680}'
        || ('\u{2000}' <= c && c <= '\u{200a}') || c == '\u{2028}' || c == '\u{2029}'
        || c == '\u{202f}' || c == '\u{205f}' || c == '\u{3000}'
}

/// Whether `c` is an ASCII digit or letter.
pub fn ascii_alnum(c: char) -> (r: bool)
    ensures
        r == is_ascii_alnum(c),
{
    ('0' <= c && c <= '9') || ('A' <= c && c <= 'Z') || ('a' <= c && c <= 'z')
}

/// The ASCII lower case of one character.
pub fn to_lower_char(c: char) -> (r: char)
    ensures
        r == lower_char(c),
{
    if 'A' <= c && c <= 'Z' {
        let n: u8 = c as u8;
        (n + 32) as char
    } else {
        c
    }
}

// ---- conversions --------------------------------------------------------

/// The characters of a string.
pub fn chars_of(s: &str) -> (r: Vec<char>)
    ensures
        r@ == s@,
{
    let mut out: Vec<char> = Vec::new();
    for c in it: s.chars()
        invariant
            it.seq() == s@,
            out@ == it.seq().take(it.index() as int),
    {
        out.push(c);
    }
    out
}

/// The string of the given characters.
pub fn string_of(cs: &[char]) -> (r: String)
    ensures
        r@ == cs@,
{
    let mut out = String::new();
    let n: usize = cs.len();
    for i in 0..n
        invariant
            n == cs@.len(),
            out@ == cs@.take(i as int),
    {
        out.push(cs[i]);
    }
    out
}

/// The views of a list of character slices.
pub open spec fn slice_views(v: Seq<&[char]>) -> Seq<Seq<char>> {
    v.map_values(|x: &[char]| x@)
}

/// The views of a list of strings.
pub open spec fn string_views(v: Seq<String>) -> Seq<Seq<char>> {
    v.map_values(|x: String| x@)
}

/// The view of an optional string.
pub open spec fn opt_view(o: Option<String>) -> Option<Seq<char>> {
    match o {
        Some(s) => Some(s@),
        None => None,
    }
}

/// The view of an optional string slice.
pub open spec fn opt_str_view(o: Option<&str>) -> Option<Seq<char>> {
    match o {
        Some(s) => Some(s@),
        None => None,
    }
}

/// A string with the same characters.
pub fn owned(s: &str) -> (r: String)
    ensures
        r@ == s@,
{
    s.to_owned()
}

/// A clone of an optional string.
pub fn clone_opt(o: &Option<String>) -> (r: Option<String>)
    ensures
        r == *o,
{
    match o {
        Some(s) => Some(s.clone()),
        None => None,
    }
}

/// A clone of a list of strings.
pub fn clone_strings(v: &Vec<String>) -> (r: Vec<String>)
    ensures
        r@ == v@,
{
    let mut out: Vec<String> = Vec::new();
    let n: usize = v.len();
    for i in 0..n
        invariant
            n == v@.len(),
            out@ == v@.take(i as int),
    {
        out.push(v[i].clone());
    }
    proof {
        assert(v@.take(n as int) =~= v@);
    }
    out
}

// ---- comparison ---------------------------------------------------------

/// Whether two character sequences are the same.
pub fn same(a: &[char], b: &[char]) -> (r: bool)
    ensures
        r == (a@ == b@),
{
    if a.len() != b.len() {
        return false;
    }
    let n: usize = a.len();
    for i in 0..n
        invariant
            n == a@.len(),
            a@.len() == b@.len(),
            forall|j: int| 0 <= j < i ==> a@[j] == b@[j],
    {
        if a[i] != b[i] {
            return false;
        }
    }
    proof {
        assert(a@ =~= b@);
    }
    true
}

/// Whether two strings are the same.
pub fn same_str(a: &str, b: &str) -> (r: bool)
    ensures
        r == (a@ == b@),
{
    let x: &[u8] = a.as_bytes();
    let y: &[u8] = b.as_bytes();
    proof {
        encode_utf8_decode_utf8(a@);
        encode_utf8_decode_utf8(b@);
    }
    if x.len() != y.len() {
        return false;
    }
    let n: usize = x.len();
    for i in 0..n
        invariant
            n == x@.len(),
            x@.len() == y@.len(),
            x@ == encode_utf8(a@),
            y@ == encode_utf8(b@),
            forall|j: int| 0 <= j < i ==> x@[j] == y@[j],
    {
        if x[i] != y[i] {
            return false;
        }
    }
    proof {
        assert(x@ =~= y@);
    }
    true
}

/// Whether a string occurs in a list of strings.
pub fn listed(s: &str, list: &[String]) -> (r: bool)
    ensures
        r == string_views(list@).contains(s@),
{
    let n: usize = list.len();
    for i in 0..n
        invariant
            n == list@.len(),
            forall|j: int| 0 <= j < i ==> (#[trigger] list@[j])@ != s@,
    {
        if same_str(list[i].as_str(), s) {
            proof {
                assert(string_views(list@)[i as int] == s@);
            }
            return true;
        }
    }
    false
}

// ---- lower case ---------------------------------------------------------

/// A sequence with every ASCII letter in lower case.
pub open spec fn lower(s: Seq<char>) -> Seq<char> {
    s.map_values(|c: char| lower_char(c))
}

/// `s` with every ASCII letter in lower case.
pub fn to_lower(s: &[char]) -> (r: Vec<char>)
    ensures
        r@ == lower(s@),
{
    let mut out: Vec<char> = Vec::new();
    let n: usize = s.len();
    for i in 0..n
        invariant
            n == s@.len(),
            out@ == lower(s@).take(i as int),
    {
        out.push(to_lower_char(s[i]));
        proof {
            assert(out@ =~= lower(s@).take(i + 1));
        }
    }
    proof {
        assert(lower(s@).take(n as int) =~= lower(s@));
    }
    out
}

/// Whether two strings differ at most in the case of ASCII letters.
pub fn same_ignoring_case(a: &str, b: &str) -> (r: bool)
    ensures
        r == (lower(a@) == lower(b@)),
{
    let x = to_lower(chars_of(a).as_slice());
    let y = to_lower(chars_of(b).as_slice());
    same(x.as_slice(), y.as_slice())
}

// ---- trimming -----------------------------------------------------------

/// Without the white space at the start.
pub open spec fn trim_start(s: Seq<char>) -> Seq<char>
    decreases s.len(),
{
    if s.len() > 0 && is_white_space(s[0]) {
        trim_start(s.subrange(1, s.len() as int))
    } else {
        s
    }
}

/// Without the white space at the end.
pub open spec fn trim_end(s: Seq<char>) -> Seq<char>
    decreases s.len(),
{
    if s.len() > 0 && is_white_space(s.last()) {
        trim_end(s.drop_last())
    } else {
        s
    }
}

/// Without the white space at both ends.
pub open spec fn trim(s: Seq<char>) -> Seq<char> {
    trim_end(trim_start(s))
}

/// A text without white space at its ends is not changed by trimming.
pub proof fn lemma_trim_stays(s: Seq<char>)
    requires
        s.len() > 0 ==> !is_white_space(s[0]) && !is_white_space(s.last()),
    ensures
        trim(s) == s,
{
}

/// Trimming leaves no white space at the ends, so that trimming once is enough.
pub proof fn lemma_trimmed(s: Seq<char>)
    ensures
        trim(s).len() > 0 ==> !is_white_space(trim(s)[0]) && !is_white_space(trim(s).last()),
        trim(trim(s)) == trim(s),
    decreases s.len(),
{
    lemma_trim_start(s);
    lemma_trim_end(trim_start(s));
    lemma_trim_stays(trim(s));
}

proof fn lemma_trim_start(s: Seq<char>)
    ensures
        trim_start(s).len() > 0 ==> !is_white_space(trim_start(s)[0]),
    decreases s.len(),
{
    if s.len() > 0 && is_white_space(s[0]) {
        lemma_trim_start(s.subrange(1, s.len() as int));
    }
}

proof fn lemma_trim_end(s: Seq<char>)
    ensures
        trim_end(s).len() > 0 ==> !is_white_space(trim_end(s).last()) && trim_end(s)[0] == s[0],
    decreases s.len(),
{
    if s.len() > 0 && is_white_space(s.last()) {
        lemma_trim_end(s.drop_last());
    }
}

/// `s` without the white space at both ends.
pub fn trimmed<'a>(s: &'a [char]) -> (r: &'a [char])
    ensures
        r@ == trim(s@),
{
    let n: usize = s.len();
    let mut from: usize = 0;
    proof {
        assert(s@.subrange(0, n as int) =~= s@);
    }
    while from < n && white_space(s[from])
        invariant
            n == s@.len(),
            from <= n,
            trim_start(s@) == trim_start(s@.subrange(from as int, n as int)),
        decreases n - from,
    {
        proof {
            let cur = s@.subrange(from as int, n as int);
            assert(cur.subrange(1, cur.len() as int) =~= s@.subrange(from + 1, n as int));
        }
        from = from + 1;
    }
    let mut to: usize = n;
    let ghost body = s@.subrange(from as int, n as int);
    proof {
        assert(trim_start(s@) == body);
    }
    while from < to && white_space(s[to - 1])
        invariant
            n == s@.len(),
            from <= to <= n,
            trim_end(body) == trim_end(s@.subrange(from as int, to as int)),
        decreases to,
    {
        proof {
            let cur = s@.subrange(from as int, to as int);
            assert(cur.drop_last() =~= s@.subrange(from as int, to - 1));
        }
        to = to - 1;
    }
    slice_subrange(s, from, to)
}

/// A string without the white space at both ends.
pub fn trimmed_str(s: &str) -> (r: String)
    ensures
        r@ == trim(s@),
{
    string_of(trimmed(chars_of(s).as_slice()))
}

// ---- searching ----------------------------------------------------------

/// Whether `needle` stands in `s` at position `i`.
pub open spec fn occurs_at(s: Seq<char>, needle: Seq<char>, i: int) -> bool {
    0 <= i && i + needle.len() <= s.len() && s.subrange(i, i + needle.len()) == needle
}

/// The first position from `from` on at which `needle` stands in `s`.
pub open spec fn find_from(s: Seq<char>, needle: Seq<char>, from: int) -> Option<int>
    decreases s.len() - from + 1,
{
    if from < 0 || from + needle.len() > s.len() {
        None
    } else if occurs_at(s, needle, from) {
        Some(from)
    } else {
        find_from(s, needle, from + 1)
    }
}

/// The first position at which `needle` stands in `s`.
pub open spec fn find(s: Seq<char>, needle: Seq<char>) -> Option<int> {
    find_from(s, needle, 0)
}

/// Whether `needle` stands anywhere in `s`.
pub open spec fn includes(s: Seq<char>, needle: Seq<char>) -> bool {
    find(s, needle) is Some
}

/// Whether `s` begins with `prefix`.
pub open spec fn begins(s: Seq<char>, prefix: Seq<char>) -> bool {
    prefix.len() <= s.len() && s.subrange(0, prefix.len() as int) == prefix
}

/// The first position from `from` on at which the character `c` stands.
pub open spec fn index_from(s: Seq<char>, c: char, from: int) -> Option<int>
    decreases s.len() - from,
{
    if from < 0 || from >= s.len() {
        None
    } else if s[from] == c {
        Some(from)
    } else {
        index_from(s, c, from + 1)
    }
}

/// The first position of the character `c`.
pub open spec fn index_of(s: Seq<char>, c: char) -> Option<int> {
    index_from(s, c, 0)
}

/// The last position below `to` at which the character `c` stands.
pub open spec fn last_index_below(s: Seq<char>, c: char, to: int) -> Option<int>
    decreases to,
{
    if to <= 0 || to > s.len() {
        None
    } else if s[to - 1] == c {
        Some(to - 1)
    } else {
        last_index_below(s, c, to - 1)
    }
}

/// The last position of the character `c`.
pub open spec fn last_index_of(s: Seq<char>, c: char) -> Option<int> {
    last_index_below(s, c, s.len() as int)
}

/// What `find_from` returns lies in the sequence, and the needle stands there.
pub proof fn lemma_find_from(s: Seq<char>, needle: Seq<char>, from: int)
    requires
        0 <= from,
    ensures
        find_from(s, needle, from) matches Some(i) ==> from <= i && occurs_at(s, needle, i),
        find_from(s, needle, from) matches Some(i) ==> forall|j: int|
            from <= j < i ==> !occurs_at(s, needle, j),
        find_from(s, needle, from) is None ==> forall|j: int|
            from <= j ==> !occurs_at(s, needle, j),
    decreases s.len() - from + 1,
{
    if from + needle.len() <= s.len() && !occurs_at(s, needle, from) {
        lemma_find_from(s, needle, from + 1);
    }
}

/// What `index_from` returns is the first place of the character.
pub proof fn lemma_index_from(s: Seq<char>, c: char, from: int)
    requires
        0 <= from,
    ensures
        index_from(s, c, from) matches Some(i) ==> from <= i < s.len() && s[i] == c,
        index_from(s, c, from) matches Some(i) ==> forall|j: int| from <= j < i ==> s[j] != c,
        index_from(s, c, from) is None ==> forall|j: int| from <= j < s.len() ==> s[j] != c,
    decreases s.len() - from,
{
    if from < s.len() && s[from] != c {
        lemma_index_from(s, c, from + 1);
    }
}

/// What `last_index_below` returns is the last place of the character.
pub proof fn lemma_last_index_below(s: Seq<char>, c: char, to: int)
    requires
        0 <= to <= s.len(),
    ensures
        last_index_below(s, c, to) matches Some(i) ==> 0 <= i < to && s[i] == c,
        last_index_below(s, c, to) matches Some(i) ==> forall|j: int| i < j < to ==> s[j] != c,
        last_index_below(s, c, to) is None ==> forall|j: int| 0 <= j < to ==> s[j] != c,
    decreases to,
{
    if to > 0 && s[to - 1] != c {
        lemma_last_index_below(s, c, to - 1);
    }
}

/// Whether `needle` stands in `s` at position `i`.
fn matches_at(s: &[char], needle: &[char], i: usize) -> (r: bool)
    requires
        i + needle@.len() <= s@.len(),
    ensures
        r == occurs_at(s@, needle@, i as int),
{
    let n: usize = s.len();
    let end: usize = i + needle.len();
    proof {
        assert(end <= n);
    }
    same(slice_subrange(s, i, end), needle)
}

/// The first position at which `needle` stands in `s`.
pub fn position(s: &[char], needle: &[char]) -> (r: Option<usize>)
    ensures
        r is Some <==> find(s@, needle@) is Some,
        r matches Some(i) ==> find(s@, needle@) == Some(i as int) && i + needle@.len() <= s@.len(),
{
    if needle.len() > s.len() {
        return None;
    }
    let last: usize = s.len() - needle.len();
    let mut i: usize = 0;
    loop
        invariant
            needle@.len() <= s@.len(),
            last == s@.len() - needle@.len(),
            i <= last,
            find(s@, needle@) == find_from(s@, needle@, i as int),
        decreases last - i,
    {
        if matches_at(s, needle, i) {
            return Some(i);
        }
        if i == last {
            return None;
        }
        i = i + 1;
    }
}

/// Whether `needle` stands anywhere in `s`.
pub fn contains(s: &[char], needle: &[char]) -> (r: bool)
    ensures
        r == includes(s@, needle@),
{
    position(s, needle).is_some()
}

/// Whether `s` begins with `prefix`.
pub fn starts_with(s: &[char], prefix: &[char]) -> (r: bool)
    ensures
        r == begins(s@, prefix@),
{
    if prefix.len() > s.len() {
        false
    } else {
        same(slice_subrange(s, 0, prefix.len()), prefix)
    }
}

/// The first position of the character `c`.
pub fn char_position(s: &[char], c: char) -> (r: Option<usize>)
    ensures
        r is Some <==> index_of(s@, c) is Some,
        r matches Some(i) ==> index_of(s@, c) == Some(i as int) && i < s@.len(),
{
    let n: usize = s.len();
    for i in 0..n
        invariant
            n == s@.len(),
            index_of(s@, c) == index_from(s@, c, i as int),
    {
        if s[i] == c {
            return Some(i);
        }
    }
    None
}

/// The last position of the character `c`.
pub fn last_char_position(s: &[char], c: char) -> (r: Option<usize>)
    ensures
        r is Some <==> last_index_of(s@, c) is Some,
        r matches Some(i) ==> last_index_of(s@, c) == Some(i as int) && i < s@.len(),
{
    let mut to: usize = s.len();
    while to > 0
        invariant
            to <= s@.len(),
            last_index_of(s@, c) == last_index_below(s@, c, to as int),
        decreases to,
    {
        if s[to - 1] == c {
            return Some(to - 1);
        }
        to = to - 1;
    }
    None
}

// ---- lines --------------------------------------------------------------

/// A line without the carriage return that belongs to its line feed.
pub open spec fn without_cr(s: Seq<char>) -> Seq<char> {
    if s.len() > 0 && s.last() == '\r' {
        s.drop_last()
    } else {
        s
    }
}

/// The lines of a text: each ends at a line feed, alone or after a carriage
/// return, which is not part of it; the end of the text ends the last line.
pub open spec fn lines(s: Seq<char>) -> Seq<Seq<char>>
    decreases s.len(),
{
    if s.len() == 0 {
        Seq::empty()
    } else {
        match index_of(s, '\n') {
            Some(i) => if 0 <= i < s.len() {
                seq![without_cr(s.subrange(0, i))] + lines(s.subrange(i + 1, s.len() as int))
            } else {
                seq![s]
            },
            None => seq![s],
        }
    }
}

/// The lines of a text that ends with a line feed stay as they are, whatever
/// follows it.
pub proof fn lemma_lines_append(s: Seq<char>, more: Seq<char>)
    requires
        s.len() > 0,
        s.last() == '\n',
    ensures
        lines(s + more) == lines(s) + lines(more),
    decreases s.len(),
{
    let all = s + more;
    lemma_index_from(s, '\n', 0);
    lemma_index_from(all, '\n', 0);
    assert(s[s.len() - 1] == '\n');
    let i = index_of(s, '\n')->0;
    assert(all[i] == s[i]);
    let k = index_of(all, '\n')->0;
    if k < i {
        assert(all[k] == s[k]);
    }
    assert(k == i);
    assert(all.subrange(0, i) =~= s.subrange(0, i));
    let rest = s.subrange(i + 1, s.len() as int);
    assert(all.subrange(i + 1, all.len() as int) =~= rest + more);
    let line = seq![without_cr(s.subrange(0, i))];
    if rest.len() == 0 {
        assert(rest + more =~= more);
        assert(line + lines(rest) =~= line);
    } else {
        lemma_lines_append(rest, more);
        assert(line + (lines(rest) + lines(more)) =~= (line + lines(rest)) + lines(more));
    }
}

/// The lines of a text.
pub fn split_lines<'a>(s: &'a [char]) -> (r: Vec<&'a [char]>)
    ensures
        slice_views(r@) == lines(s@),
{
    let mut out: Vec<&'a [char]> = Vec::new();
    let mut rest: &'a [char] = s;
    proof {
        assert(slice_views(out@) =~= Seq::<Seq<char>>::empty());
        assert(Seq::<Seq<char>>::empty() + lines(s@) =~= lines(s@));
    }
    while rest.len() > 0
        invariant
            slice_views(out@) + lines(rest@) == lines(s@),
        decreases rest@.len(),
    {
        let ghost before = out@;
        let ghost text = rest@;
        let n: usize = rest.len();
        match char_position(rest, '\n') {
            Some(i) => {
                let line: &'a [char] = if i > 0 && rest[i - 1] == '\r' {
                    slice_subrange(rest, 0, i - 1)
                } else {
                    slice_subrange(rest, 0, i)
                };
                proof {
                    let whole = text.subrange(0, i as int);
                    if i > 0 && text[i - 1] == '\r' {
                        assert(whole.drop_last() =~= text.subrange(0, i - 1));
                    }
                    assert(line@ == without_cr(whole));
                }
                out.push(line);
                rest = slice_subrange(rest, i + 1, n);
                proof {
                    assert(slice_views(out@) =~= slice_views(before).push(line@));
                    assert(slice_views(before) + (seq![line@] + lines(rest@)) =~= slice_views(
                        before,
                    ).push(line@) + lines(rest@));
                }
            },
            None => {
                out.push(rest);
                rest = slice_subrange(rest, n, n);
                proof {
                    assert(slice_views(out@) =~= slice_views(before).push(text));
                    assert(lines(rest@) =~= Seq::<Seq<char>>::empty());
                    assert(slice_views(before) + seq![text] =~= slice_views(before).push(text)
                        + Seq::<Seq<char>>::empty());
                }
            },
        }
    }
    proof {
        assert(slice_views(out@) + lines(rest@) =~= slice_views(out@));
    }
    out
}

// ---- laws ---------------------------------------------------------------

/// White space is what Unicode lists under `White_Space`; in particular no
/// letter, digit or other mark of ASCII is.
pub proof fn law_white_space(c: char)
    ensures
        is_white_space(c) <==> {
            let n = c as u32;
            9 <= n <= 13 || n == 32 || n == 0x85 || n == 0xa0 || n == 0x1680 || 0x2000 <= n <= 0x200a
                || n == 0x2028 || n == 0x2029 || n == 0x202f || n == 0x205f || n == 0x3000
        },
        33 <= c as u32 <= 126 ==> !is_white_space(c),
{
}

/// Lower case changes the 26 capital letters of ASCII, each to the letter that
/// stands 32 places behind it, and no other character.
pub proof fn law_lower(s: Seq<char>)
    ensures
        lower(s).len() == s.len(),
        forall|i: int|
            0 <= i < s.len() && 65 <= s[i] as u32 <= 90 ==> (#[trigger] lower(s)[i]) as u32
                == s[i] as u32 + 32,
        forall|i: int|
            0 <= i < s.len() && !(65 <= s[i] as u32 <= 90) ==> #[trigger] lower(s)[i] == s[i],
        lower(lower(s)) == lower(s),
{
    assert(lower(lower(s)) =~= lower(s));
}

/// ASCII letters and digits.
pub proof fn law_ascii_alnum(c: char)
    ensures
        is_ascii_alnum(c) <==> 48 <= c as u32 <= 57 || 65 <= c as u32 <= 90 || 97 <= c as u32 <= 122,
{
}

/// Trimming takes away all white space around a text, and nothing else.
pub proof fn law_trim(before: Seq<char>, body: Seq<char>, after: Seq<char>)
    requires
        forall|i: int| 0 <= i < before.len() ==> is_white_space(#[trigger] before[i]),
        forall|i: int| 0 <= i < after.len() ==> is_white_space(#[trigger] after[i]),
        body.len() > 0 ==> !is_white_space(body[0]) && !is_white_space(body.last()),
    ensures
        trim(before + body + after) == body,
{
    lemma_trim_start_takes(before, body + after);
    assert(before + (body + after) =~= before + body + after);
    if body.len() == 0 {
        assert(body + after =~= after);
        lemma_trim_start_takes(after, body);
        assert(after + body =~= after);
    } else {
        assert((body + after)[0] == body[0]);
        lemma_trim_end_takes(body, after);
    }
}

proof fn lemma_trim_start_takes(before: Seq<char>, rest: Seq<char>)
    requires
        forall|i: int| 0 <= i < before.len() ==> is_white_space(#[trigger] before[i]),
    ensures
        trim_start(before + rest) == trim_start(rest),
    decreases before.len(),
{
    if before.len() == 0 {
        assert(before + rest =~= rest);
    } else {
        let all = before + rest;
        assert(all[0] == before[0]);
        assert(all.subrange(1, all.len() as int) =~= before.subrange(1, before.len() as int) + rest);
        lemma_trim_start_takes(before.subrange(1, before.len() as int), rest);
    }
}

proof fn lemma_trim_end_takes(body: Seq<char>, after: Seq<char>)
    requires
        forall|i: int| 0 <= i < after.len() ==> is_white_space(#[trigger] after[i]),
    ensures
        trim_end(body + after) == trim_end(body),
    decreases after.len(),
{
    if after.len() == 0 {
        assert(body + after =~= body);
    } else {
        let all = body + after;
        assert(all.last() == after.last());
        assert(all.drop_last() =~= body + after.drop_last());
        lemma_trim_end_takes(body, after.drop_last());
    }
}

/// A text is found where it stands for the first time: nowhere before `at`,
/// and at `at`.
pub proof fn law_find(s: Seq<char>, needle: Seq<char>, at: int)
    requires
        0 <= at,
        at + needle.len() <= s.len(),
        s.subrange(at, at + needle.len()) == needle,
        forall|j: int|
            0 <= j < at ==> (#[trigger] s.skip(j)).take(needle.len() as int) != needle,
    ensures
        find(s, needle) == Some(at),
        includes(s, needle),
{
    lemma_find_from(s, needle, 0);
    assert(occurs_at(s, needle, at));
    match find(s, needle) {
        Some(i) => {
            if i < at {
                assert(s.skip(i).take(needle.len() as int) =~= s.subrange(i, i + needle.len()));
            }
        },
        None => {},
    }
}

/// A text that stands nowhere is not found.
pub proof fn law_not_found(s: Seq<char>, needle: Seq<char>)
    requires
        forall|j: int|
            0 <= j && j + needle.len() <= s.len() ==> (#[trigger] s.skip(j)).take(
                needle.len() as int,
            ) != needle,
    ensures
        find(s, needle) is None,
        !includes(s, needle),
{
    lemma_find_from(s, needle, 0);
    match find(s, needle) {
        Some(i) => {
            assert(s.skip(i).take(needle.len() as int) =~= s.subrange(i, i + needle.len()));
        },
        None => {},
    }
}

/// What a text begins with can be put in front of the rest, and the other way
/// round.
pub proof fn law_begins(s: Seq<char>, prefix: Seq<char>, rest: Seq<char>)
    ensures
        begins(prefix + rest, prefix),
        begins(s, prefix) ==> s == prefix + s.skip(prefix.len() as int),
        (exists|tail: Seq<char>| s == prefix + tail) ==> begins(s, prefix),
{
    assert((prefix + rest).subrange(0, prefix.len() as int) =~= prefix);
    if begins(s, prefix) {
        assert(s =~= s.subrange(0, prefix.len() as int) + s.skip(prefix.len() as int));
    }
    if exists|tail: Seq<char>| s == prefix + tail {
        let tail = choose|tail: Seq<char>| s == prefix + tail;
        assert((prefix + tail).subrange(0, prefix.len() as int) =~= prefix);
    }
}

/// The first line of a text is what stands before its first line feed, and the
/// other lines are those of the rest. A carriage return before the line feed
/// is no part of the line. A text without a line feed is one line, unless it is
/// empty.
pub proof fn law_lines(line: Seq<char>, rest: Seq<char>)
    requires
        forall|i: int| 0 <= i < line.len() ==> line[i] != '\n',
    ensures
        lines(Seq::<char>::empty()).len() == 0,
        line.len() > 0 ==> lines(line) == seq![line],
        (line.len() == 0 || line.last() != '\r') ==> lines(line.push('\n') + rest) == seq![line]
            + lines(rest),
        lines(line.push('\r').push('\n') + rest) == seq![line] + lines(rest),
{
    lemma_index_from(line, '\n', 0);
    lemma_line_feed(line, rest);
    lemma_line_feed(line.push('\r'), rest);
    assert(line.push('\r').drop_last() =~= line);
}

proof fn lemma_line_feed(line: Seq<char>, rest: Seq<char>)
    requires
        forall|i: int| 0 <= i < line.len() ==> line[i] != '\n',
    ensures
        lines(line.push('\n') + rest) == seq![without_cr(line)] + lines(rest),
{
    let s = line.push('\n') + rest;
    lemma_index_from(s, '\n', 0);
    assert(s[line.len() as int] == '\n');
    let i = index_of(s, '\n')->0;
    if i < line.len() {
        assert(s[i] == line[i]);
    }
    assert(i == line.len());
    assert(s.subrange(0, i) =~= line);
    assert(s.subrange(i + 1, s.len() as int) =~= rest);
}

/// A text stands in another where it is a part of it.
pub proof fn law_includes(s: Seq<char>, needle: Seq<char>)
    ensures
        includes(s, needle) <==> exists|i: int|
            0 <= i && i + needle.len() <= s.len() && (#[trigger] s.skip(i)).take(
                needle.len() as int,
            ) == needle,
{
    lemma_find_from(s, needle, 0);
    let n = needle.len() as int;
    match find(s, needle) {
        Some(i) => {
            assert(s.skip(i).take(n) =~= s.subrange(i, i + n));
        },
        None => {
            if exists|i: int|
                0 <= i && i + needle.len() <= s.len() && (#[trigger] s.skip(i)).take(n) == needle {
                let i = choose|i: int|
                    0 <= i && i + needle.len() <= s.len() && (#[trigger] s.skip(i)).take(n)
                        == needle;
                assert(s.skip(i).take(n) =~= s.subrange(i, i + n));
                assert(occurs_at(s, needle, i));
            }
        },
    }
}

/// The views of texts are the texts, one for one and in their order.
pub proof fn law_views(v: Seq<String>, w: Seq<&[char]>, s: String, t: &str, i: int)
    ensures
        string_views(v).len() == v.len(),
        0 <= i < v.len() ==> string_views(v)[i] == v[i]@,
        slice_views(w).len() == w.len(),
        0 <= i < w.len() ==> slice_views(w)[i] == w[i]@,
        opt_view(Some(s)) == Some(s@),
        opt_view(None) is None,
        opt_str_view(Some(t)) == Some(t@),
        opt_str_view(None) is None,
{
}

} // verus!
