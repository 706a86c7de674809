//! A reader for M3U playlists with `#EXTINF` attributes.
//!
//! TVHeadend's `playlist/channels` (or `playlist/auth/channels`) endpoint
//! returns entries like:
//!
//! ```text
//! #EXTM3U x-tvg-url="http://host:9981/xmltv/channels"
//! #EXTINF:-1 logo="http://host:9981/imagecache/7167?auth=..." tvg-id="978ff..." tvg-chno="1",Das Erste HD
//! http://host:9981/stream/channelid/1241288599?auth=...&profile=pass
//! ```
//!
//! The header's `x-tvg-url` is not read: guide data comes from the server's
//! own JSON API.
use vstd::prelude::*;
use vstd::slice::slice_subrange;
use vstd::string::*;

use crate::text::{
    begins, chars_of, contains, find, includes, index_from, index_of, last_char_position,
    last_index_of, law_find, law_lines, law_not_found, lemma_index_from, lemma_last_index_below,
    lemma_lines_append, lines, lower, opt_view, owned, position, slice_views, split_lines,
    starts_with, string_of, to_lower, trim, trimmed,
};

verus! {

/// One entry of a playlist.
#[derive(Debug)]
pub struct M3uItem {
    pub channel_id: String,
    pub channel_number: String,
    pub channel_name: String,
    pub logo_url: String,
    pub stream_url: String,
}

impl Clone for M3uItem {
    fn clone(&self) -> (r: Self)
        ensures
            r == *self,
    {
        M3uItem {
            channel_id: self.channel_id.clone(),
            channel_number: self.channel_number.clone(),
            channel_name: self.channel_name.clone(),
            logo_url: self.logo_url.clone(),
            stream_url: self.stream_url.clone(),
        }
    }
}

/// The text of one entry.
pub struct M3uItemView {
    pub channel_id: Seq<char>,
    pub channel_number: Seq<char>,
    pub channel_name: Seq<char>,
    pub logo_url: Seq<char>,
    pub stream_url: Seq<char>,
}

impl View for M3uItem {
    type V = M3uItemView;

    open spec fn view(&self) -> M3uItemView {
        M3uItemView {
            channel_id: self.channel_id@,
            channel_number: self.channel_number@,
            channel_name: self.channel_name@,
            logo_url: self.logo_url@,
            stream_url: self.stream_url@,
        }
    }
}

/// What a playlist holds.
#[derive(Debug)]
pub struct ParseResult {
    pub items: Vec<M3uItem>,
}

impl Default for ParseResult {
    fn default() -> (r: Self)
        ensures
            r.items@.len() == 0,
    {
        ParseResult { items: Vec::new() }
    }
}

impl Clone for ParseResult {
    fn clone(&self) -> (r: Self)
        ensures
            r.items@ == self.items@,
    {
        let mut items: Vec<M3uItem> = Vec::new();
        let n: usize = self.items.len();
        for i in 0..n
            invariant
                n == self.items@.len(),
                items@ == self.items@.take(i as int),
        {
            items.push(self.items[i].clone());
        }
        proof {
            assert(self.items@.take(n as int) =~= self.items@);
        }
        ParseResult { items }
    }
}

/// The views of a list of entries.
pub open spec fn item_views(items: Seq<M3uItem>) -> Seq<M3uItemView> {
    items.map_values(|i: M3uItem| i@)
}

// ---- blocks -------------------------------------------------------------

/// The lines `from..to`, with line feeds between them.
pub open spec fn join_lines(ls: Seq<Seq<char>>, from: int, to: int) -> Seq<char>
    decreases to - from,
{
    if from >= to {
        Seq::empty()
    } else if to == from + 1 {
        ls[from]
    } else {
        join_lines(ls, from, to - 1).push('\n') + ls[to - 1]
    }
}

/// The first line from `from` on that is not empty.
pub open spec fn first_filled(ls: Seq<Seq<char>>, from: int) -> int
    decreases ls.len() - from,
{
    if from >= ls.len() || ls[from].len() > 0 {
        from
    } else {
        first_filled(ls, from + 1)
    }
}

/// The first line from `from` on that starts an entry, or the end.
pub open spec fn next_entry(ls: Seq<Seq<char>>, from: int) -> int
    decreases ls.len() - from,
{
    if from >= ls.len() || begins(ls[from], "#EXTINF"@) {
        from
    } else {
        next_entry(ls, from + 1)
    }
}

/// The next entry starts at `from` or later, and no later than the end.
pub proof fn lemma_next_entry(ls: Seq<Seq<char>>, from: int)
    requires
        from <= ls.len(),
    ensures
        from <= next_entry(ls, from) <= ls.len(),
    decreases ls.len() - from,
{
    if from < ls.len() && !begins(ls[from], "#EXTINF"@) {
        lemma_next_entry(ls, from + 1);
    }
}

/// The blocks of the lines from `from` on: a block reaches to the line before
/// the next one that starts an entry.
pub open spec fn blocks_from(ls: Seq<Seq<char>>, from: int) -> Seq<Seq<char>>
    decreases ls.len() - from,
{
    if from >= ls.len() {
        Seq::empty()
    } else {
        proof {
            lemma_next_entry(ls, from + 1);
        }
        let to = next_entry(ls, from + 1);
        seq![join_lines(ls, from, to)] + blocks_from(ls, to)
    }
}

/// The blocks of a playlist: the header first, then one for each entry.
/// Empty lines at the very start belong to no block.
pub open spec fn blocks(content: Seq<char>) -> Seq<Seq<char>> {
    let ls = lines(content);
    blocks_from(ls, first_filled(ls, 0))
}

// ---- entries ------------------------------------------------------------

/// The value of `name="value"` in an entry. The name is looked for without
/// regard to the case of ASCII letters.
pub open spec fn attribute(entry: Seq<char>, name: Seq<char>) -> Option<Seq<char>> {
    let needle = lower(name + seq!['=', '"']);
    match find(lower(entry), needle) {
        None => None,
        Some(i) => {
            let start = i + needle.len();
            match index_from(entry, '"', start) {
                None => None,
                Some(end) => Some(entry.subrange(start, end)),
            }
        },
    }
}

/// Whether a line is a tag: it begins with a hash sign.
pub open spec fn is_tag(line: Seq<char>) -> bool {
    line.len() > 0 && line[0] == '#'
}

/// The last of the lines below `to`, trimmed, that is neither empty nor a tag.
pub open spec fn last_address(ls: Seq<Seq<char>>, to: int) -> Seq<char>
    decreases to,
{
    if to <= 0 {
        Seq::empty()
    } else {
        let line = trim(ls[to - 1]);
        if line.len() > 0 && !is_tag(line) {
            line
        } else {
            last_address(ls, to - 1)
        }
    }
}

/// The stream URL of an entry: its last line that is neither empty nor a tag.
pub open spec fn entry_url(entry: Seq<char>) -> Seq<char> {
    last_address(lines(entry), lines(entry).len() as int)
}

/// The name of an entry: what follows the last comma of its first line.
pub open spec fn entry_name(entry: Seq<char>) -> Seq<char> {
    if lines(entry).len() == 0 {
        Seq::empty()
    } else {
        let first = lines(entry)[0];
        match last_index_of(first, ',') {
            Some(i) => first.subrange(i + 1, first.len() as int),
            None => Seq::empty(),
        }
    }
}

/// The text of an optional attribute, empty where it is missing.
pub open spec fn or_empty(o: Option<Seq<char>>) -> Seq<char> {
    match o {
        Some(s) => s,
        None => Seq::empty(),
    }
}

/// `first`, or `second` where `first` is empty.
pub open spec fn or_else(first: Seq<char>, second: Seq<char>) -> Seq<char> {
    if first.len() > 0 {
        first
    } else {
        second
    }
}

/// What an entry says about its channel.
pub open spec fn entry_item(entry: Seq<char>) -> M3uItemView {
    M3uItemView {
        channel_id: or_empty(attribute(entry, "tvg-id"@)),
        channel_number: or_empty(attribute(entry, "tvg-chno"@)),
        channel_name: or_else(or_empty(attribute(entry, "tvg-name"@)), entry_name(entry)),
        logo_url: or_else(
            or_empty(attribute(entry, "tvg-logo"@)),
            or_empty(attribute(entry, "logo"@)),
        ),
        stream_url: or_else(or_empty(attribute(entry, "tvg-url"@)), entry_url(entry)),
    }
}

/// The entries of a playlist: one for each block after the header.
pub open spec fn playlist_items(content: Seq<char>) -> Seq<M3uItemView> {
    let bs = blocks(content);
    bs.subrange(1, bs.len() as int).map_values(|b: Seq<char>| entry_item(b))
}

/// What a playlist comes to: its entries, or why it is none.
pub open spec fn parse_view(content: Seq<char>) -> Result<Seq<M3uItemView>, Seq<char>> {
    let bs = blocks(content);
    if bs.len() == 0 {
        Err("Playlist is empty"@)
    } else if !includes(bs[0], "#EXTM3U"@) {
        Err("Playlist is not valid"@)
    } else {
        Ok(playlist_items(content))
    }
}

/// The view of a playlist or of why it is none.
pub open spec fn parse_result(r: Result<ParseResult, String>) -> Result<
    Seq<M3uItemView>,
    Seq<char>,
> {
    match r {
        Ok(p) => Ok(item_views(p.items@)),
        Err(e) => Err(e@),
    }
}

// ---- reading ------------------------------------------------------------

/// The lines `from..to` with line feeds between them.
fn joined(ls: &Vec<&[char]>, from: usize, to: usize) -> (r: Vec<char>)
    requires
        from < to <= ls@.len(),
    ensures
        r@ == join_lines(slice_views(ls@), from as int, to as int),
{
    let ghost v = slice_views(ls@);
    let mut out: Vec<char> = vstd::slice::slice_to_vec(ls[from]);
    let mut i: usize = from + 1;
    while i < to
        invariant
            from < i <= to <= ls@.len(),
            v == slice_views(ls@),
            out@ == join_lines(v, from as int, i as int),
        decreases to - i,
    {
        out.push('\n');
        out.extend_from_slice(ls[i]);
        proof {
            assert(out@ =~= join_lines(v, from as int, i as int).push('\n') + v[i as int]);
        }
        i = i + 1;
    }
    out
}

/// The blocks of a playlist.
fn split_blocks(content: &[char]) -> (r: Vec<Vec<char>>)
    ensures
        r@.map_values(|b: Vec<char>| b@) == blocks(content@),
{
    let ls = split_lines(content);
    let ghost v = slice_views(ls@);
    let n: usize = ls.len();
    let entry_tag = chars_of("#EXTINF");
    let mut from: usize = 0;
    while from < n && ls[from].len() == 0
        invariant
            n == ls@.len(),
            v == slice_views(ls@),
            from <= n,
            first_filled(v, 0) == first_filled(v, from as int),
        decreases n - from,
    {
        proof {
            assert(v[from as int] == ls@[from as int]@);
        }
        from = from + 1;
    }
    proof {
        if from < n {
            assert(v[from as int] == ls@[from as int]@);
        }
    }
    let mut out: Vec<Vec<char>> = Vec::new();
    let ghost all = blocks_from(v, from as int);
    proof {
        assert(blocks(content@) == all);
        assert(out@.map_values(|b: Vec<char>| b@) + all =~= all);
    }
    while from < n
        invariant
            n == ls@.len(),
            v == slice_views(ls@),
            from <= n,
            entry_tag@ == "#EXTINF"@,
            out@.map_values(|b: Vec<char>| b@) + blocks_from(v, from as int) == all,
        decreases n - from,
    {
        let mut to: usize = from + 1;
        while to < n && !starts_with(ls[to], entry_tag.as_slice())
            invariant
                n == ls@.len(),
                v == slice_views(ls@),
                from < to <= n,
                entry_tag@ == "#EXTINF"@,
                next_entry(v, from + 1) == next_entry(v, to as int),
            decreases n - to,
        {
            proof {
                assert(v[to as int] == ls@[to as int]@);
            }
            to = to + 1;
        }
        proof {
            if to < n {
                assert(v[to as int] == ls@[to as int]@);
            }
        }
        let block = joined(&ls, from, to);
        let ghost before = out@.map_values(|b: Vec<char>| b@);
        out.push(block);
        proof {
            assert(out@.map_values(|b: Vec<char>| b@) =~= before.push(block@));
            assert(before + (seq![block@] + blocks_from(v, to as int)) =~= before.push(block@)
                + blocks_from(v, to as int));
        }
        from = to;
    }
    proof {
        assert(blocks_from(v, from as int) =~= Seq::<Seq<char>>::empty());
        assert(out@.map_values(|b: Vec<char>| b@) + Seq::<Seq<char>>::empty() =~= out@.map_values(
            |b: Vec<char>| b@,
        ));
    }
    out
}

/// The value of `name="value"` in an entry.
fn find_attribute(entry: &[char], name: &str) -> (r: Option<String>)
    ensures
        opt_view(r) == attribute(entry@, name@),
{
    let mut key = chars_of(name);
    key.push('=');
    key.push('"');
    proof {
        assert(key@ =~= name@ + seq!['=', '"']);
    }
    let needle = to_lower(key.as_slice());
    let lowered = to_lower(entry);
    match position(lowered.as_slice(), needle.as_slice()) {
        None => None,
        Some(i) => {
            let n: usize = entry.len();
            let start: usize = i + needle.len();
            let mut end: usize = start;
            while end < n
                invariant
                    n == entry@.len(),
                    start <= end <= n,
                    index_from(entry@, '"', start as int) == index_from(
                        entry@,
                        '"',
                        end as int,
                    ),
                    attribute(entry@, name@) == match index_from(entry@, '"', start as int) {
                        None => None,
                        Some(e) => Some(entry@.subrange(start as int, e)),
                    },
                decreases n - end,
            {
                if entry[end] == '"' {
                    return Some(string_of(slice_subrange(entry, start, end)));
                }
                end = end + 1;
            }
            None
        },
    }
}

/// Extracts an `attr="value"` style attribute from an entry.
pub fn get_attribute(entry: &str, name: &str) -> (r: Option<String>)
    ensures
        opt_view(r) == attribute(entry@, name@),
{
    find_attribute(chars_of(entry).as_slice(), name)
}

fn tag(line: &[char]) -> (r: bool)
    ensures
        r == is_tag(line@),
{
    line.len() > 0 && line[0] == '#'
}

fn find_url(entry: &[char]) -> (r: String)
    ensures
        r@ == entry_url(entry@),
{
    let ls = split_lines(entry);
    let ghost v = slice_views(ls@);
    let mut to: usize = ls.len();
    while to > 0
        invariant
            to <= ls@.len(),
            v == slice_views(ls@),
            entry_url(entry@) == last_address(v, to as int),
        decreases to,
    {
        proof {
            assert(v[to - 1] == ls@[to - 1]@);
        }
        let line = trimmed(ls[to - 1]);
        if line.len() > 0 && !tag(line) {
            return string_of(line);
        }
        to = to - 1;
    }
    String::new()
}

/// The last line of an entry that is neither empty nor a tag is its stream URL.
pub fn get_url(entry: &str) -> (r: String)
    ensures
        r@ == entry_url(entry@),
{
    find_url(chars_of(entry).as_slice())
}

fn find_name(entry: &[char]) -> (r: String)
    ensures
        r@ == entry_name(entry@),
{
    let ls = split_lines(entry);
    let ghost v = slice_views(ls@);
    if ls.len() == 0 {
        return String::new();
    }
    let first: &[char] = ls[0];
    proof {
        assert(v[0] == first@);
    }
    match last_char_position(first, ',') {
        Some(i) => {
            let n: usize = first.len();
            string_of(slice_subrange(first, i + 1, n))
        },
        None => String::new(),
    }
}

/// Fallback channel name: the text after the last comma of the first line.
pub fn get_name(entry: &str) -> (r: String)
    ensures
        r@ == entry_name(entry@),
{
    find_name(chars_of(entry).as_slice())
}

/// The text of an optional attribute, empty where it is missing.
fn text_or_empty(o: Option<String>) -> (r: String)
    ensures
        r@ == or_empty(opt_view(o)),
{
    match o {
        Some(s) => s,
        None => String::new(),
    }
}

/// Reads one entry.
fn read_entry(entry: &[char]) -> (r: M3uItem)
    ensures
        r@ == entry_item(entry@),
{
    let given_name = text_or_empty(find_attribute(entry, "tvg-name"));
    let channel_name = if given_name.as_str().is_empty() {
        find_name(entry)
    } else {
        given_name
    };
    let given_logo = text_or_empty(find_attribute(entry, "tvg-logo"));
    let logo_url = if given_logo.as_str().is_empty() {
        text_or_empty(find_attribute(entry, "logo"))
    } else {
        given_logo
    };
    let given_url = text_or_empty(find_attribute(entry, "tvg-url"));
    let stream_url = if given_url.as_str().is_empty() {
        find_url(entry)
    } else {
        given_url
    };
    M3uItem {
        channel_id: text_or_empty(find_attribute(entry, "tvg-id")),
        channel_number: text_or_empty(find_attribute(entry, "tvg-chno")),
        channel_name,
        logo_url,
        stream_url,
    }
}

/// Parses playlist text into channel entries.
pub fn parse(content: &str) -> (r: Result<ParseResult, String>)
    ensures
        parse_result(r) == parse_view(content@),
{
    let text = chars_of(content);
    let bs = split_blocks(text.as_slice());
    let ghost v = blocks(content@);
    proof {
        assert(v.len() == bs@.len());
    }
    if bs.len() == 0 {
        return Err(owned("Playlist is empty"));
    }
    proof {
        assert(v[0] == bs@[0]@);
    }
    if !contains(bs[0].as_slice(), chars_of("#EXTM3U").as_slice()) {
        return Err(owned("Playlist is not valid"));
    }
    let n: usize = bs.len();
    let mut items: Vec<M3uItem> = Vec::new();
    let mut i: usize = 1;
    while i < n
        invariant
            n == bs@.len(),
            v == blocks(content@),
            v == bs@.map_values(|b: Vec<char>| b@),
            1 <= i <= n,
            item_views(items@) == playlist_items(content@).take(i - 1),
        decreases n - i,
    {
        let item = read_entry(bs[i].as_slice());
        let ghost before = items@;
        items.push(item);
        proof {
            assert(v[i as int] == bs@[i as int]@);
            assert(playlist_items(content@)[i - 1] == item@);
            assert(item_views(items@) =~= item_views(before).push(item@));
            assert(item_views(items@) =~= playlist_items(content@).take(i as int));
        }
        i = i + 1;
    }
    proof {
        assert(playlist_items(content@).take(n - 1) =~= playlist_items(content@));
    }
    Ok(ParseResult { items })
}

// ---- laws ---------------------------------------------------------------

/// The number of lines from `from` on that start an entry.
pub open spec fn entry_count(ls: Seq<Seq<char>>, from: int) -> nat
    decreases ls.len() - from,
{
    if from >= ls.len() {
        0
    } else if begins(ls[from], "#EXTINF"@) {
        1 + entry_count(ls, from + 1)
    } else {
        entry_count(ls, from + 1)
    }
}

/// No entry starts before the next one.
proof fn lemma_entry_count(ls: Seq<Seq<char>>, from: int)
    requires
        0 <= from <= ls.len(),
    ensures
        entry_count(ls, from) == entry_count(ls, next_entry(ls, from)),
        next_entry(ls, from) < ls.len() ==> begins(ls[next_entry(ls, from)], "#EXTINF"@),
    decreases ls.len() - from,
{
    if from < ls.len() && !begins(ls[from], "#EXTINF"@) {
        lemma_entry_count(ls, from + 1);
    }
}

/// There is one block for the first line, and one for each entry after it.
proof fn lemma_block_count(ls: Seq<Seq<char>>, from: int)
    requires
        0 <= from < ls.len(),
    ensures
        blocks_from(ls, from).len() == 1 + entry_count(ls, from + 1),
    decreases ls.len() - from,
{
    lemma_next_entry(ls, from + 1);
    lemma_entry_count(ls, from + 1);
    let to = next_entry(ls, from + 1);
    if to < ls.len() {
        lemma_block_count(ls, to);
    } else {
        assert(blocks_from(ls, to).len() == 0);
        assert(entry_count(ls, to) == 0);
    }
}

/// A playlist gives one item for each line that starts an entry behind its
/// header.
pub proof fn law_one_item_per_entry(content: Seq<char>)
    requires
        parse_view(content) is Ok,
    ensures
        parse_view(content)->Ok_0.len() == entry_count(
            lines(content),
            first_filled(lines(content), 0) + 1,
        ),
{
    let ls = lines(content);
    lemma_first_filled(ls, 0);
    lemma_block_count(ls, first_filled(ls, 0));
}

/// The entries of a text that begins with one.
pub open spec fn entries(text: Seq<char>) -> Seq<M3uItemView> {
    blocks(text).map_values(|b: Seq<char>| entry_item(b))
}

/// Entries that are appended to a playlist only append their items: those that
/// it had before stay as they are.
pub proof fn law_entries_append(content: Seq<char>, more: Seq<char>)
    requires
        parse_view(content) is Ok,
        content.last() == '\n',
        begins(more, "#EXTINF"@),
    ensures
        parse_view(content + more) == Ok::<Seq<M3uItemView>, Seq<char>>(
            parse_view(content)->Ok_0 + entries(more),
        ),
{
    let (a, b) = (lines(content), lines(more));
    if content.len() == 0 {
        assert(blocks(content).len() == 0);
    }
    lemma_lines_append(content, more);
    lemma_first_line(more);
    lemma_first_filled(a, 0);
    let from = first_filled(a, 0);
    assert(from < a.len());
    lemma_filled_append(a, b, 0);
    lemma_blocks_append(a, b, from);
    assert(begins(b[0], "#EXTINF"@));
    reveal_strlit("#EXTINF");
    assert(first_filled(b, 0) == 0);
    let (x, y) = (blocks(content), blocks(more));
    let all = blocks(content + more);
    assert(all == x + y);
    assert(all[0] == x[0]);
    assert(playlist_items(content + more) =~= playlist_items(content) + entries(more));
}

/// A text that begins with an entry has a first line that does.
proof fn lemma_first_line(text: Seq<char>)
    requires
        begins(text, "#EXTINF"@),
    ensures
        lines(text).len() > 0,
        begins(lines(text)[0], "#EXTINF"@),
{
    reveal_strlit("#EXTINF");
    let tag = "#EXTINF"@;
    assert(tag.len() == 7);
    assert forall|i: int| 0 <= i < 7 implies text[i] == tag[i] by {
        assert(text.subrange(0, 7)[i] == tag[i]);
    }
    lemma_index_from(text, '\n', 0);
    let line = lines(text)[0];
    match index_of(text, '\n') {
        Some(i) => {
            assert(i >= 7) by {
                if i < 7 {
                    assert(tag[i] == '\n');
                }
            }
            if i == 7 {
                assert(text.subrange(0, i).last() == tag[6]);
            }
        },
        None => {},
    }
    assert(line.len() >= 7);
    assert(line.subrange(0, 7) =~= tag);
}

/// Lines that follow others do not change which of those is not empty.
proof fn lemma_filled_append(a: Seq<Seq<char>>, b: Seq<Seq<char>>, from: int)
    requires
        0 <= from,
        first_filled(a, from) < a.len(),
    ensures
        first_filled(a + b, from) == first_filled(a, from),
    decreases a.len() - from,
{
    if from < a.len() && a[from].len() == 0 {
        lemma_filled_append(a, b, from + 1);
    }
}

/// Lines that follow others do not change how those are joined.
proof fn lemma_join_append(a: Seq<Seq<char>>, b: Seq<Seq<char>>, from: int, to: int)
    requires
        0 <= from,
        to <= a.len(),
    ensures
        join_lines(a + b, from, to) == join_lines(a, from, to),
    decreases to - from,
{
    if from < to && to != from + 1 {
        lemma_join_append(a, b, from, to - 1);
    }
}

/// Lines are joined alike wherever they stand.
proof fn lemma_join_shift(a: Seq<Seq<char>>, b: Seq<Seq<char>>, from: int, to: int)
    requires
        0 <= from,
        to <= b.len(),
    ensures
        join_lines(a + b, a.len() + from, a.len() + to) == join_lines(b, from, to),
    decreases to - from,
{
    if from < to && to != from + 1 {
        lemma_join_shift(a, b, from, to - 1);
    }
}

/// An entry behind some lines is the next one where they hold none.
proof fn lemma_next_append(a: Seq<Seq<char>>, b: Seq<Seq<char>>, from: int)
    requires
        0 <= from <= a.len(),
        b.len() > 0,
        begins(b[0], "#EXTINF"@),
    ensures
        next_entry(a + b, from) == next_entry(a, from),
    decreases a.len() - from,
{
    if from < a.len() {
        if !begins(a[from], "#EXTINF"@) {
            lemma_next_append(a, b, from + 1);
        }
    } else {
        assert((a + b)[from] == b[0]);
    }
}

/// The next entry is the same wherever the lines stand.
proof fn lemma_next_shift(a: Seq<Seq<char>>, b: Seq<Seq<char>>, from: int)
    requires
        0 <= from <= b.len(),
    ensures
        next_entry(a + b, a.len() + from) == a.len() + next_entry(b, from),
    decreases b.len() - from,
{
    if from < b.len() && !begins(b[from], "#EXTINF"@) {
        lemma_next_shift(a, b, from + 1);
    }
}

/// The blocks are the same wherever the lines stand.
proof fn lemma_blocks_shift(a: Seq<Seq<char>>, b: Seq<Seq<char>>, from: int)
    requires
        0 <= from <= b.len(),
    ensures
        blocks_from(a + b, a.len() + from) == blocks_from(b, from),
    decreases b.len() - from,
{
    if from < b.len() {
        lemma_next_entry(b, from + 1);
        lemma_next_shift(a, b, from + 1);
        let to = next_entry(b, from + 1);
        lemma_join_shift(a, b, from, to);
        lemma_blocks_shift(a, b, to);
    }
}

/// An entry behind some lines starts a block of its own.
proof fn lemma_blocks_append(a: Seq<Seq<char>>, b: Seq<Seq<char>>, from: int)
    requires
        0 <= from <= a.len(),
        b.len() > 0,
        begins(b[0], "#EXTINF"@),
    ensures
        blocks_from(a + b, from) == blocks_from(a, from) + blocks_from(b, 0),
    decreases a.len() - from,
{
    if from < a.len() {
        lemma_next_entry(a, from + 1);
        lemma_next_append(a, b, from + 1);
        let to = next_entry(a, from + 1);
        lemma_join_append(a, b, from, to);
        lemma_blocks_append(a, b, to);
        let first = seq![join_lines(a, from, to)];
        assert(first + (blocks_from(a, to) + blocks_from(b, 0)) =~= (first + blocks_from(a, to))
            + blocks_from(b, 0));
    } else {
        lemma_blocks_shift(a, b, 0);
        assert(blocks_from(a, from) + blocks_from(b, 0) =~= blocks_from(b, 0));
    }
}

/// The first line that is not empty is one, unless all are empty.
proof fn lemma_first_filled(ls: Seq<Seq<char>>, from: int)
    requires
        0 <= from <= ls.len(),
    ensures
        from <= first_filled(ls, from) <= ls.len(),
    decreases ls.len() - from,
{
    if from < ls.len() && ls[from].len() == 0 {
        lemma_first_filled(ls, from + 1);
    }
}

/// The value of an attribute is all that stands between the quotes behind the
/// first place where its name, an equals sign and a quote stand, in whatever
/// case.
pub proof fn law_attribute(
    before: Seq<char>,
    spelled: Seq<char>,
    value: Seq<char>,
    after: Seq<char>,
    name: Seq<char>,
)
    requires
        lower(spelled) == lower(name.push('=').push('"')),
        forall|i: int| 0 <= i < value.len() ==> #[trigger] value[i] != '"',
        forall|j: int|
            0 <= j < before.len() ==> (#[trigger] lower(before + spelled + value + after).skip(
                j,
            )).take(name.len() as int + 2) != lower(spelled),
    ensures
        after.len() > 0 && after[0] == '"' ==> attribute(before + spelled + value + after, name)
            == Some(value),
        after.len() == 0 ==> attribute(before + spelled + value + after, name) is None,
{
    let entry = before + spelled + value + after;
    let needle = lower(name + seq!['=', '"']);
    assert(name + seq!['=', '"'] =~= name.push('=').push('"'));
    let p = before.len() as int;
    let n = needle.len() as int;
    assert(spelled.len() == n) by {
        assert(lower(spelled).len() == spelled.len());
    }
    assert(lower(entry).subrange(p, p + n) =~= lower(spelled));
    law_find(lower(entry), needle, p);
    let start = p + n;
    lemma_index_from(entry, '"', start);
    assert forall|i: int| start <= i < start + value.len() implies entry[i] != '"' by {
        assert(entry[i] == value[i - start]);
    }
    if after.len() > 0 && after[0] == '"' {
        assert(entry[start + value.len()] == '"');
        assert(entry.subrange(start, start + value.len()) =~= value);
    }
}

/// An entry in which the name of an attribute, an equals sign and a quote stand
/// nowhere does not have it.
pub proof fn law_no_attribute(entry: Seq<char>, name: Seq<char>)
    requires
        forall|j: int|
            0 <= j && j + name.len() + 2 <= entry.len() ==> (#[trigger] lower(entry).skip(j)).take(
                name.len() as int + 2,
            ) != lower(name.push('=').push('"')),
    ensures
        attribute(entry, name) is None,
{
    assert(name + seq!['=', '"'] =~= name.push('=').push('"'));
    assert(lower(entry).len() == entry.len());
    assert(lower(name.push('=').push('"')).len() == name.len() + 2);
    law_not_found(lower(entry), lower(name + seq!['=', '"']));
}

/// The address of an entry is its last line, without the white space around it,
/// that is not blank and does not begin with a hash sign.
pub proof fn law_address(entry: Seq<char>, k: int)
    ensures
        0 <= k < lines(entry).len() && trim(lines(entry)[k]).len() > 0 && trim(lines(entry)[k])[0]
            != '#' && (forall|j: int|
            k < j < lines(entry).len() ==> trim(#[trigger] lines(entry)[j]).len() == 0 || trim(
                lines(entry)[j],
            )[0] == '#') ==> entry_url(entry) == trim(lines(entry)[k]),
        (forall|j: int|
            0 <= j < lines(entry).len() ==> trim(#[trigger] lines(entry)[j]).len() == 0 || trim(
                lines(entry)[j],
            )[0] == '#') ==> entry_url(entry).len() == 0,
{
    lemma_last_address(lines(entry), lines(entry).len() as int, k);
}

proof fn lemma_last_address(ls: Seq<Seq<char>>, to: int, k: int)
    requires
        0 <= to <= ls.len(),
    ensures
        0 <= k < to && trim(ls[k]).len() > 0 && trim(ls[k])[0] != '#' && (forall|j: int|
            k < j < to ==> trim(#[trigger] ls[j]).len() == 0 || trim(ls[j])[0] == '#')
            ==> last_address(ls, to) == trim(ls[k]),
        (forall|j: int| 0 <= j < to ==> trim(#[trigger] ls[j]).len() == 0 || trim(ls[j])[0] == '#')
            ==> last_address(ls, to).len() == 0,
    decreases to,
{
    if to > 0 {
        lemma_last_address(ls, to - 1, k);
        let line = ls[to - 1];
        assert(trim(line).len() == 0 || trim(line)[0] == '#' || !is_tag(trim(line)));
    }
}

/// The name of an entry is all that follows the last comma of its first line.
pub proof fn law_name(head: Seq<char>, name: Seq<char>, entry: Seq<char>)
    requires
        lines(entry).len() > 0,
        forall|i: int| 0 <= i < name.len() ==> #[trigger] name[i] != ',',
    ensures
        lines(entry)[0] == head.push(',') + name ==> entry_name(entry) == name,
        lines(entry)[0] == name ==> entry_name(entry).len() == 0,
{
    let first = lines(entry)[0];
    lemma_last_index_below(first, ',', first.len() as int);
    if first == head.push(',') + name {
        let p = head.len() as int;
        assert(first[p] == ',');
        assert forall|i: int| p < i < first.len() implies first[i] != ',' by {
            assert(first[i] == name[i - p - 1]);
        }
        assert(first.subrange(p + 1, first.len() as int) =~= name);
    }
}

/// What an entry says of its channel: the id, the number, the name, the logo
/// and the address by their attributes. Where those are missing or empty, the
/// name is that of the entry's first line, the logo that of the other
/// attribute, and the address that of its last line.
pub proof fn law_entry(entry: Seq<char>)
    ensures
        attribute(entry, "tvg-id"@) matches Some(v) ==> entry_item(entry).channel_id == v,
        attribute(entry, "tvg-id"@) is None ==> entry_item(entry).channel_id.len() == 0,
        attribute(entry, "tvg-chno"@) matches Some(v) ==> entry_item(entry).channel_number == v,
        attribute(entry, "tvg-chno"@) is None ==> entry_item(entry).channel_number.len() == 0,
        attribute(entry, "tvg-name"@) is Some && attribute(entry, "tvg-name"@)->0.len() > 0
            ==> entry_item(entry).channel_name == attribute(entry, "tvg-name"@)->0,
        !(attribute(entry, "tvg-name"@) is Some && attribute(entry, "tvg-name"@)->0.len() > 0)
            ==> entry_item(entry).channel_name == entry_name(entry),
        attribute(entry, "tvg-logo"@) is Some && attribute(entry, "tvg-logo"@)->0.len() > 0
            ==> entry_item(entry).logo_url == attribute(entry, "tvg-logo"@)->0,
        !(attribute(entry, "tvg-logo"@) is Some && attribute(entry, "tvg-logo"@)->0.len() > 0) ==> (
        attribute(entry, "logo"@) matches Some(v) ==> entry_item(entry).logo_url == v),
        !(attribute(entry, "tvg-logo"@) is Some && attribute(entry, "tvg-logo"@)->0.len() > 0)
            && attribute(entry, "logo"@) is None ==> entry_item(entry).logo_url.len() == 0,
        attribute(entry, "tvg-url"@) is Some && attribute(entry, "tvg-url"@)->0.len() > 0
            ==> entry_item(entry).stream_url == attribute(entry, "tvg-url"@)->0,
        !(attribute(entry, "tvg-url"@) is Some && attribute(entry, "tvg-url"@)->0.len() > 0)
            ==> entry_item(entry).stream_url == entry_url(entry),
{
}

/// A text that begins with an entry, and in which no other line does, is that
/// one entry, with all its lines.
pub proof fn law_one_entry(text: Seq<char>)
    requires
        begins(text, "#EXTINF"@),
        forall|i: int| 0 < i < lines(text).len() ==> !begins(#[trigger] lines(text)[i], "#EXTINF"@),
    ensures
        entries(text) == seq![entry_item(join_lines(lines(text), 0, lines(text).len() as int))],
{
    let ls = lines(text);
    lemma_first_line(text);
    reveal_strlit("#EXTINF");
    assert(first_filled(ls, 0) == 0);
    lemma_no_entry(ls, 1);
    assert(blocks_from(ls, ls.len() as int).len() == 0);
    assert(blocks(text) =~= seq![join_lines(ls, 0, ls.len() as int)]);
    assert(entries(text) =~= seq![entry_item(join_lines(ls, 0, ls.len() as int))]);
}

proof fn lemma_no_entry(ls: Seq<Seq<char>>, from: int)
    requires
        0 <= from <= ls.len(),
        forall|i: int| from <= i < ls.len() ==> !begins(#[trigger] ls[i], "#EXTINF"@),
    ensures
        next_entry(ls, from) == ls.len(),
    decreases ls.len() - from,
{
    if from < ls.len() {
        lemma_no_entry(ls, from + 1);
    }
}

/// Lines are joined by line feeds, one after another.
pub proof fn law_joined(ls: Seq<Seq<char>>, from: int, to: int)
    requires
        0 <= from < to < ls.len(),
    ensures
        join_lines(ls, from, from + 1) == ls[from],
        join_lines(ls, from, to + 1).len() == join_lines(ls, from, to).len() + 1 + ls[to].len(),
        join_lines(ls, from, to + 1).take(join_lines(ls, from, to).len() as int) == join_lines(
            ls,
            from,
            to,
        ),
        join_lines(ls, from, to + 1)[join_lines(ls, from, to).len() as int] == '\n',
        join_lines(ls, from, to + 1).skip(join_lines(ls, from, to).len() as int + 1) == ls[to],
{
    let a = join_lines(ls, from, to);
    let b = join_lines(ls, from, to + 1);
    assert(b.take(a.len() as int) =~= a);
    assert(b.skip(a.len() as int + 1) =~= ls[to]);
}

/// A playlist of its header alone has no items. A text whose first line that is
/// not empty lacks the mark of a playlist is none, and neither is a text
/// without such a line.
pub proof fn law_header(line: Seq<char>, content: Seq<char>)
    requires
        begins(line, "#EXTM3U"@),
        !begins(line, "#EXTINF"@),
        line.last() != '\r',
        forall|i: int| 0 <= i < line.len() ==> #[trigger] line[i] != '\n',
    ensures
        parse_view(line.push('\n')) == Ok::<Seq<M3uItemView>, Seq<char>>(Seq::empty()),
        (forall|i: int| 0 <= i < lines(content).len() ==> (#[trigger] lines(content)[i]).len() == 0)
            ==> parse_view(content) == Err::<Seq<M3uItemView>, Seq<char>>("Playlist is empty"@),
{
    reveal_strlit("#EXTM3U");
    assert("#EXTM3U"@.len() == 7);
    let text = line.push('\n');
    law_lines(line, Seq::empty());
    assert(line.push('\n') + Seq::<char>::empty() =~= text);
    assert(lines(text) =~= seq![line]);
    assert(blocks_from(lines(text), 1).len() == 0);
    assert(first_filled(lines(text), 0) == 0);
    assert(next_entry(lines(text), 1) == 1);
    assert(blocks(text) =~= seq![line]);
    law_find(line, "#EXTM3U"@, 0);
    assert(playlist_items(text) =~= Seq::<M3uItemView>::empty());
    if forall|i: int| 0 <= i < lines(content).len() ==> (#[trigger] lines(content)[i]).len() == 0 {
        lemma_all_empty(lines(content), 0);
    }
}

proof fn lemma_all_empty(ls: Seq<Seq<char>>, from: int)
    requires
        0 <= from <= ls.len(),
        forall|i: int| from <= i < ls.len() ==> (#[trigger] ls[i]).len() == 0,
    ensures
        first_filled(ls, from) == ls.len(),
    decreases ls.len() - from,
{
    if from < ls.len() {
        lemma_all_empty(ls, from + 1);
    }
}

/// A text whose first block does not hold the mark of a playlist is none.
pub proof fn law_mark(content: Seq<char>)
    ensures
        parse_view(content) is Ok <==> blocks(content).len() > 0 && includes(
            blocks(content)[0],
            "#EXTM3U"@,
        ),
        parse_view(content) matches Err(e) ==> e == "Playlist is empty"@ || e
            == "Playlist is not valid"@,
{
}

/// Entries are told as they are.
pub proof fn law_item_views(items: Seq<M3uItem>, i: int, p: ParseResult, e: String)
    ensures
        item_views(items).len() == items.len(),
        0 <= i < items.len() ==> item_views(items)[i].channel_id == items[i].channel_id@
            && item_views(items)[i].channel_number == items[i].channel_number@ && item_views(
            items,
        )[i].channel_name == items[i].channel_name@ && item_views(items)[i].logo_url
            == items[i].logo_url@ && item_views(items)[i].stream_url == items[i].stream_url@,
        parse_result(Ok(p)) == Ok::<Seq<M3uItemView>, Seq<char>>(item_views(p.items@)),
        parse_result(Err(e)) == Err::<Seq<M3uItemView>, Seq<char>>(e@),
{
}

} // verus!
