//! Channel logos: under which key they are kept, what they show, and when they
//! are replaced.
//!
//! The URL of a logo carries a token in its query, such as
//! `http://host:9981/imagecache/7167?auth=<token>`, which can differ from one
//! request to the next for the same image. The URL without the query is what
//! identifies a logo.
//!
//! The copy on disk is shown at once. Then the logo is fetched again and, if
//! it has changed, written to disk and shown in place of the old one.
use vstd::prelude::*;
use vstd::slice::slice_subrange;
use vstd::string::*;
use vstd::utf8::*;

use crate::outside::{decode_picture, picture_of, picture_view};
use crate::text::{char_position, chars_of, index_of, opt_view, string_of};
use crate::tvh::Channel;

verus! {

/// A URL without its query.
pub open spec fn without_query(url: Seq<char>) -> Seq<char> {
    match index_of(url, '?') {
        Some(i) => url.subrange(0, i),
        None => url,
    }
}

/// The key of a logo.
pub open spec fn key_of(url: Seq<char>) -> Option<Seq<char>> {
    if without_query(url).len() == 0 {
        None
    } else {
        Some(without_query(url))
    }
}

/// The key of a channel's logo: the URL without the query, which stays the
/// same from one request to the next. Without a URL there is none.
pub fn cache_key(logo_url: &str) -> (r: Option<String>)
    ensures
        opt_view(r) == key_of(logo_url@),
{
    let text = chars_of(logo_url);
    let end: usize = match char_position(text.as_slice(), '?') {
        Some(i) => i,
        None => text.len(),
    };
    proof {
        assert(text@.subrange(0, text@.len() as int) =~= text@);
    }
    if end == 0 {
        None
    } else {
        Some(string_of(slice_subrange(text.as_slice(), 0, end)))
    }
}

/// The FNV-1a hash of some bytes.
pub open spec fn fnv1a(bytes: Seq<u8>) -> u64
    decreases bytes.len(),
{
    if bytes.len() == 0 {
        0xcbf2_9ce4_8422_2325
    } else {
        (fnv1a(bytes.drop_last()) ^ (bytes.last() as u64)).wrapping_mul(0x0000_0100_0000_01b3)
    }
}

/// The hash of a key.
pub open spec fn hash_of(key: Seq<char>) -> u64 {
    fnv1a(encode_utf8(key))
}

/// The FNV-1a hash of a key, which makes a stable name for a file.
pub fn hash_key(key: &str) -> (r: u64)
    ensures
        r == hash_of(key@),
{
    let bytes: &[u8] = key.as_bytes();
    let n: usize = bytes.len();
    let mut hash: u64 = 0xcbf2_9ce4_8422_2325;
    for i in 0..n
        invariant
            n == bytes@.len(),
            hash == fnv1a(bytes@.take(i as int)),
    {
        proof {
            assert(bytes@.take(i + 1).drop_last() =~= bytes@.take(i as int));
        }
        hash = (hash ^ (bytes[i] as u64)).wrapping_mul(0x0000_0100_0000_01b3);
    }
    proof {
        assert(bytes@.take(n as int) =~= bytes@);
    }
    hash
}

/// The bytes of an optional list.
pub open spec fn opt_bytes(o: Option<&Vec<u8>>) -> Option<Seq<u8>> {
    match o {
        Some(v) => Some(v@),
        None => None,
    }
}

/// Whether a logo that was just fetched is to replace the copy on disk: it is
/// unless the copy holds the same bytes.
pub fn needs_update(cached: Option<&Vec<u8>>, fresh: &Vec<u8>) -> (r: bool)
    ensures
        r == (opt_bytes(cached) != Some(fresh@)),
{
    match cached {
        None => true,
        Some(old) => {
            let n: usize = old.len();
            if n != fresh.len() {
                return true;
            }
            for i in 0..n
                invariant
                    n == old@.len(),
                    opt_bytes(cached) == Some(old@),
                    old@.len() == fresh@.len(),
                    forall|j: int| 0 <= j < i ==> old@[j] == fresh@[j],
            {
                if old[i] != fresh[i] {
                    proof {
                        assert(old@[i as int] != fresh@[i as int]);
                    }
                    return true;
                }
            }
            proof {
                assert(old@ =~= fresh@);
            }
            false
        },
    }
}

/// A picture from its bytes, as a width, a height, and the red, green, blue and
/// alpha of each pixel, row by row. Bytes that are no picture give none.
pub fn picture(bytes: &Vec<u8>) -> (r: Option<(u32, u32, Vec<u8>)>)
    ensures
        picture_view(r) == picture_of(bytes@),
        r matches Some((width, height, pixels)) ==> pixels@.len() == 4 * width * height,
{
    decode_picture(bytes.as_slice())
}

/// What is to be done with a logo that was fetched.
#[derive(Debug)]
pub struct LogoStep {
    /// Whether it is written to disk in place of the copy there.
    pub write: bool,
    /// The picture to show in place of the old one.
    pub show: Option<(u32, u32, Vec<u8>)>,
}

/// Whether a reply brings a logo that is to replace the copy on disk.
pub open spec fn brings_logo(status: u16, cached: Option<Seq<u8>>, fresh: Seq<u8>) -> bool {
    200 <= status < 300 && cached != Some(fresh)
}

/// What is to be done with the server's reply to a request for a logo, by its
/// status and its body `fresh`. Only a success that brings other bytes than
/// the copy on disk changes anything: they are written to disk, and shown if
/// they are a picture.
pub fn on_logo(status: u16, cached: Option<&Vec<u8>>, fresh: &Vec<u8>) -> (r: LogoStep)
    ensures
        r.write == brings_logo(status, opt_bytes(cached), fresh@),
        picture_view(r.show) == if brings_logo(status, opt_bytes(cached), fresh@) {
            picture_of(fresh@)
        } else {
            None
        },
        r.show matches Some((width, height, pixels)) ==> pixels@.len() == 4 * width * height,
{
    if 200 <= status && status < 300 && needs_update(cached, fresh) {
        LogoStep { write: true, show: picture(fresh) }
    } else {
        LogoStep { write: false, show: None }
    }
}

/// The key and the URL of each channel's logo, for the channels that have one.
pub open spec fn logo_pairs_view(channels: Seq<Channel>) -> Seq<(Seq<char>, Seq<char>)>
    decreases channels.len(),
{
    if channels.len() == 0 {
        Seq::empty()
    } else {
        let before = logo_pairs_view(channels.drop_last());
        match key_of(channels.last().logo_url@) {
            Some(key) => before.push((key, channels.last().logo_url@)),
            None => before,
        }
    }
}

/// The texts of a list of pairs.
pub open spec fn pair_views(v: Seq<(String, String)>) -> Seq<(Seq<char>, Seq<char>)> {
    v.map_values(|p: (String, String)| (p.0@, p.1@))
}

/// The key and the URL of each channel's logo, for the channels that have one.
pub fn logo_pairs(channels: &Vec<Channel>) -> (r: Vec<(String, String)>)
    ensures
        pair_views(r@) == logo_pairs_view(channels@),
{
    let mut out: Vec<(String, String)> = Vec::new();
    let n: usize = channels.len();
    proof {
        assert(pair_views(out@) =~= Seq::<(Seq<char>, Seq<char>)>::empty());
    }
    for i in 0..n
        invariant
            n == channels@.len(),
            pair_views(out@) == logo_pairs_view(channels@.take(i as int)),
    {
        proof {
            assert(channels@.take(i + 1).drop_last() =~= channels@.take(i as int));
        }
        let ghost before = out@;
        match cache_key(channels[i].logo_url.as_str()) {
            Some(key) => {
                let pair = (key, channels[i].logo_url.clone());
                out.push(pair);
                proof {
                    assert(pair_views(out@) =~= pair_views(before).push((pair.0@, pair.1@)));
                }
            },
            None => {},
        }
    }
    proof {
        assert(channels@.take(n as int) =~= channels@);
    }
    out
}

// ---- laws ---------------------------------------------------------------

/// A reply that brings the copy on disk again, or that is no success, changes
/// nothing; and once a logo was written to disk, the same reply does not bring
/// it again.
pub proof fn law_logo_settles(status: u16, cached: Option<Seq<u8>>, fresh: Seq<u8>)
    ensures
        !brings_logo(status, Some(fresh), fresh),
        !(200 <= status < 300) ==> !brings_logo(status, cached, fresh),
{
}

/// The key of a logo does not depend on the query of its URL.
pub proof fn law_key_ignores_query(path: Seq<char>, query: Seq<char>)
    requires
        index_of(path, '?') is None,
    ensures
        key_of(path.push('?') + query) == key_of(path),
        path.len() > 0 ==> key_of(path) == Some(path),
{
    let url = path.push('?') + query;
    crate::text::lemma_index_from(path, '?', 0);
    crate::text::lemma_index_from(url, '?', 0);
    assert(url[path.len() as int] == '?');
    match index_of(url, '?') {
        Some(i) => {
            if i < path.len() {
                assert(url[i] == path[i]);
            }
            assert(i == path.len());
            assert(url.subrange(0, i) =~= path);
        },
        None => {},
    }
}

/// A URL with nothing before its query has no key, and one without a query is
/// its own key.
pub proof fn law_key(url: Seq<char>, query: Seq<char>)
    ensures
        key_of(Seq::<char>::empty()) is None,
        key_of(seq!['?'] + query) is None,
        url.len() > 0 && !url.contains('?') ==> key_of(url) == Some(url),
{
    let s = seq!['?'] + query;
    assert(s[0] == '?');
    assert(index_of(s, '?') == Some(0int));
    crate::text::lemma_index_from(url, '?', 0);
    match index_of(url, '?') {
        Some(i) => {
            assert(url.contains(url[i]));
        },
        None => {},
    }
}

/// The hash of a key is FNV-1a over all of its bytes, one after another.
pub proof fn law_hash(bytes: Seq<u8>, b: u8, key: Seq<char>)
    ensures
        fnv1a(Seq::<u8>::empty()) == 0xcbf2_9ce4_8422_2325,
        fnv1a(bytes.push(b)) == (fnv1a(bytes) ^ (b as u64)).wrapping_mul(0x0000_0100_0000_01b3),
        hash_of(key) == fnv1a(encode_utf8(key)),
{
    assert(bytes.push(b).drop_last() =~= bytes);
}

/// Every channel whose logo has a key is listed with that key and the URL, in
/// the order of the channels.
pub proof fn law_logos(channels: Seq<Channel>, c: Channel)
    ensures
        logo_pairs_view(Seq::<Channel>::empty()).len() == 0,
        key_of(c.logo_url@) is None ==> logo_pairs_view(channels.push(c)) == logo_pairs_view(
            channels,
        ),
        key_of(c.logo_url@) matches Some(key) ==> logo_pairs_view(channels.push(c))
            == logo_pairs_view(channels).push((key, c.logo_url@)),
{
    assert(channels.push(c).drop_last() =~= channels);
}

/// A reply brings a logo where it is a success with other bytes than those on
/// disk.
pub proof fn law_brings_logo(status: u16, kept: Seq<u8>, fresh: Seq<u8>)
    ensures
        200 <= status <= 299 ==> brings_logo(status, None, fresh),
        200 <= status <= 299 && kept != fresh ==> brings_logo(status, Some(kept), fresh),
        !(200 <= status <= 299) ==> !brings_logo(status, None, fresh) && !brings_logo(
            status,
            Some(kept),
            fresh,
        ),
        !brings_logo(status, Some(fresh), fresh),
{
}

/// What is listed and compared is told as it is.
pub proof fn law_logo_views(pairs: Seq<(String, String)>, i: int, bytes: &Vec<u8>)
    ensures
        pair_views(pairs).len() == pairs.len(),
        0 <= i < pairs.len() ==> pair_views(pairs)[i] == (pairs[i].0@, pairs[i].1@),
        opt_bytes(Some(bytes)) == Some(bytes@),
        opt_bytes(None) is None,
{
}

} // verus!
