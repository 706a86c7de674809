//! Where the application keeps its files.
use vstd::prelude::*;
use vstd::string::*;

use crate::logos::{hash_key, hash_of};
use crate::numbers::{
    digits, fixed_digits, lemma_digit_chars, lemma_fixed_digit_chars, push_fixed,
};
use crate::settings::{id_text, law_new_ids_differ};
use crate::text::{ascii_alnum, chars_of, is_ascii_alnum, owned, string_views};

verus! {

/// What a location is relative to: a directory that the environment names, or
/// the current one.
#[derive(Debug, Clone, Copy, PartialEq, Eq, Structural)]
pub enum Root {
    AppData,
    Home,
    UserProfile,
    Current,
}

/// A location: the names of the directories below the root and, last, of the
/// file or the directory itself.
#[derive(Debug)]
pub struct Location {
    pub root: Root,
    pub parts: Vec<String>,
}

/// The text of a location.
#[verifier::ext_equal]
pub struct LocationView {
    pub root: Root,
    pub parts: Seq<Seq<char>>,
}

impl View for Location {
    type V = LocationView;

    open spec fn view(&self) -> LocationView {
        LocationView { root: self.root, parts: string_views(self.parts@) }
    }
}

impl LocationView {
    /// A location below this one.
    pub open spec fn child(self, name: Seq<char>) -> LocationView {
        LocationView { root: self.root, parts: self.parts.push(name) }
    }
}

/// The location of an optional one.
pub open spec fn opt_location(o: Option<Location>) -> Option<LocationView> {
    match o {
        Some(l) => Some(l@),
        None => None,
    }
}

/// The location below an optional one.
pub open spec fn opt_child(o: Option<LocationView>, name: Seq<char>) -> Option<LocationView> {
    match o {
        Some(l) => Some(l.child(name)),
        None => None,
    }
}

/// Whether a character can stand in the name of a file anywhere.
pub open spec fn is_safe(c: char) -> bool {
    is_ascii_alnum(c) || c == '-' || c == '_'
}

/// A text as the name of a file: an underscore for every character that is not
/// an ASCII letter, a digit, a hyphen or an underscore.
pub open spec fn sanitized(s: Seq<char>) -> Seq<char> {
    s.map_values(
        |c: char|
            if is_safe(c) {
                c
            } else {
                '_'
            },
    )
}

/// A text as the name of a file.
pub fn sanitize_for_path(s: &str) -> (r: String)
    ensures
        r@ == sanitized(s@),
{
    let text = chars_of(s);
    let n: usize = text.len();
    let mut out = String::new();
    for i in 0..n
        invariant
            n == text@.len(),
            text@ == s@,
            out@ == sanitized(s@).take(i as int),
    {
        let c = text[i];
        if ascii_alnum(c) || c == '-' || c == '_' {
            out.push(c);
        } else {
            out.push('_');
        }
        proof {
            assert(out@ =~= sanitized(s@).take(i + 1));
        }
    }
    proof {
        assert(sanitized(s@).take(n as int) =~= sanitized(s@));
    }
    out
}

/// Adds a name to a location.
fn child(location: Location, name: String) -> (r: Location)
    ensures
        r@ == location@.child(name@),
{
    let ghost before = location.parts@;
    let mut parts = location.parts;
    parts.push(name);
    let r = Location { root: location.root, parts };
    proof {
        assert(string_views(parts@) =~= string_views(before).push(name@));
    }
    r
}

/// Adds a name to an optional location.
fn below(location: Option<Location>, name: String) -> (r: Option<Location>)
    ensures
        opt_location(r) == opt_child(opt_location(location), name@),
{
    match location {
        Some(l) => Some(child(l, name)),
        None => None,
    }
}

/// The directory of the settings and the caches, by which of `APPDATA` and
/// `HOME` is set.
pub open spec fn config_location(appdata: bool, home: bool) -> Option<LocationView> {
    if appdata {
        Some(LocationView { root: Root::AppData, parts: seq!["tvh-client"@] })
    } else if home {
        Some(LocationView { root: Root::Home, parts: seq![".config"@, "tvh-client"@] })
    } else {
        None
    }
}

/// The directory of the settings and the caches, by which of `APPDATA` and
/// `HOME` is set; without either there is none.
pub fn config_dir(appdata: bool, home: bool) -> (r: Option<Location>)
    ensures
        opt_location(r) == config_location(appdata, home),
{
    let mut parts: Vec<String> = Vec::new();
    if appdata {
        parts.push(owned("tvh-client"));
        let r = Location { root: Root::AppData, parts };
        proof {
            assert(string_views(parts@) =~= seq!["tvh-client"@]);
        }
        Some(r)
    } else if home {
        parts.push(owned(".config"));
        parts.push(owned("tvh-client"));
        let r = Location { root: Root::Home, parts };
        proof {
            assert(string_views(parts@) =~= seq![".config"@, "tvh-client"@]);
        }
        Some(r)
    } else {
        None
    }
}

/// The file of the settings.
pub open spec fn settings_location(appdata: bool, home: bool) -> Option<LocationView> {
    opt_child(config_location(appdata, home), "settings.json"@)
}

/// The file of the settings.
pub fn settings_file(appdata: bool, home: bool) -> (r: Option<Location>)
    ensures
        opt_location(r) == settings_location(appdata, home),
{
    below(config_dir(appdata, home), owned("settings.json"))
}

/// The file that a server's guide is kept in.
pub open spec fn guide_location(appdata: bool, home: bool, server_id: Seq<char>) -> Option<
    LocationView,
> {
    opt_child(
        opt_child(config_location(appdata, home), "epg"@),
        sanitized(server_id) + ".json"@,
    )
}

/// The file that a server's guide is kept in.
pub fn guide_file(appdata: bool, home: bool, server_id: &str) -> (r: Option<Location>)
    ensures
        opt_location(r) == guide_location(appdata, home, server_id@),
{
    let mut name = sanitize_for_path(server_id);
    name.append(".json");
    below(below(config_dir(appdata, home), owned("epg")), name)
}

/// The file that a logo is kept in: its name is the hash of the key in
/// hexadecimal.
pub open spec fn logo_location(
    appdata: bool,
    home: bool,
    server_id: Seq<char>,
    key: Seq<char>,
) -> Option<LocationView> {
    opt_child(
        opt_child(opt_child(config_location(appdata, home), "logos"@), sanitized(server_id)),
        fixed_digits(hash_of(key) as nat, 16, 16),
    )
}

/// The file that a logo is kept in, by the server and the logo's key.
pub fn logo_file(appdata: bool, home: bool, server_id: &str, key: &str) -> (r: Option<Location>)
    ensures
        opt_location(r) == logo_location(appdata, home, server_id@, key@),
{
    let mut name = String::new();
    push_fixed(&mut name, hash_key(key), 16, 16);
    proof {
        assert(name@ =~= fixed_digits(hash_of(key@) as nat, 16, 16));
    }
    below(
        below(below(config_dir(appdata, home), owned("logos")), sanitize_for_path(server_id)),
        name,
    )
}

/// The directory that downloads go to unless the user picks another one.
pub open spec fn downloads_location(profile: bool, home: bool) -> LocationView {
    if profile {
        LocationView { root: Root::UserProfile, parts: seq!["Videos"@, "TVH Client Nahrávky"@] }
    } else if home {
        LocationView { root: Root::Home, parts: seq!["Videos"@, "TVH Client Nahrávky"@] }
    } else {
        LocationView { root: Root::Current, parts: seq!["TVH Client Nahrávky"@] }
    }
}

/// The directory that downloads go to unless the user picks another one, by
/// which of `USERPROFILE` and `HOME` is set.
pub fn downloads_dir(profile: bool, home: bool) -> (r: Location)
    ensures
        r@ == downloads_location(profile, home),
{
    let root = if profile {
        Root::UserProfile
    } else if home {
        Root::Home
    } else {
        Root::Current
    };
    let mut parts: Vec<String> = Vec::new();
    if profile || home {
        parts.push(owned("Videos"));
    }
    parts.push(owned("TVH Client Nahrávky"));
    let r = Location { root, parts };
    proof {
        if profile || home {
            assert(string_views(parts@) =~= seq!["Videos"@, "TVH Client Nahrávky"@]);
        } else {
            assert(string_views(parts@) =~= seq!["TVH Client Nahrávky"@]);
        }
    }
    r
}

// ---- laws ---------------------------------------------------------------

/// What is made a name of a file keeps its length, holds only characters that
/// are safe in names, and is not changed by being made one again.
pub proof fn law_sanitized(s: Seq<char>)
    ensures
        sanitized(s).len() == s.len(),
        forall|i: int| 0 <= i < s.len() ==> is_safe(#[trigger] sanitized(s)[i]),
        sanitized(sanitized(s)) == sanitized(s),
{
    assert(sanitized(sanitized(s)) =~= sanitized(s));
}

/// A name that leads nowhere else: it holds nothing that parts the names in a
/// path, and it is neither that of the directory itself nor of the one above.
pub open spec fn is_plain(name: Seq<char>) -> bool {
    &&& name != "."@
    &&& name != ".."@
    &&& forall|i: int|
        0 <= i < name.len() ==> #[trigger] name[i] != '/' && name[i] != '\\' && name[i] != ':'
}

/// Whether a location lies below a directory.
pub open spec fn lies_below(l: LocationView, dir: LocationView) -> bool {
    &&& l.root == dir.root
    &&& dir.parts.len() < l.parts.len()
    &&& l.parts.take(dir.parts.len() as int) == dir.parts
    &&& forall|i: int| dir.parts.len() <= i < l.parts.len() ==> is_plain(#[trigger] l.parts[i])
}

/// The settings and the caches of every server lie below one directory, and
/// without it there are none.
pub proof fn law_files_stay_in_config_dir(
    appdata: bool,
    home: bool,
    server_id: Seq<char>,
    key: Seq<char>,
)
    ensures
        match config_location(appdata, home) {
            Some(dir) => {
                &&& settings_location(appdata, home) matches Some(l) && lies_below(l, dir)
                &&& guide_location(appdata, home, server_id) matches Some(l) && lies_below(l, dir)
                &&& logo_location(appdata, home, server_id, key) matches Some(l) && lies_below(
                    l,
                    dir,
                )
            },
            None => settings_location(appdata, home) is None && guide_location(
                appdata,
                home,
                server_id,
            ) is None && logo_location(appdata, home, server_id, key) is None,
        },
{
    reveal_strlit(".");
    reveal_strlit("..");
    reveal_strlit("settings.json");
    reveal_strlit("epg");
    reveal_strlit("logos");
    reveal_strlit(".json");
    law_sanitized(server_id);
    let hash = fixed_digits(hash_of(key) as nat, 16, 16);
    lemma_fixed_digit_chars(hash_of(key) as nat, 16, 16);
    assert("."@.len() == 1 && ".."@.len() == 2 && "epg"@.len() == 3);
    assert("logos"@.len() == 5 && "settings.json"@.len() == 13);
    assert(is_plain(hash));
    assert(is_plain("settings.json"@));
    assert(is_plain("epg"@));
    assert(is_plain("logos"@));
    assert(is_plain(sanitized(server_id))) by {
        assert(forall|i: int|
            0 <= i < server_id.len() ==> is_safe(#[trigger] sanitized(server_id)[i]));
        if sanitized(server_id) == "."@ {
            assert(is_safe(sanitized(server_id)[0]));
        }
        if sanitized(server_id) == ".."@ {
            assert(is_safe(sanitized(server_id)[0]));
        }
    }
    let guide = sanitized(server_id) + ".json"@;
    assert(is_plain(guide)) by {
        assert forall|i: int| 0 <= i < guide.len() implies #[trigger] guide[i] != '/' && guide[i]
            != '\\' && guide[i] != ':' by {
            if i < server_id.len() {
                assert(is_safe(sanitized(server_id)[i]));
            }
        }
    }
    match config_location(appdata, home) {
        Some(dir) => {
            let a = dir.child("settings.json"@);
            let b = dir.child("epg"@).child(guide);
            let c = dir.child("logos"@).child(sanitized(server_id)).child(hash);
            let n = dir.parts.len() as int;
            assert(a.parts.take(n) =~= dir.parts);
            assert(b.parts.take(n) =~= dir.parts);
            assert(c.parts.take(n) =~= dir.parts);
        },
        None => {},
    }
}

/// Servers that were added at different times keep their guides in different
/// files.
pub proof fn law_guides_are_apart(appdata: bool, home: bool, a: u128, b: u128)
    requires
        a != b,
        appdata || home,
    ensures
        guide_location(appdata, home, id_text(a)) != guide_location(appdata, home, id_text(b)),
{
    lemma_id_is_safe(a);
    lemma_id_is_safe(b);
    law_new_ids_differ(a, b);
    let x = guide_location(appdata, home, id_text(a))->0.parts.last();
    let y = guide_location(appdata, home, id_text(b))->0.parts.last();
    assert(x == id_text(a) + ".json"@);
    assert(y == id_text(b) + ".json"@);
    if x == y {
        let n = x.len() - ".json"@.len();
        assert(x.take(n) =~= id_text(a));
        assert(y.take(n) =~= id_text(b));
    }
}

/// The id of a server can stand in the name of a file as it is.
proof fn lemma_id_is_safe(nanos: u128)
    ensures
        sanitized(id_text(nanos)) == id_text(nanos),
{
    reveal_strlit("server-");
    lemma_digit_chars(nanos as nat, 16);
    let id = id_text(nanos);
    assert forall|i: int| 0 <= i < id.len() implies is_safe(#[trigger] id[i]) by {
        if i >= 7 {
            assert(id[i] == digits(nanos as nat, 16)[i - 7]);
        }
    }
    assert(sanitized(id) =~= id);
}

/// Every character of a name that is an ASCII letter, a digit, a hyphen or an
/// underscore stays, and every other becomes an underscore.
pub proof fn law_name_kept(s: Seq<char>, i: int)
    requires
        0 <= i < s.len(),
    ensures
        '0' <= s[i] <= '9' || 'A' <= s[i] <= 'Z' || 'a' <= s[i] <= 'z' || s[i] == '-' || s[i] == '_'
            ==> sanitized(s)[i] == s[i],
        !('0' <= s[i] <= '9' || 'A' <= s[i] <= 'Z' || 'a' <= s[i] <= 'z' || s[i] == '-' || s[i]
            == '_') ==> sanitized(s)[i] == '_',
{
}

/// Where everything is kept: below the directory of the program for
/// application data where the system names one, and otherwise below the hidden
/// one in the user's home; the guide of each server and its logos in
/// directories of their own.
pub proof fn law_locations(appdata: bool, home: bool, server_id: Seq<char>, key: Seq<char>)
    ensures
        config_location(true, home) matches Some(l) && l.root == Root::AppData && l.parts == seq![
            "tvh-client"@,
        ],
        config_location(false, true) matches Some(l) && l.root == Root::Home && l.parts == seq![
            ".config"@,
            "tvh-client"@,
        ],
        config_location(false, false) is None,
        config_location(appdata, home) matches Some(c) ==> {
            &&& settings_location(appdata, home) matches Some(l) && l.root == c.root && l.parts
                == c.parts.push("settings.json"@)
            &&& guide_location(appdata, home, server_id) matches Some(l) && l.root == c.root
                && l.parts == c.parts.push("epg"@).push(sanitized(server_id) + ".json"@)
            &&& logo_location(appdata, home, server_id, key) matches Some(l) && l.root == c.root
                && l.parts == c.parts.push("logos"@).push(sanitized(server_id)).push(
                fixed_digits(hash_of(key) as nat, 16, 16),
            )
        },
        config_location(appdata, home) is None ==> settings_location(appdata, home) is None
            && guide_location(appdata, home, server_id) is None && logo_location(
            appdata,
            home,
            server_id,
            key,
        ) is None,
        downloads_location(true, home).root == Root::UserProfile,
        downloads_location(false, true).root == Root::Home,
        downloads_location(false, false).root == Root::Current,
        downloads_location(appdata, home).parts.last() == "TVH Client Nahrávky"@,
        downloads_location(appdata, home).parts.len() == if appdata || home {
            2int
        } else {
            1
        },
        appdata || home ==> downloads_location(appdata, home).parts[0] == "Videos"@,
{
}

/// A location is its root and its names, as they are.
pub proof fn law_location(l: Location)
    ensures
        opt_location(Some(l)) == Some(l@),
        opt_location(None) is None,
        l@.root == l.root,
        l@.parts == string_views(l.parts@),
{
}

} // verus!
