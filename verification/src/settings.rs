//! Saved settings: named server profiles, and which of them is primary, that
//! is, connected to at startup.
//!
//! They are kept as JSON in the user's configuration directory. Passwords are
//! stored unencrypted, which is accepted for a client of a media server in the
//! home network. A file of the first format, with a single server, is turned
//! into one primary profile when it is loaded.
use vstd::prelude::*;
use vstd::string::*;

use crate::numbers::{digits, lemma_digits_differ, push_digits};
use crate::order::lemma_filter_contains;
use crate::text::{clone_strings, opt_view, owned, same_str, string_views};

verus! {

/// A saved server.
#[derive(Debug, PartialEq, Eq)]
pub struct ServerProfile {
    /// Stays the same when the server is renamed.
    pub id: String,
    pub name: String,
    pub url: String,
    pub user: String,
    pub password: String,
    /// The uuids of the tags that the channel list is restricted to. Empty
    /// means that every channel is shown.
    pub selected_tags: Vec<String>,
}

/// The text of a profile.
#[verifier::ext_equal]
pub struct ProfileView {
    pub id: Seq<char>,
    pub name: Seq<char>,
    pub url: Seq<char>,
    pub user: Seq<char>,
    pub password: Seq<char>,
    pub selected_tags: Seq<Seq<char>>,
}

impl View for ServerProfile {
    type V = ProfileView;

    open spec fn view(&self) -> ProfileView {
        ProfileView {
            id: self.id@,
            name: self.name@,
            url: self.url@,
            user: self.user@,
            password: self.password@,
            selected_tags: string_views(self.selected_tags@),
        }
    }
}

impl Clone for ServerProfile {
    fn clone(&self) -> (r: Self)
        ensures
            r@ == self@,
    {
        ServerProfile {
            id: self.id.clone(),
            name: self.name.clone(),
            url: self.url.clone(),
            user: self.user.clone(),
            password: self.password.clone(),
            selected_tags: clone_strings(&self.selected_tags),
        }
    }
}

impl Default for ServerProfile {
    fn default() -> (r: Self)
        ensures
            r@ == (ProfileView {
                id: Seq::empty(),
                name: Seq::empty(),
                url: Seq::empty(),
                user: Seq::empty(),
                password: Seq::empty(),
                selected_tags: Seq::empty(),
            }),
    {
        let r = ServerProfile {
            id: String::new(),
            name: String::new(),
            url: String::new(),
            user: String::new(),
            password: String::new(),
            selected_tags: Vec::new(),
        };
        proof {
            assert(string_views(r.selected_tags@) =~= Seq::<Seq<char>>::empty());
        }
        r
    }
}

/// The saved settings.
#[derive(Debug)]
pub struct Settings {
    pub servers: Vec<ServerProfile>,
    pub primary_id: Option<String>,
    /// Where recordings are downloaded to. Empty means not chosen yet.
    pub downloads_dir: String,
}

/// The text of the settings.
#[verifier::ext_equal]
pub struct SettingsView {
    pub servers: Seq<ProfileView>,
    pub primary_id: Option<Seq<char>>,
    pub downloads_dir: Seq<char>,
}

/// The views of a list of profiles.
pub open spec fn profile_views(s: Seq<ServerProfile>) -> Seq<ProfileView> {
    s.map_values(|p: ServerProfile| p@)
}

impl View for Settings {
    type V = SettingsView;

    open spec fn view(&self) -> SettingsView {
        SettingsView {
            servers: profile_views(self.servers@),
            primary_id: opt_view(self.primary_id),
            downloads_dir: self.downloads_dir@,
        }
    }
}

/// Whether a profile has another id than the given one.
pub open spec fn without_id(id: Seq<char>) -> spec_fn(ProfileView) -> bool {
    |p: ProfileView| p.id != id
}

impl SettingsView {
    /// Settings before anything is saved.
    pub open spec fn empty() -> SettingsView {
        SettingsView { servers: Seq::empty(), primary_id: None, downloads_dir: Seq::empty() }
    }

    /// The place of the first server with an id, from `from` on.
    pub open spec fn place(self, id: Seq<char>, from: int) -> Option<int>
        decreases self.servers.len() - from,
    {
        if from >= self.servers.len() {
            None
        } else if self.servers[from].id == id {
            Some(from)
        } else {
            self.place(id, from + 1)
        }
    }

    /// The first server with an id.
    pub open spec fn find(self, id: Seq<char>) -> Option<ProfileView> {
        match self.place(id, 0) {
            Some(i) => Some(self.servers[i]),
            None => None,
        }
    }

    /// The server to connect to at startup: the primary one, where there still
    /// is such a server, and the first one otherwise.
    pub open spec fn primary(self) -> Option<ProfileView> {
        match self.primary_id {
            Some(id) if self.find(id) is Some => self.find(id),
            _ => if self.servers.len() > 0 {
                Some(self.servers[0])
            } else {
                None
            },
        }
    }

    /// With a server saved: in the place of the one with the same id, or else
    /// at the end. The first server that is ever saved is the primary one.
    pub open spec fn saved(self, p: ProfileView) -> SettingsView {
        SettingsView {
            servers: match self.place(p.id, 0) {
                Some(i) => self.servers.update(i, p),
                None => self.servers.push(p),
            },
            primary_id: match self.primary_id {
                Some(id) => Some(id),
                None => Some(p.id),
            },
            ..self
        }
    }

    /// Without the servers of an id. If that was the primary one, the first
    /// that is left takes its place.
    pub open spec fn deleted(self, id: Seq<char>) -> SettingsView {
        let servers = self.servers.filter(without_id(id));
        SettingsView {
            servers,
            primary_id: if self.primary_id == Some(id) {
                if servers.len() > 0 {
                    Some(servers[0].id)
                } else {
                    None
                }
            } else {
                self.primary_id
            },
            ..self
        }
    }

    /// With another primary server.
    pub open spec fn with_primary(self, id: Seq<char>) -> SettingsView {
        SettingsView { primary_id: Some(id), ..self }
    }
}

/// The view of an optional profile.
pub open spec fn opt_profile(o: Option<&ServerProfile>) -> Option<ProfileView> {
    match o {
        Some(p) => Some(p@),
        None => None,
    }
}

/// A place found is that of a server with the id, and the first one.
pub proof fn lemma_place(s: SettingsView, id: Seq<char>, from: int)
    requires
        0 <= from,
    ensures
        s.place(id, from) matches Some(i) ==> from <= i < s.servers.len() && s.servers[i].id == id,
        s.place(id, from) matches Some(i) ==> forall|j: int|
            from <= j < i ==> (#[trigger] s.servers[j]).id != id,
        s.place(id, from) is None ==> forall|j: int|
            from <= j < s.servers.len() ==> (#[trigger] s.servers[j]).id != id,
    decreases s.servers.len() - from,
{
    if from < s.servers.len() && s.servers[from].id != id {
        lemma_place(s, id, from + 1);
    }
}

impl Default for Settings {
    fn default() -> (r: Self)
        ensures
            r@ == SettingsView::empty(),
    {
        let r = Settings { servers: Vec::new(), primary_id: None, downloads_dir: String::new() };
        proof {
            assert(profile_views(r.servers@) =~= Seq::<ProfileView>::empty());
        }
        r
    }
}

/// The id of a profile that is made at a time, in nanoseconds.
pub open spec fn id_text(nanos: u128) -> Seq<char> {
    "server-"@ + digits(nanos as nat, 16)
}

impl Settings {
    /// The place of the first server with an id.
    fn place_of(&self, id: &str) -> (r: Option<usize>)
        ensures
            r is Some <==> self@.place(id@, 0) is Some,
            r matches Some(i) ==> self@.place(id@, 0) == Some(i as int) && i < self.servers@.len(),
    {
        let n: usize = self.servers.len();
        for i in 0..n
            invariant
                n == self.servers@.len(),
                self@.place(id@, 0) == self@.place(id@, i as int),
        {
            proof {
                assert(self@.servers[i as int] == self.servers@[i as int]@);
            }
            if same_str(self.servers[i].id.as_str(), id) {
                return Some(i);
            }
        }
        None
    }

    /// The server with an id.
    pub fn find(&self, id: &str) -> (r: Option<&ServerProfile>)
        ensures
            opt_profile(r) == self@.find(id@),
    {
        match self.place_of(id) {
            Some(i) => Some(&self.servers[i]),
            None => None,
        }
    }

    /// The server to connect to at startup: the primary one, where there still
    /// is such a server, and the first one otherwise.
    pub fn primary(&self) -> (r: Option<&ServerProfile>)
        ensures
            opt_profile(r) == self@.primary(),
    {
        match &self.primary_id {
            Some(id) => match self.find(id.as_str()) {
                Some(p) => {
                    return Some(p);
                },
                None => {},
            },
            None => {},
        }
        if self.servers.len() > 0 {
            Some(&self.servers[0])
        } else {
            None
        }
    }

    /// A fresh id for a new profile, from the time in nanoseconds. It only has
    /// to differ from the ids that are saved.
    pub fn new_id(nanos: u128) -> (r: String)
        ensures
            r@ == id_text(nanos),
    {
        let mut out = owned("server-");
        push_digits(&mut out, nanos, 16);
        out
    }

    /// Saves a server: in the place of the one with the same id, or else at
    /// the end. The first server that is ever saved is the primary one.
    pub fn upsert(&mut self, profile: ServerProfile)
        ensures
            final(self)@ == old(self)@.saved(profile@),
    {
        let ghost before = self@;
        let ghost raw = self.servers@;
        if self.primary_id.is_none() {
            self.primary_id = Some(profile.id.clone());
        }
        let at = self.place_of(profile.id.as_str());
        proof {
            lemma_same_servers(self@, before, profile@.id, 0);
        }
        match at {
            Some(i) => {
                self.servers.set(i, profile);
                proof {
                    assert(profile_views(self.servers@) =~= before.servers.update(
                        i as int,
                        profile@,
                    ));
                }
            },
            None => {
                self.servers.push(profile);
                proof {
                    assert(profile_views(self.servers@) =~= before.servers.push(profile@));
                }
            },
        }
        proof {
            assert(self@ =~= before.saved(profile@));
        }
    }

    /// Deletes the servers of an id.
    pub fn delete(&mut self, id: &str)
        ensures
            final(self)@ == old(self)@.deleted(id@),
    {
        let ghost before = self@;
        let ghost all = profile_views(self.servers@);
        let ghost keep = without_id(id@);
        let mut servers: Vec<ServerProfile> = Vec::new();
        let n: usize = self.servers.len();
        proof {
            reveal(Seq::filter);
            assert(profile_views(servers@) =~= Seq::<ProfileView>::empty());
        }
        for i in 0..n
            invariant
                n == self.servers@.len(),
                all == profile_views(self.servers@),
                keep == without_id(id@),
                profile_views(servers@) == all.take(i as int).filter(keep),
        {
            proof {
                reveal(Seq::filter);
                assert(all.take(i + 1).drop_last() =~= all.take(i as int));
                assert(all.take(i + 1).last() == self.servers@[i as int]@);
            }
            if !same_str(self.servers[i].id.as_str(), id) {
                let ghost held = servers@;
                let p = self.servers[i].clone();
                servers.push(p);
                proof {
                    assert(profile_views(servers@) =~= profile_views(held).push(p@));
                }
            }
        }
        proof {
            assert(all.take(n as int) =~= all);
        }
        let was_primary = match &self.primary_id {
            Some(p) => same_str(p.as_str(), id),
            None => false,
        };
        if was_primary {
            self.primary_id = if servers.len() > 0 {
                proof {
                    assert(profile_views(servers@)[0] == servers@[0]@);
                }
                Some(servers[0].id.clone())
            } else {
                None
            };
        }
        self.servers = servers;
        proof {
            assert(self@ =~= before.deleted(id@));
        }
    }

    /// Makes a server the primary one.
    pub fn set_primary(&mut self, id: &str)
        ensures
            final(self)@ == old(self)@.with_primary(id@),
    {
        self.primary_id = Some(owned(id));
    }
}

/// Places depend on the servers alone.
proof fn lemma_same_servers(a: SettingsView, b: SettingsView, id: Seq<char>, from: int)
    requires
        a.servers == b.servers,
    ensures
        a.place(id, from) == b.place(id, from),
    decreases a.servers.len() - from,
{
    if from < a.servers.len() && a.servers[from].id != id {
        lemma_same_servers(a, b, id, from + 1);
    }
}

// ---- loading ------------------------------------------------------------

/// The first format of the settings, with a single server.
#[derive(Debug)]
pub struct LegacySettings {
    pub url: String,
    pub user: String,
    pub password: String,
}

/// The text of the first format.
pub struct LegacyView {
    pub url: Seq<char>,
    pub user: Seq<char>,
    pub password: Seq<char>,
}

impl View for LegacySettings {
    type V = LegacyView;

    open spec fn view(&self) -> LegacyView {
        LegacyView { url: self.url@, user: self.user@, password: self.password@ }
    }
}

impl LegacyView {
    /// Whether there is a server in it.
    pub open spec fn has_server(self) -> bool {
        self.url.len() > 0 || self.user.len() > 0 || self.password.len() > 0
    }
}

/// The view of optional settings of the first format.
pub open spec fn opt_legacy(o: Option<LegacySettings>) -> Option<LegacyView> {
    match o {
        Some(l) => Some(l@),
        None => None,
    }
}

/// The view of optional settings.
pub open spec fn opt_settings(o: Option<Settings>) -> SettingsView {
    match o {
        Some(s) => s@,
        None => SettingsView::empty(),
    }
}

/// Whether settings are turned from the first format into the present one.
pub open spec fn migrates(s: SettingsView, legacy: Option<LegacyView>) -> bool {
    s.servers.len() == 0 && legacy is Some && legacy->0.has_server()
}

/// The settings that a file holds: `s` in the present format and `legacy` in
/// the first one, as far as the file can be read as either.
pub open spec fn loaded(
    s: SettingsView,
    legacy: Option<LegacyView>,
    new_id: Seq<char>,
) -> SettingsView {
    if migrates(s, legacy) {
        let l = legacy->0;
        SettingsView {
            servers: seq![
                ProfileView {
                    id: new_id,
                    name: "Server 1"@,
                    url: l.url,
                    user: l.user,
                    password: l.password,
                    selected_tags: Seq::empty(),
                },
            ],
            primary_id: Some(new_id),
            ..s
        }
    } else {
        s
    }
}

impl Settings {
    /// The settings that a file holds: `parsed` is what it says in the present
    /// format and `legacy` in the first one. Without servers in the present
    /// format, the server of the first one becomes a primary profile with the id
    /// `new_id`. The second value tells whether that happened: the settings are
    /// then saved at once, so that it happens only once.
    pub fn load(
        parsed: Option<Settings>,
        legacy: Option<LegacySettings>,
        new_id: &str,
    ) -> (r: (Self, bool))
        ensures
            r.0@ == loaded(opt_settings(parsed), opt_legacy(legacy), new_id@),
            r.1 == migrates(opt_settings(parsed), opt_legacy(legacy)),
    {
        let mut settings = match parsed {
            Some(s) => s,
            None => Settings::default(),
        };
        let ghost before = settings@;
        if settings.servers.len() > 0 {
            return (settings, false);
        }
        match legacy {
            Some(l) => {
                if l.url.as_str().is_empty() && l.user.as_str().is_empty()
                    && l.password.as_str().is_empty() {
                    return (settings, false);
                }
                let profile = ServerProfile {
                    id: owned(new_id),
                    name: owned("Server 1"),
                    url: l.url,
                    user: l.user,
                    password: l.password,
                    selected_tags: Vec::new(),
                };
                settings.primary_id = Some(owned(new_id));
                settings.servers.push(profile);
                proof {
                    assert(string_views(profile.selected_tags@) =~= Seq::<Seq<char>>::empty());
                    assert(profile_views(settings.servers@) =~= seq![profile@]);
                    assert(settings@ =~= loaded(before, Some(l@), new_id@));
                }
                (settings, true)
            },
            None => (settings, false),
        }
    }
}

// ---- laws ---------------------------------------------------------------

/// Profiles that are made at different times have different ids.
pub proof fn law_new_ids_differ(a: u128, b: u128)
    requires
        a != b,
    ensures
        id_text(a) != id_text(b),
{
    if id_text(a) == id_text(b) {
        let n = "server-"@.len() as int;
        assert(id_text(a).skip(n) =~= digits(a as nat, 16));
        assert(id_text(b).skip(n) =~= digits(b as nat, 16));
        lemma_digits_differ(a as nat, b as nat, 16);
    }
}

/// A migration runs only once: what it gives is not migrated again.
pub proof fn law_migrates_once(
    s: SettingsView,
    legacy: Option<LegacyView>,
    id: Seq<char>,
    again: Option<LegacyView>,
    id2: Seq<char>,
)
    requires
        migrates(s, legacy),
    ensures
        !migrates(loaded(s, legacy, id), again),
        loaded(loaded(s, legacy, id), again, id2) == loaded(s, legacy, id),
        loaded(s, legacy, id).primary() == Some(loaded(s, legacy, id).servers[0]),
{
    let t = loaded(s, legacy, id);
    assert(t.place(id, 0) == Some(0int));
}

/// A saved server is found under its id, and every other server stays.
pub proof fn law_saved(s: SettingsView, p: ProfileView, other: Seq<char>)
    ensures
        s.saved(p).find(p.id) == Some(p),
        other != p.id ==> s.saved(p).find(other) == s.find(other),
        s.saved(p).primary_id is Some,
        s.saved(p).servers.len() == s.servers.len() || s.saved(p).servers.len() == s.servers.len()
            + 1,
{
    lemma_place(s, p.id, 0);
    lemma_place(s.saved(p), p.id, 0);
    lemma_place(s, other, 0);
    lemma_place(s.saved(p), other, 0);
    let t = s.saved(p);
    match s.place(p.id, 0) {
        Some(i) => {
            assert(t.servers[i].id == p.id);
            if other != p.id {
                assert forall|j: int| 0 <= j < s.servers.len() implies (t.servers[j].id == other
                    <==> s.servers[j].id == other) by {}
                lemma_first(s, t, other);
            }
        },
        None => {
            assert(t.servers[s.servers.len() as int].id == p.id);
            assert forall|j: int| 0 <= j < s.servers.len() implies t.servers[j] == s.servers[j] by {}
            match t.place(p.id, 0) {
                Some(k) => {
                    if k < s.servers.len() {
                        assert(t.servers[k] == s.servers[k]);
                    }
                },
                None => {},
            }
            if other != p.id {
                match s.place(other, 0) {
                    Some(k) => {
                        assert(t.servers[k].id == other);
                        match t.place(other, 0) {
                            Some(m) => {
                                if m < k {
                                    assert(s.servers[m].id == other);
                                }
                                if m > k {
                                    assert(t.servers[k].id != other);
                                }
                            },
                            None => {},
                        }
                    },
                    None => {
                        match t.place(other, 0) {
                            Some(m) => {
                                if m < s.servers.len() {
                                    assert(s.servers[m].id == other);
                                }
                            },
                            None => {},
                        }
                    },
                }
            }
        },
    }
}

/// Where the same places of two lists hold an id, it is first found in the
/// same place.
proof fn lemma_first(s: SettingsView, t: SettingsView, id: Seq<char>)
    requires
        s.servers.len() == t.servers.len(),
        forall|j: int|
            0 <= j < s.servers.len() ==> ((#[trigger] t.servers[j]).id == id <==> s.servers[j].id
                == id),
    ensures
        s.place(id, 0) == t.place(id, 0),
{
    lemma_place(s, id, 0);
    lemma_place(t, id, 0);
    match s.place(id, 0) {
        Some(i) => {
            assert(t.servers[i].id == id);
            match t.place(id, 0) {
                Some(j) => {
                    if j < i {
                        assert(s.servers[j].id == id);
                    }
                },
                None => {},
            }
        },
        None => {
            match t.place(id, 0) {
                Some(j) => {
                    assert(s.servers[j].id == id);
                },
                None => {},
            }
        },
    }
}

/// A deleted server is not found any more and is not the primary one, and a
/// primary server that was not deleted stays.
pub proof fn law_deleted(s: SettingsView, id: Seq<char>)
    ensures
        s.deleted(id).find(id) is None,
        s.deleted(id).primary_id != Some(id),
        s.primary_id == Some(id) && s.deleted(id).servers.len() > 0 ==> s.deleted(id).primary()
            == Some(s.deleted(id).servers[0]),
        s.primary_id != Some(id) ==> s.deleted(id).primary_id == s.primary_id,
{
    let t = s.deleted(id);
    assert forall|j: int| 0 <= j < t.servers.len() implies (#[trigger] t.servers[j]).id != id by {
        lemma_filter_contains(s.servers, without_id(id), t.servers[j]);
    }
    lemma_place(t, id, 0);
    if s.primary_id == Some(id) && t.servers.len() > 0 {
        assert(t.place(t.servers[0].id, 0) == Some(0int));
    }
}

/// A server is found under its id in the first place that has it.
pub proof fn law_find(s: SettingsView, id: Seq<char>, i: int)
    ensures
        0 <= i < s.servers.len() && s.servers[i].id == id && (forall|j: int|
            0 <= j < i ==> (#[trigger] s.servers[j]).id != id) ==> s.find(id) == Some(s.servers[i]),
        (forall|j: int| 0 <= j < s.servers.len() ==> (#[trigger] s.servers[j]).id != id) ==> s.find(
            id,
        ) is None,
{
    lemma_place(s, id, 0);
}

/// The server to connect to is the one that was made the primary one, where
/// there still is such a server, and otherwise the first of the list.
pub proof fn law_primary(s: SettingsView, id: Seq<char>)
    ensures
        s.servers.len() == 0 ==> s.primary() is None,
        s.servers.len() > 0 && s.primary_id is None ==> s.primary() == Some(s.servers[0]),
        s.primary_id == Some(id) && s.find(id) is Some ==> s.primary() == s.find(id),
        s.servers.len() > 0 && s.primary_id == Some(id) && s.find(id) is None ==> s.primary()
            == Some(s.servers[0]),
        s.with_primary(id).primary_id == Some(id),
        s.with_primary(id).servers == s.servers,
        s.with_primary(id).downloads_dir == s.downloads_dir,
{
    lemma_place(s, id, 0);
    match s.primary_id {
        Some(p) => {
            lemma_place(s, p, 0);
        },
        None => {},
    }
}

/// A saved server takes the place of the first one with its id, all others
/// keeping theirs; a new one comes last. The first that is ever saved is the
/// primary one; otherwise that stays what it was.
pub proof fn law_saved_in_place(s: SettingsView, p: ProfileView, i: int)
    ensures
        0 <= i < s.servers.len() && s.servers[i].id == p.id && (forall|j: int|
            0 <= j < i ==> (#[trigger] s.servers[j]).id != p.id) ==> {
            &&& s.saved(p).servers.len() == s.servers.len()
            &&& s.saved(p).servers[i] == p
            &&& forall|j: int|
                0 <= j < s.servers.len() && j != i ==> #[trigger] s.saved(p).servers[j]
                    == s.servers[j]
        },
        (forall|j: int| 0 <= j < s.servers.len() ==> (#[trigger] s.servers[j]).id != p.id)
            ==> s.saved(p).servers.len() == s.servers.len() + 1 && s.saved(p).servers.last() == p
            && s.saved(p).servers.drop_last() == s.servers,
        s.primary_id is Some ==> s.saved(p).primary_id == s.primary_id,
        s.primary_id is None ==> s.saved(p).primary_id == Some(p.id),
        s.saved(p).downloads_dir == s.downloads_dir,
{
    lemma_place(s, p.id, 0);
    assert(s.servers.push(p).drop_last() =~= s.servers);
}

/// Deleting takes away the servers with an id and leaves all others, in their
/// order. The first that is left becomes the primary one where that was
/// deleted.
pub proof fn law_deleted_ids(s: SettingsView, p: ProfileView, id: Seq<char>)
    ensures
        p.id == id ==> s.servers.push(p).filter(without_id(id)) == s.deleted(id).servers,
        p.id != id ==> s.servers.push(p).filter(without_id(id)) == s.deleted(id).servers.push(p),
        s.servers.len() == 0 ==> s.deleted(id).servers.len() == 0,
        s.deleted(id).downloads_dir == s.downloads_dir,
        s.primary_id != Some(id) ==> s.deleted(id).primary_id == s.primary_id,
        s.primary_id == Some(id) && s.deleted(id).servers.len() > 0 ==> s.deleted(id).primary_id
            == Some(s.deleted(id).servers[0].id),
        s.primary_id == Some(id) && s.deleted(id).servers.len() == 0 ==> s.deleted(id).primary_id
            is None,
        s.deleted(id).servers.contains(p) <==> s.servers.contains(p) && p.id != id,
{
    reveal(Seq::filter);
    assert(s.servers.push(p).drop_last() =~= s.servers);
    lemma_filter_contains(s.servers, without_id(id), p);
}

/// The one server of the first format becomes the only and primary one where
/// there are no servers in the present format; in every other case the
/// settings stay as they are.
pub proof fn law_migration(s: SettingsView, l: LegacyView, id: Seq<char>)
    ensures
        loaded(s, None, id) == s,
        s.servers.len() > 0 ==> loaded(s, Some(l), id) == s && !migrates(s, Some(l)),
        l.url.len() == 0 && l.user.len() == 0 && l.password.len() == 0 ==> loaded(s, Some(l), id)
            == s && !migrates(s, Some(l)),
        s.servers.len() == 0 && (l.url.len() > 0 || l.user.len() > 0 || l.password.len() > 0) ==> {
            let t = loaded(s, Some(l), id);
            &&& migrates(s, Some(l))
            &&& t.servers.len() == 1
            &&& t.servers[0].id == id
            &&& t.servers[0].name == "Server 1"@
            &&& t.servers[0].url == l.url
            &&& t.servers[0].user == l.user
            &&& t.servers[0].password == l.password
            &&& t.servers[0].selected_tags.len() == 0
            &&& t.primary_id == Some(id)
            &&& t.downloads_dir == s.downloads_dir
        },
{
}

/// The id of a new profile tells the time at which it was made.
pub proof fn law_new_id(nanos: u128)
    ensures
        id_text(nanos).take(7) == "server-"@,
        id_text(nanos).skip(7) == digits(nanos as nat, 16),
{
    reveal_strlit("server-");
    assert(id_text(nanos).take(7) =~= "server-"@);
    assert(id_text(nanos).skip(7) =~= digits(nanos as nat, 16));
}

/// Settings and profiles are told as they are.
pub proof fn law_settings_views(s: Settings, p: ServerProfile, l: LegacySettings, i: int)
    ensures
        s@.servers.len() == s.servers@.len(),
        0 <= i < s.servers@.len() ==> s@.servers[i] == s.servers@[i]@,
        s@.primary_id == opt_view(s.primary_id),
        s@.downloads_dir == s.downloads_dir@,
        p@.id == p.id@,
        p@.name == p.name@,
        p@.url == p.url@,
        p@.user == p.user@,
        p@.password == p.password@,
        p@.selected_tags == string_views(p.selected_tags@),
        opt_profile(Some(&p)) == Some(p@),
        opt_profile(None) is None,
        l@.url == l.url@,
        l@.user == l.user@,
        l@.password == l.password@,
        opt_legacy(Some(l)) == Some(l@),
        opt_legacy(None) is None,
        opt_settings(Some(s)) == s@,
        opt_settings(None).servers.len() == 0,
        opt_settings(None).primary_id is None,
        opt_settings(None).downloads_dir.len() == 0,
{
}

} // verus!
