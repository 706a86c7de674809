//! The list of the saved servers, and the form to add or edit one.
use vstd::prelude::*;
use vstd::string::*;

use crate::guide::Poll;
use crate::numbers::{decimal, push_digits};
use crate::order::lemma_filter_contains;
use crate::settings::{ProfileView, ServerProfile, Settings};
use crate::text::{clone_strings, listed, opt_view, owned, same_str, string_views, trim, trimmed_str};
use crate::tvh::{ChannelTag, ServerInfo};

verus! {

/// What the test of a server found.
#[derive(Debug)]
pub struct TestOk {
    pub server_label: String,
    pub tags: Vec<ChannelTag>,
}

/// What is said of a server that was tested: its name and its version.
pub open spec fn tested_text(info: ServerInfo) -> Seq<char> {
    (match info.name {
        Some(n) => n@,
        None => "TVHeadend"@,
    }) + " "@ + match info.sw_version {
        Some(v) => v@,
        None => Seq::empty(),
    }
}

impl TestOk {
    /// The result of a test. Where the server does not tell its tags, there
    /// are none: that alone is no failure.
    pub fn new(info: &ServerInfo, tags: Option<Vec<ChannelTag>>) -> (r: Self)
        ensures
            r.server_label@ == tested_text(*info),
            match tags {
                Some(t) => r.tags == t,
                None => r.tags@.len() == 0,
            },
    {
        let mut label = match &info.name {
            Some(n) => n.clone(),
            None => owned("TVHeadend"),
        };
        label.append(" ");
        match &info.sw_version {
            Some(v) => label.append(v.as_str()),
            None => {
                proof {
                    assert(label@ + Seq::<char>::empty() =~= label@);
                }
            },
        }
        TestOk {
            server_label: label,
            tags: match tags {
                Some(t) => t,
                None => Vec::new(),
            },
        }
    }
}

/// The form to add or edit a server. Without an id it is a new one.
#[derive(Debug)]
pub struct ServerEdit {
    pub id: Option<String>,
    pub name: String,
    pub url: String,
    pub user: String,
    pub password: String,
    pub selected_tags: Vec<String>,
    pub testing: bool,
    pub waiting: bool,
    pub test_result: Option<Result<TestOk, String>>,
}

/// What the form holds of the server.
#[verifier::ext_equal]
pub struct EditView {
    pub id: Option<Seq<char>>,
    pub name: Seq<char>,
    pub url: Seq<char>,
    pub user: Seq<char>,
    pub password: Seq<char>,
    pub selected_tags: Seq<Seq<char>>,
}

impl View for ServerEdit {
    type V = EditView;

    open spec fn view(&self) -> EditView {
        EditView {
            id: opt_view(self.id),
            name: self.name@,
            url: self.url@,
            user: self.user@,
            password: self.password@,
            selected_tags: string_views(self.selected_tags@),
        }
    }
}

/// Whether a text is another one than the given one.
pub open spec fn other_than(uuid: Seq<char>) -> spec_fn(Seq<char>) -> bool {
    |t: Seq<char>| t != uuid
}

impl EditView {
    /// The profile that the form stands for; `new_id` is for a new server.
    pub open spec fn profile(self, new_id: Seq<char>) -> ProfileView {
        ProfileView {
            id: match self.id {
                Some(id) => id,
                None => new_id,
            },
            name: trim(self.name),
            url: trim(self.url),
            user: self.user,
            password: self.password,
            selected_tags: self.selected_tags,
        }
    }

    /// With a tag checked or not.
    pub open spec fn with_tag(self, uuid: Seq<char>, checked: bool) -> EditView {
        EditView {
            selected_tags: if checked {
                self.selected_tags.push(uuid)
            } else {
                self.selected_tags.filter(other_than(uuid))
            },
            ..self
        }
    }
}

/// The form of a saved server.
pub open spec fn edit_of(p: ProfileView) -> EditView {
    EditView {
        id: Some(p.id),
        name: p.name,
        url: p.url,
        user: p.user,
        password: p.password,
        selected_tags: p.selected_tags,
    }
}

impl ServerEdit {
    /// The form for a new server.
    pub fn blank() -> (r: Self)
        ensures
            r@ == (EditView {
                id: None,
                name: Seq::empty(),
                url: Seq::empty(),
                user: Seq::empty(),
                password: Seq::empty(),
                selected_tags: Seq::empty(),
            }),
            !r.testing,
            !r.waiting,
            r.test_result is None,
    {
        let r = ServerEdit {
            id: None,
            name: String::new(),
            url: String::new(),
            user: String::new(),
            password: String::new(),
            selected_tags: Vec::new(),
            testing: false,
            waiting: false,
            test_result: None,
        };
        proof {
            assert(string_views(r.selected_tags@) =~= Seq::<Seq<char>>::empty());
        }
        r
    }

    /// The form of a saved server.
    pub fn from_profile(p: &ServerProfile) -> (r: Self)
        ensures
            r@ == edit_of(p@),
            !r.testing,
            !r.waiting,
            r.test_result is None,
    {
        ServerEdit {
            id: Some(p.id.clone()),
            name: p.name.clone(),
            url: p.url.clone(),
            user: p.user.clone(),
            password: p.password.clone(),
            selected_tags: clone_strings(&p.selected_tags),
            testing: false,
            waiting: false,
            test_result: None,
        }
    }

    /// Whether the form is for a new server.
    pub fn is_new(&self) -> (r: bool)
        ensures
            r == (self@.id is None),
    {
        self.id.is_none()
    }

    /// Whether the form can be saved: a server needs a name and an address.
    pub fn can_save(&self) -> (r: bool)
        ensures
            r == (trim(self@.name).len() > 0 && trim(self@.url).len() > 0),
    {
        !trimmed_str(self.name.as_str()).as_str().is_empty() && !trimmed_str(
            self.url.as_str(),
        ).as_str().is_empty()
    }

    /// Whether the server can be tested: it needs an address, and one test at
    /// a time is enough.
    pub fn can_test(&self) -> (r: bool)
        ensures
            r == (trim(self@.url).len() > 0 && !self.testing),
    {
        !trimmed_str(self.url.as_str()).as_str().is_empty() && !self.testing
    }

    /// Whether a tag is checked.
    pub fn has_tag(&self, uuid: &str) -> (r: bool)
        ensures
            r == self@.selected_tags.contains(uuid@),
    {
        listed(uuid, self.selected_tags.as_slice())
    }

    /// Checks a tag or not.
    pub fn set_tag(&mut self, uuid: &str, checked: bool)
        ensures
            final(self)@ == old(self)@.with_tag(uuid@, checked),
            final(self).testing == old(self).testing,
            final(self).waiting == old(self).waiting,
            final(self).test_result == old(self).test_result,
    {
        let ghost before = self@;
        if checked {
            let ghost raw = self.selected_tags@;
            let tag = owned(uuid);
            self.selected_tags.push(tag);
            proof {
                assert(string_views(self.selected_tags@) =~= string_views(raw).push(uuid@));
            }
        } else {
            let ghost all = string_views(self.selected_tags@);
            let ghost keep = other_than(uuid@);
            let mut left: Vec<String> = Vec::new();
            let n: usize = self.selected_tags.len();
            proof {
                reveal(Seq::filter);
                assert(string_views(left@) =~= Seq::<Seq<char>>::empty());
            }
            for i in 0..n
                invariant
                    n == self.selected_tags@.len(),
                    all == string_views(self.selected_tags@),
                    keep == other_than(uuid@),
                    string_views(left@) == all.take(i as int).filter(keep),
            {
                proof {
                    reveal(Seq::filter);
                    assert(all.take(i + 1).drop_last() =~= all.take(i as int));
                    assert(all.take(i + 1).last() == self.selected_tags@[i as int]@);
                }
                if !same_str(self.selected_tags[i].as_str(), uuid) {
                    let ghost held = left@;
                    let tag = self.selected_tags[i].clone();
                    left.push(tag);
                    proof {
                        assert(string_views(left@) =~= string_views(held).push(tag@));
                    }
                }
            }
            proof {
                assert(all.take(n as int) =~= all);
            }
            self.selected_tags = left;
        }
        proof {
            assert(self@ =~= before.with_tag(uuid@, checked));
        }
    }

    /// Starts a test of the server.
    pub fn start_test(&mut self)
        ensures
            final(self)@ == old(self)@,
            final(self).testing,
            final(self).waiting,
            final(self).test_result is None,
    {
        self.testing = true;
        self.waiting = true;
        self.test_result = None;
    }

    /// Takes in what came out of the channel of the test.
    pub fn on_test(&mut self, message: Poll<Result<TestOk, String>>)
        ensures
            match message {
                Poll::Ready(result) => {
                    &&& !final(self).testing
                    &&& !final(self).waiting
                    &&& final(self).test_result == Some(result)
                    &&& final(self)@ == old(self)@
                },
                Poll::Empty => *final(self) == *old(self),
                Poll::Closed => {
                    &&& !final(self).testing
                    &&& !final(self).waiting
                    &&& final(self).test_result == old(self).test_result
                    &&& final(self)@ == old(self)@
                },
            },
    {
        match message {
            Poll::Ready(result) => {
                self.testing = false;
                self.test_result = Some(result);
                self.waiting = false;
            },
            Poll::Empty => {},
            Poll::Closed => {
                self.testing = false;
                self.waiting = false;
            },
        }
    }

    /// Saves the form into the settings and hands out the profile; `new_id` is
    /// for a new server.
    pub fn commit(self, settings: &mut Settings, new_id: &str) -> (r: ServerProfile)
        ensures
            r@ == self@.profile(new_id@),
            final(settings)@ == old(settings)@.saved(r@),
    {
        let profile = ServerProfile {
            id: match self.id {
                Some(id) => id,
                None => owned(new_id),
            },
            name: trimmed_str(self.name.as_str()),
            url: trimmed_str(self.url.as_str()),
            user: self.user,
            password: self.password,
            selected_tags: self.selected_tags,
        };
        settings.upsert(profile.clone());
        profile
    }

    /// Whether to connect once the form is saved: where the user asks for it,
    /// and where the server is the one that is connected, since otherwise what
    /// is on the screen would not follow the change.
    pub fn reconnects(&self, and_connect: bool, active: Option<&str>) -> (r: bool)
        ensures
            r == (and_connect || (self@.id is Some && crate::text::opt_str_view(active)
                == self@.id)),
    {
        and_connect || match (&self.id, active) {
            (Some(id), Some(a)) => same_str(id.as_str(), a),
            _ => false,
        }
    }
}

// ---- the list -----------------------------------------------------------

/// The label of a server in the list.
pub open spec fn row_text(p: ProfileView, is_active: bool) -> Seq<char> {
    let named = if is_active {
        p.name + "  (připojeno)"@
    } else {
        p.name
    };
    if p.selected_tags.len() > 0 {
        named + "  ["@ + decimal(p.selected_tags.len() as int) + " štítků]"@
    } else {
        named
    }
}

/// The label of a server in the list: its name, whether it is connected, and
/// the number of tags that its channels are restricted to.
pub fn row_label(p: &ServerProfile, is_active: bool) -> (r: String)
    ensures
        r@ == row_text(p@, is_active),
{
    let mut out = p.name.clone();
    if is_active {
        out.append("  (připojeno)");
    }
    if p.selected_tags.len() > 0 {
        out.append("  [");
        push_digits(&mut out, p.selected_tags.len() as u128, 10);
        out.append(" štítků]");
    }
    out
}

/// What is said once the settings were saved, or could not be.
pub fn saved_message(result: Result<(), String>) -> (r: String)
    ensures
        r@ == match result {
            Ok(_) => "Uloženo."@,
            Err(e) => "Chyba při ukládání: "@ + e@,
        },
{
    match result {
        Ok(_) => owned("Uloženo."),
        Err(e) => {
            let mut out = owned("Chyba při ukládání: ");
            out.append(e.as_str());
            out
        },
    }
}

/// What is said once the folder for downloads was saved, or could not be.
pub fn folder_saved_message(result: Result<(), String>) -> (r: String)
    ensures
        r@ == match result {
            Ok(_) => "Uloženo."@,
            Err(e) => "Uložení selhalo: "@ + e@,
        },
{
    match result {
        Ok(_) => owned("Uloženo."),
        Err(e) => {
            let mut out = owned("Uložení selhalo: ");
            out.append(e.as_str());
            out
        },
    }
}

// ---- laws ---------------------------------------------------------------

/// Saving the form of a saved server without touching it changes nothing but
/// the white space around its name and its address.
pub proof fn law_edit_unchanged(p: ProfileView, new_id: Seq<char>)
    ensures
        edit_of(p).profile(new_id) == (ProfileView { name: trim(p.name), url: trim(p.url), ..p }),
{
}

/// A tag that is checked is checked, one that is unchecked is not, and other
/// tags are left alone.
pub proof fn law_tags(e: EditView, uuid: Seq<char>, other: Seq<char>)
    requires
        other != uuid,
    ensures
        e.with_tag(uuid, true).selected_tags.contains(uuid),
        !e.with_tag(uuid, false).selected_tags.contains(uuid),
        e.with_tag(uuid, true).selected_tags.contains(other) <==> e.selected_tags.contains(other),
        e.with_tag(uuid, false).selected_tags.contains(other) <==> e.selected_tags.contains(other),
{
    let on = e.with_tag(uuid, true).selected_tags;
    assert(on[on.len() - 1] == uuid);
    if e.selected_tags.contains(other) {
        let i = choose|i: int| 0 <= i < e.selected_tags.len() && e.selected_tags[i] == other;
        assert(on[i] == other);
    }
    if on.contains(other) {
        let i = choose|i: int| 0 <= i < on.len() && on[i] == other;
        assert(e.selected_tags[i] == other);
    }
    let f = other_than(uuid);
    lemma_filter_contains(e.selected_tags, f, uuid);
    lemma_filter_contains(e.selected_tags, f, other);
    assert(f(other));
}

/// The profile that a form stands for keeps the id of a saved server, and has
/// the credentials and tags as they were entered, and the name and address
/// without white space around them.
pub proof fn law_profile(e: EditView, new_id: Seq<char>)
    ensures
        e.id matches Some(id) ==> e.profile(new_id).id == id,
        e.id is None ==> e.profile(new_id).id == new_id,
        e.profile(new_id).name == trim(e.name),
        e.profile(new_id).url == trim(e.url),
        e.profile(new_id).user == e.user,
        e.profile(new_id).password == e.password,
        e.profile(new_id).selected_tags == e.selected_tags,
{
}

/// A tag that is checked joins the others at their end; unchecking one leaves
/// the others in their order. Nothing else of the form changes.
pub proof fn law_tag_order(e: EditView, uuid: Seq<char>, checked: bool, other: Seq<char>)
    ensures
        e.with_tag(uuid, true).selected_tags.drop_last() == e.selected_tags,
        e.with_tag(uuid, true).selected_tags.last() == uuid,
        e.with_tag(uuid, true).selected_tags.len() == e.selected_tags.len() + 1,
        !e.selected_tags.contains(uuid) ==> e.with_tag(uuid, false).selected_tags
            == e.selected_tags,
        e.with_tag(uuid, checked).id == e.id,
        e.with_tag(uuid, checked).name == e.name,
        e.with_tag(uuid, checked).url == e.url,
        e.with_tag(uuid, checked).user == e.user,
        e.with_tag(uuid, checked).password == e.password,
{
    assert(e.selected_tags.push(uuid).drop_last() =~= e.selected_tags);
    if !e.selected_tags.contains(uuid) {
        lemma_filter_all(e.selected_tags, uuid);
    }
}

proof fn lemma_filter_all(tags: Seq<Seq<char>>, uuid: Seq<char>)
    requires
        !tags.contains(uuid),
    ensures
        tags.filter(other_than(uuid)) == tags,
    decreases tags.len(),
{
    reveal(Seq::filter);
    if tags.len() > 0 {
        assert(tags.last() != uuid) by {
            assert(tags[tags.len() - 1] == tags.last());
        }
        assert(!tags.drop_last().contains(uuid)) by {
            if tags.drop_last().contains(uuid) {
                let i = choose|i: int|
                    0 <= i < tags.drop_last().len() && tags.drop_last()[i] == uuid;
                assert(tags[i] == uuid);
            }
        }
        lemma_filter_all(tags.drop_last(), uuid);
        assert(tags.drop_last().push(tags.last()) =~= tags);
    }
}

/// The form of a saved server holds all of it.
pub proof fn law_form(p: ProfileView)
    ensures
        edit_of(p).id == Some(p.id),
        edit_of(p).name == p.name,
        edit_of(p).url == p.url,
        edit_of(p).user == p.user,
        edit_of(p).password == p.password,
        edit_of(p).selected_tags == p.selected_tags,
{
}

/// A row tells the name of the server, that it is connected where it is, and
/// the number of tags where there are any.
pub proof fn law_row(p: ProfileView)
    ensures
        p.selected_tags.len() == 0 ==> row_text(p, false) == p.name && row_text(p, true) == p.name
            + "  (připojeno)"@,
        p.selected_tags.len() > 0 ==> row_text(p, false) == p.name + "  ["@ + decimal(
            p.selected_tags.len() as int,
        ) + " štítků]"@ && row_text(p, true) == p.name + "  (připojeno)"@ + "  ["@ + decimal(
            p.selected_tags.len() as int,
        ) + " štítků]"@,
{
}

/// A tested server is told by its name, or what it is where it has none, and by
/// its version.
pub proof fn law_tested(info: ServerInfo)
    ensures
        info.name matches Some(n) ==> tested_text(info).take(n@.len() as int) == n@,
        info.name is None ==> tested_text(info).take("TVHeadend "@.len() as int) == "TVHeadend "@,
        info.sw_version matches Some(v) ==> tested_text(info).skip(
            tested_text(info).len() - v@.len(),
        ) == v@,
        tested_text(info).len() == (match info.name {
            Some(n) => n@.len(),
            None => 9,
        }) + 1 + (match info.sw_version {
            Some(v) => v@.len(),
            None => 0,
        }),
{
    reveal_strlit("TVHeadend");
    reveal_strlit("TVHeadend ");
    reveal_strlit(" ");
    let t = tested_text(info);
    match info.name {
        Some(n) => {
            assert(t.take(n@.len() as int) =~= n@);
        },
        None => {
            assert(t.take(10) =~= "TVHeadend "@);
        },
    }
    match info.sw_version {
        Some(v) => {
            assert(t.skip(t.len() - v@.len()) =~= v@);
        },
        None => {},
    }
}

/// A form is told as it is.
pub proof fn law_form_view(e: ServerEdit)
    ensures
        e@.id == opt_view(e.id),
        e@.name == e.name@,
        e@.url == e.url@,
        e@.user == e.user@,
        e@.password == e.password@,
        e@.selected_tags == string_views(e.selected_tags@),
{
}

} // verus!
