//! Recurring recordings: how they are listed, and the form to edit one.
//!
//! The server replaces a rule by what is sent to it, it does not merge. So a
//! rule is kept as the server gave it, an edit changes only the members that
//! the form shows, and the whole of it is sent back.
use vstd::prelude::*;
use vstd::string::*;

use crate::json::Json;
use crate::text::{owned, same_str};
use crate::tvh::Channel;

verus! {

// ---- weekdays -----------------------------------------------------------

/// The short name of a weekday, Monday being 1 and Sunday 7.
pub open spec fn day_name(n: int) -> Seq<char> {
    if n == 1 {
        "Po"@
    } else if n == 2 {
        "Út"@
    } else if n == 3 {
        "St"@
    } else if n == 4 {
        "Čt"@
    } else if n == 5 {
        "Pá"@
    } else if n == 6 {
        "So"@
    } else {
        "Ne"@
    }
}

/// The short name of a weekday, Monday being 1 and Sunday 7.
pub fn day_label(n: i64) -> (r: &'static str)
    ensures
        r@ == day_name(n as int),
{
    if n == 1 {
        "Po"
    } else if n == 2 {
        "Út"
    } else if n == 3 {
        "St"
    } else if n == 4 {
        "Čt"
    } else if n == 5 {
        "Pá"
    } else if n == 6 {
        "So"
    } else {
        "Ne"
    }
}

/// The weekday that a value of the list stands for.
pub open spec fn day_of(v: Json) -> Option<int> {
    match v {
        Json::Int(n) => if 1 <= n <= 7 {
            Some(n as int)
        } else {
            None
        },
        _ => None,
    }
}

/// Whether a list names a weekday.
pub open spec fn names_day(list: Seq<Json>, n: int) -> bool {
    exists|i: int| 0 <= i < list.len() && #[trigger] day_of(list[i]) == Some(n)
}

/// The weekdays of a rule, from Monday on. A rule without weekdays is for every
/// day.
pub open spec fn weekdays_of(node: Json) -> Seq<bool> {
    match node.array_at("weekdays"@) {
        Some(list) => if list.len() > 0 {
            Seq::new(7, |d: int| names_day(list, d + 1))
        } else {
            Seq::new(7, |d: int| true)
        },
        None => Seq::new(7, |d: int| true),
    }
}

/// The list of the weekdays below `n` that are on.
pub open spec fn day_list(on: Seq<bool>, n: int) -> Seq<Json>
    decreases n,
{
    if n <= 0 {
        Seq::empty()
    } else if on[n - 1] {
        day_list(on, n - 1).push(Json::Int(n as i64))
    } else {
        day_list(on, n - 1)
    }
}

/// The names of the weekdays that a list names below `n`, in its order.
pub open spec fn days_text(list: Seq<Json>, n: int) -> Seq<char>
    decreases n,
{
    if n <= 0 {
        Seq::empty()
    } else {
        let before = days_text(list, n - 1);
        match day_of(list[n - 1]) {
            Some(d) => if before.len() == 0 {
                day_name(d)
            } else {
                before + " "@ + day_name(d)
            },
            None => before,
        }
    }
}

/// The weekdays of a rule as text.
pub open spec fn weekdays_text(node: Json) -> Seq<char> {
    let text = match node.array_at("weekdays"@) {
        Some(list) => days_text(list, list.len() as int),
        None => Seq::empty(),
    };
    if text.len() == 0 {
        "každý den"@
    } else {
        text
    }
}

/// The weekday that a value of the list stands for.
fn read_day(v: &Json) -> (r: Option<i64>)
    ensures
        match r {
            Some(n) => day_of(*v) == Some(n as int),
            None => day_of(*v) is None,
        },
        r matches Some(n) ==> 1 <= n <= 7,
{
    match v {
        Json::Int(n) => if 1 <= *n && *n <= 7 {
            Some(*n)
        } else {
            None
        },
        _ => None,
    }
}

/// Every day, or none.
fn all_days(on: bool) -> (r: Vec<bool>)
    ensures
        r@ == Seq::new(7, |d: int| on),
{
    let mut out: Vec<bool> = Vec::new();
    for i in 0..7usize
        invariant
            out@.len() == i,
            forall|d: int| 0 <= d < i ==> out@[d] == on,
    {
        out.push(on);
    }
    proof {
        assert(out@ =~= Seq::new(7, |d: int| on));
    }
    out
}

/// The weekdays of a rule, from Monday on.
fn read_weekdays(node: &Json) -> (r: Vec<bool>)
    ensures
        r@ == weekdays_of(*node),
{
    match node.get_array("weekdays") {
        Some(list) => {
            let n: usize = list.len();
            if n == 0 {
                return all_days(true);
            }
            let mut out = all_days(false);
            for i in 0..n
                invariant
                    n == list@.len(),
                    out@.len() == 7,
                    forall|d: int|
                        0 <= d < 7 ==> (#[trigger] out@[d] <==> exists|j: int|
                            0 <= j < i && #[trigger] day_of(list@[j]) == Some(d + 1)),
            {
                let ghost before = out@;
                match read_day(&list[i]) {
                    Some(day) => {
                        out.set((day - 1) as usize, true);
                        proof {
                            assert(day_of(list@[i as int]) == Some(day as int));
                        }
                    },
                    None => {},
                }
                proof {
                    assert forall|d: int| 0 <= d < 7 implies (#[trigger] out@[d] <==> exists|j: int|
                        0 <= j < i + 1 && #[trigger] day_of(list@[j]) == Some(d + 1)) by {
                        assert(before[d] <==> exists|j: int|
                            0 <= j < i && #[trigger] day_of(list@[j]) == Some(d + 1));
                        if exists|j: int|
                            0 <= j < i + 1 && #[trigger] day_of(list@[j]) == Some(d + 1) {
                            let j = choose|j: int|
                                0 <= j < i + 1 && #[trigger] day_of(list@[j]) == Some(d + 1);
                            if j < i {
                                assert(before[d]);
                            }
                        }
                    }
                }
            }
            proof {
                assert(out@ =~= weekdays_of(*node));
            }
            out
        },
        None => all_days(true),
    }
}

/// The list of the weekdays that are on.
fn write_weekdays(on: &Vec<bool>) -> (r: Vec<Json>)
    requires
        on@.len() == 7,
    ensures
        r@ == day_list(on@, 7),
{
    let mut out: Vec<Json> = Vec::new();
    for i in 0..7usize
        invariant
            on@.len() == 7,
            out@ == day_list(on@, i as int),
    {
        if on[i] {
            out.push(Json::Int(i as i64 + 1));
        }
    }
    out
}

/// The weekdays of a rule as text: their names in the order in which they are
/// listed, or that it is for every day.
pub fn weekdays_label(node: &Json) -> (r: String)
    ensures
        r@ == weekdays_text(*node),
{
    let mut out = String::new();
    match node.get_array("weekdays") {
        Some(list) => {
            let n: usize = list.len();
            for i in 0..n
                invariant
                    n == list@.len(),
                    out@ == days_text(list@, i as int),
            {
                match read_day(&list[i]) {
                    Some(day) => {
                        if out.as_str().is_empty() {
                            out = owned(day_label(day));
                        } else {
                            out.append(" ");
                            out.append(day_label(day));
                        }
                    },
                    None => {},
                }
            }
        },
        None => {},
    }
    if out.as_str().is_empty() {
        owned("každý den")
    } else {
        out
    }
}

// ---- the list -----------------------------------------------------------

/// The text under a key, empty where there is none.
pub open spec fn text_or_empty(node: Json, key: Seq<char>) -> Seq<char> {
    match node.text_at(key) {
        Some(s) => s,
        None => Seq::empty(),
    }
}

/// Whether a rule is active: it is unless it says otherwise.
pub open spec fn enabled_of(node: Json) -> bool {
    match node.bool_at("enabled"@) {
        Some(b) => b,
        None => true,
    }
}

/// The title that a rule is listed under.
pub open spec fn title_text(node: Json) -> Seq<char> {
    let title = text_or_empty(node, "title"@);
    if title.len() == 0 {
        "(bez názvu)"@
    } else {
        title
    }
}

/// The name of the first channel with an id, from place `from` on.
pub open spec fn channel_name(channels: Seq<Channel>, id: Seq<char>, from: int) -> Option<Seq<char>>
    decreases channels.len() - from,
{
    if from >= channels.len() {
        None
    } else if channels[from].channel_id@ == id {
        Some(channels[from].name@)
    } else {
        channel_name(channels, id, from + 1)
    }
}

/// The channel of a rule as text; without a channel it is for any.
pub open spec fn rule_channel_text(channels: Seq<Channel>, id: Seq<char>) -> Seq<char> {
    if id.len() == 0 {
        "kterýkoliv kanál"@
    } else {
        match channel_name(channels, id, 0) {
            Some(name) => name,
            None => "neznámý kanál"@,
        }
    }
}

/// The channel that the form shows.
pub open spec fn form_channel_text(channels: Seq<Channel>, id: Seq<char>) -> Seq<char> {
    match channel_name(channels, id, 0) {
        Some(name) => if id.len() == 0 {
            "Kterýkoliv"@
        } else {
            name
        },
        None => "Kterýkoliv"@,
    }
}

/// The name of the first channel with an id.
fn find_channel_name(channels: &Vec<Channel>, id: &str) -> (r: Option<String>)
    ensures
        crate::text::opt_view(r) == channel_name(channels@, id@, 0),
{
    let n: usize = channels.len();
    for i in 0..n
        invariant
            n == channels@.len(),
            channel_name(channels@, id@, 0) == channel_name(channels@, id@, i as int),
    {
        if same_str(channels[i].channel_id.as_str(), id) {
            return Some(channels[i].name.clone());
        }
    }
    None
}

/// The text under a key, empty where there is none.
fn text_of(node: &Json, key: &str) -> (r: String)
    ensures
        r@ == text_or_empty(*node, key@),
{
    match node.get_text(key) {
        Some(s) => owned(s),
        None => String::new(),
    }
}

/// Whether a rule is active.
fn is_enabled(node: &Json) -> (r: bool)
    ensures
        r == enabled_of(*node),
{
    match node.get_bool("enabled") {
        Some(b) => b,
        None => true,
    }
}

/// A rule as it is listed.
#[derive(Debug)]
pub struct RuleRow {
    pub uuid: String,
    pub title: String,
    pub enabled: bool,
    /// The channel and the weekdays.
    pub details: String,
}

/// A rule as it is listed.
pub fn rule_row(node: &Json, channels: &Vec<Channel>) -> (r: RuleRow)
    ensures
        r.uuid@ == text_or_empty(*node, "uuid"@),
        r.title@ == title_text(*node),
        r.enabled == enabled_of(*node),
        r.details@ == rule_channel_text(channels@, text_or_empty(*node, "channel"@)) + "  •  "@
            + weekdays_text(*node),
{
    let given = text_of(node, "title");
    let title = if given.as_str().is_empty() {
        owned("(bez názvu)")
    } else {
        given
    };
    let id = text_of(node, "channel");
    let mut details = if id.as_str().is_empty() {
        owned("kterýkoliv kanál")
    } else {
        match find_channel_name(channels, id.as_str()) {
            Some(name) => name,
            None => owned("neznámý kanál"),
        }
    };
    details.append("  •  ");
    details.append(weekdays_label(node).as_str());
    RuleRow { uuid: text_of(node, "uuid"), title, enabled: is_enabled(node), details }
}

// ---- the form -----------------------------------------------------------

/// The form to edit a rule.
#[derive(Debug)]
pub struct AutorecEdit {
    /// The rule as the server gave it.
    pub node: Json,
    pub title: String,
    pub enabled: bool,
    /// The uuid of the channel, empty for any.
    pub channel: String,
    /// Monday to Sunday.
    pub weekdays: Vec<bool>,
    pub saving: bool,
    pub waiting: bool,
    pub error: Option<String>,
}

impl AutorecEdit {
    /// The form has a box for each weekday.
    pub open spec fn wf(self) -> bool {
        self.weekdays@.len() == 7
    }

    /// The form of a rule.
    pub fn from_value(value: Json) -> (r: Self)
        ensures
            r.wf(),
            r.node == value,
            r.title@ == text_or_empty(value, "title"@),
            r.enabled == enabled_of(value),
            r.channel@ == text_or_empty(value, "channel"@),
            r.weekdays@ == weekdays_of(value),
            !r.saving,
            !r.waiting,
            r.error is None,
    {
        let title = text_of(&value, "title");
        let enabled = is_enabled(&value);
        let channel = text_of(&value, "channel");
        let weekdays = read_weekdays(&value);
        AutorecEdit {
            node: value,
            title,
            enabled,
            channel,
            weekdays,
            saving: false,
            waiting: false,
            error: None,
        }
    }

    /// The channel that the form shows.
    pub fn channel_label(&self, channels: &Vec<Channel>) -> (r: String)
        ensures
            r@ == form_channel_text(channels@, self.channel@),
    {
        if self.channel.as_str().is_empty() {
            owned("Kterýkoliv")
        } else {
            match find_channel_name(channels, self.channel.as_str()) {
                Some(name) => name,
                None => owned("Kterýkoliv"),
            }
        }
    }

    /// Writes the form into the rule: only the members that the form shows
    /// change. With a server to send it to, the form then waits for the answer.
    pub fn save(&mut self, has_server: bool)
        requires
            old(self).wf(),
        ensures
            final(self).wf(),
            final(self).title == old(self).title,
            final(self).enabled == old(self).enabled,
            final(self).channel == old(self).channel,
            final(self).weekdays == old(self).weekdays,
            old(self).node is Object ==> edited(
                old(self).node,
                final(self).node,
                old(self).title@,
                old(self).enabled,
                old(self).channel@,
                old(self).weekdays@,
            ),
            !(old(self).node is Object) ==> final(self).node == old(self).node,
            has_server ==> final(self).saving && final(self).waiting && final(self).error is None,
            !has_server ==> final(self).saving == old(self).saving && final(self).waiting == old(
                self,
            ).waiting && final(self).error == old(self).error,
    {
        let ghost before = self.node;
        self.node.set("title", Json::Text(self.title.clone()));
        self.node.set("enabled", Json::Bool(self.enabled));
        self.node.set("channel", Json::Text(self.channel.clone()));
        let days = write_weekdays(&self.weekdays);
        self.node.set("weekdays", Json::Array(days));
        proof {
            lemma_keys();
        }
        if has_server {
            self.waiting = true;
            self.saving = true;
            self.error = None;
        }
    }
}

/// The members that the form shows have different names.
proof fn lemma_keys()
    ensures
        "title"@ != "enabled"@,
        "title"@ != "channel"@,
        "title"@ != "weekdays"@,
        "enabled"@ != "channel"@,
        "enabled"@ != "weekdays"@,
        "channel"@ != "weekdays"@,
{
    reveal_strlit("title");
    reveal_strlit("enabled");
    reveal_strlit("channel");
    reveal_strlit("weekdays");
    assert("title"@.len() == 5 && "enabled"@.len() == 7 && "channel"@.len() == 7
        && "weekdays"@.len() == 8);
    assert("enabled"@[0] != "channel"@[0]);
}

/// Whether `after` is the rule `before` with the members that the form shows
/// set from the form, and every other member as it was.
pub open spec fn edited(
    before: Json,
    after: Json,
    title: Seq<char>,
    enabled: bool,
    channel: Seq<char>,
    weekdays: Seq<bool>,
) -> bool {
    &&& after is Object
    &&& after.text_at("title"@) == Some(title)
    &&& after.bool_at("enabled"@) == Some(enabled)
    &&& after.text_at("channel"@) == Some(channel)
    &&& after.array_at("weekdays"@) == Some(day_list(weekdays, 7))
    &&& forall|k: Seq<char>|
        k != "title"@ && k != "enabled"@ && k != "channel"@ && k != "weekdays"@ ==> (
        #[trigger] after.member(k)) == before.member(k)
}

// ---- laws ---------------------------------------------------------------

/// A list of weekdays names exactly those that are on.
proof fn lemma_day_list(on: Seq<bool>, n: int, d: int)
    requires
        0 <= n <= 7,
        on.len() == 7,
        1 <= d <= 7,
    ensures
        names_day(day_list(on, n), d) <==> d <= n && on[d - 1],
        day_list(on, n).len() > 0 <==> exists|i: int| 0 <= i < n && #[trigger] on[i],
    decreases n,
{
    if n > 0 {
        lemma_day_list(on, n - 1, d);
        let before = day_list(on, n - 1);
        let all = day_list(on, n);
        if on[n - 1] {
            assert(all[all.len() - 1] == Json::Int(n as i64));
            assert(day_of(all[all.len() - 1]) == Some(n));
            if names_day(before, d) {
                let i = choose|i: int| 0 <= i < before.len() && #[trigger] day_of(before[i]) == Some(
                    d,
                );
                assert(day_of(all[i]) == Some(d));
            }
            if names_day(all, d) && d != n {
                let i = choose|i: int| 0 <= i < all.len() && #[trigger] day_of(all[i]) == Some(d);
                assert(i < before.len());
                assert(day_of(before[i]) == Some(d));
            }
        } else {
            if exists|i: int| 0 <= i < n && #[trigger] on[i] {
                let i = choose|i: int| 0 <= i < n && #[trigger] on[i];
                assert(i < n - 1);
            }
        }
    }
}

/// The form of an edited rule reads what was edited. Only a rule with no
/// weekday left reads differently: it is then for every day.
pub proof fn law_edit_reads_back(
    before: Json,
    after: Json,
    title: Seq<char>,
    enabled: bool,
    channel: Seq<char>,
    weekdays: Seq<bool>,
)
    requires
        edited(before, after, title, enabled, channel, weekdays),
        weekdays.len() == 7,
        exists|i: int| 0 <= i < 7 && #[trigger] weekdays[i],
    ensures
        text_or_empty(after, "title"@) == title,
        enabled_of(after) == enabled,
        text_or_empty(after, "channel"@) == channel,
        weekdays_of(after) == weekdays,
{
    let list = day_list(weekdays, 7);
    lemma_day_list(weekdays, 7, 1);
    assert forall|d: int| 0 <= d < 7 implies weekdays_of(after)[d] == weekdays[d] by {
        lemma_day_list(weekdays, 7, d + 1);
    }
    assert(weekdays_of(after) =~= weekdays);
}

/// A list of weekdays holds the number of each day that is on, Monday being 1
/// and Sunday 7, in ascending order and nothing else.
proof fn lemma_day_numbers(on: Seq<bool>, n: int)
    requires
        0 <= n <= 7,
        on.len() == 7,
    ensures
        forall|d: int|
            0 <= d < n && #[trigger] on[d] ==> day_list(on, n).contains(Json::Int((d + 1) as i64)),
        forall|i: int|
            0 <= i < day_list(on, n).len() ==> (#[trigger] day_list(on, n)[i] matches Json::Int(day)
                && 1 <= day <= n && on[day - 1]),
        forall|i: int, j: int|
            0 <= i < j < day_list(on, n).len() ==> (#[trigger] day_list(on, n)[i])->Int_0 < (
            #[trigger] day_list(on, n)[j])->Int_0,
    decreases n,
{
    if n > 0 {
        lemma_day_numbers(on, n - 1);
        let before = day_list(on, n - 1);
        let all = day_list(on, n);
        if on[n - 1] {
            assert(all[all.len() - 1] == Json::Int(n as i64));
        }
        assert forall|d: int| 0 <= d < n && #[trigger] on[d] implies all.contains(
            Json::Int((d + 1) as i64),
        ) by {
            if d < n - 1 {
                let i = choose|i: int| 0 <= i < before.len() && before[i] == Json::Int((d + 1) as i64);
                assert(all[i] == before[i]);
            }
        }
    }
}

/// A rule that was edited holds what the form shows: under `title`, `enabled`
/// and `channel` what was entered, and under `weekdays` a list with the number
/// of each day that is ticked, from 1 for Monday to 7 for Sunday, once, in
/// ascending order, and nothing else. All other members are as they were.
pub proof fn law_what_is_saved(
    before: Json,
    after: Json,
    title: Seq<char>,
    enabled: bool,
    channel: Seq<char>,
    weekdays: Seq<bool>,
)
    requires
        edited(before, after, title, enabled, channel, weekdays),
        weekdays.len() == 7,
    ensures
        after is Object,
        after.members().contains_key("title"@) && after.members()["title"@] is Text
            && after.members()["title"@]->Text_0@ == title,
        after.members().contains_key("enabled"@) && after.members()["enabled"@] == Json::Bool(
            enabled,
        ),
        after.members().contains_key("channel"@) && after.members()["channel"@] is Text
            && after.members()["channel"@]->Text_0@ == channel,
        after.members().contains_key("weekdays"@),
        after.members()["weekdays"@] matches Json::Array(list) && {
            &&& forall|d: int|
                0 <= d < 7 ==> (#[trigger] weekdays[d] <==> list@.contains(
                    Json::Int((d + 1) as i64),
                ))
            &&& forall|i: int|
                0 <= i < list@.len() ==> (#[trigger] list@[i] matches Json::Int(day) && 1 <= day <= 7)
            &&& forall|i: int, j: int|
                0 <= i < j < list@.len() ==> (#[trigger] list@[i])->Int_0 < (
                #[trigger] list@[j])->Int_0
        },
        forall|k: Seq<char>|
            k != "title"@ && k != "enabled"@ && k != "channel"@ && k != "weekdays"@ ==> (
            #[trigger] after.members().contains_key(k) <==> before.members().contains_key(k)) && (
            after.members().contains_key(k) ==> after.members()[k] == before.members()[k]),
{
    lemma_day_numbers(weekdays, 7);
    let list = day_list(weekdays, 7);
    assert forall|d: int| 0 <= d < 7 implies (#[trigger] weekdays[d] <==> list.contains(
        Json::Int((d + 1) as i64),
    )) by {
        if list.contains(Json::Int((d + 1) as i64)) {
            let i = choose|i: int| 0 <= i < list.len() && list[i] == Json::Int((d + 1) as i64);
            assert(list[i]->Int_0 == d + 1);
        }
    }
    assert forall|k: Seq<char>|
        k != "title"@ && k != "enabled"@ && k != "channel"@ && k != "weekdays"@ implies (
    #[trigger] after.members().contains_key(k) <==> before.members().contains_key(k)) && (
    after.members().contains_key(k) ==> after.members()[k] == before.members()[k]) by {
        assert(after.member(k) == before.member(k));
    }
}

/// The form of a rule ticks a day exactly where the rule's list holds its
/// number, from 1 for Monday to 7 for Sunday, and every day where there is no
/// list or an empty one. A title or a channel that is missing is empty, and a
/// rule is active unless it says that it is not.
pub proof fn law_what_the_form_reads(rule: Json)
    ensures
        weekdays_of(rule).len() == 7,
        rule.members().contains_key("weekdays"@) && rule.members()["weekdays"@] is Array
            && rule.members()["weekdays"@]->Array_0@.len() > 0 ==> forall|d: int|
            0 <= d < 7 ==> (#[trigger] weekdays_of(rule)[d]
                <==> rule.members()["weekdays"@]->Array_0@.contains(Json::Int((d + 1) as i64))),
        !(rule.members().contains_key("weekdays"@) && rule.members()["weekdays"@] is Array
            && rule.members()["weekdays"@]->Array_0@.len() > 0) ==> forall|d: int|
            0 <= d < 7 ==> #[trigger] weekdays_of(rule)[d],
        forall|k: Seq<char>|
            rule.members().contains_key(k) && rule.members()[k] is Text
                ==> #[trigger] text_or_empty(rule, k) == rule.members()[k]->Text_0@,
        forall|k: Seq<char>|
            !(rule.members().contains_key(k) && rule.members()[k] is Text)
                ==> #[trigger] text_or_empty(rule, k) == Seq::<char>::empty(),
        !enabled_of(rule) <==> rule.members().contains_key("enabled"@)
            && rule.members()["enabled"@] == Json::Bool(false),
{
    if rule.members().contains_key("weekdays"@) && rule.members()["weekdays"@] is Array {
        let list = rule.members()["weekdays"@]->Array_0@;
        assert forall|d: int| 0 <= d < 7 && list.len() > 0 implies (#[trigger] weekdays_of(rule)[d]
            <==> list.contains(Json::Int((d + 1) as i64))) by {
            if names_day(list, d + 1) {
                let i = choose|i: int| 0 <= i < list.len() && #[trigger] day_of(list[i]) == Some(
                    d + 1,
                );
                assert(list[i] == Json::Int((d + 1) as i64));
            }
            if list.contains(Json::Int((d + 1) as i64)) {
                let i = choose|i: int| 0 <= i < list.len() && list[i] == Json::Int((d + 1) as i64);
                assert(day_of(list[i]) == Some(d + 1));
            }
        }
    }
}

/// The texts of the weekdays that a list of their numbers comes to are those
/// of its elements, with a space between them; what is no number of a weekday
/// adds nothing.
pub proof fn law_weekday_names(list: Seq<Json>, n: int)
    requires
        0 < n <= list.len(),
    ensures
        days_text(list, 0).len() == 0,
        !(list[n - 1] is Int) ==> days_text(list, n) == days_text(list, n - 1),
        list[n - 1] matches Json::Int(day) ==> !(1 <= day <= 7) ==> days_text(list, n) == days_text(
            list,
            n - 1,
        ),
        list[n - 1] matches Json::Int(day) ==> 1 <= day <= 7 ==> days_text(list, n) == (if days_text(
            list,
            n - 1,
        ).len() == 0 {
            Seq::empty()
        } else {
            days_text(list, n - 1) + " "@
        }) + seq!["Po"@, "Út"@, "St"@, "Čt"@, "Pá"@, "So"@, "Ne"@][day - 1],
{
    assert(Seq::<char>::empty() + day_name(list[n - 1]->Int_0 as int) =~= day_name(
        list[n - 1]->Int_0 as int,
    ));
}

/// A rule without a list of weekdays, or whose list names none, is said to be
/// for every day; any other rule by the names of its days.
pub proof fn law_weekdays_of_a_row(rule: Json)
    ensures
        !(rule.members().contains_key("weekdays"@) && rule.members()["weekdays"@] is Array)
            ==> weekdays_text(rule) == "každý den"@,
        rule.members().contains_key("weekdays"@) && rule.members()["weekdays"@] is Array ==> ({
            let list = rule.members()["weekdays"@]->Array_0@;
            let names = days_text(list, list.len() as int);
            weekdays_text(rule) == if names.len() == 0 {
                "každý den"@
            } else {
                names
            }
        }),
{
}

/// The channel of a rule is told by the name of the first channel with its id;
/// an id that no channel has is told as such, and so is that any channel will
/// do.
pub proof fn law_channel_of_a_rule(channels: Seq<Channel>, id: Seq<char>, i: int)
    ensures
        id.len() == 0 ==> rule_channel_text(channels, id) == "kterýkoliv kanál"@
            && form_channel_text(channels, id) == "Kterýkoliv"@,
        id.len() > 0 && 0 <= i < channels.len() && channels[i].channel_id@ == id && (forall|j: int|
            0 <= j < i ==> (#[trigger] channels[j]).channel_id@ != id) ==> rule_channel_text(
            channels,
            id,
        ) == channels[i].name@ && form_channel_text(channels, id) == channels[i].name@,
        id.len() > 0 && (forall|j: int|
            0 <= j < channels.len() ==> (#[trigger] channels[j]).channel_id@ != id)
            ==> rule_channel_text(channels, id) == "neznámý kanál"@ && form_channel_text(
            channels,
            id,
        ) == "Kterýkoliv"@,
{
    lemma_channel_name(channels, id, 0, i);
}

/// The first channel with an id is the one that gives the name.
proof fn lemma_channel_name(channels: Seq<Channel>, id: Seq<char>, from: int, i: int)
    requires
        0 <= from,
    ensures
        from <= i < channels.len() && channels[i].channel_id@ == id && (forall|j: int|
            from <= j < i ==> (#[trigger] channels[j]).channel_id@ != id) ==> channel_name(
            channels,
            id,
            from,
        ) == Some(channels[i].name@),
        (forall|j: int|
            from <= j < channels.len() ==> (#[trigger] channels[j]).channel_id@ != id)
            ==> channel_name(channels, id, from) is None,
    decreases channels.len() - from,
{
    if from < channels.len() && channels[from].channel_id@ != id {
        lemma_channel_name(channels, id, from + 1, i);
    }
}

/// A rule without a title is listed as one without a name.
pub proof fn law_title_of_a_rule(rule: Json)
    ensures
        text_or_empty(rule, "title"@).len() > 0 ==> title_text(rule) == text_or_empty(
            rule,
            "title"@,
        ),
        text_or_empty(rule, "title"@).len() == 0 ==> title_text(rule) == "(bez názvu)"@,
{
}

} // verus!
