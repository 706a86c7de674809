//! What is shown of a live channel: what is on, how far it has got, and what
//! comes next.
use vstd::prelude::*;
use vstd::string::*;

use crate::epg::{
    continuation_of, current_and_next, event_at, now_and_next, opt_event, progress, progress_view,
    summary_of, synopsis, synopsis_text, Offsets, Progress,
};
use crate::guide::{channel_label, event_label, next_label, titled, Guide};
use crate::numbers::{decimal, push_decimal};
use crate::text::{opt_view, owned, string_views};
use crate::tvh::{Channel, EpgEvent, ServerInfo};

verus! {

/// What is shown of a programme that is on.
#[derive(Debug)]
pub struct ProgrammeInfo {
    /// Its title and its times.
    pub label: String,
    pub synopsis: Option<String>,
    pub progress: Progress,
}

impl ProgrammeInfo {
    /// What is shown of an event that is on at a time.
    pub open spec fn shows(self, e: EpgEvent, now: int, offsets: Offsets) -> bool {
        &&& self.label@ == titled(e, offsets)
        &&& opt_view(self.synopsis) == synopsis_text(summary_of(e), continuation_of(e))
        &&& (self.progress.elapsed as int, self.progress.span as int) == progress_view(
            e.start as int,
            e.stop as int,
            now,
        )
    }
}

/// What is shown of a channel.
#[derive(Debug)]
pub struct ChannelInfo {
    /// Its number and its name.
    pub label: String,
    /// The programme that is on, where the guide knows it.
    pub current: Option<ProgrammeInfo>,
    /// The one that comes next, where one is on.
    pub next: Option<String>,
}

/// The events of a channel, as far as the guide knows them.
pub open spec fn known_events(guide: Map<Seq<char>, Vec<EpgEvent>>, uuid: Seq<char>) -> Seq<
    EpgEvent,
> {
    if guide.contains_key(uuid) {
        guide[uuid]@
    } else {
        Seq::empty()
    }
}

/// The programme that is on on a channel at a time, and the one that comes
/// next, as far as the guide knows them.
pub fn on_air<'a>(channel: &Channel, guide: &'a Guide, now: i64) -> (r: (
    Option<&'a EpgEvent>,
    Option<&'a EpgEvent>,
))
    ensures
        ({
            let events = known_events(guide.events@, channel.channel_id@);
            let (on, after) = now_and_next(events, now as int);
            opt_event(r.0) == event_at(events, on) && opt_event(r.1) == event_at(events, after)
        }),
{
    match guide.events.get(channel.channel_id.as_str()) {
        Some(list) => current_and_next(list, now),
        None => (None, None),
    }
}

/// Whether the offsets of an event are valid, where there is one.
pub open spec fn valid_times(e: Option<(&EpgEvent, Offsets)>) -> bool {
    e matches Some((_, o)) ==> o.valid()
}

/// What is shown of a channel at a time, by the programme that is on and the
/// one that comes next. Where nothing is on, the next one is not shown either.
pub fn channel_info(
    channel: &Channel,
    on: Option<(&EpgEvent, Offsets)>,
    after: Option<(&EpgEvent, Offsets)>,
    now: i64,
) -> (r: ChannelInfo)
    requires
        valid_times(on),
        valid_times(after),
    ensures
        r.label@ == channel.number@ + "  "@ + channel.name@,
        match on {
            Some((e, times)) => {
                &&& r.current matches Some(p)
                &&& p.shows(*e, now as int, times)
                &&& opt_view(r.next) == match after {
                    Some((n, t)) => Some("Další: "@ + titled(*n, t)),
                    None => None,
                }
            },
            None => r.current is None && r.next is None,
        },
{
    let label = channel_label(channel);
    match on {
        Some((e, times)) => {
            let next = match after {
                Some((n, t)) => Some(next_label(n, t)),
                None => None,
            };
            ChannelInfo {
                label,
                current: Some(
                    ProgrammeInfo {
                        label: event_label(e, times),
                        synopsis: synopsis(e),
                        progress: progress(e, now),
                    },
                ),
                next,
            }
        },
        None => ChannelInfo { label, current: None, next: None },
    }
}

/// What is told of the server: its name, its version and that of its interface,
/// as far as it told them.
pub open spec fn server_lines_view(info: ServerInfo) -> Seq<Seq<char>> {
    (match info.name {
        Some(n) => seq![n@],
        None => Seq::empty(),
    }) + (match info.sw_version {
        Some(v) => seq!["Verze TVHeadend: "@ + v@],
        None => Seq::empty(),
    }) + match info.api_version {
        Some(a) => seq!["API verze: "@ + decimal(a as int)],
        None => Seq::empty(),
    }
}

/// What is told of the server that is connected, a line each.
pub fn server_lines(info: &ServerInfo) -> (r: Vec<String>)
    ensures
        string_views(r@) == server_lines_view(*info),
{
    let mut out: Vec<String> = Vec::new();
    match &info.name {
        Some(n) => out.push(n.clone()),
        None => {},
    }
    match &info.sw_version {
        Some(v) => {
            let mut line = owned("Verze TVHeadend: ");
            line.append(v.as_str());
            out.push(line);
        },
        None => {},
    }
    match info.api_version {
        Some(a) => {
            let mut line = owned("API verze: ");
            push_decimal(&mut line, a);
            out.push(line);
        },
        None => {},
    }
    proof {
        assert(string_views(out@) =~= server_lines_view(*info));
    }
    out
}

// ---- laws ---------------------------------------------------------------

/// What is shown of a programme is its title and times, its synopsis, and how
/// far it has got.
pub proof fn law_programme(p: ProgrammeInfo, e: EpgEvent, now: int, offsets: Offsets)
    requires
        p.shows(e, now, offsets),
    ensures
        p.label@ == titled(e, offsets),
        opt_view(p.synopsis) == synopsis_text(summary_of(e), continuation_of(e)),
        e.start < e.stop ==> p.progress.span == e.stop - e.start,
        e.start <= now <= e.stop && e.start < e.stop ==> p.progress.elapsed == now - e.start,
{
}

/// The guide knows the events of a channel under its id.
pub proof fn law_known_events(guide: Map<Seq<char>, Vec<EpgEvent>>, uuid: Seq<char>)
    ensures
        guide.contains_key(uuid) ==> known_events(guide, uuid) == guide[uuid]@,
        !guide.contains_key(uuid) ==> known_events(guide, uuid).len() == 0,
{
}

/// Of the server all is told that it told: as many lines, in this order.
pub proof fn law_server_lines(info: ServerInfo)
    ensures
        server_lines_view(info).len() == (if info.name is Some {
            1int
        } else {
            0
        }) + (if info.sw_version is Some {
            1int
        } else {
            0
        }) + (if info.api_version is Some {
            1int
        } else {
            0
        }),
        info.name matches Some(n) ==> server_lines_view(info)[0] == n@,
        info.sw_version matches Some(v) ==> server_lines_view(info).contains(
            "Verze TVHeadend: "@ + v@,
        ),
        info.api_version matches Some(a) ==> server_lines_view(info).last() == "API verze: "@
            + decimal(a as int),
{
    let all = server_lines_view(info);
    match info.sw_version {
        Some(v) => {
            let i: int = if info.name is Some {
                1
            } else {
                0
            };
            assert(all[i] == "Verze TVHeadend: "@ + v@);
        },
        None => {},
    }
}

/// Clocks are less than a day ahead of UTC or behind it.
pub proof fn law_valid_times(e: &EpgEvent, o: Offsets)
    ensures
        valid_times(None),
        valid_times(Some((e, o))) <==> -86400 < o.start < 86400 && -86400 < o.stop < 86400,
{
}

} // verus!
