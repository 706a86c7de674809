//! The guide tab: the state of the guide's download, the channels that a
//! search leaves, and where each programme stands on the timeline.
use vstd::prelude::*;
use vstd::string::*;

use crate::epg::{
    format_span, group_by_channel, law_grouped, of_channel, span_text, EpgProgress, Offsets,
};
use crate::numbers::{decimal, push_digits};
use crate::order::{ascending, sorted, Keyed};
use crate::outside::lowercase_of;
use crate::text::{chars_of, contains, includes, law_includes, opt_view, owned};
use crate::text_map::TextMap;
use crate::tvh::{Channel, EpgEvent};

verus! {

/// What came out of the channel of some background work.
#[derive(Debug)]
pub enum Poll<T> {
    /// A message.
    Ready(T),
    /// Nothing yet.
    Empty,
    /// The work is over, and nothing comes any more.
    Closed,
}

// ---- the guide's download -----------------------------------------------

/// The guide as far as it has been fetched.
#[derive(Debug)]
pub struct Guide {
    /// The events of each channel, sorted by start.
    pub events: TextMap<Vec<EpgEvent>>,
    /// How many events of how many there are, once anything is known.
    pub progress: Option<(usize, usize)>,
    /// Why the last download failed, if it did.
    pub error: Option<String>,
    /// Whether a download runs.
    pub waiting: bool,
}

/// Whether the guide holds the given events, by channel and sorted by start.
pub open spec fn holds(m: Map<Seq<char>, Vec<EpgEvent>>, events: Seq<EpgEvent>) -> bool {
    &&& forall|k: Seq<char>| #[trigger] m.contains_key(k) <==> of_channel(events, k).len() > 0
    &&& forall|k: Seq<char>|
        m.contains_key(k) ==> (#[trigger] m[k])@ == sorted(of_channel(events, k))
}

impl Guide {
    /// Nothing has been asked for yet.
    pub open spec fn is_fresh(self) -> bool {
        &&& self.events@ == Map::<Seq<char>, Vec<EpgEvent>>::empty()
        &&& self.events.keys() == Seq::<Seq<char>>::empty()
        &&& self.progress is None
        &&& self.error is None
        &&& !self.waiting
    }

    /// An empty guide.
    pub fn new() -> (r: Self)
        ensures
            r.is_fresh(),
    {
        Guide { events: TextMap::new(), progress: None, error: None, waiting: false }
    }

    /// Starts a download anew: what is shown stays until something arrives.
    pub fn refresh(&mut self)
        ensures
            final(self).events == old(self).events,
            final(self).progress is None,
            final(self).error is None,
            final(self).waiting,
    {
        self.progress = None;
        self.error = None;
        self.waiting = true;
    }

    /// Takes in what came out of the channel of the download. Each message
    /// holds all that was fetched so far, so it replaces what was shown. An
    /// error leaves what was shown and only ends the wait for the first data.
    pub fn on_message(&mut self, message: Poll<Result<EpgProgress, String>>)
        ensures
            match message {
                Poll::Ready(Ok(p)) => {
                    &&& holds(final(self).events@, p.events@)
                    &&& final(self).progress == Some((p.loaded, p.total))
                    &&& final(self).error is None
                    &&& final(self).waiting == old(self).waiting
                },
                Poll::Ready(Err(e)) => {
                    &&& final(self).events == old(self).events
                    &&& final(self).progress == if old(self).progress is None {
                        Some((0usize, 0usize))
                    } else {
                        old(self).progress
                    }
                    &&& final(self).error == Some(e)
                    &&& final(self).waiting == old(self).waiting
                },
                Poll::Empty => *final(self) == *old(self),
                Poll::Closed => {
                    &&& final(self).events == old(self).events
                    &&& final(self).progress == old(self).progress
                    &&& final(self).error == old(self).error
                    &&& !final(self).waiting
                },
            },
    {
        match message {
            Poll::Ready(Ok(p)) => {
                self.events = group_by_channel(p.events);
                self.progress = Some((p.loaded, p.total));
                self.error = None;
            },
            Poll::Ready(Err(e)) => {
                if self.progress.is_none() {
                    self.progress = Some((0, 0));
                }
                self.error = Some(e);
            },
            Poll::Empty => {},
            Poll::Closed => {
                self.waiting = false;
            },
        }
    }
}

/// What the guide tab shows.
#[derive(Debug, Clone, Copy, PartialEq, Eq, Structural)]
pub enum GuideTab {
    NotConnected,
    Failed,
    NoData,
    Loading,
    Grid,
}

/// What the guide tab shows: the grid as soon as there is anything in it, and
/// until then what is known of the download.
pub open spec fn guide_tab(
    channels: int,
    events: int,
    error: bool,
    progress: Option<(usize, usize)>,
) -> GuideTab {
    if channels == 0 {
        GuideTab::NotConnected
    } else if events > 0 {
        GuideTab::Grid
    } else if error {
        GuideTab::Failed
    } else {
        match progress {
            Some((loaded, total)) => if loaded >= total {
                GuideTab::NoData
            } else {
                GuideTab::Loading
            },
            None => GuideTab::Loading,
        }
    }
}

/// How far the first download has got.
pub open spec fn loading_text(progress: Option<(usize, usize)>) -> Seq<char> {
    match progress {
        Some((loaded, total)) => if total > 0 {
            "Načítám EPG... ("@ + decimal(loaded as int) + " z "@ + decimal(total as int) + ")"@
        } else {
            "Načítám EPG... (u velkých instalací TVHeadend to může chvíli trvat)"@
        },
        None => "Načítám EPG... (u velkých instalací TVHeadend to může chvíli trvat)"@,
    }
}

/// How far a download has got while the grid is shown already.
pub open spec fn more_text(progress: Option<(usize, usize)>) -> Option<Seq<char>> {
    match progress {
        Some((loaded, total)) => if total > 0 && loaded < total {
            Some(
                "Načítám další data EPG... ("@ + decimal(loaded as int) + " z "@ + decimal(
                    total as int,
                ) + ")"@,
            )
        } else {
            None
        },
        None => None,
    }
}

/// What is said over a grid that could not be refreshed.
pub open spec fn stale_text(error: Option<Seq<char>>) -> Option<Seq<char>> {
    match error {
        Some(e) => Some(
            "Poslední obnovení EPG selhalo ("@ + e + ") - zobrazuji starší data."@,
        ),
        None => None,
    }
}

impl Guide {
    /// What the guide tab shows.
    pub fn tab(&self, channels: &Vec<Channel>) -> (r: GuideTab)
        ensures
            r == guide_tab(
                channels@.len() as int,
                self.events.keys().len() as int,
                self.error is Some,
                self.progress,
            ),
    {
        if channels.len() == 0 {
            GuideTab::NotConnected
        } else if self.events.len() > 0 {
            GuideTab::Grid
        } else if self.error.is_some() {
            GuideTab::Failed
        } else {
            match self.progress {
                Some((loaded, total)) => if loaded >= total {
                    GuideTab::NoData
                } else {
                    GuideTab::Loading
                },
                None => GuideTab::Loading,
            }
        }
    }

    /// How far the first download has got.
    pub fn loading_label(&self) -> (r: String)
        ensures
            r@ == loading_text(self.progress),
    {
        match self.progress {
            Some((loaded, total)) => if total > 0 {
                let mut out = owned("Načítám EPG... (");
                push_digits(&mut out, loaded as u128, 10);
                out.append(" z ");
                push_digits(&mut out, total as u128, 10);
                out.append(")");
                out
            } else {
                owned("Načítám EPG... (u velkých instalací TVHeadend to může chvíli trvat)")
            },
            None => owned(
                "Načítám EPG... (u velkých instalací TVHeadend to může chvíli trvat)",
            ),
        }
    }

    /// How far a download has got while the grid is shown already.
    pub fn more_label(&self) -> (r: Option<String>)
        ensures
            opt_view(r) == more_text(self.progress),
    {
        match self.progress {
            Some((loaded, total)) => if total > 0 && loaded < total {
                let mut out = owned("Načítám další data EPG... (");
                push_digits(&mut out, loaded as u128, 10);
                out.append(" z ");
                push_digits(&mut out, total as u128, 10);
                out.append(")");
                Some(out)
            } else {
                None
            },
            None => None,
        }
    }

    /// What is said over a grid that could not be refreshed.
    pub fn stale_label(&self) -> (r: Option<String>)
        ensures
            opt_view(r) == stale_text(opt_view(self.error)),
    {
        match &self.error {
            Some(e) => {
                let mut out = owned("Poslední obnovení EPG selhalo (");
                out.append(e.as_str());
                out.append(") - zobrazuji starší data.");
                Some(out)
            },
            None => None,
        }
    }
}

// ---- searching channels -------------------------------------------------

/// Whether a search finds a channel by its name or, where that counts, by its
/// number. All three texts are in lower case.
pub open spec fn found(
    filter: Seq<char>,
    name: Seq<char>,
    number: Seq<char>,
    by_number: bool,
) -> bool {
    filter.len() == 0 || includes(name, filter) || (by_number && includes(number, filter))
}

/// Whether a search finds a channel.
pub open spec fn matches_search(filter: Seq<char>, c: Channel, by_number: bool) -> bool {
    found(lowercase_of(filter), lowercase_of(c.name@), lowercase_of(c.number@), by_number)
}

/// The places of the channels below `n` that a search finds.
pub open spec fn found_places(
    filter: Seq<char>,
    channels: Seq<Channel>,
    by_number: bool,
    n: int,
) -> Seq<usize>
    decreases n,
{
    if n <= 0 {
        Seq::empty()
    } else if matches_search(filter, channels[n - 1], by_number) {
        found_places(filter, channels, by_number, n - 1).push((n - 1) as usize)
    } else {
        found_places(filter, channels, by_number, n - 1)
    }
}

/// Whether a search finds a channel, all texts being in lower case.
pub fn is_found(filter: &str, name: &str, number: &str, by_number: bool) -> (r: bool)
    ensures
        r == found(filter@, name@, number@, by_number),
{
    let f = chars_of(filter);
    f.len() == 0 || contains(chars_of(name).as_slice(), f.as_slice()) || (by_number && contains(
        chars_of(number).as_slice(),
        f.as_slice(),
    ))
}

/// The places of the channels that a search finds, by their names and, in the
/// channel list but not in the guide, by their numbers. Upper and lower case
/// are the same.
pub fn search(filter: &str, channels: &Vec<Channel>, by_number: bool) -> (r: Vec<usize>)
    ensures
        r@ == found_places(filter@, channels@, by_number, channels@.len() as int),
{
    let lowered = filter.to_lowercase();
    let mut out: Vec<usize> = Vec::new();
    let n: usize = channels.len();
    for i in 0..n
        invariant
            n == channels@.len(),
            lowered@ == lowercase_of(filter@),
            out@ == found_places(filter@, channels@, by_number, i as int),
    {
        let name = channels[i].name.as_str().to_lowercase();
        let number = channels[i].number.as_str().to_lowercase();
        if is_found(lowered.as_str(), name.as_str(), number.as_str(), by_number) {
            out.push(i);
        }
    }
    out
}

// ---- the timeline -------------------------------------------------------

/// The time that the grid covers.
#[derive(Debug, Clone, Copy, PartialEq, Eq, Structural)]
pub struct Timeline {
    pub start: i64,
    pub end: i64,
}

/// The first event of each channel starts at `t` or later.
pub open spec fn none_before(m: Map<Seq<char>, Vec<EpgEvent>>, t: int) -> bool {
    forall|k: Seq<char>|
        m.contains_key(k) && (#[trigger] m[k])@.len() > 0 ==> t <= m[k]@[0].start
}

/// The last event of each channel stops at `t` or earlier.
pub open spec fn none_after(m: Map<Seq<char>, Vec<EpgEvent>>, t: int) -> bool {
    forall|k: Seq<char>|
        m.contains_key(k) && (#[trigger] m[k])@.len() > 0 ==> m[k]@.last().stop <= t
}

/// `t` is when the first event of some channel starts.
pub open spec fn some_starts(m: Map<Seq<char>, Vec<EpgEvent>>, t: int) -> bool {
    exists|k: Seq<char>|
        m.contains_key(k) && (#[trigger] m[k])@.len() > 0 && m[k]@[0].start == t
}

/// `t` is when the last event of some channel stops.
pub open spec fn some_stops(m: Map<Seq<char>, Vec<EpgEvent>>, t: int) -> bool {
    exists|k: Seq<char>|
        m.contains_key(k) && (#[trigger] m[k])@.len() > 0 && m[k]@.last().stop == t
}

impl Timeline {
    /// The time from the earliest event to the latest one, of all channels, so
    /// that it does not depend on a search; it holds the next three hours at
    /// least.
    pub open spec fn covers(self, m: Map<Seq<char>, Vec<EpgEvent>>, now: int) -> bool {
        &&& self.start <= now
        &&& none_before(m, self.start as int)
        &&& self.start == now || some_starts(m, self.start as int)
        &&& self.end >= now + 10800
        &&& none_after(m, self.end as int)
        &&& self.end == now + 10800 || some_stops(m, self.end as int)
    }

    /// The time from the earliest event to the latest one.
    pub fn of(events: &TextMap<Vec<EpgEvent>>, now: i64) -> (r: Self)
        requires
            now <= i64::MAX - 10800,
        ensures
            r.covers(events@, now as int),
    {
        let mut start: i64 = now;
        let mut end: i64 = now + 10800;
        let n: usize = events.len();
        let ghost keys = events.keys();
        for i in 0..n
            invariant
                n == keys.len(),
                keys == events.keys(),
                start <= now,
                end >= now + 10800,
                forall|j: int|
                    0 <= j < i && events@.contains_key(keys[j]) && (#[trigger] events@[keys[j]])@.len()
                        > 0 ==> start <= events@[keys[j]]@[0].start && events@[keys[j]]@.last().stop
                        <= end,
                start == now || some_starts(events@, start as int),
                end == now + 10800 || some_stops(events@, end as int),
        {
            let list = events.value_at(i);
            let m: usize = list.len();
            let ghost k = keys[i as int];
            if m > 0 {
                let first: i64 = list[0].start;
                let last: i64 = list[m - 1].stop;
                proof {
                    assert(events@[k]@.len() > 0);
                    assert(events@[k]@[0].start == first);
                    assert(events@[k]@.last().stop == last);
                }
                if first < start {
                    start = first;
                    proof {
                        assert(some_starts(events@, start as int));
                    }
                }
                if last > end {
                    end = last;
                    proof {
                        assert(some_stops(events@, end as int));
                    }
                }
            }
        }
        proof {
            assert forall|k: Seq<char>|
                events@.contains_key(k) && (#[trigger] events@[k])@.len() > 0 implies start
                <= events@[k]@[0].start && events@[k]@.last().stop <= end by {
                assert(keys.contains(k));
                let j = choose|j: int| 0 <= j < keys.len() && keys[j] == k;
                assert(events@[keys[j]]@.len() > 0);
            }
        }
        Timeline { start, end }
    }

    /// How many seconds the grid is wide: a minute at least.
    pub fn span(&self) -> (r: i128)
        ensures
            r == if self.end - self.start > 60 {
                self.end - self.start
            } else {
                60
            },
    {
        let span: i128 = self.end as i128 - self.start as i128;
        if span > 60 {
            span
        } else {
            60
        }
    }

    /// The first full hour of the ruler: the last one at or before the start.
    pub open spec fn first_tick(self) -> int {
        self.start - self.start % 3600
    }

    /// The number of full hours of the ruler.
    pub open spec fn tick_count(self) -> int {
        if self.first_tick() < self.end {
            (self.end - self.first_tick() + 3599) / 3600
        } else {
            0
        }
    }

    /// The full hours of the ruler, from the last one at or before the start
    /// to the last one before the end.
    pub fn ticks(&self) -> (r: Vec<i64>)
        requires
            self.start >= i64::MIN + 3600,
            self.end <= i64::MAX - 3600,
        ensures
            r@.len() == self.tick_count(),
            forall|i: int|
                0 <= i < r@.len() ==> #[trigger] r@[i] == self.first_tick() + 3600 * i && r@[i]
                    < self.end && r@[i] as int % 3600 == 0,
    {
        let rest: i64 = if self.start >= 0 {
            self.start % 3600
        } else {
            3599 - (-(self.start + 1)) % 3600
        };
        proof {
            assert(rest == self.start as int % 3600);
        }
        let mut t: i64 = self.start - rest;
        let ghost first = t as int;
        let mut out: Vec<i64> = Vec::new();
        while t < self.end
            invariant
                first == self.first_tick(),
                first % 3600 == 0,
                self.end <= i64::MAX - 3600,
                t == first + 3600 * out@.len(),
                out@.len() > 0 ==> t - 3600 < self.end,
                forall|i: int|
                    0 <= i < out@.len() ==> #[trigger] out@[i] == first + 3600 * i && out@[i]
                        < self.end && out@[i] as int % 3600 == 0,
            decreases self.end - t + 3600,
        {
            out.push(t);
            t = t + 3600;
        }
        out
    }
}

/// Where a programme stands on the timeline: the place of its event, from
/// which second of the timeline to which, and whether it is on now.
#[derive(Debug, Clone, Copy, PartialEq, Eq, Structural)]
pub struct Block {
    pub place: usize,
    pub from: i128,
    pub to: i128,
    pub current: bool,
}

impl Timeline {
    /// Whether any of an event lies on the timeline.
    pub open spec fn shows(self, e: EpgEvent) -> bool {
        e.stop > self.start && e.start < self.end
    }

    /// Where an event stands: what lies outside the timeline is cut off.
    pub open spec fn block(self, e: EpgEvent, place: usize, now: int) -> Block {
        Block {
            place,
            from: (if e.start < self.start {
                0int
            } else {
                e.start - self.start
            }) as i128,
            to: (if e.stop > self.end {
                self.end - self.start
            } else {
                e.stop - self.start
            }) as i128,
            current: e.start <= now < e.stop,
        }
    }

    /// Where the events below `n` stand that lie on the timeline.
    pub open spec fn blocks_below(self, events: Seq<EpgEvent>, now: int, n: int) -> Seq<Block>
        decreases n,
    {
        if n <= 0 {
            Seq::empty()
        } else if self.shows(events[n - 1]) {
            self.blocks_below(events, now, n - 1).push(
                self.block(events[n - 1], (n - 1) as usize, now),
            )
        } else {
            self.blocks_below(events, now, n - 1)
        }
    }

    /// Where the events of a channel stand that lie on the timeline.
    pub fn blocks(&self, events: &Vec<EpgEvent>, now: i64) -> (r: Vec<Block>)
        ensures
            r@ == self.blocks_below(events@, now as int, events@.len() as int),
    {
        let mut out: Vec<Block> = Vec::new();
        let n: usize = events.len();
        for i in 0..n
            invariant
                n == events@.len(),
                out@ == self.blocks_below(events@, now as int, i as int),
        {
            let start: i64 = events[i].start;
            let stop: i64 = events[i].stop;
            if stop > self.start && start < self.end {
                let from: i128 = if start < self.start {
                    0
                } else {
                    start as i128 - self.start as i128
                };
                let to: i128 = if stop > self.end {
                    self.end as i128 - self.start as i128
                } else {
                    stop as i128 - self.start as i128
                };
                out.push(Block { place: i, from, to, current: start <= now && now < stop });
            }
        }
        out
    }
}

// ---- labels -------------------------------------------------------------

/// The label of a channel: its number and its name.
pub fn channel_label(channel: &Channel) -> (r: String)
    ensures
        r@ == channel.number@ + "  "@ + channel.name@,
{
    let mut out = channel.number.clone();
    out.append("  ");
    out.append(channel.name.as_str());
    out
}

/// A programme with its times: `Title  (20:15–21:00)`.
pub open spec fn titled(e: EpgEvent, offsets: Offsets) -> Seq<char> {
    e.title@ + "  ("@ + span_text(e.start as int, e.stop as int, offsets) + ")"@
}

/// A programme with its times.
pub fn event_label(event: &EpgEvent, offsets: Offsets) -> (r: String)
    requires
        offsets.valid(),
    ensures
        r@ == titled(*event, offsets),
{
    let mut out = event.title.clone();
    out.append("  (");
    out.append(format_span(event.start, event.stop, offsets).as_str());
    out.append(")");
    out
}

/// The programme that comes next, with its times.
pub fn next_label(event: &EpgEvent, offsets: Offsets) -> (r: String)
    requires
        offsets.valid(),
    ensures
        r@ == "Další: "@ + titled(*event, offsets),
{
    let mut out = owned("Další: ");
    out.append(event_label(event, offsets).as_str());
    out
}

/// What a programme without a synopsis says of itself.
pub fn hover_label(event: &EpgEvent, offsets: Offsets) -> (r: String)
    requires
        offsets.valid(),
    ensures
        r@ == span_text(event.start as int, event.stop as int, offsets) + "  "@
            + event.title@,
{
    let mut out = format_span(event.start, event.stop, offsets);
    out.append("  ");
    out.append(event.title.as_str());
    out
}

// ---- laws ---------------------------------------------------------------

/// A block lies on the timeline. One of a usable event is not empty, and one
/// of an event that starts on the timeline is not cut off in front.
pub proof fn law_block_on_timeline(t: Timeline, e: EpgEvent, place: usize, now: int)
    requires
        t.shows(e),
        e.start < e.stop,
        t.start < t.end,
    ensures
        0 <= t.block(e, place, now).from < t.block(e, place, now).to <= t.end - t.start,
        e.start >= t.start ==> t.block(e, place, now).from == e.start - t.start,
        e.stop <= t.end ==> t.block(e, place, now).to == e.stop - t.start,
{
}

/// The timeline begins no later than any event of a channel whose events are
/// sorted by start, so that none is cut off in front.
pub proof fn law_timeline_covers(
    t: Timeline,
    m: Map<Seq<char>, Vec<EpgEvent>>,
    now: int,
    k: Seq<char>,
    i: int,
)
    requires
        t.covers(m, now),
        m.contains_key(k),
        ascending(m[k]@),
        0 <= i < m[k]@.len(),
    ensures
        t.start <= m[k]@[i].start,
{
    assert(m[k]@.len() > 0);
    assert(m[k]@[0].start <= m[k]@[i].start) by {
        let s = m[k]@;
        assert(s[0].key() <= s[i].key());
    }
}

/// A search lists exactly the channels that it finds, in their order.
pub proof fn law_search(filter: Seq<char>, channels: Seq<Channel>, by_number: bool, n: int)
    requires
        0 <= n <= channels.len(),
        n <= usize::MAX,
    ensures
        forall|i: int|
            0 <= i < n ==> (#[trigger] matches_search(filter, channels[i], by_number)
                <==> found_places(filter, channels, by_number, n).contains(i as usize)),
        forall|j: int|
            0 <= j < found_places(filter, channels, by_number, n).len() ==> (
            #[trigger] found_places(filter, channels, by_number, n)[j]) < n,
        forall|j: int, k: int|
            0 <= j < k < found_places(filter, channels, by_number, n).len() ==> found_places(
                filter,
                channels,
                by_number,
                n,
            )[j] < found_places(filter, channels, by_number, n)[k],
    decreases n,
{
    if n > 0 {
        law_search(filter, channels, by_number, n - 1);
        let before = found_places(filter, channels, by_number, n - 1);
        let all = found_places(filter, channels, by_number, n);
        assert forall|i: int| 0 <= i < n implies (#[trigger] matches_search(
            filter,
            channels[i],
            by_number,
        ) <==> all.contains(i as usize)) by {
            if matches_search(filter, channels[n - 1], by_number) {
                if before.contains(i as usize) {
                    let j = choose|j: int| 0 <= j < before.len() && before[j] == i as usize;
                    assert(all[j] == i as usize);
                }
                if all.contains(i as usize) {
                    let j = choose|j: int| 0 <= j < all.len() && all[j] == i as usize;
                    if j < before.len() {
                        assert(before[j] == i as usize);
                    }
                }
                assert(all[all.len() - 1] == (n - 1) as usize);
            } else if before.contains(i as usize) {
                let j = choose|j: int| 0 <= j < before.len() && before[j] == i as usize;
                assert(before[j] < n - 1);
            }
        }
    }
}

/// What the guide tab shows: without channels nothing to show it for; with any
/// events the grid, whatever went wrong since; otherwise the error, or that
/// there is nothing, or that it is on its way.
pub proof fn law_guide_tab(
    channels: nat,
    events: nat,
    error: bool,
    progress: Option<(usize, usize)>,
)
    ensures
        guide_tab(channels as int, events as int, error, progress) == GuideTab::NotConnected
            <==> channels == 0,
        guide_tab(channels as int, events as int, error, progress) == GuideTab::Grid <==> channels
            > 0 && events > 0,
        guide_tab(channels as int, events as int, error, progress) == GuideTab::Failed <==> channels
            > 0 && events == 0 && error,
        guide_tab(channels as int, events as int, error, progress) == GuideTab::NoData <==> channels
            > 0 && events == 0 && !error && (progress matches Some((loaded, total)) && loaded
            >= total),
{
}

/// The progress of a download is told by how many events of how many have
/// arrived: over the grid only while some are missing, and in place of the grid
/// always, where the total is known.
pub proof fn law_progress_told(loaded: usize, total: usize)
    ensures
        more_text(Some((loaded, total))) is Some <==> loaded < total,
        more_text(None) is None,
        loaded < total ==> more_text(Some((loaded, total))) == Some(
            "Načítám další data EPG... ("@ + decimal(loaded as int) + " z "@ + decimal(total as int)
                + ")"@,
        ),
        total > 0 ==> loading_text(Some((loaded, total))) == "Načítám EPG... ("@ + decimal(
            loaded as int,
        ) + " z "@ + decimal(total as int) + ")"@,
        total == 0 ==> loading_text(Some((loaded, total))) == loading_text(None),
        loading_text(None) == "Načítám EPG... (u velkých instalací TVHeadend to může chvíli trvat)"@,
{
}

/// A search without a text finds every channel; any other finds the channels
/// in whose name, or in whose number where that counts, the text stands
/// somewhere.
pub proof fn law_found(
    filter: Seq<char>,
    name: Seq<char>,
    number: Seq<char>,
    by_number: bool,
    c: Channel,
)
    ensures
        filter.len() == 0 ==> found(filter, name, number, by_number),
        filter.len() > 0 ==> (found(filter, name, number, by_number) <==> (exists|i: int|
            0 <= i && i + filter.len() <= name.len() && (#[trigger] name.skip(i)).take(
                filter.len() as int,
            ) == filter) || (by_number && exists|i: int|
            0 <= i && i + filter.len() <= number.len() && (#[trigger] number.skip(i)).take(
                filter.len() as int,
            ) == filter)),
        matches_search(filter, c, by_number) == found(
            lowercase_of(filter),
            lowercase_of(c.name@),
            lowercase_of(c.number@),
            by_number,
        ),
{
    law_includes(name, filter);
    law_includes(number, filter);
}

/// Every event of which any part lies on the timeline has a block there, from
/// its start to its stop, as far as they lie on the timeline; no other has.
pub proof fn law_blocks(t: Timeline, events: Seq<EpgEvent>, now: int, n: int)
    requires
        0 < n <= events.len(),
        n <= usize::MAX,
        t.start < t.end,
    ensures
        t.blocks_below(events, now, 0).len() == 0,
        !(events[n - 1].stop > t.start && events[n - 1].start < t.end) ==> t.blocks_below(
            events,
            now,
            n,
        ) == t.blocks_below(events, now, n - 1),
        events[n - 1].stop > t.start && events[n - 1].start < t.end ==> {
            let e = events[n - 1];
            let all = t.blocks_below(events, now, n);
            &&& all.drop_last() == t.blocks_below(events, now, n - 1)
            &&& all.len() > 0
            &&& all.last().place == n - 1
            &&& e.start >= t.start ==> all.last().from == e.start - t.start
            &&& e.start < t.start ==> all.last().from == 0
            &&& e.stop <= t.end ==> all.last().to == e.stop - t.start
            &&& e.stop > t.end ==> all.last().to == t.end - t.start
            &&& all.last().current <==> e.start <= now && now < e.stop
        },
{
    let e = events[n - 1];
    if e.stop > t.start && e.start < t.end {
        assert(t.blocks_below(events, now, n).drop_last() =~= t.blocks_below(events, now, n - 1));
    }
}

/// The timeline begins now or with the earliest first event of a channel, and
/// ends three hours from now or with the latest last event, whichever is
/// farther.
pub proof fn law_covers(t: Timeline, m: Map<Seq<char>, Vec<EpgEvent>>, now: int)
    requires
        t.covers(m, now),
    ensures
        t.start <= now,
        now + 3 * 3600 <= t.end,
        forall|k: Seq<char>|
            m.contains_key(k) && (#[trigger] m[k])@.len() > 0 ==> t.start <= m[k]@[0].start
                && m[k]@[m[k]@.len() - 1].stop <= t.end,
        t.start < now ==> exists|k: Seq<char>|
            m.contains_key(k) && (#[trigger] m[k])@.len() > 0 && m[k]@[0].start == t.start,
        t.end > now + 3 * 3600 ==> exists|k: Seq<char>|
            m.contains_key(k) && (#[trigger] m[k])@.len() > 0 && m[k]@[m[k]@.len() - 1].stop
                == t.end,
{
}

/// The ruler begins with the full hour at or before the start, and ends with
/// the last one before the end.
pub proof fn law_ruler(t: Timeline)
    ensures
        t.first_tick() % 3600 == 0,
        t.first_tick() <= t.start < t.first_tick() + 3600,
        t.first_tick() < t.end ==> t.first_tick() + 3600 * (t.tick_count() - 1) < t.end
            <= t.first_tick() + 3600 * t.tick_count(),
        t.first_tick() >= t.end ==> t.tick_count() == 0,
{
}

/// The guide holds the events of each channel that has any, and of no other:
/// all of them, in the order of their starts.
pub proof fn law_guide_holds(m: Map<Seq<char>, Vec<EpgEvent>>, events: Seq<EpgEvent>, k: Seq<char>)
    requires
        holds(m, events),
    ensures
        m.contains_key(k) <==> exists|i: int|
            0 <= i < events.len() && (#[trigger] events[i]).channel_uuid@ == k,
        m.contains_key(k) ==> forall|e: EpgEvent| #[trigger]
            m[k]@.contains(e) <==> events.contains(e) && e.channel_uuid@ == k,
        m.contains_key(k) ==> forall|i: int, j: int|
            0 <= i <= j < m[k]@.len() ==> (#[trigger] m[k]@[i]).start <= (#[trigger] m[k]@[j]).start,
{
    law_grouped(events, k);
    let own = of_channel(events, k);
    let s = sorted(own);
    if m.contains_key(k) {
        assert forall|i: int, j: int| 0 <= i <= j < m[k]@.len() implies (#[trigger] m[k]@[i]).start
            <= (#[trigger] m[k]@[j]).start by {
            assert(s[i].key() <= s[j].key());
        }
        s.to_multiset_ensures();
        own.to_multiset_ensures();
        assert(own.contains(own[0]));
        assert(own.to_multiset().count(own[0]) > 0);
        assert(s.contains(own[0]));
        let i = choose|i: int| 0 <= i < events.len() && events[i] == own[0];
        assert(events[i].channel_uuid@ == k);
    }
    if exists|i: int| 0 <= i < events.len() && (#[trigger] events[i]).channel_uuid@ == k {
        let i = choose|i: int| 0 <= i < events.len() && (#[trigger] events[i]).channel_uuid@ == k;
        assert(events.contains(events[i]));
        assert(s.contains(events[i]));
        s.to_multiset_ensures();
        own.to_multiset_ensures();
        assert(s.to_multiset().count(events[i]) > 0);
        assert(own.contains(events[i]));
    }
}

/// A programme is told by its whole title and by its times in brackets.
pub proof fn law_titled(e: EpgEvent, offsets: Offsets)
    ensures
        titled(e, offsets).take(e.title@.len() as int) == e.title@,
        titled(e, offsets).skip(e.title@.len() as int) == "  ("@ + span_text(
            e.start as int,
            e.stop as int,
            offsets,
        ) + ")"@,
{
    assert(titled(e, offsets).take(e.title@.len() as int) =~= e.title@);
    assert(titled(e, offsets).skip(e.title@.len() as int) =~= "  ("@ + span_text(
        e.start as int,
        e.stop as int,
        offsets,
    ) + ")"@);
}

/// A grid that could not be refreshed says why.
pub proof fn law_stale(error: Seq<char>)
    ensures
        stale_text(None) is None,
        stale_text(Some(error)) == Some(
            "Poslední obnovení EPG selhalo ("@ + error + ") - zobrazuji starší data."@,
        ),
{
}

/// A fresh guide is empty, and nothing is known of its download.
pub proof fn law_fresh(g: Guide)
    requires
        g.is_fresh(),
    ensures
        g.events@ == Map::<Seq<char>, Vec<EpgEvent>>::empty(),
        g.progress is None,
        g.error is None,
        !g.waiting,
{
}

} // verus!
