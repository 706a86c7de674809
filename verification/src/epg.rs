//! The programme guide: the events of each channel, what is on now and next,
//! and the page-by-page download of the whole guide.
//!
//! The server's guide can be big, so it is asked for in pages, sorted by start
//! time, and what has arrived so far is shown after every page: the earliest
//! pages hold what is on now. The complete guide is kept on disk per server
//! and shown at once the next time, before it is refreshed.
use vstd::prelude::*;
use vstd::string::*;

use crate::numbers::{fixed_digits, push_fixed};
use crate::order::{
    ascending, insert_by_key, insert_sorted, law_sorted, law_stable, lemma_filter_contains, sorted,
    with_key, Keyed,
};
use crate::outside::{clock, lowercase_of, FIRST_SECOND, LAST_SECOND};
use crate::text::{
    chars_of, law_lines, lemma_lines_append, lines, opt_view, same_str, slice_views, split_lines,
    string_of, string_views, trim, trimmed, trimmed_str,
};
use crate::text_map::TextMap;
use crate::tvh::{
    error_message, lemma_placeable_len, placeable, usable_events, EpgEvent, TvhError,
};

verus! {

// ---- events by channel --------------------------------------------------

impl Keyed for EpgEvent {
    open spec fn key(self) -> int {
        self.start as int
    }

    fn get_key(&self) -> (r: i128) {
        self.start as i128
    }
}

/// Whether an event is one of a channel.
pub open spec fn airs_on(uuid: Seq<char>) -> spec_fn(EpgEvent) -> bool {
    |e: EpgEvent| e.channel_uuid@ == uuid
}

/// The events of one channel.
pub open spec fn of_channel(events: Seq<EpgEvent>, uuid: Seq<char>) -> Seq<EpgEvent> {
    events.filter(airs_on(uuid))
}

/// Groups a list of events by channel, the events of each channel sorted by
/// start time.
pub fn group_by_channel(events: Vec<EpgEvent>) -> (r: TextMap<Vec<EpgEvent>>)
    ensures
        forall|k: Seq<char>| #[trigger]
            r@.contains_key(k) <==> of_channel(events@, k).len() > 0,
        forall|k: Seq<char>|
            r@.contains_key(k) ==> (#[trigger] r@[k])@ == sorted(of_channel(events@, k)),
{
    let ghost all = events@;
    let mut map: TextMap<Vec<EpgEvent>> = TextMap::new();
    proof {
        reveal(Seq::filter);
    }
    for event in it: events
        invariant
            it.seq() == all,
            forall|k: Seq<char>| #[trigger]
                map@.contains_key(k) <==> of_channel(all.take(it.index() as int), k).len() > 0,
            forall|k: Seq<char>|
                map@.contains_key(k) ==> (#[trigger] map@[k])@ == sorted(
                    of_channel(all.take(it.index() as int), k),
                ),
    {
        let ghost done = all.take(it.index() as int);
        let ghost before = map@;
        let ghost uuid = event.channel_uuid@;
        let key = event.channel_uuid.clone();
        let mut list = match map.remove(key.as_str()) {
            Some(list) => list,
            None => Vec::new(),
        };
        proof {
            reveal(Seq::filter);
            assert(all.take(it.index() + 1).drop_last() =~= done);
            assert(all.take(it.index() + 1).last() == event);
            let held = of_channel(done, uuid);
            if before.contains_key(uuid) {
                assert(list@ == before[uuid]@);
            } else {
                assert(held.len() == 0);
                assert(list@ =~= sorted(held));
            }
            assert(held.push(event).drop_last() =~= held);
            assert(sorted(held.push(event)) == insert_sorted(list@, event));
        }
        insert_by_key(&mut list, event);
        map.insert(key.as_str(), list);
        proof {
            let next = all.take(it.index() + 1);
            assert forall|k: Seq<char>| #[trigger]
                map@.contains_key(k) <==> of_channel(next, k).len() > 0 by {
                assert(before.contains_key(k) <==> of_channel(done, k).len() > 0);
            }
            assert forall|k: Seq<char>| map@.contains_key(k) implies (#[trigger] map@[k])@
                == sorted(of_channel(next, k)) by {
                if k != uuid {
                    assert(before.contains_key(k));
                    assert(map@[k] == before[k]);
                    assert(of_channel(next, k) == of_channel(done, k));
                } else {
                    assert(of_channel(next, k) == of_channel(done, k).push(event));
                    assert(map@[k] == list);
                }
            }
        }
    }
    proof {
        assert(all.take(all.len() as int) =~= all);
    }
    map
}

/// Whether an event is on at a time.
pub open spec fn on_air(e: EpgEvent, now: int) -> bool {
    e.start <= now < e.stop
}

/// The first event from `from` on that is on at a time.
pub open spec fn first_on_air(events: Seq<EpgEvent>, now: int, from: int) -> Option<int>
    decreases events.len() - from,
{
    if from >= events.len() {
        None
    } else if on_air(events[from], now) {
        Some(from)
    } else {
        first_on_air(events, now, from + 1)
    }
}

/// The first event from `from` on that starts at a time or after it.
pub open spec fn first_starting(events: Seq<EpgEvent>, now: int, from: int) -> Option<int>
    decreases events.len() - from,
{
    if from >= events.len() {
        None
    } else if events[from].start >= now {
        Some(from)
    } else {
        first_starting(events, now, from + 1)
    }
}

/// The place of the event that is on, and of the one after it. In a gap of the
/// schedule the one after it is the first that is yet to start.
pub open spec fn now_and_next(events: Seq<EpgEvent>, now: int) -> (Option<int>, Option<int>) {
    match first_on_air(events, now, 0) {
        Some(i) => (
            Some(i),
            if i + 1 < events.len() {
                Some(i + 1)
            } else {
                None
            },
        ),
        None => (None, first_starting(events, now, 0)),
    }
}

/// The event at a place.
pub open spec fn event_at(events: Seq<EpgEvent>, place: Option<int>) -> Option<EpgEvent> {
    match place {
        Some(i) => Some(events[i]),
        None => None,
    }
}

/// The event that an optional reference points to.
pub open spec fn opt_event(o: Option<&EpgEvent>) -> Option<EpgEvent> {
    match o {
        Some(e) => Some(*e),
        None => None,
    }
}

/// The event that is on at `now`, if any, and the one right after it in the
/// schedule, if any. The events are those of one channel, sorted by start as
/// [`group_by_channel`] leaves them.
pub fn current_and_next<'a>(events: &'a Vec<EpgEvent>, now: i64) -> (r: (
    Option<&'a EpgEvent>,
    Option<&'a EpgEvent>,
))
    ensures
        opt_event(r.0) == event_at(events@, now_and_next(events@, now as int).0),
        opt_event(r.1) == event_at(events@, now_and_next(events@, now as int).1),
{
    let n: usize = events.len();
    for i in 0..n
        invariant
            n == events@.len(),
            first_on_air(events@, now as int, 0) == first_on_air(events@, now as int, i as int),
    {
        if events[i].start <= now && now < events[i].stop {
            let next: Option<&'a EpgEvent> = if i + 1 < n {
                Some(&events[i + 1])
            } else {
                None
            };
            return (Some(&events[i]), next);
        }
    }
    for i in 0..n
        invariant
            n == events@.len(),
            first_on_air(events@, now as int, 0) is None,
            first_starting(events@, now as int, 0) == first_starting(
                events@,
                now as int,
                i as int,
            ),
    {
        if events[i].start >= now {
            return (None, Some(&events[i]));
        }
    }
    (None, None)
}

/// How far an event has got: `elapsed` of `span` seconds.
#[derive(Debug, Clone, Copy, PartialEq, Eq, Structural)]
pub struct Progress {
    pub elapsed: i128,
    pub span: i128,
}

/// How far into an event a time is, from just started to over. An event is
/// taken to last a second at least.
pub open spec fn progress_view(start: int, stop: int, now: int) -> (int, int) {
    let span = if stop - start > 1 {
        stop - start
    } else {
        1
    };
    let elapsed = if now <= start {
        0
    } else if now - start >= span {
        span
    } else {
        now - start
    };
    (elapsed, span)
}

/// How far into `ev` the time `now` is, for a progress bar.
pub fn progress(ev: &EpgEvent, now: i64) -> (r: Progress)
    ensures
        (r.elapsed as int, r.span as int) == progress_view(
            ev.start as int,
            ev.stop as int,
            now as int,
        ),
        0 <= r.elapsed <= r.span,
        1 <= r.span,
{
    let length: i128 = ev.stop as i128 - ev.start as i128;
    let span: i128 = if length > 1 {
        length
    } else {
        1
    };
    let passed: i128 = now as i128 - ev.start as i128;
    let elapsed: i128 = if passed <= 0 {
        0
    } else if passed >= span {
        span
    } else {
        passed
    };
    Progress { elapsed, span }
}

// ---- synopsis -----------------------------------------------------------

/// The lines that some guides add to a description and that are no part of
/// it: technical flags and the like, in lower case.
pub open spec fn is_junk(s: Seq<char>) -> bool {
    ||| s == "hdtv"@
    ||| s == "hd"@
    ||| s == "sd"@
    ||| s == "zvukový popis"@
    ||| s == "zvukovy popis"@
    ||| s == "audio description"@
    ||| s == "skryté titulky"@
    ||| s == "skryte titulky"@
    ||| s == "teletext"@
    ||| s == "stereo"@
    ||| s == "mono"@
    ||| s == "dolby digital"@
    ||| s == "5.1"@
    ||| s == "širokoúhlý"@
    ||| s == "sirokouhly"@
    ||| s == "širokoúhlé"@
    ||| s == "16:9"@
    ||| s == "4:3"@
    ||| s == "premiéra"@
    ||| s == "premiera"@
    ||| s == "repríza"@
    ||| s == "repriza"@
}

/// Whether a line, in lower case, is one of the lines that are no part of a
/// description.
pub fn junk(s: &str) -> (r: bool)
    ensures
        r == is_junk(s@),
{
    same_str(s, "hdtv") || same_str(s, "hd") || same_str(s, "sd") || same_str(s, "zvukový popis")
        || same_str(s, "zvukovy popis") || same_str(s, "audio description") || same_str(
        s,
        "skryté titulky",
    ) || same_str(s, "skryte titulky") || same_str(s, "teletext") || same_str(s, "stereo")
        || same_str(s, "mono") || same_str(s, "dolby digital") || same_str(s, "5.1") || same_str(
        s,
        "širokoúhlý",
    ) || same_str(s, "sirokouhly") || same_str(s, "širokoúhlé") || same_str(s, "16:9")
        || same_str(s, "4:3") || same_str(s, "premiéra") || same_str(s, "premiera") || same_str(
        s,
        "repríza",
    ) || same_str(s, "repriza")
}

/// The first line from `from` on that is junk, by the lower case of the lines.
pub open spec fn head_end(lowered: Seq<Seq<char>>, from: int) -> int
    decreases lowered.len() - from,
{
    if from >= lowered.len() || is_junk(lowered[from]) {
        from
    } else {
        head_end(lowered, from + 1)
    }
}

/// The lines below `to` that are not empty, with spaces between them.
pub open spec fn spaced(ls: Seq<Seq<char>>, to: int) -> Seq<char>
    decreases to,
{
    if to <= 0 {
        Seq::empty()
    } else if ls[to - 1].len() == 0 {
        spaced(ls, to - 1)
    } else if spaced(ls, to - 1).len() == 0 {
        ls[to - 1]
    } else {
        spaced(ls, to - 1).push(' ') + ls[to - 1]
    }
}

/// The part of a description before the first junk line, on one line. `ls`
/// are its lines, trimmed, and `lowered` the same in lower case.
pub open spec fn head_text(ls: Seq<Seq<char>>, lowered: Seq<Seq<char>>) -> Seq<char> {
    spaced(ls, head_end(lowered, 0))
}

/// The trimmed lines of a text.
pub open spec fn trimmed_lines(s: Seq<char>) -> Seq<Seq<char>> {
    lines(s).map_values(|l: Seq<char>| trim(l))
}

/// Some lines in lower case.
pub open spec fn lowered_lines(ls: Seq<Seq<char>>) -> Seq<Seq<char>> {
    ls.map_values(|l: Seq<char>| lowercase_of(l))
}

/// A summary and what continues it, with a space between them; either can be
/// missing, which an empty text stands for.
pub open spec fn synopsis_text(summary: Seq<char>, head: Seq<char>) -> Option<Seq<char>> {
    if summary.len() > 0 && head.len() > 0 {
        Some(summary.push(' ') + head)
    } else if summary.len() > 0 {
        Some(summary)
    } else if head.len() > 0 {
        Some(head)
    } else {
        None
    }
}

/// The summary of an event, trimmed.
pub open spec fn summary_of(e: EpgEvent) -> Seq<char> {
    match e.summary {
        Some(s) => trim(s@),
        None => Seq::empty(),
    }
}

/// The part of an event's description before the first junk line.
pub open spec fn continuation_of(e: EpgEvent) -> Seq<char> {
    match e.description {
        Some(d) => head_text(trimmed_lines(d@), lowered_lines(trimmed_lines(d@))),
        None => Seq::empty(),
    }
}

/// The part of a description before the first junk line, on one line.
pub fn description_head(ls: &Vec<String>, lowered: &Vec<String>) -> (r: String)
    requires
        ls@.len() == lowered@.len(),
    ensures
        r@ == head_text(string_views(ls@), string_views(lowered@)),
{
    let ghost v = string_views(ls@);
    let ghost w = string_views(lowered@);
    let n: usize = ls.len();
    let mut out = String::new();
    let mut i: usize = 0;
    while i < n && !junk(lowered[i].as_str())
        invariant
            n == ls@.len(),
            ls@.len() == lowered@.len(),
            v == string_views(ls@),
            w == string_views(lowered@),
            i <= n,
            head_end(w, 0) == head_end(w, i as int),
            out@ == spaced(v, i as int),
        decreases n - i,
    {
        proof {
            assert(v[i as int] == ls@[i as int]@);
            assert(w[i as int] == lowered@[i as int]@);
        }
        if !ls[i].as_str().is_empty() {
            if !out.as_str().is_empty() {
                out.push(' ');
                out.append(ls[i].as_str());
            } else {
                out = ls[i].clone();
            }
        }
        i = i + 1;
    }
    proof {
        if i < n {
            assert(w[i as int] == lowered@[i as int]@);
        }
    }
    out
}

/// A summary and what continues it.
pub fn join_synopsis(summary: String, head: String) -> (r: Option<String>)
    ensures
        opt_view(r) == synopsis_text(summary@, head@),
{
    if summary.as_str().is_empty() {
        if head.as_str().is_empty() {
            None
        } else {
            Some(head)
        }
    } else if head.as_str().is_empty() {
        Some(summary)
    } else {
        let mut out = summary;
        out.push(' ');
        out.append(head.as_str());
        Some(out)
    }
}

/// The best synopsis that can be put together for an event.
///
/// The summary is often cut off in the middle of a sentence by the
/// broadcaster. The start of the description is then the rest of that
/// sentence, so the two are joined. Some guides go on with a block of
/// technical flags, and sometimes with a second synopsis after that: what
/// follows the first such line is left out.
pub fn synopsis(ev: &EpgEvent) -> (r: Option<String>)
    ensures
        opt_view(r) == synopsis_text(summary_of(*ev), continuation_of(*ev)),
{
    let summary = match &ev.summary {
        Some(s) => trimmed_str(s.as_str()),
        None => String::new(),
    };
    let head = match &ev.description {
        Some(d) => {
            let text = chars_of(d.as_str());
            let raw = split_lines(text.as_slice());
            let ghost v = slice_views(raw@);
            let mut ls: Vec<String> = Vec::new();
            let mut lowered: Vec<String> = Vec::new();
            let n: usize = raw.len();
            for i in 0..n
                invariant
                    n == raw@.len(),
                    v == slice_views(raw@),
                    v == lines(d@),
                    string_views(ls@) == trimmed_lines(d@).take(i as int),
                    string_views(lowered@) == lowered_lines(trimmed_lines(d@)).take(i as int),
            {
                let line = string_of(trimmed(raw[i]));
                let ghost before = ls@;
                let ghost lowered_before = lowered@;
                let lower = line.as_str().to_lowercase();
                lowered.push(lower);
                ls.push(line);
                proof {
                    assert(v[i as int] == raw@[i as int]@);
                    assert(string_views(ls@) =~= string_views(before).push(line@));
                    assert(string_views(lowered@) =~= string_views(lowered_before).push(lower@));
                    assert(string_views(ls@) =~= trimmed_lines(d@).take(i + 1));
                    assert(string_views(lowered@) =~= lowered_lines(trimmed_lines(d@)).take(i + 1));
                }
            }
            proof {
                assert(trimmed_lines(d@).take(n as int) =~= trimmed_lines(d@));
                assert(lowered_lines(trimmed_lines(d@)).take(n as int) =~= lowered_lines(
                    trimmed_lines(d@),
                ));
                assert(string_views(ls@).len() == ls@.len());
                assert(string_views(lowered@).len() == lowered@.len());
            }
            description_head(&ls, &lowered)
        },
        None => String::new(),
    };
    join_synopsis(summary, head)
}

// ---- times --------------------------------------------------------------

/// A number below a hundred in two digits.
pub open spec fn two_digits(n: int) -> Seq<char> {
    fixed_digits(n as nat, 10, 2)
}

/// What a clock `offset` seconds ahead of UTC shows at a time, as `HH:MM`. A
/// time too far from now to be a date shows nothing.
pub open spec fn clock_text(unix: int, offset: int) -> Seq<char> {
    if FIRST_SECOND <= unix <= LAST_SECOND {
        two_digits((unix + offset) % 86400 / 3600).push(':') + two_digits(
            (unix + offset) % 3600 / 60,
        )
    } else {
        Seq::empty()
    }
}

/// A time as `HH:MM`, `offset` seconds ahead of UTC.
pub fn format_time(unix: i64, offset: i32) -> (r: String)
    requires
        -86400 < offset < 86400,
    ensures
        r@ == clock_text(unix as int, offset as int),
{
    let mut out = String::new();
    match clock(unix, offset) {
        Some((hour, minute)) => {
            push_fixed(&mut out, hour as u64, 10, 2);
            out.push(':');
            push_fixed(&mut out, minute as u64, 10, 2);
            proof {
                assert(out@ =~= clock_text(unix as int, offset as int));
            }
        },
        None => {},
    }
    out
}

/// How many seconds the clocks are ahead of UTC when something starts and when
/// it stops: they may be set forward or back in between.
#[derive(Debug, Clone, Copy, PartialEq, Eq, Structural)]
pub struct Offsets {
    pub start: i32,
    pub stop: i32,
}

impl Offsets {
    /// Clocks are less than a day ahead of UTC or behind it.
    pub open spec fn valid(self) -> bool {
        -86400 < self.start < 86400 && -86400 < self.stop < 86400
    }
}

/// When something starts and stops, as `HH:MM–HH:MM`.
pub open spec fn span_text(start: int, stop: int, offsets: Offsets) -> Seq<char> {
    clock_text(start, offsets.start as int) + "–"@ + clock_text(stop, offsets.stop as int)
}

/// When something starts and stops, as `HH:MM–HH:MM`.
pub fn format_span(start: i64, stop: i64, offsets: Offsets) -> (r: String)
    requires
        offsets.valid(),
    ensures
        r@ == span_text(start as int, stop as int, offsets),
{
    let mut out = format_time(start, offsets.start);
    out.append("–");
    out.append(format_time(stop, offsets.stop).as_str());
    out
}

// ---- the download of the guide ------------------------------------------

/// Rows per page: few enough that a slow server answers in time, and enough
/// that a big guide does not need hundreds of requests.
pub const PAGE_SIZE: usize = 4000;

/// After how many seconds the request for a page times out.
pub const PAGE_TIMEOUT_SECS: u64 = 60;

/// One progress update: everything fetched so far, not just the last page,
/// and how much that is of the total. `loaded == total` means that the list is
/// complete.
#[derive(Debug)]
pub struct EpgProgress {
    pub events: Vec<EpgEvent>,
    pub loaded: usize,
    pub total: usize,
}

/// A list of events with the same events.
pub fn clone_events(events: &Vec<EpgEvent>) -> (r: Vec<EpgEvent>)
    ensures
        r@ == events@,
{
    let mut out: Vec<EpgEvent> = Vec::new();
    let n: usize = events.len();
    for i in 0..n
        invariant
            n == events@.len(),
            out@ == events@.take(i as int),
    {
        out.push(events[i].clone());
    }
    proof {
        assert(events@.take(n as int) =~= events@);
    }
    out
}

/// The contents of an update.
pub struct ProgressView {
    pub events: Seq<EpgEvent>,
    pub loaded: int,
    pub total: int,
}

impl View for EpgProgress {
    type V = ProgressView;

    open spec fn view(&self) -> ProgressView {
        ProgressView {
            events: self.events@,
            loaded: self.loaded as int,
            total: self.total as int,
        }
    }
}

impl EpgProgress {
    /// The update for a guide that was kept on disk: it is complete.
    pub fn cached(events: Vec<EpgEvent>) -> (r: Self)
        ensures
            r.events@ == events@,
            r.loaded == events@.len(),
            r.total == events@.len(),
    {
        let loaded: usize = events.len();
        EpgProgress { events, loaded, total: loaded }
    }
}

/// The download of a guide: the row that the next page starts at, the events
/// that have arrived, whether the last page has, and whether a page could not
/// be had.
#[derive(Debug)]
pub struct EpgSync {
    offset: usize,
    events: Vec<EpgEvent>,
    done: bool,
    failed: bool,
}

/// What is to be done next for a download.
#[derive(Debug, Clone, Copy, PartialEq, Eq, Structural)]
pub enum SyncStep {
    /// To ask for the page of `limit` rows from the row `start` on.
    Ask { start: usize, limit: usize },
    /// To keep the events on disk: the download is complete.
    Save,
    /// Nothing: the download failed, and what is on disk stays there.
    Stop,
}

/// Where a download is.
pub struct SyncView {
    pub offset: int,
    pub events: Seq<EpgEvent>,
    pub done: bool,
    pub failed: bool,
}

/// A page: its number of rows, the usable events among them, and how many rows
/// the server has in all.
pub struct PageView {
    pub rows: int,
    pub events: Seq<EpgEvent>,
    pub total: int,
}

/// The reply to a request for a page: the page, or what the user is told of an
/// error.
pub open spec fn page_reply(reply: Result<(Vec<EpgEvent>, usize), TvhError>) -> Result<
    PageView,
    Seq<char>,
> {
    match reply {
        Ok((rows, total)) => Ok(
            PageView { rows: rows@.len() as int, events: placeable(rows@), total: total as int },
        ),
        Err(e) => Err(error_message(e@)),
    }
}

/// The contents of an update, where there is one.
pub open spec fn update_view(u: Option<Result<EpgProgress, String>>) -> Option<
    Result<ProgressView, Seq<char>>,
> {
    match u {
        Some(Ok(p)) => Some(Ok(p@)),
        Some(Err(e)) => Some(Err(e@)),
        None => None,
    }
}

impl View for EpgSync {
    type V = SyncView;

    closed spec fn view(&self) -> SyncView {
        SyncView {
            offset: self.offset as int,
            events: self.events@,
            done: self.done,
            failed: self.failed,
        }
    }
}

impl SyncView {
    /// A download at its start.
    pub open spec fn start() -> SyncView {
        SyncView { offset: 0, events: Seq::empty(), done: false, failed: false }
    }

    /// Whether no page is asked for any more.
    pub open spec fn over(self) -> bool {
        self.done || self.failed
    }

    /// What is to be done next.
    pub open spec fn step(self) -> SyncStep {
        if self.failed {
            SyncStep::Stop
        } else if self.done {
            SyncStep::Save
        } else {
            SyncStep::Ask { start: self.offset as usize, limit: PAGE_SIZE }
        }
    }

    /// After a page of `rows` rows of which `page` are usable events, where the
    /// server has `total` rows. A short page is the last one, and so is the
    /// one that reaches the total.
    pub open spec fn after(self, rows: int, page: Seq<EpgEvent>, total: int) -> SyncView {
        let done = rows < PAGE_SIZE || self.offset + rows >= total;
        SyncView {
            offset: if done {
                self.offset
            } else {
                self.offset + rows
            },
            events: self.events + page,
            done,
            failed: self.failed,
        }
    }

    /// After the reply to a request for a page.
    pub open spec fn on(self, reply: Result<PageView, Seq<char>>) -> SyncView {
        if self.over() {
            self
        } else {
            match reply {
                Ok(p) => self.after(p.rows, p.events, p.total),
                Err(_) => SyncView { failed: true, ..self },
            }
        }
    }

    /// What the user is shown for a reply: all events so far, or the error.
    pub open spec fn update(self, reply: Result<PageView, Seq<char>>) -> Option<
        Result<ProgressView, Seq<char>>,
    > {
        if self.over() {
            None
        } else {
            match reply {
                Ok(p) => {
                    let s = self.on(reply);
                    Some(
                        Ok(
                            ProgressView {
                                events: s.events,
                                loaded: s.events.len() as int,
                                total: if s.done {
                                    s.events.len() as int
                                } else {
                                    p.total
                                },
                            },
                        ),
                    )
                },
                Err(e) => Some(Err(e)),
            }
        }
    }

    /// No more events have arrived than rows were asked for.
    pub open spec fn in_step(self) -> bool {
        self.done || self.events.len() <= self.offset
    }
}

impl EpgSync {
    #[verifier::type_invariant]
    spec fn inv(self) -> bool {
        self@.in_step()
    }

    /// A download at its start.
    pub fn new() -> (r: Self)
        ensures
            r@ == SyncView::start(),
    {
        EpgSync { offset: 0, events: Vec::new(), done: false, failed: false }
    }

    /// What is to be done next: the pages are asked for one after another until
    /// one fails, and only a complete guide is kept on disk.
    pub fn next(&self) -> (r: SyncStep)
        ensures
            r == self@.step(),
    {
        if self.failed {
            SyncStep::Stop
        } else if self.done {
            SyncStep::Save
        } else {
            SyncStep::Ask { start: self.offset, limit: PAGE_SIZE }
        }
    }

    /// The events that have arrived.
    pub fn events(&self) -> (r: &Vec<EpgEvent>)
        ensures
            r@ == self@.events,
    {
        &self.events
    }

    /// Takes in a page of `rows` rows, of which `page` are the usable events,
    /// where the server has `total` rows, and tells what there is to show.
    pub fn add_page(&mut self, rows: usize, page: Vec<EpgEvent>, total: usize) -> (r: EpgProgress)
        requires
            !old(self)@.over(),
            page@.len() <= rows,
        ensures
            final(self)@ == old(self)@.after(rows as int, page@, total as int),
            r.events@ == final(self)@.events,
            r.loaded == r.events@.len(),
            r.total == if final(self)@.done {
                r.loaded
            } else {
                total
            },
            r.loaded == r.total <==> final(self)@.done,
            r.loaded <= r.total,
    {
        proof {
            use_type_invariant(&*self);
        }
        let done: bool = rows < PAGE_SIZE || self.offset >= total || total - self.offset <= rows;
        let offset: usize = if done {
            self.offset
        } else {
            self.offset + rows
        };
        let ghost before = self.events@;
        let ghost added = page@;
        let mut events = clone_events(&self.events);
        for event in it: page
            invariant
                it.seq() == added,
                events@ == before + added.take(it.index() as int),
        {
            events.push(event);
            proof {
                assert(events@ =~= before + added.take(it.index() + 1));
            }
        }
        proof {
            assert(added.take(added.len() as int) =~= added);
        }
        let shown = clone_events(&events);
        let loaded: usize = events.len();
        *self = EpgSync { offset, events, done, failed: false };
        EpgProgress {
            events: shown,
            loaded,
            total: if done {
                loaded
            } else {
                total
            },
        }
    }

    /// Takes in the reply to a request for a page, with all the rows of the
    /// page and the server's total, and tells what the user is shown. After an
    /// error, and after the last page, a reply changes nothing.
    pub fn on_reply(&mut self, reply: Result<(Vec<EpgEvent>, usize), TvhError>) -> (r: Option<
        Result<EpgProgress, String>,
    >)
        ensures
            final(self)@ == old(self)@.on(page_reply(reply)),
            update_view(r) == old(self)@.update(page_reply(reply)),
    {
        proof {
            use_type_invariant(&*self);
        }
        if self.done || self.failed {
            return None;
        }
        match reply {
            Ok((rows, total)) => {
                let count: usize = rows.len();
                let page = usable_events(rows);
                Some(Ok(self.add_page(count, page, total)))
            },
            Err(e) => {
                self.failed = true;
                Some(Err(e.message()))
            },
        }
    }
}

// ---- laws ---------------------------------------------------------------

/// Lines behind the first junk line do not change where it is.
proof fn lemma_head_end(ls: Seq<Seq<char>>, more: Seq<Seq<char>>, from: int, junk: int)
    requires
        0 <= from <= junk < ls.len(),
        is_junk(ls[junk]),
    ensures
        head_end(ls + more, from) == head_end(ls, from),
        head_end(ls, from) <= junk,
    decreases junk - from,
{
    if !is_junk(ls[from]) {
        lemma_head_end(ls, more, from + 1, junk);
    }
}

/// Lines behind some others do not change how those are put together.
proof fn lemma_spaced(ls: Seq<Seq<char>>, more: Seq<Seq<char>>, to: int)
    requires
        to <= ls.len(),
    ensures
        spaced(ls + more, to) == spaced(ls, to),
    decreases to,
{
    if to > 0 {
        lemma_spaced(ls, more, to - 1);
    }
}

/// Whether a text has a junk line.
pub open spec fn has_junk(text: Seq<char>) -> bool {
    exists|i: int|
        0 <= i < lines(text).len() && is_junk(lowercase_of(trim(#[trigger] lines(text)[i])))
}

/// What follows a junk line in a description changes nothing of the part before
/// it.
proof fn lemma_text_after_junk(text: Seq<char>, more: Seq<char>)
    requires
        text.len() > 0,
        text.last() == '\n',
        has_junk(text),
    ensures
        head_text(trimmed_lines(text + more), lowered_lines(trimmed_lines(text + more)))
            == head_text(trimmed_lines(text), lowered_lines(trimmed_lines(text))),
{
    lemma_lines_append(text, more);
    let (a, b) = (trimmed_lines(text), trimmed_lines(more));
    let (c, d) = (lowered_lines(a), lowered_lines(b));
    let i = choose|i: int|
        0 <= i < lines(text).len() && is_junk(lowercase_of(trim(#[trigger] lines(text)[i])));
    assert(trimmed_lines(text + more) =~= a + b);
    assert(lowered_lines(a + b) =~= c + d);
    assert(c[i] == lowercase_of(trim(lines(text)[i])));
    lemma_head_end(c, d, 0, i);
    lemma_spaced(a, b, head_end(c, 0));
}

/// What follows the first junk line of a description never changes the
/// synopsis: two events with the same summary, whose descriptions are the same
/// up to and with a junk line, have the same synopsis.
pub proof fn law_text_after_junk(
    one: EpgEvent,
    other: EpgEvent,
    text: Seq<char>,
    more: Seq<char>,
    less: Seq<char>,
)
    requires
        summary_of(one) == summary_of(other),
        opt_view(one.description) == Some(text + more),
        opt_view(other.description) == Some(text + less),
        text.len() > 0,
        text.last() == '\n',
        has_junk(text),
    ensures
        synopsis_text(summary_of(one), continuation_of(one)) == synopsis_text(
            summary_of(other),
            continuation_of(other),
        ),
{
    lemma_text_after_junk(text, more);
    lemma_text_after_junk(text, less);
}

/// The events of a channel, as they are grouped, are exactly its events, each
/// as often as it is in the guide, and their starts do not decrease.
pub proof fn law_grouped(events: Seq<EpgEvent>, uuid: Seq<char>)
    ensures
        ascending(sorted(of_channel(events, uuid))),
        sorted(of_channel(events, uuid)).to_multiset() == of_channel(events, uuid).to_multiset(),
        forall|e: EpgEvent| #[trigger]
            sorted(of_channel(events, uuid)).contains(e) <==> events.contains(e) && e.channel_uuid@
                == uuid,
{
    let own = of_channel(events, uuid);
    law_sorted(own);
    assert forall|e: EpgEvent| #[trigger]
        sorted(own).contains(e) <==> events.contains(e) && e.channel_uuid@ == uuid by {
        sorted(own).to_multiset_ensures();
        own.to_multiset_ensures();
        lemma_filter_contains(events, airs_on(uuid), e);
        assert(sorted(own).contains(e) <==> sorted(own).to_multiset().count(e) > 0);
        assert(own.contains(e) <==> own.to_multiset().count(e) > 0);
    }
}

/// What `first_on_air` finds is on, and nothing before it is.
proof fn lemma_first_on_air(events: Seq<EpgEvent>, now: int, from: int)
    requires
        0 <= from,
    ensures
        first_on_air(events, now, from) matches Some(i) ==> from <= i < events.len() && on_air(
            events[i],
            now,
        ),
        first_on_air(events, now, from) is None ==> forall|j: int|
            from <= j < events.len() ==> !on_air(#[trigger] events[j], now),
    decreases events.len() - from,
{
    if from < events.len() && !on_air(events[from], now) {
        lemma_first_on_air(events, now, from + 1);
    }
}

/// What `first_starting` finds is yet to start, and everything before it has.
proof fn lemma_first_starting(events: Seq<EpgEvent>, now: int, from: int)
    requires
        0 <= from,
    ensures
        first_starting(events, now, from) matches Some(i) ==> from <= i < events.len()
            && events[i].start >= now,
        first_starting(events, now, from) matches Some(i) ==> forall|j: int|
            from <= j < i ==> (#[trigger] events[j]).start < now,
        first_starting(events, now, from) is None ==> forall|j: int|
            from <= j < events.len() ==> (#[trigger] events[j]).start < now,
    decreases events.len() - from,
{
    if from < events.len() && events[from].start < now {
        lemma_first_starting(events, now, from + 1);
    }
}

/// In a schedule sorted by start, the event found is on, the next one does not
/// start before it, and in a gap the next one is the earliest of those that
/// are yet to start.
pub proof fn law_now_and_next(events: Seq<EpgEvent>, now: int)
    requires
        ascending(events),
    ensures
        now_and_next(events, now).0 matches Some(i) ==> 0 <= i < events.len() && on_air(
            events[i],
            now,
        ),
        now_and_next(events, now).0 is None ==> forall|j: int|
            0 <= j < events.len() ==> !on_air(#[trigger] events[j], now),
        now_and_next(events, now).0 matches Some(i) ==> (now_and_next(events, now).1 matches Some(
            n,
        ) ==> 0 <= n < events.len() && events[i].start <= events[n].start),
        now_and_next(events, now).0 is None ==> (now_and_next(events, now).1 matches Some(n) ==> 0
            <= n < events.len() && events[n].start >= now && forall|j: int|
            0 <= j < events.len() && (#[trigger] events[j]).start >= now ==> events[n].start
                <= events[j].start),
        now_and_next(events, now).0 is None && now_and_next(events, now).1 is None ==> forall|
            j: int,
        |
            0 <= j < events.len() ==> (#[trigger] events[j]).start < now,
{
    lemma_first_on_air(events, now, 0);
    lemma_first_starting(events, now, 0);
    assert forall|i: int, j: int| 0 <= i <= j < events.len() implies events[i].start
        <= events[j].start by {
        assert(events[i].key() <= events[j].key());
    }
}

/// A download after some replies.
pub open spec fn after_replies(replies: Seq<Result<PageView, Seq<char>>>) -> SyncView
    decreases replies.len(),
{
    if replies.len() == 0 {
        SyncView::start()
    } else {
        after_replies(replies.drop_last()).on(replies.last())
    }
}

/// What the user is shown for some replies, one after another.
pub open spec fn updates(replies: Seq<Result<PageView, Seq<char>>>) -> Seq<
    Result<ProgressView, Seq<char>>,
>
    decreases replies.len(),
{
    if replies.len() == 0 {
        Seq::empty()
    } else {
        let before = updates(replies.drop_last());
        match after_replies(replies.drop_last()).update(replies.last()) {
            Some(u) => before.push(u),
            None => before,
        }
    }
}

/// All events of some replies.
pub open spec fn all_events(replies: Seq<Result<PageView, Seq<char>>>) -> Seq<EpgEvent>
    decreases replies.len(),
{
    if replies.len() == 0 {
        Seq::empty()
    } else {
        match replies.last() {
            Ok(p) => all_events(replies.drop_last()) + p.events,
            Err(_) => all_events(replies.drop_last()),
        }
    }
}

/// All rows of some replies.
pub open spec fn all_rows(replies: Seq<Result<PageView, Seq<char>>>) -> int
    decreases replies.len(),
{
    if replies.len() == 0 {
        0
    } else {
        match replies.last() {
            Ok(p) => all_rows(replies.drop_last()) + p.rows,
            Err(_) => all_rows(replies.drop_last()),
        }
    }
}

/// A download that goes on holds the events of all its pages, and asks next for
/// the row behind the last one that it got, so that none is skipped and none
/// comes twice.
pub proof fn law_no_row_is_skipped(replies: Seq<Result<PageView, Seq<char>>>)
    requires
        !after_replies(replies).over(),
    ensures
        after_replies(replies).events == all_events(replies),
        after_replies(replies).offset == all_rows(replies),
    decreases replies.len(),
{
    if replies.len() > 0 {
        law_no_row_is_skipped(replies.drop_last());
    }
}

/// A download ends with the page that is short or that reaches the total.
pub proof fn law_ends_with_last_page(replies: Seq<Result<PageView, Seq<char>>>)
    requires
        replies.len() > 0,
        !after_replies(replies.drop_last()).over(),
        replies.last() is Ok,
    ensures
        after_replies(replies).done <==> replies.last()->Ok_0.rows < PAGE_SIZE || all_rows(replies)
            >= replies.last()->Ok_0.total,
        after_replies(replies).events == all_events(replies),
{
    law_no_row_is_skipped(replies.drop_last());
}

/// Whether a page has at least as many rows as usable events.
pub open spec fn valid_reply(reply: Result<PageView, Seq<char>>) -> bool {
    reply matches Ok(p) ==> p.events.len() <= p.rows
}

/// Every page that a download takes in has at least as many rows as usable
/// events.
pub proof fn law_pages_are_valid(reply: Result<(Vec<EpgEvent>, usize), TvhError>)
    ensures
        valid_reply(page_reply(reply)),
{
    match reply {
        Ok((rows, _)) => lemma_placeable_len(rows@),
        Err(_) => {},
    }
}

/// Every update of a download holds as many events as it says, and no more than
/// the total; the two are equal for the last page and for no other. Each update
/// goes on where the one before it ended. An error is the last thing that the
/// user is shown, and then nothing is kept on disk; what is kept is what the
/// last update holds.
pub proof fn law_updates(replies: Seq<Result<PageView, Seq<char>>>)
    requires
        forall|i: int| 0 <= i < replies.len() ==> valid_reply(#[trigger] replies[i]),
    ensures
        forall|i: int|
            0 <= i < updates(replies).len() ==> (#[trigger] updates(replies)[i] matches Ok(p)
                ==> p.loaded == p.events.len() && p.loaded <= p.total),
        forall|i: int|
            0 <= i < updates(replies).len() ==> (#[trigger] updates(replies)[i] matches Ok(p) ==> (
            p.loaded == p.total <==> after_replies(replies).done && i == updates(replies).len()
                - 1)),
        forall|i: int, j: int|
            0 <= i <= j < updates(replies).len() && #[trigger] updates(replies)[i] is Ok
                && #[trigger] updates(replies)[j] is Ok
                ==> updates(replies)[i]->Ok_0.events.is_prefix_of(updates(replies)[j]->Ok_0.events),
        forall|i: int|
            0 <= i < updates(replies).len() ==> (#[trigger] updates(replies)[i] is Err ==> i
                == updates(replies).len() - 1 && after_replies(replies).step() == SyncStep::Stop),
        after_replies(replies).step() == SyncStep::Stop ==> updates(replies).len() > 0
            && updates(replies).last() is Err,
        after_replies(replies).step() == SyncStep::Save ==> updates(replies).len() > 0
            && updates(replies).last() is Ok && updates(replies).last()->Ok_0.events
            == after_replies(replies).events,
{
    lemma_updates(replies);
}

/// The law, with what its proof carries from one reply to the next.
proof fn lemma_updates(replies: Seq<Result<PageView, Seq<char>>>)
    requires
        forall|i: int| 0 <= i < replies.len() ==> valid_reply(#[trigger] replies[i]),
    ensures
        after_replies(replies).in_step(),
        !(after_replies(replies).done && after_replies(replies).failed),
        after_replies(replies).over() ==> updates(replies).len() > 0,
        updates(replies).len() > 0 ==> (updates(replies).last() is Err
            <==> after_replies(replies).failed),
        updates(replies).len() > 0 && updates(replies).last() is Ok
            ==> updates(replies).last()->Ok_0.events == after_replies(replies).events,
        forall|i: int|
            0 <= i < updates(replies).len() ==> (#[trigger] updates(replies)[i] matches Ok(p)
                ==> p.loaded == p.events.len() && p.loaded <= p.total
                && p.events.is_prefix_of(after_replies(replies).events) && (p.loaded == p.total
                <==> after_replies(replies).done && i == updates(replies).len() - 1)),
        forall|i: int|
            0 <= i < updates(replies).len() ==> (#[trigger] updates(replies)[i] is Err ==> i
                == updates(replies).len() - 1),
        forall|i: int, j: int|
            0 <= i <= j < updates(replies).len() && #[trigger] updates(replies)[i] is Ok
                && #[trigger] updates(replies)[j] is Ok
                ==> updates(replies)[i]->Ok_0.events.is_prefix_of(updates(replies)[j]->Ok_0.events),
    decreases replies.len(),
{
    if replies.len() > 0 {
        let before = replies.drop_last();
        lemma_updates(before);
        assert(valid_reply(replies[replies.len() - 1]));
        let s = after_replies(before);
        if !s.over() {
            assert(updates(replies).drop_last() =~= updates(before));
        }
    }
}

/// Once a download is over, whether with its last page or with an error, no
/// reply changes it or is shown.
pub proof fn law_over_is_over(
    replies: Seq<Result<PageView, Seq<char>>>,
    late: Result<PageView, Seq<char>>,
)
    requires
        after_replies(replies).over(),
    ensures
        after_replies(replies.push(late)) == after_replies(replies),
        updates(replies.push(late)) == updates(replies),
{
    assert(replies.push(late).drop_last() =~= replies);
}

/// What is on is told by the times of the events alone. If any event has
/// started and not stopped, the first such event is on, and the next one is
/// that right behind it in the list. Otherwise nothing is on, and the next one
/// is the first in the list that is yet to start.
pub proof fn law_what_is_on(events: Seq<EpgEvent>, now: int, j: int)
    ensures
        0 <= j < events.len() && events[j].start <= now && now < events[j].stop && (forall|i: int|
            0 <= i < j ==> !((#[trigger] events[i]).start <= now && now < events[i].stop))
            ==> now_and_next(events, now).0 == Some(j) && now_and_next(events, now).1 == if j + 1
            < events.len() {
            Some(j + 1)
        } else {
            None
        },
        (forall|i: int|
            0 <= i < events.len() ==> !((#[trigger] events[i]).start <= now && now
                < events[i].stop)) ==> {
            &&& now_and_next(events, now).0 is None
            &&& 0 <= j < events.len() && events[j].start >= now && (forall|i: int|
                0 <= i < j ==> (#[trigger] events[i]).start < now) ==> now_and_next(events, now).1
                == Some(j)
            &&& (forall|i: int| 0 <= i < events.len() ==> (#[trigger] events[i]).start < now)
                ==> now_and_next(events, now).1 is None
        },
{
    lemma_on_air_at(events, now, 0, j);
    lemma_starting_at(events, now, 0, j);
}

/// The first event that has started and not stopped is the one that is on.
proof fn lemma_on_air_at(events: Seq<EpgEvent>, now: int, from: int, j: int)
    requires
        0 <= from,
    ensures
        from <= j < events.len() && events[j].start <= now && now < events[j].stop && (forall|i: int|
            from <= i < j ==> !((#[trigger] events[i]).start <= now && now < events[i].stop))
            ==> first_on_air(events, now, from) == Some(j),
        (forall|i: int|
            from <= i < events.len() ==> !((#[trigger] events[i]).start <= now && now
                < events[i].stop)) ==> first_on_air(events, now, from) is None,
    decreases events.len() - from,
{
    if from < events.len() && !(events[from].start <= now && now < events[from].stop) {
        lemma_on_air_at(events, now, from + 1, j);
    }
}

/// The first event that is yet to start is the one that is found.
proof fn lemma_starting_at(events: Seq<EpgEvent>, now: int, from: int, j: int)
    requires
        0 <= from,
    ensures
        from <= j < events.len() && events[j].start >= now && (forall|i: int|
            from <= i < j ==> (#[trigger] events[i]).start < now) ==> first_starting(
            events,
            now,
            from,
        ) == Some(j),
        (forall|i: int| from <= i < events.len() ==> (#[trigger] events[i]).start < now)
            ==> first_starting(events, now, from) is None,
    decreases events.len() - from,
{
    if from < events.len() && events[from].start < now {
        lemma_starting_at(events, now, from + 1, j);
    }
}

/// The events of a channel come in the order of their starts, and those that
/// start together in the order in which the server listed them.
pub proof fn law_schedule_order(events: Seq<EpgEvent>, uuid: Seq<char>, i: int, j: int)
    requires
        0 <= i <= j < sorted(of_channel(events, uuid)).len(),
    ensures
        sorted(of_channel(events, uuid))[i].start <= sorted(of_channel(events, uuid))[j].start,
        sorted(of_channel(events, uuid))[i].channel_uuid@ == uuid,
        events.contains(sorted(of_channel(events, uuid))[i]),
        forall|t: i64|
            #![trigger with_start(sorted(of_channel(events, uuid)), t)]
            with_start(sorted(of_channel(events, uuid)), t) == with_start(
                of_channel(events, uuid),
                t,
            ),
{
    let own = of_channel(events, uuid);
    let s = sorted(own);
    law_grouped(events, uuid);
    assert(s[i].key() <= s[j].key());
    assert(s.contains(s[i]));
    assert forall|t: i64|
        #![trigger with_start(s, t)]
        with_start(s, t) == with_start(own, t) by {
        law_stable(own, t as int);
        lemma_with_start(s, t);
        lemma_with_start(own, t);
    }
}

/// The events of a list that start at a time, in their order.
pub open spec fn with_start(events: Seq<EpgEvent>, t: i64) -> Seq<EpgEvent> {
    events.filter(|e: EpgEvent| e.start == t)
}

/// The start is what events are sorted by.
proof fn lemma_with_start(events: Seq<EpgEvent>, t: i64)
    ensures
        with_start(events, t) == with_key(events, t as int),
    decreases events.len(),
{
    reveal(Seq::filter);
    if events.len() > 0 {
        lemma_with_start(events.drop_last(), t);
    }
}

/// An event has made no progress until it starts, and has got to its end once
/// it stops; in between it has got as far as the seconds since its start. Its
/// length is that between its start and stop, but a second at least.
pub proof fn law_progress(start: int, stop: int, now: int)
    ensures
        stop > start ==> progress_view(start, stop, now).1 == stop - start,
        stop <= start ==> progress_view(start, stop, now).1 == 1,
        now <= start ==> progress_view(start, stop, now).0 == 0,
        start <= now <= stop && start < stop ==> progress_view(start, stop, now).0 == now - start,
        now >= stop && now > start ==> progress_view(start, stop, now).0 == progress_view(
            start,
            stop,
            now,
        ).1,
{
}

/// The lines that are no part of a description.
#[verifier::rlimit(50)]
pub proof fn law_junk(s: Seq<char>)
    ensures
        is_junk(s) <==> seq![
            "hdtv"@,
            "hd"@,
            "sd"@,
            "zvukový popis"@,
            "zvukovy popis"@,
            "audio description"@,
            "skryté titulky"@,
            "skryte titulky"@,
            "teletext"@,
            "stereo"@,
            "mono"@,
            "dolby digital"@,
            "5.1"@,
            "širokoúhlý"@,
            "sirokouhly"@,
            "širokoúhlé"@,
            "16:9"@,
            "4:3"@,
            "premiéra"@,
            "premiera"@,
            "repríza"@,
            "repriza"@,
        ].contains(s),
{
    let all = seq![
        "hdtv"@,
        "hd"@,
        "sd"@,
        "zvukový popis"@,
        "zvukovy popis"@,
        "audio description"@,
        "skryté titulky"@,
        "skryte titulky"@,
        "teletext"@,
        "stereo"@,
        "mono"@,
        "dolby digital"@,
        "5.1"@,
        "širokoúhlý"@,
        "sirokouhly"@,
        "širokoúhlé"@,
        "16:9"@,
        "4:3"@,
        "premiéra"@,
        "premiera"@,
        "repríza"@,
        "repriza"@,
    ];
    assert(all.len() == 22);
    assert(all[0] == "hdtv"@ && all[1] == "hd"@ && all[2] == "sd"@ && all[3] == "zvukový popis"@
        && all[4] == "zvukovy popis"@ && all[5] == "audio description"@ && all[6]
        == "skryté titulky"@ && all[7] == "skryte titulky"@ && all[8] == "teletext"@ && all[9]
        == "stereo"@ && all[10] == "mono"@);
    assert(all[11] == "dolby digital"@ && all[12] == "5.1"@ && all[13] == "širokoúhlý"@ && all[14]
        == "sirokouhly"@ && all[15] == "širokoúhlé"@ && all[16] == "16:9"@ && all[17] == "4:3"@
        && all[18] == "premiéra"@ && all[19] == "premiera"@ && all[20] == "repríza"@ && all[21]
        == "repriza"@);
}

/// A synopsis is the summary and, with a space between them, the part of the
/// description that continues it; either alone where the other is missing, and
/// none where both are.
pub proof fn law_synopsis(summary: Seq<char>, head: Seq<char>, e: EpgEvent)
    ensures
        summary.len() == 0 && head.len() == 0 ==> synopsis_text(summary, head) is None,
        summary.len() > 0 && head.len() == 0 ==> synopsis_text(summary, head) == Some(summary),
        summary.len() == 0 && head.len() > 0 ==> synopsis_text(summary, head) == Some(head),
        summary.len() > 0 && head.len() > 0 ==> (synopsis_text(summary, head) matches Some(s)
            && s.len() == summary.len() + 1 + head.len() && s.take(summary.len() as int) == summary
            && s[summary.len() as int] == ' ' && s.skip(summary.len() as int + 1) == head),
        e.summary is None ==> summary_of(e).len() == 0,
        e.summary matches Some(s) ==> summary_of(e) == trim(s@),
        e.description is None ==> continuation_of(e).len() == 0,
        e.description matches Some(d) ==> continuation_of(e) == head_text(
            trimmed_lines(d@),
            lowered_lines(trimmed_lines(d@)),
        ),
{
    if summary.len() > 0 && head.len() > 0 {
        let s = summary.push(' ') + head;
        assert(s.take(summary.len() as int) =~= summary);
        assert(s.skip(summary.len() as int + 1) =~= head);
    }
}

/// The part of a description before its first junk line, from the text alone.
pub open spec fn described(text: Seq<char>) -> Seq<char> {
    head_text(trimmed_lines(text), lowered_lines(trimmed_lines(text)))
}

/// Each further line of a description without junk goes on its synopsis, with a
/// space before it; a blank line and a junk line add nothing.
#[verifier::rlimit(50)]
pub proof fn law_description(text: Seq<char>, line: Seq<char>)
    requires
        text.len() == 0 || text.last() == '\n',
        !has_junk(text),
        forall|i: int| 0 <= i < line.len() ==> #[trigger] line[i] != '\n',
        line.len() > 0,
    ensures
        described(Seq::<char>::empty()).len() == 0,
        is_junk(lowercase_of(trim(line))) || trim(line).len() == 0 ==> described(text + line)
            == described(text),
        !is_junk(lowercase_of(trim(line))) && trim(line).len() > 0 && described(text).len() == 0
            ==> described(text + line) == trim(line),
        !is_junk(lowercase_of(trim(line))) && trim(line).len() > 0 && described(text).len() > 0
            ==> described(text + line) == described(text) + seq![' '] + trim(line),
{
    law_lines(line, Seq::empty());
    assert(trimmed_lines(Seq::<char>::empty()) =~= Seq::<Seq<char>>::empty());
    if text.len() == 0 {
        assert(text + line =~= line);
        assert(lines(text) =~= Seq::<Seq<char>>::empty());
        assert(lines(text + line) =~= lines(text) + seq![line]);
    } else {
        lemma_lines_append(text, line);
    }
    let a = trimmed_lines(text);
    let b = trimmed_lines(text + line);
    let n = a.len() as int;
    assert(b =~= a.push(trim(line)));
    let c = lowered_lines(a);
    let d = lowered_lines(b);
    assert(d =~= c.push(lowercase_of(trim(line))));
    assert forall|i: int| 0 <= i < n implies !is_junk(#[trigger] c[i]) by {
        assert(c[i] == lowercase_of(trim(lines(text)[i])));
    }
    lemma_no_junk(c, c, 0);
    lemma_no_junk(d, c, 0);
    assert(a + seq![trim(line)] =~= b);
    lemma_spaced(a, seq![trim(line)], n);
    assert(spaced(b, n) == spaced(a, n));
    if is_junk(d[n]) {
        assert(head_end(d, n) == n);
    } else {
        assert(head_end(d, n) == head_end(d, n + 1));
        assert(head_end(d, n + 1) == n + 1);
        assert(b[n] == trim(line));
        assert(spaced(a, n).push(' ') + trim(line) =~= spaced(a, n) + seq![' '] + trim(line));
    }
}

/// Where no line is junk, nothing ends the description.
proof fn lemma_no_junk(ls: Seq<Seq<char>>, first: Seq<Seq<char>>, from: int)
    requires
        0 <= from <= first.len() <= ls.len(),
        forall|i: int| 0 <= i < first.len() ==> ls[i] == first[i],
        forall|i: int| from <= i < first.len() ==> !is_junk(#[trigger] first[i]),
    ensures
        head_end(ls, from) == head_end(ls, first.len() as int),
        ls.len() == first.len() ==> head_end(ls, from) == first.len(),
    decreases first.len() - from,
{
    if from < first.len() {
        assert(!is_junk(first[from]));
        lemma_no_junk(ls, first, from + 1);
    }
}

/// A clock shows the hour and the minute of its day in two digits each. `day`,
/// `hour`, `minute` and `second` are those of the clock.
pub proof fn law_clock(unix: int, offset: int, day: int, hour: int, minute: int, second: int)
    requires
        -8334601228800 <= unix <= 8210266876799,
        0 <= hour < 24,
        0 <= minute < 60,
        0 <= second < 60,
        unix + offset == 86400 * day + 3600 * hour + 60 * minute + second,
    ensures
        clock_text(unix, offset).len() == 5,
        clock_text(unix, offset)[0] as int == '0' as int + hour / 10,
        clock_text(unix, offset)[1] as int == '0' as int + hour % 10,
        clock_text(unix, offset)[2] == ':',
        clock_text(unix, offset)[3] as int == '0' as int + minute / 10,
        clock_text(unix, offset)[4] as int == '0' as int + minute % 10,
{
    lemma_clock(unix + offset, day, hour, minute, second);
    lemma_two_digits(hour);
    lemma_two_digits(minute);
}

proof fn lemma_clock(t: int, day: int, hour: int, minute: int, second: int)
    requires
        0 <= hour < 24,
        0 <= minute < 60,
        0 <= second < 60,
        t == 86400 * day + 3600 * hour + 60 * minute + second,
    ensures
        t % 86400 / 3600 == hour,
        t % 3600 / 60 == minute,
{
    let rest = 60 * minute + second;
    let of_day = 3600 * hour + rest;
    vstd::arithmetic::div_mod::lemma_fundamental_div_mod_converse(t, 86400, day, of_day);
    vstd::arithmetic::div_mod::lemma_fundamental_div_mod_converse(of_day, 3600, hour, rest);
    vstd::arithmetic::div_mod::lemma_fundamental_div_mod_converse(t, 3600, 24 * day + hour, rest);
    vstd::arithmetic::div_mod::lemma_fundamental_div_mod_converse(rest, 60, minute, second);
}

proof fn lemma_two_digits(n: int)
    requires
        0 <= n < 100,
    ensures
        two_digits(n).len() == 2,
        two_digits(n)[0] as int == '0' as int + n / 10,
        two_digits(n)[1] as int == '0' as int + n % 10,
{
    reveal_with_fuel(fixed_digits, 3);
    assert(two_digits(n) =~= seq![
        crate::numbers::digit_char((n / 10 % 10) as nat),
        crate::numbers::digit_char((n % 10) as nat),
    ]);
}

/// A span is told by the clock at its start and at its stop, with a dash
/// between them.
pub proof fn law_span(start: int, stop: int, offsets: Offsets)
    ensures
        ({
            let a = clock_text(start, offsets.start as int);
            let b = clock_text(stop, offsets.stop as int);
            let s = span_text(start, stop, offsets);
            &&& s.len() == a.len() + 1 + b.len()
            &&& s.take(a.len() as int) == a
            &&& s[a.len() as int] == '–'
            &&& s.skip(a.len() as int + 1) == b
        }),
{
    reveal_strlit("–");
    let a = clock_text(start, offsets.start as int);
    let b = clock_text(stop, offsets.stop as int);
    let s = span_text(start, stop, offsets);
    assert(s.take(a.len() as int) =~= a);
    assert(s.skip(a.len() as int + 1) =~= b);
}

/// Pages have 4000 rows. While a download goes on, the user is told the
/// server's total, and once it is complete, what has arrived.
pub proof fn law_told_total(s: SyncView, page: PageView)
    requires
        !s.done,
        !s.failed,
    ensures
        PAGE_SIZE == 4000,
        page.rows >= 4000 && s.offset + page.rows < page.total ==> s.update(Ok(page)) == Some(
            Ok::<ProgressView, Seq<char>>(
                ProgressView {
                    events: s.events + page.events,
                    loaded: (s.events.len() + page.events.len()) as int,
                    total: page.total,
                },
            ),
        ) && s.on(Ok(page)).step() == (SyncStep::Ask {
            start: (s.offset + page.rows) as usize,
            limit: 4000,
        }),
        !(page.rows >= 4000 && s.offset + page.rows < page.total) ==> s.update(Ok(page)) == Some(
            Ok::<ProgressView, Seq<char>>(
                ProgressView {
                    events: s.events + page.events,
                    loaded: (s.events.len() + page.events.len()) as int,
                    total: (s.events.len() + page.events.len()) as int,
                },
            ),
        ) && s.on(Ok(page)).step() == SyncStep::Save,
{
}

/// What is handed out for a place is the event there, and nothing for none.
pub proof fn law_event_at(events: Seq<EpgEvent>, i: int, e: &EpgEvent)
    ensures
        event_at(events, Some(i)) == Some(events[i]),
        event_at(events, None) is None,
        opt_event(Some(e)) == Some(*e),
        opt_event(None) is None,
{
}

/// A reply with a page counts all its rows, keeps the usable events among them,
/// and tells the server's total; any other tells why. What the user is shown
/// is what an update holds.
pub proof fn law_page_reply(
    rows: Vec<EpgEvent>,
    total: usize,
    e: TvhError,
    p: EpgProgress,
    s: String,
)
    ensures
        page_reply(Ok((rows, total))) matches Ok(page) && page.rows == rows@.len() && page.events
            == placeable(rows@) && page.total == total,
        page_reply(Err(e)) == Err::<PageView, Seq<char>>(error_message(e@)),
        p@.events == p.events@,
        p@.loaded == p.loaded,
        p@.total == p.total,
        update_view(None) is None,
        update_view(Some(Ok(p))) == Some(Ok::<ProgressView, Seq<char>>(p@)),
        update_view(Some(Err(s))) == Some(Err::<ProgressView, Seq<char>>(s@)),
        PAGE_TIMEOUT_SECS == 60,
{
}

/// The events of a channel are all that name it, in the order in which they are
/// listed, each as often as it is there.
pub proof fn law_of_channel(events: Seq<EpgEvent>, e: EpgEvent, uuid: Seq<char>)
    ensures
        of_channel(Seq::<EpgEvent>::empty(), uuid).len() == 0,
        e.channel_uuid@ == uuid ==> of_channel(events.push(e), uuid) == of_channel(
            events,
            uuid,
        ).push(e),
        e.channel_uuid@ != uuid ==> of_channel(events.push(e), uuid) == of_channel(events, uuid),
{
    reveal(Seq::filter);
    assert(events.push(e).drop_last() =~= events);
}

/// A time that is too far away to be a date is not told.
pub proof fn law_no_clock(unix: int, offset: int)
    requires
        unix < -8334601228800 || unix > 8210266876799,
    ensures
        clock_text(unix, offset).len() == 0,
{
}

} // verus!
