//! The recordings that are being downloaded to the user's folder.
use vstd::prelude::*;
use vstd::string::*;

use crate::playback::{event_views, DownloadEvent, EventView};
use crate::recordings::{human_size, size_text, DownloadUpdate, UpdateView};
use crate::text::{opt_view, owned, string_views};
use crate::text_map::TextMap;

verus! {

/// One running download.
#[derive(Debug, Clone, Copy, PartialEq, Eq, Structural)]
pub struct DownloadState {
    pub downloaded: u64,
    pub total: Option<u64>,
    pub paused: bool,
}

/// How a download ended.
pub enum Ended {
    /// Into this file.
    Done(Seq<char>),
    Cancelled,
    Failed(Seq<char>),
    /// Without a word.
    Lost,
}

/// How an event ends a download, if it does.
pub open spec fn ended_by(e: EventView) -> Option<Ended> {
    match e {
        EventView::Update(UpdateView::Progress { .. }) => None,
        EventView::Update(UpdateView::Done(path)) => Some(Ended::Done(path)),
        EventView::Update(UpdateView::Cancelled) => Some(Ended::Cancelled),
        EventView::Update(UpdateView::Error(e)) => Some(Ended::Failed(e)),
        EventView::Closed => Some(Ended::Lost),
    }
}

/// A download after one event.
pub open spec fn state_after(s: DownloadState, e: EventView) -> DownloadState {
    match e {
        EventView::Update(UpdateView::Progress { downloaded, total }) => DownloadState {
            downloaded,
            total,
            ..s
        },
        _ => s,
    }
}

/// A download after the events from `from` on, up to the one that ends it, and
/// how it ended.
pub open spec fn run(s: DownloadState, es: Seq<EventView>, from: int) -> (
    DownloadState,
    Option<Ended>,
)
    decreases es.len() - from,
{
    if from >= es.len() {
        (s, None)
    } else {
        match ended_by(es[from]) {
            Some(end) => (s, Some(end)),
            None => run(state_after(s, es[from]), es, from + 1),
        }
    }
}

/// What the user is told of the end of a download.
pub open spec fn end_message(end: Ended) -> Option<Seq<char>> {
    match end {
        Ended::Done(path) => Some("Staženo do "@ + path),
        Ended::Cancelled => Some("Stahování zrušeno."@),
        Ended::Failed(e) => Some("Stahování selhalo: "@ + e),
        Ended::Lost => None,
    }
}

/// The file to show to the user at the end of a download.
pub open spec fn end_file(end: Ended) -> Option<Seq<char>> {
    match end {
        Ended::Done(path) => Some(path),
        _ => None,
    }
}

/// What to do after some events of one download.
#[derive(Debug)]
pub struct DownloadOutcome {
    /// Whether the download has ended.
    pub ended: bool,
    /// What the user is told.
    pub message: Option<String>,
    /// The file to show to the user.
    pub open: Option<String>,
}

impl DownloadOutcome {
    /// What there is to do at an end.
    pub open spec fn fits(self, end: Option<Ended>) -> bool {
        match end {
            Some(e) => self.ended && opt_view(self.message) == end_message(e) && opt_view(
                self.open,
            ) == end_file(e),
            None => !self.ended && self.message is None && self.open is None,
        }
    }
}

impl DownloadState {
    /// A download at its start.
    pub fn new() -> (r: Self)
        ensures
            r == (DownloadState { downloaded: 0, total: None, paused: false }),
    {
        DownloadState { downloaded: 0, total: None, paused: false }
    }

    /// Takes in what came out of the channel of the download.
    pub fn on_events(&mut self, events: &Vec<DownloadEvent>) -> (r: DownloadOutcome)
        ensures
            *final(self) == run(*old(self), event_views(events@), 0).0,
            r.fits(run(*old(self), event_views(events@), 0).1),
    {
        let ghost v = event_views(events@);
        let n: usize = events.len();
        for i in 0..n
            invariant
                n == events@.len(),
                v == event_views(events@),
                run(*old(self), v, 0) == run(*self, v, i as int),
        {
            proof {
                assert(v[i as int] == events@[i as int]@);
            }
            match &events[i] {
                DownloadEvent::Update(u) => match u {
                    DownloadUpdate::Progress { downloaded, total } => {
                        self.downloaded = *downloaded;
                        self.total = *total;
                    },
                    DownloadUpdate::Done(path) => {
                        let mut text = owned("Staženo do ");
                        text.append(path.as_str());
                        return DownloadOutcome {
                            ended: true,
                            message: Some(text),
                            open: Some(path.clone()),
                        };
                    },
                    DownloadUpdate::Cancelled => {
                        return DownloadOutcome {
                            ended: true,
                            message: Some(owned("Stahování zrušeno.")),
                            open: None,
                        };
                    },
                    DownloadUpdate::Error(e) => {
                        let mut text = owned("Stahování selhalo: ");
                        text.append(e.as_str());
                        return DownloadOutcome { ended: true, message: Some(text), open: None };
                    },
                },
                DownloadEvent::Closed => {
                    return DownloadOutcome { ended: true, message: None, open: None };
                },
            }
        }
        DownloadOutcome { ended: false, message: None, open: None }
    }
}

/// The running downloads, by the uuid of the recording.
#[derive(Debug)]
pub struct Downloads {
    states: TextMap<DownloadState>,
}

impl View for Downloads {
    type V = Map<Seq<char>, DownloadState>;

    closed spec fn view(&self) -> Map<Seq<char>, DownloadState> {
        self.states@
    }
}

/// What came out of the channels of some downloads, each with its uuid.
#[derive(Debug)]
pub struct Batch {
    pub uuid: String,
    pub events: Vec<DownloadEvent>,
}

/// The text of what came out of a channel.
pub struct BatchView {
    pub uuid: Seq<char>,
    pub events: Seq<EventView>,
}

impl View for Batch {
    type V = BatchView;

    open spec fn view(&self) -> BatchView {
        BatchView { uuid: self.uuid@, events: event_views(self.events@) }
    }
}

/// The views of a list of batches.
pub open spec fn batch_views(s: Seq<Batch>) -> Seq<BatchView> {
    s.map_values(|b: Batch| b@)
}

/// What there is to do after some batches: the downloads, the last message,
/// and the files to show, in order.
#[verifier::ext_equal]
pub struct PollView {
    pub states: Map<Seq<char>, DownloadState>,
    pub message: Option<Seq<char>>,
    pub open: Seq<Seq<char>>,
}

/// After one batch: a download that has ended is gone, and what is said of its
/// end replaces what was said before. A batch of a download that is not there
/// changes nothing.
pub open spec fn after_batch(p: PollView, b: BatchView) -> PollView {
    if !p.states.contains_key(b.uuid) {
        p
    } else {
        let (s, end) = run(p.states[b.uuid], b.events, 0);
        match end {
            None => PollView { states: p.states.insert(b.uuid, s), ..p },
            Some(e) => PollView {
                states: p.states.remove(b.uuid),
                message: match end_message(e) {
                    Some(m) => Some(m),
                    None => p.message,
                },
                open: match end_file(e) {
                    Some(f) => p.open.push(f),
                    None => p.open,
                },
            },
        }
    }
}

/// After some batches.
pub open spec fn after_batches(
    states: Map<Seq<char>, DownloadState>,
    bs: Seq<BatchView>,
) -> PollView
    decreases bs.len(),
{
    if bs.len() == 0 {
        PollView { states, message: None, open: Seq::empty() }
    } else {
        after_batch(after_batches(states, bs.drop_last()), bs.last())
    }
}

/// What to do after some batches.
#[derive(Debug)]
pub struct PollOutcome {
    /// What the user is told, the last of what there is to say.
    pub message: Option<String>,
    /// The files to show to the user.
    pub open: Vec<String>,
}

impl Downloads {
    /// No downloads.
    pub fn new() -> (r: Self)
        ensures
            r@ == Map::<Seq<char>, DownloadState>::empty(),
    {
        Downloads { states: TextMap::new() }
    }

    /// The download of a recording.
    pub fn get(&self, uuid: &str) -> (r: Option<DownloadState>)
        ensures
            r == if self@.contains_key(uuid@) {
                Some(self@[uuid@])
            } else {
                None
            },
    {
        match self.states.get(uuid) {
            Some(s) => Some(*s),
            None => None,
        }
    }

    /// Starts the download of a recording.
    pub fn start(&mut self, uuid: &str)
        ensures
            final(self)@ == old(self)@.insert(
                uuid@,
                DownloadState { downloaded: 0, total: None, paused: false },
            ),
    {
        self.states.insert(uuid, DownloadState::new());
    }

    /// Pauses or resumes the download of a recording, where there is one.
    pub fn toggle(&mut self, uuid: &str) -> (r: Option<bool>)
        ensures
            old(self)@.contains_key(uuid@) ==> final(self)@ == old(self)@.insert(
                uuid@,
                DownloadState { paused: !old(self)@[uuid@].paused, ..old(self)@[uuid@] },
            ) && r == Some(!old(self)@[uuid@].paused),
            !old(self)@.contains_key(uuid@) ==> final(self)@ == old(self)@ && r is None,
    {
        match self.get(uuid) {
            Some(s) => {
                let paused = !s.paused;
                self.states.insert(
                    uuid,
                    DownloadState { downloaded: s.downloaded, total: s.total, paused },
                );
                Some(paused)
            },
            None => None,
        }
    }

    /// Takes in what came out of the channels of the downloads.
    pub fn on_batches(&mut self, batches: &Vec<Batch>) -> (r: PollOutcome)
        ensures
            final(self)@ == after_batches(old(self)@, batch_views(batches@)).states,
            opt_view(r.message) == after_batches(old(self)@, batch_views(batches@)).message,
            string_views(r.open@) == after_batches(old(self)@, batch_views(batches@)).open,
    {
        let ghost v = batch_views(batches@);
        let mut message: Option<String> = None;
        let mut open: Vec<String> = Vec::new();
        let n: usize = batches.len();
        proof {
            assert(string_views(open@) =~= Seq::<Seq<char>>::empty());
            assert(v.take(0) =~= Seq::<BatchView>::empty());
        }
        for i in 0..n
            invariant
                n == batches@.len(),
                v == batch_views(batches@),
                self@ == after_batches(old(self)@, v.take(i as int)).states,
                opt_view(message) == after_batches(old(self)@, v.take(i as int)).message,
                string_views(open@) == after_batches(old(self)@, v.take(i as int)).open,
        {
            let batch = &batches[i];
            let ghost before = self@;
            let ghost shown = open@;
            proof {
                assert(v.take(i + 1).drop_last() =~= v.take(i as int));
                assert(v.take(i + 1).last() == batch@);
            }
            match self.states.remove(batch.uuid.as_str()) {
                Some(state) => {
                    let mut s = state;
                    let outcome = s.on_events(&batch.events);
                    if outcome.ended {
                        match outcome.message {
                            Some(m) => {
                                message = Some(m);
                            },
                            None => {},
                        }
                        match outcome.open {
                            Some(f) => {
                                open.push(f);
                                proof {
                                    assert(string_views(open@) =~= string_views(shown).push(f@));
                                }
                            },
                            None => {},
                        }
                    } else {
                        self.states.insert(batch.uuid.as_str(), s);
                        proof {
                            assert(before.remove(batch@.uuid).insert(batch@.uuid, s)
                                =~= before.insert(batch@.uuid, s));
                        }
                    }
                },
                None => {
                    proof {
                        assert(before.remove(batch@.uuid) =~= before);
                    }
                },
            }
        }
        proof {
            assert(v.take(n as int) =~= v);
        }
        PollOutcome { message, open }
    }
}

// ---- what is shown ------------------------------------------------------

/// A number of bytes as far as sizes go.
pub open spec fn shown_bytes(n: u64) -> int {
    if n <= i64::MAX {
        n as int
    } else {
        0
    }
}

/// How much of a download has arrived, and of how much where that is known.
pub open spec fn progress_text(downloaded: u64, total: Option<u64>) -> Seq<char> {
    match total {
        Some(t) => size_text(shown_bytes(downloaded)) + " / "@ + size_text(shown_bytes(t)),
        None => size_text(shown_bytes(downloaded)),
    }
}

/// A number of bytes as text.
fn bytes_text(n: u64) -> (r: String)
    ensures
        r@ == size_text(shown_bytes(n)),
{
    if n <= i64::MAX as u64 {
        human_size(n as i64)
    } else {
        human_size(0)
    }
}

/// How much of a download has arrived, and of how much where that is known.
pub fn progress_label(downloaded: u64, total: Option<u64>) -> (r: String)
    ensures
        r@ == progress_text(downloaded, total),
{
    let mut out = bytes_text(downloaded);
    match total {
        Some(t) => {
            out.append(" / ");
            out.append(bytes_text(t).as_str());
        },
        None => {},
    }
    out
}

/// How much of a download has arrived as a part of the whole, for a progress
/// bar: `Some((part, whole))` with `part <= whole`, where the whole is known
/// and not empty.
pub fn progress_part(downloaded: u64, total: Option<u64>) -> (r: Option<(u64, u64)>)
    ensures
        r == match total {
            Some(t) => if t == 0 {
                None
            } else if downloaded >= t {
                Some((t, t))
            } else {
                Some((downloaded, t))
            },
            None => None,
        },
{
    match total {
        Some(t) => if t == 0 {
            None
        } else if downloaded >= t {
            Some((t, t))
        } else {
            Some((downloaded, t))
        },
        None => None,
    }
}

// ---- laws ---------------------------------------------------------------

/// A download that has ended is gone, and no other is touched.
pub proof fn law_batch_is_local(p: PollView, b: BatchView, other: Seq<char>)
    requires
        other != b.uuid,
    ensures
        after_batch(p, b).states.contains_key(other) <==> p.states.contains_key(other),
        p.states.contains_key(other) ==> after_batch(p, b).states[other] == p.states[other],
        p.states.contains_key(b.uuid) && run(p.states[b.uuid], b.events, 0).1 is Some
            ==> !after_batch(p, b).states.contains_key(b.uuid),
        p.states.contains_key(b.uuid) && run(p.states[b.uuid], b.events, 0).1 is None
            ==> after_batch(p, b).states.contains_key(b.uuid),
{
}

/// What comes after the end of a download is not looked at.
pub proof fn law_end_is_last(s: DownloadState, es: Seq<EventView>, more: Seq<EventView>)
    requires
        run(s, es, 0).1 is Some,
    ensures
        run(s, es + more, 0) == run(s, es, 0),
{
    lemma_run_prefix(s, es, more, 0);
}

proof fn lemma_run_prefix(s: DownloadState, es: Seq<EventView>, more: Seq<EventView>, from: int)
    requires
        0 <= from <= es.len(),
        run(s, es, from).1 is Some,
    ensures
        run(s, es + more, from) == run(s, es, from),
    decreases es.len() - from,
{
    if from < es.len() {
        assert((es + more)[from] == es[from]);
        if ended_by(es[from]) is None {
            lemma_run_prefix(state_after(s, es[from]), es, more, from + 1);
        }
    }
}

/// Whether an event tells how far a download is.
pub open spec fn is_progress(e: EventView) -> bool {
    e is Update && e->Update_0 is Progress
}

proof fn lemma_run(s: DownloadState, es: Seq<EventView>, from: int, k: int)
    requires
        0 <= from <= k <= es.len(),
        forall|i: int| from <= i < k ==> is_progress(#[trigger] es[i]),
        k < es.len() ==> !is_progress(es[k]),
    ensures
        run(s, es, from).1 == (if k == es.len() {
            None
        } else {
            ended_by(es[k])
        }),
        run(s, es, from).0.paused == s.paused,
        from < k ==> es[k - 1] == EventView::Update(
            UpdateView::Progress {
                downloaded: run(s, es, from).0.downloaded,
                total: run(s, es, from).0.total,
            },
        ),
        from == k ==> run(s, es, from).0 == s,
    decreases k - from,
{
    if from < k {
        assert(is_progress(es[from]));
        lemma_run(state_after(s, es[from]), es, from + 1, k);
    }
}

/// A download goes on as long as only progress is told, and what is shown of it
/// is the last that was told. The first other event, at `k`, ends it: the file
/// is told and shown where it is complete, why where it is not, and nothing
/// where it is gone without a word.
pub proof fn law_download(s: DownloadState, es: Seq<EventView>, k: int)
    requires
        0 <= k <= es.len(),
        forall|i: int| 0 <= i < k ==> is_progress(#[trigger] es[i]),
        k < es.len() ==> !is_progress(es[k]),
    ensures
        run(s, es, 0).1 is None <==> k == es.len(),
        run(s, es, 0).0.paused == s.paused,
        k > 0 ==> es[k - 1] == EventView::Update(
            UpdateView::Progress {
                downloaded: run(s, es, 0).0.downloaded,
                total: run(s, es, 0).0.total,
            },
        ),
        k == 0 ==> run(s, es, 0).0 == s,
        k < es.len() ==> ({
            let end = run(s, es, 0).1->0;
            match es[k] {
                EventView::Closed => end_message(end) is None && end_file(end) is None,
                EventView::Update(UpdateView::Done(path)) => end_message(end) == Some(
                    "Staženo do "@ + path,
                ) && end_file(end) == Some(path),
                EventView::Update(UpdateView::Error(why)) => end_message(end) == Some(
                    "Stahování selhalo: "@ + why,
                ) && end_file(end) is None,
                _ => end_message(end) == Some("Stahování zrušeno."@) && end_file(end) is None,
            }
        }),
{
    lemma_run(s, es, 0, k);
}

/// What comes out of the channel of a download changes that download alone: it
/// goes on as told, or it is gone, what there is to say of its end replaces
/// what was said before, and its file joins those to be shown. Nothing comes of
/// a download that is not there.
pub proof fn law_batch(p: PollView, b: BatchView)
    ensures
        !p.states.contains_key(b.uuid) ==> after_batch(p, b) == p,
        p.states.contains_key(b.uuid) && run(p.states[b.uuid], b.events, 0).1 is None ==> {
            &&& after_batch(p, b).states == p.states.insert(
                b.uuid,
                run(p.states[b.uuid], b.events, 0).0,
            )
            &&& after_batch(p, b).message == p.message
            &&& after_batch(p, b).open == p.open
        },
        p.states.contains_key(b.uuid) ==> (run(p.states[b.uuid], b.events, 0).1 matches Some(end)
            ==> {
            &&& after_batch(p, b).states == p.states.remove(b.uuid)
            &&& end_message(end) is Some ==> after_batch(p, b).message == end_message(end)
            &&& end_message(end) is None ==> after_batch(p, b).message == p.message
            &&& end_file(end) is Some ==> after_batch(p, b).open == p.open.push(end_file(end)->0)
            &&& end_file(end) is None ==> after_batch(p, b).open == p.open
        }),
{
}

/// What comes out of several channels is taken in one after another.
pub proof fn law_batches(states: Map<Seq<char>, DownloadState>, bs: Seq<BatchView>, b: BatchView)
    ensures
        after_batches(states, Seq::<BatchView>::empty()).states == states,
        after_batches(states, Seq::<BatchView>::empty()).message is None,
        after_batches(states, Seq::<BatchView>::empty()).open.len() == 0,
        after_batches(states, bs.push(b)) == after_batch(after_batches(states, bs), b),
{
    assert(bs.push(b).drop_last() =~= bs);
}

/// The progress of a download is told by how much has arrived and, where it is
/// known, by how much there is.
pub proof fn law_progress_text(downloaded: u64, total: u64)
    requires
        downloaded <= i64::MAX,
        total <= i64::MAX,
    ensures
        progress_text(downloaded, None) == size_text(downloaded as int),
        progress_text(downloaded, Some(total)) == size_text(downloaded as int) + " / "@ + size_text(
            total as int,
        ),
{
}

/// What comes of some events tells whether the download has ended, and then
/// what there is to say and to show.
pub proof fn law_outcome(o: DownloadOutcome, end: Option<Ended>)
    requires
        o.fits(end),
    ensures
        o.ended == (end is Some),
        end is None ==> o.message is None && o.open is None,
        end matches Some(e) ==> opt_view(o.message) == end_message(e) && opt_view(o.open)
            == end_file(e),
{
}

/// What came out of the channels is told one for one. Sizes beyond what can be
/// told count as none.
pub proof fn law_batch_views(bs: Seq<Batch>, i: int, n: u64)
    ensures
        batch_views(bs).len() == bs.len(),
        0 <= i < bs.len() ==> batch_views(bs)[i].uuid == bs[i].uuid@ && batch_views(bs)[i].events
            == event_views(bs[i].events@),
        n <= i64::MAX ==> shown_bytes(n) == n,
        n > i64::MAX ==> shown_bytes(n) == 0,
{
}

} // verus!
