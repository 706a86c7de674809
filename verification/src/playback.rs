//! What the one embedded player plays: a live channel or a recording.
//!
//! A recording is downloaded to a temporary file, and the player is given that
//! file as soon as enough of it has arrived; the rest follows in the
//! background. Starting one kind of playback always replaces the other.
use vstd::prelude::*;
use vstd::string::*;

use crate::recordings::{DownloadUpdate, UpdateView};
use crate::text::{opt_view, owned};

verus! {

/// How much of a recording has to arrive before the player is given it: enough
/// to tell its format, and little enough that playback starts soon.
pub const RECORDING_START_PLAYBACK_BYTES: u64 = 2097152;

/// How long, in milliseconds, the download of a recording is shown once it
/// plays.
pub const RECORDING_BUFFER_INDICATOR_MS: u64 = 3000;

/// What comes out of the channel of a running download.
#[derive(Debug)]
pub enum DownloadEvent {
    Update(DownloadUpdate),
    /// The download is gone without a word.
    Closed,
}

/// The text of an event.
pub enum EventView {
    Update(UpdateView),
    Closed,
}

impl View for DownloadEvent {
    type V = EventView;

    open spec fn view(&self) -> EventView {
        match self {
            DownloadEvent::Update(u) => EventView::Update(u@),
            DownloadEvent::Closed => EventView::Closed,
        }
    }
}

/// The views of a list of events.
pub open spec fn event_views(s: Seq<DownloadEvent>) -> Seq<EventView> {
    s.map_values(|e: DownloadEvent| e@)
}

/// A recording on its way to the player.
#[derive(Debug)]
pub struct Buffer {
    pub path: String,
    pub downloaded: u64,
    pub total: Option<u64>,
    pub paused: bool,
    /// Whether the player was given the file.
    pub loaded: bool,
}

/// Where a recording on its way is.
pub struct BufferView {
    pub path: Seq<char>,
    pub downloaded: u64,
    pub total: Option<u64>,
    pub paused: bool,
    pub loaded: bool,
}

impl View for Buffer {
    type V = BufferView;

    open spec fn view(&self) -> BufferView {
        BufferView {
            path: self.path@,
            downloaded: self.downloaded,
            total: self.total,
            paused: self.paused,
            loaded: self.loaded,
        }
    }
}

/// How the download of a recording ended.
pub enum Ending {
    Complete,
    Broken(Seq<char>),
}

/// A buffer after some events: the buffer, whether the player is to be given
/// the file now, and how the download ended, if it did.
pub struct BufferStep {
    pub buffer: BufferView,
    pub load: bool,
    pub ending: Option<Ending>,
}

/// How an event ends a download, if it does.
pub open spec fn ending_of(e: EventView) -> Option<Ending> {
    match e {
        EventView::Update(UpdateView::Progress { .. }) => None,
        EventView::Update(UpdateView::Done(_)) => Some(Ending::Complete),
        EventView::Update(UpdateView::Cancelled) => Some(Ending::Broken("Zrušeno."@)),
        EventView::Update(UpdateView::Error(text)) => Some(Ending::Broken(text)),
        EventView::Closed => Some(Ending::Broken("Spojení s vláknem bylo přerušeno."@)),
    }
}

/// A buffer after one event. The player is given the file once enough of it
/// has arrived, or all of it.
pub open spec fn after_event(s: BufferStep, e: EventView) -> BufferStep {
    let b = match e {
        EventView::Update(UpdateView::Progress { downloaded, total }) => BufferView {
            downloaded,
            total,
            ..s.buffer
        },
        _ => s.buffer,
    };
    let enough = match e {
        EventView::Update(UpdateView::Progress { downloaded, .. }) => downloaded
            >= RECORDING_START_PLAYBACK_BYTES,
        EventView::Update(UpdateView::Done(_)) => true,
        _ => false,
    };
    BufferStep {
        buffer: BufferView { loaded: b.loaded || enough, ..b },
        load: s.load || (!b.loaded && enough),
        ending: ending_of(e),
    }
}

/// A buffer after the events from `from` on, up to the one that ends the
/// download.
pub open spec fn after_events(s: BufferStep, es: Seq<EventView>, from: int) -> BufferStep
    decreases es.len() - from,
{
    if from >= es.len() || s.ending is Some {
        s
    } else {
        after_events(after_event(s, es[from]), es, from + 1)
    }
}

/// What is played, and what is on its way.
#[derive(Debug)]
pub struct Playback {
    /// The channel that is selected in the list.
    selected: Option<usize>,
    /// The channel that the player plays.
    playing: Option<usize>,
    /// The title of the recording that the player plays or waits for.
    recording: Option<String>,
    /// The recording's download, until it has ended.
    buffer: Option<Buffer>,
    /// The recording's file, once its download has ended.
    file: Option<String>,
    /// When the player was given the recording, in milliseconds.
    started_ms: Option<u64>,
    paused: bool,
}

/// What is played, and what is on its way.
#[verifier::ext_equal]
pub struct PlaybackView {
    pub selected: Option<usize>,
    pub playing: Option<usize>,
    pub recording: Option<Seq<char>>,
    pub buffer: Option<BufferView>,
    pub file: Option<Seq<char>>,
    pub started_ms: Option<u64>,
    pub paused: bool,
}

/// The view of an optional buffer.
pub open spec fn opt_buffer(o: Option<Buffer>) -> Option<BufferView> {
    match o {
        Some(b) => Some(b@),
        None => None,
    }
}

impl View for Playback {
    type V = PlaybackView;

    closed spec fn view(&self) -> PlaybackView {
        PlaybackView {
            selected: self.selected,
            playing: self.playing,
            recording: opt_view(self.recording),
            buffer: opt_buffer(self.buffer),
            file: opt_view(self.file),
            started_ms: self.started_ms,
            paused: self.paused,
        }
    }
}

impl PlaybackView {
    /// A channel and a recording are never played at the same time; a download
    /// or a file is that of the recording, and never both are there; only a
    /// recording that the player was given has a start.
    pub open spec fn consistent(self) -> bool {
        &&& !(self.playing is Some && self.recording is Some)
        &&& self.buffer is Some ==> self.recording is Some
        &&& self.file is Some ==> self.recording is Some
        &&& !(self.buffer is Some && self.file is Some)
        &&& self.started_ms is Some ==> self.recording is Some
        &&& self.started_ms is Some && self.buffer is Some ==> self.buffer->0.loaded
    }

    /// Nothing is played.
    pub open spec fn idle() -> PlaybackView {
        PlaybackView {
            selected: None,
            playing: None,
            recording: None,
            buffer: None,
            file: None,
            started_ms: None,
            paused: false,
        }
    }

    /// Without what belongs to a recording.
    pub open spec fn without_recording(self) -> PlaybackView {
        PlaybackView { recording: None, buffer: None, file: None, started_ms: None, ..self }
    }

    /// With a channel played.
    pub open spec fn with_channel(self, i: usize) -> PlaybackView {
        PlaybackView { playing: Some(i), paused: false, ..self.without_recording() }
    }

    /// With a recording on its way to a file.
    pub open spec fn with_recording(self, title: Seq<char>, path: Seq<char>) -> PlaybackView {
        PlaybackView {
            playing: None,
            paused: false,
            recording: Some(title),
            buffer: Some(
                BufferView { path, downloaded: 0, total: None, paused: false, loaded: false },
            ),
            ..self.without_recording()
        }
    }

    /// After some events of the recording's download. Where the download broke
    /// off before the player was given the file, there is nothing to play;
    /// after that, what has arrived goes on playing.
    pub open spec fn after_download(self, es: Seq<EventView>) -> PlaybackView {
        match self.buffer {
            None => self,
            Some(b) => {
                let s = after_events(BufferStep { buffer: b, load: false, ending: None }, es, 0);
                match s.ending {
                    None => PlaybackView { buffer: Some(s.buffer), ..self },
                    Some(_) => if s.buffer.loaded {
                        PlaybackView { buffer: None, file: Some(s.buffer.path), ..self }
                    } else {
                        PlaybackView { buffer: None, recording: None, ..self }
                    },
                }
            },
        }
    }

    /// The file that the player is to be given after some events.
    pub open spec fn to_load(self, es: Seq<EventView>) -> Option<Seq<char>> {
        match self.buffer {
            None => None,
            Some(b) => {
                let s = after_events(BufferStep { buffer: b, load: false, ending: None }, es, 0);
                if s.load {
                    Some(s.buffer.path)
                } else {
                    None
                }
            },
        }
    }

    /// What the user is told after some events.
    pub open spec fn to_say(self, es: Seq<EventView>) -> Option<Seq<char>> {
        match self.buffer {
            None => None,
            Some(b) => {
                let s = after_events(BufferStep { buffer: b, load: false, ending: None }, es, 0);
                match s.ending {
                    Some(Ending::Broken(e)) => if s.buffer.loaded {
                        Some("Dostahování na pozadí přerušeno: "@ + e)
                    } else {
                        Some("Načtení nahrávky selhalo: "@ + e)
                    },
                    _ => None,
                }
            },
        }
    }
}

/// What is to be cleared away of a recording that is left: its download is to
/// be cancelled, and its file deleted.
#[derive(Debug)]
pub struct Cleanup {
    pub cancel_download: bool,
    pub remove_file: Option<String>,
}

impl PlaybackView {
    /// What is to be cleared away when the recording is left.
    pub open spec fn cleanup(self, c: Cleanup) -> bool {
        c.cancel_download == (self.buffer is Some) && opt_view(c.remove_file) == self.file
    }
}

/// What to do after some events of a recording's download.
#[derive(Debug)]
pub struct BufferOutcome {
    /// The file that the player is to be given.
    pub load: Option<String>,
    /// What the user is told.
    pub message: Option<String>,
}

/// The channel `delta` places from `current` in a list of `count`, which goes
/// round at both ends.
pub open spec fn neighbour(current: int, delta: int, count: int) -> int {
    (current + delta) % count
}

impl Playback {
    #[verifier::type_invariant]
    spec fn inv(self) -> bool {
        self@.consistent()
    }

    /// Nothing is played.
    pub fn new() -> (r: Self)
        ensures
            r@ == PlaybackView::idle(),
    {
        Playback {
            selected: None,
            playing: None,
            recording: None,
            buffer: None,
            file: None,
            started_ms: None,
            paused: false,
        }
    }

    /// Takes away what belongs to a recording.
    fn clear(&mut self) -> (r: Cleanup)
        ensures
            old(self)@.cleanup(r),
            final(self)@ == old(self)@.without_recording(),
    {
        proof {
            use_type_invariant(&*self);
        }
        self.started_ms = None;
        let mut buffer: Option<Buffer> = None;
        std::mem::swap(&mut buffer, &mut self.buffer);
        let mut remove_file: Option<String> = None;
        std::mem::swap(&mut remove_file, &mut self.file);
        self.recording = None;
        Cleanup { cancel_download: buffer.is_some(), remove_file }
    }

    /// Selects a channel of `count`. The result is the channel whose stream is
    /// to be loaded, where there is such a channel and a player.
    pub fn select(&mut self, i: usize, count: usize, has_player: bool) -> (r: Option<usize>)
        ensures
            final(self)@ == (PlaybackView { selected: Some(i), ..old(self)@ }),
            r == if i < count && has_player {
                Some(i)
            } else {
                None
            },
    {
        proof {
            use_type_invariant(&*self);
        }
        self.selected = Some(i);
        if i < count && has_player {
            Some(i)
        } else {
            None
        }
    }

    /// The player took the stream of a channel: it replaces what was played.
    pub fn channel_loaded(&mut self, i: usize) -> (r: Cleanup)
        ensures
            final(self)@ == old(self)@.with_channel(i),
            old(self)@.cleanup(r),
    {
        let r = self.clear();
        proof {
            use_type_invariant(&*self);
        }
        self.paused = false;
        self.playing = Some(i);
        r
    }

    /// The channel `delta` places from the selected one, or from the first one
    /// where none is selected, in a list of `count` that goes round at both
    /// ends.
    pub fn relative(&self, delta: i64, count: usize) -> (r: Option<usize>)
        ensures
            r is None <==> count == 0,
            r matches Some(i) ==> i < count && i == neighbour(
                match self@.selected {
                    Some(s) => s as int,
                    None => 0,
                },
                delta as int,
                count as int,
            ),
    {
        if count == 0 {
            return None;
        }
        let current: i128 = match self.selected {
            Some(s) => s as i128,
            None => 0,
        };
        let len: i128 = count as i128;
        let sum: i128 = current + delta as i128;
        let next: i128 = if sum >= 0 {
            sum % len
        } else {
            let rest: i128 = (-sum) % len;
            if rest == 0 {
                0
            } else {
                len - rest
            }
        };
        proof {
            let s = sum as int;
            let n = len as int;
            if sum >= 0 {
                assert(0 <= s % n < n) by (nonlinear_arith)
                    requires
                        n > 0,
                ;
            } else {
                let rest = (-s) % n;
                lemma_negative_mod(s, n);
            }
        }
        Some(next as usize)
    }

    /// Stops the live channel.
    pub fn stop(&mut self)
        ensures
            final(self)@ == (PlaybackView { playing: None, paused: false, ..old(self)@ }),
    {
        proof {
            use_type_invariant(&*self);
        }
        self.playing = None;
        self.paused = false;
    }

    /// Starts a recording, which is going to be downloaded to `path`: it
    /// replaces what was played.
    pub fn start_recording(&mut self, title: &str, path: &str) -> (r: Cleanup)
        ensures
            final(self)@ == old(self)@.with_recording(title@, path@),
            old(self)@.cleanup(r),
    {
        let r = self.clear();
        proof {
            use_type_invariant(&*self);
        }
        self.playing = None;
        self.paused = false;
        self.recording = Some(owned(title));
        self.buffer = Some(
            Buffer {
                path: owned(path),
                downloaded: 0,
                total: None,
                paused: false,
                loaded: false,
            },
        );
        r
    }

    /// Stops the recording.
    pub fn stop_recording(&mut self) -> (r: Cleanup)
        ensures
            final(self)@ == (PlaybackView { paused: false, ..old(self)@.without_recording() }),
            old(self)@.cleanup(r),
    {
        let r = self.clear();
        proof {
            use_type_invariant(&*self);
        }
        self.paused = false;
        r
    }

    /// Pauses or resumes what is played.
    pub fn toggle_pause(&mut self) -> (r: bool)
        ensures
            final(self)@ == (PlaybackView { paused: !old(self)@.paused, ..old(self)@ }),
            r == final(self)@.paused,
    {
        proof {
            use_type_invariant(&*self);
        }
        self.paused = !self.paused;
        self.paused
    }

    /// Pauses or resumes the download of the recording, where there is one.
    pub fn toggle_download(&mut self) -> (r: Option<bool>)
        ensures
            match old(self)@.buffer {
                Some(b) => final(self)@ == (PlaybackView {
                    buffer: Some(BufferView { paused: !b.paused, ..b }),
                    ..old(self)@
                }) && r == Some(!b.paused),
                None => final(self)@ == old(self)@ && r is None,
            },
    {
        proof {
            use_type_invariant(&*self);
        }
        let mut buffer: Option<Buffer> = None;
        std::mem::swap(&mut buffer, &mut self.buffer);
        match buffer {
            Some(b) => {
                let paused = !b.paused;
                self.buffer = Some(
                    Buffer {
                        path: b.path,
                        downloaded: b.downloaded,
                        total: b.total,
                        paused,
                        loaded: b.loaded,
                    },
                );
                Some(paused)
            },
            None => None,
        }
    }

    /// The player took the file of the recording.
    pub fn recording_started(&mut self, now_ms: u64)
        requires
            old(self)@.recording is Some,
            old(self)@.buffer is Some ==> old(self)@.buffer->0.loaded,
        ensures
            final(self)@ == (PlaybackView { started_ms: Some(now_ms), ..old(self)@ }),
    {
        proof {
            use_type_invariant(&*self);
        }
        self.started_ms = Some(now_ms);
    }
}

/// The remainder of a negative number.
proof fn lemma_negative_mod(s: int, n: int)
    requires
        s < 0,
        n > 0,
    ensures
        s % n == if (-s) % n == 0 {
            0
        } else {
            n - (-s) % n
        },
        0 <= s % n < n,
{
    let q = (-s) / n;
    let r = (-s) % n;
    assert(-s == n * q + r && 0 <= r < n) by (nonlinear_arith)
        requires
            q == (-s) / n,
            r == (-s) % n,
            n > 0,
    ;
    if r == 0 {
        assert(s == n * (-q)) by (nonlinear_arith)
            requires
                -s == n * q,
        ;
        vstd::arithmetic::div_mod::lemma_fundamental_div_mod_converse(s, n, -q, 0);
    } else {
        assert(s == (-q - 1) * n + (n - r)) by (nonlinear_arith)
            requires
                -s == n * q + r,
        ;
        vstd::arithmetic::div_mod::lemma_fundamental_div_mod_converse(s, n, -q - 1, n - r);
    }
}

/// How a download ended: `Some(None)` is complete, `Some(Some(e))` broken off.
spec fn ending_view(o: Option<Option<String>>) -> Option<Ending> {
    match o {
        None => None,
        Some(None) => Some(Ending::Complete),
        Some(Some(e)) => Some(Ending::Broken(e@)),
    }
}

impl Playback {
    /// Takes in what came out of the channel of the recording's download.
    pub fn on_download(&mut self, events: &Vec<DownloadEvent>) -> (r: BufferOutcome)
        ensures
            final(self)@ == old(self)@.after_download(event_views(events@)),
            opt_view(r.load) == old(self)@.to_load(event_views(events@)),
            opt_view(r.message) == old(self)@.to_say(event_views(events@)),
    {
        proof {
            use_type_invariant(&*self);
        }
        let mut taken: Option<Buffer> = None;
        std::mem::swap(&mut taken, &mut self.buffer);
        let mut b = match taken {
            Some(b) => b,
            None => {
                return BufferOutcome { load: None, message: None };
            },
        };
        let ghost v = event_views(events@);
        let ghost start = BufferStep { buffer: b@, load: false, ending: None };
        let mut load = false;
        let mut ending: Option<Option<String>> = None;
        let n: usize = events.len();
        let mut i: usize = 0;
        while i < n && ending.is_none()
            invariant
                n == events@.len(),
                v == event_views(events@),
                i <= n,
                b@.path == start.buffer.path,
                start.buffer.loaded ==> b@.loaded,
                load ==> b@.loaded,
                after_events(start, v, 0) == after_events(
                    BufferStep { buffer: b@, load, ending: ending_view(ending) },
                    v,
                    i as int,
                ),
            decreases n - i,
        {
            proof {
                assert(v[i as int] == events@[i as int]@);
            }
            match &events[i] {
                DownloadEvent::Update(u) => match u {
                    DownloadUpdate::Progress { downloaded, total } => {
                        b.downloaded = *downloaded;
                        b.total = *total;
                        if !b.loaded && *downloaded >= RECORDING_START_PLAYBACK_BYTES {
                            b.loaded = true;
                            load = true;
                        }
                    },
                    DownloadUpdate::Done(_) => {
                        if !b.loaded {
                            b.loaded = true;
                            load = true;
                        }
                        ending = Some(None);
                    },
                    DownloadUpdate::Cancelled => {
                        ending = Some(Some(owned("Zrušeno.")));
                    },
                    DownloadUpdate::Error(e) => {
                        ending = Some(Some(e.clone()));
                    },
                },
                DownloadEvent::Closed => {
                    ending = Some(Some(owned("Spojení s vláknem bylo přerušeno.")));
                },
            }
            i = i + 1;
        }
        let to_load = if load {
            Some(b.path.clone())
        } else {
            None
        };
        match ending {
            None => {
                self.buffer = Some(b);
                BufferOutcome { load: to_load, message: None }
            },
            Some(end) => {
                let message = match end {
                    None => None,
                    Some(e) => {
                        let mut text = if b.loaded {
                            owned("Dostahování na pozadí přerušeno: ")
                        } else {
                            owned("Načtení nahrávky selhalo: ")
                        };
                        text.append(e.as_str());
                        Some(text)
                    },
                };
                if b.loaded {
                    self.file = Some(b.path);
                } else {
                    self.recording = None;
                }
                BufferOutcome { load: to_load, message }
            },
        }
    }

    /// The channel that is selected in the list.
    pub fn selected(&self) -> (r: Option<usize>)
        ensures
            r == self@.selected,
    {
        self.selected
    }

    /// Selects no channel.
    pub fn deselect(&mut self)
        ensures
            final(self)@ == (PlaybackView { selected: None, ..old(self)@ }),
    {
        proof {
            use_type_invariant(&*self);
        }
        self.selected = None;
    }

    /// The channel that the player plays. A recording is then not played.
    pub fn playing(&self) -> (r: Option<usize>)
        ensures
            r == self@.playing,
            r is Some ==> self@.recording is None,
    {
        proof {
            use_type_invariant(&*self);
        }
        self.playing
    }

    /// The title of the recording that the player plays or waits for.
    pub fn recording(&self) -> (r: Option<&str>)
        ensures
            crate::text::opt_str_view(r) == self@.recording,
    {
        match &self.recording {
            Some(t) => Some(t.as_str()),
            None => None,
        }
    }

    /// The download of the recording.
    pub fn buffer(&self) -> (r: Option<&Buffer>)
        ensures
            r is Some <==> self@.buffer is Some,
            r matches Some(b) ==> self@.buffer == Some(b@),
    {
        match &self.buffer {
            Some(b) => Some(b),
            None => None,
        }
    }

    /// Whether playback is paused.
    pub fn is_paused(&self) -> (r: bool)
        ensures
            r == self@.paused,
    {
        self.paused
    }

    /// Whether the player still waits for the start of the recording, so that
    /// the progress of its download is shown in place of a picture.
    pub fn is_filling(&self) -> (r: bool)
        ensures
            r == (self@.buffer is Some && !self@.buffer->0.loaded),
    {
        match &self.buffer {
            Some(b) => !b.loaded,
            None => false,
        }
    }

    /// The percentage that is shown over the picture of a recording: that of
    /// the player, where it waits for data, and otherwise that of the download
    /// for a short while after the start.
    pub fn indicator(&self, player_pct: Option<i64>, own_pct: Option<i64>, now_ms: u64) -> (r:
        Option<i64>)
        ensures
            r == if player_pct is Some {
                player_pct
            } else if self@.buffer is Some && self@.started_ms is Some && now_ms
                - self@.started_ms->0 < RECORDING_BUFFER_INDICATOR_MS {
                own_pct
            } else {
                None
            },
    {
        if player_pct.is_some() {
            return player_pct;
        }
        match (&self.buffer, self.started_ms) {
            (Some(_), Some(at)) => if now_ms < at || now_ms - at < RECORDING_BUFFER_INDICATOR_MS {
                own_pct
            } else {
                None
            },
            _ => None,
        }
    }
}

// ---- laws ---------------------------------------------------------------

/// What any operation leaves is consistent, if what it found is: in
/// particular, a channel and a recording are never played at the same time.
pub proof fn law_stays_consistent(
    p: PlaybackView,
    i: usize,
    title: Seq<char>,
    path: Seq<char>,
    es: Seq<EventView>,
)
    requires
        p.consistent(),
    ensures
        p.with_channel(i).consistent(),
        p.with_recording(title, path).consistent(),
        p.without_recording().consistent(),
        p.after_download(es).consistent(),
        (PlaybackView { playing: None, paused: false, ..p }).consistent(),
{
    match p.buffer {
        Some(b) => {
            let s = BufferStep { buffer: b, load: false, ending: None };
            lemma_after_events(s, es, 0);
        },
        None => {},
    }
}

/// Events change neither the file of a download nor that the player was given
/// it, and the player is given it only once.
proof fn lemma_after_events(s: BufferStep, es: Seq<EventView>, from: int)
    requires
        s.load ==> s.buffer.loaded,
        0 <= from,
    ensures
        after_events(s, es, from).buffer.path == s.buffer.path,
        s.buffer.loaded ==> after_events(s, es, from).buffer.loaded,
        s.buffer.loaded ==> after_events(s, es, from).load == s.load,
        after_events(s, es, from).load ==> after_events(s, es, from).buffer.loaded,
        !s.buffer.loaded && !s.load ==> after_events(s, es, from).load == after_events(
            s,
            es,
            from,
        ).buffer.loaded,
        after_events(s, es, from).ending is Some && after_events(s, es, from).ending->0
            is Complete && (s.ending is None || s.buffer.loaded) ==> after_events(
            s,
            es,
            from,
        ).buffer.loaded,
    decreases es.len() - from,
{
    if from < es.len() && s.ending is None {
        lemma_after_events(after_event(s, es[from]), es, from + 1);
    }
}

/// The player is given the file of a recording at most once, and it is given it
/// before or when the download completes: a complete recording always plays.
pub proof fn law_loaded_once(p: PlaybackView, first: Seq<EventView>, second: Seq<EventView>)
    requires
        p.consistent(),
        p.buffer is Some,
        !p.buffer->0.loaded,
    ensures
        p.to_load(first) is Some ==> p.to_load(first) == Some(p.buffer->0.path)
            && p.after_download(first).to_load(second) is None,
        first.len() > 0 && first[0] is Update && first[0]->Update_0 is Done ==> p.to_load(first)
            is Some && p.after_download(first).file == Some(p.buffer->0.path),
{
    let s = BufferStep { buffer: p.buffer->0, load: false, ending: None };
    lemma_after_events(s, first, 0);
    let t = after_events(s, first, 0);
    if p.after_download(first).buffer is Some {
        let u = BufferStep { buffer: t.buffer, load: false, ending: None };
        lemma_after_events(u, second, 0);
    }
    if first.len() > 0 && first[0] is Update && first[0]->Update_0 is Done {
        assert(after_events(s, first, 0) == after_events(after_event(s, first[0]), first, 1));
    }
}

/// The download of a recording that is already played does not take it away
/// when it breaks off.
pub proof fn law_keeps_playing(p: PlaybackView, es: Seq<EventView>)
    requires
        p.consistent(),
        p.buffer is Some,
        p.buffer->0.loaded,
    ensures
        p.after_download(es).recording == p.recording,
        p.after_download(es).buffer is None ==> p.after_download(es).file == Some(
            p.buffer->0.path,
        ),
{
    lemma_after_events(BufferStep { buffer: p.buffer->0, load: false, ending: None }, es, 0);
}

/// Going to the next channel and then back, or the other way round, ends where
/// it began.
pub proof fn law_there_and_back(current: int, delta: int, count: int)
    requires
        0 <= current < count,
    ensures
        neighbour(neighbour(current, delta, count), -delta, count) == current,
        0 <= neighbour(current, delta, count) < count,
{
    let q = (current + delta) / count;
    let r = (current + delta) % count;
    vstd::arithmetic::div_mod::lemma_fundamental_div_mod(current + delta, count);
    vstd::arithmetic::div_mod::lemma_mod_bound(current + delta, count);
    assert(r - delta == (-q) * count + current) by (nonlinear_arith)
        requires
            current + delta == count * q + r,
    ;
    vstd::arithmetic::div_mod::lemma_fundamental_div_mod_converse(r - delta, count, -q, current);
}

/// How much of the start of a recording is enough: two mebibytes. And the
/// download is shown for three seconds over the picture.
pub proof fn law_limits_of_playback()
    ensures
        RECORDING_START_PLAYBACK_BYTES == 2 * 1024 * 1024,
        RECORDING_BUFFER_INDICATOR_MS == 3 * 1000,
{
}

/// An event that tells how far a download is.
pub open spec fn told(downloaded: u64, total: Option<u64>) -> EventView {
    EventView::Update(UpdateView::Progress { downloaded, total })
}

/// Whether an event tells how far a download is.
pub open spec fn is_told(e: EventView) -> bool {
    e is Update && e->Update_0 is Progress
}

/// Events that only tell how far a download is keep its end open, and give the
/// player the file with the first that reaches two mebibytes.
proof fn lemma_told(s: BufferStep, es: Seq<EventView>, from: int)
    requires
        0 <= from <= es.len(),
        s.ending is None,
        s.load ==> s.buffer.loaded,
        forall|i: int| from <= i < es.len() ==> is_told(#[trigger] es[i]),
    ensures
        after_events(s, es, from).ending is None,
        after_events(s, es, from).buffer.path == s.buffer.path,
        after_events(s, es, from).buffer.paused == s.buffer.paused,
        from < es.len() ==> es.last() == told(
            after_events(s, es, from).buffer.downloaded,
            after_events(s, es, from).buffer.total,
        ),
        from == es.len() ==> after_events(s, es, from) == s,
        after_events(s, es, from).buffer.loaded <==> s.buffer.loaded || exists|i: int|
            from <= i < es.len() && (#[trigger] es[i])->Update_0->downloaded >= 2 * 1024 * 1024,
        after_events(s, es, from).load <==> s.load || (!s.buffer.loaded && exists|i: int|
            from <= i < es.len() && (#[trigger] es[i])->Update_0->downloaded >= 2 * 1024 * 1024),
    decreases es.len() - from,
{
    if from < es.len() {
        let t = after_event(s, es[from]);
        assert(is_told(es[from]));
        lemma_told(t, es, from + 1);
        if exists|i: int|
            from <= i < es.len() && (#[trigger] es[i])->Update_0->downloaded >= 2 * 1024 * 1024 {
            let i = choose|i: int|
                from <= i < es.len() && (#[trigger] es[i])->Update_0->downloaded >= 2 * 1024 * 1024;
            if i > from {
                assert(from + 1 <= i < es.len());
            }
        }
    }
}

/// A recording that the player waits for is handed to it exactly when two
/// mebibytes of it have arrived, however big it is and whether its size is
/// known at all.
pub proof fn law_playback_starts(p: PlaybackView, downloaded: u64, total: Option<u64>)
    requires
        p.buffer is Some,
        !p.buffer->0.loaded,
    ensures
        downloaded >= 2 * 1024 * 1024 ==> p.to_load(seq![told(downloaded, total)]) == Some(
            p.buffer->0.path,
        ),
        downloaded < 2 * 1024 * 1024 ==> p.to_load(seq![told(downloaded, total)]) is None,
        p.after_download(seq![told(downloaded, total)]).buffer is Some,
        p.after_download(seq![told(downloaded, total)]).buffer->0.loaded <==> downloaded >= 2 * 1024
            * 1024,
{
    law_told(p, seq![told(downloaded, total)]);
    let es = seq![told(downloaded, total)];
    assert(es[0] == told(downloaded, total));
}

/// While a download goes on, the player is given the file with the first news
/// that two mebibytes have arrived and never again. What is shown of the
/// download is the last that was told, and nothing else changes.
pub proof fn law_told(p: PlaybackView, es: Seq<EventView>)
    requires
        p.buffer is Some,
        forall|i: int| 0 <= i < es.len() ==> is_told(#[trigger] es[i]),
    ensures
        p.to_load(es) is Some <==> !p.buffer->0.loaded && exists|i: int|
            0 <= i < es.len() && (#[trigger] es[i])->Update_0->downloaded >= 2 * 1024 * 1024,
        p.to_load(es) matches Some(path) ==> path == p.buffer->0.path,
        p.to_say(es) is None,
        p.after_download(es).buffer is Some,
        p.after_download(es).buffer->0.path == p.buffer->0.path,
        p.after_download(es).buffer->0.paused == p.buffer->0.paused,
        p.after_download(es).buffer->0.loaded <==> p.buffer->0.loaded || exists|i: int|
            0 <= i < es.len() && (#[trigger] es[i])->Update_0->downloaded >= 2 * 1024 * 1024,
        es.len() > 0 ==> es.last() == told(
            p.after_download(es).buffer->0.downloaded,
            p.after_download(es).buffer->0.total,
        ),
        p.after_download(es).selected == p.selected,
        p.after_download(es).playing == p.playing,
        p.after_download(es).recording == p.recording,
        p.after_download(es).file == p.file,
        p.after_download(es).started_ms == p.started_ms,
        p.after_download(es).paused == p.paused,
{
    lemma_told(BufferStep { buffer: p.buffer->0, load: false, ending: None }, es, 0);
}

/// Only the events up to the first that ends the download count.
proof fn lemma_ended(s: BufferStep, es: Seq<EventView>, from: int, k: int)
    requires
        0 <= from <= k < es.len(),
        s.ending is None,
        s.load ==> s.buffer.loaded,
        forall|i: int| from <= i < k ==> is_told(#[trigger] es[i]),
        !is_told(es[k]),
    ensures
        after_events(s, es, from).buffer.path == s.buffer.path,
        after_events(s, es, from).ending == ending_of(es[k]),
        after_events(s, es, from).buffer.loaded <==> s.buffer.loaded || es[k] is Update
            && es[k]->Update_0 is Done || exists|i: int|
            from <= i < k && (#[trigger] es[i])->Update_0->downloaded >= 2 * 1024 * 1024,
        after_events(s, es, from).load <==> s.load || (!s.buffer.loaded && after_events(
            s,
            es,
            from,
        ).buffer.loaded),
    decreases k - from,
{
    let t = after_event(s, es[from]);
    if from < k {
        assert(is_told(es[from]));
        lemma_ended(t, es, from + 1, k);
        if exists|i: int|
            from <= i < k && (#[trigger] es[i])->Update_0->downloaded >= 2 * 1024 * 1024 {
            let i = choose|i: int|
                from <= i < k && (#[trigger] es[i])->Update_0->downloaded >= 2 * 1024 * 1024;
            if i > from {
                assert(from + 1 <= i < k);
            }
        }
    } else {
        assert(after_events(t, es, from + 1) == t);
    }
}

/// The first event that is no mere news of progress ends the download, and what
/// comes after it does not count. A complete download always plays. One that
/// broke off plays on as far as it got, or, where two mebibytes never arrived,
/// leaves nothing to play; either way the user is told what happened.
pub proof fn law_download_ends(p: PlaybackView, es: Seq<EventView>, k: int)
    requires
        p.buffer is Some,
        0 <= k < es.len(),
        forall|i: int| 0 <= i < k ==> is_told(#[trigger] es[i]),
        !is_told(es[k]),
    ensures
        p.after_download(es).buffer is None,
        p.after_download(es).selected == p.selected,
        p.after_download(es).playing == p.playing,
        p.after_download(es).started_ms == p.started_ms,
        p.after_download(es).paused == p.paused,
        ({
            let started = p.buffer->0.loaded || exists|i: int|
                0 <= i < k && (#[trigger] es[i])->Update_0->downloaded >= 2 * 1024 * 1024;
            let complete = es[k] is Update && es[k]->Update_0 is Done;
            &&& started || complete ==> p.after_download(es).file == Some(p.buffer->0.path)
                && p.after_download(es).recording == p.recording
            &&& !started && !complete ==> p.after_download(es).recording is None
                && p.after_download(es).file == p.file
            &&& p.to_load(es) == if !p.buffer->0.loaded && (started || complete) {
                Some(p.buffer->0.path)
            } else {
                None
            }
            &&& complete ==> p.to_say(es) is None
            &&& !complete ==> p.to_say(es) == Some(
                (if started {
                    "Dostahování na pozadí přerušeno: "@
                } else {
                    "Načtení nahrávky selhalo: "@
                }) + (match es[k] {
                    EventView::Closed => "Spojení s vláknem bylo přerušeno."@,
                    EventView::Update(UpdateView::Error(text)) => text,
                    _ => "Zrušeno."@,
                }),
            )
        }),
{
    lemma_ended(BufferStep { buffer: p.buffer->0, load: false, ending: None }, es, 0, k);
}

/// Starting a channel leaves nothing of a recording and plays at once; starting
/// a recording leaves nothing of a channel, and nothing of the recording has
/// arrived yet. Neither changes what is selected.
pub proof fn law_one_replaces_the_other(
    p: PlaybackView,
    i: usize,
    title: Seq<char>,
    path: Seq<char>,
)
    ensures
        p.with_channel(i).playing == Some(i),
        p.with_channel(i).selected == p.selected,
        p.with_channel(i).recording is None,
        p.with_channel(i).buffer is None,
        p.with_channel(i).file is None,
        p.with_channel(i).started_ms is None,
        !p.with_channel(i).paused,
        p.with_recording(title, path).playing is None,
        p.with_recording(title, path).selected == p.selected,
        p.with_recording(title, path).recording == Some(title),
        p.with_recording(title, path).file is None,
        p.with_recording(title, path).started_ms is None,
        !p.with_recording(title, path).paused,
        p.with_recording(title, path).buffer matches Some(b) && b.path == path && b.downloaded == 0
            && b.total is None && !b.paused && !b.loaded,
        p.without_recording().playing == p.playing,
        p.without_recording().selected == p.selected,
        p.without_recording().paused == p.paused,
        p.without_recording().recording is None,
        p.without_recording().buffer is None,
        p.without_recording().file is None,
        p.without_recording().started_ms is None,
{
}

/// The channel after the last one is the first, that before the first one is
/// the last, and any other is the next or the one before in the list. A round
/// through the whole list ends where it began.
pub proof fn law_next_channel(current: int, count: int)
    requires
        0 <= current < count,
    ensures
        current + 1 < count ==> neighbour(current, 1, count) == current + 1,
        current + 1 == count ==> neighbour(current, 1, count) == 0,
        current > 0 ==> neighbour(current, -1, count) == current - 1,
        current == 0 ==> neighbour(current, -1, count) == count - 1,
        neighbour(current, count, count) == current,
{
    lemma_step(current, 1, count);
    lemma_step(current, -1, count);
    lemma_step(current, count, count);
}

/// Steps of any size go round the list.
pub proof fn law_steps_go_round(current: int, delta: int, count: int)
    requires
        0 <= current < count,
    ensures
        0 <= current + delta < count ==> neighbour(current, delta, count) == current + delta,
        neighbour(current, delta + count, count) == neighbour(current, delta, count),
        neighbour(current, delta - count, count) == neighbour(current, delta, count),
{
    vstd::arithmetic::div_mod::lemma_mod_add_multiples_vanish(current + delta, count);
    vstd::arithmetic::div_mod::lemma_mod_add_multiples_vanish(current + delta - count, count);
    lemma_step(current, delta, count);
}

/// A step within the list, or over one of its ends.
proof fn lemma_step(current: int, delta: int, count: int)
    requires
        0 <= current < count,
    ensures
        0 <= current + delta < count ==> neighbour(current, delta, count) == current + delta,
        count <= current + delta < 2 * count ==> neighbour(current, delta, count) == current + delta
            - count,
        -count <= current + delta < 0 ==> neighbour(current, delta, count) == current + delta
            + count,
{
    let s = current + delta;
    if 0 <= s < count {
        vstd::arithmetic::div_mod::lemma_small_mod(s as nat, count as nat);
    } else if count <= s < 2 * count {
        vstd::arithmetic::div_mod::lemma_fundamental_div_mod_converse(s, count, 1, s - count);
    } else if -count <= s < 0 {
        vstd::arithmetic::div_mod::lemma_fundamental_div_mod_converse(s, count, -1, s + count);
    }
}

/// What came out of the channel of a download is told one for one.
pub proof fn law_event_views(es: Seq<DownloadEvent>, i: int, u: DownloadUpdate)
    ensures
        event_views(es).len() == es.len(),
        0 <= i < es.len() ==> event_views(es)[i] == es[i]@,
        DownloadEvent::Update(u)@ == EventView::Update(u@),
        DownloadEvent::Closed@ == EventView::Closed,
{
}

/// At first nothing is played, selected or on its way. A recording that is left
/// has its download cancelled where it still runs, and its file deleted where
/// it has ended.
pub proof fn law_left_behind(p: PlaybackView, c: Cleanup, b: Buffer)
    requires
        p.cleanup(c),
    ensures
        c.cancel_download == (p.buffer is Some),
        opt_view(c.remove_file) == p.file,
        PlaybackView::idle().selected is None,
        PlaybackView::idle().playing is None,
        PlaybackView::idle().recording is None,
        PlaybackView::idle().buffer is None,
        PlaybackView::idle().file is None,
        PlaybackView::idle().started_ms is None,
        !PlaybackView::idle().paused,
        b@.path == b.path@,
        b@.downloaded == b.downloaded,
        b@.total == b.total,
        b@.paused == b.paused,
        b@.loaded == b.loaded,
{
}

} // verus!
