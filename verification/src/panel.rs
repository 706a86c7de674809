//! The recordings tab: the state of its lists, what each row shows, and what
//! its buttons do.
use vstd::prelude::*;
use vstd::string::*;

use crate::autorec::AutorecEdit;
use crate::downloads::{DownloadState, Downloads};
use crate::epg::{format_span, span_text, Offsets};
use crate::guide::Poll;
use crate::order::{law_sorted, sort, sorted, Keyed};
use crate::recordings::{download_name, human_size, safe_filename, size_text, RecordingsData};
use crate::text::{opt_view, owned, same_str, trim, trimmed_str};
use crate::text_map::TextMap;
use crate::tvh::DvrEntry;
use crate::ui::RecordingsTab;

verus! {

// ---- state --------------------------------------------------------------

/// The state of the recordings tab.
#[derive(Debug)]
pub struct Panel {
    pub tab: RecordingsTab,
    /// The lists, once they are loaded. Without them they are loaded when the
    /// tab is shown.
    pub data: Option<RecordingsData>,
    pub loading: bool,
    /// Whether the thread that loads them is still there.
    pub waiting: bool,
    pub error: Option<String>,
    /// What the user is told until the next message.
    pub message: Option<String>,
    /// Whether the thread of a cancellation or a deletion is still there.
    pub acting: bool,
    /// The form to edit a rule, where it is open.
    pub edit: Option<AutorecEdit>,
}

impl Panel {
    /// Everything but the lists and their loading is the same.
    pub open spec fn same_rest(self, other: Panel) -> bool {
        &&& self.tab == other.tab
        &&& self.message == other.message
        &&& self.acting == other.acting
        &&& self.edit == other.edit
    }

    /// The state before anything is loaded.
    pub fn new() -> (r: Self)
        ensures
            r.tab == RecordingsTab::Finished,
            r.data is None,
            !r.loading,
            !r.waiting,
            r.error is None,
            r.message is None,
            !r.acting,
            r.edit is None,
    {
        Panel {
            tab: RecordingsTab::Finished,
            data: None,
            loading: false,
            waiting: false,
            error: None,
            message: None,
            acting: false,
            edit: None,
        }
    }

    /// Whether the lists are to be loaded now that the tab is shown: where
    /// there are none, and none are on their way.
    pub fn needs_loading(&self) -> (r: bool)
        ensures
            r == (self.data is None && !self.loading && !self.waiting),
    {
        self.data.is_none() && !self.loading && !self.waiting
    }

    /// Starts to load the lists.
    pub fn refresh(&mut self)
        ensures
            final(self).loading,
            final(self).waiting,
            final(self).error is None,
            final(self).data == old(self).data,
            final(self).same_rest(*old(self)),
    {
        self.loading = true;
        self.waiting = true;
        self.error = None;
    }

    /// Takes in what came out of the channel of the loading.
    pub fn on_data(&mut self, message: Poll<Result<RecordingsData, String>>)
        ensures
            final(self).same_rest(*old(self)),
            match message {
                Poll::Ready(Ok(data)) => {
                    &&& final(self).data == Some(data)
                    &&& !final(self).loading
                    &&& !final(self).waiting
                    &&& final(self).error is None
                },
                Poll::Ready(Err(e)) => {
                    &&& final(self).data == old(self).data
                    &&& !final(self).loading
                    &&& !final(self).waiting
                    &&& final(self).error == Some(e)
                },
                Poll::Empty => *final(self) == *old(self),
                Poll::Closed => {
                    &&& final(self).data == old(self).data
                    &&& !final(self).loading
                    &&& !final(self).waiting
                    &&& final(self).error == old(self).error
                },
            },
    {
        match message {
            Poll::Ready(Ok(data)) => {
                self.data = Some(data);
                self.loading = false;
                self.error = None;
                self.waiting = false;
            },
            Poll::Ready(Err(e)) => {
                self.loading = false;
                self.error = Some(e);
                self.waiting = false;
            },
            Poll::Empty => {},
            Poll::Closed => {
                self.loading = false;
                self.waiting = false;
            },
        }
    }

    /// Tells the user something, where there is something to tell.
    pub fn say(&mut self, message: Option<String>)
        ensures
            *final(self) == match message {
                Some(m) => (Panel { message: Some(m), ..*old(self) }),
                None => *old(self),
            },
    {
        match message {
            Some(m) => {
                self.message = Some(m);
            },
            None => {},
        }
    }

    /// Takes in what came out of the channel of a cancellation or a deletion.
    /// After a success the lists are loaded anew.
    pub fn on_action(&mut self, message: Poll<Result<(), String>>)
        ensures
            final(self).tab == old(self).tab,
            final(self).loading == old(self).loading,
            final(self).waiting == old(self).waiting,
            final(self).error == old(self).error,
            final(self).edit == old(self).edit,
            match message {
                Poll::Ready(Ok(_)) => {
                    &&& final(self).data is None
                    &&& !final(self).acting
                    &&& final(self).message == old(self).message
                },
                Poll::Ready(Err(e)) => {
                    &&& final(self).data == old(self).data
                    &&& !final(self).acting
                    &&& opt_view(final(self).message) == Some("Akce selhala: "@ + e@)
                },
                Poll::Empty => *final(self) == *old(self),
                Poll::Closed => {
                    &&& final(self).data == old(self).data
                    &&& !final(self).acting
                    &&& final(self).message == old(self).message
                },
            },
    {
        match message {
            Poll::Ready(Ok(_)) => {
                self.data = None;
                self.acting = false;
            },
            Poll::Ready(Err(e)) => {
                let mut text = owned("Akce selhala: ");
                text.append(e.as_str());
                self.message = Some(text);
                self.acting = false;
            },
            Poll::Empty => {},
            Poll::Closed => {
                self.acting = false;
            },
        }
    }

    /// Takes in what came out of the channel of the saving of a rule. A success
    /// closes the form and loads the lists anew; an error is shown in the form.
    /// Without an open form, or where nothing is being saved, nothing happens.
    pub fn on_saved(&mut self, message: Poll<Result<(), String>>)
        ensures
            final(self).tab == old(self).tab,
            final(self).loading == old(self).loading,
            final(self).waiting == old(self).waiting,
            final(self).error == old(self).error,
            final(self).acting == old(self).acting,
            match old(self).edit {
                Some(form) if form.waiting => match message {
                    Poll::Ready(Ok(_)) => {
                        &&& final(self).edit is None
                        &&& opt_view(final(self).message) == Some("Pravidlo bylo uloženo."@)
                        &&& final(self).data is None
                    },
                    Poll::Ready(Err(e)) => {
                        &&& final(self).edit == Some(
                            AutorecEdit {
                                saving: false,
                                waiting: false,
                                error: Some(e),
                                ..form
                            },
                        )
                        &&& final(self).message == old(self).message
                        &&& final(self).data == old(self).data
                    },
                    Poll::Empty => *final(self) == *old(self),
                    Poll::Closed => {
                        &&& final(self).edit matches Some(f)
                        &&& opt_view(f.error) == Some("Spojení s vláknem bylo přerušeno."@)
                        &&& f == (AutorecEdit {
                            saving: false,
                            waiting: false,
                            error: f.error,
                            ..form
                        })
                        &&& final(self).message == old(self).message
                        &&& final(self).data == old(self).data
                    },
                },
                _ => *final(self) == *old(self),
            },
    {
        let saving = match &self.edit {
            Some(form) => form.waiting,
            None => false,
        };
        if !saving {
            return;
        }
        let failure: Option<String> = match message {
            Poll::Ready(Ok(_)) => {
                self.edit = None;
                self.message = Some(owned("Pravidlo bylo uloženo."));
                self.data = None;
                None
            },
            Poll::Ready(Err(e)) => Some(e),
            Poll::Empty => None,
            Poll::Closed => Some(owned("Spojení s vláknem bylo přerušeno.")),
        };
        match failure {
            Some(e) => {
                let mut edit: Option<AutorecEdit> = None;
                std::mem::swap(&mut edit, &mut self.edit);
                match edit {
                    Some(form) => {
                        self.edit = Some(
                            AutorecEdit {
                                node: form.node,
                                title: form.title,
                                enabled: form.enabled,
                                channel: form.channel,
                                weekdays: form.weekdays,
                                saving: false,
                                waiting: false,
                                error: Some(e),
                            },
                        );
                    },
                    None => {},
                }
            },
            None => {},
        }
    }
}

// ---- rows ---------------------------------------------------------------

/// A finished or failed recording as it is listed, the latest first.
#[derive(Debug)]
pub struct FinishedRow {
    pub entry: DvrEntry,
    pub failed: bool,
}

impl Keyed for FinishedRow {
    open spec fn key(self) -> int {
        -(self.entry.start as int)
    }

    fn get_key(&self) -> (r: i128) {
        -(self.entry.start as i128)
    }
}

impl Keyed for DvrEntry {
    open spec fn key(self) -> int {
        self.start as int
    }

    fn get_key(&self) -> (r: i128) {
        self.start as i128
    }
}

/// The finished recordings and the failed ones, in one list.
pub open spec fn finished_and_failed(finished: Seq<DvrEntry>, failed: Seq<DvrEntry>) -> Seq<
    FinishedRow,
> {
    finished.map_values(|e: DvrEntry| FinishedRow { entry: e, failed: false })
        + failed.map_values(|e: DvrEntry| FinishedRow { entry: e, failed: true })
}

/// The finished and the failed recordings in one list, the latest first.
pub fn finished_rows(data: &RecordingsData) -> (r: Vec<FinishedRow>)
    ensures
        r@ == sorted(finished_and_failed(data.finished@, data.failed@)),
{
    let ghost all = finished_and_failed(data.finished@, data.failed@);
    let mut rows: Vec<FinishedRow> = Vec::new();
    let n: usize = data.finished.len();
    for i in 0..n
        invariant
            n == data.finished@.len(),
            all == finished_and_failed(data.finished@, data.failed@),
            rows@ == all.take(i as int),
    {
        rows.push(FinishedRow { entry: data.finished[i].clone(), failed: false });
        proof {
            assert(rows@ =~= all.take(i + 1));
        }
    }
    let m: usize = data.failed.len();
    for i in 0..m
        invariant
            n == data.finished@.len(),
            m == data.failed@.len(),
            all == finished_and_failed(data.finished@, data.failed@),
            rows@ == all.take(n + i),
    {
        rows.push(FinishedRow { entry: data.failed[i].clone(), failed: true });
        proof {
            assert(rows@ =~= all.take(n + i + 1));
        }
    }
    proof {
        assert(all.take(n + m) =~= all);
    }
    sort(rows)
}

/// The timers, the next one first.
pub fn upcoming_rows(data: &RecordingsData) -> (r: Vec<DvrEntry>)
    ensures
        r@ == sorted(data.upcoming@),
{
    let mut rows: Vec<DvrEntry> = Vec::new();
    let n: usize = data.upcoming.len();
    for i in 0..n
        invariant
            n == data.upcoming@.len(),
            rows@ == data.upcoming@.take(i as int),
    {
        rows.push(data.upcoming[i].clone());
    }
    proof {
        assert(data.upcoming@.take(n as int) =~= data.upcoming@);
    }
    sort(rows)
}

/// Whether a timer is recording right now.
pub fn is_recording(entry: &DvrEntry) -> (r: bool)
    ensures
        r == (entry.sched_status@ == "recording"@),
{
    same_str(entry.sched_status.as_str(), "recording")
}

/// The channel and the times of an entry.
pub open spec fn when_text(e: DvrEntry, offsets: Offsets) -> Seq<char> {
    e.channelname@ + "  •  "@ + span_text(e.start as int, e.stop as int, offsets)
}

/// The channel and the times of a timer.
pub fn upcoming_label(entry: &DvrEntry, offsets: Offsets) -> (r: String)
    requires
        offsets.valid(),
    ensures
        r@ == when_text(*entry, offsets),
{
    let mut out = entry.channelname.clone();
    out.append("  •  ");
    out.append(format_span(entry.start, entry.stop, offsets).as_str());
    out
}

/// The channel, the times and the size of a recording.
pub fn finished_label(entry: &DvrEntry, offsets: Offsets) -> (r: String)
    requires
        offsets.valid(),
    ensures
        r@ == when_text(*entry, offsets) + "  •  "@ + size_text(entry.filesize as int),
{
    let mut out = upcoming_label(entry, offsets);
    out.append("  •  ");
    out.append(human_size(entry.filesize).as_str());
    out
}

/// What can be done with the file of a recording.
#[derive(Debug)]
pub enum RowFile {
    /// It is being downloaded.
    Downloading(DownloadState),
    /// It can be downloaded from and played from this URL.
    Available(String),
    /// There is no URL for it.
    Missing,
}

/// What can be done with the file of a recording.
pub fn row_file(uuid: &str, urls: &TextMap<String>, downloads: &Downloads) -> (r: RowFile)
    ensures
        downloads@.contains_key(uuid@) ==> r == RowFile::Downloading(downloads@[uuid@]),
        !downloads@.contains_key(uuid@) && urls@.contains_key(uuid@) ==> r == RowFile::Available(
            urls@[uuid@],
        ),
        !downloads@.contains_key(uuid@) && !urls@.contains_key(uuid@) ==> r is Missing,
{
    match downloads.get(uuid) {
        Some(s) => RowFile::Downloading(s),
        None => match urls.get(uuid) {
            Some(u) => RowFile::Available(u.clone()),
            None => RowFile::Missing,
        },
    }
}

/// What the download button does.
#[derive(Debug)]
pub enum DownloadClick {
    /// There is no folder yet: the user is sent to the settings to choose one
    /// and told so.
    ChooseFolder(String),
    /// Downloads into this folder under this name.
    Start { folder: String, name: String },
}

/// What the download button does, by the folder of the settings.
pub fn download_click(downloads_dir: &str, entry: &DvrEntry) -> (r: DownloadClick)
    ensures
        match r {
            DownloadClick::ChooseFolder(m) => trim(downloads_dir@).len() == 0 && m@
                == "Nejprve nastav složku pro stahování nahrávek."@,
            DownloadClick::Start { folder, name } => trim(downloads_dir@).len() > 0 && folder@
                == trim(downloads_dir@) && name@ == download_name(
                entry.disp_title@,
                entry.filename@,
            ),
        },
{
    let folder = trimmed_str(downloads_dir);
    if folder.as_str().is_empty() {
        DownloadClick::ChooseFolder(owned("Nejprve nastav složku pro stahování nahrávek."))
    } else {
        let name = safe_filename(entry.disp_title.as_str(), entry.filename.as_str());
        DownloadClick::Start { folder, name }
    }
}

/// What the play button does.
#[derive(Debug)]
pub enum PlayClick {
    /// The recording is downloaded under this name and given to the player.
    Embedded { title: String, name: String },
    /// Without a player the system is to open the URL.
    External,
}

/// What the play button does.
pub fn play_click(has_player: bool, entry: &DvrEntry) -> (r: PlayClick)
    ensures
        match r {
            PlayClick::Embedded { title, name } => has_player && title@ == entry.disp_title@
                && name@ == download_name(entry.disp_title@, entry.filename@),
            PlayClick::External => !has_player,
        },
{
    if has_player {
        PlayClick::Embedded {
            title: entry.disp_title.clone(),
            name: safe_filename(entry.disp_title.as_str(), entry.filename.as_str()),
        }
    } else {
        PlayClick::External
    }
}

/// What the recordings tab shows.
#[derive(Debug, Clone, Copy, PartialEq, Eq, Structural)]
pub enum PanelView {
    NotConnected,
    /// The lists are on their way.
    Loading,
    /// One of the lists.
    List(RecordingsTab),
}

impl Panel {
    /// What the recordings tab shows below the video.
    pub fn view(&self, connected: bool) -> (r: PanelView)
        ensures
            r == if !connected {
                PanelView::NotConnected
            } else if self.data is None {
                PanelView::Loading
            } else {
                PanelView::List(self.tab)
            },
    {
        if !connected {
            PanelView::NotConnected
        } else if self.data.is_none() {
            PanelView::Loading
        } else {
            PanelView::List(self.tab)
        }
    }
}

/// What is said of a recording that was scheduled from the guide, once or for
/// every time.
pub fn scheduled_message(recurring: bool) -> (r: String)
    ensures
        r@ == if recurring {
            "Opakující se nahrávání bylo vytvořeno."@
        } else {
            "Nahrávání bylo naplánováno."@
        },
{
    if recurring {
        owned("Opakující se nahrávání bylo vytvořeno.")
    } else {
        owned("Nahrávání bylo naplánováno.")
    }
}

/// What is said of lists that could not be loaded.
pub fn loading_error(error: &str) -> (r: String)
    ensures
        r@ == "Načtení nahrávek selhalo: "@ + error@,
{
    let mut out = owned("Načtení nahrávek selhalo: ");
    out.append(error);
    out
}

// ---- laws ---------------------------------------------------------------

/// The list of the finished and failed recordings holds each of them once, and
/// none stands above a later one.
pub proof fn law_finished_rows(finished: Seq<DvrEntry>, failed: Seq<DvrEntry>)
    ensures
        sorted(finished_and_failed(finished, failed)).len() == finished.len() + failed.len(),
        sorted(finished_and_failed(finished, failed)).to_multiset() == finished_and_failed(
            finished,
            failed,
        ).to_multiset(),
        forall|i: int, j: int|
            #![trigger sorted(finished_and_failed(finished, failed))[i], sorted(
                finished_and_failed(finished, failed),
            )[j]]
            0 <= i <= j < finished.len() + failed.len() ==> sorted(
                finished_and_failed(finished, failed),
            )[i].entry.start >= sorted(finished_and_failed(finished, failed))[j].entry.start,
{
    let all = finished_and_failed(finished, failed);
    law_sorted(all);
    assert forall|i: int, j: int| 0 <= i <= j < all.len() implies #[trigger] sorted(
        all,
    )[i].entry.start >= #[trigger] sorted(all)[j].entry.start by {
        assert(sorted(all)[i].key() <= sorted(all)[j].key());
    }
}

/// The list of the finished and failed recordings, before it is sorted, holds
/// each finished one as such and each failed one as such.
pub proof fn law_rows_marked(finished: Seq<DvrEntry>, failed: Seq<DvrEntry>, i: int)
    ensures
        finished_and_failed(finished, failed).len() == finished.len() + failed.len(),
        0 <= i < finished.len() ==> finished_and_failed(finished, failed)[i].entry == finished[i]
            && !finished_and_failed(finished, failed)[i].failed,
        0 <= i < failed.len() ==> finished_and_failed(finished, failed)[finished.len() + i].entry
            == failed[i] && finished_and_failed(finished, failed)[finished.len() + i].failed,
{
}

/// The timers are listed by their starts, the next one first, and each of them
/// once.
pub proof fn law_upcoming_rows(upcoming: Seq<DvrEntry>, i: int, j: int)
    requires
        0 <= i <= j < upcoming.len(),
    ensures
        sorted(upcoming).len() == upcoming.len(),
        sorted(upcoming).to_multiset() == upcoming.to_multiset(),
        sorted(upcoming)[i].start <= sorted(upcoming)[j].start,
{
    law_sorted(upcoming);
    sorted(upcoming).to_multiset_ensures();
    upcoming.to_multiset_ensures();
    assert(sorted(upcoming)[i].key() <= sorted(upcoming)[j].key());
}

/// A row tells the whole name of the channel, then the times.
pub proof fn law_when(e: DvrEntry, offsets: Offsets)
    ensures
        when_text(e, offsets).take(e.channelname@.len() as int) == e.channelname@,
        when_text(e, offsets).skip(e.channelname@.len() as int) == "  •  "@ + span_text(
            e.start as int,
            e.stop as int,
            offsets,
        ),
{
    assert(when_text(e, offsets).take(e.channelname@.len() as int) =~= e.channelname@);
    assert(when_text(e, offsets).skip(e.channelname@.len() as int) =~= "  •  "@ + span_text(
        e.start as int,
        e.stop as int,
        offsets,
    ));
}

/// What has nothing to do with the lists stays the same while they are loaded.
pub proof fn law_same_rest(a: Panel, b: Panel)
    requires
        a.same_rest(b),
    ensures
        a.tab == b.tab,
        a.message == b.message,
        a.acting == b.acting,
        a.edit == b.edit,
{
}

} // verus!
