//! Recordings: what there is to show of them, and the download of their files.
use vstd::prelude::*;
use vstd::slice::slice_subrange;
use vstd::string::*;

use crate::json::Json;
use crate::numbers::{decimal, digits, fixed_digits, push_digits, push_fixed};
use crate::outside::{canonical_reason, reason_of};
use crate::text::{
    chars_of, is_white_space, last_char_position, last_index_of, opt_view, owned, same, string_of,
    trim, trim_end, trim_start, trimmed,
};
use crate::text_map::TextMap;
use crate::tvh::DvrEntry;

verus! {

// ---- sizes --------------------------------------------------------------

/// `num` over `den` rounded to the nearest integer, a half to the even one.
pub open spec fn half_even(num: nat, den: nat) -> nat {
    let q = num / den;
    let r = num % den;
    if 2 * r < den || (2 * r == den && q % 2 == 0) {
        q
    } else {
        q + 1
    }
}

/// The distance of the integers near `n` that have 53 significant bits.
pub open spec fn step53(n: nat) -> nat
    decreases n,
{
    if n < 9007199254740992 {
        1
    } else {
        2 * step53(n / 2)
    }
}

/// The integer nearest to `n` that has 53 significant bits.
pub open spec fn round53(n: nat) -> nat {
    half_even(n, step53(n)) * step53(n)
}

/// The unit that a size is shown in: B, KB, MB, GB and TB from 0 on.
pub open spec fn unit_of(n: nat) -> nat {
    if n < 1024 {
        0
    } else if n < 1048576 {
        1
    } else if n < 1073741824 {
        2
    } else if n < 1099511627776 {
        3
    } else {
        4
    }
}

/// The number of bytes in a unit.
pub open spec fn unit_size(unit: nat) -> nat {
    if unit == 0 {
        1
    } else if unit == 1 {
        1024
    } else if unit == 2 {
        1048576
    } else if unit == 3 {
        1073741824
    } else {
        1099511627776
    }
}

/// The name of a unit.
pub open spec fn unit_name(unit: nat) -> Seq<char> {
    if unit == 0 {
        "B"@
    } else if unit == 1 {
        "KB"@
    } else if unit == 2 {
        "MB"@
    } else if unit == 3 {
        "GB"@
    } else {
        "TB"@
    }
}

/// A number of bytes for people: bytes as they are, the larger units to two
/// decimals. The size is taken to 53 significant bits.
pub open spec fn size_text(bytes: int) -> Seq<char> {
    let n = round53(
        if bytes < 0 {
            0
        } else {
            bytes as nat
        },
    );
    let unit = unit_of(n);
    if unit == 0 {
        digits(n, 10).push(' ') + unit_name(unit)
    } else {
        let hundredths = half_even(n * 100, unit_size(unit));
        digits(hundredths / 100, 10).push('.') + fixed_digits(hundredths % 100, 10, 2).push(' ')
            + unit_name(unit)
    }
}

/// `num` over `den` rounded to the nearest integer, a half to the even one.
fn rounded(num: u128, den: u128) -> (r: u128)
    requires
        1 <= den <= 0x1_0000_0000_0000_0000_0000_0000,
        num <= 0x1_0000_0000_0000_0000_0000_0000,
    ensures
        r == half_even(num as nat, den as nat),
        r <= num + 1,
{
    let q: u128 = num / den;
    let rest: u128 = num % den;
    proof {
        assert(q <= num) by (nonlinear_arith)
            requires
                q == num / den,
                den >= 1,
        ;
        assert(rest < den);
    }
    if 2 * rest < den || (2 * rest == den && q % 2 == 0) {
        q
    } else {
        q + 1
    }
}

/// The distance of the integers near `n` that have 53 significant bits.
fn step_at(n: u128) -> (r: u128)
    requires
        n <= 0x7fff_ffff_ffff_ffff,
    ensures
        r == step53(n as nat),
        1 <= r,
        r <= n || r == 1,
    decreases n,
{
    if n < 9007199254740992 {
        1
    } else {
        2 * step_at(n / 2)
    }
}

/// `1234567890` bytes give `"1.15 GB"`.
pub fn human_size(bytes: i64) -> (r: String)
    ensures
        r@ == size_text(bytes as int),
{
    let given: u128 = if bytes < 0 {
        0
    } else {
        bytes as u128
    };
    let step: u128 = step_at(given);
    let whole: u128 = rounded(given, step);
    proof {
        let g = given as int;
        let s = step as int;
        assert(whole <= g / s + 1);
        assert(whole * s <= g + s) by (nonlinear_arith)
            requires
                whole <= g / s + 1,
                s >= 1,
                g >= 0,
                whole >= 0,
        ;
    }
    let n: u128 = whole * step;
    let (unit, size, name): (u8, u128, &'static str) = if n < 1024 {
        (0, 1, "B")
    } else if n < 1048576 {
        (1, 1024, "KB")
    } else if n < 1073741824 {
        (2, 1048576, "MB")
    } else if n < 1099511627776 {
        (3, 1073741824, "GB")
    } else {
        (4, 1099511627776, "TB")
    };
    let mut out = String::new();
    if unit == 0 {
        push_digits(&mut out, n, 10);
        out.push(' ');
        out.append(name);
        proof {
            assert(out@ =~= size_text(bytes as int));
        }
    } else {
        let hundredths: u128 = rounded(n * 100, size);
        push_digits(&mut out, hundredths / 100, 10);
        out.push('.');
        push_fixed(&mut out, (hundredths % 100) as u64, 10, 2);
        out.push(' ');
        out.append(name);
        proof {
            assert(out@ =~= size_text(bytes as int));
        }
    }
    out
}

// ---- file names ---------------------------------------------------------

/// The characters that no name of a file may hold on some system.
pub open spec fn is_forbidden(c: char) -> bool {
    c == '<' || c == '>' || c == ':' || c == '"' || c == '/' || c == '\\' || c == '|' || c == '?'
        || c == '*'
}

/// A text with an underscore for every forbidden character.
pub open spec fn cleaned(s: Seq<char>) -> Seq<char> {
    s.map_values(
        |c: char|
            if is_forbidden(c) {
                '_'
            } else {
                c
            },
    )
}

/// The part of a path behind the letter of a drive, where it begins with one.
pub open spec fn without_drive(path: Seq<char>) -> Seq<char> {
    if path.len() >= 2 && ('a' <= path[0] <= 'z' || 'A' <= path[0] <= 'Z') && path[1] == ':' {
        path.subrange(2, path.len() as int)
    } else {
        path
    }
}

/// A path with a slash for every backslash: both part its components.
pub open spec fn with_slashes(path: Seq<char>) -> Seq<char> {
    path.map_values(
        |c: char|
            if c == '\\' {
                '/'
            } else {
                c
            },
    )
}

/// The last component of a path: what follows the last slash, where trailing
/// slashes and components `.` do not count.
pub open spec fn last_component(path: Seq<char>) -> Seq<char>
    decreases path.len(),
{
    match last_index_of(path, '/') {
        Some(i) => if 0 <= i < path.len() {
            let name = path.subrange(i + 1, path.len() as int);
            if name.len() == 0 || name == "."@ {
                last_component(path.subrange(0, i))
            } else {
                name
            }
        } else {
            path
        },
        None => if path == "."@ {
            Seq::empty()
        } else {
            path
        },
    }
}

/// The extension of a file: what follows the last dot of its name, unless the
/// name begins there. The server's paths can be those of any system.
pub open spec fn extension_of(path: Seq<char>) -> Option<Seq<char>> {
    let name = last_component(with_slashes(without_drive(path)));
    if name == ".."@ {
        None
    } else {
        match last_index_of(name, '.') {
            Some(i) => if i > 0 {
                Some(name.subrange(i + 1, name.len() as int))
            } else {
                None
            },
            None => None,
        }
    }
}

/// The name for a download: the title, without forbidden characters and white
/// space around it, and the extension of the file on the server.
pub open spec fn download_name(title: Seq<char>, server_filename: Seq<char>) -> Seq<char> {
    let t = trim(cleaned(title));
    let base = if t.len() == 0 {
        "nahravka"@
    } else {
        t
    };
    let extension = match extension_of(server_filename) {
        Some(e) => e,
        None => "ts"@,
    };
    base + "."@ + cleaned(extension)
}

/// `s` with an underscore for every forbidden character.
fn clean(s: &[char]) -> (r: Vec<char>)
    ensures
        r@ == cleaned(s@),
{
    let n: usize = s.len();
    let mut out: Vec<char> = Vec::new();
    for i in 0..n
        invariant
            n == s@.len(),
            out@ == cleaned(s@).take(i as int),
    {
        let c = s[i];
        if c == '<' || c == '>' || c == ':' || c == '"' || c == '/' || c == '\\' || c == '|' || c
            == '?' || c == '*' {
            out.push('_');
        } else {
            out.push(c);
        }
        proof {
            assert(out@ =~= cleaned(s@).take(i + 1));
        }
    }
    proof {
        assert(cleaned(s@).take(n as int) =~= cleaned(s@));
    }
    out
}

/// The last component of a path.
fn component<'a>(path: &'a [char]) -> (r: &'a [char])
    ensures
        r@ == last_component(path@),
{
    let dot = chars_of(".");
    let mut rest: &'a [char] = path;
    loop
        invariant
            dot@ == "."@,
            last_component(path@) == last_component(rest@),
        decreases rest@.len(),
    {
        let n: usize = rest.len();
        match last_char_position(rest, '/') {
            Some(i) => {
                let name: &'a [char] = slice_subrange(rest, i + 1, n);
                if name.len() == 0 || same(name, dot.as_slice()) {
                    rest = slice_subrange(rest, 0, i);
                } else {
                    return name;
                }
            },
            None => {
                if same(rest, dot.as_slice()) {
                    let none: &'a [char] = slice_subrange(rest, n, n);
                    proof {
                        assert(none@ =~= Seq::<char>::empty());
                    }
                    return none;
                } else {
                    return rest;
                }
            },
        }
    }
}

/// A path without the letter of a drive, with a slash for every backslash.
fn plain_path(path: &[char]) -> (r: Vec<char>)
    ensures
        r@ == with_slashes(without_drive(path@)),
{
    let n: usize = path.len();
    let from: usize = if n >= 2 && (('a' <= path[0] && path[0] <= 'z') || ('A' <= path[0] && path[0]
        <= 'Z')) && path[1] == ':' {
        2
    } else {
        0
    };
    let ghost rest = without_drive(path@);
    let mut out: Vec<char> = Vec::new();
    for i in from..n
        invariant
            n == path@.len(),
            from <= n,
            rest == path@.subrange(from as int, n as int),
            out@ == with_slashes(rest).take(i - from),
    {
        let c = path[i];
        if c == '\\' {
            out.push('/');
        } else {
            out.push(c);
        }
        proof {
            assert(out@ =~= with_slashes(rest).take(i + 1 - from));
        }
    }
    proof {
        assert(with_slashes(rest).take(n - from) =~= with_slashes(rest));
    }
    out
}

/// The extension of a file.
fn extension(path: &[char]) -> (r: Option<String>)
    ensures
        opt_view(r) == extension_of(path@),
{
    let plain = plain_path(path);
    let name = component(plain.as_slice());
    let n: usize = name.len();
    if same(name, chars_of("..").as_slice()) {
        return None;
    }
    match last_char_position(name, '.') {
        Some(i) => if i > 0 {
            Some(string_of(slice_subrange(name, i + 1, n)))
        } else {
            None
        },
        None => None,
    }
}

/// A name for a download that every file system takes, made from a recording's
/// title, with the extension of the file on the server, or `.ts`, TVHeadend's
/// usual format, where that has none.
pub fn safe_filename(title: &str, server_filename: &str) -> (r: String)
    ensures
        r@ == download_name(title@, server_filename@),
{
    let whole = clean(chars_of(title).as_slice());
    let base = trimmed(whole.as_slice());
    let mut out = if base.len() == 0 {
        owned("nahravka")
    } else {
        string_of(base)
    };
    out.append(".");
    let extension = match extension(chars_of(server_filename).as_slice()) {
        Some(e) => e,
        None => owned("ts"),
    };
    out.append(string_of(clean(chars_of(extension.as_str()).as_slice()).as_slice()).as_str());
    out
}

// ---- downloads ----------------------------------------------------------

/// The pause and cancel switches of one running download, looked at between
/// the chunks that it reads. While it is paused nothing is read and the
/// connection stays open; a cancelled download stops and its partial file is
/// deleted.
#[derive(Debug)]
pub struct DownloadControl {
    paused: bool,
    cancelled: bool,
}

/// What a download does next.
#[derive(Debug, Clone, Copy, PartialEq, Eq, Structural)]
pub enum NextRead {
    Stop,
    Wait,
    Read,
}

impl DownloadControl {
    /// Whether the download is paused.
    pub closed spec fn paused(self) -> bool {
        self.paused
    }

    /// Whether the download is cancelled.
    pub closed spec fn cancelled(self) -> bool {
        self.cancelled
    }

    /// The switches of a download that runs.
    pub fn new() -> (r: Self)
        ensures
            !r.paused(),
            !r.cancelled(),
    {
        DownloadControl { paused: false, cancelled: false }
    }

    /// Pauses or resumes the download.
    pub fn set_paused(&mut self, paused: bool)
        ensures
            final(self).paused() == paused,
            final(self).cancelled() == old(self).cancelled(),
    {
        self.paused = paused;
    }

    /// Whether the download is paused.
    pub fn is_paused(&self) -> (r: bool)
        ensures
            r == self.paused(),
    {
        self.paused
    }

    /// Cancels the download, for good.
    pub fn cancel(&mut self)
        ensures
            final(self).cancelled(),
            final(self).paused() == old(self).paused(),
    {
        self.cancelled = true;
    }

    /// Whether the download is cancelled.
    pub fn is_cancelled(&self) -> (r: bool)
        ensures
            r == self.cancelled(),
    {
        self.cancelled
    }

    /// What the download does next: a cancelled one stops, paused or not.
    pub fn next(&self) -> (r: NextRead)
        ensures
            r == if self.cancelled() {
                NextRead::Stop
            } else if self.paused() {
                NextRead::Wait
            } else {
                NextRead::Read
            },
    {
        if self.cancelled {
            NextRead::Stop
        } else if self.paused {
            NextRead::Wait
        } else {
            NextRead::Read
        }
    }
}

/// One update from a running download. `Progress` comes a few times a second;
/// one of the others is always the last.
#[derive(Debug)]
pub enum DownloadUpdate {
    Progress { downloaded: u64, total: Option<u64> },
    Done(String),
    Cancelled,
    Error(String),
}

/// The text of an update.
pub enum UpdateView {
    Progress { downloaded: u64, total: Option<u64> },
    Done(Seq<char>),
    Cancelled,
    Error(Seq<char>),
}

impl View for DownloadUpdate {
    type V = UpdateView;

    open spec fn view(&self) -> UpdateView {
        match self {
            DownloadUpdate::Progress { downloaded, total } => UpdateView::Progress {
                downloaded: *downloaded,
                total: *total,
            },
            DownloadUpdate::Done(path) => UpdateView::Done(path@),
            DownloadUpdate::Cancelled => UpdateView::Cancelled,
            DownloadUpdate::Error(e) => UpdateView::Error(e@),
        }
    }
}

impl UpdateView {
    /// Whether nothing comes after the update.
    pub open spec fn is_last(self) -> bool {
        !(self is Progress)
    }
}

/// The views of a list of updates.
pub open spec fn update_views(s: Seq<DownloadUpdate>) -> Seq<UpdateView> {
    s.map_values(|u: DownloadUpdate| u@)
}

/// After how many milliseconds, at least, one `Progress` follows another.
pub const PROGRESS_INTERVAL_MS: u64 = 150;

/// How long a paused download sleeps before it looks at its switches again.
pub const PAUSE_POLL_MS: u64 = 200;

/// What happened to a download.
#[derive(Debug)]
pub enum TransferEvent {
    /// The server answered with this status.
    Answered { status: u16, total: Option<u64> },
    /// A chunk of this many bytes was read and written, this long after the
    /// last `Progress`.
    Chunk { len: usize, since_progress_ms: u64 },
    /// The whole file was read.
    End,
    /// The download was found cancelled.
    Stopped,
    /// Something else went wrong.
    Failed(String),
}

/// What to do after an event: whether to delete the file, and what to report,
/// in this order.
#[derive(Debug)]
pub struct Effect {
    pub remove_file: bool,
    pub updates: Vec<DownloadUpdate>,
}

/// A running download.
#[derive(Debug)]
pub struct Transfer {
    path: String,
    downloaded: u64,
    total: Option<u64>,
    finished: bool,
}

/// Where a download is.
pub struct TransferView {
    pub path: Seq<char>,
    pub downloaded: int,
    pub total: Option<u64>,
    pub finished: bool,
}

impl View for Transfer {
    type V = TransferView;

    closed spec fn view(&self) -> TransferView {
        TransferView {
            path: self.path@,
            downloaded: self.downloaded as int,
            total: self.total,
            finished: self.finished,
        }
    }
}

/// A status code as text, with its standard phrase.
pub open spec fn status_text(status: u16, reason: Option<Seq<char>>) -> Seq<char> {
    decimal(status as int).push(' ') + match reason {
        Some(r) => r,
        None => "<unknown status code>"@,
    }
}

/// A status code as text, by its standard phrase.
pub fn status_line(status: u16, reason: Option<String>) -> (r: String)
    ensures
        r@ == status_text(status, opt_view(reason)),
{
    let mut out = String::new();
    push_digits(&mut out, status as u128, 10);
    out.push(' ');
    proof {
        assert(out@ =~= decimal(status as int).push(' '));
    }
    match reason {
        Some(r) => out.append(r.as_str()),
        None => out.append("<unknown status code>"),
    }
    out
}

/// What is said of a download that the server refused.
pub open spec fn refused_text(status: u16) -> Seq<char> {
    "Server odpověděl chybou "@ + status_text(status, reason_of(status))
}

/// The update on how much has arrived.
pub open spec fn progress_update(t: TransferView) -> UpdateView {
    UpdateView::Progress { downloaded: t.downloaded as u64, total: t.total }
}

/// Where a download is after an event. One that is finished stays as it is.
pub open spec fn transfer_after(t: TransferView, event: TransferEvent) -> TransferView {
    if t.finished {
        t
    } else {
        match event {
            TransferEvent::Answered { status, total } => if 200 <= status < 300 {
                TransferView { total, ..t }
            } else {
                TransferView { finished: true, ..t }
            },
            TransferEvent::Chunk { len, .. } => TransferView {
                downloaded: t.downloaded + len,
                ..t
            },
            _ => TransferView { finished: true, ..t },
        }
    }
}

/// What a download reports at an event.
pub open spec fn transfer_reports(t: TransferView, event: TransferEvent) -> Seq<UpdateView> {
    if t.finished {
        Seq::empty()
    } else {
        match event {
            TransferEvent::Answered { status, .. } => if 200 <= status < 300 {
                Seq::empty()
            } else {
                seq![UpdateView::Error(refused_text(status))]
            },
            TransferEvent::Chunk { since_progress_ms, .. } => if since_progress_ms
                >= PROGRESS_INTERVAL_MS {
                seq![progress_update(transfer_after(t, event))]
            } else {
                Seq::empty()
            },
            TransferEvent::End => seq![progress_update(t), UpdateView::Done(t.path)],
            TransferEvent::Stopped => seq![UpdateView::Cancelled],
            TransferEvent::Failed(e) => seq![UpdateView::Error(e@)],
        }
    }
}

/// Whether a download's file is deleted at an event: it is whenever the
/// download ends otherwise than by reading the whole file.
pub open spec fn transfer_removes(t: TransferView, event: TransferEvent) -> bool {
    !t.finished && transfer_after(t, event).finished && !(event is End)
}

impl Transfer {
    /// A download into the file `path`.
    pub fn new(path: &str) -> (r: Self)
        ensures
            r@ == (TransferView {
                path: path@,
                downloaded: 0,
                total: None,
                finished: false,
            }),
    {
        Transfer { path: owned(path), downloaded: 0, total: None, finished: false }
    }

    /// Whether the download has ended.
    pub fn is_finished(&self) -> (r: bool)
        ensures
            r == self@.finished,
    {
        self.finished
    }

    /// Takes in what happened and says what to do.
    pub fn on_event(&mut self, event: TransferEvent) -> (r: Effect)
        requires
            event matches TransferEvent::Chunk { len, .. } ==> old(self)@.downloaded + len
                <= u64::MAX,
        ensures
            final(self)@ == transfer_after(old(self)@, event),
            update_views(r.updates@) == transfer_reports(old(self)@, event),
            r.remove_file == transfer_removes(old(self)@, event),
    {
        let ghost before = self@;
        let mut updates: Vec<DownloadUpdate> = Vec::new();
        let mut remove_file = false;
        if !self.finished {
            match event {
                TransferEvent::Answered { status, total } => {
                    if 200 <= status && status < 300 {
                        self.total = total;
                    } else {
                        let mut text = owned("Server odpověděl chybou ");
                        text.append(status_line(status, canonical_reason(status)).as_str());
                        updates.push(DownloadUpdate::Error(text));
                        remove_file = true;
                        self.finished = true;
                    }
                },
                TransferEvent::Chunk { len, since_progress_ms } => {
                    self.downloaded = self.downloaded + len as u64;
                    if since_progress_ms >= PROGRESS_INTERVAL_MS {
                        updates.push(
                            DownloadUpdate::Progress {
                                downloaded: self.downloaded,
                                total: self.total,
                            },
                        );
                    }
                },
                TransferEvent::End => {
                    updates.push(
                        DownloadUpdate::Progress {
                            downloaded: self.downloaded,
                            total: self.total,
                        },
                    );
                    updates.push(DownloadUpdate::Done(self.path.clone()));
                    self.finished = true;
                },
                TransferEvent::Stopped => {
                    updates.push(DownloadUpdate::Cancelled);
                    remove_file = true;
                    self.finished = true;
                },
                TransferEvent::Failed(e) => {
                    updates.push(DownloadUpdate::Error(e));
                    remove_file = true;
                    self.finished = true;
                },
            }
        }
        proof {
            assert(update_views(updates@) =~= transfer_reports(before, event));
        }
        Effect { remove_file, updates }
    }
}

// ---- the lists ----------------------------------------------------------

/// Everything that is shown of recordings, fetched together so that the lists
/// reflect the same moment.
#[derive(Debug)]
pub struct RecordingsData {
    pub upcoming: Vec<DvrEntry>,
    pub finished: Vec<DvrEntry>,
    pub failed: Vec<DvrEntry>,
    pub autorec: Vec<Json>,
    /// URLs by the uuid of the recording. Where one is missing, the recording
    /// can be neither played nor downloaded.
    pub urls: TextMap<String>,
}

/// How long each of the requests for the lists may take, in seconds.
pub const FETCH_TIMEOUT_SECS: u64 = 30;

// ---- laws ---------------------------------------------------------------

/// Trimming keeps only characters that were there.
proof fn lemma_trim_keeps(s: Seq<char>, i: int)
    requires
        0 <= i < trim(s).len(),
    ensures
        s.contains(trim(s)[i]),
{
    lemma_trim_end_keeps(trim_start(s), i);
    let c = trim(s)[i];
    let j = choose|j: int| 0 <= j < trim_start(s).len() && trim_start(s)[j] == c;
    lemma_trim_start_keeps(s, j);
}

proof fn lemma_trim_start_keeps(s: Seq<char>, i: int)
    requires
        0 <= i < trim_start(s).len(),
    ensures
        s.contains(trim_start(s)[i]),
    decreases s.len(),
{
    if s.len() > 0 && is_white_space(s[0]) {
        let t = s.subrange(1, s.len() as int);
        lemma_trim_start_keeps(t, i);
        let j = choose|j: int| 0 <= j < t.len() && t[j] == trim_start(s)[i];
        assert(s[j + 1] == trim_start(s)[i]);
    }
}

proof fn lemma_trim_end_keeps(s: Seq<char>, i: int)
    requires
        0 <= i < trim_end(s).len(),
    ensures
        s.contains(trim_end(s)[i]),
    decreases s.len(),
{
    if s.len() > 0 && is_white_space(s.last()) {
        let t = s.drop_last();
        lemma_trim_end_keeps(t, i);
        let j = choose|j: int| 0 <= j < t.len() && t[j] == trim_end(s)[i];
        assert(s[j] == trim_end(s)[i]);
    }
}

/// The name of a download holds no forbidden character, whatever the title and
/// the file on the server are called.
pub proof fn law_download_name_is_safe(title: Seq<char>, server_filename: Seq<char>)
    ensures
        forall|i: int|
            0 <= i < download_name(title, server_filename).len() ==> !is_forbidden(
                #[trigger] download_name(title, server_filename)[i],
            ),
        download_name(title, server_filename).len() > 1,
{
    reveal_strlit("nahravka");
    reveal_strlit(".");
    reveal_strlit("ts");
    let t = trim(cleaned(title));
    let base = if t.len() == 0 {
        "nahravka"@
    } else {
        t
    };
    assert forall|i: int| 0 <= i < base.len() implies !is_forbidden(#[trigger] base[i]) by {
        if t.len() > 0 {
            lemma_trim_keeps(cleaned(title), i);
            let j = choose|j: int| 0 <= j < cleaned(title).len() && cleaned(title)[j] == base[i];
        }
    }
}

/// Where a download is after the events below `n`, and all that it reported.
pub open spec fn transfer_run(t: TransferView, es: Seq<TransferEvent>, n: int) -> (
    TransferView,
    Seq<UpdateView>,
)
    decreases n,
{
    if n <= 0 {
        (t, Seq::empty())
    } else {
        let (s, reports) = transfer_run(t, es, n - 1);
        (transfer_after(s, es[n - 1]), reports + transfer_reports(s, es[n - 1]))
    }
}

/// Of all that a download reports, exactly the last report of one that has
/// ended says how it ended; a download that goes on has only told its progress.
pub proof fn law_one_last_report(t: TransferView, es: Seq<TransferEvent>, n: int)
    requires
        !t.finished,
        0 <= n <= es.len(),
    ensures
        transfer_run(t, es, n).0.finished <==> transfer_run(t, es, n).1.len() > 0 && transfer_run(
            t,
            es,
            n,
        ).1.last().is_last(),
        forall|i: int|
            0 <= i < transfer_run(t, es, n).1.len() - 1 ==> !(#[trigger] transfer_run(
                t,
                es,
                n,
            ).1[i]).is_last(),
    decreases n,
{
    if n > 0 {
        law_one_last_report(t, es, n - 1);
        let (s, reports) = transfer_run(t, es, n - 1);
        let new = transfer_reports(s, es[n - 1]);
        let all = transfer_run(t, es, n).1;
        assert(all == reports + new);
        if s.finished {
            assert(all =~= reports);
        } else {
            assert forall|i: int| 0 <= i < all.len() - 1 implies !(#[trigger] all[i]).is_last() by {
                if i < reports.len() - 1 {
                    assert(all[i] == reports[i]);
                } else if i < reports.len() {
                    assert(all[i] == reports.last());
                } else {
                    assert(all[i] == new[i - reports.len()]);
                }
            }
            if new.len() > 0 {
                assert(all.last() == new.last());
            } else {
                assert(all =~= reports);
            }
        }
    }
}

/// A download whose file is kept has read all of it; any other that has ended
/// had its file deleted.
pub proof fn law_partial_file_is_deleted(t: TransferView, event: TransferEvent)
    requires
        !t.finished,
        transfer_after(t, event).finished,
    ensures
        transfer_removes(t, event) <==> !(transfer_reports(t, event).last() is Done),
{
}

/// The nearest integer is at most half a unit away, and where two are, it is
/// the even one.
proof fn lemma_half_even(num: nat, den: nat)
    requires
        den > 0,
    ensures
        2 * num <= 2 * half_even(num, den) * den + den,
        2 * half_even(num, den) * den <= 2 * num + den,
        2 * num == 2 * half_even(num, den) * den + den || 2 * half_even(num, den) * den == 2 * num
            + den ==> half_even(num, den) % 2 == 0,
{
    let q = num / den;
    let r = num % den;
    assert(num == q * den + r && r < den) by (nonlinear_arith)
        requires
            q == num / den,
            r == num % den,
            den > 0,
    ;
    assert(2 * q * den == 2 * (q * den)) by (nonlinear_arith);
    assert(2 * (q + 1) * den == 2 * (q * den) + 2 * den) by (nonlinear_arith);
}

/// Numbers below the 53rd power of two are taken as they are.
proof fn lemma_round53(n: nat)
    ensures
        n < 9007199254740992 ==> round53(n) == n,
        n >= 9007199254740992 ==> step53(n) * 4503599627370496 <= n,
        step53(n) >= 1,
    decreases n,
{
    if n < 9007199254740992 {
        assert(n / 1 == n && n % 1 == 0);
        assert(half_even(n, 1) == n);
        assert(step53(n) == 1);
        assert(half_even(n, 1) * 1 == n);
    } else {
        lemma_round53(n / 2);
        if n / 2 < 9007199254740992 {
            assert(step53(n / 2) == 1);
        }
    }
}

/// Whether `h` hundredths of a unit are the nearest to a number of bytes, of
/// two equally near ones the even one.
pub open spec fn nearest(h: nat, bytes: nat, unit: nat) -> bool {
    &&& 200 * bytes <= 2 * h * unit + unit
    &&& 2 * h * unit <= 200 * bytes + unit
    &&& 200 * bytes == 2 * h * unit + unit || 2 * h * unit == 200 * bytes + unit ==> h % 2 == 0
}

/// A number with two decimals, then a space and a unit.
pub open spec fn in_hundredths(h: nat, unit: Seq<char>) -> Seq<char> {
    decimal((h / 100) as int) + seq!['.'] + fixed_digits(h % 100, 10, 2) + seq![' '] + unit
}

/// A size below a kilobyte is told in bytes, any other in the largest of
/// kilobytes, megabytes, gigabytes and terabytes that it reaches, each 1024 of
/// the one before, to the nearest hundredth. A negative size counts as none.
/// Sizes from the 53rd power of two on are first taken to 53 significant bits.
#[verifier::rlimit(50)]
pub proof fn law_size(bytes: int)
    ensures
        bytes < 0 ==> size_text(bytes) == size_text(0),
        0 <= bytes < 1024 ==> size_text(bytes) == decimal(bytes) + " B"@,
        1024 <= bytes < 1024 * 1024 ==> exists|h: nat|
            nearest(h, bytes as nat, 1024) && size_text(bytes) == #[trigger] in_hundredths(h, "KB"@),
        1024 * 1024 <= bytes < 1024 * 1024 * 1024 ==> exists|h: nat|
            nearest(h, bytes as nat, 1024 * 1024) && size_text(bytes) == #[trigger] in_hundredths(
                h,
                "MB"@,
            ),
        1024 * 1024 * 1024 <= bytes < 1024 * 1024 * 1024 * 1024 ==> exists|h: nat|
            nearest(h, bytes as nat, 1024 * 1024 * 1024) && size_text(bytes)
                == #[trigger] in_hundredths(h, "GB"@),
        1024 * 1024 * 1024 * 1024 <= bytes < 9007199254740992 ==> exists|h: nat|
            nearest(h, bytes as nat, 1024 * 1024 * 1024 * 1024) && size_text(bytes)
                == #[trigger] in_hundredths(h, "TB"@),
        bytes >= 9007199254740992 ==> exists|near: nat, h: nat|
            -(bytes / 4503599627370496) <= 2 * (near - bytes) <= bytes / 4503599627370496
                && #[trigger] nearest(h, near, 1024 * 1024 * 1024 * 1024) && size_text(bytes)
                == #[trigger] in_hundredths(h, "TB"@),
{
    reveal_strlit(" B");
    reveal_strlit("B");
    let n = if bytes < 0 {
        0
    } else {
        bytes as nat
    };
    lemma_round53(n);
    let near = round53(n);
    if 0 <= bytes < 1024 {
        assert(size_text(bytes) =~= decimal(bytes) + " B"@);
    } else if bytes >= 1024 {
        if n >= 9007199254740992 {
            let step = step53(n);
            lemma_half_even(n, step);
            let k = half_even(n, step);
            assert(2 * k * step == 2 * (k * step)) by (nonlinear_arith);
            assert(near == k * step);
            assert(step <= n / 4503599627370496) by (nonlinear_arith)
                requires
                    step * 4503599627370496 <= n,
            ;
            assert(near >= 1099511627776);
            assert(-(bytes / 4503599627370496) <= 2 * (near - bytes) <= bytes / 4503599627370496);
        }
        let unit = unit_of(near);
        let h = half_even(near * 100, unit_size(unit));
        lemma_half_even(near * 100, unit_size(unit));
        assert(nearest(h, near, unit_size(unit)));
        assert(size_text(bytes) =~= in_hundredths(h, unit_name(unit)));
    }
}

/// Every character that some system refuses in names of files is replaced by an
/// underscore; all others stay.
pub proof fn law_cleaned(s: Seq<char>, i: int)
    requires
        0 <= i < s.len(),
    ensures
        cleaned(s).len() == s.len(),
        "<>:\"/\\|?*"@.contains(s[i]) ==> cleaned(s)[i] == '_',
        !"<>:\"/\\|?*"@.contains(s[i]) ==> cleaned(s)[i] == s[i],
{
    reveal_strlit("<>:\"/\\|?*");
    let bad = "<>:\"/\\|?*"@;
    assert(bad[0] == '<' && bad[1] == '>' && bad[2] == ':' && bad[3] == '"' && bad[4] == '/'
        && bad[5] == '\\' && bad[6] == '|' && bad[7] == '?' && bad[8] == '*' && bad.len() == 9);
    if is_forbidden(s[i]) {
        assert(bad.contains(s[i]));
    }
}

/// Whether a text can be the name of a file in a folder.
pub open spec fn is_name(s: Seq<char>) -> bool {
    forall|i: int| 0 <= i < s.len() ==> #[trigger] s[i] != '/' && s[i] != '\\'
}

/// A download is named by the whole title of the recording, with what is
/// forbidden in names replaced and without white space around it; then comes a
/// dot, and then the extension of the file on the server, whatever folder that
/// is in.
#[verifier::rlimit(50)]
pub proof fn law_download_name(
    title: Seq<char>,
    folder: Seq<char>,
    stem: Seq<char>,
    extension: Seq<char>,
)
    requires
        trim(cleaned(title)).len() > 0,
        is_name(stem),
        is_name(extension),
        extension.len() > 0,
        forall|i: int| 0 <= i < extension.len() ==> #[trigger] extension[i] != '.',
        stem.len() >= 2 ==> stem[1] != ':',
    ensures
        stem.len() > 0 ==> {
            let name = trim(cleaned(title)) + "."@ + cleaned(extension);
            &&& download_name(title, stem + "."@ + extension) == name
            &&& download_name(title, folder + "/"@ + stem + "."@ + extension) == name
            &&& download_name(title, folder + "\\"@ + stem + "."@ + extension) == name
        },
{
    reveal_strlit(".");
    reveal_strlit("/");
    reveal_strlit("\\");
    let name = stem + "."@ + extension;
    let n = stem.len() as int;
    let a = folder + "/"@;
    let b = folder + "\\"@;
    assert(a.last() == '/');
    assert(b.last() == '\\');
    if n > 0 {
        assert(name.subrange(n + 1, name.len() as int) =~= extension);
        if name.len() >= 2 && n == 1 {
            assert(name[1] == '.');
        }
        lemma_extension(Seq::empty(), name, n);
        assert(Seq::<char>::empty() + name =~= name);
        lemma_extension(a, name, n);
        lemma_extension(b, name, n);
        assert(a + name =~= folder + "/"@ + stem + "."@ + extension);
        assert(b + name =~= folder + "\\"@ + stem + "."@ + extension);
    }
}

/// A file whose name begins with its last dot, or that has no dot in its name,
/// has no extension, and `ts` stands for it.
#[verifier::rlimit(50)]
pub proof fn law_no_extension(title: Seq<char>, folder: Seq<char>, name: Seq<char>)
    requires
        trim(cleaned(title)).len() > 0,
        is_name(name),
        name.len() > 0,
        !name.contains('.'),
    ensures
        download_name(title, folder + "/"@ + name) == trim(cleaned(title)) + ".ts"@,
        download_name(title, folder + "/"@ + ("."@ + name)) == trim(cleaned(title)) + ".ts"@,
{
    reveal_strlit(".");
    reveal_strlit("..");
    reveal_strlit("/");
    reveal_strlit("ts");
    reveal_strlit(".ts");
    let base = trim(cleaned(title));
    assert(cleaned("ts"@) =~= "ts"@);
    assert(base + "."@ + "ts"@ =~= base + ".ts"@);
    let a = folder + "/"@;
    assert(a.last() == '/');
    let hidden = "."@ + name;
    assert(hidden.len() >= 2);
    if name.len() >= 1 && hidden == ".."@ {
        assert(hidden[1] == name[0]);
        assert(name.contains(name[0]));
    }
    lemma_last(a, hidden);
    lemma_last(a, name);
    crate::text::lemma_last_index_below(hidden, '.', hidden.len() as int);
    crate::text::lemma_last_index_below(name, '.', name.len() as int);
    match last_index_of(name, '.') {
        Some(i) => {
            assert(name.contains(name[i]));
        },
        None => {},
    }
    match last_index_of(hidden, '.') {
        Some(i) => {
            if i > 0 {
                assert(hidden[i] == name[i - 1]);
                assert(name.contains(name[i - 1]));
            }
        },
        None => {},
    }
}

/// The last part of a path is what follows its last slash.
proof fn lemma_last(folder: Seq<char>, name: Seq<char>)
    requires
        is_name(name),
        name.len() > 0,
        name != "."@,
        folder.len() == 0 || folder.last() == '/' || folder.last() == '\\',
        folder.len() == 0 && name.len() >= 2 ==> name[1] != ':',
    ensures
        last_component(with_slashes(without_drive(folder + name))) == name,
{
    let path = folder + name;
    let rest = without_drive(path);
    if path.len() >= 2 && path[1] == ':' && folder.len() == 1 {
        assert(path[0] == folder[0]);
    }
    if path.len() >= 2 && path[1] == ':' && folder.len() == 2 {
        assert(path[1] == folder[1]);
    }
    assert(folder.len() == 0 ==> rest == name) by {
        assert(path =~= name || folder.len() > 0);
    }
    let p = with_slashes(rest);
    let k = p.len() - name.len();
    assert forall|i: int| k <= i < p.len() implies p[i] == name[i - k] by {
        assert(rest[i] == name[i - k]);
    }
    assert(p.skip(k) =~= name);
    if folder.len() > 0 {
        assert(k > 0);
        assert(rest[k - 1] == folder.last());
        assert(p[k - 1] == '/');
    } else {
        assert(p =~= name);
    }
    crate::text::lemma_last_index_below(p, '/', p.len() as int);
    match last_index_of(p, '/') {
        Some(i) => {
            assert(i == k - 1);
            assert(p.subrange(i + 1, p.len() as int) =~= p.skip(k));
        },
        None => {
            assert(folder.len() == 0);
        },
    }
}

/// The extension of a name is what follows its last dot.
proof fn lemma_extension(folder: Seq<char>, name: Seq<char>, dot: int)
    requires
        0 < dot < name.len() - 1,
        name[dot] == '.',
        forall|i: int| dot < i < name.len() ==> #[trigger] name[i] != '.',
        is_name(name),
        folder.len() == 0 || folder.last() == '/' || folder.last() == '\\',
        folder.len() == 0 ==> name[1] != ':',
    ensures
        extension_of(folder + name) == Some(name.subrange(dot + 1, name.len() as int)),
{
    reveal_strlit(".");
    reveal_strlit("..");
    assert(name.len() >= 3);
    lemma_last(folder, name);
    crate::text::lemma_last_index_below(name, '.', name.len() as int);
}

/// A title that is blank gives a name all the same.
pub proof fn law_untitled(title: Seq<char>, server_filename: Seq<char>)
    requires
        trim(cleaned(title)).len() == 0,
    ensures
        download_name(title, server_filename).take(9) == "nahravka."@,
{
    reveal_strlit("nahravka");
    reveal_strlit("nahravka.");
    reveal_strlit(".");
    assert(download_name(title, server_filename).take(9) =~= "nahravka."@);
}

/// What happens to a download, event by event: an answer from 200 to 299 tells
/// how big the file is, and any other ends the download with what the server
/// said; a chunk adds its length, and is reported where 150 milliseconds have
/// passed; the end of the file is reported with all that arrived and with the
/// file; a download that is stopped or fails ends, its file is deleted, and
/// why is reported. Once it has ended nothing more happens.
#[verifier::rlimit(50)]
pub proof fn law_transfer(
    t: TransferView,
    status: u16,
    total: Option<u64>,
    len: usize,
    ms: u64,
    why: String,
    e: TransferEvent,
)
    ensures
        PROGRESS_INTERVAL_MS == 150,
        t.finished ==> transfer_after(t, e) == t && transfer_reports(t, e).len() == 0
            && !transfer_removes(t, e),
        !t.finished ==> {
            let answered = TransferEvent::Answered { status, total };
            let chunk = TransferEvent::Chunk { len, since_progress_ms: ms };
            let failed = TransferEvent::Failed(why);
            &&& 200 <= status <= 299 ==> {
                &&& transfer_after(t, answered).total == total
                &&& transfer_after(t, answered).downloaded == t.downloaded
                &&& !transfer_after(t, answered).finished
                &&& transfer_reports(t, answered).len() == 0
                &&& !transfer_removes(t, answered)
            }
            &&& !(200 <= status <= 299) ==> {
                &&& transfer_after(t, answered).finished
                &&& transfer_removes(t, answered)
                &&& transfer_reports(t, answered) == seq![
                    UpdateView::Error(
                        "Server odpověděl chybou "@ + decimal(status as int) + seq![' '] + (
                        match reason_of(status) {
                            Some(phrase) => phrase,
                            None => "<unknown status code>"@,
                        }),
                    ),
                ]
            }
            &&& transfer_after(t, chunk).downloaded == t.downloaded + len
            &&& transfer_after(t, chunk).total == t.total
            &&& transfer_after(t, chunk).path == t.path
            &&& !transfer_after(t, chunk).finished
            &&& !transfer_removes(t, chunk)
            &&& ms >= 150 ==> transfer_reports(t, chunk) == seq![
                UpdateView::Progress { downloaded: (t.downloaded + len) as u64, total: t.total },
            ]
            &&& ms < 150 ==> transfer_reports(t, chunk).len() == 0
            &&& transfer_after(t, TransferEvent::End).finished
            &&& !transfer_removes(t, TransferEvent::End)
            &&& transfer_reports(t, TransferEvent::End) == seq![
                UpdateView::Progress { downloaded: t.downloaded as u64, total: t.total },
                UpdateView::Done(t.path),
            ]
            &&& transfer_after(t, TransferEvent::Stopped).finished
            &&& transfer_removes(t, TransferEvent::Stopped)
            &&& transfer_reports(t, TransferEvent::Stopped) == seq![UpdateView::Cancelled]
            &&& transfer_after(t, failed).finished
            &&& transfer_removes(t, failed)
            &&& transfer_reports(t, failed) == seq![UpdateView::Error(why@)]
        },
{
    if !t.finished && !(200 <= status <= 299) {
        let phrase = match reason_of(status) {
            Some(phrase) => phrase,
            None => "<unknown status code>"@,
        };
        assert(refused_text(status) =~= "Server odpověděl chybou "@ + decimal(status as int)
            + seq![' '] + phrase);
    }
}

/// Updates are told one for one.
pub proof fn law_update_views(
    us: Seq<DownloadUpdate>,
    i: int,
    n: u64,
    total: Option<u64>,
    s: String,
)
    ensures
        update_views(us).len() == us.len(),
        0 <= i < us.len() ==> update_views(us)[i] == us[i]@,
        (DownloadUpdate::Progress { downloaded: n, total })@ == (UpdateView::Progress {
            downloaded: n,
            total,
        }),
        DownloadUpdate::Done(s)@ == UpdateView::Done(s@),
        DownloadUpdate::Cancelled@ == UpdateView::Cancelled,
        DownloadUpdate::Error(s)@ == UpdateView::Error(s@),
        FETCH_TIMEOUT_SECS == 30,
        PAUSE_POLL_MS == 200,
{
}

} // verus!
