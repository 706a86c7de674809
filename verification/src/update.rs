//! The check for a new release on GitHub, and the installation of one.
//!
//! Windows does not let a running program be overwritten, but it does let its
//! file be moved. So the new program is downloaded next to the old one, a
//! batch script is started, and the application exits. The script waits a
//! moment, moves the new program over the old one, starts it and deletes
//! itself. It logs every step; where it fails, it leaves the log, itself and
//! the download behind, and the next attempt clears them away.
use vstd::prelude::*;
use vstd::slice::slice_subrange;
use vstd::string::*;

use crate::guide::Poll;
use crate::numbers::{parse_u64, read_u64};
use crate::outside::{canonical_reason, reason_of};
use crate::recordings::{status_line, status_text};
use crate::text::{chars_of, index_of, opt_view, owned, same_str, string_of};
use crate::tvh::body_view;

verus! {

pub const REPO_OWNER: &'static str = "DaTTcz";

pub const REPO_NAME: &'static str = "TVH-Client";

pub const CURRENT_VERSION: &'static str = "0.1.0";

/// The file of a release that is installed.
pub const ASSET_NAME: &'static str = "TVH-Client.exe";

/// A release, compared with the running version.
#[derive(Debug)]
pub struct ReleaseInfo {
    pub version: String,
    pub is_newer: bool,
    pub download_url: String,
}

/// The text of a release.
pub struct ReleaseView {
    pub version: Seq<char>,
    pub is_newer: bool,
    pub download_url: Seq<char>,
}

impl View for ReleaseInfo {
    type V = ReleaseView;

    open spec fn view(&self) -> ReleaseView {
        ReleaseView {
            version: self.version@,
            is_newer: self.is_newer,
            download_url: self.download_url@,
        }
    }
}

impl Clone for ReleaseInfo {
    fn clone(&self) -> (r: Self)
        ensures
            r == *self,
    {
        ReleaseInfo {
            version: self.version.clone(),
            is_newer: self.is_newer,
            download_url: self.download_url.clone(),
        }
    }
}

// ---- versions -----------------------------------------------------------

/// The numbers of a version, which dots part. What is no number counts as 0.
pub open spec fn parts_of(v: Seq<char>) -> Seq<u64>
    decreases v.len(),
{
    match index_of(v, '.') {
        Some(i) => if 0 <= i < v.len() {
            seq![number_of(v.subrange(0, i))] + parts_of(v.subrange(i + 1, v.len() as int))
        } else {
            Seq::empty()
        },
        None => seq![number_of(v)],
    }
}

/// A part of a version as a number.
pub open spec fn number_of(s: Seq<char>) -> u64 {
    match read_u64(s) {
        Some(n) => n,
        None => 0,
    }
}

/// The number at a place of a version; a version goes on with zeros.
pub open spec fn part(v: Seq<u64>, i: int) -> u64 {
    if 0 <= i < v.len() {
        v[i]
    } else {
        0
    }
}

/// Whether the first numbers from `from` on in which two versions differ make
/// `a` the newer one.
pub open spec fn newer_from(a: Seq<u64>, b: Seq<u64>, from: int) -> bool
    decreases a.len() + b.len() - from,
{
    if from >= a.len() && from >= b.len() {
        false
    } else if part(a, from) != part(b, from) {
        part(a, from) > part(b, from)
    } else {
        newer_from(a, b, from + 1)
    }
}

/// Whether the version `a` is newer than `b`.
pub open spec fn newer(a: Seq<char>, b: Seq<char>) -> bool {
    newer_from(parts_of(a), parts_of(b), 0)
}

/// The numbers of a version.
fn parts(v: &str) -> (r: Vec<u64>)
    ensures
        r@ == parts_of(v@),
{
    let text = chars_of(v);
    let mut rest: &[char] = text.as_slice();
    let mut out: Vec<u64> = Vec::new();
    proof {
        assert(out@ + parts_of(rest@) =~= parts_of(v@));
    }
    loop
        invariant
            out@ + parts_of(rest@) == parts_of(v@),
        decreases rest@.len(),
    {
        let n: usize = rest.len();
        let ghost before = out@;
        let mut dot: usize = 0;
        while dot < n && rest[dot] != '.'
            invariant
                n == rest@.len(),
                dot <= n,
                index_of(rest@, '.') == crate::text::index_from(rest@, '.', dot as int),
            decreases n - dot,
        {
            dot = dot + 1;
        }
        let number: u64 = match parse_u64(slice_subrange(rest, 0, dot)) {
            Some(x) => x,
            None => 0,
        };
        out.push(number);
        if dot == n {
            proof {
                assert(rest@.subrange(0, n as int) =~= rest@);
                assert(before + seq![number] =~= out@);
            }
            return out;
        }
        proof {
            assert(before + (seq![number] + parts_of(rest@.subrange(dot + 1, n as int))) =~= out@
                + parts_of(rest@.subrange(dot + 1, n as int)));
        }
        rest = slice_subrange(rest, dot + 1, n);
    }
}

/// Whether the version `candidate` is newer than `current`: they are compared
/// number by number.
pub fn is_version_newer(candidate: &str, current: &str) -> (r: bool)
    ensures
        r == newer(candidate@, current@),
{
    let a = parts(candidate);
    let b = parts(current);
    let n: usize = if a.len() > b.len() {
        a.len()
    } else {
        b.len()
    };
    for i in 0..n
        invariant
            n >= a@.len(),
            n >= b@.len(),
            n == a@.len() || n == b@.len(),
            newer_from(a@, b@, 0) == newer_from(a@, b@, i as int),
            a@ == parts_of(candidate@),
            b@ == parts_of(current@),
    {
        let x: u64 = if i < a.len() {
            a[i]
        } else {
            0
        };
        let y: u64 = if i < b.len() {
            b[i]
        } else {
            0
        };
        if x != y {
            return x > y;
        }
    }
    false
}

// ---- releases -----------------------------------------------------------

/// A file of a release.
#[derive(Debug)]
pub struct Asset {
    pub name: String,
    pub download_url: String,
}

/// A version without the letters `v` at its start.
pub open spec fn without_v(s: Seq<char>) -> Seq<char>
    decreases s.len(),
{
    if s.len() > 0 && s[0] == 'v' {
        without_v(s.subrange(1, s.len() as int))
    } else {
        s
    }
}

/// The first file from `from` on that can be installed.
pub open spec fn installable(assets: Seq<Asset>, from: int) -> Option<int>
    decreases assets.len() - from,
{
    if from >= assets.len() {
        None
    } else if assets[from].name@ == ASSET_NAME@ {
        Some(from)
    } else {
        installable(assets, from + 1)
    }
}

/// What a release comes to, by its tag and its files, or why it cannot be
/// installed.
pub open spec fn release_view(
    tag: Seq<char>,
    assets: Seq<Asset>,
    current: Seq<char>,
) -> Result<ReleaseView, Seq<char>> {
    match installable(assets, 0) {
        Some(i) => Ok(
            ReleaseView {
                version: without_v(tag),
                is_newer: newer(without_v(tag), current),
                download_url: assets[i].download_url@,
            },
        ),
        None => Err("V release "@ + tag + " chybí soubor "@ + ASSET_NAME@),
    }
}

/// The view of a release or of why there is none.
pub open spec fn release_result(r: Result<ReleaseInfo, String>) -> Result<ReleaseView, Seq<char>> {
    match r {
        Ok(i) => Ok(i@),
        Err(e) => Err(e@),
    }
}

/// `s` without the letters `v` at its start.
fn strip_v(s: &str) -> (r: String)
    ensures
        r@ == without_v(s@),
{
    let text = chars_of(s);
    let n: usize = text.len();
    let mut from: usize = 0;
    proof {
        assert(text@.subrange(0, n as int) =~= text@);
    }
    while from < n && text[from] == 'v'
        invariant
            n == text@.len(),
            from <= n,
            without_v(text@) == without_v(text@.subrange(from as int, n as int)),
        decreases n - from,
    {
        proof {
            let cur = text@.subrange(from as int, n as int);
            assert(cur.subrange(1, cur.len() as int) =~= text@.subrange(from + 1, n as int));
        }
        from = from + 1;
    }
    string_of(slice_subrange(text.as_slice(), from, n))
}

/// The latest release, by its tag and its files, compared with the running
/// version, or why it cannot be installed.
pub fn release_info(tag: &str, assets: &Vec<Asset>, current: &str) -> (r: Result<
    ReleaseInfo,
    String,
>)
    ensures
        release_result(r) == release_view(tag@, assets@, current@),
{
    let version = strip_v(tag);
    let is_newer = is_version_newer(version.as_str(), current);
    let n: usize = assets.len();
    for i in 0..n
        invariant
            n == assets@.len(),
            version@ == without_v(tag@),
            is_newer == newer(version@, current@),
            installable(assets@, 0) == installable(assets@, i as int),
    {
        if same_str(assets[i].name.as_str(), ASSET_NAME) {
            return Ok(
                ReleaseInfo { version, is_newer, download_url: assets[i].download_url.clone() },
            );
        }
    }
    let mut text = owned("V release ");
    text.append(tag);
    text.append(" chybí soubor ");
    text.append(ASSET_NAME);
    Err(text)
}

/// Where to ask for the latest release.
pub fn latest_url() -> (r: String)
    ensures
        r@ == "https://api.github.com/repos/"@ + REPO_OWNER@ + "/"@ + REPO_NAME@
            + "/releases/latest"@,
{
    let mut out = owned("https://api.github.com/repos/");
    out.append(REPO_OWNER);
    out.append("/");
    out.append(REPO_NAME);
    out.append("/releases/latest");
    out
}

/// The page of the project.
pub fn repo_url() -> (r: String)
    ensures
        r@ == "https://github.com/"@ + REPO_OWNER@ + "/"@ + REPO_NAME@,
{
    let mut out = owned("https://github.com/");
    out.append(REPO_OWNER);
    out.append("/");
    out.append(REPO_NAME);
    out
}

/// What is said of an answer that is no success.
pub open spec fn api_error_text(
    status: u16,
    reason: Option<Seq<char>>,
    body: Seq<char>,
) -> Seq<char> {
    "GitHub API vrátilo "@ + status_text(status, reason) + ": "@ + body
}

/// What is said of an answer that is no success, by the reason phrase of its
/// status.
pub fn api_error_with(status: u16, reason: Option<String>, body: &str) -> (r: String)
    ensures
        r@ == api_error_text(status, opt_view(reason), body@),
{
    let mut out = owned("GitHub API vrátilo ");
    out.append(status_line(status, reason).as_str());
    out.append(": ");
    out.append(body);
    out
}

/// The body of an answer that is a success, or what is said of one that is
/// none.
pub fn check_answer(status: u16, body: String) -> (r: Result<String, String>)
    ensures
        body_view(r) == if 200 <= status < 300 {
            Ok(body@)
        } else {
            Err(api_error_text(status, reason_of(status), body@))
        },
{
    if 200 <= status && status < 300 {
        Ok(body)
    } else {
        Err(api_error_with(status, canonical_reason(status), body.as_str()))
    }
}

/// What is said of an answer that cannot be read.
pub fn unexpected_answer(error: &str) -> (r: String)
    ensures
        r@ == "Nečekaná odpověď GitHubu: "@ + error@,
{
    let mut out = owned("Nečekaná odpověď GitHubu: ");
    out.append(error);
    out
}

// ---- the tab ------------------------------------------------------------

/// The state of the tab for updates.
#[derive(Debug)]
pub struct UpdatePanel {
    pub checking: bool,
    /// Whether the thread that checks is still there.
    pub waiting: bool,
    pub result: Option<Result<ReleaseInfo, String>>,
    pub installing: bool,
    /// Whether the thread that installs is still there.
    pub install_waiting: bool,
    /// Why the installation failed. After a success there is no application
    /// left to say anything.
    pub install_message: Option<String>,
}

impl UpdatePanel {
    /// The state of the installation is the same.
    pub open spec fn same_install(self, other: UpdatePanel) -> bool {
        self.installing == other.installing && self.install_waiting == other.install_waiting
            && self.install_message == other.install_message
    }

    /// The state of the check is the same.
    pub open spec fn same_check(self, other: UpdatePanel) -> bool {
        self.checking == other.checking && self.waiting == other.waiting && self.result
            == other.result
    }

    /// The state before any check.
    pub fn new() -> (r: Self)
        ensures
            !r.checking,
            !r.waiting,
            r.result is None,
            !r.installing,
            !r.install_waiting,
            r.install_message is None,
    {
        UpdatePanel {
            checking: false,
            waiting: false,
            result: None,
            installing: false,
            install_waiting: false,
            install_message: None,
        }
    }

    /// Starts a check.
    pub fn start_check(&mut self)
        ensures
            final(self).checking,
            final(self).waiting,
            final(self).result is None,
            final(self).same_install(*old(self)),
    {
        self.checking = true;
        self.waiting = true;
        self.result = None;
    }

    /// Takes in what came out of the channel of the check.
    pub fn on_check(&mut self, message: Poll<Result<ReleaseInfo, String>>)
        ensures
            final(self).same_install(*old(self)),
            match message {
                Poll::Ready(result) => {
                    &&& !final(self).checking
                    &&& !final(self).waiting
                    &&& final(self).result == Some(result)
                },
                Poll::Empty => *final(self) == *old(self),
                Poll::Closed => {
                    &&& !final(self).checking
                    &&& !final(self).waiting
                    &&& final(self).result == old(self).result
                },
            },
    {
        match message {
            Poll::Ready(result) => {
                self.checking = false;
                self.result = Some(result);
                self.waiting = false;
            },
            Poll::Empty => {},
            Poll::Closed => {
                self.checking = false;
                self.waiting = false;
            },
        }
    }

    /// Starts the installation.
    pub fn start_install(&mut self)
        ensures
            final(self).installing,
            final(self).install_waiting,
            final(self).install_message is None,
            final(self).same_check(*old(self)),
    {
        self.installing = true;
        self.install_waiting = true;
        self.install_message = None;
    }

    /// Takes in what came out of the channel of the installation, which only
    /// tells of failures.
    pub fn on_install(&mut self, message: Poll<String>)
        ensures
            final(self).same_check(*old(self)),
            match message {
                Poll::Ready(e) => {
                    &&& !final(self).installing
                    &&& !final(self).install_waiting
                    &&& final(self).install_message == Some(e)
                },
                Poll::Empty => *final(self) == *old(self),
                Poll::Closed => {
                    &&& !final(self).installing
                    &&& !final(self).install_waiting
                    &&& final(self).install_message == old(self).install_message
                },
            },
    {
        match message {
            Poll::Ready(e) => {
                self.installing = false;
                self.install_message = Some(e);
                self.install_waiting = false;
            },
            Poll::Empty => {},
            Poll::Closed => {
                self.installing = false;
                self.install_waiting = false;
            },
        }
    }

    /// The newer version that the main menu points out, where a check found
    /// one.
    pub fn badge(&self) -> (r: Option<String>)
        ensures
            opt_view(r) == match self.result {
                Some(Ok(info)) => if info.is_newer {
                    Some("🆕 Nová verze "@ + info.version@ + " k dispozici"@)
                } else {
                    None
                },
                _ => None,
            },
    {
        match &self.result {
            Some(Ok(info)) => if info.is_newer {
                let mut out = owned("🆕 Nová verze ");
                out.append(info.version.as_str());
                out.append(" k dispozici");
                Some(out)
            } else {
                None
            },
            _ => None,
        }
    }
}

/// What the tab says of the last check.
#[derive(Debug)]
pub enum CheckView {
    /// There was none yet.
    Nothing,
    /// There is a newer version.
    Newer(String),
    /// There is none.
    Latest,
    /// The check failed.
    Failed(String),
}

impl UpdatePanel {
    /// What the tab says of the last check.
    pub fn status(&self) -> (r: CheckView)
        ensures
            match self.result {
                None => r is Nothing,
                Some(Ok(info)) => if info.is_newer {
                    r matches CheckView::Newer(text) && text@ == "Dostupná nová verze: "@
                        + info.version@
                } else {
                    r is Latest
                },
                Some(Err(e)) => r matches CheckView::Failed(text) && text@ == e@,
            },
    {
        match &self.result {
            None => CheckView::Nothing,
            Some(Ok(info)) => if info.is_newer {
                let mut out = owned("Dostupná nová verze: ");
                out.append(info.version.as_str());
                CheckView::Newer(out)
            } else {
                CheckView::Latest
            },
            Some(Err(e)) => CheckView::Failed(e.clone()),
        }
    }
}

// ---- installation -------------------------------------------------------

/// The script that moves the program `new` over `current` and starts it,
/// logging to `log`.
pub open spec fn script_text(log: Seq<char>, new: Seq<char>, current: Seq<char>) -> Seq<char> {
    "@echo off\nsetlocal\nset \"LOG="@ + log
        + "\"\necho [%date% %time%] start >>\"%LOG%\"\ntimeout /t 2 /nobreak >nul\nmove /y \""@
        + new + "\" \""@ + current
        + "\" >>\"%LOG%\" 2>&1\nif errorlevel 1 (\n    echo [%date% %time%] FATAL: move selhal, errorlevel %errorlevel% - stara appka je nedotcena >>\"%LOG%\"\n    exit /b 1\n)\necho [%date% %time%] move OK, spoustim novou appku >>\"%LOG%\"\nstart \"\" \""@
        + current
        + "\"\necho [%date% %time%] hotovo, uklizim >>\"%LOG%\"\ndel \"%LOG%\" >nul 2>&1\ndel \"%~f0\"\n"@
}

/// The script that moves the program `new` over `current` and starts it,
/// logging to `log`.
pub fn update_script(log: &str, new: &str, current: &str) -> (r: String)
    ensures
        r@ == script_text(log@, new@, current@),
{
    let mut out = owned("@echo off\nsetlocal\nset \"LOG=");
    out.append(log);
    out.append(
        "\"\necho [%date% %time%] start >>\"%LOG%\"\ntimeout /t 2 /nobreak >nul\nmove /y \"",
    );
    out.append(new);
    out.append("\" \"");
    out.append(current);
    out.append(
        "\" >>\"%LOG%\" 2>&1\nif errorlevel 1 (\n    echo [%date% %time%] FATAL: move selhal, errorlevel %errorlevel% - stara appka je nedotcena >>\"%LOG%\"\n    exit /b 1\n)\necho [%date% %time%] move OK, spoustim novou appku >>\"%LOG%\"\nstart \"\" \"",
    );
    out.append(current);
    out.append(
        "\"\necho [%date% %time%] hotovo, uklizim >>\"%LOG%\"\ndel \"%LOG%\" >nul 2>&1\ndel \"%~f0\"\n",
    );
    out
}

// ---- laws ---------------------------------------------------------------

/// The first place from `from` on in which two versions differ.
proof fn lemma_newer(a: Seq<u64>, b: Seq<u64>, from: int)
    requires
        0 <= from,
    ensures
        newer_from(a, b, from) <==> exists|i: int|
            from <= i && #[trigger] part(a, i) > part(b, i) && forall|j: int|
                from <= j < i ==> part(a, j) == #[trigger] part(b, j),
    decreases a.len() + b.len() - from,
{
    if from >= a.len() && from >= b.len() {
    } else if part(a, from) != part(b, from) {
        if part(a, from) > part(b, from) {
            assert(from <= from && part(a, from) > part(b, from));
        }
    } else {
        lemma_newer(a, b, from + 1);
        if newer_from(a, b, from) {
            let i = choose|i: int|
                from + 1 <= i && #[trigger] part(a, i) > part(b, i) && forall|j: int|
                    from + 1 <= j < i ==> part(a, j) == #[trigger] part(b, j);
            assert(from <= i && part(a, i) > part(b, i));
        }
    }
}

/// No version is newer than itself.
pub proof fn law_not_newer_than_itself(v: Seq<char>)
    ensures
        !newer(v, v),
{
    lemma_newer(parts_of(v), parts_of(v), 0);
}

/// Of two versions at most one is newer than the other.
pub proof fn law_newer_one_way(a: Seq<char>, b: Seq<char>)
    requires
        newer(a, b),
    ensures
        !newer(b, a),
{
    let (x, y) = (parts_of(a), parts_of(b));
    lemma_newer(x, y, 0);
    lemma_newer(y, x, 0);
    let i = choose|i: int|
        0 <= i && #[trigger] part(x, i) > part(y, i) && forall|j: int|
            0 <= j < i ==> part(x, j) == #[trigger] part(y, j);
    if newer(b, a) {
        let k = choose|k: int|
            0 <= k && #[trigger] part(y, k) > part(x, k) && forall|j: int|
                0 <= j < k ==> part(y, j) == #[trigger] part(x, j);
        if k < i {
            assert(part(x, k) == part(y, k));
        } else if i < k {
            assert(part(y, i) == part(x, i));
        }
    }
}

/// Versions with the same numbers, but for zeros at the end, compare alike.
proof fn lemma_same_parts(a: Seq<u64>, b: Seq<u64>, c: Seq<u64>, d: Seq<u64>, from: int)
    requires
        0 <= from,
        forall|i: int| #[trigger] part(a, i) == part(c, i),
        forall|i: int| #[trigger] part(b, i) == part(d, i),
    ensures
        newer_from(a, b, from) == newer_from(c, d, from),
    decreases a.len() + b.len() + c.len() + d.len() - from,
{
    assert(part(a, from) == part(c, from));
    assert(part(b, from) == part(d, from));
    if from < a.len() || from < b.len() || from < c.len() || from < d.len() {
        lemma_same_parts(a, b, c, d, from + 1);
    }
}

/// A zero behind a version is one more number of it.
proof fn lemma_trailing_zero(v: Seq<char>)
    ensures
        parts_of(v + ".0"@) == parts_of(v).push(0),
    decreases v.len(),
{
    reveal_strlit(".0");
    let all = v + ".0"@;
    crate::text::lemma_index_from(v, '.', 0);
    crate::text::lemma_index_from(all, '.', 0);
    assert(all[v.len() as int] == '.');
    let k = index_of(all, '.')->0;
    match index_of(v, '.') {
        Some(i) => {
            assert(all[i] == '.');
            if k < i {
                assert(all[k] == v[k]);
            }
            assert(k == i);
            let rest = v.subrange(i + 1, v.len() as int);
            assert(all.subrange(0, i) =~= v.subrange(0, i));
            assert(all.subrange(i + 1, all.len() as int) =~= rest + ".0"@);
            lemma_trailing_zero(rest);
            assert(parts_of(all) =~= parts_of(v).push(0));
        },
        None => {
            if k < v.len() {
                assert(all[k] == v[k]);
            }
            assert(k == v.len());
            assert(all.subrange(0, k) =~= v);
            let zero = all.subrange(k + 1, all.len() as int);
            assert(zero =~= seq!['0']);
            crate::text::lemma_index_from(zero, '.', 0);
            assert(index_of(zero, '.') is None);
            assert(number_of(zero) == 0) by {
                reveal_with_fuel(crate::numbers::digits_value, 3);
            }
            assert(parts_of(zero) =~= seq![0u64]);
            assert(parts_of(all) =~= parts_of(v).push(0));
        },
    }
}

/// A trailing `.0` changes no comparison of versions.
pub proof fn law_trailing_zero(a: Seq<char>, b: Seq<char>)
    ensures
        newer(a + ".0"@, b) == newer(a, b),
        newer(a, b + ".0"@) == newer(a, b),
{
    lemma_trailing_zero(a);
    lemma_trailing_zero(b);
    let (x, y) = (parts_of(a), parts_of(b));
    lemma_same_parts(x.push(0), y, x, y, 0);
    lemma_same_parts(x, y.push(0), x, y, 0);
}

/// What is newer than a newer version is newer.
pub proof fn law_newer_chain(a: Seq<char>, b: Seq<char>, c: Seq<char>)
    requires
        newer(a, b),
        newer(b, c),
    ensures
        newer(a, c),
{
    let (x, y, z) = (parts_of(a), parts_of(b), parts_of(c));
    lemma_newer(x, y, 0);
    lemma_newer(y, z, 0);
    lemma_newer(x, z, 0);
    let i = choose|i: int|
        0 <= i && #[trigger] part(x, i) > part(y, i) && forall|j: int|
            0 <= j < i ==> part(x, j) == #[trigger] part(y, j);
    let k = choose|k: int|
        0 <= k && #[trigger] part(y, k) > part(z, k) && forall|j: int|
            0 <= j < k ==> part(y, j) == #[trigger] part(z, j);
    let m = if i < k {
        i
    } else {
        k
    };
    assert forall|j: int| 0 <= j < m implies part(x, j) == #[trigger] part(z, j) by {
        assert(part(x, j) == part(y, j));
        assert(part(y, j) == part(z, j));
    }
    if i < k {
        assert(part(y, i) == part(z, i));
    } else if k < i {
        assert(part(x, k) == part(y, k));
    }
    assert(0 <= m && part(x, m) > part(z, m));
}

/// The numbers of a version are those between its dots; what is no number
/// counts as zero.
pub proof fn law_parts(head: Seq<char>, rest: Seq<char>)
    requires
        forall|i: int| 0 <= i < head.len() ==> #[trigger] head[i] != '.',
    ensures
        parts_of(head) == seq![number_of(head)],
        parts_of(head.push('.') + rest) == seq![number_of(head)] + parts_of(rest),
        read_u64(head) matches Some(n) ==> number_of(head) == n,
        read_u64(head) is None ==> number_of(head) == 0,
{
    let s = head.push('.') + rest;
    crate::text::lemma_index_from(head, '.', 0);
    crate::text::lemma_index_from(s, '.', 0);
    assert(s[head.len() as int] == '.');
    let i = index_of(s, '.')->0;
    if i < head.len() {
        assert(s[i] == head[i]);
    }
    assert(s.subrange(0, i) =~= head);
    assert(s.subrange(i + 1, s.len() as int) =~= rest);
}

/// The number at a place of a version, zero behind its last one.
pub open spec fn at(v: Seq<char>, i: int) -> u64 {
    if i < parts_of(v).len() {
        parts_of(v)[i]
    } else {
        0
    }
}

/// A version is newer than another where the first numbers in which they differ
/// say so; where they differ in none, it is not.
pub proof fn law_newer(a: Seq<char>, b: Seq<char>, i: int)
    requires
        0 <= i,
        forall|j: int| 0 <= j < i ==> #[trigger] at(a, j) == at(b, j),
    ensures
        at(a, i) > at(b, i) ==> newer(a, b),
        at(a, i) < at(b, i) ==> !newer(a, b),
        (forall|j: int| 0 <= j ==> #[trigger] at(a, j) == at(b, j)) ==> !newer(a, b),
{
    let (x, y) = (parts_of(a), parts_of(b));
    lemma_newer(x, y, 0);
    assert forall|j: int| 0 <= j < i implies part(x, j) == #[trigger] part(y, j) by {
        assert(at(a, j) == at(b, j));
    }
    if at(a, i) > at(b, i) {
        assert(0 <= i && part(x, i) > part(y, i));
    }
    if newer(a, b) {
        let k = choose|k: int|
            0 <= k && #[trigger] part(x, k) > part(y, k) && forall|j: int|
                0 <= j < k ==> part(x, j) == #[trigger] part(y, j);
        assert(at(a, k) > at(b, k));
        if at(a, i) < at(b, i) {
            if k < i {
                assert(at(a, k) == at(b, k));
            } else if i < k {
                assert(part(x, i) == part(y, i));
            }
        }
    }
}

/// A release is the version that its tag names, without the letters before it;
/// it is installed from its first file with the name of the program, and
/// without such a file it cannot be.
pub proof fn law_release(tag: Seq<char>, assets: Seq<Asset>, current: Seq<char>, i: int)
    ensures
        0 <= i < assets.len() && assets[i].name@ == "TVH-Client.exe"@ && (forall|j: int|
            0 <= j < i ==> (#[trigger] assets[j]).name@ != "TVH-Client.exe"@) ==> (release_view(
            tag,
            assets,
            current,
        ) matches Ok(r) && r.version == without_v(tag) && r.is_newer == newer(
            without_v(tag),
            current,
        ) && r.download_url == assets[i].download_url@),
        (forall|j: int| 0 <= j < assets.len() ==> (#[trigger] assets[j]).name@ != "TVH-Client.exe"@)
            ==> release_view(tag, assets, current) == Err::<ReleaseView, Seq<char>>(
            "V release "@ + tag + " chybí soubor "@ + "TVH-Client.exe"@,
        ),
{
    lemma_installable(assets, 0, i);
}

proof fn lemma_installable(assets: Seq<Asset>, from: int, i: int)
    requires
        0 <= from,
    ensures
        from <= i < assets.len() && assets[i].name@ == "TVH-Client.exe"@ && (forall|j: int|
            from <= j < i ==> (#[trigger] assets[j]).name@ != "TVH-Client.exe"@) ==> installable(
            assets,
            from,
        ) == Some(i),
        (forall|j: int|
            from <= j < assets.len() ==> (#[trigger] assets[j]).name@ != "TVH-Client.exe"@)
            ==> installable(assets, from) is None,
    decreases assets.len() - from,
{
    if from < assets.len() && assets[from].name@ != "TVH-Client.exe"@ {
        lemma_installable(assets, from + 1, i);
    }
}

/// The letters `v` before a version are no part of it, and everything behind
/// them is.
pub proof fn law_version_of_a_tag(letters: Seq<char>, version: Seq<char>)
    requires
        forall|i: int| 0 <= i < letters.len() ==> #[trigger] letters[i] == 'v',
        version.len() > 0 ==> version[0] != 'v',
    ensures
        without_v(letters + version) == version,
    decreases letters.len(),
{
    let all = letters + version;
    if letters.len() == 0 {
        assert(all =~= version);
    } else {
        assert(all[0] == letters[0]);
        let rest = letters.subrange(1, letters.len() as int);
        assert(all.subrange(1, all.len() as int) =~= rest + version);
        law_version_of_a_tag(rest, version);
    }
}

/// The script moves the new program over the running one before it starts that,
/// and stops where the move failed.
#[verifier::rlimit(50)]
pub proof fn law_script(log: Seq<char>, new: Seq<char>, current: Seq<char>)
    ensures
        exists|before: Seq<char>, between: Seq<char>, after: Seq<char>|
            #![trigger before + between + after]
            script_text(log, new, current) == before + "move /y \""@ + new + "\" \""@ + current
                + between + "start \"\" \""@ + current + after,
        exists|before: Seq<char>, after: Seq<char>|
            #![trigger before + after]
            script_text(log, new, current) == before + "set \"LOG="@ + log + after,
{
    reveal_strlit("@echo off\nsetlocal\nset \"LOG=");
    reveal_strlit("@echo off\nsetlocal\n");
    reveal_strlit("set \"LOG=");
    assert("@echo off\nsetlocal\nset \"LOG="@ =~= "@echo off\nsetlocal\n"@ + "set \"LOG="@);
    let a = "@echo off\nsetlocal\nset \"LOG="@;
    let b = "\"\necho [%date% %time%] start >>\"%LOG%\"\ntimeout /t 2 /nobreak >nul\nmove /y \""@;
    let c = "\" \""@;
    let d = "\" >>\"%LOG%\" 2>&1\nif errorlevel 1 (\n    echo [%date% %time%] FATAL: move selhal, errorlevel %errorlevel% - stara appka je nedotcena >>\"%LOG%\"\n    exit /b 1\n)\necho [%date% %time%] move OK, spoustim novou appku >>\"%LOG%\"\nstart \"\" \""@;
    let e = "\"\necho [%date% %time%] hotovo, uklizim >>\"%LOG%\"\ndel \"%LOG%\" >nul 2>&1\ndel \"%~f0\"\n"@;
    let b1 = "\"\necho [%date% %time%] start >>\"%LOG%\"\ntimeout /t 2 /nobreak >nul\n"@;
    let d1 = "\" >>\"%LOG%\" 2>&1\nif errorlevel 1 (\n    echo [%date% %time%] FATAL: move selhal, errorlevel %errorlevel% - stara appka je nedotcena >>\"%LOG%\"\n    exit /b 1\n)\necho [%date% %time%] move OK, spoustim novou appku >>\"%LOG%\"\n"@;
    lemma_script_literals();
    assert(b == b1 + "move /y \""@);
    assert(d == d1 + "start \"\" \""@);
    let head = a + log + b1;
    lemma_script(a + log, b1, "move /y \""@, new, c, current, d1, "start \"\" \""@, e);
    assert(script_text(log, new, current) == head + "move /y \""@ + new + c + current + d1
        + "start \"\" \""@ + current + e);
    let _ = head + d1 + e;
    let start = "@echo off\nsetlocal\n"@;
    let tail = b + new + c + current + d + current + e;
    assert(script_text(log, new, current) =~= start + "set \"LOG="@ + log + tail) by {
        lemma_tail(a + log, b, new, c, current, d, e);
    }
    let _ = start + tail;
}

proof fn lemma_script(
    s: Seq<char>,
    b: Seq<char>,
    m: Seq<char>,
    new: Seq<char>,
    c: Seq<char>,
    current: Seq<char>,
    d: Seq<char>,
    start: Seq<char>,
    e: Seq<char>,
)
    ensures
        s + (b + m) + new + c + current + (d + start) + current + e == s + b + m + new + c + current
            + d + start + current + e,
{
    assert(s + (b + m) =~= s + b + m);
    let t = s + b + m + new + c + current;
    assert(t + (d + start) =~= t + d + start);
}

proof fn lemma_tail(
    s: Seq<char>,
    b: Seq<char>,
    new: Seq<char>,
    c: Seq<char>,
    current: Seq<char>,
    d: Seq<char>,
    e: Seq<char>,
)
    ensures
        s + b + new + c + current + d + current + e == s + (b + new + c + current + d + current
            + e),
{
    assert(s + b + new =~= s + (b + new));
    assert(s + (b + new) + c =~= s + (b + new + c));
    assert(s + (b + new + c) + current =~= s + (b + new + c + current));
    let t = b + new + c + current;
    assert(s + t + d =~= s + (t + d));
    assert(s + (t + d) + current =~= s + (t + d + current));
    assert(s + (t + d + current) + e =~= s + (t + d + current + e));
}

#[verifier::rlimit(50)]
proof fn lemma_script_literals()
    ensures
        "\"\necho [%date% %time%] start >>\"%LOG%\"\ntimeout /t 2 /nobreak >nul\nmove /y \""@
            == "\"\necho [%date% %time%] start >>\"%LOG%\"\ntimeout /t 2 /nobreak >nul\n"@
            + "move /y \""@,
        "\" >>\"%LOG%\" 2>&1\nif errorlevel 1 (\n    echo [%date% %time%] FATAL: move selhal, errorlevel %errorlevel% - stara appka je nedotcena >>\"%LOG%\"\n    exit /b 1\n)\necho [%date% %time%] move OK, spoustim novou appku >>\"%LOG%\"\nstart \"\" \""@
            == "\" >>\"%LOG%\" 2>&1\nif errorlevel 1 (\n    echo [%date% %time%] FATAL: move selhal, errorlevel %errorlevel% - stara appka je nedotcena >>\"%LOG%\"\n    exit /b 1\n)\necho [%date% %time%] move OK, spoustim novou appku >>\"%LOG%\"\n"@
            + "start \"\" \""@,
{
    reveal_strlit("move /y \"");
    reveal_strlit("start \"\" \"");
    reveal_strlit(
        "\"\necho [%date% %time%] start >>\"%LOG%\"\ntimeout /t 2 /nobreak >nul\nmove /y \"",
    );
    reveal_strlit("\"\necho [%date% %time%] start >>\"%LOG%\"\ntimeout /t 2 /nobreak >nul\n");
    reveal_strlit(
        "\" >>\"%LOG%\" 2>&1\nif errorlevel 1 (\n    echo [%date% %time%] FATAL: move selhal, errorlevel %errorlevel% - stara appka je nedotcena >>\"%LOG%\"\n    exit /b 1\n)\necho [%date% %time%] move OK, spoustim novou appku >>\"%LOG%\"\nstart \"\" \"",
    );
    reveal_strlit(
        "\" >>\"%LOG%\" 2>&1\nif errorlevel 1 (\n    echo [%date% %time%] FATAL: move selhal, errorlevel %errorlevel% - stara appka je nedotcena >>\"%LOG%\"\n    exit /b 1\n)\necho [%date% %time%] move OK, spoustim novou appku >>\"%LOG%\"\n",
    );
    assert(
    "\"\necho [%date% %time%] start >>\"%LOG%\"\ntimeout /t 2 /nobreak >nul\nmove /y \""@
        =~= "\"\necho [%date% %time%] start >>\"%LOG%\"\ntimeout /t 2 /nobreak >nul\n"@
        + "move /y \""@);
    assert(
    "\" >>\"%LOG%\" 2>&1\nif errorlevel 1 (\n    echo [%date% %time%] FATAL: move selhal, errorlevel %errorlevel% - stara appka je nedotcena >>\"%LOG%\"\n    exit /b 1\n)\necho [%date% %time%] move OK, spoustim novou appku >>\"%LOG%\"\nstart \"\" \""@
        =~= "\" >>\"%LOG%\" 2>&1\nif errorlevel 1 (\n    echo [%date% %time%] FATAL: move selhal, errorlevel %errorlevel% - stara appka je nedotcena >>\"%LOG%\"\n    exit /b 1\n)\necho [%date% %time%] move OK, spoustim novou appku >>\"%LOG%\"\n"@
        + "start \"\" \""@);
}

/// What is said of an answer that is no success tells its status and all of its
/// body.
pub proof fn law_api_error(status: u16, reason: Option<Seq<char>>, body: Seq<char>)
    ensures
        api_error_text(status, reason, body) == "GitHub API vrátilo "@ + status_text(status, reason)
            + ": "@ + body,
        REPO_OWNER@ == "DaTTcz"@,
        REPO_NAME@ == "TVH-Client"@,
        ASSET_NAME@ == "TVH-Client.exe"@,
{
}

/// A check does not touch an installation, nor the other way round. What a
/// release comes to is told as it is.
pub proof fn law_check_and_install(a: UpdatePanel, b: UpdatePanel, r: ReleaseInfo, e: String)
    ensures
        a.same_install(b) ==> a.installing == b.installing && a.install_waiting == b.install_waiting
            && a.install_message == b.install_message,
        a.same_check(b) ==> a.checking == b.checking && a.waiting == b.waiting && a.result
            == b.result,
        release_result(Ok(r)) == Ok::<ReleaseView, Seq<char>>(r@),
        release_result(Err(e)) == Err::<ReleaseView, Seq<char>>(e@),
        r@.version == r.version@,
        r@.is_newer == r.is_newer,
        r@.download_url == r.download_url@,
{
}

} // verus!
