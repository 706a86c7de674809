//! The TVHeadend REST and M3U client.
//!
//! A [`TvhClient`] knows what to ask a server for and what to make of its
//! answers. It sends nothing itself: its methods give the [`Request`] to make,
//! [`TvhClient::on_status`] says what to do with the status of the reply, and
//! the other functions read the reply's body. The channel list comes from the
//! M3U playlist; tags, the programme guide and recordings from the JSON API.
pub mod digest;
pub mod m3u;

use vstd::prelude::*;
use vstd::slice::slice_subrange;
use vstd::string::*;

use crate::json::Json;
use crate::numbers::{decimal, push_digits, signed_string};
use crate::order::{ascending, law_sorted, law_stable, sort, sorted, with_key, Keyed};
use crate::outside::{parse_url, parts_view, url_parts};
use crate::text::{
    ascii_alnum, begins, chars_of, clone_opt, find, is_ascii_alnum, is_white_space, law_find,
    law_not_found, lemma_trim_stays, lemma_trimmed, lines, listed, opt_str_view, opt_view, owned,
    position, same_str, slice_views, split_lines, starts_with, string_of, string_views, trim,
    trimmed,
};
use crate::text_map::{lemma_texts_insert, texts, TextMap};
use digest::{answer, authorization_header, challenge_of, Challenge, NonceSeed};
use m3u::M3uItemView;

verus! {

// ---- what the server has ------------------------------------------------

/// A single playable channel, as shown in the channel list.
#[derive(Debug)]
pub struct Channel {
    /// TVHeadend's own channel uuid, from the playlist's `tvg-id` attribute.
    /// It is what tags and guide events refer to.
    pub channel_id: String,
    pub number: String,
    pub name: String,
    pub logo_url: String,
    pub stream_url: String,
}

impl Clone for Channel {
    fn clone(&self) -> (r: Self)
        ensures
            r == *self,
    {
        Channel {
            channel_id: self.channel_id.clone(),
            number: self.number.clone(),
            name: self.name.clone(),
            logo_url: self.logo_url.clone(),
            stream_url: self.stream_url.clone(),
        }
    }
}

/// The text of a channel.
pub struct ChannelView {
    pub channel_id: Seq<char>,
    pub number: Seq<char>,
    pub name: Seq<char>,
    pub logo_url: Seq<char>,
    pub stream_url: Seq<char>,
}

impl View for Channel {
    type V = ChannelView;

    open spec fn view(&self) -> ChannelView {
        ChannelView {
            channel_id: self.channel_id@,
            number: self.number@,
            name: self.name@,
            logo_url: self.logo_url@,
            stream_url: self.stream_url@,
        }
    }
}

/// The views of a list of channels.
pub open spec fn channel_views(channels: Seq<Channel>) -> Seq<ChannelView> {
    channels.map_values(|c: Channel| c@)
}

/// The answer to `api/serverinfo`. Every field can be missing: they are only
/// shown, and a missing one never breaks the connection.
#[derive(Debug)]
pub struct ServerInfo {
    pub sw_version: Option<String>,
    pub api_version: Option<i64>,
    pub name: Option<String>,
}

impl Clone for ServerInfo {
    fn clone(&self) -> (r: Self)
        ensures
            r == *self,
    {
        ServerInfo {
            sw_version: clone_opt(&self.sw_version),
            api_version: self.api_version,
            name: clone_opt(&self.name),
        }
    }
}

impl Default for ServerInfo {
    fn default() -> (r: Self)
        ensures
            r.sw_version is None,
            r.api_version is None,
            r.name is None,
    {
        ServerInfo { sw_version: None, api_version: None, name: None }
    }
}

/// A channel tag, by which the user picks a subset of the channels.
#[derive(Debug)]
pub struct ChannelTag {
    pub uuid: String,
    pub name: String,
}

impl Default for ChannelTag {
    fn default() -> (r: Self)
        ensures
            r.uuid@.len() == 0,
            r.name@.len() == 0,
    {
        ChannelTag { uuid: String::new(), name: String::new() }
    }
}

impl Clone for ChannelTag {
    fn clone(&self) -> (r: Self)
        ensures
            r == *self,
    {
        ChannelTag { uuid: self.uuid.clone(), name: self.name.clone() }
    }
}

/// What the channel grid says of a channel's tags.
#[derive(Debug)]
pub struct AdminChannel {
    pub uuid: String,
    pub tags: Vec<String>,
}

/// A recording profile.
#[derive(Debug)]
pub struct DvrConfig {
    pub uuid: String,
    pub name: String,
}

/// One programme guide entry. Times are seconds since 1970, UTC.
#[derive(Debug)]
pub struct EpgEvent {
    pub event_id: i64,
    pub channel_uuid: String,
    pub start: i64,
    pub stop: i64,
    pub title: String,
    pub subtitle: Option<String>,
    pub summary: Option<String>,
    pub description: Option<String>,
}

impl Default for EpgEvent {
    fn default() -> (r: Self)
        ensures
            r.event_id == 0,
            r.channel_uuid@.len() == 0,
            r.start == 0,
            r.stop == 0,
            r.title@.len() == 0,
            r.subtitle is None,
            r.summary is None,
            r.description is None,
    {
        EpgEvent {
            event_id: 0,
            channel_uuid: String::new(),
            start: 0,
            stop: 0,
            title: String::new(),
            subtitle: None,
            summary: None,
            description: None,
        }
    }
}

impl Clone for EpgEvent {
    fn clone(&self) -> (r: Self)
        ensures
            r == *self,
    {
        EpgEvent {
            event_id: self.event_id,
            channel_uuid: self.channel_uuid.clone(),
            start: self.start,
            stop: self.stop,
            title: self.title.clone(),
            subtitle: clone_opt(&self.subtitle),
            summary: clone_opt(&self.summary),
            description: clone_opt(&self.description),
        }
    }
}

/// One DVR entry: a timer, a running recording, or a finished or failed one.
/// `sched_status` tells them apart.
#[derive(Debug)]
pub struct DvrEntry {
    pub uuid: String,
    pub disp_title: String,
    pub disp_subtitle: String,
    /// The server's own choice among subtitle, summary and description.
    pub disp_extratext: String,
    pub channelname: String,
    /// Seconds since 1970, UTC.
    pub start: i64,
    pub stop: i64,
    /// A line for people, such as "Completed OK".
    pub status: String,
    /// A word for programs: "scheduled", "recording", "completed".
    pub sched_status: String,
    /// In bytes; 0 for an entry that is not finished.
    pub filesize: i64,
    /// Relative, such as `dvrfile/<uuid>`, once there is a file.
    pub url: String,
    /// The full path on the server. Only its extension is of use here.
    pub filename: String,
    pub errors: i64,
    pub errorcode: i64,
}

impl Default for DvrEntry {
    fn default() -> (r: Self)
        ensures
            r.uuid@.len() == 0,
            r.disp_title@.len() == 0,
            r.disp_subtitle@.len() == 0,
            r.disp_extratext@.len() == 0,
            r.channelname@.len() == 0,
            r.start == 0,
            r.stop == 0,
            r.status@.len() == 0,
            r.sched_status@.len() == 0,
            r.filesize == 0,
            r.url@.len() == 0,
            r.filename@.len() == 0,
            r.errors == 0,
            r.errorcode == 0,
    {
        DvrEntry {
            uuid: String::new(),
            disp_title: String::new(),
            disp_subtitle: String::new(),
            disp_extratext: String::new(),
            channelname: String::new(),
            start: 0,
            stop: 0,
            status: String::new(),
            sched_status: String::new(),
            filesize: 0,
            url: String::new(),
            filename: String::new(),
            errors: 0,
            errorcode: 0,
        }
    }
}

impl Clone for DvrEntry {
    fn clone(&self) -> (r: Self)
        ensures
            r == *self,
    {
        DvrEntry {
            uuid: self.uuid.clone(),
            disp_title: self.disp_title.clone(),
            disp_subtitle: self.disp_subtitle.clone(),
            disp_extratext: self.disp_extratext.clone(),
            channelname: self.channelname.clone(),
            start: self.start,
            stop: self.stop,
            status: self.status.clone(),
            sched_status: self.sched_status.clone(),
            filesize: self.filesize,
            url: self.url.clone(),
            filename: self.filename.clone(),
            errors: self.errors,
            errorcode: self.errorcode,
        }
    }
}

// ---- errors -------------------------------------------------------------

/// Why a request gave nothing.
#[derive(Debug)]
pub enum TvhError {
    InvalidUrl(String),
    Request(String),
    Http { status: u16, body: String },
    AuthFailed,
    Parse(String),
}

/// The text of an error.
pub enum ErrorView {
    InvalidUrl(Seq<char>),
    Request(Seq<char>),
    Http { status: u16, body: Seq<char> },
    AuthFailed,
    Parse(Seq<char>),
}

impl View for TvhError {
    type V = ErrorView;

    open spec fn view(&self) -> ErrorView {
        match self {
            TvhError::InvalidUrl(s) => ErrorView::InvalidUrl(s@),
            TvhError::Request(s) => ErrorView::Request(s@),
            TvhError::Http { status, body } => ErrorView::Http { status: *status, body: body@ },
            TvhError::AuthFailed => ErrorView::AuthFailed,
            TvhError::Parse(s) => ErrorView::Parse(s@),
        }
    }
}

/// The first 200 characters.
pub open spec fn snippet(s: Seq<char>) -> Seq<char> {
    if s.len() <= 200 {
        s
    } else {
        s.take(200)
    }
}

/// What the user is told of an error.
pub open spec fn error_message(e: ErrorView) -> Seq<char> {
    match e {
        ErrorView::InvalidUrl(s) => "Neplatná adresa serveru: "@ + s,
        ErrorView::Request(s) => "Chyba spojení: "@ + s,
        ErrorView::Http { status, body } => "Server odpověděl chybou "@ + decimal(status as int)
            + ": "@ + snippet(body),
        ErrorView::AuthFailed => "Přihlášení se nezdařilo (špatné jméno/heslo?)"@,
        ErrorView::Parse(s) => "Nepodařilo se zpracovat odpověď serveru: "@ + s,
    }
}

impl TvhError {
    /// What the user is told of the error.
    pub fn message(&self) -> (r: String)
        ensures
            r@ == error_message(self@),
    {
        match self {
            TvhError::InvalidUrl(s) => {
                let mut out = owned("Neplatná adresa serveru: ");
                out.append(s.as_str());
                out
            },
            TvhError::Request(s) => {
                let mut out = owned("Chyba spojení: ");
                out.append(s.as_str());
                out
            },
            TvhError::Http { status, body } => {
                let mut out = owned("Server odpověděl chybou ");
                push_digits(&mut out, *status as u128, 10);
                out.append(": ");
                let text = chars_of(body.as_str());
                if text.len() <= 200 {
                    out.append(body.as_str());
                } else {
                    proof {
                        assert(text@.subrange(0, 200) =~= text@.take(200));
                    }
                    out.append(string_of(slice_subrange(text.as_slice(), 0, 200)).as_str());
                }
                out
            },
            TvhError::AuthFailed => owned("Přihlášení se nezdařilo (špatné jméno/heslo?)"),
            TvhError::Parse(s) => {
                let mut out = owned("Nepodařilo se zpracovat odpověď serveru: ");
                out.append(s.as_str());
                out
            },
        }
    }
}

// ---- the client ---------------------------------------------------------

/// A server's address and the credentials for it.
#[derive(Debug)]
pub struct TvhClient {
    base_url: String,
    user: String,
    password: String,
    timeout_secs: u64,
}

/// What a client is made of.
pub struct ClientView {
    pub base_url: Seq<char>,
    pub user: Seq<char>,
    pub password: Seq<char>,
    pub timeout_secs: u64,
}

impl View for TvhClient {
    type V = ClientView;

    closed spec fn view(&self) -> ClientView {
        ClientView {
            base_url: self.base_url@,
            user: self.user@,
            password: self.password@,
            timeout_secs: self.timeout_secs,
        }
    }
}

/// An address as the client uses it: without white space around it, with a
/// scheme, `http://` where none is given, and with a slash at the end.
pub open spec fn normal_url(s: Seq<char>) -> Seq<char> {
    let t = trim(s);
    let schemed = if begins(t, "http://"@) || begins(t, "https://"@) {
        t
    } else {
        "http://"@ + t
    };
    if schemed.last() == '/' {
        schemed
    } else {
        schemed.push('/')
    }
}

/// The client for an address that was made normal, by what the `url` crate
/// makes of that address.
pub open spec fn client_made(
    base_url: Seq<char>,
    user: Seq<char>,
    password: Seq<char>,
    timeout_secs: u64,
    parts: Result<(Seq<char>, Option<Seq<char>>), Seq<char>>,
) -> Result<ClientView, ErrorView> {
    match parts {
        Ok(_) => Ok(ClientView { base_url, user, password, timeout_secs }),
        Err(e) => Err(ErrorView::InvalidUrl(e)),
    }
}

/// The client for an address that the user gave.
pub open spec fn client_of(
    base_url: Seq<char>,
    user: Seq<char>,
    password: Seq<char>,
    timeout_secs: u64,
) -> Result<ClientView, ErrorView> {
    if trim(base_url).len() == 0 {
        Err(ErrorView::InvalidUrl("adresa je prázdná"@))
    } else {
        let url = normal_url(base_url);
        client_made(url, user, password, timeout_secs, url_parts(url))
    }
}

/// The view of a result with an error of the client.
pub open spec fn client_result(r: Result<TvhClient, TvhError>) -> Result<ClientView, ErrorView> {
    match r {
        Ok(c) => Ok(c@),
        Err(e) => Err(e@),
    }
}

/// The view of a body or of an error.
pub open spec fn text_result(r: Result<String, TvhError>) -> Result<Seq<char>, ErrorView> {
    match r {
        Ok(s) => Ok(s@),
        Err(e) => Err(e@),
    }
}

/// An address as the client uses it, or `None` where it is blank.
pub fn normalize(base_url: &str) -> (r: Option<String>)
    ensures
        r is None <==> trim(base_url@).len() == 0,
        r matches Some(url) ==> url@ == normal_url(base_url@),
{
    let text = chars_of(base_url);
    let t = trimmed(text.as_slice());
    if t.len() == 0 {
        return None;
    }
    let mut url = if starts_with(t, chars_of("http://").as_slice()) || starts_with(
        t,
        chars_of("https://").as_slice(),
    ) {
        String::new()
    } else {
        owned("http://")
    };
    url.append(string_of(t).as_str());
    proof {
        assert(""@ + t@ =~= t@) by {
            reveal_strlit("");
        }
        assert(Seq::<char>::empty() + t@ =~= t@);
        assert(url@.len() > 0);
        assert(url@.last() == t@.last());
    }
    if t[t.len() - 1] != '/' {
        url.push('/');
    }
    Some(url)
}

/// How a request is made.
#[derive(Debug, Clone, Copy, PartialEq, Eq, Structural)]
pub enum Method {
    Get,
    Post,
}

impl Method {
    /// The name of the method on the wire.
    pub open spec fn name_view(self) -> Seq<char> {
        match self {
            Method::Get => "GET"@,
            Method::Post => "POST"@,
        }
    }

    /// The name of the method on the wire.
    pub fn name(self) -> (r: &'static str)
        ensures
            r@ == self.name_view(),
    {
        match self {
            Method::Get => "GET",
            Method::Post => "POST",
        }
    }
}

/// A request: its path is relative to the client's address, and a POST sends
/// the form.
#[derive(Debug)]
pub struct Request {
    pub method: Method,
    pub path: String,
    pub form: Vec<(String, String)>,
}

/// The text of a request.
#[verifier::ext_equal]
pub struct RequestView {
    pub method: Method,
    pub path: Seq<char>,
    pub form: Seq<(Seq<char>, Seq<char>)>,
}

impl View for Request {
    type V = RequestView;

    open spec fn view(&self) -> RequestView {
        RequestView {
            method: self.method,
            path: self.path@,
            form: self.form@.map_values(|p: (String, String)| (p.0@, p.1@)),
        }
    }
}

/// A GET of a path.
pub open spec fn get_of(path: Seq<char>) -> RequestView {
    RequestView { method: Method::Get, path, form: Seq::empty() }
}

/// A POST of a form to a path.
pub open spec fn post_of(path: Seq<char>, form: Seq<(Seq<char>, Seq<char>)>) -> RequestView {
    RequestView { method: Method::Post, path, form }
}

/// A GET of a path.
fn get(path: &str) -> (r: Request)
    ensures
        r@ == get_of(path@),
{
    let r = Request { method: Method::Get, path: owned(path), form: Vec::new() };
    proof {
        assert(r@ =~= get_of(path@));
    }
    r
}

/// A POST of a form of one field.
fn post_one(path: &str, name: &str, value: &str) -> (r: Request)
    ensures
        r@ == post_of(path@, seq![(name@, value@)]),
{
    let mut form: Vec<(String, String)> = Vec::new();
    form.push((owned(name), owned(value)));
    let r = Request { method: Method::Post, path: owned(path), form };
    proof {
        assert(r@ =~= post_of(path@, seq![(name@, value@)]));
    }
    r
}

/// A POST of a form of two fields.
fn post_two(path: &str, name: &str, value: &str, name2: &str, value2: &str) -> (r: Request)
    ensures
        r@ == post_of(path@, seq![(name@, value@), (name2@, value2@)]),
{
    let mut form: Vec<(String, String)> = Vec::new();
    form.push((owned(name), owned(value)));
    form.push((owned(name2), owned(value2)));
    let r = Request { method: Method::Post, path: owned(path), form };
    proof {
        assert(r@ =~= post_of(path@, seq![(name@, value@), (name2@, value2@)]));
    }
    r
}

/// The request target of a URL, which is what a Digest answer is computed
/// over: the path and the query, without scheme and host. A text that is no
/// URL stands for itself.
pub open spec fn target_of(
    url: Seq<char>,
    parts: Result<(Seq<char>, Option<Seq<char>>), Seq<char>>,
) -> Seq<char> {
    match parts {
        Ok((path, Some(query))) => path.push('?') + query,
        Ok((path, None)) => path,
        Err(_) => url,
    }
}

/// The request target by the parts of the URL.
pub fn target(url: &str, parts: Result<(String, Option<String>), String>) -> (r: String)
    ensures
        r@ == target_of(url@, parts_view(parts)),
{
    match parts {
        Ok((path, query)) => {
            let mut out = path;
            match query {
                Some(q) => {
                    out.push('?');
                    out.append(q.as_str());
                },
                None => {},
            }
            out
        },
        Err(_) => owned(url),
    }
}

/// The request target of a URL.
pub fn request_target(full_url: &str) -> (r: String)
    ensures
        r@ == target_of(full_url@, url_parts(full_url@)),
{
    target(full_url, parse_url(full_url))
}

/// What to do once the status of a reply is known.
#[derive(Debug)]
pub enum Step {
    /// Read the body and hand it to [`finish`].
    ReadBody,
    /// Make the same request once more, with this `Authorization` header.
    Retry(String),
    /// Give up: the server wants something that cannot be answered.
    AuthFailed,
}

/// What to do, with the header as text.
pub enum StepView {
    ReadBody,
    Retry(Seq<char>),
    AuthFailed,
}

impl View for Step {
    type V = StepView;

    open spec fn view(&self) -> StepView {
        match self {
            Step::ReadBody => StepView::ReadBody,
            Step::Retry(h) => StepView::Retry(h@),
            Step::AuthFailed => StepView::AuthFailed,
        }
    }
}

/// What to do with a reply. The first one that says 401 is answered by its
/// `WWW-Authenticate` header; every other reply is taken as it is.
pub open spec fn step_of(
    c: ClientView,
    method: Method,
    target: Seq<char>,
    retried: bool,
    status: u16,
    header: Option<Seq<char>>,
    cnonce: Seq<char>,
) -> StepView {
    if retried || status != 401 {
        StepView::ReadBody
    } else {
        match header {
            None => StepView::AuthFailed,
            Some(h) => match challenge_of(h) {
                None => StepView::AuthFailed,
                Some(challenge) => match answer(
                    challenge,
                    c.user,
                    c.password,
                    method.name_view(),
                    target,
                    cnonce,
                ) {
                    None => StepView::AuthFailed,
                    Some(a) => StepView::Retry(a),
                },
            },
        }
    }
}

impl TvhClient {
    /// `base_url` may be given without a scheme, which then is `http://`, and
    /// with or without a slash at the end, such as `192.168.0.10:9981`.
    /// Requests time out after ten seconds, which is fine for all but the
    /// programme guide: see [`TvhClient::with_timeout`].
    pub fn new(base_url: &str, user: &str, password: &str) -> (r: Result<Self, TvhError>)
        ensures
            client_result(r) == client_of(base_url@, user@, password@, 10),
    {
        Self::with_timeout(base_url, user, password, 10)
    }

    /// Like [`TvhClient::new`], with a request timeout of the caller's choice.
    pub fn with_timeout(base_url: &str, user: &str, password: &str, timeout_secs: u64) -> (r: Result<
        Self,
        TvhError,
    >)
        ensures
            client_result(r) == client_of(base_url@, user@, password@, timeout_secs),
    {
        match normalize(base_url) {
            None => Err(TvhError::InvalidUrl(owned("adresa je prázdná"))),
            Some(url) => {
                let parts = parse_url(url.as_str());
                Self::from_parts(url, user, password, timeout_secs, parts)
            },
        }
    }

    /// The client for an address that was made normal, by its parts.
    pub fn from_parts(
        base_url: String,
        user: &str,
        password: &str,
        timeout_secs: u64,
        parts: Result<(String, Option<String>), String>,
    ) -> (r: Result<Self, TvhError>)
        ensures
            client_result(r) == client_made(
                base_url@,
                user@,
                password@,
                timeout_secs,
                parts_view(parts),
            ),
    {
        match parts {
            Ok(_) => Ok(
                TvhClient { base_url, user: owned(user), password: owned(password), timeout_secs },
            ),
            Err(e) => Err(TvhError::InvalidUrl(e)),
        }
    }

    /// After how many seconds a request times out.
    pub fn timeout_secs(&self) -> (r: u64)
        ensures
            r == self@.timeout_secs,
    {
        self.timeout_secs
    }

    /// The full URL of a request.
    pub fn url(&self, request: &Request) -> (r: String)
        ensures
            r@ == self@.base_url + request@.path,
    {
        let mut out = self.base_url.clone();
        out.append(request.path.as_str());
        out
    }

    /// What to do with the reply to `request`, by its status and, where it has
    /// one that is text, its `WWW-Authenticate` header. `retried` says whether
    /// the request carried an `Authorization` header.
    pub fn on_status(
        &self,
        request: &Request,
        retried: bool,
        status: u16,
        header: Option<&str>,
        seed: &NonceSeed,
    ) -> (r: Step)
        ensures
            r@ == step_of(
                self@,
                request@.method,
                target_of(
                    self@.base_url + request@.path,
                    url_parts(self@.base_url + request@.path),
                ),
                retried,
                status,
                opt_str_view(header),
                seed.nonce_view(),
            ),
    {
        if retried || status != 401 {
            return Step::ReadBody;
        }
        let target = request_target(self.url(request).as_str());
        self.respond(request.method, target.as_str(), retried, status, header, seed)
    }

    /// What to do with the reply to a request for `target`.
    pub fn respond(
        &self,
        method: Method,
        target: &str,
        retried: bool,
        status: u16,
        header: Option<&str>,
        seed: &NonceSeed,
    ) -> (r: Step)
        ensures
            r@ == step_of(
                self@,
                method,
                target@,
                retried,
                status,
                opt_str_view(header),
                seed.nonce_view(),
            ),
    {
        if retried || status != 401 {
            return Step::ReadBody;
        }
        let challenge = match header {
            Some(h) => match Challenge::parse(h) {
                Some(c) => c,
                None => {
                    return Step::AuthFailed;
                },
            },
            None => {
                return Step::AuthFailed;
            },
        };
        match authorization_header(
            &challenge,
            self.user.as_str(),
            self.password.as_str(),
            method.name(),
            target,
            seed,
        ) {
            Some(a) => Step::Retry(a),
            None => Step::AuthFailed,
        }
    }
}

/// What a reply comes to, by its status and its body or what kept the body
/// from being read: a body on success, an error otherwise.
pub open spec fn finished(
    status: u16,
    body: Result<Seq<char>, Seq<char>>,
) -> Result<Seq<char>, ErrorView> {
    if 200 <= status < 300 {
        match body {
            Ok(b) => Ok(b),
            Err(e) => Err(ErrorView::Request(e)),
        }
    } else {
        match body {
            Ok(b) => Err(ErrorView::Http { status, body: b }),
            Err(_) => Err(ErrorView::Http { status, body: Seq::empty() }),
        }
    }
}

/// The view of a body or of what kept it from being read.
pub open spec fn body_view(r: Result<String, String>) -> Result<Seq<char>, Seq<char>> {
    match r {
        Ok(s) => Ok(s@),
        Err(e) => Err(e@),
    }
}

/// What a reply comes to.
pub fn finish(status: u16, body: Result<String, String>) -> (r: Result<String, TvhError>)
    ensures
        text_result(r) == finished(status, body_view(body)),
{
    if 200 <= status && status < 300 {
        match body {
            Ok(b) => Ok(b),
            Err(e) => Err(TvhError::Request(e)),
        }
    } else {
        match body {
            Ok(b) => Err(TvhError::Http { status, body: b }),
            Err(_) => Err(TvhError::Http { status, body: String::new() }),
        }
    }
}

// ---- requests -----------------------------------------------------------

/// The list that a playlist holds.
#[derive(Debug, Clone, Copy, PartialEq, Eq, Structural)]
pub enum Playlist {
    Channels,
    Recordings,
}

impl Playlist {
    /// The path of the playlist. Under `auth/` its URLs need no credentials.
    pub open spec fn path_view(self, auth: bool) -> Seq<char> {
        match (self, auth) {
            (Playlist::Channels, true) => "playlist/auth/channels"@,
            (Playlist::Channels, false) => "playlist/channels"@,
            (Playlist::Recordings, true) => "playlist/auth/recordings"@,
            (Playlist::Recordings, false) => "playlist/recordings"@,
        }
    }

    fn path(self, auth: bool) -> (r: &'static str)
        ensures
            r@ == self.path_view(auth),
    {
        match self {
            Playlist::Channels => if auth {
                "playlist/auth/channels"
            } else {
                "playlist/channels"
            },
            Playlist::Recordings => if auth {
                "playlist/auth/recordings"
            } else {
                "playlist/recordings"
            },
        }
    }
}

impl ClientView {
    /// Whether there are credentials.
    pub open spec fn with_auth(self) -> bool {
        self.user.len() > 0 || self.password.len() > 0
    }
}

/// The path of a page of the programme guide.
pub open spec fn page_path(start: int, limit: int) -> Seq<char> {
    "api/epg/events/grid?start="@ + decimal(start) + "&limit="@ + decimal(limit) + "&sort=start"@
}

impl TvhClient {
    /// Whether there are credentials.
    pub fn with_auth(&self) -> (r: bool)
        ensures
            r == self@.with_auth(),
    {
        !self.user.as_str().is_empty() || !self.password.as_str().is_empty()
    }

    /// The first request for a playlist.
    pub fn playlist(&self, list: Playlist) -> (r: Request)
        ensures
            r@ == get_of(list.path_view(self@.with_auth())),
    {
        get(list.path(self.with_auth()))
    }

    /// What to ask for where the first request for a playlist failed: servers
    /// before 4.3 have no `auth/` path, so with credentials the plain one is
    /// worth a try.
    pub fn playlist_fallback(&self, list: Playlist) -> (r: Option<Request>)
        ensures
            r is Some <==> self@.with_auth(),
            r matches Some(q) ==> q@ == get_of(list.path_view(false)),
    {
        if self.with_auth() {
            Some(get(list.path(false)))
        } else {
            None
        }
    }

    /// Asks who the server is, to see that it can be reached at all.
    pub fn server_info(&self) -> (r: Request)
        ensures
            r@ == get_of("api/serverinfo"@),
    {
        get("api/serverinfo")
    }

    /// Asks for the channel list, as any IPTV player would.
    pub fn channels(&self) -> (r: Request)
        ensures
            r@ == get_of(Playlist::Channels.path_view(self@.with_auth())),
    {
        self.playlist(Playlist::Channels)
    }

    /// Asks for the channel tags of the server.
    pub fn channel_tags(&self) -> (r: Request)
        ensures
            r@ == get_of("api/channeltag/grid"@),
    {
        get("api/channeltag/grid")
    }

    /// Asks which tags each channel carries, where the channel list is to be
    /// restricted to some tags. Without tags nothing is restricted and there
    /// is nothing to ask.
    pub fn channels_for_tags(&self, tag_uuids: &Vec<String>) -> (r: Option<Request>)
        ensures
            r is Some <==> tag_uuids@.len() > 0,
            r matches Some(q) ==> q@ == get_of("api/channel/grid?limit=100000"@),
    {
        if tag_uuids.len() == 0 {
            None
        } else {
            Some(get("api/channel/grid?limit=100000"))
        }
    }

    /// Asks for one page of the programme guide, sorted by start time: `limit`
    /// rows from row `start` on. The earliest pages hold what is on soonest.
    pub fn epg_events_page(&self, start: usize, limit: usize) -> (r: Request)
        ensures
            r@ == get_of(page_path(start as int, limit as int)),
    {
        let mut path = owned("api/epg/events/grid?start=");
        push_digits(&mut path, start as u128, 10);
        path.append("&limit=");
        push_digits(&mut path, limit as u128, 10);
        path.append("&sort=start");
        get(path.as_str())
    }

    fn dvr_grid(&self, path: &str) -> (r: Request)
        ensures
            r@ == get_of(path@ + "?limit=100000"@),
    {
        let mut full = owned(path);
        full.append("?limit=100000");
        get(full.as_str())
    }

    /// Asks for the timers that have not started yet.
    pub fn dvr_upcoming(&self) -> (r: Request)
        ensures
            r@ == get_of("api/dvr/entry/grid_upcoming"@ + "?limit=100000"@),
    {
        self.dvr_grid("api/dvr/entry/grid_upcoming")
    }

    /// Asks for the recordings that completed and are still on disk.
    pub fn dvr_finished(&self) -> (r: Request)
        ensures
            r@ == get_of("api/dvr/entry/grid_finished"@ + "?limit=100000"@),
    {
        self.dvr_grid("api/dvr/entry/grid_finished")
    }

    /// Asks for the recordings that failed.
    pub fn dvr_failed(&self) -> (r: Request)
        ensures
            r@ == get_of("api/dvr/entry/grid_failed"@ + "?limit=100000"@),
    {
        self.dvr_grid("api/dvr/entry/grid_failed")
    }

    /// Cancels a timer, or aborts a running recording.
    pub fn dvr_cancel(&self, uuid: &str) -> (r: Request)
        ensures
            r@ == post_of("api/dvr/entry/cancel"@, seq![("uuid"@, uuid@)]),
    {
        post_one("api/dvr/entry/cancel", "uuid", uuid)
    }

    /// Deletes the file and the log entry of a finished or failed recording.
    pub fn dvr_remove(&self, uuid: &str) -> (r: Request)
        ensures
            r@ == post_of("api/dvr/entry/remove"@, seq![("uuid"@, uuid@)]),
    {
        post_one("api/dvr/entry/remove", "uuid", uuid)
    }

    /// Asks for the playlist of the recordings, whose URLs can be fetched as
    /// they are: see [`read_dvr_urls`].
    pub fn dvr_urls(&self) -> (r: Request)
        ensures
            r@ == get_of(Playlist::Recordings.path_view(self@.with_auth())),
    {
        self.playlist(Playlist::Recordings)
    }

    /// Asks for the recording profiles: see [`default_config_uuid`].
    pub fn dvr_default_config_uuid(&self) -> (r: Request)
        ensures
            r@ == get_of("api/dvr/config/grid?limit=100000"@),
    {
        get("api/dvr/config/grid?limit=100000")
    }

    /// Schedules the recording of one guide event.
    pub fn dvr_record_event(&self, event_id: i64, config_uuid: &str) -> (r: Request)
        ensures
            r@ == post_of(
                "api/dvr/entry/create_by_event"@,
                seq![("event_id"@, decimal(event_id as int)), ("config_uuid"@, config_uuid@)],
            ),
    {
        post_two(
            "api/dvr/entry/create_by_event",
            "event_id",
            signed_string(event_id).as_str(),
            "config_uuid",
            config_uuid,
        )
    }

    /// Creates a recurring recording by `conf`, the JSON text of what
    /// [`autorec_conf`] gives.
    pub fn dvr_autorec_create_for_title(&self, conf: &str, config_uuid: &str) -> (r: Request)
        ensures
            r@ == post_of(
                "api/dvr/autorec/create"@,
                seq![("conf"@, conf@), ("config_uuid"@, config_uuid@)],
            ),
    {
        post_two("api/dvr/autorec/create", "conf", conf, "config_uuid", config_uuid)
    }

    /// Asks for the recurring recordings: see [`grid_entries`].
    pub fn autorec_list(&self) -> (r: Request)
        ensures
            r@ == get_of("api/dvr/autorec/grid?limit=100000"@),
    {
        get("api/dvr/autorec/grid?limit=100000")
    }

    /// Deletes a recurring recording.
    pub fn autorec_delete(&self, uuid: &str) -> (r: Request)
        ensures
            r@ == post_of("api/idnode/delete"@, seq![("uuid"@, uuid@)]),
    {
        post_one("api/idnode/delete", "uuid", uuid)
    }

    /// Saves an edited recurring recording. `node` is the JSON text of the
    /// complete object as it was listed, with only the edited fields changed:
    /// the server replaces the object, it does not merge.
    pub fn autorec_save(&self, node: &str) -> (r: Request)
        ensures
            r@ == post_of("api/idnode/save"@, seq![("node"@, node@)]),
    {
        post_one("api/idnode/save", "node", node)
    }
}

/// What a recurring recording of every future event with a title on a channel
/// is created from.
pub fn autorec_conf(title: &str, channel_uuid: &str) -> (r: Json)
    ensures
        r is Object,
        r.members().dom() == set!["enabled"@, "title"@, "fulltext"@, "channel"@],
        r.bool_at("enabled"@) == Some(true),
        r.text_at("title"@) == Some(title@),
        r.bool_at("fulltext"@) == Some(false),
        r.text_at("channel"@) == Some(channel_uuid@),
{
    proof {
        reveal_strlit("enabled");
        reveal_strlit("title");
        reveal_strlit("fulltext");
        reveal_strlit("channel");
        assert("enabled"@.len() == 7 && "title"@.len() == 5 && "fulltext"@.len() == 8
            && "channel"@.len() == 7);
        assert("enabled"@[0] != "channel"@[0]);
    }
    let mut m: TextMap<Json> = TextMap::new();
    m.insert("enabled", Json::Bool(true));
    m.insert("title", Json::Text(owned(title)));
    m.insert("fulltext", Json::Bool(false));
    m.insert("channel", Json::Text(owned(channel_uuid)));
    let r = Json::Object(m);
    proof {
        assert(r.members().dom() =~= set!["enabled"@, "title"@, "fulltext"@, "channel"@]);
    }
    r
}

// ---- replies ------------------------------------------------------------

/// The channel of a playlist entry.
pub open spec fn channel_of(item: M3uItemView) -> ChannelView {
    ChannelView {
        channel_id: item.channel_id,
        number: item.channel_number,
        name: item.channel_name,
        logo_url: item.logo_url,
        stream_url: item.stream_url,
    }
}

/// The channels of the playlist entries that have a channel number.
pub open spec fn numbered(items: Seq<M3uItemView>) -> Seq<ChannelView>
    decreases items.len(),
{
    if items.len() == 0 {
        Seq::empty()
    } else if items.last().channel_number.len() == 0 {
        numbered(items.drop_last())
    } else {
        numbered(items.drop_last()).push(channel_of(items.last()))
    }
}

/// The channels of a playlist, in its order. An entry without a channel number
/// is no channel.
pub fn read_channels(body: &str) -> (r: Result<Vec<Channel>, TvhError>)
    ensures
        match m3u::parse_view(body@) {
            Ok(items) => r matches Ok(v) && channel_views(v@) == numbered(items),
            Err(e) => r matches Err(err) && err@ == ErrorView::Parse(e),
        },
{
    let parsed = match m3u::parse(body) {
        Ok(p) => p,
        Err(e) => {
            return Err(TvhError::Parse(e));
        },
    };
    let ghost items = m3u::item_views(parsed.items@);
    let ghost all = parsed.items@;
    let mut out: Vec<Channel> = Vec::new();
    proof {
        assert(channel_views(out@) =~= Seq::<ChannelView>::empty());
    }
    for item in it: parsed.items
        invariant
            it.seq() == all,
            items == m3u::item_views(all),
            channel_views(out@) == numbered(items.take(it.index() as int)),
    {
        proof {
            let k = it.index();
            assert(items.take(k + 1).drop_last() =~= items.take(k as int));
            assert(items.take(k + 1).last() == item@);
        }
        let ghost before = out@;
        if !item.channel_number.as_str().is_empty() {
            let channel = Channel {
                channel_id: item.channel_id,
                number: item.channel_number,
                name: item.channel_name,
                logo_url: item.logo_url,
                stream_url: item.stream_url,
            };
            out.push(channel);
            proof {
                assert(channel_views(out@) =~= channel_views(before).push(channel@));
            }
        }
    }
    proof {
        assert(items.take(items.len() as int) =~= items);
    }
    Ok(out)
}

/// A channel and the place that its number gives it.
#[derive(Debug)]
pub struct RankedChannel {
    pub channel: Channel,
    pub rank: i64,
}

impl Keyed for RankedChannel {
    open spec fn key(self) -> int {
        self.rank as int
    }

    fn get_key(&self) -> (r: i128) {
        self.rank as i128
    }
}

/// Each channel with its rank.
pub open spec fn ranked(channels: Seq<Channel>, ranks: Seq<i64>) -> Seq<RankedChannel> {
    Seq::new(channels.len(), |i: int| RankedChannel { channel: channels[i], rank: ranks[i] })
}

/// The channels without their ranks.
pub open spec fn unranked(s: Seq<RankedChannel>) -> Seq<Channel> {
    s.map_values(|x: RankedChannel| x.channel)
}

/// The channels by their ranks, `ranks[i]` being that of `channels[i]`.
/// Channels of the same rank keep their order.
pub fn sort_channels(channels: Vec<Channel>, ranks: Vec<i64>) -> (r: Vec<Channel>)
    requires
        channels@.len() == ranks@.len(),
    ensures
        r@ == unranked(sorted(ranked(channels@, ranks@))),
{
    let ghost all = channels@;
    let mut list: Vec<RankedChannel> = Vec::new();
    let n: usize = ranks.len();
    let mut i: usize = 0;
    for channel in it: channels
        invariant
            it.seq() == all,
            n == ranks@.len(),
            all.len() == n,
            i == it.index(),
            list@ == ranked(all, ranks@).take(i as int),
    {
        list.push(RankedChannel { channel, rank: ranks[i] });
        proof {
            assert(list@ =~= ranked(all, ranks@).take(i + 1));
        }
        i = i + 1;
    }
    proof {
        assert(list@ =~= ranked(all, ranks@));
    }
    let list = sort(list);
    let ghost done = list@;
    let mut out: Vec<Channel> = Vec::new();
    for x in it: list
        invariant
            it.seq() == done,
            out@ == unranked(done).take(it.index() as int),
    {
        out.push(x.channel);
        proof {
            assert(out@ =~= unranked(done).take(it.index() + 1));
        }
    }
    proof {
        assert(unranked(done).take(done.len() as int) =~= unranked(done));
    }
    out
}

/// Whether one of the tags is wanted.
pub open spec fn tagged(c: AdminChannel, wanted: Seq<Seq<char>>) -> bool {
    exists|i: int|
        0 <= i < c.tags@.len() && #[trigger] wanted.contains(string_views(c.tags@)[i])
}

/// Whether the grid knows a channel with this uuid that carries a wanted tag.
pub open spec fn allowed(
    uuid: Seq<char>,
    grid: Seq<AdminChannel>,
    wanted: Seq<Seq<char>>,
) -> bool {
    exists|i: int| 0 <= i < grid.len() && (#[trigger] grid[i]).uuid@ == uuid && tagged(grid[i], wanted)
}

/// Whether a channel is shown. Without tags every channel is; with tags, one
/// that carries at least one of them.
pub open spec fn shown(c: Channel, grid: Seq<AdminChannel>, wanted: Seq<Seq<char>>) -> bool {
    wanted.len() == 0 || (c.channel_id@.len() > 0 && allowed(c.channel_id@, grid, wanted))
}

/// The channels that are shown.
pub open spec fn shown_channels(
    channels: Seq<Channel>,
    grid: Seq<AdminChannel>,
    wanted: Seq<Seq<char>>,
) -> Seq<Channel> {
    channels.filter(|c: Channel| shown(c, grid, wanted))
}

/// Whether a grid entry carries a wanted tag.
fn is_tagged(c: &AdminChannel, wanted: &Vec<String>) -> (r: bool)
    ensures
        r == tagged(*c, string_views(wanted@)),
{
    let n: usize = c.tags.len();
    for i in 0..n
        invariant
            n == c.tags@.len(),
            forall|j: int|
                0 <= j < i ==> !string_views(wanted@).contains(#[trigger] string_views(c.tags@)[j]),
    {
        if listed(c.tags[i].as_str(), wanted.as_slice()) {
            proof {
                assert(string_views(wanted@).contains(string_views(c.tags@)[i as int]));
            }
            return true;
        }
    }
    false
}

/// Whether the grid knows a channel with this uuid that carries a wanted tag.
fn is_allowed(uuid: &str, grid: &Vec<AdminChannel>, wanted: &Vec<String>) -> (r: bool)
    ensures
        r == allowed(uuid@, grid@, string_views(wanted@)),
{
    let n: usize = grid.len();
    for i in 0..n
        invariant
            n == grid@.len(),
            forall|j: int|
                0 <= j < i ==> !((#[trigger] grid@[j]).uuid@ == uuid@ && tagged(
                    grid@[j],
                    string_views(wanted@),
                )),
    {
        if same_str(grid[i].uuid.as_str(), uuid) && is_tagged(&grid[i], wanted) {
            return true;
        }
    }
    false
}

/// The channels that carry at least one of the wanted tags, by what the
/// channel grid says of them. Without tags all channels are kept.
pub fn filter_by_tags(
    channels: Vec<Channel>,
    grid: &Vec<AdminChannel>,
    tag_uuids: &Vec<String>,
) -> (r: Vec<Channel>)
    ensures
        r@ == shown_channels(channels@, grid@, string_views(tag_uuids@)),
{
    let ghost all = channels@;
    let ghost wanted = string_views(tag_uuids@);
    let mut out: Vec<Channel> = Vec::new();
    proof {
        reveal(Seq::filter);
    }
    for channel in it: channels
        invariant
            it.seq() == all,
            wanted == string_views(tag_uuids@),
            out@ == shown_channels(all.take(it.index() as int), grid@, wanted),
    {
        proof {
            reveal(Seq::filter);
            assert(all.take(it.index() + 1).drop_last() =~= all.take(it.index() as int));
        }
        if tag_uuids.len() == 0 || (!channel.channel_id.as_str().is_empty() && is_allowed(
            channel.channel_id.as_str(),
            grid,
            tag_uuids,
        )) {
            out.push(channel);
        }
    }
    proof {
        assert(all.take(all.len() as int) =~= all);
    }
    out
}

/// Whether an event can be placed on a timeline.
pub open spec fn usable(e: EpgEvent) -> bool {
    e.channel_uuid@.len() > 0 && e.stop > e.start
}

/// The events that can be placed on a timeline.
pub open spec fn placeable(events: Seq<EpgEvent>) -> Seq<EpgEvent> {
    events.filter(|e: EpgEvent| usable(e))
}

/// The events that can be placed on a timeline: those that name a channel and
/// end after they start.
pub fn usable_events(events: Vec<EpgEvent>) -> (r: Vec<EpgEvent>)
    ensures
        r@ == placeable(events@),
        r@.len() <= events@.len(),
{
    let ghost all = events@;
    let mut out: Vec<EpgEvent> = Vec::new();
    proof {
        reveal(Seq::filter);
    }
    for event in it: events
        invariant
            it.seq() == all,
            out@ == placeable(all.take(it.index() as int)),
    {
        proof {
            reveal(Seq::filter);
            assert(all.take(it.index() + 1).drop_last() =~= all.take(it.index() as int));
        }
        if !event.channel_uuid.as_str().is_empty() && event.stop > event.start {
            out.push(event);
        }
    }
    proof {
        assert(all.take(all.len() as int) =~= all);
        lemma_placeable_len(all);
    }
    out
}

/// No more events can be placed on a timeline than there are.
pub proof fn lemma_placeable_len(events: Seq<EpgEvent>)
    ensures
        placeable(events).len() <= events.len(),
    decreases events.len(),
{
    reveal(Seq::filter);
    if events.len() > 0 {
        lemma_placeable_len(events.drop_last());
    }
}

/// The first place from `from` on without an ASCII letter or digit.
pub open spec fn alnum_end(s: Seq<char>, from: int) -> int
    decreases s.len() - from,
{
    if from >= s.len() || !is_ascii_alnum(s[from]) {
        from
    } else {
        alnum_end(s, from + 1)
    }
}

/// The uuid in a URL of the form `.../dvrfile/<uuid>...`: the letters and
/// digits that follow the first `dvrfile/`.
pub open spec fn file_uuid(url: Seq<char>) -> Option<Seq<char>> {
    match find(url, "dvrfile/"@) {
        None => None,
        Some(i) => {
            let start = i + "dvrfile/"@.len();
            let end = alnum_end(url, start);
            if end == start {
                None
            } else {
                Some(url.subrange(start, end))
            }
        },
    }
}

/// The uuid in a URL of the form `.../dvrfile/<uuid>...`.
fn find_uuid(url: &[char]) -> (r: Option<String>)
    ensures
        opt_view(r) == file_uuid(url@),
{
    let tag = chars_of("dvrfile/");
    match position(url, tag.as_slice()) {
        None => None,
        Some(i) => {
            let n: usize = url.len();
            let start: usize = i + tag.len();
            let mut end: usize = start;
            while end < n && ascii_alnum(url[end])
                invariant
                    n == url@.len(),
                    start <= end <= n,
                    alnum_end(url@, start as int) == alnum_end(url@, end as int),
                decreases n - end,
            {
                end = end + 1;
            }
            if end == start {
                None
            } else {
                Some(string_of(slice_subrange(url, start, end)))
            }
        },
    }
}

/// The uuid in a URL of the form `.../dvrfile/<uuid>...`; a path or a query
/// may follow.
pub fn dvrfile_uuid(url: &str) -> (r: Option<String>)
    ensures
        opt_view(r) == file_uuid(url@),
{
    find_uuid(chars_of(url).as_slice())
}

/// The URL of each recording's file under the recording's uuid: a line of the
/// playlist that is neither empty nor a comment and names a file. A later line
/// wins over an earlier one.
pub open spec fn file_urls(ls: Seq<Seq<char>>) -> Map<Seq<char>, Seq<char>>
    decreases ls.len(),
{
    if ls.len() == 0 {
        Map::empty()
    } else {
        let line = trim(ls.last());
        let before = file_urls(ls.drop_last());
        if line.len() == 0 || line[0] == '#' {
            before
        } else {
            match file_uuid(line) {
                Some(uuid) => before.insert(uuid, line),
                None => before,
            }
        }
    }
}

/// URLs of the recordings' files that can be fetched as they are, without any
/// further authentication, from the playlist of the recordings.
pub fn read_dvr_urls(body: &str) -> (r: TextMap<String>)
    ensures
        texts(r@) == file_urls(lines(body@)),
{
    let text = chars_of(body);
    let ls = split_lines(text.as_slice());
    let ghost v = slice_views(ls@);
    let mut map: TextMap<String> = TextMap::new();
    let n: usize = ls.len();
    proof {
        assert(texts(map@) =~= Map::<Seq<char>, Seq<char>>::empty());
    }
    for i in 0..n
        invariant
            n == ls@.len(),
            v == slice_views(ls@),
            texts(map@) == file_urls(v.take(i as int)),
    {
        proof {
            assert(v.take(i + 1).drop_last() =~= v.take(i as int));
            assert(v.take(i + 1).last() == ls@[i as int]@);
        }
        let line = trimmed(ls[i]);
        if line.len() > 0 && line[0] != '#' {
            match find_uuid(line) {
                Some(uuid) => {
                    let url = string_of(line);
                    proof {
                        lemma_texts_insert(map@, uuid@, url);
                    }
                    map.insert(uuid.as_str(), url);
                },
                None => {},
            }
        }
    }
    proof {
        assert(v.take(n as int) =~= v);
    }
    map
}

/// The first profile from `from` on without a name.
pub open spec fn first_unnamed(configs: Seq<DvrConfig>, from: int) -> Option<int>
    decreases configs.len() - from,
{
    if from >= configs.len() {
        None
    } else if configs[from].name@.len() == 0 {
        Some(from)
    } else {
        first_unnamed(configs, from + 1)
    }
}

/// The profile that new recordings use: the default one, which has no name, or
/// else the first one.
pub open spec fn default_config(configs: Seq<DvrConfig>) -> Option<Seq<char>> {
    match first_unnamed(configs, 0) {
        Some(i) => Some(configs[i].uuid@),
        None => if configs.len() > 0 {
            Some(configs[0].uuid@)
        } else {
            None
        },
    }
}

/// The uuid of the profile that new recordings use.
pub fn default_config_uuid(configs: &Vec<DvrConfig>) -> (r: Result<String, TvhError>)
    ensures
        match default_config(configs@) {
            Some(uuid) => r matches Ok(s) && s@ == uuid,
            None => r matches Err(e) && e@ == ErrorView::Parse(
                "Server nemá nastavený žádný profil nahrávání."@,
            ),
        },
{
    let n: usize = configs.len();
    for i in 0..n
        invariant
            n == configs@.len(),
            first_unnamed(configs@, 0) == first_unnamed(configs@, i as int),
    {
        if configs[i].name.as_str().is_empty() {
            return Ok(configs[i].uuid.clone());
        }
    }
    if n > 0 {
        Ok(configs[0].uuid.clone())
    } else {
        Err(TvhError::Parse(owned("Server nemá nastavený žádný profil nahrávání.")))
    }
}

/// The entries of a grid: the list under `entries`, or none where there is no
/// such list.
pub fn grid_entries(grid: Json) -> (r: Vec<Json>)
    ensures
        r@ == match grid.array_at("entries"@) {
            Some(entries) => entries,
            None => Seq::empty(),
        },
{
    match grid {
        Json::Object(m) => {
            let mut m = m;
            match m.remove("entries") {
                Some(Json::Array(entries)) => entries,
                _ => Vec::new(),
            }
        },
        _ => Vec::new(),
    }
}

// ---- laws ---------------------------------------------------------------

/// An address that was made normal stays as it is: making it normal again
/// changes nothing.
pub proof fn law_normal_url_stays(s: Seq<char>)
    requires
        trim(s).len() > 0,
    ensures
        normal_url(normal_url(s)) == normal_url(s),
{
    reveal_strlit("http://");
    reveal_strlit("https://");
    let t = trim(s);
    let n = normal_url(s);
    lemma_trimmed(s);
    assert(n.last() == '/');
    if begins(t, "http://"@) || begins(t, "https://"@) {
        assert(n[0] == t[0]);
        assert(t[0] == 'h') by {
            if begins(t, "http://"@) {
                assert(t.subrange(0, 7)[0] == "http://"@[0]);
            } else {
                assert(t.subrange(0, 8)[0] == "https://"@[0]);
            }
        }
        lemma_trim_stays(n);
        if begins(t, "http://"@) {
            assert(n.subrange(0, 7) =~= t.subrange(0, 7));
        } else {
            assert(n.subrange(0, 8) =~= t.subrange(0, 8));
        }
    } else {
        assert(n[0] == "http://"@[0]);
        lemma_trim_stays(n);
        assert(n.subrange(0, 7) =~= "http://"@);
    }
}

/// White space around an address, a missing `http://` and a missing slash at
/// the end make no difference.
pub proof fn law_address_forms(host: Seq<char>)
    requires
        host.len() > 0,
        !is_white_space(host[0]),
        !is_white_space(host.last()),
        host.last() != '/',
        !begins(host, "http://"@),
        !begins(host, "https://"@),
    ensures
        normal_url(host) == normal_url("http://"@ + host),
        normal_url(host) == normal_url(host.push('/')),
        normal_url(host) == normal_url(("http://"@ + host).push('/')),
        normal_url(host) == ("http://"@ + host).push('/'),
        forall|s: Seq<char>| trim(s) == host ==> #[trigger] normal_url(s) == normal_url(host),
{
    reveal_strlit("http://");
    reveal_strlit("https://");
    let full = "http://"@ + host;
    lemma_trim_stays(host);
    assert(full[0] == 'h');
    assert(full.last() == host.last());
    lemma_trim_stays(full);
    lemma_trim_stays(full.push('/'));
    lemma_trim_stays(host.push('/'));
    assert(full.subrange(0, 7) =~= "http://"@);
    assert(full.push('/').subrange(0, 7) =~= "http://"@);
    let slashed = host.push('/');
    assert(full.push('/') =~= "http://"@ + slashed);
    assert(!begins(slashed, "http://"@)) by {
        if begins(slashed, "http://"@) {
            if host.len() >= 7 {
                assert(host.subrange(0, 7) =~= slashed.subrange(0, 7));
            } else {
                assert(slashed.subrange(0, 7)[5] == "http://"@[5]);
            }
        }
    }
    assert(!begins(slashed, "https://"@)) by {
        if begins(slashed, "https://"@) {
            if host.len() >= 8 {
                assert(host.subrange(0, 8) =~= slashed.subrange(0, 8));
            } else {
                assert(slashed.subrange(0, 8)[6] == "https://"@[6]);
            }
        }
    }
}

/// A request is made at most twice: the reply to one that carried an
/// `Authorization` header is taken as it is, and so is any reply but 401.
pub proof fn law_one_retry(
    c: ClientView,
    method: Method,
    target: Seq<char>,
    retried: bool,
    status: u16,
    header: Option<Seq<char>>,
    cnonce: Seq<char>,
)
    ensures
        step_of(c, method, target, retried, status, header, cnonce) is Retry ==> !retried && status
            == 401 && header is Some,
        step_of(c, method, target, true, status, header, cnonce) is ReadBody,
{
}

/// Sorted channels come in the order of their ranks, they are the channels that
/// were there, and those of the same rank keep their order.
pub proof fn law_channels_sorted(channels: Seq<Channel>, ranks: Seq<i64>, rank: int)
    requires
        channels.len() == ranks.len(),
    ensures
        ascending(sorted(ranked(channels, ranks))),
        sorted(ranked(channels, ranks)).to_multiset() == ranked(channels, ranks).to_multiset(),
        unranked(sorted(ranked(channels, ranks))).len() == channels.len(),
        unranked(ranked(channels, ranks)) == channels,
        with_key(sorted(ranked(channels, ranks)), rank) == with_key(ranked(channels, ranks), rank),
{
    law_sorted(ranked(channels, ranks));
    law_stable(ranked(channels, ranks), rank);
    assert(unranked(ranked(channels, ranks)) =~= channels);
}

/// Without tags every channel is shown, whatever the grid says.
pub proof fn law_no_tags_no_filter(channels: Seq<Channel>, grid: Seq<AdminChannel>)
    ensures
        shown_channels(channels, grid, Seq::empty()) == channels,
    decreases channels.len(),
{
    reveal(Seq::filter);
    if channels.len() > 0 {
        law_no_tags_no_filter(channels.drop_last(), grid);
        assert(channels.drop_last().push(channels.last()) =~= channels);
    }
}

/// A further tag never hides a channel that the other tags show.
pub proof fn law_more_tags_show_more(
    c: Channel,
    grid: Seq<AdminChannel>,
    some: Seq<Seq<char>>,
    more: Seq<Seq<char>>,
)
    requires
        some.len() > 0,
        forall|t: Seq<char>| some.contains(t) ==> more.contains(t),
        shown(c, grid, some),
    ensures
        shown(c, grid, more),
{
    let i = choose|i: int|
        0 <= i < grid.len() && (#[trigger] grid[i]).uuid@ == c.channel_id@ && tagged(grid[i], some);
    let j = choose|j: int|
        0 <= j < grid[i].tags@.len() && #[trigger] some.contains(string_views(grid[i].tags@)[j]);
    assert(more.contains(string_views(grid[i].tags@)[j]));
    assert(tagged(grid[i], more));
}

/// Every URL of a recording's file stands under the uuid that it names, and is
/// neither empty nor a comment.
pub proof fn law_file_urls(ls: Seq<Seq<char>>, uuid: Seq<char>)
    requires
        file_urls(ls).contains_key(uuid),
    ensures
        file_uuid(file_urls(ls)[uuid]) == Some(uuid),
        file_urls(ls)[uuid].len() > 0,
        file_urls(ls)[uuid][0] != '#',
    decreases ls.len(),
{
    if ls.len() > 0 {
        if file_urls(ls.drop_last()).contains_key(uuid) {
            law_file_urls(ls.drop_last(), uuid);
        }
    }
}

/// Every channel has a number.
pub proof fn law_channels_have_numbers(items: Seq<M3uItemView>)
    ensures
        numbered(items).len() <= items.len(),
        forall|i: int| 0 <= i < numbered(items).len() ==> (#[trigger] numbered(items)[i]).number.len()
            > 0,
    decreases items.len(),
{
    if items.len() > 0 {
        law_channels_have_numbers(items.drop_last());
    }
}

/// The uuid in the URL of a recording's file is all the ASCII letters and
/// digits behind the first `dvrfile/`, however many there are.
pub proof fn law_uuid_of_a_file(
    prefix: Seq<char>,
    uuid: Seq<char>,
    rest: Seq<char>,
)
    requires
        forall|i: int|
            0 <= i && i + 8 <= prefix.len() ==> (#[trigger] prefix.skip(i)).take(8) != "dvrfile/"@,
        forall|i: int|
            0 <= i < uuid.len() ==> '0' <= #[trigger] uuid[i] <= '9' || 'A' <= uuid[i] <= 'Z' || 'a'
                <= uuid[i] <= 'z',
        rest.len() > 0 ==> !('0' <= rest[0] <= '9' || 'A' <= rest[0] <= 'Z' || 'a' <= rest[0]
            <= 'z'),
    ensures
        uuid.len() > 0 ==> file_uuid(prefix + "dvrfile/"@ + uuid + rest) == Some(uuid),
        uuid.len() == 0 ==> file_uuid(prefix + "dvrfile/"@ + uuid + rest) is None,
{
    reveal_strlit("dvrfile/");
    let tag = "dvrfile/"@;
    assert(tag.len() == 8);
    let s = prefix + tag + uuid + rest;
    let p = prefix.len() as int;
    assert(s.subrange(p, p + 8) =~= tag);
    assert forall|j: int| 0 <= j < p implies (#[trigger] s.skip(j)).take(8) != tag by {
        if j + 8 <= p {
            assert(s.skip(j).take(8) =~= prefix.skip(j).take(8));
        } else {
            assert(s.skip(j).take(8)[p - j] == tag[0]);
            assert(tag[p - j] != 'd');
        }
    }
    law_find(s, tag, p);
    lemma_alnum_end(s, p + 8, p + 8 + uuid.len());
    assert(s.subrange(p + 8, p + 8 + uuid.len()) =~= uuid);
}

/// A row of letters and digits ends where the first other character stands.
proof fn lemma_alnum_end(s: Seq<char>, from: int, to: int)
    requires
        0 <= from <= to <= s.len(),
        forall|i: int| from <= i < to ==> is_ascii_alnum(#[trigger] s[i]),
        to < s.len() ==> !is_ascii_alnum(s[to]),
    ensures
        alnum_end(s, from) == to,
    decreases to - from,
{
    if from < to {
        lemma_alnum_end(s, from + 1, to);
    }
}

/// A URL without `dvrfile/` names no recording.
pub proof fn law_no_file(url: Seq<char>)
    requires
        forall|i: int|
            0 <= i && i + 8 <= url.len() ==> (#[trigger] url.skip(i)).take(8) != "dvrfile/"@,
    ensures
        file_uuid(url) is None,
{
    reveal_strlit("dvrfile/");
    assert("dvrfile/"@.len() == 8);
    law_not_found(url, "dvrfile/"@);
}

/// Whether a line of a playlist gives the URL of the recording with a uuid.
pub open spec fn gives_file(line: Seq<char>, uuid: Seq<char>) -> bool {
    trim(line).len() > 0 && trim(line)[0] != '#' && file_uuid(trim(line)) == Some(uuid)
}

/// The URL of a recording is the last line of the playlist that gives one,
/// without the white space around it; where no line does, there is none.
pub proof fn law_url_of_a_recording(ls: Seq<Seq<char>>, uuid: Seq<char>, i: int)
    ensures
        0 <= i < ls.len() && gives_file(ls[i], uuid) && (forall|j: int|
            i < j < ls.len() ==> !gives_file(#[trigger] ls[j], uuid)) ==> file_urls(ls).contains_key(
            uuid,
        ) && file_urls(ls)[uuid] == trim(ls[i]),
        (forall|j: int| 0 <= j < ls.len() ==> !gives_file(#[trigger] ls[j], uuid)) ==> !file_urls(
            ls,
        ).contains_key(uuid),
    decreases ls.len(),
{
    if ls.len() > 0 {
        let before = ls.drop_last();
        law_url_of_a_recording(before, uuid, i);
        assert(forall|j: int| 0 <= j < before.len() ==> before[j] == ls[j]);
        assert(ls[ls.len() - 1] == ls.last());
    }
}

/// Of the events that arrive, those that name a channel and stop after they
/// start are kept, in their order; all others are left out.
pub proof fn law_events_kept(events: Seq<EpgEvent>, e: EpgEvent)
    ensures
        placeable(Seq::<EpgEvent>::empty()).len() == 0,
        e.channel_uuid@.len() > 0 && e.start < e.stop ==> placeable(events.push(e)) == placeable(
            events,
        ).push(e),
        !(e.channel_uuid@.len() > 0 && e.start < e.stop) ==> placeable(events.push(e)) == placeable(
            events,
        ),
{
    reveal(Seq::filter);
    assert(events.push(e).drop_last() =~= events);
}

/// With tags, a channel is shown exactly where the grid has an entry with its
/// id that carries one of them; channels without an id are not.
pub proof fn law_tags_decide(c: Channel, grid: Seq<AdminChannel>, wanted: Seq<Seq<char>>)
    requires
        wanted.len() > 0,
    ensures
        shown(c, grid, wanted) <==> c.channel_id@.len() > 0 && exists|i: int, j: int, k: int|
            0 <= i < grid.len() && 0 <= j < grid[i].tags@.len() && 0 <= k < wanted.len()
                && grid[i].uuid@ == c.channel_id@ && (#[trigger] grid[i].tags@[j])@
                == #[trigger] wanted[k],
{
    if shown(c, grid, wanted) {
        let i = choose|i: int|
            0 <= i < grid.len() && (#[trigger] grid[i]).uuid@ == c.channel_id@ && tagged(
                grid[i],
                wanted,
            );
        let j = choose|j: int|
            0 <= j < grid[i].tags@.len() && #[trigger] wanted.contains(
                string_views(grid[i].tags@)[j],
            );
        let k = choose|k: int|
            0 <= k < wanted.len() && wanted[k] == string_views(grid[i].tags@)[j];
        assert(grid[i].tags@[j]@ == wanted[k]);
    }
    if exists|i: int, j: int, k: int|
        0 <= i < grid.len() && 0 <= j < grid[i].tags@.len() && 0 <= k < wanted.len() && grid[i].uuid@
            == c.channel_id@ && (#[trigger] grid[i].tags@[j])@ == #[trigger] wanted[k] {
        let (i, j, k) = choose|i: int, j: int, k: int|
            0 <= i < grid.len() && 0 <= j < grid[i].tags@.len() && 0 <= k < wanted.len()
                && grid[i].uuid@ == c.channel_id@ && (#[trigger] grid[i].tags@[j])@
                == #[trigger] wanted[k];
        assert(wanted.contains(string_views(grid[i].tags@)[j]));
        assert(tagged(grid[i], wanted));
    }
}

/// The channels that are shown keep their order, and none is shown that is not
/// to be.
pub proof fn law_shown_in_order(
    channels: Seq<Channel>,
    c: Channel,
    grid: Seq<AdminChannel>,
    wanted: Seq<Seq<char>>,
)
    ensures
        shown_channels(Seq::<Channel>::empty(), grid, wanted).len() == 0,
        shown_channels(channels.push(c), grid, wanted) == if shown(c, grid, wanted) {
            shown_channels(channels, grid, wanted).push(c)
        } else {
            shown_channels(channels, grid, wanted)
        },
{
    reveal(Seq::filter);
    assert(channels.push(c).drop_last() =~= channels);
}

/// Each entry of a playlist with a channel number is a channel with what the
/// entry says, in the order of the playlist; an entry without one is none.
pub proof fn law_channels_of_a_playlist(items: Seq<M3uItemView>, item: M3uItemView)
    ensures
        numbered(Seq::<M3uItemView>::empty()).len() == 0,
        item.channel_number.len() == 0 ==> numbered(items.push(item)) == numbered(items),
        item.channel_number.len() > 0 ==> {
            &&& numbered(items.push(item)).drop_last() == numbered(items)
            &&& numbered(items.push(item)).len() == numbered(items).len() + 1
            &&& numbered(items.push(item)).last().channel_id == item.channel_id
            &&& numbered(items.push(item)).last().number == item.channel_number
            &&& numbered(items.push(item)).last().name == item.channel_name
            &&& numbered(items.push(item)).last().logo_url == item.logo_url
            &&& numbered(items.push(item)).last().stream_url == item.stream_url
        },
{
    assert(items.push(item).drop_last() =~= items);
    assert(numbered(items).push(channel_of(item)).drop_last() =~= numbered(items));
}

/// Channels come in the order of their ranks.
pub proof fn law_rank_order(channels: Seq<Channel>, ranks: Seq<i64>, i: int, j: int)
    requires
        channels.len() == ranks.len(),
        0 <= i <= j < channels.len(),
    ensures
        sorted(ranked(channels, ranks)).len() == channels.len(),
        sorted(ranked(channels, ranks))[i].rank <= sorted(ranked(channels, ranks))[j].rank,
        exists|k: int|
            0 <= k < channels.len() && sorted(ranked(channels, ranks))[i].channel == (
            #[trigger] channels[k]) && sorted(ranked(channels, ranks))[i].rank == ranks[k],
{
    let all = ranked(channels, ranks);
    let s = sorted(all);
    law_sorted(all);
    assert(s.len() == all.len()) by {
        s.to_multiset_ensures();
        all.to_multiset_ensures();
    }
    assert(s[i].key() <= s[j].key());
    assert(s.to_multiset().count(s[i]) > 0) by {
        s.to_multiset_ensures();
        assert(s.contains(s[i]));
    }
    all.to_multiset_ensures();
    assert(all.contains(s[i]));
    let k = choose|k: int| 0 <= k < all.len() && all[k] == s[i];
    assert(channels[k] == s[i].channel);
}

/// New recordings use the first profile without a name, or else the first one.
pub proof fn law_default_profile(configs: Seq<DvrConfig>, i: int)
    ensures
        configs.len() == 0 ==> default_config(configs) is None,
        configs.len() > 0 && (forall|j: int|
            0 <= j < configs.len() ==> (#[trigger] configs[j]).name@.len() > 0) ==> default_config(
            configs,
        ) == Some(configs[0].uuid@),
        0 <= i < configs.len() && configs[i].name@.len() == 0 && (forall|j: int|
            0 <= j < i ==> (#[trigger] configs[j]).name@.len() > 0) ==> default_config(configs)
            == Some(configs[i].uuid@),
{
    lemma_first_unnamed(configs, 0, i);
}

proof fn lemma_first_unnamed(configs: Seq<DvrConfig>, from: int, i: int)
    requires
        0 <= from,
    ensures
        (forall|j: int| from <= j < configs.len() ==> (#[trigger] configs[j]).name@.len() > 0)
            ==> first_unnamed(configs, from) is None,
        from <= i < configs.len() && configs[i].name@.len() == 0 && (forall|j: int|
            from <= j < i ==> (#[trigger] configs[j]).name@.len() > 0) ==> first_unnamed(
            configs,
            from,
        ) == Some(i),
    decreases configs.len() - from,
{
    if from < configs.len() && configs[from].name@.len() > 0 {
        lemma_first_unnamed(configs, from + 1, i);
    }
}

/// A status from 200 to 299 is a success, whose body is taken as it is; any
/// other status is an error that tells the status and the body.
pub proof fn law_success(status: u16, body: Seq<char>, why: Seq<char>)
    ensures
        200 <= status <= 299 ==> finished(status, Ok(body)) == Ok::<Seq<char>, ErrorView>(body)
            && finished(status, Err(why)) == Err::<Seq<char>, ErrorView>(ErrorView::Request(why)),
        !(200 <= status <= 299) ==> finished(status, Ok(body)) == Err::<Seq<char>, ErrorView>(
            ErrorView::Http { status, body },
        ) && (finished(status, Err(why)) matches Err(ErrorView::Http { status: told, body: none })
            && told == status && none.len() == 0),
{
}

/// The first 401 is answered where its challenge can be; without a challenge,
/// or where it cannot be answered, the login failed. Every other reply, and
/// every reply to an answered request, is read.
pub proof fn law_login(
    c: ClientView,
    method: Method,
    target: Seq<char>,
    status: u16,
    header: Option<Seq<char>>,
    cnonce: Seq<char>,
)
    ensures
        step_of(c, method, target, true, status, header, cnonce) is ReadBody,
        status != 401 ==> step_of(c, method, target, false, status, header, cnonce) is ReadBody,
        header is None || challenge_of(header->0) is None ==> step_of(
            c,
            method,
            target,
            false,
            401,
            header,
            cnonce,
        ) is AuthFailed,
        header matches Some(h) ==> challenge_of(h) matches Some(ch) ==> {
            let name = if method == Method::Get {
                "GET"@
            } else {
                "POST"@
            };
            match answer(ch, c.user, c.password, name, target, cnonce) {
                Some(a) => step_of(c, method, target, false, 401, header, cnonce)
                    == StepView::Retry(a),
                None => step_of(c, method, target, false, 401, header, cnonce) is AuthFailed,
            }
        },
{
}

/// What a request asks for is the path of its URL, with a question mark and the
/// query where there is one.
pub proof fn law_target(url: Seq<char>, path: Seq<char>, query: Seq<char>, why: Seq<char>)
    ensures
        target_of(url, Ok((path, None))) == path,
        target_of(url, Ok((path, Some(query)))).len() == path.len() + 1 + query.len(),
        target_of(url, Ok((path, Some(query)))).take(path.len() as int) == path,
        target_of(url, Ok((path, Some(query))))[path.len() as int] == '?',
        target_of(url, Ok((path, Some(query)))).skip(path.len() as int + 1) == query,
        target_of(url, Err(why)) == url,
{
    let t = target_of(url, Ok((path, Some(query))));
    assert(t.take(path.len() as int) =~= path);
    assert(t.skip(path.len() as int + 1) =~= query);
}

/// An address that gives a scheme keeps it, and one that ends with a slash
/// gets no other. What is not blank but no URL is an error, and so is a blank
/// address; otherwise the client is for that address and those credentials.
pub proof fn law_client(
    address: Seq<char>,
    user: Seq<char>,
    password: Seq<char>,
    secs: u64,
)
    ensures
        trim(address).len() == 0 ==> client_of(address, user, password, secs) == Err::<
            ClientView,
            ErrorView,
        >(ErrorView::InvalidUrl("adresa je prázdná"@)),
        trim(address).len() > 0 ==> match url_parts(normal_url(address)) {
            Ok(_) => client_of(address, user, password, secs) matches Ok(c) && c.base_url
                == normal_url(address) && c.user == user && c.password == password && c.timeout_secs
                == secs,
            Err(e) => client_of(address, user, password, secs) == Err::<ClientView, ErrorView>(
                ErrorView::InvalidUrl(e),
            ),
        },
        trim(address).len() > 0 ==> normal_url(address).last() == '/',
        trim(address).len() > 0 && (begins(trim(address), "http://"@) || begins(
            trim(address),
            "https://"@,
        )) ==> normal_url(address) == trim(address) || normal_url(address) == trim(address).push(
            '/',
        ),
        trim(address).len() > 0 && trim(address).last() == '/' ==> normal_url(address) == trim(
            address,
        ) || normal_url(address) == "http://"@ + trim(address),
{
}

/// The credentials are used where there is a user or a password.
pub proof fn law_credentials(c: ClientView)
    ensures
        !c.with_auth() <==> c.user == Seq::<char>::empty() && c.password == Seq::<char>::empty(),
{
    if !c.with_auth() {
        assert(c.user =~= Seq::<char>::empty());
        assert(c.password =~= Seq::<char>::empty());
    }
}

/// The two playlists have different paths, and each has one with `auth/` in it.
pub proof fn law_playlist_paths()
    ensures
        Playlist::Channels.path_view(false) == "playlist/channels"@,
        Playlist::Channels.path_view(true) == "playlist/auth/channels"@,
        Playlist::Recordings.path_view(false) == "playlist/recordings"@,
        Playlist::Recordings.path_view(true) == "playlist/auth/recordings"@,
{
}

/// The request for a page of the guide names the row that it starts at and the
/// number of rows, and asks for them by start.
pub proof fn law_page(start: nat, limit: nat)
    ensures
        begins(
            page_path(start as int, limit as int),
            "api/epg/events/grid?start="@ + decimal(start as int) + "&limit="@,
        ),
        page_path(start as int, limit as int).skip(
            ("api/epg/events/grid?start="@ + decimal(start as int) + "&limit="@).len() as int,
        ) == decimal(limit as int) + "&sort=start"@,
{
    let head = "api/epg/events/grid?start="@ + decimal(start as int) + "&limit="@;
    let all = page_path(start as int, limit as int);
    assert(all =~= head + (decimal(limit as int) + "&sort=start"@));
    assert(all.subrange(0, head.len() as int) =~= head);
    assert(all.skip(head.len() as int) =~= decimal(limit as int) + "&sort=start"@);
}

/// Of a body that says why a request failed, the user is told at most the first
/// 200 characters; everything else that an error says is told in full.
pub proof fn law_error_told(status: u16, body: Seq<char>, why: Seq<char>)
    ensures
        snippet(body).len() <= 200,
        snippet(body) == body.take(snippet(body).len() as int),
        body.len() <= 200 ==> snippet(body) == body,
        body.len() > 200 ==> snippet(body).len() == 200,
        error_message(ErrorView::InvalidUrl(why)) == "Neplatná adresa serveru: "@ + why,
        error_message(ErrorView::Request(why)) == "Chyba spojení: "@ + why,
        error_message(ErrorView::Parse(why)) == "Nepodařilo se zpracovat odpověď serveru: "@ + why,
        error_message(ErrorView::AuthFailed) == "Přihlášení se nezdařilo (špatné jméno/heslo?)"@,
        error_message(ErrorView::Http { status, body }) == "Server odpověděl chybou "@ + decimal(
            status as int,
        ) + ": "@ + snippet(body),
{
    if body.len() <= 200 {
        assert(body.take(body.len() as int) =~= body);
    }
}

/// A request is its method, its path and its form, as they are: a GET has no
/// form, and a POST sends the whole of it.
pub proof fn law_requests(q: Request, path: Seq<char>, form: Seq<(Seq<char>, Seq<char>)>, i: int)
    ensures
        q@.method == q.method,
        q@.path == q.path@,
        q@.form.len() == q.form@.len(),
        0 <= i < q.form@.len() ==> q@.form[i] == (q.form@[i].0@, q.form@[i].1@),
        get_of(path).method == Method::Get,
        get_of(path).path == path,
        get_of(path).form.len() == 0,
        post_of(path, form).method == Method::Post,
        post_of(path, form).path == path,
        post_of(path, form).form == form,
{
}

/// Results and errors are told as they are.
pub proof fn law_result_views(c: TvhClient, e: TvhError, s: String, t: String, status: u16)
    ensures
        client_result(Ok(c)) == Ok::<ClientView, ErrorView>(c@),
        client_result(Err(e)) == Err::<ClientView, ErrorView>(e@),
        text_result(Ok(s)) == Ok::<Seq<char>, ErrorView>(s@),
        text_result(Err(e)) == Err::<Seq<char>, ErrorView>(e@),
        body_view(Ok(s)) == Ok::<Seq<char>, Seq<char>>(s@),
        body_view(Err(t)) == Err::<Seq<char>, Seq<char>>(t@),
        TvhError::InvalidUrl(s)@ == ErrorView::InvalidUrl(s@),
        TvhError::Request(s)@ == ErrorView::Request(s@),
        (TvhError::Http { status, body: s })@ == (ErrorView::Http { status, body: s@ }),
        TvhError::AuthFailed@ == ErrorView::AuthFailed,
        TvhError::Parse(s)@ == ErrorView::Parse(s@),
        Step::ReadBody@ == StepView::ReadBody,
        Step::Retry(s)@ == StepView::Retry(s@),
        Step::AuthFailed@ == StepView::AuthFailed,
{
}

/// Channels are told as they are, one for one.
pub proof fn law_channel_views(channels: Seq<Channel>, i: int)
    ensures
        channel_views(channels).len() == channels.len(),
        0 <= i < channels.len() ==> channel_views(channels)[i].channel_id
            == channels[i].channel_id@ && channel_views(channels)[i].number == channels[i].number@
            && channel_views(channels)[i].name == channels[i].name@ && channel_views(
            channels,
        )[i].logo_url == channels[i].logo_url@ && channel_views(channels)[i].stream_url
            == channels[i].stream_url@,
{
}

/// The client for an address whose URL can be read is made of what was given,
/// and one whose URL cannot be read is refused with why.
pub proof fn law_client_made(
    url: Seq<char>,
    user: Seq<char>,
    password: Seq<char>,
    secs: u64,
    path: Seq<char>,
    query: Option<Seq<char>>,
    why: Seq<char>,
)
    ensures
        client_made(url, user, password, secs, Ok((path, query))) matches Ok(c) && c.base_url == url
            && c.user == user && c.password == password && c.timeout_secs == secs,
        client_made(url, user, password, secs, Err(why)) == Err::<ClientView, ErrorView>(
            ErrorView::InvalidUrl(why),
        ),
{
}

/// A line of a playlist with the URL of a recording's file gives the file of
/// that recording, by the whole of its uuid.
pub proof fn law_line_gives_file(
    line: Seq<char>,
    prefix: Seq<char>,
    uuid: Seq<char>,
    rest: Seq<char>,
)
    requires
        trim(line) == prefix + "dvrfile/"@ + uuid + rest,
        trim(line)[0] != '#',
        forall|i: int|
            0 <= i && i + 8 <= prefix.len() ==> (#[trigger] prefix.skip(i)).take(8) != "dvrfile/"@,
        uuid.len() > 0,
        forall|i: int|
            0 <= i < uuid.len() ==> '0' <= #[trigger] uuid[i] <= '9' || 'A' <= uuid[i] <= 'Z' || 'a'
                <= uuid[i] <= 'z',
        rest.len() > 0 ==> !('0' <= rest[0] <= '9' || 'A' <= rest[0] <= 'Z' || 'a' <= rest[0]
            <= 'z'),
    ensures
        gives_file(line, uuid),
        file_urls(seq![line]).contains_key(uuid),
        file_urls(seq![line])[uuid] == prefix + "dvrfile/"@ + uuid + rest,
{
    law_uuid_of_a_file(prefix, uuid, rest);
    law_url_of_a_recording(seq![line], uuid, 0);
    assert(seq![line][0] == line);
}

} // verus!
