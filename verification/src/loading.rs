//! The order in which a server is asked for something that takes several
//! requests: what to ask for next, and what comes of the replies.
use vstd::prelude::*;

use crate::json::Json;
use crate::order::sorted;
use crate::recordings::RecordingsData;
use crate::text::{lines, string_views};
use crate::text_map::{texts, TextMap};
use crate::tvh::m3u;
use crate::tvh::{
    channel_views, error_message, file_urls, filter_by_tags, get_of, law_no_tags_no_filter, numbered, ranked, read_channels,
    read_dvr_urls, shown_channels, sort_channels, unranked, AdminChannel, Channel,
    DvrEntry, ErrorView, Playlist, Request, ServerInfo, TvhClient, TvhError,
};

verus! {

// ---- connecting ---------------------------------------------------------

/// A connection that is being made: who the server is, its playlist, the place
/// that each channel's number gives it, and, where the channels are restricted
/// to some tags, which tags each channel carries.
#[derive(Debug)]
pub enum Connecting {
    Info,
    /// `plain`: the playlist under `auth/` could not be had.
    Channels { info: ServerInfo, plain: bool },
    Ranks { info: ServerInfo, channels: Vec<Channel> },
    Tags { info: ServerInfo, channels: Vec<Channel> },
    Failed(TvhError),
    Connected { info: ServerInfo, channels: Vec<Channel> },
}

/// Where a connection is.
#[verifier::ext_equal]
pub enum ConnectingView {
    Info,
    Channels { info: ServerInfo, plain: bool },
    Ranks { info: ServerInfo, channels: Seq<Channel> },
    Tags { info: ServerInfo, channels: Seq<Channel> },
    Failed(ErrorView),
    Connected { info: ServerInfo, channels: Seq<Channel> },
}

impl View for Connecting {
    type V = ConnectingView;

    open spec fn view(&self) -> ConnectingView {
        match self {
            Connecting::Info => ConnectingView::Info,
            Connecting::Channels { info, plain } => ConnectingView::Channels {
                info: *info,
                plain: *plain,
            },
            Connecting::Ranks { info, channels } => ConnectingView::Ranks {
                info: *info,
                channels: channels@,
            },
            Connecting::Tags { info, channels } => ConnectingView::Tags {
                info: *info,
                channels: channels@,
            },
            Connecting::Failed(e) => ConnectingView::Failed(e@),
            Connecting::Connected { info, channels } => ConnectingView::Connected {
                info: *info,
                channels: channels@,
            },
        }
    }
}

/// A reply, with its error as text.
pub open spec fn reply_view<T>(r: Result<T, TvhError>) -> Result<T, ErrorView> {
    match r {
        Ok(v) => Ok(v),
        Err(e) => Err(e@),
    }
}

/// A reply that is text.
pub open spec fn text_reply(r: Result<String, TvhError>) -> Result<Seq<char>, ErrorView> {
    match r {
        Ok(s) => Ok(s@),
        Err(e) => Err(e@),
    }
}

impl ConnectingView {
    /// The path that is asked for next.
    pub open spec fn path(self, auth: bool, tags: Seq<Seq<char>>) -> Option<Seq<char>> {
        match self {
            ConnectingView::Info => Some("api/serverinfo"@),
            ConnectingView::Channels { plain, .. } => Some(
                Playlist::Channels.path_view(auth && !plain),
            ),
            ConnectingView::Tags { .. } => if tags.len() > 0 {
                Some("api/channel/grid?limit=100000"@)
            } else {
                None
            },
            _ => None,
        }
    }

    /// After the server told who it is.
    pub open spec fn after_info(self, reply: Result<ServerInfo, ErrorView>) -> ConnectingView {
        match self {
            ConnectingView::Info => match reply {
                Ok(info) => ConnectingView::Channels { info, plain: false },
                Err(e) => ConnectingView::Failed(e),
            },
            _ => self,
        }
    }

    /// Whether `after` is what comes of the reply to the request for the
    /// playlist. With credentials a failure is followed by one more try.
    pub open spec fn after_playlist(
        self,
        auth: bool,
        reply: Result<Seq<char>, ErrorView>,
        after: ConnectingView,
    ) -> bool {
        match self {
            ConnectingView::Channels { info, plain } => match reply {
                Err(e) => after == if auth && !plain {
                    ConnectingView::Channels { info, plain: true }
                } else {
                    ConnectingView::Failed(e)
                },
                Ok(body) => match m3u::parse_view(body) {
                    Ok(items) => {
                        &&& after matches ConnectingView::Ranks { info: i, channels }
                        &&& i == info
                        &&& channel_views(channels) == numbered(items)
                    },
                    Err(e) => after == ConnectingView::Failed(ErrorView::Parse(e)),
                },
            },
            _ => after == self,
        }
    }

    /// After the place of each channel is known. Ranks that are not one for
    /// each channel are passed over.
    pub open spec fn after_ranks(self, ranks: Seq<i64>, tags: Seq<Seq<char>>) -> ConnectingView {
        match self {
            ConnectingView::Ranks { info, channels } => if ranks.len() == channels.len() {
                let channels = unranked(sorted(ranked(channels, ranks)));
                if tags.len() == 0 {
                    ConnectingView::Connected { info, channels }
                } else {
                    ConnectingView::Tags { info, channels }
                }
            } else {
                self
            },
            _ => self,
        }
    }

    /// After the server told which tags each channel carries.
    pub open spec fn after_tags(
        self,
        reply: Result<Seq<AdminChannel>, ErrorView>,
        tags: Seq<Seq<char>>,
    ) -> ConnectingView {
        match self {
            ConnectingView::Tags { info, channels } => match reply {
                Ok(grid) => ConnectingView::Connected {
                    info,
                    channels: shown_channels(channels, grid, tags),
                },
                Err(e) => ConnectingView::Failed(e),
            },
            _ => self,
        }
    }
}

/// Whether a request is a GET of a path.
pub open spec fn asks(r: Option<Request>, path: Option<Seq<char>>) -> bool {
    match path {
        Some(p) => r matches Some(q) && q@ == get_of(p),
        None => r is None,
    }
}

/// The reply to the request for the tags of the channels.
pub open spec fn grid_reply(r: Result<Vec<AdminChannel>, TvhError>) -> Result<
    Seq<AdminChannel>,
    ErrorView,
> {
    match r {
        Ok(v) => Ok(v@),
        Err(e) => Err(e@),
    }
}

impl Connecting {
    /// What to ask the server next. There is nothing to ask while the channels
    /// wait for their ranks, and at the end.
    pub fn request(&self, client: &TvhClient, tags: &Vec<String>) -> (r: Option<Request>)
        ensures
            asks(r, self@.path(client@.with_auth(), string_views(tags@))),
    {
        match self {
            Connecting::Info => Some(client.server_info()),
            Connecting::Channels { plain, .. } => if *plain {
                match client.playlist_fallback(Playlist::Channels) {
                    Some(q) => Some(q),
                    None => Some(client.channels()),
                }
            } else {
                Some(client.channels())
            },
            Connecting::Tags { .. } => client.channels_for_tags(tags),
            _ => None,
        }
    }

    /// The numbers of the channels that wait for their ranks.
    pub fn numbers(&self) -> (r: Option<Vec<String>>)
        ensures
            match self@ {
                ConnectingView::Ranks { channels, .. } => r matches Some(v) && string_views(v@)
                    == channels.map_values(|c: Channel| c.number@),
                _ => r is None,
            },
    {
        match self {
            Connecting::Ranks { channels, .. } => {
                let n: usize = channels.len();
                let mut out: Vec<String> = Vec::new();
                for i in 0..n
                    invariant
                        n == channels@.len(),
                        out@.len() == i,
                        forall|j: int| 0 <= j < i ==> (#[trigger] out@[j])@ == channels@[j].number@,
                {
                    out.push(channels[i].number.clone());
                }
                proof {
                    assert(string_views(out@) =~= channels@.map_values(|c: Channel| c.number@));
                }
                Some(out)
            },
            _ => None,
        }
    }

    /// Takes in who the server is.
    pub fn on_info(self, reply: Result<ServerInfo, TvhError>) -> (r: Self)
        ensures
            r@ == self@.after_info(reply_view(reply)),
    {
        match self {
            Connecting::Info => match reply {
                Ok(info) => Connecting::Channels { info, plain: false },
                Err(e) => Connecting::Failed(e),
            },
            other => other,
        }
    }

    /// Takes in the playlist. Servers before 4.3 have none under `auth/`, so
    /// with credentials a failure is followed by one more try.
    pub fn on_playlist(self, client: &TvhClient, reply: Result<String, TvhError>) -> (r: Self)
        ensures
            self@.after_playlist(client@.with_auth(), text_reply(reply), r@),
    {
        match self {
            Connecting::Channels { info, plain } => match reply {
                Err(e) => if client.with_auth() && !plain {
                    Connecting::Channels { info, plain: true }
                } else {
                    Connecting::Failed(e)
                },
                Ok(body) => match read_channels(body.as_str()) {
                    Ok(channels) => Connecting::Ranks { info, channels },
                    Err(e) => Connecting::Failed(e),
                },
            },
            other => other,
        }
    }

    /// Takes in the rank of each channel.
    pub fn on_ranks(self, ranks: Vec<i64>, tags: &Vec<String>) -> (r: Self)
        ensures
            r@ == self@.after_ranks(ranks@, string_views(tags@)),
    {
        match self {
            Connecting::Ranks { info, channels } => if ranks.len() == channels.len() {
                let channels = sort_channels(channels, ranks);
                if tags.len() == 0 {
                    Connecting::Connected { info, channels }
                } else {
                    Connecting::Tags { info, channels }
                }
            } else {
                Connecting::Ranks { info, channels }
            },
            other => other,
        }
    }

    /// Takes in which tags each channel carries.
    pub fn on_tags(self, reply: Result<Vec<AdminChannel>, TvhError>, tags: &Vec<String>) -> (r: Self)
        ensures
            r@ == self@.after_tags(grid_reply(reply), string_views(tags@)),
    {
        match self {
            Connecting::Tags { info, channels } => match reply {
                Ok(grid) => Connecting::Connected {
                    info,
                    channels: filter_by_tags(channels, &grid, tags),
                },
                Err(e) => Connecting::Failed(e),
            },
            other => other,
        }
    }

    /// What came of it: the server and its channels, or what the user is told
    /// of the failure; `None` while it goes on.
    pub fn outcome(self) -> (r: Option<Result<(ServerInfo, Vec<Channel>), String>>)
        ensures
            match self@ {
                ConnectingView::Failed(e) => r matches Some(Err(s)) && s@ == error_message(e),
                ConnectingView::Connected { info, channels } => r matches Some(Ok((i, v))) && i
                    == info && v@ == channels,
                _ => r is None,
            },
    {
        match self {
            Connecting::Failed(e) => Some(Err(e.message())),
            Connecting::Connected { info, channels } => Some(Ok((info, channels))),
            _ => None,
        }
    }
}

// ---- fetching the recordings --------------------------------------------

/// The lists of the recordings that are being fetched, one after the other,
/// and last the URLs of the files.
#[derive(Debug)]
pub enum Fetching {
    Upcoming,
    Finished { upcoming: Vec<DvrEntry> },
    Failed { upcoming: Vec<DvrEntry>, finished: Vec<DvrEntry> },
    Rules { upcoming: Vec<DvrEntry>, finished: Vec<DvrEntry>, failed: Vec<DvrEntry> },
    /// `plain`: the playlist under `auth/` could not be had.
    Urls { data: RecordingsData, plain: bool },
    Broken(TvhError),
    Complete(RecordingsData),
}

impl Fetching {
    /// The path that is asked for next.
    pub open spec fn path(self, auth: bool) -> Option<Seq<char>> {
        match self {
            Fetching::Upcoming => Some("api/dvr/entry/grid_upcoming"@ + "?limit=100000"@),
            Fetching::Finished { .. } => Some("api/dvr/entry/grid_finished"@ + "?limit=100000"@),
            Fetching::Failed { .. } => Some("api/dvr/entry/grid_failed"@ + "?limit=100000"@),
            Fetching::Rules { .. } => Some("api/dvr/autorec/grid?limit=100000"@),
            Fetching::Urls { plain, .. } => Some(Playlist::Recordings.path_view(auth && !plain)),
            _ => None,
        }
    }

    /// Whether `after` is what comes of a list of recordings.
    pub open spec fn after_entries(
        self,
        reply: Result<Vec<DvrEntry>, TvhError>,
        after: Fetching,
    ) -> bool {
        match (self, reply) {
            (Fetching::Upcoming, Ok(v)) => after == (Fetching::Finished { upcoming: v }),
            (Fetching::Finished { upcoming }, Ok(v)) => after == (Fetching::Failed {
                upcoming,
                finished: v,
            }),
            (Fetching::Failed { upcoming, finished }, Ok(v)) => after == (Fetching::Rules {
                upcoming,
                finished,
                failed: v,
            }),
            (Fetching::Upcoming, Err(e)) => after == Fetching::Broken(e),
            (Fetching::Finished { .. }, Err(e)) => after == Fetching::Broken(e),
            (Fetching::Failed { .. }, Err(e)) => after == Fetching::Broken(e),
            _ => after == self,
        }
    }

    /// Whether `after` is what comes of the list of the recurring recordings.
    pub open spec fn after_rules(self, reply: Result<Vec<Json>, TvhError>, after: Fetching) -> bool {
        match self {
            Fetching::Rules { upcoming, finished, failed } => match reply {
                Ok(v) => {
                    &&& after matches Fetching::Urls { data, plain }
                    &&& !plain
                    &&& data.upcoming == upcoming
                    &&& data.finished == finished
                    &&& data.failed == failed
                    &&& data.autorec == v
                    &&& data.urls@ == Map::<Seq<char>, String>::empty()
                },
                Err(e) => after == Fetching::Broken(e),
            },
            _ => after == self,
        }
    }

    /// Whether `after` is what comes of the playlist of the recordings. Without
    /// it the lists are complete all the same.
    pub open spec fn after_urls(
        self,
        auth: bool,
        reply: Result<String, TvhError>,
        after: Fetching,
    ) -> bool {
        match self {
            Fetching::Urls { data, plain } => match reply {
                Ok(body) => {
                    &&& after matches Fetching::Complete(d)
                    &&& same_lists(d, data)
                    &&& texts(d.urls@) == file_urls(lines(body@))
                },
                Err(_) => after == if auth && !plain {
                    Fetching::Urls { data, plain: true }
                } else {
                    Fetching::Complete(data)
                },
            },
            _ => after == self,
        }
    }

    /// What to ask the server next.
    pub fn request(&self, client: &TvhClient) -> (r: Option<Request>)
        ensures
            asks(r, self.path(client@.with_auth())),
    {
        match self {
            Fetching::Upcoming => Some(client.dvr_upcoming()),
            Fetching::Finished { .. } => Some(client.dvr_finished()),
            Fetching::Failed { .. } => Some(client.dvr_failed()),
            Fetching::Rules { .. } => Some(client.autorec_list()),
            Fetching::Urls { plain, .. } => if *plain {
                match client.playlist_fallback(Playlist::Recordings) {
                    Some(q) => Some(q),
                    None => Some(client.dvr_urls()),
                }
            } else {
                Some(client.dvr_urls())
            },
            _ => None,
        }
    }

    /// Takes in a list of recordings. The first failure is the end.
    pub fn on_entries(self, reply: Result<Vec<DvrEntry>, TvhError>) -> (r: Self)
        ensures
            self.after_entries(reply, r),
    {
        match self {
            Fetching::Upcoming => match reply {
                Ok(v) => Fetching::Finished { upcoming: v },
                Err(e) => Fetching::Broken(e),
            },
            Fetching::Finished { upcoming } => match reply {
                Ok(v) => Fetching::Failed { upcoming, finished: v },
                Err(e) => Fetching::Broken(e),
            },
            Fetching::Failed { upcoming, finished } => match reply {
                Ok(v) => Fetching::Rules { upcoming, finished, failed: v },
                Err(e) => Fetching::Broken(e),
            },
            other => other,
        }
    }

    /// Takes in the list of the recurring recordings.
    pub fn on_rules(self, reply: Result<Vec<Json>, TvhError>) -> (r: Self)
        ensures
            self.after_rules(reply, r),
    {
        match self {
            Fetching::Rules { upcoming, finished, failed } => match reply {
                Ok(v) => Fetching::Urls {
                    data: RecordingsData {
                        upcoming,
                        finished,
                        failed,
                        autorec: v,
                        urls: TextMap::new(),
                    },
                    plain: false,
                },
                Err(e) => Fetching::Broken(e),
            },
            other => other,
        }
    }

    /// Takes in the playlist of the recordings. With credentials a failure is
    /// followed by one more try; without it the recordings can be neither
    /// played nor downloaded, but they are shown.
    pub fn on_urls(self, client: &TvhClient, reply: Result<String, TvhError>) -> (r: Self)
        ensures
            self.after_urls(client@.with_auth(), reply, r),
    {
        match self {
            Fetching::Urls { data, plain } => match reply {
                Ok(body) => {
                    let mut data = data;
                    data.urls = read_dvr_urls(body.as_str());
                    Fetching::Complete(data)
                },
                Err(_) => if client.with_auth() && !plain {
                    Fetching::Urls { data, plain: true }
                } else {
                    Fetching::Complete(data)
                },
            },
            other => other,
        }
    }

    /// What came of it: everything that is shown of recordings, or what the
    /// user is told of the failure; `None` while it goes on.
    pub fn outcome(self) -> (r: Option<Result<RecordingsData, String>>)
        ensures
            match self {
                Fetching::Broken(e) => r matches Some(Err(s)) && s@ == error_message(e@),
                Fetching::Complete(data) => r == Some(Ok::<RecordingsData, String>(data)),
                _ => r is None,
            },
    {
        match self {
            Fetching::Broken(e) => Some(Err(e.message())),
            Fetching::Complete(data) => Some(Ok(data)),
            _ => None,
        }
    }
}

/// The same lists, whatever the URLs are.
pub open spec fn same_lists(a: RecordingsData, b: RecordingsData) -> bool {
    a.upcoming == b.upcoming && a.finished == b.finished && a.failed == b.failed && a.autorec
        == b.autorec
}

// ---- laws ---------------------------------------------------------------

/// A playlist is asked for at most twice, and twice only with credentials.
pub proof fn law_playlist_asked_twice_at_most(
    info: ServerInfo,
    auth: bool,
    first: Result<Seq<char>, ErrorView>,
    second: Result<Seq<char>, ErrorView>,
    between: ConnectingView,
    after: ConnectingView,
)
    requires
        (ConnectingView::Channels { info, plain: false }).after_playlist(auth, first, between),
        between.after_playlist(auth, second, after),
    ensures
        between is Channels ==> auth && first is Err,
        after !is Channels,
        !auth && first is Err ==> after == ConnectingView::Failed(first->Err_0),
        auth && first is Err && second is Err ==> after == ConnectingView::Failed(second->Err_0),
{
}

/// A connection shows the channels of the playlist that have a number, by
/// their ranks, and where there are tags only those that carry one of them.
pub proof fn law_connected(
    info: ServerInfo,
    plain: bool,
    auth: bool,
    body: Seq<char>,
    listed: ConnectingView,
    ranks: Seq<i64>,
    tags: Seq<Seq<char>>,
    grid: Seq<AdminChannel>,
)
    requires
        m3u::parse_view(body) is Ok,
        (ConnectingView::Channels { info, plain }).after_playlist(auth, Ok(body), listed),
        listed matches ConnectingView::Ranks { channels, .. } && ranks.len() == channels.len(),
    ensures
        listed matches ConnectingView::Ranks { channels, .. } && {
            &&& channel_views(channels) == numbered(m3u::parse_view(body)->Ok_0)
            &&& listed.after_ranks(ranks, tags).after_tags(Ok(grid), tags)
                == (ConnectingView::Connected {
                info,
                channels: shown_channels(unranked(sorted(ranked(channels, ranks))), grid, tags),
            })
        },
{
    let channels = listed->Ranks_channels;
    if tags.len() == 0 {
        law_no_tags_no_filter(unranked(sorted(ranked(channels, ranks))), grid);
        assert(tags =~= Seq::<Seq<char>>::empty());
    }
}

/// Whether everything goes well: the lists and the playlist arrive in turn.
pub open spec fn fetched(
    upcoming: Vec<DvrEntry>,
    finished: Vec<DvrEntry>,
    failed: Vec<DvrEntry>,
    rules: Vec<Json>,
    s: Seq<Fetching>,
) -> bool {
    &&& s.len() == 5
    &&& s[0] == Fetching::Upcoming
    &&& s[0].after_entries(Ok(upcoming), s[1])
    &&& s[1].after_entries(Ok(finished), s[2])
    &&& s[2].after_entries(Ok(failed), s[3])
    &&& s[3].after_rules(Ok(rules), s[4])
}

/// Once the four lists have arrived, nothing can fail any more: whatever comes
/// of the playlist, they are shown, and the playlist is asked for at most
/// twice.
pub proof fn law_lists_are_shown_without_urls(
    upcoming: Vec<DvrEntry>,
    finished: Vec<DvrEntry>,
    failed: Vec<DvrEntry>,
    rules: Vec<Json>,
    s: Seq<Fetching>,
    auth: bool,
    first: Result<String, TvhError>,
    second: Result<String, TvhError>,
    between: Fetching,
    after: Fetching,
)
    requires
        fetched(upcoming, finished, failed, rules, s),
        s[4].after_urls(auth, first, between),
        between.after_urls(auth, second, after),
    ensures
        after matches Fetching::Complete(d) && d.upcoming == upcoming && d.finished == finished
            && d.failed == failed && d.autorec == rules,
        !(auth && first is Err) ==> after == between,
{
}

/// A failure of one of the four lists is the end, and it is the one that the
/// user is told of: whatever else arrives changes nothing.
pub proof fn law_first_failure_is_told(
    s: Fetching,
    e: TvhError,
    broken: Fetching,
    auth: bool,
    entries: Result<Vec<DvrEntry>, TvhError>,
    rules: Result<Vec<Json>, TvhError>,
    text: Result<String, TvhError>,
    later: Fetching,
)
    requires
        s is Upcoming || s is Finished || s is Failed || s is Rules,
        s is Rules ==> s.after_rules(Err(e), broken),
        s !is Rules ==> s.after_entries(Err(e), broken),
        broken.after_entries(entries, later) || broken.after_rules(rules, later)
            || broken.after_urls(auth, text, later),
    ensures
        broken == Fetching::Broken(e),
        later == broken,
        broken.path(auth) is None,
{
}

/// What a connection asks for: who the server is, then its playlist, the one
/// for credentials first where there are any, then, where there are tags, which
/// tags each channel carries. Nothing is asked for at the end.
pub proof fn law_connection_asks(
    info: ServerInfo,
    channels: Seq<Channel>,
    e: ErrorView,
    auth: bool,
    tags: Seq<Seq<char>>,
)
    ensures
        ConnectingView::Info.path(auth, tags) == Some("api/serverinfo"@),
        (ConnectingView::Channels { info, plain: false }).path(true, tags) == Some(
            "playlist/auth/channels"@,
        ),
        (ConnectingView::Channels { info, plain: false }).path(false, tags) == Some(
            "playlist/channels"@,
        ),
        (ConnectingView::Channels { info, plain: true }).path(auth, tags) == Some(
            "playlist/channels"@,
        ),
        tags.len() > 0 ==> (ConnectingView::Tags { info, channels }).path(auth, tags) == Some(
            "api/channel/grid?limit=100000"@,
        ),
        (ConnectingView::Ranks { info, channels }).path(auth, tags) is None,
        (ConnectingView::Connected { info, channels }).path(auth, tags) is None,
        ConnectingView::Failed(e).path(auth, tags) is None,
{
}

/// A connection goes on from each reply to the next question: a server that
/// tells who it is is asked for its channels; channels with their ranks are
/// shown at once without tags, and with tags once the server told which
/// channels carry them. Each failure ends it with what went wrong.
pub proof fn law_connection_goes_on(
    info: ServerInfo,
    channels: Seq<Channel>,
    ranks: Seq<i64>,
    grid: Seq<AdminChannel>,
    tags: Seq<Seq<char>>,
    e: ErrorView,
)
    ensures
        ConnectingView::Info.after_info(Ok(info)) == (ConnectingView::Channels {
            info,
            plain: false,
        }),
        ConnectingView::Info.after_info(Err(e)) == ConnectingView::Failed(e),
        ranks.len() == channels.len() && tags.len() == 0 ==> (ConnectingView::Ranks {
            info,
            channels,
        }).after_ranks(ranks, tags) == (ConnectingView::Connected {
            info,
            channels: unranked(sorted(ranked(channels, ranks))),
        }),
        ranks.len() == channels.len() && tags.len() > 0 ==> (ConnectingView::Ranks {
            info,
            channels,
        }).after_ranks(ranks, tags) == (ConnectingView::Tags {
            info,
            channels: unranked(sorted(ranked(channels, ranks))),
        }),
        (ConnectingView::Tags { info, channels }).after_tags(Ok(grid), tags)
            == (ConnectingView::Connected {
            info,
            channels: shown_channels(channels, grid, tags),
        }),
        (ConnectingView::Tags { info, channels }).after_tags(Err(e), tags)
            == ConnectingView::Failed(e),
{
}

/// A playlist that cannot be read ends a connection with why.
pub proof fn law_bad_playlist(
    info: ServerInfo,
    plain: bool,
    auth: bool,
    body: Seq<char>,
    after: ConnectingView,
)
    requires
        m3u::parse_view(body) is Err,
        (ConnectingView::Channels { info, plain }).after_playlist(auth, Ok(body), after),
    ensures
        after == ConnectingView::Failed(ErrorView::Parse(m3u::parse_view(body)->Err_0)),
{
}

/// What the recordings tab asks for: the timers, the finished recordings, the
/// failed ones, the recurring ones, and last the playlist with the URLs.
pub proof fn law_fetching_asks(
    v: Vec<DvrEntry>,
    data: RecordingsData,
    e: TvhError,
    auth: bool,
)
    ensures
        Fetching::Upcoming.path(auth) == Some("api/dvr/entry/grid_upcoming?limit=100000"@),
        (Fetching::Finished { upcoming: v }).path(auth) == Some(
            "api/dvr/entry/grid_finished?limit=100000"@,
        ),
        (Fetching::Failed { upcoming: v, finished: v }).path(auth) == Some(
            "api/dvr/entry/grid_failed?limit=100000"@,
        ),
        (Fetching::Rules { upcoming: v, finished: v, failed: v }).path(auth) == Some(
            "api/dvr/autorec/grid?limit=100000"@,
        ),
        (Fetching::Urls { data, plain: false }).path(true) == Some("playlist/auth/recordings"@),
        (Fetching::Urls { data, plain: false }).path(false) == Some("playlist/recordings"@),
        (Fetching::Urls { data, plain: true }).path(auth) == Some("playlist/recordings"@),
        Fetching::Broken(e).path(auth) is None,
        Fetching::Complete(data).path(auth) is None,
{
    reveal_strlit("?limit=100000");
    reveal_strlit("api/dvr/entry/grid_upcoming");
    reveal_strlit("api/dvr/entry/grid_upcoming?limit=100000");
    assert("api/dvr/entry/grid_upcoming"@ + "?limit=100000"@
        =~= "api/dvr/entry/grid_upcoming?limit=100000"@);
    reveal_strlit("api/dvr/entry/grid_finished");
    reveal_strlit("api/dvr/entry/grid_finished?limit=100000");
    assert("api/dvr/entry/grid_finished"@ + "?limit=100000"@
        =~= "api/dvr/entry/grid_finished?limit=100000"@);
    reveal_strlit("api/dvr/entry/grid_failed");
    reveal_strlit("api/dvr/entry/grid_failed?limit=100000");
    assert("api/dvr/entry/grid_failed"@ + "?limit=100000"@
        =~= "api/dvr/entry/grid_failed?limit=100000"@);
}

/// The four lists arrive one after another and are kept as they are; the
/// playlist then gives the URL of each recording that it names.
pub proof fn law_fetched(
    upcoming: Vec<DvrEntry>,
    finished: Vec<DvrEntry>,
    failed: Vec<DvrEntry>,
    rules: Vec<Json>,
    s: Seq<Fetching>,
    auth: bool,
    body: String,
    after: Fetching,
)
    requires
        s.len() == 5,
        s[0] == Fetching::Upcoming,
        s[0].after_entries(Ok(upcoming), s[1]),
        s[1].after_entries(Ok(finished), s[2]),
        s[2].after_entries(Ok(failed), s[3]),
        s[3].after_rules(Ok(rules), s[4]),
        s[4].after_urls(auth, Ok(body), after),
    ensures
        after matches Fetching::Complete(d) && d.upcoming == upcoming && d.finished == finished
            && d.failed == failed && d.autorec == rules && texts(d.urls@) == file_urls(
            lines(body@),
        ),
{
}

/// What is asked for is a GET of the path and nothing else; replies are taken
/// as they come.
pub proof fn law_replies(
    q: Request,
    r: Option<Request>,
    path: Seq<char>,
    text: String,
    e: TvhError,
    info: ServerInfo,
    grid: Vec<AdminChannel>,
)
    ensures
        asks(Some(q), Some(path)) ==> q.method == crate::tvh::Method::Get && q.path@ == path
            && q.form@.len() == 0,
        asks(r, None) <==> r is None,
        !asks(None, Some(path)),
        text_reply(Ok(text)) == Ok::<Seq<char>, ErrorView>(text@),
        text_reply(Err(e)) == Err::<Seq<char>, ErrorView>(e@),
        reply_view(Ok::<ServerInfo, TvhError>(info)) == Ok::<ServerInfo, ErrorView>(info),
        reply_view(Err::<ServerInfo, TvhError>(e)) == Err::<ServerInfo, ErrorView>(e@),
        grid_reply(Ok(grid)) == Ok::<Seq<AdminChannel>, ErrorView>(grid@),
        grid_reply(Err(e)) == Err::<Seq<AdminChannel>, ErrorView>(e@),
{
    if asks(Some(q), Some(path)) {
        assert(q@.form.len() == q.form@.len());
    }
}

} // verus!
