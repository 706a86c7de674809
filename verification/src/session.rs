//! The connection to a server, and everything that was loaded from it.
use vstd::prelude::*;
use vstd::string::*;

use crate::guide::{Guide, Poll};
use crate::logos::{logo_pairs, logo_pairs_view, pair_views};
use crate::playback::{Playback, PlaybackView};
use crate::settings::{opt_profile, ServerProfile, Settings, SettingsView};
use crate::text::{opt_view, owned, same_str};
use crate::tvh::{Channel, ServerInfo};
use crate::ui::{SettingsTab, TopTab};

verus! {

/// The connection to a server, and everything that was loaded from it.
#[derive(Debug)]
pub struct Session {
    pub top_tab: TopTab,
    pub settings_tab: SettingsTab,
    /// Whether a connection is being made.
    pub connecting: bool,
    /// Whether the thread that makes it is still there.
    pub waiting: bool,
    pub error: Option<String>,
    /// The server whose channels are loaded.
    pub active: Option<String>,
    /// The server that is being connected to.
    pub pending: Option<String>,
    pub server_info: Option<ServerInfo>,
    pub channels: Vec<Channel>,
    pub guide: Guide,
    pub playback: Playback,
}

/// What to start once a server is connected.
#[derive(Debug)]
pub struct Connected {
    /// The key and the URL of each logo to fetch.
    pub logos: Vec<(String, String)>,
    /// The server whose guide to fetch.
    pub guide: Option<ServerProfile>,
}

/// What a connection leads to, or `None` where there is nothing to start.
#[derive(Debug)]
pub enum ConnectStep {
    Nothing,
    Start(Connected),
}

impl Session {
    /// A session before any connection.
    pub fn new() -> (r: Self)
        ensures
            r.top_tab == TopTab::Tv,
            r.settings_tab == SettingsTab::Connection,
            !r.connecting,
            !r.waiting,
            r.error is None,
            r.active is None,
            r.pending is None,
            r.server_info is None,
            r.channels@.len() == 0,
            r.guide.is_fresh(),
            r.playback@ == PlaybackView::idle(),
    {
        Session {
            top_tab: TopTab::Tv,
            settings_tab: SettingsTab::Connection,
            connecting: false,
            waiting: false,
            error: None,
            active: None,
            pending: None,
            server_info: None,
            channels: Vec::new(),
            guide: Guide::new(),
            playback: Playback::new(),
        }
    }

    /// The session at startup, and the server to connect to: the primary one.
    /// Without any server the user is sent to the settings.
    pub fn startup(settings: &Settings) -> (r: (Self, Option<ServerProfile>))
        ensures
            opt_profile(
                match &r.1 {
                    Some(p) => Some(p),
                    None => None,
                },
            ) == settings@.primary(),
            match settings@.primary() {
                Some(p) => {
                    &&& r.0.connecting
                    &&& r.0.waiting
                    &&& opt_view(r.0.pending) == Some(p.id)
                    &&& r.0.top_tab == TopTab::Tv
                },
                None => {
                    &&& !r.0.connecting
                    &&& !r.0.waiting
                    &&& r.0.pending is None
                    &&& r.0.top_tab == TopTab::Settings
                },
            },
            r.0.settings_tab == SettingsTab::Connection,
            r.0.error is None,
            r.0.active is None,
            r.0.server_info is None,
            r.0.channels@.len() == 0,
            r.0.guide.is_fresh(),
            r.0.playback@ == PlaybackView::idle(),
    {
        let mut session = Session::new();
        match settings.primary() {
            Some(p) => {
                session.start_connect(p.id.as_str());
                (session, Some(p.clone()))
            },
            None => {
                session.top_tab = TopTab::Settings;
                (session, None)
            },
        }
    }

    /// Starts to connect to a server. What the last one had loaded is dropped,
    /// so that nothing stale is shown meanwhile, and what is played is stopped.
    pub fn start_connect(&mut self, server_id: &str)
        ensures
            final(self).connecting,
            final(self).waiting,
            final(self).error is None,
            opt_view(final(self).pending) == Some(server_id@),
            final(self).active == old(self).active,
            final(self).server_info is None,
            final(self).channels@.len() == 0,
            final(self).guide.is_fresh(),
            final(self).playback@ == (PlaybackView {
                selected: None,
                playing: None,
                paused: false,
                ..old(self).playback@
            }),
            final(self).top_tab == old(self).top_tab,
            final(self).settings_tab == old(self).settings_tab,
    {
        self.connecting = true;
        self.waiting = true;
        self.error = None;
        self.pending = Some(owned(server_id));
        self.playback.stop();
        self.playback.deselect();
        self.channels = Vec::new();
        self.server_info = None;
        self.guide = Guide::new();
    }

    /// Takes in what came out of the channel of the connection. A success
    /// shows the channels; an error sends the user to where it can be mended.
    pub fn on_connect(
        &mut self,
        message: Poll<Result<(ServerInfo, Vec<Channel>), String>>,
        settings: &Settings,
    ) -> (r: ConnectStep)
        ensures
            match message {
                Poll::Ready(Ok((info, channels))) => {
                    &&& final(self).server_info == Some(info)
                    &&& final(self).channels == channels
                    &&& !final(self).connecting
                    &&& !final(self).waiting
                    &&& final(self).active == old(self).pending
                    &&& final(self).pending is None
                    &&& final(self).top_tab == TopTab::Tv
                    &&& final(self).settings_tab == old(self).settings_tab
                    &&& final(self).error == old(self).error
                    &&& final(self).playback == old(self).playback
                    &&& final(self).guide.events == old(self).guide.events
                    &&& final(self).guide.progress == old(self).guide.progress
                    &&& final(self).guide.error == old(self).guide.error
                    &&& match old(self).pending {
                        Some(id) => {
                            &&& r matches ConnectStep::Start(c)
                            &&& pair_views(c.logos@) == logo_pairs_view(channels@)
                            &&& opt_profile(
                                match &c.guide {
                                    Some(p) => Some(p),
                                    None => None,
                                },
                            ) == settings@.find(id@)
                            &&& final(self).guide.waiting == (old(self).guide.waiting
                                || settings@.find(id@) is Some)
                        },
                        None => r is Nothing && final(self).guide == old(self).guide,
                    }
                },
                Poll::Ready(Err(e)) => {
                    &&& final(self).error == Some(e)
                    &&& !final(self).connecting
                    &&& !final(self).waiting
                    &&& final(self).pending is None
                    &&& final(self).top_tab == TopTab::Settings
                    &&& final(self).settings_tab == SettingsTab::Connection
                    &&& final(self).active == old(self).active
                    &&& final(self).server_info == old(self).server_info
                    &&& final(self).channels == old(self).channels
                    &&& final(self).guide == old(self).guide
                    &&& final(self).playback == old(self).playback
                    &&& r is Nothing
                },
                Poll::Empty => *final(self) == *old(self) && r is Nothing,
                Poll::Closed => {
                    &&& !final(self).connecting
                    &&& !final(self).waiting
                    &&& final(self).pending is None
                    &&& final(self).error == old(self).error
                    &&& final(self).active == old(self).active
                    &&& final(self).server_info == old(self).server_info
                    &&& final(self).channels == old(self).channels
                    &&& final(self).guide == old(self).guide
                    &&& final(self).playback == old(self).playback
                    &&& final(self).top_tab == old(self).top_tab
                    &&& final(self).settings_tab == old(self).settings_tab
                    &&& r is Nothing
                },
            },
    {
        match message {
            Poll::Ready(Ok((info, channels))) => {
                self.server_info = Some(info);
                self.channels = channels;
                self.connecting = false;
                self.waiting = false;
                let mut pending: Option<String> = None;
                std::mem::swap(&mut pending, &mut self.pending);
                self.top_tab = TopTab::Tv;
                let step = match &pending {
                    Some(id) => {
                        let logos = logo_pairs(&self.channels);
                        let guide = match settings.find(id.as_str()) {
                            Some(p) => {
                                self.guide.waiting = true;
                                Some(p.clone())
                            },
                            None => None,
                        };
                        ConnectStep::Start(Connected { logos, guide })
                    },
                    None => ConnectStep::Nothing,
                };
                self.active = pending;
                step
            },
            Poll::Ready(Err(e)) => {
                self.error = Some(e);
                self.connecting = false;
                self.waiting = false;
                self.pending = None;
                self.top_tab = TopTab::Settings;
                self.settings_tab = SettingsTab::Connection;
                ConnectStep::Nothing
            },
            Poll::Empty => ConnectStep::Nothing,
            Poll::Closed => {
                self.connecting = false;
                self.waiting = false;
                self.pending = None;
                ConnectStep::Nothing
            },
        }
    }

    /// The saved server that is connected.
    pub fn active_server<'a>(&self, settings: &'a Settings) -> (r: Option<&'a ServerProfile>)
        ensures
            opt_profile(r) == match self.active {
                Some(id) => settings@.find(id@),
                None => None,
            },
    {
        match &self.active {
            Some(id) => settings.find(id.as_str()),
            None => None,
        }
    }

    /// Whether a server is the one that is connected.
    pub fn is_active(&self, id: &str) -> (r: bool)
        ensures
            r == (opt_view(self.active) == Some(id@)),
    {
        match &self.active {
            Some(a) => same_str(a.as_str(), id),
            None => false,
        }
    }

    /// Drops everything of a server that was deleted, where it is the one that
    /// is connected.
    pub fn forget(&mut self, id: &str) -> (r: bool)
        ensures
            r == (opt_view(old(self).active) == Some(id@)),
            r ==> {
                &&& final(self).active is None
                &&& final(self).channels@.len() == 0
                &&& final(self).server_info is None
                &&& final(self).playback@ == (PlaybackView {
                    selected: None,
                    playing: None,
                    paused: false,
                    ..old(self).playback@
                })
                &&& final(self).guide == old(self).guide
                &&& final(self).pending == old(self).pending
                &&& final(self).connecting == old(self).connecting
                &&& final(self).waiting == old(self).waiting
                &&& final(self).error == old(self).error
                &&& final(self).top_tab == old(self).top_tab
                &&& final(self).settings_tab == old(self).settings_tab
            },
            !r ==> *final(self) == *old(self),
    {
        if self.is_active(id) {
            self.active = None;
            self.channels = Vec::new();
            self.server_info = None;
            self.playback.deselect();
            self.playback.stop();
            true
        } else {
            false
        }
    }
}

/// What the main menu says of the connection.
pub open spec fn server_text(
    connecting: bool,
    active: Option<Seq<char>>,
    s: SettingsView,
) -> Seq<char> {
    if connecting {
        "Připojuji se..."@
    } else {
        match active {
            Some(id) => match s.find(id) {
                Some(p) => p.name,
                None => "Nepřipojeno"@,
            },
            None => "Nepřipojeno"@,
        }
    }
}

impl Session {
    /// What the main menu says of the connection: the name of the server that
    /// is connected.
    pub fn server_label(&self, settings: &Settings) -> (r: String)
        ensures
            r@ == server_text(self.connecting, opt_view(self.active), settings@),
    {
        if self.connecting {
            owned("Připojuji se...")
        } else {
            match self.active_server(settings) {
                Some(p) => p.name.clone(),
                None => owned("Nepřipojeno"),
            }
        }
    }
}

// ---- laws ---------------------------------------------------------------

/// The main menu names the server that is connected; while a connection is
/// made, and where there is none or its server is gone, it says so.
pub proof fn law_server_told(active: Option<Seq<char>>, s: SettingsView)
    ensures
        server_text(true, active, s) == "Připojuji se..."@,
        active is None ==> server_text(false, active, s) == "Nepřipojeno"@,
        active matches Some(id) ==> s.find(id) is None ==> server_text(false, active, s)
            == "Nepřipojeno"@,
        active matches Some(id) ==> s.find(id) is Some ==> server_text(false, active, s) == s.find(
            id,
        )->0.name,
{
}

} // verus!
