use tvh_client::guide::Poll;
use tvh_client::session::{ConnectStep, Session};
use tvh_client::settings::{ServerProfile, Settings};
use tvh_client::tvh::{Channel, ServerInfo};
use tvh_client::ui::{
    cinema, command, video_area, Command, Controls, Key, SettingsTab, TopTab, VideoArea,
    VIDEO_CONTROLS_IDLE_MS,
};

fn profile(id: &str) -> ServerProfile {
    ServerProfile {
        id: id.to_string(),
        name: format!("Server {id}"),
        url: String::new(),
        user: String::new(),
        password: String::new(),
        selected_tags: vec![],
    }
}

fn settings() -> Settings {
    let mut s = Settings::default();
    s.upsert(profile("a"));
    s.upsert(profile("b"));
    s
}

fn info() -> ServerInfo {
    ServerInfo { sw_version: None, api_version: None, name: None }
}

fn channel(logo: &str) -> Channel {
    Channel {
        channel_id: "c".to_string(),
        number: String::new(),
        name: String::new(),
        logo_url: logo.to_string(),
        stream_url: String::new(),
    }
}

#[test]
fn startup_connects_to_the_primary_server() {
    let (s, p) = Session::startup(&Settings::default());
    assert!(p.is_none() && !s.connecting);
    assert_eq!(s.top_tab, TopTab::Settings);
    let (s, p) = Session::startup(&settings());
    assert_eq!(p.unwrap().id, "a");
    assert!(s.connecting && s.waiting);
    assert_eq!(s.pending.as_deref(), Some("a"));
    assert_eq!(s.top_tab, TopTab::Tv);
    assert_eq!(s.settings_tab, SettingsTab::Connection);
}

#[test]
fn connection_shows_the_channels() {
    let set = settings();
    let (mut s, _) = Session::startup(&set);
    s.top_tab = TopTab::Epg;
    assert_eq!(s.server_label(&set), "Připojuji se...");
    assert!(matches!(s.on_connect(Poll::Empty, &set), ConnectStep::Nothing));
    assert!(s.connecting);
    let step = s.on_connect(Poll::Ready(Ok((info(), vec![channel("l?x"), channel("")]))), &set);
    match step {
        ConnectStep::Start(c) => {
            assert_eq!(c.logos, vec![("l".to_string(), "l?x".to_string())]);
            assert_eq!(c.guide.unwrap().id, "a");
        }
        ConnectStep::Nothing => panic!("nothing was started"),
    }
    assert!(!s.connecting && !s.waiting && s.guide.waiting);
    assert_eq!((s.channels.len(), s.top_tab), (2, TopTab::Tv));
    assert!(s.is_active("a") && !s.is_active("b"));
    assert_eq!(s.server_label(&set), "Server a");
    assert_eq!(s.active_server(&set).unwrap().id, "a");
}

#[test]
fn failed_connection_leads_to_the_settings() {
    let set = settings();
    let (mut s, _) = Session::startup(&set);
    s.settings_tab = SettingsTab::About;
    let step = s.on_connect(Poll::Ready(Err("off".to_string())), &set);
    assert!(matches!(step, ConnectStep::Nothing));
    assert_eq!(s.error.as_deref(), Some("off"));
    assert_eq!((s.top_tab, s.settings_tab), (TopTab::Settings, SettingsTab::Connection));
    assert_eq!(s.server_label(&set), "Nepřipojeno");
    s.start_connect("b");
    assert!(s.connecting && s.error.is_none());
    s.on_connect(Poll::Closed, &set);
    assert!(!s.connecting && s.pending.is_none());
}

#[test]
fn another_connection_forgets_the_channels() {
    let set = settings();
    let (mut s, _) = Session::startup(&set);
    s.on_connect(Poll::Ready(Ok((info(), vec![channel("")]))), &set);
    s.playback.select(0, 1, true);
    s.playback.channel_loaded(0);
    s.start_connect("b");
    assert!(s.channels.is_empty() && s.server_info.is_none() && !s.guide.waiting);
    assert_eq!((s.playback.selected(), s.playback.playing()), (None, None));
    assert!(s.is_active("a"));
}

#[test]
fn deleted_server_is_forgotten() {
    let set = settings();
    let (mut s, _) = Session::startup(&set);
    s.on_connect(Poll::Ready(Ok((info(), vec![channel("")]))), &set);
    assert!(!s.forget("b"));
    assert_eq!(s.channels.len(), 1);
    assert!(s.forget("a"));
    assert!(s.channels.is_empty() && s.active.is_none());
    assert!(!s.forget("a"));
    assert!(Session::new().active_server(&set).is_none());
}

#[test]
fn keys_of_the_tv_tab() {
    let tv = |key: Key| command(key, TopTab::Tv, false, false, false);
    assert_eq!(tv(Key::Plus), Command::Volume(5));
    assert_eq!(tv(Key::Minus), Command::Volume(-5));
    assert_eq!(tv(Key::ArrowUp), Command::Volume(5));
    assert_eq!(tv(Key::ArrowDown), Command::Volume(-5));
    assert_eq!(tv(Key::ArrowLeft), Command::Nothing);
    assert_eq!(tv(Key::PageUp), Command::Channel(-1));
    assert_eq!(tv(Key::PageDown), Command::Channel(1));
    assert_eq!(tv(Key::T), Command::Open(TopTab::Tv));
    assert_eq!(tv(Key::E), Command::Open(TopTab::Epg));
    assert_eq!(tv(Key::R), Command::Open(TopTab::Recordings));
    assert_eq!(tv(Key::N), Command::Open(TopTab::Settings));
}

#[test]
fn keys_of_the_guide() {
    for recording in [false, true] {
        let epg = |key: Key| command(key, TopTab::Epg, false, false, recording);
        assert_eq!(epg(Key::ArrowUp), Command::Volume(5));
        assert_eq!(epg(Key::ArrowDown), Command::Volume(-5));
        assert_eq!(epg(Key::ArrowLeft), Command::Channel(-1));
        assert_eq!(epg(Key::ArrowRight), Command::Channel(1));
        assert_eq!(epg(Key::PageUp), Command::ScrollRows(-20));
        assert_eq!(epg(Key::PageDown), Command::ScrollRows(20));
        assert_eq!(epg(Key::Plus), Command::Volume(5));
    }
}

#[test]
fn arrows_seek_in_a_recording() {
    let rec = |key: Key| command(key, TopTab::Recordings, false, false, true);
    assert_eq!(rec(Key::ArrowLeft), Command::Seek(-10));
    assert_eq!(rec(Key::ArrowRight), Command::Seek(10));
}

#[test]
fn typing_takes_the_keys_but_escape() {
    for key in [Key::Plus, Key::ArrowUp, Key::PageDown, Key::T] {
        assert_eq!(command(key, TopTab::Tv, true, true, true), Command::Nothing);
    }
    assert_eq!(command(Key::Escape, TopTab::Tv, true, true, false), Command::LeaveFullscreen);
    assert_eq!(command(Key::Escape, TopTab::Tv, false, false, false), Command::Nothing);
}

#[test]
fn cinema_is_for_videos() {
    assert!(cinema(true, TopTab::Tv, false));
    assert!(cinema(true, TopTab::Recordings, true));
    assert!(!cinema(true, TopTab::Recordings, false));
    assert!(!cinema(true, TopTab::Epg, true));
    assert!(!cinema(false, TopTab::Tv, true));
    assert_eq!(video_area(false, true), VideoArea::Unavailable);
    assert_eq!(video_area(true, true), VideoArea::Video);
    assert_eq!(video_area(true, false), VideoArea::PickChannel);
}

#[test]
fn controls_hide_after_a_while() {
    let mut c = Controls::new();
    let o = c.overlay(true, false, 0);
    assert!(!o.show && o.hide_cursor && o.look_again);
    assert!(c.overlay(true, true, 10).show);
    assert!(c.overlay(true, false, 10 + VIDEO_CONTROLS_IDLE_MS - 1).show);
    assert!(!c.overlay(true, false, 10 + VIDEO_CONTROLS_IDLE_MS).show);
    // Away from the video only a change of the volume shows them.
    c.wake(10000);
    assert!(!c.overlay(false, true, 10001).show);
    c.volume_changed(10000);
    let o = c.overlay(false, false, 10001);
    assert!(o.show && !o.hide_cursor && o.look_again);
    let o = c.overlay(false, false, 10000 + VIDEO_CONTROLS_IDLE_MS);
    assert!(!o.show && !o.hide_cursor && !o.look_again);
}
