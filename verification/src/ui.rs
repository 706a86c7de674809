//! Tabs, keyboard shortcuts, and which controls are on the screen.
use vstd::prelude::*;

verus! {

/// The tabs of the main menu.
#[derive(Debug, Clone, Copy, PartialEq, Eq, Structural)]
pub enum TopTab {
    Tv,
    Epg,
    Recordings,
    Settings,
}

/// The tabs of the settings.
#[derive(Debug, Clone, Copy, PartialEq, Eq, Structural)]
pub enum SettingsTab {
    Connection,
    Downloads,
    UpdateCheck,
    About,
}

/// The tabs of the recordings.
#[derive(Debug, Clone, Copy, PartialEq, Eq, Structural)]
pub enum RecordingsTab {
    Finished,
    Upcoming,
    Autorec,
}

// ---- shortcuts ----------------------------------------------------------

/// The keys that do something.
#[derive(Debug, Clone, Copy, PartialEq, Eq, Structural)]
pub enum Key {
    Plus,
    Minus,
    ArrowUp,
    ArrowDown,
    ArrowLeft,
    ArrowRight,
    PageUp,
    PageDown,
    T,
    E,
    R,
    N,
    Escape,
}

/// What a key does.
#[derive(Debug, Clone, Copy, PartialEq, Eq, Structural)]
pub enum Command {
    /// Changes the volume, which goes from 0 to 100.
    Volume(i64),
    /// Scrolls the guide by channels.
    ScrollRows(i64),
    /// Switches the channel by places in the list.
    Channel(i64),
    /// Winds the recording by seconds.
    Seek(i64),
    Open(TopTab),
    LeaveFullscreen,
    Nothing,
}

/// What a key does: `typing` says whether a text field takes the keys, which
/// leaves only Escape, and `recording` whether a recording is played. In the
/// guide the arrows to the left and right switch the channel, also while a
/// recording is played, and the page keys scroll; elsewhere the page keys
/// switch the channel and the arrows wind the recording.
pub open spec fn command_of(
    key: Key,
    tab: TopTab,
    typing: bool,
    fullscreen: bool,
    recording: bool,
) -> Command {
    if key == Key::Escape {
        if fullscreen {
            Command::LeaveFullscreen
        } else {
            Command::Nothing
        }
    } else if typing {
        Command::Nothing
    } else {
        let epg = tab == TopTab::Epg;
        match key {
            Key::Plus => Command::Volume(5),
            Key::Minus => Command::Volume((-5) as i64),
            Key::ArrowUp => Command::Volume(5),
            Key::ArrowDown => Command::Volume((-5) as i64),
            Key::ArrowLeft => if epg {
                Command::Channel((-1) as i64)
            } else if recording {
                Command::Seek((-10) as i64)
            } else {
                Command::Nothing
            },
            Key::ArrowRight => if epg {
                Command::Channel(1)
            } else if recording {
                Command::Seek(10)
            } else {
                Command::Nothing
            },
            Key::PageUp => if epg {
                Command::ScrollRows((-20) as i64)
            } else {
                Command::Channel((-1) as i64)
            },
            Key::PageDown => if epg {
                Command::ScrollRows(20)
            } else {
                Command::Channel(1)
            },
            Key::T => Command::Open(TopTab::Tv),
            Key::E => Command::Open(TopTab::Epg),
            Key::R => Command::Open(TopTab::Recordings),
            Key::N => Command::Open(TopTab::Settings),
            Key::Escape => Command::Nothing,
        }
    }
}

/// What a key does.
pub fn command(key: Key, tab: TopTab, typing: bool, fullscreen: bool, recording: bool) -> (r:
    Command)
    ensures
        r == command_of(key, tab, typing, fullscreen, recording),
{
    if key == Key::Escape {
        return if fullscreen {
            Command::LeaveFullscreen
        } else {
            Command::Nothing
        };
    }
    if typing {
        return Command::Nothing;
    }
    let epg = tab == TopTab::Epg;
    match key {
        Key::Plus => Command::Volume(5),
        Key::Minus => Command::Volume(-5),
        Key::ArrowUp => Command::Volume(5),
        Key::ArrowDown => Command::Volume(-5),
        Key::ArrowLeft => if epg {
            Command::Channel(-1)
        } else if recording {
            Command::Seek(-10)
        } else {
            Command::Nothing
        },
        Key::ArrowRight => if epg {
            Command::Channel(1)
        } else if recording {
            Command::Seek(10)
        } else {
            Command::Nothing
        },
        Key::PageUp => if epg {
            Command::ScrollRows(-20)
        } else {
            Command::Channel(-1)
        },
        Key::PageDown => if epg {
            Command::ScrollRows(20)
        } else {
            Command::Channel(1)
        },
        Key::T => Command::Open(TopTab::Tv),
        Key::E => Command::Open(TopTab::Epg),
        Key::R => Command::Open(TopTab::Recordings),
        Key::N => Command::Open(TopTab::Settings),
        Key::Escape => Command::Nothing,
    }
}

// ---- what is on the screen ----------------------------------------------

/// Whether the window shows nothing but a video: in fullscreen, on the TV tab,
/// and on the recordings tab while a recording is played.
pub open spec fn is_cinema(fullscreen: bool, tab: TopTab, recording: bool) -> bool {
    fullscreen && (tab == TopTab::Tv || (tab == TopTab::Recordings && recording))
}

/// Whether the window shows nothing but a video. The main menu and the panels
/// around the video are then hidden.
pub fn cinema(fullscreen: bool, tab: TopTab, recording: bool) -> (r: bool)
    ensures
        r == is_cinema(fullscreen, tab, recording),
{
    fullscreen && (tab == TopTab::Tv || (tab == TopTab::Recordings && recording))
}

/// For how many milliseconds the controls over a video stay once the mouse
/// rests.
pub const VIDEO_CONTROLS_IDLE_MS: u64 = 3000;

/// Until when the controls over a video are shown: after a move of the mouse
/// over the video, and after a change of the volume by key, wherever the mouse
/// is. Times are in milliseconds.
#[derive(Debug, Clone, Copy, PartialEq, Eq, Structural)]
pub struct Controls {
    pub until_ms: Option<u64>,
    pub volume_until_ms: Option<u64>,
}

/// What is shown over a video.
#[derive(Debug, Clone, Copy, PartialEq, Eq, Structural)]
pub struct Overlay {
    /// Whether the controls are shown.
    pub show: bool,
    /// Whether the mouse pointer is hidden.
    pub hide_cursor: bool,
    /// Whether to look again soon, since a deadline may pass.
    pub look_again: bool,
}

/// Whether a deadline is still to come.
pub open spec fn pending(deadline: Option<u64>, now_ms: u64) -> bool {
    deadline is Some && now_ms < deadline->0
}

/// What is shown over a video, with the mouse over it or not.
pub open spec fn overlay_of(c: Controls, in_video: bool, now_ms: u64) -> Overlay {
    let volume = pending(c.volume_until_ms, now_ms);
    let show = volume || (in_video && pending(c.until_ms, now_ms));
    Overlay { show, hide_cursor: in_video && !show, look_again: in_video || volume }
}

impl Controls {
    /// No controls.
    pub fn new() -> (r: Self)
        ensures
            r == (Controls { until_ms: None, volume_until_ms: None }),
    {
        Controls { until_ms: None, volume_until_ms: None }
    }

    /// Shows the controls for a while, as long as the mouse is over the video.
    pub fn wake(&mut self, now_ms: u64)
        requires
            now_ms <= u64::MAX - VIDEO_CONTROLS_IDLE_MS,
        ensures
            *final(self) == (Controls {
                until_ms: Some((now_ms + VIDEO_CONTROLS_IDLE_MS) as u64),
                ..*old(self)
            }),
    {
        self.until_ms = Some(now_ms + VIDEO_CONTROLS_IDLE_MS);
    }

    /// Shows the controls for a while, wherever the mouse is.
    pub fn volume_changed(&mut self, now_ms: u64)
        requires
            now_ms <= u64::MAX - VIDEO_CONTROLS_IDLE_MS,
        ensures
            *final(self) == (Controls {
                volume_until_ms: Some((now_ms + VIDEO_CONTROLS_IDLE_MS) as u64),
                ..*old(self)
            }),
    {
        self.volume_until_ms = Some(now_ms + VIDEO_CONTROLS_IDLE_MS);
    }

    /// What is shown over a video, where the mouse is over it or not and moved
    /// or not. A move over the video shows the controls for a while.
    pub fn overlay(&mut self, in_video: bool, moved: bool, now_ms: u64) -> (r: Overlay)
        requires
            now_ms <= u64::MAX - VIDEO_CONTROLS_IDLE_MS,
        ensures
            *final(self) == if in_video && moved {
                Controls {
                    until_ms: Some((now_ms + VIDEO_CONTROLS_IDLE_MS) as u64),
                    ..*old(self)
                }
            } else {
                *old(self)
            },
            r == overlay_of(*final(self), in_video, now_ms),
    {
        if in_video && moved {
            self.wake(now_ms);
        }
        let volume = match self.volume_until_ms {
            Some(t) => now_ms < t,
            None => false,
        };
        let awake = match self.until_ms {
            Some(t) => now_ms < t,
            None => false,
        };
        let show = volume || (in_video && awake);
        Overlay { show, hide_cursor: in_video && !show, look_again: in_video || volume }
    }
}

/// What the area of the TV tab shows.
#[derive(Debug, Clone, Copy, PartialEq, Eq, Structural)]
pub enum VideoArea {
    Video,
    /// There is no player.
    Unavailable,
    /// Nothing is played.
    PickChannel,
}

/// What the area of the TV tab shows.
pub fn video_area(has_player: bool, playing: bool) -> (r: VideoArea)
    ensures
        r == if !has_player {
            VideoArea::Unavailable
        } else if playing {
            VideoArea::Video
        } else {
            VideoArea::PickChannel
        },
{
    if !has_player {
        VideoArea::Unavailable
    } else if playing {
        VideoArea::Video
    } else {
        VideoArea::PickChannel
    }
}

// ---- laws ---------------------------------------------------------------

/// A key that goes one way in a tab is undone by its opposite. The arrows up
/// and down change the volume in every tab, as plus and minus do, and in the
/// guide the arrows to the left and right switch the channel.
pub proof fn law_opposite_keys(tab: TopTab, fullscreen: bool, recording: bool)
    ensures
        command_of(Key::PageUp, tab, false, fullscreen, recording) matches Command::Channel(d)
            ==> command_of(Key::PageDown, tab, false, fullscreen, recording) == Command::Channel(
            (-d) as i64,
        ),
        command_of(Key::PageUp, tab, false, fullscreen, recording) matches Command::ScrollRows(d)
            ==> command_of(Key::PageDown, tab, false, fullscreen, recording)
            == Command::ScrollRows((-d) as i64),
        command_of(Key::ArrowUp, tab, false, fullscreen, recording) matches Command::Volume(d)
            && command_of(Key::ArrowDown, tab, false, fullscreen, recording) == Command::Volume(
            (-d) as i64,
        ),
        command_of(Key::Plus, tab, false, fullscreen, recording) == command_of(
            Key::ArrowUp,
            tab,
            false,
            fullscreen,
            recording,
        ),
        command_of(Key::Minus, tab, false, fullscreen, recording) == command_of(
            Key::ArrowDown,
            tab,
            false,
            fullscreen,
            recording,
        ),
        command_of(Key::ArrowLeft, tab, false, fullscreen, recording) matches Command::Channel(d)
            ==> command_of(Key::ArrowRight, tab, false, fullscreen, recording) == Command::Channel(
            (-d) as i64,
        ),
        tab == TopTab::Epg ==> command_of(Key::ArrowLeft, tab, false, fullscreen, recording)
            is Channel,
        command_of(Key::ArrowLeft, tab, false, fullscreen, recording) matches Command::Seek(d)
            ==> command_of(Key::ArrowRight, tab, false, fullscreen, recording) == Command::Seek(
            (-d) as i64,
        ),
{
}

/// Whatever is on the screen, Escape leaves fullscreen, also while a text field
/// takes the keys; and while one does, no other key does anything.
pub proof fn law_escape(key: Key, tab: TopTab, typing: bool, recording: bool)
    ensures
        command_of(Key::Escape, tab, typing, true, recording) == Command::LeaveFullscreen,
        key != Key::Escape ==> command_of(key, tab, true, true, recording) == Command::Nothing
            && command_of(key, tab, true, false, recording) == Command::Nothing,
{
}

/// The controls are hidden again once the mouse has rested for a while and no
/// volume key was pressed meanwhile.
pub proof fn law_controls_hide(c: Controls, now_ms: u64, later_ms: u64)
    requires
        c.until_ms == Some((now_ms + VIDEO_CONTROLS_IDLE_MS) as u64),
        now_ms <= u64::MAX - VIDEO_CONTROLS_IDLE_MS,
        later_ms >= now_ms + VIDEO_CONTROLS_IDLE_MS,
        !pending(c.volume_until_ms, later_ms),
    ensures
        !overlay_of(c, true, later_ms).show,
        overlay_of(c, true, later_ms).hide_cursor,
        overlay_of(c, true, now_ms).show,
{
}

/// What each key does. The arrows up and down and plus and minus change the
/// volume by five; the letters open their tabs; in the guide the arrows to the
/// sides switch the channel and the page keys scroll by twenty rows; elsewhere
/// the page keys switch the channel, and the arrows to the sides wind a
/// recording that is played by ten seconds.
pub proof fn law_keys(tab: TopTab, fullscreen: bool, recording: bool)
    ensures
        command_of(Key::Plus, tab, false, fullscreen, recording) == Command::Volume(5),
        command_of(Key::Minus, tab, false, fullscreen, recording) == Command::Volume(-5i64),
        command_of(Key::ArrowUp, tab, false, fullscreen, recording) == Command::Volume(5),
        command_of(Key::ArrowDown, tab, false, fullscreen, recording) == Command::Volume(-5i64),
        command_of(Key::T, tab, false, fullscreen, recording) == Command::Open(TopTab::Tv),
        command_of(Key::E, tab, false, fullscreen, recording) == Command::Open(TopTab::Epg),
        command_of(Key::R, tab, false, fullscreen, recording) == Command::Open(TopTab::Recordings),
        command_of(Key::N, tab, false, fullscreen, recording) == Command::Open(TopTab::Settings),
        command_of(Key::PageUp, TopTab::Epg, false, fullscreen, recording) == Command::ScrollRows(
            -20i64,
        ),
        command_of(Key::PageDown, TopTab::Epg, false, fullscreen, recording) == Command::ScrollRows(
            20,
        ),
        command_of(Key::ArrowLeft, TopTab::Epg, false, fullscreen, recording) == Command::Channel(
            -1i64,
        ),
        command_of(Key::ArrowRight, TopTab::Epg, false, fullscreen, recording) == Command::Channel(
            1,
        ),
        tab != TopTab::Epg ==> command_of(Key::PageUp, tab, false, fullscreen, recording)
            == Command::Channel(-1i64),
        tab != TopTab::Epg ==> command_of(Key::PageDown, tab, false, fullscreen, recording)
            == Command::Channel(1),
        tab != TopTab::Epg ==> command_of(Key::ArrowLeft, tab, false, fullscreen, true)
            == Command::Seek(-10i64),
        tab != TopTab::Epg ==> command_of(Key::ArrowRight, tab, false, fullscreen, true)
            == Command::Seek(10),
        tab != TopTab::Epg ==> command_of(Key::ArrowLeft, tab, false, fullscreen, false)
            == Command::Nothing && command_of(Key::ArrowRight, tab, false, fullscreen, false)
            == Command::Nothing,
        command_of(Key::Escape, tab, false, false, recording) == Command::Nothing,
{
}

/// The window shows nothing but a video in fullscreen, where there is one: on
/// the TV tab, and on the recordings tab while a recording is played.
pub proof fn law_cinema(fullscreen: bool, recording: bool)
    ensures
        is_cinema(true, TopTab::Tv, recording),
        is_cinema(true, TopTab::Recordings, true),
        !is_cinema(true, TopTab::Recordings, false),
        !is_cinema(fullscreen, TopTab::Epg, recording),
        !is_cinema(fullscreen, TopTab::Settings, recording),
        !is_cinema(false, TopTab::Tv, recording),
        !is_cinema(false, TopTab::Recordings, recording),
{
}

/// The controls are shown until their time is over: wherever the mouse is after
/// a change of the volume, and only over the video after a move of the mouse.
/// Over a video without controls the mouse pointer is hidden. They stay for
/// three seconds.
pub proof fn law_overlay(until: u64, volume: u64, now_ms: u64, in_video: bool)
    ensures
        VIDEO_CONTROLS_IDLE_MS == 3 * 1000,
        ({
            let none = Controls { until_ms: None, volume_until_ms: None };
            let moved = Controls { until_ms: Some(until), volume_until_ms: None };
            let turned = Controls { until_ms: None, volume_until_ms: Some(volume) };
            let both = Controls { until_ms: Some(until), volume_until_ms: Some(volume) };
            &&& !overlay_of(none, in_video, now_ms).show
            &&& overlay_of(none, in_video, now_ms).hide_cursor == in_video
            &&& overlay_of(moved, in_video, now_ms).show <==> in_video && now_ms < until
            &&& overlay_of(turned, in_video, now_ms).show <==> now_ms < volume
            &&& overlay_of(both, in_video, now_ms).show <==> now_ms < volume || (in_video && now_ms
                < until)
            &&& overlay_of(both, in_video, now_ms).hide_cursor <==> in_video && !overlay_of(
                both,
                in_video,
                now_ms,
            ).show
            &&& overlay_of(both, in_video, now_ms).look_again <==> in_video || now_ms < volume
        }),
{
}

} // verus!
