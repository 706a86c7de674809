use tvh_client::downloads::{progress_label, progress_part, Batch, DownloadState, Downloads};
use tvh_client::playback::{
    DownloadEvent, Playback, RECORDING_BUFFER_INDICATOR_MS, RECORDING_START_PLAYBACK_BYTES,
};
use tvh_client::player::{buffering_percent, load_error, target_step, PlayerErrors, TargetStep};
use tvh_client::recordings::DownloadUpdate;

fn progress(downloaded: u64) -> DownloadEvent {
    DownloadEvent::Update(DownloadUpdate::Progress { downloaded, total: Some(9_000_000) })
}

fn done(path: &str) -> DownloadEvent {
    DownloadEvent::Update(DownloadUpdate::Done(path.to_string()))
}

fn failed(e: &str) -> DownloadEvent {
    DownloadEvent::Update(DownloadUpdate::Error(e.to_string()))
}

fn cancelled() -> DownloadEvent {
    DownloadEvent::Update(DownloadUpdate::Cancelled)
}

#[test]
fn channels_go_round() {
    let mut p = Playback::new();
    assert_eq!(p.relative(1, 0), None);
    assert_eq!(p.relative(1, 3), Some(1));
    assert_eq!(p.relative(-1, 3), Some(2));
    assert_eq!(p.select(2, 3, true), Some(2));
    assert_eq!(p.relative(1, 3), Some(0));
    assert_eq!(p.relative(-1, 3), Some(1));
    assert_eq!(p.relative(i64::MIN, 3), Some(((2 + i64::MIN as i128).rem_euclid(3)) as usize));
    // There and back.
    for delta in [-7, -1, 0, 1, 7] {
        let there = p.relative(delta, 5).unwrap();
        let mut q = Playback::new();
        q.select(there, 5, true);
        assert_eq!(q.relative(-delta, 5), Some(2));
    }
}

#[test]
fn channel_is_selected_and_loaded() {
    let mut p = Playback::new();
    assert_eq!(p.select(4, 3, true), None);
    assert_eq!(p.selected(), Some(4));
    assert_eq!(p.select(1, 3, false), None);
    assert_eq!(p.select(1, 3, true), Some(1));
    assert_eq!(p.playing(), None);
    let c = p.channel_loaded(1);
    assert!(!c.cancel_download && c.remove_file.is_none());
    assert_eq!(p.playing(), Some(1));
    assert!(p.toggle_pause());
    assert!(p.is_paused());
    p.stop();
    assert_eq!((p.playing(), p.is_paused(), p.selected()), (None, false, Some(1)));
    p.deselect();
    assert_eq!(p.selected(), None);
}

#[test]
fn recording_plays_once_enough_has_arrived() {
    let mut p = Playback::new();
    p.channel_loaded(0);
    let c = p.start_recording("Film", "f.ts");
    assert!(!c.cancel_download && c.remove_file.is_none());
    assert_eq!((p.recording(), p.playing()), (Some("Film"), None));
    assert!(p.is_filling());
    let o = p.on_download(&vec![progress(RECORDING_START_PLAYBACK_BYTES - 1)]);
    assert!(o.load.is_none() && o.message.is_none());
    let o = p.on_download(&vec![progress(RECORDING_START_PLAYBACK_BYTES)]);
    assert_eq!(o.load.as_deref(), Some("f.ts"));
    assert!(!p.is_filling());
    // The player is given the file once.
    let o = p.on_download(&vec![progress(8_000_000), done("f.ts")]);
    assert!(o.load.is_none() && o.message.is_none());
    assert!(p.buffer().is_none());
    assert_eq!(p.recording(), Some("Film"));
    let c = p.stop_recording();
    assert!(!c.cancel_download);
    assert_eq!(c.remove_file.as_deref(), Some("f.ts"));
    assert_eq!(p.recording(), None);
}

#[test]
fn small_recording_plays_when_complete() {
    let mut p = Playback::new();
    p.start_recording("Film", "f.ts");
    let o = p.on_download(&vec![progress(10), done("f.ts")]);
    assert_eq!(o.load.as_deref(), Some("f.ts"));
    assert_eq!(p.recording(), Some("Film"));
}

#[test]
fn broken_recording_is_reported() {
    let mut p = Playback::new();
    p.start_recording("Film", "f.ts");
    let o = p.on_download(&vec![progress(1), failed("e")]);
    assert_eq!(o.message.as_deref(), Some("Načtení nahrávky selhalo: e"));
    assert_eq!(p.recording(), None);
    p.start_recording("Film", "f.ts");
    let o = p.on_download(&vec![DownloadEvent::Closed]);
    assert_eq!(
        o.message.as_deref(),
        Some("Načtení nahrávky selhalo: Spojení s vláknem bylo přerušeno.")
    );
    // What has arrived goes on playing.
    p.start_recording("Film", "f.ts");
    let o = p.on_download(&vec![progress(5_000_000), cancelled(), progress(7_000_000)]);
    assert_eq!(o.load.as_deref(), Some("f.ts"));
    assert_eq!(o.message.as_deref(), Some("Dostahování na pozadí přerušeno: Zrušeno."));
    assert_eq!(p.recording(), Some("Film"));
    assert!(p.on_download(&vec![failed("late")]).message.is_none());
}

#[test]
fn recording_that_is_left_is_cleared_away() {
    let mut p = Playback::new();
    p.start_recording("A", "a.ts");
    let c = p.start_recording("B", "b.ts");
    assert!(c.cancel_download && c.remove_file.is_none());
    p.on_download(&vec![done("b.ts")]);
    let c = p.channel_loaded(0);
    assert!(!c.cancel_download);
    assert_eq!(c.remove_file.as_deref(), Some("b.ts"));
    assert_eq!((p.recording(), p.playing()), (None, Some(0)));
}

#[test]
fn download_of_a_recording_is_paused() {
    let mut p = Playback::new();
    assert_eq!(p.toggle_download(), None);
    p.start_recording("A", "a.ts");
    assert_eq!(p.toggle_download(), Some(true));
    assert!(p.buffer().unwrap().paused);
    assert_eq!(p.toggle_download(), Some(false));
}

#[test]
fn buffer_is_indicated_for_a_while() {
    let mut p = Playback::new();
    assert_eq!(p.indicator(Some(30), Some(50), 0), Some(30));
    assert_eq!(p.indicator(None, Some(50), 0), None);
    p.start_recording("A", "a.ts");
    assert_eq!(p.indicator(None, Some(50), 0), None);
    p.on_download(&vec![progress(5_000_000)]);
    p.recording_started(1000);
    assert_eq!(p.indicator(None, Some(50), 1000 + RECORDING_BUFFER_INDICATOR_MS - 1), Some(50));
    assert_eq!(p.indicator(None, Some(50), 1000 + RECORDING_BUFFER_INDICATOR_MS), None);
    assert_eq!(p.indicator(Some(1), Some(50), 9000), Some(1));
}

fn batch(uuid: &str, events: Vec<DownloadEvent>) -> Batch {
    Batch { uuid: uuid.to_string(), events }
}

#[test]
fn downloads_go_on_side_by_side() {
    let mut d = Downloads::new();
    d.start("a");
    d.start("b");
    let o = d.on_batches(&vec![
        batch("a", vec![progress(1), progress(2)]),
        batch("b", vec![progress(3), done("b.ts"), progress(4)]),
        batch("x", vec![done("x.ts")]),
    ]);
    assert_eq!(o.message.as_deref(), Some("Staženo do b.ts"));
    assert_eq!(o.open, vec!["b.ts".to_string()]);
    assert_eq!(d.get("a").unwrap().downloaded, 2);
    assert!(d.get("b").is_none() && d.get("x").is_none());
    assert_eq!(d.toggle("a"), Some(true));
    assert!(d.get("a").unwrap().paused);
    assert_eq!(d.toggle("a"), Some(false));
    assert_eq!(d.toggle("b"), None);
}

#[test]
fn ends_of_downloads_are_told() {
    let mut d = Downloads::new();
    d.start("a");
    d.start("b");
    d.start("c");
    let o = d.on_batches(&vec![batch("a", vec![cancelled()])]);
    assert_eq!(o.message.as_deref(), Some("Stahování zrušeno."));
    let o = d.on_batches(&vec![batch("b", vec![failed("e")])]);
    assert_eq!(o.message.as_deref(), Some("Stahování selhalo: e"));
    let o = d.on_batches(&vec![batch("c", vec![DownloadEvent::Closed])]);
    assert!(o.message.is_none() && o.open.is_empty());
    assert!(d.get("a").is_none() && d.get("b").is_none() && d.get("c").is_none());
    let mut s = DownloadState::new();
    assert!(!s.on_events(&vec![progress(7)]).ended);
    assert_eq!((s.downloaded, s.total), (7, Some(9_000_000)));
}

#[test]
fn progress_is_labelled() {
    assert_eq!(progress_label(1024, Some(2048)), "1.00 KB / 2.00 KB");
    assert_eq!(progress_label(1024, None), "1.00 KB");
    assert_eq!(progress_part(1, Some(4)), Some((1, 4)));
    assert_eq!(progress_part(5, Some(4)), Some((4, 4)));
    assert_eq!(progress_part(5, Some(0)), None);
    assert_eq!(progress_part(5, None), None);
}

#[test]
fn last_error_of_the_player_stays_until_the_next_load() {
    let mut e = PlayerErrors::new();
    assert_eq!(e.on_events(&vec![None]), None);
    assert_eq!(
        e.on_events(&vec![Some("a".to_string()), None, Some("b".to_string())]).as_deref(),
        Some("b")
    );
    assert_eq!(e.on_events(&vec![]).as_deref(), Some("b"));
    e.on_load();
    assert_eq!(e.on_events(&vec![]), None);
    e.on_render_failed("x");
    assert_eq!(e.on_events(&vec![None]).as_deref(), Some("Vykreslení snímku selhalo: x"));
}

#[test]
fn player_and_its_picture() {
    assert_eq!(buffering_percent(true, Some(40)), Some(40));
    assert_eq!(buffering_percent(true, None), None);
    assert_eq!(buffering_percent(false, Some(40)), None);
    assert_eq!(target_step(None, 0, 5), TargetStep::Skip);
    assert_eq!(target_step(Some((3, 5)), 3, -1), TargetStep::Skip);
    assert_eq!(target_step(Some((3, 5)), 3, 5), TargetStep::Keep);
    assert_eq!(target_step(Some((3, 5)), 5, 3), TargetStep::Rebuild);
    assert_eq!(target_step(None, 5, 3), TargetStep::Rebuild);
    assert_eq!(load_error("e"), "Nepodařilo se spustit stream: e");
}
