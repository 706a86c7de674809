use chrono::TimeZone;
use tvh_client::epg::{
    clone_events, current_and_next, description_head, format_span, format_time, group_by_channel,
    join_synopsis, junk, progress, synopsis, EpgProgress, EpgSync, Offsets, SyncStep, PAGE_SIZE,
};
use tvh_client::logos::{cache_key, hash_key, logo_pairs, needs_update, on_logo, picture};
use tvh_client::outside::{FIRST_SECOND, LAST_SECOND};
use tvh_client::paths::{
    config_dir, downloads_dir, guide_file, logo_file, sanitize_for_path, settings_file, Location,
    Root,
};
use tvh_client::tvh::{Channel, EpgEvent, TvhError};

fn event(uuid: &str, id: i64, start: i64, stop: i64) -> EpgEvent {
    EpgEvent {
        event_id: id,
        channel_uuid: uuid.to_string(),
        start,
        stop,
        title: format!("t{id}"),
        subtitle: None,
        summary: None,
        description: None,
    }
}

fn described(summary: Option<&str>, description: Option<&str>) -> EpgEvent {
    let mut e = event("a", 1, 0, 1);
    e.summary = summary.map(String::from);
    e.description = description.map(String::from);
    e
}

#[test]
fn events_are_grouped_and_sorted() {
    let map = group_by_channel(vec![
        event("a", 1, 30, 40),
        event("b", 2, 5, 6),
        event("a", 3, 10, 20),
        event("a", 4, 10, 15),
    ]);
    assert_eq!(map.len(), 2);
    let ids: Vec<i64> = map.get("a").unwrap().iter().map(|e| e.event_id).collect();
    assert_eq!(ids, vec![3, 4, 1]);
    assert_eq!(map.get("b").unwrap().len(), 1);
    assert!(map.get("c").is_none());
    assert_eq!(group_by_channel(vec![]).len(), 0);
}

#[test]
fn current_and_next_are_found() {
    let list = vec![event("a", 1, 0, 10), event("a", 2, 10, 20), event("a", 3, 30, 40)];
    let ids = |now: i64| {
        let (c, n) = current_and_next(&list, now);
        (c.map(|e| e.event_id), n.map(|e| e.event_id))
    };
    assert_eq!(ids(0), (Some(1), Some(2)));
    assert_eq!(ids(9), (Some(1), Some(2)));
    assert_eq!(ids(10), (Some(2), Some(3)));
    assert_eq!(ids(35), (Some(3), None));
    // In a gap, and outside the schedule.
    assert_eq!(ids(25), (None, Some(3)));
    assert_eq!(ids(-1), (None, Some(1)));
    assert_eq!(ids(40), (None, None));
}

#[test]
fn progress_goes_from_start_to_end() {
    let e = event("a", 1, 100, 200);
    assert_eq!((progress(&e, 0).elapsed, progress(&e, 0).span), (0, 100));
    assert_eq!(progress(&e, 150).elapsed, 50);
    assert_eq!(progress(&e, 500).elapsed, 100);
    let none = event("a", 1, 100, 100);
    assert_eq!((progress(&none, 101).elapsed, progress(&none, 101).span), (1, 1));
    let wide = event("a", 1, i64::MIN, i64::MAX);
    assert_eq!(progress(&wide, 0).elapsed, 1i128 << 63);
}

#[test]
fn synopsis_joins_summary_and_description() {
    let e = described(Some(" He goes to "), Some("the moon.\n  And back.  \n\nHDTV\nOther text"));
    assert_eq!(synopsis(&e).unwrap(), "He goes to the moon. And back.");
    assert_eq!(synopsis(&described(Some("S"), None)).unwrap(), "S");
    assert_eq!(synopsis(&described(Some("S"), Some("  stereo \nmore"))).unwrap(), "S");
    assert_eq!(synopsis(&described(None, Some("D"))).unwrap(), "D");
    assert_eq!(synopsis(&described(Some(" "), Some("\n "))), None);
    assert_eq!(synopsis(&described(None, None)), None);
}

#[test]
fn junk_is_found_in_any_case() {
    let e = described(None, Some("A\nSKRYTÉ TITULKY\nB"));
    assert_eq!(synopsis(&e).unwrap(), "A");
    let e = described(None, Some("A\nhdtv plus\nB"));
    assert_eq!(synopsis(&e).unwrap(), "A hdtv plus B");
    for line in [
        "hdtv", "hd", "sd", "zvukový popis", "zvukovy popis", "audio description",
        "skryté titulky", "skryte titulky", "teletext", "stereo", "mono", "dolby digital", "5.1",
        "širokoúhlý", "sirokouhly", "širokoúhlé", "16:9", "4:3", "premiéra", "premiera",
        "repríza", "repriza",
    ] {
        assert!(junk(line));
    }
    assert!(!junk("HD"));
    assert!(!junk(""));
}

#[test]
fn description_ends_at_the_first_junk_line() {
    let ls = vec!["A".to_string(), "".to_string(), "B".to_string(), "C".to_string()];
    let lowered = vec!["a".to_string(), "".to_string(), "mono".to_string(), "c".to_string()];
    assert_eq!(description_head(&ls, &lowered), "A");
    let lowered = vec!["a".to_string(), "".to_string(), "b".to_string(), "c".to_string()];
    assert_eq!(description_head(&ls, &lowered), "A B C");
    assert_eq!(join_synopsis("S".into(), "H".into()).unwrap(), "S H");
    assert_eq!(join_synopsis("".into(), "".into()), None);
}

#[test]
fn times_are_shown_in_the_zone() {
    assert_eq!(format_time(0, 0), "00:00");
    assert_eq!(format_time(0, 3600), "01:00");
    assert_eq!(format_time(-1, 0), "23:59");
    assert_eq!(format_time(86399, 86399), "23:59");
    assert_eq!(format_span(0, 5400, Offsets { start: 7200, stop: 7200 }), "02:00–03:30");
    for unix in [1_700_000_000, -5_000_000_000, 4_102_444_800, FIRST_SECOND, LAST_SECOND] {
        for offset in [0, 3600, -3600, 19800, -86399, 86399] {
            let expected = chrono::FixedOffset::east_opt(offset)
                .unwrap()
                .timestamp_opt(unix, 0)
                .single()
                .map(|t| t.format("%H:%M").to_string())
                .unwrap_or_default();
            assert_eq!(format_time(unix, offset), expected);
            let second = (unix as i128 + offset as i128).rem_euclid(86400);
            assert_eq!(expected, format!("{:02}:{:02}", second / 3600, second % 3600 / 60));
        }
    }
}

#[test]
fn times_out_of_range_show_nothing() {
    for unix in [FIRST_SECOND - 1, LAST_SECOND + 1, i64::MIN, i64::MAX] {
        assert_eq!(format_time(unix, 0), "");
        assert_eq!(format_time(unix, 3600), "");
    }
}

#[test]
fn download_of_the_guide_goes_page_by_page() {
    let mut sync = EpgSync::new();
    let full: Vec<EpgEvent> = (0..PAGE_SIZE as i64).map(|i| event("a", i, i, i + 1)).collect();
    let p = sync.add_page(PAGE_SIZE, clone_events(&full), 2 * PAGE_SIZE + 5);
    assert_eq!((p.loaded, p.total), (PAGE_SIZE, 2 * PAGE_SIZE + 5));
    assert_eq!(sync.next(), SyncStep::Ask { start: PAGE_SIZE, limit: PAGE_SIZE });
    // A row that cannot be placed is a row all the same.
    let p = sync.add_page(PAGE_SIZE, full[1..].to_vec(), 2 * PAGE_SIZE + 5);
    assert_eq!(p.loaded, 2 * PAGE_SIZE - 1);
    assert_eq!(sync.next(), SyncStep::Ask { start: 2 * PAGE_SIZE, limit: PAGE_SIZE });
    let p = sync.add_page(5, full[..5].to_vec(), 2 * PAGE_SIZE + 5);
    assert_eq!(sync.next(), SyncStep::Save);
    assert_eq!(p.loaded, 2 * PAGE_SIZE + 4);
    assert_eq!(p.total, p.loaded);
    assert_eq!(sync.events().len(), p.loaded);
    assert_eq!(p.events.len(), p.loaded);
}

#[test]
fn download_ends_at_the_total_or_at_a_short_page() {
    let full: Vec<EpgEvent> = (0..PAGE_SIZE as i64).map(|i| event("a", i, i, i + 1)).collect();
    let mut sync = EpgSync::new();
    let p = sync.add_page(PAGE_SIZE, full, PAGE_SIZE);
    assert_eq!(sync.next(), SyncStep::Save);
    assert_eq!((p.loaded, p.total), (PAGE_SIZE, PAGE_SIZE));
    let mut sync = EpgSync::new();
    let p = sync.add_page(0, vec![], 9);
    assert_eq!(sync.next(), SyncStep::Save);
    assert_eq!((p.loaded, p.total), (0, 0));
    let p = EpgProgress::cached(vec![event("a", 1, 0, 1)]);
    assert_eq!((p.loaded, p.total), (1, 1));
}

#[test]
fn updates_of_a_download_grow() {
    let mut sync = EpgSync::new();
    assert_eq!(sync.next(), SyncStep::Ask { start: 0, limit: PAGE_SIZE });
    let mut rows: Vec<EpgEvent> = (0..PAGE_SIZE as i64).map(|i| event("a", i, i, i + 1)).collect();
    rows[3].stop = rows[3].start;
    let first = sync.on_reply(Ok((rows.clone(), PAGE_SIZE + 2))).unwrap().unwrap();
    assert_eq!((first.loaded, first.total), (PAGE_SIZE - 1, PAGE_SIZE + 2));
    assert_eq!(first.events.len(), first.loaded);
    assert_eq!(sync.next(), SyncStep::Ask { start: PAGE_SIZE, limit: PAGE_SIZE });
    let last = sync.on_reply(Ok((rows[..2].to_vec(), PAGE_SIZE + 2))).unwrap().unwrap();
    assert_eq!((last.loaded, last.total), (PAGE_SIZE + 1, PAGE_SIZE + 1));
    for (a, b) in first.events.iter().zip(&last.events) {
        assert_eq!(a.event_id, b.event_id);
    }
    assert_eq!(sync.next(), SyncStep::Save);
    assert_eq!(sync.events().len(), last.loaded);
    // Nothing that comes later is taken in.
    assert!(sync.on_reply(Ok((rows, 9))).is_none());
    assert!(sync.on_reply(Err(TvhError::AuthFailed)).is_none());
    assert_eq!(sync.next(), SyncStep::Save);
    assert_eq!(sync.events().len(), last.loaded);
}

#[test]
fn download_that_failed_is_not_kept() {
    let mut sync = EpgSync::new();
    let rows: Vec<EpgEvent> = (0..PAGE_SIZE as i64).map(|i| event("a", i, i, i + 1)).collect();
    assert!(sync.on_reply(Ok((rows.clone(), 2 * PAGE_SIZE))).unwrap().is_ok());
    let told = sync.on_reply(Err(TvhError::Request("x".to_string()))).unwrap();
    assert_eq!(told.unwrap_err(), "Chyba spojení: x");
    assert_eq!(sync.next(), SyncStep::Stop);
    assert!(sync.on_reply(Ok((rows, 2 * PAGE_SIZE))).is_none());
    assert_eq!(sync.next(), SyncStep::Stop);
}

#[test]
fn what_follows_junk_changes_no_synopsis() {
    let head = "rest of it.\nHDTV\n";
    let plain = synopsis(&described(Some("Start"), Some(head)));
    assert_eq!(plain.unwrap(), "Start rest of it.");
    for more in ["more", "\n\nStereo\nother", "hd\n"] {
        let text = format!("{head}{more}");
        assert_eq!(synopsis(&described(Some("Start"), Some(&text))).unwrap(), "Start rest of it.");
    }
}

/// A picture of two pixels, the first red and the second nearly black.
fn bitmap() -> Vec<u8> {
    let mut bytes: Vec<u8> = vec![b'B', b'M', 62, 0, 0, 0, 0, 0, 0, 0, 54, 0, 0, 0];
    bytes.extend([40, 0, 0, 0, 2, 0, 0, 0, 1, 0, 0, 0, 1, 0, 24, 0]);
    bytes.extend([0u8; 24]);
    bytes.extend([0, 0, 255, 3, 2, 1, 0, 0]);
    bytes
}

#[test]
fn pictures_are_decoded() {
    let (width, height, pixels) = picture(&bitmap()).unwrap();
    assert_eq!((width, height), (2, 1));
    assert_eq!(pixels, vec![255, 0, 0, 255, 1, 2, 3, 255]);
    assert!(picture(&vec![]).is_none());
    assert!(picture(&b"no picture".to_vec()).is_none());
    assert!(picture(&bitmap()[..40].to_vec()).is_none());
}

#[test]
fn transparent_picture_keeps_its_alpha() {
    let raw = vec![9, 8, 7, 6, 5, 4, 3, 2];
    let drawn = image::RgbaImage::from_raw(1, 2, raw.clone()).unwrap();
    let mut file = std::io::Cursor::new(Vec::new());
    drawn.write_to(&mut file, image::ImageFormat::Png).unwrap();
    assert_eq!(picture(&file.into_inner()).unwrap(), (1, 2, raw));
}

#[test]
fn fetched_logo_replaces_the_copy() {
    let old = b"old".to_vec();
    let fresh = bitmap();
    let step = on_logo(200, Some(&old), &fresh);
    assert!(step.write);
    assert_eq!(step.show.unwrap().0, 2);
    assert!(on_logo(200, None, &fresh).write);
    let step = on_logo(200, Some(&fresh), &fresh);
    assert!(!step.write && step.show.is_none());
    let step = on_logo(404, None, &fresh);
    assert!(!step.write && step.show.is_none());
    // What is no picture is kept all the same.
    let step = on_logo(299, Some(&fresh), &old);
    assert!(step.write && step.show.is_none());
}

#[test]
fn logo_key_ignores_the_token() {
    let key = "http://host:9981/imagecache/7167";
    assert_eq!(cache_key("http://host:9981/imagecache/7167?auth=a").unwrap(), key);
    assert_eq!(cache_key("http://host:9981/imagecache/7167?auth=b?c").unwrap(), key);
    assert_eq!(cache_key(key).unwrap(), key);
    assert_eq!(cache_key(""), None);
    assert_eq!(cache_key("?auth=a"), None);
}

#[test]
fn hash_is_fnv() {
    assert_eq!(hash_key(""), 0xcbf2_9ce4_8422_2325);
    assert_eq!(hash_key("a"), 0xaf63_dc4c_8601_ec8c);
    assert_eq!(hash_key("foobar"), 0x8594_4171_f739_67e8);
}

#[test]
fn logo_is_updated_when_it_changed() {
    assert!(needs_update(None, &vec![]));
    assert!(!needs_update(Some(&vec![1, 2]), &vec![1, 2]));
    assert!(needs_update(Some(&vec![1, 2]), &vec![1, 3]));
    assert!(needs_update(Some(&vec![1, 2]), &vec![1, 2, 3]));
}

#[test]
fn logos_are_those_of_channels_that_have_one() {
    let channel = |logo: &str| Channel {
        channel_id: String::new(),
        number: String::new(),
        name: String::new(),
        logo_url: logo.to_string(),
        stream_url: String::new(),
    };
    let pairs = logo_pairs(&vec![channel("u?x"), channel(""), channel("v")]);
    assert_eq!(
        pairs,
        vec![("u".to_string(), "u?x".to_string()), ("v".to_string(), "v".to_string())]
    );
}

#[test]
fn names_of_files_are_safe() {
    assert_eq!(sanitize_for_path("server-1_A/..\\č:"), "server-1_A______");
    assert_eq!(sanitize_for_path(&sanitize_for_path("a b")), "a_b");
}

fn at(l: Option<Location>) -> Option<(Root, Vec<String>)> {
    l.map(|l| (l.root, l.parts))
}

fn parts(names: &[&str]) -> Vec<String> {
    names.iter().map(|n| n.to_string()).collect()
}

#[test]
fn files_have_their_places() {
    assert_eq!(at(config_dir(true, true)), Some((Root::AppData, parts(&["tvh-client"]))));
    assert_eq!(at(config_dir(false, true)), Some((Root::Home, parts(&[".config", "tvh-client"]))));
    assert_eq!(at(config_dir(false, false)), None);
    assert_eq!(
        at(settings_file(true, false)),
        Some((Root::AppData, parts(&["tvh-client", "settings.json"])))
    );
    assert_eq!(
        at(guide_file(false, true, "server-a/b")),
        Some((Root::Home, parts(&[".config", "tvh-client", "epg", "server-a_b.json"])))
    );
    assert_eq!(
        at(logo_file(true, false, "s 1", "a")),
        Some((Root::AppData, parts(&["tvh-client", "logos", "s_1", "af63dc4c8601ec8c"])))
    );
    assert_eq!(at(logo_file(false, false, "s", "a")), None);
    let d = downloads_dir(true, true);
    assert_eq!((d.root, d.parts), (Root::UserProfile, parts(&["Videos", "TVH Client Nahrávky"])));
    let d = downloads_dir(false, true);
    assert_eq!((d.root, d.parts), (Root::Home, parts(&["Videos", "TVH Client Nahrávky"])));
    let d = downloads_dir(false, false);
    assert_eq!((d.root, d.parts), (Root::Current, parts(&["TVH Client Nahrávky"])));
}
