use tvh_client::epg::{group_by_channel, EpgProgress, Offsets};
use tvh_client::guide::{
    channel_label, event_label, hover_label, is_found, next_label, search, Guide, GuideTab, Poll,
    Timeline,
};
use tvh_client::text_map::TextMap;
use tvh_client::tv::{channel_info, on_air, server_lines, ChannelInfo};
use tvh_client::tvh::{Channel, EpgEvent, ServerInfo};

fn channel(id: &str, number: &str, name: &str) -> Channel {
    Channel {
        channel_id: id.to_string(),
        number: number.to_string(),
        name: name.to_string(),
        logo_url: String::new(),
        stream_url: String::new(),
    }
}

fn event(uuid: &str, start: i64, stop: i64) -> EpgEvent {
    EpgEvent {
        event_id: start,
        channel_uuid: uuid.to_string(),
        start,
        stop,
        title: format!("t{start}"),
        subtitle: None,
        summary: Some("about".to_string()),
        description: None,
    }
}

fn both(offset: i32) -> Offsets {
    Offsets { start: offset, stop: offset }
}

fn shown(c: &Channel, g: &Guide, now: i64) -> ChannelInfo {
    let (on, after) = on_air(c, g, now);
    channel_info(c, on.map(|e| (e, both(0))), after.map(|e| (e, both(0))), now)
}

fn page(events: Vec<EpgEvent>, loaded: usize, total: usize) -> Poll<Result<EpgProgress, String>> {
    Poll::Ready(Ok(EpgProgress { events, loaded, total }))
}

#[test]
fn guide_takes_in_pages() {
    let channels = vec![channel("a", "1", "A")];
    let mut g = Guide::new();
    assert_eq!(g.tab(&vec![]), GuideTab::NotConnected);
    assert_eq!(g.tab(&channels), GuideTab::Loading);
    g.refresh();
    assert!(g.waiting);
    assert_eq!(
        g.loading_label(),
        "Načítám EPG... (u velkých instalací TVHeadend to může chvíli trvat)"
    );
    g.on_message(page(vec![], 0, 7));
    assert_eq!(g.tab(&channels), GuideTab::Loading);
    assert_eq!(g.loading_label(), "Načítám EPG... (0 z 7)");
    g.on_message(page(vec![event("a", 5, 6), event("a", 1, 2)], 2, 7));
    assert_eq!(g.tab(&channels), GuideTab::Grid);
    assert_eq!(g.more_label().unwrap(), "Načítám další data EPG... (2 z 7)");
    let starts: Vec<i64> = g.events.get("a").unwrap().iter().map(|e| e.start).collect();
    assert_eq!(starts, vec![1, 5]);
    g.on_message(page(vec![event("a", 1, 2)], 7, 7));
    assert!(g.more_label().is_none());
    g.on_message(Poll::Empty);
    assert!(g.waiting);
    g.on_message(Poll::Closed);
    assert!(!g.waiting);
}

#[test]
fn guide_keeps_what_it_has_when_a_refresh_fails() {
    let channels = vec![channel("a", "1", "A")];
    let mut g = Guide::new();
    g.on_message(Poll::Ready(Err("off".to_string())));
    assert_eq!(g.tab(&channels), GuideTab::Failed);
    assert_eq!(g.progress, Some((0, 0)));
    g.on_message(page(vec![event("a", 1, 2)], 1, 1));
    assert!(g.stale_label().is_none());
    g.refresh();
    assert_eq!(g.tab(&channels), GuideTab::Grid);
    g.on_message(Poll::Ready(Err("off".to_string())));
    assert_eq!(g.tab(&channels), GuideTab::Grid);
    assert_eq!(
        g.stale_label().unwrap(),
        "Poslední obnovení EPG selhalo (off) - zobrazuji starší data."
    );
    let mut g = Guide::new();
    g.on_message(page(vec![], 0, 0));
    assert_eq!(g.tab(&channels), GuideTab::NoData);
}

#[test]
fn search_ignores_case() {
    let channels = vec![
        channel("a", "1", "ČT1"),
        channel("b", "21", "Nova"),
        channel("c", "3", "Čtení"),
    ];
    assert_eq!(search("", &channels, true), vec![0, 1, 2]);
    assert_eq!(search("čt", &channels, false), vec![0, 2]);
    assert_eq!(search("1", &channels, true), vec![0, 1]);
    assert_eq!(search("1", &channels, false), vec![0]);
    assert_eq!(search("x", &channels, true), Vec::<usize>::new());
    assert!(is_found("", "a", "1", false));
    assert!(is_found("1", "a", "21", true));
    assert!(!is_found("1", "a", "21", false));
}

#[test]
fn timeline_covers_all_events() {
    let none: TextMap<Vec<EpgEvent>> = TextMap::new();
    let t = Timeline::of(&none, 1000);
    assert_eq!((t.start, t.end), (1000, 1000 + 10800));
    let m = group_by_channel(vec![event("a", 500, 900), event("a", 900, 2000), event("b", 700, 50000)]);
    let t = Timeline::of(&m, 1000);
    assert_eq!((t.start, t.end), (500, 50000));
    assert_eq!(t.span(), 49500);
    assert_eq!(Timeline { start: 10, end: 20 }.span(), 60);
}

#[test]
fn ruler_has_the_full_hours() {
    assert_eq!(Timeline { start: 3700, end: 10800 }.ticks(), vec![3600, 7200]);
    assert_eq!(Timeline { start: 3600, end: 10801 }.ticks(), vec![3600, 7200, 10800]);
    assert_eq!(Timeline { start: -10, end: 1 }.ticks(), vec![-3600, 0]);
    assert_eq!(Timeline { start: 10, end: 0 }.ticks(), Vec::<i64>::new());
}

#[test]
fn blocks_lie_on_the_timeline() {
    let t = Timeline { start: 100, end: 200 };
    let b = t.blocks(
        &vec![event("a", 0, 100), event("a", 50, 120), event("a", 120, 300), event("a", 200, 300)],
        120,
    );
    let shown: Vec<(usize, i128, i128, bool)> =
        b.iter().map(|b| (b.place, b.from, b.to, b.current)).collect();
    assert_eq!(shown, vec![(1, 0, 20, false), (2, 20, 100, true)]);
}

#[test]
fn labels_of_the_guide() {
    let e = event("a", 0, 5400);
    assert_eq!(channel_label(&channel("a", "1", "ČT1")), "1  ČT1");
    assert_eq!(event_label(&e, both(3600)), "t0  (01:00–02:30)");
    assert_eq!(next_label(&e, both(0)), "Další: t0  (00:00–01:30)");
    assert_eq!(hover_label(&e, both(0)), "00:00–01:30  t0");
    // The clocks are set forward while it is on.
    assert_eq!(hover_label(&e, Offsets { start: 3600, stop: 7200 }), "01:00–03:30  t0");
}

#[test]
fn channel_shows_what_is_on() {
    let c = channel("a", "1", "ČT1");
    let mut g = Guide::new();
    let i = shown(&c, &g, 50);
    assert_eq!(i.label, "1  ČT1");
    assert!(i.current.is_none() && i.next.is_none());
    g.on_message(page(vec![event("a", 0, 3600), event("a", 3600, 7200)], 2, 2));
    let i = shown(&c, &g, 60);
    let on = i.current.unwrap();
    assert_eq!(on.label, "t0  (00:00–01:00)");
    assert_eq!(on.synopsis.as_deref(), Some("about"));
    assert_eq!((on.progress.elapsed, on.progress.span), (60, 3600));
    assert_eq!(i.next.unwrap(), "Další: t3600  (01:00–02:00)");
    let i = shown(&c, &g, 4000);
    assert!(i.current.is_some() && i.next.is_none());
    // Nothing is on: the next programme is not shown either.
    let i = shown(&c, &g, -5);
    assert!(i.current.is_none() && i.next.is_none());
}

#[test]
fn server_is_described() {
    let info = ServerInfo { sw_version: Some("4.3".to_string()), api_version: Some(19), name: None };
    assert_eq!(
        server_lines(&info),
        vec!["Verze TVHeadend: 4.3".to_string(), "API verze: 19".to_string()]
    );
    let info = ServerInfo { sw_version: None, api_version: None, name: None };
    assert!(server_lines(&info).is_empty());
}
