use tvh_client::autorec::{day_label, rule_row, weekdays_label, AutorecEdit};
use tvh_client::downloads::Downloads;
use tvh_client::epg::Offsets;
use tvh_client::guide::Poll;
use tvh_client::json::Json;
use tvh_client::panel::{
    download_click, finished_label, finished_rows, is_recording, loading_error, play_click,
    row_file, scheduled_message, upcoming_label, upcoming_rows, DownloadClick, Panel, PanelView,
    PlayClick, RowFile,
};
use tvh_client::recordings::RecordingsData;
use tvh_client::text_map::TextMap;
use tvh_client::tvh::{Channel, DvrEntry};
use tvh_client::ui::RecordingsTab;

fn rule(days: Option<Vec<i64>>) -> Json {
    let mut v = Json::Object(TextMap::new());
    v.set("uuid", Json::Text("r1".to_string()));
    v.set("title", Json::Text("News".to_string()));
    v.set("channel", Json::Text("c1".to_string()));
    v.set("other", Json::Int(5));
    if let Some(days) = days {
        v.set("weekdays", Json::Array(days.into_iter().map(Json::Int).collect()));
    }
    v
}

fn channels() -> Vec<Channel> {
    vec![Channel {
        channel_id: "c1".to_string(),
        number: "1".to_string(),
        name: "ČT1".to_string(),
        logo_url: String::new(),
        stream_url: String::new(),
    }]
}

#[test]
fn weekdays_have_names() {
    let names: Vec<&str> = (1..=7).map(day_label).collect();
    assert_eq!(names, vec!["Po", "Út", "St", "Čt", "Pá", "So", "Ne"]);
    assert_eq!(weekdays_label(&rule(Some(vec![5, 1]))), "Pá Po");
    assert_eq!(weekdays_label(&rule(Some(vec![0, 8]))), "každý den");
    assert_eq!(weekdays_label(&rule(Some(vec![]))), "každý den");
    assert_eq!(weekdays_label(&rule(None)), "každý den");
}

#[test]
fn rules_are_listed() {
    let row = rule_row(&rule(Some(vec![1, 2])), &channels());
    assert_eq!((row.uuid.as_str(), row.title.as_str(), row.enabled), ("r1", "News", true));
    assert_eq!(row.details, "ČT1  •  Po Út");
    let mut other = rule(None);
    other.set("channel", Json::Text("gone".to_string()));
    other.set("enabled", Json::Bool(false));
    other.set("title", Json::Text(String::new()));
    let row = rule_row(&other, &channels());
    assert_eq!((row.title.as_str(), row.enabled), ("(bez názvu)", false));
    assert_eq!(row.details, "neznámý kanál  •  každý den");
    let row = rule_row(&Json::Null, &channels());
    assert_eq!(row.details, "kterýkoliv kanál  •  každý den");
    assert_eq!(row.uuid, "");
}

#[test]
fn rule_is_edited_and_keeps_the_rest() {
    let mut f = AutorecEdit::from_value(rule(Some(vec![1, 7])));
    assert_eq!(f.weekdays, vec![true, false, false, false, false, false, true]);
    assert_eq!((f.title.as_str(), f.enabled, f.channel.as_str()), ("News", true, "c1"));
    assert_eq!(f.channel_label(&channels()), "ČT1");
    f.title = "Film".to_string();
    f.enabled = false;
    f.channel = String::new();
    f.weekdays = vec![false, true, false, false, false, false, false];
    assert_eq!(f.channel_label(&channels()), "Kterýkoliv");
    f.save(true);
    assert!(f.saving && f.waiting);
    assert_eq!(f.node.get_text("title"), Some("Film"));
    assert_eq!(f.node.get_bool("enabled"), Some(false));
    assert_eq!(f.node.get_text("channel"), Some(""));
    assert_eq!(weekdays_label(&f.node), "Út");
    assert_eq!(f.node.get_text("uuid"), Some("r1"));
    assert!(matches!(f.node.get("other"), Some(Json::Int(5))));
    // What was saved is what the form shows next.
    let again = AutorecEdit::from_value(f.node);
    assert_eq!((again.title.as_str(), again.enabled, again.channel.as_str()), ("Film", false, ""));
    assert_eq!(again.weekdays, f.weekdays);
}

#[test]
fn rule_without_weekdays_is_for_every_day() {
    let f = AutorecEdit::from_value(rule(None));
    assert_eq!(f.weekdays, vec![true; 7]);
    let f = AutorecEdit::from_value(rule(Some(vec![])));
    assert_eq!(f.weekdays, vec![true; 7]);
    // No weekday at all is read back as every day.
    let mut f = AutorecEdit::from_value(rule(Some(vec![1])));
    f.weekdays = vec![false; 7];
    f.save(false);
    assert!(!f.saving);
    assert_eq!(AutorecEdit::from_value(f.node).weekdays, vec![true; 7]);
}

fn entry(uuid: &str, start: i64) -> DvrEntry {
    DvrEntry {
        uuid: uuid.to_string(),
        disp_title: format!("T/{uuid}"),
        disp_subtitle: String::new(),
        disp_extratext: String::new(),
        channelname: "ČT1".to_string(),
        start,
        stop: start + 3600,
        status: String::new(),
        sched_status: "scheduled".to_string(),
        filesize: 2048,
        url: String::new(),
        filename: "/v/x.mkv".to_string(),
        errors: 0,
        errorcode: 0,
    }
}

fn data() -> RecordingsData {
    RecordingsData {
        upcoming: vec![entry("u2", 20), entry("u1", 10), entry("u3", 20)],
        finished: vec![entry("f1", 10), entry("f3", 30)],
        failed: vec![entry("x2", 20), entry("x3", 30)],
        autorec: vec![],
        urls: TextMap::new(),
    }
}

#[test]
fn recordings_are_listed_by_time() {
    let rows = finished_rows(&data());
    let shown: Vec<(&str, bool)> = rows.iter().map(|r| (r.entry.uuid.as_str(), r.failed)).collect();
    assert_eq!(shown, vec![("f3", false), ("x3", true), ("x2", true), ("f1", false)]);
    let rows = upcoming_rows(&data());
    let shown: Vec<&str> = rows.iter().map(|e| e.uuid.as_str()).collect();
    assert_eq!(shown, vec!["u1", "u2", "u3"]);
}

#[test]
fn recordings_are_labelled() {
    let mut e = entry("a", 0);
    assert_eq!(upcoming_label(&e, Offsets { start: 0, stop: 0 }), "ČT1  •  00:00–01:00");
    assert_eq!(finished_label(&e, Offsets { start: 3600, stop: 3600 }), "ČT1  •  01:00–02:00  •  2.00 KB");
    assert!(!is_recording(&e));
    e.sched_status = "recording".to_string();
    assert!(is_recording(&e));
    assert_eq!(scheduled_message(true), "Opakující se nahrávání bylo vytvořeno.");
    assert_eq!(scheduled_message(false), "Nahrávání bylo naplánováno.");
    assert_eq!(loading_error("e"), "Načtení nahrávek selhalo: e");
}

#[test]
fn file_of_a_recording() {
    let mut urls = TextMap::new();
    urls.insert("a", "u".to_string());
    let mut d = Downloads::new();
    assert!(matches!(row_file("a", &urls, &d), RowFile::Available(u) if u == "u"));
    assert!(matches!(row_file("b", &urls, &d), RowFile::Missing));
    d.start("a");
    assert!(matches!(row_file("a", &urls, &d), RowFile::Downloading(s) if s.downloaded == 0));
}

#[test]
fn clicks_on_a_recording() {
    let e = entry("a", 0);
    match download_click("  ", &e) {
        DownloadClick::ChooseFolder(m) => {
            assert_eq!(m, "Nejprve nastav složku pro stahování nahrávek.")
        }
        DownloadClick::Start { .. } => panic!("no folder is set"),
    }
    match download_click(" dir ", &e) {
        DownloadClick::Start { folder, name } => {
            assert_eq!((folder.as_str(), name.as_str()), ("dir", "T_a.mkv"))
        }
        DownloadClick::ChooseFolder(_) => panic!("a folder is set"),
    }
    match play_click(true, &e) {
        PlayClick::Embedded { title, name } => {
            assert_eq!((title.as_str(), name.as_str()), ("T/a", "T_a.mkv"))
        }
        PlayClick::External => panic!("there is a player"),
    }
    assert!(matches!(play_click(false, &e), PlayClick::External));
}

#[test]
fn panel_loads_once() {
    let mut p = Panel::new();
    assert!(p.needs_loading());
    assert_eq!(p.view(false), PanelView::NotConnected);
    assert_eq!(p.view(true), PanelView::Loading);
    p.refresh();
    assert!(p.loading && !p.needs_loading());
    p.on_data(Poll::Empty);
    assert!(p.loading);
    p.on_data(Poll::Ready(Ok(data())));
    assert!(!p.loading && !p.needs_loading());
    p.tab = RecordingsTab::Autorec;
    assert_eq!(p.view(true), PanelView::List(RecordingsTab::Autorec));
    // A failed refresh keeps the lists.
    p.refresh();
    p.on_data(Poll::Ready(Err("off".to_string())));
    assert_eq!(p.error.as_deref(), Some("off"));
    assert!(p.data.is_some());
    p.refresh();
    p.on_data(Poll::Closed);
    assert!(!p.loading && p.error.is_none());
}

#[test]
fn actions_load_the_lists_anew() {
    let mut p = Panel::new();
    p.data = Some(data());
    p.acting = true;
    p.on_action(Poll::Empty);
    assert!(p.acting);
    p.on_action(Poll::Ready(Err("e".to_string())));
    assert!(!p.acting && p.data.is_some());
    assert_eq!(p.message.as_deref(), Some("Akce selhala: e"));
    p.acting = true;
    p.on_action(Poll::Ready(Ok(())));
    assert!(!p.acting && p.data.is_none() && p.needs_loading());
    p.acting = true;
    p.on_action(Poll::Closed);
    assert!(!p.acting);
    p.say(None);
    assert_eq!(p.message.as_deref(), Some("Akce selhala: e"));
    p.say(Some("m".to_string()));
    assert_eq!(p.message.as_deref(), Some("m"));
}

#[test]
fn rule_is_saved() {
    let mut p = Panel::new();
    p.data = Some(data());
    p.on_saved(Poll::Ready(Ok(())));
    assert!(p.data.is_some() && p.message.is_none());
    let mut f = AutorecEdit::from_value(rule(None));
    f.save(true);
    p.edit = Some(f);
    p.on_saved(Poll::Empty);
    assert!(p.edit.as_ref().unwrap().saving);
    p.on_saved(Poll::Ready(Err("e".to_string())));
    assert_eq!(p.edit.as_ref().unwrap().error.as_deref(), Some("e"));
    assert!(!p.edit.as_ref().unwrap().saving);
    p.edit.as_mut().unwrap().save(true);
    p.on_saved(Poll::Closed);
    assert_eq!(
        p.edit.as_ref().unwrap().error.as_deref(),
        Some("Spojení s vláknem bylo přerušeno.")
    );
    p.edit.as_mut().unwrap().save(true);
    p.on_saved(Poll::Ready(Ok(())));
    assert!(p.edit.is_none() && p.data.is_none());
    assert_eq!(p.message.as_deref(), Some("Pravidlo bylo uloženo."));
}
