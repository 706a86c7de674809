use tvh_client::json::Json;
use tvh_client::loading::{Connecting, Fetching};
use tvh_client::tvh::{AdminChannel, Channel, DvrEntry, ServerInfo, TvhClient, TvhError};

const LIST: &str = "#EXTM3U\n\
#EXTINF:-1 tvg-id=\"b\" tvg-chno=\"2\",B\nhttp://h/b\n\
#EXTINF:-1 tvg-id=\"x\",No number\nhttp://h/x\n\
#EXTINF:-1 tvg-id=\"a\" tvg-chno=\"1\",A\nhttp://h/a\n";

fn client(user: &str) -> TvhClient {
    TvhClient::new("h:9981", user, "").unwrap()
}

fn info() -> ServerInfo {
    ServerInfo { sw_version: None, api_version: None, name: Some("N".to_string()) }
}

fn error(text: &str) -> TvhError {
    TvhError::Request(text.to_string())
}

fn path(c: &Connecting, client: &TvhClient, tags: &Vec<String>) -> Option<String> {
    c.request(client, tags).map(|r| r.path)
}

fn ids(channels: &[Channel]) -> Vec<&str> {
    channels.iter().map(|c| c.channel_id.as_str()).collect()
}

#[test]
fn connection_without_tags() {
    let (cl, tags) = (client(""), vec![]);
    let c = Connecting::Info;
    assert_eq!(path(&c, &cl, &tags).unwrap(), "api/serverinfo");
    let c = c.on_info(Ok(info()));
    assert_eq!(path(&c, &cl, &tags).unwrap(), "playlist/channels");
    let c = c.on_playlist(&cl, Ok(LIST.to_string()));
    assert!(path(&c, &cl, &tags).is_none());
    assert_eq!(c.numbers().unwrap(), vec!["2".to_string(), "1".to_string()]);
    // Ranks that do not fit are passed over.
    let c = c.on_ranks(vec![1], &tags);
    assert!(c.numbers().is_some());
    let c = c.on_ranks(vec![20, 10], &tags);
    let (info, channels) = c.outcome().unwrap().unwrap();
    assert_eq!(info.name.as_deref(), Some("N"));
    assert_eq!(ids(&channels), vec!["a", "b"]);
}

#[test]
fn connection_with_tags() {
    let (cl, tags) = (client("u"), vec!["t".to_string()]);
    let c = Connecting::Info.on_info(Ok(info()));
    assert_eq!(path(&c, &cl, &tags).unwrap(), "playlist/auth/channels");
    // An old server has no such path.
    let c = c.on_playlist(&cl, Err(error("404")));
    assert_eq!(path(&c, &cl, &tags).unwrap(), "playlist/channels");
    let c = c.on_playlist(&cl, Ok(LIST.to_string())).on_ranks(vec![2, 1], &tags);
    assert_eq!(path(&c, &cl, &tags).unwrap(), "api/channel/grid?limit=100000");
    let grid = vec![
        AdminChannel { uuid: "a".to_string(), tags: vec!["other".to_string()] },
        AdminChannel { uuid: "b".to_string(), tags: vec!["other".to_string(), "t".to_string()] },
    ];
    let (_, channels) = c.on_tags(Ok(grid), &tags).outcome().unwrap().unwrap();
    assert_eq!(ids(&channels), vec!["b"]);
}

#[test]
fn connection_fails() {
    let (cl, tags) = (client("u"), vec!["t".to_string()]);
    let c = Connecting::Info.on_info(Err(TvhError::AuthFailed));
    assert!(path(&c, &cl, &tags).is_none());
    assert_eq!(
        c.outcome().unwrap().unwrap_err(),
        "Přihlášení se nezdařilo (špatné jméno/heslo?)"
    );
    let c = Connecting::Info
        .on_info(Ok(info()))
        .on_playlist(&cl, Err(error("one")))
        .on_playlist(&cl, Err(error("two")));
    assert_eq!(c.outcome().unwrap().unwrap_err(), "Chyba spojení: two");
    // Without credentials there is no second try.
    let c = Connecting::Info.on_info(Ok(info())).on_playlist(&client(""), Err(error("one")));
    assert_eq!(c.outcome().unwrap().unwrap_err(), "Chyba spojení: one");
    let c = Connecting::Info.on_info(Ok(info())).on_playlist(&cl, Ok("html".to_string()));
    assert!(matches!(c.outcome(), Some(Err(_))));
    let c = Connecting::Info
        .on_info(Ok(info()))
        .on_playlist(&cl, Ok(LIST.to_string()))
        .on_ranks(vec![1, 2], &tags)
        .on_tags(Err(error("grid")), &tags);
    assert_eq!(c.outcome().unwrap().unwrap_err(), "Chyba spojení: grid");
    // A reply that nobody asked for changes nothing.
    let c = Connecting::Info.on_ranks(vec![], &tags).on_tags(Ok(vec![]), &tags);
    assert!(matches!(c, Connecting::Info));
    assert!(c.numbers().is_none() && c.outcome().is_none());
}

fn entry(uuid: &str) -> DvrEntry {
    DvrEntry {
        uuid: uuid.to_string(),
        disp_title: String::new(),
        disp_subtitle: String::new(),
        disp_extratext: String::new(),
        channelname: String::new(),
        start: 0,
        stop: 0,
        status: String::new(),
        sched_status: String::new(),
        filesize: 0,
        url: String::new(),
        filename: String::new(),
        errors: 0,
        errorcode: 0,
    }
}

#[test]
fn lists_are_fetched_in_turn() {
    let cl = client("u");
    let next = |f: &Fetching| f.request(&cl).map(|r| r.path);
    let f = Fetching::Upcoming;
    assert_eq!(next(&f).unwrap(), "api/dvr/entry/grid_upcoming?limit=100000");
    let f = f.on_entries(Ok(vec![entry("a")]));
    assert_eq!(next(&f).unwrap(), "api/dvr/entry/grid_finished?limit=100000");
    let f = f.on_entries(Ok(vec![entry("b"), entry("c")]));
    assert_eq!(next(&f).unwrap(), "api/dvr/entry/grid_failed?limit=100000");
    let f = f.on_entries(Ok(vec![]));
    assert_eq!(next(&f).unwrap(), "api/dvr/autorec/grid?limit=100000");
    let f = f.on_rules(Ok(vec![Json::Null]));
    assert_eq!(next(&f).unwrap(), "playlist/auth/recordings");
    let f = f.on_urls(&cl, Err(error("404")));
    assert_eq!(next(&f).unwrap(), "playlist/recordings");
    let f = f.on_urls(&cl, Ok("http://h/dvrfile/b?ticket=1\n".to_string()));
    assert!(next(&f).is_none());
    let d = f.outcome().unwrap().unwrap();
    assert_eq!(d.upcoming[0].uuid, "a");
    assert_eq!((d.finished.len(), d.failed.len(), d.autorec.len()), (2, 0, 1));
    assert_eq!(d.urls.get("b").unwrap(), "http://h/dvrfile/b?ticket=1");
}

#[test]
fn missing_urls_are_no_failure_but_a_missing_list_is() {
    let cl = client("u");
    let lists = || {
        Fetching::Upcoming
            .on_entries(Ok(vec![entry("a")]))
            .on_entries(Ok(vec![]))
            .on_entries(Ok(vec![]))
            .on_rules(Ok(vec![]))
    };
    let f = lists().on_urls(&cl, Err(error("1"))).on_urls(&cl, Err(error("2")));
    let d = f.outcome().unwrap().unwrap();
    assert_eq!((d.upcoming.len(), d.urls.len()), (1, 0));
    // Without credentials there is no second try.
    assert!(matches!(lists().on_urls(&client(""), Err(error("1"))), Fetching::Complete(_)));
    let f = Fetching::Upcoming.on_entries(Ok(vec![])).on_entries(Err(error("second")));
    let f = f.on_entries(Err(error("third"))).on_rules(Ok(vec![])).on_urls(&cl, Ok(String::new()));
    assert_eq!(f.outcome().unwrap().unwrap_err(), "Chyba spojení: second");
    let f = Fetching::Upcoming.on_entries(Ok(vec![])).on_entries(Ok(vec![]));
    let f = f.on_entries(Ok(vec![])).on_rules(Err(TvhError::AuthFailed));
    assert!(matches!(f.outcome(), Some(Err(_))));
    assert!(Fetching::Upcoming.outcome().is_none());
}
