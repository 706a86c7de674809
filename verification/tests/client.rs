use tvh_client::json::Json;
use tvh_client::tvh::digest::{Algorithm, NonceSeed};
use tvh_client::tvh::{
    autorec_conf, default_config_uuid, dvrfile_uuid, filter_by_tags, finish, grid_entries,
    normalize, read_channels, read_dvr_urls, request_target, sort_channels, target, usable_events,
    AdminChannel, Channel, ChannelTag, DvrConfig, DvrEntry, EpgEvent, Method, Playlist, Request,
    Step, TvhClient, TvhError,
};
use tvh_client::text_map::TextMap;

fn client(user: &str, password: &str) -> TvhClient {
    TvhClient::new("192.168.0.10:9981", user, password).unwrap()
}

fn channel(id: &str, number: &str) -> Channel {
    Channel {
        channel_id: id.to_string(),
        number: number.to_string(),
        name: format!("name {id}"),
        logo_url: String::new(),
        stream_url: String::new(),
    }
}

fn event(uuid: &str, start: i64, stop: i64) -> EpgEvent {
    EpgEvent {
        event_id: 0,
        channel_uuid: uuid.to_string(),
        start,
        stop,
        title: String::new(),
        subtitle: None,
        summary: None,
        description: None,
    }
}

fn seed() -> NonceSeed {
    NonceSeed { nanos: 1, count: 2, thread: "t".to_string() }
}

#[test]
fn address_needs_neither_scheme_nor_slash() {
    let expected = "http://192.168.0.10:9981/";
    for form in [
        "192.168.0.10:9981",
        "192.168.0.10:9981/",
        "http://192.168.0.10:9981",
        "http://192.168.0.10:9981/",
        "  192.168.0.10:9981\t\n",
    ] {
        assert_eq!(normalize(form).unwrap(), expected);
    }
    assert_eq!(normalize(expected).unwrap(), expected);
    assert_eq!(normalize("https://tv.example").unwrap(), "https://tv.example/");
    assert_eq!(normalize("HTTP://x").unwrap(), "http://HTTP://x/");
    assert!(normalize("  ").is_none());
}

#[test]
fn blank_address_is_an_error() {
    let e = TvhClient::new("   ", "u", "p").unwrap_err();
    assert!(matches!(e, TvhError::InvalidUrl(_)));
    assert_eq!(e.message(), "Neplatná adresa serveru: adresa je prázdná");
}

#[test]
fn address_that_is_no_url_is_an_error() {
    let e = TvhClient::new("http://[::1", "u", "p").unwrap_err();
    match &e {
        TvhError::InvalidUrl(s) => assert_eq!(s, "invalid IPv6 address"),
        _ => panic!("another error"),
    }
    assert!(TvhClient::new("host:99999", "", "").is_err());
    let made = TvhClient::from_parts("http://x/".to_string(), "u", "p", 5, Err("no".to_string()));
    assert_eq!(made.unwrap_err().message(), "Neplatná adresa serveru: no");
}

#[test]
fn timeout_is_ten_seconds_unless_chosen() {
    assert_eq!(client("", "").timeout_secs(), 10);
    assert_eq!(TvhClient::with_timeout("h", "", "", 60).unwrap().timeout_secs(), 60);
}

#[test]
fn errors_are_told() {
    assert_eq!(TvhError::Request("x".into()).message(), "Chyba spojení: x");
    assert_eq!(
        TvhError::AuthFailed.message(),
        "Přihlášení se nezdařilo (špatné jméno/heslo?)"
    );
    assert_eq!(
        TvhError::Parse("x".into()).message(),
        "Nepodařilo se zpracovat odpověď serveru: x"
    );
    assert_eq!(
        TvhError::Http { status: 404, body: "gone".into() }.message(),
        "Server odpověděl chybou 404: gone"
    );
    let long = "č".repeat(300);
    assert_eq!(
        TvhError::Http { status: 500, body: long.clone() }.message(),
        format!("Server odpověděl chybou 500: {}", "č".repeat(200))
    );
}

#[test]
fn success_gives_the_body() {
    assert_eq!(finish(200, Ok("b".into())).unwrap(), "b");
    assert_eq!(finish(299, Ok("b".into())).unwrap(), "b");
    assert!(matches!(finish(204, Err("cut".into())), Err(TvhError::Request(e)) if e == "cut"));
    assert!(
        matches!(finish(300, Ok("b".into())), Err(TvhError::Http { status: 300, body }) if body == "b")
    );
    assert!(
        matches!(finish(199, Err("x".into())), Err(TvhError::Http { status: 199, body }) if body.is_empty())
    );
}

#[test]
fn target_is_path_and_query() {
    assert_eq!(request_target("http://h:1/a/b?c=d&e"), "/a/b?c=d&e");
    assert_eq!(request_target("http://h:1"), "/");
    assert_eq!(request_target("http://h/a b"), "/a%20b");
    assert_eq!(request_target("not a url"), "not a url");
    assert_eq!(target("u", Ok(("/p".into(), Some("q".into())))), "/p?q");
    assert_eq!(target("u", Ok(("/p".into(), None))), "/p");
    assert_eq!(target("u", Err("e".into())), "u");
}

#[test]
fn url_of_a_request_is_below_the_address() {
    let c = client("", "");
    assert_eq!(c.url(&c.server_info()), "http://192.168.0.10:9981/api/serverinfo");
}

#[test]
fn first_401_is_answered() {
    let c = client("u", "p");
    let r = c.server_info();
    let header = "Digest realm=\"r\", nonce=\"n\", qop=\"auth\"";
    match c.on_status(&r, false, 401, Some(header), &seed()) {
        Step::Retry(a) => {
            let ha1 = Algorithm::Md5.hash("u:r:p");
            let ha2 = Algorithm::Md5.hash("GET:/api/serverinfo");
            let cnonce = &Algorithm::Sha256.hash("1-2-t")[..20];
            let response =
                Algorithm::Md5.hash(&format!("{ha1}:n:00000001:{cnonce}:auth:{ha2}"));
            assert!(a.contains(&format!("response=\"{response}\"")));
            assert!(a.contains("uri=\"/api/serverinfo\""));
        }
        _ => panic!("not answered"),
    }
}

#[test]
fn post_is_answered_as_a_post() {
    let c = client("u", "p");
    let r = c.dvr_cancel("x");
    match c.on_status(&r, false, 401, Some("Digest realm=\"r\", nonce=\"n\""), &seed()) {
        Step::Retry(a) => {
            let ha1 = Algorithm::Md5.hash("u:r:p");
            let ha2 = Algorithm::Md5.hash("POST:/api/dvr/entry/cancel");
            let cnonce = &Algorithm::Sha256.hash("1-2-t")[..20];
            let response =
                Algorithm::Md5.hash(&format!("{ha1}:n:00000001:{cnonce}:auth:{ha2}"));
            assert!(a.contains(&format!("response=\"{response}\"")));
        }
        _ => panic!("not answered"),
    }
}

#[test]
fn a_request_is_retried_only_once() {
    let c = client("u", "p");
    let r = c.server_info();
    let header = Some("Basic realm=\"r\"");
    assert!(matches!(c.on_status(&r, false, 401, header, &seed()), Step::Retry(_)));
    assert!(matches!(c.on_status(&r, true, 401, header, &seed()), Step::ReadBody));
    assert!(matches!(c.on_status(&r, false, 403, header, &seed()), Step::ReadBody));
    assert!(matches!(c.on_status(&r, false, 200, None, &seed()), Step::ReadBody));
}

#[test]
fn what_cannot_be_answered_fails() {
    let c = client("u", "p");
    let r = c.server_info();
    assert!(matches!(c.on_status(&r, false, 401, None, &seed()), Step::AuthFailed));
    assert!(matches!(c.on_status(&r, false, 401, Some(" "), &seed()), Step::AuthFailed));
    assert!(matches!(c.on_status(&r, false, 401, Some("Bearer x"), &seed()), Step::AuthFailed));
    assert!(matches!(
        c.respond(Method::Get, "/", false, 401, Some("Digest realm=r"), &seed()),
        Step::AuthFailed
    ));
}

fn path(r: &Request) -> (Method, &str) {
    (r.method, r.path.as_str())
}

#[test]
fn playlist_depends_on_credentials() {
    let open = client("", "");
    assert_eq!(path(&open.channels()), (Method::Get, "playlist/channels"));
    assert_eq!(path(&open.dvr_urls()), (Method::Get, "playlist/recordings"));
    assert!(open.playlist_fallback(Playlist::Channels).is_none());
    for c in [client("u", ""), client("", "p")] {
        assert_eq!(path(&c.channels()), (Method::Get, "playlist/auth/channels"));
        assert_eq!(path(&c.dvr_urls()), (Method::Get, "playlist/auth/recordings"));
        let fallback = c.playlist_fallback(Playlist::Channels).unwrap();
        assert_eq!(path(&fallback), (Method::Get, "playlist/channels"));
        let fallback = c.playlist_fallback(Playlist::Recordings).unwrap();
        assert_eq!(path(&fallback), (Method::Get, "playlist/recordings"));
    }
}

#[test]
fn requests_go_to_their_endpoints() {
    let c = client("", "");
    assert_eq!(path(&c.channel_tags()), (Method::Get, "api/channeltag/grid"));
    assert!(c.channels_for_tags(&vec![]).is_none());
    let tags = vec!["t".to_string()];
    assert_eq!(
        path(&c.channels_for_tags(&tags).unwrap()),
        (Method::Get, "api/channel/grid?limit=100000")
    );
    assert_eq!(
        path(&c.epg_events_page(8000, 4000)),
        (Method::Get, "api/epg/events/grid?start=8000&limit=4000&sort=start")
    );
    assert_eq!(
        path(&c.dvr_upcoming()),
        (Method::Get, "api/dvr/entry/grid_upcoming?limit=100000")
    );
    assert_eq!(
        path(&c.dvr_finished()),
        (Method::Get, "api/dvr/entry/grid_finished?limit=100000")
    );
    assert_eq!(path(&c.dvr_failed()), (Method::Get, "api/dvr/entry/grid_failed?limit=100000"));
    assert_eq!(
        path(&c.dvr_default_config_uuid()),
        (Method::Get, "api/dvr/config/grid?limit=100000")
    );
    assert_eq!(path(&c.autorec_list()), (Method::Get, "api/dvr/autorec/grid?limit=100000"));
}

fn field(name: &str, value: &str) -> (String, String) {
    (name.to_string(), value.to_string())
}

#[test]
fn posts_carry_their_forms() {
    let c = client("", "");
    let cancel = c.dvr_cancel("x");
    assert_eq!(path(&cancel), (Method::Post, "api/dvr/entry/cancel"));
    assert_eq!(cancel.form, vec![field("uuid", "x")]);
    let remove = c.dvr_remove("x");
    assert_eq!(path(&remove), (Method::Post, "api/dvr/entry/remove"));
    assert_eq!(remove.form, vec![field("uuid", "x")]);
    let record = c.dvr_record_event(-42, "cfg");
    assert_eq!(path(&record), (Method::Post, "api/dvr/entry/create_by_event"));
    assert_eq!(record.form, vec![field("event_id", "-42"), field("config_uuid", "cfg")]);
    let create = c.dvr_autorec_create_for_title("{}", "cfg");
    assert_eq!(path(&create), (Method::Post, "api/dvr/autorec/create"));
    assert_eq!(create.form, vec![field("conf", "{}"), field("config_uuid", "cfg")]);
    let delete = c.autorec_delete("x");
    assert_eq!(path(&delete), (Method::Post, "api/idnode/delete"));
    assert_eq!(delete.form, vec![field("uuid", "x")]);
    let save = c.autorec_save("{\"uuid\":\"x\"}");
    assert_eq!(path(&save), (Method::Post, "api/idnode/save"));
    assert_eq!(save.form, vec![field("node", "{\"uuid\":\"x\"}")]);
    assert_eq!(Method::Get.name(), "GET");
    assert_eq!(Method::Post.name(), "POST");
}

#[test]
fn recurring_recording_is_by_title_and_channel() {
    let conf = autorec_conf("Zprávy", "uuid");
    assert_eq!(conf.get_bool("enabled"), Some(true));
    assert_eq!(conf.get_text("title"), Some("Zprávy"));
    assert_eq!(conf.get_bool("fulltext"), Some(false));
    assert_eq!(conf.get_text("channel"), Some("uuid"));
    match conf {
        Json::Object(m) => assert_eq!(m.len(), 4),
        _ => panic!("no object"),
    }
}

#[test]
fn channels_without_number_are_left_out() {
    let body = "#EXTM3U\n#EXTINF:-1 tvg-id=\"a\" tvg-chno=\"2\" logo=\"L\",A\nhttp://a\n\
                #EXTINF:-1 tvg-id=\"b\",B\nhttp://b\n#EXTINF:-1 tvg-id=\"c\" tvg-chno=\"1\",C\nhttp://c\n";
    let channels = read_channels(body).unwrap();
    assert_eq!(channels.len(), 2);
    assert_eq!(channels[0].channel_id, "a");
    assert_eq!(channels[0].number, "2");
    assert_eq!(channels[0].name, "A");
    assert_eq!(channels[0].logo_url, "L");
    assert_eq!(channels[0].stream_url, "http://a");
    assert_eq!(channels[1].channel_id, "c");
    assert!(matches!(read_channels("x"), Err(TvhError::Parse(e)) if e == "Playlist is not valid"));
}

#[test]
fn channels_are_sorted_by_rank_and_ties_keep_their_order() {
    let list = vec![channel("a", "3"), channel("b", "1"), channel("c", "3"), channel("d", "2")];
    let sorted = sort_channels(list, vec![3, 1, 3, 2]);
    let ids: Vec<&str> = sorted.iter().map(|c| c.channel_id.as_str()).collect();
    assert_eq!(ids, vec!["b", "d", "a", "c"]);
}

fn admin(uuid: &str, tags: &[&str]) -> AdminChannel {
    AdminChannel { uuid: uuid.to_string(), tags: tags.iter().map(|t| t.to_string()).collect() }
}

fn shown(tags: &[&str]) -> Vec<String> {
    let grid = vec![admin("a", &["hd", "news"]), admin("b", &["sd"]), admin("", &["hd"])];
    let list = vec![channel("a", "1"), channel("b", "2"), channel("c", "3"), channel("", "4")];
    let tags: Vec<String> = tags.iter().map(|t| t.to_string()).collect();
    filter_by_tags(list, &grid, &tags).into_iter().map(|c| c.channel_id).collect()
}

#[test]
fn tags_restrict_the_channels() {
    assert_eq!(shown(&[]), vec!["a", "b", "c", ""]);
    assert_eq!(shown(&["hd"]), vec!["a"]);
    assert_eq!(shown(&["sd"]), vec!["b"]);
    assert_eq!(shown(&["sd", "news"]), vec!["a", "b"]);
    assert_eq!(shown(&["none"]), Vec::<String>::new());
}

#[test]
fn defaults_are_empty() {
    let e = EpgEvent::default();
    assert_eq!((e.event_id, e.start, e.stop), (0, 0, 0));
    assert!(e.channel_uuid.is_empty() && e.title.is_empty());
    assert!(e.subtitle.is_none() && e.summary.is_none() && e.description.is_none());
    let d = DvrEntry::default();
    assert!(d.uuid.is_empty() && d.url.is_empty() && d.sched_status.is_empty());
    assert_eq!((d.start, d.stop, d.filesize, d.errors, d.errorcode), (0, 0, 0, 0, 0));
    let t = ChannelTag::default();
    assert!(t.uuid.is_empty() && t.name.is_empty());
}

#[test]
fn events_that_cannot_be_placed_are_left_out() {
    let events = vec![event("a", 1, 2), event("", 1, 2), event("a", 2, 2), event("b", 3, 2)];
    let left = usable_events(events);
    assert_eq!(left.len(), 1);
    assert_eq!(left[0].channel_uuid, "a");
}

#[test]
fn uuid_is_read_from_a_file_url() {
    assert_eq!(dvrfile_uuid("http://h/dvrfile/abC123?ticket=1").unwrap(), "abC123");
    assert_eq!(dvrfile_uuid("dvrfile/x/y").unwrap(), "x");
    assert_eq!(dvrfile_uuid("http://h/dvrfile/"), None);
    assert_eq!(dvrfile_uuid("http://h/dvrfile/-a"), None);
    assert_eq!(dvrfile_uuid("http://h/stream/x"), None);
    assert_eq!(dvrfile_uuid("dvrfile/?/dvrfile/abc"), None);
}

#[test]
fn file_urls_stand_under_their_uuid() {
    let body = "#EXTM3U\n#EXTINF:-1,A dvrfile/no\n  http://h/dvrfile/a1?x  \n\nhttp://h/other\n\
                http://h/dvrfile/b2\nhttp://h/dvrfile/a1?y\n";
    let urls = read_dvr_urls(body);
    assert_eq!(urls.len(), 2);
    assert_eq!(urls.get("a1").unwrap(), "http://h/dvrfile/a1?y");
    assert_eq!(urls.get("b2").unwrap(), "http://h/dvrfile/b2");
    assert!(urls.get("no").is_none());
}

fn config(uuid: &str, name: &str) -> DvrConfig {
    DvrConfig { uuid: uuid.to_string(), name: name.to_string() }
}

#[test]
fn default_profile_has_no_name() {
    let all = vec![config("a", "x"), config("b", ""), config("c", "")];
    assert_eq!(default_config_uuid(&all).unwrap(), "b");
    assert_eq!(default_config_uuid(&vec![config("a", "x")]).unwrap(), "a");
    assert_eq!(
        default_config_uuid(&vec![]).unwrap_err().message(),
        "Nepodařilo se zpracovat odpověď serveru: Server nemá nastavený žádný profil nahrávání."
    );
}

#[test]
fn grid_without_entries_is_empty() {
    let mut m = TextMap::new();
    m.insert("entries", Json::Array(vec![Json::Int(1), Json::Null]));
    assert_eq!(grid_entries(Json::Object(m)).len(), 2);
    let mut m = TextMap::new();
    m.insert("entries", Json::Int(1));
    assert_eq!(grid_entries(Json::Object(m)).len(), 0);
    assert_eq!(grid_entries(Json::Object(TextMap::new())).len(), 0);
    assert_eq!(grid_entries(Json::Array(vec![Json::Null])).len(), 0);
}
