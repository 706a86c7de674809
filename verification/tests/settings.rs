use tvh_client::guide::Poll;
use tvh_client::paths::sanitize_for_path;
use tvh_client::servers::{
    folder_saved_message, row_label, saved_message, ServerEdit, TestOk,
};
use tvh_client::settings::{LegacySettings, ServerProfile, Settings};
use tvh_client::tvh::{ChannelTag, ServerInfo};

fn profile(id: &str, name: &str) -> ServerProfile {
    ServerProfile {
        id: id.to_string(),
        name: name.to_string(),
        url: "http://h:9981".to_string(),
        user: "u".to_string(),
        password: "p".to_string(),
        selected_tags: vec![],
    }
}

fn legacy(url: &str, user: &str, password: &str) -> Option<LegacySettings> {
    Some(LegacySettings {
        url: url.to_string(),
        user: user.to_string(),
        password: password.to_string(),
    })
}

fn ids(s: &Settings) -> Vec<&str> {
    s.servers.iter().map(|p| p.id.as_str()).collect()
}

#[test]
fn new_ids_are_hexadecimal() {
    assert_eq!(Settings::new_id(255), "server-ff");
    assert_eq!(Settings::new_id(0), "server-0");
    assert_eq!(Settings::new_id(u128::MAX), format!("server-{:x}", u128::MAX));
}

#[test]
fn new_ids_differ_and_keep_their_files_apart() {
    let times = [0, 1, 15, 16, 255, 256, u128::MAX];
    for a in times {
        let id = Settings::new_id(a);
        assert_eq!(sanitize_for_path(&id), id);
        for b in times {
            assert_eq!(id == Settings::new_id(b), a == b);
        }
    }
}

#[test]
fn primary_server_is_found() {
    let mut s = Settings::default();
    assert!(s.primary().is_none());
    s.upsert(profile("a", "A"));
    s.upsert(profile("b", "B"));
    assert_eq!(s.primary_id.as_deref(), Some("a"));
    s.set_primary("b");
    assert_eq!(s.primary().unwrap().id, "b");
    assert_eq!(s.find("b").unwrap().name, "B");
    assert!(s.find("x").is_none());
    // An id that names no server counts as none.
    s.set_primary("gone");
    assert_eq!(s.primary().unwrap().id, "a");
    s.primary_id = None;
    assert_eq!(s.primary().unwrap().id, "a");
}

#[test]
fn saving_replaces_or_adds() {
    let mut s = Settings::default();
    s.upsert(profile("a", "A"));
    s.upsert(profile("b", "B"));
    s.upsert(profile("a", "A2"));
    assert_eq!(ids(&s), vec!["a", "b"]);
    assert_eq!(s.servers[0].name, "A2");
    assert_eq!(s.primary_id.as_deref(), Some("a"));
}

#[test]
fn deleting_moves_the_primary_server_on() {
    let mut s = Settings::default();
    s.upsert(profile("a", "A"));
    s.upsert(profile("b", "B"));
    s.delete("x");
    assert_eq!(ids(&s), vec!["a", "b"]);
    s.delete("a");
    assert_eq!(ids(&s), vec!["b"]);
    assert_eq!(s.primary_id.as_deref(), Some("b"));
    s.delete("b");
    assert!(s.servers.is_empty());
    assert_eq!(s.primary_id, None);
    let mut s = Settings::default();
    s.upsert(profile("a", "A"));
    s.upsert(profile("b", "B"));
    s.delete("b");
    assert_eq!(s.primary_id.as_deref(), Some("a"));
}

#[test]
fn old_settings_are_migrated_once() {
    let (s, migrated) = Settings::load(None, legacy("http://h", "u", "p"), "server-1");
    assert!(migrated);
    assert_eq!(s.servers.len(), 1);
    assert_eq!(s.primary_id.as_deref(), Some("server-1"));
    let p = &s.servers[0];
    assert_eq!(
        (p.id.as_str(), p.name.as_str(), p.url.as_str(), p.user.as_str(), p.password.as_str()),
        ("server-1", "Server 1", "http://h", "u", "p")
    );
    // Saved and loaded again, nothing happens.
    let (again, migrated) = Settings::load(Some(s), legacy("", "", ""), "server-2");
    assert!(!migrated);
    assert_eq!(again.primary_id.as_deref(), Some("server-1"));
}

#[test]
fn settings_without_a_server_stay_empty() {
    let (s, migrated) = Settings::load(None, None, "x");
    assert!(!migrated && s.servers.is_empty() && s.primary_id.is_none());
    let (s, migrated) = Settings::load(None, legacy("", "", ""), "x");
    assert!(!migrated && s.servers.is_empty());
    // One of the three is enough.
    let (s, migrated) = Settings::load(None, legacy("", "", "p"), "x");
    assert!(migrated && s.servers[0].password == "p");
    // Servers of the present format win.
    let mut present = Settings::default();
    present.upsert(profile("a", "A"));
    present.downloads_dir = "d".to_string();
    let (s, migrated) = Settings::load(Some(present), legacy("u", "u", "p"), "x");
    assert!(!migrated);
    assert_eq!((ids(&s), s.downloads_dir.as_str()), (vec!["a"], "d"));
}

#[test]
fn form_of_a_new_server() {
    let mut f = ServerEdit::blank();
    assert!(f.is_new() && !f.can_save() && !f.can_test());
    f.name = " Home ".to_string();
    assert!(!f.can_save());
    f.url = " http://h ".to_string();
    assert!(f.can_save() && f.can_test());
    f.user = " u ".to_string();
    let mut s = Settings::default();
    assert!(!f.reconnects(false, Some("a")));
    assert!(f.reconnects(true, None));
    let p = f.commit(&mut s, "server-9");
    assert_eq!((p.id.as_str(), p.name.as_str(), p.url.as_str()), ("server-9", "Home", "http://h"));
    assert_eq!(p.user, " u ");
    assert_eq!(s.servers, vec![p]);
    assert_eq!(s.primary_id.as_deref(), Some("server-9"));
}

#[test]
fn form_of_a_saved_server_keeps_its_id() {
    let mut s = Settings::default();
    s.upsert(profile("a", "A"));
    let f = ServerEdit::from_profile(&s.servers[0]);
    assert!(!f.is_new());
    assert!(f.reconnects(false, Some("a")));
    assert!(!f.reconnects(false, Some("b")));
    assert!(!f.reconnects(false, None));
    let before = s.servers[0].clone();
    // Saved as it was opened, nothing changes.
    let p = f.commit(&mut s, "server-9");
    assert_eq!(p, before);
    assert_eq!(s.servers, vec![before]);
}

#[test]
fn tags_are_checked_and_unchecked() {
    let mut f = ServerEdit::blank();
    f.set_tag("a", true);
    f.set_tag("b", true);
    assert!(f.has_tag("a") && f.has_tag("b") && !f.has_tag("c"));
    f.set_tag("a", false);
    assert_eq!(f.selected_tags, vec!["b".to_string()]);
    f.set_tag("c", false);
    assert_eq!(f.selected_tags, vec!["b".to_string()]);
}

fn info(name: Option<&str>, version: Option<&str>) -> ServerInfo {
    ServerInfo {
        sw_version: version.map(String::from),
        api_version: None,
        name: name.map(String::from),
    }
}

#[test]
fn server_is_tested() {
    assert_eq!(TestOk::new(&info(Some("N"), Some("4.3")), None).server_label, "N 4.3");
    assert_eq!(TestOk::new(&info(None, None), None).server_label, "TVHeadend ");
    let tag = ChannelTag { uuid: "t".to_string(), name: "T".to_string() };
    assert_eq!(TestOk::new(&info(None, None), Some(vec![tag])).tags.len(), 1);
    let mut f = ServerEdit::blank();
    f.url = "h".to_string();
    f.start_test();
    assert!(f.testing && f.waiting && !f.can_test());
    f.on_test(Poll::Empty);
    assert!(f.testing);
    f.on_test(Poll::Ready(Err("no".to_string())));
    assert!(!f.testing && f.can_test());
    assert_eq!(f.test_result.as_ref().unwrap().as_ref().unwrap_err(), "no");
    f.start_test();
    assert!(f.test_result.is_none());
    f.on_test(Poll::Closed);
    assert!(!f.testing && !f.waiting && f.test_result.is_none());
}

#[test]
fn servers_are_listed() {
    let mut p = profile("a", "A");
    assert_eq!(row_label(&p, false), "A");
    assert_eq!(row_label(&p, true), "A  (připojeno)");
    p.selected_tags = vec!["t".to_string(), "s".to_string()];
    assert_eq!(row_label(&p, true), "A  (připojeno)  [2 štítků]");
    assert_eq!(saved_message(Ok(())), "Uloženo.");
    assert_eq!(saved_message(Err("e".to_string())), "Chyba při ukládání: e");
    assert_eq!(folder_saved_message(Ok(())), "Uloženo.");
    assert_eq!(folder_saved_message(Err("e".to_string())), "Uložení selhalo: e");
}
