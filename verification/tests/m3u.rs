use tvh_client::tvh::m3u::{get_attribute, get_name, get_url, parse, ParseResult};

#[test]
fn parses_sample_playlist() {
    let sample = "#EXTM3U x-tvg-url=\"http://host:9981/xmltv/channels\"\n\
#EXTINF:-1 logo=\"http://host:9981/imagecache/7167?auth=abc\" tvg-id=\"978ffcc9bede\" tvg-chno=\"1\",Das Erste HD\n\
http://host:9981/stream/channelid/1241288599?auth=abc&profile=pass\n\
#EXTINF:-1 tvg-chno=\"2\",ZDF HD\n\
http://host:9981/stream/channelid/222?auth=abc&profile=pass\n";

    let result = parse(sample).unwrap();
    assert_eq!(result.items.len(), 2);
    assert_eq!(result.items[0].channel_name, "Das Erste HD");
    assert_eq!(result.items[0].channel_number, "1");
    assert_eq!(
        result.items[0].stream_url,
        "http://host:9981/stream/channelid/1241288599?auth=abc&profile=pass"
    );
    assert_eq!(result.items[1].channel_name, "ZDF HD");
}

#[test]
fn rejects_invalid_playlist() {
    assert!(parse("not a playlist").is_err());
}

#[test]
fn says_why_a_playlist_is_rejected() {
    assert_eq!(parse("").unwrap_err(), "Playlist is empty");
    assert_eq!(parse("\n\r\n\n").unwrap_err(), "Playlist is empty");
    assert_eq!(parse("not a playlist").unwrap_err(), "Playlist is not valid");
    assert_eq!(
        parse("#EXTINF:-1,A\nhttp://a\n").unwrap_err(),
        "Playlist is not valid"
    );
}

#[test]
fn header_alone_gives_no_items() {
    assert_eq!(parse("\n\n#EXTM3U\n").unwrap().items.len(), 0);
}

#[test]
fn line_endings_do_not_matter() {
    let unix = "#EXTM3U\n#EXTINF:-1 tvg-chno=\"1\",A\nhttp://a\n";
    let windows = unix.replace('\n', "\r\n");
    let a = parse(unix).unwrap();
    let b = parse(&windows).unwrap();
    assert_eq!(a.items.len(), 1);
    assert_eq!(b.items.len(), 1);
    assert_eq!(a.items[0].channel_name, b.items[0].channel_name);
    assert_eq!(a.items[0].stream_url, b.items[0].stream_url);
    assert_eq!(b.items[0].stream_url, "http://a");
}

#[test]
fn attributes_win_over_fallbacks() {
    let p = parse(
        "#EXTM3U\n#EXTINF:-1 TVG-NAME=\"Real\" tvg-logo=\"L1\" logo=\"L2\" tvg-url=\"U\",Other\nhttp://x\n",
    )
    .unwrap();
    let item = &p.items[0];
    assert_eq!(item.channel_name, "Real");
    assert_eq!(item.logo_url, "L1");
    assert_eq!(item.stream_url, "U");
    assert_eq!(item.channel_id, "");
    assert_eq!(item.channel_number, "");
}

#[test]
fn empty_attributes_fall_back() {
    let p = parse(
        "#EXTM3U\n#EXTINF:-1 tvg-name=\"\" tvg-url=\"\",A, B\n#EXTGRP:x\n  http://x  \n\n",
    )
    .unwrap();
    let item = &p.items[0];
    assert_eq!(item.channel_name, " B");
    assert_eq!(item.stream_url, "http://x");
    // `logo` is also found at the end of `tvg-logo`, which is empty here.
    let q = parse("#EXTM3U\n#EXTINF:-1 tvg-logo=\"\" logo=\"L2\",A\nu\n").unwrap();
    assert_eq!(q.items[0].logo_url, "");
}

#[test]
fn attribute_is_found_without_regard_to_case() {
    assert_eq!(get_attribute("x Tvg-Id=\"a b\" y", "tvg-id"), Some("a b".to_string()));
    assert_eq!(get_attribute("x tvg-id=\"a", "tvg-id"), None);
    assert_eq!(get_attribute("x", "tvg-id"), None);
    assert_eq!(get_attribute("tvg-id=\"\"", "TVG-ID"), Some(String::new()));
}

#[test]
fn url_is_the_last_line_that_is_no_tag() {
    assert_eq!(get_url("#EXTINF:-1,A\nfirst\nsecond\n#EXTVLCOPT:x\n"), "second");
    assert_eq!(get_url("#EXTINF:-1,A"), "");
    assert_eq!(get_url(""), "");
    assert_eq!(get_url("#EXTINF:-1,A\nhttp://h/1\n#EXT-X-ENDLIST"), "http://h/1");
    assert_eq!(get_url("#EXTINF:-1,A\nhttp://h/1\n  # a remark\n#"), "http://h/1");
}

#[test]
fn name_follows_the_last_comma() {
    assert_eq!(get_name("#EXTINF:-1,A,B\nx,y"), "B");
    assert_eq!(get_name("#EXTINF:-1"), "");
    assert_eq!(get_name(""), "");
}

#[test]
fn appended_entries_append_items() {
    let head = "#EXTM3U\n#EXTINF:-1 tvg-id=\"a\",A\nhttp://a\n";
    let more = "#EXTINF:-1 tvg-id=\"b\",B\nhttp://b\n#EXTINF:-1,C\nhttp://c";
    let before = parse(head).unwrap().items;
    let after = parse(&format!("{head}{more}")).unwrap().items;
    assert_eq!((before.len(), after.len()), (1, 3));
    assert_eq!(after[0].channel_id, before[0].channel_id);
    assert_eq!(after[0].stream_url, before[0].stream_url);
    assert_eq!((after[1].channel_name.as_str(), after[1].stream_url.as_str()), ("B", "http://b"));
    assert_eq!((after[2].channel_name.as_str(), after[2].stream_url.as_str()), ("C", "http://c"));
    assert!(ParseResult::default().items.is_empty());
}

#[test]
fn there_is_one_item_per_entry() {
    let mut text = "#EXTM3U\nintro\n".to_string();
    for i in 0..50 {
        text.push_str(&format!("#EXTINF:-1 tvg-chno=\"{i}\",N{i}\n#EXTVLCOPT:a\nhttp://{i}\n\n"));
    }
    let p = parse(&text).unwrap();
    assert_eq!(p.items.len(), 50);
    assert_eq!(p.clone().items[49].stream_url, "http://49");
}
