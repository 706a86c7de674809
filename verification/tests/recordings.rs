use tvh_client::recording_proxy::{
    error_head, head_with_reason, range_header, range_of_text, reply_head, request_complete,
    RecordingProxy,
};
use tvh_client::recordings::{
    human_size, safe_filename, status_line, DownloadControl, DownloadUpdate, NextRead,
    Transfer, TransferEvent,
};

fn reference_size(bytes: i64) -> String {
    let units = ["B", "KB", "MB", "GB", "TB"];
    let mut value = bytes.max(0) as f64;
    let mut unit = 0;
    while value >= 1024.0 && unit < units.len() - 1 {
        value /= 1024.0;
        unit += 1;
    }
    if unit == 0 {
        format!("{value:.0} {}", units[unit])
    } else {
        format!("{value:.2} {}", units[unit])
    }
}

#[test]
fn sizes_are_for_people() {
    assert_eq!(human_size(1234567890), "1.15 GB");
    assert_eq!(human_size(0), "0 B");
    assert_eq!(human_size(-5), "0 B");
    assert_eq!(human_size(1023), "1023 B");
    assert_eq!(human_size(1024), "1.00 KB");
    // A half goes to the even hundredth.
    assert_eq!(human_size(1152), "1.12 KB");
    assert_eq!(human_size(1408), "1.38 KB");
    assert_eq!(human_size(1048575), "1024.00 KB");
    assert_eq!(human_size(i64::MAX), "8388608.00 TB");
}

#[test]
fn sizes_round_as_numbers_with_53_bits_do() {
    let mut n: i64 = 1;
    let mut all = vec![0, i64::MAX, i64::MAX - 1, i64::MIN];
    while n > 0 && n < i64::MAX / 3 {
        for d in -70..70 {
            all.push(n + d);
        }
        n = n.wrapping_mul(3) / 2 + 1;
    }
    for shift in 10..63 {
        for d in -4..5 {
            all.push((1i64 << shift) + d);
            all.push((1i64 << shift) + (1i64 << (shift - 3)) + d);
        }
    }
    for bytes in all {
        assert_eq!(human_size(bytes), reference_size(bytes));
    }
}

#[test]
fn names_of_downloads() {
    assert_eq!(safe_filename("Foo", "/video/tvheadend/Foo-4.ts"), "Foo.ts");
    assert_eq!(safe_filename("A/B: \"C\"?", "x.mkv"), "A_B_ _C__.mkv");
    assert_eq!(safe_filename("  ", "x.mkv"), "nahravka.mkv");
    assert_eq!(safe_filename("<>:\"/\\|?*", "x"), "_________.ts");
    assert_eq!(safe_filename("T", ""), "T.ts");
    assert_eq!(safe_filename("T", "/a.b/c"), "T.ts");
    assert_eq!(safe_filename("T", "/a/.hidden"), "T.ts");
    assert_eq!(safe_filename("T", "/a/x.tar.gz"), "T.gz");
    assert_eq!(safe_filename("T", "/a/x.mkv/"), "T.mkv");
    assert_eq!(safe_filename("T", "/a/x.mkv/."), "T.mkv");
    assert_eq!(safe_filename("T", "/a/.."), "T.ts");
    assert_eq!(safe_filename("T", "."), "T.ts");
    assert_eq!(safe_filename("T", "x."), "T.");
    assert_eq!(safe_filename("T", "x.a:b"), "T.a_b");
    assert_eq!(safe_filename("T", "a.b\\c"), "T.ts");
    assert_eq!(safe_filename("T", "C:\\video\\a.b\\c.mkv"), "T.mkv");
    assert_eq!(safe_filename("T", "c:.hidden"), "T.ts");
}

#[test]
fn extension_is_that_of_the_standard_library() {
    for path in [
        "", "/", ".", "..", "a", "a.b", ".a", ".a.b", "a.", "a..", "...", "/x/a.b", "/x.y/a", "a.b/",
        "a.b//", "a.b/.", "a.b/./", "a.b/..", "./a.b", "//a.b", "a/b.c.d", "x/.", "./.",
    ] {
        let expected = std::path::Path::new(path)
            .extension()
            .and_then(|e| e.to_str())
            .unwrap_or("ts");
        assert_eq!(safe_filename("T", path), format!("T.{expected}"));
    }
}

#[test]
fn control_switches_a_download() {
    let mut c = DownloadControl::new();
    assert!(!c.is_paused() && !c.is_cancelled());
    assert_eq!(c.next(), NextRead::Read);
    c.set_paused(true);
    assert_eq!(c.next(), NextRead::Wait);
    c.cancel();
    assert_eq!(c.next(), NextRead::Stop);
    c.set_paused(false);
    assert!(c.is_cancelled());
    assert_eq!(c.next(), NextRead::Stop);
}

fn told(updates: &[DownloadUpdate]) -> Vec<String> {
    updates
        .iter()
        .map(|u| match u {
            DownloadUpdate::Progress { downloaded, total } => format!("{downloaded}/{total:?}"),
            DownloadUpdate::Done(p) => format!("done {p}"),
            DownloadUpdate::Cancelled => "cancelled".to_string(),
            DownloadUpdate::Error(e) => format!("error {e}"),
        })
        .collect()
}

#[test]
fn download_tells_its_progress_now_and_then() {
    let mut t = Transfer::new("f.ts");
    let e = t.on_event(TransferEvent::Answered { status: 200, total: Some(30) });
    assert!(e.updates.is_empty() && !e.remove_file);
    let e = t.on_event(TransferEvent::Chunk { len: 10, since_progress_ms: 149 });
    assert!(e.updates.is_empty());
    let e = t.on_event(TransferEvent::Chunk { len: 10, since_progress_ms: 150 });
    assert_eq!(told(&e.updates), vec!["20/Some(30)"]);
    let e = t.on_event(TransferEvent::Chunk { len: 10, since_progress_ms: 0 });
    assert!(e.updates.is_empty());
    let e = t.on_event(TransferEvent::End);
    assert_eq!(told(&e.updates), vec!["30/Some(30)", "done f.ts"]);
    assert!(!e.remove_file);
    assert!(t.is_finished());
    let e = t.on_event(TransferEvent::Failed("late".to_string()));
    assert!(e.updates.is_empty() && !e.remove_file);
}

#[test]
fn broken_download_leaves_no_file() {
    let mut t = Transfer::new("f");
    let e = t.on_event(TransferEvent::Stopped);
    assert_eq!(told(&e.updates), vec!["cancelled"]);
    assert!(e.remove_file && t.is_finished());
    let mut t = Transfer::new("f");
    let e = t.on_event(TransferEvent::Failed("disk".to_string()));
    assert_eq!(told(&e.updates), vec!["error disk"]);
    assert!(e.remove_file);
    let mut t = Transfer::new("f");
    let e = t.on_event(TransferEvent::Answered { status: 404, total: None });
    assert_eq!(told(&e.updates), vec!["error Server odpověděl chybou 404 Not Found"]);
    assert!(e.remove_file && t.is_finished());
    let mut t = Transfer::new("f");
    let e = t.on_event(TransferEvent::Answered { status: 799, total: None });
    assert_eq!(
        told(&e.updates),
        vec!["error Server odpověděl chybou 799 <unknown status code>"]
    );
}

#[test]
fn status_has_its_phrase() {
    assert_eq!(status_line(200, Some("OK".to_string())), "200 OK");
    assert_eq!(status_line(599, None), "599 <unknown status code>");
}

#[test]
fn proxy_is_on_the_local_machine() {
    let p = RecordingProxy::new(40123);
    assert_eq!(p.url(), "http://127.0.0.1:40123/");
    assert_eq!(p.port(), 40123);
}

#[test]
fn request_ends_with_a_blank_line() {
    assert!(!request_complete(b""));
    assert!(!request_complete(b"GET / HTTP/1.1\r\nRange: x\r\n"));
    assert!(request_complete(b"GET / HTTP/1.1\r\n\r\n"));
    assert!(request_complete(b"\r\n\r\nbody"));
    assert!(!request_complete(&vec![b'a'; 16384]));
    assert!(request_complete(&vec![b'a'; 16385]));
}

#[test]
fn range_is_read_from_a_request() {
    assert_eq!(
        range_header(b"GET / HTTP/1.1\r\nHost: x\r\nRange:  bytes=10- \r\n\r\n").unwrap(),
        "bytes=10-"
    );
    assert_eq!(range_header(b"a\r\nrange:bytes=0-1\r\nRange: other\r\n").unwrap(), "bytes=0-1");
    assert_eq!(range_header(b"a\r\nRANGE: x\r\n"), None);
    assert_eq!(range_header(b" Range: x\r\n"), None);
    assert_eq!(range_header(b""), None);
    assert_eq!(range_header(b"\xff\xfe\r\nRange: a\xffb\r\n").unwrap(), "a\u{fffd}b");
    assert_eq!(range_of_text("x\nRange:\n").unwrap(), "");
}

#[test]
fn reply_is_passed_back() {
    let head = reply_head(206, Some("10"), Some("bytes 0-9/100"), Some("video/mp2t"));
    assert_eq!(
        head,
        "HTTP/1.1 206 Partial Content\r\nAccept-Ranges: bytes\r\nConnection: close\r\n\
         content-length: 10\r\ncontent-range: bytes 0-9/100\r\ncontent-type: video/mp2t\r\n\r\n"
    );
    let head = reply_head(200, None, None, None);
    assert_eq!(head, "HTTP/1.1 200 OK\r\nAccept-Ranges: bytes\r\nConnection: close\r\n\r\n");
    let head = reply_head(404, Some("10"), None, None);
    assert_eq!(
        head,
        "HTTP/1.1 404 Not Found\r\nAccept-Ranges: bytes\r\nConnection: close\r\n\
         content-length: 10\r\n\r\n"
    );
    assert_eq!(error_head(502), "HTTP/1.1 502 Error\r\nConnection: close\r\n\r\n");
    assert_eq!(
        head_with_reason(299, None, None, None, Some("t")),
        "HTTP/1.1 299 \r\nAccept-Ranges: bytes\r\nConnection: close\r\ncontent-type: t\r\n\r\n"
    );
}
