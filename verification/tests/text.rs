use tvh_client::json::Json;
use tvh_client::numbers::{
    decimal_string, hex, parse_u64_str, push_digits, push_fixed, signed_string,
};
use tvh_client::order::{insert_by_key, sort};
use tvh_client::text::{
    ascii_alnum, chars_of, contains, same_ignoring_case, same_str, split_lines, string_of,
    to_lower, to_lower_char, trimmed_str, white_space,
};
use tvh_client::text_map::TextMap;
use tvh_client::tvh::{Channel, RankedChannel};

#[test]
fn white_space_is_that_of_unicode() {
    for n in 0..=0x10ffff {
        if let Some(c) = char::from_u32(n) {
            assert_eq!(white_space(c), c.is_whitespace());
            assert_eq!(ascii_alnum(c), c.is_ascii_alphanumeric());
            assert_eq!(to_lower_char(c), c.to_ascii_lowercase());
        }
    }
}

#[test]
fn text_is_cut_as_by_the_standard_library() {
    for s in ["", " ", "a", "\u{3000}a b\t\n", "\r\n", "a\r\nb\n\nc", "a\r", "\n", "x\r\r\ny\n"] {
        assert_eq!(trimmed_str(s), s.trim());
        let cs = chars_of(s);
        let ls: Vec<String> = split_lines(&cs).iter().map(|l| string_of(l)).collect();
        let expected: Vec<&str> = s.lines().collect();
        assert_eq!(ls, expected);
    }
}

#[test]
fn text_is_compared() {
    assert!(same_str("čaj", "čaj"));
    assert!(!same_str("čaj", "caj"));
    assert!(!same_str("a", "ab"));
    assert!(same_ignoring_case("DiGest", "dIGEST"));
    assert!(!same_ignoring_case("Č", "č"));
    assert!(contains(&chars_of("abcabd"), &chars_of("abd")));
    assert!(contains(&chars_of("abc"), &chars_of("")));
    assert!(!contains(&chars_of("ab"), &chars_of("abc")));
    assert_eq!(string_of(&to_lower(&chars_of("AZ[Č"))), "az[Č");
}

#[test]
fn numbers_are_written() {
    for n in [0, 1, 9, 10, 99, 100, u64::MAX] {
        assert_eq!(decimal_string(n), n.to_string());
    }
    for n in [0, -1, 10, i64::MIN, i64::MAX] {
        assert_eq!(signed_string(n), n.to_string());
    }
    let mut s = String::from("x");
    push_digits(&mut s, u128::MAX, 16);
    assert_eq!(s, format!("x{:x}", u128::MAX));
    let mut s = String::new();
    push_fixed(&mut s, 0xabc, 16, 16);
    assert_eq!(s, format!("{:016x}", 0xabc));
    assert_eq!(hex(&[0, 15, 16, 255]), "000f10ff");
}

#[test]
fn numbers_are_read() {
    for s in ["0", "7", "+7", "007", "18446744073709551615", "18446744073709551616", "", "+", "-1", "1a", " 1", "٣"] {
        assert_eq!(parse_u64_str(s), s.parse::<u64>().ok());
    }
}

#[test]
fn map_keeps_each_key_once() {
    let mut m = TextMap::new();
    m.insert("a", 1);
    m.insert("b", 2);
    m.insert("a", 3);
    assert_eq!(m.len(), 2);
    assert_eq!(m.get("a"), Some(&3));
    assert_eq!(m.get("b"), Some(&2));
    assert_eq!(m.get("c"), None);
    assert_eq!(m.remove("a"), Some(3));
    assert_eq!(m.remove("a"), None);
    assert_eq!(m.len(), 1);
    assert_eq!(m.key_at(0), "b");
    assert_eq!(*m.value_at(0), 2);
}

#[test]
fn json_members_are_read_and_set() {
    let mut v = Json::Object(TextMap::new());
    v.set("t", Json::Text("x".to_string()));
    v.set("b", Json::Bool(false));
    v.set("a", Json::Array(vec![Json::Null]));
    assert_eq!(v.get_text("t"), Some("x"));
    assert_eq!(v.get_text("b"), None);
    assert_eq!(v.get_bool("b"), Some(false));
    assert_eq!(v.get_array("a").unwrap().len(), 1);
    assert!(v.get("missing").is_none());
    let mut n = Json::Int(1);
    n.set("t", Json::Null);
    assert!(matches!(n, Json::Int(1)));
}

fn ranked(name: &str, rank: i64) -> RankedChannel {
    RankedChannel {
        channel: Channel {
            channel_id: name.to_string(),
            number: String::new(),
            name: String::new(),
            logo_url: String::new(),
            stream_url: String::new(),
        },
        rank,
    }
}

#[test]
fn sorting_is_stable() {
    let list = vec![ranked("a", 2), ranked("b", 1), ranked("c", 2), ranked("d", 1), ranked("e", 0)];
    let mut sorted = sort(list);
    insert_by_key(&mut sorted, ranked("f", 1));
    let names: Vec<&str> = sorted.iter().map(|r| r.channel.channel_id.as_str()).collect();
    assert_eq!(names, vec!["e", "b", "d", "f", "a", "c"]);
}
