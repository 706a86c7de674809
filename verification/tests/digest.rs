use base64::Engine;
use tvh_client::tvh::digest::{
    authorization_header, basic_auth, client_nonce, credentials_text, digest_auth, header_text,
    nonce_digits, request_text, response_text, Algorithm, Challenge, NonceSeed,
};

fn seed() -> NonceSeed {
    NonceSeed { nanos: 1234567890123456789012, count: 7, thread: "ThreadId(1)".to_string() }
}

#[test]
fn parses_challenge() {
    let header = r#"Digest realm="tvheadend", qop="auth", nonce="abc123", algorithm="SHA-256", opaque="xyz""#;
    let c = Challenge::parse(header).unwrap();
    assert!(c.is_digest());
    assert_eq!(c.get("realm"), Some("tvheadend"));
    assert_eq!(c.get("nonce"), Some("abc123"));
    assert_eq!(c.get("algorithm"), Some("SHA-256"));
    assert_eq!(c.get("opaque"), Some("xyz"));
}

#[test]
fn md5_hash_has_expected_length() {
    // HA1 = MD5("user:realm:pass") should be a 32-char hex string.
    let ha1 = Algorithm::Md5.hash("user:realm:pass");
    assert_eq!(ha1.len(), 32);
}

#[test]
fn blank_header_is_no_challenge() {
    assert!(Challenge::parse("").is_none());
    assert!(Challenge::parse(" \t ").is_none());
    assert!(Challenge::parse("Basic").is_some());
}

#[test]
fn scheme_is_read_without_regard_to_case() {
    let c = Challenge::parse("  DIGEST   nonce=n ").unwrap();
    assert_eq!(c.scheme, "DIGEST");
    assert!(c.is_digest());
    assert!(!c.is_basic());
    assert_eq!(c.get("nonce"), Some("n"));
    assert!(Challenge::parse("bAsIc realm=x").unwrap().is_basic());
}

#[test]
fn quotes_around_a_value_do_not_matter() {
    let quoted = Challenge::parse(r#"Digest algorithm="SHA-256""#).unwrap();
    let plain = Challenge::parse("Digest algorithm=SHA-256").unwrap();
    assert_eq!(quoted.get("algorithm"), Some("SHA-256"));
    assert_eq!(plain.get("algorithm"), Some("SHA-256"));
}

#[test]
fn commas_in_quotes_do_not_part_fields() {
    let c = Challenge::parse(r#"Digest realm="a, b=c", ,NONCE = "x" ,junk, qop=auth, "#).unwrap();
    assert_eq!(c.get("realm"), Some("a, b=c"));
    assert_eq!(c.get("nonce"), Some("x"));
    assert_eq!(c.get("qop"), Some("auth"));
    assert_eq!(c.get("junk"), None);
    assert_eq!(c.get("NONCE"), None);
}

#[test]
fn later_parameter_wins() {
    let c = Challenge::parse("Digest a=1, A=2").unwrap();
    assert_eq!(c.get("a"), Some("2"));
}

#[test]
fn value_keeps_further_equals_signs() {
    let c = Challenge::parse("Digest nonce=\"abc==\"").unwrap();
    assert_eq!(c.get("nonce"), Some("abc=="));
}

#[test]
fn hashes_are_those_of_the_algorithms() {
    assert_eq!(Algorithm::Md5.hash("abc"), "900150983cd24fb0d6963f7d28e17f72");
    assert_eq!(
        Algorithm::Sha256.hash("abc"),
        "ba7816bf8f01cfea414140de5dae2223b00361a396177a9cb410ff61f20015ad"
    );
    assert_eq!(
        Algorithm::Sha512_256.hash("abc"),
        "53048e2681941ef99b2e29b76b4c7dabe4c2d0c634fc6d46e0e2f13107e7af23"
    );
    assert_eq!(Algorithm::Md5.label(), "MD5");
    assert_eq!(Algorithm::Sha256.label(), "SHA-256");
    assert_eq!(Algorithm::Sha512_256.label(), "SHA-512-256");
}

#[test]
fn answers_the_md5_challenge_of_the_rfc() {
    let c = Challenge::parse(
        r#"Digest realm="testrealm@host.com", qop="auth", nonce="dcd98b7102dd2f0e8b11d0f600bfb0c093", opaque="5ccc069c403ebaf9f0171e9517f40e41""#,
    )
    .unwrap();
    let header =
        digest_auth(&c, "Mufasa", "Circle Of Life", "GET", "/dir/index.html", "0a4f113b").unwrap();
    assert_eq!(
        header,
        "Digest username=\"Mufasa\", realm=\"testrealm@host.com\", \
         nonce=\"dcd98b7102dd2f0e8b11d0f600bfb0c093\", uri=\"/dir/index.html\", \
         algorithm=\"MD5\", cnonce=\"0a4f113b\", nc=00000001, qop=auth, \
         response=\"6629fae49393a05397450978507c4ef1\", \
         opaque=\"5ccc069c403ebaf9f0171e9517f40e41\""
    );
}

#[test]
fn answers_the_sha256_challenge_of_the_rfc() {
    let c = Challenge::parse(
        r#"Digest realm="http-auth@example.org", qop="auth", algorithm=sha-256, nonce="7ypf/xlj9XXwfDPEoM4URrv/xwf94BcCAzFZH4GiTo0v""#,
    )
    .unwrap();
    let header = digest_auth(
        &c,
        "Mufasa",
        "Circle of Life",
        "GET",
        "/dir/index.html",
        "f2/wE4q74E6zIJEtWaHKaf5wv/H5QzzpXusqGemxURZJ",
    )
    .unwrap();
    assert!(header.contains("algorithm=\"SHA-256\""));
    assert!(header.contains(
        "response=\"753927fa0e85d155564e2e272a28d1802ca10daf4496794697cf8db5856cb6c1\""
    ));
    assert!(!header.contains("opaque"));
}

#[test]
fn missing_parameters_have_defaults() {
    let c = Challenge::parse("Digest nonce=n").unwrap();
    assert_eq!(credentials_text(&c, "u", "p"), "u::p");
    assert_eq!(request_text("GET", "/x"), "GET:/x");
    assert_eq!(response_text(&c, "A", "C", "B"), "A:n:00000001:C:auth:B");
    assert_eq!(
        header_text(&c, "u", "/x", "C", "R"),
        "Digest username=\"u\", realm=\"\", nonce=\"n\", uri=\"/x\", algorithm=\"MD5\", \
         cnonce=\"C\", nc=00000001, qop=auth, response=\"R\""
    );
}

#[test]
fn without_a_nonce_there_is_no_answer() {
    let c = Challenge::parse("Digest realm=\"r\"").unwrap();
    assert!(digest_auth(&c, "u", "p", "GET", "/", "x").is_none());
    assert!(authorization_header(&c, "u", "p", "GET", "/", &seed()).is_none());
}

#[test]
fn other_schemes_are_not_answered() {
    let c = Challenge::parse("Bearer realm=\"r\", nonce=n").unwrap();
    assert!(authorization_header(&c, "u", "p", "GET", "/", &seed()).is_none());
}

#[test]
fn basic_credentials_are_encoded() {
    assert_eq!(
        basic_auth("Aladdin", "open sesame"),
        "Basic QWxhZGRpbjpvcGVuIHNlc2FtZQ=="
    );
    let c = Challenge::parse("Basic realm=\"r\"").unwrap();
    assert_eq!(
        authorization_header(&c, "Aladdin", "open sesame", "GET", "/", &seed()).unwrap(),
        "Basic QWxhZGRpbjpvcGVuIHNlc2FtZQ=="
    );
}

#[test]
fn long_credentials_are_encoded_as_a_whole() {
    for n in [3070, 3071, 3072, 3073, 6143, 6144, 6145, 10000] {
        let user: String = "ž".repeat(n / 2) + &"a".repeat(n % 2);
        let expected = base64::engine::general_purpose::STANDARD.encode(format!("{user}:pw"));
        assert_eq!(basic_auth(&user, "pw"), format!("Basic {expected}"));
    }
}

#[test]
fn nonce_is_made_from_the_seed() {
    let s = seed();
    assert_eq!(s.text(), "1234567890123456789012-7-ThreadId(1)");
    let nonce = client_nonce(&s);
    assert_eq!(nonce.len(), 20);
    assert_eq!(nonce, Algorithm::Sha256.hash(&s.text())[..20]);
    let other = NonceSeed { nanos: s.nanos, count: 8, thread: s.thread.clone() };
    assert_ne!(nonce, client_nonce(&other));
    assert_eq!(nonce_digits(&[0, 1, 2, 3, 4, 5, 6, 7, 8, 255, 9]), "000102030405060708ff");
}

#[test]
fn digest_answer_uses_the_nonce_of_the_seed() {
    let c = Challenge::parse("Digest realm=r, nonce=n").unwrap();
    let s = seed();
    assert_eq!(
        authorization_header(&c, "u", "p", "POST", "/a?b=c", &s),
        digest_auth(&c, "u", "p", "POST", "/a?b=c", &client_nonce(&s))
    );
}
