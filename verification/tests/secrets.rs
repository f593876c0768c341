use gitlab_trackrd::error::Error;
use gitlab_trackrd::secrets::{assemble, decode, encode, Credentials};

#[test]
fn stored_credentials_are_read_back() {
    for (host, token) in [
        ("gitlab.example.com", "t0k"),
        ("h\"\\\n", "\u{1F980} \u{0}"),
        ("", ""),
    ] {
        let c = Credentials { host: host.to_string(), token: token.to_string() };
        let blob = encode(&c).unwrap();
        let back = decode(&blob).unwrap();
        assert_eq!(back.host, host);
        assert_eq!(back.token, token);
    }
}

#[test]
fn the_blob_is_a_json_object() {
    let c = Credentials { host: "h".to_string(), token: "t".to_string() };
    let v: serde_json::Value = serde_json::from_slice(&encode(&c).unwrap()).unwrap();
    assert_eq!(v["host"], "h");
    assert_eq!(v["token"], "t");
}

#[test]
fn a_blob_without_a_member_or_json_is_refused() {
    let read = |s: &str| decode(&s.as_bytes().to_vec());
    assert!(matches!(
        read(r#"{"token": "t"}"#),
        Err(Error::Secrets(m)) if m == "stored secret missing 'host'"
    ));
    assert!(matches!(
        read(r#"{"host": "h", "token": 7}"#),
        Err(Error::Secrets(m)) if m == "stored secret missing 'token'"
    ));
    assert!(matches!(read("not json"), Err(Error::Json(_))));
    assert!(read(r#"{"host": "h", "token": "t", "extra": 1}"#).is_ok());
}

#[test]
fn the_first_missing_member_is_reported() {
    let s = |t: &str| Ok(Some(t.to_string()));
    assert!(assemble(s("h"), s("t")).is_ok());
    assert!(matches!(assemble(Ok(None), Ok(None)), Err(Error::Secrets(m)) if m.contains("'host'")));
    assert!(matches!(assemble(s("h"), Err("e".to_string())), Err(Error::Json(m)) if m == "e"));
    assert!(matches!(assemble(Err("e".to_string()), s("t")), Err(Error::Json(m)) if m == "e"));
}
