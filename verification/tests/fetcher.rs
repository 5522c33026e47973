use cattgram::fetcher::{
    base64_encode, extract_zone, route_request, HttpMethod, RelayConfig,
};

#[test]
fn base64_encodes_known_vectors() {
    assert_eq!(base64_encode(b"Man"), "TWFu");
    assert_eq!(base64_encode(b"Ma"), "TWE=");
    assert_eq!(base64_encode(b"M"), "TQ==");
    assert_eq!(base64_encode(b""), "");
    assert_eq!(base64_encode(b"user:pass"), "dXNlcjpwYXNz");
}

#[test]
fn zone_is_parsed_from_the_username() {
    assert_eq!(
        extract_zone("brd-customer-c123-zone-residential_eu"),
        Some("residential_eu".to_string())
    );
    assert_eq!(
        extract_zone("brd-customer-c123-zone-myzone-country-us"),
        Some("myzone".to_string())
    );
    assert_eq!(extract_zone("plain-user"), None);
    assert_eq!(extract_zone("ends-zone-"), None);
}

#[test]
fn direct_routing_leaves_the_request_alone() {
    let req = route_request(
        "https://target.example/x",
        HttpMethod::Get,
        vec![("User-Agent".to_string(), "UA1".to_string())],
        None,
        &None,
    );
    assert_eq!(req.url, "https://target.example/x");
    assert_eq!(req.method, HttpMethod::Get);
    assert_eq!(req.headers.len(), 1);
    assert!(req.body.is_none());
}

#[test]
fn relay_routing_wraps_the_request() {
    let relay = Some(RelayConfig {
        username: "brd-customer-c1-zone-myzone".to_string(),
        password: "tok".to_string(),
    });
    let req = route_request(
        "https://t.example/x",
        HttpMethod::Get,
        vec![
            ("User-Agent".to_string(), "UA1".to_string()),
            ("X-Unforwarded".to_string(), "drop-me".to_string()),
        ],
        None,
        &relay,
    );
    assert_eq!(req.url, "https://api.brightdata.com/request");
    assert_eq!(req.method, HttpMethod::Post);
    assert_eq!(req.headers[0].0, "Authorization");
    assert_eq!(req.headers[0].1, "Bearer tok");
    assert_eq!(req.headers[1].0, "Content-Type");
    assert_eq!(req.headers[1].1, "application/json");
    assert_eq!(
        req.body.as_deref(),
        Some(r#"{"zone":"myzone","url":"https://t.example/x","format":"raw","method":"GET","country":"us","headers":{"User-Agent":"UA1"}}"#)
    );
}

#[test]
fn relay_routing_carries_the_body_and_escapes_values() {
    let relay = Some(RelayConfig {
        username: "no-zone-here".to_string(),
        password: "p".to_string(),
    });
    let req = route_request("https://t.example/y", HttpMethod::Post, vec![], Some("a\"b\n".to_string()), &relay);
    assert_eq!(
        req.body.as_deref(),
        Some(r#"{"zone":"here","url":"https://t.example/y","format":"raw","method":"POST","country":"us","body":"a\"b\n"}"#)
    );
}

#[test]
fn relay_zone_defaults_when_unparseable() {
    let relay = Some(RelayConfig { username: "plain".to_string(), password: "p".to_string() });
    let req = route_request("https://t.example/z", HttpMethod::Get, vec![], None, &relay);
    assert!(req.body.as_deref().unwrap().starts_with(r#"{"zone":"residential","#));
}
