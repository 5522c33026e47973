use cattgram::graphql::{
    build_graphql_body, build_graphql_headers, form_urlencode, graphql_variables,
    parse_graphql_response,
};
use cattgram::papi::{
    build_papi_headers, derive_papi_cookie, papi_direct_ok, papi_media_url, parse_papi_response,
};
use cattgram::types::MediaType;

#[test]
fn form_urlencode_escapes_reserved_bytes() {
    let pairs = vec![
        ("a b".to_string(), "c&d".to_string()),
        ("x".to_string(), "1=2/3".to_string()),
    ];
    assert_eq!(form_urlencode(&pairs), "a+b=c%26d&x=1%3D2%2F3");
    assert_eq!(form_urlencode(&vec![]), "");
}

#[test]
fn graphql_body_carries_variables_and_doc_id() {
    let variables = graphql_variables("SHORT1");
    assert!(variables.starts_with(r#"{"shortcode":"SHORT1","fetch_comment_count":40"#));
    let body = build_graphql_body(variables.as_str(), "25531498899829322");
    assert!(body.starts_with("av=0&__d=www&__user=0&__a=1&"));
    assert!(body.ends_with("&server_timestamps=true&doc_id=25531498899829322"));
    assert!(body.contains("&variables=%7B%22shortcode%22%3A%22SHORT1%22"));
    assert!(body.contains("&fb_api_req_friendly_name=PolarisPostActionLoadPostQueryQuery&"));
}

#[test]
fn graphql_headers_mimic_the_browser_surface() {
    let headers = build_graphql_headers();
    assert_eq!(headers.len(), 21);
    assert!(headers.iter().any(|(k, v)| k == "X-Ig-App-Id" && v == "936619743392459"));
    assert!(headers.iter().any(|(k, v)| k == "Content-Type"
        && v == "application/x-www-form-urlencoded"));
}

#[test]
fn graphql_response_with_media_is_parsed() {
    let body = r#"{"data":{"xdt_shortcode_media":{"owner":{"username":"gql"},"display_url":"https://cdn/g.jpg","is_video":false}}}"#;
    let d = parse_graphql_response(body, "G1").expect("record");
    assert_eq!(d.username, "gql");
    assert_eq!(d.media[0].url, "https://cdn/g.jpg");
}

#[test]
fn graphql_null_media_reads_as_blocked() {
    assert!(parse_graphql_response(r#"{"data":{"xdt_shortcode_media":null}}"#, "G").is_none());
    assert!(parse_graphql_response(r#"{"data":{}}"#, "G").is_none());
    assert!(parse_graphql_response(r#"{}"#, "G").is_none());
    assert!(parse_graphql_response("not json", "G").is_none());
}

#[test]
fn graphql_login_wall_reads_as_no_data() {
    let body = r#"{"error":"require_login"}"#;
    assert!(parse_graphql_response(body, "G").is_none());
    assert!(parse_graphql_response("<html>not-logged-in</html>", "G").is_none());
}

#[test]
fn graphql_accepts_legacy_media_field() {
    let body = r#"{"data":{"shortcode_media":{"owner":{"username":"legacy"},"display_url":"https://cdn/l.jpg"}}}"#;
    let d = parse_graphql_response(body, "G2").expect("record");
    assert_eq!(d.username, "legacy");
}

#[test]
fn papi_cookie_is_derived_from_a_bare_session_value() {
    assert_eq!(
        derive_papi_cookie("12345%3Atoken%3a1%3Ax"),
        "sessionid=12345:token:1:x; ds_user_id=12345"
    );
}

#[test]
fn papi_cookie_keeps_full_cookie_strings() {
    assert_eq!(derive_papi_cookie("csrftoken=z; mid=q"), "csrftoken=z; mid=q");
    assert_eq!(
        derive_papi_cookie("sessionid=777:t:2:h"),
        "sessionid=777:t:2:h; ds_user_id=777"
    );
}

#[test]
fn papi_headers_carry_the_mobile_identity() {
    let headers = build_papi_headers("sessionid=1:2:3");
    assert_eq!(headers.len(), 5);
    assert!(headers.iter().any(|(k, v)| k == "X-Ig-App-Id" && v == "567067343352427"));
    assert!(headers.iter().any(|(k, v)| k == "Cookie" && v == "sessionid=1:2:3"));
}

#[test]
fn papi_url_uses_the_numeric_media_id() {
    assert_eq!(papi_media_url(1), "https://i.instagram.com/api/v1/media/1/info/");
    assert_eq!(
        papi_media_url(2481276043892498677),
        "https://i.instagram.com/api/v1/media/2481276043892498677/info/"
    );
}

#[test]
fn papi_items_are_parsed_with_carousel_order() {
    let body = r#"{"items":[{"user":{"username":"pp"},"caption":{"text":"hi"},"like_count":7,"comment_count":2,"taken_at":11,"carousel_media":[{"image_versions2":{"candidates":[{"url":"https://c/1.jpg","width":10,"height":20}]}},{"video_versions":[{"url":"https://c/2.mp4","width":30,"height":40}],"image_versions2":{"candidates":[{"url":"https://c/2.jpg"}]}}]}]}"#;
    let d = parse_papi_response(body, "PP").expect("record");
    assert_eq!(d.username, "pp");
    assert_eq!(d.caption.as_deref(), Some("hi"));
    assert_eq!(d.like_count, Some(7));
    assert_eq!(d.comment_count, Some(2));
    assert_eq!(d.timestamp, 11);
    assert_eq!(d.media.len(), 2);
    assert_eq!(d.media[0].media_type, MediaType::Image);
    assert_eq!(d.media[0].url, "https://c/1.jpg");
    assert_eq!(d.media[0].width, Some(10));
    assert_eq!(d.media[1].media_type, MediaType::Video);
    assert_eq!(d.media[1].url, "https://c/2.mp4");
    assert_eq!(d.media[1].thumbnail_url.as_deref(), Some("https://c/2.jpg"));
    assert!(d.is_video);
}

#[test]
fn papi_single_item_and_missing_items_cases() {
    let single = r#"{"items":[{"user":{"username":"solo"},"image_versions2":{"candidates":[{"url":"https://c/s.jpg"}]}}]}"#;
    let d = parse_papi_response(single, "S").expect("record");
    assert_eq!(d.media.len(), 1);
    assert!(!d.is_video);
    assert!(parse_papi_response(r#"{"items":[]}"#, "S").is_none());
    assert!(parse_papi_response(r#"{"status":"fail"}"#, "S").is_none());
    assert!(parse_papi_response("nope", "S").is_none());
}

#[test]
fn papi_direct_acceptance_checks_status_and_markers() {
    assert!(papi_direct_ok(200, r#"{"items":[]}"#));
    assert!(!papi_direct_ok(404, r#"{"items":[]}"#));
    assert!(!papi_direct_ok(200, "you are not-logged-in"));
    assert!(!papi_direct_ok(200, "Page Not Found"));
}
