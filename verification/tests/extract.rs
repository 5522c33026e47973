use cattgram::extract::{
    embed_outcome_from_response, extract_embed_data, extract_from_context_json, extract_from_html,
    extract_from_json, extract_shortcode_media_json, is_video_blocked,
};
use cattgram::json::parse_json;
use cattgram::types::MediaType;

#[test]
fn balanced_extraction_ignores_braces_in_strings() {
    // the brace inside the username string must not end the scan
    let payload = r#"prefix "shortcode_media":{"owner":{"username":"a}b"},"is_video":false} suffix"#;
    assert_eq!(
        extract_shortcode_media_json(payload),
        Some(r#"{"owner":{"username":"a}b"},"is_video":false}"#.to_string())
    );
}

#[test]
fn balanced_extraction_handles_escaped_quotes() {
    let payload = r#""shortcode_media":{"caption":"he said \"hi\" {","n":1}"#;
    assert_eq!(
        extract_shortcode_media_json(payload),
        Some(r#"{"caption":"he said \"hi\" {","n":1}"#.to_string())
    );
}

#[test]
fn balanced_extraction_fails_without_needle_or_brace() {
    assert_eq!(extract_shortcode_media_json("nothing here"), None);
    assert_eq!(extract_shortcode_media_json(r#""shortcode_media": 17"#), None);
    assert_eq!(extract_shortcode_media_json(r#""shortcode_media":{"unclosed":true"#), None);
}

#[test]
fn json_extraction_builds_full_record() {
    let html = r#"<html><script>{"shortcode_media":{"owner":{"username":"alice"},"display_url":"https://cdn.example.com/image.jpg","is_video":false,"dimensions":{"width":1080,"height":1080},"taken_at_timestamp":1700000000,"edge_media_preview_like":{"count":42},"edge_media_to_comment":{"count":5},"edge_media_to_caption":{"edges":[{"node":{"text":"Hello world!"}}]}}}</script></html>"#;
    let d = extract_from_json(html, "ABC123").expect("record");
    assert_eq!(d.post_id, "ABC123");
    assert_eq!(d.username, "alice");
    assert_eq!(d.caption, Some("Hello world!".to_string()));
    assert_eq!(d.like_count, Some(42));
    assert_eq!(d.comment_count, Some(5));
    assert!(!d.is_video);
    assert_eq!(d.timestamp, 1700000000);
    assert_eq!(d.media.len(), 1);
    assert_eq!(d.media[0].media_type, MediaType::Image);
    assert_eq!(d.media[0].url, "https://cdn.example.com/image.jpg");
    assert_eq!(d.media[0].width, Some(1080));
    assert_eq!(d.media[0].height, Some(1080));
}

#[test]
fn json_extraction_requires_owner_username() {
    let html = r#""shortcode_media":{"display_url":"https://x/y.jpg"}"#;
    assert!(extract_from_json(html, "ABC").is_none());
}

#[test]
fn carousel_yields_one_item_per_child_in_order() {
    let html = r#""shortcode_media":{"owner":{"username":"carol"},"edge_sidecar_to_children":{"edges":[{"node":{"display_url":"https://c/1.jpg","is_video":false}},{"node":{"is_video":true,"video_url":"https://c/2.mp4","display_url":"https://c/2.jpg"}},{"node":{"display_url":"https://c/3.jpg"}}]}}"#;
    let d = extract_from_json(html, "XYZ").expect("record");
    assert_eq!(d.media.len(), 3);
    assert_eq!(d.media[0].media_type, MediaType::Image);
    assert_eq!(d.media[0].url, "https://c/1.jpg");
    assert_eq!(d.media[1].media_type, MediaType::Video);
    assert_eq!(d.media[1].url, "https://c/2.mp4");
    assert_eq!(d.media[1].thumbnail_url, Some("https://c/2.jpg".to_string()));
    assert_eq!(d.media[2].media_type, MediaType::Image);
    assert_eq!(d.media[2].url, "https://c/3.jpg");
}

#[test]
fn node_without_child_list_yields_one_item() {
    let html = r#""shortcode_media":{"owner":{"username":"dan"},"display_url":"https://c/x.jpg"}"#;
    let d = extract_from_json(html, "XYZ").expect("record");
    assert_eq!(d.media.len(), 1);
    assert_eq!(d.media[0].url, "https://c/x.jpg");
}

#[test]
fn context_json_double_encoding_is_unescaped_and_reparsed() {
    let html = r#"<script>x = {"contextJSON":"{\"gql_data\":{\"shortcode_media\":{\"owner\":{\"username\":\"bob\"},\"display_url\":\"https://cdn/ctx.jpg\",\"is_video\":false}}}"};</script>"#;
    let d = extract_from_context_json(html, "CTX1").expect("record");
    assert_eq!(d.username, "bob");
    assert_eq!(d.media.len(), 1);
    assert_eq!(d.media[0].url, "https://cdn/ctx.jpg");
}

#[test]
fn context_json_accepts_xdt_node_name() {
    let html = r#"{"contextJSON":"{\"gql_data\":{\"xdt_shortcode_media\":{\"owner\":{\"username\":\"xena\"},\"display_url\":\"https://cdn/x.jpg\"}}}"}"#;
    let d = extract_from_context_json(html, "X1").expect("record");
    assert_eq!(d.username, "xena");
}

#[test]
fn html_fallback_yields_single_dimensionless_image() {
    let html = r#"<div><img class="EmbeddedMediaImage" src="https://cdn.example.com/thumb.jpg?a=1&amp;b=2"/><span class="UsernameText">erin</span></div>"#;
    let d = extract_from_html(html, "HH1").expect("record");
    assert_eq!(d.username, "erin");
    assert_eq!(d.media.len(), 1);
    assert_eq!(d.media[0].media_type, MediaType::Image);
    // entities in the attribute are unescaped
    assert_eq!(d.media[0].url, "https://cdn.example.com/thumb.jpg?a=1&b=2");
    assert_eq!(d.media[0].width, None);
    assert_eq!(d.media[0].height, None);
    assert!(d.caption.is_none());
    assert!(!d.is_video);
}

#[test]
fn html_fallback_defaults_username_and_reads_caption() {
    let html = r#"<img class="EmbeddedMediaImage" src="https://cdn/x.jpg"/><span class="CaptionUsername">u</span> the caption text <br/>"#;
    let d = extract_from_html(html, "HH2").expect("record");
    assert_eq!(d.username, "unknown");
    assert_eq!(d.caption, Some("the caption text".to_string()));
}

#[test]
fn text_trimming_covers_unicode_whitespace() {
    // no-break and ideographic spaces around the username are trimmed
    let html = "<img class=\"EmbeddedMediaImage\" src=\"https://cdn/x.jpg\"/><span class=\"UsernameText\">\u{a0}\u{3000}erin\u{2009}\u{a0}</span>";
    let d = extract_from_html(html, "HH3").expect("record");
    assert_eq!(d.username, "erin");
}

#[test]
fn html_fallback_fails_without_image_marker() {
    assert!(extract_from_html("<html>no markers</html>", "P").is_none());
}

#[test]
fn video_blocked_markers_are_detected() {
    assert!(is_video_blocked("... WatchOnInstagram ..."));
    assert!(is_video_blocked("<div class=\"EmbeddedMediaVideo\">"));
    assert!(!is_video_blocked("<div>plain page</div>"));
}

#[test]
fn embed_outcome_rejects_non_200() {
    let html = r#""shortcode_media":{"owner":{"username":"alice"},"display_url":"https://x/1.jpg"}"#;
    assert!(embed_outcome_from_response(404, html, "A").is_none());
    let (d, blocked) = embed_outcome_from_response(200, html, "A").expect("outcome");
    assert_eq!(d.username, "alice");
    assert!(!blocked);
}

#[test]
fn extraction_paths_are_tried_in_order() {
    // both a structured blob and a bare-HTML marker: the blob wins
    let html = r#""shortcode_media":{"owner":{"username":"first"},"display_url":"https://x/1.jpg"}<img class="EmbeddedMediaImage" src="https://x/2.jpg"/>"#;
    let d = extract_embed_data(html, "A").expect("record");
    assert_eq!(d.username, "first");
}

#[test]
fn parse_json_reads_the_document_not_the_text() {
    let j = parse_json(" {\"a\": 7, \"b\": [true, null], \"s\": \"x{y\"} ").expect("parsed");
    assert_eq!(j.get("a").and_then(|v| v.as_u64()), Some(7));
    let arr_len = j.get("b").and_then(|v| v.as_array()).map(|a| a.len());
    assert_eq!(arr_len, Some(2));
    assert_eq!(
        j.get("s").and_then(|v| v.as_str()).map(|s| s.as_str().to_owned()),
        Some("x{y".to_owned())
    );
    assert!(parse_json("{not json").is_none());
    // a quoted literal parses to its unescaped string value
    let s = parse_json("\"a\\nb\"").expect("parsed");
    assert_eq!(s.as_str().map(|x| x.as_str().to_owned()), Some("a\nb".to_owned()));
}
