use cattgram::cache::{cache_key, RecordCache, CACHE_TTL_SECONDS};
use cattgram::codec::keep_cdn_params;
use cattgram::types::{InstaData, Media, MediaType};

fn record(username: &str) -> InstaData {
    InstaData {
        post_id: "K1".to_string(),
        username: username.to_string(),
        caption: None,
        media: vec![Media {
            media_type: MediaType::Image,
            url: "https://x/1.jpg".to_string(),
            thumbnail_url: None,
            width: Some(10),
            height: Some(10),
        }],
        like_count: None,
        comment_count: None,
        is_video: false,
        video_view_count: None,
        timestamp: 3,
    }
}

#[test]
fn cache_key_has_the_post_prefix() {
    assert_eq!(cache_key("ABC123"), "post:ABC123");
    assert_eq!(CACHE_TTL_SECONDS, 86400);
}

#[test]
fn entries_expire_after_the_ttl() {
    let mut c = RecordCache::new();
    assert!(c.get_cached("K1", 100).is_none());
    c.set_cached("K1", &record("u"), 100);
    assert!(c.get_cached("K1", 100).is_some());
    assert!(c.get_cached("K1", 100 + CACHE_TTL_SECONDS - 1).is_some());
    assert!(c.get_cached("K1", 100 + CACHE_TTL_SECONDS).is_none());
    assert!(c.get_cached("OTHER", 100).is_none());
}

#[test]
fn last_write_wins() {
    let mut c = RecordCache::new();
    c.set_cached("K1", &record("first"), 100);
    c.set_cached("K1", &record("second"), 200);
    let d = c.get_cached("K1", 300).expect("entry");
    assert_eq!(d.username, "second");
    // a rewrite refreshes the expiry
    assert!(c.get_cached("K1", 200 + CACHE_TTL_SECONDS - 1).is_some());
}

#[test]
fn stored_records_come_back_intact() {
    let mut c = RecordCache::new();
    c.set_cached("K1", &record("keeper"), 5);
    let d = c.get_cached("K1", 6).expect("entry");
    assert_eq!(d.username, "keeper");
    assert_eq!(d.media.len(), 1);
    assert_eq!(d.media[0].url, "https://x/1.jpg");
    assert_eq!(d.media[0].width, Some(10));
}

#[test]
fn cdn_param_filter_keeps_only_the_allowlist() {
    let pairs = vec![
        ("stp".to_string(), "dst-jpg".to_string()),
        ("tracking".to_string(), "bad".to_string()),
        ("_nc_cat".to_string(), "1".to_string()),
        ("fbclid".to_string(), "abc".to_string()),
        ("oh".to_string(), "h".to_string()),
        ("oe".to_string(), "e".to_string()),
    ];
    let kept = keep_cdn_params(&pairs);
    let names: Vec<&str> = kept.iter().map(|p| p.0.as_str()).collect();
    assert_eq!(names, vec!["stp", "_nc_cat", "oh", "oe"]);
    assert_eq!(kept[0].1, "dst-jpg");
}
