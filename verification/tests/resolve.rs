use cattgram::cache::RecordCache;
use cattgram::resolve::{resolve_post_data, HostAction, Resolver, ResolverConfig, ScriptedUpstream};
use cattgram::types::{InstaData, Media, MediaType};

fn bare_config() -> ResolverConfig {
    ResolverConfig { doc_id: "25531498899829322".to_string(), ig_cookie: None, relay: None }
}

fn structured_embed_page() -> String {
    r#"<html>{"shortcode_media":{"owner":{"username":"alice"},"display_url":"https://cdn.example.com/image.jpg","is_video":false,"dimensions":{"width":1080,"height":1080},"taken_at_timestamp":1700000000}}</html>"#
    .to_string()
}

fn thumbnail_embed_page() -> String {
    r#"<div><img class="EmbeddedMediaImage" src="https://cdn.example.com/thumb.jpg"/><span class="UsernameText">alice</span></div>"#
    .to_string()
}

#[test]
fn end_to_end_structured_json_is_returned_and_cached() {
    let mut cache = RecordCache::new();
    let now: u64 = 1_000_000;
    let mut upstream = ScriptedUpstream::new(vec![Some((200, structured_embed_page()))]);
    let r = resolve_post_data(&mut cache, now, "ABC123", bare_config(), &mut upstream)
        .expect("record");
    assert_eq!(r.post_id, "ABC123");
    assert_eq!(r.username, "alice");
    assert!(!r.is_video);
    assert_eq!(r.media.len(), 1);
    assert_eq!(r.media[0].media_type, MediaType::Image);
    assert_eq!(r.media[0].width, Some(1080));
    assert_eq!(r.media[0].height, Some(1080));
    // only the embed fetch was consumed
    assert_eq!(upstream.next, 1);
    // the record is now cached under its key with a fresh TTL
    let cached = cache.get_cached("ABC123", now).expect("cached");
    assert_eq!(cached.username, "alice");
    assert!(cache.get_cached("ABC123", now + 86399).is_some());
    assert!(cache.get_cached("ABC123", now + 86400).is_none());
}

#[test]
fn cache_hit_returns_without_any_fetch() {
    let mut cache = RecordCache::new();
    let now: u64 = 5_000;
    let mut warm = ScriptedUpstream::new(vec![Some((200, structured_embed_page()))]);
    resolve_post_data(&mut cache, now, "ABC123", bare_config(), &mut warm).expect("record");

    // the next resolution for the same id consumes nothing
    let mut upstream = ScriptedUpstream::new(vec![Some((200, "should not be read".to_string()))]);
    let r = resolve_post_data(&mut cache, now + 10, "ABC123", bare_config(), &mut upstream)
        .expect("record");
    assert_eq!(r.username, "alice");
    assert_eq!(upstream.next, 0);
}

#[test]
fn thumbnail_fallback_is_returned_when_everything_else_yields_nothing() {
    let mut cache = RecordCache::new();
    let now: u64 = 42;
    // embed gives the thumbnail-only shape; both query-API attempts return a
    // null data field; the private API has no credential and is skipped
    let null_data = r#"{"data":{"xdt_shortcode_media":null}}"#.to_string();
    let mut upstream = ScriptedUpstream::new(vec![
        Some((200, thumbnail_embed_page())),
        Some((200, null_data.clone())),
        Some((200, null_data)),
    ]);
    let r = resolve_post_data(&mut cache, now, "TH1", bare_config(), &mut upstream)
        .expect("fallback record");
    assert_eq!(r.username, "alice");
    assert_eq!(r.media.len(), 1);
    assert_eq!(r.media[0].media_type, MediaType::Image);
    assert_eq!(r.media[0].width, None);
    assert_eq!(r.media[0].height, None);
    assert_eq!(upstream.next, 3);
    // the fallback was written to the cache too
    assert!(cache.get_cached("TH1", now).is_some());
}

#[test]
fn graphql_supersedes_thumbnail_fallback() {
    let mut cache = RecordCache::new();
    let graphql_body = r#"{"data":{"xdt_shortcode_media":{"owner":{"username":"richer"},"is_video":true,"video_url":"https://cdn/v.mp4","display_url":"https://cdn/p.jpg"}}}"#
    .to_string();
    let mut upstream = ScriptedUpstream::new(vec![
        Some((200, thumbnail_embed_page())),
        Some((200, graphql_body)),
    ]);
    let r = resolve_post_data(&mut cache, 7, "GQ1", bare_config(), &mut upstream)
        .expect("record");
    assert_eq!(r.username, "richer");
    assert!(r.is_video);
    assert_eq!(r.media[0].media_type, MediaType::Video);
    assert_eq!(r.media[0].url, "https://cdn/v.mp4");
    assert_eq!(upstream.next, 2);
}

#[test]
fn exhausted_strategies_yield_not_found() {
    let mut cache = RecordCache::new();
    let mut upstream = ScriptedUpstream::new(vec![None, None, None]);
    let r = resolve_post_data(&mut cache, 7, "NF1", bare_config(), &mut upstream);
    assert!(r.is_none());
    assert!(cache.get_cached("NF1", 7).is_none());
}

#[test]
fn private_api_is_reached_with_credential() {
    let mut cache = RecordCache::new();
    let papi_body = r#"{"items":[{"user":{"username":"papiuser"},"taken_at":5,"image_versions2":{"candidates":[{"url":"https://cdn/papi.jpg","width":640,"height":480}]}}]}"#
    .to_string();
    let config = ResolverConfig {
        doc_id: "d".to_string(),
        ig_cookie: Some("12345:tok:1:x".to_string()),
        relay: None,
    };
    let mut upstream = ScriptedUpstream::new(vec![
        None,                              // embed fails
        None,                              // query-API direct fails
        None,                              // query-API routed fails
        Some((200, papi_body)),            // private API direct succeeds
    ]);
    let r = resolve_post_data(&mut cache, 7, "B", config, &mut upstream).expect("record");
    assert_eq!(r.username, "papiuser");
    assert_eq!(r.media.len(), 1);
    assert_eq!(r.media[0].url, "https://cdn/papi.jpg");
    assert_eq!(upstream.next, 4);
}

#[test]
fn video_blocked_embed_is_used_directly() {
    let mut cache = RecordCache::new();
    // a blocked video page that still yields a record through the HTML path:
    // the blocked signal makes the record directly usable, so no further
    // strategy is fetched and the record is cached at once
    let html = r#"WatchOnInstagram<img class="EmbeddedMediaImage" src="https://cdn/blocked.jpg"/>"#
    .to_string();
    let mut upstream = ScriptedUpstream::new(vec![
        Some((200, html)),
        Some((200, "should not be read".to_string())),
    ]);
    let r = resolve_post_data(&mut cache, 7, "VB1", bare_config(), &mut upstream)
        .expect("record");
    assert_eq!(r.media[0].url, "https://cdn/blocked.jpg");
    assert_eq!(upstream.next, 1);
    assert!(cache.get_cached("VB1", 7).is_some());
}

#[test]
fn resolver_machine_finishes_on_cache_hit() {
    let data = InstaData {
        post_id: "K".to_string(),
        username: "u".to_string(),
        caption: None,
        media: vec![Media {
            media_type: MediaType::Image,
            url: "https://x/1.jpg".to_string(),
            thumbnail_url: None,
            width: None,
            height: None,
        }],
        like_count: None,
        comment_count: None,
        is_video: false,
        video_view_count: None,
        timestamp: 0,
    };
    let mut resolver = Resolver::new("K", bare_config());
    match resolver.on_cache(Some(data)) {
        HostAction::Finish { record, write_cache } => {
            assert!(!write_cache);
            assert_eq!(record.expect("record").username, "u");
        },
        HostAction::Fetch(_) => panic!("a cache hit must not fetch"),
    }
}
