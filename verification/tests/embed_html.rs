use cattgram::embed_html::{build_stats_suffix, format_number, push_meta, render_embed, truncate};
use cattgram::types::{image_redirect_target, video_redirect_target, InstaData, Media, MediaType};

fn sample_image_data() -> InstaData {
    InstaData {
        post_id: "ABC123".to_string(),
        username: "testuser".to_string(),
        caption: Some("Hello world!".to_string()),
        media: vec![Media {
            media_type: MediaType::Image,
            url: "https://cdn.example.com/image.jpg".to_string(),
            thumbnail_url: None,
            width: Some(1080),
            height: Some(1080),
        }],
        like_count: Some(42),
        comment_count: Some(5),
        is_video: false,
        video_view_count: None,
        timestamp: 1700000000,
    }
}

#[test]
fn embed_contains_og_title_with_username() {
    let data = sample_image_data();
    let html = render_embed(&data, "cattgram.com", None);
    assert!(html.contains(r#"og:title" content="@testuser"#));
}

#[test]
fn embed_contains_og_image_for_image_media() {
    let data = sample_image_data();
    let html = render_embed(&data, "cattgram.com", None);
    assert!(html.contains(r#"og:image" content="https://cdn.example.com/image.jpg"#));
    assert!(html.contains(r#"twitter:card" content="summary_large_image"#));
}

#[test]
fn embed_contains_oembed_link() {
    let data = sample_image_data();
    let html = render_embed(&data, "cattgram.com", None);
    assert!(html.contains(r#"application/json+oembed"#));
    assert!(html.contains("cattgram.com/oembed"));
}

#[test]
fn embed_escapes_html_in_caption() {
    let mut data = sample_image_data();
    data.caption = Some("<script>alert('xss')</script>".to_string());
    let html = render_embed(&data, "cattgram.com", None);
    assert!(!html.contains("<script>"));
    assert!(html.contains("&lt;script&gt;"));
}

#[test]
fn embed_truncates_long_caption() {
    let mut data = sample_image_data();
    data.caption = Some("a".repeat(500));
    let html = render_embed(&data, "cattgram.com", None);
    // 300 chars + "..."
    assert!(html.contains(&format!("{}...", "a".repeat(300))));
}

#[test]
fn embed_shows_video_tags() {
    let mut data = sample_image_data();
    data.is_video = true;
    data.video_view_count = Some(1000);
    data.media = vec![Media {
        media_type: MediaType::Video,
        url: "https://cdn.example.com/video.mp4".to_string(),
        thumbnail_url: Some("https://cdn.example.com/thumb.jpg".to_string()),
        width: Some(1920),
        height: Some(1080),
    }];
    let html = render_embed(&data, "cattgram.com", None);
    assert!(html.contains(r#"og:video" content="https://cdn.example.com/video.mp4"#));
    assert!(html.contains(r#"twitter:card" content="player"#));
    assert!(html.contains(r#"og:image" content="https://cdn.example.com/thumb.jpg"#));
    assert!(html.contains("1,000 views"));
}

#[test]
fn embed_carousel_shows_slide_info() {
    let mut data = sample_image_data();
    data.media.push(Media {
        media_type: MediaType::Image,
        url: "https://cdn.example.com/image2.jpg".to_string(),
        thumbnail_url: None,
        width: Some(1080),
        height: Some(1080),
    });
    let html = render_embed(&data, "cattgram.com", Some(2));
    assert!(html.contains("Slide 2/2"));
    assert!(html.contains("image2.jpg"));
}

#[test]
fn format_number_adds_commas() {
    assert_eq!(format_number(0), "0");
    assert_eq!(format_number(999), "999");
    assert_eq!(format_number(1000), "1,000");
    assert_eq!(format_number(1234567), "1,234,567");
}

#[test]
fn truncate_cuts_and_marks() {
    assert_eq!(truncate("hello", 10), "hello");
    assert_eq!(truncate("abcdef", 3), "abc...");
    assert_eq!(truncate("", 0), "");
    assert_eq!(truncate("abc", 3), "abc");
}

#[test]
fn truncate_never_splits_a_multibyte_character() {
    // the cut counts UTF-8 bytes and backs off to a character boundary
    assert_eq!(truncate("h\u{e9}llo", 6), "h\u{e9}llo");
    assert_eq!(truncate("h\u{e9}llo", 5), "h\u{e9}ll...");
    assert_eq!(truncate("h\u{e9}llo", 4), "h\u{e9}l...");
    assert_eq!(truncate("h\u{e9}llo", 2), "h...");
    assert_eq!(truncate("a\u{e9}", 2), "a...");
    assert_eq!(truncate("\u{e9}\u{e9}", 1), "...");
}

#[test]
fn push_meta_appends_one_tag() {
    let mut buf = String::from("x");
    push_meta(&mut buf, "property", "og:title", "hello");
    assert_eq!(buf, "x<meta property=\"og:title\" content=\"hello\">\n");
}

#[test]
fn stats_suffix_joins_present_parts() {
    let mut data = sample_image_data();
    assert_eq!(build_stats_suffix(&data, 1, None), " | 42 likes, 5 comments");
    data.like_count = None;
    data.comment_count = None;
    assert_eq!(build_stats_suffix(&data, 1, None), "");
    data.is_video = true;
    data.video_view_count = Some(1500);
    assert_eq!(build_stats_suffix(&data, 2, Some(2)), " | 1,500 views, Slide 2/2");
}

#[test]
fn media_redirect_targets_select_by_kind() {
    let mut data = sample_image_data();
    assert_eq!(
        image_redirect_target(&data, 1).as_deref(),
        Some("https://cdn.example.com/image.jpg")
    );
    assert!(video_redirect_target(&data, 1).is_none());
    assert!(image_redirect_target(&data, 2).is_none());
    data.media = vec![Media {
        media_type: MediaType::Video,
        url: "https://cdn.example.com/video.mp4".to_string(),
        thumbnail_url: Some("https://cdn.example.com/thumb.jpg".to_string()),
        width: None,
        height: None,
    }];
    assert_eq!(
        video_redirect_target(&data, 1).as_deref(),
        Some("https://cdn.example.com/video.mp4")
    );
    // a video's poster image stands in for the image redirect
    assert_eq!(
        image_redirect_target(&data, 1).as_deref(),
        Some("https://cdn.example.com/thumb.jpg")
    );
}
