use cattgram::home_html::render_home;

#[test]
fn home_contains_title() {
    let html = render_home();
    assert!(html.contains("<title>Cattgram</title>"));
}

#[test]
fn home_contains_pico_css() {
    let html = render_home();
    assert!(html.contains("picocss/pico@2"));
}

#[test]
fn home_contains_supported_formats() {
    let html = render_home();
    assert!(html.contains("/p/:postID"));
    assert!(html.contains("/reel/:postID"));
    assert!(html.contains("/stories/:username/:storyID"));
}

#[test]
fn home_contains_query_params() {
    let html = render_home();
    assert!(html.contains("?direct=true"));
    assert!(html.contains("?img_index=N"));
}
