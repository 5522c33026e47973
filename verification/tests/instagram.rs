use cattgram::codec::{
    code_to_mediaid, extract_post_id, mediaid_to_code, normalize_cdn_url, resolve_post_id,
};

// --- mediaid_to_code ---

#[test]
fn mediaid_converts_known_values() {
    assert_eq!(mediaid_to_code(2481276043892498677), "CJvQ2ph5iD1");
}

#[test]
fn mediaid_zero_returns_a() {
    assert_eq!(mediaid_to_code(0), "A");
}

#[test]
fn mediaid_small_value() {
    assert_eq!(mediaid_to_code(1), "B");
    assert_eq!(mediaid_to_code(63), "_");
    assert_eq!(mediaid_to_code(64), "BA");
}

#[test]
fn code_roundtrips_known_value() {
    assert_eq!(code_to_mediaid("CJvQ2ph5iD1"), Some(2481276043892498677));
    assert_eq!(code_to_mediaid(mediaid_to_code(987654321).as_str()), Some(987654321));
}

#[test]
fn code_rejects_bad_symbols_and_overflow() {
    assert_eq!(code_to_mediaid("no spaces"), None);
    assert_eq!(code_to_mediaid("!!!"), None);
    // twelve symbols of the top digit exceed u64 range
    assert_eq!(code_to_mediaid("____________"), None);
}

#[test]
fn resolve_post_id_converts_numeric_ids() {
    assert_eq!(resolve_post_id("2481276043892498677"), "CJvQ2ph5iD1");
    assert_eq!(resolve_post_id("ABC123"), "ABC123");
    assert_eq!(resolve_post_id(""), "");
    // too large for a u64: left unchanged
    assert_eq!(resolve_post_id("99999999999999999999999"), "99999999999999999999999");
}

// --- normalize_cdn_url ---

#[test]
fn cdn_url_keeps_allowed_params() {
    let input = "https://scontent.cdninstagram.com/v/image.jpg?stp=dst-jpg&_nc_cat=1&ccb=1-7&oh=abc&oe=def&tracking=bad&efg=remove";
    let result = normalize_cdn_url(input);

    assert!(result.contains("stp=dst-jpg"));
    assert!(result.contains("_nc_cat=1"));
    assert!(result.contains("ccb=1-7"));
    assert!(result.contains("oh=abc"));
    assert!(result.contains("oe=def"));
    assert!(!result.contains("tracking"));
    assert!(!result.contains("efg=remove"));
}

#[test]
fn cdn_url_strips_all_unknown_params() {
    let input = "https://cdn.example.com/image.jpg?tracking=1&fbclid=abc";
    let result = normalize_cdn_url(input);
    assert_eq!(result, "https://cdn.example.com/image.jpg");
}

#[test]
fn cdn_url_returns_original_on_parse_failure() {
    let input = "not-a-url";
    assert_eq!(normalize_cdn_url(input), "not-a-url");
}

#[test]
fn cdn_url_no_query_string() {
    let input = "https://cdn.example.com/image.jpg";
    assert_eq!(normalize_cdn_url(input), "https://cdn.example.com/image.jpg");
}

// --- extract_post_id ---

#[test]
fn extracts_from_p_path() {
    assert_eq!(extract_post_id("/p/ABC123/"), Some("ABC123".to_string()));
}

#[test]
fn extracts_from_reel_path() {
    assert_eq!(
        extract_post_id("/reel/DEF456/"),
        Some("DEF456".to_string())
    );
}

#[test]
fn extracts_from_tv_path() {
    assert_eq!(extract_post_id("/tv/GHI789/"), Some("GHI789".to_string()));
}

#[test]
fn extracts_without_trailing_slash() {
    assert_eq!(extract_post_id("/p/XYZ"), Some("XYZ".to_string()));
}

#[test]
fn extracts_with_extra_segments() {
    assert_eq!(
        extract_post_id("/p/ABC123/embed/captioned"),
        Some("ABC123".to_string())
    );
}

#[test]
fn returns_none_for_unrecognized_path() {
    assert_eq!(extract_post_id("/explore/tags/cat/"), None);
}

#[test]
fn returns_none_for_empty_path() {
    assert_eq!(extract_post_id("/"), None);
    assert_eq!(extract_post_id(""), None);
}

#[test]
fn returns_none_for_prefix_without_id() {
    assert_eq!(extract_post_id("/p/"), None);
}
