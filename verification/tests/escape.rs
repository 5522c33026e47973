use cattgram::escape::{escape_html, escape_json_string, unescape_html_entities};

#[test]
fn html_escapes_all_special_chars() {
    assert_eq!(
        escape_html(r#"<script>alert("x&y")</script>"#),
        "&lt;script&gt;alert(&quot;x&amp;y&quot;)&lt;/script&gt;"
    );
}

#[test]
fn html_escapes_single_quote() {
    assert_eq!(escape_html("it's"), "it&#x27;s");
}

#[test]
fn html_passthrough_plain_text() {
    assert_eq!(escape_html("hello world"), "hello world");
}

#[test]
fn json_escapes_backslash_and_quote() {
    assert_eq!(escape_json_string(r#"a\"b"#), r#"a\\\"b"#);
}

#[test]
fn json_escapes_newlines_and_tabs() {
    assert_eq!(escape_json_string("line1\nline2\ttab"), "line1\\nline2\\ttab");
}

#[test]
fn json_escapes_carriage_return() {
    assert_eq!(escape_json_string("a\rb"), "a\\rb");
}

#[test]
fn json_escapes_control_chars() {
    assert_eq!(escape_json_string("\x00\x1f"), "\\u0000\\u001f");
}

#[test]
fn json_passthrough_plain_text() {
    assert_eq!(escape_json_string("hello world"), "hello world");
}

#[test]
fn empty_strings() {
    assert_eq!(escape_html(""), "");
    assert_eq!(escape_json_string(""), "");
}

#[test]
fn unescape_restores_common_entities() {
    assert_eq!(
        unescape_html_entities("&lt;a href=&quot;x&amp;y&quot;&gt;it&#x27;s&lt;/a&gt;"),
        "<a href=\"x&y\">it's</a>"
    );
    assert_eq!(unescape_html_entities("it&#39;s plain"), "it's plain");
}
