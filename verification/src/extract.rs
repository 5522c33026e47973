//! The pure text extractors: brace-balanced and quote-aware scanning over
//! raw payload text, and the shaping of a media-owner JSON node into the
//! normalized record.

use vstd::prelude::*;

use crate::json::{
    parse_json, spec_as_arr, spec_as_bool, spec_as_str, spec_as_u64, spec_get, spec_parsed_json,
    Json,
};
use crate::escape::{spec_unescape_entities, unescape_html_entities};
use crate::text::{
    chars_to_string, contains_seq, find_from, rfind_before, spec_find_from, spec_rfind_before,
    spec_trim, str_contains, str_to_chars, subrange_chars, trim_chars,
};
use crate::types::{
    spec_media_views, spec_thumbnail_only, InstaData, InstaDataV, Media, MediaType, MediaV,
};

verus! {

/// The end (exclusive) of the brace-balanced object scan of `s` from
/// position `i` in state (`depth` open braces, inside a string literal,
/// escape pending). Braces inside string literals are ignored; the scan
/// ends just after the brace that closes the outermost opened one; a
/// closing brace with no opener fails the scan.
pub open spec fn spec_balanced_end(
    s: Seq<char>,
    i: int,
    depth: int,
    in_string: bool,
    escape_next: bool,
) -> Option<int>
    decreases s.len() - i,
{
    if i < 0 || i >= s.len() {
        None
    } else if escape_next {
        spec_balanced_end(s, i + 1, depth, in_string, false)
    } else if s[i] == '\\' && in_string {
        spec_balanced_end(s, i + 1, depth, in_string, true)
    } else if s[i] == '"' {
        spec_balanced_end(s, i + 1, depth, !in_string, false)
    } else if in_string {
        spec_balanced_end(s, i + 1, depth, in_string, false)
    } else if s[i] == '{' {
        spec_balanced_end(s, i + 1, depth + 1, false, false)
    } else if s[i] == '}' {
        if depth == 1 {
            Some(i + 1)
        } else if depth <= 0 {
            None
        } else {
            spec_balanced_end(s, i + 1, depth - 1, false, false)
        }
    } else {
        spec_balanced_end(s, i + 1, depth, false, false)
    }
}

/// Scans for the end (exclusive) of the balanced object starting at
/// `start`, tracking string literals and escapes so that braces inside
/// string values are ignored.
pub fn balanced_object_end(v: &Vec<char>, start: usize) -> (r: Option<usize>)
    requires
        start <= v@.len(),
    ensures
        match r {
            Some(e) => start < e <= v@.len() && spec_balanced_end(
                v@,
                start as int,
                0,
                false,
                false,
            ) == Some(e as int),
            None => spec_balanced_end(v@, start as int, 0, false, false) is None,
        },
{
    let mut i = start;
    let mut depth: usize = 0;
    let mut in_string = false;
    let mut escape_next = false;
    while i < v.len()
        invariant
            start <= i <= v@.len(),
            depth <= i - start,
            spec_balanced_end(v@, start as int, 0, false, false) == spec_balanced_end(
                v@,
                i as int,
                depth as int,
                in_string,
                escape_next,
            ),
        decreases v@.len() - i,
    {
        let c = v[i];
        if escape_next {
            escape_next = false;
        } else if c == '\\' && in_string {
            escape_next = true;
        } else if c == '"' {
            in_string = !in_string;
        } else if in_string {
            // stay inside the string literal
        } else if c == '{' {
            depth += 1;
        } else if c == '}' {
            if depth == 1 {
                return Some(i + 1);
            }
            if depth == 0 {
                return None;
            }
            depth -= 1;
        }
        i += 1;
    }
    None
}

/// The end of the JSON string literal scan of `s` from `i`: the position of
/// the first unescaped double quote.
pub open spec fn spec_string_literal_end(s: Seq<char>, i: int, escape: bool) -> Option<int>
    decreases s.len() - i,
{
    if i < 0 || i >= s.len() {
        None
    } else if escape {
        spec_string_literal_end(s, i + 1, false)
    } else if s[i] == '\\' {
        spec_string_literal_end(s, i + 1, true)
    } else if s[i] == '"' {
        Some(i)
    } else {
        spec_string_literal_end(s, i + 1, false)
    }
}

/// Scans for the first unescaped double quote at or after `start`.
pub fn string_literal_end(v: &Vec<char>, start: usize) -> (r: Option<usize>)
    requires
        start <= v@.len(),
    ensures
        match r {
            Some(e) => start <= e < v@.len() && spec_string_literal_end(
                v@,
                start as int,
                false,
            ) == Some(e as int),
            None => spec_string_literal_end(v@, start as int, false) is None,
        },
{
    let mut i = start;
    let mut escape = false;
    while i < v.len()
        invariant
            start <= i <= v@.len(),
            spec_string_literal_end(v@, start as int, false) == spec_string_literal_end(
                v@,
                i as int,
                escape,
            ),
        decreases v@.len() - i,
    {
        let c = v[i];
        if escape {
            escape = false;
        } else if c == '\\' {
            escape = true;
        } else if c == '"' {
            return Some(i);
        }
        i += 1;
    }
    None
}

/// A successful balanced scan ends just after a closing brace.
pub proof fn lemma_balanced_end_closes(
    s: Seq<char>,
    i: int,
    depth: int,
    in_string: bool,
    escape_next: bool,
)
    ensures
        match spec_balanced_end(s, i, depth, in_string, escape_next) {
            Some(e) => i < e <= s.len() && s[e - 1] == '}',
            None => true,
        },
    decreases s.len() - i,
{
    if i < 0 || i >= s.len() {
    } else if escape_next {
        lemma_balanced_end_closes(s, i + 1, depth, in_string, false);
    } else if s[i] == '\\' && in_string {
        lemma_balanced_end_closes(s, i + 1, depth, in_string, true);
    } else if s[i] == '"' {
        lemma_balanced_end_closes(s, i + 1, depth, !in_string, false);
    } else if in_string {
        lemma_balanced_end_closes(s, i + 1, depth, in_string, false);
    } else if s[i] == '{' {
        lemma_balanced_end_closes(s, i + 1, depth + 1, false, false);
    } else if s[i] == '}' {
        if depth == 1 {
        } else if depth <= 0 {
        } else {
            lemma_balanced_end_closes(s, i + 1, depth - 1, false, false);
        }
    } else {
        lemma_balanced_end_closes(s, i + 1, depth, false, false);
    }
}

/// Whatever stands inside the strings of the payload, a successful
/// brace-balanced extraction yields a whole object: the text starts at an
/// opening brace and ends at the brace the scan matched to it.
pub proof fn lemma_extracted_object_is_braced(html: Seq<char>, needle: Seq<char>)
    ensures
        match spec_extract_balanced_json(html, needle) {
            Some(sub) => sub.len() >= 2 && sub[0] == '{' && sub[sub.len() - 1] == '}',
            None => true,
        },
{
    match spec_find_from(html, needle, 0) {
        None => {},
        Some(p) => {
            crate::text::lemma_find_from_bounds(html, seq!['{'], p + needle.len());
            match spec_find_from(html, seq!['{'], p + needle.len()) {
                None => {},
                Some(b) => {
                    assert(crate::text::match_at(html, seq!['{'], b));
                    assert(html.subrange(b, b + 1)[0] == html[b]);
                    assert(html.subrange(b, b + 1) == seq!['{']);
                    assert(html[b] == '{');
                    assert(spec_balanced_end(html, b, 0, false, false) == spec_balanced_end(
                        html,
                        b + 1,
                        1,
                        false,
                        false,
                    ));
                    lemma_balanced_end_closes(html, b + 1, 1, false, false);
                    match spec_balanced_end(html, b, 0, false, false) {
                        None => {},
                        Some(e) => {
                            assert(e > b + 1);
                            assert(html.subrange(b, e)[0] == html[b]);
                            assert(html.subrange(b, e)[e - b - 1] == html[e - 1]);
                        },
                    }
                },
            }
        },
    }
}

/// The brace-balanced JSON object extracted after the first occurrence of
/// `needle`: the text from the first `{` following the needle up to its
/// matching closing brace.
pub open spec fn spec_extract_balanced_json(html: Seq<char>, needle: Seq<char>) -> Option<
    Seq<char>,
> {
    match spec_find_from(html, needle, 0) {
        None => None,
        Some(p) => match spec_find_from(html, seq!['{'], p + needle.len()) {
            None => None,
            Some(b) => match spec_balanced_end(html, b, 0, false, false) {
                None => None,
                Some(e) => Some(html.subrange(b, e)),
            },
        },
    }
}

/// Locates `"shortcode_media":` in the page and extracts the balanced JSON
/// object that follows it.
pub fn extract_shortcode_media_json(html: &str) -> (r: Option<String>)
    ensures
        match r {
            Some(s) => spec_extract_balanced_json(html@, "\"shortcode_media\":"@) == Some(s@),
            None => spec_extract_balanced_json(html@, "\"shortcode_media\":"@) is None,
        },
{
    let hv = str_to_chars(html);
    let needle = str_to_chars("\"shortcode_media\":");
    let p = match find_from(&hv, &needle, 0) {
        Some(p) => p,
        None => {
            return None;
        },
    };
    let mut brace: Vec<char> = Vec::new();
    brace.push('{');
    assert(brace@ =~= seq!['{']);
    let hlen = hv.len();
    assert(p + needle@.len() <= hlen);
    let b = match find_from(&hv, &brace, p + needle.len()) {
        Some(b) => b,
        None => {
            return None;
        },
    };
    let e = match balanced_object_end(&hv, b) {
        Some(e) => e,
        None => {
            return None;
        },
    };
    let sub = subrange_chars(&hv, b, e);
    Some(chars_to_string(&sub))
}

/// Field lookup two levels deep.
pub open spec fn spec_get_path2(j: Json, k1: Seq<char>, k2: Seq<char>) -> Option<Json> {
    match spec_get(j, k1) {
        Some(v) => spec_get(v, k2),
        None => None,
    }
}

/// The `u64` number under `key`, if the field is there and is one.
pub open spec fn spec_opt_u64(j: Json, key: Seq<char>) -> Option<u64> {
    match spec_get(j, key) {
        Some(v) => spec_as_u64(v),
        None => None,
    }
}

/// The boolean under `key`, absent or non-boolean reading as false.
pub open spec fn spec_bool_or_false(j: Json, key: Seq<char>) -> bool {
    match spec_get(j, key) {
        Some(v) => match spec_as_bool(v) {
            Some(b) => b,
            None => false,
        },
        None => false,
    }
}

/// The `count` number nested under `key`.
pub open spec fn spec_count_at(j: Json, key: Seq<char>) -> Option<u64> {
    match spec_get_path2(j, key, "count"@) {
        Some(v) => spec_as_u64(v),
        None => None,
    }
}

/// Field lookup two levels deep.
pub fn get_path2<'a>(j: &'a Json, k1: &str, k2: &str) -> (r: Option<&'a Json>)
    ensures
        match r {
            Some(v) => spec_get_path2(*j, k1@, k2@) == Some(*v),
            None => spec_get_path2(*j, k1@, k2@) is None,
        },
{
    match j.get(k1) {
        Some(v) => v.get(k2),
        None => None,
    }
}

/// The `u64` number under `key`, if the field is there and is one.
pub fn opt_u64_at(j: &Json, key: &str) -> (r: Option<u64>)
    ensures
        r == spec_opt_u64(*j, key@),
{
    match j.get(key) {
        Some(v) => v.as_u64(),
        None => None,
    }
}

/// The boolean under `key`, absent or non-boolean reading as false.
pub fn bool_or_false_at(j: &Json, key: &str) -> (r: bool)
    ensures
        r == spec_bool_or_false(*j, key@),
{
    match j.get(key) {
        Some(v) => match v.as_bool() {
            Some(b) => b,
            None => false,
        },
        None => false,
    }
}

/// The `count` number nested under `key`.
pub fn count_at(j: &Json, key: &str) -> (r: Option<u64>)
    ensures
        r == spec_count_at(*j, key@),
{
    match get_path2(j, key, "count") {
        Some(v) => v.as_u64(),
        None => None,
    }
}

/// The shaping of one media-owner node into a media item. A node flagged as
/// video takes its URL from the video-url field (empty when missing) and
/// its optional poster from the display-url field; any other node is an
/// image taking its URL from the display-url field. Dimensions are read
/// from the nested dimensions object, absent when missing.
pub open spec fn spec_media_from_node(n: Json) -> MediaV {
    let is_video = spec_bool_or_false(n, "is_video"@);
    let width = match spec_opt_u64_path2(n, "dimensions"@, "width"@) {
        Some(w) => Some(w as u32),
        None => None,
    };
    let height = match spec_opt_u64_path2(n, "dimensions"@, "height"@) {
        Some(h) => Some(h as u32),
        None => None,
    };
    let display = match spec_get(n, "display_url"@) {
        Some(v) => spec_as_str(v),
        None => None,
    };
    if is_video {
        MediaV {
            media_type: MediaType::Video,
            url: match spec_get(n, "video_url"@) {
                Some(v) => match spec_as_str(v) {
                    Some(u) => u,
                    None => Seq::empty(),
                },
                None => Seq::empty(),
            },
            thumbnail_url: display,
            width,
            height,
        }
    } else {
        MediaV {
            media_type: MediaType::Image,
            url: match display {
                Some(u) => u,
                None => Seq::empty(),
            },
            thumbnail_url: None,
            width,
            height,
        }
    }
}

/// The `u64` number nested two fields deep.
pub open spec fn spec_opt_u64_path2(j: Json, k1: Seq<char>, k2: Seq<char>) -> Option<u64> {
    match spec_get_path2(j, k1, k2) {
        Some(v) => spec_as_u64(v),
        None => None,
    }
}

/// Converts a single media-owner node into a `Media`.
pub fn media_from_node(node: &Json) -> (m: Media)
    ensures
        m@ == spec_media_from_node(*node),
{
    let is_video = bool_or_false_at(node, "is_video");
    let width: Option<u32> = match get_path2(node, "dimensions", "width") {
        Some(v) => match v.as_u64() {
            Some(w) => Some(w as u32),
            None => None,
        },
        None => None,
    };
    let height: Option<u32> = match get_path2(node, "dimensions", "height") {
        Some(v) => match v.as_u64() {
            Some(h) => Some(h as u32),
            None => None,
        },
        None => None,
    };
    let m = if is_video {
        let url: String = match node.get("video_url") {
            Some(v) => match v.as_str() {
                Some(s) => s.clone(),
                None => String::new(),
            },
            None => String::new(),
        };
        let thumbnail_url: Option<String> = match node.get("display_url") {
            Some(v) => match v.as_str() {
                Some(s) => Some(s.clone()),
                None => None,
            },
            None => None,
        };
        Media { media_type: MediaType::Video, url, thumbnail_url, width, height }
    } else {
        let url: String = match node.get("display_url") {
            Some(v) => match v.as_str() {
                Some(s) => s.clone(),
                None => String::new(),
            },
            None => String::new(),
        };
        Media { media_type: MediaType::Image, url, thumbnail_url: None, width, height }
    };
    assert(m@ =~= spec_media_from_node(*node));
    m
}

/// The media items contributed by a carousel edge list: one item per edge
/// that holds a node, in original order.
pub open spec fn spec_media_of_edges(edges: Seq<Json>) -> Seq<MediaV>
    decreases edges.len(),
{
    if edges.len() == 0 {
        Seq::empty()
    } else {
        let rest = spec_media_of_edges(edges.drop_first());
        match spec_get(edges[0], "node"@) {
            Some(n) => seq![spec_media_from_node(n)] + rest,
            None => rest,
        }
    }
}

proof fn lemma_media_of_edges_push(edges: Seq<Json>, x: Json)
    ensures
        spec_media_of_edges(edges.push(x)) == spec_media_of_edges(edges) + (match spec_get(
            x,
            "node"@,
        ) {
            Some(n) => seq![spec_media_from_node(n)],
            None => Seq::<MediaV>::empty(),
        }),
    decreases edges.len(),
{
    let added = (match spec_get(x, "node"@) {
        Some(n) => seq![spec_media_from_node(n)],
        None => Seq::<MediaV>::empty(),
    });
    if edges.len() == 0 {
        assert(edges.push(x)[0] == x);
        assert(edges.push(x).drop_first() =~= Seq::<Json>::empty());
        assert(spec_media_of_edges(Seq::<Json>::empty()) == Seq::<MediaV>::empty());
        assert(spec_media_of_edges(edges) == Seq::<MediaV>::empty());
        match spec_get(x, "node"@) {
            Some(n) => {
                assert(spec_media_of_edges(edges.push(x)) == seq![spec_media_from_node(n)]
                    + Seq::<MediaV>::empty());
                assert(seq![spec_media_from_node(n)] + Seq::<MediaV>::empty() =~= added);
                assert(spec_media_of_edges(edges) + added =~= added);
            },
            None => {
                assert(spec_media_of_edges(edges.push(x)) == Seq::<MediaV>::empty());
                assert(spec_media_of_edges(edges) + added =~= Seq::<MediaV>::empty());
            },
        }
    } else {
        assert(edges.push(x).drop_first() =~= edges.drop_first().push(x));
        assert(edges.push(x)[0] == edges[0]);
        lemma_media_of_edges_push(edges.drop_first(), x);
        match spec_get(edges[0], "node"@) {
            Some(n) => {
                assert(seq![spec_media_from_node(n)] + (spec_media_of_edges(edges.drop_first())
                    + added) =~= (seq![spec_media_from_node(n)] + spec_media_of_edges(
                    edges.drop_first(),
                )) + added);
            },
            None => {},
        }
    }
}

/// The media list of a media-owner node: one item per carousel child when
/// the node holds a child edge list, else the single item for the node
/// itself.
pub open spec fn spec_build_media_list(m: Json) -> Seq<MediaV> {
    match spec_get_path2(m, "edge_sidecar_to_children"@, "edges"@) {
        Some(e) => match spec_as_arr(e) {
            Some(edges) => spec_media_of_edges(edges),
            None => seq![spec_media_from_node(m)],
        },
        None => seq![spec_media_from_node(m)],
    }
}

/// Builds the media list from the media-owner node, handling carousels and
/// single posts. A carousel with N child nodes yields exactly N items, in
/// original order.
pub fn build_media_list(media: &Json) -> (r: Vec<Media>)
    ensures
        spec_media_views(r@) == spec_build_media_list(*media),
{
    match get_path2(media, "edge_sidecar_to_children", "edges") {
        Some(e) => match e.as_array() {
            Some(children) => {
                let mut r: Vec<Media> = Vec::new();
                let mut i: usize = 0;
                assert(children@.take(0) =~= Seq::<Json>::empty());
                assert(spec_media_views(r@) =~= spec_media_of_edges(children@.take(0)));
                while i < children.len()
                    invariant
                        i <= children@.len(),
                        spec_media_views(r@) == spec_media_of_edges(children@.take(i as int)),
                    decreases children@.len() - i,
                {
                    let ghost prev = r@;
                    match children[i].get("node") {
                        Some(node) => {
                            let m = media_from_node(node);
                            r.push(m);
                            assert(spec_media_views(r@) =~= spec_media_views(prev) + seq![
                                spec_media_from_node(*node),
                            ]);
                        },
                        None => {
                            assert(spec_media_views(r@) =~= spec_media_views(prev)
                                + Seq::<MediaV>::empty());
                        },
                    }
                    proof {
                        lemma_media_of_edges_push(children@.take(i as int), children@[i as int]);
                        assert(children@.take(i as int).push(children@[i as int])
                            =~= children@.take(i + 1));
                    }
                    i += 1;
                }
                assert(children@.take(children@.len() as int) =~= children@);
                r
            },
            None => {
                let mut r: Vec<Media> = Vec::new();
                r.push(media_from_node(media));
                assert(spec_media_views(r@) =~= seq![spec_media_from_node(*media)]);
                r
            },
        },
        None => {
            let mut r: Vec<Media> = Vec::new();
            r.push(media_from_node(media));
            assert(spec_media_views(r@) =~= seq![spec_media_from_node(*media)]);
            r
        },
    }
}

/// Carousel shaping keeps count and order: a child edge list whose edges
/// all carry nodes yields exactly one media item per edge, the i-th item
/// shaped from the i-th node.
pub proof fn lemma_media_of_edges_order(edges: Seq<Json>)
    requires
        forall|i: int| 0 <= i < edges.len() ==> (#[trigger] spec_get(edges[i], "node"@)) is Some,
    ensures
        spec_media_of_edges(edges).len() == edges.len(),
        forall|i: int|
            0 <= i < edges.len() ==> #[trigger] spec_media_of_edges(edges)[i]
                == spec_media_from_node(spec_get(edges[i], "node"@)->0),
    decreases edges.len(),
{
    if edges.len() > 0 {
        assert(spec_get(edges[0], "node"@) is Some);
        lemma_media_of_edges_order(edges.drop_first());
        let rest = spec_media_of_edges(edges.drop_first());
        let n0 = spec_get(edges[0], "node"@)->0;
        assert(spec_media_of_edges(edges) == seq![spec_media_from_node(n0)] + rest);
        assert forall|i: int| 0 <= i < edges.len() implies #[trigger] spec_media_of_edges(
            edges,
        )[i] == spec_media_from_node(spec_get(edges[i], "node"@)->0) by {
            if i == 0 {
            } else {
                assert(edges.drop_first()[i - 1] == edges[i]);
                assert(rest[i - 1] == spec_media_from_node(
                    spec_get(edges.drop_first()[i - 1], "node"@)->0,
                ));
            }
        }
    }
}

/// A media-owner node with a child edge list of N node-bearing edges
/// yields exactly N media items, in original order; a node without one
/// yields exactly one, shaped from the node itself.
pub proof fn lemma_carousel_media_count(m: Json)
    ensures
        (match spec_get_path2(m, "edge_sidecar_to_children"@, "edges"@) {
            Some(e) => match spec_as_arr(e) {
                Some(edges) => (forall|i: int|
                    0 <= i < edges.len() ==> (#[trigger] spec_get(edges[i], "node"@)) is Some)
                    ==> spec_build_media_list(m).len() == edges.len(),
                None => spec_build_media_list(m).len() == 1,
            },
            None => spec_build_media_list(m).len() == 1,
        }),
{
    match spec_get_path2(m, "edge_sidecar_to_children"@, "edges"@) {
        Some(e) => match spec_as_arr(e) {
            Some(edges) => {
                if forall|i: int|
                    0 <= i < edges.len() ==> (#[trigger] spec_get(edges[i], "node"@)) is Some {
                    lemma_media_of_edges_order(edges);
                }
            },
            None => {},
        },
        None => {},
    }
}

/// The caption text: the text of the node of the first caption edge.
pub open spec fn spec_caption(m: Json) -> Option<Seq<char>> {
    match spec_get_path2(m, "edge_media_to_caption"@, "edges"@) {
        Some(e) => match spec_as_arr(e) {
            Some(arr) => if arr.len() > 0 {
                match spec_get_path2(arr[0], "node"@, "text"@) {
                    Some(t) => spec_as_str(t),
                    None => None,
                }
            } else {
                None
            },
            None => None,
        },
        None => None,
    }
}

fn caption_of(m: &Json) -> (r: Option<String>)
    ensures
        match r {
            Some(c) => spec_caption(*m) == Some(c@),
            None => spec_caption(*m) is None,
        },
{
    match get_path2(m, "edge_media_to_caption", "edges") {
        Some(e) => match e.as_array() {
            Some(arr) => {
                if arr.len() > 0 {
                    match get_path2(&arr[0], "node", "text") {
                        Some(t) => match t.as_str() {
                            Some(s) => Some(s.clone()),
                            None => None,
                        },
                        None => None,
                    }
                } else {
                    None
                }
            },
            None => None,
        },
        None => None,
    }
}

/// The shaping of a media-owner node into the normalized record: fails
/// exactly when the node has no owner username; every other field is read
/// with absence tolerance.
pub open spec fn spec_parse_shortcode_media(m: Json, post_id: Seq<char>) -> Option<InstaDataV> {
    match spec_get_path2(m, "owner"@, "username"@) {
        Some(u) => match spec_as_str(u) {
            Some(username) => Some(
                InstaDataV {
                    post_id: post_id,
                    username: username,
                    caption: spec_caption(m),
                    media: spec_build_media_list(m),
                    like_count: spec_count_at(m, "edge_media_preview_like"@),
                    comment_count: spec_count_at(m, "edge_media_to_comment"@),
                    is_video: spec_bool_or_false(m, "is_video"@),
                    video_view_count: spec_opt_u64(m, "video_view_count"@),
                    timestamp: match spec_opt_u64(m, "taken_at_timestamp"@) {
                        Some(t) => t,
                        None => 0,
                    },
                },
            ),
            None => None,
        },
        None => None,
    }
}

/// Parses a media-owner JSON node into the normalized record for `post_id`.
/// Returns `None` exactly when the node carries no owner username.
pub fn parse_shortcode_media(media: &Json, post_id: &str) -> (r: Option<InstaData>)
    ensures
        match r {
            Some(d) => spec_parse_shortcode_media(*media, post_id@) == Some(d@),
            None => spec_parse_shortcode_media(*media, post_id@) is None,
        },
{
    let username: String = match get_path2(media, "owner", "username") {
        Some(u) => match u.as_str() {
            Some(s) => s.clone(),
            None => {
                return None;
            },
        },
        None => {
            return None;
        },
    };
    let caption = caption_of(media);
    let is_video = bool_or_false_at(media, "is_video");
    let timestamp: u64 = match opt_u64_at(media, "taken_at_timestamp") {
        Some(t) => t,
        None => 0,
    };
    let like_count = count_at(media, "edge_media_preview_like");
    let comment_count = count_at(media, "edge_media_to_comment");
    let video_view_count = opt_u64_at(media, "video_view_count");
    let media_items = build_media_list(media);
    let d = InstaData {
        post_id: post_id.to_owned(),
        username,
        caption,
        media: media_items,
        like_count,
        comment_count,
        is_video,
        video_view_count,
        timestamp,
    };
    proof {
        let expect = spec_parse_shortcode_media(*media, post_id@)->0;
        assert(d@ =~= expect);
    }
    Some(d)
}

/// The record extracted from the embedded `shortcode_media` JSON blob.
pub open spec fn spec_extract_from_json(html: Seq<char>, post_id: Seq<char>) -> Option<
    InstaDataV,
> {
    match spec_extract_balanced_json(html, "\"shortcode_media\":"@) {
        None => None,
        Some(sub) => match spec_parsed_json(sub) {
            None => None,
            Some(j) => spec_parse_shortcode_media(j, post_id),
        },
    }
}

/// Extracts post data from the embedded `shortcode_media` JSON blob in the
/// page.
pub fn extract_from_json(html: &str, post_id: &str) -> (r: Option<InstaData>)
    ensures
        match r {
            Some(d) => spec_extract_from_json(html@, post_id@) == Some(d@),
            None => spec_extract_from_json(html@, post_id@) is None,
        },
{
    let sub = match extract_shortcode_media_json(html) {
        Some(s) => s,
        None => {
            return None;
        },
    };
    let j = match parse_json(sub.as_str()) {
        Some(j) => j,
        None => {
            return None;
        },
    };
    parse_shortcode_media(&j, post_id)
}

/// The double-encoded `contextJSON` string literal of the page, with its
/// quotes: from the quote that opens the value to the first unescaped
/// closing quote.
pub open spec fn spec_context_json_blob(html: Seq<char>) -> Option<Seq<char>> {
    match spec_find_from(html, "\"contextJSON\":\""@, 0) {
        None => None,
        Some(p) => {
            let qs = p + "\"contextJSON\":\""@.len() - 1;
            match spec_string_literal_end(html, qs + 1, false) {
                None => None,
                Some(e) => Some(html.subrange(qs, e + 1)),
            }
        },
    }
}

/// The record extracted from the double-encoded `contextJSON` value: the
/// quoted literal is parsed to unescape it, the inner document is parsed in
/// turn, and the media-owner node is found under `gql_data`.
pub open spec fn spec_extract_from_context_json(html: Seq<char>, post_id: Seq<char>) -> Option<
    InstaDataV,
> {
    match spec_context_json_blob(html) {
        None => None,
        Some(blob) => match spec_parsed_json(blob) {
            None => None,
            Some(jv) => match spec_as_str(jv) {
                None => None,
                Some(inner) => match spec_parsed_json(inner) {
                    None => None,
                    Some(ctx) => match spec_get(ctx, "gql_data"@) {
                        None => None,
                        Some(g) => match spec_get(g, "shortcode_media"@) {
                            Some(m) => spec_parse_shortcode_media(m, post_id),
                            None => match spec_get(g, "xdt_shortcode_media"@) {
                                Some(m) => spec_parse_shortcode_media(m, post_id),
                                None => None,
                            },
                        },
                    },
                },
            },
        },
    }
}

/// Extracts post data from the double-encoded `contextJSON` value in the
/// embed page.
pub fn extract_from_context_json(html: &str, post_id: &str) -> (r: Option<InstaData>)
    ensures
        match r {
            Some(d) => spec_extract_from_context_json(html@, post_id@) == Some(d@),
            None => spec_extract_from_context_json(html@, post_id@) is None,
        },
{
    proof {
        reveal_strlit("\"contextJSON\":\"");
    }
    let hv = str_to_chars(html);
    let needle = str_to_chars("\"contextJSON\":\"");
    let p = match find_from(&hv, &needle, 0) {
        Some(p) => p,
        None => {
            return None;
        },
    };
    let hlen = hv.len();
    assert(p + needle@.len() <= hlen);
    let qs = p + needle.len() - 1;
    assert(qs + 1 <= hlen);
    let e = match string_literal_end(&hv, qs + 1) {
        Some(e) => e,
        None => {
            return None;
        },
    };
    let blob = subrange_chars(&hv, qs, e + 1);
    let blob_s = chars_to_string(&blob);
    let j = match parse_json(blob_s.as_str()) {
        Some(j) => j,
        None => {
            return None;
        },
    };
    let inner = match j.as_str() {
        Some(s) => s,
        None => {
            return None;
        },
    };
    let ctx = match parse_json(inner.as_str()) {
        Some(c) => c,
        None => {
            return None;
        },
    };
    let g = match ctx.get("gql_data") {
        Some(g) => g,
        None => {
            return None;
        },
    };
    match g.get("shortcode_media") {
        Some(m) => parse_shortcode_media(m, post_id),
        None => match g.get("xdt_shortcode_media") {
            Some(m) => parse_shortcode_media(m, post_id),
            None => None,
        },
    }
}

/// The attribute value pulled from the tag owning the first occurrence of a
/// class-name marker: the scan walks backward to the tag's `<`, forward to
/// its `>`, finds `attr="` inside the tag text, and takes the value up to
/// the next quote, with HTML entities unescaped.
pub open spec fn spec_extract_attr_from_class(
    html: Seq<char>,
    class: Seq<char>,
    attr: Seq<char>,
) -> Option<Seq<char>> {
    match spec_find_from(html, class, 0) {
        None => None,
        Some(cp) => match spec_rfind_before(html, '<', cp) {
            None => None,
            Some(ts) => match spec_find_from(html, seq!['>'], ts) {
                None => None,
                Some(te) => {
                    let tag = html.subrange(ts, te + 1);
                    let needle = attr + seq!['=', '"'];
                    match spec_find_from(tag, needle, 0) {
                        None => None,
                        Some(a) => {
                            let vs = a + needle.len();
                            match spec_find_from(tag, seq!['"'], vs) {
                                None => None,
                                Some(ve) => Some(spec_unescape_entities(tag.subrange(vs, ve))),
                            }
                        },
                    }
                },
            },
        },
    }
}

/// Finds an element with the given class name and extracts a specific
/// attribute value, unescaping HTML entities.
pub fn extract_attr_from_class(html: &str, class_name: &str, attr: &str) -> (r: Option<String>)
    ensures
        match r {
            Some(s) => spec_extract_attr_from_class(html@, class_name@, attr@) == Some(s@),
            None => spec_extract_attr_from_class(html@, class_name@, attr@) is None,
        },
{
    let hv = str_to_chars(html);
    let class_v = str_to_chars(class_name);
    let cp = match find_from(&hv, &class_v, 0) {
        Some(p) => p,
        None => {
            return None;
        },
    };
    let hlen = hv.len();
    assert(cp <= hlen);
    let ts = match rfind_before(&hv, '<', cp) {
        Some(t) => t,
        None => {
            return None;
        },
    };
    let mut gt: Vec<char> = Vec::new();
    gt.push('>');
    assert(gt@ =~= seq!['>']);
    let te = match find_from(&hv, &gt, ts) {
        Some(t) => t,
        None => {
            return None;
        },
    };
    let tag = subrange_chars(&hv, ts, te + 1);
    let mut needle = str_to_chars(attr);
    needle.push('=');
    needle.push('"');
    assert(needle@ =~= attr@ + seq!['=', '"']);
    let a = match find_from(&tag, &needle, 0) {
        Some(a) => a,
        None => {
            return None;
        },
    };
    let vs = a + needle.len();
    let mut quote: Vec<char> = Vec::new();
    quote.push('"');
    assert(quote@ =~= seq!['"']);
    let ve = match find_from(&tag, &quote, vs) {
        Some(v) => v,
        None => {
            return None;
        },
    };
    let raw = subrange_chars(&tag, vs, ve);
    let raw_s = chars_to_string(&raw);
    Some(unescape_html_entities(raw_s.as_str()))
}

/// The trimmed inner text of the first element with the given class name:
/// the text between the end of its opening tag and the next tag, `None`
/// when that text trims to nothing.
pub open spec fn spec_extract_text_from_class(html: Seq<char>, class: Seq<char>) -> Option<
    Seq<char>,
> {
    match spec_find_from(html, class, 0) {
        None => None,
        Some(cp) => match spec_find_from(html, seq!['>'], cp) {
            None => None,
            Some(tc) => match spec_find_from(html, seq!['<'], tc + 1) {
                None => None,
                Some(nt) => {
                    let text = spec_trim(html.subrange(tc + 1, nt));
                    if text.len() == 0 {
                        None
                    } else {
                        Some(text)
                    }
                },
            },
        },
    }
}

/// Extracts the trimmed inner text content of the first element with the
/// given class name.
pub fn extract_text_from_class(html: &str, class_name: &str) -> (r: Option<String>)
    ensures
        match r {
            Some(s) => spec_extract_text_from_class(html@, class_name@) == Some(s@) && s@.len()
                > 0,
            None => spec_extract_text_from_class(html@, class_name@) is None,
        },
{
    let hv = str_to_chars(html);
    let class_v = str_to_chars(class_name);
    let cp = match find_from(&hv, &class_v, 0) {
        Some(p) => p,
        None => {
            return None;
        },
    };
    let mut gt: Vec<char> = Vec::new();
    gt.push('>');
    assert(gt@ =~= seq!['>']);
    let tc = match find_from(&hv, &gt, cp) {
        Some(t) => t,
        None => {
            return None;
        },
    };
    let mut lt: Vec<char> = Vec::new();
    lt.push('<');
    assert(lt@ =~= seq!['<']);
    let hlen = hv.len();
    assert(tc + 1 <= hlen);
    let nt = match find_from(&hv, &lt, tc + 1) {
        Some(n) => n,
        None => {
            return None;
        },
    };
    let between = subrange_chars(&hv, tc + 1, nt);
    let text = trim_chars(&between);
    if text.len() == 0 {
        return None;
    }
    Some(chars_to_string(&text))
}

/// The trimmed trailing text after the username marker of the caption
/// block: the text after the closing tag that follows the marker, up to the
/// next tag or the end of the page.
pub open spec fn spec_extract_caption_text(html: Seq<char>) -> Option<Seq<char>> {
    match spec_find_from(html, "CaptionUsername"@, 0) {
        None => None,
        Some(p) => match spec_find_from(html, "</"@, p) {
            None => None,
            Some(fc) => match spec_find_from(html, seq!['>'], fc) {
                None => None,
                Some(gtp) => {
                    let nt = match spec_find_from(html, seq!['<'], gtp + 1) {
                        Some(n) => n,
                        None => html.len() as int,
                    };
                    let text = spec_trim(html.subrange(gtp + 1, nt));
                    if text.len() == 0 {
                        None
                    } else {
                        Some(text)
                    }
                },
            },
        },
    }
}

/// Attempts to extract caption text from the embed page: the inline text
/// that follows the caption-username element.
pub fn extract_caption_text(html: &str) -> (r: Option<String>)
    ensures
        match r {
            Some(s) => spec_extract_caption_text(html@) == Some(s@) && s@.len() > 0,
            None => spec_extract_caption_text(html@) is None,
        },
{
    let hv = str_to_chars(html);
    let marker = str_to_chars("CaptionUsername");
    let p = match find_from(&hv, &marker, 0) {
        Some(p) => p,
        None => {
            return None;
        },
    };
    let closing = str_to_chars("</");
    let fc = match find_from(&hv, &closing, p) {
        Some(f) => f,
        None => {
            return None;
        },
    };
    let mut gt: Vec<char> = Vec::new();
    gt.push('>');
    assert(gt@ =~= seq!['>']);
    let gtp = match find_from(&hv, &gt, fc) {
        Some(g) => g,
        None => {
            return None;
        },
    };
    let mut lt: Vec<char> = Vec::new();
    lt.push('<');
    assert(lt@ =~= seq!['<']);
    let hlen = hv.len();
    assert(gtp + 1 <= hlen);
    let nt = match find_from(&hv, &lt, gtp + 1) {
        Some(n) => n,
        None => hv.len(),
    };
    let between = subrange_chars(&hv, gtp + 1, nt);
    let text = trim_chars(&between);
    if text.len() == 0 {
        return None;
    }
    Some(chars_to_string(&text))
}

/// The record scraped from bare embed-page markup: always exactly one image
/// item with no dimensions, the signature by which the orchestrator tells
/// this fallback apart from richer extractions.
pub open spec fn spec_extract_from_html(html: Seq<char>, post_id: Seq<char>) -> Option<
    InstaDataV,
> {
    match spec_extract_attr_from_class(html, "EmbeddedMediaImage"@, "src"@) {
        None => None,
        Some(url) => Some(
            InstaDataV {
                post_id: post_id,
                username: match spec_extract_text_from_class(html, "UsernameText"@) {
                    Some(u) => u,
                    None => "unknown"@,
                },
                caption: spec_extract_caption_text(html),
                media: seq![
                    MediaV {
                        media_type: MediaType::Image,
                        url: url,
                        thumbnail_url: None,
                        width: None,
                        height: None,
                    },
                ],
                like_count: None,
                comment_count: None,
                is_video: false,
                video_view_count: None,
                timestamp: 0,
            },
        ),
    }
}

/// Scrapes basic info from the embed HTML markup when no JSON blob is
/// found. Any record it yields has the thumbnail-only shape: one image,
/// no dimensions.
pub fn extract_from_html(html: &str, post_id: &str) -> (r: Option<InstaData>)
    ensures
        match r {
            Some(d) => spec_extract_from_html(html@, post_id@) == Some(d@)
                && spec_thumbnail_only(d@),
            None => spec_extract_from_html(html@, post_id@) is None,
        },
{
    let image_url = match extract_attr_from_class(html, "EmbeddedMediaImage", "src") {
        Some(u) => u,
        None => {
            return None;
        },
    };
    let username = match extract_text_from_class(html, "UsernameText") {
        Some(u) => u,
        None => "unknown".to_owned(),
    };
    let caption = extract_caption_text(html);
    let mut media: Vec<Media> = Vec::new();
    media.push(
        Media {
            media_type: MediaType::Image,
            url: image_url,
            thumbnail_url: None,
            width: None,
            height: None,
        },
    );
    let d = InstaData {
        post_id: post_id.to_owned(),
        username,
        caption,
        media,
        like_count: None,
        comment_count: None,
        is_video: false,
        video_view_count: None,
        timestamp: 0,
    };
    proof {
        let expect = spec_extract_from_html(html@, post_id@)->0;
        assert(d@.media =~= expect.media);
        assert(d@ =~= expect);
    }
    Some(d)
}

/// Whether the embed page indicates a video that cannot be played inline.
pub open spec fn spec_video_blocked(html: Seq<char>) -> bool {
    contains_seq(html, "WatchOnInstagram"@) || contains_seq(html, "EmbeddedMediaVideo"@)
}

/// Returns true if the embed page HTML indicates a video that can't be
/// played inline.
pub fn is_video_blocked(html: &str) -> (r: bool)
    ensures
        r == spec_video_blocked(html@),
{
    str_contains(html, "WatchOnInstagram") || str_contains(html, "EmbeddedMediaVideo")
}

/// The record extracted from an embed page, by the three extraction paths
/// in order: structured JSON, double-encoded JSON, bare-HTML scrape.
pub open spec fn spec_extract_embed(html: Seq<char>, post_id: Seq<char>) -> Option<InstaDataV> {
    match spec_extract_from_json(html, post_id) {
        Some(d) => Some(d),
        None => match spec_extract_from_context_json(html, post_id) {
            Some(d) => Some(d),
            None => spec_extract_from_html(html, post_id),
        },
    }
}

/// Extracts post data from embed-page HTML, trying the structured JSON
/// blob, then the double-encoded JSON value, then the bare-HTML scrape.
pub fn extract_embed_data(html: &str, post_id: &str) -> (r: Option<InstaData>)
    ensures
        match r {
            Some(d) => spec_extract_embed(html@, post_id@) == Some(d@),
            None => spec_extract_embed(html@, post_id@) is None,
        },
{
    match extract_from_json(html, post_id) {
        Some(d) => Some(d),
        None => match extract_from_context_json(html, post_id) {
            Some(d) => Some(d),
            None => extract_from_html(html, post_id),
        },
    }
}

/// The embed-page strategy outcome for a response: nothing unless the
/// status is 200 and some extraction path yields a record; otherwise the
/// record paired with the video-blocked signal of the page.
pub open spec fn spec_embed_outcome(status: u16, body: Seq<char>, post_id: Seq<char>) -> Option<
    (InstaDataV, bool),
> {
    if status != 200 {
        None
    } else {
        match spec_extract_embed(body, post_id) {
            Some(d) => Some((d, spec_video_blocked(body))),
            None => None,
        }
    }
}

/// Interprets an embed-page response: the extracted record and whether the
/// page flags the video as blocked, or nothing on a non-200 response or
/// when every extraction path fails.
pub fn embed_outcome_from_response(status: u16, body: &str, post_id: &str) -> (r: Option<
    (InstaData, bool),
>)
    ensures
        match r {
            Some(p) => spec_embed_outcome(status, body@, post_id@) == Some((p.0@, p.1)),
            None => spec_embed_outcome(status, body@, post_id@) is None,
        },
{
    if status != 200 {
        return None;
    }
    let video_blocked = is_video_blocked(body);
    match extract_embed_data(body, post_id) {
        Some(d) => Some((d, video_blocked)),
        None => None,
    }
}

} // verus!
