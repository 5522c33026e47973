//! The private-API strategy: the session-cookie derivation, the mobile
//! client-identity headers, and response parsing from the per-media info
//! endpoint's item shape.

use vstd::prelude::*;

use crate::embed_html::{spec_dec_digits, u64_to_dec_chars};
use crate::extract::{spec_get_path2, spec_opt_u64};
use crate::json::{
    parse_json, spec_as_arr, spec_as_str, spec_get, spec_parsed_json, Json,
};
use crate::text::{
    chars_to_string, contains_exec, contains_seq, find_from, spec_find_from, spec_replace,
    replace_chars, starts_with_chars, str_to_chars, subrange_chars,
};
use crate::types::{
    media_list_has_video, spec_media_views, InstaData, InstaDataV, Media, MediaType, MediaV,
};

verus! {

/// The raw credential with URL-encoded colons decoded.
pub open spec fn spec_decode_cookie(raw: Seq<char>) -> Seq<char> {
    spec_replace(spec_replace(raw, "%3A"@, ":"@), "%3a"@, ":"@)
}

/// The decoded credential wrapped with the `sessionid=` prefix when it is a
/// bare value rather than a cookie string.
pub open spec fn spec_wrap_cookie(decoded: Seq<char>) -> Seq<char> {
    if contains_seq(decoded, "="@) {
        decoded
    } else {
        "sessionid="@ + decoded
    }
}

/// The full cookie: when it carries a `sessionid=` value, the companion
/// user-id cookie derived from the value's prefix up to the first colon is
/// appended.
pub open spec fn spec_with_user_id(cookie: Seq<char>) -> Seq<char> {
    if cookie.len() >= "sessionid="@.len() && cookie.subrange(0, "sessionid="@.len() as int)
        == "sessionid="@ {
        let sid_val = cookie.skip("sessionid="@.len() as int);
        let user_id = match spec_find_from(sid_val, seq![':'], 0) {
            Some(p) => sid_val.subrange(0, p),
            None => sid_val,
        };
        cookie + "; ds_user_id="@ + user_id
    } else {
        cookie
    }
}

/// The session cookie the private API is called with, derived from the raw
/// configured credential.
pub open spec fn spec_derive_papi_cookie(raw: Seq<char>) -> Seq<char> {
    spec_with_user_id(spec_wrap_cookie(spec_decode_cookie(raw)))
}

/// Decodes the raw credential's URL-encoded colons and wraps a bare
/// session value with the `sessionid=` prefix.
pub fn wrap_session_cookie(raw: &str) -> (r: String)
    ensures
        r@ == spec_wrap_cookie(spec_decode_cookie(raw@)),
{
    proof {
        reveal_strlit("%3A");
        reveal_strlit("%3a");
        reveal_strlit(":");
        reveal_strlit("=");
        reveal_strlit("sessionid=");
    }
    let rv = str_to_chars(raw);
    let d1 = replace_chars(&rv, &str_to_chars("%3A"), &str_to_chars(":"));
    let decoded = replace_chars(&d1, &str_to_chars("%3a"), &str_to_chars(":"));
    let eq_needle = str_to_chars("=");
    if contains_exec(&decoded, &eq_needle) {
        chars_to_string(&decoded)
    } else {
        let mut c = str_to_chars("sessionid=");
        let mut rest = decoded;
        c.append(&mut rest);
        assert(c@ =~= "sessionid="@ + spec_decode_cookie(raw@));
        chars_to_string(&c)
    }
}

/// Derives the full private-API session cookie from the raw configured
/// credential: decodes URL-encoded colons, wraps a bare session value with
/// `sessionid=`, and appends the companion user-id cookie parsed from the
/// session value.
pub fn derive_papi_cookie(raw: &str) -> (r: String)
    ensures
        r@ == spec_derive_papi_cookie(raw@),
{
    proof {
        reveal_strlit(":");
        reveal_strlit("sessionid=");
    }
    let wrapped = wrap_session_cookie(raw);
    let cookie = str_to_chars(wrapped.as_str());
    assert(cookie@ == spec_wrap_cookie(spec_decode_cookie(raw@)));
    let prefix = str_to_chars("sessionid=");
    if starts_with_chars(&cookie, &prefix) {
        let sid_len = prefix.len();
        let clen = cookie.len();
        let sid_val = subrange_chars(&cookie, sid_len, clen);
        assert(sid_val@ =~= cookie@.skip("sessionid="@.len() as int));
        let mut colon: Vec<char> = Vec::new();
        colon.push(':');
        assert(colon@ =~= seq![':']);
        let user_id: Vec<char> = match find_from(&sid_val, &colon, 0) {
            Some(p) => subrange_chars(&sid_val, 0, p),
            None => sid_val,
        };
        let mut full = cookie;
        let mut sep = str_to_chars("; ds_user_id=");
        full.append(&mut sep);
        let mut uid = user_id;
        full.append(&mut uid);
        proof {
            reveal_strlit("; ds_user_id=");
            assert(full@ =~= spec_with_user_id(spec_wrap_cookie(spec_decode_cookie(raw@))));
        }
        chars_to_string(&full)
    } else {
        chars_to_string(&cookie)
    }
}

/// The mobile client-identity headers of the private API.
pub open spec fn spec_papi_headers(cookie: Seq<char>) -> Seq<(Seq<char>, Seq<char>)> {
    seq![
        (
            "User-Agent"@,
            "Instagram 317.0.0.34.109 Android (31/12; 420dpi; 1080x2400; samsung; SM-G991B; o1s; exynos2100; en_US; 562530885)"@,
        ),
        ("Accept"@, "*/*"@),
        ("Accept-Language"@, "en-US,en;q=0.9"@),
        ("X-Ig-App-Id"@, "567067343352427"@),
        ("Cookie"@, cookie),
    ]
}

/// Builds the private-API request headers carrying the session cookie and
/// the mobile client-application identifier.
pub fn build_papi_headers(cookie: &str) -> (r: Vec<(String, String)>)
    ensures
        crate::fetcher::spec_header_views(r@) == spec_papi_headers(cookie@),
{
    let mut r: Vec<(String, String)> = Vec::new();
    r.push((
        "User-Agent".to_owned(),
        "Instagram 317.0.0.34.109 Android (31/12; 420dpi; 1080x2400; samsung; SM-G991B; o1s; exynos2100; en_US; 562530885)".to_owned(),
    ));
    r.push(("Accept".to_owned(), "*/*".to_owned()));
    r.push(("Accept-Language".to_owned(), "en-US,en;q=0.9".to_owned()));
    r.push(("X-Ig-App-Id".to_owned(), "567067343352427".to_owned()));
    r.push(("Cookie".to_owned(), cookie.to_owned()));
    assert(crate::fetcher::spec_header_views(r@) =~= spec_papi_headers(cookie@));
    r
}

/// The per-media info endpoint for a numeric media ID.
pub open spec fn spec_papi_url(media_id: nat) -> Seq<char> {
    "https://i.instagram.com/api/v1/media/"@ + spec_dec_digits(media_id) + "/info/"@
}

/// Builds the private-API info URL for a numeric media ID.
pub fn papi_media_url(media_id: u64) -> (r: String)
    ensures
        r@ == spec_papi_url(media_id as nat),
{
    let mut out = String::from_str("https://i.instagram.com/api/v1/media/");
    out.append(chars_to_string(&u64_to_dec_chars(media_id)).as_str());
    out.append("/info/");
    assert(out@ =~= spec_papi_url(media_id as nat));
    out
}

/// The media item shaped from one private-API media node: the first video
/// version when there is one, else the first image candidate; nothing when
/// neither is present.
pub open spec fn spec_parse_papi_media(n: Json) -> Option<MediaV> {
    match (match spec_get(n, "video_versions"@) {
        Some(vv) => spec_as_arr(vv),
        None => None,
    }) {
        Some(versions) => if versions.len() > 0 {
            let best = versions[0];
            Some(
                MediaV {
                    media_type: MediaType::Video,
                    url: match spec_get(best, "url"@) {
                        Some(u) => match spec_as_str(u) {
                            Some(s) => s,
                            None => Seq::empty(),
                        },
                        None => Seq::empty(),
                    },
                    thumbnail_url: match spec_get_path2(n, "image_versions2"@, "candidates"@) {
                        Some(c) => match spec_as_arr(c) {
                            Some(arr) => if arr.len() > 0 {
                                match spec_get(arr[0], "url"@) {
                                    Some(u) => spec_as_str(u),
                                    None => None,
                                }
                            } else {
                                None
                            },
                            None => None,
                        },
                        None => None,
                    },
                    width: match spec_opt_u64(best, "width"@) {
                        Some(w) => Some(w as u32),
                        None => None,
                    },
                    height: match spec_opt_u64(best, "height"@) {
                        Some(h) => Some(h as u32),
                        None => None,
                    },
                },
            )
        } else {
            spec_papi_image_media(n)
        },
        None => spec_papi_image_media(n),
    }
}

/// The image item shaped from a private-API node's first image candidate.
pub open spec fn spec_papi_image_media(n: Json) -> Option<MediaV> {
    match (match spec_get_path2(n, "image_versions2"@, "candidates"@) {
        Some(c) => spec_as_arr(c),
        None => None,
    }) {
        Some(candidates) => if candidates.len() > 0 {
            let best = candidates[0];
            Some(
                MediaV {
                    media_type: MediaType::Image,
                    url: match spec_get(best, "url"@) {
                        Some(u) => match spec_as_str(u) {
                            Some(s) => s,
                            None => Seq::empty(),
                        },
                        None => Seq::empty(),
                    },
                    thumbnail_url: None,
                    width: match spec_opt_u64(best, "width"@) {
                        Some(w) => Some(w as u32),
                        None => None,
                    },
                    height: match spec_opt_u64(best, "height"@) {
                        Some(h) => Some(h as u32),
                        None => None,
                    },
                },
            )
        } else {
            None
        },
        None => None,
    }
}

fn papi_image_media(node: &Json) -> (r: Option<Media>)
    ensures
        match r {
            Some(m) => spec_papi_image_media(*node) == Some(m@),
            None => spec_papi_image_media(*node) is None,
        },
{
    let candidates = match crate::extract::get_path2(node, "image_versions2", "candidates") {
        Some(c) => match c.as_array() {
            Some(arr) => arr,
            None => {
                return None;
            },
        },
        None => {
            return None;
        },
    };
    if candidates.len() == 0 {
        return None;
    }
    let best = &candidates[0];
    let url: String = match best.get("url") {
        Some(u) => match u.as_str() {
            Some(s) => s.clone(),
            None => String::new(),
        },
        None => String::new(),
    };
    let width: Option<u32> = match crate::extract::opt_u64_at(best, "width") {
        Some(w) => Some(w as u32),
        None => None,
    };
    let height: Option<u32> = match crate::extract::opt_u64_at(best, "height") {
        Some(h) => Some(h as u32),
        None => None,
    };
    let m = Media { media_type: MediaType::Image, url, thumbnail_url: None, width, height };
    proof {
        assert(m@ =~= spec_papi_image_media(*node)->0);
    }
    Some(m)
}

/// Parses a single media node from the private-API response format.
pub fn parse_papi_media(node: &Json) -> (r: Option<Media>)
    ensures
        match r {
            Some(m) => spec_parse_papi_media(*node) == Some(m@),
            None => spec_parse_papi_media(*node) is None,
        },
{
    match node.get("video_versions") {
        Some(vv) => match vv.as_array() {
            Some(versions) => {
                if versions.len() > 0 {
                    let best = &versions[0];
                    let url: String = match best.get("url") {
                        Some(u) => match u.as_str() {
                            Some(s) => s.clone(),
                            None => String::new(),
                        },
                        None => String::new(),
                    };
                    let width: Option<u32> = match crate::extract::opt_u64_at(best, "width") {
                        Some(w) => Some(w as u32),
                        None => None,
                    };
                    let height: Option<u32> = match crate::extract::opt_u64_at(best, "height") {
                        Some(h) => Some(h as u32),
                        None => None,
                    };
                    let thumbnail_url: Option<String> = match crate::extract::get_path2(
                        node,
                        "image_versions2",
                        "candidates",
                    ) {
                        Some(c) => match c.as_array() {
                            Some(arr) => {
                                if arr.len() > 0 {
                                    match arr[0].get("url") {
                                        Some(u) => match u.as_str() {
                                            Some(s) => Some(s.clone()),
                                            None => None,
                                        },
                                        None => None,
                                    }
                                } else {
                                    None
                                }
                            },
                            None => None,
                        },
                        None => None,
                    };
                    let m = Media {
                        media_type: MediaType::Video,
                        url,
                        thumbnail_url,
                        width,
                        height,
                    };
                    proof {
                        assert(m@ =~= spec_parse_papi_media(*node)->0);
                    }
                    return Some(m);
                }
                papi_image_media(node)
            },
            None => papi_image_media(node),
        },
        None => papi_image_media(node),
    }
}

/// The media items contributed by a carousel list: one per node that
/// shapes to an item, in original order.
pub open spec fn spec_papi_media_of(nodes: Seq<Json>) -> Seq<MediaV>
    decreases nodes.len(),
{
    if nodes.len() == 0 {
        Seq::empty()
    } else {
        let rest = spec_papi_media_of(nodes.drop_first());
        match spec_parse_papi_media(nodes[0]) {
            Some(m) => seq![m] + rest,
            None => rest,
        }
    }
}

proof fn lemma_papi_media_of_push(nodes: Seq<Json>, x: Json)
    ensures
        spec_papi_media_of(nodes.push(x)) == spec_papi_media_of(nodes) + (match
            spec_parse_papi_media(x) {
            Some(m) => seq![m],
            None => Seq::<MediaV>::empty(),
        }),
    decreases nodes.len(),
{
    let added = (match spec_parse_papi_media(x) {
        Some(m) => seq![m],
        None => Seq::<MediaV>::empty(),
    });
    if nodes.len() == 0 {
        assert(nodes.push(x)[0] == x);
        assert(nodes.push(x).drop_first() =~= Seq::<Json>::empty());
        assert(spec_papi_media_of(Seq::<Json>::empty()) == Seq::<MediaV>::empty());
        assert(spec_papi_media_of(nodes) == Seq::<MediaV>::empty());
        match spec_parse_papi_media(x) {
            Some(m) => {
                assert(spec_papi_media_of(nodes.push(x)) == seq![m] + Seq::<MediaV>::empty());
                assert(seq![m] + Seq::<MediaV>::empty() =~= added);
                assert(spec_papi_media_of(nodes) + added =~= added);
            },
            None => {
                assert(spec_papi_media_of(nodes.push(x)) == Seq::<MediaV>::empty());
                assert(spec_papi_media_of(nodes) + added =~= Seq::<MediaV>::empty());
            },
        }
    } else {
        assert(nodes.push(x).drop_first() =~= nodes.drop_first().push(x));
        assert(nodes.push(x)[0] == nodes[0]);
        lemma_papi_media_of_push(nodes.drop_first(), x);
        match spec_parse_papi_media(nodes[0]) {
            Some(m) => {
                assert(seq![m] + (spec_papi_media_of(nodes.drop_first()) + added) =~= (seq![m]
                    + spec_papi_media_of(nodes.drop_first())) + added);
            },
            None => {},
        }
    }
}

/// The media list of a private-API item: one item per carousel node when
/// the item holds a carousel list, else the item's own single media item,
/// or nothing when it has none.
pub open spec fn spec_papi_media_list(item: Json) -> Seq<MediaV> {
    match (match spec_get(item, "carousel_media"@) {
        Some(c) => spec_as_arr(c),
        None => None,
    }) {
        Some(nodes) => spec_papi_media_of(nodes),
        None => match spec_parse_papi_media(item) {
            Some(m) => seq![m],
            None => Seq::empty(),
        },
    }
}

/// The normalized record shaped from one private-API item. Shaping is
/// total: a missing username reads as `unknown`, counts are absent-
/// tolerant, and the video flag follows the presence of video versions or
/// any video media item.
pub open spec fn spec_parse_papi_item(item: Json, post_id: Seq<char>) -> InstaDataV {
    let media = spec_papi_media_list(item);
    InstaDataV {
        post_id: post_id,
        username: match spec_get_path2(item, "user"@, "username"@) {
            Some(u) => match spec_as_str(u) {
                Some(s) => s,
                None => "unknown"@,
            },
            None => "unknown"@,
        },
        caption: match spec_get_path2(item, "caption"@, "text"@) {
            Some(t) => spec_as_str(t),
            None => None,
        },
        media: media,
        like_count: spec_opt_u64(item, "like_count"@),
        comment_count: spec_opt_u64(item, "comment_count"@),
        is_video: spec_get(item, "video_versions"@) is Some || (exists|i: int|
            0 <= i < media.len() && media[i].media_type == MediaType::Video),
        video_view_count: spec_opt_u64(item, "view_count"@),
        timestamp: match spec_opt_u64(item, "taken_at"@) {
            Some(t) => t,
            None => 0,
        },
    }
}

/// Parses a single item from the private-API response into the normalized
/// record.
pub fn parse_papi_item(item: &Json, post_id: &str) -> (r: InstaData)
    ensures
        r@ == spec_parse_papi_item(*item, post_id@),
{
    let username: String = match crate::extract::get_path2(item, "user", "username") {
        Some(u) => match u.as_str() {
            Some(s) => s.clone(),
            None => "unknown".to_owned(),
        },
        None => "unknown".to_owned(),
    };
    let caption: Option<String> = match crate::extract::get_path2(item, "caption", "text") {
        Some(t) => match t.as_str() {
            Some(s) => Some(s.clone()),
            None => None,
        },
        None => None,
    };
    let like_count = crate::extract::opt_u64_at(item, "like_count");
    let comment_count = crate::extract::opt_u64_at(item, "comment_count");
    let timestamp: u64 = match crate::extract::opt_u64_at(item, "taken_at") {
        Some(t) => t,
        None => 0,
    };
    let media_items: Vec<Media> = match item.get("carousel_media") {
        Some(c) => match c.as_array() {
            Some(nodes) => {
                let mut r: Vec<Media> = Vec::new();
                let mut i: usize = 0;
                assert(nodes@.take(0) =~= Seq::<Json>::empty());
                assert(spec_media_views(r@) =~= spec_papi_media_of(nodes@.take(0)));
                while i < nodes.len()
                    invariant
                        i <= nodes@.len(),
                        spec_media_views(r@) == spec_papi_media_of(nodes@.take(i as int)),
                    decreases nodes@.len() - i,
                {
                    let ghost prev = r@;
                    match parse_papi_media(&nodes[i]) {
                        Some(m) => {
                            let ghost mv = m@;
                            r.push(m);
                            assert(spec_media_views(r@) =~= spec_media_views(prev) + seq![mv]);
                        },
                        None => {
                            assert(spec_media_views(r@) =~= spec_media_views(prev)
                                + Seq::<MediaV>::empty());
                        },
                    }
                    proof {
                        lemma_papi_media_of_push(nodes@.take(i as int), nodes@[i as int]);
                        assert(nodes@.take(i as int).push(nodes@[i as int]) =~= nodes@.take(
                            i + 1,
                        ));
                    }
                    i += 1;
                }
                assert(nodes@.take(nodes@.len() as int) =~= nodes@);
                r
            },
            None => match parse_papi_media(item) {
                Some(m) => {
                    let mut r: Vec<Media> = Vec::new();
                    let ghost mv = m@;
                    r.push(m);
                    assert(spec_media_views(r@) =~= seq![mv]);
                    r
                },
                None => {
                    let r: Vec<Media> = Vec::new();
                    assert(spec_media_views(r@) =~= Seq::<MediaV>::empty());
                    r
                },
            },
        },
        None => match parse_papi_media(item) {
            Some(m) => {
                let mut r: Vec<Media> = Vec::new();
                let ghost mv = m@;
                r.push(m);
                assert(spec_media_views(r@) =~= seq![mv]);
                r
            },
            None => {
                let r: Vec<Media> = Vec::new();
                assert(spec_media_views(r@) =~= Seq::<MediaV>::empty());
                r
            },
        },
    };
    let has_versions = match item.get("video_versions") {
        Some(v) => true,
        None => false,
    };
    let is_video = has_versions || media_list_has_video(&media_items);
    let video_view_count = crate::extract::opt_u64_at(item, "view_count");
    let d = InstaData {
        post_id: post_id.to_owned(),
        username,
        caption,
        media: media_items,
        like_count,
        comment_count,
        is_video,
        video_view_count,
        timestamp,
    };
    proof {
        assert(d@ =~= spec_parse_papi_item(*item, post_id@));
    }
    d
}

/// The record parsed from a private-API response: the first item of a
/// non-empty `items` array, shaped; nothing on a malformed document or an
/// absent or empty array.
pub open spec fn spec_parse_papi_response(text: Seq<char>, post_id: Seq<char>) -> Option<
    InstaDataV,
> {
    match spec_parsed_json(text) {
        None => None,
        Some(j) => match (match spec_get(j, "items"@) {
            Some(i) => spec_as_arr(i),
            None => None,
        }) {
            Some(items) => if items.len() > 0 {
                Some(spec_parse_papi_item(items[0], post_id))
            } else {
                None
            },
            None => None,
        },
    }
}

/// Parses a private-API response body into the normalized record.
pub fn parse_papi_response(text: &str, post_id: &str) -> (r: Option<InstaData>)
    ensures
        match r {
            Some(d) => spec_parse_papi_response(text@, post_id@) == Some(d@),
            None => spec_parse_papi_response(text@, post_id@) is None,
        },
{
    let j = match parse_json(text) {
        Some(j) => j,
        None => {
            return None;
        },
    };
    let items = match j.get("items") {
        Some(i) => match i.as_array() {
            Some(arr) => arr,
            None => {
                return None;
            },
        },
        None => {
            return None;
        },
    };
    if items.len() == 0 {
        return None;
    }
    Some(parse_papi_item(&items[0], post_id))
}

/// Whether a direct private-API response is acceptable as it stands: a 200
/// whose body carries neither the login-wall nor the not-found signature.
pub open spec fn spec_papi_direct_ok(status: u16, body: Seq<char>) -> bool {
    status == 200 && !contains_seq(body, "not-logged-in"@) && !contains_seq(
        body,
        "Page Not Found"@,
    )
}

/// Tests whether a direct private-API response can be used without
/// re-issuing the request through the relay.
pub fn papi_direct_ok(status: u16, body: &str) -> (r: bool)
    ensures
        r == spec_papi_direct_ok(status, body@),
{
    status == 200 && !crate::text::str_contains(body, "not-logged-in")
        && !crate::text::str_contains(body, "Page Not Found")
}

} // verus!
