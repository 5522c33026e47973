//! The query-API strategy: form-encoded request construction with the
//! fixed client-identity fields, the browser-mimicry header table, and
//! response parsing down to the media-owner node.

use vstd::prelude::*;

use vstd::utf8::encode_utf8;

use crate::extract::{parse_shortcode_media, spec_parse_shortcode_media};
use crate::json::{parse_json, spec_get, spec_is_null, spec_parsed_json};
use crate::text::{
    chars_to_string, contains_seq, lemma_join_push, spec_join, str_contains,
};
use crate::types::{InstaData, InstaDataV};

verus! {

/// The uppercase hexadecimal digit of a value below 16.
pub open spec fn spec_hex_upper_digit(d: int) -> char {
    if d < 10 {
        ((48 + d) as u8) as char
    } else {
        ((55 + d) as u8) as char
    }
}

/// Whether a byte passes through form encoding unchanged: ASCII
/// alphanumerics and `*`, `-`, `.`, `_`.
pub open spec fn spec_form_unchanged(b: u8) -> bool {
    b == 42 || b == 45 || b == 46 || b == 95 || (48 <= b && b <= 57) || (65 <= b && b <= 90) || (
    97 <= b && b <= 122)
}

/// The form encoding of one byte: unchanged bytes stand for themselves, a
/// space becomes `+`, anything else a percent escape with uppercase hex.
pub open spec fn spec_form_byte(b: u8) -> Seq<char> {
    if spec_form_unchanged(b) {
        seq![b as char]
    } else if b == 32 {
        seq!['+']
    } else {
        seq!['%', spec_hex_upper_digit((b as int) / 16), spec_hex_upper_digit((b as int) % 16)]
    }
}

/// The form encoding of a byte string.
pub open spec fn spec_form_encode(bs: Seq<u8>) -> Seq<char>
    decreases bs.len(),
{
    if bs.len() == 0 {
        Seq::empty()
    } else {
        spec_form_byte(bs[0]) + spec_form_encode(bs.drop_first())
    }
}

proof fn lemma_form_encode_push(bs: Seq<u8>, b: u8)
    ensures
        spec_form_encode(bs.push(b)) == spec_form_encode(bs) + spec_form_byte(b),
    decreases bs.len(),
{
    if bs.len() == 0 {
        assert(bs.push(b)[0] == b);
        assert(bs.push(b).drop_first() =~= Seq::<u8>::empty());
        assert(spec_form_encode(bs.push(b)) == spec_form_byte(b) + spec_form_encode(
            Seq::<u8>::empty(),
        ));
        assert(spec_form_byte(b) + Seq::<char>::empty() =~= spec_form_byte(b));
        assert(spec_form_encode(bs) + spec_form_byte(b) =~= spec_form_byte(b));
    } else {
        assert(bs.push(b).drop_first() =~= bs.drop_first().push(b));
        assert(bs.push(b)[0] == bs[0]);
        lemma_form_encode_push(bs.drop_first(), b);
        assert(spec_form_byte(bs[0]) + (spec_form_encode(bs.drop_first()) + spec_form_byte(b))
            =~= (spec_form_byte(bs[0]) + spec_form_encode(bs.drop_first())) + spec_form_byte(b));
    }
}

fn hex_upper_digit_exec(d: u8) -> (r: char)
    requires
        d < 16,
    ensures
        r == spec_hex_upper_digit(d as int),
{
    if d < 10 {
        ((48 + d) as u8) as char
    } else {
        ((55 + d) as u8) as char
    }
}

/// Encodes one byte string for a form-encoded body.
pub fn form_encode_bytes(bs: &[u8]) -> (r: Vec<char>)
    ensures
        r@ == spec_form_encode(bs@),
{
    let len = bs.len();
    let mut out: Vec<char> = Vec::new();
    let mut i: usize = 0;
    assert(out@ =~= spec_form_encode(bs@.take(0)));
    while i < len
        invariant
            i <= len,
            len == bs@.len(),
            out@ == spec_form_encode(bs@.take(i as int)),
        decreases len - i,
    {
        let ghost prev = out@;
        let b = bs[i];
        if b == 42 || b == 45 || b == 46 || b == 95 || (48 <= b && b <= 57) || (65 <= b && b
            <= 90) || (97 <= b && b <= 122) {
            out.push(b as char);
            assert(out@ =~= prev + spec_form_byte(bs@[i as int]));
        } else if b == 32 {
            out.push('+');
            assert(out@ =~= prev + spec_form_byte(bs@[i as int]));
        } else {
            out.push('%');
            out.push(hex_upper_digit_exec(b / 16));
            out.push(hex_upper_digit_exec(b % 16));
            assert(out@ =~= prev + spec_form_byte(bs@[i as int]));
        }
        proof {
            lemma_form_encode_push(bs@.take(i as int), bs@[i as int]);
            assert(bs@.take(i as int).push(bs@[i as int]) =~= bs@.take(i + 1));
        }
        i += 1;
    }
    assert(bs@.take(len as int) =~= bs@);
    out
}

/// One form-encoded pair: the encoded key, `=`, the encoded value.
pub open spec fn spec_form_pair(k: Seq<u8>, v: Seq<u8>) -> Seq<char> {
    spec_form_encode(k) + seq!['='] + spec_form_encode(v)
}

/// The byte strings of a pair list.
pub open spec fn spec_pair_bytes(ps: Seq<(String, String)>) -> Seq<(Seq<u8>, Seq<u8>)> {
    Seq::new(ps.len(), |i: int| (encode_utf8(ps[i].0@), encode_utf8(ps[i].1@)))
}

/// The form encoding of a pair list: the encoded pairs joined by `&`.
pub open spec fn spec_form_urlencode(pairs: Seq<(Seq<u8>, Seq<u8>)>) -> Seq<char> {
    spec_join(Seq::new(pairs.len(), |i: int| spec_form_pair(pairs[i].0, pairs[i].1)), "&"@)
}

/// Simple form URL encoding for key-value pairs.
pub fn form_urlencode(pairs: &Vec<(String, String)>) -> (r: String)
    ensures
        r@ == spec_form_urlencode(spec_pair_bytes(pairs@)),
{
    proof {
        reveal_strlit("=");
        reveal_strlit("&");
    }
    let ghost parts = Seq::new(
        pairs@.len(),
        |i: int|
            spec_form_pair(encode_utf8(pairs@[i].0@), encode_utf8(pairs@[i].1@)),
    );
    let mut out: Vec<char> = Vec::new();
    let mut i: usize = 0;
    while i < pairs.len()
        invariant
            i <= pairs@.len(),
            parts == Seq::new(
                pairs@.len(),
                |k: int|
                    spec_form_pair(encode_utf8(pairs@[k].0@), encode_utf8(pairs@[k].1@)),
            ),
            out@ == (if i == 0 {
                Seq::<char>::empty()
            } else {
                spec_join(parts.take(i as int), "&"@)
            }),
        decreases pairs@.len() - i,
    {
        let ghost prev = out@;
        if i > 0 {
            out.push('&');
        }
        let ek = form_encode_bytes(pairs[i].0.as_str().as_bytes());
        let ev = form_encode_bytes(pairs[i].1.as_str().as_bytes());
        let mut k: usize = 0;
        let ghost mid = out@;
        while k < ek.len()
            invariant
                k <= ek@.len(),
                out@ == mid + ek@.take(k as int),
            decreases ek@.len() - k,
        {
            out.push(ek[k]);
            assert(out@ =~= mid + ek@.take(k + 1));
            k += 1;
        }
        assert(ek@.take(ek@.len() as int) =~= ek@);
        out.push('=');
        let ghost mid2 = out@;
        let mut k2: usize = 0;
        while k2 < ev.len()
            invariant
                k2 <= ev@.len(),
                out@ == mid2 + ev@.take(k2 as int),
            decreases ev@.len() - k2,
        {
            out.push(ev[k2]);
            assert(out@ =~= mid2 + ev@.take(k2 + 1));
            k2 += 1;
        }
        assert(ev@.take(ev@.len() as int) =~= ev@);
        proof {
            reveal_strlit("&");
            assert(out@ =~= prev + (if i > 0 {
                seq!['&']
            } else {
                Seq::<char>::empty()
            }) + parts[i as int]);
            assert("&"@ =~= seq!['&']);
            lemma_join_push(parts.take(i as int), parts[i as int], "&"@);
            assert(parts.take(i as int).push(parts[i as int]) =~= parts.take(i + 1));
            if i > 0 {
                assert(out@ =~= spec_join(parts.take(i + 1), "&"@));
            } else {
                assert(out@ =~= spec_join(parts.take(1), "&"@));
            }
        }
        i += 1;
    }
    proof {
        if pairs@.len() == 0 {
            assert(parts.len() == 0);
            assert(out@ =~= spec_join(parts, "&"@));
        } else {
            assert(parts.take(parts.len() as int) =~= parts);
        }
        assert(spec_form_urlencode(spec_pair_bytes(pairs@)) == spec_join(
            Seq::new(
                spec_pair_bytes(pairs@).len(),
                |i: int|
                    spec_form_pair(spec_pair_bytes(pairs@)[i].0, spec_pair_bytes(pairs@)[i].1),
            ),
            "&"@,
        ));
        assert(Seq::new(
            spec_pair_bytes(pairs@).len(),
            |i: int| spec_form_pair(spec_pair_bytes(pairs@)[i].0, spec_pair_bytes(pairs@)[i].1),
        ) =~= parts);
    }
    chars_to_string(&out)
}

/// The query-API `variables` blob for a shortcode: the shortcode and the
/// fixed comment/like pagination knobs.
pub open spec fn spec_graphql_variables(post_id: Seq<char>) -> Seq<char> {
    "{\"shortcode\":\""@ + post_id
        + "\",\"fetch_comment_count\":40,\"parent_comment_count\":24,\"child_comment_count\":3,\"fetch_like_count\":10,\"fetch_tagged_user_count\":null,\"fetch_preview_comment_count\":2,\"has_threaded_comments\":true,\"hoisted_comment_id\":null,\"hoisted_reply_id\":null}"@
}

/// Builds the query-API `variables` blob for a shortcode.
pub fn graphql_variables(post_id: &str) -> (r: String)
    ensures
        r@ == spec_graphql_variables(post_id@),
{
    let mut out = String::from_str("{\"shortcode\":\"");
    out.append(post_id);
    out.append(
        "\",\"fetch_comment_count\":40,\"parent_comment_count\":24,\"child_comment_count\":3,\"fetch_like_count\":10,\"fetch_tagged_user_count\":null,\"fetch_preview_comment_count\":2,\"has_threaded_comments\":true,\"hoisted_comment_id\":null,\"hoisted_reply_id\":null}",
    );
    out
}

/// The fixed client-identity form fields of the query-API body, with the
/// `variables` blob and `doc_id` spliced in.
pub open spec fn spec_graphql_form_pairs(variables: Seq<char>, doc_id: Seq<char>) -> Seq<
    (Seq<char>, Seq<char>),
> {
    seq![
        ("av"@, "0"@),
        ("__d"@, "www"@),
        ("__user"@, "0"@),
        ("__a"@, "1"@),
        ("__req"@, "k"@),
        ("__hs"@, "19888.HYP:instagram_web_pkg.2.1..0.0"@),
        ("dpr"@, "2"@),
        ("__ccg"@, "UNKNOWN"@),
        ("__rev"@, "1014227545"@),
        ("__s"@, "trbjos:n8dn55:yev1rm"@),
        ("__hsi"@, "7380500578385702299"@),
        (
            "__dyn"@,
            "7xeUjG1mxu1syUbFp40NonwgU7SbzEdF8aUco2qwJw5ux609vCwjE1xoswaq0yE6ucw5Mx62G5UswoEcE7O2l0Fwqo31w9a9wtUd8-U2zxe2GewGw9a362W2K0zK5o4q3y1Sx-0iS2Sq2-azo7u3C2u2J0bS1LwTwKG1pg2fwxyo6O1FwlEcUed6goK2O4UrAwCAxW6Uf9EObzVU8U"@,
        ),
        (
            "__csr"@,
            "n2Yfg_5hcQAG5mPtfEzil8Wn-DpKGBXhdczlAhrK8uHBAGuKCJeCieLDyExenh68aQAKta8p8ShogKkF5yaUBqCpF9XHmmhoBXyBKbQp0HCwDjqoOepV8Tzk8xeXqAGFTVoCciGaCgvGUtVU-u5Vp801nrEkO0rC58xw41g0VW07ISyie2W1v7F0CwYwwwvEkw8K5cM0VC1dwdi0hCbc094w6MU1xE02lzw"@,
        ),
        ("__comet_req"@, "7"@),
        ("lsd"@, "AVoPBTXMX0Y"@),
        ("jazoest"@, "2882"@),
        ("__spin_r"@, "1014227545"@),
        ("__spin_b"@, "trunk"@),
        ("__spin_t"@, "1718406700"@),
        ("fb_api_caller_class"@, "RelayModern"@),
        ("fb_api_req_friendly_name"@, "PolarisPostActionLoadPostQueryQuery"@),
        ("variables"@, variables),
        ("server_timestamps"@, "true"@),
        ("doc_id"@, doc_id),
    ]
}

/// The query-API body: the form encoding of the client-identity fields.
pub open spec fn spec_build_graphql_body(variables: Seq<char>, doc_id: Seq<char>) -> Seq<char> {
    spec_form_urlencode(
        Seq::new(
            spec_graphql_form_pairs(variables, doc_id).len(),
            |i: int|
                (
                    encode_utf8(spec_graphql_form_pairs(variables, doc_id)[i].0),
                    encode_utf8(spec_graphql_form_pairs(variables, doc_id)[i].1),
                ),
        ),
    )
}

/// Builds the form-encoded POST body with the client-identity parameters
/// the query-API expects from a browser session.
pub fn build_graphql_body(variables: &str, doc_id: &str) -> (r: String)
    ensures
        r@ == spec_build_graphql_body(variables@, doc_id@),
{
    let mut pairs: Vec<(String, String)> = Vec::new();
    pairs.push(("av".to_owned(), "0".to_owned()));
    pairs.push(("__d".to_owned(), "www".to_owned()));
    pairs.push(("__user".to_owned(), "0".to_owned()));
    pairs.push(("__a".to_owned(), "1".to_owned()));
    pairs.push(("__req".to_owned(), "k".to_owned()));
    pairs.push(("__hs".to_owned(), "19888.HYP:instagram_web_pkg.2.1..0.0".to_owned()));
    pairs.push(("dpr".to_owned(), "2".to_owned()));
    pairs.push(("__ccg".to_owned(), "UNKNOWN".to_owned()));
    pairs.push(("__rev".to_owned(), "1014227545".to_owned()));
    pairs.push(("__s".to_owned(), "trbjos:n8dn55:yev1rm".to_owned()));
    pairs.push(("__hsi".to_owned(), "7380500578385702299".to_owned()));
    pairs.push((
        "__dyn".to_owned(),
        "7xeUjG1mxu1syUbFp40NonwgU7SbzEdF8aUco2qwJw5ux609vCwjE1xoswaq0yE6ucw5Mx62G5UswoEcE7O2l0Fwqo31w9a9wtUd8-U2zxe2GewGw9a362W2K0zK5o4q3y1Sx-0iS2Sq2-azo7u3C2u2J0bS1LwTwKG1pg2fwxyo6O1FwlEcUed6goK2O4UrAwCAxW6Uf9EObzVU8U".to_owned(),
    ));
    pairs.push((
        "__csr".to_owned(),
        "n2Yfg_5hcQAG5mPtfEzil8Wn-DpKGBXhdczlAhrK8uHBAGuKCJeCieLDyExenh68aQAKta8p8ShogKkF5yaUBqCpF9XHmmhoBXyBKbQp0HCwDjqoOepV8Tzk8xeXqAGFTVoCciGaCgvGUtVU-u5Vp801nrEkO0rC58xw41g0VW07ISyie2W1v7F0CwYwwwvEkw8K5cM0VC1dwdi0hCbc094w6MU1xE02lzw".to_owned(),
    ));
    pairs.push(("__comet_req".to_owned(), "7".to_owned()));
    pairs.push(("lsd".to_owned(), "AVoPBTXMX0Y".to_owned()));
    pairs.push(("jazoest".to_owned(), "2882".to_owned()));
    pairs.push(("__spin_r".to_owned(), "1014227545".to_owned()));
    pairs.push(("__spin_b".to_owned(), "trunk".to_owned()));
    pairs.push(("__spin_t".to_owned(), "1718406700".to_owned()));
    pairs.push(("fb_api_caller_class".to_owned(), "RelayModern".to_owned()));
    pairs.push((
        "fb_api_req_friendly_name".to_owned(),
        "PolarisPostActionLoadPostQueryQuery".to_owned(),
    ));
    pairs.push(("variables".to_owned(), variables.to_owned()));
    pairs.push(("server_timestamps".to_owned(), "true".to_owned()));
    pairs.push(("doc_id".to_owned(), doc_id.to_owned()));
    let r = form_urlencode(&pairs);
    proof {
        let gp = spec_graphql_form_pairs(variables@, doc_id@);
        assert(spec_pair_bytes(pairs@) =~= Seq::new(
            gp.len(),
            |i: int| (encode_utf8(gp[i].0), encode_utf8(gp[i].1)),
        ));
    }
    r
}

/// The browser-mimicry header table of the query-API.
pub open spec fn spec_graphql_headers() -> Seq<(Seq<char>, Seq<char>)> {
    seq![
        ("Accept"@, "*/*"@),
        ("Accept-Language"@, "en-US,en;q=0.9"@),
        ("Content-Type"@, "application/x-www-form-urlencoded"@),
        ("Origin"@, "https://www.instagram.com"@),
        ("Referer"@, "https://www.instagram.com/"@),
        ("Priority"@, "u=1, i"@),
        ("Sec-Ch-Prefers-Color-Scheme"@, "dark"@),
        (
            "Sec-Ch-Ua"@,
            "\"Google Chrome\";v=\"125\", \"Chromium\";v=\"125\", \"Not.A/Brand\";v=\"24\""@,
        ),
        (
            "Sec-Ch-Ua-Full-Version-List"@,
            "\"Google Chrome\";v=\"125.0.6422.142\", \"Chromium\";v=\"125.0.6422.142\", \"Not.A/Brand\";v=\"24.0.0.0\""@,
        ),
        ("Sec-Ch-Ua-Mobile"@, "?0"@),
        ("Sec-Ch-Ua-Model"@, "\"\""@),
        ("Sec-Ch-Ua-Platform"@, "\"macOS\""@),
        ("Sec-Ch-Ua-Platform-Version"@, "\"12.7.4\""@),
        ("Sec-Fetch-Dest"@, "empty"@),
        ("Sec-Fetch-Mode"@, "cors"@),
        ("Sec-Fetch-Site"@, "same-origin"@),
        (
            "User-Agent"@,
            "Mozilla/5.0 (Macintosh; Intel Mac OS X 10_15_7) AppleWebKit/537.36 (KHTML, like Gecko) Chrome/125.0.0.0 Safari/537.36"@,
        ),
        ("X-Asbd-Id"@, "129477"@),
        ("X-Fb-Lsd"@, "AVoPBTXMX0Y"@),
        ("X-Fb-Friendly-Name"@, "PolarisPostActionLoadPostQueryQuery"@),
        ("X-Ig-App-Id"@, "936619743392459"@),
    ]
}

/// Builds the browser-mimicry headers for query-API requests.
pub fn build_graphql_headers() -> (r: Vec<(String, String)>)
    ensures
        crate::fetcher::spec_header_views(r@) == spec_graphql_headers(),
{
    let mut r: Vec<(String, String)> = Vec::new();
    r.push(("Accept".to_owned(), "*/*".to_owned()));
    r.push(("Accept-Language".to_owned(), "en-US,en;q=0.9".to_owned()));
    r.push(("Content-Type".to_owned(), "application/x-www-form-urlencoded".to_owned()));
    r.push(("Origin".to_owned(), "https://www.instagram.com".to_owned()));
    r.push(("Referer".to_owned(), "https://www.instagram.com/".to_owned()));
    r.push(("Priority".to_owned(), "u=1, i".to_owned()));
    r.push(("Sec-Ch-Prefers-Color-Scheme".to_owned(), "dark".to_owned()));
    r.push((
        "Sec-Ch-Ua".to_owned(),
        "\"Google Chrome\";v=\"125\", \"Chromium\";v=\"125\", \"Not.A/Brand\";v=\"24\"".to_owned(),
    ));
    r.push((
        "Sec-Ch-Ua-Full-Version-List".to_owned(),
        "\"Google Chrome\";v=\"125.0.6422.142\", \"Chromium\";v=\"125.0.6422.142\", \"Not.A/Brand\";v=\"24.0.0.0\"".to_owned(),
    ));
    r.push(("Sec-Ch-Ua-Mobile".to_owned(), "?0".to_owned()));
    r.push(("Sec-Ch-Ua-Model".to_owned(), "\"\"".to_owned()));
    r.push(("Sec-Ch-Ua-Platform".to_owned(), "\"macOS\"".to_owned()));
    r.push(("Sec-Ch-Ua-Platform-Version".to_owned(), "\"12.7.4\"".to_owned()));
    r.push(("Sec-Fetch-Dest".to_owned(), "empty".to_owned()));
    r.push(("Sec-Fetch-Mode".to_owned(), "cors".to_owned()));
    r.push(("Sec-Fetch-Site".to_owned(), "same-origin".to_owned()));
    r.push((
        "User-Agent".to_owned(),
        "Mozilla/5.0 (Macintosh; Intel Mac OS X 10_15_7) AppleWebKit/537.36 (KHTML, like Gecko) Chrome/125.0.0.0 Safari/537.36".to_owned(),
    ));
    r.push(("X-Asbd-Id".to_owned(), "129477".to_owned()));
    r.push(("X-Fb-Lsd".to_owned(), "AVoPBTXMX0Y".to_owned()));
    r.push(("X-Fb-Friendly-Name".to_owned(), "PolarisPostActionLoadPostQueryQuery".to_owned()));
    r.push(("X-Ig-App-Id".to_owned(), "936619743392459".to_owned()));
    assert(crate::fetcher::spec_header_views(r@) =~= spec_graphql_headers());
    r
}

/// The record parsed from a query-API response: nothing on a login-wall
/// signature, a malformed document, a missing media field, or a JSON null
/// media field (the blocked signal); else the shaped media-owner node.
pub open spec fn spec_parse_graphql_response(text: Seq<char>, post_id: Seq<char>) -> Option<
    InstaDataV,
> {
    if contains_seq(text, "require_login"@) || contains_seq(text, "not-logged-in"@) {
        None
    } else {
        match spec_parsed_json(text) {
            None => None,
            Some(j) => match spec_get(j, "data"@) {
                None => None,
                Some(d) => match (match spec_get(d, "xdt_shortcode_media"@) {
                    Some(m) => Some(m),
                    None => spec_get(d, "shortcode_media"@),
                }) {
                    None => None,
                    Some(m) => if spec_is_null(m) {
                        None
                    } else {
                        spec_parse_shortcode_media(m, post_id)
                    },
                },
            },
        }
    }
}

/// Parses a query-API JSON response into the normalized record.
pub fn parse_graphql_response(text: &str, post_id: &str) -> (r: Option<InstaData>)
    ensures
        match r {
            Some(d) => spec_parse_graphql_response(text@, post_id@) == Some(d@),
            None => spec_parse_graphql_response(text@, post_id@) is None,
        },
{
    if str_contains(text, "require_login") || str_contains(text, "not-logged-in") {
        return None;
    }
    let j = match parse_json(text) {
        Some(j) => j,
        None => {
            return None;
        },
    };
    let d = match j.get("data") {
        Some(d) => d,
        None => {
            return None;
        },
    };
    let m = match d.get("xdt_shortcode_media") {
        Some(m) => m,
        None => match d.get("shortcode_media") {
            Some(m) => m,
            None => {
                return None;
            },
        },
    };
    if m.is_null() {
        return None;
    }
    parse_shortcode_media(m, post_id)
}

} // verus!
