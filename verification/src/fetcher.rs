//! The routed fetcher: a fetch is either issued directly or, when relay
//! credentials are configured, wrapped as a JSON submission to the relay's
//! REST endpoint with a bearer token. The wrapping is pure request
//! construction; performing the request is the host's business.

use vstd::prelude::*;

use crate::escape::spec_escape_json;
use crate::escape::escape_json_string;
use crate::text::{
    chars_to_string, find_from, spec_find_from, str_to_chars, subrange_chars,
};

verus! {

/// The HTTP method of a request.
#[derive(Clone, Copy, Debug, PartialEq, Eq, Structural)]
pub enum HttpMethod {
    Get,
    Post,
}

/// An HTTP request as plain values: everything the host needs to perform
/// the fetch.
#[derive(Debug)]
pub struct HttpRequest {
    pub url: String,
    pub method: HttpMethod,
    pub headers: Vec<(String, String)>,
    pub body: Option<String>,
}

/// The mathematical value of an `HttpRequest`.
#[verifier::ext_equal]
pub ghost struct HttpRequestV {
    pub url: Seq<char>,
    pub method: HttpMethod,
    pub headers: Seq<(Seq<char>, Seq<char>)>,
    pub body: Option<Seq<char>>,
}

/// The views of a header list, in order.
pub open spec fn spec_header_views(h: Seq<(String, String)>) -> Seq<(Seq<char>, Seq<char>)> {
    Seq::new(h.len(), |i: int| (h[i].0@, h[i].1@))
}

impl View for HttpRequest {
    type V = HttpRequestV;

    open spec fn view(&self) -> HttpRequestV {
        HttpRequestV {
            url: self.url@,
            method: self.method,
            headers: spec_header_views(self.headers@),
            body: match self.body {
                Some(b) => Some(b@),
                None => None,
            },
        }
    }
}

/// The credentials of the relay: the username carries the zone name, the
/// password is the bearer token.
#[derive(Debug)]
pub struct RelayConfig {
    pub username: String,
    pub password: String,
}

/// The mathematical value of a `RelayConfig`.
#[verifier::ext_equal]
pub ghost struct RelayConfigV {
    pub username: Seq<char>,
    pub password: Seq<char>,
}

impl View for RelayConfig {
    type V = RelayConfigV;

    open spec fn view(&self) -> RelayConfigV {
        RelayConfigV { username: self.username@, password: self.password@ }
    }
}

/// The zone name parsed out of the relay username: the text between the
/// fixed `-zone-` delimiter and the next `-` or the end; nothing when the
/// delimiter is missing or the name is empty.
pub open spec fn spec_extract_zone(username: Seq<char>) -> Option<Seq<char>> {
    match spec_find_from(username, "-zone-"@, 0) {
        None => None,
        Some(z) => {
            let after = username.skip(z + "-zone-"@.len());
            let zone = match spec_find_from(after, seq!['-'], 0) {
                Some(e) => after.subrange(0, e),
                None => after,
            };
            if zone.len() == 0 {
                None
            } else {
                Some(zone)
            }
        },
    }
}

/// Extracts the zone name from the relay username.
pub fn extract_zone(username: &str) -> (r: Option<String>)
    ensures
        match r {
            Some(s) => spec_extract_zone(username@) == Some(s@),
            None => spec_extract_zone(username@) is None,
        },
{
    proof {
        reveal_strlit("-zone-");
    }
    let uv = str_to_chars(username);
    let needle = str_to_chars("-zone-");
    let z = match find_from(&uv, &needle, 0) {
        Some(z) => z,
        None => {
            return None;
        },
    };
    let ulen = uv.len();
    assert(z + needle@.len() <= ulen);
    let after = subrange_chars(&uv, z + needle.len(), ulen);
    assert(after@ =~= uv@.skip(z + "-zone-"@.len()));
    let mut dash: Vec<char> = Vec::new();
    dash.push('-');
    assert(dash@ =~= seq!['-']);
    let zone = match find_from(&after, &dash, 0) {
        Some(e) => subrange_chars(&after, 0, e),
        None => after,
    };
    if zone.len() == 0 {
        return None;
    }
    Some(chars_to_string(&zone))
}

/// The fixed zone name used when none can be parsed from the username.
pub open spec fn spec_zone_of(username: Seq<char>) -> Seq<char> {
    match spec_extract_zone(username) {
        Some(z) => z,
        None => "residential"@,
    }
}

/// The header names forwarded to the relay, in forwarding order.
pub open spec fn spec_forward_keys() -> Seq<Seq<char>> {
    seq![
        "User-Agent"@,
        "Accept"@,
        "Accept-Language"@,
        "Cookie"@,
        "Content-Type"@,
        "Origin"@,
        "Referer"@,
        "X-Ig-App-Id"@,
        "X-Fb-Lsd"@,
        "X-Asbd-Id"@,
        "X-Fb-Friendly-Name"@,
        "X-Requested-With"@,
        "Sec-Fetch-Dest"@,
        "Sec-Fetch-Mode"@,
        "Sec-Fetch-Site"@,
        "Sec-Ch-Ua"@,
        "Sec-Ch-Ua-Mobile"@,
        "Sec-Ch-Ua-Platform"@,
    ]
}

/// The value of the first header whose name reads `key`.
pub open spec fn spec_header_lookup(
    headers: Seq<(Seq<char>, Seq<char>)>,
    key: Seq<char>,
) -> Option<Seq<char>>
    decreases headers.len(),
{
    if headers.len() == 0 {
        None
    } else if headers[0].0 == key {
        Some(headers[0].1)
    } else {
        spec_header_lookup(headers.drop_first(), key)
    }
}

/// The headers forwarded to the relay: for each forwardable name in order,
/// the request's value for it, where there is one.
pub open spec fn spec_relay_headers_from(
    keys: Seq<Seq<char>>,
    headers: Seq<(Seq<char>, Seq<char>)>,
) -> Seq<(Seq<char>, Seq<char>)>
    decreases keys.len(),
{
    if keys.len() == 0 {
        Seq::empty()
    } else {
        (match spec_header_lookup(headers, keys[0]) {
            Some(v) => seq![(keys[0], v)],
            None => Seq::<(Seq<char>, Seq<char>)>::empty(),
        }) + spec_relay_headers_from(keys.drop_first(), headers)
    }
}

/// The headers forwarded to the relay for a request's header list.
pub open spec fn spec_relay_headers(headers: Seq<(Seq<char>, Seq<char>)>) -> Seq<
    (Seq<char>, Seq<char>),
> {
    spec_relay_headers_from(spec_forward_keys(), headers)
}

/// Looks up the value of the first header whose name equals `key`.
fn header_lookup(headers: &Vec<(String, String)>, key: &str) -> (r: Option<String>)
    ensures
        match r {
            Some(v) => spec_header_lookup(spec_header_views(headers@), key@) == Some(v@),
            None => spec_header_lookup(spec_header_views(headers@), key@) is None,
        },
{
    let ghost hs = spec_header_views(headers@);
    let mut i: usize = 0;
    assert(hs.skip(0) =~= hs);
    while i < headers.len()
        invariant
            i <= headers@.len(),
            hs == spec_header_views(headers@),
            spec_header_lookup(hs, key@) == spec_header_lookup(hs.skip(i as int), key@),
        decreases headers@.len() - i,
    {
        let ghost rest = hs.skip(i as int);
        assert(rest[0] == hs[i as int]);
        if crate::text::str_eq(headers[i].0.as_str(), key) {
            return Some(headers[i].1.clone());
        }
        assert(rest.drop_first() =~= hs.skip(i + 1));
        i += 1;
    }
    assert(hs.skip(hs.len() as int) =~= Seq::<(Seq<char>, Seq<char>)>::empty());
    None
}

/// A JSON string literal holding `s`, escaped.
pub open spec fn spec_json_string(s: Seq<char>) -> Seq<char> {
    seq!['"'] + spec_escape_json(s) + seq!['"']
}

/// Appends a JSON string literal holding `s` to `out`.
fn push_json_string(out: &mut String, s: &str)
    ensures
        final(out)@ == old(out)@ + spec_json_string(s@),
{
    out.append("\"");
    let escaped = escape_json_string(s);
    out.append(escaped.as_str());
    out.append("\"");
    proof {
        reveal_strlit("\"");
        assert("\""@ =~= seq!['"']);
        assert(out@ =~= old(out)@ + spec_json_string(s@));
    }
}

/// The members of the JSON object holding the forwarded headers, in order.
pub open spec fn spec_json_header_members(pairs: Seq<(Seq<char>, Seq<char>)>) -> Seq<char>
    decreases pairs.len(),
{
    if pairs.len() == 0 {
        Seq::empty()
    } else {
        let one = spec_json_string(pairs[0].0) + seq![':'] + spec_json_string(pairs[0].1);
        if pairs.len() == 1 {
            one
        } else {
            one + seq![','] + spec_json_header_members(pairs.drop_first())
        }
    }
}

/// The relay submission payload: target URL, method, a country hint, the
/// forwarded headers when any, and the body when there is one.
pub open spec fn spec_relay_payload(
    zone: Seq<char>,
    url: Seq<char>,
    method_str: Seq<char>,
    headers: Seq<(Seq<char>, Seq<char>)>,
    body: Option<Seq<char>>,
) -> Seq<char> {
    "{\"zone\":"@ + spec_json_string(zone) + ",\"url\":"@ + spec_json_string(url)
        + ",\"format\":\"raw\",\"method\":"@ + spec_json_string(method_str) + ",\"country\":\"us\""@
        + (if headers.len() > 0 {
        ",\"headers\":{"@ + spec_json_header_members(headers) + seq!['}']
    } else {
        Seq::empty()
    }) + (match body {
        Some(b) => ",\"body\":"@ + spec_json_string(b),
        None => Seq::empty(),
    }) + seq!['}']
}

/// The name of a method on the wire.
pub open spec fn spec_method_str(m: HttpMethod) -> Seq<char> {
    match m {
        HttpMethod::Get => "GET"@,
        HttpMethod::Post => "POST"@,
    }
}

/// The request a routed fetch performs: the request itself when no relay is
/// configured; with relay credentials, a POST of the wrapped payload to the
/// relay's fixed submission endpoint, authenticated with the bearer token.
pub open spec fn spec_route_request(req: HttpRequestV, relay: Option<RelayConfigV>) -> (
    HttpRequestV
) {
    match relay {
        None => req,
        Some(cfg) => HttpRequestV {
            url: "https://api.brightdata.com/request"@,
            method: HttpMethod::Post,
            headers: seq![
                ("Authorization"@, "Bearer "@ + cfg.password),
                ("Content-Type"@, "application/json"@),
            ],
            body: Some(
                spec_relay_payload(
                    spec_zone_of(cfg.username),
                    req.url,
                    spec_method_str(req.method),
                    spec_relay_headers(req.headers),
                    req.body,
                ),
            ),
        },
    }
}

fn method_str(m: HttpMethod) -> (r: &'static str)
    ensures
        r@ == spec_method_str(m),
{
    match m {
        HttpMethod::Get => "GET",
        HttpMethod::Post => "POST",
    }
}

/// Builds the list of headers to forward to the relay.
fn relay_headers(headers: &Vec<(String, String)>) -> (r: Vec<(String, String)>)
    ensures
        spec_header_views(r@) == spec_relay_headers(spec_header_views(headers@)),
{
    let mut keys: Vec<&'static str> = Vec::new();
    keys.push("User-Agent");
    keys.push("Accept");
    keys.push("Accept-Language");
    keys.push("Cookie");
    keys.push("Content-Type");
    keys.push("Origin");
    keys.push("Referer");
    keys.push("X-Ig-App-Id");
    keys.push("X-Fb-Lsd");
    keys.push("X-Asbd-Id");
    keys.push("X-Fb-Friendly-Name");
    keys.push("X-Requested-With");
    keys.push("Sec-Fetch-Dest");
    keys.push("Sec-Fetch-Mode");
    keys.push("Sec-Fetch-Site");
    keys.push("Sec-Ch-Ua");
    keys.push("Sec-Ch-Ua-Mobile");
    keys.push("Sec-Ch-Ua-Platform");
    assert(keys@.len() == spec_forward_keys().len());
    assert(forall|i: int| 0 <= i < keys@.len() ==> keys@[i]@ == spec_forward_keys()[i]);
    let ghost hs = spec_header_views(headers@);
    let ghost fk = spec_forward_keys();
    let mut r: Vec<(String, String)> = Vec::new();
    let mut i: usize = 0;
    proof {
        assert(fk.skip(0) =~= fk);
        assert(spec_header_views(r@) =~= Seq::<(Seq<char>, Seq<char>)>::empty());
        assert(Seq::<(Seq<char>, Seq<char>)>::empty() + spec_relay_headers_from(fk, hs)
            =~= spec_relay_headers_from(fk, hs));
    }
    while i < keys.len()
        invariant
            i <= keys@.len(),
            keys@.len() == fk.len(),
            forall|k: int| 0 <= k < keys@.len() ==> keys@[k]@ == fk[k],
            hs == spec_header_views(headers@),
            fk == spec_forward_keys(),
            spec_relay_headers_from(fk, hs) == spec_header_views(r@) + spec_relay_headers_from(
                fk.skip(i as int),
                hs,
            ),
        decreases keys@.len() - i,
    {
        let ghost rest = fk.skip(i as int);
        let ghost prev = spec_header_views(r@);
        assert(rest[0] == fk[i as int]);
        match header_lookup(headers, keys[i]) {
            Some(v) => {
                r.push((keys[i].to_owned(), v));
                proof {
                    assert(spec_header_views(r@) =~= prev + seq![
                        (fk[i as int], spec_header_lookup(hs, fk[i as int])->0),
                    ]);
                    assert(rest.drop_first() =~= fk.skip(i + 1));
                    assert(prev + (seq![(fk[i as int], spec_header_lookup(hs, fk[i as int])->0)]
                        + spec_relay_headers_from(fk.skip(i + 1), hs)) =~= (prev + seq![
                        (fk[i as int], spec_header_lookup(hs, fk[i as int])->0),
                    ]) + spec_relay_headers_from(fk.skip(i + 1), hs));
                }
            },
            None => {
                proof {
                    assert(rest.drop_first() =~= fk.skip(i + 1));
                    assert(Seq::<(Seq<char>, Seq<char>)>::empty() + spec_relay_headers_from(
                        fk.skip(i + 1),
                        hs,
                    ) =~= spec_relay_headers_from(fk.skip(i + 1), hs));
                }
            },
        }
        i += 1;
    }
    assert(fk.skip(fk.len() as int) =~= Seq::<Seq<char>>::empty());
    assert(spec_header_views(r@) + Seq::<(Seq<char>, Seq<char>)>::empty() =~= spec_header_views(
        r@,
    ));
    r
}

proof fn lemma_members_push(pairs: Seq<(Seq<char>, Seq<char>)>, x: (Seq<char>, Seq<char>))
    ensures
        spec_json_header_members(pairs.push(x)) == (if pairs.len() == 0 {
            spec_json_string(x.0) + seq![':'] + spec_json_string(x.1)
        } else {
            spec_json_header_members(pairs) + seq![','] + (spec_json_string(x.0) + seq![':']
                + spec_json_string(x.1))
        }),
    decreases pairs.len(),
{
    let item = spec_json_string(x.0) + seq![':'] + spec_json_string(x.1);
    if pairs.len() == 0 {
        assert(pairs.push(x)[0] == x);
        assert(pairs.push(x).len() == 1);
    } else if pairs.len() == 1 {
        assert(pairs.push(x)[0] == pairs[0]);
        assert(pairs.push(x).drop_first() =~= seq![x]);
        assert(spec_json_header_members(seq![x]) == item);
    } else {
        assert(pairs.push(x)[0] == pairs[0]);
        assert(pairs.push(x).drop_first() =~= pairs.drop_first().push(x));
        lemma_members_push(pairs.drop_first(), x);
        let one = spec_json_string(pairs[0].0) + seq![':'] + spec_json_string(pairs[0].1);
        assert(one + seq![','] + (spec_json_header_members(pairs.drop_first()) + seq![','] + item)
            =~= (one + seq![','] + spec_json_header_members(pairs.drop_first())) + seq![',']
            + item);
    }
}

/// Builds the relay submission payload text.
fn build_relay_payload(
    zone: &str,
    url: &str,
    method: HttpMethod,
    headers: &Vec<(String, String)>,
    body: &Option<String>,
) -> (r: String)
    ensures
        r@ == spec_relay_payload(
            zone@,
            url@,
            spec_method_str(method),
            spec_header_views(headers@),
            match body {
                Some(b) => Some(b@),
                None => None,
            },
        ),
{
    proof {
        reveal_strlit(":");
        reveal_strlit(",");
        reveal_strlit("}");
    }
    let ghost hs = spec_header_views(headers@);
    let mut out = String::new();
    out.append("{\"zone\":");
    push_json_string(&mut out, zone);
    out.append(",\"url\":");
    push_json_string(&mut out, url);
    out.append(",\"format\":\"raw\",\"method\":");
    push_json_string(&mut out, method_str(method));
    out.append(",\"country\":\"us\"");
    assert(out@ =~= "{\"zone\":"@ + spec_json_string(zone@) + ",\"url\":"@ + spec_json_string(
        url@,
    ) + ",\"format\":\"raw\",\"method\":"@ + spec_json_string(spec_method_str(method))
        + ",\"country\":\"us\""@);
    let ghost before_headers = out@;
    if headers.len() > 0 {
        out.append(",\"headers\":{");
        let ghost open_part = out@;
        let mut i: usize = 0;
        while i < headers.len()
            invariant
                i <= headers@.len(),
                headers@.len() > 0,
                hs == spec_header_views(headers@),
                out@ == open_part + (if i == 0 {
                    Seq::<char>::empty()
                } else {
                    spec_json_header_members(hs.take(i as int))
                }),
            decreases headers@.len() - i,
        {
            let ghost prev = out@;
            if i > 0 {
                out.append(",");
            }
            push_json_string(&mut out, headers[i].0.as_str());
            out.append(":");
            push_json_string(&mut out, headers[i].1.as_str());
            proof {
                reveal_strlit(":");
                reveal_strlit(",");
                let item = spec_json_string(hs[i as int].0) + seq![':'] + spec_json_string(
                    hs[i as int].1,
                );
                lemma_members_push(hs.take(i as int), hs[i as int]);
                assert(hs.take(i as int).push(hs[i as int]) =~= hs.take(i + 1));
                if i > 0 {
                    assert(out@ =~= prev + seq![','] + item);
                    assert(out@ =~= open_part + spec_json_header_members(hs.take(i + 1)));
                } else {
                    assert(out@ =~= prev + item);
                    assert(out@ =~= open_part + spec_json_header_members(hs.take(i + 1)));
                }
            }
            i += 1;
        }
        out.append("}");
        proof {
            assert(hs.take(hs.len() as int) =~= hs);
            assert(out@ =~= before_headers + (",\"headers\":{"@ + spec_json_header_members(hs)
                + seq!['}']));
        }
    } else {
        assert(out@ =~= before_headers + Seq::<char>::empty());
    }
    let ghost with_headers = before_headers + (if hs.len() > 0 {
        ",\"headers\":{"@ + spec_json_header_members(hs) + seq!['}']
    } else {
        Seq::<char>::empty()
    });
    assert(out@ == with_headers);
    match body {
        Some(b) => {
            out.append(",\"body\":");
            push_json_string(&mut out, b.as_str());
            assert(out@ =~= with_headers + (",\"body\":"@ + spec_json_string(b@)));
        },
        None => {},
    }
    out.append("}");
    proof {
        assert(out@ =~= spec_relay_payload(
            zone@,
            url@,
            spec_method_str(method),
            hs,
            match body {
                Some(b) => Some(b@),
                None => None,
            },
        ));
    }
    out
}

/// The standard base64 alphabet.
pub open spec fn spec_b64_alphabet() -> Seq<char> {
    "ABCDEFGHIJKLMNOPQRSTUVWXYZabcdefghijklmnopqrstuvwxyz0123456789+/"@
}

/// The four output characters for one input chunk of `n` bytes (at most
/// three; missing bytes read as zero and pad as `=`).
pub open spec fn spec_base64_chunk(b0: u8, b1: u8, b2: u8, n: int) -> Seq<char> {
    let triple = (b0 as int) * 65536 + (b1 as int) * 256 + (b2 as int);
    seq![
        spec_b64_alphabet()[triple / 262144],
        spec_b64_alphabet()[(triple / 4096) % 64],
        if n > 1 {
            spec_b64_alphabet()[(triple / 64) % 64]
        } else {
            '='
        },
        if n > 2 {
            spec_b64_alphabet()[triple % 64]
        } else {
            '='
        },
    ]
}

/// The base64 encoding of `bytes`, chunked in threes with padding.
pub open spec fn spec_base64(bytes: Seq<u8>) -> Seq<char>
    decreases bytes.len(),
{
    if bytes.len() == 0 {
        Seq::empty()
    } else {
        let b1: u8 = if bytes.len() > 1 {
            bytes[1]
        } else {
            0
        };
        let b2: u8 = if bytes.len() > 2 {
            bytes[2]
        } else {
            0
        };
        let n: int = if bytes.len() >= 3 {
            3
        } else {
            bytes.len() as int
        };
        spec_base64_chunk(bytes[0], b1, b2, n) + (if bytes.len() > 3 {
            spec_base64(bytes.skip(3))
        } else {
            Seq::<char>::empty()
        })
    }
}

/// Simple base64 encoding for Basic auth.
pub fn base64_encode(input: &[u8]) -> (r: String)
    ensures
        r@ == spec_base64(input@),
{
    proof {
        reveal_strlit("ABCDEFGHIJKLMNOPQRSTUVWXYZabcdefghijklmnopqrstuvwxyz0123456789+/");
    }
    let alph = str_to_chars("ABCDEFGHIJKLMNOPQRSTUVWXYZabcdefghijklmnopqrstuvwxyz0123456789+/");
    let len = input.len();
    let mut out: Vec<char> = Vec::new();
    let mut i: usize = 0;
    proof {
        assert(input@.skip(0) =~= input@);
        assert(Seq::<char>::empty() + spec_base64(input@) =~= spec_base64(input@));
    }
    while i < len
        invariant
            i <= len,
            len == input@.len(),
            alph@ == spec_b64_alphabet(),
            alph@.len() == 64,
            spec_base64(input@) == out@ + spec_base64(input@.skip(i as int)),
        decreases len - i,
    {
        let ghost rest = input@.skip(i as int);
        let ghost prev = out@;
        let remaining = len - i;
        let b0 = input[i];
        let b1: u8 = if remaining > 1 {
            input[i + 1]
        } else {
            0
        };
        let b2: u8 = if remaining > 2 {
            input[i + 2]
        } else {
            0
        };
        proof {
            assert(rest[0] == input@[i as int]);
            if remaining > 1 {
                assert(rest[1] == input@[i + 1]);
            }
            if remaining > 2 {
                assert(rest[2] == input@[i + 2]);
            }
        }
        let triple: u32 = ((b0 as u32) << 16u32) | ((b1 as u32) << 8u32) | (b2 as u32);
        proof {
            assert(((((b0 as u32) << 16u32) | ((b1 as u32) << 8u32)) | (b2 as u32)) == (b0 as u32)
                * 65536 + (b1 as u32) * 256 + (b2 as u32)) by (bit_vector);
            assert((b0 as u32) * 65536 + (b1 as u32) * 256 + (b2 as u32) < 16777216) by (bit_vector);
            assert(triple == (b0 as int) * 65536 + (b1 as int) * 256 + (b2 as int));
            assert(triple / 262144 < 64) by (nonlinear_arith)
                requires
                    triple < 16777216,
            ;
        }
        out.push(alph[(triple / 262144) as usize]);
        out.push(alph[((triple / 4096) % 64) as usize]);
        if remaining > 1 {
            out.push(alph[((triple / 64) % 64) as usize]);
        } else {
            out.push('=');
        }
        if remaining > 2 {
            out.push(alph[(triple % 64) as usize]);
        } else {
            out.push('=');
        }
        let ghost n: int = if remaining >= 3 {
            3
        } else {
            remaining as int
        };
        proof {
            assert(out@ =~= prev + spec_base64_chunk(input@[i as int], b1, b2, n));
            assert(spec_base64(rest) == spec_base64_chunk(input@[i as int], b1, b2, n) + (
            if rest.len() > 3 {
                spec_base64(rest.skip(3))
            } else {
                Seq::<char>::empty()
            }));
        }
        if remaining <= 3 {
            proof {
                assert(spec_base64(rest) =~= spec_base64_chunk(input@[i as int], b1, b2, n));
                assert(out@ =~= spec_base64(input@));
            }
            return chars_to_string(&out);
        }
        proof {
            assert(rest.skip(3) =~= input@.skip(i + 3));
            assert(prev + (spec_base64_chunk(input@[i as int], b1, b2, n) + spec_base64(
                input@.skip(i + 3),
            )) =~= (prev + spec_base64_chunk(input@[i as int], b1, b2, n)) + spec_base64(
                input@.skip(i + 3),
            ));
        }
        i += 3;
    }
    assert(input@.skip(0) =~= input@);
    assert(out@ =~= spec_base64(input@));
    chars_to_string(&out)
}

/// Routes a fetch: the request itself without relay credentials; with
/// them, the wrapped POST to the relay submission endpoint.
pub fn route_request(
    target_url: &str,
    method: HttpMethod,
    headers: Vec<(String, String)>,
    body: Option<String>,
    relay: &Option<RelayConfig>,
) -> (r: HttpRequest)
    ensures
        r@ == spec_route_request(
            HttpRequestV {
                url: target_url@,
                method: method,
                headers: spec_header_views(headers@),
                body: match body {
                    Some(b) => Some(b@),
                    None => None,
                },
            },
            match relay {
                Some(cfg) => Some(cfg@),
                None => None,
            },
        ),
{
    match relay {
        None => {
            let r = HttpRequest { url: target_url.to_owned(), method, headers, body };
            proof {
                assert(r@ =~= spec_route_request(r@, None));
            }
            r
        },
        Some(cfg) => {
            let zone = match extract_zone(cfg.username.as_str()) {
                Some(z) => z,
                None => "residential".to_owned(),
            };
            let kept = relay_headers(&headers);
            let payload = build_relay_payload(
                zone.as_str(),
                target_url,
                method,
                &kept,
                &body,
            );
            let mut auth = String::from_str("Bearer ");
            auth.append(cfg.password.as_str());
            let mut relay_hdrs: Vec<(String, String)> = Vec::new();
            relay_hdrs.push(("Authorization".to_owned(), auth));
            relay_hdrs.push(("Content-Type".to_owned(), "application/json".to_owned()));
            let r = HttpRequest {
                url: "https://api.brightdata.com/request".to_owned(),
                method: HttpMethod::Post,
                headers: relay_hdrs,
                body: Some(payload),
            };
            proof {
                assert(spec_header_views(r.headers@) =~= seq![
                    ("Authorization"@, "Bearer "@ + cfg.password@),
                    ("Content-Type"@, "application/json"@),
                ]);
                let q = HttpRequestV {
                    url: target_url@,
                    method: method,
                    headers: spec_header_views(headers@),
                    body: match body {
                        Some(b) => Some(b@),
                        None => None,
                    },
                };
                assert(r@ =~= spec_route_request(q, Some(cfg@)));
            }
            r
        },
    }
}

} // verus!
