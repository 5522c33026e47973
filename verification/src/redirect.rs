//! The redirect-chain resolver for share links: follows a bounded chain of
//! manual HTTP redirects from a synthesized share URL until a URL carrying
//! a recognizable post-id path segment is reached.

use vstd::prelude::*;

use crate::codec::{extract_post_id, spec_extract_post_id};

verus! {

/// The hop limit when resolving share URLs.
pub const MAX_REDIRECTS: u64 = 5;

/// What a redirect target resolves to against a base URL: the target
/// itself when absolute, else the join against the base; nothing when
/// neither parses. The result depends on the two texts alone.
pub uninterp spec fn spec_resolved_location(base: Seq<char>, location: Seq<char>) -> Option<
    Seq<char>,
>;

/// Relies on url::Url::parse and url::Url::join: a location is parsed
/// absolute or else resolved against the base, deterministically from the
/// two texts; `None` exactly when neither way yields a URL.
#[verifier::external_body]
fn resolve_location(base: &str, location: &str) -> (r: Option<String>)
    ensures
        match r {
            Some(s) => spec_resolved_location(base@, location@) == Some(s@),
            None => spec_resolved_location(base@, location@) is None,
        },
{
    match url::Url::parse(location) {
        Ok(u) => Some(u.to_string()),
        Err(_) => match url::Url::parse(base).and_then(|b| b.join(location)) {
            Ok(u) => Some(u.to_string()),
            Err(_) => None,
        },
    }
}

/// The path component of a URL text; nothing when it does not parse as an
/// absolute URL. The result depends on the text alone.
pub uninterp spec fn spec_url_path(url: Seq<char>) -> Option<Seq<char>>;

/// Relies on url::Url::parse and url::Url::path: the path component of an
/// absolute URL, deterministically from the text; `None` exactly when the
/// text does not parse.
#[verifier::external_body]
fn url_path(url: &str) -> (r: Option<String>)
    ensures
        match r {
            Some(s) => spec_url_path(url@) == Some(s@),
            None => spec_url_path(url@) is None,
        },
{
    match url::Url::parse(url) {
        Ok(u) => Some(u.path().to_string()),
        Err(_) => None,
    }
}

/// What one hop of the resolution decides.
pub enum RedirectStep {
    /// Keep following from this URL.
    Follow(String),
    /// Stop, with the post id if one was found.
    Done(Option<String>),
}

/// The mathematical value of a `RedirectStep`.
pub ghost enum RedirectStepV {
    Follow(Seq<char>),
    Done(Option<Seq<char>>),
}

impl View for RedirectStep {
    type V = RedirectStepV;

    open spec fn view(&self) -> RedirectStepV {
        match self {
            RedirectStep::Follow(u) => RedirectStepV::Follow(u@),
            RedirectStep::Done(r) => RedirectStepV::Done(
                match r {
                    Some(s) => Some(s@),
                    None => None,
                },
            ),
        }
    }
}

/// The post id extractable from a URL text, if any.
pub open spec fn spec_post_id_of_url(url: Seq<char>) -> Option<Seq<char>> {
    match spec_url_path(url) {
        Some(p) => spec_extract_post_id(p),
        None => None,
    }
}

/// The decision for one response in the chain. On a 3xx with a location:
/// resolve it against the current URL; give up when it cannot be resolved;
/// return the post id at once when the resolved URL already carries one;
/// else follow the resolved URL. On anything else: stop, extracting what
/// the current URL yields.
pub open spec fn spec_redirect_step(
    current: Seq<char>,
    status: u16,
    location: Option<Seq<char>>,
) -> RedirectStepV {
    if 300 <= status && status < 400 {
        match location {
            Some(loc) => match spec_resolved_location(current, loc) {
                Some(resolved) => match spec_post_id_of_url(resolved) {
                    Some(id) => RedirectStepV::Done(Some(id)),
                    None => RedirectStepV::Follow(resolved),
                },
                None => RedirectStepV::Done(None),
            },
            None => RedirectStepV::Done(None),
        }
    } else {
        RedirectStepV::Done(spec_post_id_of_url(current))
    }
}

/// Decides one hop of share-link resolution from the response's status and
/// `Location` header.
pub fn redirect_step(current_url: &str, status: u16, location: Option<&str>) -> (r: RedirectStep)
    ensures
        r@ == spec_redirect_step(
            current_url@,
            status,
            match location {
                Some(l) => Some(l@),
                None => None,
            },
        ),
{
    if 300 <= status && status < 400 {
        match location {
            Some(loc) => match resolve_location(current_url, loc) {
                Some(resolved) => match url_path(resolved.as_str()) {
                    Some(path) => match extract_post_id(path.as_str()) {
                        Some(id) => RedirectStep::Done(Some(id)),
                        None => RedirectStep::Follow(resolved),
                    },
                    None => RedirectStep::Follow(resolved),
                },
                None => RedirectStep::Done(None),
            },
            None => RedirectStep::Done(None),
        }
    } else {
        match url_path(current_url) {
            Some(path) => RedirectStep::Done(extract_post_id(path.as_str())),
            None => RedirectStep::Done(None),
        }
    }
}

/// The share URL synthesized for a share path.
pub open spec fn spec_share_url(share_path: Seq<char>) -> Seq<char> {
    "https://www.instagram.com/"@ + share_path
}

/// Builds the share URL for a share path.
pub fn share_url(share_path: &str) -> (r: String)
    ensures
        r@ == spec_share_url(share_path@),
{
    let mut out = String::from_str("https://www.instagram.com/");
    out.append(share_path);
    out
}

/// The result of resolving against a recorded chain of responses, starting
/// at `current` with `hops` hops left and the responses from index `k` on:
/// `None` once the hop limit or the responses are exhausted, otherwise the
/// decision of the next response, followed when it says to follow.
pub open spec fn spec_resolve_chain(
    current: Seq<char>,
    responses: Seq<(u16, Option<Seq<char>>)>,
    k: int,
    hops: int,
) -> Option<Seq<char>>
    decreases hops,
{
    if hops <= 0 {
        None
    } else if k < 0 || k >= responses.len() {
        None
    } else {
        match spec_redirect_step(current, responses[k].0, responses[k].1) {
            RedirectStepV::Done(r) => r,
            RedirectStepV::Follow(next) => spec_resolve_chain(next, responses, k + 1, hops - 1),
        }
    }
}

/// The post id a share path resolves to against a recorded chain of
/// responses, within the hop limit.
pub open spec fn spec_resolve_share_chain(
    share_path: Seq<char>,
    responses: Seq<(u16, Option<Seq<char>>)>,
) -> Option<Seq<char>> {
    spec_resolve_chain(spec_share_url(share_path), responses, 0, MAX_REDIRECTS as int)
}

/// Resolution consults at most `hops` responses: two recorded chains that
/// agree on the responses of the window are resolved alike, whatever
/// follows the window. In particular, nothing past the hop limit can turn
/// an unresolved chain into a resolved one.
pub proof fn lemma_chain_consults_window(
    current: Seq<char>,
    r1: Seq<(u16, Option<Seq<char>>)>,
    r2: Seq<(u16, Option<Seq<char>>)>,
    k: int,
    hops: int,
)
    requires
        0 <= k,
        0 <= hops,
        r1.len() >= k + hops,
        r2.len() >= k + hops,
        forall|j: int| k <= j < k + hops ==> r1[j] == r2[j],
    ensures
        spec_resolve_chain(current, r1, k, hops) == spec_resolve_chain(current, r2, k, hops),
    decreases hops,
{
    if hops > 0 {
        assert(r1[k] == r2[k]);
        match spec_redirect_step(current, r1[k].0, r1[k].1) {
            RedirectStepV::Done(r) => {},
            RedirectStepV::Follow(next) => {
                lemma_chain_consults_window(next, r1, r2, k + 1, hops - 1);
            },
        }
    }
}

/// The views of a recorded response list.
pub open spec fn spec_response_views(rs: Seq<(u16, Option<String>)>) -> Seq<
    (u16, Option<Seq<char>>),
> {
    Seq::new(
        rs.len(),
        |i: int|
            (
                rs[i].0,
                match rs[i].1 {
                    Some(l) => Some(l@),
                    None => None,
                },
            ),
    )
}

/// Follows a share URL redirect chain against a recorded sequence of
/// responses (each a status and optional `Location` header, in the order
/// the requests would be issued) to extract the real post ID. Follows at
/// most the fixed hop limit; exhausting it, the responses, or reaching an
/// unresolvable redirect yields `None`.
pub fn resolve_share_url(share_path: &str, responses: &Vec<(u16, Option<String>)>) -> (r: Option<
    String,
>)
    ensures
        match r {
            Some(id) => spec_resolve_share_chain(
                share_path@,
                spec_response_views(responses@),
            ) == Some(id@),
            None => spec_resolve_share_chain(share_path@, spec_response_views(responses@)) is None,
        },
{
    let ghost rv = spec_response_views(responses@);
    let mut current: String = share_url(share_path);
    let mut k: usize = 0;
    let mut hops: u64 = MAX_REDIRECTS;
    loop
        invariant
            rv == spec_response_views(responses@),
            hops <= MAX_REDIRECTS,
            spec_resolve_share_chain(share_path@, rv) == spec_resolve_chain(
                current@,
                rv,
                k as int,
                hops as int,
            ),
        decreases hops,
    {
        if hops == 0 {
            return None;
        }
        if k >= responses.len() {
            return None;
        }
        let status = responses[k].0;
        let step = match &responses[k].1 {
            Some(l) => redirect_step(current.as_str(), status, Some(l.as_str())),
            None => redirect_step(current.as_str(), status, None),
        };
        proof {
            assert(rv[k as int] == (
                responses@[k as int].0,
                match responses@[k as int].1 {
                    Some(l) => Some(l@),
                    None => None::<Seq<char>>,
                },
            ));
        }
        match step {
            RedirectStep::Done(r) => {
                return r;
            },
            RedirectStep::Follow(next) => {
                current = next;
                k += 1;
                hops -= 1;
            },
        }
    }
}

} // verus!
