//! The resolution orchestrator: sequences cache lookup, the embed-page
//! strategy, the query-API strategy, the private-API strategy and cache
//! population, applying the fallback and good-enough policies between
//! strategies. The orchestrator only decides; performing a fetch is the
//! host's business, which hands the outcome back as the next event.

use vstd::prelude::*;

use crate::cache::{spec_cache_key, RecordCache};
use crate::codec::{code_to_mediaid, spec_code_to_mediaid};
use crate::extract::{embed_outcome_from_response, spec_embed_outcome};
use crate::fetcher::{
    route_request, spec_route_request, HttpMethod, HttpRequest, HttpRequestV, RelayConfig,
    RelayConfigV,
};
use crate::graphql::{
    build_graphql_body, build_graphql_headers, graphql_variables, parse_graphql_response,
    spec_build_graphql_body, spec_graphql_headers, spec_graphql_variables,
    spec_parse_graphql_response,
};
use crate::papi::{
    build_papi_headers, derive_papi_cookie, papi_direct_ok, papi_media_url, parse_papi_response,
    spec_derive_papi_cookie, spec_papi_direct_ok, spec_papi_headers, spec_papi_url,
    spec_parse_papi_response, wrap_session_cookie, spec_wrap_cookie, spec_decode_cookie,
};
use crate::types::{spec_thumbnail_only, InstaData, InstaDataV};

verus! {

/// Where the orchestrator stands in the cascade.
#[derive(Clone, Copy, Debug, PartialEq, Eq, Structural)]
pub enum ResolverState {
    AwaitCache,
    AwaitEmbed,
    AwaitGraphqlDirect,
    AwaitGraphqlProxy,
    AwaitPapiDirect,
    AwaitPapiProxy,
    Finished,
}

/// How many steps of the cascade remain from a state.
pub open spec fn spec_state_rank(s: ResolverState) -> int {
    match s {
        ResolverState::AwaitCache => 6,
        ResolverState::AwaitEmbed => 5,
        ResolverState::AwaitGraphqlDirect => 4,
        ResolverState::AwaitGraphqlProxy => 3,
        ResolverState::AwaitPapiDirect => 2,
        ResolverState::AwaitPapiProxy => 1,
        ResolverState::Finished => 0,
    }
}

/// The configuration a resolution runs under.
#[derive(Debug)]
pub struct ResolverConfig {
    /// The document id of the query-API request.
    pub doc_id: String,
    /// The session credential of the private API, when configured.
    pub ig_cookie: Option<String>,
    /// The relay credentials, when configured.
    pub relay: Option<RelayConfig>,
}

/// The mathematical value of a `ResolverConfig`.
#[verifier::ext_equal]
pub ghost struct ResolverConfigV {
    pub doc_id: Seq<char>,
    pub ig_cookie: Option<Seq<char>>,
    pub relay: Option<RelayConfigV>,
}

impl View for ResolverConfig {
    type V = ResolverConfigV;

    open spec fn view(&self) -> ResolverConfigV {
        ResolverConfigV {
            doc_id: self.doc_id@,
            ig_cookie: match self.ig_cookie {
                Some(c) => Some(c@),
                None => None,
            },
            relay: match self.relay {
                Some(r) => Some(r@),
                None => None,
            },
        }
    }
}

/// What the orchestrator asks the host to do next.
pub enum HostAction {
    /// Perform this HTTP request and hand back the outcome.
    Fetch(HttpRequest),
    /// The resolution is over: the record, and whether to write it to the
    /// cache.
    Finish { record: Option<InstaData>, write_cache: bool },
}

/// The mathematical value of a `HostAction`.
#[verifier::ext_equal]
pub ghost enum HostActionV {
    Fetch(HttpRequestV),
    Finish { record: Option<InstaDataV>, write_cache: bool },
}

impl View for HostAction {
    type V = HostActionV;

    open spec fn view(&self) -> HostActionV {
        match self {
            HostAction::Fetch(req) => HostActionV::Fetch(req@),
            HostAction::Finish { record, write_cache } => HostActionV::Finish {
                record: match record {
                    Some(d) => Some(d@),
                    None => None,
                },
                write_cache: *write_cache,
            },
        }
    }
}

/// One resolution in progress.
pub struct Resolver {
    pub post_id: String,
    pub config: ResolverConfig,
    pub state: ResolverState,
    pub fallback: Option<InstaData>,
}

/// The mathematical value of a `Resolver`.
#[verifier::ext_equal]
pub ghost struct ResolverV {
    pub post_id: Seq<char>,
    pub config: ResolverConfigV,
    pub state: ResolverState,
    pub fallback: Option<InstaDataV>,
}

impl View for Resolver {
    type V = ResolverV;

    open spec fn view(&self) -> ResolverV {
        ResolverV {
            post_id: self.post_id@,
            config: self.config@,
            state: self.state,
            fallback: match self.fallback {
                Some(d) => Some(d@),
                None => None,
            },
        }
    }
}

/// The embed-page request for a post: the captioned embed URL with
/// browser-mimicry headers and, when a session credential is configured,
/// the decoded session cookie.
pub open spec fn spec_embed_request(
    post_id: Seq<char>,
    ig_cookie: Option<Seq<char>>,
) -> HttpRequestV {
    HttpRequestV {
        url: "https://www.instagram.com/p/"@ + post_id + "/embed/captioned/?_fb_noscript=1"@,
        method: HttpMethod::Get,
        headers: seq![
            (
                "User-Agent"@,
                "Mozilla/5.0 (Windows NT 10.0; Win64; x64) AppleWebKit/537.36 (KHTML, like Gecko) Chrome/120.0.0.0 Safari/537.36"@,
            ),
            ("Accept"@, "text/html,application/xhtml+xml"@),
            ("Accept-Language"@, "en-US,en;q=0.9"@),
        ] + (match ig_cookie {
            Some(raw) => seq![("Cookie"@, spec_wrap_cookie(spec_decode_cookie(raw)))],
            None => Seq::<(Seq<char>, Seq<char>)>::empty(),
        }),
        body: None,
    }
}

/// Builds the embed-page request for a post.
pub fn embed_request(post_id: &str, ig_cookie: &Option<String>) -> (r: HttpRequest)
    ensures
        r@ == spec_embed_request(
            post_id@,
            match ig_cookie {
                Some(c) => Some(c@),
                None => None,
            },
        ),
{
    let mut url = String::from_str("https://www.instagram.com/p/");
    url.append(post_id);
    url.append("/embed/captioned/?_fb_noscript=1");
    let mut headers: Vec<(String, String)> = Vec::new();
    headers.push((
        "User-Agent".to_owned(),
        "Mozilla/5.0 (Windows NT 10.0; Win64; x64) AppleWebKit/537.36 (KHTML, like Gecko) Chrome/120.0.0.0 Safari/537.36".to_owned(),
    ));
    headers.push(("Accept".to_owned(), "text/html,application/xhtml+xml".to_owned()));
    headers.push(("Accept-Language".to_owned(), "en-US,en;q=0.9".to_owned()));
    match ig_cookie {
        Some(raw) => {
            let cookie = wrap_session_cookie(raw.as_str());
            headers.push(("Cookie".to_owned(), cookie));
        },
        None => {},
    }
    let r = HttpRequest { url, method: HttpMethod::Get, headers, body: None };
    proof {
        assert(r@.headers =~= spec_embed_request(
            post_id@,
            match ig_cookie {
                Some(c) => Some(c@),
                None => None::<Seq<char>>,
            },
        ).headers);
        assert(r@ =~= spec_embed_request(
            post_id@,
            match ig_cookie {
                Some(c) => Some(c@),
                None => None::<Seq<char>>,
            },
        ));
    }
    r
}

/// The direct query-API request for a post.
pub open spec fn spec_graphql_request(post_id: Seq<char>, doc_id: Seq<char>) -> HttpRequestV {
    HttpRequestV {
        url: "https://www.instagram.com/api/graphql"@,
        method: HttpMethod::Post,
        headers: spec_graphql_headers(),
        body: Some(spec_build_graphql_body(spec_graphql_variables(post_id), doc_id)),
    }
}

/// Builds the direct query-API request for a post.
pub fn graphql_request(post_id: &str, doc_id: &str) -> (r: HttpRequest)
    ensures
        r@ == spec_graphql_request(post_id@, doc_id@),
{
    let variables = graphql_variables(post_id);
    let body = build_graphql_body(variables.as_str(), doc_id);
    let headers = build_graphql_headers();
    let r = HttpRequest {
        url: "https://www.instagram.com/api/graphql".to_owned(),
        method: HttpMethod::Post,
        headers,
        body: Some(body),
    };
    proof {
        assert(r@ =~= spec_graphql_request(post_id@, doc_id@));
    }
    r
}

/// The direct private-API request for a post: the per-media info endpoint
/// for the shortcode's numeric media id, with the derived session cookie;
/// nothing when the shortcode does not convert.
pub open spec fn spec_papi_request(post_id: Seq<char>, raw_cookie: Seq<char>) -> Option<
    HttpRequestV,
> {
    match spec_code_to_mediaid(post_id) {
        Some(mid) => Some(
            HttpRequestV {
                url: spec_papi_url(mid as nat),
                method: HttpMethod::Get,
                headers: spec_papi_headers(spec_derive_papi_cookie(raw_cookie)),
                body: None,
            },
        ),
        None => None,
    }
}

/// Builds the direct private-API request for a post.
pub fn papi_request(post_id: &str, raw_cookie: &str) -> (r: Option<HttpRequest>)
    ensures
        match r {
            Some(req) => spec_papi_request(post_id@, raw_cookie@) == Some(req@),
            None => spec_papi_request(post_id@, raw_cookie@) is None,
        },
{
    let mid = match code_to_mediaid(post_id) {
        Some(m) => m,
        None => {
            return None;
        },
    };
    let cookie = derive_papi_cookie(raw_cookie);
    let url = papi_media_url(mid);
    let headers = build_papi_headers(cookie.as_str());
    let req = HttpRequest { url, method: HttpMethod::Get, headers, body: None };
    proof {
        assert(req@ =~= spec_papi_request(post_id@, raw_cookie@)->0);
    }
    Some(req)
}

/// Whether an embed-page outcome is directly usable: the page indicates
/// the video cannot be played inline, or the record is non-thumbnail-only
/// and non-empty.
pub open spec fn spec_embed_usable(d: InstaDataV, video_blocked: bool) -> bool {
    video_blocked || (!spec_thumbnail_only(d) && d.media.len() > 0)
}

/// What the orchestrator does with an embed-page outcome.
pub ghost enum EmbedDecision {
    /// Directly usable data: use it at once.
    UseNow(InstaDataV),
    /// Low-confidence data: retain it and seek a richer source.
    Retain(InstaDataV),
    /// No data from this strategy.
    Skip,
}

/// The classification of an embed-page outcome: a directly usable record
/// is used at once; any other record is retained as a low-confidence
/// fallback; a failed extraction yields nothing.
pub open spec fn spec_embed_decision(outcome: Option<(InstaDataV, bool)>) -> EmbedDecision {
    match outcome {
        None => EmbedDecision::Skip,
        Some((d, video_blocked)) => if spec_embed_usable(d, video_blocked) {
            EmbedDecision::UseNow(d)
        } else {
            EmbedDecision::Retain(d)
        },
    }
}

/// The view of a response event: a status and body, or a transport failure.
pub open spec fn spec_resp_view(resp: Option<(u16, String)>) -> Option<(u16, Seq<char>)> {
    match resp {
        Some(p) => Some((p.0, p.1@)),
        None => None,
    }
}

/// A finished resolver.
pub open spec fn spec_finished(r: ResolverV) -> ResolverV {
    ResolverV { state: ResolverState::Finished, ..r }
}

/// The final action when every strategy is exhausted: the retained
/// fallback when there is one (written to the cache), else not-found.
pub open spec fn spec_fallback_finish(r: ResolverV) -> (ResolverV, HostActionV) {
    (
        spec_finished(r),
        HostActionV::Finish { record: r.fallback, write_cache: r.fallback is Some },
    )
}

/// The transition on the cache lookup result: a hit is returned at once,
/// with no further write and no strategy invoked; a miss proceeds to the
/// embed-page fetch, routed through the relay when one is configured.
pub open spec fn spec_on_cache(r: ResolverV, cached: Option<InstaDataV>) -> (
    ResolverV,
    HostActionV,
) {
    match cached {
        Some(d) => (
            spec_finished(r),
            HostActionV::Finish { record: Some(d), write_cache: false },
        ),
        None => (
            ResolverV { state: ResolverState::AwaitEmbed, ..r },
            HostActionV::Fetch(
                spec_route_request(
                    spec_embed_request(r.post_id, r.config.ig_cookie),
                    r.config.relay,
                ),
            ),
        ),
    }
}

/// The transition on the embed-page response: a directly usable record (a
/// video-blocked page, or a non-thumbnail-only non-empty record) finishes
/// the resolution and is written to the cache; any other record is
/// retained as the fallback; short of completion, the direct query-API
/// fetch is next.
pub open spec fn spec_on_embed(r: ResolverV, resp: Option<(u16, Seq<char>)>) -> (
    ResolverV,
    HostActionV,
) {
    let outcome = match resp {
        Some((status, body)) => spec_embed_outcome(status, body, r.post_id),
        None => None,
    };
    match spec_embed_decision(outcome) {
        EmbedDecision::UseNow(d) => (
            spec_finished(r),
            HostActionV::Finish { record: Some(d), write_cache: true },
        ),
        EmbedDecision::Retain(d) => (
            ResolverV { state: ResolverState::AwaitGraphqlDirect, fallback: Some(d), ..r },
            HostActionV::Fetch(spec_graphql_request(r.post_id, r.config.doc_id)),
        ),
        EmbedDecision::Skip => (
            ResolverV { state: ResolverState::AwaitGraphqlDirect, ..r },
            HostActionV::Fetch(spec_graphql_request(r.post_id, r.config.doc_id)),
        ),
    }
}

/// The transition on the direct query-API response: a 200 response whose
/// body parses to a record finishes the resolution, written to the cache;
/// a failure, a non-200 status or an unproductive body re-issues the same
/// request through the routed fetcher.
pub open spec fn spec_on_graphql_direct(r: ResolverV, resp: Option<(u16, Seq<char>)>) -> (
    ResolverV,
    HostActionV,
) {
    let parsed = match resp {
        Some((status, body)) => if status == 200 {
            spec_parse_graphql_response(body, r.post_id)
        } else {
            None
        },
        None => None,
    };
    match parsed {
        Some(d) => (
            spec_finished(r),
            HostActionV::Finish { record: Some(d), write_cache: true },
        ),
        None => (
            ResolverV { state: ResolverState::AwaitGraphqlProxy, ..r },
            HostActionV::Fetch(
                spec_route_request(
                    spec_graphql_request(r.post_id, r.config.doc_id),
                    r.config.relay,
                ),
            ),
        ),
    }
}

/// The transition on the routed query-API response: a parsed record
/// finishes the resolution; otherwise the private API is next, skipped
/// entirely (falling back) when no session credential is configured or the
/// shortcode does not convert to a media id.
pub open spec fn spec_on_graphql_proxy(r: ResolverV, resp: Option<(u16, Seq<char>)>) -> (
    ResolverV,
    HostActionV,
) {
    let parsed = match resp {
        Some((status, body)) => spec_parse_graphql_response(body, r.post_id),
        None => None,
    };
    match parsed {
        Some(d) => (
            spec_finished(r),
            HostActionV::Finish { record: Some(d), write_cache: true },
        ),
        None => match r.config.ig_cookie {
            None => spec_fallback_finish(r),
            Some(raw) => match spec_papi_request(r.post_id, raw) {
                Some(req) => (
                    ResolverV { state: ResolverState::AwaitPapiDirect, ..r },
                    HostActionV::Fetch(req),
                ),
                None => spec_fallback_finish(r),
            },
        },
    }
}

/// The transition on the direct private-API response: an acceptable 200
/// body is parsed, finishing the resolution or falling back; a failure, a
/// non-200 status or a login/not-found signature re-issues the request
/// through the routed fetcher.
pub open spec fn spec_on_papi_direct(r: ResolverV, resp: Option<(u16, Seq<char>)>) -> (
    ResolverV,
    HostActionV,
) {
    match resp {
        Some((status, body)) => if spec_papi_direct_ok(status, body) {
            match spec_parse_papi_response(body, r.post_id) {
                Some(d) => (
                    spec_finished(r),
                    HostActionV::Finish { record: Some(d), write_cache: true },
                ),
                None => spec_fallback_finish(r),
            }
        } else {
            spec_papi_proxy_next(r)
        },
        None => spec_papi_proxy_next(r),
    }
}

/// The routed private-API fetch, when the request can be built; else the
/// fallback finish.
pub open spec fn spec_papi_proxy_next(r: ResolverV) -> (ResolverV, HostActionV) {
    match r.config.ig_cookie {
        Some(raw) => match spec_papi_request(r.post_id, raw) {
            Some(req) => (
                ResolverV { state: ResolverState::AwaitPapiProxy, ..r },
                HostActionV::Fetch(spec_route_request(req, r.config.relay)),
            ),
            None => spec_fallback_finish(r),
        },
        None => spec_fallback_finish(r),
    }
}

/// The transition on the routed private-API response: only a 200 body is
/// parsed; a parsed record finishes the resolution and is written;
/// anything else falls back.
pub open spec fn spec_on_papi_proxy(r: ResolverV, resp: Option<(u16, Seq<char>)>) -> (
    ResolverV,
    HostActionV,
) {
    match resp {
        Some((status, body)) => if status == 200 {
            match spec_parse_papi_response(body, r.post_id) {
                Some(d) => (
                    spec_finished(r),
                    HostActionV::Finish { record: Some(d), write_cache: true },
                ),
                None => spec_fallback_finish(r),
            }
        } else {
            spec_fallback_finish(r)
        },
        None => spec_fallback_finish(r),
    }
}

impl Resolver {
    /// Starts a resolution at the cache lookup.
    pub fn new(post_id: &str, config: ResolverConfig) -> (r: Resolver)
        ensures
            r@.post_id == post_id@,
            r@.config == config@,
            r@.state == ResolverState::AwaitCache,
            r@.fallback is None,
    {
        Resolver {
            post_id: post_id.to_owned(),
            config,
            state: ResolverState::AwaitCache,
            fallback: None,
        }
    }

    fn fallback_finish(&mut self) -> (a: HostAction)
        ensures
            (final(self)@, a@) == spec_fallback_finish(old(self)@),
    {
        self.state = ResolverState::Finished;
        let record = match &self.fallback {
            Some(d) => Some(d.clone()),
            None => None,
        };
        let write_cache = record.is_some();
        let a = HostAction::Finish { record, write_cache };
        proof {
            assert(final(self)@ =~~= spec_fallback_finish(old(self)@).0);
            assert(a@ =~~= spec_fallback_finish(old(self)@).1);
        }
        a
    }

    /// Feeds the cache lookup result. On a hit the resolution finishes at
    /// once with the cached record and no acquisition strategy is ever
    /// fetched; on a miss the embed-page fetch is requested.
    pub fn on_cache(&mut self, cached: Option<InstaData>) -> (a: HostAction)
        requires
            old(self).state == ResolverState::AwaitCache,
        ensures
            (final(self)@, a@) == spec_on_cache(
                old(self)@,
                match cached {
                    Some(d) => Some(d@),
                    None => None,
                },
            ),
            final(self).state == ResolverState::Finished <==> cached is Some,
    {
        match cached {
            Some(d) => {
                let ghost dv = d@;
                self.state = ResolverState::Finished;
                let a = HostAction::Finish { record: Some(d), write_cache: false };
                proof {
                    let spec = spec_on_cache(old(self)@, Some(dv));
                    assert(final(self)@ =~~= spec.0);
                    assert(a@ =~~= spec.1);
                }
                a
            },
            None => {
                self.state = ResolverState::AwaitEmbed;
                let req = embed_request(self.post_id.as_str(), &self.config.ig_cookie);
                let routed = route_request(
                    req.url.as_str(),
                    req.method,
                    req.headers,
                    req.body,
                    &self.config.relay,
                );
                let a = HostAction::Fetch(routed);
                proof {
                    let spec = spec_on_cache(old(self)@, None::<InstaDataV>);
                    assert(final(self)@ =~~= spec.0);
                    assert(a@ =~~= spec.1);
                }
                a
            },
        }
    }

    /// Feeds the embed-page response.
    pub fn on_embed_response(&mut self, resp: Option<(u16, String)>) -> (a: HostAction)
        requires
            old(self).state == ResolverState::AwaitEmbed,
        ensures
            (final(self)@, a@) == spec_on_embed(old(self)@, spec_resp_view(resp)),
    {
        let outcome = match &resp {
            Some(p) => embed_outcome_from_response(p.0, p.1.as_str(), self.post_id.as_str()),
            None => None,
        };
        match outcome {
            Some((d, video_blocked)) => {
                let usable = video_blocked || (!d.is_thumbnail_only() && d.media.len() > 0);
                if usable {
                    self.state = ResolverState::Finished;
                    let a = HostAction::Finish { record: Some(d), write_cache: true };
                    proof {
                        let spec = spec_on_embed(old(self)@, spec_resp_view(resp));
                        assert(final(self)@ =~~= spec.0);
                        assert(a@ =~~= spec.1);
                    }
                    return a;
                }
                self.fallback = Some(d);
                self.state = ResolverState::AwaitGraphqlDirect;
                let a = HostAction::Fetch(
                    graphql_request(self.post_id.as_str(), self.config.doc_id.as_str()),
                );
                proof {
                    let spec = spec_on_embed(old(self)@, spec_resp_view(resp));
                    assert(final(self)@ =~~= spec.0);
                    assert(a@ =~~= spec.1);
                }
                a
            },
            None => {
                self.state = ResolverState::AwaitGraphqlDirect;
                let a = HostAction::Fetch(
                    graphql_request(self.post_id.as_str(), self.config.doc_id.as_str()),
                );
                proof {
                    let spec = spec_on_embed(old(self)@, spec_resp_view(resp));
                    assert(final(self)@ =~~= spec.0);
                    assert(a@ =~~= spec.1);
                }
                a
            },
        }
    }

    /// Feeds the direct query-API response.
    pub fn on_graphql_direct_response(&mut self, resp: Option<(u16, String)>) -> (a: HostAction)
        requires
            old(self).state == ResolverState::AwaitGraphqlDirect,
        ensures
            (final(self)@, a@) == spec_on_graphql_direct(old(self)@, spec_resp_view(resp)),
    {
        let parsed = match &resp {
            Some(p) => {
                if p.0 == 200 {
                    parse_graphql_response(p.1.as_str(), self.post_id.as_str())
                } else {
                    None
                }
            },
            None => None,
        };
        match parsed {
            Some(d) => {
                self.state = ResolverState::Finished;
                let a = HostAction::Finish { record: Some(d), write_cache: true };
                proof {
                    let spec = spec_on_graphql_direct(old(self)@, spec_resp_view(resp));
                    assert(final(self)@ =~~= spec.0);
                    assert(a@ =~~= spec.1);
                }
                a
            },
            None => {
                self.state = ResolverState::AwaitGraphqlProxy;
                let req = graphql_request(self.post_id.as_str(), self.config.doc_id.as_str());
                let routed = route_request(
                    req.url.as_str(),
                    req.method,
                    req.headers,
                    req.body,
                    &self.config.relay,
                );
                let a = HostAction::Fetch(routed);
                proof {
                    let spec = spec_on_graphql_direct(old(self)@, spec_resp_view(resp));
                    assert(final(self)@ =~~= spec.0);
                    assert(a@ =~~= spec.1);
                }
                a
            },
        }
    }

    /// Feeds the routed query-API response.
    pub fn on_graphql_proxy_response(&mut self, resp: Option<(u16, String)>) -> (a: HostAction)
        requires
            old(self).state == ResolverState::AwaitGraphqlProxy,
        ensures
            (final(self)@, a@) == spec_on_graphql_proxy(old(self)@, spec_resp_view(resp)),
    {
        let parsed = match &resp {
            Some(p) => parse_graphql_response(p.1.as_str(), self.post_id.as_str()),
            None => None,
        };
        match parsed {
            Some(d) => {
                self.state = ResolverState::Finished;
                let a = HostAction::Finish { record: Some(d), write_cache: true };
                proof {
                    let spec = spec_on_graphql_proxy(old(self)@, spec_resp_view(resp));
                    assert(final(self)@ =~~= spec.0);
                    assert(a@ =~~= spec.1);
                }
                a
            },
            None => {
                let raw = match &self.config.ig_cookie {
                    Some(c) => c.clone(),
                    None => {
                        return self.fallback_finish();
                    },
                };
                match papi_request(self.post_id.as_str(), raw.as_str()) {
                    Some(req) => {
                        self.state = ResolverState::AwaitPapiDirect;
                        let a = HostAction::Fetch(req);
                        proof {
                            let spec = spec_on_graphql_proxy(old(self)@, spec_resp_view(resp));
                            assert(final(self)@ =~~= spec.0);
                            assert(a@ =~~= spec.1);
                        }
                        a
                    },
                    None => self.fallback_finish(),
                }
            },
        }
    }

    /// Feeds the direct private-API response.
    pub fn on_papi_direct_response(&mut self, resp: Option<(u16, String)>) -> (a: HostAction)
        requires
            old(self).state == ResolverState::AwaitPapiDirect,
        ensures
            (final(self)@, a@) == spec_on_papi_direct(old(self)@, spec_resp_view(resp)),
    {
        match &resp {
            Some(p) => {
                if papi_direct_ok(p.0, p.1.as_str()) {
                    match parse_papi_response(p.1.as_str(), self.post_id.as_str()) {
                        Some(d) => {
                            self.state = ResolverState::Finished;
                            let a = HostAction::Finish { record: Some(d), write_cache: true };
                            proof {
                                let spec = spec_on_papi_direct(old(self)@, spec_resp_view(resp));
                                assert(final(self)@ =~~= spec.0);
                                assert(a@ =~~= spec.1);
                            }
                            a
                        },
                        None => self.fallback_finish(),
                    }
                } else {
                    self.papi_proxy_next()
                }
            },
            None => self.papi_proxy_next(),
        }
    }

    fn papi_proxy_next(&mut self) -> (a: HostAction)
        ensures
            (final(self)@, a@) == spec_papi_proxy_next(old(self)@),
    {
        let raw = match &self.config.ig_cookie {
            Some(c) => c.clone(),
            None => {
                return self.fallback_finish();
            },
        };
        match papi_request(self.post_id.as_str(), raw.as_str()) {
            Some(req) => {
                self.state = ResolverState::AwaitPapiProxy;
                let routed = route_request(
                    req.url.as_str(),
                    req.method,
                    req.headers,
                    req.body,
                    &self.config.relay,
                );
                let a = HostAction::Fetch(routed);
                proof {
                    assert(final(self)@ =~~= spec_papi_proxy_next(old(self)@).0);
                    assert(a@ =~~= spec_papi_proxy_next(old(self)@).1);
                }
                a
            },
            None => self.fallback_finish(),
        }
    }

    /// Feeds the routed private-API response.
    pub fn on_papi_proxy_response(&mut self, resp: Option<(u16, String)>) -> (a: HostAction)
        requires
            old(self).state == ResolverState::AwaitPapiProxy,
        ensures
            (final(self)@, a@) == spec_on_papi_proxy(old(self)@, spec_resp_view(resp)),
    {
        match &resp {
            Some(p) => {
                if p.0 == 200 {
                    match parse_papi_response(p.1.as_str(), self.post_id.as_str()) {
                        Some(d) => {
                            self.state = ResolverState::Finished;
                            let a = HostAction::Finish { record: Some(d), write_cache: true };
                            proof {
                                let spec = spec_on_papi_proxy(old(self)@, spec_resp_view(resp));
                                assert(final(self)@ =~~= spec.0);
                                assert(a@ =~~= spec.1);
                            }
                            a
                        },
                        None => self.fallback_finish(),
                    }
                } else {
                    self.fallback_finish()
                }
            },
            None => self.fallback_finish(),
        }
    }

    /// Feeds the response for the strategy the resolver awaits.
    pub fn on_response(&mut self, resp: Option<(u16, String)>) -> (a: HostAction)
        requires
            spec_awaiting(old(self).state),
        ensures
            (final(self)@, a@) == spec_on_response(old(self)@, spec_resp_view(resp)),
            spec_state_rank(final(self).state) < spec_state_rank(old(self).state),
    {
        let st = self.state;
        match st {
            ResolverState::AwaitEmbed => self.on_embed_response(resp),
            ResolverState::AwaitGraphqlDirect => self.on_graphql_direct_response(resp),
            ResolverState::AwaitGraphqlProxy => self.on_graphql_proxy_response(resp),
            ResolverState::AwaitPapiDirect => self.on_papi_direct_response(resp),
            ResolverState::AwaitPapiProxy => self.on_papi_proxy_response(resp),
            _ => {
                proof {
                    assert(false);
                }
                HostAction::Finish { record: None, write_cache: false }
            },
        }
    }
}

/// A recorded sequence of fetch outcomes, consumed in request order: what
/// the host's fetches returned, or would return.
pub struct ScriptedUpstream {
    pub responses: Vec<Option<(u16, String)>>,
    pub next: usize,
}

impl ScriptedUpstream {
    /// A script holding the given outcomes, none consumed yet.
    pub fn new(responses: Vec<Option<(u16, String)>>) -> (r: Self)
        ensures
            r.responses == responses,
            r.next == 0,
    {
        ScriptedUpstream { responses, next: 0 }
    }

    /// The next recorded outcome; exhausted, every further fetch is a
    /// transport failure.
    pub fn take_next(&mut self) -> (r: Option<(u16, String)>)
        ensures
            final(self).responses == old(self).responses,
            old(self).next < old(self).responses@.len() ==> final(self).next == old(self).next
                + 1 && spec_resp_view(r) == spec_resp_view(
                old(self).responses@[old(self).next as int],
            ),
            old(self).next >= old(self).responses@.len() ==> *final(self) == *old(self)
                && r is None,
    {
        if self.next >= self.responses.len() {
            return None;
        }
        let r: Option<(u16, String)> = match &self.responses[self.next] {
            Some(p) => Some((p.0, p.1.clone())),
            None => None,
        };
        self.next = self.next + 1;
        r
    }
}

/// The outcome views of a recorded response list from position `next` on;
/// empty once `next` is out of range.
pub open spec fn spec_remaining_views(rs: Seq<Option<(u16, String)>>, next: int) -> Seq<
    Option<(u16, Seq<char>)>,
> {
    if 0 <= next <= rs.len() {
        Seq::new((rs.len() - next) as nat, |i: int| spec_resp_view(rs[next + i]))
    } else {
        Seq::empty()
    }
}

/// The event the next fetch sees: the head of the remaining outcomes, a
/// transport failure once they are exhausted.
pub open spec fn spec_head_resp(resps: Seq<Option<(u16, Seq<char>)>>) -> Option<(u16, Seq<char>)> {
    if resps.len() > 0 {
        resps[0]
    } else {
        None
    }
}

/// The remaining outcomes after the next fetch.
pub open spec fn spec_rest_resps(resps: Seq<Option<(u16, Seq<char>)>>) -> Seq<
    Option<(u16, Seq<char>)>,
> {
    if resps.len() > 0 {
        resps.drop_first()
    } else {
        resps
    }
}

/// Whether a state awaits a strategy response.
pub open spec fn spec_awaiting(s: ResolverState) -> bool {
    1 <= spec_state_rank(s) <= 5
}

/// The transition for the strategy a state awaits.
pub open spec fn spec_on_response(r: ResolverV, e: Option<(u16, Seq<char>)>) -> (
    ResolverV,
    HostActionV,
) {
    match r.state {
        ResolverState::AwaitEmbed => spec_on_embed(r, e),
        ResolverState::AwaitGraphqlDirect => spec_on_graphql_direct(r, e),
        ResolverState::AwaitGraphqlProxy => spec_on_graphql_proxy(r, e),
        ResolverState::AwaitPapiDirect => spec_on_papi_direct(r, e),
        ResolverState::AwaitPapiProxy => spec_on_papi_proxy(r, e),
        _ => (r, HostActionV::Finish { record: None, write_cache: false }),
    }
}

/// The orchestrator's whole run from a state awaiting a response, folded
/// over the recorded outcomes: the record of the finish action it ends
/// with, and whether that action writes the cache.
pub open spec fn spec_drive(r: ResolverV, resps: Seq<Option<(u16, Seq<char>)>>) -> (
    Option<InstaDataV>,
    bool,
)
    decreases spec_state_rank(r.state),
{
    if spec_awaiting(r.state) {
        let (r2, a) = spec_on_response(r, spec_head_resp(resps));
        match a {
            HostActionV::Finish { record, write_cache } => (record, write_cache),
            HostActionV::Fetch(_) => spec_drive(r2, spec_rest_resps(resps)),
        }
    } else {
        (None, false)
    }
}

/// The record and cache-write decision a whole resolution reaches: the
/// cache lookup decides the first step, and the cascade is folded over the
/// recorded outcomes from `next` on.
pub open spec fn spec_resolution_target(
    cache0: Map<Seq<char>, (InstaDataV, u64)>,
    now: u64,
    post_id: Seq<char>,
    config: ResolverConfigV,
    responses: Seq<Option<(u16, String)>>,
    next: int,
) -> (Option<InstaDataV>, bool) {
    let key = spec_cache_key(post_id);
    let hit = cache0.contains_key(key) && cache0[key].1 > now;
    let lookup: Option<InstaDataV> = if hit {
        Some(cache0[key].0)
    } else {
        None
    };
    let start = ResolverV {
        post_id: post_id,
        config: config,
        state: ResolverState::AwaitCache,
        fallback: None,
    };
    let first = spec_on_cache(start, lookup);
    match first.1 {
        HostActionV::Finish { record, write_cache } => (record, write_cache),
        HostActionV::Fetch(_) => spec_drive(first.0, spec_remaining_views(responses, next)),
    }
}

/// Resolves a post id to its normalized record against the cache and a
/// recorded sequence of upstream outcomes, driving the orchestrator until
/// it finishes and applying its cache write: the result is exactly the
/// record of the folded cascade, and the cache gains exactly the write the
/// cascade's finish action asks for. For any post id cached unexpired at
/// `now`, the cached record is returned, no upstream request is consumed,
/// and the cache is unchanged.
pub fn resolve_post_data(
    cache: &mut RecordCache,
    now: u64,
    post_id: &str,
    config: ResolverConfig,
    upstream: &mut ScriptedUpstream,
) -> (r: Option<InstaData>)
    requires
        now <= u64::MAX - 86400,
    ensures
        ({
            let target = spec_resolution_target(
                old(cache)@,
                now,
                post_id@,
                config@,
                old(upstream).responses@,
                old(upstream).next as int,
            );
            &&& (match r {
                Some(d) => target.0 == Some(d@),
                None => target.0 is None,
            })
            &&& final(cache)@ == (if target.1 && target.0 is Some {
                old(cache)@.insert(
                    spec_cache_key(post_id@),
                    (target.0->0, (now + 86400) as u64),
                )
            } else {
                old(cache)@
            })
        }),
        (old(cache)@.contains_key(spec_cache_key(post_id@)) && old(cache)@[spec_cache_key(
            post_id@,
        )].1 > now) ==> ((match r {
            Some(d) => d@ == old(cache)@[spec_cache_key(post_id@)].0,
            None => false,
        }) && *final(upstream) == *old(upstream) && final(cache)@ == old(cache)@),
        final(upstream).responses == old(upstream).responses,
{
    let ghost key = spec_cache_key(post_id@);
    let ghost cfg = config@;
    let ghost start = ResolverV {
        post_id: post_id@,
        config: cfg,
        state: ResolverState::AwaitCache,
        fallback: None,
    };
    let mut resolver = Resolver::new(post_id, config);
    proof {
        assert(resolver@ =~~= start);
    }
    let cached = cache.get_cached(post_id, now);
    let ghost hit = old(cache)@.contains_key(key) && old(cache)@[key].1 > now;
    let ghost lookup: Option<InstaDataV> = if hit {
        Some(old(cache)@[key].0)
    } else {
        None
    };
    proof {
        assert((match cached {
            Some(d) => Some(d@),
            None => None::<InstaDataV>,
        }) == lookup);
    }
    let mut action = resolver.on_cache(cached);
    let ghost first = spec_on_cache(start, lookup);
    let ghost target = spec_resolution_target(
        old(cache)@,
        now,
        post_id@,
        cfg,
        old(upstream).responses@,
        old(upstream).next as int,
    );
    proof {
        assert((resolver@, action@) == first);
        match first.1 {
            HostActionV::Finish { record, write_cache } => {
                assert(target == (record, write_cache));
            },
            HostActionV::Fetch(_) => {
                assert(target == spec_drive(
                    first.0,
                    spec_remaining_views(
                        old(upstream).responses@,
                        old(upstream).next as int,
                    ),
                ));
            },
        }
    }
    loop
        invariant
            now <= u64::MAX - 86400,
            key == spec_cache_key(post_id@),
            cache@ == old(cache)@,
            upstream.responses == old(upstream).responses,
            hit == (old(cache)@.contains_key(key) && old(cache)@[key].1 > now),
            hit ==> *upstream == *old(upstream),
            hit ==> !(action@ is Fetch),
            target == spec_resolution_target(
                old(cache)@,
                now,
                post_id@,
                cfg,
                old(upstream).responses@,
                old(upstream).next as int,
            ),
            cfg == config@,
            hit ==> target == (Some(old(cache)@[key].0), false),
            match action@ {
                HostActionV::Finish { record, write_cache } => target == (record, write_cache),
                HostActionV::Fetch(_) => target == spec_drive(
                    resolver@,
                    spec_remaining_views(upstream.responses@, upstream.next as int),
                ),
            },
            action@ is Fetch ==> spec_awaiting(resolver.state),
        decreases spec_state_rank(resolver.state),
    {
        match action {
            HostAction::Finish { record, write_cache } => {
                if write_cache {
                    match &record {
                        Some(d) => {
                            cache.set_cached(post_id, d, now);
                        },
                        None => {},
                    }
                }
                return record;
            },
            HostAction::Fetch(_) => {
                let ghost pre_r = resolver@;
                let ghost pre_rem = spec_remaining_views(
                    upstream.responses@,
                    upstream.next as int,
                );
                let resp = upstream.take_next();
                proof {
                    let rs = upstream.responses@;
                    assert(spec_resp_view(resp) == spec_head_resp(pre_rem) && spec_remaining_views(
                        upstream.responses@,
                        upstream.next as int,
                    ) == spec_rest_resps(pre_rem)) by {
                        if pre_rem.len() > 0 {
                            assert(spec_remaining_views(rs, upstream.next as int)
                                =~= pre_rem.drop_first());
                        } else {
                            assert(spec_remaining_views(rs, upstream.next as int) =~= pre_rem);
                        }
                    }
                }
                action = resolver.on_response(resp);
                proof {
                    assert(target == spec_drive(pre_r, pre_rem));
                    assert(match action@ {
                        HostActionV::Finish { record, write_cache } => target == (
                            record,
                            write_cache,
                        ),
                        HostActionV::Fetch(_) => target == spec_drive(
                            resolver@,
                            spec_remaining_views(upstream.responses@, upstream.next as int),
                        ),
                    });
                }
            },
        }
    }
}

} // verus!
