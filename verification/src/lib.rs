//! Resolves a social-media post identifier into a normalized structured
//! record by cascading over several upstream acquisition strategies, with a
//! TTL-bounded record cache, pure text/JSON extractors, a redirect-chain
//! resolver for share links, and a request-routing layer that can re-issue a
//! fetch through a relay when direct access is blocked.

pub mod bot;
pub mod cache;
pub mod codec;
pub mod embed_html;
pub mod escape;
pub mod extract;
pub mod fetcher;
pub mod graphql;
pub mod home_html;
pub mod json;
pub mod papi;
pub mod redirect;
pub mod resolve;
pub mod text;
pub mod types;
