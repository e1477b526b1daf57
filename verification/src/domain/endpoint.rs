//! Where to talk, and with what credentials.

use core::time::Duration;
use vstd::prelude::*;
use vstd::string::StringExecFns;
use crate::text::{trim_end_char, trim_end_matches};

verus! {

/// Paths of the four endpoints this crate speaks, relative to the base URL.
#[derive(Debug, Clone, PartialEq, Eq)]
pub struct ApiRoutes {
    /// The Responses API, this crate's primary path.
    pub responses: String,
    /// Chat Completions, the fallback for models not served by Responses.
    pub chat_completions: String,
    /// Model discovery.
    pub models: String,
    /// Embeddings.
    pub embeddings: String,
}

/// The `/v1`-prefixed route layout.
pub open spec fn is_versioned(r: ApiRoutes) -> bool {
    &&& r.responses@ == "/v1/responses"@
    &&& r.chat_completions@ == "/v1/chat/completions"@
    &&& r.models@ == "/v1/models"@
    &&& r.embeddings@ == "/v1/embeddings"@
}

/// The unprefixed route layout.
pub open spec fn is_unversioned(r: ApiRoutes) -> bool {
    &&& r.responses@ == "/responses"@
    &&& r.chat_completions@ == "/chat/completions"@
    &&& r.models@ == "/models"@
    &&& r.embeddings@ == "/embeddings"@
}

/// Law: the two route layouts differ only in the `/v1` version prefix.
pub proof fn law_layouts_differ_by_prefix(v: ApiRoutes, u: ApiRoutes)
    requires
        is_versioned(v),
        is_unversioned(u),
    ensures
        v.responses@ == "/v1"@ + u.responses@,
        v.chat_completions@ == "/v1"@ + u.chat_completions@,
        v.models@ == "/v1"@ + u.models@,
        v.embeddings@ == "/v1"@ + u.embeddings@,
{
    reveal_strlit("/v1");
    reveal_strlit("/v1/responses");
    reveal_strlit("/responses");
    reveal_strlit("/v1/chat/completions");
    reveal_strlit("/chat/completions");
    reveal_strlit("/v1/models");
    reveal_strlit("/models");
    reveal_strlit("/v1/embeddings");
    reveal_strlit("/embeddings");
    assert(v.responses@ =~= "/v1"@ + u.responses@);
    assert(v.chat_completions@ =~= "/v1"@ + u.chat_completions@);
    assert(v.models@ =~= "/v1"@ + u.models@);
    assert(v.embeddings@ =~= "/v1"@ + u.embeddings@);
}

/// Law: a normalised base URL never ends in a slash.
pub proof fn law_base_url_has_no_trailing_slash(base_url: Seq<char>)
    ensures
        ({
            let b = trim_end_matches(base_url, '/');
            b.len() == 0 || b.last() != '/'
        }),
    decreases base_url.len(),
{
    if base_url.len() > 0 && base_url.last() == '/' {
        law_base_url_has_no_trailing_slash(base_url.drop_last());
    }
}

impl ApiRoutes {
    /// The `/v1`-prefixed layout used by hosted OpenAI and compatible servers.
    pub fn versioned() -> (r: ApiRoutes)
        ensures
            is_versioned(r),
    {
        ApiRoutes {
            responses: String::from_str("/v1/responses"),
            chat_completions: String::from_str("/v1/chat/completions"),
            models: String::from_str("/v1/models"),
            embeddings: String::from_str("/v1/embeddings"),
        }
    }

    /// The unprefixed layout, where the endpoints sit at the root.
    pub fn unversioned() -> (r: ApiRoutes)
        ensures
            is_unversioned(r),
    {
        ApiRoutes {
            responses: String::from_str("/responses"),
            chat_completions: String::from_str("/chat/completions"),
            models: String::from_str("/models"),
            embeddings: String::from_str("/embeddings"),
        }
    }
}

impl Default for ApiRoutes {
    /// The versioned layout.
    fn default() -> (r: ApiRoutes)
        ensures
            is_versioned(r),
    {
        ApiRoutes::versioned()
    }
}

/// Default per-request timeout in seconds: a large prompt against a local
/// model on CPU can legitimately take minutes.
pub const DEFAULT_TIMEOUT_SECS: u64 = 300;

/// The duration that `Duration::from_secs` builds from `secs`.
pub uninterp spec fn duration_of_secs(secs: u64) -> Duration;

/// `Duration::from_secs`: claimed to return `duration_of_secs(secs)`, a value
/// determined by `secs` alone.
pub assume_specification[ core::time::Duration::from_secs ](secs: u64) -> (d: Duration)
    ensures
        d == duration_of_secs(secs),
;

/// `Duration`'s `Clone`: `Duration` is `Copy`, so a clone is the same value.
pub assume_specification[ <Duration as Clone>::clone ](d: &Duration) -> (r: Duration)
    ensures
        r == *d,
;

/// Where to talk, and with what credentials. A pure value.
#[derive(Debug, Clone)]
pub struct Endpoint {
    base_url: String,
    api_key: Option<String>,
    timeout: Duration,
    headers: Vec<(String, String)>,
    routes: ApiRoutes,
}

/// The content of an [`Endpoint`].
pub struct EndpointView {
    pub base_url: Seq<char>,
    pub api_key: Option<Seq<char>>,
    pub timeout: Duration,
    pub headers: Seq<(Seq<char>, Seq<char>)>,
    pub routes: ApiRoutes,
}

/// The views of a sequence of header pairs.
pub open spec fn header_pairs(h: Seq<(String, String)>) -> Seq<(Seq<char>, Seq<char>)> {
    h.map_values(|p: (String, String)| (p.0@, p.1@))
}

/// An absent key stands for an empty one, so only non-empty keys are kept.
pub open spec fn key_of(api_key: Seq<char>) -> Option<Seq<char>> {
    if api_key.len() == 0 {
        None
    } else {
        Some(api_key)
    }
}

impl View for Endpoint {
    type V = EndpointView;

    closed spec fn view(&self) -> EndpointView {
        EndpointView {
            base_url: self.base_url@,
            api_key: match self.api_key {
                Some(k) => Some(k@),
                None => None,
            },
            timeout: self.timeout,
            headers: header_pairs(self.headers@),
            routes: self.routes,
        }
    }
}

impl Endpoint {
    /// A new endpoint at `base_url`, trailing slashes removed, using the `/v1`
    /// route layout, the default timeout and no credentials.
    pub fn new(base_url: &str) -> (e: Endpoint)
        ensures
            e@.base_url == trim_end_matches(base_url@, '/'),
            e@.api_key is None,
            e@.timeout == duration_of_secs(DEFAULT_TIMEOUT_SECS),
            e@.headers.len() == 0,
            is_versioned(e@.routes),
    {
        let e = Endpoint {
            base_url: trim_end_char(base_url, '/'),
            api_key: None,
            timeout: Duration::from_secs(DEFAULT_TIMEOUT_SECS),
            headers: Vec::new(),
            routes: ApiRoutes::default(),
        };
        assert(header_pairs(e.headers@) == Seq::<(Seq<char>, Seq<char>)>::empty());
        e
    }

    /// Bearer credential sent on every request. An empty key counts as absent.
    pub fn with_api_key(self, api_key: &str) -> (e: Endpoint)
        ensures
            e@ == (EndpointView { api_key: key_of(api_key@), ..self@ }),
    {
        let api_key = if api_key.is_empty() {
            None
        } else {
            Some(String::from_str(api_key))
        };
        Endpoint { api_key, ..self }
    }

    /// Bearer credential from an optional value: `None` leaves the endpoint as
    /// it is.
    pub fn with_optional_api_key(self, api_key: Option<&str>) -> (e: Endpoint)
        ensures
            e@ == match api_key {
                Some(k) => EndpointView { api_key: key_of(k@), ..self@ },
                None => self@,
            },
    {
        match api_key {
            Some(key) => self.with_api_key(key),
            None => self,
        }
    }

    /// Per-request timeout.
    pub fn with_timeout(self, timeout: Duration) -> (e: Endpoint)
        ensures
            e@ == (EndpointView { timeout, ..self@ }),
    {
        Endpoint { timeout, ..self }
    }

    /// An extra header sent on every request, after those added before it.
    pub fn with_header(self, name: &str, value: &str) -> (e: Endpoint)
        ensures
            e@ == (EndpointView { headers: self@.headers.push((name@, value@)), ..self@ }),
    {
        let mut e = self;
        let ghost before = e.headers@;
        e.headers.push((String::from_str(name), String::from_str(value)));
        assert(header_pairs(e.headers@) == header_pairs(before).push((name@, value@)));
        e
    }

    /// Override the route layout.
    pub fn with_routes(self, routes: ApiRoutes) -> (e: Endpoint)
        ensures
            e@ == (EndpointView { routes, ..self@ }),
    {
        Endpoint { routes, ..self }
    }

    /// The base URL, without trailing slashes.
    pub fn base_url(&self) -> (s: &str)
        ensures
            s@ == self@.base_url,
    {
        self.base_url.as_str()
    }

    /// The bearer credential, if any.
    pub fn api_key(&self) -> (k: Option<&str>)
        ensures
            match k {
                Some(k) => self@.api_key == Some(k@),
                None => self@.api_key is None,
            },
    {
        match &self.api_key {
            Some(k) => Some(k.as_str()),
            None => None,
        }
    }

    /// The per-request timeout.
    pub fn timeout(&self) -> (t: Duration)
        ensures
            t == self@.timeout,
    {
        self.timeout
    }

    /// The extra headers, in the order they were added.
    pub fn headers(&self) -> (h: &[(String, String)])
        ensures
            header_pairs(h@) == self@.headers,
    {
        self.headers.as_slice()
    }

    /// The route layout.
    pub fn routes(&self) -> (r: &ApiRoutes)
        ensures
            *r == self@.routes,
    {
        &self.routes
    }
}

} // verus!
