//! The suggestion-API client model: response items, error taxonomy, client
//! configuration, and the deterministic offline response generator.
//!
//! The network transport lives outside this crate; everything here is the
//! data and the logic around it.

use vstd::prelude::*;

use crate::strutil::{spec_decimal, usize_to_string};

verus! {

/// An item returned from the suggestion API: the fields the logic reads.
#[derive(Debug)]
pub struct GeniusItem {
    /// Unique identifier for the item.
    pub id: String,
    /// Description text for the item.
    pub description: String,
}

/// A response from the suggestion API.
#[derive(Debug)]
pub struct GeniusResponse {
    /// The items returned.
    pub items: Vec<GeniusItem>,
    /// Status of the response.
    pub status: String,
}

/// What can go wrong talking to the API.
#[derive(Debug)]
pub enum GeniusApiError {
    /// Error during the network request.
    NetworkError(String),
    /// Error parsing the response.
    ParseError(String),
    /// The API reported an error.
    ApiError(String),
    /// Anything else.
    Other(String),
}

impl GeniusApiError {
    /// The user-readable description of the error.
    pub fn message(&self) -> (r: String)
        ensures
            r@ == (match *self {
                GeniusApiError::NetworkError(ref m) => "Network error: "@ + m@,
                GeniusApiError::ParseError(ref m) => "Parse error: "@ + m@,
                GeniusApiError::ApiError(ref m) => "API error: "@ + m@,
                GeniusApiError::Other(ref m) => "Other error: "@ + m@,
            }),
    {
        match self {
            GeniusApiError::NetworkError(m) => {
                let mut r = "Network error: ".to_owned();
                r.append(m.as_str());
                r
            },
            GeniusApiError::ParseError(m) => {
                let mut r = "Parse error: ".to_owned();
                r.append(m.as_str());
                r
            },
            GeniusApiError::ApiError(m) => {
                let mut r = "API error: ".to_owned();
                r.append(m.as_str());
                r
            },
            GeniusApiError::Other(m) => {
                let mut r = "Other error: ".to_owned();
                r.append(m.as_str());
                r
            },
        }
    }
}

/// Relies on `uuid::Uuid::new_v4` and its `Display` rendering via
/// `to_string` for a fresh random session identifier. The value is random;
/// nothing is assumed of it.
#[verifier::external_body]
fn new_session_id() -> String {
    uuid::Uuid::new_v4().to_string()
}

/// Configuration of the suggestion-API client. The network handle itself
/// lives with the caller that performs requests; this is the data the logic
/// reads and builds.
pub struct GeniusApiClient {
    /// Base URL of the API endpoint.
    pub base_url: String,
    /// Bearer key, when configured.
    pub api_key: Option<String>,
    /// Request timeout in milliseconds.
    pub timeout_ms: u64,
    /// Organization the client queries for.
    pub organization_id: String,
    /// Random identifier of this session.
    pub session_id: String,
}

impl GeniusApiClient {
    /// The configured base URL.
    pub open spec fn spec_base_url(&self) -> Seq<char> {
        self.base_url@
    }

    /// The configured key, if any.
    pub open spec fn spec_api_key(&self) -> Option<String> {
        self.api_key
    }

    /// The configured organization.
    pub open spec fn spec_organization_id(&self) -> Seq<char> {
        self.organization_id@
    }

    /// The request timeout in milliseconds.
    pub open spec fn spec_timeout_ms(&self) -> u64 {
        self.timeout_ms
    }

    /// The session identifier.
    pub open spec fn spec_session_id(&self) -> Seq<char> {
        self.session_id@
    }

    /// A client with default settings: the public endpoint, no key, a ten
    /// second timeout, and a fresh session id.
    pub fn new() -> (r: GeniusApiClient)
        ensures
            r.spec_base_url() == "https://app.productgenius.io"@,
            r.spec_api_key() is None,
            r.spec_timeout_ms() == 10000,
            r.spec_organization_id() == Seq::<char>::empty(),
    {
        GeniusApiClient {
            base_url: "https://app.productgenius.io".to_owned(),
            api_key: None,
            timeout_ms: 10000,
            organization_id: String::new(),
            session_id: new_session_id(),
        }
    }

    /// A client with custom configuration and a fresh session id.
    pub fn with_config(
        base_url: String,
        api_key: Option<String>,
        timeout_ms: u64,
        organization_id: String,
    ) -> (r: GeniusApiClient)
        ensures
            r.spec_base_url() == base_url@,
            r.spec_api_key() == api_key,
            r.spec_timeout_ms() == timeout_ms,
            r.spec_organization_id() == organization_id@,
    {
        GeniusApiClient { base_url, api_key, timeout_ms, organization_id, session_id: new_session_id() }
    }

    /// The client with the API key set.
    pub fn with_api_key(self, api_key: String) -> (r: GeniusApiClient)
        ensures
            r.spec_api_key() == Some(api_key),
            r.spec_base_url() == self.spec_base_url(),
            r.spec_timeout_ms() == self.spec_timeout_ms(),
            r.spec_organization_id() == self.spec_organization_id(),
            r.spec_session_id() == self.spec_session_id(),
    {
        GeniusApiClient { api_key: Some(api_key), ..self }
    }

    /// The client with the organization id set.
    pub fn with_organization_id(self, organization_id: String) -> (r: GeniusApiClient)
        ensures
            r.spec_organization_id() == organization_id@,
            r.spec_base_url() == self.spec_base_url(),
            r.spec_api_key() == self.spec_api_key(),
            r.spec_timeout_ms() == self.spec_timeout_ms(),
            r.spec_session_id() == self.spec_session_id(),
    {
        GeniusApiClient { organization_id, ..self }
    }

    /// The base URL.
    pub fn base_url(&self) -> (r: &str)
        ensures
            r@ == self.spec_base_url(),
    {
        self.base_url.as_str()
    }

    /// The request timeout in milliseconds.
    pub fn timeout(&self) -> (r: u64)
        ensures
            r == self.spec_timeout_ms(),
    {
        self.timeout_ms
    }

    /// The API key, if configured.
    pub fn api_key(&self) -> (r: Option<String>)
        ensures
            r == self.spec_api_key(),
    {
        match &self.api_key {
            Some(k) => Some(k.clone()),
            None => None,
        }
    }

    /// The organization id.
    pub fn organization_id(&self) -> (r: String)
        ensures
            r@ == self.spec_organization_id(),
    {
        self.organization_id.clone()
    }

    /// The feed endpoint for this client's organization and session.
    pub fn get_server_url(&self) -> (r: String)
        ensures
            r@ == self.spec_base_url() + "/hackathon/"@ + self.spec_organization_id() + "/feed/"@
                + self.spec_session_id(),
    {
        let mut r = self.base_url.clone();
        r.append("/hackathon/");
        r.append(self.organization_id.as_str());
        r.append("/feed/");
        r.append(self.session_id.as_str());
        r
    }

    /// Whether a query must fall back to the offline generator: no usable
    /// API key or no organization.
    pub fn should_use_mock(&self) -> (r: bool)
        ensures
            r == (match self.spec_api_key() {
                Some(k) => crate::strutil::spec_trim(k@).len() == 0
                    || self.spec_organization_id().len() == 0,
                None => true,
            }),
    {
        match &self.api_key {
            None => true,
            Some(k) => {
                let t = crate::strutil::trim_spaces(k.as_str());
                t.as_str().is_empty() || self.organization_id.as_str().is_empty()
            },
        }
    }

    /// The deterministic offline response: ten numbered items echoing the
    /// query, numbered from `(page - 1) * 10 + 1`.
    pub fn mock_query(&self, query: &str, page: usize) -> (r: GeniusResponse)
        requires
            1 <= page,
            page * 10 <= usize::MAX,
        ensures
            r.status@ == "success"@,
            r.items@.len() == 10,
            forall|k: int|
                0 <= k < 10 ==> (#[trigger] r.items@[k]).id@ == "mock-"@ + spec_decimal(
                    ((page - 1) * 10 + 1 + k) as nat,
                ),
            forall|k: int|
                0 <= k < 10 ==> (#[trigger] r.items@[k]).description@ == "Mock result "@
                    + spec_decimal(((page - 1) * 10 + 1 + k) as nat) + " for query: '"@ + query@
                    + "' (page "@ + spec_decimal(page as nat) + ")"@,
    {
        let mut items: Vec<GeniusItem> = Vec::new();
        let start_idx = (page - 1) * 10 + 1;
        let mut i = start_idx;
        while i < start_idx + 10
            invariant
                start_idx == (page - 1) * 10 + 1,
                page * 10 <= usize::MAX,
                1 <= page,
                start_idx <= i <= start_idx + 10,
                items@.len() == i - start_idx,
                forall|k: int|
                    0 <= k < items@.len() ==> (#[trigger] items@[k]).id@ == "mock-"@ + spec_decimal(
                        (start_idx + k) as nat,
                    ),
                forall|k: int|
                    0 <= k < items@.len() ==> (#[trigger] items@[k]).description@
                        == "Mock result "@ + spec_decimal((start_idx + k) as nat)
                        + " for query: '"@ + query@ + "' (page "@ + spec_decimal(page as nat)
                        + ")"@,
            decreases start_idx + 10 - i,
        {
            let digits = usize_to_string(i);
            let mut id = "mock-".to_owned();
            id.append(digits.as_str());
            let mut description = "Mock result ".to_owned();
            description.append(digits.as_str());
            description.append(" for query: '");
            description.append(query);
            description.append("' (page ");
            let page_digits = usize_to_string(page);
            description.append(page_digits.as_str());
            description.append(")");
            items.push(GeniusItem { id, description });
            i = i + 1;
        }
        GeniusResponse { items, status: "success".to_owned() }
    }
}

/// A client for offline use: the default configuration, which never talks
/// to the network.
pub fn create_mock_client() -> (r: GeniusApiClient)
    ensures
        r.spec_api_key() is None,
{
    GeniusApiClient::new()
}

/// A response wrapping the given items with a success status.
pub fn create_mock_response(items: Vec<GeniusItem>) -> (r: GeniusResponse)
    ensures
        r.items == items,
        r.status@ == "success"@,
{
    GeniusResponse { items, status: "success".to_owned() }
}

/// The description of every item of a response, in order.
pub fn extract_descriptions(response: &GeniusResponse) -> (r: Vec<String>)
    ensures
        r@.len() == response.items@.len(),
        forall|k: int|
            0 <= k < r@.len() ==> (#[trigger] r@[k])@ == response.items@[k].description@,
{
    let mut r: Vec<String> = Vec::new();
    let n = response.items.len();
    let mut i: usize = 0;
    while i < n
        invariant
            i <= n,
            n == response.items@.len(),
            r@.len() == i,
            forall|k: int|
                0 <= k < i ==> (#[trigger] r@[k])@ == response.items@[k].description@,
        decreases n - i,
    {
        r.push(response.items[i].description.clone());
        i = i + 1;
    }
    r
}

} // verus!
