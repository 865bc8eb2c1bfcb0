//! Bridge between the application and the suggestion API: pagination state,
//! the last response, and deduplicated accumulation of items across pages.
//!
//! The bridge decides; the surrounding program performs. A query round is
//! `begin_query` (or `begin_next_page`), then the caller obtains a response
//! — over the network or from the offline generator — and hands it back
//! through `record_response` or `mark_request_complete`.

use vstd::prelude::*;

use crate::commands::App;
use crate::genius_api::{GeniusApiClient, GeniusApiError, GeniusItem, GeniusResponse};

verus! {

/// An item with this id is already in the accumulated list.
pub open spec fn spec_has_id(acc: Seq<GeniusItem>, id: Seq<char>) -> bool {
    exists|k: int| 0 <= k < acc.len() && (#[trigger] acc[k]).id@ == id
}

/// The accumulated list after merging `items[j..]`: each item is appended
/// once unless an item with its id is already there.
pub open spec fn spec_merge_items(acc: Seq<GeniusItem>, items: Seq<GeniusItem>, j: int) -> Seq<
    GeniusItem,
>
    decreases items.len() - j,
{
    if j < 0 || j >= items.len() {
        acc
    } else {
        spec_merge_items(
            if spec_has_id(acc, items[j].id@) {
                acc
            } else {
                acc.push(items[j])
            },
            items,
            j + 1,
        )
    }
}

/// Pagination and response state for the suggestion API.
pub struct GeniusApiBridge {
    /// The client configuration used for requests.
    pub api_client: GeniusApiClient,
    /// The most recent response, if any.
    pub last_response: Option<GeniusResponse>,
    /// Whether a request round is open.
    pub request_in_progress: bool,
    /// Current page, 1-based.
    pub current_page: usize,
    /// The text of the current query.
    pub current_query: String,
    /// All items seen so far, across pages, deduplicated by id.
    pub all_items: Vec<GeniusItem>,
}

impl GeniusApiBridge {
    /// A fresh bridge with a default client.
    pub fn new() -> (r: GeniusApiBridge)
        ensures
            r.last_response is None,
            !r.request_in_progress,
            r.current_page == 1,
            r.current_query@ == Seq::<char>::empty(),
            r.all_items@ == Seq::<GeniusItem>::empty(),
            r.api_client.spec_api_key() is None,
    {
        let all_items: Vec<GeniusItem> = Vec::new();
        proof {
            assert(all_items@ =~= Seq::<GeniusItem>::empty());
        }
        GeniusApiBridge {
            api_client: GeniusApiClient::new(),
            last_response: None,
            request_in_progress: false,
            current_page: 1,
            current_query: String::new(),
            all_items,
        }
    }

    /// A fresh bridge around the given client.
    pub fn with_client(api_client: GeniusApiClient) -> (r: GeniusApiBridge)
        ensures
            r.api_client == api_client,
            r.last_response is None,
            !r.request_in_progress,
            r.current_page == 1,
            r.current_query@ == Seq::<char>::empty(),
            r.all_items@ == Seq::<GeniusItem>::empty(),
    {
        let all_items: Vec<GeniusItem> = Vec::new();
        proof {
            assert(all_items@ =~= Seq::<GeniusItem>::empty());
        }
        GeniusApiBridge {
            api_client,
            last_response: None,
            request_in_progress: false,
            current_page: 1,
            current_query: String::new(),
            all_items,
        }
    }

    /// Replace the client by one configured with the given key and
    /// organization.
    pub fn configure(&mut self, api_key: &str, organization_id: &str)
        ensures
            final(self).api_client.spec_api_key() matches Some(k) && k@ == api_key@,
            final(self).api_client.spec_organization_id() == organization_id@,
            final(self).last_response == old(self).last_response,
            final(self).request_in_progress == old(self).request_in_progress,
            final(self).current_page == old(self).current_page,
            final(self).current_query == old(self).current_query,
            final(self).all_items == old(self).all_items,
    {
        self.api_client = GeniusApiClient::new().with_api_key(api_key.to_owned())
            .with_organization_id(organization_id.to_owned());
    }

    /// The query text the application's input field holds.
    pub fn get_query_from_app(app: &App) -> (r: String)
        ensures
            r@ == app.display_container_state.spec_input(),
    {
        app.display_container_state.input_value().to_owned()
    }

    /// Open a query round for the given input: a changed query resets the
    /// page to 1 and clears the accumulated items. Returns the page to
    /// request.
    pub fn begin_query(&mut self, input: &str) -> (page: usize)
        ensures
            ({
                if input@ != old(self).current_query@ {
                    final(self).current_page == 1 && final(self).current_query@ == input@ && final(self).all_items@ == Seq::<GeniusItem>::empty()
                } else {
                    final(self).current_page == old(self).current_page && final(self).current_query == old(self).current_query && final(self).all_items == old(self).all_items
                }
            }),
            page == final(self).current_page,
            final(self).request_in_progress,
            final(self).last_response == old(self).last_response,
            final(self).api_client == old(self).api_client,
    {
        let same = self.current_query == input.to_owned();
        if !same {
            self.current_page = 1;
            self.current_query = input.to_owned();
            self.all_items = Vec::new();
            proof {
                assert(self.all_items@ =~= Seq::<GeniusItem>::empty());
            }
        }
        self.request_in_progress = true;
        self.current_page
    }

    /// Open a round for the next page of the current query. Fails when no
    /// query is current.
    pub fn begin_next_page(&mut self) -> (r: Result<usize, GeniusApiError>)
        requires
            old(self).current_page < usize::MAX,
        ensures
            ({
                if old(self).current_query@.len() == 0 {
                    r matches Err(GeniusApiError::Other(m)) && m@
                        == "No current query to load more results for"@ && *final(self) == *old(self)
                } else {
                    r == Ok::<usize, GeniusApiError>((old(self).current_page + 1) as usize)
                        && final(self).current_page == old(self).current_page + 1 && final(self).request_in_progress && final(self).current_query == old(self).current_query
                        && final(self).all_items == old(self).all_items && final(self).last_response == old(self).last_response && final(self).api_client == old(self).api_client
                }
            }),
    {
        if self.current_query.as_str().is_empty() {
            return Err(
                GeniusApiError::Other("No current query to load more results for".to_owned()),
            );
        }
        self.current_page = self.current_page + 1;
        self.request_in_progress = true;
        Ok(self.current_page)
    }

    /// Close a query round with a successful response: remember it, merge
    /// its items into the accumulated list without duplicating ids.
    pub fn record_response(&mut self, response: GeniusResponse)
        ensures
            final(self).last_response == Some(response),
            final(self).all_items@ == spec_merge_items(old(self).all_items@, response.items@, 0),
            !final(self).request_in_progress,
            final(self).current_page == old(self).current_page,
            final(self).current_query == old(self).current_query,
            final(self).api_client == old(self).api_client,
    {
        let n = response.items.len();
        let mut j: usize = 0;
        while j < n
            invariant
                j <= n,
                n == response.items@.len(),
                spec_merge_items(old(self).all_items@, response.items@, 0) == spec_merge_items(
                    self.all_items@,
                    response.items@,
                    j as int,
                ),
                self.current_page == old(self).current_page,
                self.current_query == old(self).current_query,
                self.api_client == old(self).api_client,
                self.request_in_progress == old(self).request_in_progress,
                self.last_response == old(self).last_response,
            decreases n - j,
        {
            let item = &response.items[j];
            let mut present = false;
            let m = self.all_items.len();
            let mut k: usize = 0;
            while k < m
                invariant
                    k <= m,
                    m == self.all_items@.len(),
                    j < response.items@.len(),
                    *item == response.items@[j as int],
                    present == exists|q: int|
                        0 <= q < k && (#[trigger] self.all_items@[q]).id@ == response.items@[j
                            as int].id@,
                decreases m - k,
            {
                if self.all_items[k].id == item.id {
                    present = true;
                }
                k = k + 1;
            }
            proof {
                assert(present == spec_has_id(self.all_items@, response.items@[j as int].id@));
            }
            if !present {
                let copy = GeniusItem {
                    id: item.id.clone(),
                    description: item.description.clone(),
                };
                proof {
                    assert(copy == response.items@[j as int]);
                }
                self.all_items.push(copy);
            }
            j = j + 1;
        }
        self.last_response = Some(response);
        self.request_in_progress = false;
    }

    /// Close a query round that brought no usable response.
    pub fn mark_request_complete(&mut self)
        ensures
            !final(self).request_in_progress,
            final(self).last_response == old(self).last_response,
            final(self).current_page == old(self).current_page,
            final(self).current_query == old(self).current_query,
            final(self).all_items == old(self).all_items,
            final(self).api_client == old(self).api_client,
    {
        self.request_in_progress = false;
    }

    /// The descriptions of the last response's items, in order; empty
    /// without a response.
    pub fn get_descriptions(&self) -> (r: Vec<String>)
        ensures
            match self.last_response {
                Some(resp) => r@.len() == resp.items@.len() && (forall|k: int|
                    0 <= k < r@.len() ==> (#[trigger] r@[k])@ == resp.items@[k].description@),
                None => r@.len() == 0,
            },
    {
        match &self.last_response {
            Some(resp) => crate::genius_api::extract_descriptions(resp),
            None => Vec::new(),
        }
    }

    /// Whether a query round is open.
    pub fn is_request_in_progress(&self) -> (r: bool)
        ensures
            r == self.request_in_progress,
    {
        self.request_in_progress
    }

    /// Store a response directly, closing any open round.
    pub fn set_test_response(&mut self, response: GeniusResponse)
        ensures
            final(self).last_response == Some(response),
            !final(self).request_in_progress,
            final(self).current_page == old(self).current_page,
            final(self).current_query == old(self).current_query,
            final(self).all_items == old(self).all_items,
            final(self).api_client == old(self).api_client,
    {
        self.last_response = Some(response);
        self.request_in_progress = false;
    }

    /// The last response, if any.
    pub fn last_response(&self) -> (r: Option<&GeniusResponse>)
        ensures
            match r {
                Some(resp) => self.last_response == Some(*resp),
                None => self.last_response is None,
            },
    {
        match &self.last_response {
            Some(resp) => Some(resp),
            None => None,
        }
    }

    /// All items accumulated so far.
    pub fn all_items(&self) -> (r: &Vec<GeniusItem>)
        ensures
            r == &self.all_items,
    {
        &self.all_items
    }

    /// The current page, 1-based.
    pub fn current_page(&self) -> (r: usize)
        ensures
            r == self.current_page,
    {
        self.current_page
    }

    /// Whether anything has been loaded that further pages could extend.
    pub fn has_more_pages(&self) -> (r: bool)
        ensures
            r == (self.all_items@.len() > 0),
    {
        !self.all_items.is_empty()
    }
}

/// A bridge with default settings.
pub fn create_default_bridge() -> (r: GeniusApiBridge)
    ensures
        r.last_response is None,
        !r.request_in_progress,
        r.current_page == 1,
{
    GeniusApiBridge::new()
}

/// A bridge around an offline client.
pub fn create_mock_bridge() -> (r: GeniusApiBridge)
    ensures
        r.api_client.spec_api_key() is None,
        r.last_response is None,
{
    GeniusApiBridge::with_client(crate::genius_api::create_mock_client())
}

/// A bridge configured with the given key and organization.
pub fn create_configured_bridge(api_key: &str, organization_id: &str) -> (r: GeniusApiBridge)
    ensures
        r.api_client.spec_api_key() matches Some(k) && k@ == api_key@,
        r.api_client.spec_organization_id() == organization_id@,
        r.last_response is None,
{
    let mut bridge = GeniusApiBridge::new();
    bridge.configure(api_key, organization_id);
    bridge
}

} // verus!
