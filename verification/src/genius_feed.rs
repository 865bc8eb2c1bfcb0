//! State of the suggestion feed: focus, per-item expansion, pinning, and
//! paging, plus the rate-limit decision for firing API queries.
//!
//! The state is explicit and passed into calls; the rendering layer owns one
//! value of it and threads it through.

use std::collections::HashSet;
use vstd::prelude::*;

use crate::genius_api::GeniusItem;

verus! {

broadcast use vstd::std_specs::hash::group_hash_axioms;

/// One of the strings equals `id`.
pub open spec fn spec_has_str(strs: Seq<String>, id: Seq<char>) -> bool {
    exists|k: int| 0 <= k < strs.len() && (#[trigger] strs[k])@ == id
}

/// `strs` from position `j` on, with every string equal to `id` removed.
pub open spec fn spec_strs_without_from(strs: Seq<String>, id: Seq<char>, j: int) -> Seq<String>
    decreases strs.len() - j,
{
    if j < 0 || j >= strs.len() {
        Seq::empty()
    } else {
        (if strs[j]@ == id {
            Seq::<String>::empty()
        } else {
            seq![strs[j]]
        }) + spec_strs_without_from(strs, id, j + 1)
    }
}

/// `strs` with every string equal to `id` removed.
pub open spec fn spec_strs_without(strs: Seq<String>, id: Seq<char>) -> Seq<String> {
    spec_strs_without_from(strs, id, 0)
}

/// The items selected by pinned-membership: those whose id is pinned when
/// `want` holds, the others when it does not, in their original order.
pub open spec fn spec_selected_from(
    items: Seq<GeniusItem>,
    pinned: Seq<String>,
    j: int,
    want: bool,
) -> Seq<GeniusItem>
    decreases items.len() - j,
{
    if j < 0 || j >= items.len() {
        Seq::empty()
    } else {
        (if spec_has_str(pinned, items[j].id@) == want {
            seq![items[j]]
        } else {
            Seq::<GeniusItem>::empty()
        }) + spec_selected_from(items, pinned, j + 1, want)
    }
}

/// The items with the pinned ones moved to the front, order otherwise kept.
pub open spec fn spec_pinned_first(items: Seq<GeniusItem>, pinned: Seq<String>) -> Seq<
    GeniusItem,
> {
    spec_selected_from(items, pinned, 0, true) + spec_selected_from(items, pinned, 0, false)
}

/// State of the suggestion feed.
pub struct GeniusFeedState {
    /// Index of the focused item, 0-based.
    pub focused_index: Option<usize>,
    /// Global indices of the items expanded to show their full text.
    pub expanded_items: HashSet<usize>,
    /// Whether the next page should be loaded.
    pub should_load_more: bool,
    /// Ids of the pinned items, which stay on top across queries.
    pub pinned_items: Vec<String>,
    /// Current page, 1-based.
    pub current_page: usize,
}

impl GeniusFeedState {
    /// A fresh feed: first item focused, first page, nothing expanded or
    /// pinned.
    pub fn new() -> (r: GeniusFeedState)
        ensures
            r.focused_index == Some(0usize),
            r.expanded_items@ == Set::<usize>::empty(),
            !r.should_load_more,
            r.pinned_items@ == Seq::<String>::empty(),
            r.current_page == 1,
    {
        let pinned_items: Vec<String> = Vec::new();
        proof {
            assert(pinned_items@ =~= Seq::<String>::empty());
        }
        GeniusFeedState {
            focused_index: Some(0),
            expanded_items: HashSet::new(),
            should_load_more: false,
            pinned_items,
            current_page: 1,
        }
    }

    /// The focused index.
    pub fn get_focused_index(&self) -> (r: Option<usize>)
        ensures
            r == self.focused_index,
    {
        self.focused_index
    }

    /// Set the focused index.
    pub fn set_focused_index(&mut self, index: Option<usize>)
        ensures
            final(self).focused_index == index,
            final(self).expanded_items == old(self).expanded_items,
            final(self).should_load_more == old(self).should_load_more,
            final(self).pinned_items == old(self).pinned_items,
            final(self).current_page == old(self).current_page,
    {
        self.focused_index = index;
    }

    /// Whether the item at a page-local index is expanded; expansion is
    /// tracked by global index across pages.
    pub fn is_item_expanded(&self, index: usize) -> (r: bool)
        requires
            self.current_page >= 1,
            (self.current_page - 1) * 10 + index <= usize::MAX,
        ensures
            r == self.expanded_items@.contains(
                (((self.current_page - 1) * 10) + index) as usize,
            ),
    {
        let global_index = (self.current_page - 1) * 10 + index;
        self.expanded_items.contains(&global_index)
    }

    /// Flip the expansion state of the item at a page-local index.
    pub fn toggle_item_expansion(&mut self, index: usize)
        requires
            old(self).current_page >= 1,
            (old(self).current_page - 1) * 10 + index <= usize::MAX,
        ensures
            ({
                let g = (((old(self).current_page - 1) * 10) + index) as usize;
                final(self).expanded_items@ == (if old(self).expanded_items@.contains(g) {
                    old(self).expanded_items@.remove(g)
                } else {
                    old(self).expanded_items@.insert(g)
                })
            }),
            final(self).focused_index == old(self).focused_index,
            final(self).should_load_more == old(self).should_load_more,
            final(self).pinned_items == old(self).pinned_items,
            final(self).current_page == old(self).current_page,
    {
        let global_index = (self.current_page - 1) * 10 + index;
        if self.expanded_items.contains(&global_index) {
            self.expanded_items.remove(&global_index);
        } else {
            self.expanded_items.insert(global_index);
        }
    }

    /// Whether an item id is pinned.
    pub fn is_item_pinned(&self, item_id: &str) -> (r: bool)
        ensures
            r == spec_has_str(self.pinned_items@, item_id@),
    {
        let owned = item_id.to_owned();
        let n = self.pinned_items.len();
        let mut k: usize = 0;
        while k < n
            invariant
                k <= n,
                n == self.pinned_items@.len(),
                owned@ == item_id@,
                forall|q: int| 0 <= q < k ==> (#[trigger] self.pinned_items@[q])@ != item_id@,
            decreases n - k,
        {
            if self.pinned_items[k] == owned {
                return true;
            }
            k = k + 1;
        }
        false
    }

    /// Flip the pinned state of an item id.
    pub fn toggle_item_pinned(&mut self, item_id: &str)
        ensures
            spec_has_str(old(self).pinned_items@, item_id@) ==> final(self).pinned_items@
                == spec_strs_without(old(self).pinned_items@, item_id@),
            !spec_has_str(old(self).pinned_items@, item_id@) ==> final(self).pinned_items@.len()
                == old(self).pinned_items@.len() + 1 && final(self).pinned_items@.take(
                old(self).pinned_items@.len() as int,
            ) == old(self).pinned_items@ && final(self).pinned_items@.last()@ == item_id@,
            final(self).focused_index == old(self).focused_index,
            final(self).expanded_items == old(self).expanded_items,
            final(self).should_load_more == old(self).should_load_more,
            final(self).current_page == old(self).current_page,
    {
        if self.is_item_pinned(item_id) {
            let ghost strs = self.pinned_items@;
            let ghost idv = item_id@;
            let mut kept: Vec<String> = Vec::new();
            proof {
                assert(kept@ =~= Seq::<String>::empty());
                assert(Seq::<String>::empty() + spec_strs_without_from(strs, idv, 0)
                    =~= spec_strs_without_from(strs, idv, 0));
            }
            let owned = item_id.to_owned();
            let n = self.pinned_items.len();
            let mut k: usize = 0;
            while k < n
                invariant
                    k <= n,
                    n == strs.len(),
                    strs == self.pinned_items@,
                    owned@ == idv,
                    spec_strs_without(strs, idv) == kept@ + spec_strs_without_from(
                        strs,
                        idv,
                        k as int,
                    ),
                decreases n - k,
            {
                let ghost kb = kept@;
                if !(self.pinned_items[k] == owned) {
                    kept.push(self.pinned_items[k].clone());
                    proof {
                        assert((kb + seq![strs[k as int]]) + spec_strs_without_from(
                            strs,
                            idv,
                            k as int + 1,
                        ) =~= kb + (seq![strs[k as int]] + spec_strs_without_from(
                            strs,
                            idv,
                            k as int + 1,
                        )));
                    }
                } else {
                    proof {
                        assert(Seq::<String>::empty() + spec_strs_without_from(
                            strs,
                            idv,
                            k as int + 1,
                        ) =~= spec_strs_without_from(strs, idv, k as int + 1));
                    }
                }
                k = k + 1;
            }
            proof {
                assert(kept@ + spec_strs_without_from(strs, idv, n as int) =~= kept@);
            }
            self.pinned_items = kept;
        } else {
            self.pinned_items.push(item_id.to_owned());
        }
    }

    /// The pinned ids, in pin order.
    pub fn get_pinned_items(&self) -> (r: Vec<String>)
        ensures
            r@.len() == self.pinned_items@.len(),
            forall|k: int|
                0 <= k < r@.len() ==> (#[trigger] r@[k])@ == self.pinned_items@[k]@,
    {
        let mut r: Vec<String> = Vec::new();
        let n = self.pinned_items.len();
        let mut k: usize = 0;
        while k < n
            invariant
                k <= n,
                n == self.pinned_items@.len(),
                r@.len() == k,
                forall|q: int| 0 <= q < k ==> (#[trigger] r@[q])@ == self.pinned_items@[q]@,
            decreases n - k,
        {
            r.push(self.pinned_items[k].clone());
            k = k + 1;
        }
        r
    }

    /// The item the focus rests on, after pinned items are moved to the
    /// front of the given response items.
    pub fn get_focused_item(&self, items: &Vec<GeniusItem>) -> (r: Option<GeniusItem>)
        ensures
            ({
                let ordered = spec_pinned_first(items@, self.pinned_items@);
                match self.focused_index {
                    Some(f) => if f < ordered.len() {
                        r == Some(ordered[f as int])
                    } else {
                        r is None
                    },
                    None => r is None,
                }
            }),
    {
        let f = match self.focused_index {
            Some(f) => f,
            None => {
                return None;
            },
        };
        let ghost pinned = self.pinned_items@;
        let mut ordered: Vec<GeniusItem> = Vec::new();
        proof {
            assert(ordered@ =~= Seq::<GeniusItem>::empty());
            assert(Seq::<GeniusItem>::empty() + spec_selected_from(items@, pinned, 0, true)
                =~= spec_selected_from(items@, pinned, 0, true));
        }
        let n = items.len();
        let mut j: usize = 0;
        while j < n
            invariant
                j <= n,
                n == items@.len(),
                pinned == self.pinned_items@,
                spec_selected_from(items@, pinned, 0, true) == ordered@ + spec_selected_from(
                    items@,
                    pinned,
                    j as int,
                    true,
                ),
            decreases n - j,
        {
            let ghost ob = ordered@;
            if self.is_item_pinned(items[j].id.as_str()) {
                ordered.push(
                    GeniusItem {
                        id: items[j].id.clone(),
                        description: items[j].description.clone(),
                    },
                );
                proof {
                    assert(ordered@.last() == items@[j as int]);
                    assert(ordered@ =~= ob + seq![items@[j as int]]);
                    assert((ob + seq![items@[j as int]]) + spec_selected_from(
                        items@,
                        pinned,
                        j as int + 1,
                        true,
                    ) =~= ob + (seq![items@[j as int]] + spec_selected_from(
                        items@,
                        pinned,
                        j as int + 1,
                        true,
                    )));
                }
            } else {
                proof {
                    assert(Seq::<GeniusItem>::empty() + spec_selected_from(
                        items@,
                        pinned,
                        j as int + 1,
                        true,
                    ) =~= spec_selected_from(items@, pinned, j as int + 1, true));
                }
            }
            j = j + 1;
        }
        proof {
            assert(ordered@ + spec_selected_from(items@, pinned, n as int, true) =~= ordered@);
        }
        let ghost first_part = ordered@;
        let mut j: usize = 0;
        while j < n
            invariant
                j <= n,
                n == items@.len(),
                pinned == self.pinned_items@,
                first_part == spec_selected_from(items@, pinned, 0, true),
                first_part + spec_selected_from(items@, pinned, 0, false) == ordered@
                    + spec_selected_from(items@, pinned, j as int, false),
            decreases n - j,
        {
            let ghost ob = ordered@;
            if !self.is_item_pinned(items[j].id.as_str()) {
                ordered.push(
                    GeniusItem {
                        id: items[j].id.clone(),
                        description: items[j].description.clone(),
                    },
                );
                proof {
                    assert(ordered@.last() == items@[j as int]);
                    assert(ordered@ =~= ob + seq![items@[j as int]]);
                    assert((ob + seq![items@[j as int]]) + spec_selected_from(
                        items@,
                        pinned,
                        j as int + 1,
                        false,
                    ) =~= ob + (seq![items@[j as int]] + spec_selected_from(
                        items@,
                        pinned,
                        j as int + 1,
                        false,
                    )));
                }
            } else {
                proof {
                    assert(Seq::<GeniusItem>::empty() + spec_selected_from(
                        items@,
                        pinned,
                        j as int + 1,
                        false,
                    ) =~= spec_selected_from(items@, pinned, j as int + 1, false));
                }
            }
            j = j + 1;
        }
        proof {
            assert(ordered@ + spec_selected_from(items@, pinned, n as int, false) =~= ordered@);
        }
        if f < ordered.len() {
            let item = &ordered[f];
            Some(GeniusItem { id: item.id.clone(), description: item.description.clone() })
        } else {
            None
        }
    }

    /// Move focus up one item, wrapping from the first to the last; an
    /// empty list leaves everything untouched.
    pub fn focus_previous(&mut self, item_count: usize)
        ensures
            final(self).focused_index == (if item_count == 0 {
                old(self).focused_index
            } else {
                match old(self).focused_index {
                    Some(cur) => if cur > 0 {
                        Some((cur - 1) as usize)
                    } else {
                        Some((item_count - 1) as usize)
                    },
                    None => Some(0usize),
                }
            }),
            final(self).expanded_items == old(self).expanded_items,
            final(self).should_load_more == old(self).should_load_more,
            final(self).pinned_items == old(self).pinned_items,
            final(self).current_page == old(self).current_page,
    {
        if item_count == 0 {
            return ;
        }
        match self.focused_index {
            Some(current) => {
                if current > 0 {
                    self.focused_index = Some(current - 1);
                } else {
                    self.focused_index = Some(item_count - 1);
                }
            },
            None => {
                self.focused_index = Some(0);
            },
        }
    }

    /// Move focus down one item; at the last item, ask for more instead of
    /// moving. An empty list leaves everything untouched.
    pub fn focus_next(&mut self, item_count: usize)
        ensures
            item_count == 0 ==> *final(self) == *old(self),
            item_count > 0 ==> ({
                match old(self).focused_index {
                    Some(cur) => if cur < item_count - 1 {
                        final(self).focused_index == Some((cur + 1) as usize) && final(self).should_load_more == old(self).should_load_more
                    } else {
                        final(self).focused_index == old(self).focused_index && final(self).should_load_more
                    },
                    None => final(self).focused_index == Some(0usize) && final(self).should_load_more == old(self).should_load_more,
                }
            }),
            final(self).expanded_items == old(self).expanded_items,
            final(self).pinned_items == old(self).pinned_items,
            final(self).current_page == old(self).current_page,
    {
        if item_count == 0 {
            return ;
        }
        match self.focused_index {
            Some(current) => {
                if current < item_count - 1 {
                    self.focused_index = Some(current + 1);
                } else {
                    self.should_load_more = true;
                }
            },
            None => {
                self.focused_index = Some(0);
            },
        }
    }

    /// Set the load-more flag.
    pub fn set_should_load_more(&mut self, should_load: bool)
        ensures
            final(self).should_load_more == should_load,
            final(self).focused_index == old(self).focused_index,
            final(self).expanded_items == old(self).expanded_items,
            final(self).pinned_items == old(self).pinned_items,
            final(self).current_page == old(self).current_page,
    {
        self.should_load_more = should_load;
    }

    /// Whether more items should be loaded.
    pub fn should_load_more(&self) -> (r: bool)
        ensures
            r == self.should_load_more,
    {
        self.should_load_more
    }

    /// The current page, 1-based.
    pub fn get_current_page(&self) -> (r: usize)
        ensures
            r == self.current_page,
    {
        self.current_page
    }

    /// Set the current page.
    pub fn set_current_page(&mut self, page: usize)
        ensures
            final(self).current_page == page,
            final(self).focused_index == old(self).focused_index,
            final(self).expanded_items == old(self).expanded_items,
            final(self).should_load_more == old(self).should_load_more,
            final(self).pinned_items == old(self).pinned_items,
    {
        self.current_page = page;
    }

    /// Go to the next page: focus returns to the first item and expansions
    /// are cleared.
    pub fn next_page(&mut self)
        requires
            old(self).current_page < usize::MAX,
        ensures
            final(self).current_page == old(self).current_page + 1,
            final(self).focused_index == Some(0usize),
            final(self).expanded_items@ == Set::<usize>::empty(),
            final(self).should_load_more == old(self).should_load_more,
            final(self).pinned_items == old(self).pinned_items,
    {
        self.current_page = self.current_page + 1;
        self.focused_index = Some(0);
        self.expanded_items.clear();
    }

    /// Go back one page, not before the first: focus returns to the first
    /// item and expansions are cleared; on page 1 nothing changes.
    pub fn previous_page(&mut self)
        ensures
            ({
                if old(self).current_page > 1 {
                    final(self).current_page == old(self).current_page - 1 && final(self).focused_index == Some(0usize) && final(self).expanded_items@ == Set::<
                        usize,
                    >::empty()
                } else {
                    *final(self) == *old(self)
                }
            }),
            final(self).should_load_more == old(self).should_load_more,
            final(self).pinned_items == old(self).pinned_items,
    {
        if self.current_page > 1 {
            self.current_page = self.current_page - 1;
            self.focused_index = Some(0);
            self.expanded_items.clear();
        }
    }
}

/// Rate-limit state for API requests.
pub struct ApiRequestCache {
    /// When the last request was fired, in milliseconds of some monotonic
    /// clock, if ever.
    pub last_api_request_ms: Option<u64>,
    /// The input the last request was for.
    pub last_query_text: String,
    /// Minimum time between requests, in milliseconds.
    pub min_request_interval_ms: u64,
}

impl ApiRequestCache {
    /// A fresh cache: no request yet, a 50 millisecond interval.
    pub fn new() -> (r: ApiRequestCache)
        ensures
            r.last_api_request_ms is None,
            r.last_query_text@ == Seq::<char>::empty(),
            r.min_request_interval_ms == 50,
    {
        ApiRequestCache {
            last_api_request_ms: None,
            last_query_text: String::new(),
            min_request_interval_ms: 50,
        }
    }
}

/// Decide whether an API query should fire now, and prepare for it: empty
/// or unchanged input never queries; a changed input queries once the
/// minimum interval has passed (or immediately for the first request),
/// recording the time and text and resetting the feed to page 1. The caller
/// performs the query when this returns true.
pub fn maybe_query_api(
    cache: &mut ApiRequestCache,
    feed: &mut GeniusFeedState,
    input: &str,
    now_ms: u64,
) -> (fire: bool)
    ensures
        ({
            let blocked = input@.len() == 0 || input@ == old(cache).last_query_text@ || (match old(cache).last_api_request_ms {
                Some(last) => (if now_ms >= last {
                    now_ms - last
                } else {
                    0
                }) < old(cache).min_request_interval_ms,
                None => false,
            });
            if blocked {
                !fire && *final(cache) == *old(cache) && *final(feed) == *old(feed)
            } else {
                fire && final(cache).last_api_request_ms == Some(now_ms) && final(cache).last_query_text@ == input@ && final(cache).min_request_interval_ms == old(cache).min_request_interval_ms && final(feed).current_page == 1 && final(feed).focused_index == old(feed).focused_index && final(feed).expanded_items == old(feed).expanded_items && final(feed).should_load_more == old(feed).should_load_more
                    && final(feed).pinned_items == old(feed).pinned_items
            }
        }),
{
    if input.is_empty() {
        return false;
    }
    if cache.last_query_text == input.to_owned() {
        return false;
    }
    let should_query = match cache.last_api_request_ms {
        Some(last_time) => {
            let elapsed = if now_ms >= last_time {
                now_ms - last_time
            } else {
                0
            };
            elapsed >= cache.min_request_interval_ms
        },
        None => true,
    };
    if should_query {
        cache.last_api_request_ms = Some(now_ms);
        cache.last_query_text = input.to_owned();
        feed.set_current_page(1);
        true
    } else {
        false
    }
}

} // verus!
