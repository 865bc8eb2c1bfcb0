//! Tests of the suggestion-API model, the bridge state machine, the feed
//! state, the rate limiter, and the render helpers.

use cyberorganism::display_container::DisplayContainerState;
use cyberorganism::genius_api::{
    create_mock_response, extract_descriptions, GeniusApiClient, GeniusApiError, GeniusItem,
    GeniusResponse,
};
use cyberorganism::genius_api_bridge::GeniusApiBridge;
use cyberorganism::genius_feed::{maybe_query_api, ApiRequestCache, GeniusFeedState};
use cyberorganism::commands::{find_task, App};
use cyberorganism::rendering::{
    collect_task_data, filter_renderable_items, format_task_text, item_display_text,
};
use cyberorganism::strutil::{
    parse_u32_str, str_eq_ignore_ascii_case, str_starts_with, trim_spaces, u32_to_string,
    usize_to_string,
};
use cyberorganism::tasks::{Task, TaskContainer, TaskStatus};

fn item(id: &str, description: &str) -> GeniusItem {
    GeniusItem { id: id.to_string(), description: description.to_string() }
}

/// A bridge with a predefined eight-item response.
fn create_mock_api_bridge() -> GeniusApiBridge {
    let mut api_bridge = GeniusApiBridge::new();
    let mut items = Vec::new();
    for i in 1..=8 {
        items.push(item(
            &format!("item-{}", i),
            &format!("Item {} - This is a dummy item for test", i),
        ));
    }
    let response = GeniusResponse { items, status: "success".to_string() };
    api_bridge.set_test_response(response);
    api_bridge
}

#[test]
fn test_render_genius_feed() {
    // The bridge holds the predefined response the feed would render.
    let api_bridge = create_mock_api_bridge();

    assert!(api_bridge.last_response().is_some(), "API bridge should have a response");

    if let Some(response) = api_bridge.last_response() {
        assert_eq!(response.items.len(), 8, "Response should have 8 items");
    }
}

#[test]
fn test_mock_query_formula() {
    let client = GeniusApiClient::new();
    let r = client.mock_query("tea", 1);
    assert_eq!(r.status, "success");
    assert_eq!(r.items.len(), 10);
    assert_eq!(r.items[0].id, "mock-1");
    assert_eq!(r.items[0].description, "Mock result 1 for query: 'tea' (page 1)");
    assert_eq!(r.items[9].id, "mock-10");
    assert_eq!(r.items[9].description, "Mock result 10 for query: 'tea' (page 1)");

    let r2 = client.mock_query("tea", 3);
    assert_eq!(r2.items[0].id, "mock-21");
    assert_eq!(r2.items[0].description, "Mock result 21 for query: 'tea' (page 3)");
}

#[test]
fn test_client_configuration() {
    let client = GeniusApiClient::new();
    assert_eq!(client.base_url(), "https://app.productgenius.io");
    assert_eq!(client.timeout(), 10_000);
    assert!(client.api_key().is_none());
    assert!(client.should_use_mock());

    let client = GeniusApiClient::new()
        .with_api_key("key-for-tests".to_string())
        .with_organization_id("org-7".to_string());
    assert_eq!(client.organization_id(), "org-7");
    assert!(!client.should_use_mock());

    // A blank key still falls back to the offline generator.
    let blank = GeniusApiClient::new().with_api_key("   ".to_string());
    assert!(blank.should_use_mock());

    let url = client.get_server_url();
    assert!(url.starts_with("https://app.productgenius.io/hackathon/org-7/feed/"));
}

#[test]
fn test_error_messages() {
    assert_eq!(GeniusApiError::NetworkError("down".to_string()).message(), "Network error: down");
    assert_eq!(GeniusApiError::ParseError("bad".to_string()).message(), "Parse error: bad");
    assert_eq!(GeniusApiError::ApiError("500".to_string()).message(), "API error: 500");
    assert_eq!(GeniusApiError::Other("odd".to_string()).message(), "Other error: odd");
}

#[test]
fn test_extract_descriptions() {
    let resp = create_mock_response(vec![item("a", "first"), item("b", "second")]);
    assert_eq!(extract_descriptions(&resp), vec!["first".to_string(), "second".to_string()]);
}

#[test]
fn test_bridge_pagination_state() {
    let mut bridge = GeniusApiBridge::new();
    assert_eq!(bridge.current_page(), 1, "Initial page should be 1");
    assert!(bridge.all_items().is_empty(), "Initial items should be empty");
    assert!(!bridge.is_request_in_progress());

    // Without a current query the next page cannot be requested.
    assert!(matches!(bridge.begin_next_page(), Err(GeniusApiError::Other(_))));

    // A first query starts at page 1.
    let page = bridge.begin_query("state test");
    assert_eq!(page, 1);
    assert!(bridge.is_request_in_progress());

    let client = GeniusApiClient::new();
    let response = client.mock_query("state test", page);
    bridge.record_response(response);
    assert!(!bridge.is_request_in_progress());
    assert_eq!(bridge.all_items().len(), 10, "Should have items after query");
    assert!(bridge.has_more_pages());

    // The next page extends the accumulated items.
    let page = bridge.begin_next_page().unwrap();
    assert_eq!(page, 2, "Current page should be 2 after loading next page");
    let response = client.mock_query("state test", page);
    bridge.record_response(response);
    assert_eq!(bridge.all_items().len(), 20);

    // Recording the same page again adds nothing: ids are deduplicated.
    let response = client.mock_query("state test", page);
    bridge.record_response(response);
    assert_eq!(bridge.all_items().len(), 20);

    // A changed query resets pagination and the accumulated items.
    let page = bridge.begin_query("other");
    assert_eq!(page, 1);
    assert!(bridge.all_items().is_empty());

    // Storing a response directly works like a finished round.
    bridge.set_test_response(create_mock_response(vec![
        item("a", "x"),
        item("b", "y"),
        item("c", "z"),
        item("d", "w"),
        item("e", "v"),
    ]));
    let stored = bridge.last_response();
    assert!(stored.is_some(), "Should have a stored response");
    assert_eq!(stored.unwrap().items.len(), 5, "Should have 5 items in the stored response");
    assert_eq!(bridge.get_descriptions().len(), 5);
}

#[test]
fn test_feed_focus_and_pages() {
    let mut feed = GeniusFeedState::new();
    assert_eq!(feed.get_focused_index(), Some(0));
    assert_eq!(feed.get_current_page(), 1);

    feed.focus_next(3);
    assert_eq!(feed.get_focused_index(), Some(1));
    feed.focus_next(3);
    assert_eq!(feed.get_focused_index(), Some(2));
    // At the last item the focus stays and loading more is requested.
    feed.focus_next(3);
    assert_eq!(feed.get_focused_index(), Some(2));
    assert!(feed.should_load_more());

    feed.focus_previous(3);
    assert_eq!(feed.get_focused_index(), Some(1));
    feed.set_focused_index(Some(0));
    feed.focus_previous(3);
    assert_eq!(feed.get_focused_index(), Some(2));

    // Page changes reset focus and expansion.
    feed.toggle_item_expansion(1);
    assert!(feed.is_item_expanded(1));
    feed.next_page();
    assert_eq!(feed.get_current_page(), 2);
    assert_eq!(feed.get_focused_index(), Some(0));
    assert!(!feed.is_item_expanded(1));
    feed.previous_page();
    assert_eq!(feed.get_current_page(), 1);
    feed.previous_page();
    assert_eq!(feed.get_current_page(), 1);
}

#[test]
fn test_feed_expansion_is_per_page() {
    let mut feed = GeniusFeedState::new();
    feed.toggle_item_expansion(2);
    assert!(feed.is_item_expanded(2));
    // The same local index on another page is a different item.
    feed.set_current_page(2);
    assert!(!feed.is_item_expanded(2));
    feed.set_current_page(1);
    assert!(feed.is_item_expanded(2));
    feed.toggle_item_expansion(2);
    assert!(!feed.is_item_expanded(2));
}

#[test]
fn test_feed_pinning_and_focused_item() {
    let mut feed = GeniusFeedState::new();
    assert!(!feed.is_item_pinned("b"));
    feed.toggle_item_pinned("b");
    assert!(feed.is_item_pinned("b"));
    assert_eq!(feed.get_pinned_items(), vec!["b".to_string()]);

    // Pinned items come first for focus purposes.
    let items = vec![item("a", "one"), item("b", "two"), item("c", "three")];
    feed.set_focused_index(Some(0));
    let focused = feed.get_focused_item(&items).unwrap();
    assert_eq!(focused.id, "b");
    feed.set_focused_index(Some(1));
    let focused = feed.get_focused_item(&items).unwrap();
    assert_eq!(focused.id, "a");
    feed.set_focused_index(Some(3));
    assert!(feed.get_focused_item(&items).is_none());

    feed.toggle_item_pinned("b");
    assert!(!feed.is_item_pinned("b"));
}

#[test]
fn test_maybe_query_api_rate_limit() {
    let mut cache = ApiRequestCache::new();
    let mut feed = GeniusFeedState::new();

    // Empty input never queries.
    assert!(!maybe_query_api(&mut cache, &mut feed, "", 1000));

    // First request fires immediately and resets the feed page.
    feed.set_current_page(7);
    assert!(maybe_query_api(&mut cache, &mut feed, "tea", 1000));
    assert_eq!(feed.get_current_page(), 1);

    // Unchanged input does not query again.
    assert!(!maybe_query_api(&mut cache, &mut feed, "tea", 2000));

    // A changed input within the minimum interval is held back.
    assert!(!maybe_query_api(&mut cache, &mut feed, "teapot", 1040));

    // After the interval it fires.
    assert!(maybe_query_api(&mut cache, &mut feed, "teapot", 1050));
}

#[test]
fn test_format_task_text() {
    let mut state = DisplayContainerState::new();
    let mut a = Task::new(1, "A task".to_string());
    a.child_ids.push(2);
    let tasks = vec![a];
    state.update_display_order(&tasks);

    let ti = cyberorganism::display_container::TaskIndex { path: vec![1] };
    // Expanded task with children: no fold marker.
    assert_eq!(format_task_text(&state, &tasks[0], &ti, 0), "1. A task");

    // Folded task with children: the marker appears.
    state.fold_task(1);
    assert_eq!(format_task_text(&state, &tasks[0], &ti, 0), "1. \u{25b6} A task");

    // A subtask is indented and uses a plain space after its path.
    let sub = Task {
        id: 2,
        content: "child".to_string(),
        created_at: 0,
        container: TaskContainer::Taskpad,
        status: TaskStatus::Todo,
        parent_id: Some(1),
        child_ids: Vec::new(),
    };
    let ti = cyberorganism::display_container::TaskIndex { path: vec![1, 1] };
    assert_eq!(format_task_text(&state, &sub, &ti, 1), "  1.1 child");
}

#[test]
fn test_collect_task_data_rows() {
    let mut a = Task::new(1, "A".to_string());
    a.child_ids.push(3);
    let b = Task::new(2, "B".to_string());
    let c = Task {
        id: 3,
        content: "C".to_string(),
        created_at: 0,
        container: TaskContainer::Taskpad,
        status: TaskStatus::Todo,
        parent_id: Some(1),
        child_ids: Vec::new(),
    };
    let tasks = vec![a, b, c];
    let mut state = DisplayContainerState::new();
    state.update_display_order(&tasks);

    let rows = collect_task_data(&state, &tasks);
    let flat: Vec<(u32, Vec<usize>, usize)> =
        rows.iter().map(|r| (r.0, r.1.path.clone(), r.2)).collect();
    assert_eq!(
        flat,
        vec![(1, vec![1], 0), (3, vec![1, 1], 1), (2, vec![2], 0)]
    );

    // Folding A drops its subtree from the rows.
    state.fold_task(1);
    let rows = collect_task_data(&state, &tasks);
    let flat: Vec<(u32, Vec<usize>, usize)> =
        rows.iter().map(|r| (r.0, r.1.path.clone(), r.2)).collect();
    assert_eq!(flat, vec![(1, vec![1], 0), (2, vec![2], 0)]);
}

#[test]
fn test_filter_renderable_items() {
    // An item whose text is a 141-169 byte, multi-line attribution shape is
    // dropped; everything else stays.
    let mut bad = "header\n- ".to_string();
    while bad.len() < 150 {
        bad.push('x');
    }
    let items = vec![item("keep", "plain"), item("drop", &bad), item("also", "multi\nline")];
    let kept = filter_renderable_items(items);
    let ids: Vec<&str> = kept.iter().map(|i| i.id.as_str()).collect();
    assert_eq!(ids, vec!["keep", "also"]);
}

#[test]
fn test_item_display_text() {
    // Collapsed multi-line text shows the first line with an ellipsis.
    assert_eq!(item_display_text("first line\nsecond", false), "first line...");
    // Collapsed single-line text is just trimmed.
    assert_eq!(item_display_text("  only line  ", false), "only line");
    // Expanded text is the whole trimmed text.
    assert_eq!(item_display_text(" a\nb ", true), "a\nb");
}

#[test]
fn test_strutil_helpers() {
    assert_eq!(u32_to_string(0), "0");
    assert_eq!(u32_to_string(42), "42");
    assert_eq!(usize_to_string(90105), "90105");
    assert!(str_starts_with("complete it", "complete "));
    assert!(!str_starts_with("complet", "complete "));
    assert!(str_eq_ignore_ascii_case("Toggle App MODE", "toggle app mode"));
    assert!(!str_eq_ignore_ascii_case("toggle app modes", "toggle app mode"));
    assert_eq!(trim_spaces("  a b \t"), "a b");
    assert_eq!(parse_u32_str("17"), Some(17));
    assert_eq!(parse_u32_str("+17"), Some(17));
    assert_eq!(parse_u32_str("17a"), None);
    assert_eq!(parse_u32_str(""), None);
    assert_eq!(parse_u32_str("4294967295"), Some(u32::MAX));
    assert_eq!(parse_u32_str("4294967296"), None);
}

#[test]
fn test_display_path_queries_resolve_by_position() {
    // A display-path query must go through position resolution, not content
    // search: the task named "2" sits at display position 1, while position
    // 2 holds a different task.
    let mut app = App::new();
    app.add_task(Task::new(10, "2".to_string()));
    app.add_task(Task::new(11, "first".to_string()));
    app.next_id = 12;
    app.display_container_state.update_display_order(&app.tasks);

    // "2" parses as a display path and picks the second visible task.
    let idx = find_task(&app, "2").unwrap();
    assert_eq!(app.tasks[idx].id, 11);

    // A non-numeric query falls back to exact content search.
    let idx = find_task(&app, "first").unwrap();
    assert_eq!(app.tasks[idx].id, 11);
}
