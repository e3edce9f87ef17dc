use gosim_project::issue_tracker::{
    open_issues_page, pull_requests_page, Data, GraphQlResponse, IssueOpen, OpenIssueNode,
    PageInfo, PullNode, Search,
};
use gosim_project::walker::{CursorWalker, Page, WalkAction, PAGE_CAP};

fn endless_page(number: usize) -> Page<usize> {
    Page {
        nodes: vec![number * 2, number * 2 + 1],
        next_cursor: Some(format!("cursor-{}", number + 1)),
        has_more: true,
    }
}

#[test]
fn crawl_stops_after_ten_pages_of_an_endless_endpoint() {
    let mut walker: CursorWalker<usize> = CursorWalker::new(PAGE_CAP);
    let mut fetches = 0;
    let mut cursors = Vec::new();
    loop {
        match walker.action() {
            WalkAction::Done => break,
            WalkAction::Fetch(cursor) => {
                cursors.push(cursor);
                walker.absorb(endless_page(fetches));
                fetches += 1;
            }
        }
        assert!(fetches <= 1000);
    }
    assert_eq!(fetches, 10);
    assert_eq!(walker.pages_fetched(), 10);
    assert!(walker.is_finished());
    assert_eq!(cursors[0], None);
    assert_eq!(cursors[1], Some("cursor-1".to_string()));
    assert_eq!(cursors[9], Some("cursor-9".to_string()));
    let expected: Vec<usize> = (0..20).collect();
    assert_eq!(walker.into_items(), expected);
}

#[test]
fn crawl_stops_at_the_last_page() {
    let mut walker: CursorWalker<&str> = CursorWalker::new(PAGE_CAP);
    walker.absorb(Page { nodes: vec!["a", "b"], next_cursor: Some("c1".to_string()), has_more: true });
    assert!(!walker.is_finished());
    walker.absorb(Page { nodes: vec!["c"], next_cursor: Some("c2".to_string()), has_more: false });
    assert!(walker.is_finished());
    assert!(matches!(walker.action(), WalkAction::Done));
    walker.absorb(Page { nodes: vec!["late"], next_cursor: None, has_more: true });
    assert_eq!(walker.pages_fetched(), 2);
    assert_eq!(walker.into_items(), vec!["a", "b", "c"]);
}

#[test]
fn crawl_with_no_pages_allowed_fetches_nothing() {
    let walker: CursorWalker<u8> = CursorWalker::new(0);
    assert!(walker.is_finished());
    assert!(matches!(walker.action(), WalkAction::Done));
    assert!(walker.into_items().is_empty());
}

#[test]
fn crawl_starts_over_where_a_page_names_no_cursor() {
    let mut walker: CursorWalker<u8> = CursorWalker::new(3);
    walker.absorb(Page { nodes: vec![1], next_cursor: Some("x".to_string()), has_more: true });
    walker.absorb(Page { nodes: vec![2], next_cursor: None, has_more: true });
    match walker.action() {
        WalkAction::Fetch(cursor) => assert_eq!(cursor, None),
        WalkAction::Done => panic!("the crawl is not over"),
    }
    walker.absorb(Page { nodes: vec![3], next_cursor: Some("z".to_string()), has_more: true });
    assert!(walker.is_finished());
    assert_eq!(walker.into_items(), vec![1, 2, 3]);
}

fn open_node(n: usize) -> OpenIssueNode {
    OpenIssueNode {
        title: format!("title {}", n),
        url: format!("https://github.com/o/r/issues/{}", n),
        body: Some("body".to_string()),
        author: None,
    }
}

#[test]
fn open_issue_page_follows_the_page_information() {
    let response = GraphQlResponse {
        data: Some(Data {
            search: Some(Search {
                nodes: Some(vec![open_node(1), open_node(2)]),
                page_info: Some(PageInfo { end_cursor: Some("abc".to_string()), has_next_page: true }),
            }),
        }),
    };
    let page = open_issues_page(response, &None);
    assert_eq!(page.nodes.len(), 2);
    assert_eq!(
        page.nodes[0],
        IssueOpen {
            issue_title: "title 1".to_string(),
            issue_id: "https://github.com/o/r/issues/1".to_string(),
            issue_description: "body".to_string(),
            project_id: "https://github.com/o/r".to_string(),
        }
    );
    assert_eq!(page.next_cursor, Some("abc".to_string()));
    assert!(page.has_more);
}

#[test]
fn answer_without_data_asks_for_the_same_page_again() {
    let response: GraphQlResponse<OpenIssueNode> = GraphQlResponse { data: None };
    let page = open_issues_page(response, &Some("here".to_string()));
    assert!(page.nodes.is_empty());
    assert_eq!(page.next_cursor, Some("here".to_string()));
    assert!(page.has_more);

    let response: GraphQlResponse<OpenIssueNode> = GraphQlResponse {
        data: Some(Data { search: Some(Search { nodes: Some(vec![open_node(7)]), page_info: None }) }),
    };
    let page = open_issues_page(response, &Some("here".to_string()));
    assert_eq!(page.nodes.len(), 1);
    assert_eq!(page.next_cursor, Some("here".to_string()));
    assert!(page.has_more);
}

#[test]
fn last_page_reports_no_more() {
    let response: GraphQlResponse<OpenIssueNode> = GraphQlResponse {
        data: Some(Data {
            search: Some(Search {
                nodes: None,
                page_info: Some(PageInfo { end_cursor: None, has_next_page: false }),
            }),
        }),
    };
    let page = open_issues_page(response, &Some("here".to_string()));
    assert!(page.nodes.is_empty());
    assert!(!page.has_more);
}

#[test]
fn pull_request_page_without_nodes_ignores_the_page_information() {
    let response: GraphQlResponse<PullNode> = GraphQlResponse {
        data: Some(Data {
            search: Some(Search {
                nodes: None,
                page_info: Some(PageInfo { end_cursor: Some("next".to_string()), has_next_page: false }),
            }),
        }),
    };
    let page = pull_requests_page(response, &Some("here".to_string()));
    assert!(page.nodes.is_empty());
    assert_eq!(page.next_cursor, Some("here".to_string()));
    assert!(page.has_more);
}

#[test]
fn failed_fetch_ends_the_crawl_with_nothing() {
    let mut walker: CursorWalker<u8> = CursorWalker::new(PAGE_CAP);
    let first: Result<Page<u8>, String> =
        Ok(Page { nodes: vec![1, 2], next_cursor: Some("x".to_string()), has_more: true });
    assert_eq!(walker.take(first), Ok(()));
    assert!(!walker.is_finished());
    assert_eq!(walker.take(Err("timeout".to_string())), Err("timeout".to_string()));
    assert!(walker.is_finished());
    assert!(matches!(walker.action(), WalkAction::Done));
    assert_eq!(walker.pages_fetched(), 1);
    assert!(walker.into_items().is_empty());
}
