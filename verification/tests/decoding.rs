use gosim_project::decode::{
    decode_assigned_issues, decode_closed_issues, decode_open_issues, decode_participants,
    decode_pull_requests, decode_rate_limit, decode_repositories,
};
use gosim_project::issue_tracker::{
    closed_issues_page, open_issues_page, repos_from_response, IssueClosed, Login, OpenIssueNode,
    PageInfo, RateLimit, RepoData,
};
use gosim_project::json::JsonError;

#[test]
fn open_issues_are_decoded_with_their_page_information() {
    let text = r#"{"data": {"search": {"issueCount": 2,
        "nodes": [
            {"title": "First", "url": "https://github.com/o/r/issues/1", "body": "b", "author": {"login": "ann"}},
            {"title": "Second", "url": "https://github.com/o/r/issues/2", "body": null, "author": null}
        ],
        "pageInfo": {"endCursor": "abc", "hasNextPage": true}}}}"#;
    let response = decode_open_issues(text).unwrap();
    let search = response.data.clone().unwrap().search.unwrap();
    assert_eq!(
        search.nodes.unwrap(),
        vec![
            OpenIssueNode {
                title: "First".to_string(),
                url: "https://github.com/o/r/issues/1".to_string(),
                body: Some("b".to_string()),
                author: Some(Login { login: Some("ann".to_string()) }),
            },
            OpenIssueNode {
                title: "Second".to_string(),
                url: "https://github.com/o/r/issues/2".to_string(),
                body: None,
                author: None,
            },
        ]
    );
    assert_eq!(
        search.page_info,
        Some(PageInfo { end_cursor: Some("abc".to_string()), has_next_page: true })
    );
    let page = open_issues_page(response, &None);
    assert_eq!(page.nodes.len(), 2);
    assert_eq!(page.nodes[1].project_id, "https://github.com/o/r");
    assert_eq!(page.next_cursor, Some("abc".to_string()));
}

#[test]
fn malformed_members_count_as_absent() {
    let text = r#"{"data": {"search": {
        "nodes": [
            {"title": 7, "url": "u", "body": ["not", "text"], "author": "ann"},
            "not a node",
            {"title": "ok", "url": "v", "author": {"login": 3}}
        ],
        "pageInfo": {"endCursor": 5, "hasNextPage": false}}}}"#;
    let search = decode_open_issues(text).unwrap().data.unwrap().search.unwrap();
    assert_eq!(
        search.nodes.unwrap(),
        vec![
            OpenIssueNode { title: String::new(), url: "u".to_string(), body: None, author: None },
            OpenIssueNode { title: String::new(), url: String::new(), body: None, author: None },
            OpenIssueNode {
                title: "ok".to_string(),
                url: "v".to_string(),
                body: None,
                author: Some(Login { login: None }),
            },
        ]
    );
    assert_eq!(search.page_info, Some(PageInfo { end_cursor: None, has_next_page: false }));
}

#[test]
fn malformed_frame_counts_as_absent() {
    assert!(decode_open_issues("{}").unwrap().data.is_none());
    assert!(decode_open_issues(r#"{"data": "x"}"#).unwrap().data.is_none());
    assert!(decode_open_issues(r#"[1]"#).unwrap().data.is_none());
    let data = decode_open_issues(r#"{"data": {"search": 1}}"#).unwrap().data.unwrap();
    assert!(data.search.is_none());
    let search = decode_open_issues(r#"{"data": {"search": {"nodes": {}, "pageInfo": {"endCursor": "c"}}}}"#)
        .unwrap()
        .data
        .unwrap()
        .search
        .unwrap();
    assert!(search.nodes.is_none());
    assert!(search.page_info.is_none());
}

#[test]
fn only_text_that_is_no_json_fails() {
    assert_eq!(decode_open_issues("not json").err(), Some(JsonError::Malformed));
    assert_eq!(decode_repositories("").err(), Some(JsonError::Malformed));
    assert_eq!(decode_rate_limit("{").err(), Some(JsonError::Malformed));
    assert!(decode_pull_requests("null").is_ok());
    assert!(decode_assigned_issues("3").is_ok());
    assert!(decode_participants("\"x\"").is_ok());
}

#[test]
fn repositories_are_decoded_with_their_stars() {
    let text = r#"{"data": {"search": {"nodes": [
        {"url": "https://github.com/o/r", "description": "d", "stargazers": {"totalCount": 1234},
         "owner": {"avatarUrl": "logo"}, "readme": {"text": "read me"}},
        {"url": "https://github.com/o/s", "stargazers": {"totalCount": 1.5}, "owner": [], "readme": null},
        {"url": "https://github.com/o/t", "stargazers": {"totalCount": -9223372036854775808}},
        {"url": "https://github.com/o/u", "stargazers": {"totalCount": 9223372036854775808}}
    ]}}}"#;
    let repos = repos_from_response(&decode_repositories(text).unwrap());
    assert_eq!(
        repos[0],
        RepoData {
            project_id: "https://github.com/o/r".to_string(),
            repo_description: "d".to_string(),
            repo_readme: "read me".to_string(),
            repo_stars: 1234,
            project_logo: "logo".to_string(),
        }
    );
    assert_eq!(repos[1].repo_stars, 0);
    assert_eq!(repos[1].project_logo, "");
    assert_eq!(repos[2].repo_stars, i64::MIN);
    assert_eq!(repos[3].repo_stars, 0);
}

#[test]
fn closed_issues_are_decoded_through_their_sub_objects() {
    let text = r#"{"data": {"search": {"nodes": [
        {"url": "i1", "assignees": {"nodes": [{"name": "Ann"}, {"name": null}, 4]},
         "timelineItems": {"nodes": [{"stateReason": "COMPLETED", "closer": {"url": "pr1", "title": "t", "author": {"login": "bob"}}}]}},
        {"url": "i2", "assignees": "nobody", "timelineItems": {"nodes": "none"}},
        {"assignees": {"nodes": []}}
    ], "pageInfo": {"hasNextPage": false}}}}"#;
    let page = closed_issues_page(decode_closed_issues(text).unwrap(), &None);
    assert_eq!(
        page.nodes,
        vec![
            IssueClosed {
                issue_id: "i1".to_string(),
                issue_assignees: Some(vec!["Ann".to_string()]),
                issue_linked_pr: Some("pr1".to_string()),
            },
            IssueClosed { issue_id: "i2".to_string(), issue_assignees: None, issue_linked_pr: None },
        ]
    );
    assert!(!page.has_more);
}

#[test]
fn events_and_participants_are_decoded() {
    let text = r#"{"data": {"search": {"nodes": [
        {"url": "i1", "timelineItems": {"nodes": [{"assignee": {"login": "ann"}, "createdAt": "2024-05-06T07:08:09Z"}, {}]}}
    ]}}}"#;
    let nodes = decode_assigned_issues(text).unwrap().data.unwrap().search.unwrap().nodes.unwrap();
    let events = nodes[0].timeline_items.clone().unwrap().nodes.unwrap();
    assert_eq!(events.len(), 2);
    assert_eq!(events[0].assignee, Some(Login { login: Some("ann".to_string()) }));
    assert_eq!(events[0].created_at, Some("2024-05-06T07:08:09Z".to_string()));
    assert_eq!(events[1].assignee, None);

    let text = r#"{"data": {"search": {"nodes": [
        {"participants": {"totalCount": 1, "nodes": [{"login": "ann", "avatarUrl": "a", "email": ""}]}}
    ]}}}"#;
    let nodes = decode_participants(text).unwrap().data.unwrap().search.unwrap().nodes.unwrap();
    let people = nodes[0].participants.clone().unwrap().nodes.unwrap();
    assert_eq!(people[0].login, Some("ann".to_string()));
    assert_eq!(people[0].email, Some(String::new()));

    let text = r#"{"data": {"search": {"nodes": [
        {"title": "t", "url": "https://github.com/o/r/pull/3", "mergedAt": "2024-01-02T03:04:05Z", "author": {"login": "dev"}}
    ]}}}"#;
    let nodes = decode_pull_requests(text).unwrap().data.unwrap().search.unwrap().nodes.unwrap();
    assert_eq!(nodes[0].merged_at, Some("2024-01-02T03:04:05Z".to_string()));
}

#[test]
fn rate_limit_needs_its_three_numbers() {
    let text = r#"{"data": {"rateLimit": {"limit": 5000, "remaining": 4999, "used": 1, "resetAt": "x"}}}"#;
    assert_eq!(
        decode_rate_limit(text),
        Ok(Some(RateLimit { limit: 5000, remaining: 4999, used: 1 }))
    );
    assert_eq!(decode_rate_limit(r#"{"data": {"rateLimit": {"limit": 5000, "used": 1}}}"#), Ok(None));
    assert_eq!(
        decode_rate_limit(r#"{"data": {"rateLimit": {"limit": 2147483648, "remaining": 1, "used": 1}}}"#),
        Ok(None)
    );
    assert_eq!(
        decode_rate_limit(r#"{"data": {"rateLimit": {"limit": -2147483648, "remaining": 0, "used": 0}}}"#),
        Ok(Some(RateLimit { limit: i32::MIN, remaining: 0, used: 0 }))
    );
    assert_eq!(decode_rate_limit(r#"{"data": null}"#), Ok(None));
}
