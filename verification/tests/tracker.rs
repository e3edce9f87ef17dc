use gosim_project::issue_tracker::{
    assignments_from_nodes, closed_issues_from_nodes, convert_datetime, datetime_or_empty,
    open_issue_from_node, participants_from_nodes, project_id_of, pull_from_node,
    remaining_requests, repos_from_response, AssignedEvent, AssignedIssueNode, AssignedTimeline,
    ClosedEvent, ClosedIssueNode, ClosedTimeline, Closer, Data, GraphQlResponse, IssueAssigned,
    IssueClosed, Login, Named, NamedNodes, OpenIssueNode, OuterPull, Owner, Participant,
    ParticipantNode, Participants, ParticipantsIssueNode, PullNode, RateLimit, Readme, RepoData,
    RepoNode, Search, Stargazers, TrackerError,
};
use gosim_project::queries::{
    cursor_argument_of, plan_get, plan_graphql, plan_post, request_body_of, search_query,
    status_outcome, HttpError, HttpMethod, SearchKind, RATE_LIMIT_QUERY,
};
use gosim_project::text::{decimal_text, escape_quotes_in, parent_of, take_chars};

#[test]
fn moments_are_rewritten_for_the_store() {
    assert_eq!(convert_datetime("2024-03-05T07:08:09Z").unwrap(), "2024-03-05 07:08:09");
    assert_eq!(convert_datetime("2024-03-05T07:08:09+02:00").unwrap(), "2024-03-05 05:08:09");
    assert!(convert_datetime("").is_err());
    assert!(convert_datetime("yesterday").is_err());
    assert_eq!(datetime_or_empty("2023-12-31T23:59:59Z"), "2023-12-31 23:59:59");
    assert_eq!(datetime_or_empty("no moment"), "");
}

#[test]
fn project_is_the_address_without_its_last_two_parts() {
    assert_eq!(
        project_id_of("https://github.com/owner/repo/issues/12", "fallback"),
        "https://github.com/owner/repo"
    );
    assert_eq!(project_id_of("a/b/c", "fallback"), "a");
    assert_eq!(project_id_of("/x/", "fallback"), "");
    assert_eq!(project_id_of("a/b", "fallback"), "fallback");
    assert_eq!(project_id_of("", "fallback"), "fallback");
    assert_eq!(parent_of("one/two"), None);
    assert_eq!(parent_of("ä/ö/ü/ß"), Some("ä/ö".to_string()));
}

#[test]
fn open_issue_takes_the_beginning_of_its_body() {
    let body: String = "é".repeat(300);
    let node = OpenIssueNode {
        title: "T".to_string(),
        url: "https://github.com/o/r/issues/1".to_string(),
        body: Some(body),
        author: Some(Login { login: Some("someone".to_string()) }),
    };
    let issue = open_issue_from_node(&node);
    assert_eq!(issue.issue_title, "T");
    assert_eq!(issue.issue_id, "https://github.com/o/r/issues/1");
    assert_eq!(issue.issue_description, "é".repeat(240));
    assert_eq!(issue.project_id, "https://github.com/o/r");

    let bare = OpenIssueNode { title: String::new(), url: "x".to_string(), body: None, author: None };
    let issue = open_issue_from_node(&bare);
    assert_eq!(issue.issue_description, "");
    assert_eq!(issue.project_id, "wrong_project_id");
}

#[test]
fn pull_request_is_read_off_its_node() {
    let node = PullNode {
        title: Some("Fix it".to_string()),
        url: Some("https://github.com/o/r/pull/9".to_string()),
        author: Some(Login { login: Some("dev".to_string()) }),
        merged_at: Some("2024-01-02T03:04:05Z".to_string()),
    };
    assert_eq!(
        pull_from_node(&node),
        OuterPull {
            pull_id: "https://github.com/o/r/pull/9".to_string(),
            pull_title: "Fix it".to_string(),
            pull_author: Some("dev".to_string()),
            project_id: "https://github.com/o/r".to_string(),
            merged_at: "2024-01-02 03:04:05".to_string(),
        }
    );
    assert_eq!(
        pull_from_node(&PullNode::default()),
        OuterPull {
            pull_id: String::new(),
            pull_title: String::new(),
            pull_author: None,
            project_id: "unknown".to_string(),
            merged_at: String::new(),
        }
    );
}

#[test]
fn repositories_are_read_off_an_answer() {
    let full = RepoNode {
        url: "https://github.com/o/r".to_string(),
        description: Some("desc".to_string()),
        readme: Some(Readme { text: Some("readme".to_string()) }),
        stargazers: Some(Stargazers { total_count: Some(42) }),
        owner: Some(Owner { avatar_url: Some("logo".to_string()) }),
    };
    let bare = RepoNode {
        url: "u".to_string(),
        description: None,
        readme: Some(Readme { text: None }),
        stargazers: Some(Stargazers { total_count: None }),
        owner: None,
    };
    let response = GraphQlResponse {
        data: Some(Data { search: Some(Search { nodes: Some(vec![full, bare]), page_info: None }) }),
    };
    assert_eq!(
        repos_from_response(&response),
        vec![
            RepoData {
                project_id: "https://github.com/o/r".to_string(),
                repo_description: "desc".to_string(),
                repo_readme: "readme".to_string(),
                repo_stars: 42,
                project_logo: "logo".to_string(),
            },
            RepoData {
                project_id: "u".to_string(),
                repo_description: String::new(),
                repo_readme: String::new(),
                repo_stars: 0,
                project_logo: String::new(),
            },
        ]
    );
    let empty: GraphQlResponse<RepoNode> = GraphQlResponse { data: Some(Data { search: None }) };
    assert!(repos_from_response(&empty).is_empty());
}

#[test]
fn assignments_come_event_by_event() {
    let nodes = vec![
        AssignedIssueNode {
            url: Some("issue-1".to_string()),
            timeline_items: Some(AssignedTimeline {
                nodes: Some(vec![
                    AssignedEvent {
                        assignee: Some(Login { login: Some("ann".to_string()) }),
                        created_at: Some("2024-05-06T07:08:09Z".to_string()),
                    },
                    AssignedEvent { assignee: Some(Login { login: None }), created_at: None },
                ]),
            }),
        },
        AssignedIssueNode { url: Some("issue-2".to_string()), timeline_items: None },
        AssignedIssueNode {
            url: None,
            timeline_items: Some(AssignedTimeline {
                nodes: Some(vec![AssignedEvent { assignee: None, created_at: Some("bad".to_string()) }]),
            }),
        },
    ];
    assert_eq!(
        assignments_from_nodes(&nodes),
        vec![
            IssueAssigned {
                issue_id: "issue-1".to_string(),
                issue_assignee: "ann".to_string(),
                date_assigned: "2024-05-06 07:08:09".to_string(),
            },
            IssueAssigned {
                issue_id: "issue-1".to_string(),
                issue_assignee: String::new(),
                date_assigned: String::new(),
            },
            IssueAssigned {
                issue_id: String::new(),
                issue_assignee: String::new(),
                date_assigned: String::new(),
            },
        ]
    );
}

#[test]
fn closed_issues_name_assignees_and_the_closing_pull_request() {
    let nodes = vec![
        ClosedIssueNode {
            url: Some("issue-1".to_string()),
            assignees: Some(NamedNodes {
                nodes: Some(vec![
                    Named { name: Some("Ann".to_string()) },
                    Named { name: None },
                    Named { name: Some("Bob".to_string()) },
                ]),
            }),
            timeline_items: Some(ClosedTimeline {
                nodes: Some(vec![
                    ClosedEvent {
                        state_reason: Some("COMPLETED".to_string()),
                        closer: Some(Closer {
                            title: Some("PR".to_string()),
                            url: Some("pull-1".to_string()),
                            author: None,
                        }),
                    },
                    ClosedEvent {
                        state_reason: None,
                        closer: Some(Closer { title: None, url: Some("pull-2".to_string()), author: None }),
                    },
                ]),
            }),
        },
        ClosedIssueNode { url: None, assignees: None, timeline_items: None },
        ClosedIssueNode {
            url: Some("issue-2".to_string()),
            assignees: Some(NamedNodes { nodes: Some(vec![Named { name: None }]) }),
            timeline_items: Some(ClosedTimeline {
                nodes: Some(vec![
                    ClosedEvent { state_reason: None, closer: None },
                    ClosedEvent {
                        state_reason: None,
                        closer: Some(Closer { title: None, url: Some("pull-3".to_string()), author: None }),
                    },
                ]),
            }),
        },
        ClosedIssueNode {
            url: Some("issue-3".to_string()),
            assignees: Some(NamedNodes { nodes: None }),
            timeline_items: Some(ClosedTimeline { nodes: Some(vec![]) }),
        },
    ];
    assert_eq!(
        closed_issues_from_nodes(&nodes),
        vec![
            IssueClosed {
                issue_id: "issue-1".to_string(),
                issue_assignees: Some(vec!["Ann".to_string(), "Bob".to_string()]),
                issue_linked_pr: Some("pull-1".to_string()),
            },
            IssueClosed { issue_id: "issue-2".to_string(), issue_assignees: None, issue_linked_pr: None },
            IssueClosed { issue_id: "issue-3".to_string(), issue_assignees: None, issue_linked_pr: None },
        ]
    );
}

#[test]
fn participants_come_issue_by_issue() {
    let nodes = vec![
        ParticipantsIssueNode { participants: None },
        ParticipantsIssueNode {
            participants: Some(Participants {
                nodes: Some(vec![
                    ParticipantNode {
                        login: Some("ann".to_string()),
                        avatar_url: Some("a.png".to_string()),
                        email: None,
                    },
                    ParticipantNode { login: None, avatar_url: None, email: Some("b@x.org".to_string()) },
                ]),
            }),
        },
    ];
    assert_eq!(
        participants_from_nodes(&nodes),
        vec![
            Participant { login: "ann".to_string(), avatar_url: "a.png".to_string(), email: String::new() },
            Participant { login: String::new(), avatar_url: String::new(), email: "b@x.org".to_string() },
        ]
    );
}

#[test]
fn rate_limit_must_be_stated() {
    assert_eq!(remaining_requests(Some(RateLimit { limit: 5000, remaining: 4321, used: 679 })), Ok(4321));
    assert_eq!(remaining_requests(None), Err(TrackerError::NoRateLimit));
}

#[test]
fn text_helpers_count_characters_not_bytes() {
    assert_eq!(take_chars("héllo", 2), "hé");
    assert_eq!(take_chars("héllo", 5), "héllo");
    assert_eq!(take_chars("héllo", 9), "héllo");
    assert_eq!(take_chars("héllo", 0), "");
    assert_eq!(escape_quotes_in(r#"say "hi" \ "#), r#"say \"hi\" \ "#);
    assert_eq!(decimal_text(0), "0");
    assert_eq!(decimal_text(7), "7");
    assert_eq!(decimal_text(1020), "1020");
    assert_eq!(decimal_text(u64::MAX), "18446744073709551615");
}

#[test]
fn cursor_is_written_in_quotes_or_as_null() {
    assert_eq!(cursor_argument_of(&None), "null");
    assert_eq!(cursor_argument_of(&Some("Y3Vyc29y".to_string())), "\"Y3Vyc29y\"");
}

#[test]
fn search_query_carries_terms_and_cursor() {
    let query = search_query(SearchKind::OpenIssues, "label:\"good first issue\" is:open", &None);
    assert!(query.contains(
        "search(query: \"label:\\\"good first issue\\\" is:open\", type: ISSUE, first: 100, after: null) {"
    ));
    assert!(query.contains("pageInfo {"));
    assert!(!query.contains("{{"));

    let query =
        search_query(SearchKind::PullRequests, "is:pr \"x\"", &Some("abc".to_string()));
    assert!(query.contains("search(query: \"is:pr \"x\"\", type: ISSUE, first: 100, after: \"abc\") {"));
    assert!(query.contains("mergedAt"));

    let query = search_query(SearchKind::Repositories, "repo:o/r", &Some("ignored".to_string()));
    assert!(query.contains("search(query: \"repo:o/r\", type: REPOSITORY, first: 100) {"));
    assert!(!query.contains("ignored"));
    assert!(RATE_LIMIT_QUERY.contains("rateLimit"));
}

#[test]
fn request_body_is_an_object_with_the_query() {
    assert_eq!(request_body_of("a \"b\"\n"), r#"{"query":"a \"b\"\n"}"#);
    let parsed: serde_json::Value = serde_json::from_str(&request_body_of("q { x }")).unwrap();
    assert_eq!(parsed["query"], "q { x }");
}

#[test]
fn requests_carry_their_headers() {
    let get = plan_get("https://api.github.com/x", "tok");
    assert_eq!(get.method, HttpMethod::Get);
    assert_eq!(get.body, None);
    assert_eq!(
        get.headers,
        vec![
            ("User-Agent".to_string(), "flows-network connector".to_string()),
            ("Content-Type".to_string(), "application/json".to_string()),
            ("Authorization".to_string(), "Bearer tok".to_string()),
            ("CONNECTION".to_string(), "close".to_string()),
        ]
    );
    let post = plan_post("https://api.github.com/y", "bödy", "tok");
    assert_eq!(post.method, HttpMethod::Post);
    assert_eq!(post.body, Some("bödy".to_string()));
    assert_eq!(post.headers[2], ("Accept".to_string(), "application/json".to_string()));
    assert_eq!(post.headers[4], ("Content-Length".to_string(), "5".to_string()));
    let gql = plan_graphql("q", "tok");
    assert_eq!(gql.url, "https://api.github.com/graphql");
    assert_eq!(gql.body, Some(r#"{"query":"q"}"#.to_string()));
    assert_eq!(gql.headers[3], ("Content-Length".to_string(), "13".to_string()));
}

#[test]
fn only_statuses_from_200_to_299_succeed() {
    assert_eq!(status_outcome(200), Ok(()));
    assert_eq!(status_outcome(299), Ok(()));
    assert_eq!(status_outcome(199), Err(HttpError::Status(199)));
    assert_eq!(status_outcome(300), Err(HttpError::Status(300)));
    assert_eq!(status_outcome(404), Err(HttpError::Status(404)));
}
