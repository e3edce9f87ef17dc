use gosim_project::db_populate::{
    assignment_statement, body_to_send, closed_issue_statement, comment_statement,
    description_to_store, exists_outcome, exists_statement, mark_indexed_statement,
    open_issue_statement, owner_and_repo_of, plan_issue_summary, plan_project_summary,
    project_upsert_statement, pull_request_statement, summary_statement, write_outcome,
    IssueComment, Param, SqlValue, StoreError, Table, WriteKind, ISSUE_LONG_PROMPT,
    ISSUE_SHORT_PROMPT, MARK_INDEXED_SQL, PENDING_INDEX_SQL, PROJECT_LONG_PROMPT,
    PROJECT_SHORT_PROMPT, PROJECT_UPSERT_SQL, SUMMARY_UPSERT_SQL, UNSUMMARIZED_ISSUES_SQL,
};
use gosim_project::issue_tracker::{IssueAssigned, IssueClosed, IssueOpen, OuterPull, RepoData};

fn issue_with_body(body: String) -> IssueOpen {
    IssueOpen {
        issue_title: "Crash on start".to_string(),
        issue_id: "https://github.com/acme/tool/issues/7".to_string(),
        issue_description: body,
        project_id: "https://github.com/acme/tool".to_string(),
    }
}

#[test]
fn body_of_199_characters_is_summarized_as_short() {
    let body = "x".repeat(199);
    let request = plan_issue_summary(&issue_with_body(body.clone())).unwrap();
    assert_eq!(request.system_prompt, ISSUE_SHORT_PROMPT);
    assert_eq!(request.max_tokens, 180);
    assert_eq!(
        request.user_prompt,
        format!(
            "Here is the input: `Crash on start` at repository `tool` by owner `acme`, states: {}",
            body
        )
    );
}

#[test]
fn body_of_200_characters_is_summarized_as_long() {
    let body = "ü".repeat(200);
    let request = plan_issue_summary(&issue_with_body(body.clone())).unwrap();
    assert_eq!(request.system_prompt, ISSUE_LONG_PROMPT);
    assert_eq!(request.max_tokens, 250);
    assert_eq!(
        request.user_prompt,
        format!(
            "Here is the input: The issue titled `Crash on start` at repository `tool` by owner `acme`, states in the body text: {}",
            body
        )
    );
}

#[test]
fn body_of_5000_characters_is_cut_to_4000() {
    let body = "ab".repeat(2500);
    assert_eq!(body_to_send(&body), "ab".repeat(2000));
    let request = plan_issue_summary(&issue_with_body(body)).unwrap();
    assert_eq!(request.system_prompt, ISSUE_LONG_PROMPT);
    assert!(request.user_prompt.ends_with(&format!("states in the body text: {}", "ab".repeat(2000))));
    assert_eq!(body_to_send("short"), "short");
    assert_eq!(body_to_send(&"y".repeat(4000)).chars().count(), 4000);
}

#[test]
fn summary_needs_an_owner_and_a_repository() {
    assert_eq!(
        owner_and_repo_of("https://github.com/acme/tool/issues/7"),
        Some(("acme".to_string(), "tool".to_string()))
    );
    assert_eq!(
        owner_and_repo_of("https://github.com/acme/tool"),
        Some(("acme".to_string(), "tool".to_string()))
    );
    assert_eq!(owner_and_repo_of("https://github.com/acme"), None);
    let mut issue = issue_with_body("b".to_string());
    issue.issue_id = "no address".to_string();
    assert_eq!(plan_issue_summary(&issue), None);
}

fn repo(description: &str, readme: &str) -> RepoData {
    RepoData {
        project_id: "https://github.com/acme/tool".to_string(),
        repo_description: description.to_string(),
        repo_readme: readme.to_string(),
        repo_stars: 12,
        project_logo: "logo.png".to_string(),
    }
}

#[test]
fn project_with_a_short_readme_gets_the_short_prompt() {
    let request = plan_project_summary(&repo("A tool", "Read me"), "Rust").unwrap();
    assert_eq!(request.system_prompt, PROJECT_SHORT_PROMPT);
    assert_eq!(request.max_tokens, 180);
    assert_eq!(
        request.user_prompt,
        "Here is the input: The repository `tool` by owner `acme` mainly uses `Rust` in the project,`A tool`, states in readme: Read me"
    );
    let request = plan_project_summary(&repo("", ""), "").unwrap();
    assert_eq!(
        request.user_prompt,
        "Here is the input: The repository `tool` by owner `acme` ,``, "
    );
}

#[test]
fn project_with_a_long_readme_gets_the_long_prompt() {
    let readme = "r".repeat(4500);
    let request = plan_project_summary(&repo("A tool", &readme), "").unwrap();
    assert_eq!(request.system_prompt, PROJECT_LONG_PROMPT);
    assert_eq!(request.max_tokens, 250);
    assert_eq!(
        request.user_prompt,
        format!(
            "Here is the input: The repository `tool`  by owner `acme` , has a short text description: `A tool`, mentioned more details in readme: `{}`",
            "r".repeat(4000)
        )
    );
}

fn text(name: &str, value: &str) -> Param {
    Param { name: name.to_string(), value: SqlValue::Text(value.to_string()) }
}

fn null(name: &str) -> Param {
    Param { name: name.to_string(), value: SqlValue::Null }
}

#[test]
fn stored_description_falls_back_to_the_readme() {
    assert_eq!(description_to_store(&repo("own", "readme")), "own");
    assert_eq!(description_to_store(&repo("", &"é".repeat(1200))), "é".repeat(1000));
    assert_eq!(description_to_store(&repo("", "brief")), "brief");
    assert_eq!(description_to_store(&repo("", "")), "No description available");
}

#[test]
fn project_statement_binds_the_project() {
    let statement = project_upsert_statement(&repo("", ""), "Go");
    assert_eq!(statement.sql, PROJECT_UPSERT_SQL);
    assert!(statement.sql.contains("ON DUPLICATE KEY UPDATE"));
    assert_eq!(
        statement.params,
        vec![
            text("project_id", "https://github.com/acme/tool"),
            text("project_logo", "logo.png"),
            text("main_language", "Go"),
            Param { name: "repo_stars".to_string(), value: SqlValue::Int(12) },
            text("project_description", "No description available"),
        ]
    );
}

#[test]
fn issue_statements_bind_the_issue() {
    let statement = open_issue_statement(&issue_with_body("body".to_string()));
    assert!(statement.sql.starts_with("INSERT INTO issues_open"));
    assert_eq!(
        statement.params,
        vec![
            text("issue_id", "https://github.com/acme/tool/issues/7"),
            text("project_id", "https://github.com/acme/tool"),
            text("issue_title", "Crash on start"),
            null("issue_creator"),
            null("issue_budget"),
            text("issue_description", "body"),
        ]
    );
    let closed = IssueClosed {
        issue_id: "i".to_string(),
        issue_assignees: Some(vec!["Ann \"A\"".to_string(), "Bob".to_string()]),
        issue_linked_pr: None,
    };
    assert_eq!(
        closed_issue_statement(&closed).params,
        vec![text("issue_id", "i"), text("issue_assignees", r#"["Ann \"A\"","Bob"]"#), null("issue_linked_pr")]
    );
    let closed = IssueClosed {
        issue_id: "i".to_string(),
        issue_assignees: None,
        issue_linked_pr: Some("pr".to_string()),
    };
    assert_eq!(
        closed_issue_statement(&closed).params,
        vec![text("issue_id", "i"), text("issue_assignees", "null"), text("issue_linked_pr", "pr")]
    );
    let assigned = IssueAssigned {
        issue_id: "i".to_string(),
        issue_assignee: String::new(),
        date_assigned: "2024-01-01 00:00:00".to_string(),
    };
    assert_eq!(
        assignment_statement(&assigned).params,
        vec![text("issue_id", "i"), null("issue_assignee"), text("date_assigned", "2024-01-01 00:00:00")]
    );
    let assigned = IssueAssigned { issue_assignee: "ann".to_string(), ..assigned };
    assert_eq!(assignment_statement(&assigned).params[1], text("issue_assignee", "ann"));
}

#[test]
fn other_statements_bind_their_records() {
    let comment = IssueComment {
        issue_id: "i".to_string(),
        comment_creator: "c".to_string(),
        comment_date: "d".to_string(),
        comment_body: "b".to_string(),
    };
    let statement = comment_statement(&comment);
    assert!(statement.sql.contains("WHERE NOT EXISTS"));
    assert_eq!(
        statement.params,
        vec![text("issue_id", "i"), text("comment_creator", "c"), text("comment_date", "d"), text("comment_body", "b")]
    );
    let pull = OuterPull {
        pull_id: "p".to_string(),
        pull_title: "t".to_string(),
        pull_author: None,
        project_id: "pr".to_string(),
        merged_at: "m".to_string(),
    };
    assert_eq!(
        pull_request_statement(&pull).params,
        vec![text("pull_id", "p"), text("pull_title", "t"), null("pull_author"), text("project_id", "pr"), text("date_merged", "m")]
    );
    let statement = mark_indexed_statement("e");
    assert_eq!(statement.sql, MARK_INDEXED_SQL);
    assert_eq!(statement.params, vec![text("issue_or_project_id", "e")]);
    let statement = summary_statement("e", "s", &vec!["k1".to_string(), "k\\2".to_string()]);
    assert_eq!(statement.sql, SUMMARY_UPSERT_SQL);
    assert_eq!(
        statement.params,
        vec![
            text("issue_or_project_id", "e"),
            text("issue_or_project_summary", "s"),
            text("keyword_tags_json_str", r#"["k1","k\\2"]"#),
        ]
    );
    assert!(PENDING_INDEX_SQL.ends_with("WHERE indexed=0 limit 50"));
    assert!(UNSUMMARIZED_ISSUES_SQL.ends_with("limit 50"));
}

#[test]
fn questions_for_an_id_name_the_table() {
    let statement = exists_statement(Table::Projects, "it's");
    assert_eq!(statement.sql, "SELECT 1 FROM projects WHERE project_id = :id");
    assert_eq!(statement.params, vec![text("id", "it's")]);
    assert_eq!(
        exists_statement(Table::Issues, "i").sql,
        "SELECT 1 FROM issues WHERE issue_id = :id"
    );
    assert_eq!(
        exists_statement(Table::PullRequests, "q").sql,
        "SELECT 1 FROM pull_requests WHERE pull_id = :id"
    );
    assert_eq!(exists_outcome(Some(Some(1))), Ok(true));
    assert_eq!(exists_outcome(Some(None)), Err(StoreError::NotFound));
    assert_eq!(exists_outcome(None), Err(StoreError::Unavailable));
}

#[test]
fn write_failures_are_handed_on_or_passed_over() {
    for kind in [WriteKind::Comment, WriteKind::Summary, WriteKind::Other] {
        assert_eq!(write_outcome(kind, None), Ok(()));
    }
    assert_eq!(write_outcome(WriteKind::Other, Some(Some(1064))), Ok(()));
    assert_eq!(write_outcome(WriteKind::Other, Some(None)), Ok(()));
    assert_eq!(write_outcome(WriteKind::Summary, Some(Some(1062))), Err(StoreError::WriteFailed));
    assert_eq!(write_outcome(WriteKind::Summary, Some(None)), Err(StoreError::WriteFailed));
    assert_eq!(write_outcome(WriteKind::Comment, Some(Some(1062))), Ok(()));
    assert_eq!(write_outcome(WriteKind::Comment, Some(Some(1451))), Err(StoreError::WriteFailed));
    assert_eq!(write_outcome(WriteKind::Comment, Some(Some(23000))), Err(StoreError::WriteFailed));
    assert_eq!(write_outcome(WriteKind::Comment, Some(None)), Err(StoreError::WriteFailed));
}
