use crate::json::{json_text_of_string, string_to_json};
use crate::json::string_pair_views;
use crate::text::{decimal, decimal_text, escape_quotes, escape_quotes_in, opt_view};
use vstd::utf8::encode_utf8;
use vstd::prelude::*;

verus! {

/// Where the graph of the platform is queried.
pub const GRAPHQL_ENDPOINT: &'static str = "https://api.github.com/graphql";

/// What a search is after.
#[derive(Clone, Copy, Debug, PartialEq, Eq, Structural)]
pub enum SearchKind {
    Repositories,
    AssignedIssues,
    OpenIssues,
    ClosedIssues,
    PullRequests,
    Participants,
}

/// The query for repositories, up to the search terms.
pub const REPOSITORIES_HEAD: &'static str = r#"
            query {
                search(query: ""#;

/// The query for repositories, after the search terms.
pub const REPOSITORIES_TAIL: &'static str = r#"", type: REPOSITORY, first: 100) {
                    repositoryCount
                    nodes {
                        ... on Repository {
                            url
                            description
                            stargazers {
                                totalCount
                            }
                            owner {
                                avatarUrl
                            }
                            readme: object(expression: "HEAD:README.md") {
                                ... on Blob {
                                    text
                                }
                            }
                        }
                    }
                }
            }
        "#;

/// The query for the issues that were assigned, up to the search terms.
pub const ASSIGNED_ISSUES_HEAD: &'static str = r#"
                query {
                    search(query: ""#;

/// The query for the issues that were assigned, between the search terms and the cursor.
pub const ASSIGNED_ISSUES_MIDDLE: &'static str = r#"", type: ISSUE, first: 100, after: "#;

/// The query for the issues that were assigned, after the cursor.
pub const ASSIGNED_ISSUES_TAIL: &'static str = r#") {
                        issueCount
                        nodes {
                            ... on Issue {
                                url
                                timelineItems(first: 1, itemTypes: [ASSIGNED_EVENT]) {
                                    nodes {
                                      ... on AssignedEvent {
                                        assignee {
                                          ... on User {
                                            login
                                          }
                                        }
                                        createdAt
                                      }
                                    }
                                }   
                            }
                        }
                        pageInfo {
                            endCursor
                            hasNextPage
                        }
                    }
                }
                "#;

/// The query for the open issues, up to the search terms.
pub const OPEN_ISSUES_HEAD: &'static str = r#"
            query {
                search(query: ""#;

/// The query for the open issues, between the search terms and the cursor.
pub const OPEN_ISSUES_MIDDLE: &'static str = r#"", type: ISSUE, first: 100, after: "#;

/// The query for the open issues, after the cursor.
pub const OPEN_ISSUES_TAIL: &'static str = r#") {
                    issueCount
                    nodes {
                        ... on Issue {
                            title
                            url
                            body
                            author {
                                login
                            }
                        }
                    }
                    pageInfo {
                        endCursor
                        hasNextPage
                    }
                }
            }
            "#;

/// The query for the closed issues, up to the search terms.
pub const CLOSED_ISSUES_HEAD: &'static str = r#"
            query {
                search(query: ""#;

/// The query for the closed issues, between the search terms and the cursor.
pub const CLOSED_ISSUES_MIDDLE: &'static str = r#"", type: ISSUE, first: 100, after: "#;

/// The query for the closed issues, after the cursor.
pub const CLOSED_ISSUES_TAIL: &'static str = r#") {
                    issueCount
                    nodes {
                        ... on Issue {
                            url
                            labels(first: 10) {
                                nodes {
                                    name
                                }
                            }
                            assignees(first: 5) {
                                nodes {
                                    name
                                }
                            }
                            timelineItems(first: 1, itemTypes: [CLOSED_EVENT]) {
                                nodes {
                                    ... on ClosedEvent {
                                        stateReason
                                        closer {
                                            ... on PullRequest {
                                                title
                                                url
                                                author {
                                                    login
                                                }
                                            }
                                        }
                                    }
                                }
                            }
                        }
                    }
                    pageInfo {
                        endCursor
                        hasNextPage
                    }
                }
            }
            "#;

/// The query for the pull requests, up to the search terms.
pub const PULL_REQUESTS_HEAD: &'static str = r#"
            query {
                search(query: ""#;

/// The query for the pull requests, between the search terms and the cursor.
pub const PULL_REQUESTS_MIDDLE: &'static str = r#"", type: ISSUE, first: 100, after: "#;

/// The query for the pull requests, after the cursor.
pub const PULL_REQUESTS_TAIL: &'static str = r#") {
                    issueCount
                    nodes {
                        ... on PullRequest {
                            title
                            url
                            author {
                                login
                            }
                            labels(first: 10) {
                                nodes {
                                    name
                                }
                            }
                            reviews(first: 5, states: [APPROVED]) {
                                nodes {
                                    author {
                                        login
                                    }
                                    state
                                }
                            }
                            mergedAt
                        }
                    }
                    pageInfo {
                        endCursor
                        hasNextPage
                    }
                }
            }
            "#;

/// The query for the participants of issues, up to the search terms.
pub const PARTICIPANTS_HEAD: &'static str = r#"
            query {
                search(query: ""#;

/// The query for the participants of issues, between the search terms and the cursor.
pub const PARTICIPANTS_MIDDLE: &'static str = r#"", type: ISSUE, first: 100, after: "#;

/// The query for the participants of issues, after the cursor.
pub const PARTICIPANTS_TAIL: &'static str = r#") {
                    issueCount
                    nodes {
                        ... on Issue {
                            participants(first: 10) {
                                totalCount
                                nodes {
                                    login
                                    avatarUrl
                                    email
                                }
                            }
                        }
                    }
                    pageInfo {
                        endCursor
                        hasNextPage
                    }
                }
            }
            "#;

/// The query for the rate limit.
pub const RATE_LIMIT_QUERY: &'static str = r#"
        query {
            rateLimit {
                limit
                remaining
                used
                resetAt
            }
        }
    "#;

/// The word that asks for the first page.
pub const NO_CURSOR: &'static str = "null";

/// How a cursor is written into a query: in double quotes, or as `null`
/// where there is none.
pub open spec fn cursor_argument(cursor: Option<Seq<char>>) -> Seq<char> {
    match cursor {
        Some(c) => seq!['"'] + c + seq!['"'],
        None => NO_CURSOR@,
    }
}

/// Whether the search terms go into the query with their double quotes
/// escaped.
pub open spec fn escapes_terms(kind: SearchKind) -> bool {
    !(kind is PullRequests) && !(kind is Participants)
}

pub open spec fn head_of(kind: SearchKind) -> Seq<char> {
    match kind {
        SearchKind::Repositories => REPOSITORIES_HEAD@,
        SearchKind::AssignedIssues => ASSIGNED_ISSUES_HEAD@,
        SearchKind::OpenIssues => OPEN_ISSUES_HEAD@,
        SearchKind::ClosedIssues => CLOSED_ISSUES_HEAD@,
        SearchKind::PullRequests => PULL_REQUESTS_HEAD@,
        SearchKind::Participants => PARTICIPANTS_HEAD@,
    }
}

pub open spec fn tail_of(kind: SearchKind) -> Seq<char> {
    match kind {
        SearchKind::Repositories => REPOSITORIES_TAIL@,
        SearchKind::AssignedIssues => ASSIGNED_ISSUES_TAIL@,
        SearchKind::OpenIssues => OPEN_ISSUES_TAIL@,
        SearchKind::ClosedIssues => CLOSED_ISSUES_TAIL@,
        SearchKind::PullRequests => PULL_REQUESTS_TAIL@,
        SearchKind::Participants => PARTICIPANTS_TAIL@,
    }
}

/// What stands between the search terms and the tail: for a search in
/// pages, the middle of its query and the cursor.
pub open spec fn paging_of(kind: SearchKind, cursor: Option<Seq<char>>) -> Seq<char> {
    match kind {
        SearchKind::Repositories => Seq::empty(),
        SearchKind::AssignedIssues => ASSIGNED_ISSUES_MIDDLE@ + cursor_argument(cursor),
        SearchKind::OpenIssues => OPEN_ISSUES_MIDDLE@ + cursor_argument(cursor),
        SearchKind::ClosedIssues => CLOSED_ISSUES_MIDDLE@ + cursor_argument(cursor),
        SearchKind::PullRequests => PULL_REQUESTS_MIDDLE@ + cursor_argument(cursor),
        SearchKind::Participants => PARTICIPANTS_MIDDLE@ + cursor_argument(cursor),
    }
}

/// The text of the query for one page of a search.
pub open spec fn query_text(kind: SearchKind, terms: Seq<char>, cursor: Option<Seq<char>>) -> Seq<
    char,
> {
    head_of(kind) + (if escapes_terms(kind) {
        escape_quotes(terms)
    } else {
        terms
    }) + paging_of(kind, cursor) + tail_of(kind)
}

/// The body of the request that carries a query: an object with the query
/// as its one member.
pub open spec fn request_body(query: Seq<char>) -> Seq<char> {
    BODY_HEAD@ + json_text_of_string(query) + BODY_TAIL@
}

/// The body of a request up to the query.
pub const BODY_HEAD: &'static str = r#"{"query":"#;

/// The body of a request after the query.
pub const BODY_TAIL: &'static str = "}";

pub fn cursor_argument_of(cursor: &Option<String>) -> (out: String)
    ensures
        out@ == cursor_argument(opt_view(*cursor)),
{
    match cursor {
        Some(c) => {
            let mut out = String::new();
            out.push('"');
            out.append(c.as_str());
            out.push('"');
            proof {
                assert(out@ == seq!['"'] + c@ + seq!['"']);
            }
            out
        },
        None => NO_CURSOR.to_owned(),
    }
}

fn head_text(kind: SearchKind) -> (out: &'static str)
    ensures
        out@ == head_of(kind),
{
    match kind {
        SearchKind::Repositories => REPOSITORIES_HEAD,
        SearchKind::AssignedIssues => ASSIGNED_ISSUES_HEAD,
        SearchKind::OpenIssues => OPEN_ISSUES_HEAD,
        SearchKind::ClosedIssues => CLOSED_ISSUES_HEAD,
        SearchKind::PullRequests => PULL_REQUESTS_HEAD,
        SearchKind::Participants => PARTICIPANTS_HEAD,
    }
}

fn tail_text(kind: SearchKind) -> (out: &'static str)
    ensures
        out@ == tail_of(kind),
{
    match kind {
        SearchKind::Repositories => REPOSITORIES_TAIL,
        SearchKind::AssignedIssues => ASSIGNED_ISSUES_TAIL,
        SearchKind::OpenIssues => OPEN_ISSUES_TAIL,
        SearchKind::ClosedIssues => CLOSED_ISSUES_TAIL,
        SearchKind::PullRequests => PULL_REQUESTS_TAIL,
        SearchKind::Participants => PARTICIPANTS_TAIL,
    }
}

fn middle_text(kind: SearchKind) -> (out: Option<&'static str>)
    ensures
        match out {
            Some(middle) => forall|c: Option<Seq<char>>|
                #[trigger] paging_of(kind, c) == middle@ + cursor_argument(c),
            None => forall|c: Option<Seq<char>>|
                #[trigger] paging_of(kind, c) == Seq::<char>::empty(),
        },
{
    match kind {
        SearchKind::Repositories => None,
        SearchKind::AssignedIssues => Some(ASSIGNED_ISSUES_MIDDLE),
        SearchKind::OpenIssues => Some(OPEN_ISSUES_MIDDLE),
        SearchKind::ClosedIssues => Some(CLOSED_ISSUES_MIDDLE),
        SearchKind::PullRequests => Some(PULL_REQUESTS_MIDDLE),
        SearchKind::Participants => Some(PARTICIPANTS_MIDDLE),
    }
}

/// Writes the query for one page of a search.
pub fn search_query(kind: SearchKind, terms: &str, cursor: &Option<String>) -> (out: String)
    ensures
        out@ == query_text(kind, terms@, opt_view(*cursor)),
{
    let mut out = head_text(kind).to_owned();
    match kind {
        SearchKind::PullRequests | SearchKind::Participants => {
            out.append(terms);
        },
        _ => {
            let escaped = escape_quotes_in(terms);
            out.append(escaped.as_str());
        },
    }
    match middle_text(kind) {
        Some(middle) => {
            out.append(middle);
            let argument = cursor_argument_of(cursor);
            out.append(argument.as_str());
            proof {
                assert(out@ == head_of(kind) + (if escapes_terms(kind) {
                    escape_quotes(terms@)
                } else {
                    terms@
                }) + (middle@ + cursor_argument(opt_view(*cursor))));
            }
        },
        None => {
            proof {
                assert(out@ == out@ + Seq::<char>::empty());
            }
        },
    }
    out.append(tail_text(kind));
    out
}

/// Writes the body of the request that carries `query`.
pub fn request_body_of(query: &str) -> (out: String)
    ensures
        out@ == request_body(query@),
{
    let mut out = BODY_HEAD.to_owned();
    let quoted = string_to_json(query);
    out.append(quoted.as_str());
    out.append(BODY_TAIL);
    out
}

#[derive(Clone, Copy, Debug, PartialEq, Eq, Structural)]
pub enum HttpMethod {
    Get,
    Post,
}

/// Why a request to the platform failed, as far as its answer says.
#[derive(Clone, Copy, Debug, PartialEq, Eq, Structural)]
pub enum HttpError {
    /// The platform answered with a status that is no success.
    Status(u16),
}

/// A request to the platform, ready to be sent.
#[derive(Clone, Debug, PartialEq, Eq)]
pub struct HttpPlan {
    pub method: HttpMethod,
    pub url: String,
    pub headers: Vec<(String, String)>,
    pub body: Option<String>,
}

pub struct HttpPlanView {
    pub method: HttpMethod,
    pub url: Seq<char>,
    pub headers: Seq<(Seq<char>, Seq<char>)>,
    pub body: Option<Seq<char>>,
}

impl View for HttpPlan {
    type V = HttpPlanView;

    open spec fn view(&self) -> HttpPlanView {
        HttpPlanView {
            method: self.method,
            url: self.url@,
            headers: string_pair_views(self.headers@),
            body: opt_view(self.body),
        }
    }
}

/// How a request names who sends it.
pub const USER_AGENT: &'static str = "flows-network connector";

pub open spec fn bearer(token: Seq<char>) -> Seq<char> {
    "Bearer "@ + token
}

/// The length of a body in bytes, as far as the machine counts, in decimal
/// digits.
pub open spec fn content_length(body: Seq<char>) -> Seq<char> {
    decimal((encode_utf8(body).len() as usize) as nat)
}

pub open spec fn get_plan(url: Seq<char>, token: Seq<char>) -> HttpPlanView {
    HttpPlanView {
        method: HttpMethod::Get,
        url,
        headers: seq![
            ("User-Agent"@, USER_AGENT@),
            ("Content-Type"@, "application/json"@),
            ("Authorization"@, bearer(token)),
            ("CONNECTION"@, "close"@),
        ],
        body: None,
    }
}

pub open spec fn post_plan(url: Seq<char>, body: Seq<char>, token: Seq<char>) -> HttpPlanView {
    HttpPlanView {
        method: HttpMethod::Post,
        url,
        headers: seq![
            ("User-Agent"@, USER_AGENT@),
            ("Content-Type"@, "application/json"@),
            ("Accept"@, "application/json"@),
            ("Authorization"@, bearer(token)),
            ("Content-Length"@, content_length(body)),
        ],
        body: Some(body),
    }
}

pub open spec fn graphql_plan(query: Seq<char>, token: Seq<char>) -> HttpPlanView {
    HttpPlanView {
        method: HttpMethod::Post,
        url: GRAPHQL_ENDPOINT@,
        headers: seq![
            ("User-Agent"@, USER_AGENT@),
            ("Content-Type"@, "application/json"@),
            ("Authorization"@, bearer(token)),
            ("Content-Length"@, content_length(request_body(query))),
        ],
        body: Some(request_body(query)),
    }
}

fn header(name: &str, value: &str) -> (h: (String, String))
    ensures
        h.0@ == name@,
        h.1@ == value@,
{
    (name.to_owned(), value.to_owned())
}

fn bearer_of(token: &str) -> (out: String)
    ensures
        out@ == bearer(token@),
{
    let mut out = "Bearer ".to_owned();
    out.append(token);
    out
}

fn content_length_of(body: &str) -> (out: String)
    ensures
        out@ == content_length(body@),
{
    decimal_text(body.len() as u64)
}

/// Plans a request that reads from the platform.
pub fn plan_get(url: &str, token: &str) -> (plan: HttpPlan)
    ensures
        plan@ == get_plan(url@, token@),
{
    let authorization = bearer_of(token);
    let mut headers: Vec<(String, String)> = Vec::new();
    headers.push(header("User-Agent", USER_AGENT));
    headers.push(header("Content-Type", "application/json"));
    headers.push(header("Authorization", authorization.as_str()));
    headers.push(header("CONNECTION", "close"));
    proof {
        assert(string_pair_views(headers@) == get_plan(url@, token@).headers);
    }
    HttpPlan { method: HttpMethod::Get, url: url.to_owned(), headers, body: None }
}

/// Plans a request that posts `body` to the platform.
pub fn plan_post(url: &str, body: &str, token: &str) -> (plan: HttpPlan)
    ensures
        plan@ == post_plan(url@, body@, token@),
{
    let authorization = bearer_of(token);
    let length = content_length_of(body);
    let mut headers: Vec<(String, String)> = Vec::new();
    headers.push(header("User-Agent", USER_AGENT));
    headers.push(header("Content-Type", "application/json"));
    headers.push(header("Accept", "application/json"));
    headers.push(header("Authorization", authorization.as_str()));
    headers.push(header("Content-Length", length.as_str()));
    proof {
        assert(string_pair_views(headers@) == post_plan(url@, body@, token@).headers);
    }
    HttpPlan { method: HttpMethod::Post, url: url.to_owned(), headers, body: Some(body.to_owned()) }
}

/// Plans the request that carries a query to the graph of the platform.
pub fn plan_graphql(query: &str, token: &str) -> (plan: HttpPlan)
    ensures
        plan@ == graphql_plan(query@, token@),
{
    let body = request_body_of(query);
    let authorization = bearer_of(token);
    let length = content_length_of(body.as_str());
    let mut headers: Vec<(String, String)> = Vec::new();
    headers.push(header("User-Agent", USER_AGENT));
    headers.push(header("Content-Type", "application/json"));
    headers.push(header("Authorization", authorization.as_str()));
    headers.push(header("Content-Length", length.as_str()));
    proof {
        assert(string_pair_views(headers@) == graphql_plan(query@, token@).headers);
    }
    HttpPlan {
        method: HttpMethod::Post,
        url: GRAPHQL_ENDPOINT.to_owned(),
        headers,
        body: Some(body),
    }
}

/// What the status of an answer comes to: a status from 200 to 299 is a
/// success, any other an error.
pub fn status_outcome(status: u16) -> (r: Result<(), HttpError>)
    ensures
        r == if 200 <= status < 300 {
            Ok::<(), HttpError>(())
        } else {
            Err::<(), HttpError>(HttpError::Status(status))
        },
{
    if 200 <= status && status < 300 {
        Ok(())
    } else {
        Err(HttpError::Status(status))
    }
}

} // verus!
