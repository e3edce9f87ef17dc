use crate::json::{
    json_text_of_rows, json_text_of_string, row_views, rows_to_json, string_pair_views,
    string_to_json, string_views,
};
use crate::text::opt_view;
use vstd::prelude::*;

verus! {

/// The model that answers the questions put to the chat endpoint.
pub const DEEP_MODEL: &'static str = "meta-llama/Meta-Llama-3-8B-Instruct";

/// What the chat endpoint tells the model before the question.
pub const DEEP_SYSTEM_PROMPT: &'static str = "you're an AI assistant";

/// How many tokens an answer of the chat endpoint may take.
pub const DEEP_ANSWER_TOKENS: u16 = 100;

/// The body of an answer that reports an error, up to the cause.
pub const ERROR_HEAD: &'static str = r#"{"error":"#;

/// The body of an answer that reports an error, after the cause.
pub const ERROR_TAIL: &'static str = "}";

/// What no route answers with.
pub const NO_ROUTE: &'static str = "No route matched";

/// What a route answers with to a method it does not take.
pub const WRONG_METHOD: &'static str = "Method not allowed";

#[derive(Clone, Copy, Debug, PartialEq, Eq, Structural)]
pub enum Method {
    Get,
    Post,
}

/// What the control surface can be asked to do.
#[derive(Clone, Copy, Debug, PartialEq, Eq, Structural)]
pub enum Endpoint {
    /// Run one cycle of the crawl.
    Run,
    /// Put a question to the chat service.
    Deep,
    /// Hand out the comments of an issue.
    Comment,
    /// Search a collection, or report on one.
    Vector,
    /// Create a collection.
    VectorCreate,
    /// Delete a collection.
    VectorDelete,
}

#[derive(Clone, Debug, PartialEq, Eq)]
pub struct Route {
    pub path: String,
    pub method: Method,
    pub endpoint: Endpoint,
}

impl View for Route {
    type V = (Seq<char>, Method, Endpoint);

    open spec fn view(&self) -> (Seq<char>, Method, Endpoint) {
        (self.path@, self.method, self.endpoint)
    }
}

/// Why no endpoint was reached.
#[derive(Clone, Copy, Debug, PartialEq, Eq, Structural)]
pub enum RouteFailure {
    NotFound,
    MethodNotAllowed,
}

/// What goes back to whoever asked.
#[derive(Clone, Debug, PartialEq, Eq)]
pub struct Response {
    pub status: u16,
    pub headers: Vec<(String, String)>,
    pub body: String,
}

pub struct ResponseView {
    pub status: u16,
    pub headers: Seq<(Seq<char>, Seq<char>)>,
    pub body: Seq<char>,
}

impl View for Response {
    type V = ResponseView;

    open spec fn view(&self) -> ResponseView {
        ResponseView {
            status: self.status,
            headers: string_pair_views(self.headers@),
            body: self.body@,
        }
    }
}

/// What the vector endpoint is to do for one request.
#[derive(Clone, Debug, PartialEq, Eq)]
pub enum VectorTask {
    /// Search the default collection for this text.
    Search(String),
    /// Report on the collection of this name.
    Report(String),
}

pub enum VectorTaskView {
    Search(Seq<char>),
    Report(Seq<char>),
}

impl View for VectorTask {
    type V = VectorTaskView;

    open spec fn view(&self) -> VectorTaskView {
        match self {
            VectorTask::Search(text) => VectorTaskView::Search(text@),
            VectorTask::Report(name) => VectorTaskView::Report(name@),
        }
    }
}

/// The routes of the control surface.
pub open spec fn route_table() -> Seq<(Seq<char>, Method, Endpoint)> {
    seq![
        ("/run"@, Method::Get, Endpoint::Run),
        ("/deep"@, Method::Post, Endpoint::Deep),
        ("/comment"@, Method::Post, Endpoint::Comment),
        ("/vector"@, Method::Post, Endpoint::Vector),
        ("/vector/create"@, Method::Post, Endpoint::VectorCreate),
        ("/vector/delete"@, Method::Post, Endpoint::VectorDelete),
    ]
}

/// The headers of an answer in JSON.
pub open spec fn json_headers() -> Seq<(Seq<char>, Seq<char>)> {
    seq![("content-type"@, "application/json"@), ("Access-Control-Allow-Origin"@, "*"@)]
}

/// The answer that carries `body` as JSON.
pub open spec fn json_answer(body: Seq<char>) -> ResponseView {
    ResponseView { status: 200, headers: json_headers(), body }
}

pub open spec fn failure_answer(failure: RouteFailure) -> ResponseView {
    match failure {
        RouteFailure::NotFound => ResponseView {
            status: 404,
            headers: Seq::empty(),
            body: NO_ROUTE@,
        },
        RouteFailure::MethodNotAllowed => ResponseView {
            status: 405,
            headers: Seq::empty(),
            body: WRONG_METHOD@,
        },
    }
}

/// The answer to a request whose body could not be read: the status of a
/// bad request, with the cause as the one member of a JSON object.
pub open spec fn bad_request_answer(cause: Seq<char>) -> ResponseView {
    ResponseView {
        status: 400,
        headers: json_headers(),
        body: ERROR_HEAD@ + json_text_of_string(cause) + ERROR_TAIL@,
    }
}

/// What a request to the vector endpoint asks for: a search where it holds
/// a text, then a report where it names a collection.
pub open spec fn vector_tasks(text: Option<Seq<char>>, collection_name: Option<Seq<char>>) -> Seq<
    VectorTaskView,
> {
    (match text {
        Some(t) => seq![VectorTaskView::Search(t)],
        None => Seq::empty(),
    }) + (match collection_name {
        Some(n) => seq![VectorTaskView::Report(n)],
        None => Seq::empty(),
    })
}

fn route(path: &str, method: Method, endpoint: Endpoint) -> (r: Route)
    ensures
        r@ == (path@, method, endpoint),
{
    Route { path: path.to_owned(), method, endpoint }
}

/// The routes of the control surface.
pub fn routes() -> (table: Vec<Route>)
    ensures
        table@.map_values(|r: Route| r@) == route_table(),
{
    let mut table: Vec<Route> = Vec::new();
    table.push(route("/run", Method::Get, Endpoint::Run));
    table.push(route("/deep", Method::Post, Endpoint::Deep));
    table.push(route("/comment", Method::Post, Endpoint::Comment));
    table.push(route("/vector", Method::Post, Endpoint::Vector));
    table.push(route("/vector/create", Method::Post, Endpoint::VectorCreate));
    table.push(route("/vector/delete", Method::Post, Endpoint::VectorDelete));
    proof {
        assert(table@.map_values(|r: Route| r@) == route_table());
    }
    table
}

/// The answer to a request that reached no endpoint.
pub fn route_failure_response(failure: RouteFailure) -> (response: Response)
    ensures
        response@ == failure_answer(failure),
{
    let headers: Vec<(String, String)> = Vec::new();
    proof {
        assert(string_pair_views(headers@) == Seq::<(Seq<char>, Seq<char>)>::empty());
    }
    match failure {
        RouteFailure::NotFound => Response { status: 404, headers, body: NO_ROUTE.to_owned() },
        RouteFailure::MethodNotAllowed => Response {
            status: 405,
            headers,
            body: WRONG_METHOD.to_owned(),
        },
    }
}

/// The answer that carries `body`, which is JSON already.
pub fn json_response(body: String) -> (response: Response)
    ensures
        response@ == json_answer(body@),
{
    let mut headers: Vec<(String, String)> = Vec::new();
    headers.push(("content-type".to_owned(), "application/json".to_owned()));
    headers.push(("Access-Control-Allow-Origin".to_owned(), "*".to_owned()));
    proof {
        assert(string_pair_views(headers@) == json_headers());
    }
    Response { status: 200, headers, body }
}

/// The answer to a request whose body could not be read.
pub fn bad_request_response(cause: &str) -> (response: Response)
    ensures
        response@ == bad_request_answer(cause@),
{
    let mut headers: Vec<(String, String)> = Vec::new();
    headers.push(("content-type".to_owned(), "application/json".to_owned()));
    headers.push(("Access-Control-Allow-Origin".to_owned(), "*".to_owned()));
    proof {
        assert(string_pair_views(headers@) == json_headers());
    }
    let mut body = ERROR_HEAD.to_owned();
    let quoted = string_to_json(cause);
    body.append(quoted.as_str());
    body.append(ERROR_TAIL);
    Response { status: 400, headers, body }
}

/// The answer that carries one text.
pub fn text_response(text: &str) -> (response: Response)
    ensures
        response@ == json_answer(json_text_of_string(text@)),
{
    json_response(string_to_json(text))
}

/// The results of a search as rows: each result is a row of its id and
/// its text.
pub open spec fn result_rows(results: Seq<(Seq<char>, Seq<char>)>) -> Seq<Seq<Seq<char>>> {
    results.map_values(|r: (Seq<char>, Seq<char>)| seq![r.0, r.1])
}

/// The comments of an issue as rows: each comment is a row of who wrote
/// it, when, and what.
pub open spec fn comment_rows(comments: Seq<(String, String, String)>) -> Seq<Seq<Seq<char>>> {
    comments.map_values(|c: (String, String, String)| seq![c.0@, c.1@, c.2@])
}

/// The answer that carries the results of a search.
pub fn results_response(results: &Vec<(String, String)>) -> (response: Response)
    ensures
        response@ == json_answer(json_text_of_rows(result_rows(string_pair_views(results@)))),
{
    let mut rows: Vec<Vec<String>> = Vec::new();
    let mut i: usize = 0;
    while i < results.len()
        invariant
            i <= results.len(),
            row_views(rows@) == result_rows(string_pair_views(results@.take(i as int))),
        decreases results.len() - i,
    {
        let ghost before = rows@;
        let mut row: Vec<String> = Vec::new();
        row.push(results[i].0.clone());
        row.push(results[i].1.clone());
        proof {
            assert(string_views(row@) == seq![results@[i as int].0@, results@[i as int].1@]);
        }
        rows.push(row);
        proof {
            assert(row_views(rows@) == row_views(before).push(string_views(row@)));
            assert(result_rows(string_pair_views(results@.take(i + 1))) == result_rows(
                string_pair_views(results@.take(i as int)),
            ).push(seq![results@[i as int].0@, results@[i as int].1@]));
        }
        i += 1;
    }
    proof {
        assert(results@.take(i as int) == results@);
    }
    json_response(rows_to_json(rows))
}

/// The answer that carries the comments of an issue.
pub fn comments_response(comments: &Vec<(String, String, String)>) -> (response: Response)
    ensures
        response@ == json_answer(json_text_of_rows(comment_rows(comments@))),
{
    let mut rows: Vec<Vec<String>> = Vec::new();
    let mut i: usize = 0;
    while i < comments.len()
        invariant
            i <= comments.len(),
            row_views(rows@) == comment_rows(comments@.take(i as int)),
        decreases comments.len() - i,
    {
        let ghost before = rows@;
        let mut row: Vec<String> = Vec::new();
        row.push(comments[i].0.clone());
        row.push(comments[i].1.clone());
        row.push(comments[i].2.clone());
        proof {
            assert(string_views(row@) == seq![
                comments@[i as int].0@,
                comments@[i as int].1@,
                comments@[i as int].2@,
            ]);
        }
        rows.push(row);
        proof {
            assert(row_views(rows@) == row_views(before).push(string_views(row@)));
            assert(comment_rows(comments@.take(i + 1)) == comment_rows(
                comments@.take(i as int),
            ).push(
                seq![comments@[i as int].0@, comments@[i as int].1@, comments@[i as int].2@],
            ));
        }
        i += 1;
    }
    proof {
        assert(comments@.take(i as int) == comments@);
    }
    json_response(rows_to_json(rows))
}

/// What a request to the vector endpoint asks for.
pub fn plan_vector_tasks(text: Option<String>, collection_name: Option<String>) -> (tasks: Vec<
    VectorTask,
>)
    ensures
        tasks@.map_values(|t: VectorTask| t@) == vector_tasks(
            opt_view(text),
            opt_view(collection_name),
        ),
{
    let mut tasks: Vec<VectorTask> = Vec::new();
    match text {
        Some(t) => {
            tasks.push(VectorTask::Search(t));
        },
        None => {},
    }
    match collection_name {
        Some(n) => {
            tasks.push(VectorTask::Report(n));
        },
        None => {},
    }
    proof {
        assert(tasks@.map_values(|t: VectorTask| t@) == vector_tasks(
            opt_view(text),
            opt_view(collection_name),
        ));
    }
    tasks
}

} // verus!
