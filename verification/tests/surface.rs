use gosim_project::endpoints::{
    bad_request_response, comments_response, json_response, plan_vector_tasks, results_response,
    route_failure_response, routes, text_response, Endpoint, Method, RouteFailure, VectorTask,
};
use gosim_project::vector_search::{
    plan_point, question_embedding, report_collection, upload_outcome, PointPlan, SearchError,
    UploadError,
};

#[test]
fn control_surface_has_six_routes() {
    let table = routes();
    let seen: Vec<(String, Method, Endpoint)> =
        table.into_iter().map(|r| (r.path, r.method, r.endpoint)).collect();
    assert_eq!(
        seen,
        vec![
            ("/run".to_string(), Method::Get, Endpoint::Run),
            ("/deep".to_string(), Method::Post, Endpoint::Deep),
            ("/comment".to_string(), Method::Post, Endpoint::Comment),
            ("/vector".to_string(), Method::Post, Endpoint::Vector),
            ("/vector/create".to_string(), Method::Post, Endpoint::VectorCreate),
            ("/vector/delete".to_string(), Method::Post, Endpoint::VectorDelete),
        ]
    );
}

#[test]
fn answers_carry_json() {
    let response = json_response("[1]".to_string());
    assert_eq!(response.status, 200);
    assert_eq!(response.body, "[1]");
    assert_eq!(
        response.headers,
        vec![
            ("content-type".to_string(), "application/json".to_string()),
            ("Access-Control-Allow-Origin".to_string(), "*".to_string()),
        ]
    );
    assert_eq!(text_response("a \"b\"").body, r#""a \"b\"""#);
    let results = vec![("id1".to_string(), "text \"1\"".to_string()), ("id2".to_string(), "t".to_string())];
    assert_eq!(results_response(&results).body, r#"[["id1","text \"1\""],["id2","t"]]"#);
    assert_eq!(results_response(&vec![]).body, "[]");
    let comments = vec![("ann".to_string(), "2024-01-01 00:00:00".to_string(), "hi\n".to_string())];
    let response = comments_response(&comments);
    assert_eq!(response.status, 200);
    assert_eq!(response.body, r#"[["ann","2024-01-01 00:00:00","hi\n"]]"#);
}

#[test]
fn requests_that_reach_no_endpoint_are_told_why() {
    let response = route_failure_response(RouteFailure::NotFound);
    assert_eq!((response.status, response.body.as_str()), (404, "No route matched"));
    assert!(response.headers.is_empty());
    let response = route_failure_response(RouteFailure::MethodNotAllowed);
    assert_eq!((response.status, response.body.as_str()), (405, "Method not allowed"));
}

#[test]
fn vector_request_searches_then_reports() {
    assert_eq!(
        plan_vector_tasks(Some("query".to_string()), Some("coll".to_string())),
        vec![VectorTask::Search("query".to_string()), VectorTask::Report("coll".to_string())]
    );
    assert_eq!(plan_vector_tasks(None, Some("coll".to_string())), vec![VectorTask::Report("coll".to_string())]);
    assert!(plan_vector_tasks(None, None).is_empty());
}

#[test]
fn point_gets_the_count_of_the_index_as_its_id() {
    assert_eq!(
        plan_point(Ok(17), "entity", "content"),
        Ok(PointPlan { id: 17, entity_id: "entity".to_string(), text: "content".to_string() })
    );
    assert_eq!(
        plan_point(Err("timeout".to_string()), "entity", "content"),
        Err(UploadError::NoCount(
            "Cannot get collection, can not init points_count: timeout".to_string()
        ))
    );
}

#[test]
fn upload_succeeds_only_with_embedding_and_point() {
    assert_eq!(upload_outcome(None, None), Ok(()));
    assert_eq!(
        upload_outcome(None, Some("index down".to_string())),
        Err(UploadError::NoUpsert("Cannot upsert into database! index down".to_string()))
    );
    assert_eq!(
        upload_outcome(Some("quota".to_string()), None),
        Err(UploadError::NoEmbedding("OpenAI returned an error: quota".to_string()))
    );
    assert_eq!(
        upload_outcome(Some("quota".to_string()), Some("index down".to_string())),
        Err(UploadError::NoEmbedding("OpenAI returned an error: quota".to_string()))
    );
}

#[test]
fn question_needs_an_embedding() {
    assert_eq!(question_embedding(Some(1)), Ok(()));
    assert_eq!(question_embedding(Some(0)), Err(SearchError::NoEmbedding));
    assert_eq!(question_embedding(None), Err(SearchError::NoEmbedding));
}

#[test]
fn collection_report_names_the_count_or_the_cause() {
    assert_eq!(report_collection("c", &Ok(1536)), "The collection now has 1536 records in total.");
    assert_eq!(
        report_collection("c", &Err("gone".to_string())),
        "Cannot get collection: c Error: gone"
    );
}

#[test]
fn unreadable_body_is_a_bad_request() {
    let response = bad_request_response("expected value at line 1 column 1: \"x\"");
    assert_eq!(response.status, 400);
    assert_eq!(response.headers[0], ("content-type".to_string(), "application/json".to_string()));
    assert_eq!(response.body, r#"{"error":"expected value at line 1 column 1: \"x\""}"#);
}
