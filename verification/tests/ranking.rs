use gosim_project::vector_search::{
    classify_intent, hybrid_search, is_issue_id, rank_hybrid, rank_plain, Candidate, Intent,
};

fn candidate(score: f32, entity_id: &str, text: &str) -> Candidate {
    Candidate { score: score.to_bits(), entity_id: entity_id.to_string(), text: text.to_string() }
}

fn issue_id(n: usize) -> String {
    format!("https://github.com/owner/repo/issues/{}", n)
}

fn project_id(n: usize) -> String {
    format!("https://github.com/owner/repo{}", n)
}

fn ids(results: &[(String, String)]) -> Vec<String> {
    results.iter().map(|r| r.0.clone()).collect()
}

#[test]
fn issue_ids_have_seven_segments() {
    assert!(is_issue_id("https://github.com/owner/repo/issues/12"));
    assert!(!is_issue_id("https://github.com/owner/repo"));
    assert!(!is_issue_id("https://github.com/owner/repo/issues/12/extra"));
    assert!(!is_issue_id(""));
    assert!(is_issue_id("//////"));
}

#[test]
fn intent_is_read_from_whole_words() {
    assert_eq!(
        classify_intent("open issue about crash").unwrap(),
        Intent { wants_project: false, wants_issue: true }
    );
    assert_eq!(
        classify_intent("a PROJECT with an Issue").unwrap(),
        Intent { wants_project: true, wants_issue: true }
    );
    assert_eq!(
        classify_intent("projects and issues").unwrap(),
        Intent { wants_project: false, wants_issue: false }
    );
    assert_eq!(
        classify_intent("something broken").unwrap(),
        Intent { wants_project: false, wants_issue: false }
    );
}

#[test]
fn issue_question_gets_the_five_best_issues() {
    let issue_scores = [0.95f32, 0.91, 0.88, 0.85, 0.80, 0.77];
    let mut pool = Vec::new();
    for n in 0..6 {
        pool.push(candidate(0.99, &project_id(n), "project"));
    }
    for (n, s) in issue_scores.iter().enumerate() {
        pool.push(candidate(*s, &issue_id(n), "issue"));
    }
    let results = hybrid_search("open issue about crash", pool).unwrap();
    assert_eq!(
        ids(&results),
        vec![issue_id(0), issue_id(1), issue_id(2), issue_id(3), issue_id(4)]
    );
}

#[test]
fn question_without_intent_falls_back_to_projects_then_issues() {
    let pool = vec![
        candidate(0.80, &issue_id(0), "issue 0"),
        candidate(0.90, &issue_id(1), "issue 1"),
        candidate(0.78, &project_id(0), "project 0"),
        candidate(0.76, &issue_id(2), "issue 2"),
        candidate(0.70, &project_id(1), "project 1"),
        candidate(0.85, &issue_id(3), "issue 3"),
        candidate(0.82, &project_id(2), "project 2"),
        candidate(0.75, &issue_id(4), "issue 4"),
    ];
    let results = hybrid_search("something broken", pool).unwrap();
    assert_eq!(
        results,
        vec![
            (project_id(2), "project 2".to_string()),
            (project_id(0), "project 0".to_string()),
            (issue_id(1), "issue 1".to_string()),
            (issue_id(3), "issue 3".to_string()),
            (issue_id(0), "issue 0".to_string()),
        ]
    );
}

#[test]
fn hybrid_results_never_exceed_five_nor_reach_the_threshold() {
    let mut pool = Vec::new();
    for n in 0..4 {
        pool.push(candidate(0.75, &project_id(n), "at the threshold"));
    }
    pool.push(candidate(f32::NAN, &project_id(9), "not a number"));
    pool.push(candidate(-0.9, &issue_id(9), "negative"));
    for n in 0..4 {
        pool.push(candidate(0.9, &project_id(10 + n), "a project"));
        pool.push(candidate(0.8, &issue_id(10 + n), "an issue"));
    }
    let both = Intent { wants_project: true, wants_issue: true };
    let results = rank_hybrid(both, pool);
    assert_eq!(
        ids(&results),
        vec![project_id(10), project_id(11), project_id(12), project_id(13), issue_id(10)]
    );
}

#[test]
fn equal_scores_keep_the_order_of_the_index() {
    let pool = vec![
        candidate(0.9, &project_id(1), "first"),
        candidate(0.9, &project_id(2), "second"),
        candidate(0.95, &project_id(3), "best"),
    ];
    let none = Intent { wants_project: false, wants_issue: false };
    assert_eq!(ids(&rank_hybrid(none, pool)), vec![project_id(3), project_id(1), project_id(2)]);
}

#[test]
fn plain_search_keeps_scores_above_its_threshold_in_order() {
    let pool = vec![
        candidate(0.80, "a", "ta"),
        candidate(0.79, "b", "tb"),
        candidate(0.95, "c", "tc"),
        candidate(0.78, "d", "td"),
        candidate(f32::INFINITY, "e", "te"),
        candidate(f32::NAN, "f", "tf"),
    ];
    assert_eq!(
        rank_plain(pool),
        vec![
            ("a".to_string(), "ta".to_string()),
            ("c".to_string(), "tc".to_string()),
            ("e".to_string(), "te".to_string()),
        ]
    );
}
