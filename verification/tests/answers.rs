use gosim_project::json::JsonError;
use gosim_project::llm_utils::{
    chat_reply, chat_request, extract_summary_from_answer, parse_issue_summary_from_json,
    parse_summary_and_keywords, ChainOfChat, ChainStep, ChatError, ChatMessage,
    LocalServiceProviderConfig, Role,
};

#[test]
fn single_line_answer_is_its_own_summary() {
    assert_eq!(extract_summary_from_answer("  just one line \n"), "just one line");
    assert_eq!(extract_summary_from_answer(""), "");
    assert_eq!(extract_summary_from_answer(" \n\t "), "");
}

#[test]
fn summary_is_the_first_filled_line_after_the_first() {
    assert_eq!(extract_summary_from_answer("Summary:\n\n  \nThe text.\nMore."), "The text.");
    assert_eq!(extract_summary_from_answer("Summary:\r\n  The text. \r\nMore."), "  The text. ");
    assert_eq!(extract_summary_from_answer("\n\nHeading\nbody\n\n"), "body");
    assert_eq!(extract_summary_from_answer("a\n\u{a0}\n\u{3000}b"), "\u{3000}b");
}

#[test]
fn summary_and_keywords_are_read_from_json() {
    let (summary, keywords) = parse_summary_and_keywords(
        r#"{ "summary": "A \"quoted\" summary.", "keywords": ["rust", "web\tassembly"] }"#,
    );
    assert_eq!(summary, "A \"quoted\" summary.");
    assert_eq!(keywords, vec!["rust".to_string(), "web\tassembly".to_string()]);

    let (summary, keywords) =
        parse_summary_and_keywords(r#"{"keywords": [], "extra": 1, "summary": ""}"#);
    assert_eq!(summary, "");
    assert!(keywords.is_empty());
}

#[test]
fn answer_that_is_no_such_json_gives_nothing() {
    let nothing = (String::new(), Vec::<String>::new());
    assert_eq!(parse_summary_and_keywords("not json at all"), nothing);
    assert_eq!(parse_summary_and_keywords(r#"{"summary": "only a summary"}"#), nothing);
    assert_eq!(parse_summary_and_keywords(r#"{"keywords": ["only", "keywords"]}"#), nothing);
    assert_eq!(parse_summary_and_keywords(r#"{"summary": 3, "keywords": ["a"]}"#), nothing);
    assert_eq!(parse_summary_and_keywords(r#"{"summary": "s", "keywords": ["a", 1]}"#), nothing);
    assert_eq!(parse_summary_and_keywords(r#"{"summary": "s", "keywords": "a"}"#), nothing);
    assert_eq!(parse_summary_and_keywords(r#"["summary", "keywords"]"#), nothing);
    assert_eq!(parse_summary_and_keywords(r#"{"summary": "s", "keywords": ["a"]} trailing"#), nothing);
}

#[test]
fn issue_summaries_are_the_string_members_of_an_object() {
    let pairs = parse_issue_summary_from_json(
        r#"{"b": "second", "a": "first", "n": 4, "l": ["x"], "o": {"k": "v"}, "z": null, "c": "third"}"#,
    )
    .unwrap();
    assert_eq!(
        pairs,
        vec![
            ("a".to_string(), "first".to_string()),
            ("b".to_string(), "second".to_string()),
            ("c".to_string(), "third".to_string()),
        ]
    );
    assert_eq!(parse_issue_summary_from_json("{}").unwrap(), vec![]);
}

#[test]
fn issue_summaries_need_a_json_object() {
    assert_eq!(parse_issue_summary_from_json("{"), Err(JsonError::Malformed));
    assert_eq!(parse_issue_summary_from_json(""), Err(JsonError::Malformed));
    assert_eq!(parse_issue_summary_from_json("[1, 2]"), Err(JsonError::NotAnObject));
    assert_eq!(parse_issue_summary_from_json("\"text\""), Err(JsonError::NotAnObject));
}

#[test]
fn chat_request_holds_the_system_and_the_user_message() {
    let request = chat_request("be brief", "what is this?", 100, "some-model");
    assert_eq!(request.model, "some-model");
    assert_eq!(request.max_tokens, 100);
    assert_eq!(
        request.messages,
        vec![
            ChatMessage { role: Role::System, content: "be brief".to_string() },
            ChatMessage { role: Role::User, content: "what is this?".to_string() },
        ]
    );
}

#[test]
fn chat_without_text_is_an_error() {
    assert_eq!(chat_reply(Some("answer".to_string())), Ok("answer".to_string()));
    assert_eq!(chat_reply(None), Err(ChatError::NoReply));
}

fn chain() -> ChainOfChat {
    ChainOfChat {
        model: "m".to_string(),
        system_prompt: "sys".to_string(),
        first_prompt: "one".to_string(),
        first_tokens: 11,
        second_prompt: "two".to_string(),
        second_tokens: 22,
        error_tag: "tag".to_string(),
    }
}

#[test]
fn chain_of_chat_asks_twice_and_hands_out_the_second_answer() {
    let chain = chain();
    let first = chain.first_request();
    assert_eq!(first.max_tokens, 11);
    assert_eq!(first.messages.len(), 2);
    match chain.after_first(Some("first answer".to_string())) {
        ChainStep::Ask(second) => {
            assert_eq!(second.max_tokens, 22);
            assert_eq!(second.model, "m");
            assert_eq!(
                second.messages,
                vec![
                    ChatMessage { role: Role::System, content: "sys".to_string() },
                    ChatMessage { role: Role::User, content: "one".to_string() },
                    ChatMessage { role: Role::User, content: "two".to_string() },
                ]
            );
        }
        other => panic!("unexpected step {:?}", other),
    }
    assert_eq!(
        chain.after_second(Some("final".to_string())),
        ChainStep::Finished("final".to_string())
    );
}

#[test]
fn chain_of_chat_breaks_off_with_its_tag() {
    let chain = chain();
    assert_eq!(chain.after_first(None), ChainStep::Failed("tag".to_string()));
    assert_eq!(chain.after_second(None), ChainStep::Failed("tag".to_string()));
}

#[test]
fn service_config_joins_base_and_path() {
    let config = LocalServiceProviderConfig::new("https://host/v1", "key");
    assert_eq!(config.url("/chat/completions"), "https://host/v1/chat/completions");
    assert_eq!(config.api_base(), "https://host/v1");
    assert_eq!(config.api_key(), "key");
    assert_eq!(
        config.headers(),
        vec![
            ("content-type".to_string(), "application/json".to_string()),
            ("user-agent".to_string(), "MyClient/1.0.0".to_string()),
        ]
    );
    assert!(config.query().is_empty());
}
