use crate::json::{
    collect_text_members, find_member, json_document, lemma_object_view, member_of, member_views,
    parse_json, string_pair_views, string_views, text_members, texts_of, Json, JsonDoc, JsonError,
};
use crate::text::{
    all_blank, chars_of, is_blank, is_white_space, lemma_last_part, lemma_trimmed_ends,
    line_views, lines_of, lines_of_chars, slice_of, split_on, string_of, trim_bounds, trimmed,
};
use vstd::prelude::*;

verus! {

/// What stands in for a summary where an answer holds none.
pub const NO_SUMMARY: &'static str = "No summary located";

/// The name of the member that holds the summary.
pub const SUMMARY_FIELD: &'static str = "summary";

/// The name of the member that holds the keywords.
pub const KEYWORDS_FIELD: &'static str = "keywords";

/// Where the chat service is reached.
pub const CHAT_API_BASE: &'static str = "https://api.deepinfra.com/v1/openai";

/// The first of `lines` that holds more than white space.
pub open spec fn first_filled(lines: Seq<Seq<char>>) -> Option<Seq<char>>
    decreases lines.len(),
{
    if lines.len() == 0 {
        None
    } else if !is_blank(lines[0]) {
        Some(lines[0])
    } else {
        first_filled(lines.drop_first())
    }
}

/// The summary in an answer: the answer itself, trimmed, where it is a
/// single line; else the first line after the first that holds more than
/// white space.
pub open spec fn summary_of_answer(input: Seq<char>) -> Seq<char> {
    let lines = lines_of(trimmed(input));
    if lines.len() <= 1 {
        trimmed(input)
    } else {
        match first_filled(lines.skip(1)) {
            Some(line) => line,
            None => NO_SUMMARY@,
        }
    }
}

/// Lines of which one holds more than white space have a first such line.
pub proof fn lemma_first_filled(lines: Seq<Seq<char>>, i: int)
    requires
        0 <= i < lines.len(),
        !is_blank(lines[i]),
    ensures
        first_filled(lines) is Some,
        !is_blank(first_filled(lines)->0),
    decreases lines.len(),
{
    if is_blank(lines[0]) {
        assert(lines.drop_first()[i - 1] == lines[i]);
        lemma_first_filled(lines.drop_first(), i - 1);
    }
}

/// An answer of more than one line always holds a summary: the trimmed
/// answer ends with a line that is not blank, so that the fixed text for a
/// missing summary never stands in for one.
pub proof fn lemma_summary_is_a_line(input: Seq<char>)
    ensures
        ({
            let lines = lines_of(trimmed(input));
            &&& lines.len() <= 1 ==> summary_of_answer(input) == trimmed(input)
            &&& lines.len() > 1 ==> first_filled(lines.skip(1)) == Some(summary_of_answer(input))
                && !is_blank(summary_of_answer(input))
        }),
{
    let t = trimmed(input);
    let lines = lines_of(t);
    if lines.len() > 1 {
        lemma_trimmed_ends(input);
        let parts = split_on(t, '\n');
        if t.len() == 0 {
            assert(parts.drop_last().len() == 0);
        }
        assert(t.len() > 0);
        assert(is_white_space('\n'));
        lemma_last_part(t, '\n');
        let last = parts.last();
        assert(lines.last() == last);
        assert(!is_blank(last)) by {
            assert(!is_white_space(last[last.len() - 1]));
        }
        let rest = lines.skip(1);
        assert(rest[rest.len() - 1] == lines.last());
        lemma_first_filled(rest, rest.len() - 1);
    }
}

pub fn extract_summary_from_answer(input: &str) -> (summary: String)
    ensures
        summary@ == summary_of_answer(input@),
{
    let chars = chars_of(input);
    let (from, to) = trim_bounds(&chars);
    let body = slice_of(&chars, from, to);
    let lines = lines_of_chars(&body);
    if lines.len() <= 1 {
        return string_of(&body);
    }
    let ghost views = line_views(lines@);
    let mut i: usize = 1;
    while i < lines.len()
        invariant
            1 <= i <= lines.len(),
            lines.len() > 1,
            views == line_views(lines@),
            views == lines_of(trimmed(input@)),
            first_filled(views.skip(1)) == first_filled(views.skip(i as int)),
        decreases lines.len() - i,
    {
        proof {
            assert(views.skip(i as int).drop_first() == views.skip(i + 1));
            assert(views.skip(i as int)[0] == lines@[i as int]@);
        }
        if !all_blank(&lines[i]) {
            return string_of(&lines[i]);
        }
        i += 1;
    }
    NO_SUMMARY.to_owned()
}

/// What an answer states, where it is an object with a string under
/// "summary" and a list of strings under "keywords"; nothing at all where it
/// is anything else.
pub open spec fn summary_and_keywords(doc: Option<JsonDoc>) -> (Seq<char>, Seq<Seq<char>>) {
    match doc {
        Some(JsonDoc::Object(members)) => match (
            member_of(members, SUMMARY_FIELD@),
            member_of(members, KEYWORDS_FIELD@),
        ) {
            (Some(JsonDoc::Text(summary)), Some(JsonDoc::List(items))) => match texts_of(items) {
                Some(keywords) => (summary, keywords),
                None => (Seq::empty(), Seq::empty()),
            },
            _ => (Seq::empty(), Seq::empty()),
        },
        _ => (Seq::empty(), Seq::empty()),
    }
}

/// Reads the summary and the keywords off a document that was parsed, or
/// off the failure to parse one.
pub fn read_summary_and_keywords(doc: Option<&Json>) -> (r: (String, Vec<String>))
    ensures
        (r.0@, string_views(r.1@)) == summary_and_keywords(
            match doc {
                Some(d) => Some(d@),
                None => None,
            },
        ),
{
    let nothing = (String::new(), Vec::new());
    proof {
        assert(string_views(nothing.1@) == Seq::<Seq<char>>::empty());
    }
    let members = match doc {
        Some(d) => match d.members() {
            Some(members) => members,
            None => {
                return nothing;
            },
        },
        None => {
            return nothing;
        },
    };
    proof {
        lemma_object_view(*members);
    }
    let summary = match find_member(members, SUMMARY_FIELD) {
        Some(value) => match value.as_text() {
            Some(summary) => summary,
            None => {
                return nothing;
            },
        },
        None => {
            return nothing;
        },
    };
    let keywords = match find_member(members, KEYWORDS_FIELD) {
        Some(list) => match list.as_texts() {
            Some(keywords) => keywords,
            None => {
                return nothing;
            },
        },
        None => {
            return nothing;
        },
    };
    (summary.clone(), keywords)
}

/// Reads the summary and the keywords off the text that the generation
/// service answered with. Text that is no JSON, or that lacks either member,
/// gives an empty summary and no keywords.
pub fn parse_summary_and_keywords(input: &str) -> (r: (String, Vec<String>))
    ensures
        (r.0@, string_views(r.1@)) == summary_and_keywords(json_document(input@)),
{
    match parse_json(input) {
        Ok(doc) => read_summary_and_keywords(Some(&doc)),
        Err(_) => read_summary_and_keywords(None),
    }
}

/// The members of a parsed object that hold a string, each with its name.
pub fn read_issue_summaries(doc: &Json) -> (r: Result<Vec<(String, String)>, JsonError>)
    ensures
        match r {
            Ok(pairs) => doc@ is Object && string_pair_views(pairs@) == text_members(
                doc@->Object_0,
            ),
            Err(e) => !(doc@ is Object) && e == JsonError::NotAnObject,
        },
{
    match doc {
        Json::Object(members) => {
            proof {
                lemma_object_view(*members);
            }
            Ok(collect_text_members(members))
        },
        _ => Err(JsonError::NotAnObject),
    }
}

/// Reads a JSON object and hands out its members that hold a string, each
/// with its name.
pub fn parse_issue_summary_from_json(input: &str) -> (r: Result<Vec<(String, String)>, JsonError>)
    ensures
        match r {
            Ok(pairs) => json_document(input@) matches Some(JsonDoc::Object(members))
                && string_pair_views(pairs@) == text_members(members),
            Err(JsonError::Malformed) => json_document(input@) is None,
            Err(JsonError::NotAnObject) => json_document(input@) matches Some(doc) && !(doc is Object),
        },
{
    match parse_json(input) {
        Ok(doc) => read_issue_summaries(&doc),
        Err(_) => Err(JsonError::Malformed),
    }
}

/// Who speaks in a message of a chat.
#[derive(Clone, Copy, Debug, PartialEq, Eq, Structural)]
pub enum Role {
    System,
    User,
}

#[derive(Clone, Debug, PartialEq, Eq)]
pub struct ChatMessage {
    pub role: Role,
    pub content: String,
}

/// What the chat service is asked.
#[derive(Clone, Debug, PartialEq, Eq)]
pub struct ChatRequest {
    pub model: String,
    pub max_tokens: u16,
    pub messages: Vec<ChatMessage>,
}

pub struct ChatRequestView {
    pub model: Seq<char>,
    pub max_tokens: u16,
    pub messages: Seq<(Role, Seq<char>)>,
}

impl View for ChatMessage {
    type V = (Role, Seq<char>);

    open spec fn view(&self) -> (Role, Seq<char>) {
        (self.role, self.content@)
    }
}

impl View for ChatRequest {
    type V = ChatRequestView;

    open spec fn view(&self) -> ChatRequestView {
        ChatRequestView {
            model: self.model@,
            max_tokens: self.max_tokens,
            messages: self.messages@.map_values(|m: ChatMessage| m@),
        }
    }
}

/// Why a chat gave no answer.
#[derive(Clone, Copy, Debug, PartialEq, Eq, Structural)]
pub enum ChatError {
    /// The first choice of the service holds no text.
    NoReply,
}

/// What a chain of two questions does next.
#[derive(Clone, Debug, PartialEq, Eq)]
pub enum ChainStep {
    /// Send this request and come back with the answer.
    Ask(ChatRequest),
    /// The chain is through: this is its answer.
    Finished(String),
    /// The chain broke off: this is the tag it was given for that case.
    Failed(String),
}

pub enum ChainStepView {
    Ask(ChatRequestView),
    Finished(Seq<char>),
    Failed(Seq<char>),
}

impl View for ChainStep {
    type V = ChainStepView;

    open spec fn view(&self) -> ChainStepView {
        match self {
            ChainStep::Ask(request) => ChainStepView::Ask(request@),
            ChainStep::Finished(answer) => ChainStepView::Finished(answer@),
            ChainStep::Failed(tag) => ChainStepView::Failed(tag@),
        }
    }
}

/// Two questions to the chat service, the second asked after the first was
/// answered.
#[derive(Clone, Debug, PartialEq, Eq)]
pub struct ChainOfChat {
    pub model: String,
    pub system_prompt: String,
    pub first_prompt: String,
    pub first_tokens: u16,
    pub second_prompt: String,
    pub second_tokens: u16,
    pub error_tag: String,
}

/// The request that opens a chat: what the system is told, then what the
/// user says.
pub open spec fn opening_request(
    model: Seq<char>,
    system_prompt: Seq<char>,
    user_input: Seq<char>,
    max_tokens: u16,
) -> ChatRequestView {
    ChatRequestView {
        model,
        max_tokens,
        messages: seq![(Role::System, system_prompt), (Role::User, user_input)],
    }
}

impl ChainOfChat {
    pub open spec fn first(&self) -> ChatRequestView {
        opening_request(self.model@, self.system_prompt@, self.first_prompt@, self.first_tokens)
    }

    /// The second request repeats the first and adds the second question;
    /// the answer to the first is not sent back.
    pub open spec fn second(&self) -> ChatRequestView {
        ChatRequestView {
            model: self.model@,
            max_tokens: self.second_tokens,
            messages: seq![
                (Role::System, self.system_prompt@),
                (Role::User, self.first_prompt@),
                (Role::User, self.second_prompt@),
            ],
        }
    }

    /// The request that the chain begins with.
    pub fn first_request(&self) -> (request: ChatRequest)
        ensures
            request@ == self.first(),
    {
        chat_request(
            self.system_prompt.as_str(),
            self.first_prompt.as_str(),
            self.first_tokens,
            self.model.as_str(),
        )
    }

    /// What follows the answer to the first request: the second request, or
    /// the end of the chain where there was no answer.
    pub fn after_first(&self, content: Option<String>) -> (step: ChainStep)
        ensures
            step@ == match content {
                Some(_) => ChainStepView::Ask(self.second()),
                None => ChainStepView::Failed(self.error_tag@),
            },
    {
        match content {
            None => ChainStep::Failed(self.error_tag.clone()),
            Some(_) => {
                let mut messages: Vec<ChatMessage> = Vec::new();
                messages.push(
                    ChatMessage { role: Role::System, content: self.system_prompt.clone() },
                );
                messages.push(ChatMessage { role: Role::User, content: self.first_prompt.clone() });
                messages.push(
                    ChatMessage { role: Role::User, content: self.second_prompt.clone() },
                );
                proof {
                    assert(messages@.map_values(|m: ChatMessage| m@) == self.second().messages);
                }
                ChainStep::Ask(
                    ChatRequest {
                        model: self.model.clone(),
                        max_tokens: self.second_tokens,
                        messages,
                    },
                )
            },
        }
    }

    /// What follows the answer to the second request.
    pub fn after_second(&self, content: Option<String>) -> (step: ChainStep)
        ensures
            step@ == match content {
                Some(answer) => ChainStepView::Finished(answer@),
                None => ChainStepView::Failed(self.error_tag@),
            },
    {
        match content {
            Some(answer) => ChainStep::Finished(answer),
            None => ChainStep::Failed(self.error_tag.clone()),
        }
    }
}

/// The request for one question to the chat service.
pub fn chat_request(system_prompt: &str, user_input: &str, max_token: u16, model: &str) -> (request:
    ChatRequest)
    ensures
        request@ == opening_request(model@, system_prompt@, user_input@, max_token),
{
    let mut messages: Vec<ChatMessage> = Vec::new();
    messages.push(ChatMessage { role: Role::System, content: system_prompt.to_owned() });
    messages.push(ChatMessage { role: Role::User, content: user_input.to_owned() });
    proof {
        assert(messages@.map_values(|m: ChatMessage| m@) == opening_request(
            model@,
            system_prompt@,
            user_input@,
            max_token,
        ).messages);
    }
    ChatRequest { model: model.to_owned(), max_tokens: max_token, messages }
}

/// The answer of a chat: the text of the first choice, where it holds one.
pub fn chat_reply(content: Option<String>) -> (r: Result<String, ChatError>)
    ensures
        r == match content {
            Some(answer) => Ok::<String, ChatError>(answer),
            None => Err::<String, ChatError>(ChatError::NoReply),
        },
{
    match content {
        Some(answer) => Ok(answer),
        None => Err(ChatError::NoReply),
    }
}

/// How a chat service is reached. The key is kept as plain text; whoever
/// hands it on wraps it. The headers and the query are kept as lists of
/// pairs, in the order in which they were given: a map would hand them out
/// in an order of its own, of which nothing can be stated.
#[derive(Clone, Debug, PartialEq, Eq)]
pub struct LocalServiceProviderConfig {
    pub api_base: String,
    pub headers: Vec<(String, String)>,
    pub api_key: String,
    pub query: Vec<(String, String)>,
}

/// The headers that every request to the chat service carries.
pub open spec fn service_headers() -> Seq<(Seq<char>, Seq<char>)> {
    seq![("content-type"@, "application/json"@), ("user-agent"@, "MyClient/1.0.0"@)]
}

fn clone_pairs(pairs: &Vec<(String, String)>) -> (out: Vec<(String, String)>)
    ensures
        string_pair_views(out@) == string_pair_views(pairs@),
{
    let mut out: Vec<(String, String)> = Vec::new();
    let mut i: usize = 0;
    while i < pairs.len()
        invariant
            i <= pairs.len(),
            string_pair_views(out@) == string_pair_views(pairs@.take(i as int)),
        decreases pairs.len() - i,
    {
        let ghost before = out@;
        out.push((pairs[i].0.clone(), pairs[i].1.clone()));
        proof {
            assert(string_pair_views(out@) == string_pair_views(before).push(
                (pairs@[i as int].0@, pairs@[i as int].1@),
            ));
            assert(string_pair_views(pairs@.take(i + 1)) == string_pair_views(
                pairs@.take(i as int),
            ).push((pairs@[i as int].0@, pairs@[i as int].1@)));
        }
        i += 1;
    }
    proof {
        assert(pairs@.take(i as int) == pairs@);
    }
    out
}

impl LocalServiceProviderConfig {
    /// The configuration for the service at `api_base`, with the headers
    /// that every request carries and no query.
    pub fn new(api_base: &str, api_key: &str) -> (config: Self)
        ensures
            config.api_base@ == api_base@,
            config.api_key@ == api_key@,
            string_pair_views(config.headers@) == service_headers(),
            config.query@.len() == 0,
    {
        let mut headers: Vec<(String, String)> = Vec::new();
        headers.push(("content-type".to_owned(), "application/json".to_owned()));
        headers.push(("user-agent".to_owned(), "MyClient/1.0.0".to_owned()));
        proof {
            assert(string_pair_views(headers@) == service_headers());
        }
        LocalServiceProviderConfig {
            api_base: api_base.to_owned(),
            headers,
            api_key: api_key.to_owned(),
            query: Vec::new(),
        }
    }

    pub fn headers(&self) -> (out: Vec<(String, String)>)
        ensures
            string_pair_views(out@) == string_pair_views(self.headers@),
    {
        clone_pairs(&self.headers)
    }

    /// The address of `path` at the service.
    pub fn url(&self, path: &str) -> (out: String)
        ensures
            out@ == self.api_base@ + path@,
    {
        let mut out = self.api_base.clone();
        out.append(path);
        out
    }

    pub fn query(&self) -> (out: Vec<(String, String)>)
        ensures
            string_pair_views(out@) == string_pair_views(self.query@),
    {
        clone_pairs(&self.query)
    }

    pub fn api_base(&self) -> (out: &str)
        ensures
            out@ == self.api_base@,
    {
        self.api_base.as_str()
    }

    pub fn api_key(&self) -> (out: &str)
        ensures
            out@ == self.api_key@,
    {
        self.api_key.as_str()
    }
}

} // verus!
