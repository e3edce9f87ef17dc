use crate::issue_tracker::{
    IssueAssigned, IssueAssignedView, IssueClosed, IssueClosedView, IssueOpen, IssueOpenView,
    OuterPull, OuterPullView, RepoData, RepoDataView,
};
use crate::json::{clone_strings, json_text_of_strings, string_views, strings_to_json};
use crate::text::{
    chars_of, first_n, line_views, opt_view, split_chars, split_on, string_of, take_chars,
};
use vstd::prelude::*;

verus! {

/// How many rows one batch of the summarization or of the indexing takes.
pub const BATCH_SIZE: usize = 50;

/// How many characters of a readme stand in for a missing description.
pub const README_EXCERPT: usize = 1000;

/// What stands in for a description where a project has neither a
/// description nor a readme.
pub const NO_DESCRIPTION: &'static str = "No description available";

/// The JSON text for a value that is absent.
pub const JSON_NULL: &'static str = "null";

/// The code with which the server refuses a row whose key the table holds
/// already.
pub const DUPLICATE_KEY_CODE: u16 = 1062;

/// Writes a project, new or known.
pub const PROJECT_UPSERT_SQL: &'static str = r"INSERT INTO projects (project_id, project_logo, main_language, repo_stars, project_description)
        VALUES (:project_id, :project_logo, :main_language, :repo_stars, :project_description)
        ON DUPLICATE KEY UPDATE
        project_logo = VALUES(project_logo),
        main_language = VALUES(main_language),
        repo_stars = VALUES(repo_stars),
        project_description = VALUES(project_description);";

/// Writes an open issue.
pub const OPEN_ISSUE_INSERT_SQL: &'static str = r"INSERT INTO issues_open (issue_id, project_id, issue_title, issue_creator, issue_budget, issue_description)
                  VALUES (:issue_id, :project_id, :issue_title, :issue_creator, :issue_budget, :issue_description)";

/// Writes a comment unless the issue has one of the same moment.
pub const COMMENT_INSERT_SQL: &'static str = r"INSERT INTO issues_comment (issue_id, comment_creator, comment_date, comment_body)
    SELECT :issue_id, :comment_creator, :comment_date, :comment_body
    FROM dual
    WHERE NOT EXISTS (
        SELECT 1 FROM issues_comment
        WHERE issue_id = :issue_id AND comment_date = :comment_date
    ) LIMIT 1;";

/// Writes one of a batch of open issues.
pub const OPEN_ISSUE_BATCH_SQL: &'static str = r"INSERT INTO issues_open (issue_id, project_id, issue_title, issue_budget, issue_description)
                  VALUES (:issue_id, :project_id, :issue_title, :issue_budget, :issue_description)";

/// Writes a closed issue.
pub const CLOSED_ISSUE_INSERT_SQL: &'static str = r"INSERT INTO issues_closed (issue_id, issue_assignees, issue_linked_pr)
                  VALUES (:issue_id, :issue_assignees, :issue_linked_pr)";

/// Writes an assignment.
pub const ASSIGNMENT_INSERT_SQL: &'static str = r"INSERT INTO issues_assigned (issue_id, issue_assignee, date_assigned)
                  VALUES (:issue_id, :issue_assignee, :date_assigned)";

/// Marks a summary as indexed.
pub const MARK_INDEXED_SQL: &'static str = r"UPDATE issues_repos_summarized
    SET indexed=1 WHERE issue_or_project_id = :issue_or_project_id";

/// Writes a summary; for a known entity only its keywords change.
pub const SUMMARY_UPSERT_SQL: &'static str = r"INSERT INTO issues_repos_summarized (issue_or_project_id, issue_or_project_summary, keyword_tags)
    VALUES (:issue_or_project_id, :issue_or_project_summary, :keyword_tags_json_str)
    ON DUPLICATE KEY UPDATE
    keyword_tags = :keyword_tags_json_str;";

/// Writes a pull request.
pub const PULL_REQUEST_INSERT_SQL: &'static str = r"INSERT INTO pull_requests (pull_id, pull_title, pull_author, project_id, date_merged)
                  VALUES (:pull_id, :pull_title, :pull_author, :project_id, :date_merged)";

/// Reads a batch of the summaries that are not indexed yet.
pub const PENDING_INDEX_SQL: &'static str = "SELECT issue_or_project_id, issue_or_project_summary FROM issues_repos_summarized WHERE indexed=0 limit 50";

/// Reads a batch of the issues that have no summary yet.
pub const UNSUMMARIZED_ISSUES_SQL: &'static str = "SELECT issue_id, issue_title, issue_description, issue_assignees FROM issues_master WHERE issue_id not in (SELECT issue_or_project_id FROM issues_repos_summarized) limit 50";

/// What the generation service is told before an issue with a long body.
pub const ISSUE_LONG_PROMPT: &'static str = r#"
        Summarize the GitHub issue in one paragraph without mentioning the issue number. Highlight the key problem and any signature information provided. The summary should be concise, informative, and easy to understand, prioritizing clarity and brevity. Additionally, extract high-level keywords that represent broader categories or themes relevant to the issue's purpose, features, and tools used. These keywords should help categorize the issue in a wider context and should not be too literal or specific, avoiding overly long phrases unless absolutely necessary. Expected Output:
        { \"summary\": \"the_summary_generated, a short paragraph summarizing the issue, including its purpose and features, without referencing the issue number.\",
          \"keywords\": [\"a list of high-level keywords that encapsulate the broader context, categories, or themes of the issue, excluding specific details and issue numbers.\"] }
        Ensure you reply in RFC8259-compliant JSON format."#;

/// What the generation service is told before an issue with a short body.
pub const ISSUE_SHORT_PROMPT: &'static str = r#"
        Given the limited information available, summarize the GitHub issue in one paragraph without mentioning the issue number. Highlight the key problem and any signature information that can be inferred. The summary should be concise, informative, and easy to understand, prioritizing clarity and brevity even with scant details. Additionally, extract high-level keywords that represent broader categories or themes relevant to the issue's inferred purpose, features, and tools used. These keywords should help categorize the issue in a wider context and should not be too literal or specific, avoiding overly long phrases unless absolutely necessary. Expected Output:
        { \"summary\": \"The summary generated should be a concise paragraph that highlights any discernible purpose, technologies, or features from the limited information.\",
          \"keywords\": [\"A list of inferred high-level keywords that broadly categorize the repository based on the scant details available.\"] }
        Ensure you reply in RFC8259-compliant JSON format."#;

/// What the generation service is told before a project with a long readme.
pub const PROJECT_LONG_PROMPT: &'static str = r#"
    Summarize the GitHub repository's README or description in one detailed paragraph, focusing solely on the essential aspects such as the project's purpose, technologies used, and notable features. Do not include non-essential elements like personal appeals or donation links. Extract high-level keywords that represent broader categories or themes relevant to the project. These keywords should categorize the project in a wider context and not be overly specific or literal. Expected Output:
    { \"summary\": \"A comprehensive paragraph that succinctly summarizes the repository, highlighting its purpose, technologies, and key features, without including extraneous details.\",
      \"keywords\": [\"A list of high-level keywords that encapsulate the broader context, categories, or themes of the repository, focusing on essential aspects only.\"] }
    Ensure your reply is in RFC8259-compliant JSON format.
    "#;

/// What the generation service is told before a project with a short readme.
pub const PROJECT_SHORT_PROMPT: &'static str = r#"When summarizing a GitHub repository's README or description, concentrate on the core content. Provide a concise paragraph that captures the primary purpose, technologies used, and notable features. Avoid mentioning non-essential elements such as donation links or personal appeals. Deduce and include high-level keywords that broadly categorize the repository, focusing on the technologies, functionality, and scope based on the available information. These keywords should reflect the main themes or categories relevant to the project. Expected Output:
    { \"summary\": \"The summary generated should be a concise paragraph that highlights any discernible purpose, technologies, or features from the limited information.\",
      \"keywords\": [\"A list of inferred high-level keywords that broadly categorize the repository based on the scant details available.\"] }
    Ensure you reply in RFC8259-compliant JSON format."#;

/// Under how many characters a body counts as short.
pub const SHORT_BODY_LIMIT: usize = 200;

/// How many characters of a long body are sent.
pub const LONG_BODY_LIMIT: usize = 4000;

/// How many tokens the answer to a short body may take.
pub const SHORT_ANSWER_TOKENS: u16 = 180;

/// How many tokens the answer to a long body may take.
pub const LONG_ANSWER_TOKENS: u16 = 250;

/// What the generation service is asked.
#[derive(Clone, Debug, PartialEq, Eq)]
pub struct SummaryRequest {
    pub system_prompt: String,
    pub user_prompt: String,
    pub max_tokens: u16,
}

pub struct SummaryRequestView {
    pub system_prompt: Seq<char>,
    pub user_prompt: Seq<char>,
    pub max_tokens: u16,
}

impl View for SummaryRequest {
    type V = SummaryRequestView;

    open spec fn view(&self) -> SummaryRequestView {
        SummaryRequestView {
            system_prompt: self.system_prompt@,
            user_prompt: self.user_prompt@,
            max_tokens: self.max_tokens,
        }
    }
}

pub open spec fn request_view(request: Option<SummaryRequest>) -> Option<SummaryRequestView> {
    match request {
        Some(r) => Some(r@),
        None => None,
    }
}

/// Whether a body is summarized with the prompt for short input.
pub open spec fn is_short_body(body: Seq<char>) -> bool {
    body.len() < SHORT_BODY_LIMIT
}

/// What of a body is sent: all of a short one, the beginning of a long one.
pub open spec fn body_sent(body: Seq<char>) -> Seq<char> {
    if is_short_body(body) {
        body
    } else {
        first_n(body, LONG_BODY_LIMIT as int)
    }
}

/// The owner and the repository in the address of a project or of an issue:
/// its fourth and fifth part.
pub open spec fn owner_and_repo(address: Seq<char>) -> Option<(Seq<char>, Seq<char>)> {
    let parts = split_on(address, '/');
    if parts.len() < 5 {
        None
    } else {
        Some((parts[3], parts[4]))
    }
}

pub open spec fn issue_prompt(issue: IssueOpenView, owner: Seq<char>, repo: Seq<char>) -> Seq<char> {
    if is_short_body(issue.issue_description) {
        "Here is the input: `"@ + issue.issue_title + "` at repository `"@ + repo
            + "` by owner `"@ + owner + "`, states: "@ + issue.issue_description
    } else {
        "Here is the input: The issue titled `"@ + issue.issue_title + "` at repository `"@ + repo
            + "` by owner `"@ + owner + "`, states in the body text: "@ + body_sent(
            issue.issue_description,
        )
    }
}

/// What is asked of the generation service for an issue; nothing where the
/// address of the issue names no owner and repository.
pub open spec fn issue_summary_request(issue: IssueOpenView) -> Option<SummaryRequestView> {
    match owner_and_repo(issue.issue_id) {
        None => None,
        Some((owner, repo)) => Some(
            SummaryRequestView {
                system_prompt: if is_short_body(issue.issue_description) {
                    ISSUE_SHORT_PROMPT@
                } else {
                    ISSUE_LONG_PROMPT@
                },
                user_prompt: issue_prompt(issue, owner, repo),
                max_tokens: if is_short_body(issue.issue_description) {
                    SHORT_ANSWER_TOKENS
                } else {
                    LONG_ANSWER_TOKENS
                },
            },
        ),
    }
}

pub open spec fn language_clause(main_language: Seq<char>) -> Seq<char> {
    if main_language.len() == 0 {
        Seq::empty()
    } else {
        "mainly uses `"@ + main_language + "` in the project"@
    }
}

pub open spec fn readme_clause(readme: Seq<char>) -> Seq<char> {
    if readme.len() == 0 {
        Seq::empty()
    } else {
        "states in readme: "@ + readme
    }
}

pub open spec fn project_prompt(
    repo: RepoDataView,
    main_language: Seq<char>,
    owner: Seq<char>,
    name: Seq<char>,
) -> Seq<char> {
    if is_short_body(repo.repo_readme) {
        "Here is the input: The repository `"@ + name + "` by owner `"@ + owner + "` "@
            + language_clause(main_language) + ",`"@ + repo.repo_description + "`, "@
            + readme_clause(repo.repo_readme)
    } else {
        "Here is the input: The repository `"@ + name + "`  by owner `"@ + owner + "` "@
            + language_clause(main_language) + ", has a short text description: `"@
            + repo.repo_description + "`, mentioned more details in readme: `"@ + body_sent(
            repo.repo_readme,
        ) + "`"@
    }
}

/// What is asked of the generation service for a project; nothing where the
/// address of the project names no owner and repository.
pub open spec fn project_summary_request(repo: RepoDataView, main_language: Seq<char>) -> Option<
    SummaryRequestView,
> {
    match owner_and_repo(repo.project_id) {
        None => None,
        Some((owner, name)) => Some(
            SummaryRequestView {
                system_prompt: if is_short_body(repo.repo_readme) {
                    PROJECT_SHORT_PROMPT@
                } else {
                    PROJECT_LONG_PROMPT@
                },
                user_prompt: project_prompt(repo, main_language, owner, name),
                max_tokens: if is_short_body(repo.repo_readme) {
                    SHORT_ANSWER_TOKENS
                } else {
                    LONG_ANSWER_TOKENS
                },
            },
        ),
    }
}

/// Reads the owner and the repository off an address.
pub fn owner_and_repo_of(address: &str) -> (r: Option<(String, String)>)
    ensures
        match r {
            Some((owner, repo)) => owner_and_repo(address@) == Some((owner@, repo@)),
            None => owner_and_repo(address@) is None,
        },
{
    let chars = chars_of(address);
    let parts = split_chars(&chars, '/');
    if parts.len() < 5 {
        return None;
    }
    proof {
        assert(line_views(parts@)[3] == parts@[3]@);
        assert(line_views(parts@)[4] == parts@[4]@);
    }
    Some((string_of(&parts[3]), string_of(&parts[4])))
}

/// How many characters `text` holds.
pub fn char_count(text: &str) -> (n: usize)
    ensures
        n == text@.len(),
{
    chars_of(text).len()
}

/// The part of a body that is sent.
pub fn body_to_send(body: &str) -> (out: String)
    ensures
        out@ == body_sent(body@),
{
    if char_count(body) < SHORT_BODY_LIMIT {
        body.to_owned()
    } else {
        take_chars(body, LONG_BODY_LIMIT)
    }
}

/// Plans the request that summarizes an issue.
pub fn plan_issue_summary(issue: &IssueOpen) -> (r: Option<SummaryRequest>)
    ensures
        request_view(r) == issue_summary_request(issue@),
{
    let (owner, repo) = match owner_and_repo_of(issue.issue_id.as_str()) {
        Some(pair) => pair,
        None => {
            return None;
        },
    };
    let short = char_count(issue.issue_description.as_str()) < SHORT_BODY_LIMIT;
    let mut user = String::new();
    if short {
        user.append("Here is the input: `");
        user.append(issue.issue_title.as_str());
        user.append("` at repository `");
        user.append(repo.as_str());
        user.append("` by owner `");
        user.append(owner.as_str());
        user.append("`, states: ");
        user.append(issue.issue_description.as_str());
    } else {
        let body = body_to_send(issue.issue_description.as_str());
        user.append("Here is the input: The issue titled `");
        user.append(issue.issue_title.as_str());
        user.append("` at repository `");
        user.append(repo.as_str());
        user.append("` by owner `");
        user.append(owner.as_str());
        user.append("`, states in the body text: ");
        user.append(body.as_str());
    }
    proof {
        assert(user@ == issue_prompt(issue@, owner@, repo@));
    }
    Some(
        SummaryRequest {
            system_prompt: if short {
                ISSUE_SHORT_PROMPT.to_owned()
            } else {
                ISSUE_LONG_PROMPT.to_owned()
            },
            user_prompt: user,
            max_tokens: if short {
                SHORT_ANSWER_TOKENS
            } else {
                LONG_ANSWER_TOKENS
            },
        },
    )
}

fn language_clause_of(main_language: &str) -> (out: String)
    ensures
        out@ == language_clause(main_language@),
{
    let mut out = String::new();
    if !main_language.is_empty() {
        out.append("mainly uses `");
        out.append(main_language);
        out.append("` in the project");
    }
    out
}

fn readme_clause_of(readme: &str) -> (out: String)
    ensures
        out@ == readme_clause(readme@),
{
    let mut out = String::new();
    if !readme.is_empty() {
        out.append("states in readme: ");
        out.append(readme);
    }
    out
}

/// Plans the request that summarizes a project.
pub fn plan_project_summary(repo: &RepoData, main_language: &str) -> (r: Option<SummaryRequest>)
    ensures
        request_view(r) == project_summary_request(repo@, main_language@),
{
    let (owner, name) = match owner_and_repo_of(repo.project_id.as_str()) {
        Some(pair) => pair,
        None => {
            return None;
        },
    };
    let short = char_count(repo.repo_readme.as_str()) < SHORT_BODY_LIMIT;
    let language = language_clause_of(main_language);
    let mut user = String::new();
    if short {
        let readme = readme_clause_of(repo.repo_readme.as_str());
        user.append("Here is the input: The repository `");
        user.append(name.as_str());
        user.append("` by owner `");
        user.append(owner.as_str());
        user.append("` ");
        user.append(language.as_str());
        user.append(",`");
        user.append(repo.repo_description.as_str());
        user.append("`, ");
        user.append(readme.as_str());
    } else {
        let body = body_to_send(repo.repo_readme.as_str());
        user.append("Here is the input: The repository `");
        user.append(name.as_str());
        user.append("`  by owner `");
        user.append(owner.as_str());
        user.append("` ");
        user.append(language.as_str());
        user.append(", has a short text description: `");
        user.append(repo.repo_description.as_str());
        user.append("`, mentioned more details in readme: `");
        user.append(body.as_str());
        user.append("`");
    }
    proof {
        assert(user@ == project_prompt(repo@, main_language@, owner@, name@));
    }
    Some(
        SummaryRequest {
            system_prompt: if short {
                PROJECT_SHORT_PROMPT.to_owned()
            } else {
                PROJECT_LONG_PROMPT.to_owned()
            },
            user_prompt: user,
            max_tokens: if short {
                SHORT_ANSWER_TOKENS
            } else {
                LONG_ANSWER_TOKENS
            },
        },
    )
}

/// The readme of a project is treated as the body of an issue is: a short
/// one goes out whole under the short prompt, a long one under the long
/// prompt, cut to its first four thousand characters.
pub proof fn lemma_project_prompt_boundary(repo: RepoDataView, main_language: Seq<char>)
    requires
        owner_and_repo(repo.project_id) is Some,
    ensures
        repo.repo_readme.len() < SHORT_BODY_LIMIT ==> project_summary_request(
            repo,
            main_language,
        )->0.system_prompt == PROJECT_SHORT_PROMPT@ && project_summary_request(
            repo,
            main_language,
        )->0.max_tokens == SHORT_ANSWER_TOKENS && body_sent(repo.repo_readme) == repo.repo_readme,
        repo.repo_readme.len() >= SHORT_BODY_LIMIT ==> project_summary_request(
            repo,
            main_language,
        )->0.system_prompt == PROJECT_LONG_PROMPT@ && project_summary_request(
            repo,
            main_language,
        )->0.max_tokens == LONG_ANSWER_TOKENS && body_sent(repo.repo_readme).len()
            <= LONG_BODY_LIMIT && body_sent(repo.repo_readme).is_prefix_of(repo.repo_readme),
{
}

/// A short body goes out whole under the short prompt; a long body goes out
/// under the long prompt, cut to its first four thousand characters.
pub proof fn lemma_prompt_boundary(issue: IssueOpenView)
    requires
        owner_and_repo(issue.issue_id) is Some,
    ensures
        issue.issue_description.len() < SHORT_BODY_LIMIT ==> issue_summary_request(
            issue,
        )->0.system_prompt == ISSUE_SHORT_PROMPT@ && issue_summary_request(issue)->0.max_tokens
            == SHORT_ANSWER_TOKENS && body_sent(issue.issue_description)
            == issue.issue_description,
        issue.issue_description.len() >= SHORT_BODY_LIMIT ==> issue_summary_request(
            issue,
        )->0.system_prompt == ISSUE_LONG_PROMPT@ && issue_summary_request(issue)->0.max_tokens
            == LONG_ANSWER_TOKENS && body_sent(issue.issue_description).len() <= LONG_BODY_LIMIT
            && body_sent(issue.issue_description).is_prefix_of(issue.issue_description),
{
}

/// A value bound to a statement.
#[derive(Clone, Debug, PartialEq, Eq)]
pub enum SqlValue {
    Null,
    Int(i64),
    Text(String),
}

pub enum SqlValueView {
    Null,
    Int(i64),
    Text(Seq<char>),
}

impl View for SqlValue {
    type V = SqlValueView;

    open spec fn view(&self) -> SqlValueView {
        match self {
            SqlValue::Null => SqlValueView::Null,
            SqlValue::Int(n) => SqlValueView::Int(*n),
            SqlValue::Text(t) => SqlValueView::Text(t@),
        }
    }
}

/// A value bound to a statement under a name.
#[derive(Clone, Debug, PartialEq, Eq)]
pub struct Param {
    pub name: String,
    pub value: SqlValue,
}

impl View for Param {
    type V = (Seq<char>, SqlValueView);

    open spec fn view(&self) -> (Seq<char>, SqlValueView) {
        (self.name@, self.value@)
    }
}

/// A statement for the store, with what is bound to it.
#[derive(Clone, Debug, PartialEq, Eq)]
pub struct Statement {
    pub sql: String,
    pub params: Vec<Param>,
}

pub struct StatementView {
    pub sql: Seq<char>,
    pub params: Seq<(Seq<char>, SqlValueView)>,
}

impl View for Statement {
    type V = StatementView;

    open spec fn view(&self) -> StatementView {
        StatementView { sql: self.sql@, params: self.params@.map_values(|p: Param| p@) }
    }
}

/// A comment on an issue.
#[derive(Clone, Debug, Default, PartialEq, Eq)]
pub struct IssueComment {
    pub issue_id: String,
    pub comment_creator: String,
    pub comment_date: String,
    pub comment_body: String,
}

pub struct IssueCommentView {
    pub issue_id: Seq<char>,
    pub comment_creator: Seq<char>,
    pub comment_date: Seq<char>,
    pub comment_body: Seq<char>,
}

impl View for IssueComment {
    type V = IssueCommentView;

    open spec fn view(&self) -> IssueCommentView {
        IssueCommentView {
            issue_id: self.issue_id@,
            comment_creator: self.comment_creator@,
            comment_date: self.comment_date@,
            comment_body: self.comment_body@,
        }
    }
}

#[derive(Debug, Default, PartialEq, Eq)]
pub struct IssueOut {
    pub issue_id: String,
    pub project_id: String,
    pub project_logo: String,
    pub main_language: String,
    pub repo_stars: i32,
    pub issue_title: String,
    pub issue_creator: String,
    pub issue_description: String,
    pub issue_budget: Option<i32>,
    pub issue_assignees: Option<String>,
    pub issue_linked_pr: Option<String>,
    pub issue_status: Option<String>,
    pub review_status: String,
    pub issue_budget_approved: bool,
    pub running_budget: (i32, i32, i32),
    pub issue_stats: (i32, i32, i32, i32),
}

impl Clone for IssueOut {
    fn clone(&self) -> (out: Self)
        ensures
            out.issue_id@ == self.issue_id@,
            out.project_id@ == self.project_id@,
            out.project_logo@ == self.project_logo@,
            out.main_language@ == self.main_language@,
            out.repo_stars == self.repo_stars,
            out.issue_title@ == self.issue_title@,
            out.issue_creator@ == self.issue_creator@,
            out.issue_description@ == self.issue_description@,
            out.issue_budget == self.issue_budget,
            opt_view(out.issue_assignees) == opt_view(self.issue_assignees),
            opt_view(out.issue_linked_pr) == opt_view(self.issue_linked_pr),
            opt_view(out.issue_status) == opt_view(self.issue_status),
            out.review_status@ == self.review_status@,
            out.issue_budget_approved == self.issue_budget_approved,
            out.running_budget == self.running_budget,
            out.issue_stats == self.issue_stats,
    {
        IssueOut {
            issue_id: self.issue_id.clone(),
            project_id: self.project_id.clone(),
            project_logo: self.project_logo.clone(),
            main_language: self.main_language.clone(),
            repo_stars: self.repo_stars,
            issue_title: self.issue_title.clone(),
            issue_creator: self.issue_creator.clone(),
            issue_description: self.issue_description.clone(),
            issue_budget: self.issue_budget,
            issue_assignees: self.issue_assignees.clone(),
            issue_linked_pr: self.issue_linked_pr.clone(),
            issue_status: self.issue_status.clone(),
            review_status: self.review_status.clone(),
            issue_budget_approved: self.issue_budget_approved,
            running_budget: self.running_budget,
            issue_stats: self.issue_stats,
        }
    }
}

#[derive(Clone, Copy, Debug, Default, PartialEq, Eq)]
pub enum ReviewStatus {
    #[default]
    Queue,
    Approve,
    Decline,
}

#[derive(Clone, Debug, Default, PartialEq, Eq)]
pub struct ProjectOut {
    pub project_id: String,
    pub project_logo: Option<String>,
    pub main_language: Option<String>,
    pub repo_stars: i32,
    pub project_description: Option<String>,
    pub issues_list: Option<Vec<String>>,
    pub total_budget_allocated: Option<i32>,
    pub total_count: i32,
}

/// The tables that are asked whether they hold an id.
#[derive(Clone, Copy, Debug, PartialEq, Eq, Structural)]
pub enum Table {
    Projects,
    Issues,
    PullRequests,
}

/// Why the store did not do what it was asked.
#[derive(Clone, Copy, Debug, PartialEq, Eq, Structural)]
pub enum StoreError {
    /// The entity is not in the store.
    NotFound,
    /// The store failed to write.
    WriteFailed,
    /// The store holds a row under the same key.
    DuplicateKey,
    /// The project that a row names is not in the store.
    MissingProject,
    /// The store could not be asked.
    Unavailable,
}

/// The writes, by what becomes of their failures.
#[derive(Clone, Copy, Debug, PartialEq, Eq, Structural)]
pub enum WriteKind {
    /// A comment: its failures are handed on, but for a duplicate.
    Comment,
    /// A summary: its failures are handed on.
    Summary,
    /// Any other write: its failures are passed over.
    Other,
}

pub open spec fn text_value(name: Seq<char>, value: Seq<char>) -> (Seq<char>, SqlValueView) {
    (name, SqlValueView::Text(value))
}

pub open spec fn number(name: Seq<char>, value: i64) -> (Seq<char>, SqlValueView) {
    (name, SqlValueView::Int(value))
}

pub open spec fn null_value(name: Seq<char>) -> (Seq<char>, SqlValueView) {
    (name, SqlValueView::Null)
}

pub open spec fn text_or_null(name: Seq<char>, value: Option<Seq<char>>) -> (
    Seq<char>,
    SqlValueView,
) {
    match value {
        Some(v) => (name, SqlValueView::Text(v)),
        None => (name, SqlValueView::Null),
    }
}

/// The description under which a project is stored: its own, else the
/// beginning of its readme, else a fixed text.
pub open spec fn stored_description(repo: RepoDataView) -> Seq<char> {
    if repo.repo_description.len() > 0 {
        repo.repo_description
    } else if repo.repo_readme.len() > 0 {
        first_n(repo.repo_readme, README_EXCERPT as int)
    } else {
        NO_DESCRIPTION@
    }
}

pub open spec fn project_upsert(repo: RepoDataView, main_language: Seq<char>) -> StatementView {
    StatementView {
        sql: PROJECT_UPSERT_SQL@,
        params: seq![
            text_value("project_id"@, repo.project_id),
            text_value("project_logo"@, repo.project_logo),
            text_value("main_language"@, main_language),
            number("repo_stars"@, repo.repo_stars),
            text_value("project_description"@, stored_description(repo)),
        ],
    }
}

pub open spec fn open_issue_params(issue: IssueOpenView) -> Seq<(Seq<char>, SqlValueView)> {
    seq![
        text_value("issue_id"@, issue.issue_id),
        text_value("project_id"@, issue.project_id),
        text_value("issue_title"@, issue.issue_title),
        null_value("issue_creator"@),
        null_value("issue_budget"@),
        text_value("issue_description"@, issue.issue_description),
    ]
}

/// What one issue of a batch binds: what a single issue binds, but for its
/// creator.
pub open spec fn open_issue_batch_insert(issue: IssueOpenView) -> StatementView {
    StatementView {
        sql: OPEN_ISSUE_BATCH_SQL@,
        params: seq![
            text_value("issue_id"@, issue.issue_id),
            text_value("project_id"@, issue.project_id),
            text_value("issue_title"@, issue.issue_title),
            null_value("issue_budget"@),
            text_value("issue_description"@, issue.issue_description),
        ],
    }
}

pub open spec fn open_issue_insert(issue: IssueOpenView) -> StatementView {
    StatementView { sql: OPEN_ISSUE_INSERT_SQL@, params: open_issue_params(issue) }
}

pub open spec fn comment_insert(comment: IssueCommentView) -> StatementView {
    StatementView {
        sql: COMMENT_INSERT_SQL@,
        params: seq![
            text_value("issue_id"@, comment.issue_id),
            text_value("comment_creator"@, comment.comment_creator),
            text_value("comment_date"@, comment.comment_date),
            text_value("comment_body"@, comment.comment_body),
        ],
    }
}

/// The JSON text for those an issue is assigned to.
pub open spec fn assignees_json(assignees: Option<Seq<Seq<char>>>) -> Seq<char> {
    match assignees {
        Some(names) => json_text_of_strings(names),
        None => JSON_NULL@,
    }
}

pub open spec fn closed_issue_insert(issue: IssueClosedView) -> StatementView {
    StatementView {
        sql: CLOSED_ISSUE_INSERT_SQL@,
        params: seq![
            text_value("issue_id"@, issue.issue_id),
            text_value("issue_assignees"@, assignees_json(issue.issue_assignees)),
            text_or_null("issue_linked_pr"@, issue.issue_linked_pr),
        ],
    }
}

pub open spec fn assignment_insert(assignment: IssueAssignedView) -> StatementView {
    StatementView {
        sql: ASSIGNMENT_INSERT_SQL@,
        params: seq![
            text_value("issue_id"@, assignment.issue_id),
            text_or_null(
                "issue_assignee"@,
                if assignment.issue_assignee.len() == 0 {
                    None
                } else {
                    Some(assignment.issue_assignee)
                },
            ),
            text_value("date_assigned"@, assignment.date_assigned),
        ],
    }
}

pub open spec fn mark_indexed(entity_id: Seq<char>) -> StatementView {
    StatementView {
        sql: MARK_INDEXED_SQL@,
        params: seq![text_value("issue_or_project_id"@, entity_id)],
    }
}

pub open spec fn summary_upsert(
    entity_id: Seq<char>,
    summary: Seq<char>,
    keywords: Seq<Seq<char>>,
) -> StatementView {
    StatementView {
        sql: SUMMARY_UPSERT_SQL@,
        params: seq![
            text_value("issue_or_project_id"@, entity_id),
            text_value("issue_or_project_summary"@, summary),
            text_value("keyword_tags_json_str"@, json_text_of_strings(keywords)),
        ],
    }
}

pub open spec fn pull_request_insert(pull: OuterPullView) -> StatementView {
    StatementView {
        sql: PULL_REQUEST_INSERT_SQL@,
        params: seq![
            text_value("pull_id"@, pull.pull_id),
            text_value("pull_title"@, pull.pull_title),
            text_or_null("pull_author"@, pull.pull_author),
            text_value("project_id"@, pull.project_id),
            text_value("date_merged"@, pull.merged_at),
        ],
    }
}

/// The question whether a table holds an id. The id is bound, not written
/// into the question, so that no id can ask another question.
pub open spec fn exists_question(table: Table, id: Seq<char>) -> StatementView {
    StatementView {
        sql: match table {
            Table::Projects => "SELECT 1 FROM projects WHERE project_id = :id"@,
            Table::Issues => "SELECT 1 FROM issues WHERE issue_id = :id"@,
            Table::PullRequests => "SELECT 1 FROM pull_requests WHERE pull_id = :id"@,
        },
        params: seq![text_value("id"@, id)],
    }
}

/// What a question for an id comes to: an entity that is not there is an
/// error of its own, apart from a store that could not be asked.
pub open spec fn exists_answer(row: Option<Option<u32>>) -> Result<bool, StoreError> {
    match row {
        Some(Some(_)) => Ok(true),
        Some(None) => Err(StoreError::NotFound),
        None => Err(StoreError::Unavailable),
    }
}

fn text_param(name: &str, value: &str) -> (p: Param)
    ensures
        p@ == text_value(name@, value@),
{
    Param { name: name.to_owned(), value: SqlValue::Text(value.to_owned()) }
}

fn int_param(name: &str, value: i64) -> (p: Param)
    ensures
        p@ == number(name@, value),
{
    Param { name: name.to_owned(), value: SqlValue::Int(value) }
}

fn null_param(name: &str) -> (p: Param)
    ensures
        p@ == null_value(name@),
{
    Param { name: name.to_owned(), value: SqlValue::Null }
}

fn optional_param(name: &str, value: &Option<String>) -> (p: Param)
    ensures
        p@ == text_or_null(name@, opt_view(*value)),
{
    match value {
        Some(v) => text_param(name, v.as_str()),
        None => null_param(name),
    }
}

fn statement(sql: &str, params: Vec<Param>) -> (s: Statement)
    ensures
        s@ == (StatementView { sql: sql@, params: params@.map_values(|p: Param| p@) }),
{
    Statement { sql: sql.to_owned(), params }
}

/// The description under which a project is stored.
pub fn description_to_store(repo: &RepoData) -> (out: String)
    ensures
        out@ == stored_description(repo@),
{
    if !repo.repo_description.as_str().is_empty() {
        repo.repo_description.clone()
    } else if !repo.repo_readme.as_str().is_empty() {
        take_chars(repo.repo_readme.as_str(), README_EXCERPT)
    } else {
        NO_DESCRIPTION.to_owned()
    }
}

/// The statement that writes a project.
pub fn project_upsert_statement(repo: &RepoData, main_language: &str) -> (s: Statement)
    ensures
        s@ == project_upsert(repo@, main_language@),
{
    let description = description_to_store(repo);
    let mut params: Vec<Param> = Vec::new();
    params.push(text_param("project_id", repo.project_id.as_str()));
    params.push(text_param("project_logo", repo.project_logo.as_str()));
    params.push(text_param("main_language", main_language));
    params.push(int_param("repo_stars", repo.repo_stars));
    params.push(text_param("project_description", description.as_str()));
    proof {
        assert(params@.map_values(|p: Param| p@) == project_upsert(repo@, main_language@).params);
    }
    statement(PROJECT_UPSERT_SQL, params)
}

fn open_issue_params_of(issue: &IssueOpen) -> (params: Vec<Param>)
    ensures
        params@.map_values(|p: Param| p@) == open_issue_params(issue@),
{
    let mut params: Vec<Param> = Vec::new();
    params.push(text_param("issue_id", issue.issue_id.as_str()));
    params.push(text_param("project_id", issue.project_id.as_str()));
    params.push(text_param("issue_title", issue.issue_title.as_str()));
    params.push(null_param("issue_creator"));
    params.push(null_param("issue_budget"));
    params.push(text_param("issue_description", issue.issue_description.as_str()));
    proof {
        assert(params@.map_values(|p: Param| p@) == open_issue_params(issue@));
    }
    params
}

/// The statement that writes an open issue.
pub fn open_issue_statement(issue: &IssueOpen) -> (s: Statement)
    ensures
        s@ == open_issue_insert(issue@),
{
    statement(OPEN_ISSUE_INSERT_SQL, open_issue_params_of(issue))
}

/// The statement that writes one open issue of a batch.
pub fn open_issue_batch_statement(issue: &IssueOpen) -> (s: Statement)
    ensures
        s@ == open_issue_batch_insert(issue@),
{
    let mut params: Vec<Param> = Vec::new();
    params.push(text_param("issue_id", issue.issue_id.as_str()));
    params.push(text_param("project_id", issue.project_id.as_str()));
    params.push(text_param("issue_title", issue.issue_title.as_str()));
    params.push(null_param("issue_budget"));
    params.push(text_param("issue_description", issue.issue_description.as_str()));
    proof {
        assert(params@.map_values(|p: Param| p@) == open_issue_batch_insert(issue@).params);
    }
    statement(OPEN_ISSUE_BATCH_SQL, params)
}

/// The statement that writes a comment.
pub fn comment_statement(comment: &IssueComment) -> (s: Statement)
    ensures
        s@ == comment_insert(comment@),
{
    let mut params: Vec<Param> = Vec::new();
    params.push(text_param("issue_id", comment.issue_id.as_str()));
    params.push(text_param("comment_creator", comment.comment_creator.as_str()));
    params.push(text_param("comment_date", comment.comment_date.as_str()));
    params.push(text_param("comment_body", comment.comment_body.as_str()));
    proof {
        assert(params@.map_values(|p: Param| p@) == comment_insert(comment@).params);
    }
    statement(COMMENT_INSERT_SQL, params)
}

/// The JSON text for those an issue is assigned to.
pub fn assignees_to_json(assignees: &Option<Vec<String>>) -> (out: String)
    ensures
        out@ == assignees_json(
            match *assignees {
                Some(names) => Some(string_views(names@)),
                None => None,
            },
        ),
{
    match assignees {
        Some(names) => strings_to_json(clone_strings(names)),
        None => JSON_NULL.to_owned(),
    }
}

/// The statement that writes a closed issue.
pub fn closed_issue_statement(issue: &IssueClosed) -> (s: Statement)
    ensures
        s@ == closed_issue_insert(issue@),
{
    let assignees = assignees_to_json(&issue.issue_assignees);
    let mut params: Vec<Param> = Vec::new();
    params.push(text_param("issue_id", issue.issue_id.as_str()));
    params.push(text_param("issue_assignees", assignees.as_str()));
    params.push(optional_param("issue_linked_pr", &issue.issue_linked_pr));
    proof {
        assert(params@.map_values(|p: Param| p@) == closed_issue_insert(issue@).params);
    }
    statement(CLOSED_ISSUE_INSERT_SQL, params)
}

/// The statement that writes an assignment.
pub fn assignment_statement(assignment: &IssueAssigned) -> (s: Statement)
    ensures
        s@ == assignment_insert(assignment@),
{
    let mut params: Vec<Param> = Vec::new();
    params.push(text_param("issue_id", assignment.issue_id.as_str()));
    if assignment.issue_assignee.as_str().is_empty() {
        params.push(null_param("issue_assignee"));
    } else {
        params.push(text_param("issue_assignee", assignment.issue_assignee.as_str()));
    }
    params.push(text_param("date_assigned", assignment.date_assigned.as_str()));
    proof {
        assert(params@.map_values(|p: Param| p@) == assignment_insert(assignment@).params);
    }
    statement(ASSIGNMENT_INSERT_SQL, params)
}

/// The statement that marks a summary as indexed.
pub fn mark_indexed_statement(entity_id: &str) -> (s: Statement)
    ensures
        s@ == mark_indexed(entity_id@),
{
    let mut params: Vec<Param> = Vec::new();
    params.push(text_param("issue_or_project_id", entity_id));
    proof {
        assert(params@.map_values(|p: Param| p@) == mark_indexed(entity_id@).params);
    }
    statement(MARK_INDEXED_SQL, params)
}

/// The statement that writes a summary with its keywords.
pub fn summary_statement(entity_id: &str, summary: &str, keywords: &Vec<String>) -> (s: Statement)
    ensures
        s@ == summary_upsert(entity_id@, summary@, string_views(keywords@)),
{
    let tags = strings_to_json(clone_strings(keywords));
    let mut params: Vec<Param> = Vec::new();
    params.push(text_param("issue_or_project_id", entity_id));
    params.push(text_param("issue_or_project_summary", summary));
    params.push(text_param("keyword_tags_json_str", tags.as_str()));
    proof {
        assert(params@.map_values(|p: Param| p@) == summary_upsert(
            entity_id@,
            summary@,
            string_views(keywords@),
        ).params);
    }
    statement(SUMMARY_UPSERT_SQL, params)
}

/// The statement that writes a pull request.
pub fn pull_request_statement(pull: &OuterPull) -> (s: Statement)
    ensures
        s@ == pull_request_insert(pull@),
{
    let mut params: Vec<Param> = Vec::new();
    params.push(text_param("pull_id", pull.pull_id.as_str()));
    params.push(text_param("pull_title", pull.pull_title.as_str()));
    params.push(optional_param("pull_author", &pull.pull_author));
    params.push(text_param("project_id", pull.project_id.as_str()));
    params.push(text_param("date_merged", pull.merged_at.as_str()));
    proof {
        assert(params@.map_values(|p: Param| p@) == pull_request_insert(pull@).params);
    }
    statement(PULL_REQUEST_INSERT_SQL, params)
}

/// The question whether a table holds an id.
pub fn exists_statement(table: Table, id: &str) -> (s: Statement)
    ensures
        s@ == exists_question(table, id@),
{
    let mut params: Vec<Param> = Vec::new();
    params.push(text_param("id", id));
    proof {
        assert(params@.map_values(|p: Param| p@) == exists_question(table, id@).params);
    }
    match table {
        Table::Projects => statement("SELECT 1 FROM projects WHERE project_id = :id", params),
        Table::Issues => statement("SELECT 1 FROM issues WHERE issue_id = :id", params),
        Table::PullRequests => statement(
            "SELECT 1 FROM pull_requests WHERE pull_id = :id",
            params,
        ),
    }
}

/// What a question for an id comes to. `row` is `None` where the store
/// could not be asked, and else holds the row that it found, if any.
pub fn exists_outcome(row: Option<Option<u32>>) -> (r: Result<bool, StoreError>)
    ensures
        r == exists_answer(row),
{
    match row {
        Some(Some(_)) => Ok(true),
        Some(None) => Err(StoreError::NotFound),
        None => Err(StoreError::Unavailable),
    }
}

/// Whether a failed write was refused as a duplicate: the failure came
/// from the server, with the code for a key that the table holds already.
pub open spec fn is_duplicate_key(server_code: Option<u16>) -> bool {
    server_code == Some(DUPLICATE_KEY_CODE)
}

/// Whether a failed write of this kind is handed on to the caller. The
/// failure of a summary always is; the failure of a comment is, unless the
/// comment was refused as a duplicate; any other failure is passed over.
pub open spec fn is_handed_on(kind: WriteKind, server_code: Option<u16>) -> bool {
    match kind {
        WriteKind::Summary => true,
        WriteKind::Comment => !is_duplicate_key(server_code),
        WriteKind::Other => false,
    }
}

/// What a write comes to. `failure` is `None` where the store did the
/// write, and else holds the code of the server, where the failure came from
/// the server.
pub fn write_outcome(kind: WriteKind, failure: Option<Option<u16>>) -> (r: Result<(), StoreError>)
    ensures
        r == match failure {
            None => Ok::<(), StoreError>(()),
            Some(server_code) => if is_handed_on(kind, server_code) {
                Err::<(), StoreError>(StoreError::WriteFailed)
            } else {
                Ok::<(), StoreError>(())
            },
        },
{
    match failure {
        None => Ok(()),
        Some(code) => match kind {
            WriteKind::Other => Ok(()),
            WriteKind::Summary => Err(StoreError::WriteFailed),
            WriteKind::Comment => match code {
                Some(c) => if c == DUPLICATE_KEY_CODE {
                    Ok(())
                } else {
                    Err(StoreError::WriteFailed)
                },
                None => Err(StoreError::WriteFailed),
            },
        },
    }
}

} // verus!
