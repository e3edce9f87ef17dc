use crate::outside::{rewrite_utc, utc_rewritten, TIMESTAMP_PATTERN};
use crate::text::{
    first_n, opt_text, opt_view, parent_of, parent_path, take_chars, text_or_empty,
};
use crate::walker::Page;
use vstd::prelude::*;

verus! {

/// How many characters of an issue's body are kept as its description.
pub const DESCRIPTION_LIMIT: usize = 240;

/// What stands in for the project of an issue whose address has no parent.
pub const WRONG_PROJECT_ID: &'static str = "wrong_project_id";

/// What stands in for the project of a pull request whose address has no
/// parent.
pub const UNKNOWN_PROJECT_ID: &'static str = "unknown";

#[derive(Clone, Debug, Default, PartialEq, Eq)]
pub struct RepoData {
    pub project_id: String,
    pub repo_description: String,
    pub repo_readme: String,
    pub repo_stars: i64,
    pub project_logo: String,
}

#[derive(Clone, Debug, Default, PartialEq, Eq)]
pub struct IssueAssigned {
    pub issue_id: String,
    pub issue_assignee: String,
    pub date_assigned: String,
}

#[derive(Clone, Debug, Default, PartialEq, Eq)]
pub struct IssueOpen {
    pub issue_title: String,
    pub issue_id: String,
    pub issue_description: String,
    pub project_id: String,
}

#[derive(Clone, Debug, PartialEq, Eq)]
pub struct IssueClosed {
    pub issue_id: String,
    pub issue_assignees: Option<Vec<String>>,
    pub issue_linked_pr: Option<String>,
}

#[derive(Clone, Debug, Default, PartialEq, Eq)]
pub struct OuterPull {
    pub pull_id: String,
    pub pull_title: String,
    pub pull_author: Option<String>,
    pub project_id: String,
    pub merged_at: String,
}

/// A participant of an issue: login, avatar and email.
#[derive(Clone, Debug, Default, PartialEq, Eq)]
pub struct Participant {
    pub login: String,
    pub avatar_url: String,
    pub email: String,
}

pub struct RepoDataView {
    pub project_id: Seq<char>,
    pub repo_description: Seq<char>,
    pub repo_readme: Seq<char>,
    pub repo_stars: i64,
    pub project_logo: Seq<char>,
}

pub struct IssueAssignedView {
    pub issue_id: Seq<char>,
    pub issue_assignee: Seq<char>,
    pub date_assigned: Seq<char>,
}

pub struct IssueOpenView {
    pub issue_title: Seq<char>,
    pub issue_id: Seq<char>,
    pub issue_description: Seq<char>,
    pub project_id: Seq<char>,
}

pub struct IssueClosedView {
    pub issue_id: Seq<char>,
    pub issue_assignees: Option<Seq<Seq<char>>>,
    pub issue_linked_pr: Option<Seq<char>>,
}

pub struct OuterPullView {
    pub pull_id: Seq<char>,
    pub pull_title: Seq<char>,
    pub pull_author: Option<Seq<char>>,
    pub project_id: Seq<char>,
    pub merged_at: Seq<char>,
}

pub struct ParticipantView {
    pub login: Seq<char>,
    pub avatar_url: Seq<char>,
    pub email: Seq<char>,
}

impl View for RepoData {
    type V = RepoDataView;

    open spec fn view(&self) -> RepoDataView {
        RepoDataView {
            project_id: self.project_id@,
            repo_description: self.repo_description@,
            repo_readme: self.repo_readme@,
            repo_stars: self.repo_stars,
            project_logo: self.project_logo@,
        }
    }
}

impl View for IssueAssigned {
    type V = IssueAssignedView;

    open spec fn view(&self) -> IssueAssignedView {
        IssueAssignedView {
            issue_id: self.issue_id@,
            issue_assignee: self.issue_assignee@,
            date_assigned: self.date_assigned@,
        }
    }
}

impl View for IssueOpen {
    type V = IssueOpenView;

    open spec fn view(&self) -> IssueOpenView {
        IssueOpenView {
            issue_title: self.issue_title@,
            issue_id: self.issue_id@,
            issue_description: self.issue_description@,
            project_id: self.project_id@,
        }
    }
}

impl View for IssueClosed {
    type V = IssueClosedView;

    open spec fn view(&self) -> IssueClosedView {
        IssueClosedView {
            issue_id: self.issue_id@,
            issue_assignees: match self.issue_assignees {
                Some(names) => Some(names@.map_values(|n: String| n@)),
                None => None,
            },
            issue_linked_pr: opt_view(self.issue_linked_pr),
        }
    }
}

impl View for OuterPull {
    type V = OuterPullView;

    open spec fn view(&self) -> OuterPullView {
        OuterPullView {
            pull_id: self.pull_id@,
            pull_title: self.pull_title@,
            pull_author: opt_view(self.pull_author),
            project_id: self.project_id@,
            merged_at: self.merged_at@,
        }
    }
}

impl View for Participant {
    type V = ParticipantView;

    open spec fn view(&self) -> ParticipantView {
        ParticipantView {
            login: self.login@,
            avatar_url: self.avatar_url@,
            email: self.email@,
        }
    }
}

/// Where a page of a search ends.
#[derive(Clone, Debug, Default, PartialEq, Eq)]
pub struct PageInfo {
    pub end_cursor: Option<String>,
    pub has_next_page: bool,
}

/// The answer to a search, as far as it was decoded.
#[derive(Clone, Debug, Default, PartialEq, Eq)]
pub struct Search<N> {
    pub nodes: Option<Vec<N>>,
    pub page_info: Option<PageInfo>,
}

#[derive(Clone, Debug, Default, PartialEq, Eq)]
pub struct Data<N> {
    pub search: Option<Search<N>>,
}

#[derive(Clone, Debug, Default, PartialEq, Eq)]
pub struct GraphQlResponse<N> {
    pub data: Option<Data<N>>,
}

/// Someone known by a login.
#[derive(Clone, Debug, Default, PartialEq, Eq)]
pub struct Login {
    pub login: Option<String>,
}

#[derive(Clone, Debug, Default, PartialEq, Eq)]
pub struct OpenIssueNode {
    pub title: String,
    pub url: String,
    pub body: Option<String>,
    pub author: Option<Login>,
}

#[derive(Clone, Debug, Default, PartialEq, Eq)]
pub struct PullNode {
    pub title: Option<String>,
    pub url: Option<String>,
    pub author: Option<Login>,
    pub merged_at: Option<String>,
}

/// The moment that `text` states, as the store takes it; the empty text
/// where `text` states none.
pub open spec fn moment_or_empty(text: Seq<char>) -> Seq<char> {
    match utc_rewritten(text, TIMESTAMP_PATTERN@) {
        Some(written) => written,
        None => Seq::empty(),
    }
}

/// The project behind the address of an issue or a pull request: the
/// address without its last two parts, or `fallback` where it has no such
/// parent.
pub open spec fn project_of(address: Seq<char>, fallback: Seq<char>) -> Seq<char> {
    match parent_path(address) {
        Some(parent) => parent,
        None => fallback,
    }
}

pub open spec fn login_of(who: Option<Login>) -> Option<Seq<char>> {
    match who {
        Some(l) => opt_view(l.login),
        None => None,
    }
}

pub open spec fn open_issue_of(node: OpenIssueNode) -> IssueOpenView {
    IssueOpenView {
        issue_title: node.title@,
        issue_id: node.url@,
        issue_description: first_n(opt_text(node.body), DESCRIPTION_LIMIT as int),
        project_id: project_of(node.url@, WRONG_PROJECT_ID@),
    }
}

pub open spec fn pull_of(node: PullNode) -> OuterPullView {
    OuterPullView {
        pull_id: opt_text(node.url),
        pull_title: opt_text(node.title),
        pull_author: login_of(node.author),
        project_id: project_of(opt_text(node.url), UNKNOWN_PROJECT_ID@),
        merged_at: moment_or_empty(opt_text(node.merged_at)),
    }
}

pub open spec fn open_issues_of(nodes: Seq<OpenIssueNode>) -> Seq<IssueOpenView> {
    nodes.map_values(|n: OpenIssueNode| open_issue_of(n))
}

pub open spec fn pulls_of(nodes: Seq<PullNode>) -> Seq<OuterPullView> {
    nodes.map_values(|n: PullNode| pull_of(n))
}

pub open spec fn open_issue_views(items: Seq<IssueOpen>) -> Seq<IssueOpenView> {
    items.map_values(|i: IssueOpen| i@)
}

pub open spec fn pull_views(items: Seq<OuterPull>) -> Seq<OuterPullView> {
    items.map_values(|i: OuterPull| i@)
}

/// Rewrites a moment as the store takes it.
pub fn convert_datetime(merged_at: &str) -> (r: Result<String, chrono::ParseError>)
    ensures
        r is Ok <==> utc_rewritten(merged_at@, TIMESTAMP_PATTERN@) is Some,
        r matches Ok(written) ==> utc_rewritten(merged_at@, TIMESTAMP_PATTERN@) == Some(written@),
{
    rewrite_utc(merged_at, TIMESTAMP_PATTERN)
}

/// The moment as the store takes it, or the empty text.
pub fn datetime_or_empty(text: &str) -> (out: String)
    ensures
        out@ == moment_or_empty(text@),
{
    match convert_datetime(text) {
        Ok(written) => written,
        Err(_) => String::new(),
    }
}

/// The project behind an address.
pub fn project_id_of(address: &str, fallback: &str) -> (out: String)
    ensures
        out@ == project_of(address@, fallback@),
{
    match parent_of(address) {
        Some(parent) => parent,
        None => fallback.to_owned(),
    }
}

pub fn login_or_none(who: &Option<Login>) -> (out: Option<String>)
    ensures
        opt_view(out) == login_of(*who),
{
    match who {
        Some(l) => l.login.clone(),
        None => None,
    }
}

pub fn open_issue_from_node(node: &OpenIssueNode) -> (issue: IssueOpen)
    ensures
        issue@ == open_issue_of(*node),
{
    let body = text_or_empty(&node.body);
    IssueOpen {
        issue_title: node.title.clone(),
        issue_id: node.url.clone(),
        issue_description: take_chars(body.as_str(), DESCRIPTION_LIMIT),
        project_id: project_id_of(node.url.as_str(), WRONG_PROJECT_ID),
    }
}

pub fn pull_from_node(node: &PullNode) -> (pull: OuterPull)
    ensures
        pull@ == pull_of(*node),
{
    let pull_id = text_or_empty(&node.url);
    let project_id = project_id_of(pull_id.as_str(), UNKNOWN_PROJECT_ID);
    let merged = text_or_empty(&node.merged_at);
    OuterPull {
        pull_id,
        pull_title: text_or_empty(&node.title),
        pull_author: login_or_none(&node.author),
        project_id,
        merged_at: datetime_or_empty(merged.as_str()),
    }
}

pub fn open_issues_from_nodes(nodes: &Vec<OpenIssueNode>) -> (issues: Vec<IssueOpen>)
    ensures
        open_issue_views(issues@) == open_issues_of(nodes@),
{
    let mut issues: Vec<IssueOpen> = Vec::new();
    let mut i: usize = 0;
    while i < nodes.len()
        invariant
            i <= nodes.len(),
            open_issue_views(issues@) == open_issues_of(nodes@.take(i as int)),
        decreases nodes.len() - i,
    {
        let ghost before = issues@;
        let issue = open_issue_from_node(&nodes[i]);
        issues.push(issue);
        proof {
            assert(open_issue_views(issues@) == open_issue_views(before).push(issue@));
            assert(open_issues_of(nodes@.take(i + 1)) == open_issues_of(nodes@.take(i as int)).push(
                open_issue_of(nodes@[i as int]),
            ));
        }
        i += 1;
    }
    proof {
        assert(nodes@.take(i as int) == nodes@);
    }
    issues
}

pub fn pulls_from_nodes(nodes: &Vec<PullNode>) -> (pulls: Vec<OuterPull>)
    ensures
        pull_views(pulls@) == pulls_of(nodes@),
{
    let mut pulls: Vec<OuterPull> = Vec::new();
    let mut i: usize = 0;
    while i < nodes.len()
        invariant
            i <= nodes.len(),
            pull_views(pulls@) == pulls_of(nodes@.take(i as int)),
        decreases nodes.len() - i,
    {
        let ghost before = pulls@;
        let pull = pull_from_node(&nodes[i]);
        pulls.push(pull);
        proof {
            assert(pull_views(pulls@) == pull_views(before).push(pull@));
            assert(pulls_of(nodes@.take(i + 1)) == pulls_of(nodes@.take(i as int)).push(
                pull_of(nodes@[i as int]),
            ));
        }
        i += 1;
    }
    proof {
        assert(nodes@.take(i as int) == nodes@);
    }
    pulls
}

#[derive(Clone, Debug, Default, PartialEq, Eq)]
pub struct Readme {
    pub text: Option<String>,
}

#[derive(Clone, Debug, Default, PartialEq, Eq)]
pub struct Stargazers {
    pub total_count: Option<i64>,
}

#[derive(Clone, Debug, Default, PartialEq, Eq)]
pub struct Owner {
    pub avatar_url: Option<String>,
}

#[derive(Clone, Debug, Default, PartialEq, Eq)]
pub struct RepoNode {
    pub url: String,
    pub description: Option<String>,
    pub readme: Option<Readme>,
    pub stargazers: Option<Stargazers>,
    pub owner: Option<Owner>,
}

#[derive(Clone, Debug, Default, PartialEq, Eq)]
pub struct AssignedEvent {
    pub assignee: Option<Login>,
    pub created_at: Option<String>,
}

#[derive(Clone, Debug, Default, PartialEq, Eq)]
pub struct AssignedTimeline {
    pub nodes: Option<Vec<AssignedEvent>>,
}

#[derive(Clone, Debug, Default, PartialEq, Eq)]
pub struct AssignedIssueNode {
    pub url: Option<String>,
    pub timeline_items: Option<AssignedTimeline>,
}

/// Someone known by a name.
#[derive(Clone, Debug, Default, PartialEq, Eq)]
pub struct Named {
    pub name: Option<String>,
}

#[derive(Clone, Debug, Default, PartialEq, Eq)]
pub struct NamedNodes {
    pub nodes: Option<Vec<Named>>,
}

/// What closed an issue: a pull request, where it has an address.
#[derive(Clone, Debug, Default, PartialEq, Eq)]
pub struct Closer {
    pub title: Option<String>,
    pub url: Option<String>,
    pub author: Option<Login>,
}

#[derive(Clone, Debug, Default, PartialEq, Eq)]
pub struct ClosedEvent {
    pub state_reason: Option<String>,
    pub closer: Option<Closer>,
}

#[derive(Clone, Debug, Default, PartialEq, Eq)]
pub struct ClosedTimeline {
    pub nodes: Option<Vec<ClosedEvent>>,
}

#[derive(Clone, Debug, Default, PartialEq, Eq)]
pub struct ClosedIssueNode {
    pub url: Option<String>,
    pub assignees: Option<NamedNodes>,
    pub timeline_items: Option<ClosedTimeline>,
}

#[derive(Clone, Debug, Default, PartialEq, Eq)]
pub struct ParticipantNode {
    pub login: Option<String>,
    pub avatar_url: Option<String>,
    pub email: Option<String>,
}

#[derive(Clone, Debug, Default, PartialEq, Eq)]
pub struct Participants {
    pub nodes: Option<Vec<ParticipantNode>>,
}

#[derive(Clone, Debug, Default, PartialEq, Eq)]
pub struct ParticipantsIssueNode {
    pub participants: Option<Participants>,
}

#[derive(Clone, Copy, Debug, Default, PartialEq, Eq)]
pub struct RateLimit {
    pub limit: i32,
    pub remaining: i32,
    pub used: i32,
}

#[derive(Clone, Copy, Debug, PartialEq, Eq, Structural)]
pub enum TrackerError {
    /// The answer states no rate limit.
    NoRateLimit,
}

pub open spec fn repo_of(node: RepoNode) -> RepoDataView {
    RepoDataView {
        project_id: node.url@,
        repo_description: opt_text(node.description),
        repo_readme: match node.readme {
            Some(readme) => opt_text(readme.text),
            None => Seq::empty(),
        },
        repo_stars: match node.stargazers {
            Some(Stargazers { total_count: Some(n) }) => n,
            _ => 0,
        },
        project_logo: match node.owner {
            Some(owner) => opt_text(owner.avatar_url),
            None => Seq::empty(),
        },
    }
}

pub open spec fn repos_of(nodes: Seq<RepoNode>) -> Seq<RepoDataView> {
    nodes.map_values(|n: RepoNode| repo_of(n))
}

pub open spec fn repo_views(items: Seq<RepoData>) -> Seq<RepoDataView> {
    items.map_values(|i: RepoData| i@)
}

pub open spec fn assignment_of(address: Option<String>, event: AssignedEvent) -> IssueAssignedView {
    IssueAssignedView {
        issue_id: opt_text(address),
        issue_assignee: match login_of(event.assignee) {
            Some(login) => login,
            None => Seq::empty(),
        },
        date_assigned: moment_or_empty(opt_text(event.created_at)),
    }
}

/// The assignments that the events of one issue state, in their order.
pub open spec fn assignments_of_events(address: Option<String>, events: Seq<AssignedEvent>) -> Seq<
    IssueAssignedView,
> {
    events.map_values(|e: AssignedEvent| assignment_of(address, e))
}

pub open spec fn assigned_events(node: AssignedIssueNode) -> Seq<AssignedEvent> {
    match node.timeline_items {
        Some(AssignedTimeline { nodes: Some(events) }) => events@,
        _ => Seq::empty(),
    }
}

/// The assignments that these issues state: issue by issue, event by event.
pub open spec fn assignments_of(nodes: Seq<AssignedIssueNode>) -> Seq<IssueAssignedView>
    decreases nodes.len(),
{
    if nodes.len() == 0 {
        Seq::empty()
    } else {
        assignments_of(nodes.drop_last()) + assignments_of_events(
            nodes.last().url,
            assigned_events(nodes.last()),
        )
    }
}

pub open spec fn assignment_views(items: Seq<IssueAssigned>) -> Seq<IssueAssignedView> {
    items.map_values(|i: IssueAssigned| i@)
}

/// The names among these, in their order.
pub open spec fn names_of(people: Seq<Named>) -> Seq<Seq<char>>
    decreases people.len(),
{
    if people.len() == 0 {
        Seq::empty()
    } else {
        match people.last().name {
            Some(name) => names_of(people.drop_last()).push(name@),
            None => names_of(people.drop_last()),
        }
    }
}

/// Those an issue is assigned to, where any is named.
pub open spec fn assignees_of(node: ClosedIssueNode) -> Option<Seq<Seq<char>>> {
    match node.assignees {
        Some(NamedNodes { nodes: Some(people) }) => if names_of(people@).len() == 0 {
            None
        } else {
            Some(names_of(people@))
        },
        _ => None,
    }
}

/// The pull request that closed an issue: the address of what the first
/// closing event names.
pub open spec fn linked_pull_of(node: ClosedIssueNode) -> Option<Seq<char>> {
    match node.timeline_items {
        Some(ClosedTimeline { nodes: Some(events) }) => if events@.len() == 0 {
            None
        } else {
            match events@[0].closer {
                Some(closer) => opt_view(closer.url),
                None => None,
            }
        },
        _ => None,
    }
}

/// The closed issues that these nodes state; a node without an address
/// states none.
pub open spec fn closed_issues_of(nodes: Seq<ClosedIssueNode>) -> Seq<IssueClosedView>
    decreases nodes.len(),
{
    if nodes.len() == 0 {
        Seq::empty()
    } else {
        match nodes.last().url {
            Some(address) => closed_issues_of(nodes.drop_last()).push(
                IssueClosedView {
                    issue_id: address@,
                    issue_assignees: assignees_of(nodes.last()),
                    issue_linked_pr: linked_pull_of(nodes.last()),
                },
            ),
            None => closed_issues_of(nodes.drop_last()),
        }
    }
}

pub open spec fn closed_issue_views(items: Seq<IssueClosed>) -> Seq<IssueClosedView> {
    items.map_values(|i: IssueClosed| i@)
}

pub open spec fn participant_of(node: ParticipantNode) -> ParticipantView {
    ParticipantView {
        login: opt_text(node.login),
        avatar_url: opt_text(node.avatar_url),
        email: opt_text(node.email),
    }
}

pub open spec fn participant_nodes(node: ParticipantsIssueNode) -> Seq<ParticipantNode> {
    match node.participants {
        Some(Participants { nodes: Some(people) }) => people@,
        _ => Seq::empty(),
    }
}

/// The participants of these issues: issue by issue, in their order.
pub open spec fn participants_of(nodes: Seq<ParticipantsIssueNode>) -> Seq<ParticipantView>
    decreases nodes.len(),
{
    if nodes.len() == 0 {
        Seq::empty()
    } else {
        participants_of(nodes.drop_last()) + participant_nodes(nodes.last()).map_values(
            |p: ParticipantNode| participant_of(p),
        )
    }
}

pub open spec fn participant_views(items: Seq<Participant>) -> Seq<ParticipantView> {
    items.map_values(|i: Participant| i@)
}

pub fn repo_from_node(node: &RepoNode) -> (repo: RepoData)
    ensures
        repo@ == repo_of(*node),
{
    RepoData {
        project_id: node.url.clone(),
        repo_description: text_or_empty(&node.description),
        repo_readme: match &node.readme {
            Some(readme) => text_or_empty(&readme.text),
            None => String::new(),
        },
        repo_stars: match &node.stargazers {
            Some(Stargazers { total_count: Some(n) }) => *n,
            _ => 0,
        },
        project_logo: match &node.owner {
            Some(owner) => text_or_empty(&owner.avatar_url),
            None => String::new(),
        },
    }
}

pub fn repos_from_nodes(nodes: &Vec<RepoNode>) -> (repos: Vec<RepoData>)
    ensures
        repo_views(repos@) == repos_of(nodes@),
{
    let mut repos: Vec<RepoData> = Vec::new();
    let mut i: usize = 0;
    while i < nodes.len()
        invariant
            i <= nodes.len(),
            repo_views(repos@) == repos_of(nodes@.take(i as int)),
        decreases nodes.len() - i,
    {
        let ghost before = repos@;
        let repo = repo_from_node(&nodes[i]);
        repos.push(repo);
        proof {
            assert(repo_views(repos@) == repo_views(before).push(repo@));
            assert(repos_of(nodes@.take(i + 1)) == repos_of(nodes@.take(i as int)).push(
                repo_of(nodes@[i as int]),
            ));
        }
        i += 1;
    }
    proof {
        assert(nodes@.take(i as int) == nodes@);
    }
    repos
}

/// The repositories that the answer to a repository search states.
pub fn repos_from_response(response: &GraphQlResponse<RepoNode>) -> (repos: Vec<RepoData>)
    ensures
        repo_views(repos@) == repos_of(found_nodes(*response)),
{
    match &response.data {
        Some(Data { search: Some(Search { nodes: Some(nodes), page_info: _ }) }) => {
            repos_from_nodes(nodes)
        },
        _ => {
            let repos: Vec<RepoData> = Vec::new();
            proof {
                assert(repo_views(repos@) == repos_of(Seq::<RepoNode>::empty()));
            }
            repos
        },
    }
}

/// The nodes that an answer holds: none where any level of it is absent.
pub open spec fn found_nodes<N>(response: GraphQlResponse<N>) -> Seq<N> {
    match response.data {
        Some(Data { search: Some(Search { nodes: Some(nodes), page_info: _ }) }) => nodes@,
        _ => Seq::empty(),
    }
}

pub fn assignment_from_event(address: &Option<String>, event: &AssignedEvent) -> (r: IssueAssigned)
    ensures
        r@ == assignment_of(*address, *event),
{
    let created = text_or_empty(&event.created_at);
    IssueAssigned {
        issue_id: text_or_empty(address),
        issue_assignee: text_or_empty(&login_or_none(&event.assignee)),
        date_assigned: datetime_or_empty(created.as_str()),
    }
}

/// Adds the assignments that one issue states to `out`.
fn push_assignments(out: &mut Vec<IssueAssigned>, node: &AssignedIssueNode)
    ensures
        assignment_views(final(out)@) == assignment_views(old(out)@) + assignments_of_events(
            node.url,
            assigned_events(*node),
        ),
{
    let ghost start = assignment_views(out@);
    match &node.timeline_items {
        Some(AssignedTimeline { nodes: Some(events) }) => {
            let mut i: usize = 0;
            proof {
                assert(start + assignments_of_events(node.url, events@.take(0)) == start);
            }
            while i < events.len()
                invariant
                    i <= events.len(),
                    assignment_views(out@) == start + assignments_of_events(
                        node.url,
                        events@.take(i as int),
                    ),
                decreases events.len() - i,
            {
                let ghost before = out@;
                let item = assignment_from_event(&node.url, &events[i]);
                out.push(item);
                proof {
                    assert(assignment_views(out@) == assignment_views(before).push(item@));
                    assert(assignments_of_events(node.url, events@.take(i + 1))
                        == assignments_of_events(node.url, events@.take(i as int)).push(
                        assignment_of(node.url, events@[i as int]),
                    ));
                    assert(start + assignments_of_events(node.url, events@.take(i + 1)) == (start
                        + assignments_of_events(node.url, events@.take(i as int))).push(item@));
                }
                i += 1;
            }
            proof {
                assert(events@.take(i as int) == events@);
            }
        },
        _ => {
            proof {
                assert(start + assignments_of_events(node.url, Seq::<AssignedEvent>::empty())
                    == start);
            }
        },
    }
}

pub fn assignments_from_nodes(nodes: &Vec<AssignedIssueNode>) -> (out: Vec<IssueAssigned>)
    ensures
        assignment_views(out@) == assignments_of(nodes@),
{
    let mut out: Vec<IssueAssigned> = Vec::new();
    let mut i: usize = 0;
    proof {
        assert(assignment_views(out@) == assignments_of(nodes@.take(0)));
    }
    while i < nodes.len()
        invariant
            i <= nodes.len(),
            assignment_views(out@) == assignments_of(nodes@.take(i as int)),
        decreases nodes.len() - i,
    {
        proof {
            assert(nodes@.take(i + 1).drop_last() == nodes@.take(i as int));
            assert(nodes@.take(i + 1).last() == nodes@[i as int]);
        }
        push_assignments(&mut out, &nodes[i]);
        i += 1;
    }
    proof {
        assert(nodes@.take(i as int) == nodes@);
    }
    out
}

pub fn names_from(people: &Vec<Named>) -> (names: Vec<String>)
    ensures
        names@.map_values(|n: String| n@) == names_of(people@),
{
    let mut names: Vec<String> = Vec::new();
    let mut i: usize = 0;
    proof {
        assert(names@.map_values(|n: String| n@) == names_of(people@.take(0)));
    }
    while i < people.len()
        invariant
            i <= people.len(),
            names@.map_values(|n: String| n@) == names_of(people@.take(i as int)),
        decreases people.len() - i,
    {
        let ghost before = names@;
        proof {
            assert(people@.take(i + 1).drop_last() == people@.take(i as int));
            assert(people@.take(i + 1).last() == people@[i as int]);
        }
        match &people[i].name {
            Some(name) => {
                names.push(name.clone());
                proof {
                    assert(names@.map_values(|n: String| n@) == before.map_values(
                        |n: String| n@,
                    ).push(name@));
                }
            },
            None => {},
        }
        i += 1;
    }
    proof {
        assert(people@.take(i as int) == people@);
    }
    names
}

pub fn closed_issue_from_node(node: &ClosedIssueNode) -> (r: Option<IssueClosed>)
    ensures
        match r {
            Some(issue) => node.url is Some && issue@ == (IssueClosedView {
                issue_id: node.url->0@,
                issue_assignees: assignees_of(*node),
                issue_linked_pr: linked_pull_of(*node),
            }),
            None => node.url is None,
        },
{
    let issue_assignees = match &node.assignees {
        Some(NamedNodes { nodes: Some(people) }) => {
            let names = names_from(people);
            if names.len() == 0 {
                None
            } else {
                Some(names)
            }
        },
        _ => None,
    };
    let issue_linked_pr = match &node.timeline_items {
        Some(ClosedTimeline { nodes: Some(events) }) => {
            if events.len() == 0 {
                None
            } else {
                match &events[0].closer {
                    Some(closer) => closer.url.clone(),
                    None => None,
                }
            }
        },
        _ => None,
    };
    match &node.url {
        Some(address) => Some(
            IssueClosed { issue_id: address.clone(), issue_assignees, issue_linked_pr },
        ),
        None => None,
    }
}

pub fn closed_issues_from_nodes(nodes: &Vec<ClosedIssueNode>) -> (out: Vec<IssueClosed>)
    ensures
        closed_issue_views(out@) == closed_issues_of(nodes@),
{
    let mut out: Vec<IssueClosed> = Vec::new();
    let mut i: usize = 0;
    proof {
        assert(closed_issue_views(out@) == closed_issues_of(nodes@.take(0)));
    }
    while i < nodes.len()
        invariant
            i <= nodes.len(),
            closed_issue_views(out@) == closed_issues_of(nodes@.take(i as int)),
        decreases nodes.len() - i,
    {
        let ghost before = out@;
        proof {
            assert(nodes@.take(i + 1).drop_last() == nodes@.take(i as int));
            assert(nodes@.take(i + 1).last() == nodes@[i as int]);
        }
        match closed_issue_from_node(&nodes[i]) {
            Some(issue) => {
                out.push(issue);
                proof {
                    assert(closed_issue_views(out@) == closed_issue_views(before).push(issue@));
                }
            },
            None => {},
        }
        i += 1;
    }
    proof {
        assert(nodes@.take(i as int) == nodes@);
    }
    out
}

pub fn participant_from_node(node: &ParticipantNode) -> (r: Participant)
    ensures
        r@ == participant_of(*node),
{
    Participant {
        login: text_or_empty(&node.login),
        avatar_url: text_or_empty(&node.avatar_url),
        email: text_or_empty(&node.email),
    }
}

fn push_participants(out: &mut Vec<Participant>, node: &ParticipantsIssueNode)
    ensures
        participant_views(final(out)@) == participant_views(old(out)@) + participant_nodes(
            *node,
        ).map_values(|p: ParticipantNode| participant_of(p)),
{
    let ghost start = participant_views(out@);
    match &node.participants {
        Some(Participants { nodes: Some(people) }) => {
            let mut i: usize = 0;
            proof {
                assert(start + people@.take(0).map_values(|p: ParticipantNode| participant_of(p))
                    == start);
            }
            while i < people.len()
                invariant
                    i <= people.len(),
                    participant_views(out@) == start + people@.take(i as int).map_values(
                        |p: ParticipantNode| participant_of(p),
                    ),
                decreases people.len() - i,
            {
                let ghost before = out@;
                let item = participant_from_node(&people[i]);
                out.push(item);
                proof {
                    assert(participant_views(out@) == participant_views(before).push(item@));
                    assert(people@.take(i + 1).map_values(|p: ParticipantNode| participant_of(p))
                        == people@.take(i as int).map_values(
                        |p: ParticipantNode| participant_of(p),
                    ).push(participant_of(people@[i as int])));
                    assert(start + people@.take(i + 1).map_values(
                        |p: ParticipantNode| participant_of(p),
                    ) == (start + people@.take(i as int).map_values(
                        |p: ParticipantNode| participant_of(p),
                    )).push(item@));
                }
                i += 1;
            }
            proof {
                assert(people@.take(i as int) == people@);
            }
        },
        _ => {
            proof {
                assert(start + Seq::<ParticipantNode>::empty().map_values(
                    |p: ParticipantNode| participant_of(p),
                ) == start);
            }
        },
    }
}

pub fn participants_from_nodes(nodes: &Vec<ParticipantsIssueNode>) -> (out: Vec<Participant>)
    ensures
        participant_views(out@) == participants_of(nodes@),
{
    let mut out: Vec<Participant> = Vec::new();
    let mut i: usize = 0;
    proof {
        assert(participant_views(out@) == participants_of(nodes@.take(0)));
    }
    while i < nodes.len()
        invariant
            i <= nodes.len(),
            participant_views(out@) == participants_of(nodes@.take(i as int)),
        decreases nodes.len() - i,
    {
        proof {
            assert(nodes@.take(i + 1).drop_last() == nodes@.take(i as int));
            assert(nodes@.take(i + 1).last() == nodes@[i as int]);
        }
        push_participants(&mut out, &nodes[i]);
        i += 1;
    }
    proof {
        assert(nodes@.take(i as int) == nodes@);
    }
    out
}

/// The requests that are left, where the answer states a rate limit.
pub fn remaining_requests(rate_limit: Option<RateLimit>) -> (r: Result<i32, TrackerError>)
    ensures
        r == match rate_limit {
            Some(limit) => Ok::<i32, TrackerError>(limit.remaining),
            None => Err::<i32, TrackerError>(TrackerError::NoRateLimit),
        },
{
    match rate_limit {
        Some(limit) => Ok(limit.remaining),
        None => Err(TrackerError::NoRateLimit),
    }
}

/// Where the crawl goes after an answer. Page information counts only
/// where the search is there (and, for pull requests, its nodes too); else
/// the same page is asked for again.
pub open spec fn page_turn<N>(
    response: GraphQlResponse<N>,
    cursor: Option<Seq<char>>,
    turn_needs_nodes: bool,
) -> (Option<Seq<char>>, bool) {
    match response.data {
        Some(Data { search: Some(Search { nodes, page_info: Some(info) }) }) => if turn_needs_nodes
            && nodes is None {
            (cursor, true)
        } else {
            (opt_view(info.end_cursor), info.has_next_page)
        },
        _ => (cursor, true),
    }
}

/// Takes an answer apart: its nodes, and where the crawl goes next.
pub fn split_response<N>(
    response: GraphQlResponse<N>,
    cursor: &Option<String>,
    turn_needs_nodes: bool,
) -> (r: (Vec<N>, Option<String>, bool))
    ensures
        r.0@ == found_nodes(response),
        (opt_view(r.1), r.2) == page_turn(response, opt_view(*cursor), turn_needs_nodes),
{
    let search = match response.data {
        Some(Data { search: Some(search) }) => search,
        _ => {
            return (Vec::new(), cursor.clone(), true);
        },
    };
    let Search { nodes, page_info } = search;
    let has_nodes = nodes.is_some();
    let found = match nodes {
        Some(found) => found,
        None => Vec::new(),
    };
    match page_info {
        Some(info) => {
            if turn_needs_nodes && !has_nodes {
                (found, cursor.clone(), true)
            } else {
                (found, info.end_cursor, info.has_next_page)
            }
        },
        None => (found, cursor.clone(), true),
    }
}

/// The page of open issues that an answer states.
pub fn open_issues_page(response: GraphQlResponse<OpenIssueNode>, cursor: &Option<String>) -> (page:
    Page<IssueOpen>)
    ensures
        open_issue_views(page@.nodes) == open_issues_of(found_nodes(response)),
        (page@.next_cursor, page@.has_more) == page_turn(response, opt_view(*cursor), false),
{
    let (nodes, next_cursor, has_more) = split_response(response, cursor, false);
    Page { nodes: open_issues_from_nodes(&nodes), next_cursor, has_more }
}

/// The page of assignments that an answer states.
pub fn assigned_issues_page(
    response: GraphQlResponse<AssignedIssueNode>,
    cursor: &Option<String>,
) -> (page: Page<IssueAssigned>)
    ensures
        assignment_views(page@.nodes) == assignments_of(found_nodes(response)),
        (page@.next_cursor, page@.has_more) == page_turn(response, opt_view(*cursor), false),
{
    let (nodes, next_cursor, has_more) = split_response(response, cursor, false);
    Page { nodes: assignments_from_nodes(&nodes), next_cursor, has_more }
}

/// The page of closed issues that an answer states.
pub fn closed_issues_page(response: GraphQlResponse<ClosedIssueNode>, cursor: &Option<String>) -> (page:
    Page<IssueClosed>)
    ensures
        closed_issue_views(page@.nodes) == closed_issues_of(found_nodes(response)),
        (page@.next_cursor, page@.has_more) == page_turn(response, opt_view(*cursor), false),
{
    let (nodes, next_cursor, has_more) = split_response(response, cursor, false);
    Page { nodes: closed_issues_from_nodes(&nodes), next_cursor, has_more }
}

/// The page of pull requests that an answer states.
pub fn pull_requests_page(response: GraphQlResponse<PullNode>, cursor: &Option<String>) -> (page:
    Page<OuterPull>)
    ensures
        pull_views(page@.nodes) == pulls_of(found_nodes(response)),
        (page@.next_cursor, page@.has_more) == page_turn(response, opt_view(*cursor), true),
{
    let (nodes, next_cursor, has_more) = split_response(response, cursor, true);
    Page { nodes: pulls_from_nodes(&nodes), next_cursor, has_more }
}

/// The page of participants that an answer states.
pub fn participants_page(
    response: GraphQlResponse<ParticipantsIssueNode>,
    cursor: &Option<String>,
) -> (page: Page<Participant>)
    ensures
        participant_views(page@.nodes) == participants_of(found_nodes(response)),
        (page@.next_cursor, page@.has_more) == page_turn(response, opt_view(*cursor), false),
{
    let (nodes, next_cursor, has_more) = split_response(response, cursor, false);
    Page { nodes: participants_from_nodes(&nodes), next_cursor, has_more }
}

} // verus!
