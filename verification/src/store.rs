use crate::db_populate::{StoreError, BATCH_SIZE};
use crate::json::{clone_strings, string_pair_views, string_views};
use crate::text::{first_n, opt_view};
use vstd::prelude::*;

verus! {

/// A project as the store keeps it. What is not known is `None`.
#[derive(Clone, Debug, PartialEq, Eq)]
pub struct Project {
    pub project_id: String,
    pub logo: Option<String>,
    pub language: Option<String>,
    pub star_count: Option<i64>,
    pub description: Option<String>,
}

#[derive(Clone, Debug, PartialEq, Eq)]
pub struct Issue {
    pub issue_id: String,
    pub project_id: String,
    pub title: String,
    pub description: String,
    pub assignees: Option<String>,
}

#[derive(Clone, Debug, PartialEq, Eq)]
pub struct Comment {
    pub issue_id: String,
    pub timestamp: String,
    pub creator: String,
    pub body: String,
}

#[derive(Clone, Debug, PartialEq, Eq)]
pub struct PullRequest {
    pub pull_id: String,
    pub project_id: String,
    pub author: Option<String>,
    pub merge_timestamp: String,
}

/// The summary of a project or of an issue.
#[derive(Clone, Debug, PartialEq, Eq)]
pub struct SummaryRecord {
    pub entity_id: String,
    pub summary_text: String,
    pub keyword_tags: Vec<String>,
    pub indexed: bool,
}

pub struct ProjectView {
    pub project_id: Seq<char>,
    pub logo: Option<Seq<char>>,
    pub language: Option<Seq<char>>,
    pub star_count: Option<i64>,
    pub description: Option<Seq<char>>,
}

pub struct IssueView {
    pub issue_id: Seq<char>,
    pub project_id: Seq<char>,
    pub title: Seq<char>,
    pub description: Seq<char>,
    pub assignees: Option<Seq<char>>,
}

pub struct CommentView {
    pub issue_id: Seq<char>,
    pub timestamp: Seq<char>,
    pub creator: Seq<char>,
    pub body: Seq<char>,
}

pub struct PullRequestView {
    pub pull_id: Seq<char>,
    pub project_id: Seq<char>,
    pub author: Option<Seq<char>>,
    pub merge_timestamp: Seq<char>,
}

pub struct SummaryView {
    pub entity_id: Seq<char>,
    pub summary_text: Seq<char>,
    pub keyword_tags: Seq<Seq<char>>,
    pub indexed: bool,
}

impl View for Project {
    type V = ProjectView;

    open spec fn view(&self) -> ProjectView {
        ProjectView {
            project_id: self.project_id@,
            logo: opt_view(self.logo),
            language: opt_view(self.language),
            star_count: self.star_count,
            description: opt_view(self.description),
        }
    }
}

impl View for Issue {
    type V = IssueView;

    open spec fn view(&self) -> IssueView {
        IssueView {
            issue_id: self.issue_id@,
            project_id: self.project_id@,
            title: self.title@,
            description: self.description@,
            assignees: opt_view(self.assignees),
        }
    }
}

impl View for Comment {
    type V = CommentView;

    open spec fn view(&self) -> CommentView {
        CommentView {
            issue_id: self.issue_id@,
            timestamp: self.timestamp@,
            creator: self.creator@,
            body: self.body@,
        }
    }
}

impl View for PullRequest {
    type V = PullRequestView;

    open spec fn view(&self) -> PullRequestView {
        PullRequestView {
            pull_id: self.pull_id@,
            project_id: self.project_id@,
            author: opt_view(self.author),
            merge_timestamp: self.merge_timestamp@,
        }
    }
}

impl View for SummaryRecord {
    type V = SummaryView;

    open spec fn view(&self) -> SummaryView {
        SummaryView {
            entity_id: self.entity_id@,
            summary_text: self.summary_text@,
            keyword_tags: string_views(self.keyword_tags@),
            indexed: self.indexed,
        }
    }
}

/// How far an entity has come.
#[derive(Clone, Copy, Debug, PartialEq, Eq, Structural)]
pub enum EntityState {
    /// The entity has no summary.
    Unsummarized,
    /// The entity has a summary that is not in the index yet.
    Summarized,
    /// The summary of the entity is in the index.
    Indexed,
}

/// What the store holds, table by table, each in the order of its rows.
pub struct StoreView {
    pub projects: Seq<ProjectView>,
    pub issues: Seq<IssueView>,
    pub comments: Seq<CommentView>,
    pub pulls: Seq<PullRequestView>,
    pub summaries: Seq<SummaryView>,
}

pub open spec fn project_views(rows: Seq<Project>) -> Seq<ProjectView> {
    rows.map_values(|r: Project| r@)
}

pub open spec fn issue_views(rows: Seq<Issue>) -> Seq<IssueView> {
    rows.map_values(|r: Issue| r@)
}

pub open spec fn comment_views(rows: Seq<Comment>) -> Seq<CommentView> {
    rows.map_values(|r: Comment| r@)
}

pub open spec fn pull_request_views(rows: Seq<PullRequest>) -> Seq<PullRequestView> {
    rows.map_values(|r: PullRequest| r@)
}

pub open spec fn summary_views(rows: Seq<SummaryRecord>) -> Seq<SummaryView> {
    rows.map_values(|r: SummaryRecord| r@)
}

pub open spec fn is_project_at(rows: Seq<ProjectView>, id: Seq<char>, i: int) -> bool {
    0 <= i < rows.len() && rows[i].project_id == id
}

pub open spec fn is_issue_at(rows: Seq<IssueView>, id: Seq<char>, i: int) -> bool {
    0 <= i < rows.len() && rows[i].issue_id == id
}

pub open spec fn is_comment_at(
    rows: Seq<CommentView>,
    issue_id: Seq<char>,
    timestamp: Seq<char>,
    i: int,
) -> bool {
    0 <= i < rows.len() && rows[i].issue_id == issue_id && rows[i].timestamp == timestamp
}

pub open spec fn is_pull_at(rows: Seq<PullRequestView>, id: Seq<char>, i: int) -> bool {
    0 <= i < rows.len() && rows[i].pull_id == id
}

pub open spec fn is_summary_at(rows: Seq<SummaryView>, id: Seq<char>, i: int) -> bool {
    0 <= i < rows.len() && rows[i].entity_id == id
}

pub open spec fn has_project(rows: Seq<ProjectView>, id: Seq<char>) -> bool {
    exists|i: int| is_project_at(rows, id, i)
}

pub open spec fn has_issue(rows: Seq<IssueView>, id: Seq<char>) -> bool {
    exists|i: int| is_issue_at(rows, id, i)
}

pub open spec fn has_comment(rows: Seq<CommentView>, issue_id: Seq<char>, timestamp: Seq<char>) -> bool {
    exists|i: int| is_comment_at(rows, issue_id, timestamp, i)
}

pub open spec fn has_pull(rows: Seq<PullRequestView>, id: Seq<char>) -> bool {
    exists|i: int| is_pull_at(rows, id, i)
}

pub open spec fn has_summary(rows: Seq<SummaryView>, id: Seq<char>) -> bool {
    exists|i: int| is_summary_at(rows, id, i)
}

pub open spec fn project_index(rows: Seq<ProjectView>, id: Seq<char>) -> int {
    choose|i: int| is_project_at(rows, id, i)
}

pub open spec fn summary_index(rows: Seq<SummaryView>, id: Seq<char>) -> int {
    choose|i: int| is_summary_at(rows, id, i)
}

impl StoreView {
    /// No table holds two rows under one key.
    pub open spec fn well_formed(self) -> bool {
        &&& forall|i: int, j: int|
            0 <= i < j < self.projects.len() ==> self.projects[i].project_id
                != self.projects[j].project_id
        &&& forall|i: int, j: int|
            0 <= i < j < self.issues.len() ==> self.issues[i].issue_id != self.issues[j].issue_id
        &&& forall|i: int, j: int|
            0 <= i < j < self.comments.len() ==> !(self.comments[i].issue_id
                == self.comments[j].issue_id && self.comments[i].timestamp
                == self.comments[j].timestamp)
        &&& forall|i: int, j: int|
            0 <= i < j < self.pulls.len() ==> self.pulls[i].pull_id != self.pulls[j].pull_id
        &&& forall|i: int, j: int|
            0 <= i < j < self.summaries.len() ==> self.summaries[i].entity_id
                != self.summaries[j].entity_id
        &&& forall|i: int|
            0 <= i < self.issues.len() ==> has_project(
                self.projects,
                (#[trigger] self.issues[i]).project_id,
            )
    }

    /// How far the entity `id` has come.
    pub open spec fn state_of(self, id: Seq<char>) -> EntityState {
        if !has_summary(self.summaries, id) {
            EntityState::Unsummarized
        } else if self.summaries[summary_index(self.summaries, id)].indexed {
            EntityState::Indexed
        } else {
            EntityState::Summarized
        }
    }
}

/// The store with nothing in it.
pub open spec fn empty_store() -> StoreView {
    StoreView {
        projects: Seq::empty(),
        issues: Seq::empty(),
        comments: Seq::empty(),
        pulls: Seq::empty(),
        summaries: Seq::empty(),
    }
}

/// A stored project after a new sighting: what the sighting knows replaces
/// what was stored, what it does not know stays.
pub open spec fn merged(stored: ProjectView, incoming: ProjectView) -> ProjectView {
    ProjectView {
        project_id: stored.project_id,
        logo: if incoming.logo is Some {
            incoming.logo
        } else {
            stored.logo
        },
        language: if incoming.language is Some {
            incoming.language
        } else {
            stored.language
        },
        star_count: if incoming.star_count is Some {
            incoming.star_count
        } else {
            stored.star_count
        },
        description: if incoming.description is Some {
            incoming.description
        } else {
            stored.description
        },
    }
}

/// The store after a project was written: a new project is added, a known
/// one is merged in place.
pub open spec fn with_project(store: StoreView, p: ProjectView) -> StoreView {
    if has_project(store.projects, p.project_id) {
        let i = project_index(store.projects, p.project_id);
        StoreView { projects: store.projects.update(i, merged(store.projects[i], p)), ..store }
    } else {
        StoreView { projects: store.projects.push(p), ..store }
    }
}

/// What writing an issue comes to: the project must be there, and the
/// issue must be new.
pub open spec fn issue_outcome(store: StoreView, issue: IssueView) -> Result<(), StoreError> {
    if !has_project(store.projects, issue.project_id) {
        Err(StoreError::MissingProject)
    } else if has_issue(store.issues, issue.issue_id) {
        Err(StoreError::DuplicateKey)
    } else {
        Ok(())
    }
}

pub open spec fn with_issue(store: StoreView, issue: IssueView) -> StoreView {
    if issue_outcome(store, issue) is Ok {
        StoreView { issues: store.issues.push(issue), ..store }
    } else {
        store
    }
}

/// The store after a comment was written: a comment that the issue already
/// has under the same moment changes nothing.
pub open spec fn with_comment(store: StoreView, comment: CommentView) -> StoreView {
    if has_comment(store.comments, comment.issue_id, comment.timestamp) {
        store
    } else {
        StoreView { comments: store.comments.push(comment), ..store }
    }
}

pub open spec fn with_pull(store: StoreView, pull: PullRequestView) -> StoreView {
    if has_pull(store.pulls, pull.pull_id) {
        store
    } else {
        StoreView { pulls: store.pulls.push(pull), ..store }
    }
}

/// The store after a summary was written: a new entity gets a record that
/// is not indexed; of a known entity only the keywords change.
pub open spec fn with_summary(
    store: StoreView,
    entity_id: Seq<char>,
    summary_text: Seq<char>,
    keyword_tags: Seq<Seq<char>>,
) -> StoreView {
    if has_summary(store.summaries, entity_id) {
        let i = summary_index(store.summaries, entity_id);
        StoreView {
            summaries: store.summaries.update(
                i,
                SummaryView { keyword_tags, ..store.summaries[i] },
            ),
            ..store
        }
    } else {
        StoreView {
            summaries: store.summaries.push(
                SummaryView { entity_id, summary_text, keyword_tags, indexed: false },
            ),
            ..store
        }
    }
}

/// The store after the summary of `entity_id` was marked as indexed.
pub open spec fn with_indexed(store: StoreView, entity_id: Seq<char>) -> StoreView {
    if has_summary(store.summaries, entity_id) {
        let i = summary_index(store.summaries, entity_id);
        StoreView {
            summaries: store.summaries.update(
                i,
                SummaryView { indexed: true, ..store.summaries[i] },
            ),
            ..store
        }
    } else {
        store
    }
}

/// The issues that have no summary, in the order of the table.
pub open spec fn backlog(issues: Seq<IssueView>, summaries: Seq<SummaryView>) -> Seq<IssueView>
    decreases issues.len(),
{
    if issues.len() == 0 {
        Seq::empty()
    } else if has_summary(summaries, issues.last().issue_id) {
        backlog(issues.drop_last(), summaries)
    } else {
        backlog(issues.drop_last(), summaries).push(issues.last())
    }
}

/// The summaries that are not indexed, in the order of the table.
pub open spec fn pending(summaries: Seq<SummaryView>) -> Seq<SummaryView>
    decreases summaries.len(),
{
    if summaries.len() == 0 {
        Seq::empty()
    } else if summaries.last().indexed {
        pending(summaries.drop_last())
    } else {
        pending(summaries.drop_last()).push(summaries.last())
    }
}

/// The records of projects, issues, comments, pull requests and summaries,
/// held in memory with the rules of the relational store.
pub struct EntityStore {
    projects: Vec<Project>,
    issues: Vec<Issue>,
    comments: Vec<Comment>,
    pulls: Vec<PullRequest>,
    summaries: Vec<SummaryRecord>,
}

impl View for EntityStore {
    type V = StoreView;

    closed spec fn view(&self) -> StoreView {
        StoreView {
            projects: project_views(self.projects@),
            issues: issue_views(self.issues@),
            comments: comment_views(self.comments@),
            pulls: pull_request_views(self.pulls@),
            summaries: summary_views(self.summaries@),
        }
    }
}

fn find_project(rows: &Vec<Project>, id: &String) -> (r: Option<usize>)
    ensures
        match r {
            Some(i) => is_project_at(project_views(rows@), id@, i as int),
            None => !has_project(project_views(rows@), id@),
        },
{
    let mut i: usize = 0;
    while i < rows.len()
        invariant
            i <= rows.len(),
            forall|k: int| 0 <= k < i ==> !is_project_at(project_views(rows@), id@, k),
        decreases rows.len() - i,
    {
        if rows[i].project_id == *id {
            return Some(i);
        }
        i += 1;
    }
    None
}

fn find_issue(rows: &Vec<Issue>, id: &String) -> (r: Option<usize>)
    ensures
        match r {
            Some(i) => is_issue_at(issue_views(rows@), id@, i as int),
            None => !has_issue(issue_views(rows@), id@),
        },
{
    let mut i: usize = 0;
    while i < rows.len()
        invariant
            i <= rows.len(),
            forall|k: int| 0 <= k < i ==> !is_issue_at(issue_views(rows@), id@, k),
        decreases rows.len() - i,
    {
        if rows[i].issue_id == *id {
            return Some(i);
        }
        i += 1;
    }
    None
}

fn find_comment(rows: &Vec<Comment>, issue_id: &String, timestamp: &String) -> (r: Option<usize>)
    ensures
        match r {
            Some(i) => is_comment_at(comment_views(rows@), issue_id@, timestamp@, i as int),
            None => !has_comment(comment_views(rows@), issue_id@, timestamp@),
        },
{
    let mut i: usize = 0;
    while i < rows.len()
        invariant
            i <= rows.len(),
            forall|k: int|
                0 <= k < i ==> !is_comment_at(comment_views(rows@), issue_id@, timestamp@, k),
        decreases rows.len() - i,
    {
        if rows[i].issue_id == *issue_id && rows[i].timestamp == *timestamp {
            return Some(i);
        }
        i += 1;
    }
    None
}

fn find_pull(rows: &Vec<PullRequest>, id: &String) -> (r: Option<usize>)
    ensures
        match r {
            Some(i) => is_pull_at(pull_request_views(rows@), id@, i as int),
            None => !has_pull(pull_request_views(rows@), id@),
        },
{
    let mut i: usize = 0;
    while i < rows.len()
        invariant
            i <= rows.len(),
            forall|k: int| 0 <= k < i ==> !is_pull_at(pull_request_views(rows@), id@, k),
        decreases rows.len() - i,
    {
        if rows[i].pull_id == *id {
            return Some(i);
        }
        i += 1;
    }
    None
}

fn find_summary(rows: &Vec<SummaryRecord>, id: &String) -> (r: Option<usize>)
    ensures
        match r {
            Some(i) => is_summary_at(summary_views(rows@), id@, i as int),
            None => !has_summary(summary_views(rows@), id@),
        },
{
    let mut i: usize = 0;
    while i < rows.len()
        invariant
            i <= rows.len(),
            forall|k: int| 0 <= k < i ==> !is_summary_at(summary_views(rows@), id@, k),
        decreases rows.len() - i,
    {
        if rows[i].entity_id == *id {
            return Some(i);
        }
        i += 1;
    }
    None
}

/// Under unique keys the place of a project is the one place it has.
pub proof fn lemma_project_index(store: StoreView, id: Seq<char>, i: int)
    requires
        store.well_formed(),
        is_project_at(store.projects, id, i),
    ensures
        has_project(store.projects, id),
        project_index(store.projects, id) == i,
{
    let j = project_index(store.projects, id);
    assert(is_project_at(store.projects, id, j));
    if i < j {
        assert(store.projects[i].project_id != store.projects[j].project_id);
    } else if j < i {
        assert(store.projects[j].project_id != store.projects[i].project_id);
    }
}

/// Under unique keys the place of a summary is the one place it has.
pub proof fn lemma_summary_index(store: StoreView, id: Seq<char>, i: int)
    requires
        store.well_formed(),
        is_summary_at(store.summaries, id, i),
    ensures
        has_summary(store.summaries, id),
        summary_index(store.summaries, id) == i,
{
    let j = summary_index(store.summaries, id);
    assert(is_summary_at(store.summaries, id, j));
    if i < j {
        assert(store.summaries[i].entity_id != store.summaries[j].entity_id);
    } else if j < i {
        assert(store.summaries[j].entity_id != store.summaries[i].entity_id);
    }
}

pub open spec fn id_and_text(record: SummaryView) -> (Seq<char>, Seq<char>) {
    (record.entity_id, record.summary_text)
}

pub open spec fn ids_and_texts(records: Seq<SummaryView>) -> Seq<(Seq<char>, Seq<char>)> {
    records.map_values(|r: SummaryView| id_and_text(r))
}

impl EntityStore {
    /// A store with nothing in it.
    pub fn new() -> (store: Self)
        ensures
            store@ == empty_store(),
            store@.well_formed(),
    {
        let store = EntityStore {
            projects: Vec::new(),
            issues: Vec::new(),
            comments: Vec::new(),
            pulls: Vec::new(),
            summaries: Vec::new(),
        };
        proof {
            assert(store@.projects == Seq::<ProjectView>::empty());
            assert(store@.issues == Seq::<IssueView>::empty());
            assert(store@.comments == Seq::<CommentView>::empty());
            assert(store@.pulls == Seq::<PullRequestView>::empty());
            assert(store@.summaries == Seq::<SummaryView>::empty());
        }
        store
    }

    /// Writes a project: a new one is added, a known one takes what the
    /// sighting knows.
    pub fn upsert_project(&mut self, project: Project) -> (r: Result<(), StoreError>)
        requires
            old(self)@.well_formed(),
        ensures
            r is Ok,
            final(self)@ == with_project(old(self)@, project@),
            final(self)@.well_formed(),
    {
        let ghost before = self@;
        match find_project(&self.projects, &project.project_id) {
            Some(i) => {
                proof {
                    lemma_project_index(before, project@.project_id, i as int);
                }
                let stored = &self.projects[i];
                let Project { project_id: _, logo, language, star_count, description } = project;
                let row = Project {
                    project_id: stored.project_id.clone(),
                    logo: if logo.is_some() {
                        logo
                    } else {
                        stored.logo.clone()
                    },
                    language: if language.is_some() {
                        language
                    } else {
                        stored.language.clone()
                    },
                    star_count: if star_count.is_some() {
                        star_count
                    } else {
                        stored.star_count
                    },
                    description: if description.is_some() {
                        description
                    } else {
                        stored.description.clone()
                    },
                };
                proof {
                    assert(row@ == merged(before.projects[i as int], project@));
                }
                self.projects[i] = row;
                proof {
                    assert(self@.projects == before.projects.update(i as int, row@));
                    lemma_same_projects(before.projects, self@.projects);
                }
            },
            None => {
                self.projects.push(project);
                proof {
                    assert(self@.projects == before.projects.push(project@));
                    lemma_more_projects(before.projects, project@);
                }
            },
        }
        proof {
            assert(self@.issues == before.issues);
            assert forall|i: int| 0 <= i < self@.issues.len() implies has_project(
                self@.projects,
                (#[trigger] self@.issues[i]).project_id,
            ) by {
                assert(has_project(before.projects, before.issues[i].project_id));
            }
            assert(self@.issues == before.issues);
            assert(self@.comments == before.comments);
            assert(self@.pulls == before.pulls);
            assert(self@.summaries == before.summaries);
            assert(self@.well_formed());
        }
        Ok(())
    }

    /// Whether the project is in the store; that it is not is an error.
    pub fn project_exists(&self, project_id: &str) -> (r: Result<bool, StoreError>)
        ensures
            r == if has_project(self@.projects, project_id@) {
                Ok::<bool, StoreError>(true)
            } else {
                Err::<bool, StoreError>(StoreError::NotFound)
            },
    {
        let id = project_id.to_owned();
        match find_project(&self.projects, &id) {
            Some(_) => Ok(true),
            None => Err(StoreError::NotFound),
        }
    }

    /// Writes an issue, where its project is there and the issue is new.
    pub fn insert_issue(&mut self, issue: Issue) -> (r: Result<(), StoreError>)
        requires
            old(self)@.well_formed(),
        ensures
            r == issue_outcome(old(self)@, issue@),
            final(self)@ == with_issue(old(self)@, issue@),
            final(self)@.well_formed(),
    {
        let ghost before = self@;
        if find_project(&self.projects, &issue.project_id).is_none() {
            return Err(StoreError::MissingProject);
        }
        if find_issue(&self.issues, &issue.issue_id).is_some() {
            return Err(StoreError::DuplicateKey);
        }
        self.issues.push(issue);
        proof {
            assert(self@.issues == before.issues.push(issue@));
            assert forall|i: int| 0 <= i < self@.issues.len() implies has_project(
                self@.projects,
                (#[trigger] self@.issues[i]).project_id,
            ) by {
                if i < before.issues.len() {
                    assert(self@.issues[i] == before.issues[i]);
                }
            }
            assert forall|i: int, j: int| 0 <= i < j < self@.issues.len() implies self@.issues[i].issue_id
                != self@.issues[j].issue_id by {
                if j < before.issues.len() {
                    assert(before.issues[i].issue_id != before.issues[j].issue_id);
                } else {
                    assert(!is_issue_at(before.issues, issue@.issue_id, i));
                }
            }
        }
        Ok(())
    }

    /// Whether the issue is in the store; that it is not is an error.
    pub fn issue_exists(&self, issue_id: &str) -> (r: Result<bool, StoreError>)
        ensures
            r == if has_issue(self@.issues, issue_id@) {
                Ok::<bool, StoreError>(true)
            } else {
                Err::<bool, StoreError>(StoreError::NotFound)
            },
    {
        let id = issue_id.to_owned();
        match find_issue(&self.issues, &id) {
            Some(_) => Ok(true),
            None => Err(StoreError::NotFound),
        }
    }

    /// Writes a comment. One that the issue already has under the same
    /// moment is passed over without an error.
    pub fn insert_comment(&mut self, comment: Comment) -> (r: Result<(), StoreError>)
        requires
            old(self)@.well_formed(),
        ensures
            r is Ok,
            final(self)@ == with_comment(old(self)@, comment@),
            final(self)@.well_formed(),
    {
        let ghost before = self@;
        if find_comment(&self.comments, &comment.issue_id, &comment.timestamp).is_some() {
            return Ok(());
        }
        self.comments.push(comment);
        proof {
            assert(self@.comments == before.comments.push(comment@));
            assert forall|i: int, j: int| 0 <= i < j < self@.comments.len() implies !(
            self@.comments[i].issue_id == self@.comments[j].issue_id
                && self@.comments[i].timestamp == self@.comments[j].timestamp) by {
                if j < before.comments.len() {
                    assert(!(before.comments[i].issue_id == before.comments[j].issue_id
                        && before.comments[i].timestamp == before.comments[j].timestamp));
                } else {
                    assert(!is_comment_at(
                        before.comments,
                        comment@.issue_id,
                        comment@.timestamp,
                        i,
                    ));
                }
            }
            assert(self@.projects == before.projects);
            assert(self@.issues == before.issues);
            assert(self@.pulls == before.pulls);
            assert(self@.summaries == before.summaries);
            assert(self@.well_formed());
        }
        Ok(())
    }

    /// Writes a pull request, unless the store holds it.
    pub fn insert_pull_request(&mut self, pull: PullRequest) -> (r: Result<(), StoreError>)
        requires
            old(self)@.well_formed(),
        ensures
            r is Err <==> has_pull(old(self)@.pulls, pull@.pull_id),
            r matches Err(e) ==> e == StoreError::DuplicateKey,
            final(self)@ == with_pull(old(self)@, pull@),
            final(self)@.well_formed(),
    {
        let ghost before = self@;
        if find_pull(&self.pulls, &pull.pull_id).is_some() {
            return Err(StoreError::DuplicateKey);
        }
        self.pulls.push(pull);
        proof {
            assert(self@.pulls == before.pulls.push(pull@));
            assert forall|i: int, j: int| 0 <= i < j < self@.pulls.len() implies self@.pulls[i].pull_id
                != self@.pulls[j].pull_id by {
                if j < before.pulls.len() {
                    assert(before.pulls[i].pull_id != before.pulls[j].pull_id);
                } else {
                    assert(!is_pull_at(before.pulls, pull@.pull_id, i));
                }
            }
            assert(self@.projects == before.projects);
            assert(self@.issues == before.issues);
            assert(self@.comments == before.comments);
            assert(self@.summaries == before.summaries);
            assert(self@.well_formed());
        }
        Ok(())
    }

    /// Whether the pull request is in the store; that it is not is an error.
    pub fn pull_request_exists(&self, pull_id: &str) -> (r: Result<bool, StoreError>)
        ensures
            r == if has_pull(self@.pulls, pull_id@) {
                Ok::<bool, StoreError>(true)
            } else {
                Err::<bool, StoreError>(StoreError::NotFound)
            },
    {
        let id = pull_id.to_owned();
        match find_pull(&self.pulls, &id) {
            Some(_) => Ok(true),
            None => Err(StoreError::NotFound),
        }
    }

    /// Writes the summary of an entity. For an entity that has one, only
    /// the keywords are replaced.
    pub fn record_summary(&mut self, entity_id: &str, summary_text: &str, keyword_tags: Vec<String>) -> (r:
        Result<(), StoreError>)
        requires
            old(self)@.well_formed(),
        ensures
            r is Ok,
            final(self)@ == with_summary(
                old(self)@,
                entity_id@,
                summary_text@,
                string_views(keyword_tags@),
            ),
            final(self)@.well_formed(),
    {
        let ghost before = self@;
        let id = entity_id.to_owned();
        match find_summary(&self.summaries, &id) {
            Some(i) => {
                proof {
                    lemma_summary_index(before, entity_id@, i as int);
                }
                let stored = &self.summaries[i];
                let row = SummaryRecord {
                    entity_id: stored.entity_id.clone(),
                    summary_text: stored.summary_text.clone(),
                    keyword_tags,
                    indexed: stored.indexed,
                };
                self.summaries[i] = row;
                proof {
                    assert(self@.summaries == before.summaries.update(i as int, row@));
                    lemma_same_summaries(before.summaries, self@.summaries);
                }
            },
            None => {
                let row = SummaryRecord {
                    entity_id: id,
                    summary_text: summary_text.to_owned(),
                    keyword_tags,
                    indexed: false,
                };
                self.summaries.push(row);
                proof {
                    assert(self@.summaries == before.summaries.push(row@));
                    lemma_more_summaries(before.summaries, row@);
                }
            },
        }
        proof {
            assert(self@.projects == before.projects);
            assert(self@.issues == before.issues);
            assert(self@.comments == before.comments);
            assert(self@.pulls == before.pulls);
            assert(self@.well_formed());
        }
        Ok(())
    }

    /// Marks the summary of an entity as indexed; says whether there was
    /// one to mark.
    pub fn mark_indexed(&mut self, entity_id: &str) -> (marked: bool)
        requires
            old(self)@.well_formed(),
        ensures
            marked == has_summary(old(self)@.summaries, entity_id@),
            final(self)@ == with_indexed(old(self)@, entity_id@),
            final(self)@.well_formed(),
    {
        let ghost before = self@;
        let id = entity_id.to_owned();
        match find_summary(&self.summaries, &id) {
            Some(i) => {
                proof {
                    lemma_summary_index(before, entity_id@, i as int);
                }
                let stored = &self.summaries[i];
                let row = SummaryRecord {
                    entity_id: stored.entity_id.clone(),
                    summary_text: stored.summary_text.clone(),
                    keyword_tags: clone_strings(&stored.keyword_tags),
                    indexed: true,
                };
                self.summaries[i] = row;
                proof {
                    assert(self@.summaries == before.summaries.update(i as int, row@));
                    lemma_same_summaries(before.summaries, self@.summaries);
                }
                true
            },
            None => false,
        }
    }

    /// How far the entity has come.
    pub fn state_of(&self, entity_id: &str) -> (state: EntityState)
        requires
            self@.well_formed(),
        ensures
            state == self@.state_of(entity_id@),
    {
        let id = entity_id.to_owned();
        match find_summary(&self.summaries, &id) {
            Some(i) => {
                proof {
                    lemma_summary_index(self@, entity_id@, i as int);
                }
                if self.summaries[i].indexed {
                    EntityState::Indexed
                } else {
                    EntityState::Summarized
                }
            },
            None => EntityState::Unsummarized,
        }
    }

    /// The first issues that have no summary, `limit` at most.
    pub fn unsummarized_issues(&self, limit: usize) -> (out: Vec<Issue>)
        ensures
            issue_views(out@) == first_n(backlog(self@.issues, self@.summaries), limit as int),
    {
        let ghost issues = self@.issues;
        let ghost summaries = self@.summaries;
        let mut out: Vec<Issue> = Vec::new();
        let mut i: usize = 0;
        proof {
            assert(issues.take(0) == Seq::<IssueView>::empty());
            assert(issue_views(out@) == Seq::<IssueView>::empty());
        }
        while i < self.issues.len()
            invariant
                i <= self.issues.len(),
                issues == issue_views(self.issues@),
                summaries == summary_views(self.summaries@),
                issue_views(out@) == first_n(backlog(issues.take(i as int), summaries), limit as int),
            decreases self.issues.len() - i,
        {
            let ghost before = out@;
            proof {
                assert(issues.take(i + 1).drop_last() == issues.take(i as int));
                assert(issues.take(i + 1).last() == self.issues@[i as int]@);
            }
            if out.len() < limit && find_summary(&self.summaries, &self.issues[i].issue_id).is_none() {
                let row = &self.issues[i];
                let copy = Issue {
                    issue_id: row.issue_id.clone(),
                    project_id: row.project_id.clone(),
                    title: row.title.clone(),
                    description: row.description.clone(),
                    assignees: row.assignees.clone(),
                };
                out.push(copy);
                proof {
                    assert(issue_views(out@) == issue_views(before).push(copy@));
                    let known = backlog(issues.take(i as int), summaries);
                    assert(first_n(known, limit as int) == known);
                    assert(first_n(known.push(copy@), limit as int) == known.push(copy@));
                }
            } else {
                proof {
                    let known = backlog(issues.take(i as int), summaries);
                    if !has_summary(summaries, self.issues@[i as int]@.issue_id) {
                        assert(out.len() >= limit);
                        assert(first_n(known, limit as int).len() == limit);
                        assert(first_n(known.push(self.issues@[i as int]@), limit as int)
                            == first_n(known, limit as int));
                    }
                }
            }
            i += 1;
        }
        proof {
            assert(issues.take(i as int) == issues);
        }
        out
    }

    /// The first summaries that are not indexed, `limit` at most: the id of
    /// each entity with the text of its summary.
    pub fn pending_index(&self, limit: usize) -> (out: Vec<(String, String)>)
        ensures
            string_pair_views(out@) == ids_and_texts(first_n(pending(self@.summaries), limit as int)),
    {
        let ghost summaries = self@.summaries;
        let mut out: Vec<(String, String)> = Vec::new();
        let mut i: usize = 0;
        proof {
            assert(summaries.take(0) == Seq::<SummaryView>::empty());
            assert(string_pair_views(out@) == ids_and_texts(Seq::<SummaryView>::empty()));
        }
        while i < self.summaries.len()
            invariant
                i <= self.summaries.len(),
                summaries == summary_views(self.summaries@),
                string_pair_views(out@) == ids_and_texts(
                    first_n(pending(summaries.take(i as int)), limit as int),
                ),
            decreases self.summaries.len() - i,
        {
            let ghost before = out@;
            let ghost known = pending(summaries.take(i as int));
            let ghost row_view = self.summaries@[i as int]@;
            proof {
                assert(summaries.take(i + 1).drop_last() == summaries.take(i as int));
                assert(summaries.take(i + 1).last() == row_view);
                assert(string_pair_views(out@).len() == first_n(known, limit as int).len());
            }
            if out.len() < limit && !self.summaries[i].indexed {
                let row = &self.summaries[i];
                out.push((row.entity_id.clone(), row.summary_text.clone()));
                proof {
                    assert(string_pair_views(out@) == string_pair_views(before).push(id_and_text(row_view)));
                    assert(first_n(known, limit as int) == known);
                    assert(first_n(known.push(row_view), limit as int) == known.push(row_view));
                    assert(ids_and_texts(known.push(row_view)) == ids_and_texts(known).push(
                        id_and_text(row_view),
                    ));
                }
            } else {
                proof {
                    if !row_view.indexed {
                        assert(first_n(known, limit as int).len() == limit);
                        assert(first_n(known.push(row_view), limit as int) == first_n(
                            known,
                            limit as int,
                        ));
                    }
                }
            }
            i += 1;
        }
        proof {
            assert(summaries.take(i as int) == summaries);
        }
        out
    }
}

/// A table of projects stays free of double keys where rows change but
/// their keys do not.
proof fn lemma_same_projects(before: Seq<ProjectView>, after: Seq<ProjectView>)
    requires
        before.len() == after.len(),
        forall|i: int| 0 <= i < before.len() ==> before[i].project_id == after[i].project_id,
    ensures
        forall|id: Seq<char>| has_project(before, id) == has_project(after, id),
        (forall|i: int, j: int|
            0 <= i < j < before.len() ==> before[i].project_id != before[j].project_id) ==> (
        forall|i: int, j: int|
            0 <= i < j < after.len() ==> after[i].project_id != after[j].project_id),
{
    assert forall|id: Seq<char>| has_project(before, id) == has_project(after, id) by {
        if has_project(before, id) {
            let i = choose|i: int| is_project_at(before, id, i);
            assert(is_project_at(after, id, i));
        }
        if has_project(after, id) {
            let i = choose|i: int| is_project_at(after, id, i);
            assert(is_project_at(before, id, i));
        }
    }
    if forall|i: int, j: int|
        0 <= i < j < before.len() ==> before[i].project_id != before[j].project_id {
        assert forall|i: int, j: int| 0 <= i < j < after.len() implies after[i].project_id
            != after[j].project_id by {
            assert(before[i].project_id != before[j].project_id);
        }
    }
}

/// A table of projects stays free of double keys where a project with a
/// new key is added.
proof fn lemma_more_projects(before: Seq<ProjectView>, row: ProjectView)
    requires
        !has_project(before, row.project_id),
    ensures
        forall|id: Seq<char>| has_project(before, id) ==> has_project(before.push(row), id),
        (forall|i: int, j: int|
            0 <= i < j < before.len() ==> before[i].project_id != before[j].project_id) ==> (
        forall|i: int, j: int|
            0 <= i < j < before.push(row).len() ==> before.push(row)[i].project_id
                != before.push(row)[j].project_id),
{
    let after = before.push(row);
    assert forall|id: Seq<char>| has_project(before, id) implies has_project(after, id) by {
        let i = choose|i: int| is_project_at(before, id, i);
        assert(is_project_at(after, id, i));
    }
    if forall|i: int, j: int|
        0 <= i < j < before.len() ==> before[i].project_id != before[j].project_id {
        assert forall|i: int, j: int| 0 <= i < j < after.len() implies after[i].project_id
            != after[j].project_id by {
            if j < before.len() {
                assert(before[i].project_id != before[j].project_id);
            } else {
                assert(!is_project_at(before, row.project_id, i));
            }
        }
    }
}

proof fn lemma_same_summaries(before: Seq<SummaryView>, after: Seq<SummaryView>)
    requires
        before.len() == after.len(),
        forall|i: int| 0 <= i < before.len() ==> before[i].entity_id == after[i].entity_id,
    ensures
        (forall|i: int, j: int|
            0 <= i < j < before.len() ==> before[i].entity_id != before[j].entity_id) ==> (
        forall|i: int, j: int|
            0 <= i < j < after.len() ==> after[i].entity_id != after[j].entity_id),
{
    if forall|i: int, j: int|
        0 <= i < j < before.len() ==> before[i].entity_id != before[j].entity_id {
        assert forall|i: int, j: int| 0 <= i < j < after.len() implies after[i].entity_id
            != after[j].entity_id by {
            assert(before[i].entity_id != before[j].entity_id);
        }
    }
}

proof fn lemma_more_summaries(before: Seq<SummaryView>, row: SummaryView)
    requires
        !has_summary(before, row.entity_id),
    ensures
        (forall|i: int, j: int|
            0 <= i < j < before.len() ==> before[i].entity_id != before[j].entity_id) ==> (
        forall|i: int, j: int|
            0 <= i < j < before.push(row).len() ==> before.push(row)[i].entity_id
                != before.push(row)[j].entity_id),
{
    let after = before.push(row);
    if forall|i: int, j: int|
        0 <= i < j < before.len() ==> before[i].entity_id != before[j].entity_id {
        assert forall|i: int, j: int| 0 <= i < j < after.len() implies after[i].entity_id
            != after[j].entity_id by {
            if j < before.len() {
                assert(before[i].entity_id != before[j].entity_id);
            } else {
                assert(!is_summary_at(before, row.entity_id, i));
            }
        }
    }
}

/// A point of the vector index, but for its vector.
#[derive(Clone, Debug, PartialEq, Eq)]
pub struct VectorPoint {
    pub id: u64,
    pub entity_id: String,
    pub text: String,
}

pub struct PointView {
    pub id: u64,
    pub entity_id: Seq<char>,
    pub text: Seq<char>,
}

impl View for VectorPoint {
    type V = PointView;

    open spec fn view(&self) -> PointView {
        PointView { id: self.id, entity_id: self.entity_id@, text: self.text@ }
    }
}

pub open spec fn point_views(points: Seq<VectorPoint>) -> Seq<PointView> {
    points.map_values(|p: VectorPoint| p@)
}

pub open spec fn is_point_at(points: Seq<PointView>, id: u64, i: int) -> bool {
    0 <= i < points.len() && points[i].id == id
}

pub open spec fn has_point(points: Seq<PointView>, id: u64) -> bool {
    exists|i: int| is_point_at(points, id, i)
}

/// The index holds its points under the ids that `upload` gives: each
/// point has its place as its id.
pub open spec fn dense(points: Seq<PointView>) -> bool {
    forall|i: int| 0 <= i < points.len() ==> (#[trigger] points[i]).id == i
}

/// The index after a point was written: a point under a known id takes the
/// place of the first point under that id, another is added.
pub open spec fn with_point(points: Seq<PointView>, p: PointView) -> Seq<PointView> {
    if has_point(points, p.id) {
        points.update(first_point(points, p.id), p)
    } else {
        points.push(p)
    }
}

/// The first place under which the index holds a point with this id.
pub open spec fn first_point(points: Seq<PointView>, id: u64) -> int
    decreases points.len(),
{
    if points.len() == 0 {
        0
    } else if has_point(points.drop_last(), id) || points.last().id != id {
        first_point(points.drop_last(), id)
    } else {
        points.len() - 1
    }
}

/// The points of a vector index, held in memory with the rules of the
/// index service.
pub struct VectorIndex {
    points: Vec<VectorPoint>,
}

impl View for VectorIndex {
    type V = Seq<PointView>;

    closed spec fn view(&self) -> Seq<PointView> {
        point_views(self.points@)
    }
}

/// The first place of an id is a place of that id, and no place before it
/// is one.
pub proof fn lemma_first_point(points: Seq<PointView>, id: u64)
    requires
        has_point(points, id),
    ensures
        is_point_at(points, id, first_point(points, id)),
        forall|k: int| 0 <= k < first_point(points, id) ==> !is_point_at(points, id, k),
    decreases points.len(),
{
    let i = choose|i: int| is_point_at(points, id, i);
    if points.len() > 0 {
        let init = points.drop_last();
        if has_point(init, id) {
            lemma_first_point(init, id);
            assert(forall|k: int| is_point_at(init, id, k) ==> is_point_at(points, id, k));
            assert forall|k: int| 0 <= k < first_point(points, id) implies !is_point_at(
                points,
                id,
                k,
            ) by {
                assert(!is_point_at(init, id, k));
            }
        } else {
            if i < init.len() {
                assert(is_point_at(init, id, i));
            }
            assert forall|k: int| 0 <= k < first_point(points, id) implies !is_point_at(
                points,
                id,
                k,
            ) by {
                assert(!is_point_at(init, id, k));
            }
        }
    }
}

impl VectorIndex {
    /// An index with no points.
    pub fn new() -> (index: Self)
        ensures
            index@ == Seq::<PointView>::empty(),
    {
        let index = VectorIndex { points: Vec::new() };
        proof {
            assert(index@ == Seq::<PointView>::empty());
        }
        index
    }

    /// How many points the index holds.
    pub fn count(&self) -> (n: usize)
        ensures
            n == self@.len(),
    {
        self.points.len()
    }

    /// Writes a point: one under a known id is overwritten.
    pub fn upsert(&mut self, point: VectorPoint)
        ensures
            final(self)@ == with_point(old(self)@, point@),
    {
        let ghost before = self@;
        let mut i: usize = 0;
        while i < self.points.len()
            invariant
                i <= self.points.len(),
                self@ == before,
                before == old(self)@,
                forall|k: int| 0 <= k < i ==> !is_point_at(before, point.id, k),
            decreases self.points.len() - i,
        {
            if self.points[i].id == point.id {
                proof {
                    assert(is_point_at(before, point.id, i as int));
                    lemma_first_point(before, point.id);
                    let f = first_point(before, point.id);
                    if f < i {
                        assert(!is_point_at(before, point.id, f));
                    }
                    if i < f {
                        assert(!is_point_at(before, point.id, i as int));
                    }
                    assert(f == i);
                }
                let ghost view = point@;
                self.points[i] = point;
                proof {
                    assert(self@ == before.update(i as int, view));
                    assert(is_point_at(before, view.id, i as int));
                    assert(first_point(before, view.id) == i);
                    assert(with_point(before, view) == before.update(i as int, view));
                }
                return ;
            }
            i += 1;
        }
        self.points.push(point);
        proof {
            assert(self@ == before.push(point@));
        }
    }

    /// Writes the text of an entity as a new point, whose id is the number
    /// of points that the index holds; hands out the id.
    pub fn upload(&mut self, entity_id: &str, text: &str) -> (id: u64)
        ensures
            id == old(self)@.len(),
            final(self)@ == with_point(
                old(self)@,
                PointView { id, entity_id: entity_id@, text: text@ },
            ),
    {
        let id = self.points.len() as u64;
        self.upsert(VectorPoint { id, entity_id: entity_id.to_owned(), text: text.to_owned() });
        id
    }

    /// Whether each point has its place as its id, as `upload` leaves an
    /// index that no other writer has touched.
    pub fn is_dense(&self) -> (r: bool)
        ensures
            r == dense(self@),
    {
        let mut i: usize = 0;
        while i < self.points.len()
            invariant
                i <= self.points.len(),
                forall|k: int| 0 <= k < i ==> (#[trigger] self@[k]).id == k,
            decreases self.points.len() - i,
        {
            if self.points[i].id != i as u64 {
                proof {
                    assert(self@[i as int].id != i);
                }
                return false;
            }
            i += 1;
        }
        true
    }

    /// The points of the index, in the order of their places.
    pub fn points(&self) -> (out: &Vec<VectorPoint>)
        ensures
            point_views(out@) == self@,
    {
        &self.points
    }
}

/// In an index that holds its points under the ids that `upload` gives, a
/// point with the next id is added and overwrites nothing.
pub proof fn lemma_upload_adds(points: Seq<PointView>, p: PointView)
    requires
        dense(points),
        p.id == points.len(),
    ensures
        with_point(points, p) == points.push(p),
        dense(points.push(p)),
{
    if has_point(points, p.id) {
        let i = choose|i: int| is_point_at(points, p.id, i);
        assert(points[i].id == i);
    }
    assert forall|i: int| 0 <= i < points.push(p).len() implies (#[trigger] points.push(p)[i]).id
        == i by {
        if i < points.len() {
            assert(points.push(p)[i] == points[i]);
        }
    }
}

/// Two writers that read the same count give their points the same id: the
/// point that is written second takes the place of the first, and the index
/// holds one point more, not two.
pub proof fn lemma_same_id_overwrites(points: Seq<PointView>, first: PointView, second: PointView)
    requires
        dense(points),
        first.id == points.len(),
        second.id == points.len(),
    ensures
        with_point(with_point(points, first), second) == points.push(second),
        dense(with_point(with_point(points, first), second)),
{
    lemma_upload_adds(points, first);
    lemma_upload_adds(points, second);
    let once = points.push(first);
    let at = points.len() as int;
    assert(is_point_at(once, second.id, at));
    lemma_first_point(once, second.id);
    let f = first_point(once, second.id);
    if f < at {
        assert(once[f].id == f);
    }
    assert(once.update(at, second) == points.push(second));
}

/// The store after the summaries of these entities were marked as indexed,
/// one after the other.
pub open spec fn after_marks(store: StoreView, ids: Seq<Seq<char>>) -> StoreView
    decreases ids.len(),
{
    if ids.len() == 0 {
        store
    } else {
        with_indexed(after_marks(store, ids.drop_last()), ids.last())
    }
}

/// The points for these summaries, where the first of them gets the id
/// `start` and each next one the next id.
pub open spec fn points_for(batch: Seq<(Seq<char>, Seq<char>)>, start: int) -> Seq<PointView> {
    Seq::new(
        batch.len(),
        |k: int| PointView { id: (start + k) as u64, entity_id: batch[k].0, text: batch[k].1 },
    )
}

pub open spec fn ids_of(batch: Seq<(Seq<char>, Seq<char>)>) -> Seq<Seq<char>> {
    batch.map_values(|p: (Seq<char>, Seq<char>)| p.0)
}

/// What one batch of the indexing takes: the first summaries that are not
/// indexed, each as the id of its entity with its text.
pub open spec fn index_batch(store: StoreView) -> Seq<(Seq<char>, Seq<char>)> {
    ids_and_texts(first_n(pending(store.summaries), BATCH_SIZE as int))
}

/// Runs one batch of the indexing: each summary of the batch is written to
/// the index as a new point and then marked as indexed. Hands out how many
/// summaries the batch took.
pub fn run_index_batch(store: &mut EntityStore, index: &mut VectorIndex) -> (taken: usize)
    requires
        old(store)@.well_formed(),
        dense(old(index)@),
    ensures
        taken == index_batch(old(store)@).len(),
        final(store)@ == after_marks(old(store)@, ids_of(index_batch(old(store)@))),
        final(index)@ == old(index)@ + points_for(
            index_batch(old(store)@),
            old(index)@.len() as int,
        ),
        final(store)@.well_formed(),
        dense(final(index)@),
{
    let ghost store_before = store@;
    let ghost index_before = index@;
    let ghost batch = index_batch(store@);
    let pairs = store.pending_index(BATCH_SIZE);
    let mut k: usize = 0;
    proof {
        assert(batch.len() <= BATCH_SIZE);
        assert(ids_of(batch).take(0) == Seq::<Seq<char>>::empty());
        assert(index_before + points_for(batch.take(0), index_before.len() as int)
            == index_before);
    }
    while k < pairs.len()
        invariant
            k <= pairs.len(),
            string_pair_views(pairs@) == batch,
            batch.len() <= BATCH_SIZE,
            store@ == after_marks(store_before, ids_of(batch).take(k as int)),
            index@ == index_before + points_for(batch.take(k as int), index_before.len() as int),
            store@.well_formed(),
            dense(index@),
        decreases pairs.len() - k,
    {
        let ghost index_now = index@;
        proof {
            assert(string_pair_views(pairs@)[k as int] == (pairs@[k as int].0@, pairs@[k as int].1@));
            assert(points_for(batch.take(k as int), index_before.len() as int).len() == k);
        }
        let id = index.upload(pairs[k].0.as_str(), pairs[k].1.as_str());
        let _ = store.mark_indexed(pairs[k].0.as_str());
        proof {
            let p = PointView { id, entity_id: batch[k as int].0, text: batch[k as int].1 };
            lemma_upload_adds(index_now, p);
            assert(points_for(batch.take(k + 1), index_before.len() as int) == points_for(
                batch.take(k as int),
                index_before.len() as int,
            ).push(p));
            assert(index_before + points_for(batch.take(k + 1), index_before.len() as int) == (
            index_before + points_for(batch.take(k as int), index_before.len() as int)).push(p));
            assert(ids_of(batch).take(k + 1).drop_last() == ids_of(batch).take(k as int));
            assert(ids_of(batch).take(k + 1).last() == batch[k as int].0);
        }
        k += 1;
    }
    proof {
        assert(ids_of(batch).take(k as int) == ids_of(batch));
        assert(batch.take(k as int) == batch);
    }
    pairs.len()
}

/// Writing a project keeps the store well formed; the project is there
/// afterwards, merged into what was stored under its id, or as it came
/// where nothing was.
pub proof fn lemma_with_project(store: StoreView, p: ProjectView)
    requires
        store.well_formed(),
    ensures
        with_project(store, p).well_formed(),
        has_project(with_project(store, p).projects, p.project_id),
        with_project(store, p).projects[project_index(
            with_project(store, p).projects,
            p.project_id,
        )] == if has_project(store.projects, p.project_id) {
            merged(store.projects[project_index(store.projects, p.project_id)], p)
        } else {
            p
        },
        with_project(store, p).projects.len() == if has_project(store.projects, p.project_id) {
            store.projects.len()
        } else {
            store.projects.len() + 1
        },
{
    let after = with_project(store, p);
    if has_project(store.projects, p.project_id) {
        let i = project_index(store.projects, p.project_id);
        assert(is_project_at(store.projects, p.project_id, i));
        lemma_same_projects(store.projects, after.projects);
        assert(is_project_at(after.projects, p.project_id, i));
        assert forall|k: int| 0 <= k < after.issues.len() implies has_project(
            after.projects,
            (#[trigger] after.issues[k]).project_id,
        ) by {
            assert(has_project(store.projects, store.issues[k].project_id));
        }
        assert(after.well_formed());
        lemma_project_index(after, p.project_id, i);
    } else {
        let i = store.projects.len() as int;
        lemma_more_projects(store.projects, p);
        assert(is_project_at(after.projects, p.project_id, i));
        assert forall|k: int| 0 <= k < after.issues.len() implies has_project(
            after.projects,
            (#[trigger] after.issues[k]).project_id,
        ) by {
            assert(has_project(store.projects, store.issues[k].project_id));
        }
        assert(after.well_formed());
        lemma_project_index(after, p.project_id, i);
    }
}

/// A project that is written twice is stored once, and the stored record
/// holds what the second write knows: each field that the second write
/// states, and for the others what the first write left.
pub proof fn lemma_project_written_twice(store: StoreView, first: ProjectView, second: ProjectView)
    requires
        store.well_formed(),
        first.project_id == second.project_id,
    ensures
        ({
            let once = with_project(store, first);
            let twice = with_project(once, second);
            let id = first.project_id;
            let kept = once.projects[project_index(once.projects, id)];
            let row = twice.projects[project_index(twice.projects, id)];
            &&& has_project(twice.projects, id)
            &&& twice.projects.len() == once.projects.len()
            &&& forall|i: int, j: int|
                is_project_at(twice.projects, id, i) && is_project_at(twice.projects, id, j) ==> i
                    == j
            &&& row == merged(kept, second)
            &&& second.logo is Some ==> row.logo == second.logo
            &&& second.language is Some ==> row.language == second.language
            &&& second.star_count is Some ==> row.star_count == second.star_count
            &&& second.description is Some ==> row.description == second.description
        }),
{
    let once = with_project(store, first);
    let twice = with_project(once, second);
    let id = first.project_id;
    lemma_with_project(store, first);
    lemma_with_project(once, second);
    assert forall|i: int, j: int|
        is_project_at(twice.projects, id, i) && is_project_at(twice.projects, id, j) implies i
        == j by {
        lemma_project_index(twice, id, i);
        lemma_project_index(twice, id, j);
    }
}

/// A comment that is written twice is stored once: the second write
/// changes nothing.
pub proof fn lemma_comment_written_twice(store: StoreView, first: CommentView, second: CommentView)
    requires
        store.well_formed(),
        first.issue_id == second.issue_id,
        first.timestamp == second.timestamp,
    ensures
        with_comment(with_comment(store, first), second) == with_comment(store, first),
        has_comment(with_comment(store, first).comments, first.issue_id, first.timestamp),
        with_comment(store, first).well_formed(),
        forall|i: int, j: int|
            is_comment_at(with_comment(store, first).comments, first.issue_id, first.timestamp, i)
                && is_comment_at(
                with_comment(store, first).comments,
                first.issue_id,
                first.timestamp,
                j,
            ) ==> i == j,
{
    let once = with_comment(store, first);
    if !has_comment(store.comments, first.issue_id, first.timestamp) {
        assert(is_comment_at(
            once.comments,
            first.issue_id,
            first.timestamp,
            store.comments.len() as int,
        ));
        assert forall|i: int, j: int| 0 <= i < j < once.comments.len() implies !(
        once.comments[i].issue_id == once.comments[j].issue_id && once.comments[i].timestamp
            == once.comments[j].timestamp) by {
            if j < store.comments.len() {
                assert(!(store.comments[i].issue_id == store.comments[j].issue_id
                    && store.comments[i].timestamp == store.comments[j].timestamp));
            } else {
                assert(!is_comment_at(store.comments, first.issue_id, first.timestamp, i));
            }
        }
    }
    assert(once.well_formed());
    assert forall|i: int, j: int|
        is_comment_at(once.comments, first.issue_id, first.timestamp, i) && is_comment_at(
            once.comments,
            first.issue_id,
            first.timestamp,
            j,
        ) implies i == j by {
        if i < j {
            assert(!(once.comments[i].issue_id == once.comments[j].issue_id
                && once.comments[i].timestamp == once.comments[j].timestamp));
        } else if j < i {
            assert(!(once.comments[j].issue_id == once.comments[i].issue_id
                && once.comments[j].timestamp == once.comments[i].timestamp));
        }
    }
}

/// The backlog holds the issues that have no summary, and no others.
pub proof fn lemma_backlog(issues: Seq<IssueView>, summaries: Seq<SummaryView>)
    ensures
        forall|i: int|
            0 <= i < issues.len() && !has_summary(summaries, (#[trigger] issues[i]).issue_id)
                ==> backlog(issues, summaries).contains(issues[i]),
        forall|k: int|
            0 <= k < backlog(issues, summaries).len() ==> !has_summary(
                summaries,
                (#[trigger] backlog(issues, summaries)[k]).issue_id,
            ) && issues.contains(backlog(issues, summaries)[k]),
    decreases issues.len(),
{
    let all = backlog(issues, summaries);
    if issues.len() > 0 {
        let init = issues.drop_last();
        let known = backlog(init, summaries);
        lemma_backlog(init, summaries);
        assert forall|i: int|
            0 <= i < issues.len() && !has_summary(
                summaries,
                (#[trigger] issues[i]).issue_id,
            ) implies all.contains(issues[i]) by {
            if i < init.len() {
                assert(init[i] == issues[i]);
                assert(known.contains(init[i]));
                let k = choose|k: int| 0 <= k < known.len() && known[k] == init[i];
                assert(all[k] == issues[i]);
            } else {
                assert(all[all.len() - 1] == issues[i]);
            }
        }
        assert forall|k: int| 0 <= k < all.len() implies !has_summary(
            summaries,
            (#[trigger] all[k]).issue_id,
        ) && issues.contains(all[k]) by {
            if k < known.len() {
                assert(all[k] == known[k]);
                assert(init.contains(known[k]));
                let i = choose|i: int| 0 <= i < init.len() && init[i] == known[k];
                assert(issues[i] == all[k]);
            } else {
                assert(issues[issues.len() - 1] == all[k]);
            }
        }
    }
}

/// An issue without a summary is in the backlog, and a batch that is as
/// large as the backlog selects it. Once a summary is written for it,
/// indexed or not, it is past the state of the unsummarized, and no batch
/// selects it.
pub proof fn lemma_backlog_selects(
    store: StoreView,
    i: int,
    limit: int,
    summary_text: Seq<char>,
    keyword_tags: Seq<Seq<char>>,
)
    requires
        0 <= i < store.issues.len(),
        !has_summary(store.summaries, store.issues[i].issue_id),
    ensures
        store.state_of(store.issues[i].issue_id) == EntityState::Unsummarized,
        backlog(store.issues, store.summaries).contains(store.issues[i]),
        backlog(store.issues, store.summaries).len() <= limit ==> first_n(
            backlog(store.issues, store.summaries),
            limit,
        ).contains(store.issues[i]),
        ({
            let after = with_summary(
                store,
                store.issues[i].issue_id,
                summary_text,
                keyword_tags,
            );
            &&& after.issues == store.issues
            &&& has_summary(after.summaries, store.issues[i].issue_id)
            &&& after.state_of(store.issues[i].issue_id) == EntityState::Summarized
            &&& forall|k: int|
                0 <= k < backlog(after.issues, after.summaries).len() ==> (#[trigger] backlog(
                    after.issues,
                    after.summaries,
                )[k]).issue_id != store.issues[i].issue_id
        }),
{
    let id = store.issues[i].issue_id;
    let after = with_summary(store, id, summary_text, keyword_tags);
    lemma_backlog(store.issues, store.summaries);
    lemma_backlog(after.issues, after.summaries);
    let at = store.summaries.len() as int;
    assert(is_summary_at(after.summaries, id, at));
    let j = summary_index(after.summaries, id);
    assert(is_summary_at(after.summaries, id, j));
    if j != at {
        assert(is_summary_at(store.summaries, id, j));
    }
}

/// Marking a summary as indexed changes the mark of that summary and
/// nothing else.
pub proof fn lemma_with_indexed(store: StoreView, id: Seq<char>)
    requires
        store.well_formed(),
    ensures
        with_indexed(store, id).well_formed(),
        with_indexed(store, id).summaries.len() == store.summaries.len(),
        forall|i: int|
            0 <= i < store.summaries.len() ==> (#[trigger] with_indexed(store, id).summaries[i])
                == (SummaryView {
                indexed: store.summaries[i].indexed || store.summaries[i].entity_id == id,
                ..store.summaries[i]
            }),
{
    let after = with_indexed(store, id);
    if has_summary(store.summaries, id) {
        let at = summary_index(store.summaries, id);
        assert(is_summary_at(store.summaries, id, at));
        lemma_same_summaries(store.summaries, after.summaries);
        assert forall|i: int| 0 <= i < store.summaries.len() implies (
        #[trigger] after.summaries[i]) == (SummaryView {
            indexed: store.summaries[i].indexed || store.summaries[i].entity_id == id,
            ..store.summaries[i]
        }) by {
            if i != at && store.summaries[i].entity_id == id {
                lemma_summary_index(store, id, i);
            }
        }
    } else {
        assert forall|i: int| 0 <= i < store.summaries.len() implies (
        #[trigger] after.summaries[i]) == (SummaryView {
            indexed: store.summaries[i].indexed || store.summaries[i].entity_id == id,
            ..store.summaries[i]
        }) by {
            assert(!is_summary_at(store.summaries, id, i));
        }
    }
    assert(after.projects == store.projects);
    assert(after.issues == store.issues);
    assert(after.well_formed());
}

/// After a run of marks, a summary is indexed where it was before or where
/// its entity is among those marked; nothing else has changed.
pub proof fn lemma_after_marks(store: StoreView, ids: Seq<Seq<char>>)
    requires
        store.well_formed(),
    ensures
        after_marks(store, ids).well_formed(),
        after_marks(store, ids).summaries.len() == store.summaries.len(),
        forall|i: int|
            0 <= i < store.summaries.len() ==> (#[trigger] after_marks(store, ids).summaries[i])
                == (SummaryView {
                indexed: store.summaries[i].indexed || ids.contains(store.summaries[i].entity_id),
                ..store.summaries[i]
            }),
    decreases ids.len(),
{
    let after = after_marks(store, ids);
    if ids.len() == 0 {
        assert forall|i: int| 0 <= i < store.summaries.len() implies (
        #[trigger] after.summaries[i]) == (SummaryView {
            indexed: store.summaries[i].indexed || ids.contains(store.summaries[i].entity_id),
            ..store.summaries[i]
        }) by {}
    } else {
        let init = ids.drop_last();
        let mid = after_marks(store, init);
        lemma_after_marks(store, init);
        lemma_with_indexed(mid, ids.last());
        assert forall|i: int| 0 <= i < store.summaries.len() implies (
        #[trigger] after.summaries[i]) == (SummaryView {
            indexed: store.summaries[i].indexed || ids.contains(store.summaries[i].entity_id),
            ..store.summaries[i]
        }) by {
            let e = store.summaries[i].entity_id;
            assert(mid.summaries[i].entity_id == e);
            if init.contains(e) {
                let k = choose|k: int| 0 <= k < init.len() && init[k] == e;
                assert(ids[k] == e);
            }
            if e == ids.last() {
                assert(ids[ids.len() - 1] == e);
            }
            if ids.contains(e) {
                let k = choose|k: int| 0 <= k < ids.len() && ids[k] == e;
                if k < init.len() {
                    assert(init[k] == e);
                }
            }
        }
    }
}

/// The summaries that wait for the index are those that are not indexed, each
/// once, where no two summaries share an entity.
pub proof fn lemma_pending(summaries: Seq<SummaryView>)
    ensures
        pending(summaries).len() <= summaries.len(),
        forall|i: int|
            0 <= i < summaries.len() && !(#[trigger] summaries[i]).indexed ==> pending(
                summaries,
            ).contains(summaries[i]),
        forall|k: int|
            0 <= k < pending(summaries).len() ==> !(#[trigger] pending(summaries)[k]).indexed
                && summaries.contains(pending(summaries)[k]),
        (forall|i: int, j: int|
            0 <= i < j < summaries.len() ==> summaries[i].entity_id != summaries[j].entity_id)
            ==> (forall|k: int, m: int|
            0 <= k < m < pending(summaries).len() ==> pending(summaries)[k].entity_id != pending(
                summaries,
            )[m].entity_id),
    decreases summaries.len(),
{
    let all = pending(summaries);
    if summaries.len() > 0 {
        let init = summaries.drop_last();
        let known = pending(init);
        lemma_pending(init);
        assert forall|i: int| 0 <= i < summaries.len() && !(#[trigger] summaries[i]).indexed implies all.contains(
            summaries[i],
        ) by {
            if i < init.len() {
                assert(init[i] == summaries[i]);
                assert(known.contains(init[i]));
                let k = choose|k: int| 0 <= k < known.len() && known[k] == init[i];
                assert(all[k] == summaries[i]);
            } else {
                assert(all[all.len() - 1] == summaries[i]);
            }
        }
        assert forall|k: int| 0 <= k < all.len() implies !(#[trigger] all[k]).indexed
            && summaries.contains(all[k]) by {
            if k < known.len() {
                assert(all[k] == known[k]);
                assert(init.contains(known[k]));
                let i = choose|i: int| 0 <= i < init.len() && init[i] == known[k];
                assert(summaries[i] == all[k]);
            } else {
                assert(summaries[summaries.len() - 1] == all[k]);
            }
        }
        if forall|i: int, j: int|
            0 <= i < j < summaries.len() ==> summaries[i].entity_id != summaries[j].entity_id {
            assert forall|i: int, j: int| 0 <= i < j < init.len() implies init[i].entity_id
                != init[j].entity_id by {
                assert(summaries[i].entity_id != summaries[j].entity_id);
            }
            assert forall|k: int, m: int| 0 <= k < m < all.len() implies all[k].entity_id
                != all[m].entity_id by {
                if m < known.len() {
                    assert(known[k].entity_id != known[m].entity_id);
                } else {
                    assert(all[k] == known[k]);
                    assert(init.contains(known[k]));
                    let i = choose|i: int| 0 <= i < init.len() && init[i] == known[k];
                    assert(summaries[i].entity_id != summaries[summaries.len() - 1].entity_id);
                }
            }
        }
    }
}

/// Where fewer summaries wait for the index than one batch takes, one run
/// of the batch leaves every summary indexed, and gives each summary of the
/// batch exactly one new point: the points of the batch name the entities
/// of the batch, one after the other, and no two of them name the same.
pub proof fn lemma_batch_indexes_all(store: StoreView, start: int)
    requires
        store.well_formed(),
        pending(store.summaries).len() <= BATCH_SIZE,
    ensures
        ({
            let batch = index_batch(store);
            let after = after_marks(store, ids_of(batch));
            let points = points_for(batch, start);
            &&& batch == ids_and_texts(pending(store.summaries))
            &&& after.well_formed()
            &&& after.summaries.len() == store.summaries.len()
            &&& forall|i: int| 0 <= i < after.summaries.len() ==> (#[trigger] after.summaries[i]).indexed
            &&& pending(after.summaries).len() == 0
            &&& points.len() == batch.len()
            &&& forall|k: int|
                0 <= k < points.len() ==> (#[trigger] points[k]).entity_id == batch[k].0
                    && points[k].text == batch[k].1
            &&& forall|k: int, m: int|
                0 <= k < m < points.len() ==> points[k].entity_id != points[m].entity_id
        }),
{
    let waiting = pending(store.summaries);
    let batch = index_batch(store);
    let ids = ids_of(batch);
    let after = after_marks(store, ids);
    let points = points_for(batch, start);
    lemma_pending(store.summaries);
    lemma_after_marks(store, ids);
    assert forall|i: int| 0 <= i < after.summaries.len() implies (
    #[trigger] after.summaries[i]).indexed by {
        if !store.summaries[i].indexed {
            assert(waiting.contains(store.summaries[i]));
            let k = choose|k: int| 0 <= k < waiting.len() && waiting[k] == store.summaries[i];
            assert(ids[k] == store.summaries[i].entity_id);
        }
    }
    lemma_pending(after.summaries);
    if pending(after.summaries).len() > 0 {
        let first = pending(after.summaries)[0];
        assert(after.summaries.contains(first));
        let i = choose|i: int| 0 <= i < after.summaries.len() && after.summaries[i] == first;
        assert(after.summaries[i].indexed);
    }
    assert forall|k: int, m: int| 0 <= k < m < points.len() implies points[k].entity_id
        != points[m].entity_id by {
        assert(waiting[k].entity_id != waiting[m].entity_id);
    }
}

} // verus!
