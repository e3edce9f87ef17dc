use crate::issue_tracker::{
    AssignedEvent, AssignedIssueNode, AssignedTimeline, ClosedEvent, ClosedIssueNode,
    ClosedTimeline, Closer, Data, GraphQlResponse, Login, Named, NamedNodes, OpenIssueNode, Owner,
    PageInfo, ParticipantNode, Participants, ParticipantsIssueNode, PullNode, RateLimit, Readme,
    RepoNode, Search, Stargazers,
};
use crate::issue_tracker::found_nodes;
use crate::json::{
    bool_field, get_bool, get_i64, get_list, get_object, get_text, i64_field, json_document,
    json_views, list_field, object_field, parse_json, text_field, Json, JsonDoc, JsonError,
};
use crate::text::{opt_view, text_or_empty};
use vstd::prelude::*;

verus! {

/// The text, or the empty text where there is none.
pub open spec fn or_empty(text: Option<Seq<char>>) -> Seq<char> {
    match text {
        Some(t) => t,
        None => Seq::empty(),
    }
}

/// Whether `who` is what the object `doc` states of someone with a login;
/// without the object there is no one.
pub open spec fn is_login(who: Option<Login>, doc: Option<JsonDoc>) -> bool {
    match doc {
        Some(d) => who is Some && opt_view(who->0.login) == text_field(d, "login"@),
        None => who is None,
    }
}

pub open spec fn is_open_issue_node(node: OpenIssueNode, doc: JsonDoc) -> bool {
    &&& node.title@ == or_empty(text_field(doc, "title"@))
    &&& node.url@ == or_empty(text_field(doc, "url"@))
    &&& opt_view(node.body) == text_field(doc, "body"@)
    &&& is_login(node.author, object_field(doc, "author"@))
}

pub open spec fn is_pull_node(node: PullNode, doc: JsonDoc) -> bool {
    &&& opt_view(node.title) == text_field(doc, "title"@)
    &&& opt_view(node.url) == text_field(doc, "url"@)
    &&& is_login(node.author, object_field(doc, "author"@))
    &&& opt_view(node.merged_at) == text_field(doc, "mergedAt"@)
}

pub open spec fn is_repo_node(node: RepoNode, doc: JsonDoc) -> bool {
    &&& node.url@ == or_empty(text_field(doc, "url"@))
    &&& opt_view(node.description) == text_field(doc, "description"@)
    &&& match object_field(doc, "readme"@) {
        Some(d) => node.readme is Some && opt_view(node.readme->0.text) == text_field(d, "text"@),
        None => node.readme is None,
    }
    &&& match object_field(doc, "stargazers"@) {
        Some(d) => node.stargazers is Some && node.stargazers->0.total_count == i64_field(
            d,
            "totalCount"@,
        ),
        None => node.stargazers is None,
    }
    &&& match object_field(doc, "owner"@) {
        Some(d) => node.owner is Some && opt_view(node.owner->0.avatar_url) == text_field(
            d,
            "avatarUrl"@,
        ),
        None => node.owner is None,
    }
}

pub open spec fn is_assigned_event(event: AssignedEvent, doc: JsonDoc) -> bool {
    &&& is_login(event.assignee, object_field(doc, "assignee"@))
    &&& opt_view(event.created_at) == text_field(doc, "createdAt"@)
}

pub open spec fn are_assigned_events(events: Option<Vec<AssignedEvent>>, docs: Option<Seq<JsonDoc>>) -> bool {
    match docs {
        Some(ds) => events is Some && events->0@.len() == ds.len() && forall|i: int|
            0 <= i < ds.len() ==> is_assigned_event(#[trigger] events->0@[i], ds[i]),
        None => events is None,
    }
}

pub open spec fn is_assigned_issue_node(node: AssignedIssueNode, doc: JsonDoc) -> bool {
    &&& opt_view(node.url) == text_field(doc, "url"@)
    &&& match object_field(doc, "timelineItems"@) {
        Some(d) => node.timeline_items is Some && are_assigned_events(
            node.timeline_items->0.nodes,
            list_field(d, "nodes"@),
        ),
        None => node.timeline_items is None,
    }
}

pub open spec fn are_named(people: Option<Vec<Named>>, docs: Option<Seq<JsonDoc>>) -> bool {
    match docs {
        Some(ds) => people is Some && people->0@.len() == ds.len() && forall|i: int|
            0 <= i < ds.len() ==> opt_view((#[trigger] people->0@[i]).name) == text_field(
                ds[i],
                "name"@,
            ),
        None => people is None,
    }
}

pub open spec fn is_closer(closer: Option<Closer>, doc: Option<JsonDoc>) -> bool {
    match doc {
        Some(d) => closer is Some && opt_view(closer->0.title) == text_field(d, "title"@)
            && opt_view(closer->0.url) == text_field(d, "url"@) && is_login(
            closer->0.author,
            object_field(d, "author"@),
        ),
        None => closer is None,
    }
}

pub open spec fn is_closed_event(event: ClosedEvent, doc: JsonDoc) -> bool {
    &&& opt_view(event.state_reason) == text_field(doc, "stateReason"@)
    &&& is_closer(event.closer, object_field(doc, "closer"@))
}

pub open spec fn are_closed_events(events: Option<Vec<ClosedEvent>>, docs: Option<Seq<JsonDoc>>) -> bool {
    match docs {
        Some(ds) => events is Some && events->0@.len() == ds.len() && forall|i: int|
            0 <= i < ds.len() ==> is_closed_event(#[trigger] events->0@[i], ds[i]),
        None => events is None,
    }
}

pub open spec fn is_closed_issue_node(node: ClosedIssueNode, doc: JsonDoc) -> bool {
    &&& opt_view(node.url) == text_field(doc, "url"@)
    &&& match object_field(doc, "assignees"@) {
        Some(d) => node.assignees is Some && are_named(
            node.assignees->0.nodes,
            list_field(d, "nodes"@),
        ),
        None => node.assignees is None,
    }
    &&& match object_field(doc, "timelineItems"@) {
        Some(d) => node.timeline_items is Some && are_closed_events(
            node.timeline_items->0.nodes,
            list_field(d, "nodes"@),
        ),
        None => node.timeline_items is None,
    }
}

pub open spec fn is_participant_node(node: ParticipantNode, doc: JsonDoc) -> bool {
    &&& opt_view(node.login) == text_field(doc, "login"@)
    &&& opt_view(node.avatar_url) == text_field(doc, "avatarUrl"@)
    &&& opt_view(node.email) == text_field(doc, "email"@)
}

pub open spec fn are_participants(people: Option<Vec<ParticipantNode>>, docs: Option<Seq<JsonDoc>>) -> bool {
    match docs {
        Some(ds) => people is Some && people->0@.len() == ds.len() && forall|i: int|
            0 <= i < ds.len() ==> is_participant_node(#[trigger] people->0@[i], ds[i]),
        None => people is None,
    }
}

pub open spec fn is_participants_issue_node(node: ParticipantsIssueNode, doc: JsonDoc) -> bool {
    match object_field(doc, "participants"@) {
        Some(d) => node.participants is Some && are_participants(
            node.participants->0.nodes,
            list_field(d, "nodes"@),
        ),
        None => node.participants is None,
    }
}

/// Whether `info` is what the search `doc` states of where its page ends.
/// Page information that does not say whether a page follows counts as
/// absent.
pub open spec fn is_page_info(info: Option<PageInfo>, doc: JsonDoc) -> bool {
    match object_field(doc, "pageInfo"@) {
        Some(d) => match bool_field(d, "hasNextPage"@) {
            Some(more) => info is Some && info->0.has_next_page == more && opt_view(
                info->0.end_cursor,
            ) == text_field(d, "endCursor"@),
            None => info is None,
        },
        None => info is None,
    }
}

/// The search that an answer holds: the object under "search" in the
/// object under "data".
pub open spec fn search_doc(doc: JsonDoc) -> Option<JsonDoc> {
    match object_field(doc, "data"@) {
        Some(data) => object_field(data, "search"@),
        None => None,
    }
}

/// The documents of the nodes that an answer holds.
pub open spec fn node_docs(doc: JsonDoc) -> Option<Seq<JsonDoc>> {
    match search_doc(doc) {
        Some(search) => list_field(search, "nodes"@),
        None => None,
    }
}

/// Whether `response` has the frame that `doc` states: data, search, page
/// information, and as many nodes as `doc` lists.
pub open spec fn has_frame<N>(response: GraphQlResponse<N>, doc: JsonDoc) -> bool {
    match object_field(doc, "data"@) {
        None => response.data is None,
        Some(data) => response.data is Some && match object_field(data, "search"@) {
            None => response.data->0.search is None,
            Some(search) => {
                let found = response.data->0.search;
                &&& found is Some
                &&& is_page_info(found->0.page_info, search)
                &&& match list_field(search, "nodes"@) {
                    Some(ds) => found->0.nodes is Some && found->0.nodes->0@.len() == ds.len(),
                    None => found->0.nodes is None,
                }
            },
        },
    }
}

/// The rate limit that an answer states: the whole numbers under "limit",
/// "remaining" and "used" of the object under "rateLimit" in the object
/// under "data", where each is there and fits 32 bits.
pub open spec fn stated_rate_limit(doc: JsonDoc) -> Option<RateLimit> {
    match object_field(doc, "data"@) {
        Some(data) => match object_field(data, "rateLimit"@) {
            Some(d) => match (
                i64_field(d, "limit"@),
                i64_field(d, "remaining"@),
                i64_field(d, "used"@),
            ) {
                (Some(limit), Some(remaining), Some(used)) => if fits_i32(limit) && fits_i32(
                    remaining,
                ) && fits_i32(used) {
                    Some(
                        RateLimit {
                            limit: limit as i32,
                            remaining: remaining as i32,
                            used: used as i32,
                        },
                    )
                } else {
                    None
                },
                _ => None,
            },
            None => None,
        },
        None => None,
    }
}

pub open spec fn fits_i32(v: i64) -> bool {
    i32::MIN <= v <= i32::MAX
}

fn read_login(doc: &Json, name: &str) -> (who: Option<Login>)
    ensures
        is_login(who, object_field(doc@, name@)),
{
    match get_object(doc, name) {
        Some(d) => Some(Login { login: get_text(d, "login") }),
        None => None,
    }
}

pub fn open_issue_node_from(doc: &Json) -> (node: OpenIssueNode)
    ensures
        is_open_issue_node(node, doc@),
{
    OpenIssueNode {
        title: text_or_empty(&get_text(doc, "title")),
        url: text_or_empty(&get_text(doc, "url")),
        body: get_text(doc, "body"),
        author: read_login(doc, "author"),
    }
}

pub fn pull_node_from(doc: &Json) -> (node: PullNode)
    ensures
        is_pull_node(node, doc@),
{
    PullNode {
        title: get_text(doc, "title"),
        url: get_text(doc, "url"),
        author: read_login(doc, "author"),
        merged_at: get_text(doc, "mergedAt"),
    }
}

pub fn repo_node_from(doc: &Json) -> (node: RepoNode)
    ensures
        is_repo_node(node, doc@),
{
    RepoNode {
        url: text_or_empty(&get_text(doc, "url")),
        description: get_text(doc, "description"),
        readme: match get_object(doc, "readme") {
            Some(d) => Some(Readme { text: get_text(d, "text") }),
            None => None,
        },
        stargazers: match get_object(doc, "stargazers") {
            Some(d) => Some(Stargazers { total_count: get_i64(d, "totalCount") }),
            None => None,
        },
        owner: match get_object(doc, "owner") {
            Some(d) => Some(Owner { avatar_url: get_text(d, "avatarUrl") }),
            None => None,
        },
    }
}

pub fn assigned_event_from(doc: &Json) -> (event: AssignedEvent)
    ensures
        is_assigned_event(event, doc@),
{
    AssignedEvent { assignee: read_login(doc, "assignee"), created_at: get_text(doc, "createdAt") }
}

fn assigned_events_from(doc: &Json) -> (events: Option<Vec<AssignedEvent>>)
    ensures
        are_assigned_events(events, list_field(doc@, "nodes"@)),
{
    let items = match get_list(doc, "nodes") {
        Some(items) => items,
        None => {
            return None;
        },
    };
    let ghost docs = json_views(items@);
    let mut out: Vec<AssignedEvent> = Vec::new();
    let mut i: usize = 0;
    while i < items.len()
        invariant
            i <= items.len(),
            docs == json_views(items@),
            out@.len() == i,
            forall|k: int| 0 <= k < i ==> is_assigned_event(#[trigger] out@[k], docs[k]),
        decreases items.len() - i,
    {
        let event = assigned_event_from(&items[i]);
        out.push(event);
        i += 1;
    }
    Some(out)
}

pub fn assigned_issue_node_from(doc: &Json) -> (node: AssignedIssueNode)
    ensures
        is_assigned_issue_node(node, doc@),
{
    AssignedIssueNode {
        url: get_text(doc, "url"),
        timeline_items: match get_object(doc, "timelineItems") {
            Some(d) => Some(AssignedTimeline { nodes: assigned_events_from(d) }),
            None => None,
        },
    }
}

fn named_from(doc: &Json) -> (people: Option<Vec<Named>>)
    ensures
        are_named(people, list_field(doc@, "nodes"@)),
{
    let items = match get_list(doc, "nodes") {
        Some(items) => items,
        None => {
            return None;
        },
    };
    let ghost docs = json_views(items@);
    let mut out: Vec<Named> = Vec::new();
    let mut i: usize = 0;
    while i < items.len()
        invariant
            i <= items.len(),
            docs == json_views(items@),
            out@.len() == i,
            forall|k: int|
                0 <= k < i ==> opt_view((#[trigger] out@[k]).name) == text_field(docs[k], "name"@),
        decreases items.len() - i,
    {
        let person = Named { name: get_text(&items[i], "name") };
        out.push(person);
        i += 1;
    }
    Some(out)
}

fn read_closer(doc: &Json, name: &str) -> (closer: Option<Closer>)
    ensures
        is_closer(closer, object_field(doc@, name@)),
{
    match get_object(doc, name) {
        Some(d) => Some(
            Closer {
                title: get_text(d, "title"),
                url: get_text(d, "url"),
                author: read_login(d, "author"),
            },
        ),
        None => None,
    }
}

pub fn closed_event_from(doc: &Json) -> (event: ClosedEvent)
    ensures
        is_closed_event(event, doc@),
{
    ClosedEvent { state_reason: get_text(doc, "stateReason"), closer: read_closer(doc, "closer") }
}

fn closed_events_from(doc: &Json) -> (events: Option<Vec<ClosedEvent>>)
    ensures
        are_closed_events(events, list_field(doc@, "nodes"@)),
{
    let items = match get_list(doc, "nodes") {
        Some(items) => items,
        None => {
            return None;
        },
    };
    let ghost docs = json_views(items@);
    let mut out: Vec<ClosedEvent> = Vec::new();
    let mut i: usize = 0;
    while i < items.len()
        invariant
            i <= items.len(),
            docs == json_views(items@),
            out@.len() == i,
            forall|k: int| 0 <= k < i ==> is_closed_event(#[trigger] out@[k], docs[k]),
        decreases items.len() - i,
    {
        let event = closed_event_from(&items[i]);
        out.push(event);
        i += 1;
    }
    Some(out)
}

pub fn closed_issue_node_from(doc: &Json) -> (node: ClosedIssueNode)
    ensures
        is_closed_issue_node(node, doc@),
{
    ClosedIssueNode {
        url: get_text(doc, "url"),
        assignees: match get_object(doc, "assignees") {
            Some(d) => Some(NamedNodes { nodes: named_from(d) }),
            None => None,
        },
        timeline_items: match get_object(doc, "timelineItems") {
            Some(d) => Some(ClosedTimeline { nodes: closed_events_from(d) }),
            None => None,
        },
    }
}

pub fn participant_node_from(doc: &Json) -> (node: ParticipantNode)
    ensures
        is_participant_node(node, doc@),
{
    ParticipantNode {
        login: get_text(doc, "login"),
        avatar_url: get_text(doc, "avatarUrl"),
        email: get_text(doc, "email"),
    }
}

fn participants_from(doc: &Json) -> (people: Option<Vec<ParticipantNode>>)
    ensures
        are_participants(people, list_field(doc@, "nodes"@)),
{
    let items = match get_list(doc, "nodes") {
        Some(items) => items,
        None => {
            return None;
        },
    };
    let ghost docs = json_views(items@);
    let mut out: Vec<ParticipantNode> = Vec::new();
    let mut i: usize = 0;
    while i < items.len()
        invariant
            i <= items.len(),
            docs == json_views(items@),
            out@.len() == i,
            forall|k: int| 0 <= k < i ==> is_participant_node(#[trigger] out@[k], docs[k]),
        decreases items.len() - i,
    {
        let person = participant_node_from(&items[i]);
        out.push(person);
        i += 1;
    }
    Some(out)
}

pub fn participants_issue_node_from(doc: &Json) -> (node: ParticipantsIssueNode)
    ensures
        is_participants_issue_node(node, doc@),
{
    ParticipantsIssueNode {
        participants: match get_object(doc, "participants") {
            Some(d) => Some(Participants { nodes: participants_from(d) }),
            None => None,
        },
    }
}

fn page_info_from(search: &Json) -> (info: Option<PageInfo>)
    ensures
        is_page_info(info, search@),
{
    match get_object(search, "pageInfo") {
        Some(d) => match get_bool(d, "hasNextPage") {
            Some(more) => Some(
                PageInfo { end_cursor: get_text(d, "endCursor"), has_next_page: more },
            ),
            None => None,
        },
        None => None,
    }
}

/// The nodes that an answer holds, as the tracker reads them: none where
/// the answer lists none.
pub open spec fn nodes_or_none<N>(nodes: Option<Vec<N>>) -> Seq<N> {
    match nodes {
        Some(found) => found@,
        None => Seq::empty(),
    }
}

/// The list of nodes that an answer holds.
fn node_list<'a>(doc: &'a Json) -> (r: Option<&'a Vec<Json>>)
    ensures
        match r {
            Some(items) => node_docs(doc@) == Some(json_views(items@)),
            None => node_docs(doc@) is None,
        },
{
    match get_object(doc, "data") {
        Some(data) => match get_object(data, "search") {
            Some(search) => get_list(search, "nodes"),
            None => None,
        },
        None => None,
    }
}

/// Puts the nodes that were read into the frame that the answer states.
fn framed<N>(doc: &Json, nodes: Option<Vec<N>>) -> (response: GraphQlResponse<N>)
    requires
        match node_docs(doc@) {
            Some(ds) => nodes is Some && nodes->0@.len() == ds.len(),
            None => nodes is None,
        },
    ensures
        has_frame(response, doc@),
        found_nodes(response) == nodes_or_none(nodes),
{
    match get_object(doc, "data") {
        None => GraphQlResponse { data: None },
        Some(data) => match get_object(data, "search") {
            None => GraphQlResponse { data: Some(Data { search: None }) },
            Some(search) => GraphQlResponse {
                data: Some(
                    Data { search: Some(Search { nodes, page_info: page_info_from(search) }) },
                ),
            },
        },
    }
}

/// Whether `nodes` are what the documents state, one by one; without a
/// list of documents there are no nodes.
pub open spec fn are_open_issue_nodes(nodes: Seq<OpenIssueNode>, docs: Option<Seq<JsonDoc>>) -> bool {
    match docs {
        Some(ds) => nodes.len() == ds.len() && forall|i: int|
            0 <= i < ds.len() ==> is_open_issue_node(#[trigger] nodes[i], ds[i]),
        None => nodes.len() == 0,
    }
}

fn open_issue_nodes_from(items: &Vec<Json>) -> (out: Vec<OpenIssueNode>)
    ensures
        are_open_issue_nodes(out@, Some(json_views(items@))),
{
    let ghost docs = json_views(items@);
    let mut out: Vec<OpenIssueNode> = Vec::new();
    let mut i: usize = 0;
    while i < items.len()
        invariant
            i <= items.len(),
            docs == json_views(items@),
            out@.len() == i,
            forall|k: int| 0 <= k < i ==> is_open_issue_node(#[trigger] out@[k], docs[k]),
        decreases items.len() - i,
    {
        let node = open_issue_node_from(&items[i]);
        out.push(node);
        i += 1;
    }
    out
}

/// Reads the answer to a search for open issues off a document. A member of the
/// wrong kind counts as absent, so that one bad node spoils no page.
pub fn open_issues_from_json(doc: &Json) -> (response: GraphQlResponse<OpenIssueNode>)
    ensures
        has_frame(response, doc@),
        are_open_issue_nodes(found_nodes(response), node_docs(doc@)),
{
    let nodes = match node_list(doc) {
        Some(items) => Some(open_issue_nodes_from(items)),
        None => None,
    };
    framed(doc, nodes)
}

/// Reads the answer to a search for open issues off the text that came. Only a
/// text that is no JSON at all fails.
pub fn decode_open_issues(text: &str) -> (r: Result<GraphQlResponse<OpenIssueNode>, JsonError>)
    ensures
        match r {
            Ok(response) => json_document(text@) matches Some(doc) && has_frame(response, doc)
                && are_open_issue_nodes(found_nodes(response), node_docs(doc)),
            Err(e) => json_document(text@) is None && e == JsonError::Malformed,
        },
{
    match parse_json(text) {
        Ok(doc) => Ok(open_issues_from_json(&doc)),
        Err(_) => Err(JsonError::Malformed),
    }
}

/// Whether `nodes` are what the documents state, one by one; without a
/// list of documents there are no nodes.
pub open spec fn are_pull_nodes(nodes: Seq<PullNode>, docs: Option<Seq<JsonDoc>>) -> bool {
    match docs {
        Some(ds) => nodes.len() == ds.len() && forall|i: int|
            0 <= i < ds.len() ==> is_pull_node(#[trigger] nodes[i], ds[i]),
        None => nodes.len() == 0,
    }
}

fn pull_nodes_from(items: &Vec<Json>) -> (out: Vec<PullNode>)
    ensures
        are_pull_nodes(out@, Some(json_views(items@))),
{
    let ghost docs = json_views(items@);
    let mut out: Vec<PullNode> = Vec::new();
    let mut i: usize = 0;
    while i < items.len()
        invariant
            i <= items.len(),
            docs == json_views(items@),
            out@.len() == i,
            forall|k: int| 0 <= k < i ==> is_pull_node(#[trigger] out@[k], docs[k]),
        decreases items.len() - i,
    {
        let node = pull_node_from(&items[i]);
        out.push(node);
        i += 1;
    }
    out
}

/// Reads the answer to a search for pull requests off a document. A member of the
/// wrong kind counts as absent, so that one bad node spoils no page.
pub fn pull_requests_from_json(doc: &Json) -> (response: GraphQlResponse<PullNode>)
    ensures
        has_frame(response, doc@),
        are_pull_nodes(found_nodes(response), node_docs(doc@)),
{
    let nodes = match node_list(doc) {
        Some(items) => Some(pull_nodes_from(items)),
        None => None,
    };
    framed(doc, nodes)
}

/// Reads the answer to a search for pull requests off the text that came. Only a
/// text that is no JSON at all fails.
pub fn decode_pull_requests(text: &str) -> (r: Result<GraphQlResponse<PullNode>, JsonError>)
    ensures
        match r {
            Ok(response) => json_document(text@) matches Some(doc) && has_frame(response, doc)
                && are_pull_nodes(found_nodes(response), node_docs(doc)),
            Err(e) => json_document(text@) is None && e == JsonError::Malformed,
        },
{
    match parse_json(text) {
        Ok(doc) => Ok(pull_requests_from_json(&doc)),
        Err(_) => Err(JsonError::Malformed),
    }
}

/// Whether `nodes` are what the documents state, one by one; without a
/// list of documents there are no nodes.
pub open spec fn are_repo_nodes(nodes: Seq<RepoNode>, docs: Option<Seq<JsonDoc>>) -> bool {
    match docs {
        Some(ds) => nodes.len() == ds.len() && forall|i: int|
            0 <= i < ds.len() ==> is_repo_node(#[trigger] nodes[i], ds[i]),
        None => nodes.len() == 0,
    }
}

fn repo_nodes_from(items: &Vec<Json>) -> (out: Vec<RepoNode>)
    ensures
        are_repo_nodes(out@, Some(json_views(items@))),
{
    let ghost docs = json_views(items@);
    let mut out: Vec<RepoNode> = Vec::new();
    let mut i: usize = 0;
    while i < items.len()
        invariant
            i <= items.len(),
            docs == json_views(items@),
            out@.len() == i,
            forall|k: int| 0 <= k < i ==> is_repo_node(#[trigger] out@[k], docs[k]),
        decreases items.len() - i,
    {
        let node = repo_node_from(&items[i]);
        out.push(node);
        i += 1;
    }
    out
}

/// Reads the answer to a search for repositories off a document. A member of the
/// wrong kind counts as absent, so that one bad node spoils no page.
pub fn repositories_from_json(doc: &Json) -> (response: GraphQlResponse<RepoNode>)
    ensures
        has_frame(response, doc@),
        are_repo_nodes(found_nodes(response), node_docs(doc@)),
{
    let nodes = match node_list(doc) {
        Some(items) => Some(repo_nodes_from(items)),
        None => None,
    };
    framed(doc, nodes)
}

/// Reads the answer to a search for repositories off the text that came. Only a
/// text that is no JSON at all fails.
pub fn decode_repositories(text: &str) -> (r: Result<GraphQlResponse<RepoNode>, JsonError>)
    ensures
        match r {
            Ok(response) => json_document(text@) matches Some(doc) && has_frame(response, doc)
                && are_repo_nodes(found_nodes(response), node_docs(doc)),
            Err(e) => json_document(text@) is None && e == JsonError::Malformed,
        },
{
    match parse_json(text) {
        Ok(doc) => Ok(repositories_from_json(&doc)),
        Err(_) => Err(JsonError::Malformed),
    }
}

/// Whether `nodes` are what the documents state, one by one; without a
/// list of documents there are no nodes.
pub open spec fn are_assigned_issue_nodes(nodes: Seq<AssignedIssueNode>, docs: Option<Seq<JsonDoc>>) -> bool {
    match docs {
        Some(ds) => nodes.len() == ds.len() && forall|i: int|
            0 <= i < ds.len() ==> is_assigned_issue_node(#[trigger] nodes[i], ds[i]),
        None => nodes.len() == 0,
    }
}

fn assigned_issue_nodes_from(items: &Vec<Json>) -> (out: Vec<AssignedIssueNode>)
    ensures
        are_assigned_issue_nodes(out@, Some(json_views(items@))),
{
    let ghost docs = json_views(items@);
    let mut out: Vec<AssignedIssueNode> = Vec::new();
    let mut i: usize = 0;
    while i < items.len()
        invariant
            i <= items.len(),
            docs == json_views(items@),
            out@.len() == i,
            forall|k: int| 0 <= k < i ==> is_assigned_issue_node(#[trigger] out@[k], docs[k]),
        decreases items.len() - i,
    {
        let node = assigned_issue_node_from(&items[i]);
        out.push(node);
        i += 1;
    }
    out
}

/// Reads the answer to a search for assigned issues off a document. A member of the
/// wrong kind counts as absent, so that one bad node spoils no page.
pub fn assigned_issues_from_json(doc: &Json) -> (response: GraphQlResponse<AssignedIssueNode>)
    ensures
        has_frame(response, doc@),
        are_assigned_issue_nodes(found_nodes(response), node_docs(doc@)),
{
    let nodes = match node_list(doc) {
        Some(items) => Some(assigned_issue_nodes_from(items)),
        None => None,
    };
    framed(doc, nodes)
}

/// Reads the answer to a search for assigned issues off the text that came. Only a
/// text that is no JSON at all fails.
pub fn decode_assigned_issues(text: &str) -> (r: Result<GraphQlResponse<AssignedIssueNode>, JsonError>)
    ensures
        match r {
            Ok(response) => json_document(text@) matches Some(doc) && has_frame(response, doc)
                && are_assigned_issue_nodes(found_nodes(response), node_docs(doc)),
            Err(e) => json_document(text@) is None && e == JsonError::Malformed,
        },
{
    match parse_json(text) {
        Ok(doc) => Ok(assigned_issues_from_json(&doc)),
        Err(_) => Err(JsonError::Malformed),
    }
}

/// Whether `nodes` are what the documents state, one by one; without a
/// list of documents there are no nodes.
pub open spec fn are_closed_issue_nodes(nodes: Seq<ClosedIssueNode>, docs: Option<Seq<JsonDoc>>) -> bool {
    match docs {
        Some(ds) => nodes.len() == ds.len() && forall|i: int|
            0 <= i < ds.len() ==> is_closed_issue_node(#[trigger] nodes[i], ds[i]),
        None => nodes.len() == 0,
    }
}

fn closed_issue_nodes_from(items: &Vec<Json>) -> (out: Vec<ClosedIssueNode>)
    ensures
        are_closed_issue_nodes(out@, Some(json_views(items@))),
{
    let ghost docs = json_views(items@);
    let mut out: Vec<ClosedIssueNode> = Vec::new();
    let mut i: usize = 0;
    while i < items.len()
        invariant
            i <= items.len(),
            docs == json_views(items@),
            out@.len() == i,
            forall|k: int| 0 <= k < i ==> is_closed_issue_node(#[trigger] out@[k], docs[k]),
        decreases items.len() - i,
    {
        let node = closed_issue_node_from(&items[i]);
        out.push(node);
        i += 1;
    }
    out
}

/// Reads the answer to a search for closed issues off a document. A member of the
/// wrong kind counts as absent, so that one bad node spoils no page.
pub fn closed_issues_from_json(doc: &Json) -> (response: GraphQlResponse<ClosedIssueNode>)
    ensures
        has_frame(response, doc@),
        are_closed_issue_nodes(found_nodes(response), node_docs(doc@)),
{
    let nodes = match node_list(doc) {
        Some(items) => Some(closed_issue_nodes_from(items)),
        None => None,
    };
    framed(doc, nodes)
}

/// Reads the answer to a search for closed issues off the text that came. Only a
/// text that is no JSON at all fails.
pub fn decode_closed_issues(text: &str) -> (r: Result<GraphQlResponse<ClosedIssueNode>, JsonError>)
    ensures
        match r {
            Ok(response) => json_document(text@) matches Some(doc) && has_frame(response, doc)
                && are_closed_issue_nodes(found_nodes(response), node_docs(doc)),
            Err(e) => json_document(text@) is None && e == JsonError::Malformed,
        },
{
    match parse_json(text) {
        Ok(doc) => Ok(closed_issues_from_json(&doc)),
        Err(_) => Err(JsonError::Malformed),
    }
}

/// Whether `nodes` are what the documents state, one by one; without a
/// list of documents there are no nodes.
pub open spec fn are_participants_issue_nodes(nodes: Seq<ParticipantsIssueNode>, docs: Option<Seq<JsonDoc>>) -> bool {
    match docs {
        Some(ds) => nodes.len() == ds.len() && forall|i: int|
            0 <= i < ds.len() ==> is_participants_issue_node(#[trigger] nodes[i], ds[i]),
        None => nodes.len() == 0,
    }
}

fn participants_issue_nodes_from(items: &Vec<Json>) -> (out: Vec<ParticipantsIssueNode>)
    ensures
        are_participants_issue_nodes(out@, Some(json_views(items@))),
{
    let ghost docs = json_views(items@);
    let mut out: Vec<ParticipantsIssueNode> = Vec::new();
    let mut i: usize = 0;
    while i < items.len()
        invariant
            i <= items.len(),
            docs == json_views(items@),
            out@.len() == i,
            forall|k: int| 0 <= k < i ==> is_participants_issue_node(#[trigger] out@[k], docs[k]),
        decreases items.len() - i,
    {
        let node = participants_issue_node_from(&items[i]);
        out.push(node);
        i += 1;
    }
    out
}

/// Reads the answer to a search for participants of issues off a document. A member of the
/// wrong kind counts as absent, so that one bad node spoils no page.
pub fn participants_from_json(doc: &Json) -> (response: GraphQlResponse<ParticipantsIssueNode>)
    ensures
        has_frame(response, doc@),
        are_participants_issue_nodes(found_nodes(response), node_docs(doc@)),
{
    let nodes = match node_list(doc) {
        Some(items) => Some(participants_issue_nodes_from(items)),
        None => None,
    };
    framed(doc, nodes)
}

/// Reads the answer to a search for participants of issues off the text that came. Only a
/// text that is no JSON at all fails.
pub fn decode_participants(text: &str) -> (r: Result<GraphQlResponse<ParticipantsIssueNode>, JsonError>)
    ensures
        match r {
            Ok(response) => json_document(text@) matches Some(doc) && has_frame(response, doc)
                && are_participants_issue_nodes(found_nodes(response), node_docs(doc)),
            Err(e) => json_document(text@) is None && e == JsonError::Malformed,
        },
{
    match parse_json(text) {
        Ok(doc) => Ok(participants_from_json(&doc)),
        Err(_) => Err(JsonError::Malformed),
    }
}

/// Reads the rate limit off a document.
pub fn rate_limit_from_json(doc: &Json) -> (r: Option<RateLimit>)
    ensures
        r == stated_rate_limit(doc@),
{
    let d = match get_object(doc, "data") {
        Some(data) => match get_object(data, "rateLimit") {
            Some(d) => d,
            None => {
                return None;
            },
        },
        None => {
            return None;
        },
    };
    match (get_i64(d, "limit"), get_i64(d, "remaining"), get_i64(d, "used")) {
        (Some(limit), Some(remaining), Some(used)) => {
            if -0x8000_0000 <= limit && limit <= 0x7fff_ffff && -0x8000_0000 <= remaining
                && remaining <= 0x7fff_ffff && -0x8000_0000 <= used && used <= 0x7fff_ffff {
                Some(
                    RateLimit { limit: limit as i32, remaining: remaining as i32, used: used as i32 },
                )
            } else {
                None
            }
        },
        _ => None,
    }
}

/// Reads the rate limit off the text that came.
pub fn decode_rate_limit(text: &str) -> (r: Result<Option<RateLimit>, JsonError>)
    ensures
        match r {
            Ok(limit) => json_document(text@) matches Some(doc) && limit == stated_rate_limit(doc),
            Err(e) => json_document(text@) is None && e == JsonError::Malformed,
        },
{
    match parse_json(text) {
        Ok(doc) => Ok(rate_limit_from_json(&doc)),
        Err(_) => Err(JsonError::Malformed),
    }
}

} // verus!
