//! Reading reply trees out of the documents that the forum returns.

use vstd::prelude::*;
use crate::document::{lemma_member_decreases, Json};
use crate::error::FetchError;
use crate::listing::{
    entries_model, flatten, flattened, lemma_entries_model_push, node_well_formed, texts,
    well_formed, Listing, NodeKind, NodeModel, ReplyNode,
};
use vstd::string::StringExecFns;

verus! {

/// The value under `data.children` of a listing document.
pub open spec fn children_of(doc: Json) -> Json {
    doc.member("data"@).member("children"@)
}

/// The value under `data.replies` of a node document.
pub open spec fn replies_of(item: Json) -> Json {
    item.member("data"@).member("replies"@)
}

/// The value under `data.body` of a node document, where it is a string.
pub open spec fn body_of(item: Json) -> Option<Seq<char>> {
    match item.member("data"@).member("body"@) {
        Json::Text(text) => Some(text@),
        _ => None,
    }
}

/// Whether the node document is tagged as a `more` marker.
pub open spec fn is_more(item: Json) -> bool {
    item.member("kind"@) matches Json::Text(kind) && kind@ == "more"@
}

/// The children of a listing document are smaller than the document.
pub proof fn lemma_children_decrease(doc: Json)
    ensures
        children_of(doc) is Null || decreases_to!(doc => children_of(doc)),
{
    lemma_member_decreases(doc, "data"@);
    lemma_member_decreases(doc.member("data"@), "children"@);
}

/// The replies of a node document are smaller than the document.
pub proof fn lemma_replies_decrease(item: Json)
    ensures
        replies_of(item) is Null || decreases_to!(item => replies_of(item)),
{
    lemma_member_decreases(item, "data"@);
    lemma_member_decreases(item.member("data"@), "replies"@);
}

/// The listing that a listing document holds, or `None` where the document
/// is malformed.  A document without `data.children` is an empty listing;
/// `data.children` of another shape than an array is malformed.
pub open spec fn decoded_listing(doc: Json) -> Option<Seq<NodeModel>>
    decreases doc,
    via decoded_listing_decreases
{
    match children_of(doc) {
        Json::Null => Some(Seq::empty()),
        Json::Array(items) => decoded_nodes(items@),
        _ => None,
    }
}

/// The nodes that a sequence of node documents holds, or `None` where one
/// of them is malformed.
pub open spec fn decoded_nodes(items: Seq<Json>) -> Option<Seq<NodeModel>>
    decreases items,
{
    if items.len() == 0 {
        Some(Seq::empty())
    } else {
        match (decoded_nodes(items.drop_last()), decoded_node(items.last())) {
            (Some(front), Some(node)) => Some(front.push(node)),
            _ => None,
        }
    }
}

/// The node that a node document holds.  Without `data.replies` the node is
/// terminal: a `more` marker or a leaf.  With `data.replies` the node needs
/// a string `data.body`, and its replies are a listing document.
pub open spec fn decoded_node(item: Json) -> Option<NodeModel>
    decreases item,
    via decoded_node_decreases
{
    if replies_of(item) is Null {
        Some(
            NodeModel {
                kind: if is_more(item) {
                    NodeKind::More
                } else {
                    NodeKind::Content
                },
                body: body_of(item),
                replies: None,
            },
        )
    } else {
        match (body_of(item), decoded_listing(replies_of(item))) {
            (Some(text), Some(replies)) => Some(
                NodeModel { kind: NodeKind::Content, body: Some(text), replies: Some(replies) },
            ),
            _ => None,
        }
    }
}

#[via_fn]
proof fn decoded_listing_decreases(doc: Json) {
    lemma_children_decrease(doc);
}

#[via_fn]
proof fn decoded_node_decreases(item: Json) {
    lemma_replies_decrease(item);
}

/// Decoding one more node document extends what the nodes before it gave.
pub proof fn lemma_decoded_nodes_step(items: Seq<Json>, n: int)
    requires
        0 <= n < items.len(),
    ensures
        decoded_nodes(items.take(n + 1)) == (match (
            decoded_nodes(items.take(n)),
            decoded_node(items[n]),
        ) {
            (Some(front), Some(node)) => Some(front.push(node)),
            _ => None,
        }),
{
    assert(items.take(n + 1).drop_last() == items.take(n));
}

/// Where a prefix is malformed, so is the whole sequence.
pub proof fn lemma_decoded_nodes_fail(items: Seq<Json>, n: int)
    requires
        0 <= n <= items.len(),
        decoded_nodes(items.take(n)) is None,
    ensures
        decoded_nodes(items) is None,
    decreases items.len(),
{
    if n == items.len() {
        assert(items.take(n) == items);
    } else {
        assert(items.drop_last().take(n) == items.take(n));
        lemma_decoded_nodes_fail(items.drop_last(), n);
    }
}

/// What is read out of a listing document keeps the invariants of a
/// listing.
pub proof fn lemma_decoded_listing_well_formed(doc: Json)
    ensures
        decoded_listing(doc) matches Some(listing) ==> well_formed(listing),
    decreases doc,
{
    lemma_children_decrease(doc);
    if let Json::Array(items) = children_of(doc) {
        lemma_decoded_nodes_well_formed(items@);
    }
}

/// What is read out of a sequence of node documents keeps the invariants.
pub proof fn lemma_decoded_nodes_well_formed(items: Seq<Json>)
    ensures
        decoded_nodes(items) matches Some(nodes) ==> well_formed(nodes),
    decreases items,
{
    if items.len() > 0 {
        lemma_decoded_nodes_well_formed(items.drop_last());
        lemma_decoded_node_well_formed(items.last());
        if let (Some(front), Some(node)) = (
            decoded_nodes(items.drop_last()),
            decoded_node(items.last()),
        ) {
            assert(front.push(node).drop_last() == front);
        }
    }
}

/// What is read out of a node document keeps the invariants.
pub proof fn lemma_decoded_node_well_formed(item: Json)
    ensures
        decoded_node(item) matches Some(node) ==> node_well_formed(node),
    decreases item,
{
    lemma_replies_decrease(item);
    if !(replies_of(item) is Null) {
        lemma_decoded_listing_well_formed(replies_of(item));
    }
}

/// Reads the listing that `doc` holds.
pub fn decode_listing(doc: &Json) -> (outcome: Result<Listing, FetchError>)
    ensures
        match outcome {
            Ok(listing) => decoded_listing(*doc) == Some(listing@),
            Err(error) => decoded_listing(*doc) is None && error == FetchError::Shape,
        },
    decreases doc,
{
    let children = doc.get("data").get("children");
    match children {
        Json::Null => Ok(Listing { entries: Vec::new() }),
        Json::Array(items) => {
            let mut entries: Vec<ReplyNode> = Vec::new();
            let mut i: usize = 0;
            assert(items@.take(0) == Seq::<Json>::empty());
            while i < items.len()
                invariant
                    i <= items.len(),
                    children_of(*doc) == Json::Array(*items),
                    decoded_nodes(items@.take(i as int)) == Some(entries_model(entries@)),
                decreases items.len() - i,
            {
                proof {
                    lemma_children_decrease(*doc);
                    assert(decreases_to!(children_of(*doc) => items));
                    assert(decreases_to!(items => items@));
                    assert(decreases_to!(items@ => items@[i as int]));
                    lemma_decoded_nodes_step(items@, i as int);
                }
                match decode_node(&items[i]) {
                    Ok(node) => {
                        proof {
                            lemma_entries_model_push(entries@, node);
                        }
                        entries.push(node);
                    },
                    Err(error) => {
                        proof {
                            lemma_decoded_nodes_fail(items@, i as int + 1);
                        }
                        return Err(error);
                    },
                }
                i += 1;
            }
            assert(items@.take(i as int) == items@);
            Ok(Listing { entries })
        },
        _ => Err(FetchError::Shape),
    }
}

/// Reads the node that `item` holds.
pub fn decode_node(item: &Json) -> (outcome: Result<ReplyNode, FetchError>)
    ensures
        match outcome {
            Ok(node) => decoded_node(*item) == Some(node@),
            Err(error) => decoded_node(*item) is None && error == FetchError::Shape,
        },
    decreases item,
{
    let data = item.get("data");
    let replies = data.get("replies");
    let body = match data.get("body") {
        Json::Text(text) => Some(text.clone()),
        _ => None,
    };
    match replies {
        Json::Null => {
            let kind = match item.get("kind") {
                Json::Text(kind) => if same_text(kind.as_str(), "more") {
                    NodeKind::More
                } else {
                    NodeKind::Content
                },
                _ => NodeKind::Content,
            };
            Ok(ReplyNode { kind, body, replies: None })
        },
        _ => {
            if body.is_none() {
                return Err(FetchError::Shape);
            }
            proof {
                lemma_replies_decrease(*item);
            }
            match decode_listing(replies) {
                Ok(listing) => Ok(ReplyNode { kind: NodeKind::Content, body, replies: Some(listing) }),
                Err(error) => Err(error),
            }
        },
    }
}

/// Whether two strings hold the same text.
fn same_text(left: &str, right: &str) -> (same: bool)
    ensures
        same == (left@ == right@),
{
    left.to_owned() == right.to_owned()
}

/// The value under `data.permalink` of a story document, where it is a string.
pub open spec fn permalink_of(story: Json) -> Option<Seq<char>> {
    match story.member("data"@).member("permalink"@) {
        Json::Text(link) => Some(link@),
        _ => None,
    }
}

/// The fetch path of a thread: its permalink, asking for the newest replies
/// first.
pub open spec fn thread_path(permalink: Seq<char>) -> Seq<char> {
    permalink + "?sort=new"@
}

/// The fetch paths of a sequence of story documents, or `None` where one of
/// them has no string permalink.
pub open spec fn story_paths(stories: Seq<Json>) -> Option<Seq<Seq<char>>>
    decreases stories.len(),
{
    if stories.len() == 0 {
        Some(Seq::empty())
    } else {
        match (story_paths(stories.drop_last()), permalink_of(stories.last())) {
            (Some(front), Some(link)) => Some(front.push(thread_path(link))),
            _ => None,
        }
    }
}

/// The fetch paths of the threads that a forum's listing document names,
/// in document order; `None` where `data.children` is no array or a story
/// is malformed.
pub open spec fn thread_paths(doc: Json) -> Option<Seq<Seq<char>>> {
    match children_of(doc) {
        Json::Array(stories) => story_paths(stories@),
        _ => None,
    }
}

/// The messages of a sequence of listing documents, one listing after the
/// other, or `None` where one of them is malformed.
pub open spec fn entries_messages(entries: Seq<Json>) -> Option<Seq<Seq<char>>>
    decreases entries.len(),
{
    if entries.len() == 0 {
        Some(Seq::empty())
    } else {
        match (entries_messages(entries.drop_last()), decoded_listing(entries.last())) {
            (Some(front), Some(listing)) => Some(front + flattened(listing)),
            _ => None,
        }
    }
}

/// The messages of a thread document: an array of listing documents, each
/// flattened, in document order.
pub open spec fn thread_messages(doc: Json) -> Option<Seq<Seq<char>>> {
    match doc {
        Json::Array(entries) => entries_messages(entries@),
        _ => None,
    }
}

/// Where a prefix of the stories is malformed, so is the whole sequence.
pub proof fn lemma_story_paths_fail(stories: Seq<Json>, n: int)
    requires
        0 <= n <= stories.len(),
        story_paths(stories.take(n)) is None,
    ensures
        story_paths(stories) is None,
    decreases stories.len(),
{
    if n == stories.len() {
        assert(stories.take(n) == stories);
    } else {
        assert(stories.drop_last().take(n) == stories.take(n));
        lemma_story_paths_fail(stories.drop_last(), n);
    }
}

/// Where a prefix of the entries is malformed, so is the whole sequence.
pub proof fn lemma_entries_messages_fail(entries: Seq<Json>, n: int)
    requires
        0 <= n <= entries.len(),
        entries_messages(entries.take(n)) is None,
    ensures
        entries_messages(entries) is None,
    decreases entries.len(),
{
    if n == entries.len() {
        assert(entries.take(n) == entries);
    } else {
        assert(entries.drop_last().take(n) == entries.take(n));
        lemma_entries_messages_fail(entries.drop_last(), n);
    }
}

/// Reads the fetch paths of the threads that a forum's listing names.
pub fn read_thread_paths(doc: &Json) -> (outcome: Result<Vec<String>, FetchError>)
    ensures
        match outcome {
            Ok(paths) => thread_paths(*doc) == Some(texts(paths@)),
            Err(error) => thread_paths(*doc) is None && error == FetchError::Shape,
        },
{
    match doc.get("data").get("children") {
        Json::Array(stories) => {
            let mut paths: Vec<String> = Vec::new();
            let mut i: usize = 0;
            assert(stories@.take(0) == Seq::<Json>::empty());
            assert(texts(paths@) == Seq::<Seq<char>>::empty());
            while i < stories.len()
                invariant
                    i <= stories.len(),
                    children_of(*doc) == Json::Array(*stories),
                    story_paths(stories@.take(i as int)) == Some(texts(paths@)),
                decreases stories.len() - i,
            {
                assert(stories@.take(i + 1).drop_last() == stories@.take(i as int));
                match stories[i].get("data").get("permalink") {
                    Json::Text(link) => {
                        let ghost before = texts(paths@);
                        paths.push(link.clone().concat("?sort=new"));
                        assert(texts(paths@) == before.push(thread_path(link@)));
                    },
                    _ => {
                        proof {
                            lemma_story_paths_fail(stories@, i as int + 1);
                        }
                        return Err(FetchError::Shape);
                    },
                }
                i += 1;
            }
            assert(stories@.take(i as int) == stories@);
            Ok(paths)
        },
        _ => Err(FetchError::Shape),
    }
}

/// Reads the messages of a thread document.
pub fn read_thread_messages(doc: &Json) -> (outcome: Result<Vec<String>, FetchError>)
    ensures
        match outcome {
            Ok(messages) => thread_messages(*doc) == Some(texts(messages@)),
            Err(error) => thread_messages(*doc) is None && error == FetchError::Shape,
        },
{
    match doc {
        Json::Array(entries) => {
            let mut messages: Vec<String> = Vec::new();
            let mut i: usize = 0;
            assert(entries@.take(0) == Seq::<Json>::empty());
            assert(texts(messages@) == Seq::<Seq<char>>::empty());
            while i < entries.len()
                invariant
                    i <= entries.len(),
                    *doc == Json::Array(*entries),
                    entries_messages(entries@.take(i as int)) == Some(texts(messages@)),
                decreases entries.len() - i,
            {
                assert(entries@.take(i + 1).drop_last() == entries@.take(i as int));
                match decode_listing(&entries[i]) {
                    Ok(listing) => {
                        let ghost before = texts(messages@);
                        let mut found = flatten(&listing);
                        messages.append(&mut found);
                        assert(texts(messages@) == before + flattened(listing@));
                    },
                    Err(error) => {
                        proof {
                            lemma_entries_messages_fail(entries@, i as int + 1);
                        }
                        return Err(error);
                    },
                }
                i += 1;
            }
            assert(entries@.take(i as int) == entries@);
            Ok(messages)
        },
        _ => Err(FetchError::Shape),
    }
}

} // verus!
