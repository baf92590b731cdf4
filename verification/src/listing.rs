//! Reply trees and the flattening of a tree into its message bodies.

use vstd::prelude::*;

verus! {

/// What a node of a reply tree is.
#[derive(Clone, Copy, Debug, PartialEq, Eq, Structural)]
pub enum NodeKind {
    /// An ordinary node that carries a message.
    Content,
    /// A marker: further replies exist but were not returned inline.
    More,
}

/// One entry of a listing.
#[derive(Debug, PartialEq, Eq)]
pub struct ReplyNode {
    pub kind: NodeKind,
    /// The message text, where the node carries one.
    pub body: Option<String>,
    /// The nested replies; `None` where the forum returned no further nesting.
    pub replies: Option<Listing>,
}

/// An ordered sequence of reply nodes.
#[derive(Debug, PartialEq, Eq)]
pub struct Listing {
    pub entries: Vec<ReplyNode>,
}

/// The mathematical value of a [`ReplyNode`]; a listing is a sequence of these.
pub struct NodeModel {
    pub kind: NodeKind,
    pub body: Option<Seq<char>>,
    pub replies: Option<Seq<NodeModel>>,
}

/// The model of a sequence of nodes, entry by entry.
pub open spec fn entries_model(entries: Seq<ReplyNode>) -> Seq<NodeModel>
    decreases entries,
{
    if entries.len() == 0 {
        Seq::empty()
    } else {
        entries_model(entries.drop_last()).push(node_model(entries.last()))
    }
}

/// The model of one node.
pub open spec fn node_model(node: ReplyNode) -> NodeModel
    decreases node,
{
    NodeModel {
        kind: node.kind,
        body: match node.body {
            Some(text) => Some(text@),
            None => None,
        },
        replies: match node.replies {
            Some(listing) => Some(entries_model(listing.entries@)),
            None => None,
        },
    }
}

impl View for ReplyNode {
    type V = NodeModel;

    open spec fn view(&self) -> NodeModel {
        node_model(*self)
    }
}

impl View for Listing {
    type V = Seq<NodeModel>;

    open spec fn view(&self) -> Seq<NodeModel> {
        entries_model(self.entries@)
    }
}

/// The bodies of a listing in document order, each node before its replies.
/// Only a node with replies present contributes its body.
pub open spec fn flattened(listing: Seq<NodeModel>) -> Seq<Seq<char>>
    decreases listing,
{
    if listing.len() == 0 {
        Seq::empty()
    } else {
        flattened(listing.drop_last()) + node_messages(listing.last())
    }
}

/// What one node contributes: nothing without replies; otherwise its body,
/// then the flattening of its replies.
pub open spec fn node_messages(node: NodeModel) -> Seq<Seq<char>>
    decreases node,
{
    match node.replies {
        None => Seq::empty(),
        Some(replies) => (match node.body {
            Some(text) => seq![text],
            None => Seq::empty(),
        }) + flattened(replies),
    }
}

/// The invariants of a listing: a `more` marker is terminal, and a node
/// with replies carries a body.
pub open spec fn well_formed(listing: Seq<NodeModel>) -> bool
    decreases listing,
{
    listing.len() == 0 || (well_formed(listing.drop_last()) && node_well_formed(listing.last()))
}

/// The invariants of one node, and of its replies.
pub open spec fn node_well_formed(node: NodeModel) -> bool
    decreases node,
{
    &&& node.kind is More ==> node.replies is None
    &&& node.replies matches Some(replies) ==> node.body is Some && well_formed(replies)
}

/// Flattening goes in document order: what follows in the listing follows
/// in the output.
pub proof fn lemma_flattened_concat(front: Seq<NodeModel>, back: Seq<NodeModel>)
    ensures
        flattened(front + back) == flattened(front) + flattened(back),
    decreases back.len(),
{
    if back.len() == 0 {
        assert(front + back == front);
    } else {
        assert((front + back).drop_last() == front + back.drop_last());
        lemma_flattened_concat(front, back.drop_last());
    }
}

/// A node contributes its own body before anything of its replies.
pub proof fn lemma_parent_precedes_replies(node: NodeModel)
    requires
        node.replies is Some,
        node.body is Some,
    ensures
        node_messages(node) == seq![node.body->0] + flattened(node.replies->0),
        node_messages(node)[0] == node.body->0,
{
}

/// A `more` marker of a well-formed listing contributes nothing.
pub proof fn lemma_more_contributes_nothing(node: NodeModel)
    requires
        node_well_formed(node),
        node.kind is More,
    ensures
        node_messages(node) == Seq::<Seq<char>>::empty(),
{
}

/// The texts of a sequence of strings.
pub open spec fn texts(strings: Seq<String>) -> Seq<Seq<char>> {
    strings.map_values(|s: String| s@)
}

/// The model of a sequence grows with the sequence.
pub proof fn lemma_entries_model_push(entries: Seq<ReplyNode>, node: ReplyNode)
    ensures
        entries_model(entries.push(node)) == entries_model(entries).push(node@),
{
    assert(entries.push(node).drop_last() == entries);
}

/// The model of a prefix, one entry longer.
pub proof fn lemma_entries_model_take(entries: Seq<ReplyNode>, n: int)
    requires
        0 <= n < entries.len(),
    ensures
        entries_model(entries.take(n + 1)) == entries_model(entries.take(n)).push(entries[n]@),
{
    assert(entries.take(n + 1).drop_last() == entries.take(n));
}

/// Flattens a listing into its message bodies by a pre-order walk.
pub fn flatten(listing: &Listing) -> (messages: Vec<String>)
    ensures
        texts(messages@) == flattened(listing@),
    decreases listing,
{
    let mut messages: Vec<String> = Vec::new();
    let mut i: usize = 0;
    assert(listing.entries@.take(0) == Seq::<ReplyNode>::empty());
    assert(texts(messages@) == Seq::<Seq<char>>::empty());
    while i < listing.entries.len()
        invariant
            i <= listing.entries.len(),
            texts(messages@) == flattened(entries_model(listing.entries@.take(i as int))),
        decreases listing.entries.len() - i,
    {
        let node = &listing.entries[i];
        proof {
            lemma_entries_model_take(listing.entries@, i as int);
            let front = entries_model(listing.entries@.take(i as int));
            assert(front.push(node@).drop_last() == front);
        }
        let ghost before = messages@;
        match &node.replies {
            None => {},
            Some(replies) => {
                match &node.body {
                    Some(text) => {
                        messages.push(text.clone());
                    },
                    None => {},
                }
                let ghost with_body = messages@;
                let mut nested = flatten(replies);
                messages.append(&mut nested);
                assert(texts(messages@) == texts(with_body) + flattened(replies@));
            },
        }
        assert(texts(messages@) == texts(before) + node_messages(node@));
        i += 1;
    }
    assert(listing.entries@.take(i as int) == listing.entries@);
    messages
}

} // verus!
