use crate::span::{lemma_not_after_is_transitive, RawPosition};
use vstd::prelude::*;

verus! {

/// A node of the syntax tree as the parser reports it: its kind, where it
/// starts and ends, and its named children in the order of the text.
/// Children that stand for mere punctuation are not among them.
#[derive(Debug, PartialEq, Eq)]
pub struct RawNode {
    pub kind: String,
    pub start: RawPosition,
    pub end: RawPosition,
    pub named_children: Vec<RawNode>,
}

/// What a `RawNode` holds, as plain values.
pub struct RawNodeView {
    pub kind: Seq<char>,
    pub start: RawPosition,
    pub end: RawPosition,
    pub named_children: Seq<RawNodeView>,
}

/// What `node` holds, as plain values.
pub open spec fn raw_view(node: RawNode) -> RawNodeView
    decreases node,
{
    RawNodeView {
        kind: node.kind@,
        start: node.start,
        end: node.end,
        named_children: Seq::new(
            node.named_children@.len(),
            |i: int|
                if 0 <= i < node.named_children@.len() {
                    raw_view(node.named_children@[i])
                } else {
                    arbitrary()
                },
        ),
    }
}

impl View for RawNode {
    type V = RawNodeView;

    open spec fn view(&self) -> RawNodeView {
        raw_view(*self)
    }
}

/// The views of a sequence of raw nodes.
pub open spec fn raw_views(nodes: Seq<RawNode>) -> Seq<RawNodeView> {
    Seq::new(nodes.len(), |i: int| nodes[i]@)
}

/// The children in the view of a node are the views of its children.
pub proof fn lemma_raw_children(node: RawNode)
    ensures
        node@.named_children == raw_views(node.named_children@),
        node@.kind == node.kind@,
        node@.start == node.start,
        node@.end == node.end,
{
    assert(node@.named_children =~= raw_views(node.named_children@));
}

impl RawNodeView {
    /// What a parser's tree is expected to satisfy: a node starts before it
    /// ends, its children lie within it, and they follow one another in the
    /// order of the text.
    pub open spec fn well_formed(self) -> bool
        decreases self,
    {
        &&& self.start.not_after(self.end)
        &&& forall|i: int|
            0 <= i < self.named_children.len() ==> {
                &&& (#[trigger] self.named_children[i]).well_formed()
                &&& self.start.not_after(self.named_children[i].start)
                &&& self.named_children[i].end.not_after(self.end)
            }
        &&& forall|i: int, j: int|
            0 <= i < j < self.named_children.len() ==> (#[trigger] self.named_children[i]).end.not_after(
                (#[trigger] self.named_children[j]).start,
            )
    }
}

impl RawNode {
    /// Tells whether the tree below `self` is well formed.
    pub fn is_well_formed(&self) -> (r: bool)
        ensures
            r == self@.well_formed(),
        decreases self,
    {
        proof {
            lemma_raw_children(*self);
        }
        if !self.start.is_not_after(&self.end) {
            return false;
        }
        let ghost children = self@.named_children;
        let mut at: usize = 0;
        while at < self.named_children.len()
            invariant
                at <= self.named_children.len(),
                children == self@.named_children,
                children == raw_views(self.named_children@),
                forall|i: int|
                    0 <= i < at ==> {
                        &&& (#[trigger] children[i]).well_formed()
                        &&& self.start.not_after(children[i].start)
                        &&& children[i].end.not_after(self.end)
                    },
                forall|i: int, j: int|
                    0 <= i < j < at ==> (#[trigger] children[i]).end.not_after(
                        (#[trigger] children[j]).start,
                    ),
            decreases self.named_children.len() - at,
        {
            let child = &self.named_children[at];
            assert(children[at as int] == child@);
            if !child.is_well_formed() || !self.start.is_not_after(&child.start)
                || !child.end.is_not_after(&self.end) {
                return false;
            }
            if at > 0 {
                let before = &self.named_children[at - 1];
                assert(children[at - 1] == before@);
                if !before.end.is_not_after(&child.start) {
                    return false;
                }
                proof {
                    assert forall|i: int| 0 <= i < at implies (#[trigger] children[i]).end.not_after(
                        children[at as int].start,
                    ) by {
                        if i < at - 1 {
                            lemma_not_after_is_transitive(
                                children[i].end,
                                children[at - 1].start,
                                children[at - 1].end,
                            );
                            lemma_not_after_is_transitive(
                                children[i].end,
                                children[at - 1].end,
                                children[at as int].start,
                            );
                        }
                    }
                }
            }
            at += 1;
        }
        true
    }

    /// A node without children.
    pub fn leaf(kind: &str, start: RawPosition, end: RawPosition) -> (node: RawNode)
        ensures
            node@ == (RawNodeView {
                kind: kind@,
                start: start,
                end: end,
                named_children: Seq::empty(),
            }),
    {
        let node = RawNode {
            kind: kind.to_owned(),
            start,
            end,
            named_children: Vec::new(),
        };
        proof {
            lemma_raw_children(node);
            assert(raw_views(node.named_children@) =~= Seq::empty());
        }
        node
    }

    /// A node with the given named children.
    pub fn branch(kind: &str, start: RawPosition, end: RawPosition, named_children: Vec<RawNode>) -> (node: RawNode)
        ensures
            node@ == (RawNodeView {
                kind: kind@,
                start: start,
                end: end,
                named_children: raw_views(named_children@),
            }),
    {
        let node = RawNode { kind: kind.to_owned(), start, end, named_children };
        proof {
            lemma_raw_children(node);
        }
        node
    }
}

} // verus!
