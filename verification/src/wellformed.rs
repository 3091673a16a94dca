use crate::normalize::{node_name, outline_of, surviving};
use crate::outline::OutlineNodeView;
use crate::raw::RawNodeView;
use crate::span::{byte_range, display_span, lemma_conversion_keeps_order, HumanSpan};
use vstd::prelude::*;

verus! {

/// For each outline among `surviving(nodes, source, n)`, the index in `nodes`
/// of the node that it was made of.
pub open spec fn origins(nodes: Seq<RawNodeView>, source: Seq<char>, n: nat) -> Seq<int>
    decreases n,
{
    if n == 0 || n > nodes.len() {
        Seq::empty()
    } else {
        let before = origins(nodes, source, (n - 1) as nat);
        if outline_of(nodes[n - 1], source) is Some {
            before.push(n - 1)
        } else {
            before
        }
    }
}

/// The span from the start of the first of `children` to the end of the
/// last: what their spans cover when put end to end.
pub open spec fn joined_span(children: Seq<OutlineNodeView>) -> HumanSpan
    recommends
        children.len() > 0,
{
    HumanSpan { start: children.first().location_span().start, end: children.last().location_span().end }
}

/// An outline node has the kind and the spans of the node it was made of.
pub proof fn lemma_outline_keeps_position(node: RawNodeView, source: Seq<char>)
    ensures
        outline_of(node, source) matches Some(outline) ==> {
            &&& outline.item_type() == node.kind
            &&& Some(outline.name()) == node_name(node, source)
            &&& outline.location_span() == display_span(node.start, node.end)
            &&& outline.byte_span() == byte_range(node.start, node.end)
            &&& (outline is Terminal <==> node.named_children.len() == 0)
        },
{
}

/// Each surviving outline was made of one of the nodes, and the survivors
/// stand in the order of the nodes they were made of.
pub proof fn lemma_survivors_keep_order(nodes: Seq<RawNodeView>, source: Seq<char>, n: nat)
    requires
        n <= nodes.len(),
    ensures
        origins(nodes, source, n).len() == surviving(nodes, source, n).len(),
        surviving(nodes, source, n).len() <= n,
        forall|i: int|
            0 <= i < surviving(nodes, source, n).len() ==> {
                &&& 0 <= #[trigger] origins(nodes, source, n)[i] < n
                &&& outline_of(nodes[origins(nodes, source, n)[i]], source) == Some(
                    surviving(nodes, source, n)[i],
                )
            },
        forall|i: int, j: int|
            0 <= i < j < surviving(nodes, source, n).len() ==> #[trigger] origins(nodes, source, n)[i]
                < #[trigger] origins(nodes, source, n)[j],
    decreases n,
{
    if n > 0 {
        lemma_survivors_keep_order(nodes, source, (n - 1) as nat);
    }
}

/// Every node survives that has an outline: no sibling is lost to the
/// failure of another.
pub proof fn lemma_survivors_are_complete(
    nodes: Seq<RawNodeView>,
    source: Seq<char>,
    n: nat,
    k: int,
)
    requires
        0 <= k < n <= nodes.len(),
        outline_of(nodes[k], source) is Some,
    ensures
        exists|i: int|
            0 <= i < surviving(nodes, source, n).len() && #[trigger] surviving(nodes, source, n)[i]
                == outline_of(nodes[k], source)->0,
    decreases n,
{
    if k == n - 1 {
        let before = surviving(nodes, source, (n - 1) as nat);
        assert(surviving(nodes, source, n)[before.len() as int] == outline_of(nodes[k], source)->0);
    } else {
        lemma_survivors_are_complete(nodes, source, (n - 1) as nat, k);
        let i = choose|i: int|
            0 <= i < surviving(nodes, source, (n - 1) as nat).len() && #[trigger] surviving(
                nodes,
                source,
                (n - 1) as nat,
            )[i] == outline_of(nodes[k], source)->0;
        assert(surviving(nodes, source, n)[i] == outline_of(nodes[k], source)->0);
    }
}

/// The surviving children of a well-formed node are well formed, lie within
/// the spans of the node, and follow one another.
pub proof fn lemma_survivors_well_formed(node: RawNodeView, source: Seq<char>)
    requires
        node.well_formed(),
    ensures
        forall|i: int|
            0 <= i < surviving(node.named_children, source, node.named_children.len()).len() ==> {
                let child = #[trigger] surviving(
                    node.named_children,
                    source,
                    node.named_children.len(),
                )[i];
                &&& child.well_formed()
                &&& display_span(node.start, node.end).encloses(child.location_span())
                &&& byte_range(node.start, node.end).encloses(child.byte_span())
            },
        forall|i: int, j: int|
            0 <= i < j < surviving(node.named_children, source, node.named_children.len()).len()
                ==> {
                let first = #[trigger] surviving(
                    node.named_children,
                    source,
                    node.named_children.len(),
                )[i];
                let second = #[trigger] surviving(
                    node.named_children,
                    source,
                    node.named_children.len(),
                )[j];
                &&& first.location_span().end.not_after(second.location_span().start)
                &&& first.byte_span().end <= second.byte_span().start
            },
    decreases node, 0nat,
{
    let nodes = node.named_children;
    let children = surviving(nodes, source, nodes.len());
    let from = origins(nodes, source, nodes.len());
    lemma_survivors_keep_order(nodes, source, nodes.len());
    assert forall|i: int| 0 <= i < children.len() implies {
        &&& (#[trigger] children[i]).well_formed()
        &&& display_span(node.start, node.end).encloses(children[i].location_span())
        &&& byte_range(node.start, node.end).encloses(children[i].byte_span())
    } by {
        let k = from[i];
        let child = nodes[k];
        assert(child.well_formed());
        lemma_outline_well_formed(child, source);
        lemma_outline_keeps_position(child, source);
        lemma_conversion_keeps_order(node.start, child.start);
        lemma_conversion_keeps_order(child.end, node.end);
    }
    assert forall|i: int, j: int| 0 <= i < j < children.len() implies {
        &&& (#[trigger] children[i]).location_span().end.not_after(
            (#[trigger] children[j]).location_span().start,
        )
        &&& children[i].byte_span().end <= children[j].byte_span().start
    } by {
        let first = nodes[from[i]];
        let second = nodes[from[j]];
        lemma_outline_keeps_position(first, source);
        lemma_outline_keeps_position(second, source);
        lemma_conversion_keeps_order(first.end, second.start);
    }
}

/// The outline of a well-formed tree is well formed: spans are ordered, a
/// container has a child and an unset footer, and the children of a
/// container lie within it, one after the other.
pub proof fn lemma_outline_well_formed(node: RawNodeView, source: Seq<char>)
    requires
        node.well_formed(),
    ensures
        outline_of(node, source) matches Some(outline) ==> outline.well_formed(),
    decreases node, 1nat,
{
    lemma_conversion_keeps_order(node.start, node.end);
    lemma_survivors_well_formed(node, source);
}

/// The spans of a well-formed outline node are ordered.
pub proof fn lemma_well_formed_spans(node: OutlineNodeView)
    requires
        node.well_formed(),
    ensures
        node.location_span().ordered(),
        node.byte_span().ordered(),
{
}

/// Every node of a well-formed outline is well formed itself.
pub proof fn lemma_nodes_well_formed(tree: OutlineNodeView, node: OutlineNodeView)
    requires
        tree.well_formed(),
        node.occurs_in(tree),
    ensures
        node.well_formed(),
    decreases tree,
{
    if node != tree {
        if let OutlineNodeView::Container { children, .. } = tree {
            let i = choose|i: int| 0 <= i < children.len() && node.occurs_in(#[trigger] children[i]);
            lemma_nodes_well_formed(children[i], node);
        }
    }
}

/// In the outline of any well-formed tree, every terminal is a leaf: it has
/// no children, and its byte span starts no later than it ends.
pub proof fn lemma_terminals_are_leaves(
    root: RawNodeView,
    source: Seq<char>,
    node: OutlineNodeView,
)
    requires
        root.well_formed(),
        outline_of(root, source) matches Some(outline) && node.occurs_in(outline),
        node is Terminal,
    ensures
        node.children().len() == 0,
        node.byte_span().start <= node.byte_span().end,
        node.location_span().ordered(),
{
    lemma_outline_well_formed(root, source);
    lemma_nodes_well_formed(outline_of(root, source)->0, node);
}

/// In the outline of any well-formed tree, every container has children, and
/// their spans, put end to end, lie within the span of the container: each
/// child lies within it, each child ends before the next one starts, and so
/// the span from the first child's start to the last child's end lies within
/// it too.
pub proof fn lemma_children_within_container(
    root: RawNodeView,
    source: Seq<char>,
    node: OutlineNodeView,
)
    requires
        root.well_formed(),
        outline_of(root, source) matches Some(outline) && node.occurs_in(outline),
        node is Container,
    ensures
        node.children().len() > 0,
        node.location_span().encloses(joined_span(node.children())),
        forall|i: int|
            0 <= i < node.children().len() ==> node.location_span().encloses(
                (#[trigger] node.children()[i]).location_span(),
            ) && node.children()[i].location_span().ordered(),
        forall|i: int, j: int|
            0 <= i < j < node.children().len() ==> (#[trigger] node.children()[i]).location_span().end.not_after(
                (#[trigger] node.children()[j]).location_span().start,
            ),
{
    lemma_outline_well_formed(root, source);
    lemma_nodes_well_formed(outline_of(root, source)->0, node);
    let children = node.children();
    assert forall|i: int| 0 <= i < children.len() implies (#[trigger] children[i]).location_span().ordered() by {
        lemma_well_formed_spans(children[i]);
    }
    assert(children[0].location_span().ordered());
    assert(children[children.len() - 1].location_span().ordered());
}

} // verus!
