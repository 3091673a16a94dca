use crate::error::OutlineError;
use crate::name::{extract_name, extracted_name};
use crate::outline::{
    lemma_container_view, outline_views, Container, OutlineNode, OutlineNodeView, Terminal,
};
use crate::raw::{lemma_raw_children, raw_views, RawNode, RawNodeView};
use crate::source::{slice_text, text_between};
use crate::span::{byte_range, convert_range, display_span, ByteSpan};
use crate::wellformed::lemma_outline_well_formed;
use vstd::prelude::*;

verus! {

/// The display name of a node: the one extracted from its kind and from the
/// text that its byte range covers in `source`.
pub open spec fn node_name(node: RawNodeView, source: Seq<char>) -> Option<Seq<char>> {
    extracted_name(node.kind, text_between(source, node.start.byte as int, node.end.byte as int))
}

/// The outline node that stands for `node`, or `None` where `node` is left
/// out of the outline.
///
/// A node without a name is left out. A node without named children becomes
/// a terminal. Any other node becomes a container of the outlines of those
/// of its children that are not left out; if none of them remains, the node
/// is left out as well.
pub open spec fn outline_of(node: RawNodeView, source: Seq<char>) -> Option<OutlineNodeView>
    decreases node,
{
    match node_name(node, source) {
        None => None,
        Some(name) => if node.named_children.len() == 0 {
            Some(
                OutlineNodeView::Terminal {
                    item_type: node.kind,
                    name: name,
                    location_span: display_span(node.start, node.end),
                    span: byte_range(node.start, node.end),
                },
            )
        } else {
            let children = surviving(node.named_children, source, node.named_children.len());
            if children.len() == 0 {
                None
            } else {
                Some(
                    OutlineNodeView::Container {
                        item_type: node.kind,
                        name: name,
                        location_span: display_span(node.start, node.end),
                        header_span: byte_range(node.start, node.end),
                        footer_span: ByteSpan::unset_span(),
                        children: children,
                    },
                )
            }
        },
    }
}

/// The outlines of those among the first `n` of `nodes` that are not left
/// out, in the order of `nodes`.
pub open spec fn surviving(nodes: Seq<RawNodeView>, source: Seq<char>, n: nat) -> Seq<
    OutlineNodeView,
>
    decreases nodes, n,
{
    if n == 0 || n > nodes.len() {
        Seq::empty()
    } else {
        let before = surviving(nodes, source, (n - 1) as nat);
        match outline_of(nodes[n - 1], source) {
            Some(child) => before.push(child),
            None => before,
        }
    }
}

/// Turns a node of the parser's tree into a node of the outline.
///
/// The call fails with `NodeExtractionFailed` where no name can be had for
/// the node, and where the node has named children of which none could be
/// turned into an outline node. A child that fails is left out; its siblings
/// and the node itself are kept.
pub fn normalize(node: &RawNode, source: &str) -> (r: Result<OutlineNode, OutlineError>)
    ensures
        match r {
            Ok(outline) => outline_of(node@, source@) == Some(outline@),
            Err(e) => e == OutlineError::NodeExtractionFailed && outline_of(node@, source@)
                is None,
        },
        node@.well_formed() ==> (r matches Ok(outline) ==> outline@.well_formed()),
    decreases node,
{
    proof {
        lemma_raw_children(*node);
        if node@.well_formed() {
            lemma_outline_well_formed(node@, source@);
        }
    }
    let text = slice_text(source, node.start.byte as usize, node.end.byte as usize);
    let name = match extract_name(node.kind.as_str(), text) {
        Ok(name) => name,
        Err(_) => {
            return Err(OutlineError::NodeExtractionFailed);
        },
    };
    let (location_span, byte_span) = convert_range(node.start, node.end);
    if node.named_children.len() == 0 {
        Ok(
            OutlineNode::Terminal(
                Terminal { item_type: node.kind.clone(), name, location_span, span: byte_span },
            ),
        )
    } else {
        let children = normalize_children(node, source);
        if children.len() == 0 {
            Err(OutlineError::NodeExtractionFailed)
        } else {
            let container = Container {
                item_type: node.kind.clone(),
                name,
                location_span,
                header_span: byte_span,
                footer_span: ByteSpan::unset(),
                children,
            };
            proof {
                lemma_container_view(container);
            }
            Ok(OutlineNode::Container(container))
        }
    }
}

/// The outline nodes of the named children of `node`, without those that
/// could not be turned into one.
pub fn normalize_children(node: &RawNode, source: &str) -> (children: Vec<OutlineNode>)
    ensures
        outline_views(children@) == surviving(
            node@.named_children,
            source@,
            node@.named_children.len(),
        ),
    decreases node, 0nat,
{
    let mut children: Vec<OutlineNode> = Vec::new();
    let mut at: usize = 0;
    proof {
        lemma_raw_children(*node);
        assert(outline_views(children@) =~= Seq::empty());
    }
    while at < node.named_children.len()
        invariant
            at <= node.named_children.len(),
            node@.named_children == raw_views(node.named_children@),
            outline_views(children@) == surviving(node@.named_children, source@, at as nat),
        decreases node.named_children.len() - at,
    {
        let ghost before = outline_views(children@);
        assert(node@.named_children[at as int] == node.named_children@[at as int]@);
        match normalize(&node.named_children[at], source) {
            Ok(child) => {
                children.push(child);
                assert(outline_views(children@) =~= before.push(child@));
            },
            Err(_) => {},
        }
        at += 1;
    }
    children
}

} // verus!
