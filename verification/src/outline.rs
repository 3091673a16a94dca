use crate::span::{ByteSpan, HumanSpan};
use vstd::prelude::*;

verus! {

/// An outline node that owns child nodes, such as a function or a struct.
#[derive(Debug, PartialEq, Eq)]
pub struct Container {
    pub item_type: String,
    pub name: String,
    pub location_span: HumanSpan,
    pub header_span: ByteSpan,
    pub footer_span: ByteSpan,
    pub children: Vec<OutlineNode>,
}

/// An outline node without children, such as an identifier or a literal.
#[derive(Clone, Debug, PartialEq, Eq)]
pub struct Terminal {
    pub item_type: String,
    pub name: String,
    pub location_span: HumanSpan,
    pub span: ByteSpan,
}

/// A node of the outline.
#[derive(Debug, PartialEq, Eq)]
pub enum OutlineNode {
    Container(Container),
    Terminal(Terminal),
}

/// Why the text of a file could not be parsed.
#[derive(Clone, Debug, PartialEq, Eq)]
pub struct ParsingError {
    pub location: HumanSpan,
    pub message: String,
}

/// The outline of one source file.
#[derive(Debug, PartialEq, Eq)]
pub struct OutlineFile {
    pub item_type: String,
    pub name: String,
    pub location_span: HumanSpan,
    pub footer_span: ByteSpan,
    pub parsing_errors_detected: bool,
    pub children: Vec<OutlineNode>,
    pub parsing_error: Option<ParsingError>,
}

/// What an `OutlineNode` holds, as plain values.
pub enum OutlineNodeView {
    Container {
        item_type: Seq<char>,
        name: Seq<char>,
        location_span: HumanSpan,
        header_span: ByteSpan,
        footer_span: ByteSpan,
        children: Seq<OutlineNodeView>,
    },
    Terminal { item_type: Seq<char>, name: Seq<char>, location_span: HumanSpan, span: ByteSpan },
}

/// What a `ParsingError` holds, as plain values.
pub struct ParsingErrorView {
    pub location: HumanSpan,
    pub message: Seq<char>,
}

/// What an `OutlineFile` holds, as plain values.
pub struct OutlineFileView {
    pub item_type: Seq<char>,
    pub name: Seq<char>,
    pub location_span: HumanSpan,
    pub footer_span: ByteSpan,
    pub parsing_errors_detected: bool,
    pub children: Seq<OutlineNodeView>,
    pub parsing_error: Option<ParsingErrorView>,
}

/// What `node` holds, as plain values.
pub open spec fn outline_view(node: OutlineNode) -> OutlineNodeView
    decreases node,
{
    match node {
        OutlineNode::Container(c) => OutlineNodeView::Container {
            item_type: c.item_type@,
            name: c.name@,
            location_span: c.location_span,
            header_span: c.header_span,
            footer_span: c.footer_span,
            children: Seq::new(
                c.children@.len(),
                |i: int|
                    if 0 <= i < c.children@.len() {
                        outline_view(c.children@[i])
                    } else {
                        arbitrary()
                    },
            ),
        },
        OutlineNode::Terminal(t) => OutlineNodeView::Terminal {
            item_type: t.item_type@,
            name: t.name@,
            location_span: t.location_span,
            span: t.span,
        },
    }
}

impl View for OutlineNode {
    type V = OutlineNodeView;

    open spec fn view(&self) -> OutlineNodeView {
        outline_view(*self)
    }
}

/// The views of a sequence of outline nodes.
pub open spec fn outline_views(nodes: Seq<OutlineNode>) -> Seq<OutlineNodeView> {
    Seq::new(nodes.len(), |i: int| nodes[i]@)
}

/// The view of a container holds the views of its children.
pub proof fn lemma_container_view(c: Container)
    ensures
        OutlineNode::Container(c)@ == (OutlineNodeView::Container {
            item_type: c.item_type@,
            name: c.name@,
            location_span: c.location_span,
            header_span: c.header_span,
            footer_span: c.footer_span,
            children: outline_views(c.children@),
        }),
{
    assert(OutlineNode::Container(c)@.children() =~= outline_views(c.children@));
}

impl View for ParsingError {
    type V = ParsingErrorView;

    open spec fn view(&self) -> ParsingErrorView {
        ParsingErrorView { location: self.location, message: self.message@ }
    }
}

impl View for OutlineFile {
    type V = OutlineFileView;

    open spec fn view(&self) -> OutlineFileView {
        OutlineFileView {
            item_type: self.item_type@,
            name: self.name@,
            location_span: self.location_span,
            footer_span: self.footer_span,
            parsing_errors_detected: self.parsing_errors_detected,
            children: outline_views(self.children@),
            parsing_error: match self.parsing_error {
                Some(e) => Some(e@),
                None => None,
            },
        }
    }
}

impl OutlineNodeView {
    /// The kind label of the node.
    pub open spec fn item_type(self) -> Seq<char> {
        match self {
            OutlineNodeView::Container { item_type, .. } => item_type,
            OutlineNodeView::Terminal { item_type, .. } => item_type,
        }
    }

    /// The display name of the node.
    pub open spec fn name(self) -> Seq<char> {
        match self {
            OutlineNodeView::Container { name, .. } => name,
            OutlineNodeView::Terminal { name, .. } => name,
        }
    }

    /// The display span of the node.
    pub open spec fn location_span(self) -> HumanSpan {
        match self {
            OutlineNodeView::Container { location_span, .. } => location_span,
            OutlineNodeView::Terminal { location_span, .. } => location_span,
        }
    }

    /// The byte span of the node: of its header, if it is a container.
    pub open spec fn byte_span(self) -> ByteSpan {
        match self {
            OutlineNodeView::Container { header_span, .. } => header_span,
            OutlineNodeView::Terminal { span, .. } => span,
        }
    }

    /// The children of the node. A terminal has none.
    pub open spec fn children(self) -> Seq<OutlineNodeView> {
        match self {
            OutlineNodeView::Container { children, .. } => children,
            OutlineNodeView::Terminal { .. } => Seq::empty(),
        }
    }

    /// `self` is `tree` or one of the nodes below it.
    pub open spec fn occurs_in(self, tree: OutlineNodeView) -> bool
        decreases tree,
    {
        self == tree || match tree {
            OutlineNodeView::Container { children, .. } => exists|i: int|
                0 <= i < children.len() && self.occurs_in(#[trigger] children[i]),
            OutlineNodeView::Terminal { .. } => false,
        }
    }

    /// What holds of every outline that was made of a well-formed tree:
    /// spans are ordered, a container has at least one child and an unset
    /// footer, and its children lie within it, one after the other.
    pub open spec fn well_formed(self) -> bool
        decreases self,
    {
        &&& self.location_span().ordered()
        &&& self.byte_span().ordered()
        &&& match self {
            OutlineNodeView::Container { location_span, header_span, footer_span, children, .. } => {
                &&& footer_span == ByteSpan::unset_span()
                &&& children.len() > 0
                &&& forall|i: int|
                    0 <= i < children.len() ==> {
                        &&& (#[trigger] children[i]).well_formed()
                        &&& location_span.encloses(children[i].location_span())
                        &&& header_span.encloses(children[i].byte_span())
                    }
                &&& forall|i: int, j: int|
                    0 <= i < j < children.len() ==> {
                        &&& (#[trigger] children[i]).location_span().end.not_after(
                            (#[trigger] children[j]).location_span().start,
                        )
                        &&& children[i].byte_span().end <= children[j].byte_span().start
                    }
            },
            OutlineNodeView::Terminal { .. } => true,
        }
    }
}

} // verus!
