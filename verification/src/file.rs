use crate::error::OutlineError;
use crate::name::extract_name;
use crate::normalize::{node_name, normalize_children, surviving};
use crate::outline::{OutlineFile, OutlineFileView, OutlineNodeView};
use crate::raw::{lemma_raw_children, RawNode, RawNodeView};
use crate::source::{file_span, lemma_file_span_ordered, slice_text, whole_file_span};
use crate::span::ByteSpan;
use crate::wellformed::{lemma_nodes_well_formed, lemma_survivors_well_formed};
use vstd::prelude::*;
use vstd::utf8::encode_utf8;

verus! {

/// The outline of the file at `path` with the text `source`, whose tree has
/// the root `root`; `None` where no name can be had for the root.
///
/// The root is a mere anchor. It needs a name like any other node, but it is
/// not part of the outline: those of its children that are not left out
/// become the children of the file, and where none remains the file has no
/// children. No parsing error is recorded.
pub open spec fn file_outline(path: Seq<char>, source: Seq<char>, root: RawNodeView) -> Option<
    OutlineFileView,
> {
    match node_name(root, source) {
        None => None,
        Some(_) => Some(
            OutlineFileView {
                item_type: "file"@,
                name: path,
                location_span: file_span(encode_utf8(source)),
                footer_span: ByteSpan::unset_span(),
                parsing_errors_detected: false,
                children: surviving(root.named_children, source, root.named_children.len()),
                parsing_error: None,
            },
        ),
    }
}

impl OutlineFileView {
    /// What holds of the outline of a file that was made of a well-formed
    /// tree: its span is ordered, its footer is unset, and its children are
    /// well formed and follow one another.
    pub open spec fn well_formed(self) -> bool {
        &&& self.location_span.ordered()
        &&& self.footer_span == ByteSpan::unset_span()
        &&& forall|i: int| 0 <= i < self.children.len() ==> (#[trigger] self.children[i]).well_formed()
        &&& forall|i: int, j: int|
            0 <= i < j < self.children.len() ==> (#[trigger] self.children[i]).location_span().end.not_after(
                (#[trigger] self.children[j]).location_span().start,
            )
    }

    /// `node` is one of the nodes of the outline, at any depth.
    pub open spec fn holds(self, node: OutlineNodeView) -> bool {
        exists|i: int| 0 <= i < self.children.len() && node.occurs_in(#[trigger] self.children[i])
    }
}

/// Builds the outline of a file from the root of its tree.
///
/// The call fails with `RootExtractionFailed` exactly where no name can be
/// had for the root. A root without named children, or with none that
/// survives, gives a file without children.
pub fn outline_file(path: &str, source: &str, root: &RawNode) -> (r: Result<
    OutlineFile,
    OutlineError,
>)
    ensures
        match r {
            Ok(file) => file_outline(path@, source@, root@) == Some(file@),
            Err(e) => e == OutlineError::RootExtractionFailed && file_outline(
                path@,
                source@,
                root@,
            ) is None,
        },
        root@.well_formed() ==> (r matches Ok(file) ==> file@.well_formed()),
{
    proof {
        lemma_raw_children(*root);
        if root@.well_formed() {
            lemma_survivors_well_formed(root@, source@);
        }
    }
    let text = slice_text(source, root.start.byte as usize, root.end.byte as usize);
    match extract_name(root.kind.as_str(), text) {
        Ok(_) => {},
        Err(_) => {
            return Err(OutlineError::RootExtractionFailed);
        },
    }
    let children = normalize_children(root, source);
    Ok(
        OutlineFile {
            item_type: "file".to_owned(),
            name: path.to_owned(),
            location_span: whole_file_span(source),
            footer_span: ByteSpan::unset(),
            parsing_errors_detected: false,
            children,
            parsing_error: None,
        },
    )
}

/// The outline of a file with a well-formed tree is well formed.
pub proof fn lemma_file_outline_well_formed(
    path: Seq<char>,
    source: Seq<char>,
    root: RawNodeView,
)
    requires
        root.well_formed(),
        encode_utf8(source).len() <= u64::MAX,
    ensures
        file_outline(path, source, root) matches Some(file) ==> file.well_formed(),
{
    lemma_survivors_well_formed(root, source);
    lemma_file_span_ordered(encode_utf8(source));
}

/// In the outline of a file with a well-formed tree, every node is well
/// formed: a terminal has no children and an ordered byte span, and the
/// children of a container lie within it.
pub proof fn lemma_file_nodes_well_formed(
    path: Seq<char>,
    source: Seq<char>,
    root: RawNodeView,
    node: OutlineNodeView,
)
    requires
        root.well_formed(),
        file_outline(path, source, root) matches Some(file) && file.holds(node),
    ensures
        node.well_formed(),
        node is Terminal ==> node.children().len() == 0 && node.byte_span().start
            <= node.byte_span().end,
        node is Container ==> forall|i: int|
            0 <= i < node.children().len() ==> node.location_span().encloses(
                (#[trigger] node.children()[i]).location_span(),
            ),
{
    let file = file_outline(path, source, root)->0;
    lemma_survivors_well_formed(root, source);
    let i = choose|i: int| 0 <= i < file.children.len() && node.occurs_in(#[trigger] file.children[i]);
    lemma_nodes_well_formed(file.children[i], node);
}

/// The outline of a file never reports a parsing error, and it is called by
/// the path it was made for. An empty tree gives an empty outline.
pub proof fn lemma_file_outline_reports_no_error(
    path: Seq<char>,
    source: Seq<char>,
    root: RawNodeView,
)
    ensures
        file_outline(path, source, root) matches Some(file) ==> {
            &&& !file.parsing_errors_detected
            &&& file.parsing_error is None
            &&& file.name == path
            &&& file.item_type == "file"@
            &&& (root.named_children.len() == 0 ==> file.children.len() == 0)
        },
{
}

} // verus!
