use crate::error::OutlineError;
use crate::file::{file_outline, outline_file};
use crate::outline::OutlineFile;
use crate::raw::{lemma_raw_children, raw_views, RawNode, RawNodeView};
use crate::source::file_span;
use crate::span::{ByteSpan, RawPosition};
use vstd::prelude::*;
use vstd::string::StringSliceAdditionalSpecFns;

verus! {

/// `tree_sitter::Tree`, the syntax tree of one text.
#[verifier::external_type_specification]
#[verifier::external_body]
pub struct ExTree(tree_sitter::Tree);

/// `tree_sitter::Node`, one node of a syntax tree.
#[verifier::external_type_specification]
#[verifier::external_body]
pub struct ExNode<'a>(tree_sitter::Node<'a>);

/// A node as the parser holds it: its kind, where it starts and ends, and,
/// for each named child that it counts, the child that it hands out at that
/// index, or `None` where it hands out none. Each number is as wide as the
/// parser hands it out.
pub struct ParsedNode {
    pub kind: Seq<char>,
    pub start_row: usize,
    pub start_column: usize,
    pub start_byte: usize,
    pub end_row: usize,
    pub end_column: usize,
    pub end_byte: usize,
    pub named_children: Seq<Option<ParsedNode>>,
}

/// The tree that the parser gives for a text when it parses it as Rust, or
/// `None` where it gives none.
pub uninterp spec fn syntax_of(text: Seq<char>) -> Option<ParsedNode>;

/// What a `tree_sitter::Tree` holds: its root, with all that lies below.
pub uninterp spec fn tree_model(tree: tree_sitter::Tree) -> ParsedNode;

/// What a `tree_sitter::Node` holds, with all that lies below it.
pub uninterp spec fn node_model(node: tree_sitter::Node<'_>) -> ParsedNode;

/// `tree_sitter::Parser::parse` of a text, by a parser made by
/// `tree_sitter::Parser::new` and given the grammar of
/// `tree_sitter_rust::language` by `tree_sitter::Parser::set_language`, with
/// no earlier tree to start from. The parser takes no chances: the tree, and
/// whether there is one, depends on the text alone.
#[verifier::external_body]
fn parse_as_rust(text: &str) -> (tree: Option<tree_sitter::Tree>)
    ensures
        match tree {
            Some(t) => syntax_of(text@) == Some(tree_model(t)),
            None => syntax_of(text@) is None,
        },
{
    let mut parser = tree_sitter::Parser::new();
    parser.set_language(tree_sitter_rust::language()).ok()?;
    parser.parse(text, None)
}

/// `tree_sitter::Tree::root_node` gives the root of a tree; a tree always
/// has one. The root holds what the tree holds.
pub assume_specification<'t>[ tree_sitter::Tree::root_node ](tree: &'t tree_sitter::Tree) -> (node:
    tree_sitter::Node<'t>)
    ensures
        node_model(node) == tree_model(*tree),
;

/// `tree_sitter::Node::kind` gives the label of a node's kind. It reads the
/// label as UTF-8, which the labels of a grammar are.
pub assume_specification<'t>[ tree_sitter::Node::<'t>::kind ](node: &tree_sitter::Node<'t>) -> (kind:
    &'static str)
    ensures
        kind@ == node_model(*node).kind,
;

/// `tree_sitter::Node::start_byte` gives the offset at which a node starts.
pub assume_specification<'t>[ tree_sitter::Node::<'t>::start_byte ](
    node: &tree_sitter::Node<'t>,
) -> (offset: usize)
    ensures
        offset == node_model(*node).start_byte,
;

/// `tree_sitter::Node::end_byte` gives the offset at which a node ends.
pub assume_specification<'t>[ tree_sitter::Node::<'t>::end_byte ](
    node: &tree_sitter::Node<'t>,
) -> (offset: usize)
    ensures
        offset == node_model(*node).end_byte,
;

/// `tree_sitter::Node::start_position` gives the row and the column at which
/// a node starts.
#[verifier::external_body]
fn start_point(node: &tree_sitter::Node<'_>) -> (point: (usize, usize))
    ensures
        point.0 == node_model(*node).start_row,
        point.1 == node_model(*node).start_column,
{
    let point = node.start_position();
    (point.row, point.column)
}

/// `tree_sitter::Node::end_position` gives the row and the column at which a
/// node ends.
#[verifier::external_body]
fn end_point(node: &tree_sitter::Node<'_>) -> (point: (usize, usize))
    ensures
        point.0 == node_model(*node).end_row,
        point.1 == node_model(*node).end_column,
{
    let point = node.end_position();
    (point.row, point.column)
}

/// `tree_sitter::Node::named_child_count` gives the number of named children
/// of a node.
pub assume_specification<'t>[ tree_sitter::Node::<'t>::named_child_count ](
    node: &tree_sitter::Node<'t>,
) -> (count: usize)
    ensures
        count == node_model(*node).named_children.len(),
;

/// `tree_sitter::Node::named_child` gives the named child at an index, or
/// none. For an index below the count, what it gives is what the node holds
/// at that index: the child, or nothing. That it gives a child there is not
/// claimed.
pub assume_specification<'t, 'a>[ tree_sitter::Node::<'t>::named_child ](
    node: &'a tree_sitter::Node<'t>,
    i: usize,
) -> (child: Option<tree_sitter::Node<'t>>)
    ensures
        i < node_model(*node).named_children.len() ==> match child {
            Some(c) => node_model(*node).named_children[i as int] == Some(node_model(c)),
            None => node_model(*node).named_children[i as int] is None,
        },
;

/// The position that a row, a column and a byte offset of the parser stand
/// for, where each of the three fits the width that positions are kept in.
pub open spec fn position_of(row: usize, column: usize, byte: usize) -> Option<RawPosition> {
    if row <= u32::MAX && column <= u32::MAX && byte <= u32::MAX {
        Some(RawPosition { row: row as u32, column: column as u32, byte: byte as u32 })
    } else {
        None
    }
}

/// The raw node that stands for a node of the parser: `None` where a
/// position in the tree does not fit, or where the parser hands out no node
/// for a child that it counts.
pub open spec fn narrowed(node: ParsedNode) -> Option<RawNodeView>
    decreases node,
{
    match (
        position_of(node.start_row, node.start_column, node.start_byte),
        position_of(node.end_row, node.end_column, node.end_byte),
        narrowed_each(node.named_children, node.named_children.len()),
    ) {
        (Some(start), Some(end), Some(named_children)) => Some(
            RawNodeView { kind: node.kind, start, end, named_children },
        ),
        _ => None,
    }
}

/// The raw nodes that stand for the first `n` of the children that a node
/// holds: `None` where one of them is missing or cannot be narrowed.
pub open spec fn narrowed_each(nodes: Seq<Option<ParsedNode>>, n: nat) -> Option<Seq<RawNodeView>>
    decreases nodes, n,
{
    if n == 0 || n > nodes.len() {
        Some(Seq::empty())
    } else {
        match (narrowed_each(nodes, (n - 1) as nat), nodes[n - 1]) {
            (Some(before), Some(child)) => match narrowed(child) {
                Some(node) => Some(before.push(node)),
                None => None,
            },
            _ => None,
        }
    }
}

/// Where the first children cannot be narrowed, more of them cannot be
/// narrowed either.
pub proof fn lemma_narrowed_each_stays_none(nodes: Seq<Option<ParsedNode>>, m: nat, n: nat)
    requires
        m <= n <= nodes.len(),
        narrowed_each(nodes, m) is None,
    ensures
        narrowed_each(nodes, n) is None,
    decreases n,
{
    if n > m {
        lemma_narrowed_each_stays_none(nodes, m, (n - 1) as nat);
    }
}

/// The tree that the parser gives for `source`, with every position
/// narrowed; `None` where it gives no tree, or one that cannot be narrowed.
pub open spec fn parsed_root(source: Seq<char>) -> Option<RawNodeView> {
    match syntax_of(source) {
        Some(tree) => narrowed(tree),
        None => None,
    }
}

/// Takes a position over from the parser.
pub fn read_position(row: usize, column: usize, byte: usize) -> (r: Option<RawPosition>)
    ensures
        r == position_of(row, column, byte),
{
    if row <= 0xFFFF_FFFF && column <= 0xFFFF_FFFF && byte <= 0xFFFF_FFFF {
        Some(RawPosition { row: row as u32, column: column as u32, byte: byte as u32 })
    } else {
        None
    }
}

/// Takes a node and all that lies below it over from the parser. It gives
/// `None` exactly where a position does not fit, or where the parser hands
/// out no node for a child that it counts.
fn read_node(node: &tree_sitter::Node<'_>) -> (r: Option<RawNode>)
    ensures
        match r {
            Some(raw) => narrowed(node_model(*node)) == Some(raw@),
            None => narrowed(node_model(*node)) is None,
        },
    decreases node_model(*node),
{
    let ghost model = node_model(*node);
    let (start_row, start_column) = start_point(node);
    let start = match read_position(start_row, start_column, node.start_byte()) {
        Some(position) => position,
        None => {
            return None;
        },
    };
    let (end_row, end_column) = end_point(node);
    let end = match read_position(end_row, end_column, node.end_byte()) {
        Some(position) => position,
        None => {
            return None;
        },
    };
    let count: usize = node.named_child_count();
    let mut named_children: Vec<RawNode> = Vec::new();
    let mut at: usize = 0;
    assert(raw_views(named_children@) =~= Seq::empty());
    while at < count
        invariant
            at <= count == model.named_children.len(),
            model == node_model(*node),
            narrowed_each(model.named_children, at as nat) == Some(raw_views(named_children@)),
        decreases count - at,
    {
        let child = match node.named_child(at) {
            Some(child) => child,
            None => {
                proof {
                    lemma_narrowed_each_stays_none(
                        model.named_children,
                        (at + 1) as nat,
                        count as nat,
                    );
                }
                return None;
            },
        };
        let ghost before = raw_views(named_children@);
        match read_node(&child) {
            Some(read) => {
                named_children.push(read);
                assert(raw_views(named_children@) =~= before.push(read@));
            },
            None => {
                proof {
                    lemma_narrowed_each_stays_none(
                        model.named_children,
                        (at + 1) as nat,
                        count as nat,
                    );
                }
                return None;
            },
        }
        at += 1;
    }
    let raw = RawNode { kind: node.kind().to_owned(), start, end, named_children };
    proof {
        lemma_raw_children(raw);
    }
    Some(raw)
}

/// Takes a whole tree over from the parser. It gives `None` exactly where
/// the tree cannot be narrowed.
fn read_tree(tree: &tree_sitter::Tree) -> (r: Option<RawNode>)
    ensures
        match r {
            Some(raw) => narrowed(tree_model(*tree)) == Some(raw@),
            None => narrowed(tree_model(*tree)) is None,
        },
{
    let root = tree.root_node();
    read_node(&root)
}

/// Parses `source` as Rust and hands back the tree.
///
/// The tree is the one that the parser gives for `source`, with every
/// position narrowed to the width that positions are kept in. The call
/// gives `None` exactly where the parser gives no tree, where a position
/// does not fit, and where the parser hands out no node for a child that it
/// counts.
pub fn parse_rust(source: &str) -> (r: Option<RawNode>)
    ensures
        match r {
            Some(root) => parsed_root(source@) == Some(root@),
            None => parsed_root(source@) is None,
        },
{
    match parse_as_rust(source) {
        Some(tree) => read_tree(&tree),
        None => None,
    }
}

/// The outline of a file for whatever tree the parser gave: `ParseFailed`
/// where it gave none, else what `outline_file` makes of the tree.
pub fn outline_parsed(path: &str, source: &str, parsed: Option<RawNode>) -> (r: Result<
    OutlineFile,
    OutlineError,
>)
    ensures
        match r {
            Ok(file) => parsed matches Some(root) && file_outline(path@, source@, root@) == Some(
                file@,
            ),
            Err(e) => match parsed {
                None => e == OutlineError::ParseFailed,
                Some(root) => e == OutlineError::RootExtractionFailed && file_outline(
                    path@,
                    source@,
                    root@,
                ) is None,
            },
        },
        parsed matches Some(root) && root@.well_formed() ==> (r matches Ok(file)
            ==> file@.well_formed()),
{
    match parsed {
        Some(root) => outline_file(path, source, &root),
        None => Err(OutlineError::ParseFailed),
    }
}

/// Parses `source` as Rust and builds the outline of the file at `path`.
///
/// The outline is the one that `file_outline` makes of the tree that the
/// parser gives for `source`: it is called by `path`, spans the whole of
/// `source`, and records no parsing error. The call fails with
/// `RootExtractionFailed` where no name can be had for the root of that
/// tree, and with `ParseFailed` exactly where no tree can be had. Where the
/// tree is well formed, so is the outline.
pub fn outline_source(path: &str, source: &str) -> (r: Result<OutlineFile, OutlineError>)
    ensures
        match r {
            Ok(file) => {
                &&& parsed_root(source@) is Some
                &&& file_outline(path@, source@, parsed_root(source@)->0) == Some(file@)
                &&& file@.item_type == "file"@
                &&& file@.name == path@
                &&& file@.location_span == file_span(source.spec_bytes())
                &&& file@.footer_span == ByteSpan::unset_span()
                &&& !file@.parsing_errors_detected
                &&& file@.parsing_error is None
            },
            Err(e) => {
                ||| e == OutlineError::ParseFailed && parsed_root(source@) is None
                ||| {
                    &&& e == OutlineError::RootExtractionFailed
                    &&& parsed_root(source@) is Some
                    &&& file_outline(path@, source@, parsed_root(source@)->0) is None
                }
            },
        },
        parsed_root(source@) is None ==> r == Err::<OutlineFile, OutlineError>(
            OutlineError::ParseFailed,
        ),
        parsed_root(source@) matches Some(root) && root.well_formed() ==> (r matches Ok(file)
            ==> file@.well_formed()),
{
    outline_parsed(path, source, parse_rust(source))
}

} // verus!
