use semantic_outline::error::OutlineError;
use semantic_outline::file::outline_file;
use semantic_outline::normalize::{normalize, normalize_children};
use semantic_outline::outline::{Container, OutlineFile, OutlineNode, Terminal};
use semantic_outline::raw::RawNode;
use semantic_outline::span::{ByteSpan, HumanSpan, Position, RawPosition};

fn at(byte: u32) -> RawPosition {
    RawPosition { row: 0, column: byte, byte }
}

fn span(from: u64, to: u64) -> HumanSpan {
    HumanSpan { start: Position { line: 1, column: from }, end: Position { line: 1, column: to } }
}

fn bytes(from: i64, to: i64) -> ByteSpan {
    ByteSpan { start: from, end: to }
}

fn terminal(kind: &str, name: &str, from: u32, to: u32) -> OutlineNode {
    OutlineNode::Terminal(Terminal {
        item_type: kind.to_string(),
        name: name.to_string(),
        location_span: span(from as u64, to as u64),
        span: bytes(from as i64, to as i64),
    })
}

#[test]
fn a_node_without_children_becomes_a_terminal() {
    let node = RawNode::leaf("identifier", at(3), at(7));
    assert_eq!(normalize(&node, "fn main() {}"), Ok(terminal("identifier", "main", 3, 7)));
}

#[test]
fn a_terminal_keeps_rows_and_columns() {
    let node = RawNode::leaf(
        "integer_literal",
        RawPosition { row: 4, column: 2, byte: 50 },
        RawPosition { row: 4, column: 5, byte: 53 },
    );
    assert_eq!(
        normalize(&node, ""),
        Ok(OutlineNode::Terminal(Terminal {
            item_type: "integer_literal".to_string(),
            name: "integer_literal".to_string(),
            location_span: HumanSpan {
                start: Position { line: 5, column: 2 },
                end: Position { line: 5, column: 5 }
            },
            span: ByteSpan { start: 50, end: 53 },
        }))
    );
}

#[test]
fn a_node_without_a_name_fails() {
    let node = RawNode::leaf("identifier", at(0), at(2));
    assert_eq!(normalize(&node, "## foo"), Err(OutlineError::NodeExtractionFailed));
}

#[test]
fn a_range_outside_the_text_counts_as_empty_text() {
    let node = RawNode::leaf("identifier", at(3), at(70));
    assert_eq!(normalize(&node, "fn main() {}"), Err(OutlineError::NodeExtractionFailed));
    let node = RawNode::leaf("block", at(3), at(70));
    assert_eq!(normalize(&node, "fn main() {}"), Ok(terminal("block", "block", 3, 70)));
}

#[test]
fn a_failing_child_leaves_its_sibling_in_place() {
    let source = "## foo";
    let node = RawNode::branch(
        "block",
        at(0),
        at(6),
        vec![RawNode::leaf("identifier", at(0), at(2)), RawNode::leaf("identifier", at(3), at(6))],
    );
    let outline = normalize(&node, source).unwrap();
    match &outline {
        OutlineNode::Container(c) => {
            assert_eq!(c.children.len(), 1);
            assert_eq!(c.children[0], terminal("identifier", "foo", 3, 6));
        }
        OutlineNode::Terminal(_) => panic!("a node with children is no terminal"),
    }
    assert_eq!(
        outline,
        OutlineNode::Container(Container {
            item_type: "block".to_string(),
            name: "block".to_string(),
            location_span: span(0, 6),
            header_span: bytes(0, 6),
            footer_span: bytes(0, -1),
            children: vec![terminal("identifier", "foo", 3, 6)],
        })
    );
}

#[test]
fn children_keep_the_order_of_the_text() {
    let source = "a b ## c";
    let node = RawNode::branch(
        "block",
        at(0),
        at(8),
        vec![
            RawNode::leaf("identifier", at(0), at(1)),
            RawNode::leaf("identifier", at(2), at(3)),
            RawNode::leaf("identifier", at(4), at(6)),
            RawNode::leaf("identifier", at(7), at(8)),
        ],
    );
    assert_eq!(
        normalize_children(&node, source),
        vec![
            terminal("identifier", "a", 0, 1),
            terminal("identifier", "b", 2, 3),
            terminal("identifier", "c", 7, 8),
        ]
    );
}

#[test]
fn a_container_without_a_surviving_child_fails() {
    let source = "## ()";
    let node = RawNode::branch(
        "block",
        at(0),
        at(5),
        vec![RawNode::leaf("identifier", at(0), at(2)), RawNode::leaf("identifier", at(3), at(5))],
    );
    assert_eq!(normalize(&node, source), Err(OutlineError::NodeExtractionFailed));
    assert_eq!(normalize_children(&node, source), Vec::<OutlineNode>::new());
}

#[test]
fn an_emptied_container_is_left_out_by_its_parent() {
    let source = "## x";
    let inner = RawNode::branch("block", at(0), at(2), vec![RawNode::leaf("identifier", at(0), at(2))]);
    let node = RawNode::branch(
        "source_file",
        at(0),
        at(4),
        vec![inner, RawNode::leaf("identifier", at(3), at(4))],
    );
    assert_eq!(
        normalize(&node, source),
        Ok(OutlineNode::Container(Container {
            item_type: "source_file".to_string(),
            name: "source_file".to_string(),
            location_span: span(0, 4),
            header_span: bytes(0, 4),
            footer_span: bytes(0, -1),
            children: vec![terminal("identifier", "x", 3, 4)],
        }))
    );
}

#[test]
fn a_container_is_named_by_its_own_text() {
    let source = "fn main() {}";
    let node = RawNode::branch(
        "function_item",
        at(0),
        at(12),
        vec![
            RawNode::leaf("identifier", at(3), at(7)),
            RawNode::leaf("parameters", at(7), at(9)),
            RawNode::leaf("block", at(10), at(12)),
        ],
    );
    assert_eq!(
        normalize(&node, source),
        Ok(OutlineNode::Container(Container {
            item_type: "function_item".to_string(),
            name: "main".to_string(),
            location_span: span(0, 12),
            header_span: bytes(0, 12),
            footer_span: bytes(0, -1),
            children: vec![
                terminal("identifier", "main", 3, 7),
                terminal("parameters", "parameters", 7, 9),
                terminal("block", "block", 10, 12),
            ],
        }))
    );
}

#[test]
fn a_container_without_a_name_fails_with_all_below_it() {
    let source = "{} x";
    let node = RawNode::branch(
        "declaration_item",
        at(0),
        at(2),
        vec![RawNode::leaf("block", at(0), at(2))],
    );
    assert_eq!(normalize(&node, source), Err(OutlineError::NodeExtractionFailed));
}

#[test]
fn the_children_of_the_root_become_the_children_of_the_file() {
    let source = "fn a() {}\nfn b() {}\n";
    let root = RawNode::branch(
        "source_file",
        RawPosition { row: 0, column: 0, byte: 0 },
        RawPosition { row: 2, column: 0, byte: 20 },
        vec![
            RawNode::leaf(
                "function_item",
                RawPosition { row: 0, column: 0, byte: 0 },
                RawPosition { row: 0, column: 9, byte: 9 },
            ),
            RawNode::leaf(
                "function_item",
                RawPosition { row: 1, column: 0, byte: 10 },
                RawPosition { row: 1, column: 9, byte: 19 },
            ),
        ],
    );
    assert_eq!(
        outline_file("src/a.rs", source, &root),
        Ok(OutlineFile {
            item_type: "file".to_string(),
            name: "src/a.rs".to_string(),
            location_span: HumanSpan {
                start: Position { line: 1, column: 0 },
                end: Position { line: 2, column: 9 }
            },
            footer_span: ByteSpan { start: 0, end: -1 },
            parsing_errors_detected: false,
            children: vec![
                OutlineNode::Terminal(Terminal {
                    item_type: "function_item".to_string(),
                    name: "a".to_string(),
                    location_span: HumanSpan {
                        start: Position { line: 1, column: 0 },
                        end: Position { line: 1, column: 9 }
                    },
                    span: ByteSpan { start: 0, end: 9 },
                }),
                OutlineNode::Terminal(Terminal {
                    item_type: "function_item".to_string(),
                    name: "b".to_string(),
                    location_span: HumanSpan {
                        start: Position { line: 2, column: 0 },
                        end: Position { line: 2, column: 9 }
                    },
                    span: ByteSpan { start: 10, end: 19 },
                }),
            ],
            parsing_error: None,
        })
    );
}

#[test]
fn a_failing_root_fails_the_whole_file() {
    let root = RawNode::leaf("identifier", at(0), at(2));
    assert_eq!(outline_file("a.rs", "##", &root), Err(OutlineError::RootExtractionFailed));
    let root = RawNode::branch("source_item", at(0), at(2), vec![RawNode::leaf("block", at(0), at(2))]);
    assert_eq!(outline_file("a.rs", "##", &root), Err(OutlineError::RootExtractionFailed));
}

#[test]
fn a_root_whose_children_all_fail_gives_a_file_without_children() {
    let root = RawNode::branch("source_file", at(0), at(2), vec![RawNode::leaf("identifier", at(0), at(2))]);
    let file = outline_file("a.rs", "##", &root).unwrap();
    assert!(file.children.is_empty());
    assert_eq!(file.location_span, span(0, 2));
}

#[test]
fn a_root_without_children_gives_a_file_without_children() {
    let root = RawNode::leaf("source_file", at(0), at(0));
    let file = outline_file("empty.rs", "", &root).unwrap();
    assert!(file.children.is_empty());
    assert!(!file.parsing_errors_detected);
    assert_eq!(file.parsing_error, None);
    assert_eq!(file.name, "empty.rs");
    assert_eq!(file.item_type, "file");
    assert_eq!(file.location_span, span(0, 0));
    assert_eq!(file.footer_span, bytes(0, -1));
}

fn check_nesting(node: &OutlineNode) {
    match node {
        OutlineNode::Terminal(t) => {
            assert!(t.span.start <= t.span.end);
            assert!(
                (t.location_span.start.line, t.location_span.start.column)
                    <= (t.location_span.end.line, t.location_span.end.column)
            );
        }
        OutlineNode::Container(c) => {
            assert!(!c.children.is_empty());
            assert_eq!(c.footer_span, ByteSpan { start: 0, end: -1 });
            let outer = c.location_span;
            let mut last = (outer.start.line, outer.start.column);
            for child in &c.children {
                let inner = match child {
                    OutlineNode::Terminal(t) => t.location_span,
                    OutlineNode::Container(k) => k.location_span,
                };
                assert!(last <= (inner.start.line, inner.start.column));
                assert!((inner.start.line, inner.start.column) <= (inner.end.line, inner.end.column));
                last = (inner.end.line, inner.end.column);
                check_nesting(child);
            }
            assert!(last <= (outer.end.line, outer.end.column));
        }
    }
}

#[test]
fn children_lie_within_their_container() {
    let source = "fn a(x: u8) {}\nstruct S;\n";
    let root = RawNode::branch(
        "source_file",
        RawPosition { row: 0, column: 0, byte: 0 },
        RawPosition { row: 2, column: 0, byte: 25 },
        vec![
            RawNode::branch(
                "function_item",
                RawPosition { row: 0, column: 0, byte: 0 },
                RawPosition { row: 0, column: 14, byte: 14 },
                vec![
                    RawNode::leaf(
                        "identifier",
                        RawPosition { row: 0, column: 3, byte: 3 },
                        RawPosition { row: 0, column: 4, byte: 4 },
                    ),
                    RawNode::branch(
                        "parameters",
                        RawPosition { row: 0, column: 4, byte: 4 },
                        RawPosition { row: 0, column: 11, byte: 11 },
                        vec![RawNode::leaf(
                            "parameter",
                            RawPosition { row: 0, column: 5, byte: 5 },
                            RawPosition { row: 0, column: 10, byte: 10 },
                        )],
                    ),
                ],
            ),
            RawNode::leaf(
                "struct_item",
                RawPosition { row: 1, column: 0, byte: 15 },
                RawPosition { row: 1, column: 9, byte: 24 },
            ),
        ],
    );
    let outline = normalize(&root, source).unwrap();
    check_nesting(&outline);
}

#[test]
fn a_tree_in_the_order_of_the_text_is_well_formed() {
    let node = RawNode::branch(
        "block",
        at(0),
        at(8),
        vec![
            RawNode::leaf("identifier", at(0), at(1)),
            RawNode::branch("block", at(1), at(7), vec![RawNode::leaf("identifier", at(1), at(1))]),
            RawNode::leaf("identifier", at(7), at(8)),
        ],
    );
    assert!(node.is_well_formed());
    assert!(RawNode::leaf("x", at(4), at(4)).is_well_formed());
}

#[test]
fn a_node_that_ends_before_it_starts_is_not_well_formed() {
    assert!(!RawNode::leaf("x", at(5), at(3)).is_well_formed());
    let node = RawNode::leaf(
        "x",
        RawPosition { row: 1, column: 0, byte: 3 },
        RawPosition { row: 0, column: 9, byte: 5 },
    );
    assert!(!node.is_well_formed());
    let node = RawNode::leaf(
        "x",
        RawPosition { row: 1, column: 4, byte: 3 },
        RawPosition { row: 1, column: 3, byte: 5 },
    );
    assert!(!node.is_well_formed());
}

#[test]
fn a_child_outside_its_parent_is_not_well_formed() {
    let node = RawNode::branch("block", at(2), at(8), vec![RawNode::leaf("x", at(1), at(3))]);
    assert!(!node.is_well_formed());
    let node = RawNode::branch("block", at(2), at(8), vec![RawNode::leaf("x", at(7), at(9))]);
    assert!(!node.is_well_formed());
    let node = RawNode::branch(
        "block",
        at(0),
        at(9),
        vec![RawNode::branch("block", at(1), at(8), vec![RawNode::leaf("x", at(5), at(4))])],
    );
    assert!(!node.is_well_formed());
}

#[test]
fn children_out_of_order_are_not_well_formed() {
    let node = RawNode::branch(
        "block",
        at(0),
        at(8),
        vec![RawNode::leaf("x", at(4), at(6)), RawNode::leaf("y", at(5), at(7))],
    );
    assert!(!node.is_well_formed());
    let node = RawNode::branch(
        "block",
        at(0),
        at(8),
        vec![
            RawNode::leaf("x", at(0), at(2)),
            RawNode::leaf("y", at(6), at(7)),
            RawNode::leaf("z", at(3), at(4)),
        ],
    );
    assert!(!node.is_well_formed());
}

#[test]
fn a_terminal_of_a_tree_that_is_not_well_formed_may_end_before_it_starts() {
    let node = RawNode::leaf("block", at(5), at(3));
    assert_eq!(
        normalize(&node, "0123456789"),
        Ok(OutlineNode::Terminal(Terminal {
            item_type: "block".to_string(),
            name: "block".to_string(),
            location_span: span(5, 3),
            span: bytes(5, 3),
        }))
    );
}
