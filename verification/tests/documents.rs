use semantic_outline::error::OutlineError;
use semantic_outline::json::{rendered, serialize, serialize_node};
use semantic_outline::outline::{Container, OutlineFile, OutlineNode, ParsingError, Terminal};
use semantic_outline::span::{ByteSpan, HumanSpan, Position};
use semantic_outline::syntax::{outline_parsed, outline_source, parse_rust, read_position};
use semantic_outline::raw::RawNode;
use semantic_outline::span::RawPosition;

fn span(from: u64, to: u64) -> HumanSpan {
    HumanSpan { start: Position { line: 1, column: from }, end: Position { line: 1, column: to } }
}

fn empty_file(name: &str) -> OutlineFile {
    OutlineFile {
        item_type: "file".to_string(),
        name: name.to_string(),
        location_span: span(0, 0),
        footer_span: ByteSpan { start: 0, end: -1 },
        parsing_errors_detected: false,
        children: vec![],
        parsing_error: None,
    }
}

const EMPTY_FILE_TEXT: &str = r#"{
  "type": "file",
  "name": "a.rs",
  "locationSpan": {
    "start": [
      1,
      0
    ],
    "end": [
      1,
      0
    ]
  },
  "footerSpan": [
    0,
    -1
  ],
  "parsingErrorsDetected": false,
  "children": [],
  "parsingError": null
}"#;

#[test]
fn an_empty_file_is_rendered_field_by_field() {
    assert_eq!(serialize(&empty_file("a.rs")), Ok(EMPTY_FILE_TEXT.to_string()));
}

#[test]
fn a_terminal_is_rendered_with_its_span() {
    let node = OutlineNode::Terminal(Terminal {
        item_type: "identifier".to_string(),
        name: "main".to_string(),
        location_span: span(3, 7),
        span: ByteSpan { start: 3, end: 7 },
    });
    let expected = r#"{
  "type": "identifier",
  "name": "main",
  "locationSpan": {
    "start": [
      1,
      3
    ],
    "end": [
      1,
      7
    ]
  },
  "span": [
    3,
    7
  ]
}"#;
    assert_eq!(serialize_node(&node), Ok(expected.to_string()));
}

#[test]
fn a_container_is_rendered_with_its_children() {
    let node = OutlineNode::Container(Container {
        item_type: "function_item".to_string(),
        name: "f".to_string(),
        location_span: HumanSpan {
            start: Position { line: 2, column: 0 },
            end: Position { line: 4, column: 1 },
        },
        header_span: ByteSpan { start: 10, end: 42 },
        footer_span: ByteSpan { start: 0, end: -1 },
        children: vec![OutlineNode::Terminal(Terminal {
            item_type: "identifier".to_string(),
            name: "f".to_string(),
            location_span: HumanSpan {
                start: Position { line: 2, column: 3 },
                end: Position { line: 2, column: 4 },
            },
            span: ByteSpan { start: 13, end: 14 },
        })],
    });
    let expected = r#"{
  "type": "function_item",
  "name": "f",
  "locationSpan": {
    "start": [
      2,
      0
    ],
    "end": [
      4,
      1
    ]
  },
  "headerSpan": [
    10,
    42
  ],
  "footerSpan": [
    0,
    -1
  ],
  "children": [
    {
      "type": "identifier",
      "name": "f",
      "locationSpan": {
        "start": [
          2,
          3
        ],
        "end": [
          2,
          4
        ]
      },
      "span": [
        13,
        14
      ]
    }
  ]
}"#;
    assert_eq!(serialize_node(&node), Ok(expected.to_string()));
}

#[test]
fn text_is_escaped_and_flags_are_written() {
    let mut file = empty_file("dir\\a \"b\".rs");
    file.parsing_errors_detected = true;
    file.location_span.end = Position { line: 18446744073709551615, column: 4294967296 };
    file.footer_span = ByteSpan { start: -9223372036854775808, end: 9223372036854775807 };
    file.parsing_error = Some(ParsingError { location: span(1, 2), message: "bad\ninput".to_string() });
    let expected = r#"{
  "type": "file",
  "name": "dir\\a \"b\".rs",
  "locationSpan": {
    "start": [
      1,
      0
    ],
    "end": [
      18446744073709551615,
      4294967296
    ]
  },
  "footerSpan": [
    -9223372036854775808,
    9223372036854775807
  ],
  "parsingErrorsDetected": true,
  "children": [],
  "parsingError": {
    "location": {
      "start": [
        1,
        1
      ],
      "end": [
        1,
        2
      ]
    },
    "message": "bad\ninput"
  }
}"#;
    assert_eq!(serialize(&file), Ok(expected.to_string()));
}

#[test]
fn rendering_twice_gives_the_same_text() {
    let file = outline_source("src/lib.rs", "pub fn f(a: u8) -> u8 { a }\nstruct S { x: i32 }\n").unwrap();
    let first = serialize(&file).unwrap();
    let second = serialize(&file).unwrap();
    assert_eq!(first, second);
}

#[test]
fn a_rendered_file_reads_back_to_the_same_text() {
    let file = outline_source("src/lib.rs", "pub fn f(a: u8) -> u8 { a }\nstruct S { x: i32 }\n").unwrap();
    let text = serialize(&file).unwrap();
    let value: serde_json::Value = serde_json::from_str(&text).unwrap();
    assert_eq!(serde_json::to_string_pretty(&value).unwrap(), text);
    assert_eq!(value["type"], serde_json::Value::from("file"));
    assert_eq!(value["name"], serde_json::Value::from("src/lib.rs"));
    assert_eq!(value["children"].as_array().unwrap().len(), 2);
    assert_eq!(value["children"][0]["name"], serde_json::Value::from("f"));
    assert_eq!(value["children"][1]["name"], serde_json::Value::from("S"));
    assert_eq!(value["parsingErrorsDetected"], serde_json::Value::Bool(false));
    assert_eq!(value["parsingError"], serde_json::Value::Null);
    let keys: Vec<&str> = value.as_object().unwrap().keys().map(|k| k.as_str()).collect();
    assert_eq!(
        keys,
        vec![
            "type",
            "name",
            "locationSpan",
            "footerSpan",
            "parsingErrorsDetected",
            "children",
            "parsingError"
        ]
    );
}

#[test]
fn rendered_hands_the_text_on() {
    assert_eq!(rendered(Ok("x".to_string())), Ok("x".to_string()));
    let failure = serde_json::from_str::<serde_json::Value>("{").unwrap_err();
    assert_eq!(rendered(Err(failure)), Err(OutlineError::RenderFailed));
}

#[test]
fn an_empty_input_gives_a_file_without_children() {
    let file = outline_source("empty.rs", "").unwrap();
    assert_eq!(file, empty_file("empty.rs"));
    assert!(file.children.is_empty());
    assert!(!file.parsing_errors_detected);
}

#[test]
fn white_space_alone_gives_a_file_without_children() {
    let file = outline_source("blank.rs", "  \n\n").unwrap();
    assert!(file.children.is_empty());
    assert_eq!(
        file.location_span,
        HumanSpan { start: Position { line: 1, column: 0 }, end: Position { line: 2, column: 0 } }
    );
}

fn terminal(kind: &str, name: &str, from: u32, to: u32) -> OutlineNode {
    OutlineNode::Terminal(Terminal {
        item_type: kind.to_string(),
        name: name.to_string(),
        location_span: span(from as u64, to as u64),
        span: ByteSpan { start: from as i64, end: to as i64 },
    })
}

#[test]
fn a_function_is_outlined() {
    let file = outline_source("main.rs", "fn main() {}").unwrap();
    assert_eq!(
        file,
        OutlineFile {
            item_type: "file".to_string(),
            name: "main.rs".to_string(),
            location_span: span(0, 12),
            footer_span: ByteSpan { start: 0, end: -1 },
            parsing_errors_detected: false,
            children: vec![OutlineNode::Container(Container {
                item_type: "function_item".to_string(),
                name: "main".to_string(),
                location_span: span(0, 12),
                header_span: ByteSpan { start: 0, end: 12 },
                footer_span: ByteSpan { start: 0, end: -1 },
                children: vec![
                    terminal("identifier", "main", 3, 7),
                    terminal("parameters", "parameters", 7, 9),
                    terminal("block", "block", 10, 12),
                ],
            })],
            parsing_error: None,
        }
    );
}

#[test]
fn the_parser_reports_the_tree_of_the_text() {
    let root = parse_rust("fn main() {}").unwrap();
    assert_eq!(root.kind, "source_file");
    assert_eq!(root.start, RawPosition { row: 0, column: 0, byte: 0 });
    assert_eq!(root.end, RawPosition { row: 0, column: 12, byte: 12 });
    assert_eq!(root.named_children.len(), 1);
    let function = &root.named_children[0];
    assert_eq!(function.kind, "function_item");
    let kinds: Vec<&str> = function.named_children.iter().map(|c| c.kind.as_str()).collect();
    assert_eq!(kinds, vec!["identifier", "parameters", "block"]);
    assert_eq!(function.named_children[0].start, RawPosition { row: 0, column: 3, byte: 3 });
    assert_eq!(function.named_children[0].end, RawPosition { row: 0, column: 7, byte: 7 });
}

#[test]
fn the_parser_counts_rows_and_bytes() {
    let root = parse_rust("// \u{e9}\nstruct S;\n").unwrap();
    assert_eq!(root.named_children.len(), 2);
    let item = &root.named_children[1];
    assert_eq!(item.kind, "struct_item");
    assert_eq!(item.start, RawPosition { row: 1, column: 0, byte: 6 });
    assert_eq!(item.end, RawPosition { row: 1, column: 9, byte: 15 });
}

#[test]
fn text_that_is_no_rust_is_outlined_all_the_same() {
    let file = outline_source("odd.rs", "fn (((( struct").unwrap();
    assert!(file.children.is_empty());
    assert!(!file.parsing_errors_detected);
    assert_eq!(file.parsing_error, None);
    assert_eq!(file.name, "odd.rs");
}

#[test]
fn no_tree_is_a_parse_failure() {
    assert_eq!(outline_parsed("a.rs", "", None), Err(OutlineError::ParseFailed));
}

#[test]
fn a_tree_is_outlined_as_it_stands() {
    let at = |byte: u32| RawPosition { row: 0, column: byte, byte };
    let root = RawNode::branch("source_file", at(0), at(1), vec![RawNode::leaf("identifier", at(0), at(1))]);
    let file = outline_parsed("a.rs", "x", Some(root)).unwrap();
    assert_eq!(file.children, vec![terminal("identifier", "x", 0, 1)]);
    let root = RawNode::leaf("identifier", at(0), at(1));
    assert_eq!(outline_parsed("a.rs", "#", Some(root)), Err(OutlineError::RootExtractionFailed));
}

#[test]
fn positions_are_taken_over_when_they_fit() {
    assert_eq!(read_position(3, 9, 77), Some(RawPosition { row: 3, column: 9, byte: 77 }));
    assert_eq!(
        read_position(4294967295, 4294967295, 4294967295),
        Some(RawPosition { row: 4294967295, column: 4294967295, byte: 4294967295 })
    );
    assert_eq!(read_position(4294967296, 0, 0), None);
    assert_eq!(read_position(0, 4294967296, 0), None);
    assert_eq!(read_position(0, 0, 4294967296), None);
}

fn check_raw(node: &RawNode) {
    assert!(node.start.byte <= node.end.byte);
    assert!((node.start.row, node.start.column) <= (node.end.row, node.end.column));
    let mut last = node.start;
    for child in &node.named_children {
        assert!(last.byte <= child.start.byte);
        assert!((last.row, last.column) <= (child.start.row, child.start.column));
        check_raw(child);
        last = child.end;
    }
    assert!(last.byte <= node.end.byte);
    assert!((last.row, last.column) <= (node.end.row, node.end.column));
}

#[test]
fn the_parser_nests_children_within_their_parents() {
    let source = "mod m {\n    pub fn f(a: u8) -> u8 {\n        a + 1\n    }\n}\n\nenum E { A, B(u8) }\n";
    let root = parse_rust(source).unwrap();
    check_raw(&root);
    assert!(root.is_well_formed());
}

#[test]
fn the_trees_of_odd_texts_are_well_formed_too() {
    let texts = ["", "fn", "fn (((( struct", "}}}{{{", "\u{e9}\u{e9} = 1;\n\n", "#![x]\nuse a::b;\n"];
    for t in texts {
        let root = parse_rust(t).unwrap();
        assert!(root.is_well_formed(), "{:?}", t);
    }
}

fn check_outline(node: &OutlineNode) {
    match node {
        OutlineNode::Terminal(t) => {
            assert!(t.span.start <= t.span.end);
        }
        OutlineNode::Container(c) => {
            assert!(!c.children.is_empty());
            assert_eq!(c.footer_span, ByteSpan { start: 0, end: -1 });
            let outer = c.location_span;
            let mut last = (outer.start.line, outer.start.column);
            for child in &c.children {
                let inner = match child {
                    OutlineNode::Terminal(t) => t.location_span,
                    OutlineNode::Container(k) => k.location_span,
                };
                assert!(last <= (inner.start.line, inner.start.column));
                assert!((inner.start.line, inner.start.column) <= (inner.end.line, inner.end.column));
                last = (inner.end.line, inner.end.column);
                check_outline(child);
            }
            assert!(last <= (outer.end.line, outer.end.column));
        }
    }
}

#[test]
fn the_outline_of_a_parsed_file_nests() {
    let source = "mod m {\n    pub fn f(a: u8) -> u8 {\n        a + 1\n    }\n}\n\nenum E { A, B(u8) }\n";
    let file = outline_source("m.rs", source).unwrap();
    assert_eq!(file.children.len(), 2);
    for child in &file.children {
        check_outline(child);
    }
    assert_eq!(
        file.location_span,
        HumanSpan { start: Position { line: 1, column: 0 }, end: Position { line: 7, column: 19 } }
    );
}

#[test]
fn the_outline_is_the_one_of_the_parsed_tree() {
    let source = "struct S { x: i32 }\nfn f() {}\n";
    let root = parse_rust(source).unwrap();
    assert_eq!(
        outline_source("s.rs", source),
        semantic_outline::file::outline_file("s.rs", source, &root)
    );
    assert_eq!(outline_source("s.rs", source), outline_parsed("s.rs", source, Some(root)));
}
