use crate::error::OutlineError;
use crate::outline::{
    lemma_container_view, outline_views, OutlineFile, OutlineFileView, OutlineNode, OutlineNodeView,
    ParsingError, ParsingErrorView,
};
use crate::span::{ByteSpan, HumanSpan, Position};
use vstd::prelude::*;

verus! {

/// A document as a tree of plain values.
pub enum Document {
    Null,
    Bool(bool),
    Number(int),
    Text(Seq<char>),
    List(Seq<Document>),
    /// Named fields, in the order in which they are written.
    Record(Seq<(Seq<char>, Document)>),
}

/// `serde_json::Value`, a document in memory.
#[verifier::external_type_specification]
#[verifier::external_body]
pub struct ExValue(serde_json::Value);

/// `serde_json::Error`, the failure of a rendering.
#[verifier::external_type_specification]
#[verifier::external_body]
pub struct ExRenderError(serde_json::Error);

/// The document that a `serde_json::Value` holds.
pub uninterp spec fn value_document(value: serde_json::Value) -> Document;

/// The text that `serde_json::to_string_pretty` renders a document as, or
/// `None` where it gives up on the document.
pub uninterp spec fn pretty_text(document: Document) -> Option<Seq<char>>;

/// The documents that a sequence of values holds.
pub open spec fn value_documents(values: Seq<serde_json::Value>) -> Seq<Document> {
    Seq::new(values.len(), |i: int| value_document(values[i]))
}

/// The fields that a sequence of named values holds.
pub open spec fn field_documents(fields: Seq<(String, serde_json::Value)>) -> Seq<
    (Seq<char>, Document),
> {
    Seq::new(fields.len(), |i: int| (fields[i].0@, value_document(fields[i].1)))
}

/// `serde_json::Value::Null` holds the null document.
#[verifier::external_body]
fn null_value() -> (value: serde_json::Value)
    ensures
        value_document(value) == Document::Null,
{
    serde_json::Value::Null
}

/// `serde_json::Value::Bool` holds the given truth value.
#[verifier::external_body]
fn bool_value(b: bool) -> (value: serde_json::Value)
    ensures
        value_document(value) == Document::Bool(b),
{
    serde_json::Value::Bool(b)
}

/// `serde_json::Value::from` of a `u64` holds that number.
#[verifier::external_body]
fn unsigned_value(n: u64) -> (value: serde_json::Value)
    ensures
        value_document(value) == Document::Number(n as int),
{
    serde_json::Value::from(n)
}

/// `serde_json::Value::from` of an `i64` holds that number.
#[verifier::external_body]
fn signed_value(n: i64) -> (value: serde_json::Value)
    ensures
        value_document(value) == Document::Number(n as int),
{
    serde_json::Value::from(n)
}

/// `serde_json::Value::String` holds the given text.
#[verifier::external_body]
fn text_value(text: String) -> (value: serde_json::Value)
    ensures
        value_document(value) == Document::Text(text@),
{
    serde_json::Value::String(text)
}

/// `serde_json::Value::Array` holds the given values as a list, in their
/// order.
#[verifier::external_body]
fn list_value(items: Vec<serde_json::Value>) -> (value: serde_json::Value)
    ensures
        value_document(value) == Document::List(value_documents(items@)),
{
    serde_json::Value::Array(items)
}

/// `serde_json::Value::Object` of a `serde_json::Map` collected from named
/// values holds them as a record. Built to keep the order of insertion, the
/// map holds the fields in the order in which they came, as long as no name
/// comes twice.
#[verifier::external_body]
fn record_value(fields: Vec<(String, serde_json::Value)>) -> (value: serde_json::Value)
    requires
        forall|i: int, j: int|
            0 <= i < j < fields@.len() ==> (#[trigger] fields@[i]).0@ != (#[trigger] fields@[j]).0@,
    ensures
        value_document(value) == Document::Record(field_documents(fields@)),
{
    serde_json::Value::Object(fields.into_iter().collect())
}

/// `serde_json::to_string_pretty` renders a value as indented text. The
/// text, and whether there is one, depends on nothing but the document that
/// the value holds.
#[verifier::external_body]
fn render_pretty(value: &serde_json::Value) -> (r: Result<String, serde_json::Error>)
    ensures
        match r {
            Ok(text) => pretty_text(value_document(*value)) == Some(text@),
            Err(_) => pretty_text(value_document(*value)) is None,
        },
{
    serde_json::to_string_pretty(value)
}

/// The document of a display position: the line, then the column.
pub open spec fn position_document(p: Position) -> Document {
    Document::List(seq![Document::Number(p.line as int), Document::Number(p.column as int)])
}

/// The document of a display span.
pub open spec fn human_span_document(span: HumanSpan) -> Document {
    Document::Record(
        seq![("start"@, position_document(span.start)), ("end"@, position_document(span.end))],
    )
}

/// The document of a byte span: the start, then the end.
pub open spec fn byte_span_document(span: ByteSpan) -> Document {
    Document::List(seq![Document::Number(span.start as int), Document::Number(span.end as int)])
}

/// The document of an outline node. A container and a terminal are told
/// apart by their fields alone: only a container has children.
pub open spec fn node_document(node: OutlineNodeView) -> Document
    decreases node,
{
    match node {
        OutlineNodeView::Container {
            item_type,
            name,
            location_span,
            header_span,
            footer_span,
            children,
        } => Document::Record(
            seq![
                ("type"@, Document::Text(item_type)),
                ("name"@, Document::Text(name)),
                ("locationSpan"@, human_span_document(location_span)),
                ("headerSpan"@, byte_span_document(header_span)),
                ("footerSpan"@, byte_span_document(footer_span)),
                (
                    "children"@,
                    Document::List(
                        Seq::new(
                            children.len(),
                            |i: int|
                                if 0 <= i < children.len() {
                                    node_document(children[i])
                                } else {
                                    Document::Null
                                },
                        ),
                    ),
                ),
            ],
        ),
        OutlineNodeView::Terminal { item_type, name, location_span, span } => Document::Record(
            seq![
                ("type"@, Document::Text(item_type)),
                ("name"@, Document::Text(name)),
                ("locationSpan"@, human_span_document(location_span)),
                ("span"@, byte_span_document(span)),
            ],
        ),
    }
}

/// The documents of a sequence of outline nodes.
pub open spec fn node_documents(nodes: Seq<OutlineNodeView>) -> Seq<Document> {
    Seq::new(nodes.len(), |i: int| node_document(nodes[i]))
}

/// The document of a parsing error.
pub open spec fn parsing_error_document(error: ParsingErrorView) -> Document {
    Document::Record(
        seq![
            ("location"@, human_span_document(error.location)),
            ("message"@, Document::Text(error.message)),
        ],
    )
}

/// The document of the outline of a file.
pub open spec fn file_document(file: OutlineFileView) -> Document {
    Document::Record(
        seq![
            ("type"@, Document::Text(file.item_type)),
            ("name"@, Document::Text(file.name)),
            ("locationSpan"@, human_span_document(file.location_span)),
            ("footerSpan"@, byte_span_document(file.footer_span)),
            ("parsingErrorsDetected"@, Document::Bool(file.parsing_errors_detected)),
            ("children"@, Document::List(node_documents(file.children))),
            (
                "parsingError"@,
                match file.parsing_error {
                    Some(error) => parsing_error_document(error),
                    None => Document::Null,
                },
            ),
        ],
    )
}

/// The children in the document of a container are the documents of its
/// children.
pub proof fn lemma_container_document(node: OutlineNodeView)
    requires
        node is Container,
    ensures
        node_document(node) == Document::Record(
            seq![
                ("type"@, Document::Text(node.item_type())),
                ("name"@, Document::Text(node.name())),
                ("locationSpan"@, human_span_document(node.location_span())),
                ("headerSpan"@, byte_span_document(node->header_span)),
                ("footerSpan"@, byte_span_document(node->footer_span)),
                ("children"@, Document::List(node_documents(node.children()))),
            ],
        ),
{
    let children = node.children();
    match node_document(node) {
        Document::Record(fields) => {
            match fields[5].1 {
                Document::List(items) => {
                    assert(items =~= node_documents(children));
                },
                _ => {},
            }
            assert(fields =~= seq![
                ("type"@, Document::Text(node.item_type())),
                ("name"@, Document::Text(node.name())),
                ("locationSpan"@, human_span_document(node.location_span())),
                ("headerSpan"@, byte_span_document(node->header_span)),
                ("footerSpan"@, byte_span_document(node->footer_span)),
                ("children"@, Document::List(node_documents(children))),
            ]);
        },
        _ => {},
    }
}

/// What the names of the fields are made of, as far as it takes to tell
/// them apart.
proof fn lemma_field_names()
    ensures
        "type"@.len() == 4 && "type"@[0] == 't',
        "name"@.len() == 4 && "name"@[0] == 'n',
        "span"@.len() == 4 && "span"@[0] == 's',
        "start"@.len() == 5,
        "end"@.len() == 3,
        "location"@.len() == 8,
        "message"@.len() == 7,
        "children"@.len() == 8,
        "headerSpan"@.len() == 10 && "headerSpan"@[0] == 'h',
        "footerSpan"@.len() == 10 && "footerSpan"@[0] == 'f',
        "locationSpan"@.len() == 12 && "locationSpan"@[0] == 'l',
        "parsingError"@.len() == 12 && "parsingError"@[0] == 'p',
        "parsingErrorsDetected"@.len() == 21,
{
    reveal_strlit("type");
    reveal_strlit("name");
    reveal_strlit("span");
    reveal_strlit("start");
    reveal_strlit("end");
    reveal_strlit("location");
    reveal_strlit("message");
    reveal_strlit("children");
    reveal_strlit("headerSpan");
    reveal_strlit("footerSpan");
    reveal_strlit("locationSpan");
    reveal_strlit("parsingError");
    reveal_strlit("parsingErrorsDetected");
}

fn position_value(p: Position) -> (value: serde_json::Value)
    ensures
        value_document(value) == position_document(p),
{
    let mut items: Vec<serde_json::Value> = Vec::new();
    items.push(unsigned_value(p.line));
    items.push(unsigned_value(p.column));
    assert(value_documents(items@) =~= seq![
        Document::Number(p.line as int),
        Document::Number(p.column as int),
    ]);
    list_value(items)
}

fn human_span_value(span: HumanSpan) -> (value: serde_json::Value)
    ensures
        value_document(value) == human_span_document(span),
{
    let mut fields: Vec<(String, serde_json::Value)> = Vec::new();
    fields.push(("start".to_owned(), position_value(span.start)));
    fields.push(("end".to_owned(), position_value(span.end)));
    proof {
        lemma_field_names();
        assert(field_documents(fields@) =~= seq![
            ("start"@, position_document(span.start)),
            ("end"@, position_document(span.end)),
        ]);
    }
    record_value(fields)
}

fn byte_span_value(span: ByteSpan) -> (value: serde_json::Value)
    ensures
        value_document(value) == byte_span_document(span),
{
    let mut items: Vec<serde_json::Value> = Vec::new();
    items.push(signed_value(span.start));
    items.push(signed_value(span.end));
    assert(value_documents(items@) =~= seq![
        Document::Number(span.start as int),
        Document::Number(span.end as int),
    ]);
    list_value(items)
}

fn node_values(nodes: &Vec<OutlineNode>) -> (value: serde_json::Value)
    ensures
        value_document(value) == Document::List(node_documents(outline_views(nodes@))),
    decreases nodes,
{
    let mut items: Vec<serde_json::Value> = Vec::new();
    let mut at: usize = 0;
    while at < nodes.len()
        invariant
            at <= nodes.len(),
            items@.len() == at,
            forall|i: int|
                0 <= i < at ==> value_document(#[trigger] items@[i]) == node_document(nodes@[i]@),
        decreases nodes.len() - at,
    {
        let item = node_value(&nodes[at]);
        items.push(item);
        at += 1;
    }
    assert(value_documents(items@) =~= node_documents(outline_views(nodes@)));
    list_value(items)
}

fn node_value(node: &OutlineNode) -> (value: serde_json::Value)
    ensures
        value_document(value) == node_document(node@),
    decreases node,
{
    let mut fields: Vec<(String, serde_json::Value)> = Vec::new();
    match node {
        OutlineNode::Container(c) => {
            fields.push(("type".to_owned(), text_value(c.item_type.clone())));
            fields.push(("name".to_owned(), text_value(c.name.clone())));
            fields.push(("locationSpan".to_owned(), human_span_value(c.location_span)));
            fields.push(("headerSpan".to_owned(), byte_span_value(c.header_span)));
            fields.push(("footerSpan".to_owned(), byte_span_value(c.footer_span)));
            fields.push(("children".to_owned(), node_values(&c.children)));
            proof {
                lemma_field_names();
                lemma_container_view(*c);
                lemma_container_document(node@);
                assert(field_documents(fields@) =~= seq![
                    ("type"@, Document::Text(c.item_type@)),
                    ("name"@, Document::Text(c.name@)),
                    ("locationSpan"@, human_span_document(c.location_span)),
                    ("headerSpan"@, byte_span_document(c.header_span)),
                    ("footerSpan"@, byte_span_document(c.footer_span)),
                    ("children"@, Document::List(node_documents(outline_views(c.children@)))),
                ]);
            }
        },
        OutlineNode::Terminal(t) => {
            fields.push(("type".to_owned(), text_value(t.item_type.clone())));
            fields.push(("name".to_owned(), text_value(t.name.clone())));
            fields.push(("locationSpan".to_owned(), human_span_value(t.location_span)));
            fields.push(("span".to_owned(), byte_span_value(t.span)));
            proof {
                lemma_field_names();
                assert(field_documents(fields@) =~= seq![
                    ("type"@, Document::Text(t.item_type@)),
                    ("name"@, Document::Text(t.name@)),
                    ("locationSpan"@, human_span_document(t.location_span)),
                    ("span"@, byte_span_document(t.span)),
                ]);
            }
        },
    }
    record_value(fields)
}

fn parsing_error_value(error: &ParsingError) -> (value: serde_json::Value)
    ensures
        value_document(value) == parsing_error_document(error@),
{
    let mut fields: Vec<(String, serde_json::Value)> = Vec::new();
    fields.push(("location".to_owned(), human_span_value(error.location)));
    fields.push(("message".to_owned(), text_value(error.message.clone())));
    proof {
        lemma_field_names();
        assert(field_documents(fields@) =~= seq![
            ("location"@, human_span_document(error.location)),
            ("message"@, Document::Text(error.message@)),
        ]);
    }
    record_value(fields)
}

fn file_value(file: &OutlineFile) -> (value: serde_json::Value)
    ensures
        value_document(value) == file_document(file@),
{
    let mut fields: Vec<(String, serde_json::Value)> = Vec::new();
    fields.push(("type".to_owned(), text_value(file.item_type.clone())));
    fields.push(("name".to_owned(), text_value(file.name.clone())));
    fields.push(("locationSpan".to_owned(), human_span_value(file.location_span)));
    fields.push(("footerSpan".to_owned(), byte_span_value(file.footer_span)));
    fields.push(("parsingErrorsDetected".to_owned(), bool_value(file.parsing_errors_detected)));
    fields.push(("children".to_owned(), node_values(&file.children)));
    let detail = match &file.parsing_error {
        Some(error) => parsing_error_value(error),
        None => null_value(),
    };
    fields.push(("parsingError".to_owned(), detail));
    proof {
        lemma_field_names();
        match file_document(file@) {
            Document::Record(expected) => {
                assert(field_documents(fields@) =~= expected);
            },
            _ => {},
        }
    }
    record_value(fields)
}

/// What a rendering comes to: the text where there is one, `RenderFailed`
/// where the renderer gave up.
pub fn rendered(outcome: Result<String, serde_json::Error>) -> (r: Result<String, OutlineError>)
    ensures
        match outcome {
            Ok(text) => r == Ok::<String, OutlineError>(text),
            Err(_) => r == Err::<String, OutlineError>(OutlineError::RenderFailed),
        },
{
    match outcome {
        Ok(text) => Ok(text),
        Err(_) => Err(OutlineError::RenderFailed),
    }
}

/// Renders the outline of a file as an indented text document that keeps
/// every field under a fixed name.
///
/// The text is the pretty rendering of `file_document(file@)`. The call
/// fails with `RenderFailed` exactly where the renderer gives up on that
/// document.
pub fn serialize(file: &OutlineFile) -> (r: Result<String, OutlineError>)
    ensures
        match r {
            Ok(text) => pretty_text(file_document(file@)) == Some(text@),
            Err(e) => e == OutlineError::RenderFailed && pretty_text(file_document(file@))
                is None,
        },
{
    let value = file_value(file);
    rendered(render_pretty(&value))
}

/// Renders one outline node as an indented text document. The call fails
/// with `RenderFailed` exactly where the renderer gives up on the document
/// of the node.
pub fn serialize_node(node: &OutlineNode) -> (r: Result<String, OutlineError>)
    ensures
        match r {
            Ok(text) => pretty_text(node_document(node@)) == Some(text@),
            Err(e) => e == OutlineError::RenderFailed && pretty_text(node_document(node@))
                is None,
        },
{
    let value = node_value(node);
    rendered(render_pretty(&value))
}

} // verus!
