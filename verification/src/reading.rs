use crate::json::{
    byte_span_document, file_document, human_span_document, node_document, node_documents,
    position_document, pretty_text, Document,
};
use crate::outline::{OutlineFileView, OutlineNodeView, ParsingErrorView};
use crate::span::{ByteSpan, HumanSpan, Position};
use vstd::prelude::*;

verus! {

/// The display position that a document holds, if it is the document of one.
pub open spec fn read_position(document: Document) -> Option<Position> {
    match document {
        Document::List(items) => if items.len() == 2 {
            match (items[0], items[1]) {
                (Document::Number(line), Document::Number(column)) => if 0 <= line <= u64::MAX && 0
                    <= column <= u64::MAX {
                    Some(Position { line: line as u64, column: column as u64 })
                } else {
                    None
                },
                _ => None,
            }
        } else {
            None
        },
        _ => None,
    }
}

/// The display span that a document holds, if it is the document of one.
pub open spec fn read_human_span(document: Document) -> Option<HumanSpan> {
    match document {
        Document::Record(fields) => if fields.len() == 2 && fields[0].0 == "start"@ && fields[1].0
            == "end"@ {
            match (read_position(fields[0].1), read_position(fields[1].1)) {
                (Some(start), Some(end)) => Some(HumanSpan { start, end }),
                _ => None,
            }
        } else {
            None
        },
        _ => None,
    }
}

/// The byte span that a document holds, if it is the document of one.
pub open spec fn read_byte_span(document: Document) -> Option<ByteSpan> {
    match document {
        Document::List(items) => if items.len() == 2 {
            match (items[0], items[1]) {
                (Document::Number(start), Document::Number(end)) => if i64::MIN <= start <= i64::MAX
                    && i64::MIN <= end <= i64::MAX {
                    Some(ByteSpan { start: start as i64, end: end as i64 })
                } else {
                    None
                },
                _ => None,
            }
        } else {
            None
        },
        _ => None,
    }
}

/// The outline node that a document holds, if it is the document of one.
/// A record with the six fields of a container is read as a container, one
/// with the four fields of a terminal as a terminal.
pub open spec fn read_node(document: Document) -> Option<OutlineNodeView>
    decreases document,
{
    match document {
        Document::Record(fields) => if fields.len() == 6 && fields[0].0 == "type"@ && fields[1].0
            == "name"@ && fields[2].0 == "locationSpan"@ && fields[3].0 == "headerSpan"@
            && fields[4].0 == "footerSpan"@ && fields[5].0 == "children"@ {
            match (
                fields[0].1,
                fields[1].1,
                read_human_span(fields[2].1),
                read_byte_span(fields[3].1),
                read_byte_span(fields[4].1),
                fields[5].1,
            ) {
                (
                    Document::Text(item_type),
                    Document::Text(name),
                    Some(location_span),
                    Some(header_span),
                    Some(footer_span),
                    Document::List(items),
                ) => match read_nodes(items, items.len()) {
                    Some(children) => Some(
                        OutlineNodeView::Container {
                            item_type,
                            name,
                            location_span,
                            header_span,
                            footer_span,
                            children,
                        },
                    ),
                    None => None,
                },
                _ => None,
            }
        } else if fields.len() == 4 && fields[0].0 == "type"@ && fields[1].0 == "name"@
            && fields[2].0 == "locationSpan"@ && fields[3].0 == "span"@ {
            match (
                fields[0].1,
                fields[1].1,
                read_human_span(fields[2].1),
                read_byte_span(fields[3].1),
            ) {
                (Document::Text(item_type), Document::Text(name), Some(location_span), Some(span)) => Some(
                    OutlineNodeView::Terminal { item_type, name, location_span, span },
                ),
                _ => None,
            }
        } else {
            None
        },
        _ => None,
    }
}

/// The outline nodes that the first `n` of `items` hold, if each of them is
/// the document of one.
pub open spec fn read_nodes(items: Seq<Document>, n: nat) -> Option<Seq<OutlineNodeView>>
    decreases items, n,
{
    if n == 0 || n > items.len() {
        Some(Seq::empty())
    } else {
        match (read_nodes(items, (n - 1) as nat), read_node(items[n - 1])) {
            (Some(before), Some(node)) => Some(before.push(node)),
            _ => None,
        }
    }
}

/// The parsing error that a document holds, if it is the document of one.
pub open spec fn read_parsing_error(document: Document) -> Option<ParsingErrorView> {
    match document {
        Document::Record(fields) => if fields.len() == 2 && fields[0].0 == "location"@
            && fields[1].0 == "message"@ {
            match (read_human_span(fields[0].1), fields[1].1) {
                (Some(location), Document::Text(message)) => Some(
                    ParsingErrorView { location, message },
                ),
                _ => None,
            }
        } else {
            None
        },
        _ => None,
    }
}

/// The optional parsing error that a document holds: none for the null
/// document.
pub open spec fn read_optional_error(document: Document) -> Option<Option<ParsingErrorView>> {
    match document {
        Document::Null => Some(None),
        _ => match read_parsing_error(document) {
            Some(error) => Some(Some(error)),
            None => None,
        },
    }
}

/// The outline of a file that a document holds, if it is the document of
/// one.
pub open spec fn read_file(document: Document) -> Option<OutlineFileView> {
    match document {
        Document::Record(fields) => if fields.len() == 7 && fields[0].0 == "type"@ && fields[1].0
            == "name"@ && fields[2].0 == "locationSpan"@ && fields[3].0 == "footerSpan"@
            && fields[4].0 == "parsingErrorsDetected"@ && fields[5].0 == "children"@ && fields[6].0
            == "parsingError"@ {
            match (
                fields[0].1,
                fields[1].1,
                read_human_span(fields[2].1),
                read_byte_span(fields[3].1),
                fields[4].1,
                fields[5].1,
                read_optional_error(fields[6].1),
            ) {
                (
                    Document::Text(item_type),
                    Document::Text(name),
                    Some(location_span),
                    Some(footer_span),
                    Document::Bool(parsing_errors_detected),
                    Document::List(items),
                    Some(parsing_error),
                ) => match read_nodes(items, items.len()) {
                    Some(children) => Some(
                        OutlineFileView {
                            item_type,
                            name,
                            location_span,
                            footer_span,
                            parsing_errors_detected,
                            children,
                            parsing_error,
                        },
                    ),
                    None => None,
                },
                _ => None,
            }
        } else {
            None
        },
        _ => None,
    }
}

/// A position is read back from its document, and a document that reads as
/// a position is the document of that position.
pub proof fn lemma_position_round_trip(p: Position, document: Document)
    ensures
        read_position(position_document(p)) == Some(p),
        read_position(document) matches Some(q) ==> position_document(q) == document,
{
    if let Some(q) = read_position(document) {
        let items = document->List_0;
        assert(items =~= seq![Document::Number(q.line as int), Document::Number(q.column as int)]);
    }
}

/// A display span is read back from its document, and a document that reads
/// as a display span is the document of that span.
pub proof fn lemma_human_span_round_trip(span: HumanSpan, document: Document)
    ensures
        read_human_span(human_span_document(span)) == Some(span),
        read_human_span(document) matches Some(read) ==> human_span_document(read) == document,
{
    lemma_position_round_trip(span.start, Document::Null);
    lemma_position_round_trip(span.end, Document::Null);
    if let Some(read) = read_human_span(document) {
        let fields = document->Record_0;
        lemma_position_round_trip(read.start, fields[0].1);
        lemma_position_round_trip(read.end, fields[1].1);
        assert(fields =~= seq![
            ("start"@, position_document(read.start)),
            ("end"@, position_document(read.end)),
        ]);
    }
}

/// A byte span is read back from its document, and a document that reads as
/// a byte span is the document of that span.
pub proof fn lemma_byte_span_round_trip(span: ByteSpan, document: Document)
    ensures
        read_byte_span(byte_span_document(span)) == Some(span),
        read_byte_span(document) matches Some(read) ==> byte_span_document(read) == document,
{
    if let Some(read) = read_byte_span(document) {
        let items = document->List_0;
        assert(items =~= seq![Document::Number(read.start as int), Document::Number(read.end as int)]);
    }
}

/// Where each of the first `n` documents reads as the node at its place, the
/// `n` of them read as those nodes.
pub proof fn lemma_read_nodes_one_by_one(
    nodes: Seq<OutlineNodeView>,
    items: Seq<Document>,
    n: nat,
)
    requires
        n <= nodes.len() == items.len(),
        forall|i: int| 0 <= i < n ==> read_node(#[trigger] items[i]) == Some(nodes[i]),
    ensures
        read_nodes(items, n) == Some(nodes.take(n as int)),
    decreases n,
{
    if n > 0 {
        lemma_read_nodes_one_by_one(nodes, items, (n - 1) as nat);
        assert(nodes.take(n as int) =~= nodes.take(n - 1).push(nodes[n - 1]));
    } else {
        assert(nodes.take(0) =~= Seq::empty());
    }
}

/// Where the first `n` documents read as nodes, there are `n` nodes, and
/// each document reads as the node at its place.
pub proof fn lemma_read_nodes_each(items: Seq<Document>, n: nat)
    requires
        n <= items.len(),
        read_nodes(items, n) is Some,
    ensures
        read_nodes(items, n)->0.len() == n,
        forall|i: int| 0 <= i < n ==> read_node(#[trigger] items[i]) == Some(read_nodes(items, n)->0[i]),
    decreases n,
{
    if n > 0 {
        lemma_read_nodes_each(items, (n - 1) as nat);
    }
}

/// An outline node is read back from its document.
pub proof fn lemma_node_read_back(node: OutlineNodeView)
    ensures
        read_node(node_document(node)) == Some(node),
    decreases node,
{
    lemma_human_span_round_trip(node.location_span(), Document::Null);
    lemma_byte_span_round_trip(node.byte_span(), Document::Null);
    match node {
        OutlineNodeView::Container { footer_span, children, .. } => {
            lemma_byte_span_round_trip(footer_span, Document::Null);
            let fields = node_document(node)->Record_0;
            let items = fields[5].1->List_0;
            assert(items.len() == children.len());
            assert forall|i: int| 0 <= i < children.len() implies read_node(#[trigger] items[i])
                == Some(children[i]) by {
                lemma_node_read_back(children[i]);
            }
            lemma_read_nodes_one_by_one(children, items, children.len());
            assert(children.take(children.len() as int) =~= children);
        },
        OutlineNodeView::Terminal { .. } => {},
    }
}

/// A document that reads as an outline node is the document of that node.
pub proof fn lemma_node_written_back(document: Document)
    requires
        read_node(document) is Some,
    ensures
        node_document(read_node(document)->0) == document,
    decreases document,
{
    let node = read_node(document)->0;
    let fields = document->Record_0;
    lemma_human_span_round_trip(node.location_span(), fields[2].1);
    lemma_byte_span_round_trip(node.byte_span(), fields[3].1);
    match node {
        OutlineNodeView::Container { footer_span, children, .. } => {
            lemma_byte_span_round_trip(footer_span, fields[4].1);
            let items = fields[5].1->List_0;
            lemma_read_nodes_each(items, items.len());
            assert forall|i: int| 0 <= i < items.len() implies node_document(children[i])
                == #[trigger] items[i] by {
                lemma_node_written_back(items[i]);
            }
            let written = node_document(node)->Record_0;
            assert(written[5].1->List_0 =~= items);
            assert(written =~= fields);
        },
        OutlineNodeView::Terminal { .. } => {
            let written = node_document(node)->Record_0;
            assert(written =~= fields);
        },
    }
}

/// Reading undoes writing: the outline of a file is read back from its
/// document, whatever the outline holds.
pub proof fn lemma_file_read_back(file: OutlineFileView)
    ensures
        read_file(file_document(file)) == Some(file),
{
    lemma_human_span_round_trip(file.location_span, Document::Null);
    lemma_byte_span_round_trip(file.footer_span, Document::Null);
    if let Some(error) = file.parsing_error {
        lemma_human_span_round_trip(error.location, Document::Null);
    }
    let items = node_documents(file.children);
    assert forall|i: int| 0 <= i < file.children.len() implies read_node(#[trigger] items[i])
        == Some(file.children[i]) by {
        lemma_node_read_back(file.children[i]);
    }
    lemma_read_nodes_one_by_one(file.children, items, file.children.len());
    assert(file.children.take(file.children.len() as int) =~= file.children);
}

/// Writing undoes reading: a document that reads as the outline of a file
/// is the document of that outline. What is read and written again comes
/// out as it went in.
pub proof fn lemma_file_written_back(document: Document)
    requires
        read_file(document) is Some,
    ensures
        file_document(read_file(document)->0) == document,
{
    let file = read_file(document)->0;
    let fields = document->Record_0;
    lemma_human_span_round_trip(file.location_span, fields[2].1);
    lemma_byte_span_round_trip(file.footer_span, fields[3].1);
    if let Some(error) = file.parsing_error {
        let inner = fields[6].1->Record_0;
        lemma_human_span_round_trip(error.location, inner[0].1);
        assert(inner =~= seq![
            ("location"@, human_span_document(error.location)),
            ("message"@, Document::Text(error.message)),
        ]);
    }
    let items = fields[5].1->List_0;
    lemma_read_nodes_each(items, items.len());
    assert forall|i: int| 0 <= i < items.len() implies node_document(file.children[i])
        == #[trigger] items[i] by {
        lemma_node_written_back(items[i]);
    }
    assert(node_documents(file.children) =~= items);
    let written = file_document(file)->Record_0;
    assert(written =~= fields);
}

/// Writing, reading and writing again gives the document, and so the text,
/// that the first writing gave.
pub proof fn lemma_write_read_write(file: OutlineFileView)
    ensures
        read_file(file_document(file)) is Some,
        file_document(read_file(file_document(file))->0) == file_document(file),
        pretty_text(file_document(read_file(file_document(file))->0))
            == pretty_text(file_document(file)),
{
    lemma_file_read_back(file);
}

/// The document tells outlines apart: two outlines with the same document
/// are the same outline. Nothing is lost in writing.
pub proof fn lemma_document_loses_nothing(first: OutlineFileView, second: OutlineFileView)
    requires
        file_document(first) == file_document(second),
    ensures
        first == second,
{
    lemma_file_read_back(first);
    lemma_file_read_back(second);
}

} // verus!
