use crate::span::{HumanSpan, Position};
use vstd::prelude::*;
use vstd::string::StringSliceAdditionalSpecFns;
use vstd::utf8::{
    decode_utf8, encode_utf8, encode_utf8_decode_utf8, encode_utf8_valid_utf8, is_char_boundary,
    is_char_boundary_iff_not_is_continuation_byte, is_char_boundary_start_end_of_seq,
    length_of_first_scalar, pop_first_scalar, valid_first_scalar, valid_utf8, valid_utf8_split,
};

verus! {

/// The text that `source` holds between the byte offsets `start` and `end`.
/// It is empty where the offsets are out of range or out of order, and where
/// one of them falls inside a character, so that the bytes between them are
/// no text.
pub open spec fn text_between(source: Seq<char>, start: int, end: int) -> Seq<char> {
    let bytes = encode_utf8(source);
    if 0 <= start <= end <= bytes.len() && is_char_boundary(bytes, start) && is_char_boundary(
        bytes,
        end,
    ) {
        decode_utf8(bytes.subrange(start, end))
    } else {
        Seq::empty()
    }
}

/// The number of line feeds among `bytes`.
pub open spec fn newline_count(bytes: Seq<u8>) -> nat
    decreases bytes.len(),
{
    if bytes.len() == 0 {
        0
    } else if bytes.last() == 0x0Au8 {
        newline_count(bytes.drop_last()) + 1
    } else {
        newline_count(bytes.drop_last())
    }
}

/// The number of lines of a text. Each line feed ends a line; what follows
/// the last line feed is a line too, unless nothing follows it.
pub open spec fn line_count(bytes: Seq<u8>) -> nat {
    if bytes.len() > 0 && bytes.last() != 0x0Au8 {
        newline_count(bytes) + 1
    } else {
        newline_count(bytes)
    }
}

/// `bytes` without the line feed at its end, if it has one there.
pub open spec fn without_final_newline(bytes: Seq<u8>) -> Seq<u8> {
    if bytes.len() > 0 && bytes.last() == 0x0Au8 {
        bytes.drop_last()
    } else {
        bytes
    }
}

/// The offset just behind the last line feed among `bytes`, or 0 where there
/// is none.
pub open spec fn last_line_start(bytes: Seq<u8>) -> nat
    decreases bytes.len(),
{
    if bytes.len() == 0 {
        0
    } else if bytes.last() == 0x0Au8 {
        bytes.len()
    } else {
        last_line_start(bytes.drop_last())
    }
}

/// The last line of a text, without its line ending: a line feed, or a
/// carriage return and a line feed. A carriage return that no line feed
/// follows belongs to the line. An empty text has an empty last line.
pub open spec fn last_line(bytes: Seq<u8>) -> Seq<u8> {
    let body = without_final_newline(bytes);
    let line = body.skip(last_line_start(body) as int);
    if body.len() < bytes.len() && line.len() > 0 && line.last() == 0x0Du8 {
        line.drop_last()
    } else {
        line
    }
}

/// The display span of a whole text: from line 1, column 0 to the end of the
/// last line. An empty text counts as one empty line.
pub open spec fn file_span(bytes: Seq<u8>) -> HumanSpan {
    HumanSpan {
        start: Position { line: 1, column: 0 },
        end: Position {
            line: if line_count(bytes) == 0 {
                1u64
            } else {
                line_count(bytes) as u64
            },
            column: last_line(bytes).len() as u64,
        },
    }
}

/// A text has at most as many line feeds as bytes.
pub proof fn lemma_newline_count_bound(bytes: Seq<u8>)
    ensures
        newline_count(bytes) <= bytes.len(),
        bytes.len() > 0 && bytes.last() != 0x0Au8 ==> newline_count(bytes) < bytes.len(),
    decreases bytes.len(),
{
    if bytes.len() > 0 {
        lemma_newline_count_bound(bytes.drop_last());
    }
}

/// The span of a whole text is ordered.
pub proof fn lemma_file_span_ordered(bytes: Seq<u8>)
    requires
        bytes.len() <= u64::MAX,
    ensures
        file_span(bytes).ordered(),
{
    lemma_newline_count_bound(bytes);
}

/// A valid beginning of a valid text ends between two characters.
pub proof fn lemma_valid_prefix_ends_at_boundary(bytes: Seq<u8>, n: int)
    requires
        valid_utf8(bytes),
        0 <= n <= bytes.len(),
        valid_utf8(bytes.subrange(0, n)),
    ensures
        is_char_boundary(bytes, n),
    decreases n,
{
    if n > 0 {
        let prefix = bytes.subrange(0, n);
        assert(valid_first_scalar(prefix));
        assert(prefix[0] == bytes[0]);
        let k = length_of_first_scalar(bytes);
        assert(k == length_of_first_scalar(prefix));
        assert(k <= n);
        assert(pop_first_scalar(prefix) =~= pop_first_scalar(bytes).subrange(0, n - k));
        lemma_valid_prefix_ends_at_boundary(pop_first_scalar(bytes), n - k);
    }
}

/// In a valid text, a range of bytes that is text itself, and not empty,
/// starts and ends between two characters.
pub proof fn lemma_valid_slice_lies_between_characters(bytes: Seq<u8>, start: int, end: int)
    requires
        valid_utf8(bytes),
        0 <= start < end <= bytes.len(),
        valid_utf8(bytes.subrange(start, end)),
    ensures
        is_char_boundary(bytes, start),
        is_char_boundary(bytes, end),
{
    let slice = bytes.subrange(start, end);
    assert(valid_first_scalar(slice));
    assert(slice[0] == bytes[start]);
    is_char_boundary_iff_not_is_continuation_byte(bytes, start);
    valid_utf8_split(bytes, start);
    let tail = bytes.subrange(start, bytes.len() as int);
    assert(slice =~= tail.subrange(0, end - start));
    lemma_valid_prefix_ends_at_boundary(tail, end - start);
    if end == bytes.len() {
        is_char_boundary_start_end_of_seq(bytes);
    } else {
        assert(tail[end - start] == bytes[end]);
        is_char_boundary_iff_not_is_continuation_byte(tail, end - start);
        is_char_boundary_iff_not_is_continuation_byte(bytes, end);
    }
}

/// In a valid text, the bytes between two places that both lie between
/// characters are text themselves.
pub proof fn lemma_slice_between_characters_is_valid(bytes: Seq<u8>, start: int, end: int)
    requires
        valid_utf8(bytes),
        0 <= start <= end <= bytes.len(),
        is_char_boundary(bytes, start),
        is_char_boundary(bytes, end),
    ensures
        valid_utf8(bytes.subrange(start, end)),
{
    valid_utf8_split(bytes, end);
    let head = bytes.subrange(0, end);
    if start < end {
        is_char_boundary_iff_not_is_continuation_byte(bytes, start);
        is_char_boundary_iff_not_is_continuation_byte(head, start);
    } else {
        is_char_boundary_start_end_of_seq(head);
    }
    valid_utf8_split(head, start);
    assert(head.subrange(start, head.len() as int) =~= bytes.subrange(start, end));
}

/// The text between two byte offsets within `source` is what the bytes
/// between them decode to, where they are validly encoded text, and empty
/// where they are not.
pub proof fn lemma_text_between_decodes_the_slice(source: Seq<char>, start: int, end: int)
    requires
        0 <= start <= end <= encode_utf8(source).len(),
    ensures
        text_between(source, start, end) == if valid_utf8(
            encode_utf8(source).subrange(start, end),
        ) {
            decode_utf8(encode_utf8(source).subrange(start, end))
        } else {
            Seq::empty()
        },
{
    let bytes = encode_utf8(source);
    encode_utf8_valid_utf8(source);
    let slice = bytes.subrange(start, end);
    if start == end {
        assert(slice =~= Seq::<u8>::empty());
        assert(decode_utf8(slice) =~= Seq::<char>::empty());
    } else if valid_utf8(slice) {
        lemma_valid_slice_lies_between_characters(bytes, start, end);
    } else if is_char_boundary(bytes, start) && is_char_boundary(bytes, end) {
        lemma_slice_between_characters_is_valid(bytes, start, end);
    }
}

/// Slices `source` by a byte range. A range that is out of bounds or out of
/// order, or that cuts through a character, gives the empty text.
pub fn slice_text<'a>(source: &'a str, start: usize, end: usize) -> (text: &'a str)
    ensures
        text@ == text_between(source@, start as int, end as int),
{
    let total: usize = source.as_bytes().len();
    if start <= end && end <= total && source.is_char_boundary(start) && source.is_char_boundary(
        end,
    ) {
        let ghost bytes = source.spec_bytes();
        proof {
            encode_utf8_valid_utf8(source@);
            valid_utf8_split(bytes, end as int);
        }
        let (head, _) = source.split_at(end);
        proof {
            let head_bytes = head.spec_bytes();
            assert(head_bytes =~= bytes.subrange(0, end as int));
            if start < end {
                is_char_boundary_iff_not_is_continuation_byte(bytes, start as int);
                is_char_boundary_iff_not_is_continuation_byte(head_bytes, start as int);
            } else {
                is_char_boundary_start_end_of_seq(head_bytes);
            }
        }
        let (_, text) = head.split_at(start);
        proof {
            assert(text.spec_bytes() =~= bytes.subrange(start as int, end as int));
            encode_utf8_decode_utf8(text@);
        }
        text
    } else {
        proof {
            reveal_strlit("");
        }
        ""
    }
}

/// Counts the lines of `source` and measures its last line in bytes.
pub fn measure_lines(source: &str) -> (r: (usize, usize))
    ensures
        r.0 == line_count(source.spec_bytes()),
        r.1 == last_line(source.spec_bytes()).len(),
        source.spec_bytes().len() <= usize::MAX,
{
    let bytes = source.as_bytes();
    let total: usize = bytes.len();
    let ends_with_newline: bool = total > 0 && bytes[total - 1] == 0x0Au8;
    let body_len: usize = if ends_with_newline {
        total - 1
    } else {
        total
    };
    let ghost body = without_final_newline(bytes@);
    assert(body =~= bytes@.take(body_len as int));
    let mut newlines: usize = 0;
    let mut line_start: usize = 0;
    let mut at: usize = 0;
    while at < body_len
        invariant
            at <= body_len <= bytes@.len(),
            body == bytes@.take(body_len as int),
            newlines == newline_count(body.take(at as int)),
            newlines <= at,
            line_start == last_line_start(body.take(at as int)),
            line_start <= at,
        decreases body_len - at,
    {
        assert(body.take(at + 1).drop_last() =~= body.take(at as int));
        if bytes[at] == 0x0Au8 {
            newlines += 1;
            line_start = at + 1;
        }
        at += 1;
    }
    assert(body.take(body_len as int) =~= body);
    proof {
        lemma_newline_count_bound(body);
    }
    let lines: usize = if total > 0 {
        newlines + 1
    } else {
        newlines
    };
    let mut width: usize = body_len - line_start;
    if ends_with_newline && width > 0 && bytes[body_len - 1] == 0x0Du8 {
        width -= 1;
    }
    (lines, width)
}

/// The display span of the whole of `source`.
pub fn whole_file_span(source: &str) -> (span: HumanSpan)
    ensures
        span == file_span(source.spec_bytes()),
        span.ordered(),
{
    let (lines, width) = measure_lines(source);
    proof {
        lemma_file_span_ordered(source.spec_bytes());
    }
    let last: u64 = if lines == 0 {
        1
    } else {
        lines as u64
    };
    HumanSpan {
        start: Position { line: 1, column: 0 },
        end: Position { line: last, column: width as u64 },
    }
}

} // verus!
