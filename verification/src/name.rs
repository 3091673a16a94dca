use crate::error::OutlineError;
use crate::text::{
    chars_of, contains, find_in, first_token, first_token_bounds, is_whitespace,
    lemma_blanking_leaves_none, lemma_first_token_is_first_run, lemma_part_holds_no_more, replace,
    replace_all,
};
use vstd::prelude::*;

verus! {

/// `String::push` of std appends one character to the end of the string.
pub assume_specification[ String::push ](s: &mut String, c: char)
    ensures
        final(s)@ == old(s)@.push(c),
;

/// The punctuation and the keywords that are taken out of a declaration's
/// text, in the order in which they are taken out.
pub open spec fn stripped_tokens() -> Seq<Seq<char>> {
    seq![
        "{"@,
        "}"@,
        "("@,
        ")"@,
        ":"@,
        "#"@,
        "["@,
        "]"@,
        "fn"@,
        "struct"@,
        "enum"@,
        "pub"@,
    ]
}

/// `text` after each of the first `n` of `tokens` in turn has been replaced
/// by a blank, wherever it stands.
pub open spec fn strip_first(text: Seq<char>, tokens: Seq<Seq<char>>, n: nat) -> Seq<char>
    decreases n,
{
    if n == 0 {
        text
    } else {
        replace_all(strip_first(text, tokens, (n - 1) as nat), tokens[n - 1], seq![' '])
    }
}

/// `text` with the punctuation and the keywords of a declaration blanked out.
pub open spec fn stripped(text: Seq<char>) -> Seq<char> {
    strip_first(text, stripped_tokens(), stripped_tokens().len())
}

/// True of the kinds of node that name a declaration: those whose label
/// holds "identifier" or "item".
pub open spec fn names_declaration(kind: Seq<char>) -> bool {
    contains(kind, "identifier"@) || contains(kind, "item"@)
}

/// The display name of a node of the given kind and text, or `None` where no
/// name can be had. A node that names a declaration is called by the first
/// token that is left of its text; any other node is called by its kind.
pub open spec fn extracted_name(kind: Seq<char>, text: Seq<char>) -> Option<Seq<char>> {
    if names_declaration(kind) {
        first_token(stripped(text))
    } else {
        Some(kind)
    }
}

/// There are twelve tokens to take out; none of them is empty, and none
/// holds a blank.
pub proof fn lemma_tokens_hold_no_blank()
    ensures
        stripped_tokens().len() == 12,
        forall|k: int|
            0 <= k < 12 ==> {
                &&& (#[trigger] stripped_tokens()[k]).len() > 0
                &&& forall|i: int|
                    0 <= i < stripped_tokens()[k].len() ==> stripped_tokens()[k][i] != ' '
            },
{
    reveal_strlit("{");
    reveal_strlit("}");
    reveal_strlit("(");
    reveal_strlit(")");
    reveal_strlit(":");
    reveal_strlit("#");
    reveal_strlit("[");
    reveal_strlit("]");
    reveal_strlit("fn");
    reveal_strlit("struct");
    reveal_strlit("enum");
    reveal_strlit("pub");
}

/// Once the first `n` tokens are blanked out, none of them stands in the
/// text any more: a later blanking does not bring an earlier token back.
pub proof fn lemma_stripping_leaves_no_token(text: Seq<char>, n: nat)
    requires
        n <= 12,
    ensures
        forall|k: int|
            0 <= k < n ==> !contains(
                strip_first(text, stripped_tokens(), n),
                #[trigger] stripped_tokens()[k],
            ),
    decreases n,
{
    if n > 0 {
        lemma_tokens_hold_no_blank();
        lemma_stripping_leaves_no_token(text, (n - 1) as nat);
        let before = strip_first(text, stripped_tokens(), (n - 1) as nat);
        assert forall|k: int| 0 <= k < n implies !contains(
            strip_first(text, stripped_tokens(), n),
            #[trigger] stripped_tokens()[k],
        ) by {
            lemma_blanking_leaves_none(before, stripped_tokens()[n - 1], stripped_tokens()[k]);
        }
    }
}

/// The name of a declaration is a clean token: it is not empty, it holds no
/// white space, and none of the punctuation marks and keywords that are
/// blanked out stands in it.
pub proof fn lemma_declaration_names_are_clean(kind: Seq<char>, text: Seq<char>)
    requires
        names_declaration(kind),
        extracted_name(kind, text) is Some,
    ensures
        extracted_name(kind, text)->0.len() > 0,
        forall|i: int|
            0 <= i < extracted_name(kind, text)->0.len() ==> !is_whitespace(
                #[trigger] extracted_name(kind, text)->0[i],
            ),
        forall|k: int|
            0 <= k < 12 ==> !contains(extracted_name(kind, text)->0, #[trigger] stripped_tokens()[k]),
{
    let rest = stripped(text);
    let name = extracted_name(kind, text)->0;
    lemma_tokens_hold_no_blank();
    lemma_stripping_leaves_no_token(text, 12);
    lemma_first_token_is_first_run(rest);
    let (start, end) = choose|start: int, end: int|
        {
            &&& 0 <= start < end <= rest.len()
            &&& name == #[trigger] rest.subrange(start, end)
            &&& forall|i: int| 0 <= i < start ==> is_whitespace(#[trigger] rest[i])
            &&& forall|i: int| start <= i < end ==> !is_whitespace(#[trigger] rest[i])
            &&& (end == rest.len() || is_whitespace(rest[end]))
        };
    assert forall|i: int| 0 <= i < name.len() implies !is_whitespace(#[trigger] name[i]) by {
        assert(name[i] == rest[start + i]);
    }
    assert forall|k: int| 0 <= k < 12 implies !contains(name, #[trigger] stripped_tokens()[k]) by {
        lemma_part_holds_no_more(rest, stripped_tokens()[k], start, end);
    }
}

/// Tells whether a node of this kind names a declaration.
pub fn kind_names_declaration(kind: &str) -> (r: bool)
    ensures
        r == names_declaration(kind@),
{
    let label = chars_of(kind);
    find_in(&label, &chars_of("identifier")) || find_in(&label, &chars_of("item"))
}

/// Blanks out the punctuation and the keywords of a declaration in `text`.
pub fn strip(text: &str) -> (out: Vec<char>)
    ensures
        out@ == stripped(text@),
{
    let tokens: [&str; 12] = ["{", "}", "(", ")", ":", "#", "[", "]", "fn", "struct", "enum", "pub"];
    let mut blank: Vec<char> = Vec::new();
    blank.push(' ');
    assert(blank@ =~= seq![' ']);
    let mut out = chars_of(text);
    let mut n: usize = 0;
    while n < 12
        invariant
            n <= 12,
            blank@ == seq![' '],
            stripped_tokens().len() == 12,
            forall|i: int| 0 <= i < 12 ==> (#[trigger] tokens@[i])@ == stripped_tokens()[i],
            out@ == strip_first(text@, stripped_tokens(), n as nat),
        decreases 12 - n,
    {
        let token = chars_of(tokens[n]);
        out = replace(&out, &token, &blank);
        n += 1;
    }
    out
}

/// The characters of `chars` from `start` up to `end`, as a string.
pub fn string_of(chars: &Vec<char>, start: usize, end: usize) -> (s: String)
    requires
        start <= end <= chars@.len(),
    ensures
        s@ == chars@.subrange(start as int, end as int),
{
    let mut s = String::new();
    let mut at: usize = start;
    while at < end
        invariant
            start <= at <= end <= chars@.len(),
            s@ == chars@.subrange(start as int, at as int),
        decreases end - at,
    {
        s.push(chars[at]);
        assert(chars@.subrange(start as int, at + 1) =~= chars@.subrange(
            start as int,
            at as int,
        ).push(chars@[at as int]));
        at += 1;
    }
    s
}

/// Derives the display name of a node from its kind and its text.
///
/// A node whose kind holds "identifier" or "item" is called by the first
/// token of its text, once punctuation and keywords are blanked out; the call
/// fails with `NameExtractionFailed` when no token is left. Any other node is
/// called by its kind.
pub fn extract_name(kind: &str, text: &str) -> (r: Result<String, OutlineError>)
    ensures
        match r {
            Ok(name) => extracted_name(kind@, text@) == Some(name@),
            Err(e) => e == OutlineError::NameExtractionFailed && extracted_name(kind@, text@)
                is None,
        },
{
    if kind_names_declaration(kind) {
        let rest = strip(text);
        match first_token_bounds(&rest) {
            Some((start, end)) => Ok(string_of(&rest, start, end)),
            None => Err(OutlineError::NameExtractionFailed),
        }
    } else {
        Ok(kind.to_owned())
    }
}

} // verus!
