use vstd::prelude::*;

verus! {

/// True of the characters that Unicode lists as white space.
pub open spec fn is_whitespace(c: char) -> bool {
    let u = c as u32;
    ||| 0x09 <= u <= 0x0D
    ||| u == 0x20
    ||| u == 0x85
    ||| u == 0xA0
    ||| u == 0x1680
    ||| 0x2000 <= u <= 0x200A
    ||| u == 0x2028
    ||| u == 0x2029
    ||| u == 0x202F
    ||| u == 0x205F
    ||| u == 0x3000
}

/// `pattern` stands in `s` at index `at`.
pub open spec fn occurs_at(s: Seq<char>, pattern: Seq<char>, at: int) -> bool {
    &&& 0 <= at
    &&& at + pattern.len() <= s.len()
    &&& s.subrange(at, at + pattern.len()) == pattern
}

/// `pattern` stands somewhere in `s`.
pub open spec fn contains(s: Seq<char>, pattern: Seq<char>) -> bool {
    exists|at: int| occurs_at(s, pattern, at)
}

/// `s` with every occurrence of `from` replaced by `to`. Occurrences are
/// found from the left and do not overlap. An empty `from` replaces nothing.
pub open spec fn replace_all(s: Seq<char>, from: Seq<char>, to: Seq<char>) -> Seq<char>
    decreases s.len(),
{
    if from.len() == 0 || s.len() < from.len() {
        s
    } else if occurs_at(s, from, 0) {
        to + replace_all(s.skip(from.len() as int), from, to)
    } else {
        seq![s[0]] + replace_all(s.skip(1), from, to)
    }
}

/// The number of white space characters that `s` begins with.
pub open spec fn leading_whitespace(s: Seq<char>) -> nat
    decreases s.len(),
{
    if s.len() > 0 && is_whitespace(s[0]) {
        1 + leading_whitespace(s.drop_first())
    } else {
        0
    }
}

/// The number of characters other than white space that `s` begins with.
pub open spec fn leading_token(s: Seq<char>) -> nat
    decreases s.len(),
{
    if s.len() > 0 && !is_whitespace(s[0]) {
        1 + leading_token(s.drop_first())
    } else {
        0
    }
}

/// The first run of characters other than white space in `s`, if there is one.
pub open spec fn first_token(s: Seq<char>) -> Option<Seq<char>> {
    let start = leading_whitespace(s) as int;
    let len = leading_token(s.skip(start)) as int;
    if len == 0 {
        None
    } else {
        Some(s.subrange(start, start + len))
    }
}

/// What `leading_whitespace` counts: the white space before the first
/// character that is none.
pub proof fn lemma_leading_whitespace(s: Seq<char>)
    ensures
        leading_whitespace(s) <= s.len(),
        forall|i: int| 0 <= i < leading_whitespace(s) ==> is_whitespace(#[trigger] s[i]),
        leading_whitespace(s) < s.len() ==> !is_whitespace(s[leading_whitespace(s) as int]),
    decreases s.len(),
{
    if s.len() > 0 && is_whitespace(s[0]) {
        let rest = s.drop_first();
        lemma_leading_whitespace(rest);
        assert forall|i: int| 0 <= i < leading_whitespace(s) implies is_whitespace(
            #[trigger] s[i],
        ) by {
            if i > 0 {
                assert(s[i] == rest[i - 1]);
            }
        }
        if leading_whitespace(s) < s.len() {
            assert(s[leading_whitespace(s) as int] == rest[leading_whitespace(rest) as int]);
        }
    }
}

/// What `leading_token` counts: the characters before the first white space.
pub proof fn lemma_leading_token(s: Seq<char>)
    ensures
        leading_token(s) <= s.len(),
        forall|i: int| 0 <= i < leading_token(s) ==> !is_whitespace(#[trigger] s[i]),
        leading_token(s) < s.len() ==> is_whitespace(s[leading_token(s) as int]),
    decreases s.len(),
{
    if s.len() > 0 && !is_whitespace(s[0]) {
        let rest = s.drop_first();
        lemma_leading_token(rest);
        assert forall|i: int| 0 <= i < leading_token(s) implies !is_whitespace(#[trigger] s[i]) by {
            if i > 0 {
                assert(s[i] == rest[i - 1]);
            }
        }
        if leading_token(s) < s.len() {
            assert(s[leading_token(s) as int] == rest[leading_token(rest) as int]);
        }
    }
}

/// The first token is the first run of characters other than white space:
/// only white space stands before it, none is in it, and it ends at white
/// space or with the text. There is no token where all is white space.
pub proof fn lemma_first_token_is_first_run(s: Seq<char>)
    ensures
        match first_token(s) {
            Some(token) => exists|start: int, end: int|
                {
                    &&& 0 <= start < end <= s.len()
                    &&& token == #[trigger] s.subrange(start, end)
                    &&& forall|i: int| 0 <= i < start ==> is_whitespace(#[trigger] s[i])
                    &&& forall|i: int| start <= i < end ==> !is_whitespace(#[trigger] s[i])
                    &&& (end == s.len() || is_whitespace(s[end]))
                },
            None => forall|i: int| 0 <= i < s.len() ==> is_whitespace(#[trigger] s[i]),
        },
{
    lemma_leading_whitespace(s);
    let start = leading_whitespace(s) as int;
    let rest = s.skip(start);
    lemma_leading_token(rest);
    let end = start + leading_token(rest);
    match first_token(s) {
        Some(token) => {
            assert forall|i: int| start <= i < end implies !is_whitespace(#[trigger] s[i]) by {
                assert(s[i] == rest[i - start]);
            }
            if end < s.len() {
                assert(s[end] == rest[end - start]);
            }
            assert(token == s.subrange(start, end));
        },
        None => {
            if start < s.len() {
                assert(rest[0] == s[start]);
            }
        },
    }
}

/// Where blanks are written for `from`, what comes out before the first
/// blank is what went in: nothing was replaced there.
pub proof fn lemma_unblanked_beginning(s: Seq<char>, from: Seq<char>, k: nat)
    requires
        from.len() > 0,
        k <= replace_all(s, from, seq![' ']).len(),
        forall|i: int| 0 <= i < k ==> replace_all(s, from, seq![' '])[i] != ' ',
    ensures
        k <= s.len(),
        replace_all(s, from, seq![' ']).take(k as int) == s.take(k as int),
    decreases k,
{
    let out = replace_all(s, from, seq![' ']);
    if k > 0 {
        assert(out[0] != ' ');
        if s.len() < from.len() {
        } else {
            assert(!occurs_at(s, from, 0));
            let rest = replace_all(s.skip(1), from, seq![' ']);
            assert(out =~= seq![s[0]] + rest);
            assert forall|i: int| 0 <= i < k - 1 implies rest[i] != ' ' by {
                assert(rest[i] == out[i + 1]);
            }
            lemma_unblanked_beginning(s.skip(1), from, (k - 1) as nat);
            assert(out.take(k as int) =~= seq![s[0]] + rest.take(k - 1));
            assert(s.take(k as int) =~= seq![s[0]] + s.skip(1).take(k - 1));
        }
    } else {
        assert(out.take(0) =~= s.take(0));
    }
}

/// Writing blanks for `from` leaves no `pattern` behind, where `pattern`
/// holds no blank and either is `from` itself or did not stand in the text
/// before.
pub proof fn lemma_blanking_leaves_none(s: Seq<char>, from: Seq<char>, pattern: Seq<char>)
    requires
        from.len() > 0,
        pattern.len() > 0,
        forall|i: int| 0 <= i < pattern.len() ==> pattern[i] != ' ',
        pattern == from || !contains(s, pattern),
    ensures
        !contains(replace_all(s, from, seq![' ']), pattern),
    decreases s.len(),
{
    let out = replace_all(s, from, seq![' ']);
    let m = pattern.len() as int;
    if s.len() < from.len() {
        if pattern == from {
            assert forall|at: int| !occurs_at(out, pattern, at) by {}
        }
    } else if occurs_at(s, from, 0) {
        let tail = s.skip(from.len() as int);
        let rest = replace_all(tail, from, seq![' ']);
        assert(out =~= seq![' '] + rest);
        if pattern != from {
            assert forall|at: int| !occurs_at(tail, pattern, at) by {
                if occurs_at(tail, pattern, at) {
                    assert(tail.subrange(at, at + m) =~= s.subrange(
                        at + from.len(),
                        at + from.len() + m,
                    ));
                    assert(occurs_at(s, pattern, at + from.len()));
                }
            }
        }
        lemma_blanking_leaves_none(tail, from, pattern);
        assert forall|at: int| !occurs_at(out, pattern, at) by {
            if occurs_at(out, pattern, at) {
                if at == 0 {
                    assert(out.subrange(0, m)[0] == ' ');
                } else {
                    assert(out.subrange(at, at + m) =~= rest.subrange(at - 1, at - 1 + m));
                    assert(occurs_at(rest, pattern, at - 1));
                }
            }
        }
    } else {
        let tail = s.skip(1);
        let rest = replace_all(tail, from, seq![' ']);
        assert(out =~= seq![s[0]] + rest);
        if pattern != from {
            assert forall|at: int| !occurs_at(tail, pattern, at) by {
                if occurs_at(tail, pattern, at) {
                    assert(tail.subrange(at, at + m) =~= s.subrange(at + 1, at + 1 + m));
                    assert(occurs_at(s, pattern, at + 1));
                }
            }
        }
        lemma_blanking_leaves_none(tail, from, pattern);
        assert forall|at: int| !occurs_at(out, pattern, at) by {
            if occurs_at(out, pattern, at) {
                if at == 0 {
                    assert forall|i: int| 0 <= i < m implies out[i] != ' ' by {
                        assert(out.subrange(0, m)[i] == out[i]);
                    }
                    lemma_unblanked_beginning(s, from, m as nat);
                    assert(out.take(m) =~= out.subrange(0, m));
                    assert(s.take(m) =~= s.subrange(0, m));
                    assert(occurs_at(s, pattern, 0));
                } else {
                    assert(out.subrange(at, at + m) =~= rest.subrange(at - 1, at - 1 + m));
                    assert(occurs_at(rest, pattern, at - 1));
                }
            }
        }
    }
}

/// A pattern that does not stand in a text does not stand in a part of it.
pub proof fn lemma_part_holds_no_more(s: Seq<char>, pattern: Seq<char>, start: int, end: int)
    requires
        0 <= start <= end <= s.len(),
        !contains(s, pattern),
    ensures
        !contains(s.subrange(start, end), pattern),
{
    let part = s.subrange(start, end);
    assert forall|at: int| !occurs_at(part, pattern, at) by {
        if occurs_at(part, pattern, at) {
            assert(part.subrange(at, at + pattern.len()) =~= s.subrange(
                start + at,
                start + at + pattern.len(),
            ));
            assert(occurs_at(s, pattern, start + at));
        }
    }
}

/// The characters of `s`, in order.
pub fn chars_of(s: &str) -> (v: Vec<char>)
    ensures
        v@ == s@,
{
    let mut v: Vec<char> = Vec::new();
    for c in it: s.chars()
        invariant
            it.seq() == s@,
            v@ == it.seq().take(it.index() as int),
    {
        assert(it.seq().take(it.index() + 1) =~= it.seq().take(it.index() as int).push(c));
        v.push(c);
    }
    assert(s@.take(s@.len() as int) =~= s@);
    v
}

/// Tells whether `c` is white space.
pub fn char_is_whitespace(c: char) -> (r: bool)
    ensures
        r == is_whitespace(c),
{
    let u: u32 = c as u32;
    (0x09 <= u && u <= 0x0D) || u == 0x20 || u == 0x85 || u == 0xA0 || u == 0x1680 || (0x2000 <= u
        && u <= 0x200A) || u == 0x2028 || u == 0x2029 || u == 0x202F || u == 0x205F || u == 0x3000
}

/// Tells whether `pattern` stands in `s` at index `at`.
pub fn stands_at(s: &Vec<char>, pattern: &Vec<char>, at: usize) -> (r: bool)
    ensures
        r == occurs_at(s@, pattern@, at as int),
{
    if pattern.len() > s.len() || at > s.len() - pattern.len() {
        return false;
    }
    let mut k: usize = 0;
    while k < pattern.len()
        invariant
            k <= pattern.len(),
            at + pattern.len() <= s.len(),
            forall|j: int| 0 <= j < k ==> s@[at + j] == pattern@[j],
        decreases pattern.len() - k,
    {
        if s[at + k] != pattern[k] {
            assert(s@.subrange(at as int, at + pattern.len())[k as int] == s@[at + k]);
            return false;
        }
        k += 1;
    }
    assert(s@.subrange(at as int, at + pattern.len()) =~= pattern@);
    true
}

/// Tells whether `pattern` stands somewhere in `s`.
pub fn find_in(s: &Vec<char>, pattern: &Vec<char>) -> (r: bool)
    ensures
        r == contains(s@, pattern@),
{
    if pattern.len() > s.len() {
        return false;
    }
    let last: usize = s.len() - pattern.len();
    let mut at: usize = 0;
    while at < last
        invariant
            at <= last,
            last == s.len() - pattern.len(),
            forall|j: int| 0 <= j < at ==> !occurs_at(s@, pattern@, j),
        decreases last - at,
    {
        if stands_at(s, pattern, at) {
            return true;
        }
        at += 1;
    }
    stands_at(s, pattern, last)
}

/// Copies `s` with every occurrence of `from` replaced by `to`.
pub fn replace(s: &Vec<char>, from: &Vec<char>, to: &Vec<char>) -> (out: Vec<char>)
    ensures
        out@ == replace_all(s@, from@, to@),
{
    let mut out: Vec<char> = Vec::new();
    let mut at: usize = 0;
    assert(s@.skip(0) =~= s@);
    while at < s.len()
        invariant
            at <= s.len(),
            out@ + replace_all(s@.skip(at as int), from@, to@) == replace_all(s@, from@, to@),
        decreases s.len() - at,
    {
        let ghost rest = s@.skip(at as int);
        if from.len() > 0 && stands_at(s, from, at) {
            assert(rest.subrange(0, from@.len() as int) =~= s@.subrange(
                at as int,
                at + from@.len(),
            ));
            assert(rest.skip(from@.len() as int) =~= s@.skip(at + from@.len()));
            let ghost before = out@;
            let mut k: usize = 0;
            while k < to.len()
                invariant
                    k <= to.len(),
                    out@ == before + to@.take(k as int),
                decreases to.len() - k,
            {
                out.push(to[k]);
                assert(to@.take(k + 1) =~= to@.take(k as int).push(to@[k as int]));
                assert(before + to@.take(k + 1) =~= (before + to@.take(k as int)).push(
                    to@[k as int],
                ));
                k += 1;
            }
            assert(to@.take(to@.len() as int) =~= to@);
            assert(out@ + replace_all(rest.skip(from@.len() as int), from@, to@) =~= before + (to@
                + replace_all(rest.skip(from@.len() as int), from@, to@)));
            at += from.len();
        } else {
            assert(from@.len() > 0 && rest.len() >= from@.len() ==> !occurs_at(rest, from@, 0)) by {
                if from@.len() > 0 && rest.len() >= from@.len() {
                    assert(rest.subrange(0, from@.len() as int) =~= s@.subrange(
                        at as int,
                        at + from@.len(),
                    ));
                }
            }
            assert(rest.skip(1) =~= s@.skip(at + 1));
            assert(replace_all(rest, from@, to@) =~= seq![rest[0]] + replace_all(
                rest.skip(1),
                from@,
                to@,
            )) by {
                if from@.len() == 0 || rest.len() < from@.len() {
                    lemma_replace_all_short(rest.skip(1), from@, to@);
                    assert(rest =~= seq![rest[0]] + rest.skip(1));
                }
            }
            let ghost before = out@;
            out.push(s[at]);
            assert(out@ + replace_all(rest.skip(1), from@, to@) =~= before + (seq![rest[0]]
                + replace_all(rest.skip(1), from@, to@)));
            at += 1;
        }
    }
    assert(s@.skip(s@.len() as int) =~= Seq::<char>::empty());
    assert(out@ + Seq::<char>::empty() =~= out@);
    out
}

/// Nothing is replaced in a sequence that `from` does not fit into.
pub proof fn lemma_replace_all_short(s: Seq<char>, from: Seq<char>, to: Seq<char>)
    requires
        from.len() == 0 || s.len() < from.len(),
    ensures
        replace_all(s, from, to) == s,
{
}

/// The first run of characters other than white space in `s`, by its bounds:
/// `Some((start, end))` where the token is `s[start..end]`.
pub fn first_token_bounds(s: &Vec<char>) -> (r: Option<(usize, usize)>)
    ensures
        match r {
            Some((start, end)) => start < end <= s@.len() && first_token(s@) == Some(
                s@.subrange(start as int, end as int),
            ),
            None => first_token(s@) is None,
        },
{
    let mut start: usize = 0;
    assert(s@.skip(0) =~= s@);
    while start < s.len() && char_is_whitespace(s[start])
        invariant
            start <= s.len(),
            leading_whitespace(s@) == start + leading_whitespace(s@.skip(start as int)),
        decreases s.len() - start,
    {
        assert(s@.skip(start as int).drop_first() =~= s@.skip(start + 1));
        start += 1;
    }
    let mut end: usize = start;
    while end < s.len() && !char_is_whitespace(s[end])
        invariant
            start <= end <= s.len(),
            leading_token(s@.skip(start as int)) == (end - start) + leading_token(
                s@.skip(end as int),
            ),
        decreases s.len() - end,
    {
        assert(s@.skip(end as int).drop_first() =~= s@.skip(end + 1));
        end += 1;
    }
    if end == start {
        None
    } else {
        Some((start, end))
    }
}

} // verus!
