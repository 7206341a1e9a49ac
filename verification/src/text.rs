//! Characters, surrounding whitespace and comma-separated fields.

use vstd::prelude::*;

verus! {

/// The separator between the fields of a line.
pub const SEPARATOR: char = ',';

/// Whether `c` has the Unicode property `White_Space`.
pub open spec fn is_whitespace(c: char) -> bool {
    let u = c as u32;
    ||| 0x09 <= u <= 0x0D
    ||| u == 0x20
    ||| u == 0x85
    ||| u == 0xA0
    ||| u == 0x1680
    ||| 0x2000 <= u <= 0x200A
    ||| u == 0x2028
    ||| u == 0x2029
    ||| u == 0x202F
    ||| u == 0x205F
    ||| u == 0x3000
}

/// `s` without its leading whitespace.
pub open spec fn trim_start(s: Seq<char>) -> Seq<char>
    decreases s.len(),
{
    if s.len() > 0 && is_whitespace(s[0]) {
        trim_start(s.skip(1))
    } else {
        s
    }
}

/// `s` without its trailing whitespace.
pub open spec fn trim_end(s: Seq<char>) -> Seq<char>
    decreases s.len(),
{
    if s.len() > 0 && is_whitespace(s.last()) {
        trim_end(s.drop_last())
    } else {
        s
    }
}

/// `s` without the whitespace that surrounds it.
pub open spec fn trim(s: Seq<char>) -> Seq<char> {
    trim_end(trim_start(s))
}

/// The pieces of `s` between its separators, in order. A sequence with `n`
/// separators has `n + 1` pieces, some of which may be empty.
pub open spec fn split(s: Seq<char>) -> Seq<Seq<char>>
    decreases s.len(),
{
    if s.len() == 0 {
        seq![Seq::<char>::empty()]
    } else if s.last() == SEPARATOR {
        split(s.drop_last()).push(Seq::<char>::empty())
    } else {
        let before = split(s.drop_last());
        before.drop_last().push(before.last().push(s.last()))
    }
}

/// The fields of a line: its pieces between the separators, each trimmed.
pub open spec fn fields_of(line: Seq<char>) -> Seq<Seq<char>> {
    split(line).map_values(|piece: Seq<char>| trim(piece))
}

/// The field at position `j`, or the empty field where the line has none there.
pub open spec fn field_at(fields: Seq<Seq<char>>, j: int) -> Seq<char> {
    if 0 <= j < fields.len() {
        fields[j]
    } else {
        Seq::<char>::empty()
    }
}

/// The pieces joined again, with one separator between each two.
pub open spec fn join(pieces: Seq<Seq<char>>) -> Seq<char>
    decreases pieces.len(),
{
    if pieces.len() == 0 {
        Seq::<char>::empty()
    } else if pieces.len() == 1 {
        pieces[0]
    } else {
        join(pieces.drop_last()).push(SEPARATOR) + pieces.last()
    }
}

/// Splitting loses nothing and adds nothing: there is at least one piece, no
/// piece holds a separator, and the pieces joined again are the sequence that
/// was split.
pub proof fn lemma_split(s: Seq<char>)
    ensures
        split(s).len() >= 1,
        forall|j: int, i: int|
            0 <= j < split(s).len() && 0 <= i < split(s)[j].len() ==> split(s)[j][i] != SEPARATOR,
        join(split(s)) == s,
    decreases s.len(),
{
    if s.len() > 0 {
        let rest = s.drop_last();
        let before = split(rest);
        lemma_split(rest);
        if s.last() == SEPARATOR {
            assert(split(s).drop_last() =~= before);
            assert(join(split(s)) =~= s);
        } else {
            let piece = before.last().push(s.last());
            if before.len() == 1 {
                assert(join(split(s)) =~= s);
            } else {
                assert(split(s).drop_last() =~= before.drop_last());
                assert(join(split(s)) =~= join(before).push(s.last()));
                assert(join(split(s)) =~= s);
            }
        }
    }
}

/// Trimming cuts whitespace, and only whitespace, from both ends: what is
/// left is a part of the sequence, everything before and after that part is
/// whitespace, and the part neither begins nor ends with whitespace.
pub proof fn lemma_trim(s: Seq<char>) -> (cut: (int, int))
    ensures
        0 <= cut.0 <= cut.1 <= s.len(),
        trim(s) == s.subrange(cut.0, cut.1),
        forall|i: int| 0 <= i < cut.0 || cut.1 <= i < s.len() ==> is_whitespace(s[i]),
        cut.0 < cut.1 ==> !is_whitespace(s[cut.0]) && !is_whitespace(s[cut.1 - 1]),
{
    let a = lemma_trim_start(s);
    let rest = s.subrange(a, s.len() as int);
    let b = lemma_trim_end(rest);
    assert(rest.subrange(0, b) =~= s.subrange(a, a + b));
    if b > 0 {
        assert(rest[b - 1] == s[a + b - 1]);
        assert(rest[0] == s[a]);
    }
    assert forall|i: int| a + b <= i < s.len() implies is_whitespace(s[i]) by {
        assert(rest[i - a] == s[i]);
    }
    (a, a + b)
}

/// Where the leading whitespace of a sequence ends.
proof fn lemma_trim_start(s: Seq<char>) -> (a: int)
    ensures
        0 <= a <= s.len(),
        trim_start(s) == s.subrange(a, s.len() as int),
        forall|i: int| 0 <= i < a ==> is_whitespace(s[i]),
        a < s.len() ==> !is_whitespace(s[a]),
    decreases s.len(),
{
    if s.len() > 0 && is_whitespace(s[0]) {
        let a = lemma_trim_start(s.skip(1));
        assert(s.skip(1).subrange(a, s.len() - 1) =~= s.subrange(a + 1, s.len() as int));
        assert forall|i: int| 0 <= i < a + 1 implies is_whitespace(s[i]) by {
            if i > 0 {
                assert(s.skip(1)[i - 1] == s[i]);
            }
        }
        a + 1
    } else {
        assert(s.subrange(0, s.len() as int) =~= s);
        0
    }
}

/// Where the trailing whitespace of a sequence begins.
proof fn lemma_trim_end(s: Seq<char>) -> (b: int)
    ensures
        0 <= b <= s.len(),
        trim_end(s) == s.subrange(0, b),
        forall|i: int| b <= i < s.len() ==> is_whitespace(s[i]),
        0 < b ==> !is_whitespace(s[b - 1]),
    decreases s.len(),
{
    if s.len() > 0 && is_whitespace(s.last()) {
        let b = lemma_trim_end(s.drop_last());
        assert(s.drop_last().subrange(0, b) =~= s.subrange(0, b));
        assert forall|i: int| b <= i < s.len() implies is_whitespace(s[i]) by {
            if i < s.len() - 1 {
                assert(s.drop_last()[i] == s[i]);
            }
        }
        b
    } else {
        assert(s.subrange(0, s.len() as int) =~= s);
        s.len() as int
    }
}

/// Tests whether a character is whitespace.
pub fn char_is_whitespace(c: char) -> (b: bool)
    ensures
        b == is_whitespace(c),
{
    let u: u32 = c as u32;
    (0x09 <= u && u <= 0x0D) || u == 0x20 || u == 0x85 || u == 0xA0 || u == 0x1680 || (0x2000 <= u
        && u <= 0x200A) || u == 0x2028 || u == 0x2029 || u == 0x202F || u == 0x205F || u == 0x3000
}

/// The characters of `line`, in order.
pub fn chars_of(line: &str) -> (out: Vec<char>)
    ensures
        out@ == line@,
{
    let mut out: Vec<char> = Vec::new();
    for c in it: line.chars()
        invariant
            out@ == it.seq().take(it.index() as int),
            it.seq() == line@,
    {
        out.push(c);
    }
    out
}

/// Tests whether two sequences of characters are the same.
pub fn same_chars(a: &Vec<char>, b: &Vec<char>) -> (same: bool)
    ensures
        same == (a@ == b@),
{
    if a.len() != b.len() {
        return false;
    }
    let mut i: usize = 0;
    while i < a.len()
        invariant
            a@.len() == b@.len(),
            i <= a@.len(),
            forall|k: int| 0 <= k < i ==> a@[k] == b@[k],
        decreases a@.len() - i,
    {
        if a[i] != b[i] {
            return false;
        }
        i = i + 1;
    }
    proof {
        assert(a@ =~= b@);
    }
    true
}

/// A half-open range of positions in a line.
#[derive(Clone, Copy, Debug, PartialEq, Eq, Structural)]
pub struct Span {
    pub start: usize,
    pub end: usize,
}

impl Span {
    /// Whether the span lies inside a sequence of `len` items.
    pub open spec fn within(self, len: nat) -> bool {
        self.start <= self.end <= len
    }

    /// The part of `s` that the span covers.
    pub open spec fn of(self, s: Seq<char>) -> Seq<char> {
        s.subrange(self.start as int, self.end as int)
    }
}

/// Narrows `span` to what is left of it after trimming.
pub fn trim_span(chars: &Vec<char>, span: Span) -> (out: Span)
    requires
        span.within(chars@.len()),
    ensures
        out.within(chars@.len()),
        span.start <= out.start,
        out.end <= span.end,
        out.of(chars@) == trim(span.of(chars@)),
{
    let mut a: usize = span.start;
    while a < span.end && char_is_whitespace(chars[a])
        invariant
            span.within(chars@.len()),
            span.start <= a <= span.end,
            trim_start(span.of(chars@)) == trim_start(chars@.subrange(a as int, span.end as int)),
        decreases span.end - a,
    {
        proof {
            let cur = chars@.subrange(a as int, span.end as int);
            assert(cur.skip(1) =~= chars@.subrange(a + 1, span.end as int));
        }
        a = a + 1;
    }
    let mut b: usize = span.end;
    while a < b && char_is_whitespace(chars[b - 1])
        invariant
            span.within(chars@.len()),
            span.start <= a <= b <= span.end,
            trim(span.of(chars@)) == trim_end(chars@.subrange(a as int, b as int)),
        decreases b - a,
    {
        proof {
            let cur = chars@.subrange(a as int, b as int);
            assert(cur.drop_last() =~= chars@.subrange(a as int, b - 1));
        }
        b = b - 1;
    }
    Span { start: a, end: b }
}

/// The trimmed fields of a line, as spans of its characters.
pub fn field_spans(chars: &Vec<char>) -> (spans: Vec<Span>)
    ensures
        spans@.len() == fields_of(chars@).len(),
        forall|j: int|
            0 <= j < spans@.len() ==> (#[trigger] spans@[j]).within(chars@.len()) && spans@[j].of(
                chars@,
            ) == fields_of(chars@)[j],
{
    let mut spans: Vec<Span> = Vec::new();
    let mut start: usize = 0;
    let mut i: usize = 0;
    proof {
        assert(chars@.take(0) =~= Seq::<char>::empty());
        assert(chars@.subrange(0, 0) =~= Seq::<char>::empty());
    }
    while i < chars.len()
        invariant
            start <= i <= chars@.len(),
            split(chars@.take(i as int)).len() == spans@.len() + 1,
            split(chars@.take(i as int)).last() == chars@.subrange(start as int, i as int),
            forall|j: int|
                0 <= j < spans@.len() ==> (#[trigger] spans@[j]).within(chars@.len())
                    && spans@[j].of(chars@) == trim(split(chars@.take(i as int))[j]),
        decreases chars@.len() - i,
    {
        let ghost before = split(chars@.take(i as int));
        proof {
            assert(chars@.take(i + 1).drop_last() =~= chars@.take(i as int));
            assert(chars@.take(i + 1).last() == chars@[i as int]);
        }
        if chars[i] == SEPARATOR {
            let piece = trim_span(chars, Span { start, end: i });
            spans.push(piece);
            start = i + 1;
            proof {
                assert(chars@.subrange(i + 1, i + 1) =~= Seq::<char>::empty());
            }
        } else {
            proof {
                assert(chars@.subrange(start as int, i + 1) =~= before.last().push(chars@[i as int]));
            }
        }
        i = i + 1;
    }
    proof {
        assert(chars@.take(i as int) =~= chars@);
    }
    let piece = trim_span(chars, Span { start, end: i });
    spans.push(piece);
    spans
}

} // verus!
