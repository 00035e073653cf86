use vstd::prelude::*;
use vstd::slice::slice_subrange;

verus! {

/// The line feed that ends a line.
pub const LINE_FEED: u8 = 0x0a;

/// ASCII whitespace: space, horizontal tab, line feed, form feed and carriage
/// return.
pub open spec fn is_space(b: u8) -> bool {
    b == 0x20 || b == 0x09 || b == 0x0a || b == 0x0c || b == 0x0d
}

/// Past the whitespace that starts at `from`: the first position at or after
/// `from` that holds no whitespace, or the end of the text.
pub open spec fn skip_space(s: Seq<u8>, from: int) -> int
    decreases s.len() - from,
{
    if 0 <= from < s.len() && is_space(s[from]) {
        skip_space(s, from + 1)
    } else {
        from
    }
}

/// Past the word that starts at `from`: the first position at or after `from`
/// that holds whitespace, or the end of the text.
pub open spec fn skip_word(s: Seq<u8>, from: int) -> int
    decreases s.len() - from,
{
    if 0 <= from < s.len() && !is_space(s[from]) {
        skip_word(s, from + 1)
    } else {
        from
    }
}

/// Where the fields of the text lie from position `from` on: for each field,
/// in order, the position of its first byte and the position after its last.
pub open spec fn spans_from(s: Seq<u8>, from: int) -> Seq<(int, int)>
    decreases s.len() - from,
{
    let a = skip_space(s, from);
    if 0 <= from && a < s.len() {
        let b = skip_word(s, a);
        proof {
            lemma_skip_space(s, from);
            lemma_skip_word(s, a);
        }
        seq![(a, b)] + spans_from(s, b)
    } else {
        Seq::empty()
    }
}

/// Where the fields of a text lie.
pub open spec fn field_spans(s: Seq<u8>) -> Seq<(int, int)> {
    spans_from(s, 0)
}

/// The fields of a text: its maximal runs of bytes that are not ASCII
/// whitespace, in order. Any amount of whitespace separates two fields, and
/// whitespace at either end is ignored.
pub open spec fn fields(s: Seq<u8>) -> Seq<Seq<u8>> {
    Seq::new(field_spans(s).len(), |k: int| s.subrange(field_spans(s)[k].0, field_spans(s)[k].1))
}

/// The bytes from `a` up to `b` are a word of the text: a run of bytes that
/// are not whitespace, non-empty, with whitespace or an end of the text on
/// either side.
pub open spec fn is_word(s: Seq<u8>, a: int, b: int) -> bool {
    &&& 0 <= a < b <= s.len()
    &&& forall|j: int| a <= j < b ==> !is_space(#[trigger] s[j])
    &&& (a == 0 || is_space(s[a - 1]))
    &&& (b == s.len() || is_space(s[b]))
}

/// The first line of a text, without the line feed that ends it: the bytes
/// before the first line feed, or the whole text where it has none.
pub open spec fn first_line(s: Seq<u8>) -> Seq<u8> {
    match s.index_of_first(LINE_FEED) {
        Some(i) => s.subrange(0, i),
        None => s,
    }
}

/// The field of the first line with index `n`, counting from zero, if the
/// line has that many.
pub open spec fn first_line_field(s: Seq<u8>, n: int) -> Option<Seq<u8>> {
    let f = fields(first_line(s));
    if 0 <= n < f.len() {
        Some(f[n])
    } else {
        None
    }
}

/// The first line holds no line feed, so it is its own first line.
pub proof fn lemma_first_line_is_one_line(s: Seq<u8>)
    ensures
        !first_line(s).contains(LINE_FEED),
        first_line(first_line(s)) == first_line(s),
{
    s.index_of_first_ensures(LINE_FEED);
    let line = first_line(s);
    if line.contains(LINE_FEED) {
        let j = choose|j: int| 0 <= j < line.len() && line[j] == LINE_FEED;
        assert(s[j] == LINE_FEED);
        assert(s.contains(LINE_FEED));
    }
    line.index_of_first_ensures(LINE_FEED);
}

/// `skip_space` stops within the text, on a byte that is no whitespace or at
/// the end, and passes over whitespace only.
pub proof fn lemma_skip_space(s: Seq<u8>, from: int)
    requires
        0 <= from <= s.len(),
    ensures
        from <= skip_space(s, from) <= s.len(),
        skip_space(s, from) < s.len() ==> !is_space(s[skip_space(s, from)]),
        forall|j: int| from <= j < skip_space(s, from) ==> is_space(#[trigger] s[j]),
    decreases s.len() - from,
{
    if from < s.len() && is_space(s[from]) {
        lemma_skip_space(s, from + 1);
    }
}

/// `skip_word` stops within the text, on whitespace or at the end, and passes
/// over bytes that are no whitespace only.
pub proof fn lemma_skip_word(s: Seq<u8>, from: int)
    requires
        0 <= from <= s.len(),
    ensures
        from <= skip_word(s, from) <= s.len(),
        skip_word(s, from) < s.len() ==> is_space(s[skip_word(s, from)]),
        forall|j: int| from <= j < skip_word(s, from) ==> !is_space(#[trigger] s[j]),
        from < s.len() && !is_space(s[from]) ==> skip_word(s, from) > from,
    decreases s.len() - from,
{
    if from < s.len() && !is_space(s[from]) {
        lemma_skip_word(s, from + 1);
    }
}

/// The spans found from a word boundary on are words, lie at or after the
/// boundary, and each ends before the next begins.
proof fn lemma_spans_from_are_words(s: Seq<u8>, from: int, k: int)
    requires
        0 <= from <= s.len(),
        from == 0 || from == s.len() || is_space(s[from]),
        0 <= k < spans_from(s, from).len(),
    ensures
        is_word(s, spans_from(s, from)[k].0, spans_from(s, from)[k].1),
        from <= spans_from(s, from)[k].0,
        k + 1 < spans_from(s, from).len() ==> spans_from(s, from)[k].1 < spans_from(
            s,
            from,
        )[k + 1].0,
    decreases s.len() - from,
{
    let a = skip_space(s, from);
    lemma_skip_space(s, from);
    let b = skip_word(s, a);
    lemma_skip_word(s, a);
    let rest = spans_from(s, b);
    assert(spans_from(s, from) =~= seq![(a, b)] + rest);
    if a > from {
        assert(is_space(s[a - 1]));
    }
    if k > 0 {
        lemma_spans_from_are_words(s, b, k - 1);
    } else if rest.len() > 0 {
        lemma_spans_from_are_words(s, b, 0);
    }
}

/// Every byte at or after `from` that is no whitespace lies in one of the
/// spans found from there on.
proof fn lemma_spans_from_cover(s: Seq<u8>, from: int, i: int) -> (k: int)
    requires
        0 <= from <= i < s.len(),
        !is_space(s[i]),
    ensures
        0 <= k < spans_from(s, from).len(),
        spans_from(s, from)[k].0 <= i < spans_from(s, from)[k].1,
    decreases s.len() - from,
{
    let a = skip_space(s, from);
    lemma_skip_space(s, from);
    let b = skip_word(s, a);
    lemma_skip_word(s, a);
    assert(a <= i) by {
        if i < a {
            assert(is_space(s[i]));
        }
    }
    assert(spans_from(s, from) =~= seq![(a, b)] + spans_from(s, b));
    if i < b {
        0
    } else {
        lemma_spans_from_cover(s, b, i) + 1
    }
}

/// Every field is a word of the text: a non-empty run of bytes that are not
/// whitespace, which whitespace or an end of the text bounds on either side.
pub proof fn lemma_fields_are_words(s: Seq<u8>, k: int)
    requires
        0 <= k < field_spans(s).len(),
    ensures
        is_word(s, field_spans(s)[k].0, field_spans(s)[k].1),
{
    lemma_spans_from_are_words(s, 0, k);
}

/// The fields come in the order of the text, and whitespace lies between one
/// and the next.
pub proof fn lemma_fields_in_order(s: Seq<u8>, k: int)
    requires
        0 <= k,
        k + 1 < field_spans(s).len(),
    ensures
        field_spans(s)[k].1 < field_spans(s)[k + 1].0,
{
    lemma_spans_from_are_words(s, 0, k);
}

/// No byte is left out: each byte of the text that is no whitespace lies in
/// one of its fields.
pub proof fn lemma_fields_cover_words(s: Seq<u8>, i: int)
    requires
        0 <= i < s.len(),
        !is_space(s[i]),
    ensures
        exists|k: int|
            0 <= k < field_spans(s).len() && (#[trigger] field_spans(s)[k]).0 <= i < field_spans(
                s,
            )[k].1,
{
    let k = lemma_spans_from_cover(s, 0, i);
    assert(field_spans(s)[k].0 <= i < field_spans(s)[k].1);
}

/// Whether a byte is ASCII whitespace.
pub fn is_space_byte(b: u8) -> (r: bool)
    ensures
        r == is_space(b),
{
    b == 0x20 || b == 0x09 || b == 0x0a || b == 0x0c || b == 0x0d
}

/// The length of the first line of `bytes`: the position of its first line
/// feed, or its length where it has none.
pub fn first_line_len(bytes: &[u8]) -> (end: usize)
    ensures
        end <= bytes@.len(),
        end == first_line(bytes@).len(),
        bytes@.subrange(0, end as int) == first_line(bytes@),
{
    let n = bytes.len();
    let mut end: usize = 0;
    while end < n && bytes[end] != LINE_FEED
        invariant
            end <= n,
            n == bytes@.len(),
            forall|j: int| 0 <= j < end ==> bytes@[j] != LINE_FEED,
        decreases n - end,
    {
        end += 1;
    }
    proof {
        bytes@.index_of_first_ensures(LINE_FEED);
        if end == n {
            assert(bytes@.subrange(0, end as int) =~= bytes@);
        }
    }
    end
}

/// Finds the field of `bytes` with index `n`, counting from zero: the
/// position of its first byte and the position after its last. There is none
/// when the text has `n` fields or fewer.
pub fn nth_field(bytes: &[u8], n: usize) -> (r: Option<(usize, usize)>)
    ensures
        match r {
            Some((a, b)) => n < field_spans(bytes@).len() && field_spans(bytes@)[n as int] == (
                a as int,
                b as int,
            ) && a < b <= bytes@.len(),
            None => n >= field_spans(bytes@).len(),
        },
{
    let len = bytes.len();
    let mut pos: usize = 0;
    let mut k: usize = 0;
    loop
        invariant
            len == bytes@.len(),
            pos <= len,
            k <= n,
            k <= field_spans(bytes@).len(),
            field_spans(bytes@).skip(k as int) =~= spans_from(bytes@, pos as int),
        decreases len - pos,
    {
        let mut a: usize = pos;
        while a < len && is_space_byte(bytes[a])
            invariant
                len == bytes@.len(),
                pos <= a <= len,
                skip_space(bytes@, a as int) == skip_space(bytes@, pos as int),
            decreases len - a,
        {
            a += 1;
        }
        if a >= len {
            return None;
        }
        let mut b: usize = a + 1;
        while b < len && !is_space_byte(bytes[b])
            invariant
                len == bytes@.len(),
                a < b <= len,
                !is_space(bytes@[a as int]),
                skip_word(bytes@, b as int) == skip_word(bytes@, a as int),
            decreases len - b,
        {
            b += 1;
        }
        proof {
            let rest = spans_from(bytes@, pos as int);
            assert(rest =~= seq![(a as int, b as int)] + spans_from(bytes@, b as int));
            assert(rest.skip(1) =~= spans_from(bytes@, b as int));
            assert(field_spans(bytes@).skip(k as int)[0] == rest[0]);
            assert(field_spans(bytes@).skip(k + 1) =~= field_spans(bytes@).skip(k as int).skip(1));
        }
        if k == n {
            return Some((a, b));
        }
        k += 1;
        pos = b;
    }
}

/// The field of the first line of `bytes` with index `n`, if the line has
/// that many.
pub fn line_field(bytes: &[u8], n: usize) -> (r: Option<&[u8]>)
    ensures
        match first_line_field(bytes@, n as int) {
            Some(field) => r is Some && r->Some_0@ == field,
            None => r is None,
        },
{
    let end = first_line_len(bytes);
    let line = slice_subrange(bytes, 0, end);
    match nth_field(line, n) {
        Some((a, b)) => Some(slice_subrange(line, a, b)),
        None => None,
    }
}

} // verus!
