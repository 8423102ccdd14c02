//! White space at the ends of a byte string.
//!
//! The control protocol and the device nodes both carry short texts that
//! may be wrapped in white space. White space is the Unicode property of
//! that name, met here in its UTF-8 encoding; a byte that belongs to no such
//! character is never white space.

use vstd::prelude::*;
use vstd::slice::slice_subrange;

verus! {

/// A white-space character of one byte: tab to carriage return, or space.
pub open spec fn is_space1(b0: u8) -> bool {
    (0x09 <= b0 <= 0x0D) || b0 == 0x20
}

/// A white-space character of two bytes: next line, or no-break space.
pub open spec fn is_space2(b0: u8, b1: u8) -> bool {
    b0 == 0xC2 && (b1 == 0x85 || b1 == 0xA0)
}

/// A white-space character of three bytes: the Ogham space mark, the spaces
/// and separators of the general punctuation block, or the ideographic space.
pub open spec fn is_space3(b0: u8, b1: u8, b2: u8) -> bool {
    ||| (b0 == 0xE1 && b1 == 0x9A && b2 == 0x80)
    ||| (b0 == 0xE2 && b1 == 0x80 && ((0x80 <= b2 <= 0x8A) || b2 == 0xA8 || b2 == 0xA9 || b2
        == 0xAF))
    ||| (b0 == 0xE2 && b1 == 0x81 && b2 == 0x9F)
    ||| (b0 == 0xE3 && b1 == 0x80 && b2 == 0x80)
}

/// The length of the white-space character at the front of `s`, or 0.
pub open spec fn leading_space(s: Seq<u8>) -> nat {
    if s.len() >= 1 && is_space1(s[0]) {
        1
    } else if s.len() >= 2 && is_space2(s[0], s[1]) {
        2
    } else if s.len() >= 3 && is_space3(s[0], s[1], s[2]) {
        3
    } else {
        0
    }
}

/// The length of the white-space character at the back of `s`, or 0.
pub open spec fn trailing_space(s: Seq<u8>) -> nat {
    let n = s.len() as int;
    if n >= 1 && is_space1(s[n - 1]) {
        1
    } else if n >= 2 && is_space2(s[n - 2], s[n - 1]) {
        2
    } else if n >= 3 && is_space3(s[n - 3], s[n - 2], s[n - 1]) {
        3
    } else {
        0
    }
}

/// `s` without the white space at its front.
pub open spec fn trim_start(s: Seq<u8>) -> Seq<u8>
    decreases s.len(),
{
    let n = leading_space(s);
    if n == 0 {
        s
    } else {
        trim_start(s.skip(n as int))
    }
}

/// `s` without the white space at its back.
pub open spec fn trim_end(s: Seq<u8>) -> Seq<u8>
    decreases s.len(),
{
    let n = trailing_space(s);
    if n == 0 {
        s
    } else {
        trim_end(s.take(s.len() - n))
    }
}

/// `s` without the white space at either end.
pub open spec fn trimmed(s: Seq<u8>) -> Seq<u8> {
    trim_end(trim_start(s))
}

/// Whether `s` is made of white-space characters only.
pub open spec fn is_blank(s: Seq<u8>) -> bool
    decreases s.len(),
{
    s.len() == 0 || (leading_space(s) > 0 && is_blank(s.skip(leading_space(s) as int)))
}

/// The white-space character at the front of a text is found from its own
/// bytes alone: what follows them does not matter.
pub proof fn lemma_leading_space_of_prefix(s: Seq<u8>, t: Seq<u8>)
    requires
        leading_space(s) > 0,
        t.len() >= leading_space(s),
        t.take(leading_space(s) as int) == s.take(leading_space(s) as int),
    ensures
        leading_space(t) == leading_space(s),
{
    let n = leading_space(s) as int;
    assert forall|i: int| 0 <= i < n implies t[i] == s[i] by {
        assert(t.take(n)[i] == s.take(n)[i]);
    }
}

/// White space in front of a text is trimmed away, whatever the text.
pub proof fn lemma_trim_start_skips_blank(p: Seq<u8>, rest: Seq<u8>)
    requires
        is_blank(p),
    ensures
        trim_start(p + rest) == trim_start(rest),
    decreases p.len(),
{
    if p.len() == 0 {
        assert(p + rest =~= rest);
    } else {
        let n = leading_space(p) as int;
        assert((p + rest).take(n) =~= p.take(n));
        lemma_leading_space_of_prefix(p, p + rest);
        assert((p + rest).skip(n) =~= p.skip(n) + rest);
        lemma_trim_start_skips_blank(p.skip(n), rest);
    }
}

/// The last character of a text of white space is found from the back as
/// it is from the front, whatever stands before the text, and what is left
/// without it is white space again.
pub proof fn lemma_blank_from_the_back(q: Seq<u8>, before: Seq<u8>)
    requires
        is_blank(q),
        q.len() > 0,
    ensures
        0 < trailing_space(q) <= q.len(),
        trailing_space(before + q) == trailing_space(q),
        is_blank(q.take(q.len() - trailing_space(q))),
    decreases q.len(),
{
    let n = leading_space(q) as int;
    let rest = q.skip(n);
    let whole = before + q;
    let shift = before.len() as int;
    assert forall|i: int| 0 <= i < q.len() implies whole[shift + i] == q[i] by {}
    if rest.len() == 0 {
        assert(q.len() == n);
        assert(q.take(0) =~= Seq::<u8>::empty());
    } else {
        lemma_blank_from_the_back(rest, q.take(n));
        lemma_blank_from_the_back(rest, before + q.take(n));
        assert(q.take(n) + rest =~= q);
        assert((before + q.take(n)) + rest =~= whole);
        let m = trailing_space(rest) as int;
        let kept = q.take(q.len() - m);
        assert(kept.take(n) =~= q.take(n));
        lemma_leading_space_of_prefix(q, kept);
        assert(kept.skip(n) =~= rest.take(rest.len() - m));
    }
}

/// White space behind a text is trimmed away, whatever the text.
pub proof fn lemma_trim_end_skips_blank(rest: Seq<u8>, q: Seq<u8>)
    requires
        is_blank(q),
    ensures
        trim_end(rest + q) == trim_end(rest),
    decreases q.len(),
{
    if q.len() == 0 {
        assert(rest + q =~= rest);
    } else {
        lemma_blank_from_the_back(q, rest);
        let m = trailing_space(q) as int;
        let shorter = q.take(q.len() - m);
        assert((rest + q).take((rest + q).len() - m) =~= rest + shorter);
        lemma_trim_end_skips_blank(rest, shorter);
    }
}

/// A text that does not begin with white space does not do so either when
/// white space follows it.
pub proof fn lemma_no_leading_space_before_blank(w: Seq<u8>, q: Seq<u8>)
    requires
        w.len() > 0,
        leading_space(w) == 0,
        is_blank(q),
    ensures
        leading_space(w + q) == 0,
{
    let t = w + q;
    assert forall|i: int| 0 <= i < w.len() implies t[i] == w[i] by {}
    if q.len() > 0 {
        assert(leading_space(q) > 0);
        assert(t[w.len() as int] == q[0]);
        if q.len() > 1 {
            assert(t[(w.len() + 1) as int] == q[1]);
        }
    } else {
        assert(t =~= w);
    }
}

/// A text of white space trims to nothing.
pub proof fn lemma_trim_blank(s: Seq<u8>)
    requires
        is_blank(s),
    ensures
        trimmed(s) == Seq::<u8>::empty(),
{
    let nothing = Seq::<u8>::empty();
    lemma_trim_start_skips_blank(s, nothing);
    assert(s + nothing =~= s);
    assert(trim_start(nothing) == nothing);
    assert(trim_end(nothing) == nothing);
}

/// A text without white space at its ends is what is left of it when it is
/// wrapped in white space and trimmed.
pub proof fn lemma_trim_wrapped(p: Seq<u8>, w: Seq<u8>, q: Seq<u8>)
    requires
        is_blank(p),
        is_blank(q),
        w.len() > 0,
        leading_space(w) == 0,
        trailing_space(w) == 0,
    ensures
        trimmed(p + w + q) == w,
{
    assert(p + w + q =~= p + (w + q));
    lemma_trim_start_skips_blank(p, w + q);
    lemma_no_leading_space_before_blank(w, q);
    assert(trim_start(w + q) == w + q);
    lemma_trim_end_skips_blank(w, q);
}

fn space_from(s: &[u8], from: usize, to: usize) -> (n: usize)
    requires
        from <= to <= s.len(),
    ensures
        n == leading_space(s@.subrange(from as int, to as int)),
        from + n <= to,
{
    let len: usize = to - from;
    if len >= 1 && ((0x09 <= s[from] && s[from] <= 0x0D) || s[from] == 0x20) {
        1
    } else if len >= 2 && s[from] == 0xC2 && (s[from + 1] == 0x85 || s[from + 1] == 0xA0) {
        2
    } else if len >= 3 && is_wide_space(s[from], s[from + 1], s[from + 2]) {
        3
    } else {
        0
    }
}

fn space_until(s: &[u8], from: usize, to: usize) -> (n: usize)
    requires
        from <= to <= s.len(),
    ensures
        n == trailing_space(s@.subrange(from as int, to as int)),
        from + n <= to,
{
    let len: usize = to - from;
    if len >= 1 && ((0x09 <= s[to - 1] && s[to - 1] <= 0x0D) || s[to - 1] == 0x20) {
        1
    } else if len >= 2 && s[to - 2] == 0xC2 && (s[to - 1] == 0x85 || s[to - 1] == 0xA0) {
        2
    } else if len >= 3 && is_wide_space(s[to - 3], s[to - 2], s[to - 1]) {
        3
    } else {
        0
    }
}

fn is_wide_space(b0: u8, b1: u8, b2: u8) -> (yes: bool)
    ensures
        yes == is_space3(b0, b1, b2),
{
    (b0 == 0xE1 && b1 == 0x9A && b2 == 0x80) || (b0 == 0xE2 && b1 == 0x80 && ((0x80 <= b2 && b2
        <= 0x8A) || b2 == 0xA8 || b2 == 0xA9 || b2 == 0xAF)) || (b0 == 0xE2 && b1 == 0x81 && b2
        == 0x9F) || (b0 == 0xE3 && b1 == 0x80 && b2 == 0x80)
}

/// Finds where the text of `s` begins and ends once the white space at both
/// ends is left out.
pub fn trim_bounds(s: &[u8]) -> (bounds: (usize, usize))
    ensures
        bounds.0 <= bounds.1 <= s.len(),
        s@.subrange(bounds.0 as int, bounds.1 as int) == trimmed(s@),
{
    let len = s.len();
    let mut start: usize = 0;
    assert(s@ =~= s@.subrange(0, len as int));
    loop
        invariant
            len == s.len(),
            start <= len,
            trim_start(s@) == trim_start(s@.subrange(start as int, len as int)),
        ensures
            start <= len,
            trim_start(s@) == s@.subrange(start as int, len as int),
        decreases len - start,
    {
        let n = space_from(s, start, len);
        if n == 0 {
            break ;
        }
        assert(s@.subrange(start as int, len as int).skip(n as int) =~= s@.subrange(
            start + n,
            len as int,
        ));
        start = start + n;
    }
    let mut end: usize = len;
    loop
        invariant
            len == s.len(),
            start <= end <= len,
            trimmed(s@) == trim_end(s@.subrange(start as int, end as int)),
        ensures
            start <= end <= len,
            trimmed(s@) == s@.subrange(start as int, end as int),
        decreases end - start,
    {
        let n = space_until(s, start, end);
        if n == 0 {
            break ;
        }
        assert(s@.subrange(start as int, end as int).take(end - start - n) =~= s@.subrange(
            start as int,
            end - n,
        ));
        end = end - n;
    }
    (start, end)
}

/// Returns the part of `s` between the white space at its two ends.
pub fn trim(s: &[u8]) -> (text: &[u8])
    ensures
        text@ == trimmed(s@),
{
    let (start, end) = trim_bounds(s);
    slice_subrange(s, start, end)
}

/// Tells whether two byte strings are the same.
pub fn same_bytes(a: &[u8], b: &[u8]) -> (same: bool)
    ensures
        same == (a@ == b@),
{
    if a.len() != b.len() {
        return false;
    }
    let mut i: usize = 0;
    while i < a.len()
        invariant
            a.len() == b.len(),
            i <= a.len(),
            forall|k: int| 0 <= k < i ==> a@[k] == b@[k],
        decreases a.len() - i,
    {
        if a[i] != b[i] {
            return false;
        }
        i = i + 1;
    }
    assert(a@ =~= b@);
    true
}

} // verus!
