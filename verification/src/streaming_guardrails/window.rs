//! The windows that guardrails look at.

use vstd::prelude::*;
use vstd::string::*;
use vstd::utf8::*;

verus! {

/// How many bytes of text are gathered before they are looked at.
pub const DEFAULT_EVAL_THRESHOLD: usize = 1024;

/// How many bytes of the text that was looked at before a window begins with, at most.
pub const OVERLAP_BYTES: usize = 256;

/// The number of bytes of a text.
pub open spec fn text_bytes(s: Seq<char>) -> nat {
    encode_utf8(s).len()
}

/// The end of a text: the longest one of at most `max` bytes that does not cut a character.
pub open spec fn tail_text(s: Seq<char>, max: nat) -> Seq<char>
    decreases s.len(),
{
    if s.len() == 0 || text_bytes(s) <= max {
        s
    } else {
        tail_text(s.skip(1), max)
    }
}

/// Texts that follow each other have the bytes of each.
pub proof fn lemma_encode_append(a: Seq<char>, b: Seq<char>)
    ensures
        encode_utf8(a + b) == encode_utf8(a) + encode_utf8(b),
    decreases a.len(),
{
    if a.len() == 0 {
        assert(a + b =~= b);
        assert(encode_utf8(a) =~= Seq::empty());
        assert(encode_utf8(a) + encode_utf8(b) =~= encode_utf8(b));
    } else {
        assert((a + b).drop_first() =~= a.drop_first() + b);
        lemma_encode_append(a.drop_first(), b);
        assert(encode_utf8(a + b) =~= encode_utf8(a) + encode_utf8(b));
    }
}

/// A character begins where the text before it ends.
proof fn lemma_boundary(a: Seq<char>, b: Seq<char>)
    ensures
        is_char_boundary(encode_utf8(a + b), encode_utf8(a).len() as int),
    decreases a.len(),
{
    broadcast use encode_utf8_valid_utf8;

    let bytes = encode_utf8(a + b);
    if a.len() == 0 {
        assert(encode_utf8(a) =~= Seq::empty());
    } else {
        let rest = a.drop_first() + b;
        assert((a + b).drop_first() =~= rest);
        encode_utf8_first_scalar(a + b);
        lemma_boundary(a.drop_first(), b);
        lemma_encode_append(a, b);
        assert(pop_first_scalar(bytes) =~= encode_utf8(rest));
        assert(encode_utf8(a).len() == encode_scalar(a[0] as u32).len() + encode_utf8(
            a.drop_first(),
        ).len());
    }
}

/// The end of a text begins after the shortest beginning that leaves at most `max` bytes.
proof fn lemma_tail_is_skip(s: Seq<char>, max: nat, k: int)
    requires
        0 <= k <= s.len(),
        text_bytes(s.skip(k)) <= max,
        forall|j: int| 0 <= j < k ==> text_bytes(#[trigger] s.skip(j)) > max,
    ensures
        tail_text(s, max) == s.skip(k),
    decreases k,
{
    assert(s.skip(0) =~= s);
    if k > 0 {
        let t = s.skip(1);
        assert(t.skip(k - 1) =~= s.skip(k));
        assert forall|j: int| 0 <= j < k - 1 implies text_bytes(#[trigger] t.skip(j)) > max by {
            assert(t.skip(j) =~= s.skip(j + 1));
        }
        lemma_tail_is_skip(t, max, k - 1);
    }
}

/// The number of bytes of a text, computed.
pub fn byte_len(s: &str) -> (r: usize)
    ensures
        r == text_bytes(s@),
{
    s.as_bytes().len()
}

/// The last `max_bytes` bytes of a text, or fewer where they would cut a character.
pub fn tail_chars(s: &str, max_bytes: usize) -> (r: &str)
    ensures
        r@ == tail_text(s@, max_bytes as nat),
{
    broadcast use encode_utf8_valid_utf8;

    let len: usize = byte_len(s);
    let ghost bytes = s.spec_bytes();
    if len <= max_bytes {
        return s;
    }
    proof {
        is_char_boundary_start_end_of_seq(bytes);
    }
    let base: usize = len - max_bytes;
    let mut start: usize = base;
    while !s.is_char_boundary(start)
        invariant
            bytes == s.spec_bytes(),
            len == bytes.len(),
            base <= start <= len,
            is_char_boundary(bytes, len as int),
            forall|i: int| base <= i < start ==> !is_char_boundary(bytes, i),
        decreases len - start,
    {
        start += 1;
    }
    let parts = s.split_at(start);
    let r = parts.1;
    proof {
        let k = lemma_split(s@, start as int, parts.0@, r@);
        assert forall|j: int| 0 <= j < k implies text_bytes(#[trigger] s@.skip(j)) > max_bytes by {
            let before = s@.take(j);
            assert(before + s@.skip(j) =~= s@);
            lemma_encode_append(before, s@.skip(j));
            lemma_boundary(before, s@.skip(j));
            let middle = s@.subrange(j, k);
            assert(before + middle =~= s@.take(k));
            lemma_encode_append(before, middle);
            encode_utf8_first_scalar(middle);
            assert(encode_utf8(middle).len() > 0);
            assert(parts.0@ =~= s@.take(k));
        }
        lemma_tail_is_skip(s@, max_bytes as nat, k);
    }
    r
}

/// A text that is split where a character begins is split between characters.
proof fn lemma_split(s: Seq<char>, start: int, a: Seq<char>, b: Seq<char>) -> (k: int)
    requires
        is_char_boundary(encode_utf8(s), start),
        0 <= start <= encode_utf8(s).len(),
        encode_utf8(a) == encode_utf8(s).subrange(0, start),
        encode_utf8(b) == encode_utf8(s).subrange(start, encode_utf8(s).len() as int),
    ensures
        0 <= k <= s.len(),
        a == s.take(k),
        b == s.skip(k),
{
    broadcast use encode_utf8_valid_utf8;

    let bytes = encode_utf8(s);
    decode_utf8_split(bytes, start);
    encode_utf8_decode_utf8(s);
    encode_utf8_decode_utf8(a);
    encode_utf8_decode_utf8(b);
    assert(s == a + b);
    assert(a =~= s.take(a.len() as int));
    assert(b =~= s.skip(a.len() as int));
    a.len() as int
}

/// The end of a text ends it and fits.
pub proof fn law_tail_ends_the_text(s: Seq<char>, max: nat)
    ensures
        tail_text(s, max).len() <= s.len(),
        tail_text(s, max) == s.skip(s.len() - tail_text(s, max).len()),
        text_bytes(tail_text(s, max)) <= max,
    decreases s.len(),
{
    assert(s.skip(0) =~= s);
    if s.len() > 0 && text_bytes(s) > max {
        let t = s.skip(1);
        law_tail_ends_the_text(t, max);
        let n = tail_text(t, max).len();
        assert(t.skip(t.len() - n) =~= s.skip(s.len() - n));
    }
}

/// No longer end of a text fits: one of at most `max` bytes is within it.
pub proof fn law_tail_is_longest(s: Seq<char>, max: nat, k: int)
    requires
        0 <= k <= s.len(),
        text_bytes(s.skip(k)) <= max,
    ensures
        s.len() - k <= tail_text(s, max).len(),
    decreases s.len(),
{
    assert(s.skip(0) =~= s);
    if s.len() > 0 && text_bytes(s) > max {
        assert(k > 0);
        let t = s.skip(1);
        assert(t.skip(k - 1) =~= s.skip(k));
        law_tail_is_longest(t, max, k - 1);
    }
}

/// Keeping the end of a text and adding to it keeps the end of all of it: however many batches
/// there were, a window begins with the end of everything that was looked at before.
pub proof fn law_tail_of_all_text(a: Seq<char>, b: Seq<char>, max: nat)
    ensures
        tail_text(tail_text(a, max) + b, max) == tail_text(a + b, max),
    decreases a.len(),
{
    if a.len() > 0 && text_bytes(a) > max {
        let t = a.skip(1);
        law_tail_of_all_text(t, b, max);
        lemma_encode_append(a, b);
        assert((a + b).skip(1) =~= t + b);
    }
}

/// A pattern is not missed for standing on the border of two batches: where what stands of it
/// before the border has at most `max` bytes, the window holds all of it.
pub proof fn law_window_holds_patterns_on_the_border(
    seen: Seq<char>,
    batch: Seq<char>,
    from: int,
    to: int,
    max: nat,
)
    requires
        0 <= from <= seen.len() <= to <= seen.len() + batch.len(),
        text_bytes(seen.skip(from)) <= max,
    ensures
        ({
            let window = tail_text(seen, max) + batch;
            let shift = seen.len() - tail_text(seen, max).len();
            &&& 0 <= from - shift
            &&& to - shift <= window.len()
            &&& window.subrange(from - shift, to - shift) == (seen + batch).subrange(from, to)
        }),
{
    law_tail_is_longest(seen, max, from);
    law_tail_ends_the_text(seen, max);
    let tail = tail_text(seen, max);
    let shift = seen.len() - tail.len();
    let window = tail + batch;
    let all = seen + batch;
    assert(window =~= all.skip(shift));
    assert(window.subrange(from - shift, to - shift) =~= all.subrange(from, to));
}

/// The size of a text is the number of bytes of its UTF-8 form: texts that follow each other have
/// the sizes of both, and no character is smaller than a byte.
pub proof fn law_sizes_are_those_of_the_bytes(a: Seq<char>, b: Seq<char>)
    ensures
        text_bytes(a) == encode_utf8(a).len(),
        text_bytes(a + b) == text_bytes(a) + text_bytes(b),
        text_bytes(a) >= a.len(),
    decreases a.len(),
{
    lemma_encode_append(a, b);
    if a.len() > 0 {
        law_sizes_are_those_of_the_bytes(a.drop_first(), b);
        assert(encode_utf8(a).len() == encode_scalar(a[0] as u32).len() + encode_utf8(
            a.drop_first(),
        ).len());
        encode_utf8_first_scalar(a);
    }
}

} // verus!
