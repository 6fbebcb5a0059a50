//! Text helpers shared by the other modules: strings seen as sequences of characters.

use vstd::prelude::*;
use vstd::string::*;

verus! {

/// Appends one character to a string (`String::push`).
///
/// Trusted: the string afterwards holds what it held before, followed by the character.
#[verifier::external_body]
pub(crate) fn push_char(s: &mut String, c: char)
    ensures
        final(s)@ == old(s)@.push(c),
{
    s.push(c)
}

/// The characters of a string, in order.
pub fn chars_of(s: &str) -> (r: Vec<char>)
    ensures
        r@ == s@,
{
    let mut out: Vec<char> = Vec::new();
    for c in it: s.chars()
        invariant
            out@ == s@.take(it.index()),
            it.seq() == s@,
    {
        out.push(c);
    }
    out
}

/// The string made of the characters `chars[from..to]`.
pub fn string_of(chars: &Vec<char>, from: usize, to: usize) -> (r: String)
    requires
        from <= to <= chars@.len(),
    ensures
        r@ == chars@.subrange(from as int, to as int),
{
    let mut out = String::new();
    let mut i: usize = from;
    while i < to
        invariant
            from <= i <= to <= chars@.len(),
            out@ == chars@.subrange(from as int, i as int),
        decreases to - i,
    {
        push_char(&mut out, chars[i]);
        i += 1;
        assert(chars@.subrange(from as int, i as int) =~= chars@.subrange(
            from as int,
            i - 1,
        ).push(chars@[i - 1]));
    }
    out
}

/// Whether two strings hold the same characters.
pub fn str_eq(a: &str, b: &str) -> (r: bool)
    ensures
        r == (a@ == b@),
{
    a.to_owned() == b.to_owned()
}

/// The ASCII lower-case form of one character: `A` to `Z` become `a` to `z`, every other
/// character stays as it is.
pub open spec fn ascii_lower(c: char) -> char {
    if 'A' <= c && c <= 'Z' {
        (c as u32 + 32) as char
    } else {
        c
    }
}

/// The ASCII lower-case form of a text.
pub open spec fn ascii_lower_seq(s: Seq<char>) -> Seq<char> {
    s.map_values(|c: char| ascii_lower(c))
}

/// [`ascii_lower`], computed.
pub fn lower_char(c: char) -> (r: char)
    ensures
        r == ascii_lower(c),
{
    if 'A' <= c && c <= 'Z' {
        ((c as u8) + 32) as char
    } else {
        c
    }
}

/// Lower-cases the ASCII letters of `s[from..to]`.
pub fn lower_range(s: &Vec<char>, from: usize, to: usize) -> (r: String)
    requires
        from <= to <= s@.len(),
    ensures
        r@ == ascii_lower_seq(s@.subrange(from as int, to as int)),
{
    let mut out = String::new();
    let mut i: usize = from;
    while i < to
        invariant
            from <= i <= to <= s@.len(),
            out@ == ascii_lower_seq(s@.subrange(from as int, i as int)),
        decreases to - i,
    {
        push_char(&mut out, lower_char(s[i]));
        i += 1;
        assert(ascii_lower_seq(s@.subrange(from as int, i as int)) =~= ascii_lower_seq(
            s@.subrange(from as int, i - 1),
        ).push(ascii_lower(s@[i - 1])));
    }
    out
}

/// Whether `s` starts with `prefix`.
pub open spec fn starts_with(s: Seq<char>, prefix: Seq<char>) -> bool {
    prefix.len() <= s.len() && s.take(prefix.len() as int) == prefix
}

/// Whether `s` ends with `suffix`.
pub open spec fn ends_with(s: Seq<char>, suffix: Seq<char>) -> bool {
    suffix.len() <= s.len() && s.skip(s.len() - suffix.len()) == suffix
}

/// [`starts_with`], computed.
pub fn has_prefix(s: &Vec<char>, prefix: &Vec<char>) -> (r: bool)
    ensures
        r == starts_with(s@, prefix@),
{
    if prefix.len() > s.len() {
        return false;
    }
    let mut i: usize = 0;
    while i < prefix.len()
        invariant
            i <= prefix@.len() <= s@.len(),
            forall|j: int| 0 <= j < i ==> s@[j] == prefix@[j],
        decreases prefix.len() - i,
    {
        if s[i] != prefix[i] {
            assert(s@.take(prefix@.len() as int)[i as int] != prefix@[i as int]);
            return false;
        }
        i += 1;
    }
    assert(s@.take(prefix@.len() as int) =~= prefix@);
    true
}

/// [`ends_with`], computed.
pub fn has_suffix(s: &Vec<char>, suffix: &Vec<char>) -> (r: bool)
    ensures
        r == ends_with(s@, suffix@),
{
    if suffix.len() > s.len() {
        return false;
    }
    let base: usize = s.len() - suffix.len();
    let mut i: usize = 0;
    while i < suffix.len()
        invariant
            i <= suffix@.len(),
            base + suffix.len() == s.len(),
            forall|j: int| 0 <= j < i ==> s@[base + j] == suffix@[j],
        decreases suffix.len() - i,
    {
        if s[base + i] != suffix[i] {
            assert(s@.skip(base as int)[i as int] != suffix@[i as int]);
            return false;
        }
        i += 1;
    }
    assert(s@.skip(base as int) =~= suffix@);
    true
}

/// Where `c` first stands in `s[from..to]`, if it stands there at all.
pub fn find_char(s: &Vec<char>, c: char, from: usize, to: usize) -> (r: Option<usize>)
    requires
        from <= to <= s@.len(),
    ensures
        match r {
            Some(i) => from <= i < to && s@[i as int] == c && forall|j: int|
                from <= j < i ==> s@[j] != c,
            None => forall|j: int| from <= j < to ==> s@[j] != c,
        },
{
    let mut i: usize = from;
    while i < to
        invariant
            from <= i <= to <= s@.len(),
            forall|j: int| from <= j < i ==> s@[j] != c,
        decreases to - i,
    {
        if s[i] == c {
            return Some(i);
        }
        i += 1;
    }
    None
}

/// Whether `needle` stands in `s` at `i`.
pub open spec fn occurs_at(s: Seq<char>, needle: Seq<char>, i: int) -> bool {
    0 <= i && i + needle.len() <= s.len() && s.subrange(i, i + needle.len() as int) == needle
}

/// Whether `needle` stands somewhere in `s`.
pub open spec fn contains_text(s: Seq<char>, needle: Seq<char>) -> bool {
    exists|i: int| occurs_at(s, needle, i)
}

/// [`contains_text`], computed.
pub fn text_contains(s: &str, needle: &str) -> (r: bool)
    ensures
        r == contains_text(s@, needle@),
{
    let hay = chars_of(s);
    let pin = chars_of(needle);
    if pin.len() > hay.len() {
        assert forall|i: int| !occurs_at(s@, needle@, i) by {}
        return false;
    }
    let last: usize = hay.len() - pin.len();
    let mut i: usize = last;
    loop
        invariant
            hay@ == s@,
            pin@ == needle@,
            last + pin.len() == hay.len(),
            i <= last,
            forall|j: int| j > i ==> !occurs_at(s@, needle@, j),
        decreases i,
    {
        let mut k: usize = 0;
        while k < pin.len() && hay[i + k] == pin[k]
            invariant
                hay@ == s@,
                pin@ == needle@,
                last + pin.len() == hay.len(),
                i <= last,
                k <= pin.len(),
                forall|j: int| 0 <= j < k ==> hay@[i + j] == pin@[j],
            decreases pin.len() - k,
        {
            k += 1;
        }
        if k == pin.len() {
            assert(s@.subrange(i as int, i + needle@.len() as int) =~= needle@);
            assert(occurs_at(s@, needle@, i as int));
            return true;
        }
        assert(!occurs_at(s@, needle@, i as int)) by {
            if occurs_at(s@, needle@, i as int) {
                assert(s@.subrange(i as int, i + needle@.len() as int)[k as int] == needle@[k as int]);
            }
        }
        if i == 0 {
            assert forall|j: int| !occurs_at(s@, needle@, j) by {}
            return false;
        }
        i -= 1;
    }
}

/// Reads bytes as UTF-8 (`std::str::from_utf8`).
///
/// Trusted: there is a text exactly where the bytes are valid UTF-8, and it is the text that they
/// encode.
#[verifier::external_body]
pub(crate) fn utf8_text(data: &[u8]) -> (r: Option<String>)
    ensures
        match r {
            Some(text) => vstd::utf8::valid_utf8(data@) && text@ == vstd::utf8::decode_utf8(data@),
            None => !vstd::utf8::valid_utf8(data@),
        },
{
    std::str::from_utf8(data).ok().map(|s| s.to_owned())
}

/// Whether a character is white space.
pub uninterp spec fn is_white(c: char) -> bool;

/// Whether a character is white space (`char::is_whitespace`).
///
/// Trusted: the answer depends on the character alone, and a space is white space.
#[verifier::external_body]
fn white(c: char) -> (r: bool)
    ensures
        r == is_white(c),
        c == ' ' ==> r,
{
    c.is_whitespace()
}

/// A text without the white space at its beginning.
pub open spec fn trim_front(s: Seq<char>) -> Seq<char>
    decreases s.len(),
{
    if s.len() > 0 && is_white(s[0]) {
        trim_front(s.skip(1))
    } else {
        s
    }
}

/// A text without the white space at its end.
pub open spec fn trim_back(s: Seq<char>) -> Seq<char>
    decreases s.len(),
{
    if s.len() > 0 && is_white(s.last()) {
        trim_back(s.drop_last())
    } else {
        s
    }
}

/// A text without the white space around it.
pub fn trim(s: &str) -> (r: String)
    ensures
        r@ == trim_back(trim_front(s@)),
{
    let chars = chars_of(s);
    let mut from: usize = 0;
    assert(chars@.skip(0) =~= chars@);
    while from < chars.len() && white(chars[from])
        invariant
            chars@ == s@,
            from <= chars@.len(),
            trim_front(chars@.skip(from as int)) == trim_front(s@),
        decreases chars.len() - from,
    {
        assert(chars@.skip(from as int).skip(1) =~= chars@.skip(from + 1));
        from += 1;
    }
    let ghost front = chars@.skip(from as int);
    assert(trim_front(s@) == front);
    let mut to: usize = chars.len();
    assert(chars@.subrange(from as int, to as int) =~= front);
    while to > from && white(chars[to - 1])
        invariant
            from <= to <= chars@.len(),
            trim_back(chars@.subrange(from as int, to as int)) == trim_back(front),
        decreases to,
    {
        assert(chars@.subrange(from as int, to as int).drop_last() =~= chars@.subrange(
            from as int,
            to - 1,
        ));
        to -= 1;
    }
    string_of(&chars, from, to)
}

/// A text as it is shown when debugging: in quotes, with escapes.
pub uninterp spec fn debug_quoted(s: Seq<char>) -> Seq<char>;

/// Shows a text in quotes, with escapes (the `Debug` form of `str`).
///
/// Trusted: the form depends on the text alone.
#[verifier::external_body]
pub(crate) fn debug_quote(s: &str) -> (r: String)
    ensures
        r@ == debug_quoted(s@),
{
    format!("{s:?}")
}

/// Trimming takes off white space and nothing else: a text is some white space, its trimmed form,
/// and some white space, and the trimmed form neither begins nor ends with any.
pub proof fn law_trimming_takes_white_space_off(s: Seq<char>) -> (r: (Seq<char>, Seq<char>))
    ensures
        s == r.0 + trim_back(trim_front(s)) + r.1,
        forall|i: int| 0 <= i < r.0.len() ==> is_white(#[trigger] r.0[i]),
        forall|i: int| 0 <= i < r.1.len() ==> is_white(#[trigger] r.1[i]),
        trim_back(trim_front(s)).len() > 0 ==> !is_white(trim_back(trim_front(s))[0]) && !is_white(
            trim_back(trim_front(s)).last(),
        ),
{
    let front = lemma_trim_front(s);
    let back = lemma_trim_back(trim_front(s));
    assert(s =~= front + trim_back(trim_front(s)) + back);
    (front, back)
}

proof fn lemma_trim_front(s: Seq<char>) -> (white: Seq<char>)
    ensures
        s == white + trim_front(s),
        forall|i: int| 0 <= i < white.len() ==> is_white(#[trigger] white[i]),
        trim_front(s).len() > 0 ==> !is_white(trim_front(s)[0]),
    decreases s.len(),
{
    if s.len() > 0 && is_white(s[0]) {
        let rest = lemma_trim_front(s.skip(1));
        let white = seq![s[0]] + rest;
        assert(s =~= seq![s[0]] + s.skip(1));
        assert(seq![s[0]] + (rest + trim_front(s)) =~= white + trim_front(s));
        white
    } else {
        assert(s =~= Seq::empty() + trim_front(s));
        Seq::empty()
    }
}

proof fn lemma_trim_back(s: Seq<char>) -> (white: Seq<char>)
    ensures
        s == trim_back(s) + white,
        forall|i: int| 0 <= i < white.len() ==> is_white(#[trigger] white[i]),
        trim_back(s).len() > 0 ==> trim_back(s)[0] == s[0] && !is_white(trim_back(s).last()),
    decreases s.len(),
{
    if s.len() > 0 && is_white(s.last()) {
        let rest = lemma_trim_back(s.drop_last());
        let white = rest.push(s.last());
        assert(s =~= s.drop_last().push(s.last()));
        assert((trim_back(s) + rest).push(s.last()) =~= trim_back(s) + white);
        white
    } else {
        assert(s =~= trim_back(s) + Seq::empty());
        Seq::empty()
    }
}

/// The lower-case form of a text has its length, keeps every character that is no letter from `A`
/// to `Z`, and holds none of these letters; making it again changes nothing.
pub proof fn law_lower_case_is_settled(s: Seq<char>, i: int)
    requires
        0 <= i < s.len(),
    ensures
        ascii_lower_seq(s).len() == s.len(),
        !('A' <= s[i] && s[i] <= 'Z') ==> ascii_lower_seq(s)[i] == s[i],
        'A' <= s[i] && s[i] <= 'Z' ==> ascii_lower_seq(s)[i] as int - 'a' as int == s[i] as int
            - 'A' as int,
        !('A' <= ascii_lower_seq(s)[i] && ascii_lower_seq(s)[i] <= 'Z'),
        ascii_lower_seq(ascii_lower_seq(s)) == ascii_lower_seq(s),
{
    assert forall|c: char| ascii_lower(#[trigger] ascii_lower(c)) == ascii_lower(c) by {}
    assert(ascii_lower_seq(ascii_lower_seq(s)) =~= ascii_lower_seq(s));
}

/// A text that is put together from parts starts with the first, ends with the last and holds each
/// of them.
pub proof fn law_parts_are_found(a: Seq<char>, b: Seq<char>, c: Seq<char>)
    ensures
        starts_with(a + b + c, a),
        ends_with(a + b + c, c),
        contains_text(a + b + c, b),
{
    let all = a + b + c;
    assert(all.take(a.len() as int) =~= a);
    assert(all.skip(all.len() - c.len()) =~= c);
    assert(all.subrange(a.len() as int, a.len() + b.len() as int) =~= b);
    assert(occurs_at(all, b, a.len() as int));
}

/// What a text starts with, ends with or holds is a part of it.
pub proof fn law_found_parts_are_there(s: Seq<char>, part: Seq<char>)
    ensures
        starts_with(s, part) ==> s == part + s.skip(part.len() as int),
        ends_with(s, part) ==> s == s.take(s.len() - part.len()) + part,
        contains_text(s, part) ==> exists|a: Seq<char>, c: Seq<char>| s == #[trigger] (a + part + c),
{
    if starts_with(s, part) {
        assert(s =~= part + s.skip(part.len() as int));
    }
    if ends_with(s, part) {
        assert(s =~= s.take(s.len() - part.len()) + part);
    }
    if contains_text(s, part) {
        let i = choose|i: int| occurs_at(s, part, i);
        let a = s.take(i);
        let c = s.skip(i + part.len());
        assert(s =~= a + part + c);
    }
}

} // verus!
