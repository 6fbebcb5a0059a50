//! Headers as they travel to and from the external service.

use vstd::prelude::*;
use vstd::string::*;

verus! {

/// A header on the wire. Headers of the exchange carry their bytes in `raw_value`; those that the
/// gateway adds carry a text in `value`.
#[derive(Debug)]
pub struct HeaderValue {
    pub key: String,
    pub value: String,
    pub raw_value: Vec<u8>,
}

/// A header that the service wants set, and how it combines with what is there.
#[derive(Debug)]
pub struct HeaderValueOption {
    pub header: Option<HeaderValue>,
    pub append_action: i32,
}

/// The changes that the service wants made to the headers.
#[derive(Debug)]
pub struct HeaderMutation {
    pub set_headers: Vec<HeaderValueOption>,
    pub remove_headers: Vec<String>,
}

/// One change of the headers.
#[derive(Debug)]
pub enum HeaderOp {
    Remove(String),
    Apply(HeaderValueOption),
}

/// The changes of a mutation in the order in which they are made: removals first.
pub open spec fn header_ops(mutation: Option<HeaderMutation>) -> Seq<HeaderOp> {
    match mutation {
        Some(m) => m.remove_headers@.map_values(|name: String| HeaderOp::Remove(name))
            + m.set_headers@.map_values(|set: HeaderValueOption| HeaderOp::Apply(set)),
        None => Seq::empty(),
    }
}

/// The changes of a mutation in the order in which they are made.
pub fn apply_header_mutations(mutation: Option<HeaderMutation>) -> (r: Vec<HeaderOp>)
    ensures
        r@ == header_ops(mutation),
{
    let mut ops: Vec<HeaderOp> = Vec::new();
    if let Some(m) = mutation {
        let ghost removes = m.remove_headers@;
        let ghost sets = m.set_headers@;
        let ghost removed = removes.map_values(|name: String| HeaderOp::Remove(name));
        for name in it: m.remove_headers
            invariant
                it.seq() == removes,
                removed == removes.map_values(|name: String| HeaderOp::Remove(name)),
                ops@ == removed.take(it.index()),
        {
            ops.push(HeaderOp::Remove(name));
        }
        assert(ops@ =~= removed);
        for set in it: m.set_headers
            invariant
                it.seq() == sets,
                ops@ == removed + sets.map_values(
                    |set: HeaderValueOption| HeaderOp::Apply(set),
                ).take(it.index()),
        {
            ops.push(HeaderOp::Apply(set));
        }
        assert(ops@ =~= header_ops(Some(m)));
    }
    ops
}

/// The wire form of a header of the exchange.
pub open spec fn is_raw_header(h: HeaderValue, name: Seq<char>, value: Seq<u8>) -> bool {
    h.key@ == name && h.value@ == Seq::<char>::empty() && h.raw_value@ == value
}

/// The wire form of a header that the gateway adds.
pub open spec fn is_text_header(h: HeaderValue, name: Seq<char>, value: Seq<char>) -> bool {
    h.key@ == name && h.value@ == value && h.raw_value@ == Seq::<u8>::empty()
}

/// Whether `out` holds the headers of the exchange, followed by those that the gateway adds.
pub open spec fn is_header_map(
    out: Seq<HeaderValue>,
    headers: Seq<(String, Vec<u8>)>,
    extra: Seq<(String, String)>,
) -> bool {
    &&& out.len() == headers.len() + extra.len()
    &&& forall|i: int|
        0 <= i < headers.len() ==> is_raw_header(
            #[trigger] out[i],
            headers[i].0@,
            headers[i].1@,
        )
    &&& forall|i: int|
        headers.len() <= i < out.len() ==> is_text_header(
            #[trigger] out[i],
            extra[i - headers.len()].0@,
            extra[i - headers.len()].1@,
        )
}

/// The wire form of the headers of an exchange, followed by `extra`.
pub fn to_header_map_extra(headers: Vec<(String, Vec<u8>)>, extra: Vec<(String, String)>) -> (r: Vec<
    HeaderValue,
>)
    ensures
        is_header_map(r@, headers@, extra@),
{
    let ghost hs = headers@;
    let ghost es = extra@;
    let mut out: Vec<HeaderValue> = Vec::new();
    for h in it: headers
        invariant
            it.seq() == hs,
            out@.len() == it.index(),
            forall|i: int|
                0 <= i < out@.len() ==> is_raw_header(#[trigger] out@[i], hs[i].0@, hs[i].1@),
    {
        out.push(HeaderValue { key: h.0, value: String::new(), raw_value: h.1 });
    }
    for e in it: extra
        invariant
            it.seq() == es,
            out@.len() == hs.len() + it.index(),
            forall|i: int|
                0 <= i < hs.len() ==> is_raw_header(#[trigger] out@[i], hs[i].0@, hs[i].1@),
            forall|i: int|
                hs.len() <= i < out@.len() ==> is_text_header(
                    #[trigger] out@[i],
                    es[i - hs.len()].0@,
                    es[i - hs.len()].1@,
                ),
    {
        out.push(HeaderValue { key: e.0, value: e.1, raw_value: Vec::new() });
    }
    out
}

/// The wire form of trailers.
pub fn to_header_map(headers: Vec<(String, Vec<u8>)>) -> (r: Vec<HeaderValue>)
    ensures
        is_header_map(r@, headers@, Seq::empty()),
{
    let extra: Vec<(String, String)> = Vec::new();
    let r = to_header_map_extra(headers, extra);
    assert(extra@ =~= Seq::empty());
    r
}

/// Whether one of the pseudo headers is the scheme.
pub open spec fn has_scheme(pseudo: Seq<(String, String)>) -> bool {
    exists|i: int| 0 <= i < pseudo.len() && (#[trigger] pseudo[i]).0@ == ":scheme"@
}

/// Whether `full` is `pseudo` with the scheme `http` added where it has none.
pub open spec fn with_scheme(pseudo: Seq<(String, String)>, full: Seq<(String, String)>) -> bool {
    if has_scheme(pseudo) {
        full == pseudo
    } else {
        &&& full.len() == pseudo.len() + 1
        &&& full.take(pseudo.len() as int) == pseudo
        &&& full.last().0@ == ":scheme"@
        &&& full.last().1@ == "http"@
    }
}

/// The wire form of the headers of a request, followed by its pseudo headers. A request whose
/// URI shows no scheme counts as `http`.
pub fn req_to_header_map(headers: Vec<(String, Vec<u8>)>, pseudo: Vec<(String, String)>) -> (r: Vec<
    HeaderValue,
>)
    ensures
        exists|full: Seq<(String, String)>|
            with_scheme(pseudo@, full) && #[trigger] is_header_map(r@, headers@, full),
{
    let mut pseudo = pseudo;
    let ghost before = pseudo@;
    let mut found = false;
    let mut i: usize = 0;
    while i < pseudo.len()
        invariant
            i <= pseudo@.len(),
            pseudo@ == before,
            found == exists|j: int| 0 <= j < i && (#[trigger] before[j]).0@ == ":scheme"@,
        decreases pseudo.len() - i,
    {
        if crate::text::str_eq(pseudo[i].0.as_str(), ":scheme") {
            assert(before[i as int].0@ == ":scheme"@);
            found = true;
        }
        i += 1;
    }
    if !found {
        pseudo.push((":scheme".to_owned(), "http".to_owned()));
        assert(pseudo@.take(before.len() as int) =~= before);
    }
    assert(with_scheme(before, pseudo@));
    let ghost full = pseudo@;
    let r = to_header_map_extra(headers, pseudo);
    assert(is_header_map(r@, headers@, full));
    r
}

/// The wire form of the headers of a response, followed by its status.
pub fn resp_to_header_map(headers: Vec<(String, Vec<u8>)>, status: String) -> (r: Vec<HeaderValue>)
    ensures
        r@.len() == headers@.len() + 1,
        forall|i: int|
            0 <= i < headers@.len() ==> is_raw_header(
                #[trigger] r@[i],
                headers@[i].0@,
                headers@[i].1@,
            ),
        is_text_header(r@.last(), ":status"@, status@),
{
    let mut extra: Vec<(String, String)> = Vec::new();
    extra.push((":status".to_owned(), status));
    to_header_map_extra(headers, extra)
}

/// All removals of a mutation are made, in order, then all settings, in order, and nothing else;
/// without a mutation nothing is done.
pub proof fn law_removals_come_first(m: HeaderMutation, i: int)
    ensures
        header_ops(Some(m)).len() == m.remove_headers@.len() + m.set_headers@.len(),
        0 <= i < m.remove_headers@.len() ==> header_ops(Some(m))[i] == HeaderOp::Remove(
            m.remove_headers@[i],
        ),
        0 <= i < m.set_headers@.len() ==> header_ops(Some(m))[m.remove_headers@.len() + i]
            == HeaderOp::Apply(m.set_headers@[i]),
        header_ops(None).len() == 0,
{
}

/// On the wire every header of the exchange stands in its place, under its name, with its bytes
/// and no text; every header that the gateway adds follows, with its text and no bytes.
pub proof fn law_headers_travel_whole(
    out: Seq<HeaderValue>,
    headers: Seq<(String, Vec<u8>)>,
    extra: Seq<(String, String)>,
    i: int,
)
    requires
        is_header_map(out, headers, extra),
    ensures
        out.len() == headers.len() + extra.len(),
        0 <= i < headers.len() ==> out[i].key@ == headers[i].0@ && out[i].raw_value@
            == headers[i].1@ && out[i].value@.len() == 0,
        0 <= i < extra.len() ==> out[headers.len() + i].key@ == extra[i].0@ && out[headers.len()
            + i].value@ == extra[i].1@ && out[headers.len() + i].raw_value@.len() == 0,
{
    if 0 <= i < headers.len() {
        assert(is_raw_header(out[i], headers[i].0@, headers[i].1@));
    }
    if 0 <= i < extra.len() {
        assert(is_text_header(out[headers.len() + i], extra[i].0@, extra[i].1@));
    }
}

/// A request always travels with a scheme, `http` where it has none of its own; its own pseudo
/// headers travel as they are, in their order, before it.
pub proof fn law_requests_travel_with_a_scheme(
    pseudo: Seq<(String, String)>,
    full: Seq<(String, String)>,
    i: int,
)
    requires
        with_scheme(pseudo, full),
    ensures
        has_scheme(full),
        0 <= i < pseudo.len() ==> i < full.len() && full[i] == pseudo[i],
        (forall|j: int| 0 <= j < pseudo.len() ==> (#[trigger] pseudo[j]).0@ != ":scheme"@)
            ==> full.len() == pseudo.len() + 1 && full.last().1@ == "http"@,
        has_scheme(pseudo) ==> full.len() == pseudo.len(),
{
    if !has_scheme(pseudo) {
        assert(full[full.len() - 1].0@ == ":scheme"@);
        if 0 <= i < pseudo.len() {
            assert(full[i] == full.take(pseudo.len() as int)[i]);
        }
    }
}

} // verus!
