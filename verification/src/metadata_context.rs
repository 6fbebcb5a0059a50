//! Metadata that is computed for an external processor.
//!
//! Each namespace has named expressions. Evaluating one gives a JSON value or an error; the
//! functions of this module take what evaluating gave.

use vstd::prelude::*;
use vstd::string::*;

#[allow(unused_imports)]
use crate::json::{Json, JsonView};
use crate::text::str_eq;
#[allow(unused_imports)]
use crate::text::{ascii_lower_seq, ends_with};

verus! {

/// The namespace whose values are sent as initial metadata of the gRPC stream, not as metadata of
/// each message.
pub const EXTPROC_GRPC_INITIAL_METADATA_NAMESPACE: &'static str =
    "agentgateway.dev.grpc_initial_metadata";

/// The named expressions of a namespace, evaluated.
pub type Evaluated = Vec<(String, Result<Json, String>)>;

/// The fields of a namespace.
pub type Fields = Vec<(String, Json)>;

/// The fields whose expressions could be evaluated.
pub open spec fn evaluated_fields(evaluated: Seq<(String, Result<Json, String>)>) -> Seq<
    (String, Json),
>
    decreases evaluated.len(),
{
    if evaluated.len() == 0 {
        Seq::empty()
    } else {
        let before = evaluated_fields(evaluated.drop_last());
        match evaluated.last().1 {
            Ok(value) => before.push((evaluated.last().0, value)),
            Err(_) => before,
        }
    }
}

/// Gathers evaluated expressions. An expression that failed gives no field.
pub fn eval_to_struct(evaluated: Evaluated) -> (r: Fields)
    ensures
        r@ == evaluated_fields(evaluated@),
{
    let ghost all = evaluated@;
    let mut out: Vec<(String, Json)> = Vec::new();
    assert(all.take(0) =~= Seq::empty());
    for entry in it: evaluated
        invariant
            it.seq() == all,
            out@ == evaluated_fields(all.take(it.index())),
    {
        assert(all.take(it.index() + 1).drop_last() =~= all.take(it.index()));
        if let Ok(value) = entry.1 {
            out.push((entry.0, value));
        }
    }
    assert(all.take(all.len() as int) =~= all);
    out
}

/// The namespaces that are sent with each message, with their fields.
pub open spec fn processing_namespaces(meta: Seq<(String, Evaluated)>) -> Seq<
    (Seq<char>, Seq<(String, Json)>),
>
    decreases meta.len(),
{
    if meta.len() == 0 {
        Seq::empty()
    } else {
        let before = processing_namespaces(meta.drop_last());
        if meta.last().0@ == EXTPROC_GRPC_INITIAL_METADATA_NAMESPACE@ {
            before
        } else {
            before.push((meta.last().0@, evaluated_fields(meta.last().1@)))
        }
    }
}

/// Namespaces with their fields, as plain values.
pub open spec fn namespaces_view(namespaces: Seq<(String, Fields)>) -> Seq<
    (Seq<char>, Seq<(String, Json)>),
> {
    namespaces.map_values(|n: (String, Fields)| (n.0@, n.1@))
}

/// The metadata that is sent with each message, where metadata is configured. The reserved
/// namespace is left out.
pub fn build_processing_metadata_context(metadata_context: Option<Vec<(String, Evaluated)>>) -> (r:
    Option<Vec<(String, Fields)>>)
    ensures
        match metadata_context {
            Some(meta) => r matches Some(out) && namespaces_view(out@) == processing_namespaces(
                meta@,
            ),
            None => r is None,
        },
{
    let meta = match metadata_context {
        Some(meta) => meta,
        None => {
            return None;
        },
    };
    let ghost all = meta@;
    let mut out: Vec<(String, Fields)> = Vec::new();
    assert(all.take(0) =~= Seq::empty());
    assert(namespaces_view(out@) =~= Seq::empty());
    for entry in it: meta
        invariant
            it.seq() == all,
            namespaces_view(out@) == processing_namespaces(all.take(it.index())),
    {
        assert(all.take(it.index() + 1).drop_last() =~= all.take(it.index()));
        let (namespace, evaluated) = entry;
        if !str_eq(namespace.as_str(), EXTPROC_GRPC_INITIAL_METADATA_NAMESPACE) {
            let ghost before = out@;
            out.push((namespace, eval_to_struct(evaluated)));
            assert(namespaces_view(out@) =~= namespaces_view(before).push(
                (out@.last().0@, out@.last().1@),
            ));
        }
    }
    assert(all.take(all.len() as int) =~= all);
    Some(out)
}

/// The text of a value in gRPC metadata. A number has the text that it came with, which is that of
/// a double as it is printed; lists, structures and nothing at all have none.
pub open spec fn metadata_text(value: JsonView) -> Option<Seq<char>> {
    match value {
        JsonView::Str(s) => Some(s),
        JsonView::Number(n) => Some(n),
        JsonView::Bool(b) => Some(
            if b {
                "true"@
            } else {
                "false"@
            },
        ),
        _ => None,
    }
}

/// The text of a value in gRPC metadata.
pub fn prost_value_to_metadata_string(value: &Json) -> (r: Option<String>)
    ensures
        match r {
            Some(text) => metadata_text(value@) == Some(text@),
            None => metadata_text(value@) is None,
        },
{
    match value {
        Json::Str(s) => Some(s.clone()),
        Json::Number(n) => Some(n.clone()),
        Json::Bool(b) => {
            if *b {
                Some("true".to_owned())
            } else {
                Some("false".to_owned())
            }
        },
        _ => None,
    }
}

/// How many characters the name of a header has at most.
pub const MAX_KEY_LEN: usize = 65535;

/// Whether a character may stand in the name of a header.
pub open spec fn is_token_char(c: char) -> bool {
    ||| 'a' <= c <= 'z'
    ||| 'A' <= c <= 'Z'
    ||| '0' <= c <= '9'
    ||| c == '!' || c == '#' || c == '$' || c == '%' || c == '&' || c == '\'' || c == '*'
    ||| c == '+' || c == '-' || c == '.' || c == '^' || c == '_' || c == '`' || c == '|' || c == '~'
}

/// The key for a name, if it can be one: the name in lower case. It is made of the characters of
/// header names, and does not have the end that keys of binary values have.
pub open spec fn metadata_key_of(name: Seq<char>) -> Option<Seq<char>> {
    let key = ascii_lower_seq(name);
    if 1 <= name.len() <= MAX_KEY_LEN && (forall|i: int|
        0 <= i < name.len() ==> is_token_char(#[trigger] name[i])) && !ends_with(
        key,
        seq!['-', 'b', 'i', 'n'],
    ) {
        Some(key)
    } else {
        None
    }
}

/// Makes a key of gRPC metadata out of a name (`tonic::metadata::MetadataKey::from_bytes`, for
/// values that are text).
///
/// Trusted: a name is a key, in lower case, exactly if it has between one and [`MAX_KEY_LEN`]
/// characters, all of them such as header names are made of, and does not end in `-bin`, in any
/// case of letters.
#[verifier::external_body]
fn metadata_key(name: &str) -> (r: Option<String>)
    ensures
        match r {
            Some(key) => metadata_key_of(name@) == Some(key@),
            None => metadata_key_of(name@) is None,
        },
{
    match tonic::metadata::AsciiMetadataKey::from_bytes(name.as_bytes()) {
        Ok(key) => Some(key.as_str().to_owned()),
        Err(_) => None,
    }
}

/// Whether a text can be a value of gRPC metadata: it has no ASCII control characters but tabs.
pub open spec fn is_metadata_value(text: Seq<char>) -> bool {
    forall|i: int|
        0 <= i < text.len() ==> (32 <= #[trigger] text[i] && text[i] != 127) || text[i] == 9
}

/// Checks whether a text can be a value of gRPC metadata
/// (`tonic::metadata::MetadataValue::try_from`, for values that are text).
///
/// Trusted: it can exactly if it has no ASCII control characters but tabs.
#[verifier::external_body]
fn metadata_value_is_valid(text: &str) -> (r: bool)
    ensures
        r == is_metadata_value(text@),
{
    tonic::metadata::AsciiMetadataValue::try_from(text).is_ok()
}

/// The key and the text of an entry in gRPC metadata, where it can be one.
pub open spec fn metadata_entry(name: Seq<char>, value: Result<JsonView, Seq<char>>) -> Option<
    (Seq<char>, Seq<char>),
> {
    match value {
        Ok(v) => match (metadata_text(v), metadata_key_of(name)) {
            (Some(text), Some(key)) => if is_metadata_value(text) {
                Some((key, text))
            } else {
                None
            },
            _ => None,
        },
        Err(_) => None,
    }
}

/// What evaluating an expression gave, as plain values.
pub open spec fn outcome_view(value: Result<Json, String>) -> Result<JsonView, Seq<char>> {
    match value {
        Ok(v) => Ok(v@),
        Err(e) => Err(e@),
    }
}

/// gRPC metadata out of named values: what can be an entry is one, and of entries with the same
/// key the last one counts.
pub open spec fn initial_metadata(evaluated: Seq<(String, Result<Json, String>)>) -> Map<
    Seq<char>,
    Seq<char>,
>
    decreases evaluated.len(),
{
    if evaluated.len() == 0 {
        Map::empty()
    } else {
        let before = initial_metadata(evaluated.drop_last());
        match metadata_entry(evaluated.last().0@, outcome_view(evaluated.last().1)) {
            Some((key, text)) => before.insert(key, text),
            None => before,
        }
    }
}

/// Entries of gRPC metadata as a map.
pub open spec fn metadata_map(entries: Seq<(String, String)>) -> Map<Seq<char>, Seq<char>>
    decreases entries.len(),
{
    if entries.len() == 0 {
        Map::empty()
    } else {
        metadata_map(entries.drop_last()).insert(entries.last().0@, entries.last().1@)
    }
}

/// Whether no two entries have the same key.
pub open spec fn keys_differ(entries: Seq<(String, String)>) -> bool {
    forall|i: int, j: int|
        0 <= i < j < entries.len() ==> #[trigger] entries[i].0@ != #[trigger] entries[j].0@
}

proof fn lemma_metadata_update(entries: Seq<(String, String)>, i: int, entry: (String, String))
    requires
        keys_differ(entries),
        0 <= i < entries.len(),
        entry.0@ == entries[i].0@,
    ensures
        metadata_map(entries.update(i, entry)) == metadata_map(entries).insert(entry.0@, entry.1@),
        keys_differ(entries.update(i, entry)),
    decreases entries.len(),
{
    let updated = entries.update(i, entry);
    if i == entries.len() - 1 {
        assert(updated.drop_last() =~= entries.drop_last());
        assert(metadata_map(updated) =~= metadata_map(entries).insert(entry.0@, entry.1@));
    } else {
        assert(updated.drop_last() =~= entries.drop_last().update(i, entry));
        assert forall|a: int, b: int| 0 <= a < b < entries.drop_last().len() implies #[trigger] entries.drop_last()[a].0@
            != #[trigger] entries.drop_last()[b].0@ by {
            assert(entries[a].0@ != entries[b].0@);
        }
        lemma_metadata_update(entries.drop_last(), i, entry);
        assert(entries[i].0@ != entries.last().0@);
        assert(metadata_map(updated) =~= metadata_map(entries).insert(entry.0@, entry.1@));
    }
    assert forall|a: int, b: int| 0 <= a < b < updated.len() implies #[trigger] updated[a].0@
        != #[trigger] updated[b].0@ by {
        assert(updated[a].0@ == entries[a].0@);
        assert(updated[b].0@ == entries[b].0@);
    }
}

/// Puts an entry into gRPC metadata. An entry with the same key is replaced.
fn insert_entry(entries: &mut Vec<(String, String)>, key: String, text: String)
    requires
        keys_differ(old(entries)@),
    ensures
        keys_differ(final(entries)@),
        metadata_map(final(entries)@) == metadata_map(old(entries)@).insert(key@, text@),
{
    let mut i: usize = 0;
    while i < entries.len()
        invariant
            i <= entries@.len(),
            entries@ == old(entries)@,
            keys_differ(entries@),
            forall|j: int| 0 <= j < i ==> #[trigger] entries@[j].0@ != key@,
        decreases entries.len() - i,
    {
        if str_eq(entries[i].0.as_str(), key.as_str()) {
            proof {
                lemma_metadata_update(entries@, i as int, (key, text));
            }
            entries.set(i, (key, text));
            return;
        }
        i += 1;
    }
    entries.push((key, text));
    assert(entries@.drop_last() =~= old(entries)@);
}

/// The expressions of the reserved namespace, if there are any.
pub open spec fn reserved_expressions(meta: Seq<(String, Evaluated)>) -> Seq<
    (String, Result<Json, String>),
>
    decreases meta.len(),
{
    if meta.len() == 0 {
        Seq::empty()
    } else if meta.last().0@ == EXTPROC_GRPC_INITIAL_METADATA_NAMESPACE@ {
        meta.last().1@
    } else {
        reserved_expressions(meta.drop_last())
    }
}

fn named_metadata(evaluated: &Evaluated) -> (r: Vec<(String, String)>)
    ensures
        keys_differ(r@),
        metadata_map(r@) == initial_metadata(evaluated@),
{
    let ghost all = evaluated@;
    let mut out: Vec<(String, String)> = Vec::new();
    let mut i: usize = 0;
    assert(all.take(0) =~= Seq::empty());
    while i < evaluated.len()
        invariant
            i <= evaluated@.len(),
            all == evaluated@,
            keys_differ(out@),
            metadata_map(out@) == initial_metadata(all.take(i as int)),
        decreases evaluated.len() - i,
    {
        assert(all.take(i + 1).drop_last() =~= all.take(i as int));
        assert(all.take(i + 1).last() == all[i as int]);
        if let Ok(value) = &evaluated[i].1 {
            if let Some(text) = prost_value_to_metadata_string(value) {
                if let Some(key) = metadata_key(evaluated[i].0.as_str()) {
                    if metadata_value_is_valid(text.as_str()) {
                        insert_entry(&mut out, key, text);
                    }
                }
            }
        }
        i += 1;
    }
    assert(all.take(i as int) =~= all);
    out
}

/// The initial metadata of a gRPC stream: the values of the reserved namespace, where they can be
/// entries. No key occurs twice.
pub fn build_grpc_initial_metadata(metadata_context: &Option<Vec<(String, Evaluated)>>) -> (r: Vec<
    (String, String),
>)
    ensures
        keys_differ(r@),
        metadata_map(r@) == (match *metadata_context {
            Some(meta) => initial_metadata(reserved_expressions(meta@)),
            None => Map::empty(),
        }),
{
    if let Some(meta) = metadata_context {
        let mut i: usize = meta.len();
        assert(meta@.take(i as int) =~= meta@);
        while i > 0
            invariant
                i <= meta@.len(),
                reserved_expressions(meta@.take(i as int)) == reserved_expressions(meta@),
                *metadata_context == Some(*meta),
            decreases i,
        {
            i -= 1;
            assert(meta@.take(i + 1).drop_last() =~= meta@.take(i as int));
            if str_eq(meta[i].0.as_str(), EXTPROC_GRPC_INITIAL_METADATA_NAMESPACE) {
                return named_metadata(&meta[i].1);
            }
        }
    }
    Vec::new()
}

/// The reserved namespace is never sent with messages.
pub proof fn law_reserved_namespace_is_not_sent(meta: Seq<(String, Evaluated)>, i: int)
    requires
        0 <= i < processing_namespaces(meta).len(),
    ensures
        processing_namespaces(meta)[i].0 != EXTPROC_GRPC_INITIAL_METADATA_NAMESPACE@,
    decreases meta.len(),
{
    if meta.len() > 0 {
        let before = processing_namespaces(meta.drop_last());
        if i < before.len() {
            law_reserved_namespace_is_not_sent(meta.drop_last(), i);
        }
    }
}

/// Every other namespace is sent with messages, with the fields that could be evaluated.
pub proof fn law_other_namespaces_are_sent(meta: Seq<(String, Evaluated)>, i: int)
    requires
        0 <= i < meta.len(),
        meta[i].0@ != EXTPROC_GRPC_INITIAL_METADATA_NAMESPACE@,
    ensures
        processing_namespaces(meta).contains((meta[i].0@, evaluated_fields(meta[i].1@))),
    decreases meta.len(),
{
    let before = processing_namespaces(meta.drop_last());
    let sent = (meta[i].0@, evaluated_fields(meta[i].1@));
    if i == meta.len() - 1 {
        assert(processing_namespaces(meta).last() == sent);
    } else {
        law_other_namespaces_are_sent(meta.drop_last(), i);
        let k = choose|k: int| 0 <= k < before.len() && before[k] == sent;
        assert(processing_namespaces(meta)[k] == sent);
    }
}

/// Every expression that could be evaluated gives a field, with its name and its value, in its
/// place; one that failed gives none, and takes none away.
pub proof fn law_evaluated_expressions_give_fields(
    before: Seq<(String, Result<Json, String>)>,
    name: String,
    value: Json,
    error: String,
    after: Seq<(String, Result<Json, String>)>,
)
    ensures
        evaluated_fields(before + seq![(name, Ok(value))] + after) == evaluated_fields(before)
            + seq![(name, value)] + evaluated_fields(after),
        evaluated_fields(before + seq![(name, Err(error))] + after) == evaluated_fields(
            before + after,
        ),
        evaluated_fields(Seq::empty()).len() == 0,
{
    let good: Seq<(String, Result<Json, String>)> = seq![(name, Ok(value))];
    let bad: Seq<(String, Result<Json, String>)> = seq![(name, Err(error))];
    lemma_fields_append(before + good, after);
    lemma_fields_append(before, good);
    lemma_fields_append(before + bad, after);
    lemma_fields_append(before, bad);
    lemma_fields_append(before, after);
    assert(good.drop_last() =~= Seq::empty());
    assert(bad.drop_last() =~= Seq::empty());
    reveal_with_fuel(evaluated_fields, 2);
    assert(good.last() == (name, Ok::<Json, String>(value)));
    assert(bad.last() == (name, Err::<Json, String>(error)));
    assert(evaluated_fields(good) =~= seq![(name, value)]);
    assert(evaluated_fields(bad) =~= Seq::empty());
    assert(evaluated_fields(before) + Seq::empty() + evaluated_fields(after) =~= evaluated_fields(
        before,
    ) + evaluated_fields(after));
}

proof fn lemma_fields_append(
    a: Seq<(String, Result<Json, String>)>,
    b: Seq<(String, Result<Json, String>)>,
)
    ensures
        evaluated_fields(a + b) == evaluated_fields(a) + evaluated_fields(b),
    decreases b.len(),
{
    if b.len() == 0 {
        assert(a + b =~= a);
        assert(evaluated_fields(a) + evaluated_fields(b) =~= evaluated_fields(a));
    } else {
        lemma_fields_append(a, b.drop_last());
        assert((a + b).drop_last() =~= a + b.drop_last());
        assert(evaluated_fields(a + b) =~= evaluated_fields(a) + evaluated_fields(b));
    }
}

/// Namespaces are sent in the order in which they are configured, each with its own fields.
pub proof fn law_namespaces_are_sent_in_order(
    before: Seq<(String, Evaluated)>,
    namespace: (String, Evaluated),
)
    ensures
        namespace.0@ != EXTPROC_GRPC_INITIAL_METADATA_NAMESPACE@ ==> processing_namespaces(
            before.push(namespace),
        ) == processing_namespaces(before) + seq![
            (namespace.0@, evaluated_fields(namespace.1@)),
        ],
        namespace.0@ == EXTPROC_GRPC_INITIAL_METADATA_NAMESPACE@ ==> processing_namespaces(
            before.push(namespace),
        ) == processing_namespaces(before),
        processing_namespaces(Seq::empty()).len() == 0,
{
    assert(before.push(namespace).drop_last() =~= before);
}

/// Which values have a text: a string has itself, a number its digits, and a truth value its name;
/// lists, structures and nothing at all have none.
pub proof fn law_plain_values_have_texts(text: Seq<char>, value: JsonView)
    ensures
        metadata_text(JsonView::Str(text)) == Some(text),
        metadata_text(JsonView::Number(text)) == Some(text),
        metadata_text(JsonView::Bool(true)) == Some("true"@),
        metadata_text(JsonView::Bool(false)) == Some("false"@),
        value is Null || value is Array || value is Object <==> metadata_text(value) is None,
{
}

/// A named value that can be an entry is one, under its key; where several have the same key the
/// last one counts. One that failed, that has no text, or whose name or text cannot stand in gRPC
/// metadata changes nothing.
pub proof fn law_last_entry_counts(
    before: Seq<(String, Result<Json, String>)>,
    name: String,
    value: Json,
    error: String,
    other: Seq<char>,
)
    ensures
        ({
            let was = initial_metadata(before);
            let now = initial_metadata(before.push((name, Ok(value))));
            let key = metadata_key_of(name@);
            let text = metadata_text(value@);
            let can_be = key is Some && text is Some && is_metadata_value(text->0);
            &&& can_be ==> now.contains_pair(key->0, text->0)
            &&& can_be ==> other != key->0 ==> (now.dom().contains(other) <==> was.dom().contains(
                other,
            )) && now[other] == was[other]
            &&& !can_be ==> now == was
            &&& initial_metadata(before.push((name, Err(error)))) == was
            &&& initial_metadata(Seq::empty()) == Map::<Seq<char>, Seq<char>>::empty()
        }),
{
    let good: Seq<(String, Result<Json, String>)> = before.push((name, Ok(value)));
    let bad: Seq<(String, Result<Json, String>)> = before.push((name, Err(error)));
    assert(good.drop_last() =~= before);
    assert(bad.drop_last() =~= before);
}

/// The expressions for gRPC metadata are those of the reserved namespace: where it is configured
/// more than once, those of the last time; where it is not, none.
pub proof fn law_reserved_namespace_is_found(meta: Seq<(String, Evaluated)>, i: int)
    ensures
        0 <= i < meta.len() && meta[i].0@ == EXTPROC_GRPC_INITIAL_METADATA_NAMESPACE@ && (forall|
            j: int,
        |
            i < j < meta.len() ==> (#[trigger] meta[j]).0@
                != EXTPROC_GRPC_INITIAL_METADATA_NAMESPACE@) ==> reserved_expressions(meta)
            == meta[i].1@,
        (forall|j: int|
            0 <= j < meta.len() ==> (#[trigger] meta[j]).0@
                != EXTPROC_GRPC_INITIAL_METADATA_NAMESPACE@) ==> reserved_expressions(meta).len()
            == 0,
    decreases meta.len(),
{
    if meta.len() > 0 {
        let d = meta.drop_last();
        law_reserved_namespace_is_found(d, i);
        assert(meta[meta.len() - 1] == meta.last());
        assert(forall|j: int| 0 <= j < d.len() ==> d[j] == meta[j]);
    }
}

} // verus!
