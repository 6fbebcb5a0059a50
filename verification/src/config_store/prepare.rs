//! Preparing configuration resources for storage: what identifies them, and what they must hold.

use vstd::prelude::*;
use vstd::string::*;

#[allow(unused_imports)]
use crate::config_store::resources::{
    id_error, invalid, kind_name, prepared_views, validate_id, ConfigError, ConfigResourceKind,
    ErrorView, PreparedResource, PreparedView,
};
#[allow(unused_imports)]
use crate::json::{
    members_view, put_member, take_member, then_member, then_text, Json, JsonView,
};
use crate::text::str_eq;

verus! {

/// A request to store resources of a kind.
#[derive(Debug)]
pub struct ConfigResourceUpsertRequest {
    pub resources: Vec<ConfigResourceUpsert>,
}

/// A resource in a request.
#[derive(Debug)]
pub struct ConfigResourceUpsert {
    pub value: Json,
}

/// The text of a member, unless it is empty.
pub open spec fn non_empty_text(value: JsonView, field: Seq<char>) -> Option<Seq<char>> {
    match then_text(value.member(field)) {
        Some(text) if text.len() > 0 => Some(text),
        _ => None,
    }
}

/// The text of a member, unless it is empty.
pub fn string_field(value: &Json, field: &str) -> (r: Option<String>)
    ensures
        match r {
            Some(text) => non_empty_text(value@, field@) == Some(text@),
            None => non_empty_text(value@, field@) is None,
        },
{
    if let Some(v) = value.get(field) {
        if let Some(text) = v.as_str() {
            if !text.is_empty() {
                return Some(text.to_owned());
            }
        }
    }
    None
}

/// What identifies a resource of a kind.
pub open spec fn identifier(kind: ConfigResourceKind, value: JsonView) -> Result<
    Seq<char>,
    ErrorView,
> {
    match kind {
        ConfigResourceKind::ModelCatalog => Ok("default"@),
        ConfigResourceKind::LlmProvider | ConfigResourceKind::LlmVirtualModel =>
            match non_empty_text(value, "name"@) {
                Some(name) => Ok(name),
                None => Err(
                    ErrorView::InvalidRequest(kind_name(kind) + " resources require value.name"@),
                ),
            },
        ConfigResourceKind::LlmModel => match (
            non_empty_text(value, "id"@),
            non_empty_text(value, "name"@),
        ) {
            (Some(id), _) => Ok(id),
            (None, Some(name)) => Ok(name),
            (None, None) => Err(
                ErrorView::InvalidRequest("llm.model resources require value.id or value.name"@),
            ),
        },
        ConfigResourceKind::LlmApiKey => match then_text(
            then_member(value.member("metadata"@), "id"@),
        ) {
            Some(id) => Ok(id),
            None => Err(
                ErrorView::InvalidRequest("llm.apiKey resources require value.metadata.id"@),
            ),
        },
        ConfigResourceKind::LlmPolicy | ConfigResourceKind::UiPolicy => Err(
            ErrorView::InvalidRequest(kind_name(kind) + " resources require an item ID"@),
        ),
    }
}

/// What identifies a resource of a kind: a catalog is the only one; a provider or a virtual model
/// has a name; a model has an identifier or a name; a key has an identifier in its metadata. A
/// policy is identified by what its request names.
pub fn resource_id(kind: ConfigResourceKind, value: &Json) -> (r: Result<String, ConfigError>)
    ensures
        match identifier(kind, value@) {
            Ok(id) => r matches Ok(s) && s@ == id,
            Err(e) => r matches Err(x) && x@ == e,
        },
{
    match kind {
        ConfigResourceKind::ModelCatalog => Ok("default".to_owned()),
        ConfigResourceKind::LlmProvider => match string_field(value, "name") {
            Some(name) => Ok(name),
            None => Err(
                invalid(kind.as_str().to_owned().concat(" resources require value.name")),
            ),
        },
        ConfigResourceKind::LlmVirtualModel => match string_field(value, "name") {
            Some(name) => Ok(name),
            None => Err(
                invalid(kind.as_str().to_owned().concat(" resources require value.name")),
            ),
        },
        ConfigResourceKind::LlmModel => {
            if let Some(id) = string_field(value, "id") {
                return Ok(id);
            }
            match string_field(value, "name") {
                Some(name) => Ok(name),
                None => Err(
                    invalid("llm.model resources require value.id or value.name".to_owned()),
                ),
            }
        },
        ConfigResourceKind::LlmApiKey => {
            if let Some(metadata) = value.get("metadata") {
                if let Some(id) = metadata.get("id") {
                    if let Some(text) = id.as_str() {
                        return Ok(text.to_owned());
                    }
                }
            }
            Err(invalid("llm.apiKey resources require value.metadata.id".to_owned()))
        },
        ConfigResourceKind::LlmPolicy => Err(
            invalid(kind.as_str().to_owned().concat(" resources require an item ID")),
        ),
        ConfigResourceKind::UiPolicy => Err(
            invalid(kind.as_str().to_owned().concat(" resources require an item ID")),
        ),
    }
}

/// Whether a key names an identifier of its own.
pub open spec fn names_key_id(value: JsonView) -> bool {
    then_member(value.member("metadata"@), "id"@) is Some
}

/// The error for a key that names an identifier of its own.
pub open spec fn key_id_error() -> ErrorView {
    ErrorView::InvalidRequest("llm.apiKey resources must not include value.metadata.id"@)
}

/// Checks that a key does not name an identifier of its own.
pub fn ensure_no_api_key_id(value: &Json) -> (r: Result<(), ConfigError>)
    ensures
        names_key_id(value@) ==> (r matches Err(x) && x@ == key_id_error()),
        !names_key_id(value@) ==> r is Ok,
{
    if let Some(metadata) = value.get("metadata") {
        if metadata.get("id").is_some() {
            return Err(
                invalid("llm.apiKey resources must not include value.metadata.id".to_owned()),
            );
        }
    }
    Ok(())
}

/// A key with an identifier in its metadata.
pub open spec fn with_key_id(value: JsonView, id: Seq<char>) -> Result<JsonView, ErrorView> {
    match value {
        JsonView::Object(members) => {
            let metadata = match value.member("metadata"@) {
                None => Ok(Map::empty()),
                Some(JsonView::Object(m)) => Ok(m),
                Some(_) => Err(
                    ErrorView::InvalidRequest(
                        "llm.apiKey resources require value.metadata to be an object"@,
                    ),
                ),
            };
            match metadata {
                Ok(m) => Ok(
                    JsonView::Object(
                        members.insert(
                            "metadata"@,
                            JsonView::Object(m.insert("id"@, JsonView::Str(id))),
                        ),
                    ),
                ),
                Err(e) => Err(e),
            }
        },
        _ => Err(ErrorView::InvalidRequest("llm.apiKey resources must be JSON objects"@)),
    }
}

/// Puts an identifier into the metadata of a key.
pub fn set_api_key_id(value: Json, id: String) -> (r: Result<Json, ConfigError>)
    ensures
        match with_key_id(value@, id@) {
            Ok(v) => r matches Ok(j) && j@ == v,
            Err(e) => r matches Err(x) && x@ == e,
        },
{
    match value {
        Json::Object(members) => {
            let mut members = members;
            let ghost before = members_view(members@);
            let mut metadata: Vec<(String, Json)> = match take_member(&mut members, "metadata") {
                None => Vec::new(),
                Some(Json::Object(m)) => m,
                Some(_) => {
                    return Err(
                        invalid(
                            "llm.apiKey resources require value.metadata to be an object".to_owned(),
                        ),
                    );
                },
            };
            let ghost m = members_view(metadata@);
            put_member(&mut metadata, "id", Json::Str(id));
            put_member(&mut members, "metadata", Json::Object(metadata));
            assert(members_view(members@) =~= before.insert(
                "metadata"@,
                JsonView::Object(m.insert("id"@, JsonView::Str(id@))),
            ));
            Ok(Json::Object(members))
        },
        _ => Err(invalid("llm.apiKey resources must be JSON objects".to_owned())),
    }
}

/// Whether a character is a hexadecimal digit in lower case.
pub open spec fn is_hex(c: char) -> bool {
    ('0' <= c && c <= '9') || ('a' <= c && c <= 'f')
}

/// Whether a text is a random identifier in its usual form.
pub open spec fn is_uuid_v4(s: Seq<char>) -> bool {
    &&& s.len() == 36
    &&& forall|i: int|
        0 <= i < 36 ==> if i == 8 || i == 13 || i == 18 || i == 23 {
            #[trigger] s[i] == '-'
        } else {
            is_hex(s[i])
        }
    &&& s[14] == '4'
}

/// A random identifier (`uuid::Uuid::new_v4`, displayed).
///
/// Trusted: it is an identifier of version 4 with hyphens and in lower case. Which one it is, is
/// left to chance.
#[verifier::external_body]
fn new_uuid() -> (r: String)
    ensures
        is_uuid_v4(r@),
{
    uuid::Uuid::new_v4().to_string()
}

/// What preparing a resource gives, where `fresh` is the identifier for a new key.
pub open spec fn prepared(
    kind: ConfigResourceKind,
    value: JsonView,
    fresh: Seq<char>,
) -> Result<PreparedView, ErrorView> {
    match kind {
        ConfigResourceKind::LlmApiKey => if names_key_id(value) {
            Err(key_id_error())
        } else {
            match with_key_id(value, fresh) {
                Ok(v) => Ok(PreparedView { kind, id: fresh, value: v }),
                Err(e) => Err(e),
            }
        },
        _ => match identifier(kind, value) {
            Ok(id) => Ok(PreparedView { kind, id, value }),
            Err(e) => Err(e),
        },
    }
}

/// Prepares a resource, where `fresh` is the identifier for a new key.
pub fn prepare_resource_with(kind: ConfigResourceKind, value: Json, fresh: String) -> (r: Result<
    PreparedResource,
    ConfigError,
>)
    ensures
        match prepared(kind, value@, fresh@) {
            Ok(p) => r matches Ok(x) && x@ == p,
            Err(e) => r matches Err(x) && x@ == e,
        },
{
    match kind {
        ConfigResourceKind::LlmApiKey => {
            match ensure_no_api_key_id(&value) {
                Ok(_) => {},
                Err(e) => {
                    return Err(e);
                },
            }
            match set_api_key_id(value, fresh.clone()) {
                Ok(value) => Ok(PreparedResource { kind, id: fresh, value }),
                Err(e) => Err(e),
            }
        },
        _ => match resource_id(kind, &value) {
            Ok(id) => Ok(PreparedResource { kind, id, value }),
            Err(e) => Err(e),
        },
    }
}

/// Prepares a resource. A key gets a random identifier.
pub fn prepare_resource(kind: ConfigResourceKind, value: Json) -> (r: Result<
    PreparedResource,
    ConfigError,
>)
    ensures
        exists|fresh: Seq<char>|
            is_uuid_v4(fresh) && match #[trigger] prepared(kind, value@, fresh) {
                Ok(p) => r matches Ok(x) && x@ == p,
                Err(e) => r matches Err(x) && x@ == e,
            },
{
    let fresh = new_uuid();
    let ghost f = fresh@;
    let r = prepare_resource_with(kind, value, fresh);
    assert(match prepared(kind, value@, f) {
        Ok(p) => r matches Ok(x) && x@ == p,
        Err(e) => r matches Err(x) && x@ == e,
    });
    r
}

/// What preparing the resources of a request gives, where `fresh` are the identifiers for new
/// keys: all of them, or the first error.
pub open spec fn all_prepared(
    kind: ConfigResourceKind,
    values: Seq<JsonView>,
    fresh: Seq<Seq<char>>,
) -> Result<Seq<PreparedView>, ErrorView>
    decreases values.len(),
{
    if values.len() == 0 {
        Ok(Seq::empty())
    } else {
        match all_prepared(kind, values.drop_last(), fresh) {
            Err(e) => Err(e),
            Ok(before) => match prepared(kind, values.last(), fresh[values.len() - 1]) {
                Ok(p) => Ok(before.push(p)),
                Err(e) => Err(e),
            },
        }
    }
}

/// The values in a request.
pub open spec fn request_values(resources: Seq<ConfigResourceUpsert>) -> Seq<JsonView> {
    resources.map_values(|u: ConfigResourceUpsert| u.value@)
}

proof fn lemma_all_prepared_error(
    kind: ConfigResourceKind,
    values: Seq<JsonView>,
    fresh: Seq<Seq<char>>,
    n: int,
)
    requires
        0 <= n <= values.len(),
        all_prepared(kind, values.take(n), fresh) is Err,
    ensures
        all_prepared(kind, values, fresh) == all_prepared(kind, values.take(n), fresh),
    decreases values.len(),
{
    if n == values.len() {
        assert(values.take(n) =~= values);
    } else {
        let d = values.drop_last();
        assert(d.take(n) =~= values.take(n));
        lemma_all_prepared_error(kind, d, fresh, n);
    }
}

proof fn lemma_all_prepared_more(
    kind: ConfigResourceKind,
    values: Seq<JsonView>,
    fresh: Seq<Seq<char>>,
    next: Seq<char>,
)
    requires
        values.len() <= fresh.len(),
    ensures
        all_prepared(kind, values, fresh.push(next)) == all_prepared(kind, values, fresh),
    decreases values.len(),
{
    if values.len() > 0 {
        lemma_all_prepared_more(kind, values.drop_last(), fresh, next);
    }
}

/// Prepares the resources of a request, in order. The first one that cannot be prepared is the
/// error; no key gets an identifier that is not random.
pub fn prepare_resources(kind: ConfigResourceKind, request: ConfigResourceUpsertRequest) -> (r:
    Result<Vec<PreparedResource>, ConfigError>)
    ensures
        exists|fresh: Seq<Seq<char>>|
            (forall|i: int| 0 <= i < fresh.len() ==> is_uuid_v4(#[trigger] fresh[i]))
                && match #[trigger] all_prepared(
                kind,
                request_values(request.resources@),
                fresh,
            ) {
                Ok(ps) => r matches Ok(out) && prepared_views(out@) == ps && fresh.len()
                    == request.resources@.len(),
                Err(e) => r matches Err(x) && x@ == e,
            },
{
    let ghost all = request.resources@;
    let ghost values = request_values(all);
    let ghost mut fresh: Seq<Seq<char>> = Seq::empty();
    let mut out: Vec<PreparedResource> = Vec::new();
    assert(values.take(0) =~= Seq::empty());
    assert(prepared_views(out@) =~= Seq::empty());
    for resource in it: request.resources
        invariant
            it.seq() == all,
            all == request.resources@,
            values == request_values(all),
            fresh.len() == it.index(),
            forall|i: int| 0 <= i < fresh.len() ==> is_uuid_v4(#[trigger] fresh[i]),
            all_prepared(kind, values.take(it.index()), fresh) == Ok::<Seq<PreparedView>, ErrorView>(
                prepared_views(out@),
            ),
    {
        let ghost n = it.index();
        let ghost before = out@;
        let id = new_uuid();
        let ghost next = fresh.push(id@);
        proof {
            lemma_all_prepared_more(kind, values.take(n), fresh, id@);
            assert(values.take(n + 1).drop_last() =~= values.take(n));
            assert(values.take(n + 1).last() == resource.value@);
            assert(next[n] == id@);
            fresh = next;
        }
        match prepare_resource_with(kind, resource.value, id) {
            Ok(p) => {
                out.push(p);
                assert(prepared_views(out@) =~= prepared_views(before).push(p@));
            },
            Err(e) => {
                proof {
                    lemma_all_prepared_error(kind, values, fresh, n + 1);
                }
                assert(match all_prepared(kind, request_values(request.resources@), fresh) {
                    Ok(ps) => false,
                    Err(x) => x == e@,
                });
                return Err(e);
            },
        }
    }
    assert(values.take(values.len() as int) =~= values);
    assert(all_prepared(kind, request_values(request.resources@), fresh) == Ok::<
        Seq<PreparedView>,
        ErrorView,
    >(prepared_views(out@)));
    Ok(out)
}

/// Prepares a key that is to be replaced: it keeps the identifier of the request.
pub fn prepare_api_key_update(id: String, value: Json) -> (r: Result<PreparedResource, ConfigError>)
    ensures
        match id_error(id@) {
            Some(e) => r matches Err(x) && x@ == e,
            None => match prepared(ConfigResourceKind::LlmApiKey, value@, id@) {
                Ok(p) => r matches Ok(x) && x@ == p,
                Err(e) => r matches Err(x) && x@ == e,
            },
        },
{
    match validate_id(id.as_str()) {
        Ok(_) => {},
        Err(e) => {
            return Err(e);
        },
    }
    match ensure_no_api_key_id(&value) {
        Ok(_) => {},
        Err(e) => {
            return Err(e);
        },
    }
    match set_api_key_id(value, id.clone()) {
        Ok(value) => Ok(PreparedResource { kind: ConfigResourceKind::LlmApiKey, id, value }),
        Err(e) => Err(e),
    }
}

/// The error for a policy on keys that holds keys.
pub open spec fn policy_keys_error() -> ErrorView {
    ErrorView::InvalidRequest(
        "llm.policy/apiKey must not include keys; use llm.apiKey resources"@,
    )
}

/// What preparing a policy gives.
pub open spec fn prepared_policy(
    kind: ConfigResourceKind,
    id: Seq<char>,
    value: JsonView,
) -> Result<PreparedView, ErrorView> {
    match id_error(id) {
        Some(e) => Err(e),
        None => if kind != ConfigResourceKind::LlmPolicy && kind != ConfigResourceKind::UiPolicy {
            Err(ErrorView::InvalidRequest(kind_name(kind) + " is not a policy resource"@))
        } else if kind == ConfigResourceKind::LlmPolicy && id == "apiKey"@ && value.member("keys"@)
            is Some {
            Err(policy_keys_error())
        } else {
            Ok(PreparedView { kind, id, value })
        },
    }
}

/// Prepares a policy. The policy on keys must not hold keys: they are resources of their own.
pub fn prepare_policy_upsert(kind: ConfigResourceKind, id: String, value: Json) -> (r: Result<
    PreparedResource,
    ConfigError,
>)
    ensures
        match prepared_policy(kind, id@, value@) {
            Ok(p) => r matches Ok(x) && x@ == p,
            Err(e) => r matches Err(x) && x@ == e,
        },
{
    match validate_id(id.as_str()) {
        Ok(_) => {},
        Err(e) => {
            return Err(e);
        },
    }
    if kind != ConfigResourceKind::LlmPolicy && kind != ConfigResourceKind::UiPolicy {
        return Err(invalid(kind.as_str().to_owned().concat(" is not a policy resource")));
    }
    if kind == ConfigResourceKind::LlmPolicy && str_eq(id.as_str(), "apiKey") && value.get(
        "keys",
    ).is_some() {
        return Err(
            invalid(
                "llm.policy/apiKey must not include keys; use llm.apiKey resources".to_owned(),
            ),
        );
    }
    Ok(PreparedResource { kind, id, value })
}

/// A resource that was prepared is identified by what it holds: its identifier can be read back
/// from its value.
pub proof fn law_prepared_id_is_read_back(
    kind: ConfigResourceKind,
    value: JsonView,
    fresh: Seq<char>,
)
    requires
        prepared(kind, value, fresh) is Ok,
    ensures
        identifier(kind, prepared(kind, value, fresh)->Ok_0.value) == Ok::<Seq<char>, ErrorView>(
            prepared(kind, value, fresh)->Ok_0.id,
        ),
{
}

/// Putting an identifier into a key changes nothing else of it.
pub proof fn law_key_id_keeps_the_rest(value: JsonView, id: Seq<char>, key: Seq<char>)
    requires
        with_key_id(value, id) is Ok,
        key != "metadata"@,
    ensures
        with_key_id(value, id)->Ok_0.member(key) == value.member(key),
{
}

/// What identifies a resource that is no key and no policy: the one catalog is the default one, a
/// provider and a virtual model go by their name, and a model by its identifier or, without one,
/// by its name. Texts that are empty count as missing.
pub proof fn law_resources_are_identified(
    members: Map<Seq<char>, JsonView>,
    id: Seq<char>,
    name: Seq<char>,
    kind: ConfigResourceKind,
)
    ensures
        identifier(ConfigResourceKind::ModelCatalog, JsonView::Object(members)) == Ok::<
            Seq<char>,
            ErrorView,
        >("default"@),
        (kind == ConfigResourceKind::LlmProvider || kind == ConfigResourceKind::LlmVirtualModel
            || kind == ConfigResourceKind::LlmModel) && members.contains_pair(
            "name"@,
            JsonView::Str(name),
        ) && name.len() > 0 && !members.dom().contains("id"@) ==> identifier(
            kind,
            JsonView::Object(members),
        ) == Ok::<Seq<char>, ErrorView>(name),
        members.contains_pair("id"@, JsonView::Str(id)) && id.len() > 0 ==> identifier(
            ConfigResourceKind::LlmModel,
            JsonView::Object(members),
        ) == Ok::<Seq<char>, ErrorView>(id),
        (kind == ConfigResourceKind::LlmProvider || kind == ConfigResourceKind::LlmVirtualModel) && (
        !members.dom().contains("name"@) || members["name"@] == JsonView::Str(Seq::empty()))
            ==> identifier(kind, JsonView::Object(members)) is Err,
        (!members.dom().contains("name"@) || members["name"@] == JsonView::Str(Seq::empty())) && (
        !members.dom().contains("id"@) || members["id"@] == JsonView::Str(Seq::empty()))
            ==> identifier(ConfigResourceKind::LlmModel, JsonView::Object(members)) is Err,
        kind == ConfigResourceKind::LlmPolicy || kind == ConfigResourceKind::UiPolicy
            ==> identifier(kind, JsonView::Object(members)) is Err,
{
}

/// A key is identified by what its metadata say, even by an empty text, and by nothing else.
pub proof fn law_keys_are_identified_by_metadata(
    members: Map<Seq<char>, JsonView>,
    metadata: Map<Seq<char>, JsonView>,
    id: Seq<char>,
)
    requires
        members.contains_pair("metadata"@, JsonView::Object(metadata)),
    ensures
        metadata.contains_pair("id"@, JsonView::Str(id)) ==> identifier(
            ConfigResourceKind::LlmApiKey,
            JsonView::Object(members),
        ) == Ok::<Seq<char>, ErrorView>(id),
        !metadata.dom().contains("id"@) ==> identifier(
            ConfigResourceKind::LlmApiKey,
            JsonView::Object(members),
        ) is Err,
{
}

/// A new key gets the fresh identifier and is otherwise what the request says; one that names an
/// identifier of its own, of whatever form, is refused.
pub proof fn law_new_keys_get_fresh_ids(
    members: Map<Seq<char>, JsonView>,
    metadata: Map<Seq<char>, JsonView>,
    fresh: Seq<char>,
)
    requires
        members.contains_pair("metadata"@, JsonView::Object(metadata)),
    ensures
        metadata.dom().contains("id"@) ==> prepared(
            ConfigResourceKind::LlmApiKey,
            JsonView::Object(members),
            fresh,
        ) is Err,
        !metadata.dom().contains("id"@) ==> (prepared(
            ConfigResourceKind::LlmApiKey,
            JsonView::Object(members),
            fresh,
        ) matches Ok(p) && p.kind == ConfigResourceKind::LlmApiKey && p.id == fresh && (
        p.value matches JsonView::Object(after) && after.remove("metadata"@) == members.remove(
            "metadata"@,
        ) && after.contains_pair(
            "metadata"@,
            JsonView::Object(metadata.insert("id"@, JsonView::Str(fresh))),
        ))),
{
    let after = members.insert(
        "metadata"@,
        JsonView::Object(metadata.insert("id"@, JsonView::Str(fresh))),
    );
    assert(after.remove("metadata"@) =~= members.remove("metadata"@));
}

/// A new key without metadata gets metadata that hold the fresh identifier alone.
pub proof fn law_new_keys_get_metadata(members: Map<Seq<char>, JsonView>, fresh: Seq<char>)
    requires
        !members.dom().contains("metadata"@),
    ensures
        prepared(ConfigResourceKind::LlmApiKey, JsonView::Object(members), fresh) matches Ok(p)
            && p.id == fresh && (p.value matches JsonView::Object(after) && after.remove(
            "metadata"@,
        ) == members && (after.dom().contains("metadata"@) && (
        after["metadata"@] matches JsonView::Object(m) && m.dom() == set!["id"@] && m["id"@]
            == JsonView::Str(fresh)))),
{
    let m = Map::<Seq<char>, JsonView>::empty().insert("id"@, JsonView::Str(fresh));
    let after = members.insert("metadata"@, JsonView::Object(m));
    assert(after.remove("metadata"@) =~= members);
    assert(m.dom() =~= set!["id"@]);
}

/// A resource that is no key is stored as it is, under what identifies it.
pub proof fn law_resources_are_prepared_as_they_are(
    kind: ConfigResourceKind,
    value: JsonView,
    fresh: Seq<char>,
)
    requires
        kind != ConfigResourceKind::LlmApiKey,
    ensures
        prepared(kind, value, fresh) is Ok <==> identifier(kind, value) is Ok,
        prepared(kind, value, fresh) matches Ok(p) ==> p.kind == kind && p.value == value
            && identifier(kind, value) == Ok::<Seq<char>, ErrorView>(p.id),
        prepared(kind, value, fresh) matches Err(e) ==> identifier(kind, value) == Err::<
            Seq<char>,
            ErrorView,
        >(e),
{
}

/// Each resource of a request is prepared by itself, in its place, with its own identifier; the
/// request is refused exactly if one of them is.
pub proof fn law_requests_are_prepared_in_order(
    kind: ConfigResourceKind,
    values: Seq<JsonView>,
    fresh: Seq<Seq<char>>,
)
    ensures
        all_prepared(kind, values, fresh) is Ok <==> forall|i: int|
            0 <= i < values.len() ==> prepared(kind, #[trigger] values[i], fresh[i]) is Ok,
        all_prepared(kind, values, fresh) matches Ok(ps) ==> ps.len() == values.len() && forall|
            i: int,
        |
            0 <= i < values.len() ==> prepared(kind, #[trigger] values[i], fresh[i]) == Ok::<
                PreparedView,
                ErrorView,
            >(ps[i]),
    decreases values.len(),
{
    if values.len() > 0 {
        let d = values.drop_last();
        law_requests_are_prepared_in_order(kind, d, fresh);
        assert(forall|i: int| 0 <= i < d.len() ==> d[i] == values[i]);
        let n = values.len() - 1;
        if all_prepared(kind, values, fresh) is Ok {
            let before = all_prepared(kind, d, fresh)->Ok_0;
            let ps = all_prepared(kind, values, fresh)->Ok_0;
            assert forall|i: int| 0 <= i < values.len() implies prepared(
                kind,
                #[trigger] values[i],
                fresh[i],
            ) == Ok::<PreparedView, ErrorView>(ps[i]) by {
                if i < n {
                    assert(d[i] == values[i]);
                    assert(ps[i] == before[i]);
                }
            }
        } else if forall|i: int|
            0 <= i < values.len() ==> prepared(kind, #[trigger] values[i], fresh[i]) is Ok {
            assert forall|i: int| 0 <= i < d.len() implies prepared(
                kind,
                #[trigger] d[i],
                fresh[i],
            ) is Ok by {
                assert(prepared(kind, values[i], fresh[i]) is Ok);
            }
            assert(prepared(kind, values[n], fresh[n]) is Ok);
        }
    }
}

/// A request is refused for the first of its resources that cannot be prepared.
pub proof fn law_first_error_refuses_a_request(
    kind: ConfigResourceKind,
    values: Seq<JsonView>,
    fresh: Seq<Seq<char>>,
    n: int,
    error: ErrorView,
)
    requires
        0 <= n < values.len(),
        forall|i: int| 0 <= i < n ==> prepared(kind, #[trigger] values[i], fresh[i]) is Ok,
        prepared(kind, values[n], fresh[n]) == Err::<PreparedView, ErrorView>(error),
    ensures
        all_prepared(kind, values, fresh) == Err::<Seq<PreparedView>, ErrorView>(error),
{
    let before = values.take(n);
    let upto = values.take(n + 1);
    law_requests_are_prepared_in_order(kind, before, fresh);
    assert(forall|i: int| 0 <= i < n ==> before[i] == values[i]);
    assert(upto.drop_last() =~= before);
    lemma_all_prepared_error(kind, values, fresh, n + 1);
}

/// A policy is stored as it is, under the identifier that is named for it. Refused are empty
/// identifiers, kinds that are no policies, and a policy on keys that holds keys; nothing else.
pub proof fn law_policies_are_prepared_as_they_are(
    kind: ConfigResourceKind,
    id: Seq<char>,
    value: JsonView,
)
    ensures
        prepared_policy(kind, id, value) matches Ok(p) ==> p.kind == kind && p.id == id && p.value
            == value,
        prepared_policy(kind, id, value) is Err <==> id.len() == 0 || !(kind
            == ConfigResourceKind::LlmPolicy || kind == ConfigResourceKind::UiPolicy) || (kind
            == ConfigResourceKind::LlmPolicy && id == "apiKey"@ && (
        value matches JsonView::Object(m) && m.dom().contains("keys"@))),
{
}

} // verus!
