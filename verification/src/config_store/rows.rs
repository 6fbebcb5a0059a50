//! Configuration resources as the database holds them.

use vstd::prelude::*;
use vstd::string::*;

#[allow(unused_imports)]
use crate::config_store::resources::{
    id_error, kind_name, names_a_kind, not_found, validate_id, ConfigError, ConfigResource,
    ConfigResourceKind, ErrorView,
};
#[allow(unused_imports)]
use crate::json::{from_value, serde_value, Json, JsonView};

verus! {

/// What `serde_json` reads in a text: the document, or what is wrong with it.
pub uninterp spec fn json_of_text(text: Seq<char>) -> Result<JsonView, Seq<char>>;

/// Parses a JSON text (`serde_json::from_str::<serde_json::Value>`).
///
/// Trusted: the document, or the text of the error, depends on the text alone.
#[verifier::external_body]
fn parse_text(text: &str) -> (r: Result<serde_json::Value, String>)
    ensures
        match r {
            Ok(v) => json_of_text(text@) == Ok::<JsonView, Seq<char>>(serde_value(v)),
            Err(e) => json_of_text(text@) == Err::<JsonView, Seq<char>>(e@),
        },
{
    serde_json::from_str(text).map_err(|e| e.to_string())
}

/// What `chrono` reads in a text: a time, in the form of RFC 3339, or what is wrong with it.
pub uninterp spec fn time_of_text(text: Seq<char>) -> Result<Seq<char>, Seq<char>>;

/// Parses a time (`str::parse` into a `chrono::DateTime<chrono::Utc>`), and shows it in the form
/// of RFC 3339, with `Z` for the offset.
///
/// Trusted: the time, or the text of the error, depends on the text alone.
#[verifier::external_body]
fn parse_time(text: &str) -> (r: Result<String, String>)
    ensures
        match r {
            Ok(time) => time_of_text(text@) == Ok::<Seq<char>, Seq<char>>(time@),
            Err(e) => time_of_text(text@) == Err::<Seq<char>, Seq<char>>(e@),
        },
{
    match text.parse::<chrono::DateTime<chrono::Utc>>() {
        Ok(time) => Ok(time.to_rfc3339_opts(chrono::SecondsFormat::AutoSi, true)),
        Err(e) => Err(e.to_string()),
    }
}

/// A row of the table of resources.
#[derive(Debug)]
pub struct ResourceRow {
    pub kind: String,
    pub id: String,
    pub value_json: String,
    pub revision: i64,
    pub created_at: String,
    pub updated_at: String,
}

/// What is wrong with a row, given what its kind, its value and its times are read as. The kind
/// comes first, then the value, then the times.
pub open spec fn row_error(
    kind: Seq<char>,
    value: Result<JsonView, Seq<char>>,
    created_at: Result<Seq<char>, Seq<char>>,
    updated_at: Result<Seq<char>, Seq<char>>,
) -> Option<ErrorView> {
    if !names_a_kind(kind) {
        Some(ErrorView::InvalidRequest("unsupported config resource kind: "@ + kind))
    } else {
        match (value, created_at, updated_at) {
            (Err(e), _, _) => Some(ErrorView::Other(e)),
            (_, Err(e), _) => Some(ErrorView::Other(e)),
            (_, _, Err(e)) => Some(ErrorView::Other(e)),
            _ => None,
        }
    }
}

/// The resource of a row, given what its value and its times are read as.
pub fn resource_of(
    kind: &str,
    id: String,
    revision: i64,
    value: Result<Json, String>,
    created_at: Result<String, String>,
    updated_at: Result<String, String>,
) -> (r: Result<ConfigResource, ConfigError>)
    ensures
        match r {
            Ok(resource) => kind_name(resource.kind) == kind@ && resource.id == id
                && resource.revision == revision && value == Ok::<Json, String>(resource.value)
                && created_at == Ok::<String, String>(resource.created_at) && updated_at == Ok::<
                String,
                String,
            >(resource.updated_at),
            Err(e) => row_error(
                kind@,
                match value {
                    Ok(v) => Ok(v@),
                    Err(e) => Err(e@),
                },
                match created_at {
                    Ok(t) => Ok(t@),
                    Err(e) => Err(e@),
                },
                match updated_at {
                    Ok(t) => Ok(t@),
                    Err(e) => Err(e@),
                },
            ) == Some(e@),
        },
{
    let kind = match ConfigResourceKind::parse_kind(kind) {
        Ok(parsed) => {
            assert(names_a_kind(kind@)) by {
                assert(kind_name(parsed) == kind@);
            }
            parsed
        },
        Err(e) => {
            return Err(ConfigError::Resource(e));
        },
    };
    let value = match value {
        Ok(value) => value,
        Err(e) => {
            return Err(ConfigError::Other(e));
        },
    };
    let created_at = match created_at {
        Ok(time) => time,
        Err(e) => {
            return Err(ConfigError::Other(e));
        },
    };
    let updated_at = match updated_at {
        Ok(time) => time,
        Err(e) => {
            return Err(ConfigError::Other(e));
        },
    };
    Ok(ConfigResource { kind, id, value, revision, created_at, updated_at })
}

/// Reads a row in which the value and the times are texts.
pub fn sqlite_row_to_resource(row: ResourceRow) -> (r: Result<ConfigResource, ConfigError>)
    ensures
        match r {
            Ok(resource) => kind_name(resource.kind) == row.kind@ && resource.id == row.id
                && resource.revision == row.revision && json_of_text(row.value_json@) == Ok::<
                JsonView,
                Seq<char>,
            >(resource.value@) && time_of_text(row.created_at@) == Ok::<Seq<char>, Seq<char>>(
                resource.created_at@,
            ) && time_of_text(row.updated_at@) == Ok::<Seq<char>, Seq<char>>(resource.updated_at@),
            Err(e) => row_error(
                row.kind@,
                json_of_text(row.value_json@),
                time_of_text(row.created_at@),
                time_of_text(row.updated_at@),
            ) == Some(e@),
        },
{
    let value: Result<Json, String> = match parse_text(row.value_json.as_str()) {
        Ok(value) => Ok(from_value(value)),
        Err(e) => Err(e),
    };
    let created_at = parse_time(row.created_at.as_str());
    let updated_at = parse_time(row.updated_at.as_str());
    resource_of(row.kind.as_str(), row.id, row.revision, value, created_at, updated_at)
}

/// Resources, as they are handed to a client.
#[derive(Debug)]
pub struct ConfigResourcesResponse {
    pub resources: Vec<ConfigResource>,
}

/// The response to an upsert that stored `resources`, and whether it changed something that
/// others are to be told of.
pub fn upsert_response(resources: Vec<ConfigResource>) -> (r: (ConfigResourcesResponse, bool))
    ensures
        r.0.resources == resources,
        r.1 == (resources@.len() > 0),
{
    let changed = resources.len() > 0;
    (ConfigResourcesResponse { resources }, changed)
}

/// The result of deleting a resource, of which `deleted` says whether it was there. The identifier
/// is checked first.
pub fn delete_outcome(kind: ConfigResourceKind, id: &str, deleted: bool) -> (r: Result<
    (),
    ConfigError,
>)
    ensures
        match r {
            Ok(_) => id@.len() > 0 && deleted,
            Err(e) => match id_error(id@) {
                Some(x) => e@ == x,
                None => !deleted && e@ == ErrorView::NotFound(
                    "config resource not found: "@ + kind_name(kind) + "/"@ + id@,
                ),
            },
        },
        match deletion_error(kind, id@, deleted) {
            Some(x) => r matches Err(e) && e@ == x,
            None => r is Ok,
        },
{
    match validate_id(id) {
        Ok(_) => {},
        Err(e) => {
            return Err(e);
        },
    }
    if deleted {
        Ok(())
    } else {
        Err(ConfigError::Resource(not_found(kind, id)))
    }
}

/// A row can be read exactly if its kind, its value and both of its times can be, and an error is
/// the one of the first of these that cannot.
pub proof fn law_rows_are_read_whole(
    kind: ConfigResourceKind,
    name: Seq<char>,
    value: Result<JsonView, Seq<char>>,
    created_at: Result<Seq<char>, Seq<char>>,
    updated_at: Result<Seq<char>, Seq<char>>,
)
    ensures
        row_error(kind_name(kind), value, created_at, updated_at) is None <==> value is Ok
            && created_at is Ok && updated_at is Ok,
        !names_a_kind(name) ==> row_error(name, value, created_at, updated_at) is Some,
        value matches Err(e) ==> row_error(kind_name(kind), value, created_at, updated_at) == Some(
            ErrorView::Other(e),
        ),
        value is Ok && created_at is Err ==> row_error(
            kind_name(kind),
            value,
            created_at,
            updated_at,
        ) == Some(ErrorView::Other(created_at->Err_0)),
        value is Ok && created_at is Ok && updated_at is Err ==> row_error(
            kind_name(kind),
            value,
            created_at,
            updated_at,
        ) == Some(ErrorView::Other(updated_at->Err_0)),
{
    assert(names_a_kind(kind_name(kind)));
}

/// What is told about a deletion that found the resource, or did not.
pub open spec fn deletion_error(kind: ConfigResourceKind, id: Seq<char>, deleted: bool) -> Option<
    ErrorView,
> {
    if id.len() == 0 {
        id_error(id)
    } else if deleted {
        None
    } else {
        Some(ErrorView::NotFound("config resource not found: "@ + kind_name(kind) + "/"@ + id))
    }
}

/// A deletion succeeds exactly if it found the resource, under an identifier that can be used; an
/// identifier that cannot be used is refused as such, whatever was found.
pub proof fn law_deletions_find_their_resource(
    kind: ConfigResourceKind,
    id: Seq<char>,
    deleted: bool,
)
    ensures
        deletion_error(kind, id, deleted) is None <==> id.len() > 0 && deleted,
        id.len() == 0 ==> (deletion_error(kind, id, deleted) matches Some(
            ErrorView::InvalidRequest(_),
        )),
        id.len() > 0 && !deleted ==> (deletion_error(kind, id, deleted) matches Some(
            ErrorView::NotFound(_),
        )),
{
}

} // verus!
