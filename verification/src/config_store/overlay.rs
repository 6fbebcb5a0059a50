//! Laying configuration resources over the configuration file.
//!
//! Lists of the file are extended, and its policies are added to. What the file holds is never
//! replaced: a resource that has the identity of something in the file is a conflict.

use vstd::prelude::*;
use vstd::string::*;

use crate::config_store::prepare::resource_id;
#[allow(unused_imports)]
use crate::config_store::prepare::{identifier, policy_keys_error};
#[allow(unused_imports)]
use crate::config_store::resources::{
    conflict, invalid, kind_name, of_kind, resource_views, ConfigError, ConfigResource,
    ConfigResourceKind, ErrorView, ResourceView,
};
#[allow(unused_imports)]
use crate::json::{
    clone_json, find_member, has_member, items_view, lemma_items_view, lemma_items_view_push, members_view,
    put_member, take_member, Json, JsonView,
};
use crate::text::str_eq;

verus! {

/// The members of an object.
pub type Members = Map<Seq<char>, JsonView>;

/// The error for a resource with the identity of something in the file.
pub open spec fn conflict_error(kind: ConfigResourceKind, id: Seq<char>) -> ErrorView {
    ErrorView::Conflict(
        "config resource "@ + kind_name(kind) + "/"@ + id + " conflicts with file-owned resource"@,
    )
}

fn conflict_with_file(kind: ConfigResourceKind, id: &str) -> (r: ConfigError)
    ensures
        r@ == conflict_error(kind, id@),
{
    let mut text = "config resource ".to_owned();
    text.append(kind.as_str());
    text.append("/");
    text.append(id);
    text.append(" conflicts with file-owned resource");
    conflict(text)
}

/// The value that a policy gets in the configuration. The policy on keys must not hold keys, and
/// gets an empty list of them, to which the keys are added.
pub open spec fn policy_value(r: ResourceView) -> Result<JsonView, ErrorView> {
    if r.kind == ConfigResourceKind::LlmPolicy && r.id == "apiKey"@ {
        match r.value {
            JsonView::Object(m) => if m.dom().contains("keys"@) {
                Err(policy_keys_error())
            } else {
                Ok(JsonView::Object(m.insert("keys"@, JsonView::Array(Seq::empty()))))
            },
            _ => Err(ErrorView::InvalidRequest("llm.policy/apiKey must be an object"@)),
        }
    } else {
        Ok(r.value)
    }
}

/// Policies with one more.
pub open spec fn policy_added(policies: Members, r: ResourceView) -> Result<Members, ErrorView> {
    if policies.dom().contains(r.id) {
        Err(conflict_error(r.kind, r.id))
    } else {
        match policy_value(r) {
            Ok(value) => Ok(policies.insert(r.id, value)),
            Err(e) => Err(e),
        }
    }
}

/// Policies with several more, one after the other, or the first error.
pub open spec fn policies_added(policies: Members, rs: Seq<ResourceView>) -> Result<
    Members,
    ErrorView,
>
    decreases rs.len(),
{
    if rs.len() == 0 {
        Ok(policies)
    } else {
        match policies_added(policies, rs.drop_last()) {
            Ok(before) => policy_added(before, rs.last()),
            Err(e) => Err(e),
        }
    }
}

/// The policies of a section of the file.
pub open spec fn section_policies(section: Members, name: Seq<char>) -> Result<Members, ErrorView> {
    if !section.dom().contains("policies"@) {
        Ok(Map::empty())
    } else {
        match section["policies"@] {
            JsonView::Null => Ok(Map::empty()),
            JsonView::Object(m) => Ok(m),
            _ => Err(
                ErrorView::Conflict(
                    "DB-backed "@ + name + " policies require "@ + name
                        + ".policies to be an object in the file config"@,
                ),
            ),
        }
    }
}

/// A section of the file with the policies of a kind.
pub open spec fn with_policies(
    section: Members,
    rs: Seq<ResourceView>,
    kind: ConfigResourceKind,
    name: Seq<char>,
) -> Result<Members, ErrorView> {
    let db = of_kind(rs, kind);
    if db.len() == 0 {
        Ok(section)
    } else {
        match section_policies(section, name) {
            Err(e) => Err(e),
            Ok(policies) => match policies_added(policies, db) {
                Err(e) => Err(e),
                Ok(added) => Ok(section.insert("policies"@, JsonView::Object(added))),
            },
        }
    }
}

/// Whether one of the resources has an identifier.
pub open spec fn has_id(rs: Seq<ResourceView>, id: Seq<char>) -> bool {
    exists|i: int| 0 <= i < rs.len() && (#[trigger] rs[i]).id == id
}

/// What is wrong with an item of a list of the file: it cannot be identified, or a resource has
/// its identity.
pub open spec fn item_error(item: JsonView, kind: ConfigResourceKind, db: Seq<ResourceView>) -> Option<
    ErrorView,
> {
    match identifier(kind, item) {
        Err(e) => Some(e),
        Ok(id) => if has_id(db, id) {
            Some(conflict_error(kind, id))
        } else {
            None
        },
    }
}

/// The first thing that is wrong with the items of a list of the file.
pub open spec fn first_item_error(
    items: Seq<JsonView>,
    kind: ConfigResourceKind,
    db: Seq<ResourceView>,
) -> Option<ErrorView>
    decreases items.len(),
{
    if items.len() == 0 {
        None
    } else {
        match first_item_error(items.drop_last(), kind, db) {
            Some(e) => Some(e),
            None => item_error(items.last(), kind, db),
        }
    }
}

/// The values of resources.
pub open spec fn values_of(rs: Seq<ResourceView>) -> Seq<JsonView> {
    rs.map_values(|r: ResourceView| r.value)
}

/// The section for models with the resources of a kind at the end of a list of it.
pub open spec fn with_list(
    llm: Members,
    rs: Seq<ResourceView>,
    kind: ConfigResourceKind,
    field: Seq<char>,
) -> Result<Members, ErrorView> {
    let db = of_kind(rs, kind);
    if db.len() == 0 {
        Ok(llm)
    } else {
        let items = if llm.dom().contains(field) {
            match llm[field] {
                JsonView::Array(items) => Ok(items),
                _ => Err(ErrorView::Other("local config llm."@ + field + " must be an array"@)),
            }
        } else {
            Ok(Seq::empty())
        };
        match items {
            Err(e) => Err(e),
            Ok(items) => match first_item_error(items, kind, db) {
                Some(e) => Err(e),
                None => Ok(llm.insert(field, JsonView::Array(items + values_of(db)))),
            },
        }
    }
}

/// The error for keys without a policy on keys.
pub open spec fn keys_need_policy() -> ErrorView {
    ErrorView::Conflict("DB-backed API keys require llm.policies.apiKey"@)
}

/// The policy on keys with keys at the end of its list.
pub open spec fn policy_with_keys(policy: JsonView, values: Seq<JsonView>) -> Result<
    JsonView,
    ErrorView,
> {
    match policy {
        JsonView::Object(m) => if m.dom().contains("keys"@) {
            match m["keys"@] {
                JsonView::Array(keys) => Ok(
                    JsonView::Object(m.insert("keys"@, JsonView::Array(keys + values))),
                ),
                _ => Err(
                    ErrorView::Other("local config llm.policies.apiKey.keys must be an array"@),
                ),
            }
        } else {
            Ok(JsonView::Object(m.insert("keys"@, JsonView::Array(values))))
        },
        _ => Err(ErrorView::Other("local config llm.policies.apiKey must be an object"@)),
    }
}

/// The section for models with the keys.
pub open spec fn with_keys(llm: Members, rs: Seq<ResourceView>) -> Result<Members, ErrorView> {
    let db = of_kind(rs, ConfigResourceKind::LlmApiKey);
    if db.len() == 0 {
        Ok(llm)
    } else if !llm.dom().contains("policies"@) {
        Err(keys_need_policy())
    } else {
        match llm["policies"@] {
            JsonView::Object(policies) => if policies.dom().contains("apiKey"@) {
                match policy_with_keys(policies["apiKey"@], values_of(db)) {
                    Ok(policy) => Ok(
                        llm.insert(
                            "policies"@,
                            JsonView::Object(policies.insert("apiKey"@, policy)),
                        ),
                    ),
                    Err(e) => Err(e),
                }
            } else {
                Err(keys_need_policy())
            },
            _ => Err(ErrorView::Other("local config llm.policies must be an object"@)),
        }
    }
}

/// Whether a kind of resource belongs to the section for models.
pub open spec fn is_llm_kind(kind: ConfigResourceKind) -> bool {
    kind != ConfigResourceKind::ModelCatalog && kind != ConfigResourceKind::UiPolicy
}

/// Whether some resource belongs to the section for models.
pub open spec fn has_llm(rs: Seq<ResourceView>) -> bool {
    exists|i: int| 0 <= i < rs.len() && is_llm_kind((#[trigger] rs[i]).kind)
}

/// Whether some resource is of a kind.
pub open spec fn has_kind(rs: Seq<ResourceView>, kind: ConfigResourceKind) -> bool {
    exists|i: int| 0 <= i < rs.len() && (#[trigger] rs[i]).kind == kind
}

/// The section for models of the file. Without one it is made, unless there are policies for it.
pub open spec fn llm_section(root: Members, rs: Seq<ResourceView>) -> Result<Members, ErrorView> {
    if root.dom().contains("llm"@) {
        match root["llm"@] {
            JsonView::Object(llm) => Ok(llm),
            _ => if has_kind(rs, ConfigResourceKind::LlmPolicy) {
                Err(
                    ErrorView::Conflict(
                        "DB-backed LLM policies require llm to be an object in the file config"@,
                    ),
                )
            } else {
                Err(ErrorView::Other("local config llm must be a JSON object"@))
            },
        }
    } else if has_kind(rs, ConfigResourceKind::LlmPolicy) {
        Err(ErrorView::Conflict("DB-backed LLM policies require llm in the file config"@))
    } else {
        Ok(Map::empty())
    }
}

/// What one step gives to the next one, or its error.
pub open spec fn and_then_list(
    llm: Result<Members, ErrorView>,
    rs: Seq<ResourceView>,
    kind: ConfigResourceKind,
    field: Seq<char>,
) -> Result<Members, ErrorView> {
    match llm {
        Ok(llm) => with_list(llm, rs, kind, field),
        Err(e) => Err(e),
    }
}

/// The section for models with the resources: its policies, its three lists, and its keys.
pub open spec fn llm_overlaid(llm: Members, rs: Seq<ResourceView>) -> Result<Members, ErrorView> {
    let policies = with_policies(llm, rs, ConfigResourceKind::LlmPolicy, "llm"@);
    let providers = and_then_list(
        policies,
        rs,
        ConfigResourceKind::LlmProvider,
        "providers"@,
    );
    let models = and_then_list(providers, rs, ConfigResourceKind::LlmModel, "models"@);
    let virtual_models = and_then_list(
        models,
        rs,
        ConfigResourceKind::LlmVirtualModel,
        "virtualModels"@,
    );
    match virtual_models {
        Ok(llm) => with_keys(llm, rs),
        Err(e) => Err(e),
    }
}

/// The configuration with the resources of the section for models.
pub open spec fn root_with_llm(root: Members, rs: Seq<ResourceView>) -> Result<Members, ErrorView> {
    if !has_llm(rs) {
        Ok(root)
    } else {
        match llm_section(root, rs) {
            Err(e) => Err(e),
            Ok(llm) => match llm_overlaid(llm, rs) {
                Err(e) => Err(e),
                Ok(done) => Ok(root.insert("llm"@, JsonView::Object(done))),
            },
        }
    }
}

/// The configuration with the policies of the user interface.
pub open spec fn root_with_ui(root: Members, rs: Seq<ResourceView>) -> Result<Members, ErrorView> {
    if !has_kind(rs, ConfigResourceKind::UiPolicy) {
        Ok(root)
    } else if !root.dom().contains("ui"@) {
        Err(ErrorView::Conflict("DB-backed UI policies require ui in the file config"@))
    } else {
        match root["ui"@] {
            JsonView::Object(ui) => match with_policies(
                ui,
                rs,
                ConfigResourceKind::UiPolicy,
                "ui"@,
            ) {
                Err(e) => Err(e),
                Ok(done) => Ok(root.insert("ui"@, JsonView::Object(done))),
            },
            _ => Err(
                ErrorView::Conflict(
                    "DB-backed UI policies require ui to be an object in the file config"@,
                ),
            ),
        }
    }
}

/// The configuration with the resources laid over it.
pub open spec fn overlaid(config: JsonView, rs: Seq<ResourceView>) -> Result<JsonView, ErrorView> {
    if !has_llm(rs) && !has_kind(rs, ConfigResourceKind::UiPolicy) {
        Ok(config)
    } else {
        match config {
            JsonView::Object(root) => match root_with_llm(root, rs) {
                Err(e) => Err(e),
                Ok(root) => match root_with_ui(root, rs) {
                    Err(e) => Err(e),
                    Ok(root) => Ok(JsonView::Object(root)),
                },
            },
            _ => Err(ErrorView::Other("local config root must be a JSON object"@)),
        }
    }
}

/// The resources of a kind, by position. There is nothing where there are none.
fn non_empty_resources(resources: &Vec<ConfigResource>, kind: ConfigResourceKind) -> (r: Option<
    Vec<usize>,
>)
    ensures
        ({
            let db = of_kind(resource_views(resources@), kind);
            match r {
                None => db.len() == 0,
                Some(at) => db.len() > 0 && at@.len() == db.len() && forall|i: int|
                    0 <= i < at@.len() ==> (#[trigger] at@[i]) < resources@.len()
                        && resources@[at@[i] as int]@ == db[i],
            }
        }),
{
    let ghost rs = resource_views(resources@);
    let mut at: Vec<usize> = Vec::new();
    let mut i: usize = 0;
    assert(rs.take(0) =~= Seq::empty());
    while i < resources.len()
        invariant
            i <= resources@.len(),
            rs == resource_views(resources@),
            at@.len() == of_kind(rs.take(i as int), kind).len(),
            forall|j: int|
                0 <= j < at@.len() ==> (#[trigger] at@[j]) < resources@.len()
                    && resources@[at@[j] as int]@ == of_kind(rs.take(i as int), kind)[j],
        decreases resources.len() - i,
    {
        assert(rs.take(i + 1).drop_last() =~= rs.take(i as int));
        assert(rs.take(i + 1).last() == resources@[i as int]@);
        if resources[i].kind == kind {
            at.push(i);
        }
        i += 1;
    }
    assert(rs.take(i as int) =~= rs);
    if at.len() == 0 {
        None
    } else {
        Some(at)
    }
}

fn add_policy(policies: &mut Vec<(String, Json)>, resource: &ConfigResource) -> (r: Result<
    (),
    ConfigError,
>)
    ensures
        match policy_added(members_view(old(policies)@), resource@) {
            Ok(m) => r is Ok && members_view(final(policies)@) == m,
            Err(e) => r matches Err(x) && x@ == e,
        },
{
    if has_member(policies, resource.id.as_str()) {
        return Err(conflict_with_file(resource.kind, resource.id.as_str()));
    }
    let value = clone_json(&resource.value);
    let value = if resource.kind == ConfigResourceKind::LlmPolicy && str_eq(
        resource.id.as_str(),
        "apiKey",
    ) {
        match value {
            Json::Object(policy) => {
                let mut policy = policy;
                if has_member(&policy, "keys") {
                    return Err(
                        invalid(
                            "llm.policy/apiKey must not include keys; use llm.apiKey resources".to_owned(),
                        ),
                    );
                }
                let keys: Vec<Json> = Vec::new();
                put_member(&mut policy, "keys", Json::Array(keys));
                assert(items_view(keys@) =~= Seq::empty());
                Json::Object(policy)
            },
            _ => {
                return Err(invalid("llm.policy/apiKey must be an object".to_owned()));
            },
        }
    } else {
        value
    };
    put_member(policies, resource.id.as_str(), value);
    Ok(())
}

proof fn lemma_policies_error(policies: Members, rs: Seq<ResourceView>, n: int)
    requires
        0 <= n <= rs.len(),
        policies_added(policies, rs.take(n)) is Err,
    ensures
        policies_added(policies, rs) == policies_added(policies, rs.take(n)),
    decreases rs.len(),
{
    if n == rs.len() {
        assert(rs.take(n) =~= rs);
    } else {
        let d = rs.drop_last();
        assert(d.take(n) =~= rs.take(n));
        lemma_policies_error(policies, d, n);
    }
}

/// Adds the policies of a kind to a section of the file.
fn append_policy_kind(
    section: &mut Vec<(String, Json)>,
    resources: &Vec<ConfigResource>,
    kind: ConfigResourceKind,
    section_name: &str,
) -> (r: Result<(), ConfigError>)
    ensures
        match with_policies(
            members_view(old(section)@),
            resource_views(resources@),
            kind,
            section_name@,
        ) {
            Ok(m) => r is Ok && members_view(final(section)@) == m,
            Err(e) => r matches Err(x) && x@ == e && final(section)@ == old(section)@,
        },
{
    let ghost before = members_view(section@);
    let ghost rs = resource_views(resources@);
    let ghost db = of_kind(rs, kind);
    let at = match non_empty_resources(resources, kind) {
        Some(at) => at,
        None => {
            return Ok(());
        },
    };
    let held = match find_member(section, "policies") {
        Some(i) => clone_json(&section[i].1),
        None => Json::Null,
    };
    let mut policies: Vec<(String, Json)> = match held {
        Json::Null => Vec::new(),
        Json::Object(m) => m,
        _ => {
            let mut text = "DB-backed ".to_owned();
            text.append(section_name);
            text.append(" policies require ");
            text.append(section_name);
            text.append(".policies to be an object in the file config");
            return Err(conflict(text));
        },
    };
    let ghost start = members_view(policies@);
    assert(section_policies(before, section_name@) == Ok::<Members, ErrorView>(start));
    let mut i: usize = 0;
    assert(db.take(0) =~= Seq::empty());
    while i < at.len()
        invariant
            i <= at@.len(),
            rs == resource_views(resources@),
            db == of_kind(rs, kind),
            at@.len() == db.len(),
            db.len() > 0,
            forall|j: int|
                0 <= j < at@.len() ==> (#[trigger] at@[j]) < resources@.len()
                    && resources@[at@[j] as int]@ == db[j],
            policies_added(start, db.take(i as int)) == Ok::<Members, ErrorView>(
                members_view(policies@),
            ),
            before == members_view(old(section)@),
            section@ == old(section)@,
            section_policies(before, section_name@) == Ok::<Members, ErrorView>(start),
        decreases at.len() - i,
    {
        assert(db.take(i + 1).drop_last() =~= db.take(i as int));
        assert(db.take(i + 1).last() == db[i as int]);
        assert(at@[i as int] < resources@.len());
        if let Err(e) = add_policy(&mut policies, &resources[at[i]]) {
            proof {
                lemma_policies_error(start, db, i + 1);
            }
            return Err(e);
        }
        i += 1;
    }
    assert(db.take(i as int) =~= db);
    put_member(section, "policies", Json::Object(policies));
    assert(members_view(section@) =~= before.insert(
        "policies"@,
        JsonView::Object(members_view(policies@)),
    ));
    Ok(())
}

fn any_has_id(resources: &Vec<ConfigResource>, at: &Vec<usize>, id: &str, Ghost(db): Ghost<
    Seq<ResourceView>,
>) -> (r: bool)
    requires
        at@.len() == db.len(),
        forall|j: int|
            0 <= j < at@.len() ==> (#[trigger] at@[j]) < resources@.len()
                && resources@[at@[j] as int]@ == db[j],
    ensures
        r == has_id(db, id@),
{
    let mut i: usize = 0;
    while i < at.len()
        invariant
            i <= at@.len(),
            at@.len() == db.len(),
            forall|j: int|
                0 <= j < at@.len() ==> (#[trigger] at@[j]) < resources@.len()
                    && resources@[at@[j] as int]@ == db[j],
            forall|j: int| 0 <= j < i ==> (#[trigger] db[j]).id != id@,
        decreases at.len() - i,
    {
        assert(at@[i as int] < resources@.len());
        assert(resources@[at@[i as int] as int]@ == db[i as int]);
        if str_eq(resources[at[i]].id.as_str(), id) {
            assert(db[i as int].id == id@);
            return true;
        }
        i += 1;
    }
    false
}

proof fn lemma_item_error_stays(
    items: Seq<JsonView>,
    kind: ConfigResourceKind,
    db: Seq<ResourceView>,
    n: int,
)
    requires
        0 <= n <= items.len(),
        first_item_error(items.take(n), kind, db) is Some,
    ensures
        first_item_error(items, kind, db) == first_item_error(items.take(n), kind, db),
    decreases items.len(),
{
    if n == items.len() {
        assert(items.take(n) =~= items);
    } else {
        let d = items.drop_last();
        assert(d.take(n) =~= items.take(n));
        lemma_item_error_stays(d, kind, db, n);
    }
}

fn check_items(
    items: &Vec<Json>,
    kind: ConfigResourceKind,
    resources: &Vec<ConfigResource>,
    at: &Vec<usize>,
    Ghost(db): Ghost<Seq<ResourceView>>,
) -> (r: Result<(), ConfigError>)
    requires
        at@.len() == db.len(),
        forall|j: int|
            0 <= j < at@.len() ==> (#[trigger] at@[j]) < resources@.len()
                && resources@[at@[j] as int]@ == db[j],
    ensures
        match first_item_error(items_view(items@), kind, db) {
            Some(e) => r matches Err(x) && x@ == e,
            None => r is Ok,
        },
{
    let ghost all = items_view(items@);
    let mut i: usize = 0;
    proof {
        lemma_items_view(items@);
    }
    assert(all.take(0) =~= Seq::empty());
    while i < items.len()
        invariant
            i <= items@.len(),
            all == items_view(items@),
            all.len() == items@.len(),
            forall|j: int| 0 <= j < items@.len() ==> #[trigger] all[j] == items@[j]@,
            at@.len() == db.len(),
            forall|j: int|
                0 <= j < at@.len() ==> (#[trigger] at@[j]) < resources@.len()
                    && resources@[at@[j] as int]@ == db[j],
            first_item_error(all.take(i as int), kind, db) is None,
        decreases items.len() - i,
    {
        assert(all.take(i + 1).drop_last() =~= all.take(i as int));
        assert(all.take(i + 1).last() == items@[i as int]@);
        match resource_id(kind, &items[i]) {
            Ok(id) => {
                if any_has_id(resources, at, id.as_str(), Ghost(db)) {
                    proof {
                        lemma_item_error_stays(all, kind, db, i + 1);
                    }
                    return Err(conflict_with_file(kind, id.as_str()));
                }
            },
            Err(e) => {
                proof {
                    lemma_item_error_stays(all, kind, db, i + 1);
                }
                return Err(e);
            },
        }
        i += 1;
    }
    assert(all.take(i as int) =~= all);
    Ok(())
}

fn extend_values(
    items: &mut Vec<Json>,
    resources: &Vec<ConfigResource>,
    at: &Vec<usize>,
    Ghost(db): Ghost<Seq<ResourceView>>,
)
    requires
        at@.len() == db.len(),
        forall|j: int|
            0 <= j < at@.len() ==> (#[trigger] at@[j]) < resources@.len()
                && resources@[at@[j] as int]@ == db[j],
    ensures
        items_view(final(items)@) == items_view(old(items)@) + values_of(db),
{
    let ghost before = items_view(items@);
    let mut i: usize = 0;
    assert(before + values_of(db).take(0) =~= before);
    while i < at.len()
        invariant
            i <= at@.len(),
            at@.len() == db.len(),
            forall|j: int|
                0 <= j < at@.len() ==> (#[trigger] at@[j]) < resources@.len()
                    && resources@[at@[j] as int]@ == db[j],
            items_view(items@) == before + values_of(db).take(i as int),
        decreases at.len() - i,
    {
        assert(at@[i as int] < resources@.len());
        let value = clone_json(&resources[at[i]].value);
        proof {
            lemma_items_view_push(items@, value);
            assert(values_of(db).take(i + 1) =~= values_of(db).take(i as int).push(value@));
            assert(before + values_of(db).take(i + 1) =~= (before + values_of(db).take(
                i as int,
            )).push(value@));
        }
        items.push(value);
        i += 1;
    }
    assert(values_of(db).take(i as int) =~= values_of(db));
}

/// Adds the resources of a kind to a list of the section for models.
fn append_llm_kind(
    llm: &mut Vec<(String, Json)>,
    resources: &Vec<ConfigResource>,
    kind: ConfigResourceKind,
    field: &str,
) -> (r: Result<(), ConfigError>)
    ensures
        match with_list(members_view(old(llm)@), resource_views(resources@), kind, field@) {
            Ok(m) => r is Ok && members_view(final(llm)@) == m,
            Err(e) => r matches Err(x) && x@ == e && final(llm)@ == old(llm)@,
        },
{
    let ghost before = members_view(llm@);
    let ghost db = of_kind(resource_views(resources@), kind);
    let at = match non_empty_resources(resources, kind) {
        Some(at) => at,
        None => {
            return Ok(());
        },
    };
    if let Some(i) = find_member(llm, field) {
        match &llm[i].1 {
            Json::Array(items) => {
                if let Err(e) = check_items(items, kind, resources, &at, Ghost(db)) {
                    return Err(e);
                }
            },
            _ => {
                let mut text = "local config llm.".to_owned();
                text.append(field);
                text.append(" must be an array");
                return Err(ConfigError::Other(text));
            },
        }
    }
    let mut items: Vec<Json> = match take_member(llm, field) {
        Some(Json::Array(items)) => items,
        _ => Vec::new(),
    };
    let ghost old_items = items_view(items@);
    extend_values(&mut items, resources, &at, Ghost(db));
    put_member(llm, field, Json::Array(items));
    assert(members_view(llm@) =~= before.insert(
        field@,
        JsonView::Array(old_items + values_of(db)),
    ));
    Ok(())
}

/// Adds keys to the list of the policy on keys.
fn extend_keys(
    policy: Json,
    resources: &Vec<ConfigResource>,
    at: &Vec<usize>,
    Ghost(db): Ghost<Seq<ResourceView>>,
) -> (r: Result<Json, ConfigError>)
    requires
        at@.len() == db.len(),
        forall|j: int|
            0 <= j < at@.len() ==> (#[trigger] at@[j]) < resources@.len()
                && resources@[at@[j] as int]@ == db[j],
    ensures
        match policy_with_keys(policy@, values_of(db)) {
            Ok(v) => r matches Ok(j) && j@ == v,
            Err(e) => r matches Err(x) && x@ == e,
        },
{
    match policy {
        Json::Object(m) => {
            let mut members = m;
            let ghost before = members_view(members@);
            let mut keys: Vec<Json> = match take_member(&mut members, "keys") {
                None => Vec::new(),
                Some(Json::Array(keys)) => keys,
                Some(_) => {
                    return Err(
                        ConfigError::Other(
                            "local config llm.policies.apiKey.keys must be an array".to_owned(),
                        ),
                    );
                },
            };
            let ghost old_keys = items_view(keys@);
            extend_values(&mut keys, resources, at, Ghost(db));
            put_member(&mut members, "keys", Json::Array(keys));
            assert(Seq::<JsonView>::empty() + values_of(db) =~= values_of(db));
            assert(members_view(members@) =~= before.insert(
                "keys"@,
                JsonView::Array(old_keys + values_of(db)),
            ));
            Ok(Json::Object(members))
        },
        _ => Err(
            ConfigError::Other("local config llm.policies.apiKey must be an object".to_owned()),
        ),
    }
}

/// Adds the keys to the section for models.
fn append_api_keys(llm: &mut Vec<(String, Json)>, resources: &Vec<ConfigResource>) -> (r: Result<
    (),
    ConfigError,
>)
    ensures
        match with_keys(members_view(old(llm)@), resource_views(resources@)) {
            Ok(m) => r is Ok && members_view(final(llm)@) == m,
            Err(e) => r matches Err(x) && x@ == e && final(llm)@ == old(llm)@,
        },
{
    let ghost before = members_view(llm@);
    let ghost db = of_kind(resource_views(resources@), ConfigResourceKind::LlmApiKey);
    let at = match non_empty_resources(resources, ConfigResourceKind::LlmApiKey) {
        Some(at) => at,
        None => {
            return Ok(());
        },
    };
    let held = match find_member(llm, "policies") {
        None => {
            return Err(conflict("DB-backed API keys require llm.policies.apiKey".to_owned()));
        },
        Some(i) => clone_json(&llm[i].1),
    };
    let mut policies: Vec<(String, Json)> = match held {
        Json::Object(m) => m,
        _ => {
            return Err(
                ConfigError::Other("local config llm.policies must be an object".to_owned()),
            );
        },
    };
    let ghost old_policies = members_view(policies@);
    let policy = match take_member(&mut policies, "apiKey") {
        None => {
            return Err(conflict("DB-backed API keys require llm.policies.apiKey".to_owned()));
        },
        Some(policy) => policy,
    };
    let policy = match extend_keys(policy, resources, &at, Ghost(db)) {
        Ok(policy) => policy,
        Err(e) => {
            return Err(e);
        },
    };
    let ghost added = policy@;
    put_member(&mut policies, "apiKey", policy);
    assert(members_view(policies@) =~= old_policies.insert("apiKey"@, added));
    put_member(llm, "policies", Json::Object(policies));
    assert(members_view(llm@) =~= before.insert(
        "policies"@,
        JsonView::Object(old_policies.insert("apiKey"@, added)),
    ));
    Ok(())
}

fn any_of_kind(resources: &Vec<ConfigResource>, kind: ConfigResourceKind) -> (r: bool)
    ensures
        r == has_kind(resource_views(resources@), kind),
{
    let ghost rs = resource_views(resources@);
    let mut i: usize = 0;
    while i < resources.len()
        invariant
            i <= resources@.len(),
            rs == resource_views(resources@),
            forall|j: int| 0 <= j < i ==> (#[trigger] rs[j]).kind != kind,
        decreases resources.len() - i,
    {
        assert(rs[i as int] == resources@[i as int]@);
        if resources[i].kind == kind {
            return true;
        }
        i += 1;
    }
    false
}

fn any_llm(resources: &Vec<ConfigResource>) -> (r: bool)
    ensures
        r == has_llm(resource_views(resources@)),
{
    let ghost rs = resource_views(resources@);
    let mut i: usize = 0;
    while i < resources.len()
        invariant
            i <= resources@.len(),
            rs == resource_views(resources@),
            forall|j: int| 0 <= j < i ==> !is_llm_kind((#[trigger] rs[j]).kind),
        decreases resources.len() - i,
    {
        assert(rs[i as int] == resources@[i as int]@);
        let belongs = match resources[i].kind {
            ConfigResourceKind::LlmProvider => true,
            ConfigResourceKind::LlmModel => true,
            ConfigResourceKind::LlmVirtualModel => true,
            ConfigResourceKind::LlmApiKey => true,
            ConfigResourceKind::LlmPolicy => true,
            _ => false,
        };
        if belongs {
            return true;
        }
        i += 1;
    }
    false
}

fn overlay_llm(llm: &mut Vec<(String, Json)>, resources: &Vec<ConfigResource>) -> (r: Result<
    (),
    ConfigError,
>)
    ensures
        match llm_overlaid(members_view(old(llm)@), resource_views(resources@)) {
            Ok(m) => r is Ok && members_view(final(llm)@) == m,
            Err(e) => r matches Err(x) && x@ == e,
        },
{
    if let Err(e) = append_policy_kind(llm, resources, ConfigResourceKind::LlmPolicy, "llm") {
        return Err(e);
    }
    if let Err(e) = append_llm_kind(
        llm,
        resources,
        ConfigResourceKind::LlmProvider,
        "providers",
    ) {
        return Err(e);
    }
    if let Err(e) = append_llm_kind(llm, resources, ConfigResourceKind::LlmModel, "models") {
        return Err(e);
    }
    if let Err(e) = append_llm_kind(
        llm,
        resources,
        ConfigResourceKind::LlmVirtualModel,
        "virtualModels",
    ) {
        return Err(e);
    }
    append_api_keys(llm, resources)
}

fn overlay_root_llm(root: &mut Vec<(String, Json)>, resources: &Vec<ConfigResource>) -> (r: Result<
    (),
    ConfigError,
>)
    ensures
        match root_with_llm(members_view(old(root)@), resource_views(resources@)) {
            Ok(m) => r is Ok && members_view(final(root)@) == m,
            Err(e) => r matches Err(x) && x@ == e,
        },
{
    if !any_llm(resources) {
        return Ok(());
    }
    let ghost before = members_view(root@);
    let has_llm_policies = any_of_kind(resources, ConfigResourceKind::LlmPolicy);
    let mut llm: Vec<(String, Json)> = match take_member(root, "llm") {
        None => {
            if has_llm_policies {
                return Err(
                    conflict("DB-backed LLM policies require llm in the file config".to_owned()),
                );
            }
            Vec::new()
        },
        Some(Json::Object(m)) => m,
        Some(_) => {
            if has_llm_policies {
                return Err(
                    conflict(
                        "DB-backed LLM policies require llm to be an object in the file config".to_owned(),
                    ),
                );
            }
            return Err(ConfigError::Other("local config llm must be a JSON object".to_owned()));
        },
    };
    assert(llm_section(before, resource_views(resources@)) == Ok::<Members, ErrorView>(
        members_view(llm@),
    ));
    if let Err(e) = overlay_llm(&mut llm, resources) {
        return Err(e);
    }
    put_member(root, "llm", Json::Object(llm));
    assert(members_view(root@) =~= before.insert(
        "llm"@,
        JsonView::Object(members_view(llm@)),
    ));
    Ok(())
}

fn overlay_root_ui(root: &mut Vec<(String, Json)>, resources: &Vec<ConfigResource>) -> (r: Result<
    (),
    ConfigError,
>)
    ensures
        match root_with_ui(members_view(old(root)@), resource_views(resources@)) {
            Ok(m) => r is Ok && members_view(final(root)@) == m,
            Err(e) => r matches Err(x) && x@ == e,
        },
{
    if !any_of_kind(resources, ConfigResourceKind::UiPolicy) {
        return Ok(());
    }
    let ghost before = members_view(root@);
    let mut ui: Vec<(String, Json)> = match take_member(root, "ui") {
        None => {
            return Err(conflict("DB-backed UI policies require ui in the file config".to_owned()));
        },
        Some(Json::Object(m)) => m,
        Some(_) => {
            return Err(
                conflict(
                    "DB-backed UI policies require ui to be an object in the file config".to_owned(),
                ),
            );
        },
    };
    if let Err(e) = append_policy_kind(&mut ui, resources, ConfigResourceKind::UiPolicy, "ui") {
        return Err(e);
    }
    put_member(root, "ui", Json::Object(ui));
    assert(members_view(root@) =~= before.insert("ui"@, JsonView::Object(members_view(ui@))));
    Ok(())
}

/// Lays resources over a configuration.
pub fn overlay_config_resources(config: Json, resources: &Vec<ConfigResource>) -> (r: Result<
    Json,
    ConfigError,
>)
    ensures
        match overlaid(config@, resource_views(resources@)) {
            Ok(v) => r matches Ok(j) && j@ == v,
            Err(e) => r matches Err(x) && x@ == e,
        },
{
    if !any_llm(resources) && !any_of_kind(resources, ConfigResourceKind::UiPolicy) {
        return Ok(config);
    }
    match config {
        Json::Object(members) => {
            let mut root = members;
            if let Err(e) = overlay_root_llm(&mut root, resources) {
                return Err(e);
            }
            if let Err(e) = overlay_root_ui(&mut root, resources) {
                return Err(e);
            }
            Ok(Json::Object(root))
        },
        _ => Err(ConfigError::Other("local config root must be a JSON object".to_owned())),
    }
}

} // verus!
