//! What laying resources over a configuration file keeps of the file.

use vstd::prelude::*;
use vstd::string::*;

#[allow(unused_imports)]
use crate::config_store::overlay::{
    conflict_error, first_item_error, has_id, has_kind, has_llm, is_llm_kind, item_error,
    llm_overlaid, overlaid, policies_added, policy_added, root_with_llm, values_of, with_keys,
    with_list, with_policies, Members,
};
#[allow(unused_imports)]
use crate::config_store::prepare::identifier;
#[allow(unused_imports)]
use crate::config_store::resources::{of_kind, ConfigResourceKind, ErrorView, ResourceView};
#[allow(unused_imports)]
use crate::json::JsonView;

verus! {

/// Resources that configure neither models nor the user interface change nothing.
pub proof fn law_unrelated_resources_change_nothing(config: JsonView, rs: Seq<ResourceView>)
    requires
        !has_llm(rs),
        !has_kind(rs, ConfigResourceKind::UiPolicy),
    ensures
        overlaid(config, rs) == Ok::<JsonView, ErrorView>(config),
{
}

/// Only the sections for models and for the user interface change.
pub proof fn law_other_sections_are_kept(config: JsonView, rs: Seq<ResourceView>, key: Seq<char>)
    requires
        overlaid(config, rs) is Ok,
        key != "llm"@,
        key != "ui"@,
    ensures
        overlaid(config, rs)->Ok_0.member(key) == config.member(key),
{
}

/// The names of the members that are laid over differ.
proof fn lemma_names()
    ensures
        "policies"@ != "providers"@,
        "policies"@ != "models"@,
        "policies"@ != "virtualModels"@,
        "providers"@ != "models"@,
        "providers"@ != "virtualModels"@,
        "models"@ != "virtualModels"@,
        "llm"@ != "ui"@,
{
    reveal_strlit("policies");
    reveal_strlit("providers");
    reveal_strlit("models");
    reveal_strlit("virtualModels");
    reveal_strlit("llm");
    reveal_strlit("ui");
    assert("policies"@.len() == 8);
    assert("providers"@.len() == 9);
    assert("models"@.len() == 6);
    assert("virtualModels"@.len() == 13);
    assert("llm"@.len() == 3);
    assert("ui"@.len() == 2);
}

/// The name of the list for a kind of resource.
pub open spec fn list_name(kind: ConfigResourceKind) -> Option<Seq<char>> {
    match kind {
        ConfigResourceKind::LlmProvider => Some("providers"@),
        ConfigResourceKind::LlmModel => Some("models"@),
        ConfigResourceKind::LlmVirtualModel => Some("virtualModels"@),
        _ => None,
    }
}

/// The items of a list of a section; none where there is no list.
pub open spec fn list_items(section: Members, field: Seq<char>) -> Seq<JsonView> {
    if section.dom().contains(field) {
        match section[field] {
            JsonView::Array(items) => items,
            _ => Seq::empty(),
        }
    } else {
        Seq::empty()
    }
}

proof fn lemma_lists(llm: Members, rs: Seq<ResourceView>, kind: ConfigResourceKind)
    requires
        list_name(kind) is Some,
        llm_overlaid(llm, rs) is Ok,
    ensures
        ({
            let field = list_name(kind)->0;
            let done = llm_overlaid(llm, rs)->Ok_0;
            let db = of_kind(rs, kind);
            &&& db.len() == 0 ==> done.dom().contains(field) == llm.dom().contains(field)
                && done[field] == llm[field]
            &&& db.len() > 0 ==> done.dom().contains(field) && done[field] == JsonView::Array(
                list_items(llm, field) + values_of(db),
            )
            &&& db.len() > 0 ==> first_item_error(list_items(llm, field), kind, db) is None
        }),
{
    lemma_names();
}

/// A list of the file keeps its items, in order, at its beginning; the resources follow them, in
/// order, and nothing else does.
pub proof fn law_lists_are_extended(
    root: Members,
    rs: Seq<ResourceView>,
    llm: Members,
    kind: ConfigResourceKind,
)
    requires
        overlaid(JsonView::Object(root), rs) is Ok,
        root.dom().contains("llm"@),
        root["llm"@] == JsonView::Object(llm),
        list_name(kind) is Some,
        of_kind(rs, kind).len() > 0,
    ensures
        ({
            let field = list_name(kind)->0;
            let done = overlaid(JsonView::Object(root), rs)->Ok_0;
            &&& done.member("llm"@) matches Some(section) && section.member(field) == Some(
                JsonView::Array(list_items(llm, field) + values_of(of_kind(rs, kind))),
            )
        }),
{
    lemma_names();
    lemma_of_kind_is_there(rs, kind);
    assert(has_llm(rs));
    lemma_lists(llm, rs, kind);
    let after = root_with_llm(root, rs)->Ok_0;
    assert(after["llm"@] == JsonView::Object(llm_overlaid(llm, rs)->Ok_0));
}

proof fn lemma_of_kind_is_there(rs: Seq<ResourceView>, kind: ConfigResourceKind)
    requires
        of_kind(rs, kind).len() > 0,
    ensures
        has_kind(rs, kind),
        is_llm_kind(kind) ==> has_llm(rs),
    decreases rs.len(),
{
    if rs.len() > 0 {
        let d = rs.drop_last();
        if rs.last().kind == kind {
            assert(rs[rs.len() - 1].kind == kind);
        } else {
            lemma_of_kind_is_there(d, kind);
            let i = choose|i: int| 0 <= i < d.len() && (#[trigger] d[i]).kind == kind;
            assert(rs[i].kind == kind);
        }
    }
}

/// Nothing of the file is replaced: an item of a list of the file that has the identity of a
/// resource is a conflict.
pub proof fn law_identity_conflicts_are_refused(
    root: Members,
    rs: Seq<ResourceView>,
    llm: Members,
    kind: ConfigResourceKind,
    i: int,
    j: int,
)
    requires
        root.dom().contains("llm"@),
        root["llm"@] == JsonView::Object(llm),
        list_name(kind) is Some,
        0 <= i < list_items(llm, list_name(kind)->0).len(),
        0 <= j < of_kind(rs, kind).len(),
        identifier(kind, list_items(llm, list_name(kind)->0)[i]) == Ok::<Seq<char>, ErrorView>(
            of_kind(rs, kind)[j].id,
        ),
    ensures
        overlaid(JsonView::Object(root), rs) is Err,
{
    let field = list_name(kind)->0;
    let items = list_items(llm, field);
    let db = of_kind(rs, kind);
    lemma_of_kind_is_there(rs, kind);
    lemma_names();
    if overlaid(JsonView::Object(root), rs) is Ok {
        lemma_lists(llm, rs, kind);
        assert(has_id(db, db[j].id));
        lemma_no_item_error(items, kind, db, i);
    }
}

proof fn lemma_no_item_error(
    items: Seq<JsonView>,
    kind: ConfigResourceKind,
    db: Seq<ResourceView>,
    i: int,
)
    requires
        first_item_error(items, kind, db) is None,
        0 <= i < items.len(),
    ensures
        item_error(items[i], kind, db) is None,
    decreases items.len(),
{
    if i < items.len() - 1 {
        lemma_no_item_error(items.drop_last(), kind, db, i);
    }
}

/// Adding policies keeps every policy that is there.
pub proof fn law_policies_are_kept(policies: Members, rs: Seq<ResourceView>, id: Seq<char>)
    requires
        policies_added(policies, rs) is Ok,
        policies.dom().contains(id),
    ensures
        policies_added(policies, rs)->Ok_0.dom().contains(id),
        policies_added(policies, rs)->Ok_0[id] == policies[id],
    decreases rs.len(),
{
    if rs.len() > 0 {
        law_policies_are_kept(policies, rs.drop_last(), id);
    }
}

/// The policies of a section, as far as they are an object.
pub open spec fn policy_members(section: Members) -> Members {
    if section.dom().contains("policies"@) {
        match section["policies"@] {
            JsonView::Object(m) => m,
            _ => Map::empty(),
        }
    } else {
        Map::empty()
    }
}

/// The policies of the user interface that the file holds stay as they are.
pub proof fn law_ui_policies_are_kept(
    root: Members,
    rs: Seq<ResourceView>,
    ui: Members,
    id: Seq<char>,
)
    requires
        overlaid(JsonView::Object(root), rs) is Ok,
        root.dom().contains("ui"@),
        root["ui"@] == JsonView::Object(ui),
        policy_members(ui).dom().contains(id),
    ensures
        overlaid(JsonView::Object(root), rs)->Ok_0.member("ui"@) matches Some(JsonView::Object(done))
            && policy_members(done).dom().contains(id) && policy_members(done)[id]
            == policy_members(ui)[id],
{
    lemma_names();
    if has_llm(rs) || has_kind(rs, ConfigResourceKind::UiPolicy) {
        let after = root_with_llm(root, rs)->Ok_0;
        assert(after["ui"@] == root["ui"@]);
        let db = of_kind(rs, ConfigResourceKind::UiPolicy);
        if has_kind(rs, ConfigResourceKind::UiPolicy) && db.len() > 0 {
            law_policies_are_kept(policy_members(ui), db, id);
        }
    }
}

/// The policies for models that the file holds stay as they are, except that keys are added to
/// the policy on keys.
pub proof fn law_llm_policies_are_kept(
    root: Members,
    rs: Seq<ResourceView>,
    llm: Members,
    id: Seq<char>,
)
    requires
        overlaid(JsonView::Object(root), rs) is Ok,
        root.dom().contains("llm"@),
        root["llm"@] == JsonView::Object(llm),
        policy_members(llm).dom().contains(id),
        id != "apiKey"@,
    ensures
        overlaid(JsonView::Object(root), rs)->Ok_0.member("llm"@) matches Some(
            JsonView::Object(done),
        ) && policy_members(done).dom().contains(id) && policy_members(done)[id]
            == policy_members(llm)[id],
{
    lemma_names();
    if has_llm(rs) {
        let db = of_kind(rs, ConfigResourceKind::LlmPolicy);
        if db.len() > 0 {
            law_policies_are_kept(policy_members(llm), db, id);
        }
        lemma_llm_policies(llm, rs, id);
        let after = root_with_llm(root, rs)->Ok_0;
        assert(after["llm"@] == JsonView::Object(llm_overlaid(llm, rs)->Ok_0));
    }
}

proof fn lemma_llm_policies(llm: Members, rs: Seq<ResourceView>, id: Seq<char>)
    requires
        llm_overlaid(llm, rs) is Ok,
        policy_members(llm).dom().contains(id),
        id != "apiKey"@,
    ensures
        policy_members(llm_overlaid(llm, rs)->Ok_0).dom().contains(id),
        policy_members(llm_overlaid(llm, rs)->Ok_0)[id] == policy_members(llm)[id],
{
    lemma_names();
    let db = of_kind(rs, ConfigResourceKind::LlmPolicy);
    let p1 = with_policies(llm, rs, ConfigResourceKind::LlmPolicy, "llm"@)->Ok_0;
    if db.len() > 0 {
        law_policies_are_kept(policy_members(llm), db, id);
    }
    assert(policy_members(p1).dom().contains(id) && policy_members(p1)[id] == policy_members(
        llm,
    )[id]);
    let p2 = with_list(p1, rs, ConfigResourceKind::LlmProvider, "providers"@)->Ok_0;
    assert(policy_members(p2) == policy_members(p1));
    let p3 = with_list(p2, rs, ConfigResourceKind::LlmModel, "models"@)->Ok_0;
    assert(policy_members(p3) == policy_members(p2));
    let p4 = with_list(p3, rs, ConfigResourceKind::LlmVirtualModel, "virtualModels"@)->Ok_0;
    assert(policy_members(p4) == policy_members(p3));
    let p5 = with_keys(p4, rs)->Ok_0;
    assert(policy_members(p5)[id] == policy_members(p4)[id]);
}

/// The values of resources are the value of each, in their order.
pub proof fn law_values_are_those_of_the_resources(rs: Seq<ResourceView>, i: int)
    requires
        0 <= i < rs.len(),
    ensures
        values_of(rs).len() == rs.len(),
        values_of(rs)[i] == rs[i].value,
{
}

proof fn lemma_keys(llm: Members, rs: Seq<ResourceView>, policies: Members, policy: Members)
    requires
        llm_overlaid(llm, rs) is Ok,
        llm.contains_pair("policies"@, JsonView::Object(policies)),
        policies.contains_pair("apiKey"@, JsonView::Object(policy)),
    ensures
        ({
            let done = llm_overlaid(llm, rs)->Ok_0;
            let db = of_kind(rs, ConfigResourceKind::LlmApiKey);
            &&& policy_members(done).dom().contains("apiKey"@)
            &&& db.len() == 0 ==> policy_members(done)["apiKey"@] == JsonView::Object(policy)
            &&& db.len() > 0 ==> (policy_members(done)["apiKey"@] matches JsonView::Object(p)
                && p.contains_pair("keys"@, JsonView::Array(list_items(policy, "keys"@) + values_of(db)))
                && p.remove("keys"@) == policy.remove("keys"@))
        }),
{
    lemma_names();
    let id = "apiKey"@;
    let db = of_kind(rs, ConfigResourceKind::LlmPolicy);
    let p1 = with_policies(llm, rs, ConfigResourceKind::LlmPolicy, "llm"@)->Ok_0;
    if db.len() > 0 {
        law_policies_are_kept(policies, db, id);
    }
    assert(policy_members(p1).dom().contains(id) && policy_members(p1)[id] == policies[id]);
    let p2 = with_list(p1, rs, ConfigResourceKind::LlmProvider, "providers"@)->Ok_0;
    assert(policy_members(p2) == policy_members(p1));
    let p3 = with_list(p2, rs, ConfigResourceKind::LlmModel, "models"@)->Ok_0;
    assert(policy_members(p3) == policy_members(p2));
    let p4 = with_list(p3, rs, ConfigResourceKind::LlmVirtualModel, "virtualModels"@)->Ok_0;
    assert(policy_members(p4) == policy_members(p3));
    let keys = of_kind(rs, ConfigResourceKind::LlmApiKey);
    if keys.len() > 0 {
        let after = policy.insert(
            "keys"@,
            JsonView::Array(list_items(policy, "keys"@) + values_of(keys)),
        );
        assert(after.remove("keys"@) =~= policy.remove("keys"@));
        assert(Seq::<JsonView>::empty() + values_of(keys) =~= values_of(keys));
        assert(p4["policies"@] matches JsonView::Object(_));
    }
}

/// The keys of the file stay, in order, and the keys among the resources follow them, in order:
/// where the overlay succeeds, these are the keys of the policy on keys, and nothing else of that
/// policy changes.
pub proof fn law_keys_follow_those_of_the_file(
    root: Members,
    rs: Seq<ResourceView>,
    llm: Members,
    policies: Members,
    policy: Members,
)
    requires
        overlaid(JsonView::Object(root), rs) is Ok,
        root.contains_pair("llm"@, JsonView::Object(llm)),
        llm.contains_pair("policies"@, JsonView::Object(policies)),
        policies.contains_pair("apiKey"@, JsonView::Object(policy)),
        of_kind(rs, ConfigResourceKind::LlmApiKey).len() > 0,
    ensures
        ({
            let done = overlaid(JsonView::Object(root), rs)->Ok_0;
            let keys = of_kind(rs, ConfigResourceKind::LlmApiKey);
            done.member("llm"@) matches Some(JsonView::Object(section)) && (section.dom().contains(
                "policies"@,
            ) && policy_members(section).dom().contains("apiKey"@) && (policy_members(
                section,
            )["apiKey"@] matches JsonView::Object(p) && p.contains_pair(
                "keys"@,
                JsonView::Array(list_items(policy, "keys"@) + values_of(keys)),
            ) && p.remove("keys"@) == policy.remove("keys"@)))
        }),
{
    lemma_names();
    lemma_of_kind_is_there(rs, ConfigResourceKind::LlmApiKey);
    lemma_keys(llm, rs, policies, policy);
    let after = root_with_llm(root, rs)->Ok_0;
    assert(after["llm"@] == JsonView::Object(llm_overlaid(llm, rs)->Ok_0));
    assert(JsonView::Object(after).member("llm"@) == overlaid(JsonView::Object(root), rs)->Ok_0.member(
        "llm"@,
    ));
}

/// Keys need a policy on keys: without one, neither in the file nor among the resources, keys are
/// refused.
pub proof fn law_keys_need_a_policy(root: Members, rs: Seq<ResourceView>, llm: Members)
    requires
        root.contains_pair("llm"@, JsonView::Object(llm)),
        of_kind(rs, ConfigResourceKind::LlmApiKey).len() > 0,
        of_kind(rs, ConfigResourceKind::LlmPolicy).len() == 0,
        !policy_members(llm).dom().contains("apiKey"@),
    ensures
        overlaid(JsonView::Object(root), rs) is Err,
{
    lemma_names();
    lemma_of_kind_is_there(rs, ConfigResourceKind::LlmApiKey);
    if llm_overlaid(llm, rs) is Ok {
        let p1 = with_policies(llm, rs, ConfigResourceKind::LlmPolicy, "llm"@)->Ok_0;
        let p2 = with_list(p1, rs, ConfigResourceKind::LlmProvider, "providers"@)->Ok_0;
        assert(policy_members(p2) == policy_members(p1));
        let p3 = with_list(p2, rs, ConfigResourceKind::LlmModel, "models"@)->Ok_0;
        assert(policy_members(p3) == policy_members(p2));
        let p4 = with_list(p3, rs, ConfigResourceKind::LlmVirtualModel, "virtualModels"@)->Ok_0;
        assert(policy_members(p4) == policy_members(p3));
    }
}

/// Every policy among the resources is there with its value, under its identifier; only the policy
/// on keys gets an empty list of keys besides.
pub proof fn law_policies_are_added(policies: Members, rs: Seq<ResourceView>, i: int)
    requires
        policies_added(policies, rs) is Ok,
        0 <= i < rs.len(),
    ensures
        ({
            let r = rs[i];
            let done = policies_added(policies, rs)->Ok_0;
            &&& done.dom().contains(r.id)
            &&& !policies.dom().contains(r.id)
            &&& !(r.kind == ConfigResourceKind::LlmPolicy && r.id == "apiKey"@) ==> done[r.id]
                == r.value
            &&& r.kind == ConfigResourceKind::LlmPolicy && r.id == "apiKey"@ ==> (
            r.value matches JsonView::Object(given) && !given.dom().contains("keys"@) && (
            done[r.id] matches JsonView::Object(kept) && kept.remove("keys"@) == given
                && kept.contains_pair("keys"@, JsonView::Array(Seq::empty()))))
        }),
    decreases rs.len(),
{
    let d = rs.drop_last();
    if i < d.len() {
        law_policies_are_added(policies, d, i);
        assert(d[i] == rs[i]);
    } else {
        law_added_ids(policies, d, rs.last().id);
        if rs.last().kind == ConfigResourceKind::LlmPolicy && rs.last().id == "apiKey"@ {
            if let JsonView::Object(given) = rs.last().value {
                let kept = given.insert("keys"@, JsonView::Array(Seq::empty()));
                assert(kept.remove("keys"@) =~= given);
            }
        }
    }
}

/// After policies are added there are those that were there and those that were added, and no
/// others.
pub proof fn law_added_ids(policies: Members, rs: Seq<ResourceView>, id: Seq<char>)
    requires
        policies_added(policies, rs) is Ok,
    ensures
        policies_added(policies, rs)->Ok_0.dom().contains(id) <==> policies.dom().contains(id)
            || has_id(rs, id),
    decreases rs.len(),
{
    if rs.len() > 0 {
        let d = rs.drop_last();
        law_added_ids(policies, d, id);
        if has_id(d, id) {
            let i = choose|i: int| 0 <= i < d.len() && (#[trigger] d[i]).id == id;
            assert(rs[i].id == id);
        }
        if rs.last().id == id {
            assert(rs[rs.len() - 1].id == id);
        }
        if has_id(rs, id) && rs.last().id != id {
            let i = choose|i: int| 0 <= i < rs.len() && (#[trigger] rs[i]).id == id;
            assert(d[i].id == id);
        }
    }
}

/// Policies are added exactly if none has the identifier of one that is there or of another one
/// that is added, and none is a policy on keys that holds keys or is no object.
pub proof fn law_policies_that_can_be_added(policies: Members, rs: Seq<ResourceView>)
    ensures
        policies_added(policies, rs) is Ok <==> (forall|i: int|
            0 <= i < rs.len() ==> !policies.dom().contains((#[trigger] rs[i]).id)) && (forall|
            i: int,
            j: int,
        |
            0 <= i < j < rs.len() ==> (#[trigger] rs[i]).id != (#[trigger] rs[j]).id) && (forall|
            i: int,
        |
            0 <= i < rs.len() && (#[trigger] rs[i]).kind == ConfigResourceKind::LlmPolicy
                && rs[i].id == "apiKey"@ ==> (rs[i].value matches JsonView::Object(m)
                && !m.dom().contains("keys"@))),
    decreases rs.len(),
{
    if rs.len() > 0 {
        let d = rs.drop_last();
        let n = rs.len() - 1;
        law_policies_that_can_be_added(policies, d);
        assert(forall|i: int| 0 <= i < d.len() ==> d[i] == rs[i]);
        if policies_added(policies, d) is Ok {
            law_added_ids(policies, d, rs[n].id);
        }
        if policies_added(policies, rs) is Ok {
            assert forall|i: int, j: int| 0 <= i < j < rs.len() implies (#[trigger] rs[i]).id != (
            #[trigger] rs[j]).id by {
                if j < n {
                    assert(d[i].id != d[j].id);
                } else {
                    assert(d[i].id == rs[i].id);
                }
            }
        } else if forall|i: int, j: int|
            0 <= i < j < rs.len() ==> (#[trigger] rs[i]).id != (#[trigger] rs[j]).id {
            assert forall|i: int, j: int| 0 <= i < j < d.len() implies (#[trigger] d[i]).id != (
            #[trigger] d[j]).id by {
                assert(rs[i].id != rs[j].id);
            }
            if has_id(d, rs[n].id) {
                let i = choose|i: int| 0 <= i < d.len() && (#[trigger] d[i]).id == rs[n].id;
                assert(rs[i].id != rs[n].id);
            }
            assert(rs[n] == rs.last());
            if forall|i: int| 0 <= i < rs.len() ==> !policies.dom().contains((#[trigger] rs[i]).id) {
                assert forall|i: int| 0 <= i < d.len() implies !policies.dom().contains(
                    (#[trigger] d[i]).id,
                ) by {
                    assert(!policies.dom().contains(rs[i].id));
                }
            }
        }
    }
}

/// The items of a list of the file are accepted exactly if each can be identified and none has the
/// identity of a resource.
pub proof fn law_items_that_are_accepted(
    items: Seq<JsonView>,
    kind: ConfigResourceKind,
    db: Seq<ResourceView>,
)
    ensures
        first_item_error(items, kind, db) is None <==> forall|i: int|
            0 <= i < items.len() ==> (identifier(kind, #[trigger] items[i]) matches Ok(id)
                && !has_id(db, id)),
    decreases items.len(),
{
    if items.len() > 0 {
        let d = items.drop_last();
        law_items_that_are_accepted(d, kind, db);
        assert(forall|i: int| 0 <= i < d.len() ==> d[i] == items[i]);
        assert(items[items.len() - 1] == items.last());
        if first_item_error(items, kind, db) is None {
            assert forall|i: int| 0 <= i < items.len() implies (identifier(
                kind,
                #[trigger] items[i],
            ) matches Ok(id) && !has_id(db, id)) by {
                if i < d.len() {
                    assert(identifier(kind, d[i]) is Ok);
                }
            }
        } else if forall|i: int|
            0 <= i < items.len() ==> (identifier(kind, #[trigger] items[i]) matches Ok(id)
                && !has_id(db, id)) {
            assert forall|i: int| 0 <= i < d.len() implies (identifier(
                kind,
                #[trigger] d[i],
            ) matches Ok(id) && !has_id(db, id)) by {
                assert(identifier(kind, items[i]) is Ok);
            }
            assert(identifier(kind, items[items.len() - 1]) is Ok);
        }
    }
}

/// What the section for models holds besides its policies and its three lists stays as it is, and
/// so does a list of which there is no resource.
pub proof fn law_rest_of_the_models_is_kept(
    root: Members,
    rs: Seq<ResourceView>,
    llm: Members,
    field: Seq<char>,
    kind: ConfigResourceKind,
)
    requires
        overlaid(JsonView::Object(root), rs) is Ok,
        root.contains_pair("llm"@, JsonView::Object(llm)),
        list_name(kind) == Some(field) && of_kind(rs, kind).len() == 0 || (field != "policies"@
            && field != "providers"@ && field != "models"@ && field != "virtualModels"@),
    ensures
        overlaid(JsonView::Object(root), rs)->Ok_0.member("llm"@) matches Some(section)
            && section.member(field) == JsonView::Object(llm).member(field),
{
    lemma_names();
    if has_llm(rs) {
        let p1 = with_policies(llm, rs, ConfigResourceKind::LlmPolicy, "llm"@)->Ok_0;
        let p2 = with_list(p1, rs, ConfigResourceKind::LlmProvider, "providers"@)->Ok_0;
        let p3 = with_list(p2, rs, ConfigResourceKind::LlmModel, "models"@)->Ok_0;
        let p4 = with_list(p3, rs, ConfigResourceKind::LlmVirtualModel, "virtualModels"@)->Ok_0;
        let p5 = with_keys(p4, rs)->Ok_0;
        if list_name(kind) == Some(field) {
            lemma_lists(llm, rs, kind);
        }
        assert(p5 == llm_overlaid(llm, rs)->Ok_0);
        assert(JsonView::Object(p5).member(field) == JsonView::Object(llm).member(field));
        let after = root_with_llm(root, rs)->Ok_0;
        assert(after["llm"@] == JsonView::Object(p5));
    }
}

/// A configuration without a section for models gets one that holds the resources alone.
pub proof fn law_models_section_is_made(
    root: Members,
    rs: Seq<ResourceView>,
    kind: ConfigResourceKind,
)
    requires
        overlaid(JsonView::Object(root), rs) is Ok,
        !root.dom().contains("llm"@),
        list_name(kind) is Some,
        of_kind(rs, kind).len() > 0,
    ensures
        overlaid(JsonView::Object(root), rs)->Ok_0.member("llm"@) matches Some(section)
            && section.member(list_name(kind)->0) == Some(
            JsonView::Array(values_of(of_kind(rs, kind))),
        ),
{
    lemma_names();
    lemma_of_kind_is_there(rs, kind);
    let llm = Map::<Seq<char>, JsonView>::empty();
    lemma_lists(llm, rs, kind);
    let items = list_items(llm, list_name(kind)->0);
    assert(items + values_of(of_kind(rs, kind)) =~= values_of(of_kind(rs, kind)));
    let after = root_with_llm(root, rs)->Ok_0;
    assert(after["llm"@] == JsonView::Object(llm_overlaid(llm, rs)->Ok_0));
}

/// Policies are laid over a section of the file only: where the file has no such section, or one
/// that is no object, policies for it are refused.
pub proof fn law_policies_need_a_section(
    root: Members,
    rs: Seq<ResourceView>,
    kind: ConfigResourceKind,
    section: Seq<char>,
)
    requires
        kind == ConfigResourceKind::LlmPolicy && section == "llm"@ || kind
            == ConfigResourceKind::UiPolicy && section == "ui"@,
        has_kind(rs, kind),
        !root.dom().contains(section) || !(root[section] is Object),
    ensures
        overlaid(JsonView::Object(root), rs) is Err,
{
    lemma_names();
    let i = choose|i: int| 0 <= i < rs.len() && (#[trigger] rs[i]).kind == kind;
    assert(rs[i].kind == kind);
    if kind == ConfigResourceKind::LlmPolicy {
        assert(is_llm_kind(rs[i].kind));
        assert(has_llm(rs));
    }
}

/// The policies of the user interface among the resources are there with their values, under their
/// identifiers, beside those of the file.
pub proof fn law_ui_policies_are_added(root: Members, rs: Seq<ResourceView>, ui: Members, i: int)
    requires
        overlaid(JsonView::Object(root), rs) is Ok,
        root.contains_pair("ui"@, JsonView::Object(ui)),
        0 <= i < of_kind(rs, ConfigResourceKind::UiPolicy).len(),
    ensures
        ({
            let r = of_kind(rs, ConfigResourceKind::UiPolicy)[i];
            overlaid(JsonView::Object(root), rs)->Ok_0.member("ui"@) matches Some(
                JsonView::Object(done),
            ) && policy_members(done).contains_pair(r.id, r.value)
        }),
{
    lemma_names();
    let db = of_kind(rs, ConfigResourceKind::UiPolicy);
    lemma_of_kind_is_there(rs, ConfigResourceKind::UiPolicy);
    lemma_of_kind_kinds(rs, ConfigResourceKind::UiPolicy, i);
    let after = root_with_llm(root, rs)->Ok_0;
    assert(after["ui"@] == root["ui"@]);
    law_policies_are_added(policy_members(ui), db, i);
}

proof fn lemma_of_kind_kinds(rs: Seq<ResourceView>, kind: ConfigResourceKind, i: int)
    requires
        0 <= i < of_kind(rs, kind).len(),
    ensures
        of_kind(rs, kind)[i].kind == kind,
    decreases rs.len(),
{
    if rs.len() > 0 && i < of_kind(rs.drop_last(), kind).len() {
        lemma_of_kind_kinds(rs.drop_last(), kind, i);
    }
}

/// The policies for models among the resources are there with their values, under their
/// identifiers, beside those of the file.
pub proof fn law_llm_policies_are_added(root: Members, rs: Seq<ResourceView>, llm: Members, i: int)
    requires
        overlaid(JsonView::Object(root), rs) is Ok,
        root.contains_pair("llm"@, JsonView::Object(llm)),
        0 <= i < of_kind(rs, ConfigResourceKind::LlmPolicy).len(),
        of_kind(rs, ConfigResourceKind::LlmPolicy)[i].id != "apiKey"@,
    ensures
        ({
            let r = of_kind(rs, ConfigResourceKind::LlmPolicy)[i];
            overlaid(JsonView::Object(root), rs)->Ok_0.member("llm"@) matches Some(
                JsonView::Object(done),
            ) && policy_members(done).contains_pair(r.id, r.value)
        }),
{
    lemma_names();
    let db = of_kind(rs, ConfigResourceKind::LlmPolicy);
    let id = db[i].id;
    lemma_of_kind_is_there(rs, ConfigResourceKind::LlmPolicy);
    law_policies_are_added(policy_members(llm), db, i);
    let p1 = with_policies(llm, rs, ConfigResourceKind::LlmPolicy, "llm"@)->Ok_0;
    assert(policy_members(p1).contains_pair(id, db[i].value));
    let p2 = with_list(p1, rs, ConfigResourceKind::LlmProvider, "providers"@)->Ok_0;
    assert(policy_members(p2) == policy_members(p1));
    let p3 = with_list(p2, rs, ConfigResourceKind::LlmModel, "models"@)->Ok_0;
    assert(policy_members(p3) == policy_members(p2));
    let p4 = with_list(p3, rs, ConfigResourceKind::LlmVirtualModel, "virtualModels"@)->Ok_0;
    assert(policy_members(p4) == policy_members(p3));
    let p5 = with_keys(p4, rs)->Ok_0;
    assert(policy_members(p5)[id] == policy_members(p4)[id]);
    let after = root_with_llm(root, rs)->Ok_0;
    assert(after["llm"@] == JsonView::Object(p5));
}

/// Where the policy on keys is a resource, its keys are those among the resources, in order, and
/// what else it holds is kept.
pub proof fn law_keys_of_a_stored_policy(
    root: Members,
    rs: Seq<ResourceView>,
    llm: Members,
    i: int,
)
    requires
        overlaid(JsonView::Object(root), rs) is Ok,
        root.contains_pair("llm"@, JsonView::Object(llm)),
        0 <= i < of_kind(rs, ConfigResourceKind::LlmPolicy).len(),
        of_kind(rs, ConfigResourceKind::LlmPolicy)[i].id == "apiKey"@,
    ensures
        ({
            let r = of_kind(rs, ConfigResourceKind::LlmPolicy)[i];
            let keys = values_of(of_kind(rs, ConfigResourceKind::LlmApiKey));
            overlaid(JsonView::Object(root), rs)->Ok_0.member("llm"@) matches Some(
                JsonView::Object(done),
            ) && policy_members(done).dom().contains("apiKey"@) && (policy_members(
                done,
            )["apiKey"@] matches JsonView::Object(p) && p.contains_pair(
                "keys"@,
                JsonView::Array(keys),
            ) && JsonView::Object(p.remove("keys"@)) == r.value)
        }),
{
    lemma_names();
    let db = of_kind(rs, ConfigResourceKind::LlmPolicy);
    let id = "apiKey"@;
    lemma_of_kind_is_there(rs, ConfigResourceKind::LlmPolicy);
    lemma_of_kind_kinds(rs, ConfigResourceKind::LlmPolicy, i);
    law_policies_are_added(policy_members(llm), db, i);
    let p1 = with_policies(llm, rs, ConfigResourceKind::LlmPolicy, "llm"@)->Ok_0;
    let kept = policy_members(p1)[id]->Object_0;
    let p2 = with_list(p1, rs, ConfigResourceKind::LlmProvider, "providers"@)->Ok_0;
    assert(policy_members(p2) == policy_members(p1));
    let p3 = with_list(p2, rs, ConfigResourceKind::LlmModel, "models"@)->Ok_0;
    assert(policy_members(p3) == policy_members(p2));
    let p4 = with_list(p3, rs, ConfigResourceKind::LlmVirtualModel, "virtualModels"@)->Ok_0;
    assert(policy_members(p4) == policy_members(p3));
    let keys = of_kind(rs, ConfigResourceKind::LlmApiKey);
    assert(Seq::<JsonView>::empty() + values_of(keys) =~= values_of(keys));
    if keys.len() == 0 {
        assert(values_of(keys) =~= Seq::empty());
    } else {
        let with = kept.insert("keys"@, JsonView::Array(values_of(keys)));
        assert(with.remove("keys"@) =~= kept.remove("keys"@));
    }
    let p5 = with_keys(p4, rs)->Ok_0;
    let after = root_with_llm(root, rs)->Ok_0;
    assert(after["llm"@] == JsonView::Object(p5));
}

/// A policy that the file or an earlier resource has is a conflict, whatever the resource says.
pub proof fn law_known_policies_conflict(policies: Members, r: ResourceView)
    requires
        policies.dom().contains(r.id),
    ensures
        policy_added(policies, r) matches Err(ErrorView::Conflict(_)),
{
}

/// A file that does not have the form that resources need is refused: a document that is no
/// object, a section for models that is none, and a list that is no list.
pub proof fn law_malformed_files_are_refused(
    config: JsonView,
    rs: Seq<ResourceView>,
    kind: ConfigResourceKind,
)
    requires
        list_name(kind) is Some,
        of_kind(rs, kind).len() > 0,
        match config {
            JsonView::Object(root) => root.dom().contains("llm"@) && match root["llm"@] {
                JsonView::Object(llm) => llm.dom().contains(list_name(kind)->0)
                    && !(llm[list_name(kind)->0] is Array),
                _ => true,
            },
            _ => true,
        },
    ensures
        overlaid(config, rs) is Err,
{
    lemma_names();
    lemma_of_kind_is_there(rs, kind);
    if let JsonView::Object(root) = config {
        if let JsonView::Object(llm) = root["llm"@] {
            if llm_overlaid(llm, rs) is Ok {
                let field = list_name(kind)->0;
                let p1 = with_policies(llm, rs, ConfigResourceKind::LlmPolicy, "llm"@)->Ok_0;
                assert(p1[field] == llm[field] && p1.dom().contains(field));
                let p2 = with_list(p1, rs, ConfigResourceKind::LlmProvider, "providers"@)->Ok_0;
                let p3 = with_list(p2, rs, ConfigResourceKind::LlmModel, "models"@)->Ok_0;
                if kind == ConfigResourceKind::LlmModel {
                    assert(p2[field] == llm[field] && p2.dom().contains(field));
                }
                if kind == ConfigResourceKind::LlmVirtualModel {
                    assert(p3[field] == llm[field] && p3.dom().contains(field));
                }
            }
        }
    }
}

/// Keys are refused where the policies for models, the policy on keys or its list of keys do not
/// have the form of such.
pub proof fn law_malformed_key_policies_are_refused(
    root: Members,
    rs: Seq<ResourceView>,
    llm: Members,
)
    requires
        root.contains_pair("llm"@, JsonView::Object(llm)),
        llm.dom().contains("policies"@),
        of_kind(rs, ConfigResourceKind::LlmApiKey).len() > 0,
        of_kind(rs, ConfigResourceKind::LlmPolicy).len() == 0,
        match llm["policies"@] {
            JsonView::Object(policies) => policies.dom().contains("apiKey"@) && match policies["apiKey"@] {
                JsonView::Object(policy) => policy.dom().contains("keys"@) && !(policy["keys"@]
                    is Array),
                _ => true,
            },
            _ => true,
        },
    ensures
        overlaid(JsonView::Object(root), rs) is Err,
{
    lemma_names();
    lemma_of_kind_is_there(rs, ConfigResourceKind::LlmApiKey);
    if llm_overlaid(llm, rs) is Ok {
        let p1 = with_policies(llm, rs, ConfigResourceKind::LlmPolicy, "llm"@)->Ok_0;
        let p2 = with_list(p1, rs, ConfigResourceKind::LlmProvider, "providers"@)->Ok_0;
        assert(p2["policies"@] == llm["policies"@] && p2.dom().contains("policies"@));
        let p3 = with_list(p2, rs, ConfigResourceKind::LlmModel, "models"@)->Ok_0;
        assert(p3["policies"@] == llm["policies"@] && p3.dom().contains("policies"@));
        let p4 = with_list(p3, rs, ConfigResourceKind::LlmVirtualModel, "virtualModels"@)->Ok_0;
        assert(p4["policies"@] == llm["policies"@] && p4.dom().contains("policies"@));
    }
}

/// Policies go into a section that has none, whether it leaves them out or says `null`, as they go
/// into one whose policies are an empty object; policies of another form are a conflict.
pub proof fn law_missing_policies_are_empty(
    section: Members,
    rs: Seq<ResourceView>,
    kind: ConfigResourceKind,
    name: Seq<char>,
)
    requires
        of_kind(rs, kind).len() > 0,
    ensures
        ({
            let none = section.remove("policies"@);
            let null = section.insert("policies"@, JsonView::Null);
            let empty = section.insert("policies"@, JsonView::Object(Map::empty()));
            &&& with_policies(none, rs, kind, name) == with_policies(empty, rs, kind, name)
            &&& with_policies(null, rs, kind, name) == with_policies(empty, rs, kind, name)
        }),
        section.dom().contains("policies"@) && (section["policies"@] is Array
            || section["policies"@] is Str || section["policies"@] is Number
            || section["policies"@] is Bool) ==> (with_policies(section, rs, kind, name) matches Err(
            ErrorView::Conflict(_),
        )),
{
    let none = section.remove("policies"@);
    let null = section.insert("policies"@, JsonView::Null);
    let empty = section.insert("policies"@, JsonView::Object(Map::empty()));
    if let Ok(added) = policies_added(Map::empty(), of_kind(rs, kind)) {
        let value = JsonView::Object(added);
        assert(none.insert("policies"@, value) =~= empty.insert("policies"@, value));
        assert(null.insert("policies"@, value) =~= empty.insert("policies"@, value));
    }
}

/// A list is refused for the first of its items that is not accepted: for what keeps that item
/// from being identified, or for the conflict with the resource that has its identity.
pub proof fn law_first_item_is_the_reason(
    items: Seq<JsonView>,
    kind: ConfigResourceKind,
    db: Seq<ResourceView>,
    n: int,
)
    requires
        0 <= n < items.len(),
        forall|i: int|
            0 <= i < n ==> (identifier(kind, #[trigger] items[i]) matches Ok(id) && !has_id(
                db,
                id,
            )),
    ensures
        identifier(kind, items[n]) matches Err(e) ==> first_item_error(items, kind, db) == Some(e),
        identifier(kind, items[n]) matches Ok(id) ==> has_id(db, id) ==> first_item_error(
            items,
            kind,
            db,
        ) == Some(conflict_error(kind, id)) && conflict_error(kind, id) is Conflict,
    decreases items.len(),
{
    let d = items.drop_last();
    assert(forall|i: int| 0 <= i < d.len() ==> d[i] == items[i]);
    if n < d.len() {
        assert forall|i: int| 0 <= i < n implies (identifier(kind, #[trigger] d[i]) matches Ok(id)
            && !has_id(db, id)) by {
            assert(identifier(kind, items[i]) is Ok);
        }
        law_first_item_is_the_reason(d, kind, db, n);
    } else {
        assert forall|i: int| 0 <= i < d.len() implies (identifier(kind, #[trigger] d[i]) matches Ok(
            id,
        ) && !has_id(db, id)) by {
            assert(identifier(kind, items[i]) is Ok);
        }
        law_items_that_are_accepted(d, kind, db);
    }
}

/// Adding policies is adding some and then the others, and fails for the first that cannot be
/// added.
pub proof fn law_policies_are_added_in_order(
    policies: Members,
    first: Seq<ResourceView>,
    rest: Seq<ResourceView>,
)
    ensures
        policies_added(policies, first + rest) == match policies_added(policies, first) {
            Ok(middle) => policies_added(middle, rest),
            Err(e) => Err(e),
        },
        policies_added(policies, Seq::empty()) == Ok::<Members, ErrorView>(policies),
    decreases rest.len(),
{
    let all = first + rest;
    if rest.len() == 0 {
        assert(all =~= first);
    } else {
        law_policies_are_added_in_order(policies, first, rest.drop_last());
        assert(all.drop_last() =~= first + rest.drop_last());
        assert(all.last() == rest.last());
    }
}

/// A section for models that is no object, or is missing, is a conflict with policies for it. With
/// other resources for models, one that is no object is an error of the file.
pub proof fn law_missing_models_section_is_a_conflict(root: Members, rs: Seq<ResourceView>)
    requires
        has_llm(rs),
    ensures
        has_kind(rs, ConfigResourceKind::LlmPolicy) && (!root.dom().contains("llm"@) || !(
        root["llm"@] is Object)) ==> (overlaid(JsonView::Object(root), rs) matches Err(
            ErrorView::Conflict(_),
        )),
        !has_kind(rs, ConfigResourceKind::LlmPolicy) && root.dom().contains("llm"@) && !(
        root["llm"@] is Object) ==> (overlaid(JsonView::Object(root), rs) matches Err(
            ErrorView::Other(_),
        )),
{
}

} // verus!
