//! Configuration resources and lists of them.

use std::str::FromStr;

use vstd::prelude::*;
use vstd::string::*;

#[allow(unused_imports)]
use crate::json::{clone_json, Json, JsonView};
use crate::text::str_eq;

verus! {

/// What a configuration resource configures.
#[derive(Debug, Clone, Copy, PartialEq, Eq, Hash, Structural)]
pub enum ConfigResourceKind {
    ModelCatalog,
    LlmProvider,
    LlmModel,
    LlmVirtualModel,
    LlmApiKey,
    LlmPolicy,
    UiPolicy,
}

/// Why a request about configuration resources is refused.
#[derive(Debug)]
pub enum ConfigResourceError {
    InvalidRequest(String),
    Conflict(String),
    NotFound(String),
}

/// Why an operation on configuration resources fails: a request is refused, or something else is
/// wrong.
#[derive(Debug)]
pub enum ConfigError {
    Resource(ConfigResourceError),
    Other(String),
}

/// Why an operation on configuration resources fails, as plain values.
pub ghost enum ErrorView {
    InvalidRequest(Seq<char>),
    Conflict(Seq<char>),
    NotFound(Seq<char>),
    Other(Seq<char>),
}

impl View for ConfigResourceError {
    type V = ErrorView;

    open spec fn view(&self) -> ErrorView {
        match *self {
            ConfigResourceError::InvalidRequest(s) => ErrorView::InvalidRequest(s@),
            ConfigResourceError::Conflict(s) => ErrorView::Conflict(s@),
            ConfigResourceError::NotFound(s) => ErrorView::NotFound(s@),
        }
    }
}

impl View for ConfigError {
    type V = ErrorView;

    open spec fn view(&self) -> ErrorView {
        match *self {
            ConfigError::Resource(e) => e@,
            ConfigError::Other(s) => ErrorView::Other(s@),
        }
    }
}

/// The text of an error.
pub open spec fn error_text(e: ErrorView) -> Seq<char> {
    match e {
        ErrorView::InvalidRequest(s) => s,
        ErrorView::Conflict(s) => s,
        ErrorView::NotFound(s) => s,
        ErrorView::Other(s) => s,
    }
}

impl ConfigResourceError {
    /// The text of this error.
    pub fn message(&self) -> (r: String)
        ensures
            r@ == error_text(self@),
    {
        match self {
            ConfigResourceError::InvalidRequest(s) => s.clone(),
            ConfigResourceError::Conflict(s) => s.clone(),
            ConfigResourceError::NotFound(s) => s.clone(),
        }
    }
}

impl ConfigError {
    /// The text of this error.
    pub fn message(&self) -> (r: String)
        ensures
            r@ == error_text(self@),
    {
        match self {
            ConfigError::Resource(e) => e.message(),
            ConfigError::Other(s) => s.clone(),
        }
    }
}

pub(crate) fn invalid(text: String) -> (r: ConfigError)
    ensures
        r@ == ErrorView::InvalidRequest(text@),
{
    ConfigError::Resource(ConfigResourceError::InvalidRequest(text))
}

pub(crate) fn conflict(text: String) -> (r: ConfigError)
    ensures
        r@ == ErrorView::Conflict(text@),
{
    ConfigError::Resource(ConfigResourceError::Conflict(text))
}

/// The name of a kind.
pub open spec fn kind_name(kind: ConfigResourceKind) -> Seq<char> {
    match kind {
        ConfigResourceKind::ModelCatalog => "modelCatalog"@,
        ConfigResourceKind::LlmProvider => "llm.provider"@,
        ConfigResourceKind::LlmModel => "llm.model"@,
        ConfigResourceKind::LlmVirtualModel => "llm.virtualModel"@,
        ConfigResourceKind::LlmApiKey => "llm.apiKey"@,
        ConfigResourceKind::LlmPolicy => "llm.policy"@,
        ConfigResourceKind::UiPolicy => "ui.policy"@,
    }
}

/// Whether a text is the name of a kind.
pub open spec fn names_a_kind(name: Seq<char>) -> bool {
    exists|kind: ConfigResourceKind| #[trigger] kind_name(kind) == name
}

/// Kinds that have the same name are the same.
pub proof fn law_kind_names_are_distinct(a: ConfigResourceKind, b: ConfigResourceKind)
    requires
        kind_name(a) == kind_name(b),
    ensures
        a == b,
{
    reveal_strlit("modelCatalog");
    reveal_strlit("llm.provider");
    reveal_strlit("llm.model");
    reveal_strlit("llm.virtualModel");
    reveal_strlit("llm.apiKey");
    reveal_strlit("llm.policy");
    reveal_strlit("ui.policy");
    assert("modelCatalog"@.len() == 12);
    assert("llm.provider"@.len() == 12);
    assert("llm.model"@.len() == 9);
    assert("llm.virtualModel"@.len() == 16);
    assert("llm.apiKey"@.len() == 10);
    assert("llm.policy"@.len() == 10);
    assert("ui.policy"@.len() == 9);
    assert("modelCatalog"@[0] == 'm');
    assert("llm.model"@[0] == 'l');
    assert("ui.policy"@[0] == 'u');
    assert("llm.provider"@[0] == 'l');
    assert("llm.policy"@[4] == 'p');
    assert("llm.apiKey"@[4] == 'a');
}

impl ConfigResourceKind {
    /// The name of this kind.
    pub fn as_str(self) -> (r: &'static str)
        ensures
            r@ == kind_name(self),
    {
        match self {
            ConfigResourceKind::ModelCatalog => "modelCatalog",
            ConfigResourceKind::LlmProvider => "llm.provider",
            ConfigResourceKind::LlmModel => "llm.model",
            ConfigResourceKind::LlmVirtualModel => "llm.virtualModel",
            ConfigResourceKind::LlmApiKey => "llm.apiKey",
            ConfigResourceKind::LlmPolicy => "llm.policy",
            ConfigResourceKind::UiPolicy => "ui.policy",
        }
    }

    /// The kind that has a name.
    pub fn parse_kind(kind: &str) -> (r: Result<ConfigResourceKind, ConfigResourceError>)
        ensures
            match r {
                Ok(k) => kind_name(k) == kind@,
                Err(e) => !names_a_kind(kind@) && e@ == ErrorView::InvalidRequest(
                    "unsupported config resource kind: "@ + kind@,
                ),
            },
    {
        if str_eq(kind, "modelCatalog") {
            return Ok(ConfigResourceKind::ModelCatalog);
        }
        if str_eq(kind, "llm.provider") {
            return Ok(ConfigResourceKind::LlmProvider);
        }
        if str_eq(kind, "llm.model") {
            return Ok(ConfigResourceKind::LlmModel);
        }
        if str_eq(kind, "llm.virtualModel") {
            return Ok(ConfigResourceKind::LlmVirtualModel);
        }
        if str_eq(kind, "llm.apiKey") {
            return Ok(ConfigResourceKind::LlmApiKey);
        }
        if str_eq(kind, "llm.policy") {
            return Ok(ConfigResourceKind::LlmPolicy);
        }
        if str_eq(kind, "ui.policy") {
            return Ok(ConfigResourceKind::UiPolicy);
        }
        Err(
            ConfigResourceError::InvalidRequest(
                "unsupported config resource kind: ".to_owned().concat(kind),
            ),
        )
    }
}

impl FromStr for ConfigResourceKind {
    type Err = ConfigResourceError;

    fn from_str(kind: &str) -> (r: Result<Self, Self::Err>)
        ensures
            match r {
                Ok(k) => kind_name(k) == kind@,
                Err(e) => !names_a_kind(kind@) && e@ == ErrorView::InvalidRequest(
                    "unsupported config resource kind: "@ + kind@,
                ),
            },
    {
        ConfigResourceKind::parse_kind(kind)
    }
}

/// A configuration resource. Times are held as texts.
#[derive(Debug)]
pub struct ConfigResource {
    pub kind: ConfigResourceKind,
    pub id: String,
    pub value: Json,
    pub revision: i64,
    pub created_at: String,
    pub updated_at: String,
}

/// What a configuration resource configures, and how.
#[verifier::ext_equal]
pub ghost struct ResourceView {
    pub kind: ConfigResourceKind,
    pub id: Seq<char>,
    pub value: JsonView,
    pub revision: int,
}

impl View for ConfigResource {
    type V = ResourceView;

    open spec fn view(&self) -> ResourceView {
        ResourceView {
            kind: self.kind,
            id: self.id@,
            value: self.value@,
            revision: self.revision as int,
        }
    }
}

/// The views of resources.
pub open spec fn resource_views(resources: Seq<ConfigResource>) -> Seq<ResourceView> {
    resources.map_values(|r: ConfigResource| r@)
}

/// A configuration resource that is to be stored.
#[derive(Debug)]
pub struct PreparedResource {
    pub kind: ConfigResourceKind,
    pub id: String,
    pub value: Json,
}

/// A configuration resource that is to be stored, as plain values.
#[verifier::ext_equal]
pub ghost struct PreparedView {
    pub kind: ConfigResourceKind,
    pub id: Seq<char>,
    pub value: JsonView,
}

impl View for PreparedResource {
    type V = PreparedView;

    open spec fn view(&self) -> PreparedView {
        PreparedView { kind: self.kind, id: self.id@, value: self.value@ }
    }
}

/// The views of resources that are to be stored.
pub open spec fn prepared_views(prepared: Seq<PreparedResource>) -> Seq<PreparedView> {
    prepared.map_values(|p: PreparedResource| p@)
}

/// Whether an identifier can be used.
pub open spec fn id_error(id: Seq<char>) -> Option<ErrorView> {
    if id.len() == 0 {
        Some(ErrorView::InvalidRequest("config resource id cannot be empty"@))
    } else {
        None
    }
}

/// Checks that an identifier can be used: it must not be empty.
pub fn validate_id(id: &str) -> (r: Result<(), ConfigError>)
    ensures
        match id_error(id@) {
            Some(e) => r matches Err(x) && x@ == e,
            None => r is Ok,
        },
{
    if id.is_empty() {
        return Err(invalid("config resource id cannot be empty".to_owned()));
    }
    Ok(())
}

/// The error for a resource that does not exist.
pub fn not_found(kind: ConfigResourceKind, id: &str) -> (r: ConfigResourceError)
    ensures
        r@ == ErrorView::NotFound("config resource not found: "@ + kind_name(kind) + "/"@ + id@),
{
    let mut text = "config resource not found: ".to_owned();
    text.append(kind.as_str());
    text.append("/");
    text.append(id);
    ConfigResourceError::NotFound(text)
}

/// Where the first resource of a kind with an identifier stands, if there is one.
pub open spec fn find_resource(rs: Seq<ResourceView>, kind: ConfigResourceKind, id: Seq<char>) -> Option<
    int,
>
    decreases rs.len(),
{
    if rs.len() == 0 {
        None
    } else {
        match find_resource(rs.drop_last(), kind, id) {
            Some(i) => Some(i),
            None => if rs.last().kind == kind && rs.last().id == id {
                Some(rs.len() - 1)
            } else {
                None
            },
        }
    }
}

/// Resources after one has been stored: it replaces the value of the one with its kind and
/// identifier, or is added at the end.
pub open spec fn upserted(rs: Seq<ResourceView>, p: PreparedView) -> Seq<ResourceView> {
    match find_resource(rs, p.kind, p.id) {
        Some(i) => rs.update(i, ResourceView { value: p.value, ..rs[i] }),
        None => rs.push(
            ResourceView { kind: p.kind, id: p.id, value: p.value, revision: 1 },
        ),
    }
}

/// Resources after several have been stored, one after the other, or the first error.
pub open spec fn all_upserted(rs: Seq<ResourceView>, ps: Seq<PreparedView>) -> Result<
    Seq<ResourceView>,
    ErrorView,
>
    decreases ps.len(),
{
    if ps.len() == 0 {
        Ok(rs)
    } else {
        match all_upserted(rs, ps.drop_last()) {
            Err(e) => Err(e),
            Ok(before) => match id_error(ps.last().id) {
                Some(e) => Err(e),
                None => Ok(upserted(before, ps.last())),
            },
        }
    }
}

proof fn lemma_find(rs: Seq<ResourceView>, kind: ConfigResourceKind, id: Seq<char>)
    ensures
        match find_resource(rs, kind, id) {
            Some(i) => 0 <= i < rs.len() && rs[i].kind == kind && rs[i].id == id && forall|j: int|
                0 <= j < i ==> !((#[trigger] rs[j]).kind == kind && rs[j].id == id),
            None => forall|j: int|
                0 <= j < rs.len() ==> !((#[trigger] rs[j]).kind == kind && rs[j].id == id),
        },
    decreases rs.len(),
{
    if rs.len() > 0 {
        let d = rs.drop_last();
        lemma_find(d, kind, id);
        match find_resource(d, kind, id) {
            Some(i) => {
                assert(rs[i] == d[i]);
                assert forall|j: int| 0 <= j < i implies !((#[trigger] rs[j]).kind == kind
                    && rs[j].id == id) by {
                    assert(rs[j] == d[j]);
                }
            },
            None => {
                assert forall|j: int| 0 <= j < rs.len() - 1 implies !((#[trigger] rs[j]).kind
                    == kind && rs[j].id == id) by {
                    assert(rs[j] == d[j]);
                }
            },
        }
    }
}

proof fn lemma_find_is_first(rs: Seq<ResourceView>, kind: ConfigResourceKind, id: Seq<char>, i: int)
    requires
        0 <= i < rs.len(),
        rs[i].kind == kind,
        rs[i].id == id,
        forall|j: int| 0 <= j < i ==> !((#[trigger] rs[j]).kind == kind && rs[j].id == id),
    ensures
        find_resource(rs, kind, id) == Some(i),
{
    lemma_find(rs, kind, id);
}

proof fn lemma_find_absent(rs: Seq<ResourceView>, kind: ConfigResourceKind, id: Seq<char>)
    requires
        forall|j: int| 0 <= j < rs.len() ==> !((#[trigger] rs[j]).kind == kind && rs[j].id == id),
    ensures
        find_resource(rs, kind, id) is None,
{
    lemma_find(rs, kind, id);
}

fn position(resources: &Vec<ConfigResource>, kind: ConfigResourceKind, id: &str) -> (r: Option<usize>)
    ensures
        match r {
            Some(i) => i < resources@.len() && find_resource(
                resource_views(resources@),
                kind,
                id@,
            ) == Some(i as int),
            None => find_resource(resource_views(resources@), kind, id@) is None,
        },
{
    let ghost views = resource_views(resources@);
    let mut i: usize = 0;
    while i < resources.len()
        invariant
            i <= resources@.len(),
            views == resource_views(resources@),
            forall|j: int| 0 <= j < i ==> !((#[trigger] views[j]).kind == kind && views[j].id == id@),
        decreases resources.len() - i,
    {
        assert(views[i as int] == resources@[i as int]@);
        if resources[i].kind == kind && str_eq(resources[i].id.as_str(), id) {
            proof {
                lemma_find_is_first(views, kind, id@, i as int);
            }
            return Some(i);
        }
        i += 1;
    }
    proof {
        lemma_find_absent(views, kind, id@);
    }
    None
}

/// The present time, as a text that ends in `Z` (`chrono::Utc::now`).
///
/// Trusted: nothing is claimed of it.
#[verifier::external_body]
fn now() -> String {
    chrono::Utc::now().to_rfc3339_opts(chrono::SecondsFormat::AutoSi, true)
}

/// Whether a resource is the one that is to be stored, by kind and identifier.
pub open spec fn has_key(resource: ConfigResource, prepared: PreparedResource) -> bool {
    resource.kind == prepared.kind && resource.id@ == prepared.id@
}

/// Stores one resource in a list at the times given. The others stay as they are.
pub fn upsert_at(
    resources: &mut Vec<ConfigResource>,
    prepared: &PreparedResource,
    created_at: String,
    updated_at: String,
)
    ensures
        resource_views(final(resources)@) == upserted(resource_views(old(resources)@), prepared@),
        old(resources)@.len() <= final(resources)@.len(),
        forall|i: int|
            0 <= i < old(resources)@.len() ==> (#[trigger] final(resources)@[i]).created_at == old(
                resources,
            )@[i].created_at && final(resources)@[i].updated_at == old(resources)@[i].updated_at,
        forall|i: int|
            0 <= i < old(resources)@.len() && !has_key(old(resources)@[i], *prepared)
                ==> #[trigger] final(resources)@[i] == old(resources)@[i],
        final(resources)@.len() > old(resources)@.len() ==> final(resources)@.last().created_at
            == created_at && final(resources)@.last().updated_at == updated_at,
{
    let ghost before = resources@;
    let value = clone_json(&prepared.value);
    if let Some(i) = position(resources, prepared.kind, prepared.id.as_str()) {
        let ghost rs = resource_views(before);
        proof {
            lemma_find(rs, prepared.kind, prepared.id@);
            assert(rs[i as int] == before[i as int]@);
            assert(has_key(before[i as int], *prepared));
        }
        resources[i].value = value;
        assert(resource_views(resources@) =~= rs.update(
            i as int,
            ResourceView { value: prepared@.value, ..rs[i as int] },
        ));
        return ;
    }
    let resource = ConfigResource {
        kind: prepared.kind,
        id: prepared.id.clone(),
        value,
        revision: 1,
        created_at,
        updated_at,
    };
    resources.push(resource);
    assert(resource_views(resources@) =~= resource_views(before).push(resource@));
}

/// Stores resources in a list, one after the other. The first one with an identifier that cannot
/// be used is an error.
pub fn apply_prepared_upsert(
    resources: Vec<ConfigResource>,
    prepared: &Vec<PreparedResource>,
) -> (r: Result<Vec<ConfigResource>, ConfigError>)
    ensures
        match all_upserted(resource_views(resources@), prepared_views(prepared@)) {
            Ok(views) => r matches Ok(out) && resource_views(out@) == views && resources@.len()
                <= out@.len() && forall|i: int|
                0 <= i < resources@.len() ==> (#[trigger] out@[i]).created_at
                    == resources@[i].created_at && out@[i].updated_at == resources@[i].updated_at
                    && ((forall|j: int|
                    0 <= j < prepared@.len() ==> !has_key(
                        resources@[i],
                        #[trigger] prepared@[j],
                    )) ==> out@[i] == resources@[i]),
            Err(e) => r matches Err(x) && x@ == e,
        },
{
    let ghost start = resources@;
    let ghost rs = resource_views(start);
    let ghost ps = prepared_views(prepared@);
    let mut list = resources;
    let mut i: usize = 0;
    assert(ps.take(0) =~= Seq::empty());
    while i < prepared.len()
        invariant
            i <= prepared@.len(),
            ps == prepared_views(prepared@),
            all_upserted(rs, ps.take(i as int)) == Ok::<Seq<ResourceView>, ErrorView>(
                resource_views(list@),
            ),
            start == resources@,
            rs == resource_views(start),
            start.len() <= list@.len(),
            forall|k: int|
                0 <= k < start.len() ==> (#[trigger] list@[k]).created_at
                    == start[k].created_at && list@[k].updated_at == start[k].updated_at
                    && ((forall|j: int|
                    0 <= j < prepared@.len() ==> !has_key(
                        start[k],
                        #[trigger] prepared@[j],
                    )) ==> list@[k] == start[k]),
        decreases prepared.len() - i,
    {
        assert(ps.take(i + 1).drop_last() =~= ps.take(i as int));
        assert(ps.take(i + 1).last() == prepared@[i as int]@);
        if let Err(e) = validate_id(prepared[i].id.as_str()) {
            proof {
                lemma_error_stays(rs, ps, i + 1);
            }
            return Err(e);
        }
        upsert_at(&mut list, &prepared[i], now(), now());
        i += 1;
    }
    assert(ps.take(i as int) =~= ps);
    Ok(list)
}

proof fn lemma_error_stays(rs: Seq<ResourceView>, ps: Seq<PreparedView>, n: int)
    requires
        0 <= n <= ps.len(),
        all_upserted(rs, ps.take(n)) is Err,
    ensures
        all_upserted(rs, ps) == all_upserted(rs, ps.take(n)),
    decreases ps.len(),
{
    if n == ps.len() {
        assert(ps.take(n) =~= ps);
    } else {
        let d = ps.drop_last();
        assert(d.take(n) =~= ps.take(n));
        lemma_error_stays(rs, d, n);
    }
}

/// Resources without those of a kind with an identifier.
pub open spec fn without(rs: Seq<ResourceView>, kind: ConfigResourceKind, id: Seq<char>) -> Seq<
    ResourceView,
>
    decreases rs.len(),
{
    if rs.len() == 0 {
        Seq::empty()
    } else {
        let before = without(rs.drop_last(), kind, id);
        if rs.last().kind == kind && rs.last().id == id {
            before
        } else {
            before.push(rs.last())
        }
    }
}

/// A list without the resources of a kind with an identifier: the others stay as they are, times
/// and all, in their order.
pub open spec fn deleted(
    resources: Seq<ConfigResource>,
    kind: ConfigResourceKind,
    id: Seq<char>,
) -> Seq<ConfigResource> {
    resources.filter(|x: ConfigResource| !(x.kind == kind && x.id@ == id))
}

/// What a list without some resources configures is what the others configure.
proof fn lemma_deleted_views(
    resources: Seq<ConfigResource>,
    kind: ConfigResourceKind,
    id: Seq<char>,
)
    ensures
        resource_views(deleted(resources, kind, id)) == without(
            resource_views(resources),
            kind,
            id,
        ),
    decreases resources.len(),
{
    reveal(Seq::filter);
    let views = resource_views(resources);
    if resources.len() == 0 {
        assert(resource_views(deleted(resources, kind, id)) =~= without(views, kind, id));
    } else {
        let front = resources.drop_last();
        lemma_deleted_views(front, kind, id);
        assert(resource_views(front) =~= views.drop_last());
        let kept = deleted(front, kind, id);
        assert(resource_views(kept.push(resources.last())) =~= resource_views(kept).push(
            resources.last()@,
        ));
    }
}

/// Removes the resources of a kind with an identifier from a list.
pub fn apply_delete(resources: Vec<ConfigResource>, kind: ConfigResourceKind, id: &str) -> (r: Vec<
    ConfigResource,
>)
    ensures
        r@ == deleted(resources@, kind, id@),
        resource_views(r@) == without(resource_views(resources@), kind, id@),
{
    let ghost all = resources@;
    let mut out: Vec<ConfigResource> = Vec::new();
    proof {
        reveal(Seq::filter);
        assert(all.take(0) =~= Seq::empty());
    }
    for resource in it: resources
        invariant
            it.seq() == all,
            out@ == deleted(all.take(it.index()), kind, id@),
    {
        proof {
            reveal(Seq::filter);
            assert(all.take(it.index() + 1).drop_last() =~= all.take(it.index()));
        }
        if !(resource.kind == kind && str_eq(resource.id.as_str(), id)) {
            out.push(resource);
        }
    }
    proof {
        assert(all.take(all.len() as int) =~= all);
        lemma_deleted_views(all, kind, id@);
    }
    out
}

/// Whether no two resources have the same kind and identifier.
pub open spec fn unique(rs: Seq<ResourceView>) -> bool {
    forall|i: int, j: int|
        0 <= i < j < rs.len() ==> !((#[trigger] rs[i]).kind == (#[trigger] rs[j]).kind && rs[i].id
            == rs[j].id)
}

/// What a kind and an identifier stand for.
pub open spec fn lookup(rs: Seq<ResourceView>, kind: ConfigResourceKind, id: Seq<char>) -> Option<
    JsonView,
> {
    match find_resource(rs, kind, id) {
        Some(i) => Some(rs[i].value),
        None => None,
    }
}

/// What was stored is found.
pub proof fn law_upsert_is_found(rs: Seq<ResourceView>, p: PreparedView)
    ensures
        lookup(upserted(rs, p), p.kind, p.id) == Some(p.value),
{
    lemma_find(rs, p.kind, p.id);
    let after = upserted(rs, p);
    match find_resource(rs, p.kind, p.id) {
        Some(i) => {
            assert forall|j: int| 0 <= j < i implies !((#[trigger] after[j]).kind == p.kind
                && after[j].id == p.id) by {
                assert(after[j] == rs[j]);
            }
            lemma_find_is_first(after, p.kind, p.id, i);
        },
        None => {
            assert forall|j: int| 0 <= j < rs.len() implies !((#[trigger] after[j]).kind == p.kind
                && after[j].id == p.id) by {
                assert(after[j] == rs[j]);
            }
            lemma_find_is_first(after, p.kind, p.id, rs.len() as int);
        },
    }
}

/// Storing a resource changes no other one.
pub proof fn law_upsert_keeps_others(
    rs: Seq<ResourceView>,
    p: PreparedView,
    kind: ConfigResourceKind,
    id: Seq<char>,
)
    requires
        !(kind == p.kind && id == p.id),
    ensures
        lookup(upserted(rs, p), kind, id) == lookup(rs, kind, id),
{
    lemma_find(rs, p.kind, p.id);
    lemma_find(rs, kind, id);
    let after = upserted(rs, p);
    match find_resource(rs, kind, id) {
        Some(i) => {
            assert forall|j: int| 0 <= j < i implies !((#[trigger] after[j]).kind == kind
                && after[j].id == id) by {
                assert(!(rs[j].kind == kind && rs[j].id == id));
            }
            lemma_find_is_first(after, kind, id, i);
        },
        None => {
            assert forall|j: int| 0 <= j < after.len() implies !((#[trigger] after[j]).kind == kind
                && after[j].id == id) by {
                if j < rs.len() {
                    assert(!(rs[j].kind == kind && rs[j].id == id));
                }
            }
            lemma_find_absent(after, kind, id);
        },
    }
}

/// Storing a resource never makes two of the same kind with the same identifier.
pub proof fn law_upsert_keeps_unique(rs: Seq<ResourceView>, p: PreparedView)
    requires
        unique(rs),
    ensures
        unique(upserted(rs, p)),
{
    lemma_find(rs, p.kind, p.id);
    let after = upserted(rs, p);
    assert forall|i: int, j: int| 0 <= i < j < after.len() implies !((#[trigger] after[i]).kind == (
    #[trigger] after[j]).kind && after[i].id == after[j].id) by {
        assert(!(rs[i].kind == p.kind && rs[i].id == p.id) || find_resource(rs, p.kind, p.id)
            is Some);
        if j < rs.len() {
            assert(!(rs[i].kind == rs[j].kind && rs[i].id == rs[j].id));
        }
    }
}

/// What was removed is not found.
pub proof fn law_delete_removes(rs: Seq<ResourceView>, kind: ConfigResourceKind, id: Seq<char>)
    ensures
        lookup(without(rs, kind, id), kind, id) is None,
    decreases rs.len(),
{
    if rs.len() > 0 {
        law_delete_removes(rs.drop_last(), kind, id);
        let before = without(rs.drop_last(), kind, id);
        let after = without(rs, kind, id);
        if !(rs.last().kind == kind && rs.last().id == id) {
            assert(after.drop_last() =~= before);
        }
    }
}

/// Removing a resource changes no other one.
pub proof fn law_delete_keeps_others(
    rs: Seq<ResourceView>,
    kind: ConfigResourceKind,
    id: Seq<char>,
    other: ConfigResourceKind,
    other_id: Seq<char>,
)
    requires
        !(kind == other && id == other_id),
    ensures
        lookup(without(rs, kind, id), other, other_id) == lookup(rs, other, other_id),
    decreases rs.len(),
{
    if rs.len() > 0 {
        let d = rs.drop_last();
        law_delete_keeps_others(d, kind, id, other, other_id);
        lemma_find(d, other, other_id);
        let before = without(d, kind, id);
        lemma_find(before, other, other_id);
        if !(rs.last().kind == kind && rs.last().id == id) {
            assert(before.push(rs.last()).drop_last() =~= before);
        }
    }
}

/// Removing a resource that was added gives back what was there: `after` is `before` with the
/// resource stored.
pub proof fn law_delete_undoes_upsert(
    before: Seq<ConfigResource>,
    prepared: PreparedResource,
    after: Seq<ConfigResource>,
)
    requires
        forall|i: int| 0 <= i < before.len() ==> !has_key(#[trigger] before[i], prepared),
        resource_views(after) == upserted(resource_views(before), prepared@),
        before.len() <= after.len(),
        forall|i: int| 0 <= i < before.len() ==> #[trigger] after[i] == before[i],
    ensures
        deleted(after, prepared.kind, prepared.id@) == before,
{
    let rs = resource_views(before);
    assert forall|j: int| 0 <= j < rs.len() implies !((#[trigger] rs[j]).kind == prepared.kind
        && rs[j].id == prepared.id@) by {
        assert(!has_key(before[j], prepared));
    }
    lemma_find_absent(rs, prepared.kind, prepared.id@);
    assert(resource_views(after).len() == before.len() + 1);
    assert(resource_views(after).last() == after.last()@);
    assert(after.drop_last() =~= before);
    reveal(Seq::filter);
    lemma_nothing_deleted(before, prepared.kind, prepared.id@);
}

proof fn lemma_nothing_deleted(
    resources: Seq<ConfigResource>,
    kind: ConfigResourceKind,
    id: Seq<char>,
)
    requires
        forall|i: int|
            0 <= i < resources.len() ==> !((#[trigger] resources[i]).kind == kind
                && resources[i].id@ == id),
    ensures
        deleted(resources, kind, id) == resources,
    decreases resources.len(),
{
    reveal(Seq::filter);
    if resources.len() > 0 {
        let front = resources.drop_last();
        assert forall|i: int| 0 <= i < front.len() implies !((#[trigger] front[i]).kind == kind
            && front[i].id@ == id) by {
            assert(front[i] == resources[i]);
        }
        lemma_nothing_deleted(front, kind, id);
        assert(!(resources[resources.len() - 1].kind == kind && resources[resources.len() - 1].id@
            == id));
        assert(front.push(resources.last()) =~= resources);
    }
}

/// Removing a resource again changes nothing.
pub proof fn law_delete_twice(
    resources: Seq<ConfigResource>,
    kind: ConfigResourceKind,
    id: Seq<char>,
)
    ensures
        deleted(deleted(resources, kind, id), kind, id) == deleted(resources, kind, id),
{
    broadcast use Seq::lemma_filter_pred;

    lemma_nothing_deleted(deleted(resources, kind, id), kind, id);
}

/// The resources of a kind.
pub open spec fn of_kind(rs: Seq<ResourceView>, kind: ConfigResourceKind) -> Seq<ResourceView>
    decreases rs.len(),
{
    if rs.len() == 0 {
        Seq::empty()
    } else {
        let before = of_kind(rs.drop_last(), kind);
        if rs.last().kind == kind {
            before.push(rs.last())
        } else {
            before
        }
    }
}

/// The catalogs in a list of resources: those of the first resource of that kind, the base before
/// the custom one.
pub open spec fn catalog_values(value: JsonView) -> Seq<JsonView> {
    let base = match value.member("base"@) {
        Some(v) => seq![v],
        None => Seq::empty(),
    };
    match value.member("custom"@) {
        Some(v) => base.push(v),
        None => base,
    }
}

/// The catalogs of models in a list of resources, inline.
pub fn model_catalog_sources(resources: &Vec<ConfigResource>) -> (r: Result<Vec<Json>, ConfigError>)
    ensures
        ({
            let catalogs = of_kind(resource_views(resources@), ConfigResourceKind::ModelCatalog);
            if catalogs.len() == 0 {
                r matches Ok(out) && out@.len() == 0
            } else if catalogs[0].value is Object {
                r matches Ok(out) && crate::json::items_view(out@) == catalog_values(
                    catalogs[0].value,
                )
            } else {
                r matches Err(e) && e@ == ErrorView::Other(
                    "modelCatalog resource must be an object"@,
                )
            }
        }),
        match catalogs_in(resource_views(resources@)) {
            Some(values) => r matches Ok(out) && crate::json::items_view(out@) == values,
            None => r is Err,
        },
{
    let ghost rs = resource_views(resources@);
    let mut i: usize = 0;
    assert(rs.take(0) =~= Seq::empty());
    while i < resources.len() && resources[i].kind != ConfigResourceKind::ModelCatalog
        invariant
            i <= resources@.len(),
            rs == resource_views(resources@),
            of_kind(rs.take(i as int), ConfigResourceKind::ModelCatalog).len() == 0,
        decreases resources.len() - i,
    {
        assert(rs.take(i + 1).drop_last() =~= rs.take(i as int));
        assert(rs.take(i + 1).last() == resources@[i as int]@);
        i += 1;
    }
    if i == resources.len() {
        assert(rs.take(i as int) =~= rs);
        return Ok(Vec::new());
    }
    proof {
        lemma_first_of_kind(rs, ConfigResourceKind::ModelCatalog, i as int);
    }
    let value = &resources[i].value;
    match value {
        Json::Object(_) => {},
        _ => {
            return Err(ConfigError::Other("modelCatalog resource must be an object".to_owned()));
        },
    }
    let mut out: Vec<Json> = Vec::new();
    if let Some(base) = value.get("base") {
        let c = clone_json(base);
        proof {
            crate::json::lemma_items_view_push(out@, c);
        }
        out.push(c);
        assert(crate::json::items_view(out@) =~= seq![c@]);
    }
    if let Some(custom) = value.get("custom") {
        let c = clone_json(custom);
        proof {
            crate::json::lemma_items_view_push(out@, c);
        }
        out.push(c);
    }
    assert(crate::json::items_view(out@) =~= catalog_values(value@));
    Ok(out)
}

proof fn lemma_first_of_kind(rs: Seq<ResourceView>, kind: ConfigResourceKind, i: int)
    requires
        0 <= i < rs.len(),
        rs[i].kind == kind,
        of_kind(rs.take(i), kind).len() == 0,
    ensures
        of_kind(rs, kind).len() > 0,
        of_kind(rs, kind)[0] == rs[i],
    decreases rs.len(),
{
    let d = rs.drop_last();
    if i == rs.len() - 1 {
        assert(rs.take(i) =~= d);
    } else {
        assert(d.take(i) =~= rs.take(i));
        lemma_first_of_kind(d, kind, i);
    }
}

/// Storing a resource touches at most one place: an existing resource keeps its place, its kind,
/// its identifier and its revision and gets the new value; a new one follows all others, as their
/// first revision.
pub proof fn law_upsert_changes_one_place(rs: Seq<ResourceView>, p: PreparedView, i: int)
    ensures
        ({
            let after = upserted(rs, p);
            let known = exists|j: int|
                0 <= j < rs.len() && (#[trigger] rs[j]).kind == p.kind && rs[j].id == p.id;
            &&& after.len() == rs.len() + if known {
                0int
            } else {
                1
            }
            &&& 0 <= i < rs.len() ==> after[i].kind == rs[i].kind && after[i].id == rs[i].id
                && after[i].revision == rs[i].revision
            &&& 0 <= i < rs.len() && !(rs[i].kind == p.kind && rs[i].id == p.id) ==> after[i]
                == rs[i]
            &&& !known ==> after.last().kind == p.kind && after.last().id == p.id
                && after.last().value == p.value && after.last().revision == 1
        }),
{
    lemma_find(rs, p.kind, p.id);
}

/// Several resources are stored one after the other: storing some, and then others, is storing
/// all of them.
pub proof fn law_upserts_follow_each_other(
    rs: Seq<ResourceView>,
    first: Seq<PreparedView>,
    then_those: Seq<PreparedView>,
)
    ensures
        all_upserted(rs, first + then_those) == match all_upserted(rs, first) {
            Ok(middle) => all_upserted(middle, then_those),
            Err(e) => Err(e),
        },
        all_upserted(rs, Seq::empty()) == Ok::<Seq<ResourceView>, ErrorView>(rs),
    decreases then_those.len(),
{
    let all = first + then_those;
    if then_those.len() == 0 {
        assert(all =~= first);
    } else {
        law_upserts_follow_each_other(rs, first, then_those.drop_last());
        assert(all.drop_last() =~= first + then_those.drop_last());
        assert(all.last() == then_those.last());
    }
}

/// Storing resources fails exactly if one of them has an empty identifier.
pub proof fn law_upserts_fail_on_empty_ids(rs: Seq<ResourceView>, ps: Seq<PreparedView>)
    ensures
        all_upserted(rs, ps) is Err <==> exists|i: int|
            0 <= i < ps.len() && (#[trigger] ps[i]).id.len() == 0,
    decreases ps.len(),
{
    if ps.len() > 0 {
        let d = ps.drop_last();
        law_upserts_fail_on_empty_ids(rs, d);
        assert(ps[ps.len() - 1] == ps.last());
        if exists|i: int| 0 <= i < d.len() && (#[trigger] d[i]).id.len() == 0 {
            let i = choose|i: int| 0 <= i < d.len() && (#[trigger] d[i]).id.len() == 0;
            assert(ps[i].id.len() == 0);
        }
        if exists|i: int| 0 <= i < ps.len() && (#[trigger] ps[i]).id.len() == 0 {
            let i = choose|i: int| 0 <= i < ps.len() && (#[trigger] ps[i]).id.len() == 0;
            if i < d.len() {
                assert(d[i].id.len() == 0);
            }
        }
    }
}

/// Storing one resource of a request stores it as it is.
pub proof fn law_one_upsert(rs: Seq<ResourceView>, p: PreparedView)
    requires
        p.id.len() > 0,
    ensures
        all_upserted(rs, seq![p]) == Ok::<Seq<ResourceView>, ErrorView>(upserted(rs, p)),
{
    assert(seq![p].drop_last() =~= Seq::<PreparedView>::empty());
    assert(all_upserted(rs, Seq::<PreparedView>::empty()) == Ok::<Seq<ResourceView>, ErrorView>(
        rs,
    ));
}

/// The resources of a kind are all those of the list that are of it, in their order.
pub proof fn law_of_kind_picks_the_kind(rs: Seq<ResourceView>, kind: ConfigResourceKind)
    ensures
        of_kind(rs, kind) == rs.filter(|r: ResourceView| r.kind == kind),
    decreases rs.len(),
{
    reveal(Seq::filter);
    let f = |r: ResourceView| r.kind == kind;
    if rs.len() > 0 {
        law_of_kind_picks_the_kind(rs.drop_last(), kind);
        assert(rs.filter(f) == if f(rs.last()) {
            rs.drop_last().filter(f).push(rs.last())
        } else {
            rs.drop_last().filter(f)
        });
    } else {
        assert(rs.filter(f) =~= Seq::empty());
    }
}

/// A catalog has a base, a custom part, both or neither: each is a catalog of its own, and the
/// base comes first.
pub proof fn law_base_catalog_comes_first(
    members: Map<Seq<char>, JsonView>,
    base: JsonView,
    custom: JsonView,
)
    ensures
        ({
            let empty = members.remove("base"@).remove("custom"@);
            &&& catalog_values(JsonView::Object(empty)).len() == 0
            &&& catalog_values(JsonView::Object(empty.insert("base"@, base))) == seq![base]
            &&& catalog_values(JsonView::Object(empty.insert("custom"@, custom))) == seq![custom]
            &&& catalog_values(
                JsonView::Object(empty.insert("custom"@, custom).insert("base"@, base)),
            ) == seq![base, custom]
        }),
{
    reveal_strlit("base");
    reveal_strlit("custom");
    assert("base"@.len() == 4);
    assert("custom"@.len() == 6);
    assert(Seq::<JsonView>::empty().push(custom) =~= seq![custom]);
    assert(seq![base].push(custom) =~= seq![base, custom]);
}

/// The catalogs among resources, if what should be one has the form of one.
pub open spec fn catalogs_in(rs: Seq<ResourceView>) -> Option<Seq<JsonView>> {
    let catalogs = of_kind(rs, ConfigResourceKind::ModelCatalog);
    if catalogs.len() == 0 {
        Some(Seq::empty())
    } else if catalogs[0].value is Object {
        Some(catalog_values(catalogs[0].value))
    } else {
        None
    }
}

/// Where no resource is a catalog there are no catalogs; otherwise the first one counts, wherever
/// it stands among the resources.
pub proof fn law_first_catalog_counts(
    before: Seq<ResourceView>,
    catalog: ResourceView,
    after: Seq<ResourceView>,
)
    requires
        forall|i: int|
            0 <= i < before.len() ==> (#[trigger] before[i]).kind
                != ConfigResourceKind::ModelCatalog,
        catalog.kind == ConfigResourceKind::ModelCatalog,
    ensures
        catalogs_in(before) == Some(Seq::<JsonView>::empty()),
        catalog.value is Object ==> catalogs_in(before + seq![catalog] + after) == Some(
            catalog_values(catalog.value),
        ),
        !(catalog.value is Object) ==> catalogs_in(before + seq![catalog] + after) is None,
{
    let kind = ConfigResourceKind::ModelCatalog;
    let all = before + seq![catalog] + after;
    lemma_none_of_kind(before, kind);
    assert(all.take(before.len() as int) =~= before);
    lemma_first_of_kind(all, kind, before.len() as int);
}

proof fn lemma_none_of_kind(rs: Seq<ResourceView>, kind: ConfigResourceKind)
    requires
        forall|i: int| 0 <= i < rs.len() ==> (#[trigger] rs[i]).kind != kind,
    ensures
        of_kind(rs, kind).len() == 0,
    decreases rs.len(),
{
    if rs.len() > 0 {
        assert forall|i: int| 0 <= i < rs.drop_last().len() implies (
        #[trigger] rs.drop_last()[i]).kind != kind by {
            assert(rs[i].kind != kind);
        }
        lemma_none_of_kind(rs.drop_last(), kind);
        assert(rs[rs.len() - 1].kind != kind);
    }
}

} // verus!
