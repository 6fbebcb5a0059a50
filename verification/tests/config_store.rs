use agentgateway::config_store::overlay::overlay_config_resources;
use agentgateway::config_store::prepare::{
    ensure_no_api_key_id, prepare_api_key_update, prepare_policy_upsert, prepare_resource,
    prepare_resource_with, prepare_resources, resource_id, set_api_key_id, ConfigResourceUpsert,
    ConfigResourceUpsertRequest,
};
use agentgateway::config_store::resources::{
    apply_delete, apply_prepared_upsert, model_catalog_sources, not_found, upsert_at, validate_id,
    ConfigError, ConfigResource, ConfigResourceError, ConfigResourceKind, PreparedResource,
};
use agentgateway::config_store::rows::{
    delete_outcome, sqlite_row_to_resource, upsert_response, ResourceRow,
};
use agentgateway::json::{parse_json, Json};

fn json(text: &str) -> Json {
    parse_json(text.as_bytes()).expect("a JSON text")
}

/// The value at a path such as `/llm/models/0`.
fn pointer<'a>(value: &'a Json, path: &str) -> Option<&'a Json> {
    let mut at = value;
    for step in path.split('/').skip(1) {
        at = match at {
            Json::Array(_) => at.get_index(step.parse().ok()?)?,
            _ => at.get(step)?,
        };
    }
    Some(at)
}

fn text_at<'a>(value: &'a Json, path: &str) -> Option<&'a str> {
    pointer(value, path).and_then(|v| v.as_str())
}

fn test_resource(kind: ConfigResourceKind, id: &str, value: &str) -> ConfigResource {
    ConfigResource {
        kind,
        id: id.to_string(),
        value: json(value),
        revision: 1,
        created_at: "2024-01-01T00:00:00+00:00".to_string(),
        updated_at: "2024-01-01T00:00:00+00:00".to_string(),
    }
}

fn prepared(kind: ConfigResourceKind, id: &str, value: &str) -> PreparedResource {
    PreparedResource {
        kind,
        id: id.to_string(),
        value: json(value),
    }
}

const KINDS: [ConfigResourceKind; 7] = [
    ConfigResourceKind::ModelCatalog,
    ConfigResourceKind::LlmProvider,
    ConfigResourceKind::LlmModel,
    ConfigResourceKind::LlmVirtualModel,
    ConfigResourceKind::LlmApiKey,
    ConfigResourceKind::LlmPolicy,
    ConfigResourceKind::UiPolicy,
];

#[test]
fn derives_resource_ids_and_manages_api_key_ids() {
    let err = "traffic.listener"
        .parse::<ConfigResourceKind>()
        .expect_err("unsupported kind should fail");
    assert!(err.message().contains("unsupported config resource kind"));
    assert_eq!(
        resource_id(ConfigResourceKind::LlmProvider, &json(r#"{"name": "openai"}"#))
            .expect("provider id"),
        "openai"
    );
    assert_eq!(
        resource_id(ConfigResourceKind::LlmModel, &json(r#"{"name": "fast"}"#)).expect("model id"),
        "fast"
    );
    assert_eq!(
        resource_id(
            ConfigResourceKind::LlmModel,
            &json(r#"{"id": "model_01", "name": "fast"}"#)
        )
        .expect("stable model id"),
        "model_01"
    );
    assert_eq!(
        resource_id(
            ConfigResourceKind::LlmVirtualModel,
            &json(r#"{"name": "router"}"#)
        )
        .expect("virtual model id"),
        "router"
    );

    let created = prepare_resource(
        ConfigResourceKind::LlmApiKey,
        json(r#"{"metadata": {"name": "ci"}}"#),
    )
    .expect("api key id");
    uuid::Uuid::parse_str(&created.id).expect("UUID v4");
    assert_eq!(
        text_at(&created.value, "/metadata/id"),
        Some(created.id.as_str())
    );
    assert!(prepare_resource(
        ConfigResourceKind::LlmApiKey,
        json(r#"{"metadata": {"id": "client-id"}}"#),
    )
    .is_err());
    assert!(prepare_policy_upsert(
        ConfigResourceKind::LlmPolicy,
        "apiKey".to_string(),
        json(r#"{"keys": []}"#),
    )
    .is_err());
}

#[test]
fn materializes_llm_resources_into_base_config() {
    let base = json(
        r#"{
            "llm": {"models": [{"name": "file-model", "provider": {"openAI": {"model": "gpt-4o-mini"}}}]},
            "ui": {"gateways": "default"}
        }"#,
    );
    let resources = vec![
        test_resource(
            ConfigResourceKind::LlmProvider,
            "openai",
            r#"{"name": "openai", "provider": "openAI", "params": {"model": "gpt-4o"}}"#,
        ),
        test_resource(
            ConfigResourceKind::LlmModel,
            "model_01",
            r#"{"id": "model_01", "name": "db-model", "provider": {"reference": "openai"}}"#,
        ),
        test_resource(
            ConfigResourceKind::LlmVirtualModel,
            "router",
            r#"{"name": "router", "routing": {"weighted": {"targets": [{"model": "db-model"}]}}}"#,
        ),
        test_resource(
            ConfigResourceKind::LlmPolicy,
            "cors",
            r#"{"allowOrigins": ["https://example.com"]}"#,
        ),
        test_resource(
            ConfigResourceKind::LlmPolicy,
            "apiKey",
            r#"{"mode": "strict"}"#,
        ),
        test_resource(
            ConfigResourceKind::LlmApiKey,
            "key_01",
            r#"{"key": "agw_sk_test", "metadata": {"id": "key_01", "name": "test"}}"#,
        ),
        test_resource(ConfigResourceKind::UiPolicy, "csrf", "{}"),
    ];

    let value = overlay_config_resources(base, &resources).expect("materialize");

    assert_eq!(text_at(&value, "/llm/providers/0/name"), Some("openai"));
    assert_eq!(text_at(&value, "/llm/models/0/name"), Some("file-model"));
    assert_eq!(
        text_at(&value, "/llm/policies/apiKey/keys/0/key"),
        Some("agw_sk_test")
    );
    assert_eq!(
        text_at(&value, "/llm/policies/cors/allowOrigins/0"),
        Some("https://example.com")
    );
    assert!(matches!(
        pointer(&value, "/ui/policies/csrf"),
        Some(Json::Object(m)) if m.is_empty()
    ));
    assert_eq!(text_at(&value, "/llm/models/1/name"), Some("db-model"));
    assert_eq!(text_at(&value, "/llm/models/1/id"), Some("model_01"));
    assert_eq!(text_at(&value, "/llm/virtualModels/0/name"), Some("router"));
    assert_eq!(text_at(&value, "/ui/gateways"), Some("default"));
}

#[test]
fn materialization_rejects_file_owned_identity_conflicts() {
    let base = json(r#"{"llm": {"providers": [{"name": "openai", "provider": "openAI"}]}}"#);
    let resources = vec![test_resource(
        ConfigResourceKind::LlmProvider,
        "openai",
        r#"{"name": "openai", "provider": "openAI"}"#,
    )];

    let err = overlay_config_resources(base, &resources).expect_err("conflict should fail");
    assert!(
        err.message().contains("conflicts with file-owned resource"),
        "unexpected error: {}",
        err.message()
    );

    let base = json(r#"{"llm": {"models": [], "policies": {"cors": {}}}}"#);
    let resources = vec![test_resource(ConfigResourceKind::LlmPolicy, "cors", "{}")];
    let err = overlay_config_resources(base, &resources).expect_err("policy conflict should fail");
    assert!(
        err.message()
            .contains("config resource llm.policy/cors conflicts with file-owned resource"),
        "unexpected error: {}",
        err.message()
    );
}

fn overlay_error(base: &str, resources: Vec<ConfigResource>) -> String {
    overlay_config_resources(json(base), &resources)
        .expect_err("this should fail")
        .message()
}

#[test]
fn resources_need_their_place_in_the_file() {
    let policy = || vec![test_resource(ConfigResourceKind::LlmPolicy, "p", "{}")];
    let provider = || vec![test_resource(ConfigResourceKind::LlmProvider, "p", r#"{"name":"p"}"#)];
    let key = || vec![test_resource(ConfigResourceKind::LlmApiKey, "k", "{}")];
    let ui = || vec![test_resource(ConfigResourceKind::UiPolicy, "p", "{}")];
    assert_eq!(
        overlay_error("[]", policy()),
        "local config root must be a JSON object"
    );
    assert_eq!(
        overlay_error("{}", policy()),
        "DB-backed LLM policies require llm in the file config"
    );
    assert_eq!(
        overlay_error(r#"{"llm": 1}"#, policy()),
        "DB-backed LLM policies require llm to be an object in the file config"
    );
    assert_eq!(
        overlay_error(r#"{"llm": 1}"#, provider()),
        "local config llm must be a JSON object"
    );
    assert_eq!(
        overlay_error(r#"{"llm": {"policies": 1}}"#, policy()),
        "DB-backed llm policies require llm.policies to be an object in the file config"
    );
    assert_eq!(
        overlay_error(r#"{"llm": {"providers": 1}}"#, provider()),
        "local config llm.providers must be an array"
    );
    assert_eq!(
        overlay_error(r#"{"llm": {"providers": [{}]}}"#, provider()),
        "llm.provider resources require value.name"
    );
    assert_eq!(
        overlay_error("{}", key()),
        "DB-backed API keys require llm.policies.apiKey"
    );
    assert_eq!(
        overlay_error(r#"{"llm": {"policies": 1}}"#, key()),
        "local config llm.policies must be an object"
    );
    assert_eq!(
        overlay_error(r#"{"llm": {"policies": {}}}"#, key()),
        "DB-backed API keys require llm.policies.apiKey"
    );
    assert_eq!(
        overlay_error(r#"{"llm": {"policies": {"apiKey": 1}}}"#, key()),
        "local config llm.policies.apiKey must be an object"
    );
    assert_eq!(
        overlay_error(r#"{"llm": {"policies": {"apiKey": {"keys": 1}}}}"#, key()),
        "local config llm.policies.apiKey.keys must be an array"
    );
    assert_eq!(
        overlay_error("{}", ui()),
        "DB-backed UI policies require ui in the file config"
    );
    assert_eq!(
        overlay_error(r#"{"ui": 1}"#, ui()),
        "DB-backed UI policies require ui to be an object in the file config"
    );
    assert_eq!(
        overlay_error(
            r#"{"llm": {}}"#,
            vec![test_resource(ConfigResourceKind::LlmPolicy, "apiKey", "1")]
        ),
        "llm.policy/apiKey must be an object"
    );
    assert_eq!(
        overlay_error(
            r#"{"llm": {}}"#,
            vec![test_resource(ConfigResourceKind::LlmPolicy, "apiKey", r#"{"keys":[]}"#)]
        ),
        "llm.policy/apiKey must not include keys; use llm.apiKey resources"
    );
}

#[test]
fn the_catalog_alone_changes_nothing() {
    let value = overlay_config_resources(
        json("[1]"),
        &vec![test_resource(ConfigResourceKind::ModelCatalog, "default", "{}")],
    )
    .expect("unchanged");
    assert!(matches!(value, Json::Array(items) if items.len() == 1));
}

#[test]
fn null_policies_count_as_none() {
    let value = overlay_config_resources(
        json(r#"{"llm": {"policies": null}}"#),
        &vec![test_resource(ConfigResourceKind::LlmPolicy, "cors", "{}")],
    )
    .expect("overlay");
    assert!(pointer(&value, "/llm/policies/cors").is_some());
}

#[test]
fn kinds_are_read_back_by_their_names() {
    for kind in KINDS {
        assert_eq!(
            ConfigResourceKind::parse_kind(kind.as_str()).expect("a kind"),
            kind
        );
    }
    assert_eq!(ConfigResourceKind::LlmApiKey.as_str(), "llm.apiKey");
    let err = ConfigResourceKind::parse_kind("x").expect_err("no kind");
    assert!(matches!(&err, ConfigResourceError::InvalidRequest(_)));
    assert_eq!(err.message(), "unsupported config resource kind: x");
}

#[test]
fn upserts_replace_or_append() {
    let base = vec![test_resource(ConfigResourceKind::LlmModel, "a", r#""old""#)];
    let out = apply_prepared_upsert(
        base,
        &vec![
            prepared(ConfigResourceKind::LlmModel, "a", r#""new""#),
            prepared(ConfigResourceKind::LlmProvider, "a", r#""other""#),
        ],
    )
    .expect("upsert");
    assert_eq!(out.len(), 2);
    assert_eq!(out[0].value.as_str(), Some("new"));
    assert_eq!(out[0].revision, 1);
    assert_eq!(out[0].created_at, "2024-01-01T00:00:00+00:00");
    assert_eq!(out[1].kind, ConfigResourceKind::LlmProvider);
    assert_eq!(out[1].revision, 1);
    assert!(chrono::DateTime::parse_from_rfc3339(&out[1].created_at).is_ok());

    let created_at = out[1].created_at.clone();
    assert!(created_at.ends_with('Z'));
    let out = apply_delete(out, ConfigResourceKind::LlmModel, "a");
    assert_eq!(out.len(), 1);
    assert_eq!(out[0].id, "a");
    assert_eq!(out[0].kind, ConfigResourceKind::LlmProvider);
    assert_eq!(out[0].created_at, created_at);
}

#[test]
fn an_upsert_takes_the_times_it_is_given() {
    let mut list = Vec::new();
    upsert_at(
        &mut list,
        &prepared(ConfigResourceKind::UiPolicy, "p", "1"),
        "then".to_string(),
        "now".to_string(),
    );
    assert_eq!(list.len(), 1);
    assert_eq!(list[0].created_at, "then");
    assert_eq!(list[0].updated_at, "now");
}

#[test]
fn empty_ids_are_refused() {
    assert!(validate_id("x").is_ok());
    let err = validate_id("").expect_err("empty");
    assert_eq!(err.message(), "config resource id cannot be empty");
    assert!(apply_prepared_upsert(
        vec![],
        &vec![prepared(ConfigResourceKind::LlmModel, "", "1")]
    )
    .is_err());
    assert!(prepare_api_key_update(String::new(), json("{}")).is_err());
    assert!(prepare_policy_upsert(ConfigResourceKind::UiPolicy, String::new(), json("{}")).is_err());
    assert_eq!(
        not_found(ConfigResourceKind::UiPolicy, "p").message(),
        "config resource not found: ui.policy/p"
    );
}

#[test]
fn identities_are_found_or_missed() {
    let error = |kind, value: &str| {
        resource_id(kind, &json(value))
            .expect_err("no identity")
            .message()
    };
    assert_eq!(
        resource_id(ConfigResourceKind::ModelCatalog, &json("null")).expect("an identity"),
        "default"
    );
    assert_eq!(
        resource_id(
            ConfigResourceKind::LlmApiKey,
            &json(r#"{"metadata": {"id": "k"}}"#)
        )
        .expect("an identity"),
        "k"
    );
    assert_eq!(
        resource_id(ConfigResourceKind::LlmModel, &json(r#"{"id": "", "name": "n"}"#))
            .expect("an identity"),
        "n"
    );
    assert_eq!(
        error(ConfigResourceKind::LlmProvider, r#"{"name": ""}"#),
        "llm.provider resources require value.name"
    );
    assert_eq!(
        error(ConfigResourceKind::LlmVirtualModel, "{}"),
        "llm.virtualModel resources require value.name"
    );
    assert_eq!(
        error(ConfigResourceKind::LlmModel, "{}"),
        "llm.model resources require value.id or value.name"
    );
    assert_eq!(
        error(ConfigResourceKind::LlmApiKey, r#"{"metadata": {}}"#),
        "llm.apiKey resources require value.metadata.id"
    );
    assert_eq!(
        error(ConfigResourceKind::UiPolicy, "{}"),
        "ui.policy resources require an item ID"
    );
    assert_eq!(
        error(ConfigResourceKind::LlmPolicy, "{}"),
        "llm.policy resources require an item ID"
    );
}

#[test]
fn api_keys_get_their_identity() {
    let prepared = prepare_api_key_update(
        "key_01".to_string(),
        json(r#"{"key": "k", "metadata": {"name": "n"}}"#),
    )
    .expect("an update");
    assert_eq!(prepared.kind, ConfigResourceKind::LlmApiKey);
    assert_eq!(prepared.id, "key_01");
    assert_eq!(text_at(&prepared.value, "/metadata/id"), Some("key_01"));
    assert_eq!(text_at(&prepared.value, "/metadata/name"), Some("n"));
    assert_eq!(text_at(&prepared.value, "/key"), Some("k"));

    let error = |r: Result<Json, ConfigError>| r.expect_err("refused").message();
    assert_eq!(
        error(set_api_key_id(json("1"), "k".to_string())),
        "llm.apiKey resources must be JSON objects"
    );
    assert_eq!(
        error(set_api_key_id(json(r#"{"metadata": 1}"#), "k".to_string())),
        "llm.apiKey resources require value.metadata to be an object"
    );
    assert_eq!(
        ensure_no_api_key_id(&json(r#"{"metadata": {"id": null}}"#))
            .expect_err("refused")
            .message(),
        "llm.apiKey resources must not include value.metadata.id"
    );
    assert!(ensure_no_api_key_id(&json("{}")).is_ok());
}

#[test]
fn fresh_identities_are_used_as_they_are() {
    let made = prepare_resource_with(
        ConfigResourceKind::LlmApiKey,
        json("{}"),
        "fresh".to_string(),
    )
    .expect("prepared");
    assert_eq!(made.id, "fresh");
    assert_eq!(text_at(&made.value, "/metadata/id"), Some("fresh"));
    let two = prepare_resources(
        ConfigResourceKind::LlmApiKey,
        ConfigResourceUpsertRequest {
            resources: vec![
                ConfigResourceUpsert { value: json("{}") },
                ConfigResourceUpsert { value: json("{}") },
            ],
        },
    )
    .expect("prepared");
    assert_eq!(two.len(), 2);
    assert_ne!(two[0].id, two[1].id);
    let refused = prepare_resources(
        ConfigResourceKind::UiPolicy,
        ConfigResourceUpsertRequest {
            resources: vec![ConfigResourceUpsert { value: json("{}") }],
        },
    );
    assert_eq!(
        refused.expect_err("refused").message(),
        "ui.policy resources require an item ID"
    );
}

#[test]
fn policies_are_prepared_under_their_ids() {
    let ok = prepare_policy_upsert(
        ConfigResourceKind::UiPolicy,
        "apiKey".to_string(),
        json(r#"{"keys": []}"#),
    )
    .expect("prepared");
    assert_eq!(ok.id, "apiKey");
    let error = |kind, id: &str, value: &str| {
        prepare_policy_upsert(kind, id.to_string(), json(value))
            .expect_err("refused")
            .message()
    };
    assert_eq!(
        error(ConfigResourceKind::LlmModel, "m", "{}"),
        "llm.model is not a policy resource"
    );
    assert_eq!(
        error(ConfigResourceKind::LlmPolicy, "apiKey", r#"{"keys": null}"#),
        "llm.policy/apiKey must not include keys; use llm.apiKey resources"
    );
}

#[test]
fn catalogs_are_listed_in_order() {
    let sources = model_catalog_sources(&vec![test_resource(
        ConfigResourceKind::ModelCatalog,
        "default",
        r#"{"custom": "second", "base": "first", "x": 1}"#,
    )])
    .expect("sources");
    assert_eq!(sources.len(), 2);
    assert_eq!(sources[0].as_str(), Some("first"));
    assert_eq!(sources[1].as_str(), Some("second"));
    assert!(model_catalog_sources(&vec![]).expect("sources").is_empty());
    assert_eq!(
        model_catalog_sources(&vec![test_resource(
            ConfigResourceKind::ModelCatalog,
            "default",
            "1"
        )])
        .expect_err("no object")
        .message(),
        "modelCatalog resource must be an object"
    );
}

fn row(kind: &str, value: &str, created: &str, updated: &str) -> ResourceRow {
    ResourceRow {
        kind: kind.to_string(),
        id: "i".to_string(),
        value_json: value.to_string(),
        revision: 3,
        created_at: created.to_string(),
        updated_at: updated.to_string(),
    }
}

#[test]
fn rows_are_read() {
    let time = "2024-05-06T07:08:09Z";
    let shifted = "2024-05-06T09:08:09+02:00";
    let r = sqlite_row_to_resource(row("llm.model", r#"{"a":"b"}"#, shifted, time))
        .expect("a resource");
    assert_eq!(r.kind, ConfigResourceKind::LlmModel);
    assert_eq!(r.id, "i");
    assert_eq!(r.revision, 3);
    assert_eq!(text_at(&r.value, "/a"), Some("b"));
    assert_eq!(r.created_at, time);
    assert_eq!(r.updated_at, time);

    let error = |row| sqlite_row_to_resource(row).expect_err("a bad row");
    assert_eq!(
        error(row("x", "{", "x", "x")).message(),
        "unsupported config resource kind: x"
    );
    assert!(matches!(error(row("llm.model", "{", time, time)), ConfigError::Other(_)));
    assert!(matches!(error(row("llm.model", "1", "x", time)), ConfigError::Other(_)));
    assert!(matches!(error(row("llm.model", "1", time, "x")), ConfigError::Other(_)));
}

#[test]
fn changes_are_announced() {
    let (response, changed) = upsert_response(vec![]);
    assert!(response.resources.is_empty());
    assert!(!changed);
    let (response, changed) =
        upsert_response(vec![test_resource(ConfigResourceKind::UiPolicy, "p", "1")]);
    assert_eq!(response.resources.len(), 1);
    assert!(changed);
    assert!(delete_outcome(ConfigResourceKind::UiPolicy, "p", true).is_ok());
    assert_eq!(
        delete_outcome(ConfigResourceKind::UiPolicy, "p", false)
            .expect_err("absent")
            .message(),
        "config resource not found: ui.policy/p"
    );
    assert_eq!(
        delete_outcome(ConfigResourceKind::UiPolicy, "", true)
            .expect_err("empty")
            .message(),
        "config resource id cannot be empty"
    );
}

#[test]
fn a_delete_undoes_an_upsert() {
    let shown = |list: &Vec<ConfigResource>| {
        list.iter()
            .map(|r| format!("{:?} {} {:?} {} {} {}", r.kind, r.id, r.value, r.revision, r.created_at, r.updated_at))
            .collect::<Vec<_>>()
    };
    let base = || {
        vec![
            test_resource(ConfigResourceKind::LlmModel, "a", "1"),
            test_resource(ConfigResourceKind::LlmProvider, "b", "2"),
        ]
    };
    let added = prepared(ConfigResourceKind::LlmModel, "b", "3");
    let out = apply_prepared_upsert(base(), &vec![added]).expect("upsert");
    assert_eq!(out.len(), 3);
    let out = apply_delete(out, ConfigResourceKind::LlmModel, "b");
    assert_eq!(shown(&out), shown(&base()));
    let out = apply_delete(out, ConfigResourceKind::LlmModel, "b");
    assert_eq!(shown(&out), shown(&base()));
}
