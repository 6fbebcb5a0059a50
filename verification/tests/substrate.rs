use agentgateway::substrate::egress::{
    destination_denied, hostname_pattern, http_authorization, invalid_expression, missing_identity,
    normalize_hostname, policy_error, request_hostname, AllowExpression, EgressPolicy, EgressRule,
    ExpressionSource, HostnameRule, TlsConnection,
};
use agentgateway::substrate::ingress::{
    actor_from_host, admit_actor, cache_step, cleanup_after_insert, clone_entry, connect_authority,
    invalid_worker_ip, is_generation, is_stale_assignment, new_entry, requested_actor, resolution,
    resume_step, resume_timed_out, retry_delay_nanos, CacheCleanup, CacheEntry, CacheStep,
    CachedAssignment, ResolutionResult, ResolutionSource, ResumeError, ResumeResponse, ResumeStep,
    ResumedActor, SubstrateIngress, SubstrateRequestState,
};
use agentgateway::substrate::tcp::{destination_hostname, validate_tcp_effects};
use agentgateway::substrate::{ActorRef, GrpcCode, SubstrateError};

fn rule() -> EgressRule {
    EgressRule {
        ip_blocks: None,
        all: false,
        hostnames: None,
    }
}

fn hostnames(patterns: &[&str]) -> EgressRule {
    EgressRule {
        hostnames: Some(HostnameRule {
            patterns: patterns.iter().map(|p| p.to_string()).collect(),
            inject_static_headers: None,
        }),
        ..rule()
    }
}

fn ipv4(text: &str) -> u32 {
    text.split('.')
        .fold(0, |acc, part| (acc << 8) | part.parse::<u32>().unwrap())
}

/// Evaluates an expression for a destination.
fn holds(expression: &AllowExpression, address: &str, hostname: Option<&str>) -> bool {
    let text = expression.text.as_str();
    match expression.source {
        ExpressionSource::Literal => text == "true",
        ExpressionSource::Cidr => {
            let inner = text
                .strip_prefix("cidr(")
                .and_then(|t| t.strip_suffix(").containsIP(destination.address)"))
                .unwrap();
            let cidr: String = serde_json::from_str(inner).unwrap();
            let (base, bits) = cidr.split_once('/').unwrap();
            let shift = 32 - bits.parse::<u32>().unwrap();
            ipv4(base) >> shift == ipv4(address) >> shift
        }
        ExpressionSource::Hostname => {
            let inner = text
                .strip_prefix("destination.hostname.matches(")
                .and_then(|t| t.strip_suffix(")"))
                .unwrap();
            let pattern: String = serde_json::from_str(inner).unwrap();
            hostname.is_some_and(|h| regex::Regex::new(&pattern).unwrap().is_match(h))
        }
    }
}

fn allows(policy: &EgressPolicy, address: &str, hostname: Option<&str>) -> bool {
    http_authorization(policy)
        .iter()
        .any(|e| holds(e, address, hostname))
}

#[test]
fn cidr_rules_authorize_only_matching_destinations() {
    let policy = EgressPolicy {
        rules: vec![EgressRule {
            ip_blocks: Some(vec!["192.0.2.0/24".to_owned()]),
            ..rule()
        }],
    };
    assert!(allows(&policy, "192.0.2.10", None));
    assert!(!allows(&policy, "198.51.100.10", None));
}

#[test]
fn hostname_rules_match_exact_and_single_label_wildcards() {
    let policy = EgressPolicy {
        rules: vec![hostnames(&["api.example.com", "*.example.net"])],
    };
    assert!(allows(&policy, "192.0.2.1", Some("api.example.com")));
    assert!(allows(&policy, "192.0.2.1", Some("one.example.net")));
    assert!(!allows(&policy, "192.0.2.1", Some("nested.one.example.net")));
}

#[test]
fn request_hostname_prefers_http_host_and_falls_back_to_inner_tls_sni() {
    let host: &[u8] = b"api.example.com:443";
    assert_eq!(
        request_hostname(None, Some(host), &None).as_deref(),
        Some("api.example.com")
    );
    let tls = Some(TlsConnection {
        has_identity: false,
        server_name: Some("tls.example.com".to_owned()),
    });
    assert_eq!(
        request_hostname(None, Some(host), &tls).as_deref(),
        Some("api.example.com")
    );
    assert_eq!(
        request_hostname(None, None, &tls).as_deref(),
        Some("tls.example.com")
    );
}

#[test]
fn the_uri_names_the_host_first() {
    let tls = Some(TlsConnection {
        has_identity: true,
        server_name: Some("gateway.example".to_owned()),
    });
    assert_eq!(
        request_hostname(Some("URI.example."), Some(b"header.example"), &tls).as_deref(),
        Some("uri.example")
    );
    assert_eq!(request_hostname(None, None, &tls), None);
    assert_eq!(request_hostname(None, Some(b"\xff"), &tls), None);
    assert_eq!(request_hostname(None, Some(b"not a host"), &tls), None);
    assert_eq!(request_hostname(None, None, &None), None);
}

#[test]
fn hostnames_are_normalized() {
    assert_eq!(normalize_hostname("A.b.").as_deref(), Some("a.b"));
    assert_eq!(normalize_hostname("a..").as_deref(), Some("a."));
    assert_eq!(normalize_hostname("."), None);
    assert_eq!(normalize_hostname(""), None);
    assert_eq!(
        destination_hostname(Some("A.b...")).as_deref(),
        Some("a.b")
    );
    assert_eq!(destination_hostname(Some("..")), None);
    assert_eq!(destination_hostname(None), None);
}

#[test]
fn patterns_become_regular_expressions() {
    assert_eq!(hostname_pattern("API.example.com."), r"^api\.example\.com$");
    assert_eq!(hostname_pattern("*.a-b.net"), r"^[^.]+\.a\-b\.net$");
    assert_eq!(hostname_pattern("a.*.b"), r"^a\.\*\.b$");
    assert_eq!(hostname_pattern(""), "^$");
}

#[test]
fn a_policy_that_allows_nothing_denies() {
    let exprs = http_authorization(&EgressPolicy { rules: vec![rule()] });
    assert_eq!(exprs.len(), 1);
    assert_eq!(exprs[0].text, "false");
    let exprs = http_authorization(&EgressPolicy {
        rules: vec![
            EgressRule { all: true, ..rule() },
            EgressRule {
                ip_blocks: Some(vec!["10.0.0.0/8".to_owned()]),
                all: true,
                ..hostnames(&["x"])
            },
        ],
    });
    let texts: Vec<&str> = exprs.iter().map(|e| e.text.as_str()).collect();
    assert_eq!(
        texts,
        vec![
            "true",
            r#"cidr("10.0.0.0/8").containsIP(destination.address)"#,
            "true",
            r#"destination.hostname.matches("^x$")"#,
        ]
    );
}

#[test]
fn refusals_say_why() {
    assert!(matches!(
        missing_identity(),
        SubstrateError::EgressDenied(t) if t == "missing CONNECT-authorized actor identity"
    ));
    assert!(matches!(
        destination_denied(),
        SubstrateError::EgressDenied(t) if t == "actor egress policy denied destination"
    ));
    assert!(matches!(
        policy_error(GrpcCode::Unavailable, "s"),
        SubstrateError::EgressUnavailable(t) if t == "actor egress policy unavailable: s"
    ));
    assert!(matches!(
        policy_error(GrpcCode::DeadlineExceeded, "s"),
        SubstrateError::EgressUnavailable(_)
    ));
    assert!(matches!(
        policy_error(GrpcCode::NotFound, "s"),
        SubstrateError::EgressDenied(t) if t == "actor egress policy denied: s"
    ));
    assert!(matches!(
        invalid_expression(ExpressionSource::Cidr, "e"),
        SubstrateError::EgressDenied(t) if t == "invalid actor egress CIDR: e"
    ));
    assert!(matches!(
        invalid_expression(ExpressionSource::Hostname, "e"),
        SubstrateError::EgressDenied(t) if t == "invalid actor egress hostname: e"
    ));
}

#[test]
fn headers_cannot_be_injected_into_tcp() {
    let with = |headers: Option<Vec<String>>| EgressRule {
        hostnames: Some(HostnameRule {
            patterns: vec![],
            inject_static_headers: headers,
        }),
        ..rule()
    };
    assert!(validate_tcp_effects(&rule()).is_ok());
    assert!(validate_tcp_effects(&with(None)).is_ok());
    assert!(validate_tcp_effects(&with(Some(vec![]))).is_ok());
    assert!(matches!(
        validate_tcp_effects(&with(Some(vec!["x".to_owned()]))),
        Err(SubstrateError::EgressDenied(t))
            if t == "TCP passthrough cannot apply HTTP header injection effects"
    ));
}

fn actor() -> ActorRef {
    ActorRef {
        atespace: "my-space".to_owned(),
        name: "my-actor".to_owned(),
    }
}

fn assigned(target: &str, expires_at: u64, generation: u64) -> CachedAssignment {
    CachedAssignment {
        target: target.to_owned(),
        expires_at,
        generation,
    }
}

const HOST: &str = "my-actor.my-space.actors.resources.substrate.ate.dev";

#[test]
fn hosts_name_actors() {
    let found = actor_from_host(HOST).unwrap();
    assert_eq!(found.name, "my-actor");
    assert_eq!(found.atespace, "my-space");
    assert!(actor_from_host("my-actor.actors.resources.substrate.ate.dev").is_none());
    assert!(actor_from_host("a.b.c.actors.resources.substrate.ate.dev").is_none());
    assert!(actor_from_host("a.b.example.com").is_none());
    assert!(actor_from_host("").is_none());
}

#[test]
fn requests_name_actors() {
    let requested = requested_actor(&vec![], Some(&format!("{HOST}.:8080"))).unwrap();
    assert_eq!(requested.host, HOST);
    let admitted = admit_actor(requested, true, true).unwrap();
    assert_eq!(admitted.name, "my-actor");
    assert_eq!(admitted.atespace, "my-space");

    let tunnel = format!("tunnel.{}", &HOST[9..]).into_bytes();
    let requested = requested_actor(&vec![tunnel.clone()], Some(HOST)).unwrap();
    assert_eq!(requested.actor.name, "tunnel");
    assert!(matches!(
        admit_actor(requested, false, true),
        Err(SubstrateError::IngressFailed { status: 404, body })
            if body == format!("invalid host \"tunnel.{}\": expected <actor>.<atespace>.actors.resources.substrate.ate.dev", &HOST[9..])
    ));
    let requested = requested_actor(&vec![tunnel.clone(), tunnel], Some(HOST)).unwrap();
    assert_eq!(requested.actor.name, "my-actor");

    assert!(matches!(
        requested_actor(&vec![], Some("example.com")),
        Err(SubstrateError::IngressFailed { status: 404, body })
            if body == "invalid host \"example.com\": expected <actor>.<atespace>.actors.resources.substrate.ate.dev"
    ));
    assert!(matches!(
        requested_actor(&vec![], None),
        Err(SubstrateError::IngressFailed { status: 404, body })
            if body.starts_with("invalid actor authority \"\": ")
    ));
}

#[test]
fn a_tunnel_needs_one_host() {
    assert_eq!(connect_authority(&vec![b"a:1".to_vec()]).as_deref(), Some("a:1"));
    assert_eq!(connect_authority(&vec![]), None);
    assert_eq!(connect_authority(&vec![b"a".to_vec(), b"b".to_vec()]), None);
    assert_eq!(connect_authority(&vec![vec![0xff]]), None);
}

#[test]
fn clients_are_told_why_an_actor_is_not_there() {
    let told = |error: ResumeError| match error.into_proxy_error(&actor()) {
        SubstrateError::IngressFailed { status, body } => (status, body),
        _ => panic!("expected an ingress failure"),
    };
    let status = |code| told(ResumeError::Status(code, "why".to_owned()));
    assert_eq!(
        status(GrpcCode::NotFound),
        (404, "actor \"my-actor\" not found".to_owned())
    );
    assert_eq!(
        status(GrpcCode::FailedPrecondition),
        (503, "actor \"my-actor\" unavailable: why".to_owned())
    );
    assert_eq!(
        status(GrpcCode::Unavailable),
        (503, "actor \"my-actor\" unavailable".to_owned())
    );
    assert_eq!(
        status(GrpcCode::DeadlineExceeded),
        (504, "actor \"my-actor\" request timed out".to_owned())
    );
    assert_eq!(
        status(GrpcCode::PermissionDenied),
        (403, "actor \"my-actor\" access denied".to_owned())
    );
    assert_eq!(
        status(GrpcCode::Unauthenticated),
        (401, "actor \"my-actor\" authentication required".to_owned())
    );
    assert_eq!(
        status(GrpcCode::ResourceExhausted),
        (429, "actor \"my-actor\" rate limited".to_owned())
    );
    assert_eq!(
        status(GrpcCode::Aborted),
        (500, "error resuming actor \"my-actor\"".to_owned())
    );
    assert_eq!(
        told(ResumeError::InvalidResponse("x".to_owned())),
        (500, "error resuming actor \"my-actor\"".to_owned())
    );
}

#[test]
fn aborted_attempts_are_repeated() {
    let aborted = || Err((GrpcCode::Aborted, "busy".to_owned()));
    let delays: Vec<u64> = (0..6)
        .map(|attempt| match resume_step(attempt, aborted()) {
            ResumeStep::Retry { delay_nanos } => delay_nanos,
            _ => panic!("expected another attempt"),
        })
        .collect();
    assert_eq!(
        delays,
        vec![
            200_000_000,
            300_000_000,
            450_000_000,
            675_000_000,
            1_012_500_000,
            1_518_750_000
        ]
    );
    assert_eq!(retry_delay_nanos(1), 300_000_000);
    assert!(matches!(
        resume_step(6, aborted()),
        ResumeStep::Fail(ResumeError::Status(GrpcCode::Aborted, m)) if m == "busy"
    ));
    assert!(matches!(
        resume_step(0, Err((GrpcCode::NotFound, String::new()))),
        ResumeStep::Fail(ResumeError::Status(GrpcCode::NotFound, _))
    ));
}

#[test]
fn answers_name_a_worker() {
    let answer = |worker_pod_ip: Option<&str>| {
        resume_step(
            0,
            Ok(ResumeResponse {
                actor: Some(ResumedActor {
                    worker_pod_ip: worker_pod_ip.map(str::to_owned),
                }),
            }),
        )
    };
    assert!(matches!(answer(Some("10.0.0.1")), ResumeStep::Assigned(ip) if ip == "10.0.0.1"));
    assert!(matches!(
        answer(None),
        ResumeStep::Fail(ResumeError::InvalidResponse(t))
            if t == "ResumeActor response did not include a worker assignment"
    ));
    assert!(matches!(
        resume_step(0, Ok(ResumeResponse { actor: None })),
        ResumeStep::Fail(ResumeError::InvalidResponse(t))
            if t == "ResumeActor response did not include an actor"
    ));
    assert_eq!(
        invalid_worker_ip("x\"y", "bad").message(),
        "invalid worker_assignment.worker_pod_ip \"x\\\"y\": bad"
    );
    assert_eq!(
        resume_timed_out().message(),
        "DeadlineExceeded: ResumeActor timed out after 15s"
    );
}

#[test]
fn assignments_are_reused_for_a_while() {
    let entry = new_entry(Ok("10.0.0.1:80".to_owned()), 1000, 50, 7);
    assert!(is_generation(&entry, 7));
    assert!(!is_generation(&entry, 8));
    assert!(matches!(
        cache_step(clone_entry(&entry), 1049),
        CacheStep::Return(Ok((a, ResolutionSource::Cache)))
            if a.target == "10.0.0.1:80" && a.generation == 7
    ));
    assert!(matches!(
        cache_step(clone_entry(&entry), 1050),
        CacheStep::RemoveAndRetry { generation: 7 }
    ));
    assert_eq!(cleanup_after_insert(&entry, 50), CacheCleanup::Keep);
    assert_eq!(
        cleanup_after_insert(&entry, 0),
        CacheCleanup::RemoveGeneration(7)
    );
    let failed: CacheEntry = new_entry(Err(resume_timed_out()), 0, 50, 8);
    assert!(!is_generation(&failed, 8));
    assert_eq!(cleanup_after_insert(&failed, 50), CacheCleanup::RemoveErrors);
    assert!(matches!(
        cache_step(clone_entry(&failed), 0),
        CacheStep::RemoveErrorsAndReturn(Err((_, ResolutionSource::Cache)))
    ));
    assert!(matches!(
        resolution(failed),
        Err((ResumeError::Status(GrpcCode::DeadlineExceeded, _), ResolutionSource::AteApi))
    ));
    assert!(matches!(
        resolution(entry),
        Ok((a, ResolutionSource::AteApi)) if a.generation == 7
    ));
}

#[test]
fn a_request_keeps_its_target() {
    let mut state = SubstrateRequestState::new(actor());
    assert!(state.current_target().is_none());
    let (target, details) =
        state.resolve_target(Ok((assigned("10.0.0.1:80", 9, 1), ResolutionSource::AteApi)));
    assert_eq!(target.unwrap(), "10.0.0.1:80");
    let text = |details: &agentgateway::json::Json, key: &str| {
        details.get(key).and_then(|v| v.as_str()).map(str::to_owned)
    };
    assert_eq!(text(&details, "operation").as_deref(), Some("resumeActor"));
    assert_eq!(text(&details, "actor").as_deref(), Some("my-actor"));
    assert_eq!(text(&details, "atespace").as_deref(), Some("my-space"));
    assert_eq!(text(&details, "source").as_deref(), Some("ateApi"));
    assert_eq!(text(&details, "target").as_deref(), Some("10.0.0.1:80"));
    let (target, details) = state.current_target().unwrap();
    assert_eq!(target, "10.0.0.1:80");
    assert_eq!(text(&details, "source").as_deref(), Some("request"));

    assert_eq!(state.evict(), Some(1));
    assert_eq!(state.evict(), None);
    assert!(state.current_target().is_none());

    let (target, details) =
        state.resolve_target(Err((resume_timed_out(), ResolutionSource::Cache)));
    assert!(matches!(
        target,
        Err(SubstrateError::IngressFailed { status: 504, .. })
    ));
    assert_eq!(
        text(&details, "error").as_deref(),
        Some("DeadlineExceeded: ResumeActor timed out after 15s")
    );
    assert_eq!(text(&details, "source").as_deref(), Some("cache"));
}

#[test]
fn stale_assignment_is_refreshed_then_cached() {
    let mut cached: Option<CacheEntry> = None;
    let mut next_generation = 0;
    let mut control_calls = 0;
    let mut actor_calls = 0;
    for _ in 0..2 {
        let mut state = SubstrateRequestState::new(actor());
        loop {
            if state.current_target().is_none() {
                let result = match cached.as_ref().map(clone_entry) {
                    Some(entry) => match cache_step(entry, 0) {
                        CacheStep::Return(result) => result,
                        _ => panic!("nothing expires here"),
                    },
                    None => {
                        control_calls += 1;
                        let entry = new_entry(Ok("10.0.0.1:80".to_owned()), 0, 5, next_generation);
                        next_generation += 1;
                        cached = Some(clone_entry(&entry));
                        resolution(entry)
                    }
                };
                assert!(state.resolve_target(result).0.is_ok());
            }
            actor_calls += 1;
            let (status, header): (u16, Option<&[u8]>) = if actor_calls == 1 {
                (421, Some(b"true"))
            } else {
                (200, None)
            };
            if !is_stale_assignment(status, header) {
                break;
            }
            let generation = state.evict().unwrap();
            if cached.as_ref().is_some_and(|e| is_generation(e, generation)) {
                cached = None;
            }
        }
    }
    assert_eq!(actor_calls, 3);
    assert_eq!(control_calls, 2);
}

#[test]
fn only_a_misdirected_request_is_stale() {
    assert!(is_stale_assignment(421, Some(b"true")));
    assert!(!is_stale_assignment(421, Some(b"True")));
    assert!(!is_stale_assignment(421, Some(b"true ")));
    assert!(!is_stale_assignment(421, None));
    assert!(!is_stale_assignment(200, Some(b"true")));
}

#[test]
fn ingress_has_defaults() {
    let ingress = SubstrateIngress::new("control".to_owned());
    assert_eq!(ingress.target_port, 80);
    assert_eq!(ingress.cache_ttl, 5_000_000_000);
}

/// Looks an actor up in what the cache holds of it. `now` is the time of the lookup, and
/// `resumed` what the control plane answers if it is asked.
fn look_up(
    slot: &mut Option<CacheEntry>,
    ttl: u64,
    now: u64,
    resumed: Result<String, ResumeError>,
    generation: u64,
) -> ResolutionResult {
    if let Some(entry) = slot.as_ref().map(clone_entry) {
        match cache_step(entry, now) {
            CacheStep::Return(result) => return result,
            CacheStep::RemoveAndRetry { generation } => {
                if slot.as_ref().is_some_and(|entry| is_generation(entry, generation)) {
                    *slot = None;
                }
            }
            CacheStep::RemoveErrorsAndReturn(result) => {
                *slot = None;
                return result;
            }
        }
    }
    let entry = new_entry(resumed, now, ttl, generation);
    *slot = match cleanup_after_insert(&entry, ttl) {
        CacheCleanup::Keep => Some(clone_entry(&entry)),
        _ => None,
    };
    resolution(entry)
}

#[test]
fn a_second_lookup_reuses_the_first() {
    let found = |result: ResolutionResult| {
        result
            .map(|(assignment, source)| (assignment.target, source))
            .map_err(|(error, source)| (error.message(), source))
    };
    let mut slot = None;
    let first = look_up(&mut slot, 50, 1000, Ok("a".to_owned()), 1);
    assert_eq!(found(first), Ok(("a".to_owned(), ResolutionSource::AteApi)));
    let second = look_up(&mut slot, 50, 1049, Ok("b".to_owned()), 2);
    assert_eq!(found(second), Ok(("a".to_owned(), ResolutionSource::Cache)));
    let third = look_up(&mut slot, 50, 1050, Ok("c".to_owned()), 3);
    assert_eq!(found(third), Ok(("c".to_owned(), ResolutionSource::AteApi)));

    let mut slot = None;
    let failed = look_up(&mut slot, 50, 0, Err(resume_timed_out()), 1);
    assert_eq!(found(failed).unwrap_err().1, ResolutionSource::AteApi);
    let again = look_up(&mut slot, 50, 1, Ok("a".to_owned()), 2);
    assert_eq!(found(again), Ok(("a".to_owned(), ResolutionSource::AteApi)));

    let mut slot = None;
    let first = look_up(&mut slot, 0, 5, Ok("a".to_owned()), 1);
    assert_eq!(found(first), Ok(("a".to_owned(), ResolutionSource::AteApi)));
    let second = look_up(&mut slot, 0, 5, Ok("b".to_owned()), 2);
    assert_eq!(found(second), Ok(("b".to_owned(), ResolutionSource::AteApi)));
}

#[test]
fn an_actor_is_tried_seven_times_at_most() {
    let attempts = |aborted: u32| {
        let mut made: u32 = 0;
        loop {
            let answer = if made < aborted {
                Err((GrpcCode::Aborted, "busy".to_owned()))
            } else {
                Ok(ResumeResponse {
                    actor: Some(ResumedActor {
                        worker_pod_ip: Some("10.0.0.1".to_owned()),
                    }),
                })
            };
            made += 1;
            match resume_step(made - 1, answer) {
                ResumeStep::Retry { .. } => {}
                ResumeStep::Assigned(_) => return (made, true),
                ResumeStep::Fail(_) => return (made, false),
            }
        }
    };
    assert_eq!(attempts(0), (1, true));
    assert_eq!(attempts(3), (4, true));
    assert_eq!(attempts(6), (7, true));
    assert_eq!(attempts(7), (7, false));
    assert_eq!(attempts(100), (7, false));
}
