use agentgateway::cel_helpers::{
    de_duration_or_expression, value_as_byte_or_json, ExpressionValue,
};
use agentgateway::database::{database_kind, DatabaseKind};
use agentgateway::delay::{eval_duration, Delay, DelayValue, Policy};
use agentgateway::json::Json;
use agentgateway::metadata_context::{
    build_grpc_initial_metadata, build_processing_metadata_context, eval_to_struct,
    prost_value_to_metadata_string, EXTPROC_GRPC_INITIAL_METADATA_NAMESPACE,
};
use agentgateway::network_ext_proc::{
    process_response, processing_request, proxy_result, ConnectionStatus, Copier, CopyStep, Data,
    DataProcessedStatus, DataSendMode, Error, NetworkExtProc, ProcessingRequest,
    ProcessingResponse,
};
use agentgateway::network_ext_proc_mock::{Handler, NetworkExtProcMock};
use agentgateway::text::trim;

fn text(s: &str) -> Result<Json, String> {
    Ok(Json::Str(s.to_string()))
}

#[test]
fn failed_expressions_give_no_field() {
    let fields = eval_to_struct(vec![
        ("a".to_string(), text("1")),
        ("b".to_string(), Err("no".to_string())),
        ("c".to_string(), text("2")),
    ]);
    let names: Vec<&str> = fields.iter().map(|f| f.0.as_str()).collect();
    assert_eq!(names, vec!["a", "c"]);
}

#[test]
fn the_reserved_namespace_is_sent_apart() {
    let reserved = EXTPROC_GRPC_INITIAL_METADATA_NAMESPACE;
    assert_eq!(reserved, "agentgateway.dev.grpc_initial_metadata");
    let meta = || {
        Some(vec![
            ("user".to_string(), vec![("k".to_string(), text("v"))]),
            (
                reserved.to_string(),
                vec![
                    ("X-Token".to_string(), text("abc")),
                    ("x-number".to_string(), Ok(Json::Number("5".to_string()))),
                    ("x-flag".to_string(), Ok(Json::Bool(false))),
                    ("x-null".to_string(), Ok(Json::Null)),
                    ("x-list".to_string(), Ok(Json::Array(vec![]))),
                    ("x-bad-value".to_string(), text("a\nb")),
                    ("bad key".to_string(), text("v")),
                    ("x-token-bin".to_string(), text("v")),
                    ("x-failed".to_string(), Err("e".to_string())),
                    ("x-accent".to_string(), text("é")),
                ],
            ),
        ])
    };
    let sent = build_processing_metadata_context(meta()).unwrap();
    assert_eq!(sent.len(), 1);
    assert_eq!(sent[0].0, "user");
    assert_eq!(sent[0].1[0].0, "k");
    assert!(build_processing_metadata_context(None).is_none());

    let mut entries = build_grpc_initial_metadata(&meta());
    entries.sort();
    let expected: Vec<(String, String)> = [
        ("x-accent", "é"),
        ("x-flag", "false"),
        ("x-number", "5"),
        ("x-token", "abc"),
    ]
    .iter()
    .map(|(k, v)| (k.to_string(), v.to_string()))
    .collect();
    assert_eq!(entries, expected);
    assert!(build_grpc_initial_metadata(&None).is_empty());
    assert!(build_grpc_initial_metadata(&Some(vec![("user".to_string(), vec![])])).is_empty());
}

#[test]
fn keys_that_are_the_same_are_merged() {
    let entries = build_grpc_initial_metadata(&Some(vec![(
        EXTPROC_GRPC_INITIAL_METADATA_NAMESPACE.to_string(),
        vec![("A".to_string(), text("1")), ("a".to_string(), text("2"))],
    )]));
    assert_eq!(entries, vec![("a".to_string(), "2".to_string())]);
}

#[test]
fn metadata_is_text() {
    let shown = |v: Json| prost_value_to_metadata_string(&v);
    assert_eq!(shown(Json::Bool(true)).as_deref(), Some("true"));
    assert_eq!(shown(Json::Number("1.5".to_string())).as_deref(), Some("1.5"));
    assert_eq!(shown(Json::Str("s".to_string())).as_deref(), Some("s"));
    assert_eq!(shown(Json::Object(vec![])), None);
}

fn config(metadata: bool, attributes: bool) -> NetworkExtProc {
    NetworkExtProc {
        failure_mode_allow: false,
        process_read: DataSendMode::default(),
        process_write: DataSendMode::Skip,
        message_timeout_ms: 0,
        metadata_context: if metadata { Some(vec![]) } else { None },
        connection_attributes: if attributes { Some(vec![]) } else { None },
    }
}

#[test]
fn contexts_carry_what_is_configured() {
    let meta = || vec![("ns".to_string(), vec![("k".to_string(), text("v"))])];
    let attrs = || vec![("a".to_string(), text("v"))];
    let all = config(true, true).evaluate_request_context(meta(), attrs());
    assert_eq!(all.metadata.len(), 1);
    assert_eq!(all.attributes.len(), 1);
    assert_eq!(all.attributes[0].0, "envoy.filters.network.ext_proc");
    assert_eq!(all.attributes[0].1[0].0, "a");
    let none = config(false, false).evaluate_request_context(meta(), attrs());
    assert!(none.metadata.is_empty());
    assert!(none.attributes.is_empty());
    let failed = config(true, true)
        .evaluate_request_context(meta(), vec![("a".to_string(), Err("e".to_string()))]);
    assert!(failed.attributes.is_empty());
}

#[test]
fn answers_are_waited_for() {
    let mut c = config(false, false);
    assert_eq!(c.message_timeout(), 200);
    c.message_timeout_ms = 50;
    assert_eq!(c.message_timeout(), 50);
    c.message_timeout_ms = 1000;
    assert_eq!(c.message_timeout(), 1000);
    assert_eq!(c.process_read, DataSendMode::Streamed);
}

fn answer(
    status: DataProcessedStatus,
    connection: ConnectionStatus,
    read: Option<&[u8]>,
    write: Option<&[u8]>,
) -> ProcessingResponse {
    let data = |d: Option<&[u8]>| {
        d.map(|d| Data {
            data: d.to_vec(),
            end_of_stream: false,
        })
    };
    ProcessingResponse {
        read_data: data(read),
        write_data: data(write),
        data_processing_status: status,
        connection_status: connection,
    }
}

#[test]
fn messages_carry_one_direction() {
    let request = processing_request(true, b"r".to_vec(), false);
    assert_eq!(request.read_data.unwrap().data, b"r");
    assert!(request.write_data.is_none());
    let request = processing_request(false, b"w".to_vec(), true);
    assert!(request.read_data.is_none());
    assert!(request.write_data.unwrap().end_of_stream);
}

#[test]
fn processor_answers_are_interpreted() {
    let modified = || {
        answer(
            DataProcessedStatus::Modified,
            ConnectionStatus::Continue,
            Some(b"new"),
            None,
        )
    };
    assert_eq!(
        process_response(true, modified()).unwrap(),
        (Some(b"new".to_vec()), false)
    );
    assert!(matches!(
        process_response(false, modified()),
        Err(Error::WrongDirection)
    ));
    assert_eq!(
        process_response(
            true,
            answer(
                DataProcessedStatus::Unmodified,
                ConnectionStatus::CloseRst,
                Some(b"ignored"),
                None
            )
        )
        .unwrap(),
        (None, true)
    );
    assert_eq!(
        process_response(
            false,
            answer(DataProcessedStatus::Unknown, ConnectionStatus::Unrecognized, None, None)
        )
        .unwrap(),
        (None, true)
    );
}

fn copier(mode: DataSendMode, failure_mode_allow: bool) -> Copier {
    Copier {
        read: true,
        mode,
        failure_mode_allow,
    }
}

#[test]
fn skipped_data_is_copied() {
    let c = copier(DataSendMode::Skip, false);
    assert!(matches!(c.on_read(b"x".to_vec()), CopyStep::Write(d) if d == b"x"));
    assert!(matches!(c.on_read(vec![]), CopyStep::Shutdown));
}

#[test]
fn streamed_data_is_processed() {
    let mut c = copier(DataSendMode::Streamed, false);
    assert!(matches!(
        c.on_read(b"x".to_vec()),
        CopyStep::Process { data, end_of_stream: false } if data == b"x"
    ));
    assert!(matches!(
        c.on_read(vec![]),
        CopyStep::Process { end_of_stream: true, .. }
    ));
    let mut done = |eos, outcome| c.on_processed(b"x".to_vec(), eos, outcome);
    assert!(matches!(done(false, Ok((None, false))), CopyStep::Write(d) if d == b"x"));
    assert!(matches!(
        done(false, Ok((Some(b"y".to_vec()), false))),
        CopyStep::Write(d) if d == b"y"
    ));
    assert!(matches!(
        done(false, Ok((Some(b"y".to_vec()), true))),
        CopyStep::Shutdown
    ));
    assert!(matches!(done(true, Ok((None, false))), CopyStep::Shutdown));
    assert!(matches!(
        done(false, Err(Error::StreamClosed)),
        CopyStep::Fail(Error::StreamClosed)
    ));
}

#[test]
fn failures_may_be_allowed() {
    let mut c = copier(DataSendMode::Streamed, true);
    assert!(matches!(
        c.on_processed(b"x".to_vec(), false, Err(Error::Grpc("down".to_string()))),
        CopyStep::Write(d) if d == b"x"
    ));
    assert_eq!(c.mode, DataSendMode::Skip);
    assert!(matches!(c.on_read(b"y".to_vec()), CopyStep::Write(d) if d == b"y"));
    let mut c = copier(DataSendMode::Streamed, true);
    assert!(matches!(
        c.on_processed(b"x".to_vec(), false, Err(Error::WrongDirection)),
        CopyStep::Fail(Error::WrongDirection)
    ));
    assert_eq!(c.mode, DataSendMode::Streamed);
}

#[test]
fn connections_report_the_first_error() {
    assert!(proxy_result(Ok(()), Ok(())).is_ok());
    assert!(matches!(
        proxy_result(Err(Error::StreamClosed), Err(Error::WrongDirection)),
        Err(Error::StreamClosed)
    ));
    assert!(matches!(
        proxy_result(Ok(()), Err(Error::WrongDirection)),
        Err(Error::WrongDirection)
    ));
    assert_eq!(
        Error::Grpc("s".to_string()).message(),
        "network ext_proc stream failed: s"
    );
    assert_eq!(
        Error::StreamClosed.message(),
        "network ext_proc stream closed before responding"
    );
    assert_eq!(
        Error::WrongDirection.message(),
        "network ext_proc response did not match the processed direction"
    );
    assert_eq!(Error::Io("io".to_string()).message(), "io");
}

struct Echo;

impl Handler for Echo {}

struct Upper;

impl Handler for Upper {
    fn process(&mut self, request: ProcessingRequest) -> Result<ProcessingResponse, String> {
        Ok(ProcessingResponse {
            read_data: request.read_data.map(|d| Data {
                data: d.data.to_ascii_uppercase(),
                end_of_stream: d.end_of_stream,
            }),
            write_data: None,
            data_processing_status: DataProcessedStatus::Modified,
            connection_status: ConnectionStatus::Continue,
        })
    }
}

/// Sends pieces of data through a processor.
fn relay<H: Handler>(mut handler: H, pieces: &[&[u8]]) -> Vec<u8> {
    let mut c = copier(DataSendMode::Streamed, false);
    let mut out = Vec::new();
    for piece in pieces {
        let CopyStep::Process { data, end_of_stream } = c.on_read(piece.to_vec()) else {
            panic!("expected data to be processed");
        };
        let request = processing_request(true, data.clone(), end_of_stream);
        let outcome = process_response(true, handler.process(request).unwrap());
        match c.on_processed(data, end_of_stream, outcome) {
            CopyStep::Write(bytes) => out.extend(bytes),
            CopyStep::Shutdown => break,
            _ => panic!("unexpected step"),
        }
    }
    out
}

#[test]
fn sample_processors_answer() {
    let echo = NetworkExtProcMock::new(|| Echo);
    assert_eq!(relay(echo.start(), &[b"ab", b"c", b""]), b"abc");
    let upper = NetworkExtProcMock::new(|| Upper);
    assert_eq!(relay(upper.start(), &[b"ab", b"c", b""]), b"ABC");
}

#[test]
fn only_positive_values_delay() {
    assert_eq!(
        eval_duration(Some(DelayValue::Duration {
            seconds: 2,
            nanos: 5
        })),
        Some(Delay::Exact {
            seconds: 2,
            nanos: 5
        })
    );
    assert_eq!(
        eval_duration(Some(DelayValue::Duration {
            seconds: 0,
            nanos: 1
        })),
        Some(Delay::Exact {
            seconds: 0,
            nanos: 1
        })
    );
    assert_eq!(
        eval_duration(Some(DelayValue::Duration {
            seconds: 0,
            nanos: 0
        })),
        None
    );
    assert_eq!(
        eval_duration(Some(DelayValue::Duration {
            seconds: -1,
            nanos: 999_999_999
        })),
        None
    );
    assert_eq!(eval_duration(Some(DelayValue::Int(500))), Some(Delay::Millis(500)));
    assert_eq!(eval_duration(Some(DelayValue::Int(0))), None);
    assert_eq!(eval_duration(Some(DelayValue::Int(-5))), None);
    assert_eq!(eval_duration(Some(DelayValue::UInt(7))), Some(Delay::Millis(7)));
    assert_eq!(eval_duration(Some(DelayValue::Other)), None);
    assert_eq!(eval_duration(None), None);
    let policy = Policy {
        duration: "int(random() * 500)".to_string(),
    };
    assert_eq!(policy.expressions(), vec!["int(random() * 500)".to_string()]);
}

#[test]
fn urls_choose_databases() {
    assert_eq!(database_kind("postgres://host/db"), DatabaseKind::Postgres);
    assert_eq!(database_kind("postgresql://host/db"), DatabaseKind::Postgres);
    assert_eq!(database_kind("sqlite://file.db"), DatabaseKind::Sqlite);
    assert_eq!(database_kind("POSTGRES://host"), DatabaseKind::Sqlite);
    assert_eq!(database_kind(""), DatabaseKind::Sqlite);
}

#[test]
fn durations_become_expressions() {
    assert_eq!(
        de_duration_or_expression("2s".to_string(), true),
        "duration(\"2s\")"
    );
    assert_eq!(
        de_duration_or_expression("random() * 2".to_string(), false),
        "random() * 2"
    );
}

#[test]
fn values_have_bytes() {
    assert_eq!(
        value_as_byte_or_json(ExpressionValue::Text("é".to_string())).unwrap(),
        "é".as_bytes()
    );
    assert_eq!(
        value_as_byte_or_json(ExpressionValue::Bytes(vec![1, 255])).unwrap(),
        vec![1, 255]
    );
    let document: serde_json::Value = serde_json::from_str(r#"{"b": [1, "x"], "a": null}"#).unwrap();
    assert_eq!(
        value_as_byte_or_json(ExpressionValue::Document(document)).unwrap(),
        br#"{"a":null,"b":[1,"x"]}"#
    );
    assert_eq!(
        value_as_byte_or_json(ExpressionValue::NoDocument("why".to_string())).unwrap_err(),
        "why"
    );
}

#[test]
fn white_space_is_trimmed() {
    assert_eq!(trim(" \t\n\u{3000}a b\u{a0} "), "a b");
    assert_eq!(trim("  "), "");
}

#[test]
fn keys_are_header_names() {
    let keys = |name: &str| {
        build_grpc_initial_metadata(&Some(vec![(
            EXTPROC_GRPC_INITIAL_METADATA_NAMESPACE.to_string(),
            vec![(name.to_string(), text("v"))],
        )]))
        .into_iter()
        .map(|(key, _)| key)
        .collect::<Vec<_>>()
    };
    assert_eq!(keys("AZaz09!#$%&'*+-.^_`|~"), vec!["azaz09!#$%&'*+-.^_`|~"]);
    assert_eq!(keys("Content-Type"), vec!["content-type"]);
    assert_eq!(keys("bin"), vec!["bin"]);
    for name in ["", "-bin", "X-BIN", "a b", "a\"b", "a(b", "a,b", "a/b", "a:b", "a;b", "é", "a\u{7f}"] {
        assert!(keys(name).is_empty(), "{name:?}");
    }
    assert_eq!(keys(&"k".repeat(65535)).len(), 1);
    assert!(keys(&"k".repeat(65536)).is_empty());
}
