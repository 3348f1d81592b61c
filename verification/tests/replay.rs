//! Replaying sequences against scripted servers, and minimizing what they disagree on.

use bytes::BufMut;
use pg_proto_fuzz::comparator::{Divergence, NormalizedMsg};
use pg_proto_fuzz::message::BackendMessage;
use pg_proto_fuzz::op::{FrontendOp, Param, PortalName, StmtName};
use pg_proto_fuzz::runner::{
    flush_failure, plan_sends, setup_step, Collector, DualRunner, Received, ResponseEvent,
    SetupStep,
};
use pg_proto_fuzz::shrinker::{
    classify, reproduces, simplify_names, simplify_sql, DivergenceClass, Shrinker,
};
use pg_proto_fuzz::wire::encode_op;
use pg_stream::connection::PgConnection;
use std::io;
use std::pin::Pin;
use std::task::{Context, Poll};
use std::time::Duration;
use tokio::io::{AsyncRead, AsyncWrite, ReadBuf};

const TIMEOUT: Duration = Duration::from_millis(100);

// ---------------------------------------------------------------------------
// Scripted servers
// ---------------------------------------------------------------------------

/// Answers reads from a script, and ends when the script does.
struct MockStream {
    read_data: Vec<u8>,
    read_pos: usize,
    write_buf: Vec<u8>,
}

impl AsyncRead for MockStream {
    fn poll_read(
        mut self: Pin<&mut Self>,
        _cx: &mut Context<'_>,
        buf: &mut ReadBuf<'_>,
    ) -> Poll<io::Result<()>> {
        let start = self.read_pos;
        let n = std::cmp::min(self.read_data.len() - start, buf.remaining());
        buf.put_slice(&self.read_data[start..start + n]);
        self.read_pos += n;
        Poll::Ready(Ok(()))
    }
}

impl AsyncWrite for MockStream {
    fn poll_write(
        mut self: Pin<&mut Self>,
        _cx: &mut Context<'_>,
        buf: &[u8],
    ) -> Poll<io::Result<usize>> {
        self.write_buf.extend_from_slice(buf);
        Poll::Ready(Ok(buf.len()))
    }

    fn poll_flush(self: Pin<&mut Self>, _cx: &mut Context<'_>) -> Poll<io::Result<()>> {
        Poll::Ready(Ok(()))
    }

    fn poll_shutdown(self: Pin<&mut Self>, _cx: &mut Context<'_>) -> Poll<io::Result<()>> {
        Poll::Ready(Ok(()))
    }
}

impl Unpin for MockStream {}

fn mock_conn(response_bytes: Vec<u8>) -> PgConnection<MockStream> {
    PgConnection::new(MockStream {
        read_data: response_bytes,
        read_pos: 0,
        write_buf: Vec::new(),
    })
}

fn block_on<T>(work: impl std::future::Future<Output = T>) -> T {
    tokio::runtime::Runtime::new().unwrap().block_on(work)
}

// ---------------------------------------------------------------------------
// Wire-format backend messages
// ---------------------------------------------------------------------------

fn message(code: u8, payload: &[u8]) -> Vec<u8> {
    let mut buf = vec![code];
    buf.extend_from_slice(&((4 + payload.len()) as u32).to_be_bytes());
    buf.extend_from_slice(payload);
    buf
}

fn ready_for_query(status: u8) -> Vec<u8> {
    message(b'Z', &[status])
}

fn parse_complete() -> Vec<u8> {
    message(b'1', &[])
}

fn bind_complete() -> Vec<u8> {
    message(b'2', &[])
}

fn command_complete(tag: &str) -> Vec<u8> {
    let mut payload = tag.as_bytes().to_vec();
    payload.push(0);
    message(b'C', &payload)
}

fn response_fields(severity: &str, code: &str, text: &str) -> Vec<u8> {
    let mut payload = Vec::new();
    for (field, value) in [(b'S', severity), (b'V', severity), (b'C', code), (b'M', text)] {
        payload.push(field);
        payload.extend_from_slice(value.as_bytes());
        payload.push(0);
    }
    payload.push(0);
    payload
}

fn error_response(severity: &str, code: &str, text: &str) -> Vec<u8> {
    message(b'E', &response_fields(severity, code, text))
}

fn data_row(columns: &[Option<&[u8]>]) -> Vec<u8> {
    let mut payload = (columns.len() as u16).to_be_bytes().to_vec();
    for column in columns {
        match column {
            Some(data) => {
                payload.extend_from_slice(&(data.len() as u32).to_be_bytes());
                payload.extend_from_slice(data);
            }
            None => payload.extend_from_slice(&(-1i32).to_be_bytes()),
        }
    }
    message(b'D', &payload)
}

fn row_description(columns: &[(&str, u32)]) -> Vec<u8> {
    let mut payload = (columns.len() as u16).to_be_bytes().to_vec();
    for (name, type_oid) in columns {
        payload.extend_from_slice(name.as_bytes());
        payload.push(0);
        payload.extend_from_slice(&0u32.to_be_bytes());
        payload.extend_from_slice(&0u16.to_be_bytes());
        payload.extend_from_slice(&type_oid.to_be_bytes());
        payload.extend_from_slice(&(-1i16).to_be_bytes());
        payload.extend_from_slice(&(-1i32).to_be_bytes());
        payload.extend_from_slice(&0u16.to_be_bytes());
    }
    message(b'T', &payload)
}

fn concat(messages: &[Vec<u8>]) -> Vec<u8> {
    messages.concat()
}

// ---------------------------------------------------------------------------
// Running over connections
// ---------------------------------------------------------------------------

struct MockConnectionFactory {
    response_bytes: Vec<u8>,
}

impl MockConnectionFactory {
    fn connect(&self) -> PgConnection<MockStream> {
        mock_conn(self.response_bytes.clone())
    }
}

async fn receive(conn: &mut PgConnection<MockStream>, timeout: Duration) -> Received {
    match tokio::time::timeout(timeout, conn.recv()).await {
        Ok(Ok(msg)) => Received::Message(Box::new(BackendMessage::from_pg(&msg))),
        Ok(Err(e)) => Received::Failed(e.to_string()),
        Err(_) => Received::TimedOut,
    }
}

async fn run_sequence(
    conn: &mut PgConnection<MockStream>,
    ops: &[FrontendOp],
    timeout: Duration,
) -> Vec<ResponseEvent> {
    let plan = plan_sends(ops);
    for batch in &plan.batches {
        conn.put_slice(batch);
        if let Err(e) = conn.flush().await {
            return flush_failure(e.to_string());
        }
    }
    conn.put_slice(&plan.rest);
    let mut collector = Collector::new(ops);
    while !collector.is_done() {
        let received = receive(conn, timeout).await;
        collector.receive(received);
    }
    collector.into_responses()
}

async fn run_setup(
    conn: &mut PgConnection<MockStream>,
    stmts: &[String],
    timeout: Duration,
) -> Result<(), String> {
    for stmt in stmts {
        let mut bytes = Vec::new();
        encode_op(&mut bytes, &FrontendOp::Query { sql: stmt.clone() });
        conn.put_slice(&bytes);
        conn.flush().await.map_err(|e| e.to_string())?;
        loop {
            match setup_step(&receive(conn, timeout).await, stmt) {
                SetupStep::Next => break,
                SetupStep::Wait => continue,
                SetupStep::Fail => return Err("connection failed".to_string()),
                SetupStep::TimedOut(text) => return Err(text),
            }
        }
    }
    Ok(())
}

type MockRunner = DualRunner<MockConnectionFactory, MockConnectionFactory>;

async fn run(
    runner: &MockRunner,
    ops: &[FrontendOp],
) -> Result<(Vec<ResponseEvent>, Vec<ResponseEvent>), String> {
    let mut pg = runner.pg_factory.connect();
    let mut target = runner.target_factory.connect();
    run_setup(&mut pg, &runner.setup_stmts, runner.timeout).await?;
    run_setup(&mut target, &runner.setup_stmts, runner.timeout).await?;
    let pg_responses = run_sequence(&mut pg, ops, runner.timeout).await;
    let target_responses = run_sequence(&mut target, ops, runner.timeout).await;
    Ok((pg_responses, target_responses))
}

/// Whether a candidate shows a divergence of a class when it is run.
async fn shows(candidate: &[FrontendOp], class: &DivergenceClass, runner: &MockRunner) -> bool {
    let streams = run(runner, candidate).await.ok();
    let judged = streams
        .as_ref()
        .map(|(pg, target)| (pg.as_slice(), target.as_slice()));
    reproduces(candidate, class, judged)
}

async fn shrink(ops: &[FrontendOp], div: &Divergence, runner: &MockRunner) -> Vec<FrontendOp> {
    let class = classify(div);
    let mut shrinker = Shrinker::new(ops);
    while let Some(candidate) = shrinker.candidate() {
        let same = shows(&candidate, &class, runner).await;
        shrinker.judge(same);
    }
    shrinker.into_ops()
}

/// Asserts that a response stream holds exactly these message types in order.
fn assert_message_types(responses: &[ResponseEvent], expected: &[&str]) {
    let actual: Vec<String> = responses
        .iter()
        .map(|r| match r {
            ResponseEvent::Message(msg) => format!("{msg:?}")
                .split(|c: char| !c.is_alphanumeric())
                .next()
                .unwrap_or("?")
                .to_string(),
            ResponseEvent::Timeout => "Timeout".to_string(),
            ResponseEvent::Disconnected(_) => "Disconnected".to_string(),
        })
        .collect();
    let expected: Vec<String> = expected.iter().map(|s| s.to_string()).collect();
    assert_eq!(actual, expected, "message types mismatch");
}

// ---------------------------------------------------------------------------
// Replaying
// ---------------------------------------------------------------------------

#[test]
fn test_happy_path_extended_query() {
    // Parse/Bind/Execute/Sync → ParseComplete, BindComplete, DataRow, CommandComplete, RFQ
    let response_bytes = concat(&[
        parse_complete(),
        bind_complete(),
        row_description(&[("?column?", 23)]), // int4
        data_row(&[Some(b"1")]),
        command_complete("SELECT 1"),
        ready_for_query(b'I'),
    ]);

    let mut conn = mock_conn(response_bytes);
    let ops = vec![
        FrontendOp::Parse {
            name: StmtName::Unnamed,
            sql: "SELECT 1".into(),
            param_oids: vec![],
        },
        FrontendOp::Bind {
            portal: PortalName::Unnamed,
            stmt: StmtName::Unnamed,
            params: vec![],
        },
        FrontendOp::Execute {
            portal: PortalName::Unnamed,
            max_rows: 0,
        },
        FrontendOp::Sync,
    ];

    let responses = block_on(run_sequence(&mut conn, &ops, TIMEOUT));

    assert_eq!(responses.len(), 6);
    assert_message_types(
        &responses,
        &[
            "ParseComplete",
            "BindComplete",
            "RowDescription",
            "DataRow",
            "CommandComplete",
            "ReadyForQuery",
        ],
    );
}

#[test]
fn test_simple_query() {
    let response_bytes = concat(&[
        row_description(&[("?column?", 25)]), // text
        data_row(&[Some(b"hello")]),
        command_complete("SELECT 1"),
        ready_for_query(b'I'),
    ]);

    let mut conn = mock_conn(response_bytes);
    let ops = vec![FrontendOp::Query {
        sql: "SELECT 'hello'".into(),
    }];

    let responses = block_on(run_sequence(&mut conn, &ops, TIMEOUT));

    assert_eq!(responses.len(), 4);
    assert_message_types(
        &responses,
        &[
            "RowDescription",
            "DataRow",
            "CommandComplete",
            "ReadyForQuery",
        ],
    );
}

#[test]
fn test_parse_error() {
    // Parse with bad SQL → ErrorResponse, then Sync → ReadyForQuery
    let response_bytes = concat(&[
        error_response("ERROR", "42601", "syntax error at or near \"SLECT\""),
        ready_for_query(b'I'),
    ]);

    let mut conn = mock_conn(response_bytes);
    let ops = vec![
        FrontendOp::Parse {
            name: StmtName::Unnamed,
            sql: "SLECT 1".into(),
            param_oids: vec![],
        },
        FrontendOp::Sync,
    ];

    let responses = block_on(run_sequence(&mut conn, &ops, TIMEOUT));

    assert_eq!(responses.len(), 2);
    assert_message_types(&responses, &["ErrorResponse", "ReadyForQuery"]);
}

#[test]
fn test_parameterized_query() {
    let response_bytes = concat(&[
        parse_complete(),
        bind_complete(),
        row_description(&[("?column?", 23)]),
        data_row(&[Some(b"42")]),
        command_complete("SELECT 1"),
        ready_for_query(b'I'),
    ]);

    let mut conn = mock_conn(response_bytes);
    let ops = vec![
        FrontendOp::Parse {
            name: StmtName::Unnamed,
            sql: "SELECT $1::int".into(),
            param_oids: vec![],
        },
        FrontendOp::Bind {
            portal: PortalName::Unnamed,
            stmt: StmtName::Unnamed,
            params: vec![Param::Int32(42)],
        },
        FrontendOp::Execute {
            portal: PortalName::Unnamed,
            max_rows: 0,
        },
        FrontendOp::Sync,
    ];

    let responses = block_on(run_sequence(&mut conn, &ops, TIMEOUT));

    assert_eq!(responses.len(), 6);
    assert_message_types(
        &responses,
        &[
            "ParseComplete",
            "BindComplete",
            "RowDescription",
            "DataRow",
            "CommandComplete",
            "ReadyForQuery",
        ],
    );
}

#[test]
fn test_multiple_syncs() {
    // Two extended query cycles in one sequence
    let response_bytes = concat(&[
        parse_complete(),
        bind_complete(),
        data_row(&[Some(b"1")]),
        command_complete("SELECT 1"),
        ready_for_query(b'I'),
        parse_complete(),
        bind_complete(),
        data_row(&[Some(b"2")]),
        command_complete("SELECT 1"),
        ready_for_query(b'I'),
    ]);

    let mut conn = mock_conn(response_bytes);
    let ops = vec![
        FrontendOp::Parse {
            name: StmtName::Unnamed,
            sql: "SELECT 1".into(),
            param_oids: vec![],
        },
        FrontendOp::Bind {
            portal: PortalName::Unnamed,
            stmt: StmtName::Unnamed,
            params: vec![],
        },
        FrontendOp::Execute {
            portal: PortalName::Unnamed,
            max_rows: 0,
        },
        FrontendOp::Sync,
        FrontendOp::Parse {
            name: StmtName::Unnamed,
            sql: "SELECT 2".into(),
            param_oids: vec![],
        },
        FrontendOp::Bind {
            portal: PortalName::Unnamed,
            stmt: StmtName::Unnamed,
            params: vec![],
        },
        FrontendOp::Execute {
            portal: PortalName::Unnamed,
            max_rows: 0,
        },
        FrontendOp::Sync,
    ];

    let responses = block_on(run_sequence(&mut conn, &ops, TIMEOUT));

    // Two full cycles = 10 messages
    assert_eq!(responses.len(), 10);
    // Should end with two ReadyForQuery
    let rfq_count = responses
        .iter()
        .filter(|r| matches!(r, ResponseEvent::Message(m) if matches!(m.as_ref(), BackendMessage::ReadyForQuery { .. })))
        .count();
    assert_eq!(rfq_count, 2);
}

#[test]
fn test_disconnect_on_eof() {
    // Mock returns nothing — EOF immediately
    let mut conn = mock_conn(vec![]);
    let ops = vec![FrontendOp::Sync];

    let responses = block_on(run_sequence(&mut conn, &ops, TIMEOUT));

    assert_eq!(responses.len(), 1);
    assert!(matches!(&responses[0], ResponseEvent::Disconnected(_)));
}

#[test]
fn test_no_flush_points() {
    // Only Parse/Bind with no Sync — no ReadyForQuery expected.
    // Mock returns nothing, so we should get a timeout after the forced flush.
    let mut conn = mock_conn(vec![]);
    let ops = vec![
        FrontendOp::Parse {
            name: StmtName::Unnamed,
            sql: "SELECT 1".into(),
            param_oids: vec![],
        },
        FrontendOp::Bind {
            portal: PortalName::Unnamed,
            stmt: StmtName::Unnamed,
            params: vec![],
        },
    ];

    let responses = block_on(run_sequence(&mut conn, &ops, TIMEOUT));

    // No Sync/Query means expected_rfq = 0, so we don't expect ReadyForQuery.
    // The mock EOF will cause a disconnect during the drain.
    // With no expected RFQ and a has_terminate=false, the collector drains until
    // EOF or timeout. EOF on empty mock → Disconnected.
    assert!(responses.len() <= 1);
}

#[test]
fn test_named_statement_and_portal() {
    let response_bytes = concat(&[
        parse_complete(),
        bind_complete(),
        data_row(&[Some(b"1")]),
        command_complete("SELECT 1"),
        ready_for_query(b'I'),
    ]);

    let mut conn = mock_conn(response_bytes);
    let ops = vec![
        FrontendOp::Parse {
            name: StmtName::S1,
            sql: "SELECT 1".into(),
            param_oids: vec![],
        },
        FrontendOp::Bind {
            portal: PortalName::P1,
            stmt: StmtName::S1,
            params: vec![],
        },
        FrontendOp::Execute {
            portal: PortalName::P1,
            max_rows: 0,
        },
        FrontendOp::Sync,
    ];

    let responses = block_on(run_sequence(&mut conn, &ops, TIMEOUT));

    assert_eq!(responses.len(), 5);
    assert_message_types(
        &responses,
        &[
            "ParseComplete",
            "BindComplete",
            "DataRow",
            "CommandComplete",
            "ReadyForQuery",
        ],
    );
}

#[test]
fn test_dual_runner_identical_responses() {
    let response_bytes = concat(&[
        parse_complete(),
        bind_complete(),
        data_row(&[Some(b"1")]),
        command_complete("SELECT 1"),
        ready_for_query(b'I'),
    ]);

    let runner = DualRunner::new(
        MockConnectionFactory {
            response_bytes: response_bytes.clone(),
        },
        MockConnectionFactory { response_bytes },
        TIMEOUT,
    );

    let ops = vec![
        FrontendOp::Parse {
            name: StmtName::Unnamed,
            sql: "SELECT 1".into(),
            param_oids: vec![],
        },
        FrontendOp::Bind {
            portal: PortalName::Unnamed,
            stmt: StmtName::Unnamed,
            params: vec![],
        },
        FrontendOp::Execute {
            portal: PortalName::Unnamed,
            max_rows: 0,
        },
        FrontendOp::Sync,
    ];

    let (pg, target) = block_on(run(&runner, &ops)).unwrap();

    assert_eq!(pg.len(), 5);
    assert_eq!(target.len(), 5);
    assert_message_types(
        &pg,
        &[
            "ParseComplete",
            "BindComplete",
            "DataRow",
            "CommandComplete",
            "ReadyForQuery",
        ],
    );
    assert_message_types(
        &target,
        &[
            "ParseComplete",
            "BindComplete",
            "DataRow",
            "CommandComplete",
            "ReadyForQuery",
        ],
    );
}

#[test]
fn test_dual_runner_divergent_responses() {
    // PG returns success
    let pg_bytes = concat(&[
        parse_complete(),
        bind_complete(),
        data_row(&[Some(b"1")]),
        command_complete("SELECT 1"),
        ready_for_query(b'I'),
    ]);

    // Target returns error after parse
    let target_bytes = concat(&[
        error_response("ERROR", "42601", "syntax error"),
        ready_for_query(b'I'),
    ]);

    let runner = DualRunner::new(
        MockConnectionFactory {
            response_bytes: pg_bytes,
        },
        MockConnectionFactory {
            response_bytes: target_bytes,
        },
        TIMEOUT,
    );

    let ops = vec![
        FrontendOp::Parse {
            name: StmtName::Unnamed,
            sql: "SELECT 1".into(),
            param_oids: vec![],
        },
        FrontendOp::Bind {
            portal: PortalName::Unnamed,
            stmt: StmtName::Unnamed,
            params: vec![],
        },
        FrontendOp::Execute {
            portal: PortalName::Unnamed,
            max_rows: 0,
        },
        FrontendOp::Sync,
    ];

    let (pg, target) = block_on(run(&runner, &ops)).unwrap();

    // Different lengths — the comparator will catch this
    assert_eq!(pg.len(), 5);
    assert_eq!(target.len(), 2);
    assert_message_types(&pg[..1], &["ParseComplete"]);
    assert_message_types(&target[..1], &["ErrorResponse"]);
}

#[test]
fn test_dual_runner_with_setup() {
    // Setup produces: CommandComplete + ReadyForQuery
    // Then the real query produces the usual
    let response_bytes = concat(&[
        // setup response
        command_complete("CREATE TABLE"),
        ready_for_query(b'I'),
        // actual query response
        parse_complete(),
        bind_complete(),
        data_row(&[Some(b"1")]),
        command_complete("SELECT 1"),
        ready_for_query(b'I'),
    ]);

    let runner = DualRunner::new(
        MockConnectionFactory {
            response_bytes: response_bytes.clone(),
        },
        MockConnectionFactory { response_bytes },
        TIMEOUT,
    )
    .with_setup(vec!["CREATE TABLE IF NOT EXISTS copy_test (id int)".into()]);

    let ops = vec![
        FrontendOp::Parse {
            name: StmtName::Unnamed,
            sql: "SELECT 1".into(),
            param_oids: vec![],
        },
        FrontendOp::Bind {
            portal: PortalName::Unnamed,
            stmt: StmtName::Unnamed,
            params: vec![],
        },
        FrontendOp::Execute {
            portal: PortalName::Unnamed,
            max_rows: 0,
        },
        FrontendOp::Sync,
    ];

    let (pg, target) = block_on(run(&runner, &ops)).unwrap();

    // Setup responses are consumed; only the query responses remain
    assert_eq!(pg.len(), 5);
    assert_eq!(target.len(), 5);
}

// ---------------------------------------------------------------------------
// Minimizing
// ---------------------------------------------------------------------------

/// Create a DualRunner where pg returns success and target returns an error.
fn divergent_runner() -> DualRunner<MockConnectionFactory, MockConnectionFactory> {
    let pg_bytes = concat(&[
        parse_complete(),
        bind_complete(),
        row_description(&[("?column?", 23)]),
        data_row(&[Some(b"1")]),
        command_complete("SELECT 1"),
        ready_for_query(b'I'),
    ]);
    let target_bytes = concat(&[
        error_response("ERROR", "42601", "syntax error"),
        ready_for_query(b'I'),
    ]);
    DualRunner::new(
        MockConnectionFactory {
            response_bytes: pg_bytes,
        },
        MockConnectionFactory {
            response_bytes: target_bytes,
        },
        TIMEOUT,
    )
}

fn sample_ops() -> Vec<FrontendOp> {
    vec![
        FrontendOp::Parse {
            name: StmtName::Unnamed,
            sql: "SELECT 1".into(),
            param_oids: vec![],
        },
        FrontendOp::Bind {
            portal: PortalName::Unnamed,
            stmt: StmtName::Unnamed,
            params: vec![],
        },
        FrontendOp::Execute {
            portal: PortalName::Unnamed,
            max_rows: 0,
        },
        FrontendOp::Sync,
    ]
}

fn sample_divergence() -> Divergence {
    Divergence {
        index: 0,
        expected: Some(NormalizedMsg::ParseComplete),
        actual: Some(NormalizedMsg::ErrorResponse {
            code: "42601".into(),
            message: "syntax error".into(),
        }),
        ops: sample_ops(),
    }
}

#[test]
fn test_classify_same_class() {
    let div1 = Divergence {
        index: 0,
        expected: Some(NormalizedMsg::ParseComplete),
        actual: Some(NormalizedMsg::ErrorResponse {
            code: "42601".into(),
            message: "syntax error".into(),
        }),
        ops: vec![],
    };
    let div2 = Divergence {
        index: 3,
        expected: Some(NormalizedMsg::ParseComplete),
        actual: Some(NormalizedMsg::ErrorResponse {
            code: "42000".into(),
            message: "different error".into(),
        }),
        ops: vec![],
    };
    assert_eq!(classify(&div1), classify(&div2));
}

#[test]
fn test_classify_different_class() {
    let div1 = Divergence {
        index: 0,
        expected: Some(NormalizedMsg::ParseComplete),
        actual: Some(NormalizedMsg::ErrorResponse {
            code: "42601".into(),
            message: "err".into(),
        }),
        ops: vec![],
    };
    let div2 = Divergence {
        index: 0,
        expected: Some(NormalizedMsg::BindComplete),
        actual: Some(NormalizedMsg::ErrorResponse {
            code: "42601".into(),
            message: "err".into(),
        }),
        ops: vec![],
    };
    assert_ne!(classify(&div1), classify(&div2));
}

#[test]
fn test_classify_end_of_stream() {
    let div = Divergence {
        index: 0,
        expected: Some(NormalizedMsg::ParseComplete),
        actual: None,
        ops: vec![],
    };
    let class = classify(&div);
    assert_eq!(class.expected_kind, "ParseComplete");
    assert_eq!(class.actual_kind, "EndOfStream");
}

#[test]
fn test_simplify_names_parse() {
    let op = FrontendOp::Parse {
        name: StmtName::S1,
        sql: "SELECT 1".into(),
        param_oids: vec![],
    };
    let simplified = simplify_names(&op).unwrap();
    assert!(matches!(
        simplified,
        FrontendOp::Parse {
            name: StmtName::Unnamed,
            ..
        }
    ));
}

#[test]
fn test_simplify_names_already_unnamed() {
    let op = FrontendOp::Parse {
        name: StmtName::Unnamed,
        sql: "SELECT 1".into(),
        param_oids: vec![],
    };
    assert!(simplify_names(&op).is_none());
}

#[test]
fn test_simplify_names_bind() {
    let op = FrontendOp::Bind {
        portal: PortalName::P1,
        stmt: StmtName::S2,
        params: vec![Param::Int32(1)],
    };
    let simplified = simplify_names(&op).unwrap();
    match simplified {
        FrontendOp::Bind {
            portal,
            stmt,
            params,
        } => {
            assert_eq!(portal, PortalName::Unnamed);
            assert_eq!(stmt, StmtName::Unnamed);
            assert_eq!(params, vec![Param::Int32(1)]);
        }
        _ => panic!("expected Bind"),
    }
}

#[test]
fn test_simplify_names_execute() {
    let op = FrontendOp::Execute {
        portal: PortalName::P2,
        max_rows: 5,
    };
    let simplified = simplify_names(&op).unwrap();
    assert!(matches!(
        simplified,
        FrontendOp::Execute {
            portal: PortalName::Unnamed,
            max_rows: 5
        }
    ));
}

#[test]
fn test_simplify_names_sync_unchanged() {
    assert!(simplify_names(&FrontendOp::Sync).is_none());
}

#[test]
fn test_simplify_sql_query() {
    let op = FrontendOp::Query {
        sql: "SELECT * FROM pg_type".into(),
    };
    let simplified = simplify_sql(&op).unwrap();
    assert!(matches!(
        simplified,
        FrontendOp::Query { sql } if sql == "SELECT 1"
    ));
}

#[test]
fn test_simplify_sql_already_simple() {
    let op = FrontendOp::Query {
        sql: "SELECT 1".into(),
    };
    assert!(simplify_sql(&op).is_none());
}

#[test]
fn test_simplify_sql_parse() {
    let op = FrontendOp::Parse {
        name: StmtName::S1,
        sql: "SELECT $1::int".into(),
        param_oids: vec![23],
    };
    let simplified = simplify_sql(&op).unwrap();
    match simplified {
        FrontendOp::Parse {
            name,
            sql,
            param_oids,
        } => {
            assert_eq!(name, StmtName::S1); // name preserved
            assert_eq!(sql, "SELECT 1");
            assert!(param_oids.is_empty()); // params cleared
        }
        _ => panic!("expected Parse"),
    }
}

#[test]
fn test_shrink_reduces_sequence() {
    let runner = divergent_runner();
    let ops = sample_ops();
    let div = sample_divergence();

    let shrunk = block_on(shrink(&ops, &div, &runner));
    assert!(
        shrunk.len() < ops.len(),
        "shrunk ({}) should be shorter than original ({})",
        shrunk.len(),
        ops.len()
    );
}

#[test]
fn test_shrink_preserves_divergence() {
    let runner = divergent_runner();
    let ops = sample_ops();
    let div = sample_divergence();
    let class = classify(&div);

    let shrunk = block_on(shrink(&ops, &div, &runner));
    assert!(block_on(shows(&shrunk, &class, &runner)));
}

#[test]
fn test_suffix_trim() {
    let runner = divergent_runner();
    let div = sample_divergence();
    let class = classify(&div);
    let ops = sample_ops();

    // The first candidates are prefixes, the shortest one first.
    let mut shrinker = Shrinker::new(&ops);
    let mut trimmed = None;
    for end in 1..ops.len() {
        let candidate = shrinker.candidate().unwrap();
        assert_eq!(candidate, ops[..end].to_vec());
        if block_on(shows(&candidate, &class, &runner)) {
            trimmed = Some(candidate);
            break;
        }
        shrinker.judge(false);
    }
    let trimmed = trimmed.unwrap();
    assert!(trimmed.len() < ops.len());
}

#[test]
fn test_single_deletion() {
    let runner = divergent_runner();
    let div = sample_divergence();
    let class = classify(&div);
    let ops = sample_ops();

    // Behind the prefixes and the suffixes come the single deletions.
    let mut shrinker = Shrinker::new(&ops);
    for end in 1..ops.len() {
        assert_eq!(shrinker.candidate().unwrap(), ops[..end].to_vec());
        shrinker.judge(false);
    }
    for start in (1..ops.len()).rev() {
        assert_eq!(shrinker.candidate().unwrap(), ops[start..].to_vec());
        shrinker.judge(false);
    }
    let deleted = shrinker.candidate().unwrap();
    assert!(block_on(shows(&deleted, &class, &runner)));
    assert_eq!(deleted.len(), ops.len() - 1);
}

#[test]
fn test_shrink_with_named_ops() {
    let runner = divergent_runner();
    let ops = vec![
        FrontendOp::Parse {
            name: StmtName::S1,
            sql: "SELECT * FROM pg_type".into(),
            param_oids: vec![],
        },
        FrontendOp::Bind {
            portal: PortalName::P1,
            stmt: StmtName::S1,
            params: vec![],
        },
        FrontendOp::Execute {
            portal: PortalName::P1,
            max_rows: 0,
        },
        FrontendOp::Sync,
    ];
    let div = Divergence {
        index: 0,
        expected: Some(NormalizedMsg::ParseComplete),
        actual: Some(NormalizedMsg::ErrorResponse {
            code: "42601".into(),
            message: "syntax error".into(),
        }),
        ops: ops.clone(),
    };

    let shrunk = block_on(shrink(&ops, &div, &runner));
    assert!(shrunk.len() <= ops.len());
}

#[test]
fn test_shrink_single_op_sequence() {
    let runner = divergent_runner();
    let ops = vec![FrontendOp::Sync];
    let class = DivergenceClass {
        expected_kind: "ParseComplete".into(),
        actual_kind: "ErrorResponse".into(),
    };

    // Single op can't be shrunk further by deletion/trim passes
    let shrinker = Shrinker::new(&ops);
    assert!(shrinker.candidate().is_none());
    assert!(shrinker.is_done());
    assert_eq!(shrinker.into_ops(), ops);
    assert!(!block_on(shows(&[], &class, &runner)));
}

// ---------------------------------------------------------------------------
// Sending
// ---------------------------------------------------------------------------

fn wire(ops: &[FrontendOp]) -> Vec<u8> {
    let mut bytes = Vec::new();
    for op in ops {
        encode_op(&mut bytes, op);
    }
    bytes
}

#[test]
fn sequence_is_cut_behind_each_flush() {
    let ops = vec![
        FrontendOp::Query { sql: "A".into() },
        FrontendOp::DescribeStatement {
            name: StmtName::S1,
        },
        FrontendOp::Flush,
        FrontendOp::ClosePortal {
            name: PortalName::P1,
        },
    ];
    let plan = plan_sends(&ops);
    assert_eq!(plan.batches, vec![wire(&ops[..1]), wire(&ops[1..3])]);
    assert_eq!(plan.rest, wire(&ops[3..]));
    assert_eq!([plan.batches.concat(), plan.rest].concat(), wire(&ops));
}

#[test]
fn one_flush_is_forced_where_none_is_due() {
    let ops = vec![
        FrontendOp::CopyData { data: vec![1] },
        FrontendOp::Execute {
            portal: PortalName::P2,
            max_rows: 3,
        },
    ];
    let plan = plan_sends(&ops);
    assert_eq!(plan.batches, vec![wire(&ops)]);
    assert!(plan.rest.is_empty());

    let nothing = plan_sends(&[]);
    assert_eq!(nothing.batches, vec![Vec::<u8>::new()]);
    assert!(nothing.rest.is_empty());
}

#[test]
fn each_operation_that_flushes_ends_a_batch() {
    let flushing = vec![
        FrontendOp::Sync,
        FrontendOp::Query { sql: "A".into() },
        FrontendOp::Flush,
        FrontendOp::CopyDone,
        FrontendOp::CopyFail {
            message: "abort".into(),
        },
        FrontendOp::Terminate,
    ];
    let plan = plan_sends(&flushing);
    assert_eq!(plan.batches.len(), flushing.len());
    assert!(flushing.iter().all(|op| op.triggers_flush()));
    let buffered = vec![
        FrontendOp::Parse {
            name: StmtName::S1,
            sql: "A".into(),
            param_oids: vec![],
        },
        FrontendOp::Bind {
            portal: PortalName::P1,
            stmt: StmtName::S1,
            params: vec![],
        },
        FrontendOp::DescribeStatement {
            name: StmtName::S1,
        },
        FrontendOp::DescribePortal {
            name: PortalName::P1,
        },
        FrontendOp::Execute {
            portal: PortalName::P1,
            max_rows: 0,
        },
        FrontendOp::CloseStatement {
            name: StmtName::S1,
        },
        FrontendOp::ClosePortal {
            name: PortalName::P1,
        },
        FrontendOp::CopyData { data: vec![] },
    ];
    assert!(buffered.iter().all(|op| !op.triggers_flush()));
}

#[test]
fn bytes_reach_the_stream_as_planned() {
    let ops = sample_ops();
    let mut conn = mock_conn(ready_for_query(b'I'));
    block_on(run_sequence(&mut conn, &ops, TIMEOUT));
    assert_eq!(conn.stream().write_buf, wire(&ops));
}

// ---------------------------------------------------------------------------
// Receiving
// ---------------------------------------------------------------------------

fn ready() -> Received {
    Received::Message(Box::new(BackendMessage::ReadyForQuery {
        status: pg_proto_fuzz::message::TransactionStatus::Idle,
    }))
}

fn other() -> Received {
    Received::Message(Box::new(BackendMessage::NoData))
}

fn collect(ops: &[FrontendOp], received: Vec<Received>) -> (Vec<ResponseEvent>, usize) {
    let mut collector = Collector::new(ops);
    let mut used = 0;
    for one in received {
        if collector.is_done() {
            break;
        }
        collector.receive(one);
        used += 1;
    }
    (collector.into_responses(), used)
}

#[test]
fn collecting_stops_at_the_last_expected_ready() {
    let ops = vec![FrontendOp::Sync, FrontendOp::Query { sql: "A".into() }];
    let (responses, used) = collect(&ops, vec![other(), ready(), other(), ready(), other()]);
    assert_eq!(used, 4);
    assert_message_types(
        &responses,
        &["NoData", "ReadyForQuery", "NoData", "ReadyForQuery"],
    );
}

#[test]
fn silence_counts_where_a_ready_is_expected() {
    let (responses, _) = collect(&[FrontendOp::Sync], vec![other(), Received::TimedOut]);
    assert_message_types(&responses, &["NoData", "Timeout"]);

    // Nothing to wait for: the stream is drained.
    let (responses, used) = collect(
        &[FrontendOp::Flush],
        vec![other(), ready(), Received::TimedOut],
    );
    assert_eq!(used, 3);
    assert_message_types(&responses, &["NoData", "ReadyForQuery"]);
}

#[test]
fn closing_the_connection_makes_a_disconnect_expected() {
    let ops = vec![FrontendOp::Sync, FrontendOp::Terminate];
    let (responses, used) = collect(
        &ops,
        vec![ready(), other(), Received::Failed("eof".into())],
    );
    assert_eq!(used, 3);
    assert_message_types(&responses, &["ReadyForQuery", "NoData"]);

    let (responses, _) = collect(&ops, vec![Received::Failed("eof".into())]);
    assert_message_types(&responses, &["Disconnected"]);

    let (responses, _) = collect(&ops, vec![ready(), Received::TimedOut]);
    assert_message_types(&responses, &["ReadyForQuery"]);

    let (responses, _) = collect(
        &[FrontendOp::Sync],
        vec![other(), Received::Failed("eof".into())],
    );
    assert_message_types(&responses, &["NoData", "Disconnected"]);
}

#[test]
fn failed_flush_is_a_disconnect() {
    let events = flush_failure("broken pipe".into());
    assert_eq!(events.len(), 1);
    assert!(matches!(&events[0], ResponseEvent::Disconnected(e) if e == "broken pipe"));
}

#[test]
fn setup_waits_for_the_first_ready() {
    assert!(matches!(setup_step(&other(), "A"), SetupStep::Wait));
    assert!(matches!(setup_step(&ready(), "A"), SetupStep::Next));
    assert!(matches!(
        setup_step(&Received::Failed("eof".into()), "A"),
        SetupStep::Fail
    ));
    match setup_step(&Received::TimedOut, "CREATE TABLE t (id int)") {
        SetupStep::TimedOut(text) => {
            assert_eq!(text, "timeout during setup: CREATE TABLE t (id int)")
        }
        step => panic!("unexpected {step:?}"),
    }
}

// ---------------------------------------------------------------------------
// Minimizing under a judge
// ---------------------------------------------------------------------------

fn shrink_by(ops: &[FrontendOp], judge: impl Fn(&[FrontendOp]) -> bool) -> Vec<FrontendOp> {
    let mut shrinker = Shrinker::new(ops);
    while let Some(candidate) = shrinker.candidate() {
        assert!(!candidate.is_empty());
        assert!(candidate.len() <= ops.len());
        let same = judge(&candidate);
        shrinker.judge(same);
    }
    assert!(shrinker.is_done());
    shrinker.into_ops()
}

fn query(sql: &str) -> FrontendOp {
    FrontendOp::Query { sql: sql.into() }
}

#[test]
fn nothing_is_taken_away_that_matters() {
    let ops = vec![
        query("a"),
        FrontendOp::Parse {
            name: StmtName::S1,
            sql: "b".into(),
            param_oids: vec![23],
        },
        FrontendOp::Flush,
        FrontendOp::Execute {
            portal: PortalName::P1,
            max_rows: 7,
        },
        FrontendOp::Sync,
        query("c"),
    ];
    let has_both = |candidate: &[FrontendOp]| {
        candidate
            .iter()
            .any(|op| matches!(op, FrontendOp::Parse { .. }))
            && candidate
                .iter()
                .any(|op| matches!(op, FrontendOp::Execute { .. }))
    };
    let least = shrink_by(&ops, has_both);
    assert_eq!(
        least,
        vec![
            FrontendOp::Parse {
                name: StmtName::Unnamed,
                sql: "SELECT 1".into(),
                param_oids: vec![],
            },
            FrontendOp::Execute {
                portal: PortalName::Unnamed,
                max_rows: 7,
            },
        ]
    );
    assert_eq!(shrink_by(&least, has_both), least);
}

#[test]
fn names_and_sql_stay_where_they_matter() {
    let ops = vec![
        FrontendOp::Bind {
            portal: PortalName::P2,
            stmt: StmtName::S2,
            params: vec![Param::Null],
        },
        query("SLECT 1"),
    ];
    let judge = |candidate: &[FrontendOp]| {
        candidate.len() == 2
            && matches!(&candidate[0], FrontendOp::Bind { portal, .. } if *portal == PortalName::P2)
            && candidate[1] == query("SLECT 1")
    };
    assert_eq!(shrink_by(&ops, judge), ops);
}

#[test]
fn a_window_is_found_by_its_length() {
    // Accepts only the two operations in the middle, and the whole.
    let ops: Vec<FrontendOp> = ["a", "b", "c", "d", "e", "f"].iter().map(|s| query(s)).collect();
    let middle = ops[2..4].to_vec();
    let whole = ops.clone();
    let least = shrink_by(&ops, |candidate| candidate == middle || candidate == whole);
    assert_eq!(least, middle);
}

#[test]
fn the_shortest_window_is_found() {
    // Longer windows are accepted too, and some in between are not.
    let ops: Vec<FrontendOp> = ["a", "b", "c", "d", "e", "f"].iter().map(|s| query(s)).collect();
    let (short, long) = (ops[1..3].to_vec(), ops[1..5].to_vec());
    let mut shrinker = Shrinker::new(&ops);
    let mut adopted = Vec::new();
    while let Some(candidate) = shrinker.candidate() {
        let same = candidate == short || candidate == long;
        if same {
            adopted.push(candidate);
        }
        shrinker.judge(same);
    }
    assert_eq!(adopted, vec![short.clone()]);
    assert_eq!(shrinker.into_ops(), short);
}

#[test]
fn a_window_of_one_is_tried_among_two() {
    let ops = vec![FrontendOp::Flush, FrontendOp::Sync];
    let mut shrinker = Shrinker::new(&ops);
    let mut tried = Vec::new();
    while let Some(candidate) = shrinker.candidate() {
        tried.push(candidate);
        // Only the very last verdict is in favour.
        let last = tried.len() == 6;
        shrinker.judge(last);
    }
    assert_eq!(tried[4], vec![FrontendOp::Flush]);
    assert_eq!(tried[5], vec![FrontendOp::Sync]);
    assert_eq!(tried.len(), 6);
    assert_eq!(shrinker.into_ops(), vec![FrontendOp::Sync]);
}

#[test]
fn a_judge_that_never_agrees_changes_nothing() {
    let ops = sample_ops();
    assert_eq!(shrink_by(&ops, |_| false), ops);
    assert!(shrink_by(&[], |_| true).is_empty());
}

#[test]
fn a_judge_that_always_agrees_leaves_one_plain_operation() {
    let ops = vec![
        query("a"),
        FrontendOp::CloseStatement {
            name: StmtName::S2,
        },
        FrontendOp::Sync,
    ];
    assert_eq!(shrink_by(&ops, |_| true), vec![query("SELECT 1")]);
}

#[test]
fn candidates_come_in_order() {
    let ops = vec![query("a"), query("SELECT 1"), FrontendOp::Sync];
    let mut shrinker = Shrinker::new(&ops);
    let mut tried = Vec::new();
    while let Some(candidate) = shrinker.candidate() {
        tried.push(candidate);
        shrinker.judge(false);
    }
    let plain = vec![query("SELECT 1"), query("SELECT 1"), FrontendOp::Sync];
    assert_eq!(
        tried,
        vec![
            // Prefixes, the shortest first
            ops[..1].to_vec(),
            ops[..2].to_vec(),
            // Suffixes, the shortest first
            ops[2..].to_vec(),
            ops[1..].to_vec(),
            // Single deletions
            vec![ops[1].clone(), ops[2].clone()],
            vec![ops[0].clone(), ops[2].clone()],
            vec![ops[0].clone(), ops[1].clone()],
            // Windows of one operation, then of two
            vec![ops[0].clone()],
            vec![ops[1].clone()],
            vec![ops[2].clone()],
            vec![ops[0].clone(), ops[1].clone()],
            vec![ops[1].clone(), ops[2].clone()],
            // SQL
            plain,
        ]
    );
}

#[test]
fn failed_runs_and_equal_streams_do_not_reproduce() {
    let class = classify(&sample_divergence());
    let ops = sample_ops();
    assert!(!reproduces(&ops, &class, None));
    let same = vec![ResponseEvent::Timeout];
    assert!(!reproduces(&ops, &class, Some((&same, &same))));
    let parsed = vec![ResponseEvent::Message(Box::new(
        BackendMessage::ParseComplete,
    ))];
    let failed = vec![ResponseEvent::Message(Box::new(
        BackendMessage::ErrorResponse {
            code: "42P05".into(),
            message: "other".into(),
        },
    ))];
    assert!(reproduces(&ops, &class, Some((&parsed, &failed))));
    assert!(!reproduces(&ops, &class, Some((&failed, &parsed))));
    assert!(!reproduces(&[], &class, Some((&parsed, &failed))));
}

#[test]
fn every_named_operation_can_lose_its_name() {
    let named = vec![
        FrontendOp::DescribeStatement {
            name: StmtName::S1,
        },
        FrontendOp::DescribePortal {
            name: PortalName::P1,
        },
        FrontendOp::CloseStatement {
            name: StmtName::S2,
        },
        FrontendOp::ClosePortal {
            name: PortalName::P2,
        },
    ];
    for op in &named {
        let simpler = simplify_names(op).unwrap();
        assert_ne!(&simpler, op);
        assert!(simplify_names(&simpler).is_none());
        assert!(simplify_sql(op).is_none());
    }
    let half_named = FrontendOp::Bind {
        portal: PortalName::Unnamed,
        stmt: StmtName::S1,
        params: vec![],
    };
    assert!(simplify_names(&half_named).is_some());
}
