//! Comparing the response streams of two servers.

use pg_proto_fuzz::comparator::{
    compare, mismatch_op, normalize, normalize_stream, ColumnDesc, Divergence, NormalizedMsg,
};
use pg_proto_fuzz::message::{BackendMessage, TransactionStatus};
use pg_proto_fuzz::op::{FrontendOp, PortalName, StmtName};
use pg_proto_fuzz::report::{divergence_report, report_text};
use pg_proto_fuzz::runner::ResponseEvent;
use pg_stream::connection::PgConnection;
use std::io;
use std::pin::Pin;
use std::task::{Context, Poll};
use tokio::io::{AsyncRead, AsyncWrite, ReadBuf};

// ---------------------------------------------------------------------------
// Scripted servers
// ---------------------------------------------------------------------------

/// Answers reads from a script, and ends when the script does.
struct MockStream {
    read_data: Vec<u8>,
    read_pos: usize,
    write_buf: Vec<u8>,
}

impl AsyncRead for MockStream {
    fn poll_read(
        mut self: Pin<&mut Self>,
        _cx: &mut Context<'_>,
        buf: &mut ReadBuf<'_>,
    ) -> Poll<io::Result<()>> {
        let start = self.read_pos;
        let n = std::cmp::min(self.read_data.len() - start, buf.remaining());
        buf.put_slice(&self.read_data[start..start + n]);
        self.read_pos += n;
        Poll::Ready(Ok(()))
    }
}

impl AsyncWrite for MockStream {
    fn poll_write(
        mut self: Pin<&mut Self>,
        _cx: &mut Context<'_>,
        buf: &[u8],
    ) -> Poll<io::Result<usize>> {
        self.write_buf.extend_from_slice(buf);
        Poll::Ready(Ok(buf.len()))
    }

    fn poll_flush(self: Pin<&mut Self>, _cx: &mut Context<'_>) -> Poll<io::Result<()>> {
        Poll::Ready(Ok(()))
    }

    fn poll_shutdown(self: Pin<&mut Self>, _cx: &mut Context<'_>) -> Poll<io::Result<()>> {
        Poll::Ready(Ok(()))
    }
}

impl Unpin for MockStream {}

fn mock_conn(response_bytes: Vec<u8>) -> PgConnection<MockStream> {
    PgConnection::new(MockStream {
        read_data: response_bytes,
        read_pos: 0,
        write_buf: Vec::new(),
    })
}

fn block_on<T>(work: impl std::future::Future<Output = T>) -> T {
    tokio::runtime::Runtime::new().unwrap().block_on(work)
}

// ---------------------------------------------------------------------------
// Wire-format backend messages
// ---------------------------------------------------------------------------

fn message(code: u8, payload: &[u8]) -> Vec<u8> {
    let mut buf = vec![code];
    buf.extend_from_slice(&((4 + payload.len()) as u32).to_be_bytes());
    buf.extend_from_slice(payload);
    buf
}

fn ready_for_query(status: u8) -> Vec<u8> {
    message(b'Z', &[status])
}

fn parse_complete() -> Vec<u8> {
    message(b'1', &[])
}

fn bind_complete() -> Vec<u8> {
    message(b'2', &[])
}

fn command_complete(tag: &str) -> Vec<u8> {
    let mut payload = tag.as_bytes().to_vec();
    payload.push(0);
    message(b'C', &payload)
}

fn response_fields(severity: &str, code: &str, text: &str) -> Vec<u8> {
    let mut payload = Vec::new();
    for (field, value) in [(b'S', severity), (b'V', severity), (b'C', code), (b'M', text)] {
        payload.push(field);
        payload.extend_from_slice(value.as_bytes());
        payload.push(0);
    }
    payload.push(0);
    payload
}

fn error_response(severity: &str, code: &str, text: &str) -> Vec<u8> {
    message(b'E', &response_fields(severity, code, text))
}

fn data_row(columns: &[Option<&[u8]>]) -> Vec<u8> {
    let mut payload = (columns.len() as u16).to_be_bytes().to_vec();
    for column in columns {
        match column {
            Some(data) => {
                payload.extend_from_slice(&(data.len() as u32).to_be_bytes());
                payload.extend_from_slice(data);
            }
            None => payload.extend_from_slice(&(-1i32).to_be_bytes()),
        }
    }
    message(b'D', &payload)
}

fn row_description(columns: &[(&str, u32)]) -> Vec<u8> {
    let mut payload = (columns.len() as u16).to_be_bytes().to_vec();
    for (name, type_oid) in columns {
        payload.extend_from_slice(name.as_bytes());
        payload.push(0);
        payload.extend_from_slice(&0u32.to_be_bytes());
        payload.extend_from_slice(&0u16.to_be_bytes());
        payload.extend_from_slice(&type_oid.to_be_bytes());
        payload.extend_from_slice(&(-1i16).to_be_bytes());
        payload.extend_from_slice(&(-1i32).to_be_bytes());
        payload.extend_from_slice(&0u16.to_be_bytes());
    }
    message(b'T', &payload)
}

fn close_complete() -> Vec<u8> {
    message(b'3', &[])
}

fn no_data() -> Vec<u8> {
    message(b'n', &[])
}

fn empty_query_response() -> Vec<u8> {
    message(b'I', &[])
}

fn portal_suspended() -> Vec<u8> {
    message(b's', &[])
}

fn copy_done() -> Vec<u8> {
    message(b'c', &[])
}

fn notice_response(severity: &str, code: &str, text: &str) -> Vec<u8> {
    message(b'N', &response_fields(severity, code, text))
}

fn parameter_description(oids: &[u32]) -> Vec<u8> {
    let mut payload = (oids.len() as u16).to_be_bytes().to_vec();
    for oid in oids {
        payload.extend_from_slice(&oid.to_be_bytes());
    }
    message(b't', &payload)
}

fn copy_response(code: u8, format: u8, column_formats: &[u16]) -> Vec<u8> {
    let mut payload = vec![format];
    payload.extend_from_slice(&(column_formats.len() as u16).to_be_bytes());
    for column_format in column_formats {
        payload.extend_from_slice(&column_format.to_be_bytes());
    }
    message(code, &payload)
}

fn copy_in_response(format: u8, column_formats: &[u16]) -> Vec<u8> {
    copy_response(b'G', format, column_formats)
}

fn copy_out_response(format: u8, column_formats: &[u16]) -> Vec<u8> {
    copy_response(b'H', format, column_formats)
}

fn copy_data(data: &[u8]) -> Vec<u8> {
    message(b'd', data)
}

fn notification_response(process: u32, channel: &str, payload: &str) -> Vec<u8> {
    let mut body = process.to_be_bytes().to_vec();
    for text in [channel, payload] {
        body.extend_from_slice(text.as_bytes());
        body.push(0);
    }
    message(b'A', &body)
}

fn parameter_status(name: &str, value: &str) -> Vec<u8> {
    let mut payload = name.as_bytes().to_vec();
    payload.push(0);
    payload.extend_from_slice(value.as_bytes());
    payload.push(0);
    message(b'S', &payload)
}

fn backend_key_data() -> Vec<u8> {
    message(b'K', &[0, 0, 0, 1, 0, 0, 0, 2])
}

/// Reads scripted bytes through a connection.
fn make_events(messages: Vec<Vec<u8>>) -> Vec<ResponseEvent> {
    let mut conn = mock_conn(messages.concat());
    let mut events = Vec::new();
    block_on(async {
        while let Ok(msg) = conn.recv().await {
            events.push(ResponseEvent::Message(Box::new(BackendMessage::from_pg(&msg))));
        }
    });
    events
}

fn sample_ops() -> Vec<FrontendOp> {
    vec![
        FrontendOp::Parse {
            name: StmtName::Unnamed,
            sql: "SELECT 1".into(),
            param_oids: vec![],
        },
        FrontendOp::Bind {
            portal: PortalName::Unnamed,
            stmt: StmtName::Unnamed,
            params: vec![],
        },
        FrontendOp::Execute {
            portal: PortalName::Unnamed,
            max_rows: 0,
        },
        FrontendOp::Sync,
    ]
}

#[test]
fn test_identical_streams_no_divergence() {
    let messages = vec![
        parse_complete(),
        bind_complete(),
        data_row(&[Some(b"1")]),
        command_complete("SELECT 1"),
        ready_for_query(b'I'),
    ];

    let pg = make_events(messages.clone());
    let target = make_events(messages);
    let ops = sample_ops();

    assert!(compare(&pg, &target, &ops).is_none());
}

#[test]
fn test_different_data_row_values() {
    let pg = make_events(vec![
        parse_complete(),
        bind_complete(),
        data_row(&[Some(b"1")]),
        command_complete("SELECT 1"),
        ready_for_query(b'I'),
    ]);
    let target = make_events(vec![
        parse_complete(),
        bind_complete(),
        data_row(&[Some(b"2")]), // different value
        command_complete("SELECT 1"),
        ready_for_query(b'I'),
    ]);

    let div = compare(&pg, &target, &sample_ops()).unwrap();
    assert_eq!(div.index, 2); // DataRow is at index 2
    assert!(matches!(&div.expected, Some(NormalizedMsg::DataRow { .. })));
    assert!(matches!(&div.actual, Some(NormalizedMsg::DataRow { .. })));
}

#[test]
fn test_error_vs_success() {
    let pg = make_events(vec![
        parse_complete(),
        bind_complete(),
        data_row(&[Some(b"1")]),
        command_complete("SELECT 1"),
        ready_for_query(b'I'),
    ]);
    let target = make_events(vec![
        error_response("ERROR", "42601", "syntax error"),
        ready_for_query(b'I'),
    ]);

    let div = compare(&pg, &target, &sample_ops()).unwrap();
    assert_eq!(div.index, 0); // First message differs
    assert!(matches!(
        &div.expected,
        Some(NormalizedMsg::ParseComplete)
    ));
    assert!(matches!(
        &div.actual,
        Some(NormalizedMsg::ErrorResponse { .. })
    ));
}

#[test]
fn test_different_error_codes() {
    let pg = make_events(vec![
        error_response("ERROR", "42601", "syntax error"),
        ready_for_query(b'I'),
    ]);
    let target = make_events(vec![
        error_response("ERROR", "42000", "syntax error"),
        ready_for_query(b'I'),
    ]);

    let div = compare(&pg, &target, &sample_ops()).unwrap();
    assert_eq!(div.index, 0);
}

#[test]
fn test_different_transaction_status() {
    let pg = make_events(vec![
        parse_complete(),
        ready_for_query(b'I'), // Idle
    ]);
    let target = make_events(vec![
        parse_complete(),
        ready_for_query(b'E'), // Failed
    ]);

    let div = compare(&pg, &target, &sample_ops()).unwrap();
    assert_eq!(div.index, 1); // ReadyForQuery differs
}

#[test]
fn test_target_stream_shorter() {
    let pg = make_events(vec![
        parse_complete(),
        bind_complete(),
        ready_for_query(b'I'),
    ]);
    let target = make_events(vec![parse_complete(), ready_for_query(b'I')]);

    let div = compare(&pg, &target, &sample_ops()).unwrap();
    assert_eq!(div.index, 1); // pg has BindComplete, target has ReadyForQuery
}

#[test]
fn test_skipped_messages_ignored() {
    // ParameterStatus is skipped — shouldn't cause divergence
    // We can't easily inject ParameterStatus into the middle of a mock stream
    // because make_events reads sequentially. But we can test normalization directly.
    let pg = vec![ResponseEvent::Timeout];
    let target = vec![ResponseEvent::Timeout];

    assert!(compare(&pg, &target, &sample_ops()).is_none());
}

#[test]
fn test_timeout_vs_message() {
    let pg = make_events(vec![ready_for_query(b'I')]);
    let target = vec![ResponseEvent::Timeout];

    let div = compare(&pg, &target, &sample_ops()).unwrap();
    assert_eq!(div.index, 0);
    assert!(matches!(&div.actual, Some(NormalizedMsg::Timeout)));
}

#[test]
fn test_close_complete_and_no_data() {
    let messages = vec![
        close_complete(),
        no_data(),
        ready_for_query(b'I'),
    ];
    let pg = make_events(messages.clone());
    let target = make_events(messages);
    assert!(compare(&pg, &target, &sample_ops()).is_none());
}

#[test]
fn test_empty_query_and_portal_suspended() {
    let pg = make_events(vec![
        empty_query_response(),
        ready_for_query(b'I'),
    ]);
    let target = make_events(vec![
        portal_suspended(),
        ready_for_query(b'I'),
    ]);
    let div = compare(&pg, &target, &sample_ops()).unwrap();
    assert_eq!(div.index, 0);
}

#[test]
fn test_notice_response_compared() {
    let pg = make_events(vec![
        notice_response("WARNING", "01000", "test warning"),
        ready_for_query(b'I'),
    ]);
    let target = make_events(vec![
        notice_response("WARNING", "01000", "different warning"),
        ready_for_query(b'I'),
    ]);
    let div = compare(&pg, &target, &sample_ops()).unwrap();
    assert_eq!(div.index, 0);
}

#[test]
fn test_parameter_description_compared() {
    let pg = make_events(vec![
        parameter_description(&[23, 25]),
        ready_for_query(b'I'),
    ]);
    let target = make_events(vec![
        parameter_description(&[23, 20]), // different OID
        ready_for_query(b'I'),
    ]);
    let div = compare(&pg, &target, &sample_ops()).unwrap();
    assert_eq!(div.index, 0);
}

#[test]
fn test_copy_in_response_compared() {
    let pg = make_events(vec![
        copy_in_response(0, &[0]),
        copy_done(),
        command_complete("COPY 0"),
        ready_for_query(b'I'),
    ]);
    let target = make_events(vec![
        copy_in_response(1, &[1]), // different format
        copy_done(),
        command_complete("COPY 0"),
        ready_for_query(b'I'),
    ]);
    let div = compare(&pg, &target, &sample_ops()).unwrap();
    assert_eq!(div.index, 0);
}

#[test]
fn test_copy_out_response_compared() {
    let messages = vec![
        copy_out_response(0, &[0]),
        copy_data(b"1\n"),
        copy_done(),
        command_complete("COPY 1"),
        ready_for_query(b'I'),
    ];
    let pg = make_events(messages.clone());
    let target = make_events(messages);
    assert!(compare(&pg, &target, &sample_ops()).is_none());
}

#[test]
fn test_divergence_display() {
    let div = Divergence {
        index: 0,
        expected: Some(NormalizedMsg::ParseComplete),
        actual: Some(NormalizedMsg::ErrorResponse {
            code: "42601".into(),
            message: "syntax error".into(),
        }),
        ops: sample_ops(),
    };
    let s = div.to_text();
    assert!(s.contains("Parse"));
    assert!(s.contains("Postgres:"));
    assert!(s.contains("Target:"));
}

#[test]
fn every_kind_of_message_is_read_off_the_wire() {
    let events = make_events(vec![
        parse_complete(),
        bind_complete(),
        close_complete(),
        no_data(),
        empty_query_response(),
        portal_suspended(),
        copy_done(),
        row_description(&[("id", 23), ("name", 25)]),
        data_row(&[Some(b"1"), None]),
        command_complete("SELECT 1"),
        error_response("ERROR", "42601", "syntax error"),
        notice_response("NOTICE", "00000", "hi"),
        parameter_description(&[23, 25]),
        copy_in_response(0, &[0, 1]),
        copy_out_response(1, &[1]),
        copy_data(b"1\n"),
        ready_for_query(b'I'),
        ready_for_query(b'T'),
        ready_for_query(b'E'),
    ]);
    let expected = vec![
        NormalizedMsg::ParseComplete,
        NormalizedMsg::BindComplete,
        NormalizedMsg::CloseComplete,
        NormalizedMsg::NoData,
        NormalizedMsg::EmptyQueryResponse,
        NormalizedMsg::PortalSuspended,
        NormalizedMsg::CopyDone,
        NormalizedMsg::RowDescription {
            columns: vec![
                ColumnDesc {
                    name: "id".into(),
                    type_oid: 23,
                    format: 0,
                },
                ColumnDesc {
                    name: "name".into(),
                    type_oid: 25,
                    format: 0,
                },
            ],
        },
        NormalizedMsg::DataRow {
            columns: vec![Some(b"1".to_vec()), None],
        },
        NormalizedMsg::CommandComplete {
            tag: "SELECT 1".into(),
        },
        NormalizedMsg::ErrorResponse {
            code: "42601".into(),
            message: "syntax error".into(),
        },
        NormalizedMsg::NoticeResponse {
            code: "00000".into(),
            message: "hi".into(),
        },
        NormalizedMsg::ParameterDescription { oids: vec![23, 25] },
        NormalizedMsg::CopyInResponse {
            format: 0,
            column_formats: vec![0, 1],
        },
        NormalizedMsg::CopyOutResponse {
            format: 1,
            column_formats: vec![1],
        },
        NormalizedMsg::CopyData {
            data: b"1\n".to_vec(),
        },
        NormalizedMsg::ReadyForQuery {
            status: "Idle".into(),
        },
        NormalizedMsg::ReadyForQuery {
            status: "InTransaction".into(),
        },
        NormalizedMsg::ReadyForQuery {
            status: "Failed".into(),
        },
    ];
    assert_eq!(normalize_stream(&events), expected);
}

#[test]
fn server_settings_and_keys_are_skipped() {
    let noisy = make_events(vec![
        parameter_status("TimeZone", "UTC"),
        parse_complete(),
        backend_key_data(),
        ready_for_query(b'I'),
    ]);
    let plain = make_events(vec![parse_complete(), ready_for_query(b'I')]);
    assert_eq!(noisy.len(), 4);
    assert!(compare(&noisy, &plain, &sample_ops()).is_none());
    assert!(normalize(&BackendMessage::ParameterStatus).is_none());
    assert!(normalize(&BackendMessage::BackendKeyData).is_none());
    assert!(normalize(&BackendMessage::Other).is_none());
}

#[test]
fn comparison_is_symmetric_and_reports_the_first_mismatch() {
    let a = make_events(vec![
        parse_complete(),
        data_row(&[Some(b"1")]),
        ready_for_query(b'I'),
    ]);
    let b = make_events(vec![
        parse_complete(),
        data_row(&[None]),
        ready_for_query(b'T'),
    ]);
    let there = compare(&a, &b, &sample_ops()).unwrap();
    let back = compare(&b, &a, &sample_ops()).unwrap();
    assert_eq!(there.index, 1);
    assert_eq!(back.index, 1);
    assert_eq!(there.expected, back.actual);
    assert_eq!(there.actual, back.expected);
    assert_eq!(there.ops, sample_ops());
}

#[test]
fn shorter_streams_end_the_comparison() {
    let long = make_events(vec![parse_complete(), ready_for_query(b'I')]);
    let short = make_events(vec![parse_complete()]);
    let target_short = compare(&long, &short, &[]).unwrap();
    assert_eq!(target_short.index, 1);
    assert!(target_short.expected.is_some());
    assert!(target_short.actual.is_none());
    let oracle_short = compare(&short, &long, &[]).unwrap();
    assert!(oracle_short.expected.is_none());
    assert!(oracle_short.actual.is_some());
}

#[test]
fn disconnects_are_compared_with_their_reason() {
    let a = vec![ResponseEvent::Disconnected("eof".into())];
    let b = vec![ResponseEvent::Disconnected("reset".into())];
    assert!(compare(&a, &a, &[]).is_none());
    assert!(compare(&a, &b, &[]).is_some());
}

#[test]
fn report_shows_the_whole_divergence() {
    let div = Divergence {
        index: 4,
        expected: Some(NormalizedMsg::ReadyForQuery {
            status: "Idle".into(),
        }),
        actual: None,
        ops: vec![
            FrontendOp::Parse {
                name: StmtName::Unnamed,
                sql: "SELECT 1".into(),
                param_oids: vec![],
            },
            FrontendOp::Sync,
        ],
    };
    let text = concat_lines(&[
        "  Sequence (2 ops):",
        "    [0] Parse { name: \"\", sql: \"SELECT 1\", param_oids: [] }",
        "    [1] Sync",
        "  First mismatch at response #4:",
        "    Postgres:  ReadyForQuery { status: Idle }",
        "    Target:    <end of stream>",
    ]);
    assert_eq!(div.to_text(), text);
    assert_eq!(
        report_text(12, &div, &None, None),
        format!("DIVERGENCE #12\n{text}")
    );

    let least = Divergence {
        index: 0,
        expected: None,
        actual: Some(NormalizedMsg::Timeout),
        ops: vec![FrontendOp::Sync],
    };
    let least_text = concat_lines(&[
        "  Sequence (1 ops):",
        "    [0] Sync",
        "  First mismatch at response #0 (after op #0):",
        "    Postgres:  <end of stream>",
        "    Target:    Timeout",
    ]);
    assert_eq!(
        report_text(2, &div, &Some(least), Some(0)),
        format!("DIVERGENCE #2 (shrunk 2 -> 1 ops)\n{least_text}")
    );
}

fn concat_lines(lines: &[&str]) -> String {
    let mut text = String::new();
    for line in lines {
        text.push_str(line);
        text.push('\n');
    }
    text
}

#[test]
fn a_report_names_the_operation() {
    let ops = vec![
        FrontendOp::Parse {
            name: StmtName::Unnamed,
            sql: "SELECT 1".into(),
            param_oids: vec![],
        },
        FrontendOp::Query {
            sql: "SELECT 2".into(),
        },
        FrontendOp::Sync,
    ];
    let pg = make_events(vec![
        parse_complete(),
        row_description(&[("?column?", 23)]),
        data_row(&[Some(b"2")]),
        command_complete("SELECT 1"),
        ready_for_query(b'I'),
        ready_for_query(b'I'),
    ]);
    let target = make_events(vec![
        parse_complete(),
        row_description(&[("?column?", 23)]),
        data_row(&[Some(b"2")]),
        command_complete("SELECT 1"),
        data_row(&[Some(b"1")]),
        ready_for_query(b'I'),
    ]);
    let div = compare(&pg, &target, &ops).unwrap();
    let op = mismatch_op(&pg, &div);
    assert_eq!(op, Some(1));
    assert_eq!(mismatch_op(&target, &div), op);
    assert_eq!(
        report_text(1, &div, &None, op),
        concat_lines(&[
            "DIVERGENCE #1",
            "  Sequence (3 ops):",
            "    [0] Parse { name: \"\", sql: \"SELECT 1\", param_oids: [] }",
            "    [1] Query { sql: \"SELECT 2\" }",
            "    [2] Sync",
            "  First mismatch at response #4 (after op #1):",
            "    Postgres:  ReadyForQuery { status: Idle }",
            "    Target:    DataRow { columns: [\"1\"] }",
        ])
    );
    assert_eq!(
        divergence_report(1, &pg, &div, &[], &None),
        report_text(1, &div, &None, Some(1))
    );
}

#[test]
fn a_report_places_the_divergence_it_shows() {
    let found_ops = vec![
        FrontendOp::Flush,
        FrontendOp::Flush,
        FrontendOp::Sync,
        FrontendOp::Sync,
    ];
    let pg = make_events(vec![ready_for_query(b'I'), ready_for_query(b'I')]);
    let target = make_events(vec![ready_for_query(b'I'), ready_for_query(b'E')]);
    let found = compare(&pg, &target, &found_ops).unwrap();
    assert_eq!(mismatch_op(&pg, &found), Some(3));

    let least_ops = vec![FrontendOp::Sync];
    let pg_again = make_events(vec![ready_for_query(b'I')]);
    let target_again = make_events(vec![ready_for_query(b'E')]);
    let least = compare(&pg_again, &target_again, &least_ops);

    let as_found = divergence_report(3, &pg, &found, &pg_again, &None);
    assert_eq!(as_found, report_text(3, &found, &None, Some(3)));
    assert!(as_found.contains("First mismatch at response #1 (after op #3):"));
    let minimized = divergence_report(3, &pg, &found, &pg_again, &least);
    assert_eq!(minimized, report_text(3, &found, &least, Some(0)));
    assert!(minimized.starts_with("DIVERGENCE #3 (shrunk 4 -> 1 ops)\n"));
    assert!(minimized.contains("First mismatch at response #0 (after op #0):"));
}

#[test]
fn the_operation_is_counted_by_ready_messages() {
    let ops = vec![
        FrontendOp::Sync,
        FrontendOp::Flush,
        FrontendOp::Query { sql: "A".into() },
        FrontendOp::Terminate,
    ];
    let pg = make_events(vec![
        ready_for_query(b'I'),
        no_data(),
        ready_for_query(b'I'),
        no_data(),
    ]);
    let at = |index: usize| Divergence {
        index,
        expected: Some(NormalizedMsg::NoData),
        actual: None,
        ops: ops.clone(),
    };
    assert_eq!(mismatch_op(&pg, &at(0)), Some(0));
    assert_eq!(mismatch_op(&pg, &at(1)), Some(2));
    assert_eq!(mismatch_op(&pg, &at(2)), Some(2));
    assert_eq!(mismatch_op(&pg, &at(3)), None);
    assert_eq!(mismatch_op(&pg, &at(9)), None);
    assert_eq!(mismatch_op(&[], &at(0)), Some(0));
}

#[test]
fn notifications_are_compared_by_channel_and_payload() {
    let notify = |channel: &str, payload: &str| {
        make_events(vec![
            notification_response(7, channel, payload),
            ready_for_query(b'I'),
        ])
    };
    let a = notify("jobs", "1");
    assert_eq!(
        normalize_stream(&a)[0],
        NormalizedMsg::NotificationResponse {
            channel: "jobs".into(),
            payload: "1".into(),
        }
    );
    assert!(compare(&a, &notify("jobs", "1"), &[]).is_none());
    assert_eq!(compare(&a, &notify("jobs", "2"), &[]).unwrap().index, 0);
    assert_eq!(compare(&a, &notify("work", "1"), &[]).unwrap().index, 0);
    // The process that notified may differ.
    let other_process = make_events(vec![
        notification_response(8, "jobs", "1"),
        ready_for_query(b'I'),
    ]);
    assert!(compare(&a, &other_process, &[]).is_none());
    let silent = make_events(vec![ready_for_query(b'I')]);
    assert!(compare(&a, &silent, &[]).is_some());
}

#[test]
fn states_and_rows_are_shown_plainly() {
    let cases: Vec<(NormalizedMsg, &str)> = vec![
        (
            NormalizedMsg::ReadyForQuery {
                status: "Idle".into(),
            },
            "ReadyForQuery { status: Idle }",
        ),
        (
            NormalizedMsg::DataRow { columns: vec![] },
            "DataRow { columns: [] }",
        ),
        (
            NormalizedMsg::DataRow {
                columns: vec![
                    Some(b"1".to_vec()),
                    None,
                    Some("\"é\"".as_bytes().to_vec()),
                    Some(vec![]),
                    Some(vec![0xff, 0x0a]),
                ],
            },
            "DataRow { columns: [\"1\", None, \"\\\"é\\\"\", \"\", Some([255, 10])] }",
        ),
    ];
    for (message, text) in cases {
        assert_eq!(message.to_text(), text);
        assert_eq!(message, message.clone());
    }
}

#[test]
fn other_messages_are_shown_as_debug_shows_them() {
    let shown = vec![
        NormalizedMsg::NotificationResponse {
            channel: "jobs".into(),
            payload: "a \"b\"".into(),
        },
        NormalizedMsg::ErrorResponse {
            code: "42601".into(),
            message: "near \"SLECT\"\n\u{7f}\u{e9}".into(),
        },
        NormalizedMsg::NoticeResponse {
            code: "01000".into(),
            message: String::new(),
        },
        NormalizedMsg::RowDescription { columns: vec![] },
        NormalizedMsg::RowDescription {
            columns: vec![
                ColumnDesc {
                    name: "?column?".into(),
                    type_oid: 23,
                    format: 1,
                },
                ColumnDesc {
                    name: "b".into(),
                    type_oid: 25,
                    format: 0,
                },
            ],
        },
        NormalizedMsg::CommandComplete {
            tag: "INSERT 0 1".into(),
        },
        NormalizedMsg::ParameterDescription {
            oids: vec![0, 4294967295],
        },
        NormalizedMsg::CopyInResponse {
            format: 0,
            column_formats: vec![],
        },
        NormalizedMsg::CopyOutResponse {
            format: 1,
            column_formats: vec![1, 0],
        },
        NormalizedMsg::CopyData { data: vec![49, 10] },
        NormalizedMsg::ParseComplete,
        NormalizedMsg::BindComplete,
        NormalizedMsg::CloseComplete,
        NormalizedMsg::NoData,
        NormalizedMsg::EmptyQueryResponse,
        NormalizedMsg::PortalSuspended,
        NormalizedMsg::CopyDone,
        NormalizedMsg::Timeout,
        NormalizedMsg::Disconnected("eof".into()),
    ];
    for message in &shown {
        assert_eq!(message.to_text(), format!("{message:?}"));
        assert_eq!(message, &message.clone());
    }
}

#[test]
fn transaction_status_is_told_apart() {
    let idle = BackendMessage::ReadyForQuery {
        status: TransactionStatus::Idle,
    };
    let failed = BackendMessage::ReadyForQuery {
        status: TransactionStatus::Failed,
    };
    assert_ne!(normalize(&idle), normalize(&failed));
}
