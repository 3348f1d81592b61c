//! The bytes of operations.

use bytes::BufMut;
use pg_proto_fuzz::op::{FrontendOp, Param, PortalName, StmtName};
use pg_proto_fuzz::wire::{encode_op, fits_frame, FormatCode};
use pg_stream::connection::PgConnection;
use pg_stream::message::{Bindable, PgProtocol};

fn encoded(op: &FrontendOp) -> Vec<u8> {
    assert!(fits_frame(op));
    let mut bytes = Vec::new();
    encode_op(&mut bytes, op);
    bytes
}

fn framed(code: u8, payload: &[u8]) -> Vec<u8> {
    let mut bytes = vec![code];
    bytes.extend_from_slice(&((payload.len() + 4) as u32).to_be_bytes());
    bytes.extend_from_slice(payload);
    bytes
}

#[test]
fn query_and_parse_have_their_bytes() {
    assert_eq!(
        encoded(&FrontendOp::Query {
            sql: "SELECT 1".into()
        }),
        b"Q\x00\x00\x00\x0dSELECT 1\x00"
    );
    assert_eq!(
        encoded(&FrontendOp::Parse {
            name: StmtName::Unnamed,
            sql: "A".into(),
            param_oids: vec![],
        }),
        b"P\x00\x00\x00\x09\x00A\x00\x00\x00"
    );
    assert_eq!(
        encoded(&FrontendOp::Parse {
            name: StmtName::S1,
            sql: "A".into(),
            param_oids: vec![23, 0x01020304],
        }),
        framed(b'P', b"s1\x00A\x00\x00\x02\x00\x00\x00\x17\x01\x02\x03\x04")
    );
}

#[test]
fn bind_announces_its_formats() {
    let bind = |params: Vec<Param>| {
        encoded(&FrontendOp::Bind {
            portal: PortalName::P1,
            stmt: StmtName::S2,
            params,
        })
    };
    assert_eq!(
        bind(vec![]),
        framed(b'B', b"p1\x00s2\x00\x00\x00\x00\x00\x00\x00")
    );
    // All binary: one format for all.
    assert_eq!(
        bind(vec![Param::Int32(-2), Param::Null, Param::Bytes(vec![7])]),
        framed(
            b'B',
            b"p1\x00s2\x00\x00\x01\x00\x01\x00\x03\
              \x00\x00\x00\x04\xff\xff\xff\xfe\xff\xff\xff\xff\x00\x00\x00\x01\x07\x00\x00"
        )
    );
    // All text: no format.
    assert_eq!(
        bind(vec![Param::Text("hi".into())]),
        framed(
            b'B',
            b"p1\x00s2\x00\x00\x00\x00\x01\x00\x00\x00\x02hi\x00\x00"
        )
    );
    // Mixed: one format each.
    assert_eq!(
        bind(vec![Param::Text("".into()), Param::Int32(1)]),
        framed(
            b'B',
            b"p1\x00s2\x00\x00\x02\x00\x00\x00\x01\x00\x02\
              \x00\x00\x00\x00\x00\x00\x00\x04\x00\x00\x00\x01\x00\x00"
        )
    );
}

#[test]
fn the_other_operations_have_their_bytes() {
    let cases: Vec<(FrontendOp, Vec<u8>)> = vec![
        (
            FrontendOp::DescribeStatement {
                name: StmtName::S1,
            },
            framed(b'D', b"Ss1\x00"),
        ),
        (
            FrontendOp::DescribePortal {
                name: PortalName::Unnamed,
            },
            framed(b'D', b"P\x00"),
        ),
        (
            FrontendOp::Execute {
                portal: PortalName::P2,
                max_rows: 258,
            },
            framed(b'E', b"p2\x00\x00\x00\x01\x02"),
        ),
        (
            FrontendOp::CloseStatement {
                name: StmtName::Unnamed,
            },
            framed(b'C', b"S\x00"),
        ),
        (
            FrontendOp::ClosePortal {
                name: PortalName::P1,
            },
            framed(b'C', b"Pp1\x00"),
        ),
        (FrontendOp::Sync, framed(b'S', b"")),
        (FrontendOp::Flush, framed(b'H', b"")),
        (
            FrontendOp::CopyData {
                data: b"1\n".to_vec(),
            },
            framed(b'd', b"1\n"),
        ),
        (FrontendOp::CopyDone, framed(b'c', b"")),
        (
            FrontendOp::CopyFail {
                message: "abort".into(),
            },
            framed(b'f', b"abort\x00"),
        ),
        (FrontendOp::Terminate, framed(b'X', b"")),
    ];
    for (op, bytes) in cases {
        assert_eq!(encoded(&op), bytes, "{op:?}");
    }
}

#[test]
fn encoding_appends() {
    let mut bytes = vec![1, 2];
    encode_op(&mut bytes, &FrontendOp::Sync);
    encode_op(&mut bytes, &FrontendOp::Flush);
    assert_eq!(bytes, b"\x01\x02S\x00\x00\x00\x04H\x00\x00\x00\x04");
}

#[test]
fn params_travel_with_their_length() {
    let cases: Vec<(Param, FormatCode, Vec<u8>)> = vec![
        (Param::Null, FormatCode::Binary, vec![255, 255, 255, 255]),
        (
            Param::Int32(-100),
            FormatCode::Binary,
            vec![0, 0, 0, 4, 255, 255, 255, 156],
        ),
        (
            Param::Int32(i32::MAX),
            FormatCode::Binary,
            vec![0, 0, 0, 4, 127, 255, 255, 255],
        ),
        (
            Param::Text("é".into()),
            FormatCode::Text,
            vec![0, 0, 0, 2, 0xc3, 0xa9],
        ),
        (
            Param::Bytes(vec![9, 8, 7]),
            FormatCode::Binary,
            vec![0, 0, 0, 3, 9, 8, 7],
        ),
    ];
    for (param, format, bytes) in cases {
        assert_eq!(param.format_code(), format);
        let mut buf = vec![5];
        param.encode(&mut buf);
        assert_eq!(buf[0], 5);
        assert_eq!(&buf[1..], &bytes[..], "{param:?}");
    }
}

/// A parameter that encodes itself through the library.
struct Own(Param);

impl Bindable for Own {
    fn format_code(&self) -> pg_stream::message::FormatCode {
        match self.0.format_code() {
            FormatCode::Text => pg_stream::message::FormatCode::Text,
            FormatCode::Binary => pg_stream::message::FormatCode::Binary,
        }
    }

    fn encode(&self, buf: &mut dyn BufMut) {
        let mut bytes = Vec::new();
        self.0.encode(&mut bytes);
        buf.put_slice(&bytes);
    }
}

#[test]
fn a_connection_buffers_the_same_bytes() {
    let params = vec![
        Param::Text("v7".into()),
        Param::Null,
        Param::Int32(42),
        Param::Bytes(vec![0, 1]),
    ];
    let mut conn = PgConnection::new(Vec::<u8>::new());
    conn.query("SELECT 1");
    conn.parse(Some("s1")).query("SELECT $1").param_types(&[23]).finish();
    conn.parse(None).query("SELECT 2").finish();
    let own: Vec<Own> = params.iter().map(|p| Own(p.clone())).collect();
    let refs: Vec<&dyn Bindable> = own.iter().map(|p| p as &dyn Bindable).collect();
    conn.bind(None).statement("s1").finish(&refs);
    conn.execute(Some("p1"), 3);
    conn.sync();

    let mut bytes = Vec::new();
    for op in [
        FrontendOp::Query {
            sql: "SELECT 1".into(),
        },
        FrontendOp::Parse {
            name: StmtName::S1,
            sql: "SELECT $1".into(),
            param_oids: vec![23],
        },
        FrontendOp::Parse {
            name: StmtName::Unnamed,
            sql: "SELECT 2".into(),
            param_oids: vec![],
        },
        FrontendOp::Bind {
            portal: PortalName::Unnamed,
            stmt: StmtName::S1,
            params,
        },
        FrontendOp::Execute {
            portal: PortalName::P1,
            max_rows: 3,
        },
        FrontendOp::Sync,
    ] {
        encode_op(&mut bytes, &op);
    }
    assert_eq!(conn.take_buf().to_vec(), bytes);
}

#[test]
fn a_stream_of_frames_can_be_cut_again() {
    let ops = vec![
        FrontendOp::Query {
            sql: "SELECT 'é'".into(),
        },
        FrontendOp::CopyData {
            data: vec![0; 300],
        },
        FrontendOp::Sync,
        FrontendOp::Bind {
            portal: PortalName::P2,
            stmt: StmtName::S1,
            params: vec![Param::Text("v1".into()), Param::Bytes(vec![1; 7])],
        },
        FrontendOp::Terminate,
    ];
    let frames: Vec<Vec<u8>> = ops.iter().map(encoded).collect();
    let stream = frames.concat();
    let mut at = 0;
    for frame in &frames {
        let len = u32::from_be_bytes([
            stream[at + 1],
            stream[at + 2],
            stream[at + 3],
            stream[at + 4],
        ]) as usize;
        assert_eq!(&stream[at..at + 1 + len], &frame[..]);
        at += 1 + len;
    }
    assert_eq!(at, stream.len());
}
