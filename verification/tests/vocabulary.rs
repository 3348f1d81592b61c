//! Operations, names and parameters as texts.

use pg_proto_fuzz::op::{FrontendOp, Param, PortalName, StmtName};
use pg_proto_fuzz::text::{contains_text, push_decimal, push_hex, push_signed, text_equal};

#[test]
fn names_have_a_text_and_a_pool() {
    assert_eq!(StmtName::Unnamed.as_option(), None);
    assert_eq!(StmtName::S1.as_option(), Some("s1"));
    assert_eq!(StmtName::S2.as_option(), Some("s2"));
    assert_eq!(StmtName::Unnamed.as_str(), "");
    assert_eq!(StmtName::S2.as_str(), "s2");
    assert_eq!(PortalName::Unnamed.as_option(), None);
    assert_eq!(PortalName::P1.as_option(), Some("p1"));
    assert_eq!(PortalName::P2.as_option(), Some("p2"));
    let stmts: Vec<StmtName> = (0..StmtName::pool_len()).map(StmtName::at).collect();
    assert_eq!(stmts, vec![StmtName::Unnamed, StmtName::S1, StmtName::S2]);
    let portals: Vec<PortalName> = (0..PortalName::pool_len()).map(PortalName::at).collect();
    assert_eq!(
        portals,
        vec![PortalName::Unnamed, PortalName::P1, PortalName::P2]
    );
    assert_eq!(StmtName::Unnamed.to_text(), "\"\"");
    assert_eq!(StmtName::S1.to_text(), "\"s1\"");
    assert_eq!(PortalName::P2.to_text(), "\"p2\"");
}

#[test]
fn params_are_shown() {
    assert_eq!(Param::Null.to_text(), "NULL");
    assert_eq!(Param::Int32(-100).to_text(), "-100");
    assert_eq!(Param::Int32(0).to_text(), "0");
    assert_eq!(Param::Text("v7".into()).to_text(), "'v7'");
    assert_eq!(Param::Bytes(vec![0, 10, 255]).to_text(), "\\x000aff");
    assert_eq!(Param::Bytes(vec![]).to_text(), "\\x");
}

#[test]
fn operations_are_shown_on_one_line() {
    let cases: Vec<(FrontendOp, &str)> = vec![
        (
            FrontendOp::Query { sql: "A".into() },
            "Query { sql: \"A\" }",
        ),
        (
            FrontendOp::Parse {
                name: StmtName::S1,
                sql: "A".into(),
                param_oids: vec![],
            },
            "Parse { name: \"s1\", sql: \"A\", param_oids: [] }",
        ),
        (
            FrontendOp::Parse {
                name: StmtName::Unnamed,
                sql: "A".into(),
                param_oids: vec![23, 25],
            },
            "Parse { name: \"\", sql: \"A\", param_oids: [23, 25] }",
        ),
        (
            FrontendOp::Bind {
                portal: PortalName::P1,
                stmt: StmtName::S1,
                params: vec![],
            },
            "Bind { portal: \"p1\", stmt: \"s1\" }",
        ),
        (
            FrontendOp::Bind {
                portal: PortalName::Unnamed,
                stmt: StmtName::Unnamed,
                params: vec![Param::Int32(1), Param::Null],
            },
            "Bind { portal: \"\", stmt: \"\", params: [1, NULL] }",
        ),
        (
            FrontendOp::DescribeStatement {
                name: StmtName::S2,
            },
            "DescribeStatement { name: \"s2\" }",
        ),
        (
            FrontendOp::DescribePortal {
                name: PortalName::P2,
            },
            "DescribePortal { name: \"p2\" }",
        ),
        (
            FrontendOp::Execute {
                portal: PortalName::P1,
                max_rows: 10,
            },
            "Execute { portal: \"p1\", max_rows: 10 }",
        ),
        (
            FrontendOp::CloseStatement {
                name: StmtName::Unnamed,
            },
            "CloseStatement { name: \"\" }",
        ),
        (
            FrontendOp::ClosePortal {
                name: PortalName::P1,
            },
            "ClosePortal { name: \"p1\" }",
        ),
        (FrontendOp::Sync, "Sync"),
        (FrontendOp::Flush, "Flush"),
        (
            FrontendOp::CopyData {
                data: vec![0; 1200],
            },
            "CopyData { 1200 bytes }",
        ),
        (FrontendOp::CopyDone, "CopyDone"),
        (
            FrontendOp::CopyFail {
                message: "abort".into(),
            },
            "CopyFail { \"abort\" }",
        ),
        (FrontendOp::Terminate, "Terminate"),
    ];
    for (op, text) in cases {
        assert_eq!(op.to_text(), text);
        assert_eq!(op, op.clone());
    }
}

#[test]
fn numbers_are_written_as_std_writes_them() {
    for n in [0u64, 7, 10, 99, 100, 65536, u64::MAX] {
        let mut text = String::from("n=");
        push_decimal(&mut text, n);
        assert_eq!(text, format!("n={n}"));
    }
    for i in [0i32, -1, 1, i32::MIN, i32::MAX] {
        let mut text = String::new();
        push_signed(&mut text, i);
        assert_eq!(text, format!("{i}"));
    }
    let mut text = String::new();
    push_hex(&mut text, &[0, 1, 0x7f, 0xff]);
    assert_eq!(text, "00017fff");
}

#[test]
fn texts_are_searched() {
    assert!(contains_text("COPY copy_test FROM STDIN", "FROM STDIN"));
    assert!(!contains_text("COPY (SELECT 1) TO STDOUT", "FROM STDIN"));
    assert!(contains_text("abc", ""));
    assert!(contains_text("naïve", "ïv"));
    assert!(!contains_text("", "a"));
    assert!(text_equal("é", "é"));
    assert!(!text_equal("e", "é"));
}
