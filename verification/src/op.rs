//! The operation vocabulary: what a frontend can send, as structured values.

use crate::text::{comma_list, decimal, hex_text, push_decimal, push_hex, push_signed, signed_decimal};
use crate::text::lemma_comma_list_push;
use vstd::prelude::*;

verus! {

pub type Oid = u32;

/// A prepared statement name. `Unnamed` stands for the unnamed statement.
#[derive(Debug, Clone, Copy, PartialEq, Eq, Hash, Structural)]
pub enum StmtName {
    Unnamed,
    S1,
    S2,
}

/// A portal name. `Unnamed` stands for the unnamed portal.
#[derive(Debug, Clone, Copy, PartialEq, Eq, Hash, Structural)]
pub enum PortalName {
    Unnamed,
    P1,
    P2,
}

impl StmtName {
    /// The pool that statement names are drawn from, in order.
    pub open spec fn pool() -> Seq<StmtName> {
        seq![StmtName::Unnamed, StmtName::S1, StmtName::S2]
    }

    /// The name on the wire; empty for the unnamed statement.
    pub open spec fn spec_name(self) -> Seq<char> {
        match self {
            StmtName::Unnamed => ""@,
            StmtName::S1 => "s1"@,
            StmtName::S2 => "s2"@,
        }
    }

    /// The name in quotes, as reports show it.
    pub open spec fn spec_text(self) -> Seq<char> {
        match self {
            StmtName::Unnamed => "\"\""@,
            StmtName::S1 => "\"s1\""@,
            StmtName::S2 => "\"s2\""@,
        }
    }

    /// The number of names in the pool.
    pub fn pool_len() -> (len: usize)
        ensures
            len == StmtName::pool().len(),
    {
        3
    }

    /// The name at an index of the pool.
    pub fn at(index: usize) -> (name: StmtName)
        requires
            index < StmtName::pool().len(),
        ensures
            name == StmtName::pool()[index as int],
    {
        if index == 0 {
            StmtName::Unnamed
        } else if index == 1 {
            StmtName::S1
        } else {
            StmtName::S2
        }
    }

    /// The name, or `None` for the unnamed statement.
    pub fn as_option(&self) -> (name: Option<&'static str>)
        ensures
            *self == StmtName::Unnamed <==> name is None,
            name matches Some(text) ==> text@ == self.spec_name(),
    {
        match self {
            StmtName::Unnamed => None,
            StmtName::S1 => Some("s1"),
            StmtName::S2 => Some("s2"),
        }
    }

    /// The name as plain text; empty for the unnamed statement.
    pub fn as_str(&self) -> (name: &'static str)
        ensures
            name@ == self.spec_name(),
    {
        match self.as_option() {
            Some(name) => name,
            None => "",
        }
    }

    /// The name in quotes.
    pub fn to_text(&self) -> (text: String)
        ensures
            text@ == self.spec_text(),
    {
        match self {
            StmtName::Unnamed => "\"\"".to_owned(),
            StmtName::S1 => "\"s1\"".to_owned(),
            StmtName::S2 => "\"s2\"".to_owned(),
        }
    }
}

impl PortalName {
    /// The pool that portal names are drawn from, in order.
    pub open spec fn pool() -> Seq<PortalName> {
        seq![PortalName::Unnamed, PortalName::P1, PortalName::P2]
    }

    /// The name on the wire; empty for the unnamed portal.
    pub open spec fn spec_name(self) -> Seq<char> {
        match self {
            PortalName::Unnamed => ""@,
            PortalName::P1 => "p1"@,
            PortalName::P2 => "p2"@,
        }
    }

    /// The name in quotes, as reports show it.
    pub open spec fn spec_text(self) -> Seq<char> {
        match self {
            PortalName::Unnamed => "\"\""@,
            PortalName::P1 => "\"p1\""@,
            PortalName::P2 => "\"p2\""@,
        }
    }

    /// The number of names in the pool.
    pub fn pool_len() -> (len: usize)
        ensures
            len == PortalName::pool().len(),
    {
        3
    }

    /// The name at an index of the pool.
    pub fn at(index: usize) -> (name: PortalName)
        requires
            index < PortalName::pool().len(),
        ensures
            name == PortalName::pool()[index as int],
    {
        if index == 0 {
            PortalName::Unnamed
        } else if index == 1 {
            PortalName::P1
        } else {
            PortalName::P2
        }
    }

    /// The name, or `None` for the unnamed portal.
    pub fn as_option(&self) -> (name: Option<&'static str>)
        ensures
            *self == PortalName::Unnamed <==> name is None,
            name matches Some(text) ==> text@ == self.spec_name(),
    {
        match self {
            PortalName::Unnamed => None,
            PortalName::P1 => Some("p1"),
            PortalName::P2 => Some("p2"),
        }
    }

    /// The name in quotes.
    pub fn to_text(&self) -> (text: String)
        ensures
            text@ == self.spec_text(),
    {
        match self {
            PortalName::Unnamed => "\"\"".to_owned(),
            PortalName::P1 => "\"p1\"".to_owned(),
            PortalName::P2 => "\"p2\"".to_owned(),
        }
    }
}

/// A bind parameter value.
#[derive(Debug, PartialEq)]
pub enum Param {
    Null,
    Int32(i32),
    Text(String),
    Bytes(Vec<u8>),
}

/// What a bind parameter holds.
pub enum ParamModel {
    Null,
    Int32(i32),
    Text(Seq<char>),
    Bytes(Seq<u8>),
}

impl View for Param {
    type V = ParamModel;

    open spec fn view(&self) -> ParamModel {
        match self {
            Param::Null => ParamModel::Null,
            Param::Int32(v) => ParamModel::Int32(*v),
            Param::Text(s) => ParamModel::Text(s@),
            Param::Bytes(b) => ParamModel::Bytes(b@),
        }
    }
}

/// What a list of bind parameters holds.
pub open spec fn param_models(params: Seq<Param>) -> Seq<ParamModel> {
    params.map_values(|p: Param| p@)
}

impl ParamModel {
    /// The value as reports show it.
    pub open spec fn text(self) -> Seq<char> {
        match self {
            ParamModel::Null => "NULL"@,
            ParamModel::Int32(v) => signed_decimal(v as int),
            ParamModel::Text(s) => "'"@ + s + "'"@,
            ParamModel::Bytes(b) => "\\x"@ + hex_text(b),
        }
    }
}

impl Clone for Param {
    fn clone(&self) -> (copy: Param)
        ensures
            copy@ == self@,
    {
        match self {
            Param::Null => Param::Null,
            Param::Int32(v) => Param::Int32(*v),
            Param::Text(s) => Param::Text(s.clone()),
            Param::Bytes(b) => Param::Bytes(b.clone()),
        }
    }
}

/// Copies a list of bind parameters.
pub fn clone_params(params: &Vec<Param>) -> (copy: Vec<Param>)
    ensures
        param_models(copy@) == param_models(params@),
{
    let copy = params.clone();
    assert(param_models(copy@) =~= param_models(params@));
    copy
}

impl Param {
    /// The value as reports show it: `NULL`, a number, quoted text, or `\x` and hexadecimal.
    pub fn to_text(&self) -> (text: String)
        ensures
            text@ == self@.text(),
    {
        let mut out = String::new();
        match self {
            Param::Null => out.append("NULL"),
            Param::Int32(v) => push_signed(&mut out, *v),
            Param::Text(s) => {
                out.append("'");
                out.append(s.as_str());
                out.append("'");
            },
            Param::Bytes(b) => {
                out.append("\\x");
                push_hex(&mut out, b.as_slice());
            },
        }
        assert(out@ =~= self@.text());
        out
    }
}

/// A single frontend protocol operation.
#[derive(Debug, PartialEq)]
#[allow(inconsistent_fields)]
pub enum FrontendOp {
    // Simple query protocol
    Query { sql: String },
    // Extended query protocol
    Parse { name: StmtName, sql: String, param_oids: Vec<Oid> },
    Bind { portal: PortalName, stmt: StmtName, params: Vec<Param> },
    DescribeStatement { name: StmtName },
    DescribePortal { name: PortalName },
    Execute { portal: PortalName, max_rows: u32 },
    CloseStatement { name: StmtName },
    ClosePortal { name: PortalName },
    Sync,
    Flush,
    // COPY sub-protocol
    CopyData { data: Vec<u8> },
    CopyDone,
    CopyFail { message: String },
    // Other
    Terminate,
}

/// What a frontend operation holds.
#[allow(inconsistent_fields)]
pub enum OpModel {
    Query { sql: Seq<char> },
    Parse { name: StmtName, sql: Seq<char>, param_oids: Seq<Oid> },
    Bind { portal: PortalName, stmt: StmtName, params: Seq<ParamModel> },
    DescribeStatement { name: StmtName },
    DescribePortal { name: PortalName },
    Execute { portal: PortalName, max_rows: u32 },
    CloseStatement { name: StmtName },
    ClosePortal { name: PortalName },
    Sync,
    Flush,
    CopyData { data: Seq<u8> },
    CopyDone,
    CopyFail { message: Seq<char> },
    Terminate,
}

impl View for FrontendOp {
    type V = OpModel;

    open spec fn view(&self) -> OpModel {
        match self {
            FrontendOp::Query { sql } => OpModel::Query { sql: sql@ },
            FrontendOp::Parse { name, sql, param_oids } => OpModel::Parse {
                name: *name,
                sql: sql@,
                param_oids: param_oids@,
            },
            FrontendOp::Bind { portal, stmt, params } => OpModel::Bind {
                portal: *portal,
                stmt: *stmt,
                params: param_models(params@),
            },
            FrontendOp::DescribeStatement { name } => OpModel::DescribeStatement { name: *name },
            FrontendOp::DescribePortal { name } => OpModel::DescribePortal { name: *name },
            FrontendOp::Execute { portal, max_rows } => OpModel::Execute {
                portal: *portal,
                max_rows: *max_rows,
            },
            FrontendOp::CloseStatement { name } => OpModel::CloseStatement { name: *name },
            FrontendOp::ClosePortal { name } => OpModel::ClosePortal { name: *name },
            FrontendOp::Sync => OpModel::Sync,
            FrontendOp::Flush => OpModel::Flush,
            FrontendOp::CopyData { data } => OpModel::CopyData { data: data@ },
            FrontendOp::CopyDone => OpModel::CopyDone,
            FrontendOp::CopyFail { message } => OpModel::CopyFail { message: message@ },
            FrontendOp::Terminate => OpModel::Terminate,
        }
    }
}

/// What a sequence of operations holds.
pub open spec fn op_models(ops: Seq<FrontendOp>) -> Seq<OpModel> {
    ops.map_values(|op: FrontendOp| op@)
}

/// The object identifiers, each in decimal.
pub open spec fn oid_texts(oids: Seq<Oid>) -> Seq<Seq<char>> {
    oids.map_values(|oid: Oid| decimal(oid as nat))
}

/// The parameters, each as reports show it.
pub open spec fn param_texts(params: Seq<ParamModel>) -> Seq<Seq<char>> {
    params.map_values(|p: ParamModel| p.text())
}

impl OpModel {
    /// The server answers a batch with this operation at its end at once.
    pub open spec fn triggers_flush(self) -> bool {
        self is Sync || self is Query || self is Flush || self is CopyDone || self is CopyFail
            || self is Terminate
    }

    /// The server answers this operation with one ReadyForQuery.
    pub open spec fn answers_ready(self) -> bool {
        self is Sync || self is Query
    }

    /// The operation as reports show it.
    pub open spec fn text(self) -> Seq<char> {
        match self {
            OpModel::Query { sql } => "Query { sql: \""@ + sql + "\" }"@,
            OpModel::Parse { name, sql, param_oids } => "Parse { name: "@ + name.spec_text()
                + ", sql: \""@ + sql + "\", param_oids: ["@ + comma_list(oid_texts(param_oids))
                + "] }"@,
            OpModel::Bind { portal, stmt, params } => "Bind { portal: "@ + portal.spec_text()
                + ", stmt: "@ + stmt.spec_text() + (if params.len() == 0 {
                seq![]
            } else {
                ", params: ["@ + comma_list(param_texts(params)) + "]"@
            }) + " }"@,
            OpModel::DescribeStatement { name } => "DescribeStatement { name: "@ + name.spec_text()
                + " }"@,
            OpModel::DescribePortal { name } => "DescribePortal { name: "@ + name.spec_text()
                + " }"@,
            OpModel::Execute { portal, max_rows } => "Execute { portal: "@ + portal.spec_text()
                + ", max_rows: "@ + decimal(max_rows as nat) + " }"@,
            OpModel::CloseStatement { name } => "CloseStatement { name: "@ + name.spec_text()
                + " }"@,
            OpModel::ClosePortal { name } => "ClosePortal { name: "@ + name.spec_text() + " }"@,
            OpModel::Sync => "Sync"@,
            OpModel::Flush => "Flush"@,
            OpModel::CopyData { data } => "CopyData { "@ + decimal(data.len()) + " bytes }"@,
            OpModel::CopyDone => "CopyDone"@,
            OpModel::CopyFail { message } => "CopyFail { \""@ + message + "\" }"@,
            OpModel::Terminate => "Terminate"@,
        }
    }
}

impl Clone for FrontendOp {
    fn clone(&self) -> (copy: FrontendOp)
        ensures
            copy@ == self@,
    {
        match self {
            FrontendOp::Query { sql } => FrontendOp::Query { sql: sql.clone() },
            FrontendOp::Parse { name, sql, param_oids } => FrontendOp::Parse {
                name: *name,
                sql: sql.clone(),
                param_oids: param_oids.clone(),
            },
            FrontendOp::Bind { portal, stmt, params } => FrontendOp::Bind {
                portal: *portal,
                stmt: *stmt,
                params: clone_params(params),
            },
            FrontendOp::DescribeStatement { name } => FrontendOp::DescribeStatement { name: *name },
            FrontendOp::DescribePortal { name } => FrontendOp::DescribePortal { name: *name },
            FrontendOp::Execute { portal, max_rows } => FrontendOp::Execute {
                portal: *portal,
                max_rows: *max_rows,
            },
            FrontendOp::CloseStatement { name } => FrontendOp::CloseStatement { name: *name },
            FrontendOp::ClosePortal { name } => FrontendOp::ClosePortal { name: *name },
            FrontendOp::Sync => FrontendOp::Sync,
            FrontendOp::Flush => FrontendOp::Flush,
            FrontendOp::CopyData { data } => FrontendOp::CopyData { data: data.clone() },
            FrontendOp::CopyDone => FrontendOp::CopyDone,
            FrontendOp::CopyFail { message } => FrontendOp::CopyFail { message: message.clone() },
            FrontendOp::Terminate => FrontendOp::Terminate,
        }
    }
}

/// Copies the operations from `from` up to `to`.
pub fn clone_ops(ops: &[FrontendOp], from: usize, to: usize) -> (copy: Vec<FrontendOp>)
    requires
        from <= to <= ops.len(),
    ensures
        op_models(copy@) == op_models(ops@).subrange(from as int, to as int),
{
    let mut copy: Vec<FrontendOp> = Vec::new();
    let mut i: usize = from;
    while i < to
        invariant
            from <= i <= to <= ops.len(),
            op_models(copy@) == op_models(ops@).subrange(from as int, i as int),
        decreases to - i,
    {
        let ghost before = copy@;
        copy.push(ops[i].clone());
        i += 1;
        assert(op_models(copy@) =~= op_models(before).push(ops@[i - 1]@));
        assert(op_models(ops@).subrange(from as int, i as int) =~= op_models(ops@).subrange(
            from as int,
            i - 1,
        ).push(ops@[i - 1]@));
    }
    assert(op_models(copy@) =~= op_models(ops@).subrange(from as int, to as int));
    copy
}

/// Appends object identifiers in decimal, with `", "` between two of them.
fn push_oids(out: &mut String, oids: &Vec<Oid>)
    ensures
        final(out)@ == old(out)@ + comma_list(oid_texts(oids@)),
{
    let mut i: usize = 0;
    assert(oid_texts(oids@.take(0)) =~= Seq::<Seq<char>>::empty());
    assert(out@ =~= old(out)@ + comma_list(oid_texts(oids@.take(0))));
    while i < oids.len()
        invariant
            i <= oids.len(),
            out@ == old(out)@ + comma_list(oid_texts(oids@.take(i as int))),
        decreases oids.len() - i,
    {
        if i > 0 {
            out.append(", ");
        }
        push_decimal(out, oids[i] as u64);
        proof {
            let done = oid_texts(oids@.take(i as int));
            lemma_comma_list_push(done, decimal(oids@[i as int] as nat));
            assert(oid_texts(oids@.take(i + 1)) =~= done.push(decimal(oids@[i as int] as nat)));
            assert(out@ =~= old(out)@ + comma_list(oid_texts(oids@.take(i + 1))));
        }
        i += 1;
    }
    assert(oids@.take(i as int) =~= oids@);
}

/// Appends parameters as reports show them, with `", "` between two of them.
fn push_params(out: &mut String, params: &Vec<Param>)
    ensures
        final(out)@ == old(out)@ + comma_list(param_texts(param_models(params@))),
{
    let mut i: usize = 0;
    let ghost texts = param_texts(param_models(params@));
    assert(texts.take(0) =~= Seq::<Seq<char>>::empty());
    assert(out@ =~= old(out)@ + comma_list(texts.take(0)));
    while i < params.len()
        invariant
            i <= params.len(),
            texts == param_texts(param_models(params@)),
            out@ == old(out)@ + comma_list(texts.take(i as int)),
        decreases params.len() - i,
    {
        if i > 0 {
            out.append(", ");
        }
        let shown = params[i].to_text();
        out.append(shown.as_str());
        proof {
            lemma_comma_list_push(texts.take(i as int), texts[i as int]);
            assert(texts.take(i + 1) =~= texts.take(i as int).push(texts[i as int]));
            assert(out@ =~= old(out)@ + comma_list(texts.take(i + 1)));
        }
        i += 1;
    }
    assert(texts.take(i as int) =~= texts);
}

impl FrontendOp {
    /// Returns true if this operation triggers an immediate flush: the server will
    /// process what was buffered and respond.
    pub fn triggers_flush(&self) -> (flush: bool)
        ensures
            flush == self@.triggers_flush(),
    {
        match self {
            FrontendOp::Sync => true,
            FrontendOp::Query { .. } => true,
            FrontendOp::Flush => true,
            FrontendOp::CopyDone => true,
            FrontendOp::CopyFail { .. } => true,
            FrontendOp::Terminate => true,
            _ => false,
        }
    }

    /// Returns true for the operations that the server answers with a ReadyForQuery.
    pub fn answers_ready(&self) -> (ready: bool)
        ensures
            ready == self@.answers_ready(),
    {
        match self {
            FrontendOp::Sync => true,
            FrontendOp::Query { .. } => true,
            _ => false,
        }
    }

    /// The operation as reports show it, on one line.
    pub fn to_text(&self) -> (text: String)
        ensures
            text@ == self@.text(),
    {
        let mut out = String::new();
        match self {
            FrontendOp::Query { sql } => {
                out.append("Query { sql: \"");
                out.append(sql.as_str());
                out.append("\" }");
            },
            FrontendOp::Parse { name, sql, param_oids } => {
                out.append("Parse { name: ");
                out.append(name.to_text().as_str());
                out.append(", sql: \"");
                out.append(sql.as_str());
                out.append("\", param_oids: [");
                push_oids(&mut out, param_oids);
                out.append("] }");
            },
            FrontendOp::Bind { portal, stmt, params } => {
                out.append("Bind { portal: ");
                out.append(portal.to_text().as_str());
                out.append(", stmt: ");
                out.append(stmt.to_text().as_str());
                if !params.is_empty() {
                    out.append(", params: [");
                    push_params(&mut out, params);
                    out.append("]");
                }
                out.append(" }");
            },
            FrontendOp::DescribeStatement { name } => {
                out.append("DescribeStatement { name: ");
                out.append(name.to_text().as_str());
                out.append(" }");
            },
            FrontendOp::DescribePortal { name } => {
                out.append("DescribePortal { name: ");
                out.append(name.to_text().as_str());
                out.append(" }");
            },
            FrontendOp::Execute { portal, max_rows } => {
                out.append("Execute { portal: ");
                out.append(portal.to_text().as_str());
                out.append(", max_rows: ");
                push_decimal(&mut out, *max_rows as u64);
                out.append(" }");
            },
            FrontendOp::CloseStatement { name } => {
                out.append("CloseStatement { name: ");
                out.append(name.to_text().as_str());
                out.append(" }");
            },
            FrontendOp::ClosePortal { name } => {
                out.append("ClosePortal { name: ");
                out.append(name.to_text().as_str());
                out.append(" }");
            },
            FrontendOp::Sync => out.append("Sync"),
            FrontendOp::Flush => out.append("Flush"),
            FrontendOp::CopyData { data } => {
                out.append("CopyData { ");
                push_decimal(&mut out, data.len() as u64);
                out.append(" bytes }");
            },
            FrontendOp::CopyDone => out.append("CopyDone"),
            FrontendOp::CopyFail { message } => {
                out.append("CopyFail { \"");
                out.append(message.as_str());
                out.append("\" }");
            },
            FrontendOp::Terminate => out.append("Terminate"),
        }
        assert(out@ =~= self@.text());
        out
    }
}

// ---------------------------------------------------------------------------
// Laws
// ---------------------------------------------------------------------------

/// A list of operations shows each of them, in order, and nothing else.
pub proof fn law_operations_seen_one_for_one(ops: Seq<FrontendOp>)
    ensures
        op_models(ops).len() == ops.len(),
        forall|i: int| 0 <= i < ops.len() ==> #[trigger] op_models(ops)[i] == ops[i]@,
{
}

/// A list of parameters shows each of them, in order, and nothing else.
pub proof fn law_parameters_seen_one_for_one(params: Seq<Param>)
    ensures
        param_models(params).len() == params.len(),
        forall|i: int| 0 <= i < params.len() ==> #[trigger] param_models(params)[i] == params[i]@,
{
}

/// The server is made to answer by Sync, Query, Flush, CopyDone, CopyFail and Terminate. The
/// operations of the extended protocol, and copied data, wait for one of those.
pub proof fn law_what_triggers_a_flush(op: OpModel)
    ensures
        op is Sync || op is Query || op is Flush ==> op.triggers_flush(),
        op is CopyDone || op is CopyFail || op is Terminate ==> op.triggers_flush(),
        op is Parse || op is Bind || op is Execute ==> !op.triggers_flush(),
        op is DescribeStatement || op is DescribePortal ==> !op.triggers_flush(),
        op is CloseStatement || op is ClosePortal || op is CopyData ==> !op.triggers_flush(),
{
}

/// A ReadyForQuery answers Sync and Query. It answers no other operation: neither one of the
/// extended protocol, nor a flush, nor the end of a copy, nor the end of the connection.
pub proof fn law_what_a_ready_answers(op: OpModel)
    ensures
        op is Sync || op is Query ==> op.answers_ready(),
        op is CopyData || op is CopyDone || op is CopyFail ==> !op.answers_ready(),
        op is Flush || op is Terminate ==> !op.answers_ready(),
        op is Parse || op is Bind || op is Execute ==> !op.answers_ready(),
        op is DescribeStatement || op is DescribePortal ==> !op.answers_ready(),
        op is CloseStatement || op is ClosePortal ==> !op.answers_ready(),
        op.answers_ready() ==> op.triggers_flush(),
{
}

/// The pools hold every name there is, each once.
pub proof fn law_pools_hold_every_name(stmt: StmtName, portal: PortalName)
    ensures
        StmtName::pool().len() == 3,
        PortalName::pool().len() == 3,
        exists|i: int| 0 <= i < 3 && #[trigger] StmtName::pool()[i] == stmt,
        exists|i: int| 0 <= i < 3 && #[trigger] PortalName::pool()[i] == portal,
        StmtName::pool().no_duplicates(),
        PortalName::pool().no_duplicates(),
        StmtName::pool()[0] == StmtName::Unnamed,
        PortalName::pool()[0] == PortalName::Unnamed,
{
    assert(StmtName::pool()[0] == StmtName::Unnamed);
    assert(StmtName::pool()[1] == StmtName::S1);
    assert(StmtName::pool()[2] == StmtName::S2);
    assert(PortalName::pool()[0] == PortalName::Unnamed);
    assert(PortalName::pool()[1] == PortalName::P1);
    assert(PortalName::pool()[2] == PortalName::P2);
}

/// Names are shown in quotes as they stand on the wire, and the unnamed one is empty on the wire.
pub proof fn law_names_on_the_wire(stmt: StmtName, portal: PortalName)
    ensures
        stmt == StmtName::Unnamed <==> stmt.spec_name().len() == 0,
        stmt == StmtName::S1 ==> stmt.spec_name() == "s1"@,
        stmt == StmtName::S2 ==> stmt.spec_name() == "s2"@,
        portal == PortalName::Unnamed <==> portal.spec_name().len() == 0,
        portal == PortalName::P1 ==> portal.spec_name() == "p1"@,
        portal == PortalName::P2 ==> portal.spec_name() == "p2"@,
        stmt.spec_text() == seq!['"'] + stmt.spec_name() + seq!['"'],
        portal.spec_text() == seq!['"'] + portal.spec_name() + seq!['"'],
{
    reveal_strlit("");
    reveal_strlit("s1");
    reveal_strlit("s2");
    reveal_strlit("p1");
    reveal_strlit("p2");
    reveal_strlit("\"\"");
    reveal_strlit("\"s1\"");
    reveal_strlit("\"s2\"");
    reveal_strlit("\"p1\"");
    reveal_strlit("\"p2\"");
    assert(stmt.spec_text() =~= seq!['"'] + stmt.spec_name() + seq!['"']);
    assert(portal.spec_text() =~= seq!['"'] + portal.spec_name() + seq!['"']);
}

/// A parameter is shown by its value: NULL by name, a number in decimal, a text in single quotes
/// and bytes in hexadecimal behind `\x`.
pub proof fn law_parameter_shown_by_its_value(param: ParamModel)
    ensures
        param is Null ==> param.text() == "NULL"@,
        param matches ParamModel::Int32(v) ==> param.text() == signed_decimal(v as int),
        param matches ParamModel::Text(s) ==> param.text() == seq!['\''] + s + seq!['\''],
        param matches ParamModel::Bytes(b) ==> param.text() == seq!['\\', 'x'] + hex_text(b),
{
    reveal_strlit("'");
    reveal_strlit("\\x");
    assert("'"@ =~= seq!['\'']);
    assert("\\x"@ =~= seq!['\\', 'x']);
}

/// An operation is shown by its name and all that it carries: SQL in full, each parameter type and
/// each parameter in order, names and the row limit. Of copied data the length is shown.
pub proof fn law_operation_shown_with_all_it_carries(op: OpModel)
    ensures
        op matches OpModel::Query { sql } ==> op.text() == "Query { sql: \""@ + sql + "\" }"@,
        op matches OpModel::Parse { name, sql, param_oids } ==> op.text() == "Parse { name: "@
            + name.spec_text() + ", sql: \""@ + sql + "\", param_oids: ["@ + comma_list(
            Seq::new(param_oids.len(), |i: int| decimal(param_oids[i] as nat)),
        ) + "] }"@,
        op matches OpModel::Bind { portal, stmt, params } ==> {
            &&& params.len() == 0 ==> op.text() == "Bind { portal: "@ + portal.spec_text()
                + ", stmt: "@ + stmt.spec_text() + " }"@
            &&& params.len() > 0 ==> op.text() == "Bind { portal: "@ + portal.spec_text()
                + ", stmt: "@ + stmt.spec_text() + (", params: ["@ + comma_list(
                Seq::new(params.len(), |i: int| params[i].text()),
            ) + "]"@) + " }"@
        },
        op matches OpModel::DescribeStatement { name } ==> op.text()
            == "DescribeStatement { name: "@ + name.spec_text() + " }"@,
        op matches OpModel::DescribePortal { name } ==> op.text() == "DescribePortal { name: "@
            + name.spec_text() + " }"@,
        op matches OpModel::Execute { portal, max_rows } ==> op.text() == "Execute { portal: "@
            + portal.spec_text() + ", max_rows: "@ + decimal(max_rows as nat) + " }"@,
        op matches OpModel::CloseStatement { name } ==> op.text() == "CloseStatement { name: "@
            + name.spec_text() + " }"@,
        op matches OpModel::ClosePortal { name } ==> op.text() == "ClosePortal { name: "@
            + name.spec_text() + " }"@,
        op is Sync ==> op.text() == "Sync"@,
        op is Flush ==> op.text() == "Flush"@,
        op matches OpModel::CopyData { data } ==> op.text() == "CopyData { "@ + decimal(data.len())
            + " bytes }"@,
        op is CopyDone ==> op.text() == "CopyDone"@,
        op matches OpModel::CopyFail { message } ==> op.text() == "CopyFail { \""@ + message
            + "\" }"@,
        op is Terminate ==> op.text() == "Terminate"@,
{
    match op {
        OpModel::Parse { param_oids, .. } => {
            assert(oid_texts(param_oids) =~= Seq::new(
                param_oids.len(),
                |i: int| decimal(param_oids[i] as nat),
            ));
        },
        OpModel::Bind { portal, stmt, params } => {
            assert(param_texts(params) =~= Seq::new(params.len(), |i: int| params[i].text()));
            if params.len() == 0 {
                assert(op.text() =~= "Bind { portal: "@ + portal.spec_text() + ", stmt: "@
                    + stmt.spec_text() + " }"@);
            }
        },
        _ => {},
    }
}

/// A parameter is seen as it is, with all that it holds.
pub proof fn law_parameter_seen_as_it_is(param: Param)
    ensures
        param is Null ==> param@ == ParamModel::Null,
        param matches Param::Int32(v) ==> param@ == ParamModel::Int32(v),
        param matches Param::Text(s) ==> param@ == ParamModel::Text(s@),
        param matches Param::Bytes(b) ==> param@ == ParamModel::Bytes(b@),
{
}

/// An operation is seen as it is, with all that it holds.
pub proof fn law_operation_seen_as_it_is(op: FrontendOp)
    ensures
        op matches FrontendOp::Query { sql } ==> op@ == (OpModel::Query { sql: sql@ }),
        op matches FrontendOp::Parse { name, sql, param_oids } ==> op@ == (OpModel::Parse {
            name,
            sql: sql@,
            param_oids: param_oids@,
        }),
        op matches FrontendOp::Bind { portal, stmt, params } ==> op@ == (OpModel::Bind {
            portal,
            stmt,
            params: param_models(params@),
        }),
        op matches FrontendOp::DescribeStatement { name } ==> op@ == (OpModel::DescribeStatement {
            name,
        }),
        op matches FrontendOp::DescribePortal { name } ==> op@ == (OpModel::DescribePortal { name }),
        op matches FrontendOp::Execute { portal, max_rows } ==> op@ == (OpModel::Execute {
            portal,
            max_rows,
        }),
        op matches FrontendOp::CloseStatement { name } ==> op@ == (OpModel::CloseStatement { name }),
        op matches FrontendOp::ClosePortal { name } ==> op@ == (OpModel::ClosePortal { name }),
        op is Sync ==> op@ == OpModel::Sync,
        op is Flush ==> op@ == OpModel::Flush,
        op matches FrontendOp::CopyData { data } ==> op@ == (OpModel::CopyData { data: data@ }),
        op is CopyDone ==> op@ == OpModel::CopyDone,
        op matches FrontendOp::CopyFail { message } ==> op@ == (OpModel::CopyFail {
            message: message@,
        }),
        op is Terminate ==> op@ == OpModel::Terminate,
{
}

} // verus!
