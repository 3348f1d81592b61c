//! Encodes operations as wire messages.

use crate::op::{
    param_models, FrontendOp, Oid, OpModel, Param, ParamModel, PortalName, StmtName,
};
use bytes::{BufMut, Bytes};
use pg_stream::message::{Bindable, PgProtocol};
use vstd::prelude::*;
use vstd::utf8::encode_utf8;

verus! {

// ---------------------------------------------------------------------------
// The wire format
// ---------------------------------------------------------------------------

/// Four bytes, the most significant one first.
pub open spec fn be32(n: u32) -> Seq<u8> {
    seq![
        (n / 0x1_00_00_00) as u8,
        (n / 0x1_00_00 % 0x100) as u8,
        (n / 0x1_00 % 0x100) as u8,
        (n % 0x100) as u8,
    ]
}

/// Two bytes, the most significant one first.
pub open spec fn be16(n: u16) -> Seq<u8> {
    seq![(n / 0x100) as u8, (n % 0x100) as u8]
}

/// The bits of a signed number as an unsigned one.
pub open spec fn bits32(v: i32) -> u32 {
    if v < 0 {
        (v + 0x1_0000_0000) as u32
    } else {
        v as u32
    }
}

/// A count in the four bytes that the format has for it.
pub open spec fn count32(n: nat) -> u32 {
    (n % 0x1_0000_0000) as u32
}

/// A count in the two bytes that the format has for it.
pub open spec fn count16(n: nat) -> u16 {
    (n % 0x1_0000) as u16
}

/// A text in UTF-8 with a zero byte behind it.
pub open spec fn cstring(text: Seq<char>) -> Seq<u8> {
    encode_utf8(text).push(0)
}

/// A message: its code, its length with the length field itself, and its payload.
pub open spec fn frame(code: u8, payload: Seq<u8>) -> Seq<u8> {
    seq![code] + be32((payload.len() + 4) as u32) + payload
}

/// A payload whose frame has a length that its field can hold.
pub open spec fn fits(payload: Seq<u8>) -> bool {
    payload.len() + 4 <= u32::MAX
}

/// The format that a parameter travels in.
#[derive(Debug, Clone, Copy, PartialEq, Eq, Structural)]
pub enum FormatCode {
    Text,
    Binary,
}

impl FormatCode {
    /// The number that stands for the format.
    pub open spec fn number(self) -> u16 {
        match self {
            FormatCode::Text => 0,
            FormatCode::Binary => 1,
        }
    }
}

impl ParamModel {
    /// The format that the parameter travels in.
    pub open spec fn format(self) -> FormatCode {
        match self {
            ParamModel::Text(_) => FormatCode::Text,
            _ => FormatCode::Binary,
        }
    }

    /// The length of the value and the value; a length of minus one for NULL.
    pub open spec fn wire(self) -> Seq<u8> {
        match self {
            ParamModel::Null => be32(0xffff_ffff),
            ParamModel::Int32(v) => be32(4) + be32(bits32(v)),
            ParamModel::Text(s) => be32(count32(encode_utf8(s).len())) + encode_utf8(s),
            ParamModel::Bytes(b) => be32(count32(b.len())) + b,
        }
    }
}

/// The parameters one after the other.
pub open spec fn param_wires(params: Seq<ParamModel>) -> Seq<u8>
    decreases params.len(),
{
    if params.len() == 0 {
        seq![]
    } else {
        param_wires(params.drop_last()) + params.last().wire()
    }
}

/// The object identifiers one after the other.
pub open spec fn oid_wires(oids: Seq<Oid>) -> Seq<u8>
    decreases oids.len(),
{
    if oids.len() == 0 {
        seq![]
    } else {
        oid_wires(oids.drop_last()) + be32(oids.last())
    }
}

/// The format numbers of the parameters one after the other.
pub open spec fn format_wires(params: Seq<ParamModel>) -> Seq<u8>
    decreases params.len(),
{
    if params.len() == 0 {
        seq![]
    } else {
        format_wires(params.drop_last()) + be16(params.last().format().number())
    }
}

/// All parameters travel in one format.
pub open spec fn all_in_format(params: Seq<ParamModel>, format: FormatCode) -> bool {
    forall|i: int| 0 <= i < params.len() ==> (#[trigger] params[i]).format() == format
}

/// How a Bind announces the formats of its parameters: nothing where all are text, one
/// number where all are binary, else one number for each.
pub open spec fn format_section(params: Seq<ParamModel>) -> Seq<u8> {
    if all_in_format(params, FormatCode::Text) {
        be16(0)
    } else if all_in_format(params, FormatCode::Binary) {
        be16(1) + be16(1)
    } else {
        be16(count16(params.len())) + format_wires(params)
    }
}

impl OpModel {
    /// The code of the operation's message.
    pub open spec fn code(self) -> u8 {
        match self {
            OpModel::Query { .. } => 0x51,
            OpModel::Parse { .. } => 0x50,
            OpModel::Bind { .. } => 0x42,
            OpModel::DescribeStatement { .. } => 0x44,
            OpModel::DescribePortal { .. } => 0x44,
            OpModel::Execute { .. } => 0x45,
            OpModel::CloseStatement { .. } => 0x43,
            OpModel::ClosePortal { .. } => 0x43,
            OpModel::Sync => 0x53,
            OpModel::Flush => 0x48,
            OpModel::CopyData { .. } => 0x64,
            OpModel::CopyDone => 0x63,
            OpModel::CopyFail { .. } => 0x66,
            OpModel::Terminate => 0x58,
        }
    }

    /// The payload of the operation's message.
    pub open spec fn payload(self) -> Seq<u8> {
        match self {
            OpModel::Query { sql } => cstring(sql),
            OpModel::Parse { name, sql, param_oids } => cstring(name.spec_name()) + cstring(sql)
                + be16(count16(param_oids.len())) + oid_wires(param_oids),
            OpModel::Bind { portal, stmt, params } => cstring(portal.spec_name()) + cstring(
                stmt.spec_name(),
            ) + format_section(params) + be16(count16(params.len())) + param_wires(params) + be16(
                0,
            ),
            OpModel::DescribeStatement { name } => seq![0x53u8] + cstring(name.spec_name()),
            OpModel::DescribePortal { name } => seq![0x50u8] + cstring(name.spec_name()),
            OpModel::Execute { portal, max_rows } => cstring(portal.spec_name()) + be32(max_rows),
            OpModel::CloseStatement { name } => seq![0x53u8] + cstring(name.spec_name()),
            OpModel::ClosePortal { name } => seq![0x50u8] + cstring(name.spec_name()),
            OpModel::CopyData { data } => data,
            OpModel::CopyFail { message } => cstring(message),
            _ => seq![],
        }
    }

    /// The bytes of the operation's message.
    pub open spec fn wire(self) -> Seq<u8> {
        frame(self.code(), self.payload())
    }

    /// The message's length field can hold its length.
    pub open spec fn fits_frame(self) -> bool {
        fits(self.payload())
    }
}

/// The bytes of the operations one after the other.
pub open spec fn op_wires(ops: Seq<OpModel>) -> Seq<u8>
    decreases ops.len(),
{
    if ops.len() == 0 {
        seq![]
    } else {
        op_wires(ops.drop_last()) + ops.last().wire()
    }
}

/// The name as the message carries it; `None` is the empty name.
pub open spec fn optional_name(name: Option<&str>) -> Seq<char> {
    match name {
        Some(text) => text@,
        None => ""@,
    }
}

// ---------------------------------------------------------------------------
// Writing through pg_stream
// ---------------------------------------------------------------------------

/// Trusted: `bytes::BufMut::put_i32` on a `Vec<u8>`. Appends the four bytes of the number,
/// the most significant one first.
#[verifier::external_body]
fn put_i32(buf: &mut Vec<u8>, v: i32)
    ensures
        final(buf)@ == old(buf)@ + be32(bits32(v)),
{
    buf.put_i32(v);
}

/// Trusted: `bytes::BufMut::put_slice` on a `Vec<u8>`. Appends the bytes.
#[verifier::external_body]
fn put_slice(buf: &mut Vec<u8>, bytes: &[u8])
    ensures
        final(buf)@ == old(buf)@ + bytes@,
{
    buf.put_slice(bytes);
}

/// Trusted: `PgProtocol::query`. Appends a Query message.
#[verifier::external_body]
fn put_query(buf: &mut Vec<u8>, sql: &str)
    requires
        fits(cstring(sql@)),
    ensures
        final(buf)@ == old(buf)@ + frame(0x51, cstring(sql@)),
{
    buf.query(sql);
}

/// Trusted: `PgProtocol::parse` with the `query`, `param_types` and `finish` of the
/// `ParseBuilder` it gives. Appends a Parse message.
#[verifier::external_body]
fn put_parse(buf: &mut Vec<u8>, name: Option<&str>, sql: &str, oids: &[Oid])
    requires
        fits(
            cstring(optional_name(name)) + cstring(sql@) + be16(count16(oids@.len())) + oid_wires(
                oids@,
            ),
        ),
    ensures
        final(buf)@ == old(buf)@ + frame(
            0x50,
            cstring(optional_name(name)) + cstring(sql@) + be16(count16(oids@.len())) + oid_wires(
                oids@,
            ),
        ),
{
    buf.parse(name).query(sql).param_types(oids).finish();
}

/// Trusted: `PgProtocol::bind` with the `statement` and `finish` of the `BindBuilder` it
/// gives, on the `Bindable` values of `pg_stream` itself: an `Option` for NULL, `i32`,
/// `String`, and `bytes::Bytes`. Appends a Bind message that asks for text results.
#[verifier::external_body]
fn put_bind(buf: &mut Vec<u8>, portal: Option<&str>, stmt: &str, params: &[Param])
    requires
        fits(
            cstring(optional_name(portal)) + cstring(stmt@) + format_section(param_models(params@))
                + be16(count16(params@.len())) + param_wires(param_models(params@)) + be16(0),
        ),
    ensures
        final(buf)@ == old(buf)@ + frame(
            0x42,
            cstring(optional_name(portal)) + cstring(stmt@) + format_section(param_models(params@))
                + be16(count16(params@.len())) + param_wires(param_models(params@)) + be16(0),
        ),
{
    let values: Vec<Box<dyn Bindable>> = params.iter().map(|p| -> Box<dyn Bindable> {
        match p {
            Param::Null => Box::new(None::<i32>),
            Param::Int32(v) => Box::new(*v),
            Param::Text(s) => Box::new(s.clone()),
            Param::Bytes(b) => Box::new(Bytes::from(b.clone())),
        }
    }).collect();
    let refs: Vec<&dyn Bindable> = values.iter().map(|value| value.as_ref()).collect();
    buf.bind(portal).statement(stmt).finish(&refs);
}

/// Trusted: `PgProtocol::describe_statement`. Appends a Describe message for a statement.
#[verifier::external_body]
fn put_describe_statement(buf: &mut Vec<u8>, name: Option<&str>)
    requires
        fits(seq![0x53u8] + cstring(optional_name(name))),
    ensures
        final(buf)@ == old(buf)@ + frame(0x44, seq![0x53u8] + cstring(optional_name(name))),
{
    buf.describe_statement(name);
}

/// Trusted: `PgProtocol::describe_portal`. Appends a Describe message for a portal.
#[verifier::external_body]
fn put_describe_portal(buf: &mut Vec<u8>, name: Option<&str>)
    requires
        fits(seq![0x50u8] + cstring(optional_name(name))),
    ensures
        final(buf)@ == old(buf)@ + frame(0x44, seq![0x50u8] + cstring(optional_name(name))),
{
    buf.describe_portal(name);
}

/// Trusted: `PgProtocol::execute`. Appends an Execute message.
#[verifier::external_body]
fn put_execute(buf: &mut Vec<u8>, portal: Option<&str>, max_rows: u32)
    requires
        fits(cstring(optional_name(portal)) + be32(max_rows)),
    ensures
        final(buf)@ == old(buf)@ + frame(0x45, cstring(optional_name(portal)) + be32(max_rows)),
{
    buf.execute(portal, max_rows);
}

/// Trusted: `PgProtocol::close_statement`. Appends a Close message for a statement.
#[verifier::external_body]
fn put_close_statement(buf: &mut Vec<u8>, name: Option<&str>)
    requires
        fits(seq![0x53u8] + cstring(optional_name(name))),
    ensures
        final(buf)@ == old(buf)@ + frame(0x43, seq![0x53u8] + cstring(optional_name(name))),
{
    buf.close_statement(name);
}

/// Trusted: `PgProtocol::close_portal`. Appends a Close message for a portal.
#[verifier::external_body]
fn put_close_portal(buf: &mut Vec<u8>, name: Option<&str>)
    requires
        fits(seq![0x50u8] + cstring(optional_name(name))),
    ensures
        final(buf)@ == old(buf)@ + frame(0x43, seq![0x50u8] + cstring(optional_name(name))),
{
    buf.close_portal(name);
}

/// Trusted: `PgProtocol::sync`. Appends a Sync message.
#[verifier::external_body]
fn put_sync(buf: &mut Vec<u8>)
    ensures
        final(buf)@ == old(buf)@ + frame(0x53, seq![]),
{
    buf.sync();
}

/// Trusted: `PgProtocol::flush_msg`. Appends a Flush message.
#[verifier::external_body]
fn put_flush(buf: &mut Vec<u8>)
    ensures
        final(buf)@ == old(buf)@ + frame(0x48, seq![]),
{
    buf.flush_msg();
}

/// Trusted: `PgProtocol::copy_data`. Appends a CopyData message.
#[verifier::external_body]
fn put_copy_data(buf: &mut Vec<u8>, data: &[u8])
    requires
        fits(data@),
    ensures
        final(buf)@ == old(buf)@ + frame(0x64, data@),
{
    buf.copy_data(data);
}

/// Trusted: `PgProtocol::copy_done`. Appends a CopyDone message.
#[verifier::external_body]
fn put_copy_done(buf: &mut Vec<u8>)
    ensures
        final(buf)@ == old(buf)@ + frame(0x63, seq![]),
{
    buf.copy_done();
}

/// Trusted: `PgProtocol::copy_fail`. Appends a CopyFail message.
#[verifier::external_body]
fn put_copy_fail(buf: &mut Vec<u8>, message: &str)
    requires
        fits(cstring(message@)),
    ensures
        final(buf)@ == old(buf)@ + frame(0x66, cstring(message@)),
{
    buf.copy_fail(message);
}

/// Trusted: `PgProtocol::terminate`. Appends a Terminate message.
#[verifier::external_body]
fn put_terminate(buf: &mut Vec<u8>)
    ensures
        final(buf)@ == old(buf)@ + frame(0x58, seq![]),
{
    buf.terminate();
}

// ---------------------------------------------------------------------------
// Encoding
// ---------------------------------------------------------------------------

/// The low four bytes of a length, as a signed number.
fn low_i32(n: usize) -> (v: i32)
    ensures
        bits32(v) == count32(n as nat),
{
    let low = (n as u64 % 0x1_0000_0000) as u32;
    if low <= 0x7fff_ffff {
        low as i32
    } else {
        (low as i64 - 0x1_0000_0000) as i32
    }
}

impl Param {
    /// The format that the parameter travels in: text for text, else binary.
    pub fn format_code(&self) -> (format: FormatCode)
        ensures
            format == self@.format(),
    {
        match self {
            Param::Null => FormatCode::Binary,
            Param::Int32(_) => FormatCode::Binary,
            Param::Bytes(_) => FormatCode::Binary,
            Param::Text(_) => FormatCode::Text,
        }
    }

    /// Appends the value with its length in front; a length of minus one for NULL.
    pub fn encode(&self, buf: &mut Vec<u8>)
        ensures
            final(buf)@ == old(buf)@ + self@.wire(),
    {
        match self {
            Param::Null => put_i32(buf, -1),
            Param::Int32(v) => {
                put_i32(buf, 4);
                put_i32(buf, *v);
            },
            Param::Text(s) => {
                let bytes = s.as_str().as_bytes();
                put_i32(buf, low_i32(bytes.len()));
                put_slice(buf, bytes);
            },
            Param::Bytes(b) => {
                put_i32(buf, low_i32(b.len()));
                put_slice(buf, b.as_slice());
            },
        }
        assert(buf@ =~= old(buf)@ + self@.wire());
    }
}

/// Appends the message of a single operation to a write buffer. Nothing is sent: whoever
/// holds the buffer decides when to flush it.
pub fn encode_op(buf: &mut Vec<u8>, op: &FrontendOp)
    requires
        op@.fits_frame(),
    ensures
        final(buf)@ == old(buf)@ + op@.wire(),
{
    match op {
        FrontendOp::Query { sql } => put_query(buf, sql.as_str()),
        FrontendOp::Parse { name, sql, param_oids } => put_parse(
            buf,
            name.as_option(),
            sql.as_str(),
            param_oids.as_slice(),
        ),
        FrontendOp::Bind { portal, stmt, params } => put_bind(
            buf,
            portal.as_option(),
            stmt.as_str(),
            params.as_slice(),
        ),
        FrontendOp::DescribeStatement { name } => put_describe_statement(buf, name.as_option()),
        FrontendOp::DescribePortal { name } => put_describe_portal(buf, name.as_option()),
        FrontendOp::Execute { portal, max_rows } => put_execute(
            buf,
            portal.as_option(),
            *max_rows,
        ),
        FrontendOp::CloseStatement { name } => put_close_statement(buf, name.as_option()),
        FrontendOp::ClosePortal { name } => put_close_portal(buf, name.as_option()),
        FrontendOp::Sync => put_sync(buf),
        FrontendOp::Flush => put_flush(buf),
        FrontendOp::CopyData { data } => put_copy_data(buf, data.as_slice()),
        FrontendOp::CopyDone => put_copy_done(buf),
        FrontendOp::CopyFail { message } => put_copy_fail(buf, message.as_str()),
        FrontendOp::Terminate => put_terminate(buf),
    }
}

// ---------------------------------------------------------------------------
// Which operations can be encoded
// ---------------------------------------------------------------------------

proof fn lemma_oid_wires_len(oids: Seq<Oid>)
    ensures
        oid_wires(oids).len() == 4 * oids.len(),
    decreases oids.len(),
{
    if oids.len() > 0 {
        lemma_oid_wires_len(oids.drop_last());
    }
}

proof fn lemma_format_wires_len(params: Seq<ParamModel>)
    ensures
        format_wires(params).len() == 2 * params.len(),
    decreases params.len(),
{
    if params.len() > 0 {
        lemma_format_wires_len(params.drop_last());
    }
}

/// More parameters never make a shorter message.
proof fn lemma_param_wires_grow(params: Seq<ParamModel>, k: int)
    requires
        0 <= k <= params.len(),
    ensures
        param_wires(params.take(k)).len() <= param_wires(params).len(),
    decreases params.len() - k,
{
    if k == params.len() {
        assert(params.take(k) =~= params);
    } else {
        lemma_param_wires_grow(params, k + 1);
        assert(params.take(k + 1).drop_last() =~= params.take(k));
    }
}

/// The length of a text in UTF-8 with its zero byte.
fn cstring_len(text: &str) -> (len: u128)
    ensures
        len == cstring(text@).len(),
        len <= usize::MAX + 1,
{
    text.as_bytes().len() as u128 + 1
}

/// The length of a portal's name with its zero byte.
fn portal_len(name: &PortalName) -> (len: u128)
    ensures
        len == cstring(name.spec_name()).len(),
        len <= usize::MAX + 1,
{
    match name.as_option() {
        Some(text) => cstring_len(text),
        None => cstring_len(""),
    }
}

fn param_len(param: &Param) -> (len: u128)
    ensures
        len == param@.wire().len(),
        len <= usize::MAX + 8,
{
    match param {
        Param::Null => 4,
        Param::Int32(_) => 8,
        Param::Text(s) => s.as_str().as_bytes().len() as u128 + 4,
        Param::Bytes(b) => b.len() as u128 + 4,
    }
}

/// The length of the parameters, or `None` if no frame can hold them.
fn params_len(params: &Vec<Param>) -> (len: Option<u128>)
    ensures
        len matches Some(n) ==> n == param_wires(param_models(params@)).len() && n <= u32::MAX,
        len is None ==> param_wires(param_models(params@)).len() > u32::MAX,
{
    let ghost models = param_models(params@);
    let mut total: u128 = 0;
    let mut i: usize = 0;
    assert(models.take(0) =~= seq![]);
    while i < params.len()
        invariant
            i <= params.len(),
            models == param_models(params@),
            total == param_wires(models.take(i as int)).len(),
            total <= u32::MAX,
        decreases params.len() - i,
    {
        total = total + param_len(&params[i]);
        i += 1;
        proof {
            assert(models.take(i as int).drop_last() =~= models.take(i - 1));
            assert(models.take(i as int).last() == params@[i - 1]@);
            lemma_param_wires_grow(models, i as int);
        }
        if total > 0xffff_ffff {
            return None;
        }
    }
    assert(models.take(i as int) =~= models);
    Some(total)
}

/// The length of the section that announces the formats of the parameters.
fn format_section_len(params: &Vec<Param>) -> (len: u128)
    ensures
        len == format_section(param_models(params@)).len(),
        len <= 2 * usize::MAX + 4,
{
    let ghost models = param_models(params@);
    let mut all_text = true;
    let mut all_binary = true;
    let mut i: usize = 0;
    while i < params.len()
        invariant
            i <= params.len(),
            models == param_models(params@),
            all_text == all_in_format(models.take(i as int), FormatCode::Text),
            all_binary == all_in_format(models.take(i as int), FormatCode::Binary),
        decreases params.len() - i,
    {
        let format = params[i].format_code();
        proof {
            let upto = models.take(i + 1);
            assert(upto[i as int] == params@[i as int]@);
            assert forall|f: FormatCode| all_in_format(upto, f) <==> (all_in_format(
                models.take(i as int),
                f,
            ) && format == f) by {
                assert forall|j: int| 0 <= j < i implies #[trigger] upto[j] == models.take(
                    i as int,
                )[j] by {}
                if all_in_format(models.take(i as int), f) && format == f {
                    assert forall|j: int| 0 <= j < upto.len() implies (
                    #[trigger] upto[j]).format() == f by {
                        if j < i {
                            assert(models.take(i as int)[j].format() == f);
                        }
                    }
                }
                if all_in_format(upto, f) {
                    assert forall|j: int| 0 <= j < i implies (#[trigger] models.take(
                        i as int,
                    )[j]).format() == f by {
                        assert(upto[j].format() == f);
                    }
                }
            }
        }
        match format {
            FormatCode::Text => {
                all_binary = false;
            },
            FormatCode::Binary => {
                all_text = false;
            },
        }
        i += 1;
    }
    assert(models.take(i as int) =~= models);
    proof {
        lemma_format_wires_len(models);
    }
    if all_text {
        2
    } else if all_binary {
        4
    } else {
        2 + 2 * (params.len() as u128)
    }
}

/// Whether a Parse fits in a message.
fn parse_fits(name: &StmtName, sql: &String, param_oids: &Vec<Oid>) -> (ok: bool)
    ensures
        ok == fits(
            (OpModel::Parse { name: *name, sql: sql@, param_oids: param_oids@ }).payload(),
        ),
{
    proof {
        lemma_oid_wires_len(param_oids@);
    }
    let names = cstring_len(name.as_str()) + cstring_len(sql.as_str());
    names + 2 + 4 * (param_oids.len() as u128) + 4 <= 0xffff_ffff
}

/// Whether a Bind fits in a message.
fn bind_fits(portal: &PortalName, stmt: &StmtName, params: &Vec<Param>) -> (ok: bool)
    ensures
        ok == fits(
            (OpModel::Bind {
                portal: *portal,
                stmt: *stmt,
                params: param_models(params@),
            }).payload(),
        ),
{
    let names = portal_len(portal) + cstring_len(stmt.as_str());
    let formats = format_section_len(params);
    match params_len(params) {
        Some(values) => names + formats + 2 + values + 2 + 4 <= 0xffff_ffff,
        None => false,
    }
}

/// Whether a message can carry the operation: whether its length fits in the length field.
pub fn fits_frame(op: &FrontendOp) -> (ok: bool)
    ensures
        ok == op@.fits_frame(),
{
    let limit: u128 = 0xffff_ffff - 4;
    match op {
        FrontendOp::Query { sql } => cstring_len(sql.as_str()) <= limit,
        FrontendOp::Parse { name, sql, param_oids } => parse_fits(name, sql, param_oids),
        FrontendOp::Bind { portal, stmt, params } => bind_fits(portal, stmt, params),
        FrontendOp::DescribeStatement { name } => 1 + cstring_len(name.as_str()) <= limit,
        FrontendOp::CloseStatement { name } => 1 + cstring_len(name.as_str()) <= limit,
        FrontendOp::DescribePortal { name } => 1 + portal_len(name) <= limit,
        FrontendOp::ClosePortal { name } => 1 + portal_len(name) <= limit,
        FrontendOp::Execute { portal, .. } => portal_len(portal) + 4 <= limit,
        FrontendOp::CopyData { data } => data.len() as u128 <= limit,
        FrontendOp::CopyFail { message } => cstring_len(message.as_str()) <= limit,
        FrontendOp::Sync => true,
        FrontendOp::Flush => true,
        FrontendOp::CopyDone => true,
        FrontendOp::Terminate => true,
    }
}

// ---------------------------------------------------------------------------
// Laws
// ---------------------------------------------------------------------------

/// The number that four bytes stand for.
pub open spec fn read32(bytes: Seq<u8>) -> int {
    bytes[0] * 0x1_00_00_00 + bytes[1] * 0x1_00_00 + bytes[2] * 0x1_00 + bytes[3]
}

/// Four bytes written are read back as the number they were written for.
pub proof fn law_be32_reads_back(n: u32)
    ensures
        be32(n).len() == 4,
        read32(be32(n)) == n,
{
}

/// Every operation is one well-formed message: a code, a length that counts all but the
/// code, and the payload.
pub proof fn law_wire_is_one_frame(op: OpModel)
    requires
        op.fits_frame(),
    ensures
        op.wire().len() == 5 + op.payload().len(),
        op.wire()[0] == op.code(),
        read32(op.wire().subrange(1, 5)) == op.wire().len() - 1,
        op.wire().skip(5) == op.payload(),
{
    let len = (op.payload().len() + 4) as u32;
    law_be32_reads_back(len);
    assert(op.wire().subrange(1, 5) =~= be32(len));
    assert(op.wire().skip(5) =~= op.payload());
}

/// A reader of the byte stream finds where each message ends: whatever follows, two
/// operations that begin alike are the same bytes.
pub proof fn law_frames_self_delimiting(a: OpModel, b: OpModel, x: Seq<u8>, y: Seq<u8>)
    requires
        a.fits_frame(),
        b.fits_frame(),
        a.wire() + x == b.wire() + y,
    ensures
        a.wire() == b.wire(),
        x == y,
{
    law_wire_is_one_frame(a);
    law_wire_is_one_frame(b);
    let whole = a.wire() + x;
    assert(whole.subrange(1, 5) =~= a.wire().subrange(1, 5));
    assert(whole.subrange(1, 5) =~= b.wire().subrange(1, 5));
    let n = a.wire().len() as int;
    assert(b.wire().len() == n);
    assert(whole.take(n) =~= a.wire());
    assert(whole.take(n) =~= b.wire());
    assert(whole.skip(n) =~= x);
    assert(whole.skip(n) =~= y);
}

/// Encoding works operation by operation.
pub proof fn law_wires_concat(first: Seq<OpModel>, second: Seq<OpModel>)
    ensures
        op_wires(first + second) == op_wires(first) + op_wires(second),
    decreases second.len(),
{
    if second.len() == 0 {
        assert(first + second =~= first);
        assert(op_wires(first) + op_wires(second) =~= op_wires(first));
    } else {
        law_wires_concat(first, second.drop_last());
        assert((first + second).drop_last() =~= first + second.drop_last());
        assert(op_wires(first + second) =~= op_wires(first) + op_wires(second));
    }
}

/// The number that two bytes stand for.
pub open spec fn read16(bytes: Seq<u8>) -> int {
    bytes[0] * 0x100 + bytes[1]
}

/// Two bytes written are read back as the number they were written for.
pub proof fn law_be16_reads_back(n: u16)
    ensures
        be16(n).len() == 2,
        read16(be16(n)) == n,
{
}

/// A signed number travels as it is where it is not negative, and with two to the power of 32 added
/// where it is. A count that the format has room for travels as it is, and of a larger one the low
/// bytes.
pub proof fn law_numbers_on_the_wire(v: i32, n: nat)
    ensures
        v >= 0 ==> bits32(v) == v,
        v < 0 ==> bits32(v) == v + 0x1_0000_0000,
        n < 0x1_0000 ==> count16(n) == n,
        count16(n) == n as int % 0x1_0000,
        n < 0x1_0000_0000 ==> count32(n) == n,
        count32(n) == n as int % 0x1_0000_0000,
{
}

/// A text is sent in UTF-8, all of it, with one zero byte behind it.
pub proof fn law_text_ends_with_zero(text: Seq<char>)
    ensures
        cstring(text).len() == encode_utf8(text).len() + 1,
        cstring(text).take(encode_utf8(text).len() as int) == encode_utf8(text),
        cstring(text).last() == 0,
{
    assert(cstring(text).take(encode_utf8(text).len() as int) =~= encode_utf8(text));
}

/// Each message starts with the letter that the protocol has for it.
pub proof fn law_message_starts_with_its_letter(op: OpModel)
    ensures
        op is Query ==> op.wire()[0] == 'Q' as u8,
        op is Parse ==> op.wire()[0] == 'P' as u8,
        op is Bind ==> op.wire()[0] == 'B' as u8,
        op is DescribeStatement || op is DescribePortal ==> op.wire()[0] == 'D' as u8,
        op is Execute ==> op.wire()[0] == 'E' as u8,
        op is CloseStatement || op is ClosePortal ==> op.wire()[0] == 'C' as u8,
        op is Sync ==> op.wire()[0] == 'S' as u8,
        op is Flush ==> op.wire()[0] == 'H' as u8,
        op is CopyData ==> op.wire()[0] == 'd' as u8,
        op is CopyDone ==> op.wire()[0] == 'c' as u8,
        op is CopyFail ==> op.wire()[0] == 'f' as u8,
        op is Terminate ==> op.wire()[0] == 'X' as u8,
{
}

/// A message carries all that its operation holds, in the order of the protocol, and nothing else.
pub proof fn law_message_carries_its_operation(op: OpModel)
    ensures
        op matches OpModel::Query { sql } ==> op.payload() == encode_utf8(sql) + seq![0u8],
        op matches OpModel::Parse { name, sql, param_oids } ==> op.payload() == (encode_utf8(
            name.spec_name(),
        ) + seq![0u8]) + (encode_utf8(sql) + seq![0u8]) + be16(count16(param_oids.len()))
            + oid_wires(param_oids),
        op matches OpModel::Bind { portal, stmt, params } ==> op.payload() == (encode_utf8(
            portal.spec_name(),
        ) + seq![0u8]) + (encode_utf8(stmt.spec_name()) + seq![0u8]) + format_section(params)
            + be16(count16(params.len())) + param_wires(params) + seq![0u8, 0u8],
        op matches OpModel::DescribeStatement { name } ==> op.payload() == seq!['S' as u8]
            + encode_utf8(name.spec_name()) + seq![0u8],
        op matches OpModel::DescribePortal { name } ==> op.payload() == seq!['P' as u8]
            + encode_utf8(name.spec_name()) + seq![0u8],
        op matches OpModel::Execute { portal, max_rows } ==> op.payload() == encode_utf8(
            portal.spec_name(),
        ) + seq![0u8] + be32(max_rows),
        op matches OpModel::CloseStatement { name } ==> op.payload() == seq!['S' as u8]
            + encode_utf8(name.spec_name()) + seq![0u8],
        op matches OpModel::ClosePortal { name } ==> op.payload() == seq!['P' as u8]
            + encode_utf8(name.spec_name()) + seq![0u8],
        op is Sync || op is Flush || op is CopyDone || op is Terminate ==> op.payload().len() == 0,
        op matches OpModel::CopyData { data } ==> op.payload() == data,
        op matches OpModel::CopyFail { message } ==> op.payload() == encode_utf8(message)
            + seq![0u8],
{
    assert(be16(0) =~= seq![0u8, 0u8]);
    match op {
        OpModel::Query { sql } => {
            assert(op.payload() =~= encode_utf8(sql) + seq![0u8]);
        },
        OpModel::Parse { name, sql, .. } => {
            assert(cstring(name.spec_name()) =~= encode_utf8(name.spec_name()) + seq![0u8]);
            assert(cstring(sql) =~= encode_utf8(sql) + seq![0u8]);
        },
        OpModel::Bind { portal, stmt, .. } => {
            assert(cstring(portal.spec_name()) =~= encode_utf8(portal.spec_name()) + seq![0u8]);
            assert(cstring(stmt.spec_name()) =~= encode_utf8(stmt.spec_name()) + seq![0u8]);
        },
        OpModel::DescribeStatement { name } => {
            assert(op.payload() =~= seq!['S' as u8] + encode_utf8(name.spec_name()) + seq![0u8]);
        },
        OpModel::DescribePortal { name } => {
            assert(op.payload() =~= seq!['P' as u8] + encode_utf8(name.spec_name()) + seq![0u8]);
        },
        OpModel::Execute { portal, max_rows } => {
            assert(op.payload() =~= encode_utf8(portal.spec_name()) + seq![0u8] + be32(max_rows));
        },
        OpModel::CloseStatement { name } => {
            assert(op.payload() =~= seq!['S' as u8] + encode_utf8(name.spec_name()) + seq![0u8]);
        },
        OpModel::ClosePortal { name } => {
            assert(op.payload() =~= seq!['P' as u8] + encode_utf8(name.spec_name()) + seq![0u8]);
        },
        OpModel::CopyFail { message } => {
            assert(op.payload() =~= encode_utf8(message) + seq![0u8]);
        },
        _ => {},
    }
}

/// A parameter travels as its length and its bytes. NULL has a length of minus one and no bytes, a
/// number the four bytes that stand for it, a text its UTF-8, and bytes are sent as they are. Text
/// travels in text format, and all else in binary format.
pub proof fn law_parameter_travels_with_its_length(param: ParamModel)
    ensures
        param is Null ==> param.wire() == seq![255u8, 255u8, 255u8, 255u8],
        param matches ParamModel::Int32(v) ==> param.wire() == seq![0u8, 0u8, 0u8, 4u8] + be32(
            bits32(v),
        ),
        param matches ParamModel::Text(s) ==> param.wire() == be32(count32(encode_utf8(s).len()))
            + encode_utf8(s),
        param matches ParamModel::Bytes(b) ==> param.wire() == be32(count32(b.len())) + b,
        param.format() == FormatCode::Text <==> param is Text,
        param.format() == FormatCode::Binary <==> param is Null || param is Int32 || param
            is Bytes,
        FormatCode::Text.number() == 0,
        FormatCode::Binary.number() == 1,
{
    assert(be32(0xffff_ffff) =~= seq![255u8, 255u8, 255u8, 255u8]);
    assert(be32(4) =~= seq![0u8, 0u8, 0u8, 4u8]);
}

/// A Bind announces no format where all parameters are text, the binary format once where none is
/// and there are some, and otherwise how many there are and the format of each.
pub proof fn law_formats_announced(params: Seq<ParamModel>)
    ensures
        (forall|i: int| 0 <= i < params.len() ==> #[trigger] params[i] is Text) ==> format_section(
            params,
        ) == seq![0u8, 0u8],
        params.len() > 0 && (forall|i: int|
            0 <= i < params.len() ==> !(#[trigger] params[i] is Text)) ==> format_section(params)
            == seq![0u8, 1u8, 0u8, 1u8],
        (exists|i: int| 0 <= i < params.len() && #[trigger] params[i] is Text) && (exists|i: int|
            0 <= i < params.len() && !(#[trigger] params[i] is Text)) ==> format_section(params)
            == be16(count16(params.len())) + format_wires(params),
{
    assert(be16(0) =~= seq![0u8, 0u8]);
    assert(be16(1) + be16(1) =~= seq![0u8, 1u8, 0u8, 1u8]);
    assert forall|i: int| 0 <= i < params.len() implies ((#[trigger] params[i]).format()
        == FormatCode::Text <==> params[i] is Text) by {}
    if exists|i: int| 0 <= i < params.len() && #[trigger] params[i] is Text {
        let i = choose|i: int| 0 <= i < params.len() && #[trigger] params[i] is Text;
        assert(params[i].format() != FormatCode::Binary);
    }
    if exists|i: int| 0 <= i < params.len() && !(#[trigger] params[i] is Text) {
        let i = choose|i: int| 0 <= i < params.len() && !(#[trigger] params[i] is Text);
        assert(params[i].format() != FormatCode::Text);
    }
    if params.len() > 0 {
        assert(params[0].format() == FormatCode::Text || params[0].format()
            == FormatCode::Binary);
    }
}

/// Whatever a message lists, it lists one for one and in order: a further operation, parameter,
/// parameter type or format adds its own bytes at the end.
pub proof fn law_lists_sent_one_by_one(
    ops: Seq<OpModel>,
    op: OpModel,
    params: Seq<ParamModel>,
    param: ParamModel,
    oids: Seq<Oid>,
    oid: Oid,
)
    ensures
        op_wires(seq![]) == Seq::<u8>::empty(),
        op_wires(ops.push(op)) == op_wires(ops) + op.wire(),
        param_wires(seq![]) == Seq::<u8>::empty(),
        param_wires(params.push(param)) == param_wires(params) + param.wire(),
        oid_wires(seq![]) == Seq::<u8>::empty(),
        oid_wires(oids.push(oid)) == oid_wires(oids) + be32(oid),
        format_wires(seq![]) == Seq::<u8>::empty(),
        format_wires(params.push(param)) == format_wires(params) + be16(param.format().number()),
{
    assert(ops.push(op).drop_last() =~= ops);
    assert(params.push(param).drop_last() =~= params);
    assert(oids.push(oid).drop_last() =~= oids);
}

/// An operation fits in a message exactly where the length of its payload and of the length field
/// is a number that the length field can hold.
pub proof fn law_fits_where_the_length_does(op: OpModel)
    ensures
        op.fits_frame() <==> op.payload().len() + 4 < 0x1_0000_0000,
{
}

} // verus!
