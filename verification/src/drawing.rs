//! Draws single operations from templates.

use crate::op::{param_models, FrontendOp, OpModel, Param, ParamModel, PortalName, StmtName};
use crate::profile::{all_in, COPY};
use crate::random::{
    draw_i32, draw_ratio, draw_u32, draw_u8, draw_usize, drawn_i32, drawn_ratio, drawn_u32,
    drawn_u8, drawn_usize, generator_state,
};
use crate::template::{
    enabled_models, law_enabled_iff_tags_enabled, registry, template_models, Affinity, SqlEntry,
    TemplateModel,
};
use crate::text::{
    contains_text, decimal, has_substring, lemma_push_contains, occurs_at, push_decimal,
};
use rand::rngs::StdRng;
use vstd::prelude::*;

verus! {

// ---------------------------------------------------------------------------
// Names
// ---------------------------------------------------------------------------

/// A statement name from the pool.
pub open spec fn stmt_name_drawn(state: nat) -> (StmtName, nat) {
    let (index, behind) = drawn_usize(state, 0, 3);
    (StmtName::pool()[index as int], behind)
}

/// A portal name from the pool.
pub open spec fn portal_name_drawn(state: nat) -> (PortalName, nat) {
    let (index, behind) = drawn_usize(state, 0, 3);
    (PortalName::pool()[index as int], behind)
}

/// Draws a statement name from the pool.
pub fn random_stmt_name(rng: &mut StdRng) -> (name: StmtName)
    ensures
        (name, generator_state(*final(rng))) == stmt_name_drawn(generator_state(*old(rng))),
{
    let index = draw_usize(rng, 0, StmtName::pool_len());
    StmtName::at(index)
}

/// Draws a portal name from the pool.
pub fn random_portal_name(rng: &mut StdRng) -> (name: PortalName)
    ensures
        (name, generator_state(*final(rng))) == portal_name_drawn(generator_state(*old(rng))),
{
    let index = draw_usize(rng, 0, PortalName::pool_len());
    PortalName::at(index)
}

// ---------------------------------------------------------------------------
// Templates
// ---------------------------------------------------------------------------

/// A template suits a protocol path, or any path where none is asked for.
pub open spec fn suits(affinity: Affinity, filter: Option<Affinity>) -> bool {
    match filter {
        None => true,
        Some(Affinity::Any) => true,
        Some(wanted) => affinity == wanted || affinity == Affinity::Any,
    }
}

/// The templates that suit a protocol path, in order.
pub open spec fn suitable(
    templates: Seq<TemplateModel>,
    filter: Option<Affinity>,
) -> Seq<TemplateModel>
    decreases templates.len(),
{
    if templates.len() == 0 {
        seq![]
    } else {
        let before = suitable(templates.drop_last(), filter);
        if suits(templates.last().affinity, filter) {
            before.push(templates.last())
        } else {
            before
        }
    }
}

/// What is drawn from for a protocol path: the templates that suit it, or all where none does.
pub open spec fn draw_pool(
    templates: Seq<TemplateModel>,
    filter: Option<Affinity>,
) -> Seq<TemplateModel> {
    let fitting = suitable(templates, filter);
    if fitting.len() == 0 {
        templates
    } else {
        fitting
    }
}

/// A template for a protocol path.
pub open spec fn template_drawn(
    templates: Seq<TemplateModel>,
    filter: Option<Affinity>,
    state: nat,
) -> (TemplateModel, nat) {
    let pool = draw_pool(templates, filter);
    let (index, behind) = drawn_usize(state, 0, pool.len() as usize);
    (pool[index as int], behind)
}

/// The templates that are drawn from for a protocol path.
pub fn template_pool(templates: &[SqlEntry], filter: Option<Affinity>) -> (pool: Vec<SqlEntry>)
    ensures
        template_models(pool@) == draw_pool(template_models(templates@), filter),
{
    let ghost models = template_models(templates@);
    let mut fitting: Vec<SqlEntry> = Vec::new();
    let mut i: usize = 0;
    assert(models.take(0) =~= seq![]);
    assert(template_models(fitting@) =~= seq![]);
    while i < templates.len()
        invariant
            i <= templates.len(),
            models == template_models(templates@),
            template_models(fitting@) == suitable(models.take(i as int), filter),
        decreases templates.len() - i,
    {
        let entry = templates[i];
        let ghost before = fitting@;
        let fits = match filter {
            None => true,
            Some(wanted) => wanted == Affinity::Any || entry.affinity == wanted || entry.affinity
                == Affinity::Any,
        };
        proof {
            assert(models.take(i + 1).drop_last() =~= models.take(i as int));
            assert(models.take(i + 1).last() == entry@);
        }
        if fits {
            fitting.push(entry);
            assert(template_models(fitting@) =~= template_models(before).push(entry@));
        }
        i += 1;
    }
    assert(models.take(i as int) =~= models);
    if fitting.len() == 0 {
        assert(suitable(models, filter).len() == 0);
        let mut all: Vec<SqlEntry> = Vec::new();
        let mut k: usize = 0;
        while k < templates.len()
            invariant
                k <= templates.len(),
                all@ =~= templates@.take(k as int),
            decreases templates.len() - k,
        {
            all.push(templates[k]);
            k += 1;
        }
        assert(all@ =~= templates@);
        return all;
    }
    assert(template_models(fitting@).len() == fitting@.len());
    fitting
}

/// Draws a template for a protocol path.
pub fn random_template(
    templates: &[SqlEntry],
    filter: Option<Affinity>,
    rng: &mut StdRng,
) -> (entry: SqlEntry)
    requires
        templates@.len() > 0,
    ensures
        (entry@, generator_state(*final(rng))) == template_drawn(
            template_models(templates@),
            filter,
            generator_state(*old(rng)),
        ),
        draw_pool(template_models(templates@), filter).contains(entry@),
{
    let pool = template_pool(templates, filter);
    assert(template_models(pool@).len() == pool@.len());
    let index = draw_usize(rng, 0, pool.len());
    assert(template_models(pool@)[index as int] == pool@[index as int]@);
    pool[index]
}

// ---------------------------------------------------------------------------
// Parameters
// ---------------------------------------------------------------------------

/// Which kind of parameter is made.
#[derive(Debug, Clone, Copy, PartialEq, Eq, Structural)]
pub enum ParamKind {
    Null,
    Int32,
    Text,
    Bytes,
}

/// The kind of parameter for a number below a hundred.
pub open spec fn param_kind_of(choice: u32) -> ParamKind {
    if choice < 10 {
        ParamKind::Null
    } else if choice < 50 {
        ParamKind::Int32
    } else if choice < 90 {
        ParamKind::Text
    } else {
        ParamKind::Bytes
    }
}

/// Decides which kind of parameter is made.
pub fn param_kind(choice: u32) -> (kind: ParamKind)
    ensures
        kind == param_kind_of(choice),
{
    if choice < 10 {
        ParamKind::Null
    } else if choice < 50 {
        ParamKind::Int32
    } else if choice < 90 {
        ParamKind::Text
    } else {
        ParamKind::Bytes
    }
}

/// The text parameter for a number.
pub open spec fn text_param(number: int) -> ParamModel {
    ParamModel::Text("v"@ + decimal(number as nat))
}

/// The byte parameter of one byte repeated.
pub open spec fn bytes_param(byte: u8, count: nat) -> ParamModel {
    ParamModel::Bytes(Seq::new(count, |i: int| byte))
}

/// A bind parameter.
pub open spec fn param_drawn(state: nat) -> (ParamModel, nat) {
    let (choice, chosen) = drawn_u32(state, 0, 100);
    match param_kind_of(choice) {
        ParamKind::Null => (ParamModel::Null, chosen),
        ParamKind::Int32 => {
            let (value, behind) = drawn_i32(chosen, -100i32, 100);
            (ParamModel::Int32(value), behind)
        },
        ParamKind::Text => {
            let (number, behind) = drawn_i32(chosen, 0, 100);
            (text_param(number as int), behind)
        },
        ParamKind::Bytes => {
            let (byte, filled) = drawn_u8(chosen);
            let (count, behind) = drawn_usize(filled, 0, 8);
            (bytes_param(byte, count as nat), behind)
        },
    }
}

/// What every parameter that is drawn looks like.
pub open spec fn param_drawable(param: ParamModel) -> bool {
    match param {
        ParamModel::Null => true,
        ParamModel::Int32(value) => -100 <= value < 100,
        ParamModel::Text(text) => exists|number: int|
            0 <= number < 100 && #[trigger] text_param(number) == ParamModel::Text(text),
        ParamModel::Bytes(bytes) => bytes.len() < 8 && forall|i: int, j: int|
            0 <= i < bytes.len() && 0 <= j < bytes.len() ==> bytes[i] == bytes[j],
    }
}

/// Draws a bind parameter.
pub fn random_param(rng: &mut StdRng) -> (param: Param)
    ensures
        (param@, generator_state(*final(rng))) == param_drawn(generator_state(*old(rng))),
        param_drawable(param@),
{
    let choice = draw_u32(rng, 0, 100);
    match param_kind(choice) {
        ParamKind::Null => Param::Null,
        ParamKind::Int32 => Param::Int32(draw_i32(rng, -100, 100)),
        ParamKind::Text => {
            let number = draw_i32(rng, 0, 100);
            let mut text = String::new();
            text.append("v");
            push_decimal(&mut text, number as u64);
            assert(text@ =~= "v"@ + decimal(number as nat));
            assert(text_param(number as int) == ParamModel::Text(text@));
            Param::Text(text)
        },
        ParamKind::Bytes => {
            let byte = draw_u8(rng);
            let count = draw_usize(rng, 0, 8);
            let mut bytes: Vec<u8> = Vec::new();
            while bytes.len() < count
                invariant
                    bytes@.len() <= count,
                    forall|i: int| 0 <= i < bytes@.len() ==> bytes@[i] == byte,
                decreases count - bytes.len(),
            {
                bytes.push(byte);
            }
            assert(bytes@ =~= Seq::new(count as nat, |i: int| byte));
            Param::Bytes(bytes)
        },
    }
}

/// Bind parameters, one after the other.
pub open spec fn params_drawn(count: nat, state: nat) -> (Seq<ParamModel>, nat)
    decreases count,
{
    if count == 0 {
        (seq![], state)
    } else {
        let (before, between) = params_drawn((count - 1) as nat, state);
        let (param, behind) = param_drawn(between);
        (before.push(param), behind)
    }
}

/// Draws bind parameters.
pub fn random_params(count: usize, rng: &mut StdRng) -> (params: Vec<Param>)
    ensures
        (param_models(params@), generator_state(*final(rng))) == params_drawn(
            count as nat,
            generator_state(*old(rng)),
        ),
        params@.len() == count,
        forall|i: int|
            0 <= i < params@.len() ==> param_drawable(#[trigger] param_models(params@)[i]),
{
    let mut params: Vec<Param> = Vec::new();
    assert(param_models(params@) =~= seq![]);
    while params.len() < count
        invariant
            params@.len() <= count,
            (param_models(params@), generator_state(*rng)) == params_drawn(
                params@.len(),
                generator_state(*old(rng)),
            ),
            forall|i: int|
                0 <= i < params@.len() ==> param_drawable(#[trigger] param_models(params@)[i]),
        decreases count - params.len(),
    {
        let ghost before = params@;
        let param = random_param(rng);
        let ghost model = param@;
        params.push(param);
        assert(param_models(params@) =~= param_models(before).push(model));
    }
    params
}

// ---------------------------------------------------------------------------
// Operations
// ---------------------------------------------------------------------------

/// Which kind of operation is made.
#[derive(Debug, Clone, Copy, PartialEq, Eq, Structural)]
pub enum OpKind {
    Query,
    Parse,
    Bind,
    DescribeStatement,
    DescribePortal,
    Execute,
    CloseStatement,
    ClosePortal,
    Sync,
    Flush,
    CopyData,
    CopyDone,
    CopyFail,
    Terminate,
}

/// The templates for the simple query path.
pub open spec fn simple_pool(templates: Seq<TemplateModel>) -> Seq<TemplateModel> {
    draw_pool(templates, Some(Affinity::Simple))
}

/// The templates for the extended query path.
pub open spec fn extended_pool(templates: Seq<TemplateModel>) -> Seq<TemplateModel> {
    draw_pool(templates, Some(Affinity::Extended))
}

/// A Parse of a template, which leaves the parameter types to the server.
pub open spec fn parse_drawn(templates: Seq<TemplateModel>, state: nat) -> (OpModel, nat) {
    let (template, picked) = template_drawn(templates, Some(Affinity::Extended), state);
    let (name, behind) = stmt_name_drawn(picked);
    (OpModel::Parse { name, sql: template.sql, param_oids: seq![] }, behind)
}

/// A Bind with as many parameters as a template has.
pub open spec fn bind_drawn(templates: Seq<TemplateModel>, state: nat) -> (OpModel, nat) {
    let (template, picked) = template_drawn(templates, Some(Affinity::Extended), state);
    let (portal, named) = portal_name_drawn(picked);
    let (stmt, bound) = stmt_name_drawn(named);
    let (params, behind) = params_drawn(template.param_count as nat, bound);
    (OpModel::Bind { portal, stmt, params }, behind)
}

/// An Execute, four times out of five without a row limit.
pub open spec fn execute_drawn(state: nat) -> (OpModel, nat) {
    let (portal, named) = portal_name_drawn(state);
    let (unlimited, decided) = drawn_ratio(named, 4, 5);
    if unlimited {
        (OpModel::Execute { portal, max_rows: 0 }, decided)
    } else {
        let (max_rows, behind) = drawn_u32(decided, 1, 10);
        (OpModel::Execute { portal, max_rows }, behind)
    }
}

/// A Query of a template.
pub open spec fn query_drawn(templates: Seq<TemplateModel>, state: nat) -> (OpModel, nat) {
    let (template, behind) = template_drawn(templates, Some(Affinity::Simple), state);
    (OpModel::Query { sql: template.sql }, behind)
}

/// What is sent as COPY data: one row.
pub open spec fn copy_row() -> Seq<u8> {
    seq![49u8, 10u8]
}

/// An operation of a kind.
pub open spec fn made(kind: OpKind, templates: Seq<TemplateModel>, state: nat) -> (OpModel, nat) {
    match kind {
        OpKind::Query => query_drawn(templates, state),
        OpKind::Parse => parse_drawn(templates, state),
        OpKind::Bind => bind_drawn(templates, state),
        OpKind::DescribeStatement => {
            let (name, behind) = stmt_name_drawn(state);
            (OpModel::DescribeStatement { name }, behind)
        },
        OpKind::DescribePortal => {
            let (name, behind) = portal_name_drawn(state);
            (OpModel::DescribePortal { name }, behind)
        },
        OpKind::Execute => execute_drawn(state),
        OpKind::CloseStatement => {
            let (name, behind) = stmt_name_drawn(state);
            (OpModel::CloseStatement { name }, behind)
        },
        OpKind::ClosePortal => {
            let (name, behind) = portal_name_drawn(state);
            (OpModel::ClosePortal { name }, behind)
        },
        OpKind::Sync => (OpModel::Sync, state),
        OpKind::Flush => (OpModel::Flush, state),
        OpKind::CopyData => (OpModel::CopyData { data: copy_row() }, state),
        OpKind::CopyDone => (OpModel::CopyDone, state),
        OpKind::CopyFail => (OpModel::CopyFail { message: "abort"@ }, state),
        OpKind::Terminate => (OpModel::Terminate, state),
    }
}

/// The SQL is that of one of the templates.
pub open spec fn has_sql(templates: Seq<TemplateModel>, sql: Seq<char>) -> bool {
    exists|i: int| 0 <= i < templates.len() && (#[trigger] templates[i]).sql == sql
}

/// One of the templates takes this many parameters.
pub open spec fn has_param_count(templates: Seq<TemplateModel>, count: nat) -> bool {
    exists|i: int| 0 <= i < templates.len() && (#[trigger] templates[i]).param_count == count
}

/// What every operation that is drawn looks like: its SQL is that of a template for its
/// protocol path, it has as many parameters as a template takes, and COPY data and failures
/// are those of the one COPY that is known.
pub open spec fn op_drawable(op: OpModel, templates: Seq<TemplateModel>) -> bool {
    match op {
        OpModel::Query { sql } => has_sql(simple_pool(templates), sql),
        OpModel::Parse { sql, param_oids, .. } => has_sql(extended_pool(templates), sql)
            && param_oids.len() == 0,
        OpModel::Bind { params, .. } => has_param_count(extended_pool(templates), params.len())
            && forall|i: int| 0 <= i < params.len() ==> param_drawable(#[trigger] params[i]),
        OpModel::Execute { max_rows, .. } => max_rows < 10,
        OpModel::CopyData { data } => data == copy_row(),
        OpModel::CopyFail { message } => message == "abort"@,
        _ => true,
    }
}

/// Draws a Parse.
pub fn random_parse(templates: &[SqlEntry], rng: &mut StdRng) -> (op: FrontendOp)
    requires
        templates@.len() > 0,
    ensures
        (op@, generator_state(*final(rng))) == parse_drawn(
            template_models(templates@),
            generator_state(*old(rng)),
        ),
        op_drawable(op@, template_models(templates@)),
{
    let template = random_template(templates, Some(Affinity::Extended), rng);
    let name = random_stmt_name(rng);
    let param_oids: Vec<u32> = Vec::new();
    assert(param_oids@ =~= seq![]);
    FrontendOp::Parse { name, sql: template.sql.to_owned(), param_oids }
}

/// Draws a Bind.
pub fn random_bind(templates: &[SqlEntry], rng: &mut StdRng) -> (op: FrontendOp)
    requires
        templates@.len() > 0,
    ensures
        (op@, generator_state(*final(rng))) == bind_drawn(
            template_models(templates@),
            generator_state(*old(rng)),
        ),
        op_drawable(op@, template_models(templates@)),
{
    let template = random_template(templates, Some(Affinity::Extended), rng);
    let portal = random_portal_name(rng);
    let stmt = random_stmt_name(rng);
    let params = random_params(template.param_count, rng);
    FrontendOp::Bind { portal, stmt, params }
}

/// Draws an Execute.
pub fn random_execute(rng: &mut StdRng) -> (op: FrontendOp)
    ensures
        (op@, generator_state(*final(rng))) == execute_drawn(generator_state(*old(rng))),
        op@ matches OpModel::Execute { max_rows, .. } && max_rows < 10,
{
    let portal = random_portal_name(rng);
    let max_rows = if draw_ratio(rng, 4, 5) {
        0
    } else {
        draw_u32(rng, 1, 10)
    };
    FrontendOp::Execute { portal, max_rows }
}

/// Draws a Query.
pub fn random_query(templates: &[SqlEntry], rng: &mut StdRng) -> (op: FrontendOp)
    requires
        templates@.len() > 0,
    ensures
        (op@, generator_state(*final(rng))) == query_drawn(
            template_models(templates@),
            generator_state(*old(rng)),
        ),
        op_drawable(op@, template_models(templates@)),
{
    let template = random_template(templates, Some(Affinity::Simple), rng);
    FrontendOp::Query { sql: template.sql.to_owned() }
}

/// Makes an operation of a kind.
pub fn make_op(kind: OpKind, templates: &[SqlEntry], rng: &mut StdRng) -> (op: FrontendOp)
    requires
        templates@.len() > 0,
    ensures
        (op@, generator_state(*final(rng))) == made(
            kind,
            template_models(templates@),
            generator_state(*old(rng)),
        ),
        op_drawable(op@, template_models(templates@)),
{
    match kind {
        OpKind::Query => random_query(templates, rng),
        OpKind::Parse => random_parse(templates, rng),
        OpKind::Bind => random_bind(templates, rng),
        OpKind::DescribeStatement => FrontendOp::DescribeStatement { name: random_stmt_name(rng) },
        OpKind::DescribePortal => FrontendOp::DescribePortal { name: random_portal_name(rng) },
        OpKind::Execute => random_execute(rng),
        OpKind::CloseStatement => FrontendOp::CloseStatement { name: random_stmt_name(rng) },
        OpKind::ClosePortal => FrontendOp::ClosePortal { name: random_portal_name(rng) },
        OpKind::Sync => FrontendOp::Sync,
        OpKind::Flush => FrontendOp::Flush,
        OpKind::CopyData => {
            let data: Vec<u8> = vec![49u8, 10u8];
            assert(data@ =~= copy_row());
            FrontendOp::CopyData { data }
        },
        OpKind::CopyDone => FrontendOp::CopyDone,
        OpKind::CopyFail => FrontendOp::CopyFail { message: "abort".to_owned() },
        OpKind::Terminate => FrontendOp::Terminate,
    }
}

// ---------------------------------------------------------------------------
// Which operation comes next
// ---------------------------------------------------------------------------

/// The kind of operation for a number below a hundred, regardless of protocol state. The
/// operations of the extended protocol come up more often than simple queries.
pub open spec fn any_kind_of(choice: u32) -> OpKind {
    if choice < 15 {
        OpKind::Parse
    } else if choice < 30 {
        OpKind::Bind
    } else if choice < 45 {
        OpKind::Execute
    } else if choice < 55 {
        OpKind::Sync
    } else if choice < 65 {
        OpKind::Query
    } else if choice < 72 {
        OpKind::DescribeStatement
    } else if choice < 79 {
        OpKind::DescribePortal
    } else if choice < 86 {
        OpKind::CloseStatement
    } else if choice < 93 {
        OpKind::ClosePortal
    } else if choice < 97 {
        OpKind::Flush
    } else if choice < 99 {
        OpKind::CopyDone
    } else if choice < 100 {
        OpKind::Terminate
    } else {
        OpKind::Sync
    }
}

/// Decides which operation comes next, regardless of protocol state.
pub fn any_kind(choice: u32) -> (kind: OpKind)
    ensures
        kind == any_kind_of(choice),
{
    if choice < 15 {
        OpKind::Parse
    } else if choice < 30 {
        OpKind::Bind
    } else if choice < 45 {
        OpKind::Execute
    } else if choice < 55 {
        OpKind::Sync
    } else if choice < 65 {
        OpKind::Query
    } else if choice < 72 {
        OpKind::DescribeStatement
    } else if choice < 79 {
        OpKind::DescribePortal
    } else if choice < 86 {
        OpKind::CloseStatement
    } else if choice < 93 {
        OpKind::ClosePortal
    } else if choice < 97 {
        OpKind::Flush
    } else if choice < 99 {
        OpKind::CopyDone
    } else if choice < 100 {
        OpKind::Terminate
    } else {
        OpKind::Sync
    }
}

/// Where a sequence stands in the protocol, loosely.
#[derive(Debug, Clone, Copy, PartialEq, Eq, Structural)]
pub enum ProtoState {
    Idle,
    Extended,
    CopyIn,
}

/// The kind of operation for a number below a hundred within the extended protocol.
pub open spec fn extended_kind_of(choice: u32) -> OpKind {
    if choice < 25 {
        OpKind::Bind
    } else if choice < 45 {
        OpKind::Execute
    } else if choice < 55 {
        OpKind::DescribeStatement
    } else if choice < 65 {
        OpKind::DescribePortal
    } else if choice < 70 {
        OpKind::Flush
    } else if choice < 80 {
        OpKind::Sync
    } else if choice < 88 {
        OpKind::CloseStatement
    } else if choice < 95 {
        OpKind::ClosePortal
    } else if choice < 100 {
        OpKind::Query
    } else {
        OpKind::Sync
    }
}

/// The protocol state behind that operation: a Sync ends the extended protocol.
pub open spec fn behind_extended(choice: u32) -> ProtoState {
    if 70 <= choice < 80 {
        ProtoState::Idle
    } else {
        ProtoState::Extended
    }
}

/// Decides which operation comes next within the extended protocol.
pub fn extended_kind(choice: u32) -> (next: (OpKind, ProtoState))
    ensures
        next == (extended_kind_of(choice), behind_extended(choice)),
{
    if choice < 25 {
        (OpKind::Bind, ProtoState::Extended)
    } else if choice < 45 {
        (OpKind::Execute, ProtoState::Extended)
    } else if choice < 55 {
        (OpKind::DescribeStatement, ProtoState::Extended)
    } else if choice < 65 {
        (OpKind::DescribePortal, ProtoState::Extended)
    } else if choice < 70 {
        (OpKind::Flush, ProtoState::Extended)
    } else if choice < 80 {
        (OpKind::Sync, ProtoState::Idle)
    } else if choice < 88 {
        (OpKind::CloseStatement, ProtoState::Extended)
    } else if choice < 95 {
        (OpKind::ClosePortal, ProtoState::Extended)
    } else if choice < 100 {
        // A simple query in the middle of the extended protocol is deliberate.
        (OpKind::Query, ProtoState::Extended)
    } else {
        (OpKind::Sync, ProtoState::Extended)
    }
}

/// The kind of operation for a number below a hundred within a COPY.
pub open spec fn copy_kind_of(choice: u32) -> OpKind {
    if choice < 40 {
        OpKind::CopyData
    } else if choice < 70 {
        OpKind::CopyDone
    } else if choice < 85 {
        OpKind::CopyFail
    } else if choice < 100 {
        OpKind::Sync
    } else {
        OpKind::CopyDone
    }
}

/// The protocol state behind that operation: all but data ends the COPY.
pub open spec fn behind_copy(choice: u32) -> ProtoState {
    if 40 <= choice < 100 {
        ProtoState::Idle
    } else {
        ProtoState::CopyIn
    }
}

/// Decides which operation comes next within a COPY.
pub fn copy_kind(choice: u32) -> (next: (OpKind, ProtoState))
    ensures
        next == (copy_kind_of(choice), behind_copy(choice)),
{
    if choice < 40 {
        (OpKind::CopyData, ProtoState::CopyIn)
    } else if choice < 70 {
        (OpKind::CopyDone, ProtoState::Idle)
    } else if choice < 85 {
        (OpKind::CopyFail, ProtoState::Idle)
    } else if choice < 100 {
        // A Sync in the middle of a COPY is deliberate.
        (OpKind::Sync, ProtoState::Idle)
    } else {
        (OpKind::CopyDone, ProtoState::CopyIn)
    }
}

/// Any operation, regardless of protocol state.
pub open spec fn op_drawn(templates: Seq<TemplateModel>, state: nat) -> (OpModel, nat) {
    let (choice, chosen) = drawn_u32(state, 0, 100);
    made(any_kind_of(choice), templates, chosen)
}

/// Draws any operation, regardless of protocol state.
pub fn random_op(templates: &[SqlEntry], rng: &mut StdRng) -> (op: FrontendOp)
    requires
        templates@.len() > 0,
    ensures
        (op@, generator_state(*final(rng))) == op_drawn(
            template_models(templates@),
            generator_state(*old(rng)),
        ),
        op_drawable(op@, template_models(templates@)),
        !(op@ is CopyData) && !(op@ is CopyFail),
{
    let choice = draw_u32(rng, 0, 100);
    make_op(any_kind(choice), templates, rng)
}

/// The template starts a COPY to the server through a simple query.
pub open spec fn starts_copy_in(template: TemplateModel) -> bool {
    has_substring(template.sql, "FROM STDIN"@) && template.affinity == Affinity::Simple
}

/// The first template that starts a COPY to the server.
pub open spec fn copy_in_template(templates: Seq<TemplateModel>) -> Option<TemplateModel>
    decreases templates.len(),
{
    if templates.len() == 0 {
        None
    } else {
        match copy_in_template(templates.drop_last()) {
            Some(earlier) => Some(earlier),
            None => if starts_copy_in(templates.last()) {
                Some(templates.last())
            } else {
                None
            },
        }
    }
}

/// Finds the first template that starts a COPY to the server.
pub fn find_copy_in(templates: &[SqlEntry]) -> (found: Option<SqlEntry>)
    ensures
        (match found {
            Some(entry) => Some(entry@),
            None => None,
        }) == copy_in_template(template_models(templates@)),
        found matches Some(entry) ==> starts_copy_in(entry@) && template_models(
            templates@,
        ).contains(entry@),
{
    let ghost models = template_models(templates@);
    let mut i: usize = 0;
    assert(models.take(0) =~= seq![]);
    while i < templates.len()
        invariant
            i <= templates.len(),
            models == template_models(templates@),
            copy_in_template(models.take(i as int)) is None,
        decreases templates.len() - i,
    {
        let entry = templates[i];
        proof {
            assert(models.take(i + 1).drop_last() =~= models.take(i as int));
            assert(models.take(i + 1).last() == entry@);
            assert(models[i as int] == entry@);
        }
        if contains_text(entry.sql, "FROM STDIN") && entry.affinity == Affinity::Simple {
            proof {
                lemma_first_copy_in(models, i as int);
            }
            return Some(entry);
        }
        i += 1;
    }
    assert(models.take(i as int) =~= models);
    None
}

proof fn lemma_first_copy_in(templates: Seq<TemplateModel>, i: int)
    requires
        0 <= i < templates.len(),
        copy_in_template(templates.take(i)) is None,
        starts_copy_in(templates[i]),
    ensures
        copy_in_template(templates) == Some(templates[i]),
    decreases templates.len(),
{
    if i == templates.len() - 1 {
        assert(templates.take(i) =~= templates.drop_last());
    } else {
        assert(templates.drop_last().take(i) =~= templates.take(i));
        lemma_first_copy_in(templates.drop_last(), i);
    }
}

/// The operation outside of any query: a simple query three times out of ten, otherwise the
/// start of the extended protocol.
pub open spec fn idle_drawn(templates: Seq<TemplateModel>, state: nat) -> (
    OpModel,
    ProtoState,
    nat,
) {
    let (simple, decided) = drawn_ratio(state, 3, 10);
    if simple {
        let (op, behind) = query_drawn(templates, decided);
        (op, ProtoState::Idle, behind)
    } else {
        let (op, behind) = parse_drawn(templates, decided);
        (op, ProtoState::Extended, behind)
    }
}

/// The operation that follows in a protocol state, and the protocol state behind it. One time
/// out of twenty it is any operation, whatever the state.
pub open spec fn step_drawn(templates: Seq<TemplateModel>, proto: ProtoState, state: nat) -> (
    OpModel,
    ProtoState,
    nat,
) {
    let (leak, decided) = drawn_ratio(state, 1, 20);
    if leak {
        let (op, behind) = op_drawn(templates, decided);
        (op, proto, behind)
    } else {
        match proto {
            ProtoState::Idle => match copy_in_template(templates) {
                Some(template) => {
                    let (copy, behind) = drawn_ratio(decided, 1, 10);
                    if copy {
                        (OpModel::Query { sql: template.sql }, ProtoState::CopyIn, behind)
                    } else {
                        idle_drawn(templates, behind)
                    }
                },
                None => idle_drawn(templates, decided),
            },
            ProtoState::Extended => {
                let (choice, chosen) = drawn_u32(decided, 0, 100);
                let (op, behind) = made(extended_kind_of(choice), templates, chosen);
                (op, behind_extended(choice), behind)
            },
            ProtoState::CopyIn => {
                let (choice, chosen) = drawn_u32(decided, 0, 100);
                let (op, behind) = made(copy_kind_of(choice), templates, chosen);
                (op, behind_copy(choice), behind)
            },
        }
    }
}

/// COPY data and failures are only sent where a template starts a COPY.
pub open spec fn copy_known(op: OpModel, templates: Seq<TemplateModel>) -> bool {
    op is CopyData || op is CopyFail ==> copy_in_template(templates) is Some
}

proof fn lemma_copy_in_is_simple(templates: Seq<TemplateModel>, entry: TemplateModel)
    requires
        templates.contains(entry),
        entry.affinity == Affinity::Simple,
    ensures
        has_sql(simple_pool(templates), entry.sql),
    decreases templates.len(),
{
    lemma_suitable_contains(templates, Some(Affinity::Simple), entry);
    let fitting = suitable(templates, Some(Affinity::Simple));
    let i = choose|i: int| 0 <= i < fitting.len() && fitting[i] == entry;
    assert(simple_pool(templates)[i].sql == entry.sql);
}

pub(crate) proof fn lemma_suitable_contains(
    templates: Seq<TemplateModel>,
    filter: Option<Affinity>,
    entry: TemplateModel,
)
    ensures
        suitable(templates, filter).contains(entry) <==> templates.contains(entry) && suits(
            entry.affinity,
            filter,
        ),
    decreases templates.len(),
{
    if templates.len() > 0 {
        let before = templates.drop_last();
        lemma_suitable_contains(before, filter, entry);
        let fitting = suitable(before, filter);
        assert(templates =~= before.push(templates.last()));
        assert(before.push(templates.last()).contains(entry) <==> before.contains(entry)
            || templates.last() == entry) by {
            lemma_push_contains(before, templates.last(), entry);
        }
        lemma_push_contains(fitting, templates.last(), entry);
    }
}

/// Draws the operation that follows in a protocol state.
pub fn grammar_step(templates: &[SqlEntry], proto: ProtoState, rng: &mut StdRng) -> (next: (
    FrontendOp,
    ProtoState,
))
    requires
        templates@.len() > 0,
        proto == ProtoState::CopyIn ==> copy_in_template(template_models(templates@)) is Some,
    ensures
        (next.0@, next.1, generator_state(*final(rng))) == step_drawn(
            template_models(templates@),
            proto,
            generator_state(*old(rng)),
        ),
        op_drawable(next.0@, template_models(templates@)),
        copy_known(next.0@, template_models(templates@)),
        next.1 == ProtoState::CopyIn ==> copy_in_template(template_models(templates@)) is Some,
{
    if draw_ratio(rng, 1, 20) {
        return (random_op(templates, rng), proto);
    }
    match proto {
        ProtoState::Idle => {
            if let Some(template) = find_copy_in(templates) {
                if draw_ratio(rng, 1, 10) {
                    proof {
                        lemma_copy_in_is_simple(template_models(templates@), template@);
                    }
                    return (
                        FrontendOp::Query { sql: template.sql.to_owned() },
                        ProtoState::CopyIn,
                    );
                }
            }
            if draw_ratio(rng, 3, 10) {
                (random_query(templates, rng), ProtoState::Idle)
            } else {
                (random_parse(templates, rng), ProtoState::Extended)
            }
        },
        ProtoState::Extended => {
            let choice = draw_u32(rng, 0, 100);
            let (kind, behind) = extended_kind(choice);
            (make_op(kind, templates, rng), behind)
        },
        ProtoState::CopyIn => {
            let choice = draw_u32(rng, 0, 100);
            let (kind, behind) = copy_kind(choice);
            (make_op(kind, templates, rng), behind)
        },
    }
}

// ---------------------------------------------------------------------------
// Laws
// ---------------------------------------------------------------------------

/// The text does not hold the letter that `FROM STDIN` starts with.
spec fn without_f(text: Seq<char>) -> bool {
    forall|i: int| 0 <= i < text.len() ==> #[trigger] text[i] != 'F'
}

proof fn lemma_without_f(text: Seq<char>)
    requires
        without_f(text),
    ensures
        !has_substring(text, "FROM STDIN"@),
{
    reveal_strlit("FROM STDIN");
    assert forall|i: int| !occurs_at(text, "FROM STDIN"@, i) by {
        if occurs_at(text, "FROM STDIN"@, i) {
            assert(text.subrange(i, i + 10)[0] == 'F');
            assert(text[i] == 'F');
        }
    }
}

proof fn lemma_simple_templates_without_f()
    ensures
        without_f("SELECT 1; SELECT 2"@),
        without_f("COPY (SELECT 1) TO STDOUT"@),
        without_f("PREPARE fuzz_stmt AS SELECT 1"@),
        without_f("DEALLOCATE fuzz_stmt"@),
        without_f("EXECUTE fuzz_stmt"@),
        without_f("DEALLOCATE ALL"@),
{
    reveal_strlit("SELECT 1; SELECT 2");
    reveal_strlit("COPY (SELECT 1) TO STDOUT");
    reveal_strlit("PREPARE fuzz_stmt AS SELECT 1");
    reveal_strlit("DEALLOCATE fuzz_stmt");
    reveal_strlit("EXECUTE fuzz_stmt");
    reveal_strlit("DEALLOCATE ALL");
}

proof fn lemma_copy_in_sql()
    ensures
        has_substring("COPY copy_test FROM STDIN"@, "FROM STDIN"@),
{
    reveal_strlit("COPY copy_test FROM STDIN");
    reveal_strlit("FROM STDIN");
    assert("COPY copy_test FROM STDIN"@.subrange(15, 25) =~= "FROM STDIN"@);
    assert(occurs_at("COPY copy_test FROM STDIN"@, "FROM STDIN"@, 15));
}

proof fn lemma_copy_in_found(templates: Seq<TemplateModel>)
    ensures
        copy_in_template(templates) matches Some(found) ==> templates.contains(found)
            && starts_copy_in(found),
        copy_in_template(templates) is None ==> forall|i: int|
            0 <= i < templates.len() ==> !starts_copy_in(#[trigger] templates[i]),
    decreases templates.len(),
{
    if templates.len() > 0 {
        let before = templates.drop_last();
        lemma_copy_in_found(before);
        match copy_in_template(before) {
            Some(found) => {
                let i = choose|i: int| 0 <= i < before.len() && before[i] == found;
                assert(templates[i] == found);
            },
            None => {
                assert(templates[templates.len() - 1] == templates.last());
                assert forall|i: int|
                    0 <= i < templates.len() && !starts_copy_in(
                        templates.last(),
                    ) implies !starts_copy_in(#[trigger] templates[i]) by {
                    if i < before.len() {
                        assert(!starts_copy_in(before[i]));
                    }
                }
            },
        }
    }
}

/// Data is only copied to a server where the tag for it is enabled.
pub proof fn law_copy_in_gated_by_tag(tags: Set<Seq<char>>)
    ensures
        copy_in_template(enabled_models(registry(), tags)) is Some <==> tags.contains(COPY@),
{
    let enabled = enabled_models(registry(), tags);
    lemma_copy_in_found(enabled);
    lemma_copy_in_sql();
    lemma_simple_templates_without_f();
    match copy_in_template(enabled) {
        Some(found) => {
            law_enabled_iff_tags_enabled(registry(), tags, found);
            let i = choose|i: int| 0 <= i < registry().len() && registry()[i] == found;
            if i != 11 {
                assert(registry()[i].affinity == Affinity::Simple);
                assert(without_f(registry()[i].sql));
                lemma_without_f(registry()[i].sql);
            }
            assert(found.requires[0] == COPY@);
        },
        None => {
            let entry = registry()[11];
            if tags.contains(COPY@) {
                assert(all_in(entry.requires, tags));
                law_enabled_iff_tags_enabled(registry(), tags, entry);
                let i = choose|i: int| 0 <= i < enabled.len() && enabled[i] == entry;
                assert(starts_copy_in(enabled[i]));
            }
        },
    }
}

/// Every name of the pools can come up: a draw over the three of them that gives `i` gives the
/// name at `i`, and nothing else is drawn.
pub proof fn law_every_name_can_be_drawn(state: nat, i: int)
    requires
        0 <= i < 3,
    ensures
        drawn_usize(state, 0, 3).0 == i ==> stmt_name_drawn(state).0 == if i == 0 {
            StmtName::Unnamed
        } else if i == 1 {
            StmtName::S1
        } else {
            StmtName::S2
        },
        stmt_name_drawn(state).1 == drawn_usize(state, 0, 3).1,
        drawn_usize(state, 0, 3).0 == i ==> portal_name_drawn(state).0 == if i == 0 {
            PortalName::Unnamed
        } else if i == 1 {
            PortalName::P1
        } else {
            PortalName::P2
        },
        portal_name_drawn(state).1 == drawn_usize(state, 0, 3).1,
{
}

/// A template of the simple path does not suit the extended one, nor the other way round. Any
/// other template suits any path.
pub proof fn law_which_templates_suit(affinity: Affinity, filter: Option<Affinity>)
    ensures
        !suits(affinity, filter) <==> {
            ||| affinity == Affinity::Simple && filter == Some(Affinity::Extended)
            ||| affinity == Affinity::Extended && filter == Some(Affinity::Simple)
        },
{
}

/// What suits a path is picked from all the templates, in their order; where nothing does, all of
/// them are drawn from.
pub proof fn law_pool_is_what_suits(templates: Seq<TemplateModel>, filter: Option<Affinity>)
    ensures
        ({
            let fitting = templates.filter(|t: TemplateModel| suits(t.affinity, filter));
            &&& suitable(templates, filter) == fitting
            &&& draw_pool(templates, filter) == if fitting.len() > 0 {
                fitting
            } else {
                templates
            }
        }),
{
    lemma_suitable_is_filter(templates, filter, |t: TemplateModel| suits(t.affinity, filter));
}

proof fn lemma_suitable_is_filter(
    templates: Seq<TemplateModel>,
    filter: Option<Affinity>,
    picked: spec_fn(TemplateModel) -> bool,
)
    requires
        forall|t: TemplateModel| #[trigger] picked(t) <==> suits(t.affinity, filter),
    ensures
        suitable(templates, filter) == templates.filter(picked),
    decreases templates.len(),
{
    reveal_with_fuel(Seq::filter, 1);
    if templates.len() > 0 {
        lemma_suitable_is_filter(templates.drop_last(), filter, picked);
    }
}

/// Every template of the pool can come up: one number is drawn, from zero up to the length of the
/// pool, and where it is `i`, the template at `i` is taken.
pub proof fn law_every_template_can_be_drawn(
    templates: Seq<TemplateModel>,
    filter: Option<Affinity>,
    state: nat,
    i: int,
)
    requires
        0 <= i < draw_pool(templates, filter).len() <= usize::MAX,
    ensures
        ({
            let pool = draw_pool(templates, filter);
            let draw = drawn_usize(state, 0, pool.len() as usize);
            &&& draw.0 == i ==> template_drawn(templates, filter, state).0 == pool[i]
            &&& template_drawn(templates, filter, state).1 == draw.1
        }),
{
}

/// Of a hundred parameters ten are NULL, forty are numbers, forty are texts and ten are bytes.
pub proof fn law_param_kinds(choice: u32)
    ensures
        param_kind_of(choice) == ParamKind::Null <==> choice < 10,
        param_kind_of(choice) == ParamKind::Int32 <==> 10 <= choice < 50,
        param_kind_of(choice) == ParamKind::Text <==> 50 <= choice < 90,
        param_kind_of(choice) == ParamKind::Bytes <==> choice >= 90,
{
}

/// A parameter is drawn with a number below a hundred that decides its kind. A number comes from
/// -100 up to 100, a text is a `v` and a number from zero up to 100, and bytes are one byte
/// repeated up to seven times.
pub proof fn law_params_drawn_by_kind(state: nat)
    ensures
        ({
            let (choice, chosen) = drawn_u32(state, 0, 100);
            let (value, behind_value) = drawn_i32(chosen, -100i32, 100);
            let (number, behind_number) = drawn_i32(chosen, 0, 100);
            let (byte, filled) = drawn_u8(chosen);
            let (count, behind_bytes) = drawn_usize(filled, 0, 8);
            let (param, behind) = param_drawn(state);
            &&& choice < 10 ==> param == ParamModel::Null && behind == chosen
            &&& 10 <= choice < 50 ==> param == ParamModel::Int32(value) && behind == behind_value
            &&& 50 <= choice < 90 ==> param == ParamModel::Text("v"@ + decimal(number as nat))
                && behind == behind_number
            &&& 90 <= choice ==> {
                &&& param matches ParamModel::Bytes(bytes)
                &&& bytes.len() == count
                &&& forall|i: int| 0 <= i < count ==> #[trigger] bytes[i] == byte
                &&& behind == behind_bytes
            }
        }),
{
}

/// As many parameters are drawn as are asked for, each from where the one before it left off.
pub proof fn law_params_drawn_one_by_one(count: nat, state: nat)
    ensures
        params_drawn(0, state) == (Seq::<ParamModel>::empty(), state),
        params_drawn(count, state).0.len() == count,
        params_drawn(count + 1, state).0 == params_drawn(count, state).0.push(
            param_drawn(params_drawn(count, state).1).0,
        ),
        params_drawn(count + 1, state).1 == param_drawn(params_drawn(count, state).1).1,
    decreases count,
{
    if count > 0 {
        law_params_drawn_one_by_one((count - 1) as nat, state);
    }
}

/// A Query takes the SQL of a template for the simple path, as it is.
pub proof fn law_query_takes_a_simple_template(templates: Seq<TemplateModel>, state: nat)
    ensures
        ({
            let (template, picked) = template_drawn(templates, Some(Affinity::Simple), state);
            query_drawn(templates, state) == (OpModel::Query { sql: template.sql }, picked)
        }),
{
}

/// A Parse takes the SQL of a template for the extended path, as it is, under a name that is drawn
/// next. It names no parameter types.
pub proof fn law_parse_takes_an_extended_template(templates: Seq<TemplateModel>, state: nat)
    ensures
        ({
            let (template, picked) = template_drawn(templates, Some(Affinity::Extended), state);
            let (op, behind) = parse_drawn(templates, state);
            &&& op matches OpModel::Parse { name, sql, param_oids }
            &&& sql == template.sql
            &&& name == stmt_name_drawn(picked).0
            &&& param_oids.len() == 0
            &&& behind == stmt_name_drawn(picked).1
        }),
{
}

/// A Bind goes from a statement to a portal, whose names are drawn portal first, with as many
/// parameters as a template for the extended path takes.
pub proof fn law_bind_has_a_templates_params(templates: Seq<TemplateModel>, state: nat)
    ensures
        ({
            let (template, picked) = template_drawn(templates, Some(Affinity::Extended), state);
            let named = portal_name_drawn(picked).1;
            let bound = stmt_name_drawn(named).1;
            let (op, behind) = bind_drawn(templates, state);
            &&& op matches OpModel::Bind { portal, stmt, params }
            &&& portal == portal_name_drawn(picked).0
            &&& stmt == stmt_name_drawn(named).0
            &&& params == params_drawn(template.param_count as nat, bound).0
            &&& params.len() == template.param_count
            &&& behind == params_drawn(template.param_count as nat, bound).1
        }),
{
    let (template, picked) = template_drawn(templates, Some(Affinity::Extended), state);
    let bound = stmt_name_drawn(portal_name_drawn(picked).1).1;
    law_params_drawn_one_by_one(template.param_count as nat, bound);
}

/// An Execute asks for all rows four times out of five, and otherwise for one to nine of them.
pub proof fn law_execute_asks_for_rows(state: nat)
    ensures
        ({
            let (portal, named) = portal_name_drawn(state);
            let (unlimited, decided) = drawn_ratio(named, 4, 5);
            let (rows, limited) = drawn_u32(decided, 1, 10);
            &&& unlimited ==> execute_drawn(state) == (
                OpModel::Execute { portal, max_rows: 0 },
                decided,
            )
            &&& !unlimited ==> execute_drawn(state) == (
                OpModel::Execute { portal, max_rows: rows },
                limited,
            )
        }),
{
}

/// An operation is of the kind that was asked for. Of those without a template, Describe and Close
/// take a name of their kind, the data of a COPY is one row, and a failed COPY says so.
pub proof fn law_operation_is_of_its_kind(
    kind: OpKind,
    templates: Seq<TemplateModel>,
    state: nat,
)
    ensures
        ({
            let (op, behind) = made(kind, templates, state);
            let (stmt, behind_stmt) = stmt_name_drawn(state);
            let (portal, behind_portal) = portal_name_drawn(state);
            &&& kind == OpKind::Query <==> op is Query
            &&& kind == OpKind::Parse <==> op is Parse
            &&& kind == OpKind::Bind <==> op is Bind
            &&& kind == OpKind::Execute <==> op is Execute
            &&& kind == OpKind::Query ==> (op, behind) == query_drawn(templates, state)
            &&& kind == OpKind::Parse ==> (op, behind) == parse_drawn(templates, state)
            &&& kind == OpKind::Bind ==> (op, behind) == bind_drawn(templates, state)
            &&& kind == OpKind::Execute ==> (op, behind) == execute_drawn(state)
            &&& kind == OpKind::DescribeStatement ==> op == OpModel::DescribeStatement {
                name: stmt,
            } && behind == behind_stmt
            &&& kind == OpKind::DescribePortal ==> op == OpModel::DescribePortal { name: portal }
                && behind == behind_portal
            &&& kind == OpKind::CloseStatement ==> op == OpModel::CloseStatement { name: stmt }
                && behind == behind_stmt
            &&& kind == OpKind::ClosePortal ==> op == OpModel::ClosePortal { name: portal }
                && behind == behind_portal
            &&& kind == OpKind::Sync ==> op == OpModel::Sync && behind == state
            &&& kind == OpKind::Flush ==> op == OpModel::Flush && behind == state
            &&& kind == OpKind::CopyData ==> op == OpModel::CopyData { data: seq![49u8, 10u8] }
                && behind == state
            &&& kind == OpKind::CopyDone ==> op == OpModel::CopyDone && behind == state
            &&& kind == OpKind::CopyFail ==> op == OpModel::CopyFail { message: "abort"@ }
                && behind == state
            &&& kind == OpKind::Terminate ==> op == OpModel::Terminate && behind == state
        }),
{
    law_execute_asks_for_rows(state);
}

/// How often each operation comes up regardless of protocol state, out of a hundred times.
pub proof fn law_any_kinds(choice: u32)
    ensures
        any_kind_of(choice) == OpKind::Parse <==> choice < 15,
        any_kind_of(choice) == OpKind::Bind <==> 15 <= choice < 30,
        any_kind_of(choice) == OpKind::Execute <==> 30 <= choice < 45,
        any_kind_of(choice) == OpKind::Sync <==> 45 <= choice < 55 || choice >= 100,
        any_kind_of(choice) == OpKind::Query <==> 55 <= choice < 65,
        any_kind_of(choice) == OpKind::DescribeStatement <==> 65 <= choice < 72,
        any_kind_of(choice) == OpKind::DescribePortal <==> 72 <= choice < 79,
        any_kind_of(choice) == OpKind::CloseStatement <==> 79 <= choice < 86,
        any_kind_of(choice) == OpKind::ClosePortal <==> 86 <= choice < 93,
        any_kind_of(choice) == OpKind::Flush <==> 93 <= choice < 97,
        any_kind_of(choice) == OpKind::CopyDone <==> 97 <= choice < 99,
        any_kind_of(choice) == OpKind::Terminate <==> 99 <= choice < 100,
{
}

/// How often each operation comes up within the extended protocol, out of a hundred times. The
/// Sync that comes up ends the extended protocol, and no other operation does.
pub proof fn law_extended_kinds(choice: u32)
    ensures
        extended_kind_of(choice) == OpKind::Bind <==> choice < 25,
        extended_kind_of(choice) == OpKind::Execute <==> 25 <= choice < 45,
        extended_kind_of(choice) == OpKind::DescribeStatement <==> 45 <= choice < 55,
        extended_kind_of(choice) == OpKind::DescribePortal <==> 55 <= choice < 65,
        extended_kind_of(choice) == OpKind::Flush <==> 65 <= choice < 70,
        extended_kind_of(choice) == OpKind::Sync <==> 70 <= choice < 80 || choice >= 100,
        extended_kind_of(choice) == OpKind::CloseStatement <==> 80 <= choice < 88,
        extended_kind_of(choice) == OpKind::ClosePortal <==> 88 <= choice < 95,
        extended_kind_of(choice) == OpKind::Query <==> 95 <= choice < 100,
        behind_extended(choice) == ProtoState::Idle <==> 70 <= choice < 80,
        behind_extended(choice) == ProtoState::Extended <==> choice < 70 || choice >= 80,
        choice < 100 ==> (extended_kind_of(choice) == OpKind::Sync <==> behind_extended(choice)
            == ProtoState::Idle),
{
}

/// How often each operation comes up within a COPY, out of a hundred times. More data leaves the
/// COPY open, and every other operation ends it.
pub proof fn law_copy_kinds(choice: u32)
    ensures
        copy_kind_of(choice) == OpKind::CopyData <==> choice < 40,
        copy_kind_of(choice) == OpKind::CopyDone <==> 40 <= choice < 70 || choice >= 100,
        copy_kind_of(choice) == OpKind::CopyFail <==> 70 <= choice < 85,
        copy_kind_of(choice) == OpKind::Sync <==> 85 <= choice < 100,
        behind_copy(choice) == ProtoState::Idle <==> 40 <= choice < 100,
        behind_copy(choice) == ProtoState::CopyIn <==> choice < 40 || choice >= 100,
        choice < 100 ==> (copy_kind_of(choice) == OpKind::CopyData <==> behind_copy(choice)
            == ProtoState::CopyIn),
{
}

/// Any operation is drawn with a number below a hundred that decides its kind.
pub proof fn law_any_operation_drawn_by_kind(templates: Seq<TemplateModel>, state: nat)
    ensures
        ({
            let (choice, chosen) = drawn_u32(state, 0, 100);
            op_drawn(templates, state) == made(any_kind_of(choice), templates, chosen)
        }),
{
}

/// A COPY to the server is started with the first template for the simple path whose SQL holds
/// `FROM STDIN`, where there is one.
pub proof fn law_copy_starts_with_the_first_template_for_it(templates: Seq<TemplateModel>)
    ensures
        match copy_in_template(templates) {
            Some(template) => exists|i: int|
                {
                    &&& 0 <= i < templates.len()
                    &&& #[trigger] templates[i] == template
                    &&& template.affinity == Affinity::Simple
                    &&& has_substring(template.sql, "FROM STDIN"@)
                    &&& forall|j: int|
                        0 <= j < i ==> (#[trigger] templates[j]).affinity != Affinity::Simple
                            || !has_substring(templates[j].sql, "FROM STDIN"@)
                },
            None => forall|j: int|
                0 <= j < templates.len() ==> (#[trigger] templates[j]).affinity
                    != Affinity::Simple || !has_substring(templates[j].sql, "FROM STDIN"@),
        },
    decreases templates.len(),
{
    if templates.len() > 0 {
        let before = templates.drop_last();
        law_copy_starts_with_the_first_template_for_it(before);
        match copy_in_template(before) {
            Some(template) => {
                let i = choose|i: int|
                    {
                        &&& 0 <= i < before.len()
                        &&& #[trigger] before[i] == template
                        &&& template.affinity == Affinity::Simple
                        &&& has_substring(template.sql, "FROM STDIN"@)
                        &&& forall|j: int|
                            0 <= j < i ==> (#[trigger] before[j]).affinity != Affinity::Simple
                                || !has_substring(before[j].sql, "FROM STDIN"@)
                    };
                assert(templates[i] == template);
                assert forall|j: int| 0 <= j < i implies (#[trigger] templates[j]).affinity
                    != Affinity::Simple || !has_substring(templates[j].sql, "FROM STDIN"@) by {
                    assert(before[j] == templates[j]);
                }
            },
            None => {
                assert forall|j: int| 0 <= j < before.len() implies (
                #[trigger] templates[j]).affinity != Affinity::Simple || !has_substring(
                    templates[j].sql,
                    "FROM STDIN"@,
                ) by {
                    assert(before[j] == templates[j]);
                }
                if starts_copy_in(templates.last()) {
                    assert(templates[templates.len() - 1] == templates.last());
                }
            },
        }
    }
}

/// Outside of any query, a simple query comes up three times out of ten and leaves the state as it
/// is. Otherwise a Parse starts the extended protocol.
pub proof fn law_idle_starts_a_query(templates: Seq<TemplateModel>, state: nat)
    ensures
        ({
            let (simple, decided) = drawn_ratio(state, 3, 10);
            let (op, proto, behind) = idle_drawn(templates, state);
            &&& simple ==> (op, behind) == query_drawn(templates, decided) && proto
                == ProtoState::Idle
            &&& !simple ==> (op, behind) == parse_drawn(templates, decided) && proto
                == ProtoState::Extended
        }),
{
}

/// One time out of twenty an operation comes up that may not fit, and the protocol state is kept.
/// Otherwise a COPY is started one time out of ten where one can be, and what else comes up
/// outside of a query starts one; within the extended protocol and within a COPY, a number below a
/// hundred decides.
pub proof fn law_step_follows_the_protocol(
    templates: Seq<TemplateModel>,
    proto: ProtoState,
    state: nat,
)
    ensures
        ({
            let (leak, decided) = drawn_ratio(state, 1, 20);
            let (copy, behind_copy_draw) = drawn_ratio(decided, 1, 10);
            let (choice, chosen) = drawn_u32(decided, 0, 100);
            let (op, next, behind) = step_drawn(templates, proto, state);
            &&& leak ==> (op, behind) == op_drawn(templates, decided) && next == proto
            &&& !leak && proto == ProtoState::Idle && copy_in_template(templates) is None ==> (
                op,
                next,
                behind,
            ) == idle_drawn(templates, decided)
            &&& !leak && proto == ProtoState::Idle && copy_in_template(templates) is Some && copy
                ==> op == OpModel::Query { sql: copy_in_template(templates)->0.sql } && next
                == ProtoState::CopyIn && behind == behind_copy_draw
            &&& !leak && proto == ProtoState::Idle && copy_in_template(templates) is Some && !copy
                ==> (op, next, behind) == idle_drawn(templates, behind_copy_draw)
            &&& !leak && proto == ProtoState::Extended ==> (op, behind) == made(
                extended_kind_of(choice),
                templates,
                chosen,
            ) && next == behind_extended(choice)
            &&& !leak && proto == ProtoState::CopyIn ==> (op, behind) == made(
                copy_kind_of(choice),
                templates,
                chosen,
            ) && next == behind_copy(choice)
        }),
{
}

} // verus!
