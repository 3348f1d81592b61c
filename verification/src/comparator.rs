//! Normalizes response streams and finds where two of them part.

use crate::message::{
    bytes_model, clone_values, row_models, value_models, BackendMessage, MessageModel, RowColumn,
    RowColumnModel, TransactionStatus,
};
use crate::op::{clone_ops, op_models, FrontendOp, OpModel};
use crate::runner::{event_models, expected_ready, EventModel, ResponseEvent};
use crate::text::bytes_equal;
use vstd::prelude::*;
use vstd::std_specs::cmp::PartialEqSpec;

verus! {

/// A backend message in a comparable form. Only fields that matter for comparison are kept.
#[derive(Debug)]
#[allow(inconsistent_fields)]
pub enum NormalizedMsg {
    // Fields-compared messages
    ReadyForQuery { status: String },
    ErrorResponse { code: String, message: String },
    NoticeResponse { code: String, message: String },
    NotificationResponse { channel: String, payload: String },
    RowDescription { columns: Vec<ColumnDesc> },
    DataRow { columns: Vec<Option<Vec<u8>>> },
    CommandComplete { tag: String },
    ParameterDescription { oids: Vec<u32> },
    CopyInResponse { format: u16, column_formats: Vec<u16> },
    CopyOutResponse { format: u16, column_formats: Vec<u16> },
    CopyData { data: Vec<u8> },
    // Presence-only messages
    ParseComplete,
    BindComplete,
    CloseComplete,
    NoData,
    EmptyQueryResponse,
    PortalSuspended,
    CopyDone,
    // Terminal events from the runner
    Timeout,
    Disconnected(String),
}

/// One column of a normalized RowDescription.
#[derive(Debug)]
pub struct ColumnDesc {
    pub name: String,
    pub type_oid: u32,
    pub format: u16,
}

/// A divergence between the oracle and the target.
#[derive(Debug)]
pub struct Divergence {
    /// Index into the normalized response stream.
    pub index: usize,
    /// What the oracle returned (`None` if its stream was shorter).
    pub expected: Option<NormalizedMsg>,
    /// What the target returned (`None` if its stream was shorter).
    pub actual: Option<NormalizedMsg>,
    /// The operations that produced this divergence.
    pub ops: Vec<FrontendOp>,
}

/// What one column of a normalized RowDescription holds.
pub struct ColumnModel {
    pub name: Seq<char>,
    pub type_oid: u32,
    pub format: u16,
}

/// What a normalized message holds.
#[allow(inconsistent_fields)]
pub enum NormModel {
    ReadyForQuery { status: Seq<char> },
    ErrorResponse { code: Seq<char>, message: Seq<char> },
    NoticeResponse { code: Seq<char>, message: Seq<char> },
    NotificationResponse { channel: Seq<char>, payload: Seq<char> },
    RowDescription { columns: Seq<ColumnModel> },
    DataRow { columns: Seq<Option<Seq<u8>>> },
    CommandComplete { tag: Seq<char> },
    ParameterDescription { oids: Seq<u32> },
    CopyInResponse { format: u16, column_formats: Seq<u16> },
    CopyOutResponse { format: u16, column_formats: Seq<u16> },
    CopyData { data: Seq<u8> },
    ParseComplete,
    BindComplete,
    CloseComplete,
    NoData,
    EmptyQueryResponse,
    PortalSuspended,
    CopyDone,
    Timeout,
    Disconnected(Seq<char>),
}

impl View for ColumnDesc {
    type V = ColumnModel;

    open spec fn view(&self) -> ColumnModel {
        ColumnModel { name: self.name@, type_oid: self.type_oid, format: self.format }
    }
}

/// What a list of columns holds.
pub open spec fn column_models(columns: Seq<ColumnDesc>) -> Seq<ColumnModel> {
    columns.map_values(|c: ColumnDesc| c@)
}

impl View for NormalizedMsg {
    type V = NormModel;

    open spec fn view(&self) -> NormModel {
        match self {
            NormalizedMsg::ReadyForQuery { status } => NormModel::ReadyForQuery { status: status@ },
            NormalizedMsg::ErrorResponse { code, message } => NormModel::ErrorResponse {
                code: code@,
                message: message@,
            },
            NormalizedMsg::NoticeResponse { code, message } => NormModel::NoticeResponse {
                code: code@,
                message: message@,
            },
            NormalizedMsg::NotificationResponse { channel, payload } =>
                NormModel::NotificationResponse { channel: channel@, payload: payload@ },
            NormalizedMsg::RowDescription { columns } => NormModel::RowDescription {
                columns: column_models(columns@),
            },
            NormalizedMsg::DataRow { columns } => NormModel::DataRow {
                columns: value_models(columns@),
            },
            NormalizedMsg::CommandComplete { tag } => NormModel::CommandComplete { tag: tag@ },
            NormalizedMsg::ParameterDescription { oids } => NormModel::ParameterDescription {
                oids: oids@,
            },
            NormalizedMsg::CopyInResponse { format, column_formats } => NormModel::CopyInResponse {
                format: *format,
                column_formats: column_formats@,
            },
            NormalizedMsg::CopyOutResponse { format, column_formats } =>
                NormModel::CopyOutResponse { format: *format, column_formats: column_formats@ },
            NormalizedMsg::CopyData { data } => NormModel::CopyData { data: data@ },
            NormalizedMsg::ParseComplete => NormModel::ParseComplete,
            NormalizedMsg::BindComplete => NormModel::BindComplete,
            NormalizedMsg::CloseComplete => NormModel::CloseComplete,
            NormalizedMsg::NoData => NormModel::NoData,
            NormalizedMsg::EmptyQueryResponse => NormModel::EmptyQueryResponse,
            NormalizedMsg::PortalSuspended => NormModel::PortalSuspended,
            NormalizedMsg::CopyDone => NormModel::CopyDone,
            NormalizedMsg::Timeout => NormModel::Timeout,
            NormalizedMsg::Disconnected(reason) => NormModel::Disconnected(reason@),
        }
    }
}

/// What a normalized stream holds.
pub open spec fn norm_models(messages: Seq<NormalizedMsg>) -> Seq<NormModel> {
    messages.map_values(|m: NormalizedMsg| m@)
}

/// What an optional message holds.
pub open spec fn norm_option(message: Option<NormalizedMsg>) -> Option<NormModel> {
    match message {
        Some(m) => Some(m@),
        None => None,
    }
}

// ---------------------------------------------------------------------------
// What normalizing means
// ---------------------------------------------------------------------------

/// The name of a transaction status.
pub open spec fn status_text(status: TransactionStatus) -> Seq<char> {
    match status {
        TransactionStatus::Idle => "Idle"@,
        TransactionStatus::InTransaction => "InTransaction"@,
        TransactionStatus::Failed => "Failed"@,
    }
}

/// The value, or zero in its place.
pub open spec fn or_zero_u32(value: Option<u32>) -> u32 {
    match value {
        Some(v) => v,
        None => 0,
    }
}

/// The value, or zero in its place.
pub open spec fn or_zero_u16(value: Option<u16>) -> u16 {
    match value {
        Some(v) => v,
        None => 0,
    }
}

/// A described column, with defaults for what is missing.
pub open spec fn normalized_column(column: RowColumnModel) -> ColumnModel {
    ColumnModel {
        name: match column.name {
            Some(name) => name,
            None => seq![],
        },
        type_oid: or_zero_u32(column.type_oid),
        format: or_zero_u16(column.format),
    }
}

/// Every format, with zero for what is missing.
pub open spec fn normalized_formats(formats: Seq<Option<u16>>) -> Seq<u16> {
    formats.map_values(|f: Option<u16>| or_zero_u16(f))
}

/// The comparable form of a message, or `None` for one that is skipped.
pub open spec fn normalized(message: MessageModel) -> Option<NormModel> {
    match message {
        MessageModel::ReadyForQuery { status } => Some(
            NormModel::ReadyForQuery { status: status_text(status) },
        ),
        MessageModel::ErrorResponse { code, message } => Some(
            NormModel::ErrorResponse { code, message },
        ),
        MessageModel::NoticeResponse { code, message } => Some(
            NormModel::NoticeResponse { code, message },
        ),
        MessageModel::NotificationResponse { channel, payload } => Some(
            NormModel::NotificationResponse { channel, payload },
        ),
        MessageModel::RowDescription { columns } => Some(
            NormModel::RowDescription {
                columns: columns.map_values(|c: RowColumnModel| normalized_column(c)),
            },
        ),
        MessageModel::DataRow { columns } => Some(NormModel::DataRow { columns }),
        MessageModel::CommandComplete { tag } => Some(NormModel::CommandComplete { tag }),
        MessageModel::ParameterDescription { oids } => Some(
            NormModel::ParameterDescription {
                oids: oids.map_values(|o: Option<u32>| or_zero_u32(o)),
            },
        ),
        MessageModel::CopyInResponse { format, column_formats } => Some(
            NormModel::CopyInResponse {
                format,
                column_formats: normalized_formats(column_formats),
            },
        ),
        MessageModel::CopyOutResponse { format, column_formats } => Some(
            NormModel::CopyOutResponse {
                format,
                column_formats: normalized_formats(column_formats),
            },
        ),
        MessageModel::CopyData { data } => Some(NormModel::CopyData { data }),
        MessageModel::CopyDone => Some(NormModel::CopyDone),
        MessageModel::ParseComplete => Some(NormModel::ParseComplete),
        MessageModel::BindComplete => Some(NormModel::BindComplete),
        MessageModel::CloseComplete => Some(NormModel::CloseComplete),
        MessageModel::NoData => Some(NormModel::NoData),
        MessageModel::EmptyQueryResponse => Some(NormModel::EmptyQueryResponse),
        MessageModel::PortalSuspended => Some(NormModel::PortalSuspended),
        MessageModel::BackendKeyData => None,
        MessageModel::ParameterStatus => None,
        MessageModel::Other => None,
    }
}

/// The comparable form of an event, or `None` for one that is skipped.
pub open spec fn normalized_event(event: EventModel) -> Option<NormModel> {
    match event {
        EventModel::Message(message) => normalized(message),
        EventModel::Timeout => Some(NormModel::Timeout),
        EventModel::Disconnected(reason) => Some(NormModel::Disconnected(reason)),
    }
}

/// The comparable forms of the events, in order, without the skipped ones.
pub open spec fn normalized_stream(events: Seq<EventModel>) -> Seq<NormModel>
    decreases events.len(),
{
    if events.len() == 0 {
        seq![]
    } else {
        let before = normalized_stream(events.drop_last());
        match normalized_event(events.last()) {
            Some(message) => before.push(message),
            None => before,
        }
    }
}

// ---------------------------------------------------------------------------
// What a divergence is
// ---------------------------------------------------------------------------

/// The message at an index, or `None` past the end of the stream.
pub open spec fn message_at(stream: Seq<NormModel>, i: int) -> Option<NormModel> {
    if 0 <= i < stream.len() {
        Some(stream[i])
    } else {
        None
    }
}

/// The streams agree before index `i` and differ there.
pub open spec fn first_mismatch(pg: Seq<NormModel>, target: Seq<NormModel>, i: int) -> bool {
    &&& 0 <= i
    &&& message_at(pg, i) != message_at(target, i)
    &&& forall|j: int| 0 <= j < i ==> #[trigger] message_at(pg, j) == message_at(target, j)
}

/// A divergence tells where two streams first differ, what each held there, and for which
/// operations.
pub open spec fn reports_mismatch(
    divergence: Divergence,
    pg: Seq<NormModel>,
    target: Seq<NormModel>,
    ops: Seq<OpModel>,
) -> bool {
    &&& first_mismatch(pg, target, divergence.index as int)
    &&& norm_option(divergence.expected) == message_at(pg, divergence.index as int)
    &&& norm_option(divergence.actual) == message_at(target, divergence.index as int)
    &&& op_models(divergence.ops@) == ops
}

/// The outcome of comparing two normalized streams.
pub open spec fn comparison(
    outcome: Option<Divergence>,
    pg: Seq<NormModel>,
    target: Seq<NormModel>,
    ops: Seq<OpModel>,
) -> bool {
    match outcome {
        None => pg == target,
        Some(divergence) => reports_mismatch(divergence, pg, target, ops),
    }
}

/// How many ReadyForQuery messages a stream holds.
pub open spec fn ready_messages(stream: Seq<NormModel>) -> nat
    decreases stream.len(),
{
    if stream.len() == 0 {
        0
    } else {
        ready_messages(stream.drop_last()) + if stream.last() is ReadyForQuery {
            1nat
        } else {
            0nat
        }
    }
}

/// The query cycle that the message at an index belongs to: each ReadyForQuery before it ended
/// one.
pub open spec fn cycle_at(stream: Seq<NormModel>, index: nat) -> nat {
    ready_messages(
        if index < stream.len() {
            stream.take(index as int)
        } else {
            stream
        },
    )
}

/// The operation at an index ends a query cycle: its ReadyForQuery comes behind those of all
/// cycles before.
pub open spec fn ends_cycle(ops: Seq<OpModel>, i: int, cycle: nat) -> bool {
    &&& 0 <= i < ops.len()
    &&& ops[i].answers_ready()
    &&& expected_ready(ops.take(i)) == cycle
}

/// The operation that ends a query cycle, where one does.
pub open spec fn cycle_end(ops: Seq<OpModel>, cycle: nat) -> Option<nat> {
    if exists|i: int| ends_cycle(ops, i, cycle) {
        Some((choose|i: int| ends_cycle(ops, i, cycle)) as nat)
    } else {
        None
    }
}

/// The operation behind which a divergence shows: the one that ends the query cycle of the first
/// mismatch in the oracle's stream.
pub open spec fn mismatch_place(pg: Seq<NormModel>, divergence: Divergence) -> Option<nat> {
    cycle_end(op_models(divergence.ops@), cycle_at(pg, divergence.index as nat))
}

/// The place of an operation that may be missing.
pub open spec fn op_place(op: Option<usize>) -> Option<nat> {
    match op {
        Some(index) => Some(index as nat),
        None => None,
    }
}

// ---------------------------------------------------------------------------
// Equality and copies
// ---------------------------------------------------------------------------

fn columns_equal(a: &Vec<ColumnDesc>, b: &Vec<ColumnDesc>) -> (equal: bool)
    ensures
        equal == (column_models(a@) == column_models(b@)),
{
    if a.len() != b.len() {
        assert(column_models(a@).len() != column_models(b@).len());
        return false;
    }
    let mut i: usize = 0;
    while i < a.len()
        invariant
            i <= a.len(),
            a.len() == b.len(),
            forall|j: int| 0 <= j < i ==> a@[j]@ == b@[j]@,
        decreases a.len() - i,
    {
        if !(a[i].name == b[i].name && a[i].type_oid == b[i].type_oid && a[i].format
            == b[i].format) {
            assert(column_models(a@)[i as int] != column_models(b@)[i as int]);
            return false;
        }
        i += 1;
    }
    assert(column_models(a@) =~= column_models(b@));
    true
}

fn values_equal(a: &Vec<Option<Vec<u8>>>, b: &Vec<Option<Vec<u8>>>) -> (equal: bool)
    ensures
        equal == (value_models(a@) == value_models(b@)),
{
    if a.len() != b.len() {
        assert(value_models(a@).len() != value_models(b@).len());
        return false;
    }
    let mut i: usize = 0;
    while i < a.len()
        invariant
            i <= a.len(),
            a.len() == b.len(),
            forall|j: int| 0 <= j < i ==> bytes_model(a@[j]) == bytes_model(b@[j]),
        decreases a.len() - i,
    {
        let same = match (&a[i], &b[i]) {
            (Some(x), Some(y)) => bytes_equal(x.as_slice(), y.as_slice()),
            (None, None) => true,
            _ => false,
        };
        if !same {
            assert(value_models(a@)[i as int] != value_models(b@)[i as int]);
            return false;
        }
        i += 1;
    }
    assert(value_models(a@) =~= value_models(b@));
    true
}

fn oids_equal(a: &Vec<u32>, b: &Vec<u32>) -> (equal: bool)
    ensures
        equal == (a@ == b@),
{
    if a.len() != b.len() {
        return false;
    }
    let mut i: usize = 0;
    while i < a.len()
        invariant
            i <= a.len(),
            a.len() == b.len(),
            forall|j: int| 0 <= j < i ==> a@[j] == b@[j],
        decreases a.len() - i,
    {
        if a[i] != b[i] {
            return false;
        }
        i += 1;
    }
    assert(a@ =~= b@);
    true
}

fn formats_equal(a: &Vec<u16>, b: &Vec<u16>) -> (equal: bool)
    ensures
        equal == (a@ == b@),
{
    if a.len() != b.len() {
        return false;
    }
    let mut i: usize = 0;
    while i < a.len()
        invariant
            i <= a.len(),
            a.len() == b.len(),
            forall|j: int| 0 <= j < i ==> a@[j] == b@[j],
        decreases a.len() - i,
    {
        if a[i] != b[i] {
            return false;
        }
        i += 1;
    }
    assert(a@ =~= b@);
    true
}

impl PartialEq for ColumnDesc {
    fn eq(&self, other: &ColumnDesc) -> (equal: bool) {
        self.name == other.name && self.type_oid == other.type_oid && self.format == other.format
    }
}

impl vstd::std_specs::cmp::PartialEqSpecImpl for ColumnDesc {
    open spec fn obeys_eq_spec() -> bool {
        true
    }

    open spec fn eq_spec(&self, other: &ColumnDesc) -> bool {
        self@ == other@
    }
}

impl PartialEq for NormalizedMsg {
    fn eq(&self, other: &NormalizedMsg) -> (equal: bool) {
        match (self, other) {
            (
                NormalizedMsg::ReadyForQuery { status: a },
                NormalizedMsg::ReadyForQuery { status: b },
            ) => *a == *b,
            (
                NormalizedMsg::ErrorResponse { code: a, message: m },
                NormalizedMsg::ErrorResponse { code: b, message: n },
            ) => *a == *b && *m == *n,
            (
                NormalizedMsg::NoticeResponse { code: a, message: m },
                NormalizedMsg::NoticeResponse { code: b, message: n },
            ) => *a == *b && *m == *n,
            (
                NormalizedMsg::NotificationResponse { channel: a, payload: m },
                NormalizedMsg::NotificationResponse { channel: b, payload: n },
            ) => *a == *b && *m == *n,
            (
                NormalizedMsg::RowDescription { columns: a },
                NormalizedMsg::RowDescription { columns: b },
            ) => columns_equal(a, b),
            (NormalizedMsg::DataRow { columns: a }, NormalizedMsg::DataRow { columns: b }) =>
                values_equal(a, b),
            (
                NormalizedMsg::CommandComplete { tag: a },
                NormalizedMsg::CommandComplete { tag: b },
            ) => *a == *b,
            (
                NormalizedMsg::ParameterDescription { oids: a },
                NormalizedMsg::ParameterDescription { oids: b },
            ) => oids_equal(a, b),
            (
                NormalizedMsg::CopyInResponse { format: f, column_formats: a },
                NormalizedMsg::CopyInResponse { format: g, column_formats: b },
            ) => *f == *g && formats_equal(a, b),
            (
                NormalizedMsg::CopyOutResponse { format: f, column_formats: a },
                NormalizedMsg::CopyOutResponse { format: g, column_formats: b },
            ) => *f == *g && formats_equal(a, b),
            (NormalizedMsg::CopyData { data: a }, NormalizedMsg::CopyData { data: b }) =>
                bytes_equal(a.as_slice(), b.as_slice()),
            (NormalizedMsg::ParseComplete, NormalizedMsg::ParseComplete) => true,
            (NormalizedMsg::BindComplete, NormalizedMsg::BindComplete) => true,
            (NormalizedMsg::CloseComplete, NormalizedMsg::CloseComplete) => true,
            (NormalizedMsg::NoData, NormalizedMsg::NoData) => true,
            (NormalizedMsg::EmptyQueryResponse, NormalizedMsg::EmptyQueryResponse) => true,
            (NormalizedMsg::PortalSuspended, NormalizedMsg::PortalSuspended) => true,
            (NormalizedMsg::CopyDone, NormalizedMsg::CopyDone) => true,
            (NormalizedMsg::Timeout, NormalizedMsg::Timeout) => true,
            (NormalizedMsg::Disconnected(a), NormalizedMsg::Disconnected(b)) => *a == *b,
            _ => false,
        }
    }
}

impl vstd::std_specs::cmp::PartialEqSpecImpl for NormalizedMsg {
    open spec fn obeys_eq_spec() -> bool {
        true
    }

    open spec fn eq_spec(&self, other: &NormalizedMsg) -> bool {
        self@ == other@
    }
}

impl Clone for ColumnDesc {
    fn clone(&self) -> (copy: ColumnDesc)
        ensures
            copy@ == self@,
    {
        ColumnDesc { name: self.name.clone(), type_oid: self.type_oid, format: self.format }
    }
}

impl Clone for NormalizedMsg {
    fn clone(&self) -> (copy: NormalizedMsg)
        ensures
            copy@ == self@,
    {
        match self {
            NormalizedMsg::ReadyForQuery { status } => NormalizedMsg::ReadyForQuery {
                status: status.clone(),
            },
            NormalizedMsg::ErrorResponse { code, message } => NormalizedMsg::ErrorResponse {
                code: code.clone(),
                message: message.clone(),
            },
            NormalizedMsg::NoticeResponse { code, message } => NormalizedMsg::NoticeResponse {
                code: code.clone(),
                message: message.clone(),
            },
            NormalizedMsg::NotificationResponse { channel, payload } =>
                NormalizedMsg::NotificationResponse {
                    channel: channel.clone(),
                    payload: payload.clone(),
                },
            NormalizedMsg::RowDescription { columns } => {
                let copied = columns.clone();
                assert(column_models(copied@) =~= column_models(columns@));
                NormalizedMsg::RowDescription { columns: copied }
            },
            NormalizedMsg::DataRow { columns } => NormalizedMsg::DataRow {
                columns: clone_values(columns),
            },
            NormalizedMsg::CommandComplete { tag } => NormalizedMsg::CommandComplete {
                tag: tag.clone(),
            },
            NormalizedMsg::ParameterDescription { oids } => NormalizedMsg::ParameterDescription {
                oids: oids.clone(),
            },
            NormalizedMsg::CopyInResponse { format, column_formats } =>
                NormalizedMsg::CopyInResponse {
                format: *format,
                column_formats: column_formats.clone(),
            },
            NormalizedMsg::CopyOutResponse { format, column_formats } =>
                NormalizedMsg::CopyOutResponse {
                format: *format,
                column_formats: column_formats.clone(),
            },
            NormalizedMsg::CopyData { data } => NormalizedMsg::CopyData { data: data.clone() },
            NormalizedMsg::ParseComplete => NormalizedMsg::ParseComplete,
            NormalizedMsg::BindComplete => NormalizedMsg::BindComplete,
            NormalizedMsg::CloseComplete => NormalizedMsg::CloseComplete,
            NormalizedMsg::NoData => NormalizedMsg::NoData,
            NormalizedMsg::EmptyQueryResponse => NormalizedMsg::EmptyQueryResponse,
            NormalizedMsg::PortalSuspended => NormalizedMsg::PortalSuspended,
            NormalizedMsg::CopyDone => NormalizedMsg::CopyDone,
            NormalizedMsg::Timeout => NormalizedMsg::Timeout,
            NormalizedMsg::Disconnected(reason) => NormalizedMsg::Disconnected(reason.clone()),
        }
    }
}

/// Copies a message that may be missing.
fn clone_option(message: &Option<NormalizedMsg>) -> (copy: Option<NormalizedMsg>)
    ensures
        norm_option(copy) == norm_option(*message),
{
    match message {
        Some(known) => Some(known.clone()),
        None => None,
    }
}

impl Clone for Divergence {
    fn clone(&self) -> (copy: Divergence)
        ensures
            copy.index == self.index,
            norm_option(copy.expected) == norm_option(self.expected),
            norm_option(copy.actual) == norm_option(self.actual),
            op_models(copy.ops@) == op_models(self.ops@),
    {
        let ops = clone_ops(self.ops.as_slice(), 0, self.ops.len());
        assert(op_models(ops@) =~= op_models(self.ops@));
        Divergence {
            index: self.index,
            expected: clone_option(&self.expected),
            actual: clone_option(&self.actual),
            ops,
        }
    }
}

// ---------------------------------------------------------------------------
// Normalizing
// ---------------------------------------------------------------------------

fn normalize_columns(columns: &Vec<RowColumn>) -> (descs: Vec<ColumnDesc>)
    ensures
        column_models(descs@) == row_models(columns@).map_values(
            |c: RowColumnModel| normalized_column(c),
        ),
{
    let ghost all = row_models(columns@).map_values(|c: RowColumnModel| normalized_column(c));
    let mut descs: Vec<ColumnDesc> = Vec::new();
    let mut i: usize = 0;
    while i < columns.len()
        invariant
            i <= columns.len(),
            all == row_models(columns@).map_values(|c: RowColumnModel| normalized_column(c)),
            column_models(descs@) =~= all.take(i as int),
        decreases columns.len() - i,
    {
        let ghost before = descs@;
        let desc = ColumnDesc {
            name: match &columns[i].name {
                Some(name) => name.clone(),
                None => String::new(),
            },
            type_oid: columns[i].type_oid.unwrap_or(0),
            format: columns[i].format.unwrap_or(0),
        };
        assert(desc@ == normalized_column(columns@[i as int]@));
        descs.push(desc);
        assert(column_models(descs@) =~= column_models(before).push(desc@));
        i += 1;
    }
    descs
}

fn normalize_oids(oids: &Vec<Option<u32>>) -> (known: Vec<u32>)
    ensures
        known@ == oids@.map_values(|o: Option<u32>| or_zero_u32(o)),
{
    let mut known: Vec<u32> = Vec::new();
    let mut i: usize = 0;
    while i < oids.len()
        invariant
            i <= oids.len(),
            known@ =~= oids@.map_values(|o: Option<u32>| or_zero_u32(o)).take(i as int),
        decreases oids.len() - i,
    {
        known.push(oids[i].unwrap_or(0));
        i += 1;
    }
    known
}

fn normalize_formats(formats: &Vec<Option<u16>>) -> (known: Vec<u16>)
    ensures
        known@ == normalized_formats(formats@),
{
    let mut known: Vec<u16> = Vec::new();
    let mut i: usize = 0;
    while i < formats.len()
        invariant
            i <= formats.len(),
            known@ =~= normalized_formats(formats@).take(i as int),
        decreases formats.len() - i,
    {
        known.push(formats[i].unwrap_or(0));
        i += 1;
    }
    known
}

/// Normalizes a message, or gives `None` to skip it.
pub fn normalize(message: &BackendMessage) -> (result: Option<NormalizedMsg>)
    ensures
        norm_option(result) == normalized(message@),
{
    match message {
        BackendMessage::ReadyForQuery { status } => {
            let name = match status {
                TransactionStatus::Idle => "Idle",
                TransactionStatus::InTransaction => "InTransaction",
                TransactionStatus::Failed => "Failed",
            };
            Some(NormalizedMsg::ReadyForQuery { status: name.to_owned() })
        },
        BackendMessage::ErrorResponse { code, message } => Some(
            NormalizedMsg::ErrorResponse { code: code.clone(), message: message.clone() },
        ),
        BackendMessage::NoticeResponse { code, message } => Some(
            NormalizedMsg::NoticeResponse { code: code.clone(), message: message.clone() },
        ),
        BackendMessage::NotificationResponse { channel, payload } => Some(
            NormalizedMsg::NotificationResponse {
                channel: channel.clone(),
                payload: payload.clone(),
            },
        ),
        BackendMessage::RowDescription { columns } => Some(
            NormalizedMsg::RowDescription { columns: normalize_columns(columns) },
        ),
        BackendMessage::DataRow { columns } => Some(
            NormalizedMsg::DataRow { columns: clone_values(columns) },
        ),
        BackendMessage::CommandComplete { tag } => Some(
            NormalizedMsg::CommandComplete { tag: tag.clone() },
        ),
        BackendMessage::ParameterDescription { oids } => Some(
            NormalizedMsg::ParameterDescription { oids: normalize_oids(oids) },
        ),
        BackendMessage::CopyInResponse { format, column_formats } => Some(
            NormalizedMsg::CopyInResponse {
                format: *format,
                column_formats: normalize_formats(column_formats),
            },
        ),
        BackendMessage::CopyOutResponse { format, column_formats } => Some(
            NormalizedMsg::CopyOutResponse {
                format: *format,
                column_formats: normalize_formats(column_formats),
            },
        ),
        BackendMessage::CopyData { data } => Some(NormalizedMsg::CopyData { data: data.clone() }),
        BackendMessage::CopyDone => Some(NormalizedMsg::CopyDone),
        // Presence only
        BackendMessage::ParseComplete => Some(NormalizedMsg::ParseComplete),
        BackendMessage::BindComplete => Some(NormalizedMsg::BindComplete),
        BackendMessage::CloseComplete => Some(NormalizedMsg::CloseComplete),
        BackendMessage::NoData => Some(NormalizedMsg::NoData),
        BackendMessage::EmptyQueryResponse => Some(NormalizedMsg::EmptyQueryResponse),
        BackendMessage::PortalSuspended => Some(NormalizedMsg::PortalSuspended),
        // Skipped: these legitimately differ between servers
        BackendMessage::BackendKeyData => None,
        BackendMessage::ParameterStatus => None,
        BackendMessage::Other => None,
    }
}

/// Normalizes an event, or gives `None` for a skipped message.
pub fn normalize_event(event: &ResponseEvent) -> (result: Option<NormalizedMsg>)
    ensures
        norm_option(result) == normalized_event(event@),
{
    match event {
        ResponseEvent::Message(message) => normalize(message),
        ResponseEvent::Timeout => Some(NormalizedMsg::Timeout),
        ResponseEvent::Disconnected(reason) => Some(NormalizedMsg::Disconnected(reason.clone())),
    }
}

/// Normalizes and filters a response stream, keeping only comparable messages.
pub fn normalize_stream(events: &[ResponseEvent]) -> (messages: Vec<NormalizedMsg>)
    ensures
        norm_models(messages@) == normalized_stream(event_models(events@)),
{
    let ghost models = event_models(events@);
    let mut messages: Vec<NormalizedMsg> = Vec::new();
    let mut i: usize = 0;
    assert(models.take(0) =~= seq![]);
    assert(norm_models(messages@) =~= seq![]);
    while i < events.len()
        invariant
            i <= events.len(),
            models == event_models(events@),
            norm_models(messages@) == normalized_stream(models.take(i as int)),
        decreases events.len() - i,
    {
        let ghost before = messages@;
        let next = normalize_event(&events[i]);
        proof {
            assert(models.take(i + 1).drop_last() =~= models.take(i as int));
            assert(models.take(i + 1).last() == events@[i as int]@);
        }
        if let Some(message) = next {
            messages.push(message);
            assert(norm_models(messages@) =~= norm_models(before).push(message@));
        }
        i += 1;
    }
    assert(models.take(i as int) =~= models);
    messages
}

// ---------------------------------------------------------------------------
// Comparing
// ---------------------------------------------------------------------------

/// Compares two normalized streams and reports the first difference, or `None` if they match.
pub fn compare_normalized(
    pg: &Vec<NormalizedMsg>,
    target: &Vec<NormalizedMsg>,
    ops: &[FrontendOp],
) -> (outcome: Option<Divergence>)
    ensures
        comparison(outcome, norm_models(pg@), norm_models(target@), op_models(ops@)),
{
    let ghost pg_all = norm_models(pg@);
    let ghost target_all = norm_models(target@);
    let max_len = if pg.len() > target.len() {
        pg.len()
    } else {
        target.len()
    };
    let mut i: usize = 0;
    while i < max_len
        invariant
            i <= max_len,
            max_len == if pg.len() > target.len() {
                pg.len()
            } else {
                target.len()
            },
            pg_all == norm_models(pg@),
            target_all == norm_models(target@),
            forall|j: int|
                0 <= j < i ==> #[trigger] message_at(pg_all, j) == message_at(target_all, j),
        decreases max_len - i,
    {
        let expected: Option<NormalizedMsg> = if i < pg.len() {
            Some(pg[i].clone())
        } else {
            None
        };
        let actual: Option<NormalizedMsg> = if i < target.len() {
            Some(target[i].clone())
        } else {
            None
        };
        assert(norm_option(expected) == message_at(pg_all, i as int));
        assert(norm_option(actual) == message_at(target_all, i as int));
        let same = match (&expected, &actual) {
            (Some(p), Some(t)) => *p == *t,
            _ => false,
        };
        if !same {
            let copied = clone_ops(ops, 0, ops.len());
            assert(op_models(ops@).subrange(0, ops@.len() as int) =~= op_models(ops@));
            return Some(Divergence { index: i, expected, actual, ops: copied });
        }
        i += 1;
    }
    proof {
        assert forall|j: int| 0 <= j < pg_all.len() && j < target_all.len() implies pg_all[j]
            == target_all[j] by {
            assert(message_at(pg_all, j) == message_at(target_all, j));
        }
        if pg_all.len() != target_all.len() {
            let j: int = if pg_all.len() < target_all.len() {
                pg_all.len() as int
            } else {
                target_all.len() as int
            };
            assert(message_at(pg_all, j) == message_at(target_all, j));
        }
        assert(pg_all =~= target_all);
    }
    None
}

/// Compares two response streams, of the oracle and of the target.
/// Returns the first divergence found, or `None` if they match.
pub fn compare(
    pg_events: &[ResponseEvent],
    target_events: &[ResponseEvent],
    ops: &[FrontendOp],
) -> (outcome: Option<Divergence>)
    ensures
        comparison(
            outcome,
            normalized_stream(event_models(pg_events@)),
            normalized_stream(event_models(target_events@)),
            op_models(ops@),
        ),
{
    let pg = normalize_stream(pg_events);
    let target = normalize_stream(target_events);
    compare_normalized(&pg, &target, ops)
}

/// The operation behind which a divergence shows: the one that ends the query cycle of the first
/// mismatch. There is none where no operation ends that cycle.
pub fn mismatch_op(pg_events: &[ResponseEvent], divergence: &Divergence) -> (op: Option<usize>)
    ensures
        op_place(op) == mismatch_place(normalized_stream(event_models(pg_events@)), *divergence),
{
    let pg = normalize_stream(pg_events);
    let ghost stream = norm_models(pg@);
    let end = if divergence.index < pg.len() {
        divergence.index
    } else {
        pg.len()
    };
    let mut cycle: usize = 0;
    let mut k: usize = 0;
    assert(stream.take(0) =~= seq![]);
    while k < end
        invariant
            k <= end <= pg.len(),
            stream == norm_models(pg@),
            cycle <= k,
            cycle == ready_messages(stream.take(k as int)),
        decreases end - k,
    {
        proof {
            assert(stream.take(k + 1).drop_last() =~= stream.take(k as int));
            assert(stream.take(k + 1).last() == pg@[k as int]@);
        }
        if let NormalizedMsg::ReadyForQuery { .. } = &pg[k] {
            cycle += 1;
        }
        k += 1;
    }
    assert(stream.take(end as int) =~= if divergence.index < stream.len() {
        stream.take(divergence.index as int)
    } else {
        stream
    });
    let ghost models = op_models(divergence.ops@);
    let mut seen: usize = 0;
    let mut i: usize = 0;
    assert(models.take(0) =~= seq![]);
    while i < divergence.ops.len()
        invariant
            i <= divergence.ops.len(),
            models == op_models(divergence.ops@),
            cycle == cycle_at(
                normalized_stream(event_models(pg_events@)),
                divergence.index as nat,
            ),
            seen <= i,
            seen == expected_ready(models.take(i as int)),
            forall|j: int| 0 <= j < i ==> !#[trigger] ends_cycle(models, j, cycle as nat),
        decreases divergence.ops.len() - i,
    {
        proof {
            assert(models.take(i + 1).drop_last() =~= models.take(i as int));
            assert(models.take(i + 1).last() == divergence.ops@[i as int]@);
            assert(models[i as int] == divergence.ops@[i as int]@);
        }
        if divergence.ops[i].answers_ready() {
            if seen == cycle {
                proof {
                    assert(ends_cycle(models, i as int, cycle as nat));
                    let end = choose|j: int| ends_cycle(models, j, cycle as nat);
                    law_cycle_has_one_end(models, i as int, end, cycle as nat);
                }
                return Some(i);
            }
            seen += 1;
        }
        i += 1;
    }
    assert forall|j: int| !ends_cycle(models, j, cycle as nat) by {}
    None
}

// ---------------------------------------------------------------------------
// Laws
// ---------------------------------------------------------------------------

/// The cycle of the first mismatch is the same in both streams.
pub proof fn law_cycle_is_common(pg: Seq<NormModel>, target: Seq<NormModel>, i: int)
    requires
        first_mismatch(pg, target, i),
    ensures
        cycle_at(pg, i as nat) == cycle_at(target, i as nat),
{
    if i > pg.len() {
        assert(message_at(pg, pg.len() as int) == message_at(target, pg.len() as int));
    }
    if i > target.len() {
        assert(message_at(pg, target.len() as int) == message_at(target, target.len() as int));
    }
    assert forall|j: int| 0 <= j < i implies pg[j] == target[j] by {
        assert(message_at(pg, j) == message_at(target, j));
    }
    assert(pg.take(i) =~= target.take(i));
    assert(i == pg.len() ==> pg.take(i) =~= pg);
    assert(i == target.len() ==> target.take(i) =~= target);
}

/// At most one operation ends a query cycle.
pub proof fn law_cycle_has_one_end(ops: Seq<OpModel>, i: int, j: int, cycle: nat)
    requires
        ends_cycle(ops, i, cycle),
        ends_cycle(ops, j, cycle),
    ensures
        i == j,
{
    if i < j {
        lemma_ready_grows(ops, i, j);
    } else if j < i {
        lemma_ready_grows(ops, j, i);
    }
}

proof fn lemma_ready_grows(ops: Seq<OpModel>, i: int, j: int)
    requires
        0 <= i < j <= ops.len(),
        ops[i].answers_ready(),
    ensures
        expected_ready(ops.take(i)) < expected_ready(ops.take(j)),
    decreases j,
{
    assert(ops.take(j).drop_last() =~= ops.take(j - 1));
    assert(ops.take(j).last() == ops[j - 1]);
    if i < j - 1 {
        lemma_ready_grows(ops, i, j - 1);
    }
}


/// A server compared with itself never diverges: equal streams give no divergence, and
/// different ones always give one.
pub proof fn law_divergence_iff_streams_differ(
    outcome: Option<Divergence>,
    pg: Seq<NormModel>,
    target: Seq<NormModel>,
    ops: Seq<OpModel>,
)
    requires
        comparison(outcome, pg, target, ops),
    ensures
        outcome is None <==> pg == target,
{
}

/// Two streams have at most one first mismatch, so a comparison has one outcome.
pub proof fn law_first_mismatch_unique(
    pg: Seq<NormModel>,
    target: Seq<NormModel>,
    i: int,
    j: int,
)
    requires
        first_mismatch(pg, target, i),
        first_mismatch(pg, target, j),
    ensures
        i == j,
{
    if i < j {
        assert(message_at(pg, i) == message_at(target, i));
    }
    if j < i {
        assert(message_at(pg, j) == message_at(target, j));
    }
}

/// Streams that differ part somewhere.
pub(crate) proof fn lemma_different_streams_part(
    pg: Seq<NormModel>,
    target: Seq<NormModel>,
) -> (i: int)
    requires
        pg != target,
    ensures
        first_mismatch(pg, target, i),
    decreases pg.len(),
{
    if pg.len() == 0 {
        assert(target.len() > 0) by {
            assert(target.len() == 0 ==> pg =~= target);
        }
        0
    } else if target.len() == 0 {
        0
    } else if pg[0] != target[0] {
        0
    } else {
        let (p, t) = (pg.skip(1), target.skip(1));
        assert(p == t ==> pg =~= target) by {
            if p == t {
                assert(p.len() == pg.len() - 1 && t.len() == target.len() - 1);
                assert forall|k: int| 0 <= k < pg.len() implies pg[k] == target[k] by {
                    if k > 0 {
                        assert(pg[k] == p[k - 1]);
                        assert(target[k] == t[k - 1]);
                    }
                }
            }
        }
        let i = lemma_different_streams_part(p, t);
        assert(message_at(pg, i + 1) == message_at(p, i));
        assert(message_at(target, i + 1) == message_at(t, i));
        assert forall|j: int| 0 <= j < i + 1 implies #[trigger] message_at(pg, j) == message_at(
            target,
            j,
        ) by {
            if j > 0 {
                assert(message_at(p, j - 1) == message_at(t, j - 1));
                assert(message_at(pg, j) == message_at(p, j - 1));
                assert(message_at(target, j) == message_at(t, j - 1));
            }
        }
        i + 1
    }
}

/// A first mismatch at `i` means just this: both streams hold the same `i` messages before it, and
/// behind them one stream ends where the other goes on, or the next messages are different.
pub proof fn law_first_mismatch_is_behind_a_common_start(
    pg: Seq<NormModel>,
    target: Seq<NormModel>,
    i: int,
)
    ensures
        first_mismatch(pg, target, i) <==> {
            &&& 0 <= i <= pg.len()
            &&& i <= target.len()
            &&& pg.take(i) == target.take(i)
            &&& pg.len() > i || target.len() > i
            &&& pg.len() > i && target.len() > i ==> pg[i] != target[i]
        },
{
    if first_mismatch(pg, target, i) {
        if i > pg.len() {
            assert(message_at(pg, pg.len() as int) == message_at(target, pg.len() as int));
        }
        if i > target.len() {
            assert(message_at(pg, target.len() as int) == message_at(target, target.len() as int));
        }
        assert forall|j: int| 0 <= j < i implies pg[j] == target[j] by {
            assert(message_at(pg, j) == message_at(target, j));
        }
        assert(pg.take(i) =~= target.take(i));
    }
    if 0 <= i <= pg.len() && i <= target.len() && pg.take(i) == target.take(i) {
        assert forall|j: int| 0 <= j < i implies #[trigger] message_at(pg, j) == message_at(
            target,
            j,
        ) by {
            assert(pg.take(i)[j] == target.take(i)[j]);
        }
    }
}

/// Oracle and target may change places: the mismatch stays where it is.
pub proof fn law_mismatch_symmetric(pg: Seq<NormModel>, target: Seq<NormModel>, i: int)
    ensures
        first_mismatch(pg, target, i) <==> first_mismatch(target, pg, i),
{
    if first_mismatch(pg, target, i) {
        assert forall|j: int| 0 <= j < i implies #[trigger] message_at(target, j) == message_at(
            pg,
            j,
        ) by {
            assert(message_at(pg, j) == message_at(target, j));
        }
    }
    if first_mismatch(target, pg, i) {
        assert forall|j: int| 0 <= j < i implies #[trigger] message_at(pg, j) == message_at(
            target,
            j,
        ) by {
            assert(message_at(target, j) == message_at(pg, j));
        }
    }
}

/// A reported divergence shows what at least one of the two servers returned, and the two
/// sides differ.
pub proof fn law_divergence_shows_a_message(
    divergence: Divergence,
    pg: Seq<NormModel>,
    target: Seq<NormModel>,
    ops: Seq<OpModel>,
)
    requires
        reports_mismatch(divergence, pg, target, ops),
    ensures
        divergence.expected is Some || divergence.actual is Some,
        norm_option(divergence.expected) != norm_option(divergence.actual),
        divergence.index < pg.len() || divergence.index < target.len(),
{
}

/// Normalizing works event by event.
pub proof fn law_normalize_concat(first: Seq<EventModel>, second: Seq<EventModel>)
    ensures
        normalized_stream(first + second) == normalized_stream(first) + normalized_stream(second),
    decreases second.len(),
{
    if second.len() == 0 {
        assert(first + second =~= first);
        assert(normalized_stream(first) + normalized_stream(second) =~= normalized_stream(first));
    } else {
        law_normalize_concat(first, second.drop_last());
        assert((first + second).drop_last() =~= first + second.drop_last());
        assert((first + second).last() == second.last());
        assert(normalized_stream(first + second) =~= normalized_stream(first) + normalized_stream(
            second,
        ));
    }
}

/// A skipped message never changes a comparison, wherever it stands in the stream.
pub proof fn law_skipped_messages_ignored(
    before: Seq<EventModel>,
    skipped: EventModel,
    after: Seq<EventModel>,
)
    requires
        normalized_event(skipped) is None,
    ensures
        normalized_stream(before.push(skipped) + after) == normalized_stream(before + after),
{
    law_normalize_concat(before.push(skipped), after);
    law_normalize_concat(before, after);
    assert(before.push(skipped).drop_last() =~= before);
}

/// Two notifications compare equal exactly where their channels and their payloads are equal.
pub proof fn law_notifications_compared(
    channel: Seq<char>,
    payload: Seq<char>,
    other_channel: Seq<char>,
    other_payload: Seq<char>,
)
    ensures
        normalized(MessageModel::NotificationResponse { channel, payload }) is Some,
        normalized(MessageModel::NotificationResponse { channel, payload }) == normalized(
            MessageModel::NotificationResponse { channel: other_channel, payload: other_payload },
        ) <==> channel == other_channel && payload == other_payload,
{
}

proof fn lemma_timeout_shows(events: Seq<EventModel>)
    ensures
        normalized_stream(events).contains(NormModel::Timeout) <==> events.contains(
            EventModel::Timeout,
        ),
    decreases events.len(),
{
    if events.len() > 0 {
        let before = events.drop_last();
        let last = events.last();
        lemma_timeout_shows(before);
        assert(events =~= before.push(last));
        let shown = normalized_stream(before);
        if before.contains(EventModel::Timeout) {
            let i = choose|i: int| 0 <= i < before.len() && before[i] == EventModel::Timeout;
            assert(events[i] == EventModel::Timeout);
            let k = choose|k: int| 0 <= k < shown.len() && shown[k] == NormModel::Timeout;
            assert(normalized_stream(events)[k] == NormModel::Timeout);
        } else if last == EventModel::Timeout {
            assert(events[events.len() - 1] == EventModel::Timeout);
            assert(normalized_stream(events)[shown.len() as int] == NormModel::Timeout);
        } else {
            if events.contains(EventModel::Timeout) {
                let i = choose|i: int| 0 <= i < events.len() && events[i] == EventModel::Timeout;
                assert(before[i] == EventModel::Timeout);
            }
            if normalized_stream(events).contains(NormModel::Timeout) {
                let all = normalized_stream(events);
                let k = choose|k: int| 0 <= k < all.len() && all[k] == NormModel::Timeout;
                assert(k < shown.len());
                assert(shown[k] == NormModel::Timeout);
            }
        }
    }
}

/// Where one server answers in time and the other does not, the streams part.
pub proof fn law_one_sided_timeout_diverges(pg: Seq<EventModel>, target: Seq<EventModel>)
    requires
        pg.contains(EventModel::Timeout) != target.contains(EventModel::Timeout),
    ensures
        normalized_stream(pg) != normalized_stream(target),
{
    lemma_timeout_shows(pg);
    lemma_timeout_shows(target);
}

/// The server's key and its parameters are skipped, and so is what no comparison knows. Every other
/// message is compared, as a message of its own kind.
pub proof fn law_message_keeps_its_kind(message: MessageModel)
    ensures
        normalized(message) is None <==> message is BackendKeyData || message is ParameterStatus
            || message is Other,
        message is ReadyForQuery <==> normalized(message) is Some && normalized(message)->0 is ReadyForQuery,
        message is ErrorResponse <==> normalized(message) is Some && normalized(message)->0 is ErrorResponse,
        message is NoticeResponse <==> normalized(message) is Some && normalized(message)->0 is NoticeResponse,
        message is NotificationResponse <==> normalized(message) is Some && normalized(message)->0 is NotificationResponse,
        message is RowDescription <==> normalized(message) is Some && normalized(message)->0 is RowDescription,
        message is DataRow <==> normalized(message) is Some && normalized(message)->0 is DataRow,
        message is CommandComplete <==> normalized(message) is Some && normalized(message)->0 is CommandComplete,
        message is ParameterDescription <==> normalized(message) is Some && normalized(message)->0 is ParameterDescription,
        message is CopyInResponse <==> normalized(message) is Some && normalized(message)->0 is CopyInResponse,
        message is CopyOutResponse <==> normalized(message) is Some && normalized(message)->0 is CopyOutResponse,
        message is CopyData <==> normalized(message) is Some && normalized(message)->0 is CopyData,
        message is ParseComplete <==> normalized(message) == Some(NormModel::ParseComplete),
        message is BindComplete <==> normalized(message) == Some(NormModel::BindComplete),
        message is CloseComplete <==> normalized(message) == Some(NormModel::CloseComplete),
        message is NoData <==> normalized(message) == Some(NormModel::NoData),
        message is EmptyQueryResponse <==> normalized(message) == Some(NormModel::EmptyQueryResponse),
        message is PortalSuspended <==> normalized(message) == Some(NormModel::PortalSuspended),
        message is CopyDone <==> normalized(message) == Some(NormModel::CopyDone),
{
}

/// Messages of different kinds never compare equal.
pub proof fn law_different_kinds_differ(a: MessageModel, b: MessageModel)
    requires
        normalized(a) is Some,
        normalized(a) == normalized(b),
    ensures
        a is ReadyForQuery <==> b is ReadyForQuery,
        a is ErrorResponse <==> b is ErrorResponse,
        a is NoticeResponse <==> b is NoticeResponse,
        a is NotificationResponse <==> b is NotificationResponse,
        a is RowDescription <==> b is RowDescription,
        a is DataRow <==> b is DataRow,
        a is CommandComplete <==> b is CommandComplete,
        a is ParameterDescription <==> b is ParameterDescription,
        a is CopyInResponse <==> b is CopyInResponse,
        a is CopyOutResponse <==> b is CopyOutResponse,
        a is CopyData <==> b is CopyData,
        a is ParseComplete <==> b is ParseComplete,
        a is BindComplete <==> b is BindComplete,
        a is CloseComplete <==> b is CloseComplete,
        a is NoData <==> b is NoData,
        a is EmptyQueryResponse <==> b is EmptyQueryResponse,
        a is PortalSuspended <==> b is PortalSuspended,
        a is CopyDone <==> b is CopyDone,
{
}

/// Two rows compare equal exactly where they have the same number of columns and each column is
/// NULL in both or holds the same bytes in both. All columns are compared, in order.
pub proof fn law_rows_compared(a: Seq<Option<Seq<u8>>>, b: Seq<Option<Seq<u8>>>)
    ensures
        normalized(MessageModel::DataRow { columns: a }) == normalized(
            MessageModel::DataRow { columns: b },
        ) <==> {
            &&& a.len() == b.len()
            &&& forall|i: int|
                0 <= i < a.len() ==> {
                    &&& #[trigger] a[i] is None <==> b[i] is None
                    &&& a[i] is Some ==> a[i]->0 == b[i]->0
                }
        },
        normalized(MessageModel::DataRow { columns: a }) matches Some(
            NormModel::DataRow { columns: shown },
        ) && shown.len() == a.len() && forall|i: int|
            0 <= i < a.len() ==> #[trigger] shown[i] == a[i],
{
    if a.len() == b.len() && forall|i: int|
        0 <= i < a.len() ==> {
            &&& #[trigger] a[i] is None <==> b[i] is None
            &&& a[i] is Some ==> a[i]->0 == b[i]->0
        } {
        assert forall|i: int| 0 <= i < a.len() implies a[i] == b[i] by {
            assert(a[i] is None <==> b[i] is None);
        }
        assert(a =~= b);
    }
}

/// Two errors compare equal exactly where their codes and their messages are equal, and so do two
/// notices. Each is shown with its own code and message.
pub proof fn law_responses_compared(
    code: Seq<char>,
    message: Seq<char>,
    other_code: Seq<char>,
    other_message: Seq<char>,
)
    ensures
        normalized(MessageModel::ErrorResponse { code, message }) == normalized(
            MessageModel::ErrorResponse { code: other_code, message: other_message },
        ) <==> code == other_code && message == other_message,
        normalized(MessageModel::NoticeResponse { code, message }) == normalized(
            MessageModel::NoticeResponse { code: other_code, message: other_message },
        ) <==> code == other_code && message == other_message,
        normalized(MessageModel::ErrorResponse { code, message }) == Some(
            NormModel::ErrorResponse { code, message },
        ),
        normalized(MessageModel::NoticeResponse { code, message }) == Some(
            NormModel::NoticeResponse { code, message },
        ),
{
}

/// Two row descriptions compare equal exactly where they describe the same number of columns, and
/// each column has the same name, type and format in both. What a description leaves out counts as
/// the empty name, and as zero.
pub proof fn law_row_descriptions_compared(a: Seq<RowColumnModel>, b: Seq<RowColumnModel>)
    ensures
        normalized(MessageModel::RowDescription { columns: a }) == normalized(
            MessageModel::RowDescription { columns: b },
        ) <==> a.len() == b.len() && forall|i: int|
            0 <= i < a.len() ==> {
                &&& (#[trigger] a[i]).name.unwrap_or(Seq::empty()) == b[i].name.unwrap_or(
                    Seq::empty(),
                )
                &&& a[i].type_oid.unwrap_or(0) == b[i].type_oid.unwrap_or(0)
                &&& a[i].format.unwrap_or(0) == b[i].format.unwrap_or(0)
            },
        normalized(MessageModel::RowDescription { columns: a }) matches Some(
            NormModel::RowDescription { columns: shown },
        ) && shown.len() == a.len() && forall|i: int|
            0 <= i < a.len() ==> {
                &&& (#[trigger] shown[i]).name == a[i].name.unwrap_or(Seq::empty())
                &&& shown[i].type_oid == a[i].type_oid.unwrap_or(0)
                &&& shown[i].format == a[i].format.unwrap_or(0)
            },
{
    let shown_a = a.map_values(|c: RowColumnModel| normalized_column(c));
    let shown_b = b.map_values(|c: RowColumnModel| normalized_column(c));
    assert(normalized(MessageModel::RowDescription { columns: a }) == Some(
        NormModel::RowDescription { columns: shown_a },
    ));
    assert(normalized(MessageModel::RowDescription { columns: b }) == Some(
        NormModel::RowDescription { columns: shown_b },
    ));
    if shown_a == shown_b {
        assert(shown_a.len() == a.len() && shown_b.len() == b.len());
        assert forall|i: int| 0 <= i < a.len() implies (#[trigger] a[i]).name.unwrap_or(
            Seq::empty(),
        ) == b[i].name.unwrap_or(Seq::empty()) && a[i].type_oid.unwrap_or(0)
            == b[i].type_oid.unwrap_or(0) && a[i].format.unwrap_or(0) == b[i].format.unwrap_or(
            0,
        ) by {
            assert(shown_a[i] == normalized_column(a[i]));
            assert(shown_b[i] == normalized_column(b[i]));
            assert(a[i].name is None ==> normalized_column(a[i]).name =~= Seq::empty());
            assert(b[i].name is None ==> normalized_column(b[i]).name =~= Seq::empty());
        }
    }
    if a.len() == b.len() && forall|i: int|
        0 <= i < a.len() ==> {
            &&& (#[trigger] a[i]).name.unwrap_or(Seq::empty()) == b[i].name.unwrap_or(Seq::empty())
            &&& a[i].type_oid.unwrap_or(0) == b[i].type_oid.unwrap_or(0)
            &&& a[i].format.unwrap_or(0) == b[i].format.unwrap_or(0)
        } {
        assert forall|i: int| 0 <= i < a.len() implies shown_a[i] == shown_b[i] by {
            assert(a[i].name.unwrap_or(Seq::empty()) == b[i].name.unwrap_or(Seq::empty()));
            assert(normalized_column(a[i]).name =~= normalized_column(b[i]).name);
        }
        assert(shown_a =~= shown_b);
    }
}

/// Two command tags compare equal exactly where they are the same text, and two pieces of copied
/// data exactly where they are the same bytes.
pub proof fn law_tags_and_copied_data_compared(
    tag: Seq<char>,
    other_tag: Seq<char>,
    data: Seq<u8>,
    other_data: Seq<u8>,
)
    ensures
        normalized(MessageModel::CommandComplete { tag }) == normalized(
            MessageModel::CommandComplete { tag: other_tag },
        ) <==> tag == other_tag,
        normalized(MessageModel::CommandComplete { tag }) == Some(
            NormModel::CommandComplete { tag },
        ),
        normalized(MessageModel::CopyData { data }) == normalized(
            MessageModel::CopyData { data: other_data },
        ) <==> data == other_data,
        normalized(MessageModel::CopyData { data }) == Some(NormModel::CopyData { data }),
{
}

/// Two parameter descriptions compare equal exactly where they describe the same number of
/// parameters, each of the same type. A type that is left out counts as zero.
pub proof fn law_parameter_descriptions_compared(a: Seq<Option<u32>>, b: Seq<Option<u32>>)
    ensures
        normalized(MessageModel::ParameterDescription { oids: a }) == normalized(
            MessageModel::ParameterDescription { oids: b },
        ) <==> a.len() == b.len() && forall|i: int|
            0 <= i < a.len() ==> (#[trigger] a[i]).unwrap_or(0) == b[i].unwrap_or(0),
        normalized(MessageModel::ParameterDescription { oids: a }) matches Some(
            NormModel::ParameterDescription { oids: shown },
        ) && shown.len() == a.len() && forall|i: int|
            0 <= i < a.len() ==> #[trigger] shown[i] == a[i].unwrap_or(0),
{
    let shown_a = a.map_values(|o: Option<u32>| or_zero_u32(o));
    let shown_b = b.map_values(|o: Option<u32>| or_zero_u32(o));
    assert(normalized(MessageModel::ParameterDescription { oids: a }) == Some(
        NormModel::ParameterDescription { oids: shown_a },
    ));
    assert(normalized(MessageModel::ParameterDescription { oids: b }) == Some(
        NormModel::ParameterDescription { oids: shown_b },
    ));
    if shown_a == shown_b {
        assert(shown_a.len() == a.len() && shown_b.len() == b.len());
        assert forall|i: int| 0 <= i < a.len() implies (#[trigger] a[i]).unwrap_or(0)
            == b[i].unwrap_or(0) by {
            assert(shown_a[i] == a[i].unwrap_or(0));
            assert(shown_b[i] == b[i].unwrap_or(0));
        }
    }
    if a.len() == b.len() && forall|i: int|
        0 <= i < a.len() ==> (#[trigger] a[i]).unwrap_or(0) == b[i].unwrap_or(0) {
        assert(shown_a =~= shown_b);
    }
}

/// Two answers to the start of a copy compare equal exactly where their formats are equal and each
/// of their columns has the same format. A format that is left out counts as zero.
pub proof fn law_copy_responses_compared(
    format: u16,
    a: Seq<Option<u16>>,
    other_format: u16,
    b: Seq<Option<u16>>,
)
    ensures
        normalized(MessageModel::CopyInResponse { format, column_formats: a }) == normalized(
            MessageModel::CopyInResponse { format: other_format, column_formats: b },
        ) <==> format == other_format && a.len() == b.len() && forall|i: int|
            0 <= i < a.len() ==> (#[trigger] a[i]).unwrap_or(0) == b[i].unwrap_or(0),
        normalized(MessageModel::CopyOutResponse { format, column_formats: a }) == normalized(
            MessageModel::CopyOutResponse { format: other_format, column_formats: b },
        ) <==> format == other_format && a.len() == b.len() && forall|i: int|
            0 <= i < a.len() ==> (#[trigger] a[i]).unwrap_or(0) == b[i].unwrap_or(0),
        normalized(MessageModel::CopyInResponse { format, column_formats: a }) matches Some(
            NormModel::CopyInResponse { format: f, column_formats: shown },
        ) && f == format && shown.len() == a.len() && forall|i: int|
            0 <= i < a.len() ==> #[trigger] shown[i] == a[i].unwrap_or(0),
        normalized(MessageModel::CopyOutResponse { format, column_formats: a }) matches Some(
            NormModel::CopyOutResponse { format: f, column_formats: shown },
        ) && f == format && shown.len() == a.len() && forall|i: int|
            0 <= i < a.len() ==> #[trigger] shown[i] == a[i].unwrap_or(0),
{
    let shown_a = normalized_formats(a);
    let shown_b = normalized_formats(b);
    if shown_a == shown_b {
        assert(shown_a.len() == a.len() && shown_b.len() == b.len());
        assert forall|i: int| 0 <= i < a.len() implies (#[trigger] a[i]).unwrap_or(0)
            == b[i].unwrap_or(0) by {
            assert(shown_a[i] == a[i].unwrap_or(0));
            assert(shown_b[i] == b[i].unwrap_or(0));
        }
    }
    if a.len() == b.len() && forall|i: int|
        0 <= i < a.len() ==> (#[trigger] a[i]).unwrap_or(0) == b[i].unwrap_or(0) {
        assert(shown_a =~= shown_b);
    }
}

/// Two ReadyForQuery messages compare equal exactly where the transaction status is the same, which
/// is shown by its name.
pub proof fn law_ready_messages_compared(a: TransactionStatus, b: TransactionStatus)
    ensures
        normalized(MessageModel::ReadyForQuery { status: a }) == normalized(
            MessageModel::ReadyForQuery { status: b },
        ) <==> a == b,
        normalized(MessageModel::ReadyForQuery { status: TransactionStatus::Idle }) == Some(
            NormModel::ReadyForQuery { status: "Idle"@ },
        ),
        normalized(MessageModel::ReadyForQuery { status: TransactionStatus::InTransaction }) == Some(
            NormModel::ReadyForQuery { status: "InTransaction"@ },
        ),
        normalized(MessageModel::ReadyForQuery { status: TransactionStatus::Failed }) == Some(
            NormModel::ReadyForQuery { status: "Failed"@ },
        ),
{
    reveal_strlit("Idle");
    reveal_strlit("InTransaction");
    reveal_strlit("Failed");
    assert("Idle"@.len() == 4 && "InTransaction"@.len() == 13 && "Failed"@.len() == 6);
}

/// A message is compared as it is, and a timeout and a disconnect with its reason stand in the
/// stream beside the messages: no message compares equal to them, nor the one to the other, nor a
/// disconnect to one with another reason.
pub proof fn law_events_compared(message: MessageModel, reason: Seq<char>, other: Seq<char>)
    ensures
        normalized_event(EventModel::Message(message)) == normalized(message),
        normalized_event(EventModel::Timeout) == Some(NormModel::Timeout),
        normalized_event(EventModel::Disconnected(reason)) == Some(
            NormModel::Disconnected(reason),
        ),
        normalized_event(EventModel::Disconnected(reason)) == normalized_event(
            EventModel::Disconnected(other),
        ) <==> reason == other,
        normalized_event(EventModel::Message(message)) != normalized_event(EventModel::Timeout),
        normalized_event(EventModel::Message(message)) != normalized_event(
            EventModel::Disconnected(reason),
        ),
        normalized_event(EventModel::Timeout) != normalized_event(
            EventModel::Disconnected(reason),
        ),
{
}

/// Each event is compared where it stands: a further event adds its comparable form at the end of
/// the stream, or nothing where it is skipped.
pub proof fn law_stream_grows_event_by_event(events: Seq<EventModel>, event: EventModel)
    ensures
        normalized_stream(seq![]) == Seq::<NormModel>::empty(),
        normalized_event(event) is None ==> normalized_stream(events.push(event))
            == normalized_stream(events),
        normalized_event(event) matches Some(message) ==> normalized_stream(events.push(event))
            == normalized_stream(events).push(message),
{
    assert(events.push(event).drop_last() =~= events);
}

/// A divergence tells where the streams part and what each server sent there. Before its index both
/// sent the same; at its index it holds the oracle's message and the target's, or none where that
/// stream has ended; and it holds the operations, each of them.
pub proof fn law_divergence_tells_what_each_server_sent(
    divergence: Divergence,
    pg: Seq<NormModel>,
    target: Seq<NormModel>,
    ops: Seq<OpModel>,
)
    requires
        comparison(Some(divergence), pg, target, ops),
    ensures
        divergence.index <= pg.len(),
        divergence.index <= target.len(),
        pg.take(divergence.index as int) == target.take(divergence.index as int),
        divergence.expected is None <==> divergence.index == pg.len(),
        divergence.expected matches Some(message) ==> message@ == pg[divergence.index as int],
        divergence.actual is None <==> divergence.index == target.len(),
        divergence.actual matches Some(message) ==> message@ == target[divergence.index as int],
        divergence.index < pg.len() && divergence.index < target.len()
            ==> pg[divergence.index as int] != target[divergence.index as int],
        divergence.ops@.len() == ops.len(),
        forall|i: int| 0 <= i < ops.len() ==> (#[trigger] divergence.ops@[i])@ == ops[i],
{
    law_first_mismatch_is_behind_a_common_start(pg, target, divergence.index as int);
    assert forall|i: int| 0 <= i < ops.len() implies (#[trigger] divergence.ops@[i])@
        == ops[i] by {
        assert(op_models(divergence.ops@)[i] == divergence.ops@[i]@);
    }
}

/// What the oracle sent before a mismatch: no more than there is.
pub open spec fn before_mismatch(pg: Seq<NormModel>, divergence: Divergence) -> Seq<NormModel> {
    Seq::new(
        if divergence.index <= pg.len() {
            divergence.index as nat
        } else {
            pg.len()
        },
        |i: int| pg[i],
    )
}

/// The divergence shows behind an operation exactly where that operation is a Sync or a Query, and
/// as many Sync and Query operations stand before it as there are ReadyForQuery messages before
/// the mismatch in the oracle's stream.
pub proof fn law_divergence_placed_by_ready_count(
    pg: Seq<NormModel>,
    divergence: Divergence,
    k: nat,
)
    ensures
        mismatch_place(pg, divergence) == Some(k) <==> {
            let ops = op_models(divergence.ops@);
            let answered = |op: OpModel| op is Sync || op is Query;
            let ready = |m: NormModel| m is ReadyForQuery;
            &&& k < ops.len()
            &&& ops[k as int] is Sync || ops[k as int] is Query
            &&& ops.take(k as int).filter(answered).len() == before_mismatch(
                pg,
                divergence,
            ).filter(ready).len()
        },
{
    let ops = op_models(divergence.ops@);
    let cycle = cycle_at(pg, divergence.index as nat);
    let before = before_mismatch(pg, divergence);
    assert(divergence.index >= pg.len() ==> before =~= pg);
    assert(divergence.index < pg.len() ==> before =~= pg.take(divergence.index as int));
    lemma_ready_messages_are_filtered(before);
    lemma_answered_are_filtered(ops.take(k as int));
    let placed = k < ops.len() && ends_cycle(ops, k as int, cycle);
    if exists|i: int| ends_cycle(ops, i, cycle) {
        let end = choose|i: int| ends_cycle(ops, i, cycle);
        assert(mismatch_place(pg, divergence) == Some(end as nat));
        if placed {
            law_cycle_has_one_end(ops, end, k as int, cycle);
        }
    }
    assert(mismatch_place(pg, divergence) == Some(k) <==> placed);
}

proof fn lemma_ready_messages_are_filtered(stream: Seq<NormModel>)
    ensures
        ready_messages(stream) == stream.filter(|m: NormModel| m is ReadyForQuery).len(),
    decreases stream.len(),
{
    reveal_with_fuel(Seq::filter, 1);
    if stream.len() > 0 {
        lemma_ready_messages_are_filtered(stream.drop_last());
    }
}

proof fn lemma_answered_are_filtered(ops: Seq<OpModel>)
    ensures
        expected_ready(ops) == ops.filter(|op: OpModel| op is Sync || op is Query).len(),
    decreases ops.len(),
{
    reveal_with_fuel(Seq::filter, 1);
    if ops.len() > 0 {
        lemma_answered_are_filtered(ops.drop_last());
    }
}

/// No operation ends the cycle of the mismatch exactly where too few Sync and Query operations are
/// there.
pub proof fn law_divergence_unplaced_behind_the_last_ready(
    pg: Seq<NormModel>,
    divergence: Divergence,
)
    ensures
        mismatch_place(pg, divergence) is None <==> {
            let answered = |op: OpModel| op is Sync || op is Query;
            let ready = |m: NormModel| m is ReadyForQuery;
            op_models(divergence.ops@).filter(answered).len() <= before_mismatch(
                pg,
                divergence,
            ).filter(ready).len()
        },
{
    let ops = op_models(divergence.ops@);
    let cycle = cycle_at(pg, divergence.index as nat);
    let before = before_mismatch(pg, divergence);
    assert(divergence.index >= pg.len() ==> before =~= pg);
    assert(divergence.index < pg.len() ==> before =~= pg.take(divergence.index as int));
    lemma_ready_messages_are_filtered(before);
    lemma_answered_are_filtered(ops);
    if exists|i: int| ends_cycle(ops, i, cycle) {
        let end = choose|i: int| ends_cycle(ops, i, cycle);
        lemma_ready_grows(ops, end, ops.len() as int);
        assert(ops.take(ops.len() as int) =~= ops);
    } else if expected_ready(ops) > cycle {
        let i = lemma_cycle_ends(ops, cycle);
        assert(ends_cycle(ops, i, cycle));
    }
}

proof fn lemma_cycle_ends(ops: Seq<OpModel>, cycle: nat) -> (i: int)
    requires
        expected_ready(ops) > cycle,
    ensures
        ends_cycle(ops, i, cycle),
    decreases ops.len(),
{
    let before = ops.drop_last();
    assert(ops.take(ops.len() - 1) =~= before);
    if expected_ready(before) > cycle {
        let i = lemma_cycle_ends(before, cycle);
        assert(before.take(i) =~= ops.take(i));
        i
    } else {
        ops.len() - 1
    }
}

/// Two normalized messages are equal exactly where they hold the same, and a stream shows each of
/// its messages, in order.
pub proof fn law_equal_messages_hold_the_same(
    a: NormalizedMsg,
    b: NormalizedMsg,
    stream: Seq<NormalizedMsg>,
)
    ensures
        a.eq_spec(&b) <==> a@ == b@,
        norm_models(stream).len() == stream.len(),
        forall|i: int| 0 <= i < stream.len() ==> #[trigger] norm_models(stream)[i] == stream[i]@,
{
}

/// Two described columns are equal exactly where name, type and format are.
pub proof fn law_equal_columns_hold_the_same(a: ColumnDesc, b: ColumnDesc)
    ensures
        a.eq_spec(&b) <==> a.name@ == b.name@ && a.type_oid == b.type_oid && a.format == b.format,
{
}

/// A message, a place and a row description are seen with all that they hold, and what is missing
/// as missing.
pub proof fn law_seen_as_it_is(
    message: Option<NormalizedMsg>,
    place: Option<usize>,
    columns: Seq<ColumnDesc>,
)
    ensures
        norm_option(message) is None <==> message is None,
        message matches Some(known) ==> norm_option(message) == Some(known@),
        op_place(place) is None <==> place is None,
        place matches Some(index) ==> op_place(place) == Some(index as nat),
        column_models(columns).len() == columns.len(),
        forall|i: int|
            0 <= i < columns.len() ==> {
                &&& (#[trigger] column_models(columns)[i]).name == columns[i].name@
                &&& column_models(columns)[i].type_oid == columns[i].type_oid
                &&& column_models(columns)[i].format == columns[i].format
            },
{
}

} // verus!
