//! Backend messages as plain values, and how they are read off `pg_stream`'s messages.

use pg_stream::PgMessage;
use vstd::prelude::*;

verus! {

/// The transaction status that a ReadyForQuery reports.
#[derive(Debug, Clone, Copy, PartialEq, Eq, Structural)]
pub enum TransactionStatus {
    Idle,
    InTransaction,
    Failed,
}

/// One column of a RowDescription. A field is `None` where the message does not hold it.
#[derive(Debug)]
pub struct RowColumn {
    pub name: Option<String>,
    pub type_oid: Option<u32>,
    pub format: Option<u16>,
}

/// A message from a server, with the fields that a comparison reads.
#[derive(Debug)]
#[allow(inconsistent_fields)]
pub enum BackendMessage {
    ReadyForQuery { status: TransactionStatus },
    ErrorResponse { code: String, message: String },
    NoticeResponse { code: String, message: String },
    NotificationResponse { channel: String, payload: String },
    RowDescription { columns: Vec<RowColumn> },
    DataRow { columns: Vec<Option<Vec<u8>>> },
    CommandComplete { tag: String },
    ParameterDescription { oids: Vec<Option<u32>> },
    CopyInResponse { format: u16, column_formats: Vec<Option<u16>> },
    CopyOutResponse { format: u16, column_formats: Vec<Option<u16>> },
    CopyData { data: Vec<u8> },
    ParseComplete,
    BindComplete,
    CloseComplete,
    NoData,
    EmptyQueryResponse,
    PortalSuspended,
    CopyDone,
    BackendKeyData,
    ParameterStatus,
    Other,
}

/// What one column of a RowDescription holds.
pub struct RowColumnModel {
    pub name: Option<Seq<char>>,
    pub type_oid: Option<u32>,
    pub format: Option<u16>,
}

/// What a message holds.
#[allow(inconsistent_fields)]
pub enum MessageModel {
    ReadyForQuery { status: TransactionStatus },
    ErrorResponse { code: Seq<char>, message: Seq<char> },
    NoticeResponse { code: Seq<char>, message: Seq<char> },
    NotificationResponse { channel: Seq<char>, payload: Seq<char> },
    RowDescription { columns: Seq<RowColumnModel> },
    DataRow { columns: Seq<Option<Seq<u8>>> },
    CommandComplete { tag: Seq<char> },
    ParameterDescription { oids: Seq<Option<u32>> },
    CopyInResponse { format: u16, column_formats: Seq<Option<u16>> },
    CopyOutResponse { format: u16, column_formats: Seq<Option<u16>> },
    CopyData { data: Seq<u8> },
    ParseComplete,
    BindComplete,
    CloseComplete,
    NoData,
    EmptyQueryResponse,
    PortalSuspended,
    CopyDone,
    BackendKeyData,
    ParameterStatus,
    Other,
}

/// What an optional text holds.
pub open spec fn text_model(text: Option<String>) -> Option<Seq<char>> {
    match text {
        Some(s) => Some(s@),
        None => None,
    }
}

/// What an optional byte string holds.
pub open spec fn bytes_model(bytes: Option<Vec<u8>>) -> Option<Seq<u8>> {
    match bytes {
        Some(b) => Some(b@),
        None => None,
    }
}

impl View for RowColumn {
    type V = RowColumnModel;

    open spec fn view(&self) -> RowColumnModel {
        RowColumnModel {
            name: text_model(self.name),
            type_oid: self.type_oid,
            format: self.format,
        }
    }
}

/// What a list of row columns holds.
pub open spec fn row_models(columns: Seq<RowColumn>) -> Seq<RowColumnModel> {
    columns.map_values(|c: RowColumn| c@)
}

/// What a list of column values holds.
pub open spec fn value_models(values: Seq<Option<Vec<u8>>>) -> Seq<Option<Seq<u8>>> {
    values.map_values(|v: Option<Vec<u8>>| bytes_model(v))
}

impl View for BackendMessage {
    type V = MessageModel;

    open spec fn view(&self) -> MessageModel {
        match self {
            BackendMessage::ReadyForQuery { status } => MessageModel::ReadyForQuery {
                status: *status,
            },
            BackendMessage::ErrorResponse { code, message } => MessageModel::ErrorResponse {
                code: code@,
                message: message@,
            },
            BackendMessage::NoticeResponse { code, message } => MessageModel::NoticeResponse {
                code: code@,
                message: message@,
            },
            BackendMessage::NotificationResponse { channel, payload } =>
                MessageModel::NotificationResponse { channel: channel@, payload: payload@ },
            BackendMessage::RowDescription { columns } => MessageModel::RowDescription {
                columns: row_models(columns@),
            },
            BackendMessage::DataRow { columns } => MessageModel::DataRow {
                columns: value_models(columns@),
            },
            BackendMessage::CommandComplete { tag } => MessageModel::CommandComplete { tag: tag@ },
            BackendMessage::ParameterDescription { oids } => MessageModel::ParameterDescription {
                oids: oids@,
            },
            BackendMessage::CopyInResponse { format, column_formats } =>
                MessageModel::CopyInResponse { format: *format, column_formats: column_formats@ },
            BackendMessage::CopyOutResponse { format, column_formats } =>
                MessageModel::CopyOutResponse { format: *format, column_formats: column_formats@ },
            BackendMessage::CopyData { data } => MessageModel::CopyData { data: data@ },
            BackendMessage::ParseComplete => MessageModel::ParseComplete,
            BackendMessage::BindComplete => MessageModel::BindComplete,
            BackendMessage::CloseComplete => MessageModel::CloseComplete,
            BackendMessage::NoData => MessageModel::NoData,
            BackendMessage::EmptyQueryResponse => MessageModel::EmptyQueryResponse,
            BackendMessage::PortalSuspended => MessageModel::PortalSuspended,
            BackendMessage::CopyDone => MessageModel::CopyDone,
            BackendMessage::BackendKeyData => MessageModel::BackendKeyData,
            BackendMessage::ParameterStatus => MessageModel::ParameterStatus,
            BackendMessage::Other => MessageModel::Other,
        }
    }
}

impl Clone for RowColumn {
    fn clone(&self) -> (copy: RowColumn)
        ensures
            copy@ == self@,
    {
        RowColumn {
            name: match &self.name {
                Some(name) => Some(name.clone()),
                None => None,
            },
            type_oid: self.type_oid,
            format: self.format,
        }
    }
}

/// Copies the values of a row.
pub fn clone_values(values: &Vec<Option<Vec<u8>>>) -> (copy: Vec<Option<Vec<u8>>>)
    ensures
        value_models(copy@) == value_models(values@),
{
    let mut copy: Vec<Option<Vec<u8>>> = Vec::new();
    let mut i: usize = 0;
    while i < values.len()
        invariant
            i <= values.len(),
            value_models(copy@) =~= value_models(values@).take(i as int),
        decreases values.len() - i,
    {
        let ghost before = copy@;
        let value: Option<Vec<u8>> = match &values[i] {
            Some(bytes) => Some(bytes.clone()),
            None => None,
        };
        copy.push(value);
        assert(bytes_model(value) == bytes_model(values@[i as int]));
        assert(value_models(copy@) =~= value_models(before).push(bytes_model(value)));
        i += 1;
    }
    copy
}

impl Clone for BackendMessage {
    fn clone(&self) -> (copy: BackendMessage)
        ensures
            copy@ == self@,
    {
        match self {
            BackendMessage::ReadyForQuery { status } => BackendMessage::ReadyForQuery {
                status: *status,
            },
            BackendMessage::ErrorResponse { code, message } => BackendMessage::ErrorResponse {
                code: code.clone(),
                message: message.clone(),
            },
            BackendMessage::NoticeResponse { code, message } => BackendMessage::NoticeResponse {
                code: code.clone(),
                message: message.clone(),
            },
            BackendMessage::NotificationResponse { channel, payload } =>
                BackendMessage::NotificationResponse {
                    channel: channel.clone(),
                    payload: payload.clone(),
                },
            BackendMessage::RowDescription { columns } => {
                let copied = columns.clone();
                assert(row_models(copied@) =~= row_models(columns@));
                BackendMessage::RowDescription { columns: copied }
            },
            BackendMessage::DataRow { columns } => BackendMessage::DataRow {
                columns: clone_values(columns),
            },
            BackendMessage::CommandComplete { tag } => BackendMessage::CommandComplete {
                tag: tag.clone(),
            },
            BackendMessage::ParameterDescription { oids } => {
                let copied = oids.clone();
                assert(copied@ =~= oids@);
                BackendMessage::ParameterDescription { oids: copied }
            },
            BackendMessage::CopyInResponse { format, column_formats } => {
                let copied = column_formats.clone();
                assert(copied@ =~= column_formats@);
                BackendMessage::CopyInResponse { format: *format, column_formats: copied }
            },
            BackendMessage::CopyOutResponse { format, column_formats } => {
                let copied = column_formats.clone();
                assert(copied@ =~= column_formats@);
                BackendMessage::CopyOutResponse { format: *format, column_formats: copied }
            },
            BackendMessage::CopyData { data } => BackendMessage::CopyData { data: data.clone() },
            BackendMessage::ParseComplete => BackendMessage::ParseComplete,
            BackendMessage::BindComplete => BackendMessage::BindComplete,
            BackendMessage::CloseComplete => BackendMessage::CloseComplete,
            BackendMessage::NoData => BackendMessage::NoData,
            BackendMessage::EmptyQueryResponse => BackendMessage::EmptyQueryResponse,
            BackendMessage::PortalSuspended => BackendMessage::PortalSuspended,
            BackendMessage::CopyDone => BackendMessage::CopyDone,
            BackendMessage::BackendKeyData => BackendMessage::BackendKeyData,
            BackendMessage::ParameterStatus => BackendMessage::ParameterStatus,
            BackendMessage::Other => BackendMessage::Other,
        }
    }
}

// ---------------------------------------------------------------------------
// Reading pg_stream's messages
// ---------------------------------------------------------------------------

/// A message that `pg_stream` has received and parsed. Opaque: its fields are read
/// through the functions below.
#[verifier::external_type_specification]
#[verifier::external_body]
pub struct ExPgMessage(PgMessage);

/// What a `PgMessage` holds: its variant, with the values that its accessors give.
/// The variants that no comparison reads are `Other`.
pub uninterp spec fn message_contents(msg: PgMessage) -> MessageModel;

/// The kinds of message whose presence alone is read off.
#[derive(Clone, Copy)]
enum BareKind {
    ParseComplete,
    BindComplete,
    CloseComplete,
    NoData,
    EmptyQueryResponse,
    PortalSuspended,
    CopyDone,
    BackendKeyData,
    ParameterStatus,
}

/// The kinds of message that carry fields.
#[derive(Clone, Copy)]
enum FieldKind {
    ReadyForQuery,
    ErrorResponse,
    NoticeResponse,
    NotificationResponse,
    RowDescription,
    DataRow,
    CommandComplete,
    ParameterDescription,
    CopyInResponse,
    CopyOutResponse,
    CopyData,
}

/// The kind of a message without fields.
spec fn bare_kind_of(model: MessageModel) -> Option<BareKind> {
    match model {
        MessageModel::ParseComplete => Some(BareKind::ParseComplete),
        MessageModel::BindComplete => Some(BareKind::BindComplete),
        MessageModel::CloseComplete => Some(BareKind::CloseComplete),
        MessageModel::NoData => Some(BareKind::NoData),
        MessageModel::EmptyQueryResponse => Some(BareKind::EmptyQueryResponse),
        MessageModel::PortalSuspended => Some(BareKind::PortalSuspended),
        MessageModel::CopyDone => Some(BareKind::CopyDone),
        MessageModel::BackendKeyData => Some(BareKind::BackendKeyData),
        MessageModel::ParameterStatus => Some(BareKind::ParameterStatus),
        _ => None,
    }
}

/// The kind of a message with fields.
spec fn field_kind_of(model: MessageModel) -> Option<FieldKind> {
    match model {
        MessageModel::ReadyForQuery { .. } => Some(FieldKind::ReadyForQuery),
        MessageModel::ErrorResponse { .. } => Some(FieldKind::ErrorResponse),
        MessageModel::NoticeResponse { .. } => Some(FieldKind::NoticeResponse),
        MessageModel::NotificationResponse { .. } => Some(FieldKind::NotificationResponse),
        MessageModel::RowDescription { .. } => Some(FieldKind::RowDescription),
        MessageModel::DataRow { .. } => Some(FieldKind::DataRow),
        MessageModel::CommandComplete { .. } => Some(FieldKind::CommandComplete),
        MessageModel::ParameterDescription { .. } => Some(FieldKind::ParameterDescription),
        MessageModel::CopyInResponse { .. } => Some(FieldKind::CopyInResponse),
        MessageModel::CopyOutResponse { .. } => Some(FieldKind::CopyOutResponse),
        MessageModel::CopyData { .. } => Some(FieldKind::CopyData),
        _ => None,
    }
}

/// Trusted: the variants of `pg_stream::PgMessage` that are read without fields.
/// The kind is that of the message's contents, and `None` for every other variant.
#[verifier::external_body]
fn bare_kind(msg: &PgMessage) -> (kind: Option<BareKind>)
    ensures
        kind == bare_kind_of(message_contents(*msg)),
{
    match msg {
        PgMessage::ParseComplete => Some(BareKind::ParseComplete),
        PgMessage::BindComplete => Some(BareKind::BindComplete),
        PgMessage::CloseComplete => Some(BareKind::CloseComplete),
        PgMessage::NoData => Some(BareKind::NoData),
        PgMessage::EmptyQueryResponse => Some(BareKind::EmptyQueryResponse),
        PgMessage::PortalSuspended => Some(BareKind::PortalSuspended),
        PgMessage::CopyDone => Some(BareKind::CopyDone),
        PgMessage::BackendKeyData(_) => Some(BareKind::BackendKeyData),
        PgMessage::ParameterStatus(_) => Some(BareKind::ParameterStatus),
        _ => None,
    }
}

/// Trusted: the variants of `pg_stream::PgMessage` whose fields are read.
/// The kind is that of the message's contents, and `None` for every other variant.
#[verifier::external_body]
fn field_kind(msg: &PgMessage) -> (kind: Option<FieldKind>)
    ensures
        kind == field_kind_of(message_contents(*msg)),
{
    match msg {
        PgMessage::ReadyForQuery(_) => Some(FieldKind::ReadyForQuery),
        PgMessage::ErrorResponse(_) => Some(FieldKind::ErrorResponse),
        PgMessage::NoticeResponse(_) => Some(FieldKind::NoticeResponse),
        PgMessage::NotificationResponse(_) => Some(FieldKind::NotificationResponse),
        PgMessage::RowDescription(_) => Some(FieldKind::RowDescription),
        PgMessage::DataRow(_) => Some(FieldKind::DataRow),
        PgMessage::CommandComplete(_) => Some(FieldKind::CommandComplete),
        PgMessage::ParameterDescription(_) => Some(FieldKind::ParameterDescription),
        PgMessage::CopyInResponse(_) => Some(FieldKind::CopyInResponse),
        PgMessage::CopyOutResponse(_) => Some(FieldKind::CopyOutResponse),
        PgMessage::CopyData(_) => Some(FieldKind::CopyData),
        _ => None,
    }
}

/// Trusted: `ReadyForQuery::status`. The status that the message reports.
#[verifier::external_body]
fn ready_status(msg: &PgMessage) -> (status: TransactionStatus)
    requires
        message_contents(*msg) is ReadyForQuery,
    ensures
        message_contents(*msg) == (MessageModel::ReadyForQuery { status }),
{
    match msg {
        PgMessage::ReadyForQuery(ready) => match ready.status() {
            pg_stream::message::TransactionStatus::Idle => TransactionStatus::Idle,
            pg_stream::message::TransactionStatus::InTransaction => TransactionStatus::InTransaction,
            pg_stream::message::TransactionStatus::Failed => TransactionStatus::Failed,
        },
        _ => TransactionStatus::Idle,
    }
}

/// Trusted: `ErrorResponse::code`. The SQLSTATE code of an error or a notice.
#[verifier::external_body]
fn response_code(msg: &PgMessage) -> (code: String)
    requires
        message_contents(*msg) is ErrorResponse || message_contents(*msg) is NoticeResponse,
    ensures
        message_contents(*msg) matches MessageModel::ErrorResponse { code: c, .. } ==> code@ == c,
        message_contents(*msg) matches MessageModel::NoticeResponse { code: c, .. } ==> code@ == c,
{
    match msg {
        PgMessage::ErrorResponse(e) | PgMessage::NoticeResponse(e) => e.code().into_owned(),
        _ => String::new(),
    }
}

/// Trusted: `ErrorResponse::message`. The primary text of an error or a notice.
#[verifier::external_body]
fn response_text(msg: &PgMessage) -> (text: String)
    requires
        message_contents(*msg) is ErrorResponse || message_contents(*msg) is NoticeResponse,
    ensures
        message_contents(*msg) matches MessageModel::ErrorResponse { message: m, .. } ==> text@
            == m,
        message_contents(*msg) matches MessageModel::NoticeResponse { message: m, .. } ==> text@
            == m,
{
    match msg {
        PgMessage::ErrorResponse(e) | PgMessage::NoticeResponse(e) => e.message().into_owned(),
        _ => String::new(),
    }
}

/// Trusted: `NotificationResponse::channel`. The channel that a notification came in on.
#[verifier::external_body]
fn notified_channel(msg: &PgMessage) -> (channel: String)
    requires
        message_contents(*msg) is NotificationResponse,
    ensures
        channel@ == message_contents(*msg)->channel,
{
    match msg {
        PgMessage::NotificationResponse(notice) => notice.channel().into_owned(),
        _ => String::new(),
    }
}

/// Trusted: `NotificationResponse::payload`. The payload of a notification.
#[verifier::external_body]
fn notified_payload(msg: &PgMessage) -> (payload: String)
    requires
        message_contents(*msg) is NotificationResponse,
    ensures
        payload@ == message_contents(*msg)->payload,
{
    match msg {
        PgMessage::NotificationResponse(notice) => notice.payload().into_owned(),
        _ => String::new(),
    }
}

/// The columns of a RowDescription.
pub open spec fn described_columns(model: MessageModel) -> Seq<RowColumnModel> {
    model->RowDescription_columns
}

/// Trusted: `RowDescription::column_count`. The number of columns described.
#[verifier::external_body]
fn row_column_count(msg: &PgMessage) -> (count: u16)
    requires
        message_contents(*msg) is RowDescription,
    ensures
        count == described_columns(message_contents(*msg)).len(),
{
    match msg {
        PgMessage::RowDescription(row) => row.column_count(),
        _ => 0,
    }
}

/// Trusted: `RowDescription::column_name`. The name of the column at an index.
#[verifier::external_body]
fn row_column_name(msg: &PgMessage, index: usize) -> (name: Option<String>)
    requires
        message_contents(*msg) is RowDescription,
        index < described_columns(message_contents(*msg)).len(),
    ensures
        text_model(name) == described_columns(message_contents(*msg))[index as int].name,
{
    match msg {
        PgMessage::RowDescription(row) => row.column_name(index).map(|name| name.into_owned()),
        _ => None,
    }
}

/// Trusted: `RowDescription::type_oid`. The type of the column at an index.
#[verifier::external_body]
fn row_type_oid(msg: &PgMessage, index: usize) -> (oid: Option<u32>)
    requires
        message_contents(*msg) is RowDescription,
        index < described_columns(message_contents(*msg)).len(),
    ensures
        oid == described_columns(message_contents(*msg))[index as int].type_oid,
{
    match msg {
        PgMessage::RowDescription(row) => row.type_oid(index),
        _ => None,
    }
}

/// Trusted: `RowDescription::format`. The format code of the column at an index, as a number.
#[verifier::external_body]
fn row_format(msg: &PgMessage, index: usize) -> (format: Option<u16>)
    requires
        message_contents(*msg) is RowDescription,
        index < described_columns(message_contents(*msg)).len(),
    ensures
        format == described_columns(message_contents(*msg))[index as int].format,
{
    match msg {
        PgMessage::RowDescription(row) => row.format(index).map(u16::from),
        _ => None,
    }
}

/// The values of a DataRow.
pub open spec fn row_values(model: MessageModel) -> Seq<Option<Seq<u8>>> {
    model->DataRow_columns
}

/// Trusted: `DataRow::column_count`. The number of values in the row.
#[verifier::external_body]
fn data_column_count(msg: &PgMessage) -> (count: u16)
    requires
        message_contents(*msg) is DataRow,
    ensures
        count == row_values(message_contents(*msg)).len(),
{
    match msg {
        PgMessage::DataRow(row) => row.column_count(),
        _ => 0,
    }
}

/// Trusted: `DataRow::column`. The value of the column at an index; `None` for NULL, and where
/// the body ends before it.
#[verifier::external_body]
fn data_column(msg: &PgMessage, index: usize) -> (value: Option<Vec<u8>>)
    requires
        message_contents(*msg) is DataRow,
        index < row_values(message_contents(*msg)).len(),
    ensures
        bytes_model(value) == row_values(message_contents(*msg))[index as int],
{
    match msg {
        PgMessage::DataRow(row) => row.column(index).map(|value| value.to_vec()),
        _ => None,
    }
}

/// Trusted: `CommandComplete::tag`. The command tag.
#[verifier::external_body]
fn command_tag(msg: &PgMessage) -> (tag: String)
    requires
        message_contents(*msg) is CommandComplete,
    ensures
        message_contents(*msg) == (MessageModel::CommandComplete { tag: tag@ }),
{
    match msg {
        PgMessage::CommandComplete(done) => done.tag().into_owned(),
        _ => String::new(),
    }
}

/// The parameter types of a ParameterDescription.
pub open spec fn described_params(model: MessageModel) -> Seq<Option<u32>> {
    model->ParameterDescription_oids
}

/// Trusted: `ParameterDescription::param_count`. The number of parameters.
#[verifier::external_body]
fn param_count(msg: &PgMessage) -> (count: u16)
    requires
        message_contents(*msg) is ParameterDescription,
    ensures
        count == described_params(message_contents(*msg)).len(),
{
    match msg {
        PgMessage::ParameterDescription(params) => params.param_count(),
        _ => 0,
    }
}

/// Trusted: `ParameterDescription::param_oid`. The type of the parameter at an index;
/// `None` where the body ends before it.
#[verifier::external_body]
fn param_oid(msg: &PgMessage, index: usize) -> (oid: Option<u32>)
    requires
        message_contents(*msg) is ParameterDescription,
        index < described_params(message_contents(*msg)).len(),
    ensures
        oid == described_params(message_contents(*msg))[index as int],
{
    match msg {
        PgMessage::ParameterDescription(params) => params.param_oid(index),
        _ => None,
    }
}

/// The overall format of a CopyInResponse or a CopyOutResponse.
pub open spec fn copy_overall_format(model: MessageModel) -> u16 {
    match model {
        MessageModel::CopyInResponse { format, .. } => format,
        MessageModel::CopyOutResponse { format, .. } => format,
        _ => 0,
    }
}

/// The column formats of a CopyInResponse or a CopyOutResponse.
pub open spec fn copy_formats(model: MessageModel) -> Seq<Option<u16>> {
    match model {
        MessageModel::CopyInResponse { column_formats, .. } => column_formats,
        MessageModel::CopyOutResponse { column_formats, .. } => column_formats,
        _ => seq![],
    }
}

/// Trusted: `CopyResponse::format`. The overall format, as a number.
#[verifier::external_body]
fn copy_format(msg: &PgMessage) -> (format: u16)
    requires
        message_contents(*msg) is CopyInResponse || message_contents(*msg) is CopyOutResponse,
    ensures
        format == copy_overall_format(message_contents(*msg)),
{
    match msg {
        PgMessage::CopyInResponse(copy) | PgMessage::CopyOutResponse(copy) => {
            u16::from(copy.format())
        },
        _ => 0,
    }
}

/// Trusted: `CopyResponse::column_count`. The number of column formats.
#[verifier::external_body]
fn copy_column_count(msg: &PgMessage) -> (count: u16)
    requires
        message_contents(*msg) is CopyInResponse || message_contents(*msg) is CopyOutResponse,
    ensures
        count == copy_formats(message_contents(*msg)).len(),
{
    match msg {
        PgMessage::CopyInResponse(copy) | PgMessage::CopyOutResponse(copy) => copy.column_count(),
        _ => 0,
    }
}

/// Trusted: `CopyResponse::column_format`. The format of the column at an index, as a number.
#[verifier::external_body]
fn copy_column_format(msg: &PgMessage, index: usize) -> (format: Option<u16>)
    requires
        message_contents(*msg) is CopyInResponse || message_contents(*msg) is CopyOutResponse,
        index < copy_formats(message_contents(*msg)).len(),
    ensures
        format == copy_formats(message_contents(*msg))[index as int],
{
    match msg {
        PgMessage::CopyInResponse(copy) | PgMessage::CopyOutResponse(copy) => {
            copy.column_format(index).map(u16::from)
        },
        _ => None,
    }
}

/// Trusted: the body of `PgMessage::CopyData`, a `bytes::Bytes`, copied with `to_vec`.
#[verifier::external_body]
fn copied_data(msg: &PgMessage) -> (data: Vec<u8>)
    requires
        message_contents(*msg) is CopyData,
    ensures
        message_contents(*msg) == (MessageModel::CopyData { data: data@ }),
{
    match msg {
        PgMessage::CopyData(data) => data.to_vec(),
        _ => Vec::new(),
    }
}

/// Reads the columns of a RowDescription.
fn read_row_columns(msg: &PgMessage) -> (columns: Vec<RowColumn>)
    requires
        message_contents(*msg) is RowDescription,
    ensures
        row_models(columns@) == described_columns(message_contents(*msg)),
{
    let count = row_column_count(msg) as usize;
    let ghost all = described_columns(message_contents(*msg));
    let mut columns: Vec<RowColumn> = Vec::new();
    let mut i: usize = 0;
    while i < count
        invariant
            i <= count,
            count == all.len(),
            all == described_columns(message_contents(*msg)),
            message_contents(*msg) is RowDescription,
            row_models(columns@) =~= all.take(i as int),
        decreases count - i,
    {
        let ghost before = columns@;
        columns.push(
            RowColumn {
                name: row_column_name(msg, i),
                type_oid: row_type_oid(msg, i),
                format: row_format(msg, i),
            },
        );
        assert(row_models(columns@) =~= row_models(before).push(all[i as int]));
        i += 1;
    }
    columns
}

/// Reads the values of a DataRow.
fn read_values(msg: &PgMessage) -> (values: Vec<Option<Vec<u8>>>)
    requires
        message_contents(*msg) is DataRow,
    ensures
        value_models(values@) == row_values(message_contents(*msg)),
{
    let count = data_column_count(msg) as usize;
    let ghost all = row_values(message_contents(*msg));
    let mut values: Vec<Option<Vec<u8>>> = Vec::new();
    let mut i: usize = 0;
    while i < count
        invariant
            i <= count,
            count == all.len(),
            all == row_values(message_contents(*msg)),
            message_contents(*msg) is DataRow,
            value_models(values@) =~= all.take(i as int),
        decreases count - i,
    {
        let ghost before = values@;
        values.push(data_column(msg, i));
        assert(value_models(values@) =~= value_models(before).push(all[i as int]));
        i += 1;
    }
    values
}

/// Reads the parameter types of a ParameterDescription.
fn read_params(msg: &PgMessage) -> (oids: Vec<Option<u32>>)
    requires
        message_contents(*msg) is ParameterDescription,
    ensures
        oids@ == described_params(message_contents(*msg)),
{
    let count = param_count(msg) as usize;
    let mut oids: Vec<Option<u32>> = Vec::new();
    let mut i: usize = 0;
    while i < count
        invariant
            i <= count,
            count == described_params(message_contents(*msg)).len(),
            message_contents(*msg) is ParameterDescription,
            oids@ =~= described_params(message_contents(*msg)).take(i as int),
        decreases count - i,
    {
        oids.push(param_oid(msg, i));
        i += 1;
    }
    oids
}

/// Reads the column formats of a CopyInResponse or a CopyOutResponse.
fn read_copy_formats(msg: &PgMessage) -> (formats: Vec<Option<u16>>)
    requires
        message_contents(*msg) is CopyInResponse || message_contents(*msg) is CopyOutResponse,
    ensures
        formats@ == copy_formats(message_contents(*msg)),
{
    let count = copy_column_count(msg) as usize;
    let mut formats: Vec<Option<u16>> = Vec::new();
    let mut i: usize = 0;
    while i < count
        invariant
            i <= count,
            count == copy_formats(message_contents(*msg)).len(),
            message_contents(*msg) is CopyInResponse || message_contents(*msg) is CopyOutResponse,
            formats@ =~= copy_formats(message_contents(*msg)).take(i as int),
        decreases count - i,
    {
        formats.push(copy_column_format(msg, i));
        i += 1;
    }
    formats
}

impl BackendMessage {
    /// Reads a message that `pg_stream` has received.
    pub fn from_pg(msg: &PgMessage) -> (message: BackendMessage)
        ensures
            message@ == message_contents(*msg),
    {
        match bare_kind(msg) {
            Some(BareKind::ParseComplete) => BackendMessage::ParseComplete,
            Some(BareKind::BindComplete) => BackendMessage::BindComplete,
            Some(BareKind::CloseComplete) => BackendMessage::CloseComplete,
            Some(BareKind::NoData) => BackendMessage::NoData,
            Some(BareKind::EmptyQueryResponse) => BackendMessage::EmptyQueryResponse,
            Some(BareKind::PortalSuspended) => BackendMessage::PortalSuspended,
            Some(BareKind::CopyDone) => BackendMessage::CopyDone,
            Some(BareKind::BackendKeyData) => BackendMessage::BackendKeyData,
            Some(BareKind::ParameterStatus) => BackendMessage::ParameterStatus,
            None => match field_kind(msg) {
                Some(FieldKind::ReadyForQuery) => BackendMessage::ReadyForQuery {
                    status: ready_status(msg),
                },
                Some(FieldKind::ErrorResponse) => BackendMessage::ErrorResponse {
                    code: response_code(msg),
                    message: response_text(msg),
                },
                Some(FieldKind::NoticeResponse) => BackendMessage::NoticeResponse {
                    code: response_code(msg),
                    message: response_text(msg),
                },
                Some(FieldKind::NotificationResponse) => BackendMessage::NotificationResponse {
                    channel: notified_channel(msg),
                    payload: notified_payload(msg),
                },
                Some(FieldKind::RowDescription) => BackendMessage::RowDescription {
                    columns: read_row_columns(msg),
                },
                Some(FieldKind::DataRow) => BackendMessage::DataRow { columns: read_values(msg) },
                Some(FieldKind::CommandComplete) => BackendMessage::CommandComplete {
                    tag: command_tag(msg),
                },
                Some(FieldKind::ParameterDescription) => BackendMessage::ParameterDescription {
                    oids: read_params(msg),
                },
                Some(FieldKind::CopyInResponse) => BackendMessage::CopyInResponse {
                    format: copy_format(msg),
                    column_formats: read_copy_formats(msg),
                },
                Some(FieldKind::CopyOutResponse) => BackendMessage::CopyOutResponse {
                    format: copy_format(msg),
                    column_formats: read_copy_formats(msg),
                },
                Some(FieldKind::CopyData) => BackendMessage::CopyData { data: copied_data(msg) },
                None => BackendMessage::Other,
            },
        }
    }
}

// ---------------------------------------------------------------------------
// Laws
// ---------------------------------------------------------------------------

/// A missing text and a missing value are seen as missing, and those that are there as what they
/// hold, be it nothing.
pub proof fn law_missing_is_not_empty(text: Option<String>, bytes: Option<Vec<u8>>)
    ensures
        text_model(text) is None <==> text is None,
        text matches Some(known) ==> text_model(text) == Some(known@),
        bytes_model(bytes) is None <==> bytes is None,
        bytes matches Some(known) ==> bytes_model(bytes) == Some(known@),
{
}

/// A row is seen value by value, and a description column by column, in order.
pub proof fn law_columns_seen_one_for_one(
    values: Seq<Option<Vec<u8>>>,
    columns: Seq<RowColumn>,
)
    ensures
        value_models(values).len() == values.len(),
        forall|i: int|
            0 <= i < values.len() ==> #[trigger] value_models(values)[i] == bytes_model(values[i]),
        row_models(columns).len() == columns.len(),
        forall|i: int|
            0 <= i < columns.len() ==> {
                &&& (#[trigger] row_models(columns)[i]).name == text_model(columns[i].name)
                &&& row_models(columns)[i].type_oid == columns[i].type_oid
                &&& row_models(columns)[i].format == columns[i].format
            },
{
}

} // verus!
