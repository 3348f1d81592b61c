//! How normalized messages and divergences are shown.

use crate::comparator::{
    column_models, mismatch_op, mismatch_place, norm_option, normalized_stream, op_place,
    ColumnDesc, ColumnModel, Divergence, NormModel, NormalizedMsg,
};
use crate::message::{bytes_model, value_models};
use crate::op::{op_models, FrontendOp, OpModel};
use crate::runner::{event_models, EventModel, ResponseEvent};
use crate::text::{comma_list, decimal, lemma_comma_list_push, push_decimal};
use vstd::prelude::*;
use vstd::utf8::{decode_utf8, valid_utf8};

verus! {

/// A text in double quotes with its special characters escaped, as std's `Debug` shows it.
pub uninterp spec fn quoted(text: Seq<char>) -> Seq<char>;

/// Trusted: std's `Debug` for `str`. The text in quotes and escaped; what is escaped how
/// is left to std, which decides it from the text alone.
#[verifier::external_body]
fn quote(text: &str) -> (shown: String)
    ensures
        shown@ == quoted(text@),
{
    format!("{:?}", text)
}

/// Trusted: std's `String::from_utf8`. The text that the bytes encode in UTF-8, and nothing where
/// they are not UTF-8.
#[verifier::external_body]
fn utf8_text(bytes: &Vec<u8>) -> (text: Option<String>)
    ensures
        text is Some <==> valid_utf8(bytes@),
        text matches Some(known) ==> known@ == decode_utf8(bytes@),
{
    String::from_utf8(bytes.clone()).ok()
}

/// Numbers in square brackets.
pub open spec fn number_list(numbers: Seq<nat>) -> Seq<char> {
    "["@ + comma_list(numbers.map_values(|n: nat| decimal(n))) + "]"@
}

/// A number that is shown in decimal.
pub trait Number: Copy {
    /// The number.
    spec fn value(self) -> nat;

    /// The number, widened.
    fn widened(self) -> (number: u64)
        ensures
            number == self.value(),
    ;
}

impl Number for u8 {
    open spec fn value(self) -> nat {
        self as nat
    }

    fn widened(self) -> (number: u64) {
        self as u64
    }
}

impl Number for u16 {
    open spec fn value(self) -> nat {
        self as nat
    }

    fn widened(self) -> (number: u64) {
        self as u64
    }
}

impl Number for u32 {
    open spec fn value(self) -> nat {
        self as nat
    }

    fn widened(self) -> (number: u64) {
        self as u64
    }
}

/// The items as numbers.
pub open spec fn numbers<N: Number>(items: Seq<N>) -> Seq<nat> {
    items.map_values(|n: N| n.value())
}

/// A column value: `None` for NULL, text in quotes, or its bytes where they are no text.
pub open spec fn value_text(value: Option<Seq<u8>>) -> Seq<char> {
    match value {
        Some(bytes) => if valid_utf8(bytes) {
            quoted(decode_utf8(bytes))
        } else {
            "Some("@ + number_list(numbers(bytes)) + ")"@
        },
        None => "None"@,
    }
}

/// A described column.
pub open spec fn column_text(column: ColumnModel) -> Seq<char> {
    "ColumnDesc { name: "@ + quoted(column.name) + ", type_oid: "@ + decimal(
        column.type_oid as nat,
    ) + ", format: "@ + decimal(column.format as nat) + " }"@
}

/// A copy response of either direction.
pub open spec fn copy_text(kind: Seq<char>, format: u16, formats: Seq<u16>) -> Seq<char> {
    kind + " { format: "@ + decimal(format as nat) + ", column_formats: "@ + number_list(
        numbers(formats),
    ) + " }"@
}

/// An error or a notice.
pub open spec fn response_text(kind: Seq<char>, code: Seq<char>, message: Seq<char>) -> Seq<char> {
    kind + " { code: "@ + quoted(code) + ", message: "@ + quoted(message) + " }"@
}

impl NormModel {
    /// The message as reports show it.
    pub open spec fn text(self) -> Seq<char> {
        match self {
            NormModel::ReadyForQuery { status } => "ReadyForQuery { status: "@ + status + " }"@,
            NormModel::ErrorResponse { code, message } => response_text(
                "ErrorResponse"@,
                code,
                message,
            ),
            NormModel::NoticeResponse { code, message } => response_text(
                "NoticeResponse"@,
                code,
                message,
            ),
            NormModel::NotificationResponse { channel, payload } =>
                "NotificationResponse { channel: "@ + quoted(channel) + ", payload: "@ + quoted(
                payload,
            ) + " }"@,
            NormModel::RowDescription { columns } => "RowDescription { columns: ["@ + comma_list(
                columns.map_values(|c: ColumnModel| column_text(c)),
            ) + "] }"@,
            NormModel::DataRow { columns } => "DataRow { columns: ["@ + comma_list(
                columns.map_values(|v: Option<Seq<u8>>| value_text(v)),
            ) + "] }"@,
            NormModel::CommandComplete { tag } => "CommandComplete { tag: "@ + quoted(tag) + " }"@,
            NormModel::ParameterDescription { oids } => "ParameterDescription { oids: "@
                + number_list(numbers(oids)) + " }"@,
            NormModel::CopyInResponse { format, column_formats } => copy_text(
                "CopyInResponse"@,
                format,
                column_formats,
            ),
            NormModel::CopyOutResponse { format, column_formats } => copy_text(
                "CopyOutResponse"@,
                format,
                column_formats,
            ),
            NormModel::CopyData { data } => "CopyData { data: "@ + number_list(numbers(data))
                + " }"@,
            NormModel::ParseComplete => "ParseComplete"@,
            NormModel::BindComplete => "BindComplete"@,
            NormModel::CloseComplete => "CloseComplete"@,
            NormModel::NoData => "NoData"@,
            NormModel::EmptyQueryResponse => "EmptyQueryResponse"@,
            NormModel::PortalSuspended => "PortalSuspended"@,
            NormModel::CopyDone => "CopyDone"@,
            NormModel::Timeout => "Timeout"@,
            NormModel::Disconnected(reason) => "Disconnected("@ + quoted(reason) + ")"@,
        }
    }
}

/// The numbered operations, one on each line.
pub open spec fn op_lines(ops: Seq<OpModel>) -> Seq<char>
    decreases ops.len(),
{
    if ops.len() == 0 {
        seq![]
    } else {
        op_lines(ops.drop_last()) + "    ["@ + decimal((ops.len() - 1) as nat) + "] "@
            + ops.last().text() + "\n"@
    }
}

/// One side of a mismatch: the message, or that the stream had ended.
pub open spec fn side_text(message: Option<NormModel>) -> Seq<char> {
    match message {
        Some(m) => m.text(),
        None => "<end of stream>"@,
    }
}

/// Behind which operation a mismatch shows, where that is known.
pub open spec fn place_text(op: Option<nat>) -> Seq<char> {
    match op {
        Some(index) => " (after op #"@ + decimal(index) + ")"@,
        None => seq![],
    }
}

/// A divergence, with the operation behind which it shows where that is known.
pub open spec fn divergence_text(divergence: Divergence, op: Option<nat>) -> Seq<char> {
    let ops = op_models(divergence.ops@);
    "  Sequence ("@ + decimal(ops.len()) + " ops):\n"@ + op_lines(ops)
        + "  First mismatch at response #"@ + decimal(divergence.index as nat) + place_text(op)
        + ":\n"@ + "    Postgres:  "@ + side_text(norm_option(divergence.expected)) + "\n"@
        + "    Target:    "@ + side_text(norm_option(divergence.actual)) + "\n"@
}

fn push_list<N: Number>(out: &mut String, items: &Vec<N>)
    ensures
        final(out)@ == old(out)@ + number_list(numbers(items@)),
{
    let ghost texts = numbers(items@).map_values(|n: nat| decimal(n));
    out.append("[");
    let mut i: usize = 0;
    assert(texts.take(0) =~= seq![]);
    assert(out@ =~= old(out)@ + "["@ + comma_list(texts.take(0)));
    while i < items.len()
        invariant
            i <= items.len(),
            texts == numbers(items@).map_values(|n: nat| decimal(n)),
            out@ == old(out)@ + "["@ + comma_list(texts.take(i as int)),
        decreases items.len() - i,
    {
        if i > 0 {
            out.append(", ");
        }
        push_decimal(out, items[i].widened());
        proof {
            lemma_comma_list_push(texts.take(i as int), texts[i as int]);
            assert(texts.take(i + 1) =~= texts.take(i as int).push(texts[i as int]));
            assert(out@ =~= old(out)@ + "["@ + comma_list(texts.take(i + 1)));
        }
        i += 1;
    }
    assert(texts.take(i as int) =~= texts);
    out.append("]");
    assert(out@ =~= old(out)@ + number_list(numbers(items@)));
}

fn push_value(out: &mut String, value: &Option<Vec<u8>>)
    ensures
        final(out)@ == old(out)@ + value_text(bytes_model(*value)),
{
    match value {
        Some(bytes) => match utf8_text(bytes) {
            Some(text) => out.append(quote(text.as_str()).as_str()),
            None => {
                out.append("Some(");
                push_list(out, bytes);
                out.append(")");
            },
        },
        None => out.append("None"),
    }
    assert(out@ =~= old(out)@ + value_text(bytes_model(*value)));
}

fn push_values(out: &mut String, values: &Vec<Option<Vec<u8>>>)
    ensures
        final(out)@ == old(out)@ + comma_list(
            value_models(values@).map_values(|v: Option<Seq<u8>>| value_text(v)),
        ),
{
    let ghost texts = value_models(values@).map_values(|v: Option<Seq<u8>>| value_text(v));
    let mut i: usize = 0;
    assert(texts.take(0) =~= seq![]);
    assert(out@ =~= old(out)@ + comma_list(texts.take(0)));
    while i < values.len()
        invariant
            i <= values.len(),
            texts == value_models(values@).map_values(|v: Option<Seq<u8>>| value_text(v)),
            out@ == old(out)@ + comma_list(texts.take(i as int)),
        decreases values.len() - i,
    {
        if i > 0 {
            out.append(", ");
        }
        push_value(out, &values[i]);
        proof {
            lemma_comma_list_push(texts.take(i as int), texts[i as int]);
            assert(texts.take(i + 1) =~= texts.take(i as int).push(texts[i as int]));
            assert(out@ =~= old(out)@ + comma_list(texts.take(i + 1)));
        }
        i += 1;
    }
    assert(texts.take(i as int) =~= texts);
}

fn push_column(out: &mut String, column: &ColumnDesc)
    ensures
        final(out)@ == old(out)@ + column_text(column@),
{
    out.append("ColumnDesc { name: ");
    out.append(quote(column.name.as_str()).as_str());
    out.append(", type_oid: ");
    push_decimal(out, column.type_oid as u64);
    out.append(", format: ");
    push_decimal(out, column.format as u64);
    out.append(" }");
    assert(out@ =~= old(out)@ + column_text(column@));
}

fn push_columns(out: &mut String, columns: &Vec<ColumnDesc>)
    ensures
        final(out)@ == old(out)@ + comma_list(
            column_models(columns@).map_values(|c: ColumnModel| column_text(c)),
        ),
{
    let ghost texts = column_models(columns@).map_values(|c: ColumnModel| column_text(c));
    let mut i: usize = 0;
    assert(texts.take(0) =~= seq![]);
    assert(out@ =~= old(out)@ + comma_list(texts.take(0)));
    while i < columns.len()
        invariant
            i <= columns.len(),
            texts == column_models(columns@).map_values(|c: ColumnModel| column_text(c)),
            out@ == old(out)@ + comma_list(texts.take(i as int)),
        decreases columns.len() - i,
    {
        if i > 0 {
            out.append(", ");
        }
        push_column(out, &columns[i]);
        proof {
            lemma_comma_list_push(texts.take(i as int), texts[i as int]);
            assert(texts.take(i + 1) =~= texts.take(i as int).push(texts[i as int]));
            assert(out@ =~= old(out)@ + comma_list(texts.take(i + 1)));
        }
        i += 1;
    }
    assert(texts.take(i as int) =~= texts);
}

fn push_response(out: &mut String, kind: &str, code: &String, message: &String)
    ensures
        final(out)@ == old(out)@ + response_text(kind@, code@, message@),
{
    out.append(kind);
    out.append(" { code: ");
    out.append(quote(code.as_str()).as_str());
    out.append(", message: ");
    out.append(quote(message.as_str()).as_str());
    out.append(" }");
    assert(out@ =~= old(out)@ + response_text(kind@, code@, message@));
}

fn push_copy(out: &mut String, kind: &str, format: u16, formats: &Vec<u16>)
    ensures
        final(out)@ == old(out)@ + copy_text(kind@, format, formats@),
{
    out.append(kind);
    out.append(" { format: ");
    push_decimal(out, format as u64);
    out.append(", column_formats: ");
    push_list(out, formats);
    out.append(" }");
    assert(out@ =~= old(out)@ + copy_text(kind@, format, formats@));
}

impl NormalizedMsg {
    /// The message as reports show it, on one line.
    pub fn to_text(&self) -> (text: String)
        ensures
            text@ == self@.text(),
    {
        let mut out = String::new();
        match self {
            NormalizedMsg::ReadyForQuery { status } => {
                out.append("ReadyForQuery { status: ");
                out.append(status.as_str());
                out.append(" }");
            },
            NormalizedMsg::ErrorResponse { code, message } => push_response(
                &mut out,
                "ErrorResponse",
                code,
                message,
            ),
            NormalizedMsg::NoticeResponse { code, message } => push_response(
                &mut out,
                "NoticeResponse",
                code,
                message,
            ),
            NormalizedMsg::NotificationResponse { channel, payload } => {
                out.append("NotificationResponse { channel: ");
                out.append(quote(channel.as_str()).as_str());
                out.append(", payload: ");
                out.append(quote(payload.as_str()).as_str());
                out.append(" }");
            },
            NormalizedMsg::RowDescription { columns } => {
                out.append("RowDescription { columns: [");
                push_columns(&mut out, columns);
                out.append("] }");
            },
            NormalizedMsg::DataRow { columns } => {
                out.append("DataRow { columns: [");
                push_values(&mut out, columns);
                out.append("] }");
            },
            NormalizedMsg::CommandComplete { tag } => {
                out.append("CommandComplete { tag: ");
                out.append(quote(tag.as_str()).as_str());
                out.append(" }");
            },
            NormalizedMsg::ParameterDescription { oids } => {
                out.append("ParameterDescription { oids: ");
                push_list(&mut out, oids);
                out.append(" }");
            },
            NormalizedMsg::CopyInResponse { format, column_formats } => push_copy(
                &mut out,
                "CopyInResponse",
                *format,
                column_formats,
            ),
            NormalizedMsg::CopyOutResponse { format, column_formats } => push_copy(
                &mut out,
                "CopyOutResponse",
                *format,
                column_formats,
            ),
            NormalizedMsg::CopyData { data } => {
                out.append("CopyData { data: ");
                push_list(&mut out, data);
                out.append(" }");
            },
            NormalizedMsg::ParseComplete => out.append("ParseComplete"),
            NormalizedMsg::BindComplete => out.append("BindComplete"),
            NormalizedMsg::CloseComplete => out.append("CloseComplete"),
            NormalizedMsg::NoData => out.append("NoData"),
            NormalizedMsg::EmptyQueryResponse => out.append("EmptyQueryResponse"),
            NormalizedMsg::PortalSuspended => out.append("PortalSuspended"),
            NormalizedMsg::CopyDone => out.append("CopyDone"),
            NormalizedMsg::Timeout => out.append("Timeout"),
            NormalizedMsg::Disconnected(reason) => {
                out.append("Disconnected(");
                out.append(quote(reason.as_str()).as_str());
                out.append(")");
            },
        }
        assert(out@ =~= self@.text());
        out
    }
}

fn push_op_lines(out: &mut String, ops: &Vec<FrontendOp>)
    ensures
        final(out)@ == old(out)@ + op_lines(op_models(ops@)),
{
    let ghost models = op_models(ops@);
    let mut i: usize = 0;
    assert(models.take(0) =~= seq![]);
    assert(out@ =~= old(out)@ + op_lines(models.take(0)));
    while i < ops.len()
        invariant
            i <= ops.len(),
            models == op_models(ops@),
            out@ == old(out)@ + op_lines(models.take(i as int)),
        decreases ops.len() - i,
    {
        out.append("    [");
        push_decimal(out, i as u64);
        out.append("] ");
        out.append(ops[i].to_text().as_str());
        out.append("\n");
        proof {
            let upto = models.take(i + 1);
            assert(upto.drop_last() =~= models.take(i as int));
            assert(upto.last() == ops@[i as int]@);
            assert(out@ =~= old(out)@ + op_lines(upto));
        }
        i += 1;
    }
    assert(models.take(i as int) =~= models);
}

fn push_side(out: &mut String, message: &Option<NormalizedMsg>)
    ensures
        final(out)@ == old(out)@ + side_text(norm_option(*message)),
{
    match message {
        Some(m) => out.append(m.to_text().as_str()),
        None => out.append("<end of stream>"),
    }
}

impl Divergence {
    /// The report on a divergence: the operations, where the streams first differ, and what
    /// each server returned there.
    pub fn to_text(&self) -> (text: String)
        requires
            self.expected is Some || self.actual is Some,
        ensures
            text@ == divergence_text(*self, None),
    {
        self.to_text_after(None)
    }

    /// The report on a divergence that shows behind a given operation.
    pub fn to_text_after(&self, op: Option<usize>) -> (text: String)
        requires
            self.expected is Some || self.actual is Some,
        ensures
            text@ == divergence_text(*self, op_place(op)),
    {
        let mut out = String::new();
        out.append("  Sequence (");
        push_decimal(&mut out, self.ops.len() as u64);
        out.append(" ops):\n");
        push_op_lines(&mut out, &self.ops);
        out.append("  First mismatch at response #");
        push_decimal(&mut out, self.index as u64);
        if let Some(index) = op {
            out.append(" (after op #");
            push_decimal(&mut out, index as u64);
            out.append(")");
        }
        out.append(":\n");
        out.append("    Postgres:  ");
        push_side(&mut out, &self.expected);
        out.append("\n");
        out.append("    Target:    ");
        push_side(&mut out, &self.actual);
        out.append("\n");
        assert(out@ =~= divergence_text(*self, op_place(op)));
        out
    }
}

/// What is reported of the divergence with a number. Where the minimized sequence still shows one,
/// that one is reported, with the number of operations before and after; otherwise the divergence
/// as it was found. `op` is the operation behind which the one that is reported shows.
pub open spec fn report_of(
    number: nat,
    found: Divergence,
    minimized: Option<Divergence>,
    op: Option<nat>,
) -> Seq<char> {
    match minimized {
        Some(least) => "DIVERGENCE #"@ + decimal(number) + " (shrunk "@ + decimal(found.ops@.len())
            + " -> "@ + decimal(least.ops@.len()) + " ops)\n"@ + divergence_text(least, op),
        None => "DIVERGENCE #"@ + decimal(number) + "\n"@ + divergence_text(found, op),
    }
}

/// The report on a divergence and on what was left of it after minimizing.
pub fn report_text(
    number: usize,
    found: &Divergence,
    minimized: &Option<Divergence>,
    op: Option<usize>,
) -> (text: String)
    requires
        found.expected is Some || found.actual is Some,
        minimized matches Some(least) ==> least.expected is Some || least.actual is Some,
    ensures
        text@ == report_of(number as nat, *found, *minimized, op_place(op)),
{
    let mut out = String::new();
    out.append("DIVERGENCE #");
    push_decimal(&mut out, number as u64);
    match minimized {
        Some(least) => {
            out.append(" (shrunk ");
            push_decimal(&mut out, found.ops.len() as u64);
            out.append(" -> ");
            push_decimal(&mut out, least.ops.len() as u64);
            out.append(" ops)\n");
            out.append(least.to_text_after(op).as_str());
        },
        None => {
            out.append("\n");
            out.append(found.to_text_after(op).as_str());
        },
    }
    assert(out@ =~= report_of(number as nat, *found, *minimized, op_place(op)));
    out
}

/// The operation behind which the divergence that is reported shows: that of the minimized
/// sequence, in the stream that the oracle gave for it, or that of the sequence as it was found.
pub open spec fn reported_place(
    pg: Seq<EventModel>,
    found: Divergence,
    minimized_pg: Seq<EventModel>,
    minimized: Option<Divergence>,
) -> Option<nat> {
    match minimized {
        Some(least) => mismatch_place(normalized_stream(minimized_pg), least),
        None => mismatch_place(normalized_stream(pg), found),
    }
}

/// The report on a divergence, with the operation behind which it shows. `pg` is what the oracle
/// answered to the sequence as it was found, `minimized_pg` what it answered to the minimized one.
pub fn divergence_report(
    number: usize,
    pg: &[ResponseEvent],
    found: &Divergence,
    minimized_pg: &[ResponseEvent],
    minimized: &Option<Divergence>,
) -> (text: String)
    requires
        found.expected is Some || found.actual is Some,
        minimized matches Some(least) ==> least.expected is Some || least.actual is Some,
    ensures
        text@ == report_of(
            number as nat,
            *found,
            *minimized,
            reported_place(
                event_models(pg@),
                *found,
                event_models(minimized_pg@),
                *minimized,
            ),
        ),
{
    let op = match minimized {
        Some(least) => mismatch_op(minimized_pg, least),
        None => mismatch_op(pg, found),
    };
    report_text(number, found, minimized, op)
}

// ---------------------------------------------------------------------------
// Laws
// ---------------------------------------------------------------------------

/// A message is shown by its kind and all that it carries: texts in quotes, numbers in decimal, and
/// each column, parameter type, format and byte in order.
pub proof fn law_message_shown_with_all_it_carries(message: NormModel)
    ensures
        message matches NormModel::ReadyForQuery { status } ==> message.text()
            == "ReadyForQuery { status: "@ + status + " }"@,
        message matches NormModel::ErrorResponse { code, message: text } ==> message.text()
            == "ErrorResponse"@ + " { code: "@ + quoted(code) + ", message: "@ + quoted(text)
            + " }"@,
        message matches NormModel::NoticeResponse { code, message: text } ==> message.text()
            == "NoticeResponse"@ + " { code: "@ + quoted(code) + ", message: "@ + quoted(text)
            + " }"@,
        message matches NormModel::NotificationResponse { channel, payload } ==> message.text()
            == "NotificationResponse { channel: "@ + quoted(channel) + ", payload: "@ + quoted(
            payload,
        ) + " }"@,
        message matches NormModel::RowDescription { columns } ==> message.text()
            == "RowDescription { columns: ["@ + comma_list(
            Seq::new(columns.len(), |i: int| column_text(columns[i])),
        ) + "] }"@,
        message matches NormModel::DataRow { columns } ==> message.text()
            == "DataRow { columns: ["@ + comma_list(
            Seq::new(columns.len(), |i: int| value_text(columns[i])),
        ) + "] }"@,
        message matches NormModel::CommandComplete { tag } ==> message.text()
            == "CommandComplete { tag: "@ + quoted(tag) + " }"@,
        message matches NormModel::ParameterDescription { oids } ==> message.text()
            == "ParameterDescription { oids: "@ + number_list(
            Seq::new(oids.len(), |i: int| oids[i] as nat),
        ) + " }"@,
        message matches NormModel::CopyInResponse { format, column_formats } ==> message.text()
            == "CopyInResponse"@ + " { format: "@ + decimal(format as nat) + ", column_formats: "@
            + number_list(Seq::new(column_formats.len(), |i: int| column_formats[i] as nat))
            + " }"@,
        message matches NormModel::CopyOutResponse { format, column_formats } ==> message.text()
            == "CopyOutResponse"@ + " { format: "@ + decimal(format as nat)
            + ", column_formats: "@ + number_list(
            Seq::new(column_formats.len(), |i: int| column_formats[i] as nat),
        ) + " }"@,
        message matches NormModel::CopyData { data } ==> message.text() == "CopyData { data: "@
            + number_list(Seq::new(data.len(), |i: int| data[i] as nat)) + " }"@,
        message matches NormModel::Disconnected(reason) ==> message.text() == "Disconnected("@
            + quoted(reason) + ")"@,
        message is ParseComplete ==> message.text() == "ParseComplete"@,
        message is BindComplete ==> message.text() == "BindComplete"@,
        message is CloseComplete ==> message.text() == "CloseComplete"@,
        message is NoData ==> message.text() == "NoData"@,
        message is EmptyQueryResponse ==> message.text() == "EmptyQueryResponse"@,
        message is PortalSuspended ==> message.text() == "PortalSuspended"@,
        message is CopyDone ==> message.text() == "CopyDone"@,
        message is Timeout ==> message.text() == "Timeout"@,
{
    match message {
        NormModel::RowDescription { columns } => {
            assert(columns.map_values(|c: ColumnModel| column_text(c)) =~= Seq::new(
                columns.len(),
                |i: int| column_text(columns[i]),
            ));
        },
        NormModel::DataRow { columns } => {
            assert(columns.map_values(|v: Option<Seq<u8>>| value_text(v)) =~= Seq::new(
                columns.len(),
                |i: int| value_text(columns[i]),
            ));
        },
        NormModel::ParameterDescription { oids } => {
            assert(numbers(oids) =~= Seq::new(oids.len(), |i: int| oids[i] as nat));
        },
        NormModel::CopyInResponse { column_formats, .. } => {
            assert(numbers(column_formats) =~= Seq::new(
                column_formats.len(),
                |i: int| column_formats[i] as nat,
            ));
        },
        NormModel::CopyOutResponse { column_formats, .. } => {
            assert(numbers(column_formats) =~= Seq::new(
                column_formats.len(),
                |i: int| column_formats[i] as nat,
            ));
        },
        NormModel::CopyData { data } => {
            assert(numbers(data) =~= Seq::new(data.len(), |i: int| data[i] as nat));
        },
        _ => {},
    }
}

/// A value is shown as `None` where it is NULL, as text in quotes where it is text, and by its
/// bytes otherwise. A column is shown with its name, its type and its format, and numbers are
/// listed in square brackets.
pub proof fn law_columns_shown(
    bytes: Seq<u8>,
    column: ColumnModel,
    listed: Seq<nat>,
)
    ensures
        value_text(None) == "None"@,
        valid_utf8(bytes) ==> value_text(Some(bytes)) == quoted(decode_utf8(bytes)),
        !valid_utf8(bytes) ==> value_text(Some(bytes)) == "Some("@ + number_list(
            Seq::new(bytes.len(), |i: int| bytes[i] as nat),
        ) + ")"@,
        column_text(column) == "ColumnDesc { name: "@ + quoted(column.name) + ", type_oid: "@
            + decimal(column.type_oid as nat) + ", format: "@ + decimal(column.format as nat)
            + " }"@,
        number_list(listed) == "["@ + comma_list(
            Seq::new(listed.len(), |i: int| decimal(listed[i])),
        ) + "]"@,
{
    assert(numbers(bytes) =~= Seq::new(bytes.len(), |i: int| bytes[i] as nat));
    assert(listed.map_values(|n: nat| decimal(n)) =~= Seq::new(
        listed.len(),
        |i: int| decimal(listed[i]),
    ));
}

/// Every operation is listed, on a line of its own behind its number, counted from zero.
pub proof fn law_operations_listed_one_by_one(ops: Seq<OpModel>, op: OpModel)
    ensures
        op_lines(seq![]) == Seq::<char>::empty(),
        op_lines(ops.push(op)) == op_lines(ops) + "    ["@ + decimal(ops.len()) + "] "@ + op.text()
            + "\n"@,
{
    assert(ops.push(op).drop_last() =~= ops);
}

/// A divergence is shown with all its operations, with the place of the mismatch and the operation
/// behind which it shows where that is known, with what the oracle sent there and behind that what
/// the target sent; `<end of stream>` stands for a stream that had ended.
pub proof fn law_divergence_shown_with_both_sides(divergence: Divergence, op: Option<nat>)
    ensures
        ({
            let ops = op_models(divergence.ops@);
            let place = match op {
                Some(index) => " (after op #"@ + decimal(index) + ")"@,
                None => Seq::empty(),
            };
            let expected = match divergence.expected {
                Some(message) => message@.text(),
                None => "<end of stream>"@,
            };
            let actual = match divergence.actual {
                Some(message) => message@.text(),
                None => "<end of stream>"@,
            };
            divergence_text(divergence, op) == "  Sequence ("@ + decimal(ops.len()) + " ops):\n"@
                + op_lines(ops) + "  First mismatch at response #"@ + decimal(
                divergence.index as nat,
            ) + place + ":\n"@ + "    Postgres:  "@ + expected + "\n"@ + "    Target:    "@ + actual
                + "\n"@
        }),
{
}

/// A report tells of the minimized divergence where there is one, with the number of operations
/// before and after, and of the divergence as it was found otherwise; and it places that one by
/// what the oracle answered to its own sequence.
pub proof fn law_report_tells_of_the_minimized(
    number: nat,
    found: Divergence,
    minimized: Option<Divergence>,
    op: Option<nat>,
    pg: Seq<EventModel>,
    minimized_pg: Seq<EventModel>,
)
    ensures
        minimized matches Some(least) ==> {
            &&& report_of(number, found, minimized, op) == "DIVERGENCE #"@ + decimal(number)
                + " (shrunk "@ + decimal(found.ops@.len()) + " -> "@ + decimal(least.ops@.len())
                + " ops)\n"@ + divergence_text(least, op)
            &&& reported_place(pg, found, minimized_pg, minimized) == mismatch_place(
                normalized_stream(minimized_pg),
                least,
            )
        },
        minimized is None ==> {
            &&& report_of(number, found, minimized, op) == "DIVERGENCE #"@ + decimal(number)
                + "\n"@ + divergence_text(found, op)
            &&& reported_place(pg, found, minimized_pg, minimized) == mismatch_place(
                normalized_stream(pg),
                found,
            )
        },
{
}

} // verus!
