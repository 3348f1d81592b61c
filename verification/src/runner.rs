//! Decides what is sent to a server, when to stop reading, and what is recorded.

use crate::message::{BackendMessage, MessageModel};
use crate::op::{op_models, FrontendOp, OpModel};
use crate::wire::{encode_op, op_wires};
use std::time::Duration;
use vstd::prelude::*;

verus! {

/// What is recorded from each server's response stream.
#[derive(Debug)]
pub enum ResponseEvent {
    /// A normal protocol message from the server.
    Message(Box<BackendMessage>),
    /// No response within the timeout window.
    Timeout,
    /// Connection closed or I/O error.
    Disconnected(String),
}

/// What a response event holds.
pub enum EventModel {
    Message(MessageModel),
    Timeout,
    Disconnected(Seq<char>),
}

impl View for ResponseEvent {
    type V = EventModel;

    open spec fn view(&self) -> EventModel {
        match self {
            ResponseEvent::Message(message) => EventModel::Message((**message)@),
            ResponseEvent::Timeout => EventModel::Timeout,
            ResponseEvent::Disconnected(reason) => EventModel::Disconnected(reason@),
        }
    }
}

impl Clone for ResponseEvent {
    fn clone(&self) -> (copy: ResponseEvent)
        ensures
            copy@ == self@,
    {
        match self {
            ResponseEvent::Message(message) => {
                let copied: BackendMessage = (**message).clone();
                ResponseEvent::Message(Box::new(copied))
            },
            ResponseEvent::Timeout => ResponseEvent::Timeout,
            ResponseEvent::Disconnected(reason) => ResponseEvent::Disconnected(reason.clone()),
        }
    }
}

/// What a response stream holds.
pub open spec fn event_models(events: Seq<ResponseEvent>) -> Seq<EventModel> {
    events.map_values(|e: ResponseEvent| e@)
}

// ---------------------------------------------------------------------------
// Sending
// ---------------------------------------------------------------------------

/// The bytes of a sequence, cut where the connection is flushed.
pub struct SendPlan {
    /// What goes out with each flush.
    pub batches: Vec<Vec<u8>>,
    /// What is left in the write buffer behind the last flush.
    pub rest: Vec<u8>,
}

/// What a send plan holds.
pub struct PlanModel {
    pub batches: Seq<Seq<u8>>,
    pub rest: Seq<u8>,
}

/// What a list of batches holds.
pub open spec fn batch_models(batches: Seq<Vec<u8>>) -> Seq<Seq<u8>> {
    batches.map_values(|b: Vec<u8>| b@)
}

impl View for SendPlan {
    type V = PlanModel;

    open spec fn view(&self) -> PlanModel {
        PlanModel { batches: batch_models(self.batches@), rest: self.rest@ }
    }
}

/// The messages of the operations, with a cut behind each one that triggers a flush.
pub open spec fn cut_at_flushes(ops: Seq<OpModel>) -> PlanModel
    decreases ops.len(),
{
    if ops.len() == 0 {
        PlanModel { batches: seq![], rest: seq![] }
    } else {
        let before = cut_at_flushes(ops.drop_last());
        let rest = before.rest + ops.last().wire();
        if ops.last().triggers_flush() {
            PlanModel { batches: before.batches.push(rest), rest: seq![] }
        } else {
            PlanModel { batches: before.batches, rest }
        }
    }
}

/// Some operation triggers a flush.
pub open spec fn any_flush(ops: Seq<OpModel>) -> bool {
    exists|i: int| 0 <= i < ops.len() && (#[trigger] ops[i]).triggers_flush()
}

/// What is sent for a sequence. Where nothing triggers a flush, one is forced at the end.
pub open spec fn planned(ops: Seq<OpModel>) -> PlanModel {
    let cut = cut_at_flushes(ops);
    if any_flush(ops) {
        cut
    } else {
        PlanModel { batches: seq![cut.rest], rest: seq![] }
    }
}

/// Every operation fits in a message.
pub open spec fn all_fit(ops: Seq<OpModel>) -> bool {
    forall|i: int| 0 <= i < ops.len() ==> (#[trigger] ops[i]).fits_frame()
}

/// Cuts the messages of a sequence into what goes out with each flush.
pub fn plan_sends(ops: &[FrontendOp]) -> (plan: SendPlan)
    requires
        all_fit(op_models(ops@)),
    ensures
        plan@ == planned(op_models(ops@)),
{
    let ghost models = op_models(ops@);
    let mut batches: Vec<Vec<u8>> = Vec::new();
    let mut rest: Vec<u8> = Vec::new();
    let mut flushes = false;
    let mut i: usize = 0;
    assert(models.take(0) =~= seq![]);
    assert(batch_models(batches@) =~= seq![]);
    assert(rest@ =~= seq![]);
    while i < ops.len()
        invariant
            i <= ops.len(),
            models == op_models(ops@),
            all_fit(models),
            batch_models(batches@) == cut_at_flushes(models.take(i as int)).batches,
            rest@ == cut_at_flushes(models.take(i as int)).rest,
            flushes == any_flush(models.take(i as int)),
        decreases ops.len() - i,
    {
        let op = &ops[i];
        proof {
            let upto = models.take(i + 1);
            assert(models[i as int] == op@);
            assert(upto.drop_last() =~= models.take(i as int));
            assert(upto.last() == op@);
            if any_flush(models.take(i as int)) {
                let k = choose|k: int|
                    0 <= k < i && (#[trigger] models.take(i as int)[k]).triggers_flush();
                assert(upto[k].triggers_flush());
            }
            if any_flush(upto) && !op@.triggers_flush() {
                let k = choose|k: int|
                    0 <= k < upto.len() && (#[trigger] upto[k]).triggers_flush();
                assert(models.take(i as int)[k].triggers_flush());
            }
            if op@.triggers_flush() {
                assert(upto[i as int].triggers_flush());
            }
        }
        encode_op(&mut rest, op);
        if op.triggers_flush() {
            let ghost before = batches@;
            let ghost sent = rest@;
            batches.push(rest);
            rest = Vec::new();
            flushes = true;
            assert(batch_models(batches@) =~= batch_models(before).push(sent));
            assert(rest@ =~= seq![]);
        }
        i += 1;
    }
    assert(models.take(i as int) =~= models);
    if !flushes {
        let ghost sent = rest@;
        let mut forced: Vec<Vec<u8>> = Vec::new();
        forced.push(rest);
        assert(batch_models(forced@) =~= seq![sent]);
        let empty: Vec<u8> = Vec::new();
        assert(empty@ =~= seq![]);
        return SendPlan { batches: forced, rest: empty };
    }
    SendPlan { batches, rest }
}

/// What is recorded when a flush fails.
pub fn flush_failure(reason: String) -> (events: Vec<ResponseEvent>)
    ensures
        event_models(events@) == seq![EventModel::Disconnected(reason@)],
{
    let mut events: Vec<ResponseEvent> = Vec::new();
    events.push(ResponseEvent::Disconnected(reason));
    assert(event_models(events@) =~= seq![EventModel::Disconnected(reason@)]);
    events
}

// ---------------------------------------------------------------------------
// Receiving
// ---------------------------------------------------------------------------

/// What came of one attempt to read a message.
#[derive(Debug)]
pub enum Received {
    /// A message arrived.
    Message(Box<BackendMessage>),
    /// The connection was closed or failed.
    Failed(String),
    /// Nothing arrived within the timeout.
    TimedOut,
}

/// What came of one attempt to read a message.
pub enum ReceivedModel {
    Message(MessageModel),
    Failed(Seq<char>),
    TimedOut,
}

impl View for Received {
    type V = ReceivedModel;

    open spec fn view(&self) -> ReceivedModel {
        match self {
            Received::Message(message) => ReceivedModel::Message((**message)@),
            Received::Failed(reason) => ReceivedModel::Failed(reason@),
            Received::TimedOut => ReceivedModel::TimedOut,
        }
    }
}

/// How many operations the server answers with a ReadyForQuery.
pub open spec fn expected_ready(ops: Seq<OpModel>) -> nat
    decreases ops.len(),
{
    if ops.len() == 0 {
        0
    } else {
        expected_ready(ops.drop_last()) + if ops.last().answers_ready() {
            1nat
        } else {
            0nat
        }
    }
}

/// The sequence closes the connection.
pub open spec fn has_terminate(ops: Seq<OpModel>) -> bool {
    exists|i: int| 0 <= i < ops.len() && #[trigger] ops[i] is Terminate
}

/// How many ReadyForQuery messages a stream holds.
pub open spec fn ready_count(events: Seq<EventModel>) -> nat
    decreases events.len(),
{
    if events.len() == 0 {
        0
    } else {
        ready_count(events.drop_last()) + if is_ready(events.last()) {
            1nat
        } else {
            0nat
        }
    }
}

/// The event is a ReadyForQuery.
pub open spec fn is_ready(event: EventModel) -> bool {
    event matches EventModel::Message(MessageModel::ReadyForQuery { .. })
}

/// How far the collecting of responses has come.
pub struct CollectorModel {
    /// How many ReadyForQuery messages are waited for.
    pub expected: nat,
    /// The sequence closes the connection.
    pub terminates: bool,
    /// What has been recorded.
    pub responses: Seq<EventModel>,
    /// Nothing more is read.
    pub done: bool,
}

impl CollectorModel {
    /// The start of collecting the responses to a sequence.
    pub open spec fn start(ops: Seq<OpModel>) -> CollectorModel {
        CollectorModel {
            expected: expected_ready(ops),
            terminates: has_terminate(ops),
            responses: seq![],
            done: false,
        }
    }

    /// There is a ReadyForQuery to wait for. A sequence that closes the connection, or that
    /// has none coming, is drained instead.
    pub open spec fn expecting(self) -> bool {
        self.expected > 0 && !self.terminates
    }

    /// As long as reading goes on, a ReadyForQuery that is waited for is still to come.
    pub open spec fn valid(self) -> bool {
        !self.done && self.expecting() ==> ready_count(self.responses) < self.expected
    }

    /// With one more event recorded.
    pub open spec fn recording(self, event: EventModel, done: bool) -> CollectorModel {
        CollectorModel { responses: self.responses.push(event), done, ..self }
    }

    /// What becomes of the collecting after one attempt to read.
    pub open spec fn after(self, received: ReceivedModel) -> CollectorModel {
        match received {
            ReceivedModel::Message(message) => {
                let event = EventModel::Message(message);
                self.recording(
                    event,
                    self.expecting() && ready_count(self.responses.push(event)) >= self.expected,
                )
            },
            ReceivedModel::Failed(reason) => if !self.terminates || self.responses.len() == 0 {
                self.recording(EventModel::Disconnected(reason), true)
            } else {
                CollectorModel { done: true, ..self }
            },
            ReceivedModel::TimedOut => if self.expecting() && ready_count(self.responses)
                < self.expected {
                self.recording(EventModel::Timeout, true)
            } else {
                CollectorModel { done: true, ..self }
            },
        }
    }

    /// What becomes of the collecting after several attempts to read; those behind the one
    /// that ends it are never made.
    pub open spec fn after_all(self, received: Seq<ReceivedModel>) -> CollectorModel
        decreases received.len(),
    {
        if received.len() == 0 {
            self
        } else {
            let before = self.after_all(received.drop_last());
            if before.done {
                before
            } else {
                before.after(received.last())
            }
        }
    }
}

/// Collects responses until the expected number of ReadyForQuery messages has been seen, or
/// until a timeout or a disconnect.
#[derive(Debug)]
pub struct Collector {
    expected: usize,
    terminates: bool,
    ready: usize,
    responses: Vec<ResponseEvent>,
    done: bool,
}

impl View for Collector {
    type V = CollectorModel;

    closed spec fn view(&self) -> CollectorModel {
        CollectorModel {
            expected: self.expected as nat,
            terminates: self.terminates,
            responses: event_models(self.responses@),
            done: self.done,
        }
    }
}

impl Collector {
    /// The count of ReadyForQuery messages is right, and reading goes on only where
    /// something is to be waited for.
    pub closed spec fn wf(&self) -> bool {
        &&& self.ready == ready_count(self@.responses)
        &&& self.ready <= self.responses@.len()
        &&& self@.valid()
    }

    /// Starts collecting the responses to a sequence.
    pub fn new(ops: &[FrontendOp]) -> (collector: Collector)
        ensures
            collector.wf(),
            collector@ == CollectorModel::start(op_models(ops@)),
    {
        let ghost models = op_models(ops@);
        let mut expected: usize = 0;
        let mut terminates = false;
        let mut i: usize = 0;
        assert(models.take(0) =~= seq![]);
        while i < ops.len()
            invariant
                i <= ops.len(),
                models == op_models(ops@),
                expected == expected_ready(models.take(i as int)),
                expected <= i,
                terminates == has_terminate(models.take(i as int)),
            decreases ops.len() - i,
        {
            let op = &ops[i];
            proof {
                let upto = models.take(i + 1);
                assert(upto.drop_last() =~= models.take(i as int));
                assert(upto.last() == op@);
                if has_terminate(models.take(i as int)) {
                    let k = choose|k: int|
                        0 <= k < i && #[trigger] models.take(i as int)[k] is Terminate;
                    assert(upto[k] is Terminate);
                }
                if has_terminate(upto) && !(op@ is Terminate) {
                    let k = choose|k: int| 0 <= k < upto.len() && #[trigger] upto[k] is Terminate;
                    assert(models.take(i as int)[k] is Terminate);
                }
                if op@ is Terminate {
                    assert(upto[i as int] is Terminate);
                }
            }
            if op.answers_ready() {
                expected += 1;
            }
            if let FrontendOp::Terminate = op {
                terminates = true;
            }
            i += 1;
        }
        assert(models.take(i as int) =~= models);
        let responses: Vec<ResponseEvent> = Vec::new();
        assert(event_models(responses@) =~= seq![]);
        Collector { expected, terminates, ready: 0, responses, done: false }
    }

    /// Whether reading is over.
    pub fn is_done(&self) -> (done: bool)
        ensures
            done == self@.done,
    {
        self.done
    }

    /// Takes in what came of one attempt to read.
    pub fn receive(&mut self, received: Received)
        requires
            old(self).wf(),
            !old(self)@.done,
        ensures
            final(self).wf(),
            final(self)@ == old(self)@.after(received@),
    {
        let ghost before = event_models(self.responses@);
        let expecting = self.expected > 0 && !self.terminates;
        match received {
            Received::Message(message) => {
                let is_rfq = match &*message {
                    BackendMessage::ReadyForQuery { .. } => true,
                    _ => false,
                };
                let ghost event = EventModel::Message((*message)@);
                self.responses.push(ResponseEvent::Message(message));
                assert(event_models(self.responses@) =~= before.push(event));
                assert(before.push(event).drop_last() =~= before);
                assert(self.responses.len() <= usize::MAX);
                if is_rfq {
                    self.ready = self.ready + 1;
                }
                if expecting && self.ready >= self.expected {
                    self.done = true;
                }
            },
            Received::Failed(reason) => {
                if !self.terminates || self.responses.len() == 0 {
                    let ghost event = EventModel::Disconnected(reason@);
                    self.responses.push(ResponseEvent::Disconnected(reason));
                    assert(event_models(self.responses@) =~= before.push(event));
                    assert(before.push(event).drop_last() =~= before);
                }
                self.done = true;
            },
            Received::TimedOut => {
                if expecting && self.ready < self.expected {
                    let ghost event = EventModel::Timeout;
                    self.responses.push(ResponseEvent::Timeout);
                    assert(event_models(self.responses@) =~= before.push(event));
                    assert(before.push(event).drop_last() =~= before);
                }
                self.done = true;
            },
        }
    }

    /// What has been recorded.
    pub fn into_responses(self) -> (responses: Vec<ResponseEvent>)
        ensures
            event_models(responses@) == self@.responses,
    {
        self.responses
    }
}

// ---------------------------------------------------------------------------
// Setup
// ---------------------------------------------------------------------------

/// What to do after an attempt to read during setup.
#[derive(Debug)]
pub enum SetupStep {
    /// Read on.
    Wait,
    /// The statement is done.
    Next,
    /// Give up with the connection's own error.
    Fail,
    /// Give up: the server did not answer in time.
    TimedOut(String),
}

/// What to do after an attempt to read during setup.
pub enum SetupModel {
    Wait,
    Next,
    Fail,
    TimedOut(Seq<char>),
}

impl View for SetupStep {
    type V = SetupModel;

    open spec fn view(&self) -> SetupModel {
        match self {
            SetupStep::Wait => SetupModel::Wait,
            SetupStep::Next => SetupModel::Next,
            SetupStep::Fail => SetupModel::Fail,
            SetupStep::TimedOut(text) => SetupModel::TimedOut(text@),
        }
    }
}

/// A setup statement is done with the first ReadyForQuery; every other message is passed over.
pub open spec fn setup_decision(received: ReceivedModel, statement: Seq<char>) -> SetupModel {
    match received {
        ReceivedModel::Message(MessageModel::ReadyForQuery { .. }) => SetupModel::Next,
        ReceivedModel::Message(_) => SetupModel::Wait,
        ReceivedModel::Failed(_) => SetupModel::Fail,
        ReceivedModel::TimedOut => SetupModel::TimedOut("timeout during setup: "@ + statement),
    }
}

/// Decides what to do after an attempt to read the answer to a setup statement.
pub fn setup_step(received: &Received, statement: &str) -> (step: SetupStep)
    ensures
        step@ == setup_decision(received@, statement@),
{
    match received {
        Received::Message(message) => match &**message {
            BackendMessage::ReadyForQuery { .. } => SetupStep::Next,
            _ => SetupStep::Wait,
        },
        Received::Failed(_) => SetupStep::Fail,
        Received::TimedOut => {
            let mut text = String::new();
            text.append("timeout during setup: ");
            text.append(statement);
            assert(text@ =~= "timeout during setup: "@ + statement@);
            SetupStep::TimedOut(text)
        },
    }
}

// ---------------------------------------------------------------------------
// Both servers
// ---------------------------------------------------------------------------

/// What is needed to run the same operations against two servers.
#[derive(Debug)]
pub struct DualRunner<F1, F2> {
    pub pg_factory: F1,
    pub target_factory: F2,
    pub timeout: Duration,
    pub setup_stmts: Vec<String>,
}

impl<F1, F2> DualRunner<F1, F2> {
    /// A runner without setup statements.
    pub fn new(pg_factory: F1, target_factory: F2, timeout: Duration) -> (runner: DualRunner<
        F1,
        F2,
    >)
        ensures
            runner.pg_factory == pg_factory,
            runner.target_factory == target_factory,
            runner.timeout == timeout,
            runner.setup_stmts@ == Seq::<String>::empty(),
    {
        DualRunner { pg_factory, target_factory, timeout, setup_stmts: Vec::new() }
    }

    /// Sets the SQL to run on each fresh connection before the operations.
    pub fn with_setup(self, stmts: Vec<String>) -> (runner: DualRunner<F1, F2>)
        ensures
            runner.pg_factory == self.pg_factory,
            runner.target_factory == self.target_factory,
            runner.timeout == self.timeout,
            runner.setup_stmts == stmts,
    {
        DualRunner {
            pg_factory: self.pg_factory,
            target_factory: self.target_factory,
            timeout: self.timeout,
            setup_stmts: stmts,
        }
    }
}

// ---------------------------------------------------------------------------
// Laws
// ---------------------------------------------------------------------------

/// The batches one after the other.
pub open spec fn joined(batches: Seq<Seq<u8>>) -> Seq<u8>
    decreases batches.len(),
{
    if batches.len() == 0 {
        seq![]
    } else {
        joined(batches.drop_last()) + batches.last()
    }
}

/// How many operations trigger a flush.
pub open spec fn flush_count(ops: Seq<OpModel>) -> nat
    decreases ops.len(),
{
    if ops.len() == 0 {
        0
    } else {
        flush_count(ops.drop_last()) + if ops.last().triggers_flush() {
            1nat
        } else {
            0nat
        }
    }
}

proof fn lemma_cut_keeps_bytes(ops: Seq<OpModel>)
    ensures
        joined(cut_at_flushes(ops).batches) + cut_at_flushes(ops).rest == op_wires(ops),
        cut_at_flushes(ops).batches.len() == flush_count(ops),
        flush_count(ops) > 0 <==> any_flush(ops),
    decreases ops.len(),
{
    if ops.len() == 0 {
        assert(joined(cut_at_flushes(ops).batches) + cut_at_flushes(ops).rest =~= op_wires(ops));
    } else {
        let before = cut_at_flushes(ops.drop_last());
        let now = cut_at_flushes(ops);
        lemma_cut_keeps_bytes(ops.drop_last());
        if ops.last().triggers_flush() {
            assert(now.batches.drop_last() =~= before.batches);
            assert(ops[ops.len() - 1].triggers_flush());
        } else {
            if any_flush(ops) {
                let k = choose|k: int| 0 <= k < ops.len() && (#[trigger] ops[k]).triggers_flush();
                assert(ops.drop_last()[k].triggers_flush());
            }
            if any_flush(ops.drop_last()) {
                let k = choose|k: int|
                    0 <= k < ops.len() - 1 && (#[trigger] ops.drop_last()[k]).triggers_flush();
                assert(ops[k].triggers_flush());
            }
        }
        assert(joined(now.batches) + now.rest =~= op_wires(ops));
    }
}

/// Sending loses and adds nothing: the batches and what is left behind them are the
/// messages of the operations, in order.
pub proof fn law_plan_keeps_bytes(ops: Seq<OpModel>)
    ensures
        joined(planned(ops).batches) + planned(ops).rest == op_wires(ops),
{
    lemma_cut_keeps_bytes(ops);
    if !any_flush(ops) {
        let cut = cut_at_flushes(ops);
        assert(cut.batches =~= seq![]);
        assert(planned(ops).batches.drop_last() =~= seq![]);
        assert(joined(planned(ops).batches) =~= cut.rest);
        assert(joined(cut.batches) + cut.rest =~= cut.rest);
        assert(joined(planned(ops).batches) + planned(ops).rest =~= op_wires(ops));
    }
}

/// There is one flush for each operation that triggers one, and one flush where none does.
pub proof fn law_one_flush_per_trigger(ops: Seq<OpModel>)
    ensures
        planned(ops).batches.len() == if flush_count(ops) == 0 {
            1
        } else {
            flush_count(ops)
        },
{
    lemma_cut_keeps_bytes(ops);
}

/// A sequence that ends with a flush, or that has none, is sent whole.
pub proof fn law_nothing_left_unsent(ops: Seq<OpModel>)
    requires
        ops.len() == 0 || ops.last().triggers_flush() || !any_flush(ops),
    ensures
        planned(ops).rest == Seq::<u8>::empty(),
        joined(planned(ops).batches) == op_wires(ops),
{
    law_plan_keeps_bytes(ops);
    if ops.len() > 0 && ops.last().triggers_flush() {
        assert(ops[ops.len() - 1].triggers_flush());
    }
    assert(joined(planned(ops).batches) + planned(ops).rest =~= joined(planned(ops).batches));
}

/// Sending goes operation by operation: what a flush sends is all that was encoded since
/// the flush before it.
pub proof fn law_flush_sends_what_is_pending(before: Seq<OpModel>, batch: Seq<OpModel>)
    requires
        batch.len() > 0,
        batch.last().triggers_flush(),
        before.len() == 0 || before.last().triggers_flush(),
        forall|i: int| 0 <= i < batch.len() - 1 ==> !(#[trigger] batch[i]).triggers_flush(),
    ensures
        cut_at_flushes(before + batch).batches == cut_at_flushes(before).batches.push(
            op_wires(batch),
        ),
{
    lemma_unflushed(before, batch.drop_last());
    assert((before + batch).drop_last() =~= before + batch.drop_last());
    assert((before + batch).last() == batch.last());
    assert(cut_at_flushes(before).rest =~= seq![]);
    assert(cut_at_flushes(before).rest + op_wires(batch.drop_last()) + batch.last().wire()
        =~= op_wires(batch));
}

proof fn lemma_unflushed(before: Seq<OpModel>, tail: Seq<OpModel>)
    requires
        forall|i: int| 0 <= i < tail.len() ==> !(#[trigger] tail[i]).triggers_flush(),
    ensures
        cut_at_flushes(before + tail).batches == cut_at_flushes(before).batches,
        cut_at_flushes(before + tail).rest == cut_at_flushes(before).rest + op_wires(tail),
    decreases tail.len(),
{
    if tail.len() == 0 {
        assert(before + tail =~= before);
        assert(cut_at_flushes(before).rest + op_wires(tail) =~= cut_at_flushes(before).rest);
    } else {
        assert forall|i: int| 0 <= i < tail.drop_last().len() implies !(
        #[trigger] tail.drop_last()[i]).triggers_flush() by {
            assert(!tail[i].triggers_flush());
        }
        lemma_unflushed(before, tail.drop_last());
        assert((before + tail).drop_last() =~= before + tail.drop_last());
        assert((before + tail).last() == tail.last());
        assert(!tail[tail.len() - 1].triggers_flush());
        assert(cut_at_flushes(before + tail).rest =~= cut_at_flushes(before).rest + op_wires(tail));
    }
}

/// Collecting never goes past the last ReadyForQuery that is waited for.
pub proof fn law_collector_stays_valid(collector: CollectorModel, received: ReceivedModel)
    requires
        collector.valid(),
        !collector.done,
    ensures
        collector.after(received).valid(),
{
}

/// Where a message ends the collecting, it is the last ReadyForQuery that was waited for,
/// and exactly as many as expected have been recorded.
pub proof fn law_message_ends_at_last_ready(collector: CollectorModel, message: MessageModel)
    requires
        collector.valid(),
        !collector.done,
        collector.after(ReceivedModel::Message(message)).done,
    ensures
        message is ReadyForQuery,
        ready_count(collector.after(ReceivedModel::Message(message)).responses)
            == collector.expected,
{
    let event = EventModel::Message(message);
    assert(collector.responses.push(event).drop_last() =~= collector.responses);
}

/// Every message that was read is recorded, in the order in which it came.
pub proof fn law_messages_recorded_in_order(
    collector: CollectorModel,
    received: Seq<ReceivedModel>,
)
    requires
        !collector.done,
        forall|i: int| 0 <= i < received.len() ==> #[trigger] received[i] is Message,
        received.len() > 0 ==> !collector.after_all(received.drop_last()).done,
    ensures
        collector.after_all(received).responses == collector.responses + received.map_values(
            |r: ReceivedModel| EventModel::Message(r->Message_0),
        ),
    decreases received.len(),
{
    let as_event = |r: ReceivedModel| EventModel::Message(r->Message_0);
    if received.len() == 0 {
        assert(collector.responses + received.map_values(as_event) =~= collector.responses);
    } else {
        let earlier = received.drop_last();
        assert forall|i: int| 0 <= i < earlier.len() implies #[trigger] earlier[i] is Message by {
            assert(received[i] is Message);
        }
        assert(received[received.len() - 1] is Message);
        law_messages_recorded_in_order(collector, earlier);
        assert(received.map_values(as_event) =~= earlier.map_values(as_event).push(
            as_event(received.last()),
        ));
        assert(collector.after_all(received).responses =~= collector.responses
            + received.map_values(as_event));
    }
}

/// A silence or a disconnect ends the collecting, and leaves at most one event behind the
/// messages.
pub proof fn law_end_records_at_most_one(collector: CollectorModel, received: ReceivedModel)
    requires
        !(received is Message),
    ensures
        collector.after(received).done,
        collector.after(received).responses == collector.responses || exists|event: EventModel|
            !(event is Message) && collector.after(received).responses
                == #[trigger] collector.responses.push(event),
{
}

/// Where a sequence closes the connection and the server has sent something, neither the
/// disconnect nor a silence is recorded.
pub proof fn law_terminate_expects_disconnect(collector: CollectorModel, reason: Seq<char>)
    requires
        collector.terminates,
        collector.responses.len() > 0,
    ensures
        collector.after(ReceivedModel::Failed(reason)).responses == collector.responses,
        collector.after(ReceivedModel::TimedOut).responses == collector.responses,
{
}

/// A server that hangs while a ReadyForQuery is waited for is recorded as a timeout, and
/// silence where none is waited for is not.
pub proof fn law_timeout_recorded_iff_waiting(collector: CollectorModel)
    requires
        collector.valid(),
        !collector.done,
    ensures
        collector.after(ReceivedModel::TimedOut).responses == if collector.expecting() {
            collector.responses.push(EventModel::Timeout)
        } else {
            collector.responses
        },
{
}

/// One more item counts where it is one of those that are counted.
proof fn lemma_filter_counts<T>(items: Seq<T>, counted: spec_fn(T) -> bool)
    requires
        items.len() > 0,
    ensures
        items.filter(counted).len() == items.drop_last().filter(counted).len() + if counted(
            items.last(),
        ) {
            1int
        } else {
            0int
        },
{
    reveal_with_fuel(Seq::filter, 1);
}

/// As many ReadyForQuery messages are waited for as there are Sync and Query operations.
pub proof fn law_waits_for_each_sync_and_query(ops: Seq<OpModel>)
    ensures
        CollectorModel::start(ops).expected == ops.filter(|op: OpModel| op is Sync).len()
            + ops.filter(|op: OpModel| op is Query).len(),
        expected_ready(ops) == ops.filter(|op: OpModel| op is Sync).len() + ops.filter(
            |op: OpModel| op is Query,
        ).len(),
    decreases ops.len(),
{
    let sync = |op: OpModel| op is Sync;
    let query = |op: OpModel| op is Query;
    if ops.len() == 0 {
        reveal_with_fuel(Seq::filter, 1);
    } else {
        law_waits_for_each_sync_and_query(ops.drop_last());
        lemma_filter_counts(ops, sync);
        lemma_filter_counts(ops, query);
    }
}

/// A further operation brings one more ReadyForQuery where it is a Sync or a Query. The end of a
/// copy, a flush, or any other operation leaves the number as it is.
pub proof fn law_only_sync_and_query_are_waited_for(ops: Seq<OpModel>, op: OpModel)
    ensures
        op is Sync || op is Query ==> CollectorModel::start(ops.push(op)).expected
            == CollectorModel::start(ops).expected + 1,
        op is CopyData || op is CopyDone || op is CopyFail || op is Flush || op is Terminate
            ==> CollectorModel::start(ops.push(op)).expected == CollectorModel::start(ops).expected,
        op is Parse || op is Bind || op is Execute || op is DescribeStatement || op
            is DescribePortal || op is CloseStatement || op is ClosePortal
            ==> CollectorModel::start(ops.push(op)).expected == CollectorModel::start(ops).expected,
{
    assert(ops.push(op).drop_last() =~= ops);
}

/// Collecting starts with nothing recorded, and knows whether some operation closes the
/// connection.
pub proof fn law_collecting_starts_empty(ops: Seq<OpModel>)
    ensures
        CollectorModel::start(ops).responses.len() == 0,
        !CollectorModel::start(ops).done,
        CollectorModel::start(ops).terminates <==> exists|i: int|
            0 <= i < ops.len() && #[trigger] ops[i] == OpModel::Terminate,
        CollectorModel::start(ops).valid(),
{
    if has_terminate(ops) {
        let i = choose|i: int| 0 <= i < ops.len() && #[trigger] ops[i] is Terminate;
        assert(ops[i] == OpModel::Terminate);
    }
}

/// The ReadyForQuery messages among the events are counted, and nothing else.
pub proof fn law_ready_messages_counted(events: Seq<EventModel>)
    ensures
        ready_count(events) == events.filter(
            |e: EventModel| e is Message && e->Message_0 is ReadyForQuery,
        ).len(),
    decreases events.len(),
{
    let ready = |e: EventModel| e is Message && e->Message_0 is ReadyForQuery;
    if events.len() == 0 {
        reveal_with_fuel(Seq::filter, 1);
    } else {
        law_ready_messages_counted(events.drop_last());
        lemma_filter_counts(events, ready);
    }
}

/// A message is always recorded. It ends the collecting exactly where ReadyForQuery messages are
/// waited for, the sequence does not close the connection, and the last of them is there.
pub proof fn law_message_recorded(collector: CollectorModel, message: MessageModel)
    ensures
        ({
            let after = collector.after(ReceivedModel::Message(message));
            let ready = |e: EventModel| e is Message && e->Message_0 is ReadyForQuery;
            &&& after.responses == collector.responses.push(EventModel::Message(message))
            &&& after.done <==> collector.expected > 0 && !collector.terminates
                && after.responses.filter(ready).len() >= collector.expected
            &&& after.expected == collector.expected
            &&& after.terminates == collector.terminates
        }),
{
    law_ready_messages_counted(
        collector.responses.push(EventModel::Message(message)),
    );
}

/// A disconnect ends the collecting. It is recorded with its reason, but where the sequence closes
/// the connection and something was recorded before.
pub proof fn law_disconnect_recorded_unless_asked_for(
    collector: CollectorModel,
    reason: Seq<char>,
)
    ensures
        ({
            let after = collector.after(ReceivedModel::Failed(reason));
            &&& after.done
            &&& collector.terminates && collector.responses.len() > 0 ==> after.responses
                == collector.responses
            &&& !collector.terminates || collector.responses.len() == 0 ==> after.responses
                == collector.responses.push(EventModel::Disconnected(reason))
            &&& after.expected == collector.expected
            &&& after.terminates == collector.terminates
        }),
{
}

/// Silence ends the collecting. It is recorded exactly where ReadyForQuery messages are waited
/// for, the sequence does not close the connection, and some of them are missing.
pub proof fn law_silence_recorded_where_an_answer_is_due(collector: CollectorModel)
    ensures
        ({
            let after = collector.after(ReceivedModel::TimedOut);
            let ready = |e: EventModel| e is Message && e->Message_0 is ReadyForQuery;
            &&& after.done
            &&& after.responses == if collector.expected > 0 && !collector.terminates
                && collector.responses.filter(ready).len() < collector.expected {
                collector.responses.push(EventModel::Timeout)
            } else {
                collector.responses
            }
            &&& after.expected == collector.expected
            &&& after.terminates == collector.terminates
        }),
{
    law_ready_messages_counted(collector.responses);
}

/// Reading goes on one attempt at a time until the collecting is over, and changes nothing from
/// then on.
pub proof fn law_attempts_taken_one_by_one(
    collector: CollectorModel,
    received: Seq<ReceivedModel>,
    next: ReceivedModel,
)
    ensures
        collector.after_all(seq![]) == collector,
        ({
            let before = collector.after_all(received);
            &&& before.done ==> collector.after_all(received.push(next)) == before
            &&& !before.done ==> collector.after_all(received.push(next)) == before.after(next)
        }),
{
    assert(received.push(next).drop_last() =~= received);
}

/// The operations behind which the connection is flushed are the Sync, Query, Flush, CopyDone,
/// CopyFail and Terminate operations.
pub proof fn law_flushes_counted(ops: Seq<OpModel>)
    ensures
        flush_count(ops) == ops.filter(
            |op: OpModel|
                op is Sync || op is Query || op is Flush || op is CopyDone || op is CopyFail || op
                    is Terminate,
        ).len(),
    decreases ops.len(),
{
    let flushing = |op: OpModel|
        op is Sync || op is Query || op is Flush || op is CopyDone || op is CopyFail || op
            is Terminate;
    if ops.len() == 0 {
        reveal_with_fuel(Seq::filter, 1);
    } else {
        law_flushes_counted(ops.drop_last());
        lemma_filter_counts(ops, flushing);
    }
}

/// When the connection has been flushed behind an operation, the messages of all operations up to
/// it have been sent, and no other.
pub proof fn law_flush_sends_all_so_far(ops: Seq<OpModel>, i: int)
    requires
        0 <= i < ops.len(),
        ops[i].triggers_flush(),
    ensures
        0 < flush_count(ops.take(i + 1)) <= planned(ops).batches.len(),
        joined(planned(ops).batches.take(flush_count(ops.take(i + 1)) as int)) == op_wires(
            ops.take(i + 1),
        ),
{
    let upto = ops.take(i + 1);
    assert(upto.last().triggers_flush());
    lemma_cut_keeps_bytes(upto);
    assert(joined(cut_at_flushes(upto).batches) + cut_at_flushes(upto).rest =~= joined(
        cut_at_flushes(upto).batches,
    ));
    lemma_cut_extends(ops, i + 1);
    assert(planned(ops).batches.take(flush_count(upto) as int) =~= cut_at_flushes(upto).batches);
}

proof fn lemma_cut_extends(ops: Seq<OpModel>, n: int)
    requires
        0 <= n <= ops.len(),
    ensures
        cut_at_flushes(ops.take(n)).batches.len() <= cut_at_flushes(ops).batches.len(),
        cut_at_flushes(ops).batches.take(cut_at_flushes(ops.take(n)).batches.len() as int)
            == cut_at_flushes(ops.take(n)).batches,
    decreases ops.len(),
{
    let start = cut_at_flushes(ops.take(n)).batches;
    if n == ops.len() {
        assert(ops.take(n) =~= ops);
        assert(start.take(start.len() as int) =~= start);
    } else {
        let before = ops.drop_last();
        lemma_cut_extends(before, n);
        assert(before.take(n) =~= ops.take(n));
        let earlier = cut_at_flushes(before).batches;
        assert(cut_at_flushes(ops).batches.take(start.len() as int) =~= earlier.take(
            start.len() as int,
        ));
    }
}

/// Where no operation makes the connection flush, everything goes out with one flush at the end.
pub proof fn law_unflushed_sequence_sent_at_once(ops: Seq<OpModel>)
    requires
        forall|i: int| 0 <= i < ops.len() ==> !(#[trigger] ops[i]).triggers_flush(),
    ensures
        planned(ops).batches == seq![op_wires(ops)],
        planned(ops).rest == Seq::<u8>::empty(),
{
    lemma_cut_keeps_bytes(ops);
    let cut = cut_at_flushes(ops);
    assert(cut.batches =~= seq![]);
    assert(joined(cut.batches) + cut.rest =~= cut.rest);
}

/// A setup statement is done with a ReadyForQuery, and every other message is passed over. A
/// failed connection fails the setup, and silence fails it with the statement that went
/// unanswered.
pub proof fn law_setup_waits_for_ready(received: ReceivedModel, statement: Seq<char>)
    ensures
        received matches ReceivedModel::Message(message) ==> {
            &&& message is ReadyForQuery <==> setup_decision(received, statement)
                == SetupModel::Next
            &&& !(message is ReadyForQuery) <==> setup_decision(received, statement)
                == SetupModel::Wait
        },
        received is Failed <==> setup_decision(received, statement) == SetupModel::Fail,
        received is TimedOut ==> setup_decision(received, statement) == SetupModel::TimedOut(
            "timeout during setup: "@ + statement,
        ),
{
}

/// A stream of events shows each of them, in order, and nothing else.
pub proof fn law_events_seen_one_for_one(events: Seq<ResponseEvent>)
    ensures
        event_models(events).len() == events.len(),
        forall|i: int| 0 <= i < events.len() ==> #[trigger] event_models(events)[i] == events[i]@,
{
}

/// What an event holds is seen as it is: a message, a timeout, or a disconnect with its reason.
pub proof fn law_event_seen_as_it_is(event: ResponseEvent)
    ensures
        event matches ResponseEvent::Message(message) ==> event@ == EventModel::Message(
            (*message)@,
        ),
        event is Timeout ==> event@ == EventModel::Timeout,
        event matches ResponseEvent::Disconnected(reason) ==> event@ == EventModel::Disconnected(
            reason@,
        ),
{
}

/// A send plan holds its batches, in order, each as it is.
pub proof fn law_batches_seen_one_for_one(plan: SendPlan)
    ensures
        plan@.batches.len() == plan.batches@.len(),
        forall|i: int|
            0 <= i < plan.batches@.len() ==> #[trigger] plan@.batches[i] == plan.batches@[i]@,
        plan@.rest == plan.rest@,
{
}

/// What came of an attempt to read is seen as it is: a message, silence, or a failure with its
/// reason.
pub proof fn law_received_seen_as_it_is(received: Received)
    ensures
        received matches Received::Message(message) ==> received@ == ReceivedModel::Message(
            (*message)@,
        ),
        received matches Received::Failed(reason) ==> received@ == ReceivedModel::Failed(reason@),
        received is TimedOut ==> received@ == ReceivedModel::TimedOut,
{
}

/// A step of the setup is seen as it is.
pub proof fn law_setup_step_seen_as_it_is(step: SetupStep)
    ensures
        step is Wait <==> step@ is Wait,
        step is Next <==> step@ is Next,
        step is Fail <==> step@ is Fail,
        step matches SetupStep::TimedOut(text) ==> step@ == SetupModel::TimedOut(text@),
{
}

/// A sequence can be sent exactly where the message of each of its operations has a length that a
/// length field can hold.
pub proof fn law_sequence_fits_iff_each_message_does(ops: Seq<OpModel>)
    ensures
        all_fit(ops) <==> forall|i: int|
            0 <= i < ops.len() ==> (#[trigger] ops[i]).payload().len() + 4 < 0x1_0000_0000,
{
    if forall|i: int|
        0 <= i < ops.len() ==> (#[trigger] ops[i]).payload().len() + 4 < 0x1_0000_0000 {
        assert forall|i: int| 0 <= i < ops.len() implies (#[trigger] ops[i]).fits_frame() by {}
    }
    if all_fit(ops) {
        assert forall|i: int| 0 <= i < ops.len() implies (#[trigger] ops[i]).payload().len() + 4
            < 0x1_0000_0000 by {
            assert(ops[i].fits_frame());
        }
    }
}

} // verus!
