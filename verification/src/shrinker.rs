//! Minimizes a sequence of operations while it keeps showing the same kind of divergence.

use crate::comparator::{
    compare, first_mismatch, message_at, norm_option, normalized_stream, reports_mismatch,
    Divergence, NormModel, NormalizedMsg,
};
use crate::op::{
    clone_ops, clone_params, op_models, FrontendOp, OpModel, PortalName, StmtName,
};
use crate::passes::{
    from_deletion, from_names, from_prefix, from_sql, from_window, lemma_from_deletion,
    lemma_from_names, lemma_from_prefix, lemma_from_sql, lemma_from_window,
    lemma_name_simplification, lemma_plain_sql_lighter, lemma_sql_simplification,
    lemma_unnamed_lighter, lemma_weight_remove, lemma_weight_update, lemma_weight_window,
    name_simplification, one_less, or_same, prefix_trim, shortest_window, shrunk, simplifies,
    single_deletion, sql_simplification, suffix_trim, weight, window, Judge,
};
use crate::runner::{event_models, ResponseEvent};
use crate::text::text_equal;
use vstd::prelude::*;
use vstd::std_specs::cmp::PartialEqSpec;

verus! {

// ---------------------------------------------------------------------------
// Which divergences count as the same
// ---------------------------------------------------------------------------

/// The class of a divergence: which kind of message stood against which. Two divergences of
/// one class are taken for the same bug.
#[derive(Debug)]
pub struct DivergenceClass {
    pub expected_kind: String,
    pub actual_kind: String,
}

/// What the class of a divergence holds.
pub struct ClassModel {
    pub expected_kind: Seq<char>,
    pub actual_kind: Seq<char>,
}

impl View for DivergenceClass {
    type V = ClassModel;

    open spec fn view(&self) -> ClassModel {
        ClassModel { expected_kind: self.expected_kind@, actual_kind: self.actual_kind@ }
    }
}

impl Clone for DivergenceClass {
    fn clone(&self) -> (copy: DivergenceClass)
        ensures
            copy@ == self@,
    {
        DivergenceClass {
            expected_kind: self.expected_kind.clone(),
            actual_kind: self.actual_kind.clone(),
        }
    }
}

impl PartialEq for DivergenceClass {
    fn eq(&self, other: &DivergenceClass) -> (equal: bool) {
        self.expected_kind == other.expected_kind && self.actual_kind == other.actual_kind
    }
}

impl vstd::std_specs::cmp::PartialEqSpecImpl for DivergenceClass {
    open spec fn obeys_eq_spec() -> bool {
        true
    }

    open spec fn eq_spec(&self, other: &DivergenceClass) -> bool {
        self@ == other@
    }
}

/// The kind of a message, without what it carries.
pub open spec fn kind_of(message: Option<NormModel>) -> Seq<char> {
    match message {
        None => "EndOfStream"@,
        Some(known) => match known {
            NormModel::ReadyForQuery { .. } => "ReadyForQuery"@,
            NormModel::ErrorResponse { .. } => "ErrorResponse"@,
            NormModel::NoticeResponse { .. } => "NoticeResponse"@,
            NormModel::NotificationResponse { .. } => "NotificationResponse"@,
            NormModel::RowDescription { .. } => "RowDescription"@,
            NormModel::DataRow { .. } => "DataRow"@,
            NormModel::CommandComplete { .. } => "CommandComplete"@,
            NormModel::ParameterDescription { .. } => "ParameterDescription"@,
            NormModel::CopyInResponse { .. } => "CopyInResponse"@,
            NormModel::CopyOutResponse { .. } => "CopyOutResponse"@,
            NormModel::CopyData { .. } => "CopyData"@,
            NormModel::ParseComplete => "ParseComplete"@,
            NormModel::BindComplete => "BindComplete"@,
            NormModel::CloseComplete => "CloseComplete"@,
            NormModel::NoData => "NoData"@,
            NormModel::EmptyQueryResponse => "EmptyQueryResponse"@,
            NormModel::PortalSuspended => "PortalSuspended"@,
            NormModel::CopyDone => "CopyDone"@,
            NormModel::Timeout => "Timeout"@,
            NormModel::Disconnected(_) => "Disconnected"@,
        },
    }
}

/// The class of a mismatch between two messages.
pub open spec fn class_of(expected: Option<NormModel>, actual: Option<NormModel>) -> ClassModel {
    ClassModel { expected_kind: kind_of(expected), actual_kind: kind_of(actual) }
}

/// The two messages are of one kind, whatever they carry, or both are missing.
pub open spec fn same_kind(a: Option<NormModel>, b: Option<NormModel>) -> bool {
    match (a, b) {
        (None, None) => true,
        (Some(x), Some(y)) => match x {
            NormModel::ReadyForQuery { .. } => y is ReadyForQuery,
            NormModel::ErrorResponse { .. } => y is ErrorResponse,
            NormModel::NoticeResponse { .. } => y is NoticeResponse,
            NormModel::NotificationResponse { .. } => y is NotificationResponse,
            NormModel::RowDescription { .. } => y is RowDescription,
            NormModel::DataRow { .. } => y is DataRow,
            NormModel::CommandComplete { .. } => y is CommandComplete,
            NormModel::ParameterDescription { .. } => y is ParameterDescription,
            NormModel::CopyInResponse { .. } => y is CopyInResponse,
            NormModel::CopyOutResponse { .. } => y is CopyOutResponse,
            NormModel::CopyData { .. } => y is CopyData,
            NormModel::ParseComplete => y is ParseComplete,
            NormModel::BindComplete => y is BindComplete,
            NormModel::CloseComplete => y is CloseComplete,
            NormModel::NoData => y is NoData,
            NormModel::EmptyQueryResponse => y is EmptyQueryResponse,
            NormModel::PortalSuspended => y is PortalSuspended,
            NormModel::CopyDone => y is CopyDone,
            NormModel::Timeout => y is Timeout,
            NormModel::Disconnected(_) => y is Disconnected,
        },
        _ => false,
    }
}

/// The kind of a message; `EndOfStream` where there is none.
pub fn msg_kind(message: &Option<NormalizedMsg>) -> (kind: String)
    ensures
        kind@ == kind_of(norm_option(*message)),
{
    let name = match message {
        None => "EndOfStream",
        Some(known) => match known {
            NormalizedMsg::ReadyForQuery { .. } => "ReadyForQuery",
            NormalizedMsg::ErrorResponse { .. } => "ErrorResponse",
            NormalizedMsg::NoticeResponse { .. } => "NoticeResponse",
            NormalizedMsg::NotificationResponse { .. } => "NotificationResponse",
            NormalizedMsg::RowDescription { .. } => "RowDescription",
            NormalizedMsg::DataRow { .. } => "DataRow",
            NormalizedMsg::CommandComplete { .. } => "CommandComplete",
            NormalizedMsg::ParameterDescription { .. } => "ParameterDescription",
            NormalizedMsg::CopyInResponse { .. } => "CopyInResponse",
            NormalizedMsg::CopyOutResponse { .. } => "CopyOutResponse",
            NormalizedMsg::CopyData { .. } => "CopyData",
            NormalizedMsg::ParseComplete => "ParseComplete",
            NormalizedMsg::BindComplete => "BindComplete",
            NormalizedMsg::CloseComplete => "CloseComplete",
            NormalizedMsg::NoData => "NoData",
            NormalizedMsg::EmptyQueryResponse => "EmptyQueryResponse",
            NormalizedMsg::PortalSuspended => "PortalSuspended",
            NormalizedMsg::CopyDone => "CopyDone",
            NormalizedMsg::Timeout => "Timeout",
            NormalizedMsg::Disconnected(_) => "Disconnected",
        },
    };
    name.to_owned()
}

/// The class of a divergence.
pub fn classify(divergence: &Divergence) -> (class: DivergenceClass)
    ensures
        class@ == class_of(norm_option(divergence.expected), norm_option(divergence.actual)),
{
    DivergenceClass {
        expected_kind: msg_kind(&divergence.expected),
        actual_kind: msg_kind(&divergence.actual),
    }
}

/// Two normalized streams part, and the class of their first mismatch is this one.
pub open spec fn parts_in_class(
    pg: Seq<NormModel>,
    target: Seq<NormModel>,
    class: ClassModel,
) -> bool {
    exists|i: int|
        #[trigger] first_mismatch(pg, target, i) && class_of(
            message_at(pg, i),
            message_at(target, i),
        ) == class
}

/// Judges whether a candidate shows a divergence of the class. `run` holds the two response
/// streams that the candidate gave, or nothing where it could not be run. An empty candidate
/// never does.
pub fn reproduces(
    candidate: &[FrontendOp],
    class: &DivergenceClass,
    run: Option<(&[ResponseEvent], &[ResponseEvent])>,
) -> (same: bool)
    ensures
        same == (candidate@.len() > 0 && (run matches Some(streams) && parts_in_class(
            normalized_stream(event_models(streams.0@)),
            normalized_stream(event_models(streams.1@)),
            class@,
        ))),
        candidate@.len() == 0 || run is None ==> !same,
        candidate@.len() > 0 ==> (run matches Some(streams) ==> {
            let pg = normalized_stream(event_models(streams.0@));
            let target = normalized_stream(event_models(streams.1@));
            same <==> exists|i: int|
                {
                    &&& #[trigger] first_mismatch(pg, target, i)
                    &&& kind_of(message_at(pg, i)) == class.expected_kind@
                    &&& kind_of(message_at(target, i)) == class.actual_kind@
                }
        }),
{
    if candidate.len() == 0 {
        return false;
    }
    match run {
        None => false,
        Some((pg_events, target_events)) => {
            let ghost pg = normalized_stream(event_models(pg_events@));
            let ghost target = normalized_stream(event_models(target_events@));
            match compare(pg_events, target_events, candidate) {
                None => {
                    assert forall|i: int| !#[trigger] first_mismatch(pg, target, i) by {}
                    false
                },
                Some(divergence) => {
                    let found = classify(&divergence);
                    proof {
                        let at = divergence.index as int;
                        assert(first_mismatch(pg, target, at));
                        assert forall|i: int| #[trigger] first_mismatch(pg, target, i) implies i
                            == at by {
                            crate::comparator::law_first_mismatch_unique(pg, target, i, at);
                        }
                    }
                    found == *class
                },
            }
        },
    }
}

// ---------------------------------------------------------------------------
// Simpler operations
// ---------------------------------------------------------------------------

impl OpModel {
    /// The operation uses a named statement or portal.
    pub open spec fn is_named(self) -> bool {
        match self {
            OpModel::Parse { name, .. } => name != StmtName::Unnamed,
            OpModel::Bind { portal, stmt, .. } => portal != PortalName::Unnamed || stmt
                != StmtName::Unnamed,
            OpModel::DescribeStatement { name } => name != StmtName::Unnamed,
            OpModel::DescribePortal { name } => name != PortalName::Unnamed,
            OpModel::Execute { portal, .. } => portal != PortalName::Unnamed,
            OpModel::CloseStatement { name } => name != StmtName::Unnamed,
            OpModel::ClosePortal { name } => name != PortalName::Unnamed,
            _ => false,
        }
    }

    /// The operation on the unnamed statement and portal.
    pub open spec fn unnamed(self) -> OpModel {
        match self {
            OpModel::Parse { sql, param_oids, .. } => OpModel::Parse {
                name: StmtName::Unnamed,
                sql,
                param_oids,
            },
            OpModel::Bind { params, .. } => OpModel::Bind {
                portal: PortalName::Unnamed,
                stmt: StmtName::Unnamed,
                params,
            },
            OpModel::DescribeStatement { .. } => OpModel::DescribeStatement {
                name: StmtName::Unnamed,
            },
            OpModel::DescribePortal { .. } => OpModel::DescribePortal { name: PortalName::Unnamed },
            OpModel::Execute { max_rows, .. } => OpModel::Execute {
                portal: PortalName::Unnamed,
                max_rows,
            },
            OpModel::CloseStatement { .. } => OpModel::CloseStatement { name: StmtName::Unnamed },
            OpModel::ClosePortal { .. } => OpModel::ClosePortal { name: PortalName::Unnamed },
            _ => self,
        }
    }

    /// The operation carries SQL other than `SELECT 1`.
    pub open spec fn has_other_sql(self) -> bool {
        match self {
            OpModel::Query { sql } => sql != "SELECT 1"@,
            OpModel::Parse { sql, .. } => sql != "SELECT 1"@,
            _ => false,
        }
    }

    /// The operation with `SELECT 1` as its SQL, which takes no parameters.
    pub open spec fn with_plain_sql(self) -> OpModel {
        match self {
            OpModel::Query { .. } => OpModel::Query { sql: "SELECT 1"@ },
            OpModel::Parse { name, .. } => OpModel::Parse {
                name,
                sql: "SELECT 1"@,
                param_oids: seq![],
            },
            _ => self,
        }
    }
}

/// What an operation simplified away holds, or nothing where it stays.
pub open spec fn op_option(op: Option<FrontendOp>) -> Option<OpModel> {
    match op {
        Some(known) => Some(known@),
        None => None,
    }
}

/// Replaces named statements and portals by the unnamed ones.
pub fn simplify_names(op: &FrontendOp) -> (simpler: Option<FrontendOp>)
    ensures
        op_option(simpler) == if op@.is_named() {
            Some(op@.unnamed())
        } else {
            None
        },
{
    match op {
        FrontendOp::Parse { name, sql, param_oids } => {
            if *name != StmtName::Unnamed {
                Some(
                    FrontendOp::Parse {
                        name: StmtName::Unnamed,
                        sql: sql.clone(),
                        param_oids: param_oids.clone(),
                    },
                )
            } else {
                None
            }
        },
        FrontendOp::Bind { portal, stmt, params } => {
            if *portal != PortalName::Unnamed || *stmt != StmtName::Unnamed {
                Some(
                    FrontendOp::Bind {
                        portal: PortalName::Unnamed,
                        stmt: StmtName::Unnamed,
                        params: clone_params(params),
                    },
                )
            } else {
                None
            }
        },
        FrontendOp::DescribeStatement { name } => {
            if *name != StmtName::Unnamed {
                Some(FrontendOp::DescribeStatement { name: StmtName::Unnamed })
            } else {
                None
            }
        },
        FrontendOp::DescribePortal { name } => {
            if *name != PortalName::Unnamed {
                Some(FrontendOp::DescribePortal { name: PortalName::Unnamed })
            } else {
                None
            }
        },
        FrontendOp::Execute { portal, max_rows } => {
            if *portal != PortalName::Unnamed {
                Some(FrontendOp::Execute { portal: PortalName::Unnamed, max_rows: *max_rows })
            } else {
                None
            }
        },
        FrontendOp::CloseStatement { name } => {
            if *name != StmtName::Unnamed {
                Some(FrontendOp::CloseStatement { name: StmtName::Unnamed })
            } else {
                None
            }
        },
        FrontendOp::ClosePortal { name } => {
            if *name != PortalName::Unnamed {
                Some(FrontendOp::ClosePortal { name: PortalName::Unnamed })
            } else {
                None
            }
        },
        _ => None,
    }
}

/// Replaces SQL by `SELECT 1`.
pub fn simplify_sql(op: &FrontendOp) -> (simpler: Option<FrontendOp>)
    ensures
        op_option(simpler) == if op@.has_other_sql() {
            Some(op@.with_plain_sql())
        } else {
            None
        },
{
    match op {
        FrontendOp::Query { sql } => {
            if !text_equal(sql.as_str(), "SELECT 1") {
                Some(FrontendOp::Query { sql: "SELECT 1".to_owned() })
            } else {
                None
            }
        },
        FrontendOp::Parse { name, sql, .. } => {
            if !text_equal(sql.as_str(), "SELECT 1") {
                let simpler = FrontendOp::Parse {
                    name: *name,
                    sql: "SELECT 1".to_owned(),
                    param_oids: Vec::new(),
                };
                assert(simpler@ == op@.with_plain_sql());
                Some(simpler)
            } else {
                None
            }
        },
        _ => None,
    }
}

// ---------------------------------------------------------------------------
// The order of trials
// ---------------------------------------------------------------------------

/// Where minimizing stands within a round.
pub enum PassModel {
    /// Next, the first `end` operations alone are tried.
    SuffixTrim { end: nat },
    /// Next, the operations from `start` on alone are tried.
    PrefixTrim { start: nat },
    /// Next, the operation at `index` is left out.
    SingleDeletion { index: nat },
    /// Next, the `len` operations from `start` on alone are tried.
    Subsequence { len: nat, start: nat },
    /// Next, the operation at `index` loses its names.
    NameSimplification { index: nat },
    /// Next, the operation at `index` loses its SQL.
    SqlSimplification { index: nat },
    /// A whole round changed nothing.
    Done,
}

/// How far minimizing has come.
pub struct ShrinkModel {
    /// The smallest sequence so far.
    pub current: Seq<OpModel>,
    /// The round has changed something.
    pub progress: bool,
    /// Where the round stands.
    pub pass: PassModel,
}

/// The search for a window at its start.
pub open spec fn first_windows() -> PassModel {
    PassModel::Subsequence { len: 1, start: 0 }
}

impl ShrinkModel {
    /// The first round on a sequence.
    pub open spec fn start(ops: Seq<OpModel>) -> ShrinkModel {
        ShrinkModel { current: ops, progress: false, pass: PassModel::SuffixTrim { end: 1 } }
    }

    /// What is tried next, where there is something to try at this place.
    pub open spec fn candidate(self) -> Option<Seq<OpModel>> {
        let ops = self.current;
        match self.pass {
            PassModel::SuffixTrim { end } => if 1 <= end < ops.len() {
                Some(ops.take(end as int))
            } else {
                None
            },
            PassModel::PrefixTrim { start } => if 1 <= start < ops.len() {
                Some(ops.skip(start as int))
            } else {
                None
            },
            PassModel::SingleDeletion { index } => if ops.len() > 1 && index < ops.len() {
                Some(ops.remove(index as int))
            } else {
                None
            },
            PassModel::Subsequence { len, start } => if 1 <= len < ops.len() && start + len
                <= ops.len() {
                Some(ops.subrange(start as int, (start + len) as int))
            } else {
                None
            },
            PassModel::NameSimplification { index } => if index < ops.len()
                && ops[index as int].is_named() {
                Some(ops.update(index as int, ops[index as int].unnamed()))
            } else {
                None
            },
            PassModel::SqlSimplification { index } => if index < ops.len()
                && ops[index as int].has_other_sql() {
                Some(ops.update(index as int, ops[index as int].with_plain_sql()))
            } else {
                None
            },
            PassModel::Done => None,
        }
    }

    /// At another place of the same round.
    pub open spec fn at(self, pass: PassModel) -> ShrinkModel {
        ShrinkModel { pass, ..self }
    }

    /// With a smaller sequence.
    pub open spec fn adopting(self, smaller: Seq<OpModel>, pass: PassModel) -> ShrinkModel {
        ShrinkModel { current: smaller, progress: true, pass }
    }

    /// The place behind one at which there is nothing to try.
    pub open spec fn skipped(self) -> ShrinkModel {
        let n = self.current.len();
        match self.pass {
            PassModel::SuffixTrim { .. } => self.at(PassModel::PrefixTrim { start: one_less(n) }),
            PassModel::PrefixTrim { .. } => self.at(PassModel::SingleDeletion { index: 0 }),
            PassModel::SingleDeletion { .. } => self.at(first_windows()),
            PassModel::Subsequence { len, .. } => if len + 1 < n {
                self.at(PassModel::Subsequence { len: len + 1, start: 0 })
            } else {
                self.at(PassModel::NameSimplification { index: 0 })
            },
            PassModel::NameSimplification { index } => if index < n {
                self.at(PassModel::NameSimplification { index: index + 1 })
            } else {
                self.at(PassModel::SqlSimplification { index: 0 })
            },
            PassModel::SqlSimplification { index } => if index < n {
                self.at(PassModel::SqlSimplification { index: index + 1 })
            } else if self.progress {
                ShrinkModel::start(self.current)
            } else {
                self.at(PassModel::Done)
            },
            PassModel::Done => self,
        }
    }

    /// What becomes of minimizing when the candidate has been judged.
    pub open spec fn judged(self, same: bool) -> ShrinkModel {
        let tried = self.candidate()->0;
        match self.pass {
            PassModel::SuffixTrim { end } => if same {
                self.adopting(tried, PassModel::PrefixTrim { start: one_less(tried.len()) })
            } else {
                self.at(PassModel::SuffixTrim { end: end + 1 })
            },
            PassModel::PrefixTrim { start } => if same {
                self.adopting(tried, PassModel::SingleDeletion { index: 0 })
            } else {
                self.at(PassModel::PrefixTrim { start: one_less(start) })
            },
            PassModel::SingleDeletion { index } => if same {
                self.adopting(tried, first_windows())
            } else {
                self.at(PassModel::SingleDeletion { index: index + 1 })
            },
            PassModel::Subsequence { len, start } => if same {
                self.adopting(tried, PassModel::NameSimplification { index: 0 })
            } else {
                self.at(PassModel::Subsequence { len, start: start + 1 })
            },
            PassModel::NameSimplification { index } => if same {
                self.adopting(tried, PassModel::NameSimplification { index: index + 1 })
            } else {
                self.at(PassModel::NameSimplification { index: index + 1 })
            },
            PassModel::SqlSimplification { index } => if same {
                self.adopting(tried, PassModel::SqlSimplification { index: index + 1 })
            } else {
                self.at(PassModel::SqlSimplification { index: index + 1 })
            },
            PassModel::Done => self,
        }
    }

    /// The next place at which there is something to try, or the end.
    pub open spec fn settled(self) -> ShrinkModel
        decreases self.mass(), self.rounds(), self.rank(), self.left(), self.inner(),
    {
        if self.pass is Done || self.candidate() is Some {
            self
        } else {
            proof {
                lemma_skipped_decreases(self);
            }
            self.skipped().settled()
        }
    }

    /// What minimizing ends with when the candidates are judged by `judge`.
    pub open spec fn run(self, judge: Judge) -> Seq<OpModel>
        decreases self.mass(), self.rounds(), self.rank(), self.left(), self.inner(),
    {
        if self.pass is Done {
            self.current
        } else {
            match self.candidate() {
                Some(tried) => {
                    proof {
                        lemma_judged_decreases(self, judge(tried));
                    }
                    self.judged(judge(tried)).run(judge)
                },
                None => {
                    proof {
                        lemma_skipped_decreases(self);
                    }
                    self.skipped().run(judge)
                },
            }
        }
    }

    // What bounds the trials that are still to come, most significant first.

    pub open spec fn mass(self) -> nat {
        weight(self.current)
    }

    pub open spec fn rounds(self) -> nat {
        if self.progress {
            1
        } else {
            0
        }
    }

    pub open spec fn rank(self) -> nat {
        match self.pass {
            PassModel::SuffixTrim { .. } => 6,
            PassModel::PrefixTrim { .. } => 5,
            PassModel::SingleDeletion { .. } => 4,
            PassModel::Subsequence { .. } => 3,
            PassModel::NameSimplification { .. } => 2,
            PassModel::SqlSimplification { .. } => 1,
            PassModel::Done => 0,
        }
    }

    pub open spec fn left(self) -> nat {
        let n = self.current.len();
        match self.pass {
            PassModel::SuffixTrim { end } => up_to(end, n),
            PassModel::PrefixTrim { start } => start,
            PassModel::SingleDeletion { index } => up_to(index, n),
            PassModel::Subsequence { len, .. } => up_to(len, n),
            PassModel::NameSimplification { index } => up_to(index, n),
            PassModel::SqlSimplification { index } => up_to(index, n),
            PassModel::Done => 0,
        }
    }

    pub open spec fn inner(self) -> nat {
        match self.pass {
            PassModel::Subsequence { start, .. } => up_to(start, self.current.len()),
            _ => 0,
        }
    }
}

/// How far it is from one number up to another.
pub open spec fn up_to(from: nat, to: nat) -> nat {
    if from < to {
        (to - from) as nat
    } else {
        0
    }
}

/// Passing over a place brings the end nearer.
pub proof fn lemma_skipped_decreases(state: ShrinkModel)
    requires
        !(state.pass is Done),
        state.candidate() is None,
    ensures
        decreases_to!(
            state.mass(), state.rounds(), state.rank(), state.left(), state.inner()
            => state.skipped().mass(), state.skipped().rounds(), state.skipped().rank(),
            state.skipped().left(), state.skipped().inner()
        ),
{
}

/// A candidate weighs less than what it was made of.
pub proof fn lemma_candidate_lighter(state: ShrinkModel)
    ensures
        state.candidate() matches Some(tried) ==> weight(tried) < weight(state.current)
            && tried.len() > 0 && tried.len() <= state.current.len(),
{
    let ops = state.current;
    if state.candidate() is Some {
        match state.pass {
            PassModel::SuffixTrim { end } => {
                lemma_weight_window(ops, 0, end as int);
                assert(ops.take(end as int) =~= ops.subrange(0, end as int));
            },
            PassModel::PrefixTrim { start } => {
                lemma_weight_window(ops, start as int, ops.len() as int);
                assert(ops.skip(start as int) =~= ops.subrange(start as int, ops.len() as int));
            },
            PassModel::SingleDeletion { index } => {
                lemma_weight_remove(ops, index as int);
            },
            PassModel::Subsequence { len, start } => {
                lemma_weight_window(ops, start as int, (start + len) as int);
            },
            PassModel::NameSimplification { index } => {
                lemma_unnamed_lighter(ops[index as int]);
                lemma_weight_update(ops, index as int, ops[index as int].unnamed());
            },
            PassModel::SqlSimplification { index } => {
                lemma_plain_sql_lighter(ops[index as int]);
                lemma_weight_update(ops, index as int, ops[index as int].with_plain_sql());
            },
            PassModel::Done => {},
        }
    }
}

/// Judging a candidate brings the end nearer, whatever the verdict.
pub proof fn lemma_judged_decreases(state: ShrinkModel, same: bool)
    requires
        state.candidate() is Some,
    ensures
        decreases_to!(
            state.mass(), state.rounds(), state.rank(), state.left(), state.inner()
            => state.judged(same).mass(), state.judged(same).rounds(),
            state.judged(same).rank(), state.judged(same).left(), state.judged(same).inner()
        ),
{
    lemma_candidate_lighter(state);
}

/// What is settled has a candidate unless it is at the end.
pub proof fn lemma_settled(state: ShrinkModel)
    ensures
        state.settled().pass is Done <==> state.settled().candidate() is None,
    decreases state.mass(), state.rounds(), state.rank(), state.left(), state.inner(),
{
    if !(state.pass is Done || state.candidate() is Some) {
        lemma_skipped_decreases(state);
        lemma_settled(state.skipped());
    }
}

// ---------------------------------------------------------------------------
// The shrinker
// ---------------------------------------------------------------------------

/// Where minimizing stands within a round.
#[derive(Debug)]
pub enum Pass {
    SuffixTrim { end: usize },
    PrefixTrim { start: usize },
    SingleDeletion { index: usize },
    Subsequence { len: usize, start: usize },
    NameSimplification { index: usize },
    SqlSimplification { index: usize },
    Done,
}

/// What a sequence that may be missing holds.
pub open spec fn ops_option(ops: Option<Vec<FrontendOp>>) -> Option<Seq<OpModel>> {
    match ops {
        Some(known) => Some(op_models(known@)),
        None => None,
    }
}

impl View for Pass {
    type V = PassModel;

    open spec fn view(&self) -> PassModel {
        match self {
            Pass::SuffixTrim { end } => PassModel::SuffixTrim { end: *end as nat },
            Pass::PrefixTrim { start } => PassModel::PrefixTrim { start: *start as nat },
            Pass::SingleDeletion { index } => PassModel::SingleDeletion { index: *index as nat },
            Pass::Subsequence { len, start } => PassModel::Subsequence {
                len: *len as nat,
                start: *start as nat,
            },
            Pass::NameSimplification { index } => PassModel::NameSimplification {
                index: *index as nat,
            },
            Pass::SqlSimplification { index } => PassModel::SqlSimplification {
                index: *index as nat,
            },
            Pass::Done => PassModel::Done,
        }
    }
}

/// Runs all passes, round after round, until no pass makes progress. It hands out one
/// candidate at a time, and is told of each whether it shows the same kind of divergence.
#[derive(Debug)]
pub struct Shrinker {
    current: Vec<FrontendOp>,
    progress: bool,
    pass: Pass,
}

impl View for Shrinker {
    type V = ShrinkModel;

    closed spec fn view(&self) -> ShrinkModel {
        ShrinkModel {
            current: op_models(self.current@),
            progress: self.progress,
            pass: self.pass@,
        }
    }
}

/// The copy of a sequence without the operation at an index.
fn without(ops: &Vec<FrontendOp>, index: usize) -> (copy: Vec<FrontendOp>)
    requires
        index < ops.len(),
    ensures
        op_models(copy@) == op_models(ops@).remove(index as int),
{
    let mut copy = clone_ops(ops.as_slice(), 0, ops.len());
    let ghost whole = copy@;
    assert(op_models(whole) =~= op_models(ops@));
    copy.remove(index);
    assert(op_models(copy@) =~= op_models(whole).remove(index as int));
    copy
}

/// The copy of a sequence with another operation at an index.
fn with_op(ops: &Vec<FrontendOp>, index: usize, op: FrontendOp) -> (copy: Vec<FrontendOp>)
    requires
        index < ops.len(),
    ensures
        op_models(copy@) == op_models(ops@).update(index as int, op@),
{
    let mut copy = clone_ops(ops.as_slice(), 0, ops.len());
    let ghost whole = copy@;
    assert(op_models(whole) =~= op_models(ops@));
    copy.set(index, op);
    assert(op_models(copy@) =~= op_models(whole).update(index as int, op@));
    copy
}

/// One less, and no less than nothing.
fn less_one(n: usize) -> (less: usize)
    ensures
        less == one_less(n as nat),
{
    if n == 0 {
        0
    } else {
        n - 1
    }
}

impl Shrinker {
    /// There is a candidate to judge, except at the end.
    pub open spec fn wf(&self) -> bool {
        self@.pass is Done <==> self@.candidate() is None
    }

    /// Starts to minimize a sequence.
    pub fn new(ops: &[FrontendOp]) -> (shrinker: Shrinker)
        ensures
            shrinker.wf(),
            shrinker@ == ShrinkModel::start(op_models(ops@)).settled(),
    {
        let current = clone_ops(ops, 0, ops.len());
        assert(op_models(current@) =~= op_models(ops@));
        let mut shrinker = Shrinker { current, progress: false, pass: Pass::SuffixTrim { end: 1 } };
        shrinker.settle();
        shrinker
    }

    /// The candidate to judge next; none at the end.
    pub fn candidate(&self) -> (tried: Option<Vec<FrontendOp>>)
        ensures
            ops_option(tried) == self@.candidate(),
    {
        let n = self.current.len();
        let ops = &self.current;
        match &self.pass {
            Pass::SuffixTrim { end } => if 1 <= *end && *end < n {
                let tried = clone_ops(ops.as_slice(), 0, *end);
                assert(op_models(tried@) =~= op_models(ops@).take(*end as int));
                Some(tried)
            } else {
                None
            },
            Pass::PrefixTrim { start } => if 1 <= *start && *start < n {
                let tried = clone_ops(ops.as_slice(), *start, n);
                assert(op_models(tried@) =~= op_models(ops@).skip(*start as int));
                Some(tried)
            } else {
                None
            },
            Pass::SingleDeletion { index } => if n > 1 && *index < n {
                Some(without(ops, *index))
            } else {
                None
            },
            Pass::Subsequence { len, start } => if 1 <= *len && *len < n && *start <= n - *len {
                Some(clone_ops(ops.as_slice(), *start, *start + *len))
            } else {
                None
            },
            Pass::NameSimplification { index } => if *index < n {
                match simplify_names(&ops[*index]) {
                    Some(simpler) => Some(with_op(ops, *index, simpler)),
                    None => None,
                }
            } else {
                None
            },
            Pass::SqlSimplification { index } => if *index < n {
                match simplify_sql(&ops[*index]) {
                    Some(simpler) => Some(with_op(ops, *index, simpler)),
                    None => None,
                }
            } else {
                None
            },
            Pass::Done => None,
        }
    }

    /// Whether there is a candidate at this place.
    fn has_candidate(&self) -> (tries: bool)
        ensures
            tries == (self@.candidate() is Some),
    {
        let n = self.current.len();
        match &self.pass {
            Pass::SuffixTrim { end } => 1 <= *end && *end < n,
            Pass::PrefixTrim { start } => 1 <= *start && *start < n,
            Pass::SingleDeletion { index } => n > 1 && *index < n,
            Pass::Subsequence { len, start } => 1 <= *len && *len < n && *start <= n - *len,
            Pass::NameSimplification { index } => *index < n && simplify_names(
                &self.current[*index],
            ).is_some(),
            Pass::SqlSimplification { index } => *index < n && simplify_sql(
                &self.current[*index],
            ).is_some(),
            Pass::Done => false,
        }
    }

    /// Passes over a place at which there is nothing to try.
    fn skip(&mut self)
        requires
            old(self)@.candidate() is None,
        ensures
            final(self)@ == old(self)@.skipped(),
    {
        let n = self.current.len();
        let mut pass = Pass::Done;
        std::mem::swap(&mut pass, &mut self.pass);
        match pass {
            Pass::SuffixTrim { .. } => {
                self.pass = Pass::PrefixTrim { start: less_one(n) };
            },
            Pass::PrefixTrim { .. } => {
                self.pass = Pass::SingleDeletion { index: 0 };
            },
            Pass::SingleDeletion { .. } => {
                self.pass = Pass::Subsequence { len: 1, start: 0 };
            },
            Pass::Subsequence { len, .. } => {
                self.pass = if n > 0 && len < n - 1 {
                    Pass::Subsequence { len: len + 1, start: 0 }
                } else {
                    Pass::NameSimplification { index: 0 }
                };
            },
            Pass::NameSimplification { index } => {
                self.pass = if index < n {
                    Pass::NameSimplification { index: index + 1 }
                } else {
                    Pass::SqlSimplification { index: 0 }
                };
            },
            Pass::SqlSimplification { index } => {
                if index < n {
                    self.pass = Pass::SqlSimplification { index: index + 1 };
                } else if self.progress {
                    self.progress = false;
                    self.pass = Pass::SuffixTrim { end: 1 };
                } else {
                    self.pass = Pass::Done;
                }
            },
            Pass::Done => {},
        }
    }

    /// Goes on to the next candidate, or to the end.
    fn settle(&mut self)
        ensures
            final(self).wf(),
            final(self)@ == old(self)@.settled(),
    {
        while !self.is_done() && !self.has_candidate()
            invariant
                self@.settled() == old(self)@.settled(),
            decreases
                self@.mass(),
                self@.rounds(),
                self@.rank(),
                self@.left(),
                self@.inner(),
        {
            proof {
                lemma_skipped_decreases(self@);
            }
            self.skip();
        }
        proof {
            lemma_settled(self@);
        }
    }

    /// Whether minimizing is over.
    pub fn is_done(&self) -> (done: bool)
        ensures
            done == (self@.pass is Done),
    {
        match &self.pass {
            Pass::Done => true,
            _ => false,
        }
    }

    /// Takes in whether the candidate shows the same kind of divergence.
    pub fn judge(&mut self, same: bool)
        requires
            old(self).wf(),
            !(old(self)@.pass is Done),
        ensures
            final(self).wf(),
            final(self)@ == old(self)@.judged(same).settled(),
    {
        let ghost before = self@;
        proof {
            lemma_judged_decreases(self@, same);
        }
        assert(self.current.len() <= usize::MAX);
        let tried = if same {
            self.candidate()
        } else {
            None
        };
        let mut pass = Pass::Done;
        std::mem::swap(&mut pass, &mut self.pass);
        match pass {
            Pass::SuffixTrim { end } => match tried {
                Some(found) => {
                    self.pass = Pass::PrefixTrim { start: less_one(found.len()) };
                    self.current = found;
                    self.progress = true;
                },
                None => {
                    self.pass = Pass::SuffixTrim { end: end + 1 };
                },
            },
            Pass::PrefixTrim { start } => match tried {
                Some(found) => {
                    self.pass = Pass::SingleDeletion { index: 0 };
                    self.current = found;
                    self.progress = true;
                },
                None => {
                    self.pass = Pass::PrefixTrim { start: less_one(start) };
                },
            },
            Pass::SingleDeletion { index } => match tried {
                Some(found) => {
                    self.pass = Pass::Subsequence { len: 1, start: 0 };
                    self.current = found;
                    self.progress = true;
                },
                None => {
                    self.pass = Pass::SingleDeletion { index: index + 1 };
                },
            },
            Pass::Subsequence { len, start } => match tried {
                Some(found) => {
                    self.pass = Pass::NameSimplification { index: 0 };
                    self.current = found;
                    self.progress = true;
                },
                None => {
                    self.pass = Pass::Subsequence { len, start: start + 1 };
                },
            },
            Pass::NameSimplification { index } => {
                if let Some(found) = tried {
                    self.current = found;
                    self.progress = true;
                }
                self.pass = Pass::NameSimplification { index: index + 1 };
            },
            Pass::SqlSimplification { index } => {
                if let Some(found) = tried {
                    self.current = found;
                    self.progress = true;
                }
                self.pass = Pass::SqlSimplification { index: index + 1 };
            },
            Pass::Done => {},
        }
        assert(self@ == before.judged(same));
        self.settle();
    }

    /// The smallest sequence so far.
    pub fn into_ops(self) -> (ops: Vec<FrontendOp>)
        ensures
            op_models(ops@) == self@.current,
    {
        self.current
    }
}

// ---------------------------------------------------------------------------
// Laws
// ---------------------------------------------------------------------------

/// A divergence that was found is of its own class: the sequence that showed it is judged to
/// show it when it is run again with the same answers.
pub proof fn law_found_divergence_reproduces(
    divergence: Divergence,
    pg: Seq<NormModel>,
    target: Seq<NormModel>,
    ops: Seq<OpModel>,
)
    requires
        reports_mismatch(divergence, pg, target, ops),
    ensures
        parts_in_class(
            pg,
            target,
            class_of(norm_option(divergence.expected), norm_option(divergence.actual)),
        ),
{
    assert(first_mismatch(pg, target, divergence.index as int));
}

/// Two mismatches are of one class exactly where the messages on each side are of one kind,
/// whatever they carry and wherever they stand.
pub proof fn law_class_is_kind_mismatch(
    expected: Option<NormModel>,
    actual: Option<NormModel>,
    other_expected: Option<NormModel>,
    other_actual: Option<NormModel>,
)
    ensures
        class_of(expected, actual) == class_of(other_expected, other_actual) <==> same_kind(
            expected,
            other_expected,
        ) && same_kind(actual, other_actual),
        class_of(expected, actual).expected_kind == kind_of(expected),
        class_of(expected, actual).actual_kind == kind_of(actual),
{
    lemma_kinds_differ(expected, other_expected);
    lemma_kinds_differ(actual, other_actual);
}

proof fn lemma_kinds_differ(a: Option<NormModel>, b: Option<NormModel>)
    ensures
        kind_of(a) == kind_of(b) <==> same_kind(a, b),
{
    reveal_strlit("EndOfStream");
    reveal_strlit("ReadyForQuery");
    reveal_strlit("ErrorResponse");
    reveal_strlit("NoticeResponse");
    reveal_strlit("NotificationResponse");
    reveal_strlit("RowDescription");
    reveal_strlit("DataRow");
    reveal_strlit("CommandComplete");
    reveal_strlit("ParameterDescription");
    reveal_strlit("CopyInResponse");
    reveal_strlit("CopyOutResponse");
    reveal_strlit("CopyData");
    reveal_strlit("ParseComplete");
    reveal_strlit("BindComplete");
    reveal_strlit("CloseComplete");
    reveal_strlit("NoData");
    reveal_strlit("EmptyQueryResponse");
    reveal_strlit("PortalSuspended");
    reveal_strlit("CopyDone");
    reveal_strlit("Timeout");
    reveal_strlit("Disconnected");
    let x = kind_of(a);
    let y = kind_of(b);
    if !same_kind(a, b) {
        assert(x.len() != y.len() || x[0] != y[0] || x[2] != y[2] || x[5] != y[5]);
    }
}

/// What the search for a window ends with from a place within it.
spec fn rest_of_search(ops: Seq<OpModel>, len: nat, start: nat, judge: Judge) -> Option<
    Seq<OpModel>,
> {
    if len >= ops.len() {
        None
    } else {
        match window(ops, len, start, judge) {
            Some(found) => Some(found),
            None => shortest_window(ops, len + 1, judge),
        }
    }
}

/// What the round ends with from a place within it.
spec fn rest_of_round(state: ShrinkModel, judge: Judge) -> Seq<OpModel> {
    let ops = state.current;
    match state.pass {
        PassModel::SuffixTrim { end } => from_prefix(
            or_same(suffix_trim(ops, end, judge), ops),
            judge,
        ),
        PassModel::PrefixTrim { start } => from_deletion(
            or_same(prefix_trim(ops, start, judge), ops),
            judge,
        ),
        PassModel::SingleDeletion { index } => from_window(
            or_same(single_deletion(ops, index, judge), ops),
            judge,
        ),
        PassModel::Subsequence { len, start } => from_names(
            or_same(rest_of_search(ops, len, start, judge), ops),
            judge,
        ),
        PassModel::NameSimplification { index } => from_sql(
            name_simplification(ops, index, judge),
            judge,
        ),
        PassModel::SqlSimplification { index } => sql_simplification(ops, index, judge),
        PassModel::Done => ops,
    }
}

/// What minimizing ends with from a place within a round.
spec fn outcome(state: ShrinkModel, judge: Judge) -> Seq<OpModel> {
    let rest = rest_of_round(state, judge);
    if state.pass is Done || (!state.progress && rest == state.current) {
        rest
    } else {
        shrunk(rest, judge)
    }
}

/// A place that the passes reach.
spec fn reached(state: ShrinkModel) -> bool {
    let n = state.current.len();
    match state.pass {
        PassModel::SuffixTrim { end } => end >= 1,
        PassModel::PrefixTrim { start } => start == 0 || start < n,
        PassModel::Subsequence { len, .. } => len >= 1,
        _ => true,
    }
}

proof fn lemma_skipped_keeps_outcome(state: ShrinkModel, judge: Judge)
    requires
        reached(state),
        state.candidate() is None,
        !(state.pass is Done),
    ensures
        reached(state.skipped()),
        outcome(state.skipped(), judge) == outcome(state, judge),
{
    let ops = state.current;
    if let PassModel::Subsequence { len, start } = state.pass {
        if len < ops.len() {
            assert(window(ops, len, start, judge) is None);
            assert(shortest_window(ops, len + 1, judge) == rest_of_search(ops, len + 1, 0, judge));
        }
    }
}

proof fn lemma_judged_keeps_outcome(state: ShrinkModel, judge: Judge)
    requires
        reached(state),
        state.candidate() is Some,
    ensures
        reached(state.judged(judge(state.candidate()->0))),
        outcome(state.judged(judge(state.candidate()->0)), judge) == outcome(state, judge),
{
    let ops = state.current;
    let tried = state.candidate()->0;
    lemma_candidate_lighter(state);
    match state.pass {
        PassModel::SuffixTrim { .. } => lemma_from_prefix(tried, judge),
        PassModel::PrefixTrim { .. } => lemma_from_deletion(tried, judge),
        PassModel::SingleDeletion { .. } => lemma_from_window(tried, judge),
        PassModel::Subsequence { len, start } => {
            lemma_from_names(tried, judge);
            if !judge(tried) {
                assert(window(ops, len, start, judge) == window(ops, len, start + 1, judge));
            }
        },
        PassModel::NameSimplification { index } => {
            lemma_name_simplification(tried, index + 1, judge);
            lemma_from_sql(name_simplification(tried, index + 1, judge), judge);
        },
        PassModel::SqlSimplification { index } => {
            lemma_sql_simplification(tried, index + 1, judge);
        },
        PassModel::Done => {},
    }
}

proof fn lemma_run_gives_outcome(state: ShrinkModel, judge: Judge)
    requires
        reached(state),
    ensures
        state.run(judge) == outcome(state, judge),
    decreases state.mass(), state.rounds(), state.rank(), state.left(), state.inner(),
{
    if !(state.pass is Done) {
        match state.candidate() {
            Some(tried) => {
                lemma_judged_decreases(state, judge(tried));
                lemma_judged_keeps_outcome(state, judge);
                lemma_run_gives_outcome(state.judged(judge(tried)), judge);
            },
            None => {
                lemma_skipped_decreases(state);
                lemma_skipped_keeps_outcome(state, judge);
                lemma_run_gives_outcome(state.skipped(), judge);
            },
        }
    }
}

/// Passing over places without a candidate does not change where minimizing ends.
pub proof fn law_settling_changes_nothing(state: ShrinkModel, judge: Judge)
    ensures
        state.settled().run(judge) == state.run(judge),
    decreases state.mass(), state.rounds(), state.rank(), state.left(), state.inner(),
{
    if !(state.pass is Done || state.candidate() is Some) {
        lemma_skipped_decreases(state);
        law_settling_changes_nothing(state.skipped(), judge);
    }
}

/// A shrinker whose candidates are judged by one judge from beginning to end runs rounds of
/// all passes until one changes nothing, and ends with what they give.
pub proof fn law_shrinker_runs_rounds_to_the_end(ops: Seq<OpModel>, judge: Judge)
    ensures
        ShrinkModel::start(ops).settled().run(judge) == shrunk(ops, judge),
{
    let start = ShrinkModel::start(ops);
    law_settling_changes_nothing(start, judge);
    lemma_run_gives_outcome(start, judge);
}

/// Each verdict brings a shrinker that is not at its end nearer to it, whatever the verdicts
/// are, so it ends. What is left to take away from its sequence never grows.
pub proof fn law_shrinker_ends(state: ShrinkModel, same: bool)
    requires
        state.candidate() is Some,
    ensures
        state.judged(same).mass() <= state.mass(),
        decreases_to!(
            state.mass(), state.rounds(), state.rank(), state.left(), state.inner()
            => state.judged(same).mass(), state.judged(same).rounds(),
            state.judged(same).rank(), state.judged(same).left(), state.judged(same).inner()
        ),
{
    lemma_judged_decreases(state, same);
}

proof fn lemma_settled_keeps_current(state: ShrinkModel)
    ensures
        state.settled().current == state.current,
    decreases state.mass(), state.rounds(), state.rank(), state.left(), state.inner(),
{
    if !(state.pass is Done || state.candidate() is Some) {
        lemma_skipped_decreases(state);
        lemma_settled_keeps_current(state.skipped());
    }
}

/// A verdict makes a shrinker hold the candidate that was judged to show the bug, and changes
/// nothing otherwise: it only ever holds the sequence it was given or a confirmed candidate, even
/// where one candidate is judged differently at different times.
pub proof fn law_only_confirmed_is_kept(state: ShrinkModel, same: bool)
    requires
        state.candidate() is Some,
    ensures
        state.judged(same).settled().current == if same {
            state.candidate()->0
        } else {
            state.current
        },
{
    lemma_settled_keeps_current(state.judged(same));
}

/// A candidate is never empty and never longer than the sequence it comes from.
pub proof fn law_candidate_is_smaller(state: ShrinkModel)
    requires
        state.candidate() is Some,
    ensures
        0 < state.candidate()->0.len() <= state.current.len(),
        weight(state.candidate()->0) < weight(state.current),
{
    lemma_candidate_lighter(state);
}

/// Simplifying names changes nothing but names. Each of the seven operations that use a statement
/// or a portal stays what it is, on the unnamed one, with the same SQL, parameter types,
/// parameters and row limit; every other operation stays as it is. There is something to simplify
/// exactly where a name is not the unnamed one.
pub proof fn law_unnaming_changes_only_names(op: OpModel)
    ensures
        op matches OpModel::Parse { name, sql, param_oids } ==> {
            &&& op.unnamed() == OpModel::Parse { name: StmtName::Unnamed, sql, param_oids }
            &&& op.is_named() <==> name != StmtName::Unnamed
        },
        op matches OpModel::Bind { portal, stmt, params } ==> {
            &&& op.unnamed() == OpModel::Bind {
                portal: PortalName::Unnamed,
                stmt: StmtName::Unnamed,
                params,
            }
            &&& op.is_named() <==> portal != PortalName::Unnamed || stmt != StmtName::Unnamed
        },
        op matches OpModel::DescribeStatement { name } ==> {
            &&& op.unnamed() == OpModel::DescribeStatement { name: StmtName::Unnamed }
            &&& op.is_named() <==> name != StmtName::Unnamed
        },
        op matches OpModel::DescribePortal { name } ==> {
            &&& op.unnamed() == OpModel::DescribePortal { name: PortalName::Unnamed }
            &&& op.is_named() <==> name != PortalName::Unnamed
        },
        op matches OpModel::Execute { portal, max_rows } ==> {
            &&& op.unnamed() == OpModel::Execute { portal: PortalName::Unnamed, max_rows }
            &&& op.is_named() <==> portal != PortalName::Unnamed
        },
        op matches OpModel::CloseStatement { name } ==> {
            &&& op.unnamed() == OpModel::CloseStatement { name: StmtName::Unnamed }
            &&& op.is_named() <==> name != StmtName::Unnamed
        },
        op matches OpModel::ClosePortal { name } ==> {
            &&& op.unnamed() == OpModel::ClosePortal { name: PortalName::Unnamed }
            &&& op.is_named() <==> name != PortalName::Unnamed
        },
        op is Query || op is Sync || op is Flush || op is CopyData || op is CopyDone
            || op is CopyFail || op is Terminate ==> !op.is_named() && op.unnamed() == op,
        simplifies(op.unnamed(), op),
        op.is_named() <==> op.unnamed() != op,
        !op.unnamed().is_named(),
        op.unnamed().has_other_sql() <==> op.has_other_sql(),
{
}

/// Simplifying SQL changes nothing but the SQL and the parameter types that go with it. A query
/// stays a query and a statement keeps its name; every other operation stays as it is. There is
/// something to simplify exactly where the SQL is another than `SELECT 1`.
pub proof fn law_plain_sql_changes_only_sql(op: OpModel)
    ensures
        op matches OpModel::Query { sql } ==> {
            &&& op.with_plain_sql() == OpModel::Query { sql: "SELECT 1"@ }
            &&& op.has_other_sql() <==> sql != "SELECT 1"@
        },
        op matches OpModel::Parse { name, sql, .. } ==> {
            &&& op.with_plain_sql() == OpModel::Parse {
                name,
                sql: "SELECT 1"@,
                param_oids: Seq::empty(),
            }
            &&& op.has_other_sql() <==> sql != "SELECT 1"@
        },
        !(op is Query) && !(op is Parse) ==> !op.has_other_sql() && op.with_plain_sql() == op,
        simplifies(op.with_plain_sql(), op),
        !op.with_plain_sql().has_other_sql(),
        op.with_plain_sql().is_named() <==> op.is_named(),
{
}

/// Two messages are of one kind where both are missing, or both are there and of one variant.
pub proof fn law_same_kind_is_same_variant(a: Option<NormModel>, b: Option<NormModel>)
    ensures
        same_kind(a, b) <==> {
            ||| a is None && b is None
            ||| {
                &&& a is Some && b is Some
                &&& a->0 is ReadyForQuery <==> b->0 is ReadyForQuery
                &&& a->0 is ErrorResponse <==> b->0 is ErrorResponse
                &&& a->0 is NoticeResponse <==> b->0 is NoticeResponse
                &&& a->0 is NotificationResponse <==> b->0 is NotificationResponse
                &&& a->0 is RowDescription <==> b->0 is RowDescription
                &&& a->0 is DataRow <==> b->0 is DataRow
                &&& a->0 is CommandComplete <==> b->0 is CommandComplete
                &&& a->0 is ParameterDescription <==> b->0 is ParameterDescription
                &&& a->0 is CopyInResponse <==> b->0 is CopyInResponse
                &&& a->0 is CopyOutResponse <==> b->0 is CopyOutResponse
                &&& a->0 is CopyData <==> b->0 is CopyData
                &&& a->0 is ParseComplete <==> b->0 is ParseComplete
                &&& a->0 is BindComplete <==> b->0 is BindComplete
                &&& a->0 is CloseComplete <==> b->0 is CloseComplete
                &&& a->0 is NoData <==> b->0 is NoData
                &&& a->0 is EmptyQueryResponse <==> b->0 is EmptyQueryResponse
                &&& a->0 is PortalSuspended <==> b->0 is PortalSuspended
                &&& a->0 is CopyDone <==> b->0 is CopyDone
                &&& a->0 is Timeout <==> b->0 is Timeout
                &&& a->0 is Disconnected <==> b->0 is Disconnected
            }
        },
{
}

/// The kind of a message is the name of its variant, and that of a missing message
/// `EndOfStream`.
pub proof fn law_kind_is_the_variants_name(message: Option<NormModel>)
    ensures
        message is None ==> kind_of(message) == "EndOfStream"@,
        message is Some && message->0 is ReadyForQuery ==> kind_of(message) == "ReadyForQuery"@,
        message is Some && message->0 is ErrorResponse ==> kind_of(message) == "ErrorResponse"@,
        message is Some && message->0 is NoticeResponse ==> kind_of(message) == "NoticeResponse"@,
        message is Some && message->0 is NotificationResponse ==> kind_of(message) == "NotificationResponse"@,
        message is Some && message->0 is RowDescription ==> kind_of(message) == "RowDescription"@,
        message is Some && message->0 is DataRow ==> kind_of(message) == "DataRow"@,
        message is Some && message->0 is CommandComplete ==> kind_of(message) == "CommandComplete"@,
        message is Some && message->0 is ParameterDescription ==> kind_of(message) == "ParameterDescription"@,
        message is Some && message->0 is CopyInResponse ==> kind_of(message) == "CopyInResponse"@,
        message is Some && message->0 is CopyOutResponse ==> kind_of(message) == "CopyOutResponse"@,
        message is Some && message->0 is CopyData ==> kind_of(message) == "CopyData"@,
        message is Some && message->0 is ParseComplete ==> kind_of(message) == "ParseComplete"@,
        message is Some && message->0 is BindComplete ==> kind_of(message) == "BindComplete"@,
        message is Some && message->0 is CloseComplete ==> kind_of(message) == "CloseComplete"@,
        message is Some && message->0 is NoData ==> kind_of(message) == "NoData"@,
        message is Some && message->0 is EmptyQueryResponse ==> kind_of(message) == "EmptyQueryResponse"@,
        message is Some && message->0 is PortalSuspended ==> kind_of(message) == "PortalSuspended"@,
        message is Some && message->0 is CopyDone ==> kind_of(message) == "CopyDone"@,
        message is Some && message->0 is Timeout ==> kind_of(message) == "Timeout"@,
        message is Some && message->0 is Disconnected ==> kind_of(message) == "Disconnected"@,
{
}

/// The class of a divergence holds the kind of each side on its own: two classes are equal exactly
/// where the expected kinds are equal and the actual kinds are.
pub proof fn law_classes_hold_both_kinds(a: DivergenceClass, b: DivergenceClass)
    ensures
        a.eq_spec(&b) <==> a.expected_kind@ == b.expected_kind@ && a.actual_kind@
            == b.actual_kind@,
        a@ == b@ <==> a.expected_kind@ == b.expected_kind@ && a.actual_kind@ == b.actual_kind@,
{
}

/// Where two streams first differ at `i`, they show the class of a divergence exactly where the
/// oracle's message there is of the kind that the divergence expected, and the target's message is
/// of the kind that the divergence got: both sides count.
pub proof fn law_reproduced_iff_both_kinds_match(
    pg: Seq<NormModel>,
    target: Seq<NormModel>,
    i: int,
    divergence: Divergence,
)
    requires
        first_mismatch(pg, target, i),
    ensures
        parts_in_class(
            pg,
            target,
            class_of(norm_option(divergence.expected), norm_option(divergence.actual)),
        ) <==> same_kind(message_at(pg, i), norm_option(divergence.expected)) && same_kind(
            message_at(target, i),
            norm_option(divergence.actual),
        ),
{
    let (expected, actual) = (norm_option(divergence.expected), norm_option(divergence.actual));
    law_class_is_kind_mismatch(message_at(pg, i), message_at(target, i), expected, actual);
    assert forall|j: int| #[trigger] first_mismatch(pg, target, j) implies i == j by {
        crate::comparator::law_first_mismatch_unique(pg, target, i, j);
    }
}

/// Streams that do not differ show no class of divergence, and streams that differ show one.
pub proof fn law_class_shown_iff_streams_differ(
    pg: Seq<NormModel>,
    target: Seq<NormModel>,
)
    ensures
        (exists|class: ClassModel| parts_in_class(pg, target, class)) <==> pg != target,
{
    if pg != target {
        let i = crate::comparator::lemma_different_streams_part(pg, target);
        let class = class_of(message_at(pg, i), message_at(target, i));
        assert(parts_in_class(pg, target, class));
    }
}

/// A simpler operation and a smaller sequence are seen with all that they hold, and what is missing
/// as missing.
pub proof fn law_simpler_seen_as_it_is(op: Option<FrontendOp>, ops: Option<Vec<FrontendOp>>)
    ensures
        op_option(op) is None <==> op is None,
        op matches Some(known) ==> op_option(op) == Some(known@),
        ops_option(ops) is None <==> ops is None,
        ops matches Some(known) ==> ops_option(ops) == Some(op_models(known@)),
{
}

} // verus!
