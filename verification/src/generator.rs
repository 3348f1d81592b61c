//! Generates sequences of operations from a seed.

use crate::drawing::{
    copy_in_template, copy_known, draw_pool, grammar_step, lemma_suitable_contains, op_drawable,
    op_drawn, random_op, step_drawn, suitable, suits, ProtoState,
};
use crate::op::{op_models, FrontendOp, OpModel};
use crate::profile::FuzzProfile;
use crate::random::{draw_ratio, drawn_ratio, generator_state, seed_rng, seeded};
use crate::template::{
    enabled_models, enabled_templates, law_core_always_enabled, registry, template_models,
    Affinity, SqlEntry, TemplateModel,
};
use rand::rngs::StdRng;
use vstd::prelude::*;

verus! {

// ---------------------------------------------------------------------------
// Sequences
// ---------------------------------------------------------------------------

/// A count that goes on from `count` until a draw hits, and stays below `max`.
pub open spec fn geometric_drawn(
    count: nat,
    numerator: u32,
    denominator: u32,
    max: nat,
    state: nat,
) -> (nat, nat)
    decreases max - count,
{
    if count + 1 >= max {
        (count, state)
    } else {
        let (stop, behind) = drawn_ratio(state, numerator, denominator);
        if stop {
            (count, behind)
        } else {
            geometric_drawn(count + 1, numerator, denominator, max, behind)
        }
    }
}

/// Geometric distribution: draws a count below `max`, which ends with a chance of `numerator`
/// in `denominator` at each step.
pub fn geometric(rng: &mut StdRng, numerator: u32, denominator: u32, max: usize) -> (count: usize)
    requires
        max > 0,
        numerator <= denominator,
        denominator > 0,
    ensures
        count < max,
        (count as nat, generator_state(*final(rng))) == geometric_drawn(
            0,
            numerator,
            denominator,
            max as nat,
            generator_state(*old(rng)),
        ),
{
    let mut count: usize = 0;
    while count < max - 1
        invariant
            count < max,
            numerator <= denominator,
            denominator > 0,
            geometric_drawn(
                count as nat,
                numerator,
                denominator,
                max as nat,
                generator_state(*rng),
            ) == geometric_drawn(
                0,
                numerator,
                denominator,
                max as nat,
                generator_state(*old(rng)),
            ),
        decreases max - count,
    {
        if draw_ratio(rng, numerator, denominator) {
            return count;
        }
        count += 1;
    }
    count
}

/// Some operation is answered with a ReadyForQuery.
pub open spec fn answers(ops: Seq<OpModel>) -> bool {
    exists|i: int| 0 <= i < ops.len() && (#[trigger] ops[i]).answers_ready()
}

/// The sequence with a Sync at its end, where nothing in it is answered with a ReadyForQuery.
pub open spec fn answered(ops: Seq<OpModel>) -> Seq<OpModel> {
    if answers(ops) {
        ops
    } else {
        ops.push(OpModel::Sync)
    }
}

/// Every operation is one that is drawn from the templates.
pub open spec fn all_drawable(ops: Seq<OpModel>, templates: Seq<TemplateModel>) -> bool {
    forall|i: int|
        0 <= i < ops.len() ==> op_drawable(#[trigger] ops[i], templates) && copy_known(
            ops[i],
            templates,
        )
}

/// Ends a sequence with a Sync where nothing in it is answered with a ReadyForQuery, so that
/// there is one to collect.
pub fn ensure_answered(ops: Vec<FrontendOp>) -> (ended: Vec<FrontendOp>)
    ensures
        op_models(ended@) == answered(op_models(ops@)),
        answers(op_models(ended@)),
        ops@.len() <= ended@.len() <= ops@.len() + 1,
{
    let mut i: usize = 0;
    while i < ops.len()
        invariant
            i <= ops.len(),
            forall|j: int| 0 <= j < i ==> !(#[trigger] op_models(ops@)[j]).answers_ready(),
        decreases ops.len() - i,
    {
        if ops[i].answers_ready() {
            assert(op_models(ops@)[i as int].answers_ready());
            return ops;
        }
        assert(op_models(ops@)[i as int] == ops@[i as int]@);
        i += 1;
    }
    let mut ended = ops;
    ended.push(FrontendOp::Sync);
    assert(op_models(ended@) =~= op_models(ops@).push(OpModel::Sync));
    assert(op_models(ended@)[ops@.len() as int].answers_ready());
    ended
}

/// Produces a single sequence.
pub trait Strategy {
    /// What is generated from templates and the state of a random number generator, and the
    /// state behind it.
    spec fn generated(&self, templates: Seq<TemplateModel>, state: nat) -> (Seq<OpModel>, nat);

    /// Generates a sequence. It holds something that is answered with a ReadyForQuery, and
    /// only what can be drawn from the templates.
    fn generate(&mut self, templates: &[SqlEntry], rng: &mut StdRng) -> (ops: Vec<FrontendOp>)
        requires
            templates@.len() > 0,
        ensures
            (op_models(ops@), generator_state(*final(rng))) == old(self).generated(
                template_models(templates@),
                generator_state(*old(rng)),
            ),
            answers(op_models(ops@)),
            all_drawable(op_models(ops@), template_models(templates@)),
    ;
}

/// Draws from the whole vocabulary, whatever came before. The number of operations follows a
/// geometric distribution, with a chance of 12 in 100 to end at each.
#[derive(Debug, Clone, Copy, PartialEq, Eq)]
pub struct RandomStrategy;

/// Operations regardless of protocol state, one after the other.
pub open spec fn random_ops_drawn(templates: Seq<TemplateModel>, count: nat, state: nat) -> (
    Seq<OpModel>,
    nat,
)
    decreases count,
{
    if count == 0 {
        (seq![], state)
    } else {
        let (before, between) = random_ops_drawn(templates, (count - 1) as nat, state);
        let (op, behind) = op_drawn(templates, between);
        (before.push(op), behind)
    }
}

impl Strategy for RandomStrategy {
    open spec fn generated(&self, templates: Seq<TemplateModel>, state: nat) -> (
        Seq<OpModel>,
        nat,
    ) {
        let (extra, counted) = geometric_drawn(0, 3, 25, 30, state);
        let (ops, behind) = random_ops_drawn(templates, 1 + extra, counted);
        (answered(ops), behind)
    }

    fn generate(&mut self, templates: &[SqlEntry], rng: &mut StdRng) -> (ops: Vec<FrontendOp>)
        ensures
            *final(self) == *old(self),
            1 <= ops@.len() <= 31,
    {
        let ghost models = template_models(templates@);
        let len = 1 + geometric(rng, 3, 25, 30);
        let ghost counted = generator_state(*rng);
        let mut ops: Vec<FrontendOp> = Vec::new();
        assert(op_models(ops@) =~= seq![]);
        while ops.len() < len
            invariant
                ops@.len() <= len,
                templates@.len() > 0,
                models == template_models(templates@),
                (op_models(ops@), generator_state(*rng)) == random_ops_drawn(
                    models,
                    ops@.len(),
                    counted,
                ),
                all_drawable(op_models(ops@), models),
            decreases len - ops.len(),
        {
            let ghost before = ops@;
            let op = random_op(templates, rng);
            let ghost model = op@;
            ops.push(op);
            assert(op_models(ops@) =~= op_models(before).push(model));
        }
        let ended = ensure_answered(ops);
        assert(all_drawable(op_models(ended@), models));
        ended
    }
}

/// Follows the expected protocol flow loosely. Now and then an operation comes up that does
/// not fit.
#[derive(Debug, Clone, Copy, PartialEq, Eq)]
pub struct GrammarStrategy;

/// Operations that follow the protocol flow, one after the other, and the protocol state
/// behind them.
pub open spec fn grammar_ops_drawn(templates: Seq<TemplateModel>, count: nat, state: nat) -> (
    Seq<OpModel>,
    ProtoState,
    nat,
)
    decreases count,
{
    if count == 0 {
        (seq![], ProtoState::Idle, state)
    } else {
        let (before, proto, between) = grammar_ops_drawn(templates, (count - 1) as nat, state);
        let (op, next, behind) = step_drawn(templates, proto, between);
        (before.push(op), next, behind)
    }
}

impl Strategy for GrammarStrategy {
    open spec fn generated(&self, templates: Seq<TemplateModel>, state: nat) -> (
        Seq<OpModel>,
        nat,
    ) {
        let (extra, counted) = geometric_drawn(0, 1, 10, 25, state);
        let (ops, _, behind) = grammar_ops_drawn(templates, 2 + extra, counted);
        (answered(ops), behind)
    }

    fn generate(&mut self, templates: &[SqlEntry], rng: &mut StdRng) -> (ops: Vec<FrontendOp>)
        ensures
            *final(self) == *old(self),
            2 <= ops@.len() <= 27,
    {
        let ghost models = template_models(templates@);
        let len = 2 + geometric(rng, 1, 10, 25);
        let ghost counted = generator_state(*rng);
        let mut ops: Vec<FrontendOp> = Vec::new();
        let mut proto = ProtoState::Idle;
        assert(op_models(ops@) =~= seq![]);
        while ops.len() < len
            invariant
                ops@.len() <= len,
                templates@.len() > 0,
                models == template_models(templates@),
                (op_models(ops@), proto, generator_state(*rng)) == grammar_ops_drawn(
                    models,
                    ops@.len(),
                    counted,
                ),
                proto == ProtoState::CopyIn ==> copy_in_template(models) is Some,
                all_drawable(op_models(ops@), models),
            decreases len - ops.len(),
        {
            let ghost before = ops@;
            let (op, next) = grammar_step(templates, proto, rng);
            let ghost model = op@;
            ops.push(op);
            proto = next;
            assert(op_models(ops@) =~= op_models(before).push(model));
        }
        let ended = ensure_answered(ops);
        assert(all_drawable(op_models(ended@), models));
        ended
    }
}

// ---------------------------------------------------------------------------
// The generator
// ---------------------------------------------------------------------------

/// Generates one sequence after the other from the templates of a profile and a seed.
pub struct Generator {
    templates: Vec<SqlEntry>,
    rng: StdRng,
}

/// What a generator goes by.
pub struct GeneratorModel {
    pub templates: Seq<TemplateModel>,
    pub state: nat,
}

impl View for Generator {
    type V = GeneratorModel;

    closed spec fn view(&self) -> GeneratorModel {
        GeneratorModel {
            templates: template_models(self.templates@),
            state: generator_state(self.rng),
        }
    }
}

impl GeneratorModel {
    /// A generator for the tags of a profile and a seed.
    pub open spec fn start(tags: Set<Seq<char>>, seed: u64) -> GeneratorModel {
        GeneratorModel { templates: enabled_models(registry(), tags), state: seeded(seed) }
    }

    /// The next sequence, and the generator behind it. Half of the sequences follow the
    /// protocol flow, half do not.
    pub open spec fn next(self) -> (Seq<OpModel>, GeneratorModel) {
        let (follow, decided) = drawn_ratio(self.state, 1, 2);
        let (ops, behind) = if follow {
            GrammarStrategy.generated(self.templates, decided)
        } else {
            RandomStrategy.generated(self.templates, decided)
        };
        (ops, GeneratorModel { state: behind, ..self })
    }

    /// The first `count` sequences.
    pub open spec fn sequences(self, count: nat) -> Seq<Seq<OpModel>>
        decreases count,
    {
        if count == 0 {
            seq![]
        } else {
            let (ops, behind) = self.next();
            seq![ops] + behind.sequences((count - 1) as nat)
        }
    }
}

impl Generator {
    /// There is a template to draw.
    pub open spec fn wf(&self) -> bool {
        self@.templates.len() > 0
    }

    /// A generator for a profile and a seed.
    pub fn new(profile: &FuzzProfile, seed: u64) -> (generator: Generator)
        ensures
            generator.wf(),
            generator@ == GeneratorModel::start(profile@, seed),
    {
        proof {
            law_core_always_enabled(profile@);
        }
        Generator { templates: enabled_templates(profile), rng: seed_rng(seed) }
    }

    /// Generates the next sequence. It holds something that is answered with a ReadyForQuery,
    /// and only what can be drawn from the templates of the profile.
    pub fn next(&mut self) -> (ops: Vec<FrontendOp>)
        requires
            old(self).wf(),
        ensures
            final(self).wf(),
            (op_models(ops@), final(self)@) == old(self)@.next(),
            1 <= ops@.len() <= 31,
            answers(op_models(ops@)),
            all_drawable(op_models(ops@), old(self)@.templates),
    {
        if draw_ratio(&mut self.rng, 1, 2) {
            let mut strategy = GrammarStrategy;
            strategy.generate(self.templates.as_slice(), &mut self.rng)
        } else {
            let mut strategy = RandomStrategy;
            strategy.generate(self.templates.as_slice(), &mut self.rng)
        }
    }
}

// ---------------------------------------------------------------------------
// Laws
// ---------------------------------------------------------------------------

/// The seed and the profile decide every sequence: two generators made with the same tags and
/// the same seed generate the same sequences, however many.
pub proof fn law_same_seed_same_sequences(a: GeneratorModel, b: GeneratorModel, tags: Set<
    Seq<char>,
>, seed: u64, count: nat)
    requires
        a == GeneratorModel::start(tags, seed),
        b == GeneratorModel::start(tags, seed),
    ensures
        a.sequences(count) == b.sequences(count),
{
}

proof fn lemma_sequences_len(start: GeneratorModel, count: nat)
    ensures
        start.sequences(count).len() == count,
    decreases count,
{
    if count > 0 {
        lemma_sequences_len(start.next().1, (count - 1) as nat);
    }
}

/// The k-th sequence of a generator does not depend on how many are generated after it.
pub proof fn law_sequences_extend(start: GeneratorModel, count: nat, more: nat)
    requires
        count <= more,
    ensures
        start.sequences(count).len() == count,
        start.sequences(more).take(count as int) == start.sequences(count),
    decreases count,
{
    if count == 0 {
        assert(start.sequences(more).take(0) =~= start.sequences(0));
    } else {
        let (ops, behind) = start.next();
        law_sequences_extend(behind, (count - 1) as nat, (more - 1) as nat);
        let short = behind.sequences((count - 1) as nat);
        let long = behind.sequences((more - 1) as nat);
        assert(start.sequences(more) =~= seq![ops] + long);
        assert(long.len() >= count - 1) by {
            lemma_sequences_len(behind, (more - 1) as nat);
        }
        assert((seq![ops] + long).take(count as int) =~= seq![ops] + long.take(count - 1));
    }
}

/// Every operation that answers to a protocol path finds a template that suits the path,
/// where one is enabled.
pub proof fn law_pool_suits_path(templates: Seq<TemplateModel>, filter: Option<Affinity>, i: int)
    requires
        0 <= i < draw_pool(templates, filter).len(),
    ensures
        templates.contains(draw_pool(templates, filter)[i]),
        suits(draw_pool(templates, filter)[i].affinity, filter) || forall|k: int|
            0 <= k < templates.len() ==> !suits((#[trigger] templates[k]).affinity, filter),
{
    let fitting = suitable(templates, filter);
    if fitting.len() > 0 {
        lemma_suitable_contains(templates, filter, fitting[i]);
        assert(fitting.contains(fitting[i]));
    } else {
        assert forall|k: int| 0 <= k < templates.len() implies !suits(
            (#[trigger] templates[k]).affinity,
            filter,
        ) by {
            lemma_suitable_contains(templates, filter, templates[k]);
            assert(templates.contains(templates[k]));
        }
    }
}

/// A count goes on by one at each draw that misses, ends with the first draw that hits, and ends
/// without a draw one below the limit.
pub proof fn law_geometric_ends_with_the_first_hit(
    count: nat,
    numerator: u32,
    denominator: u32,
    max: nat,
    state: nat,
)
    requires
        count < max,
    ensures
        ({
            let (hit, behind) = drawn_ratio(state, numerator, denominator);
            let drawn = geometric_drawn(count, numerator, denominator, max, state);
            &&& count == max - 1 ==> drawn == (count, state)
            &&& count < max - 1 && hit ==> drawn == (count, behind)
            &&& count < max - 1 && !hit ==> drawn == geometric_drawn(
                count + 1,
                numerator,
                denominator,
                max,
                behind,
            )
            &&& count <= drawn.0 < max
        }),
    decreases max - count,
{
    if count < max - 1 {
        let behind = drawn_ratio(state, numerator, denominator).1;
        law_geometric_ends_with_the_first_hit(count + 1, numerator, denominator, max, behind);
    }
}

/// A sequence without Sync and without Query gets a Sync at its end, and any other sequence stays
/// as it is.
pub proof fn law_only_unanswered_sequences_get_a_sync(ops: Seq<OpModel>)
    ensures
        (exists|i: int| 0 <= i < ops.len() && (#[trigger] ops[i] is Sync || ops[i] is Query))
            ==> answered(ops) == ops,
        (forall|i: int| 0 <= i < ops.len() ==> !(#[trigger] ops[i] is Sync) && !(ops[i] is Query))
            ==> answered(ops) == ops.push(OpModel::Sync),
{
    if exists|i: int| 0 <= i < ops.len() && (#[trigger] ops[i] is Sync || ops[i] is Query) {
        let i = choose|i: int|
            0 <= i < ops.len() && (#[trigger] ops[i] is Sync || ops[i] is Query);
        assert(ops[i].answers_ready());
    }
}

/// Without regard to the protocol state, each operation is drawn from where the one before it left
/// off. There are one to thirty of them, and the chance to end is three in 25 behind each.
pub proof fn law_random_sequence_draws_any_operation(
    templates: Seq<TemplateModel>,
    count: nat,
    state: nat,
)
    ensures
        random_ops_drawn(templates, 0, state) == (Seq::<OpModel>::empty(), state),
        random_ops_drawn(templates, count, state).0.len() == count,
        ({
            let (ops, between) = random_ops_drawn(templates, count, state);
            let (op, behind) = op_drawn(templates, between);
            random_ops_drawn(templates, count + 1, state) == (ops.push(op), behind)
        }),
        ({
            let (extra, counted) = geometric_drawn(0, 3, 25, 30, state);
            let (ops, behind) = random_ops_drawn(templates, 1 + extra, counted);
            &&& RandomStrategy.generated(templates, state) == (answered(ops), behind)
            &&& extra < 30
        }),
    decreases count,
{
    law_geometric_ends_with_the_first_hit(0, 3, 25, 30, state);
    if count > 0 {
        law_random_sequence_draws_any_operation(templates, (count - 1) as nat, state);
    }
}

/// Along the protocol, each operation is drawn from where the one before it left off and in the
/// protocol state behind that one, and the first outside of any query. There are two to 26 of
/// them, and the chance to end is one in ten behind each.
pub proof fn law_grammar_sequence_follows_the_protocol(
    templates: Seq<TemplateModel>,
    count: nat,
    state: nat,
)
    ensures
        grammar_ops_drawn(templates, 0, state) == (
            Seq::<OpModel>::empty(),
            ProtoState::Idle,
            state,
        ),
        grammar_ops_drawn(templates, count, state).0.len() == count,
        ({
            let (ops, proto, between) = grammar_ops_drawn(templates, count, state);
            let (op, next, behind) = step_drawn(templates, proto, between);
            grammar_ops_drawn(templates, count + 1, state) == (ops.push(op), next, behind)
        }),
        ({
            let (extra, counted) = geometric_drawn(0, 1, 10, 25, state);
            let drawn = grammar_ops_drawn(templates, 2 + extra, counted);
            &&& GrammarStrategy.generated(templates, state) == (answered(drawn.0), drawn.2)
            &&& extra < 25
        }),
    decreases count,
{
    law_geometric_ends_with_the_first_hit(0, 1, 10, 25, state);
    if count > 0 {
        law_grammar_sequence_follows_the_protocol(templates, (count - 1) as nat, state);
    }
}

/// A generator starts with every template that its tags enable and with its seed. Each sequence
/// follows the protocol where a draw of one out of two says so, and is drawn from where the one
/// before it left off; the templates stay the same.
pub proof fn law_generator_draws_one_sequence_after_the_other(
    generator: GeneratorModel,
    tags: Set<Seq<char>>,
    seed: u64,
    count: nat,
)
    ensures
        GeneratorModel::start(tags, seed).templates == enabled_models(registry(), tags),
        GeneratorModel::start(tags, seed).state == seeded(seed),
        ({
            let (follow, decided) = drawn_ratio(generator.state, 1, 2);
            let (ops, behind) = generator.next();
            &&& follow ==> (ops, behind.state) == GrammarStrategy.generated(
                generator.templates,
                decided,
            )
            &&& !follow ==> (ops, behind.state) == RandomStrategy.generated(
                generator.templates,
                decided,
            )
            &&& behind.templates == generator.templates
            &&& generator.sequences(count + 1)[0] == ops
            &&& generator.sequences(count + 1).skip(1) == behind.sequences(count)
        }),
{
    let (ops, behind) = generator.next();
    assert(generator.sequences(count + 1) == seq![ops] + behind.sequences(count));
    assert((seq![ops] + behind.sequences(count)).skip(1) =~= behind.sequences(count));
}

} // verus!
