//! Generating sequences from profiles and seeds.

use pg_proto_fuzz::drawing::{
    any_kind, copy_kind, extended_kind, find_copy_in, grammar_step, make_op, param_kind,
    random_execute, random_params, random_template, template_pool, OpKind, ParamKind, ProtoState,
};
use pg_proto_fuzz::generator::{
    ensure_answered, geometric, Generator, GrammarStrategy, RandomStrategy, Strategy,
};
use pg_proto_fuzz::op::{FrontendOp, Param, PortalName, StmtName};
use pg_proto_fuzz::profile::FuzzProfile;
use pg_proto_fuzz::template::{enabled_templates, templates, Affinity};
use rand::rngs::StdRng;
use rand::{Rng, SeedableRng};
use std::collections::HashSet;

#[test]
fn test_random_strategy_produces_ops() {
    let profile = FuzzProfile::minimal();
    let templates = enabled_templates(&profile);
    let mut rng = StdRng::seed_from_u64(42);
    let mut strategy = RandomStrategy;

    let ops = strategy.generate(&templates, &mut rng);
    assert!(!ops.is_empty());
    // Must end with at least one Sync or Query
    assert!(
        ops.iter()
            .any(|op| matches!(op, FrontendOp::Sync | FrontendOp::Query { .. }))
    );
}

#[test]
fn test_grammar_strategy_produces_ops() {
    let profile = FuzzProfile::minimal();
    let templates = enabled_templates(&profile);
    let mut rng = StdRng::seed_from_u64(42);
    let mut strategy = GrammarStrategy;

    let ops = strategy.generate(&templates, &mut rng);
    assert!(!ops.is_empty());
    assert!(
        ops.iter()
            .any(|op| matches!(op, FrontendOp::Sync | FrontendOp::Query { .. }))
    );
}

#[test]
fn test_generator_deterministic_with_seed() {
    let profile = FuzzProfile::minimal();
    let mut gen1 = Generator::new(&profile, 123);
    let mut gen2 = Generator::new(&profile, 123);

    for _ in 0..10 {
        let ops1 = gen1.next();
        let ops2 = gen2.next();
        assert_eq!(ops1, ops2, "same seed should produce identical sequences");
    }
}

#[test]
fn test_generator_different_seeds_differ() {
    let profile = FuzzProfile::minimal();
    let mut gen1 = Generator::new(&profile, 1);
    let mut gen2 = Generator::new(&profile, 2);

    // Collect several sequences and check they're not all identical
    let seqs1: Vec<_> = (0..10).map(|_| gen1.next()).collect();
    let seqs2: Vec<_> = (0..10).map(|_| gen2.next()).collect();
    assert_ne!(seqs1, seqs2);
}

#[test]
fn test_profile_filters_templates() {
    let minimal = FuzzProfile::minimal();
    let full = FuzzProfile::full();

    let min_templates = enabled_templates(&minimal);
    let full_templates = enabled_templates(&full);

    assert!(
        full_templates.len() > min_templates.len(),
        "full profile should have more templates than minimal"
    );

    // Minimal should not include COPY or transaction templates
    for t in &min_templates {
        assert!(
            t.requires.is_empty(),
            "minimal profile template {:?} has requirements",
            t.sql
        );
    }
}

#[test]
fn test_variety_of_ops_generated() {
    let profile = FuzzProfile::full();
    let mut generator = Generator::new(&profile, 42);

    let mut op_kinds = HashSet::new();
    for _ in 0..100 {
        for op in generator.next() {
            let kind = match &op {
                FrontendOp::Query { .. } => "Query",
                FrontendOp::Parse { .. } => "Parse",
                FrontendOp::Bind { .. } => "Bind",
                FrontendOp::Execute { .. } => "Execute",
                FrontendOp::Sync => "Sync",
                FrontendOp::Flush => "Flush",
                FrontendOp::DescribeStatement { .. } => "DescribeStatement",
                FrontendOp::DescribePortal { .. } => "DescribePortal",
                FrontendOp::CloseStatement { .. } => "CloseStatement",
                FrontendOp::ClosePortal { .. } => "ClosePortal",
                FrontendOp::CopyData { .. } => "CopyData",
                FrontendOp::CopyDone => "CopyDone",
                FrontendOp::CopyFail { .. } => "CopyFail",
                FrontendOp::Terminate => "Terminate",
            };
            op_kinds.insert(kind);
        }
    }

    // Should generate at least the core extended query ops
    assert!(op_kinds.contains("Parse"));
    assert!(op_kinds.contains("Bind"));
    assert!(op_kinds.contains("Execute"));
    assert!(op_kinds.contains("Sync"));
    assert!(op_kinds.contains("Query"));
}

// ---------------------------------------------------------------------------
// Decisions
// ---------------------------------------------------------------------------

#[test]
fn any_operation_is_decided_by_a_number() {
    let cases = [
        (0, OpKind::Parse),
        (14, OpKind::Parse),
        (15, OpKind::Bind),
        (29, OpKind::Bind),
        (30, OpKind::Execute),
        (44, OpKind::Execute),
        (45, OpKind::Sync),
        (54, OpKind::Sync),
        (55, OpKind::Query),
        (64, OpKind::Query),
        (65, OpKind::DescribeStatement),
        (71, OpKind::DescribeStatement),
        (72, OpKind::DescribePortal),
        (78, OpKind::DescribePortal),
        (79, OpKind::CloseStatement),
        (85, OpKind::CloseStatement),
        (86, OpKind::ClosePortal),
        (92, OpKind::ClosePortal),
        (93, OpKind::Flush),
        (96, OpKind::Flush),
        (97, OpKind::CopyDone),
        (98, OpKind::CopyDone),
        (99, OpKind::Terminate),
        (100, OpKind::Sync),
    ];
    for (choice, kind) in cases {
        assert_eq!(any_kind(choice), kind, "{choice}");
    }
}

#[test]
fn protocol_flow_is_decided_by_a_number() {
    let extended = [
        (0, OpKind::Bind, ProtoState::Extended),
        (25, OpKind::Execute, ProtoState::Extended),
        (45, OpKind::DescribeStatement, ProtoState::Extended),
        (55, OpKind::DescribePortal, ProtoState::Extended),
        (65, OpKind::Flush, ProtoState::Extended),
        (70, OpKind::Sync, ProtoState::Idle),
        (79, OpKind::Sync, ProtoState::Idle),
        (80, OpKind::CloseStatement, ProtoState::Extended),
        (88, OpKind::ClosePortal, ProtoState::Extended),
        (95, OpKind::Query, ProtoState::Extended),
        (100, OpKind::Sync, ProtoState::Extended),
    ];
    for (choice, kind, behind) in extended {
        assert_eq!(extended_kind(choice), (kind, behind), "{choice}");
    }
    let copy = [
        (0, OpKind::CopyData, ProtoState::CopyIn),
        (39, OpKind::CopyData, ProtoState::CopyIn),
        (40, OpKind::CopyDone, ProtoState::Idle),
        (70, OpKind::CopyFail, ProtoState::Idle),
        (85, OpKind::Sync, ProtoState::Idle),
        (99, OpKind::Sync, ProtoState::Idle),
        (100, OpKind::CopyDone, ProtoState::CopyIn),
    ];
    for (choice, kind, behind) in copy {
        assert_eq!(copy_kind(choice), (kind, behind), "{choice}");
    }
    assert_eq!(param_kind(9), ParamKind::Null);
    assert_eq!(param_kind(10), ParamKind::Int32);
    assert_eq!(param_kind(49), ParamKind::Int32);
    assert_eq!(param_kind(50), ParamKind::Text);
    assert_eq!(param_kind(89), ParamKind::Text);
    assert_eq!(param_kind(90), ParamKind::Bytes);
}

#[test]
fn templates_are_drawn_by_path() {
    let all = templates();
    let simple = template_pool(&all, Some(Affinity::Simple));
    assert!(simple
        .iter()
        .all(|t| t.affinity == Affinity::Simple || t.affinity == Affinity::Any));
    let extended = template_pool(&all, Some(Affinity::Extended));
    assert!(extended
        .iter()
        .all(|t| t.affinity == Affinity::Extended || t.affinity == Affinity::Any));
    assert_eq!(template_pool(&all, None).len(), all.len());
    assert_eq!(template_pool(&all, Some(Affinity::Any)).len(), all.len());
    assert!(simple.len() < all.len() && extended.len() < all.len());

    // Where nothing suits, anything is drawn.
    let only_extended: Vec<_> = all
        .iter()
        .filter(|t| t.affinity == Affinity::Extended)
        .copied()
        .collect();
    let fallback = template_pool(&only_extended, Some(Affinity::Simple));
    assert_eq!(fallback.len(), only_extended.len());
    let mut rng = StdRng::seed_from_u64(7);
    let drawn = random_template(&only_extended, Some(Affinity::Simple), &mut rng);
    assert_eq!(drawn.affinity, Affinity::Extended);
}

#[test]
fn copy_in_needs_the_copy_tag() {
    assert!(find_copy_in(&enabled_templates(&FuzzProfile::minimal())).is_none());
    let standard = enabled_templates(&FuzzProfile::standard());
    let found = find_copy_in(&standard).unwrap();
    assert_eq!(found.sql, "COPY copy_test FROM STDIN");
    assert_eq!(found.affinity, Affinity::Simple);
    let mut extended = FuzzProfile::minimal();
    extended.enable("copy_extended");
    let implied = find_copy_in(&enabled_templates(&extended)).unwrap();
    assert_eq!(implied.affinity, Affinity::Simple);
    extended.disable("copy");
    assert!(find_copy_in(&enabled_templates(&extended)).is_none());
}

#[test]
fn a_sequence_without_an_answer_gets_a_sync() {
    let flush = vec![FrontendOp::Flush];
    assert_eq!(
        ensure_answered(flush),
        vec![FrontendOp::Flush, FrontendOp::Sync]
    );
    let query = vec![
        FrontendOp::Query { sql: "A".into() },
        FrontendOp::Flush,
    ];
    assert_eq!(ensure_answered(query.clone()), query);
    assert_eq!(ensure_answered(vec![]), vec![FrontendOp::Sync]);
}

// ---------------------------------------------------------------------------
// Draws
// ---------------------------------------------------------------------------

#[test]
fn a_ratio_is_drawn_as_its_probability_is() {
    let cases = [
        (3u32, 25u32, 0.12f64),
        (1, 10, 0.10),
        (1, 20, 0.05),
        (3, 10, 0.3),
        (1, 2, 0.5),
        (4, 5, 0.8),
    ];
    for (numerator, denominator, probability) in cases {
        let mut a = StdRng::seed_from_u64(99);
        let mut b = StdRng::seed_from_u64(99);
        for _ in 0..2000 {
            assert_eq!(
                a.random_ratio(numerator, denominator),
                b.random_bool(probability)
            );
        }
        assert_eq!(a, b);
    }
}

#[test]
fn counts_follow_the_draws() {
    for seed in 0..200 {
        let mut rng = StdRng::seed_from_u64(seed);
        let count = geometric(&mut rng, 3, 25, 30);
        assert!(count < 30);
        let mut plain = StdRng::seed_from_u64(seed);
        let mut n = 0;
        while n < 29 && !plain.random_bool(0.12) {
            n += 1;
        }
        assert_eq!(count, n);
        assert_eq!(rng, plain);
    }
    let mut rng = StdRng::seed_from_u64(1);
    assert_eq!(geometric(&mut rng, 0, 1, 5), 4);
    assert_eq!(geometric(&mut rng, 1, 1, 5), 0);
    assert_eq!(geometric(&mut rng, 0, 1, 1), 0);
}

#[test]
fn execute_follows_the_draws() {
    for seed in 0..100 {
        let mut rng = StdRng::seed_from_u64(seed);
        let op = random_execute(&mut rng);
        let mut plain = StdRng::seed_from_u64(seed);
        let portal = PortalName::at(plain.random_range(0..3usize));
        let max_rows = if plain.random_bool(0.8) {
            0
        } else {
            plain.random_range(1..10u32)
        };
        assert_eq!(op, FrontendOp::Execute { portal, max_rows });
        assert_eq!(rng, plain);
    }
}

#[test]
fn params_follow_the_draws() {
    let mut seen = HashSet::new();
    for seed in 0..60 {
        let mut rng = StdRng::seed_from_u64(seed);
        let params = random_params(5, &mut rng);
        let mut plain = StdRng::seed_from_u64(seed);
        let expected: Vec<Param> = (0..5)
            .map(|_| {
                let choice: u32 = plain.random_range(0..100);
                match choice {
                    0..=9 => Param::Null,
                    10..=49 => Param::Int32(plain.random_range(-100..100)),
                    50..=89 => Param::Text(format!("v{}", plain.random_range(0..100))),
                    _ => Param::Bytes(vec![plain.random::<u8>(); plain.random_range(0..8)]),
                }
            })
            .collect();
        assert_eq!(params, expected);
        assert_eq!(rng, plain);
        for param in &params {
            seen.insert(param.to_text().chars().next().unwrap());
        }
    }
    assert!(seen.contains(&'N') && seen.contains(&'\'') && seen.contains(&'\\'));
}

#[test]
fn operations_of_a_kind_are_made() {
    let all = templates();
    let mut rng = StdRng::seed_from_u64(3);
    assert_eq!(
        make_op(OpKind::CopyData, &all, &mut rng),
        FrontendOp::CopyData {
            data: b"1\n".to_vec()
        }
    );
    assert_eq!(
        make_op(OpKind::CopyFail, &all, &mut rng),
        FrontendOp::CopyFail {
            message: "abort".into()
        }
    );
    assert_eq!(rng, StdRng::seed_from_u64(3));
    for _ in 0..50 {
        match make_op(OpKind::Parse, &all, &mut rng) {
            FrontendOp::Parse {
                sql, param_oids, ..
            } => {
                assert!(param_oids.is_empty());
                let simple_only = all.iter().all(|t| t.sql != sql || t.affinity == Affinity::Simple);
                assert!(!simple_only, "{sql}");
            }
            op => panic!("expected Parse, got {op:?}"),
        }
        match make_op(OpKind::Query, &all, &mut rng) {
            FrontendOp::Query { sql } => {
                let extended_only = all
                    .iter()
                    .all(|t| t.sql != sql || t.affinity == Affinity::Extended);
                assert!(!extended_only, "{sql}");
            }
            op => panic!("expected Query, got {op:?}"),
        }
        match make_op(OpKind::DescribeStatement, &all, &mut rng) {
            FrontendOp::DescribeStatement { name } => {
                assert!([StmtName::Unnamed, StmtName::S1, StmtName::S2].contains(&name))
            }
            op => panic!("expected DescribeStatement, got {op:?}"),
        }
    }
}

#[test]
fn a_copy_is_only_carried_on_where_one_can_start() {
    let minimal = enabled_templates(&FuzzProfile::minimal());
    let mut rng = StdRng::seed_from_u64(11);
    let mut proto = ProtoState::Idle;
    for _ in 0..3000 {
        let (op, next) = grammar_step(&minimal, proto, &mut rng);
        assert!(!matches!(
            op,
            FrontendOp::CopyData { .. } | FrontendOp::CopyFail { .. }
        ));
        assert_ne!(next, ProtoState::CopyIn);
        proto = next;
    }
    let standard = enabled_templates(&FuzzProfile::standard());
    let mut copied = false;
    let mut state = ProtoState::Idle;
    for _ in 0..3000 {
        let (op, next) = grammar_step(&standard, state, &mut rng);
        copied = copied || matches!(op, FrontendOp::CopyData { .. });
        state = next;
    }
    assert!(copied);
}

#[test]
fn sequences_keep_their_bounds() {
    for seed in 0..300 {
        let all = enabled_templates(&FuzzProfile::full());
        let mut rng = StdRng::seed_from_u64(seed);
        let random = RandomStrategy.generate(&all, &mut rng);
        assert!(!random.is_empty() && random.len() <= 31);
        let grammar = GrammarStrategy.generate(&all, &mut rng);
        assert!(grammar.len() >= 2 && grammar.len() <= 27);
        for op in random.iter().chain(grammar.iter()) {
            match op {
                FrontendOp::Query { sql } | FrontendOp::Parse { sql, .. } => {
                    assert!(all.iter().any(|t| t.sql == sql))
                }
                FrontendOp::Bind { params, .. } => {
                    assert!(all.iter().any(|t| t.param_count == params.len()))
                }
                FrontendOp::Execute { max_rows, .. } => assert!(*max_rows < 10),
                _ => {}
            }
        }
    }
}

#[test]
fn generator_draws_the_strategy_first() {
    let profile = FuzzProfile::standard();
    let templates = enabled_templates(&profile);
    for seed in 0..20 {
        let mut generator = Generator::new(&profile, seed);
        let mut rng = StdRng::seed_from_u64(seed);
        for _ in 0..5 {
            let expected = if rng.random_bool(0.5) {
                GrammarStrategy.generate(&templates, &mut rng)
            } else {
                RandomStrategy.generate(&templates, &mut rng)
            };
            assert_eq!(generator.next(), expected);
        }
    }
}
