use layerscript::ast::Expression;
use layerscript::elaboration::layer4_smt::backend::{Query, SolverVerdict};
use layerscript::elaboration::layer4_smt::cache::ProofCache;
use layerscript::elaboration::layer4_smt::interval::{Interval, IntervalStore};
use layerscript::elaboration::layer4_smt::normalize::{Atom, EvalAtom, EvalProp, EvalTerm, Prop, Term, ToProp, ToTerm, VarsOf};
use layerscript::elaboration::layer5_optimize::constant_fold::FoldExpr;
use layerscript::elaboration::pipeline::SolveOnce;
use layerscript::names::NameMap;

fn var(n: &str) -> Expression {
    Expression::Variable(n.to_string())
}

fn lit(n: i64) -> Expression {
    Expression::LiteralInt(n)
}

fn bin(op: &str, l: Expression, r: Expression) -> Expression {
    Expression::BinaryOp { Op: op.to_string(), Lhs: Box::new(l), Rhs: Box::new(r) }
}

#[test]
fn interval_meet_intersects() {
    let a = Interval { lo: Some(0), hi: Some(10) };
    let b = Interval { lo: Some(5), hi: None };
    assert_eq!(a.Meet(&b), Interval { lo: Some(5), hi: Some(10) });
    assert_eq!(Interval::Top().Meet(&a), a);
    assert_eq!(Interval::Point(3), Interval { lo: Some(3), hi: Some(3) });
}

#[test]
fn interval_emptiness() {
    assert!(Interval { lo: Some(4), hi: Some(3) }.IsEmpty());
    assert!(!Interval::Point(3).IsEmpty());
    assert!(!Interval::Top().IsEmpty());
    assert!(Interval::Point(1).Meet(&Interval::Point(2)).IsEmpty());
}

#[test]
fn interval_store_tightens_and_detects_contradiction() {
    let mut s = IntervalStore::New();
    assert_eq!(s.Get("x"), Interval::Top());
    assert_eq!(s.Tighten("x", Interval { lo: Some(0), hi: None }), Interval { lo: Some(0), hi: None });
    assert_eq!(s.Tighten("x", Interval { lo: None, hi: Some(9) }), Interval { lo: Some(0), hi: Some(9) });
    assert!(!s.HasContradiction());
    assert_eq!(s.PickBoundedFree(), Some(("x".to_string(), 0, 9)));
    s.Tighten("x", Interval::Point(15));
    assert!(s.HasContradiction());
    assert_eq!(s.Iter().len(), 1);
}

#[test]
fn interval_store_pick_skips_pinned() {
    let mut s = IntervalStore::New();
    s.Tighten("p", Interval::Point(2));
    s.Tighten("q", Interval { lo: Some(1), hi: None });
    assert_eq!(s.PickBoundedFree(), None);
}

#[test]
fn lowering_and_evaluation_wrap() {
    let e = bin("+", var("x"), lit(1));
    let t = ToTerm(&e).unwrap();
    let mut env = NameMap::New();
    env.Insert("x", i64::MAX);
    assert_eq!(EvalTerm(&t, &env), Some(i64::MIN));
    assert_eq!(EvalTerm(&Term::Neg(Box::new(Term::Const(i64::MIN))), &env), Some(i64::MIN));
    assert_eq!(EvalTerm(&Term::Var("y".to_string()), &env), None);
    assert_eq!(ToTerm(&bin("/", lit(1), lit(2))), None);
}

#[test]
fn atoms_and_props_evaluate() {
    let mut env = NameMap::New();
    env.Insert("x", 5);
    assert_eq!(EvalAtom(&Atom::Lt(Term::Var("x".to_string()), Term::Const(6)), &env), Some(true));
    assert_eq!(EvalAtom(&Atom::Ge(Term::Var("z".to_string()), Term::Const(6)), &env), None);
    let p = ToProp(&bin("&&", bin(">", var("x"), lit(1)), bin("!=", var("x"), lit(5)))).unwrap();
    assert_eq!(EvalProp(&p, &env), Some(false));
    let or = Prop::Or(vec![Prop::False, Prop::Atom(Atom::Eq(Term::Var("x".to_string()), Term::Const(5)))]);
    assert_eq!(EvalProp(&or, &env), Some(true));
    assert_eq!(EvalProp(&Prop::Not(Box::new(Prop::True)), &env), Some(false));
    assert!(ToProp(&Expression::LiteralString("s".to_string())).is_none());
}

#[test]
fn vars_are_sorted_and_unique() {
    let p = ToProp(&bin("&&", bin("<", var("b"), var("a")), bin("==", var("b"), var("c")))).unwrap();
    assert_eq!(VarsOf(&p), vec!["a".to_string(), "b".to_string(), "c".to_string()]);
}

#[test]
fn query_contradictory_bounds_is_unsat() {
    let assumptions = vec![bin(">=", var("x"), lit(0)), bin("<", var("x"), lit(10))];
    let goal = bin("==", var("x"), lit(15));
    assert_eq!(Query(&assumptions, &goal), SolverVerdict::Unsat);
}

#[test]
fn query_constant_on_the_left_bounds_the_same_way() {
    let assumptions = vec![bin(">", lit(5), var("x"))];
    let goal = bin("==", var("x"), lit(0));
    match Query(&assumptions, &goal) {
        SolverVerdict::Sat { Model } => assert_eq!(Model.Get("x"), Some(&0)),
        other => panic!("expected a model, got {:?}", other),
    }
}

#[test]
fn query_finds_a_model() {
    let assumptions = vec![bin(">=", var("x"), lit(3))];
    let goal = bin("==", bin("*", var("x"), lit(2)), lit(8));
    match Query(&assumptions, &goal) {
        SolverVerdict::Sat { Model } => {
            assert_eq!(Model.Get("x"), Some(&4));
            assert_eq!(Model.Len(), 1);
        }
        other => panic!("expected a model, got {:?}", other),
    }
}

#[test]
fn query_unsupported_syntax_is_unknown() {
    let goal = bin("==", Expression::LiteralString("a".to_string()), lit(1));
    assert_eq!(Query(&[], &goal), SolverVerdict::Unknown);
    assert_eq!(SolveOnce(&[], &goal), SolverVerdict::Unknown);
}

#[test]
fn query_exhausted_search_is_unsat() {
    let assumptions = vec![bin(">=", var("x"), lit(0)), bin("<=", var("x"), lit(10))];
    let goal = bin("==", bin("*", var("x"), var("x")), lit(2));
    assert_eq!(Query(&assumptions, &goal), SolverVerdict::Unsat);
}

#[test]
fn query_over_budget_is_unknown() {
    let goal = bin("&&", bin("==", var("a"), var("b")), bin("==", var("a"), bin("+", var("b"), lit(1))));
    assert_eq!(Query(&[], &goal), SolverVerdict::Unknown);
}

#[test]
fn query_false_goal_is_unsat() {
    assert_eq!(Query(&[], &Expression::LiteralBool(false)), SolverVerdict::Unsat);
    match Query(&[], &Expression::LiteralBool(true)) {
        SolverVerdict::Sat { Model } => assert_eq!(Model.Len(), 0),
        other => panic!("expected a model, got {:?}", other),
    }
}

#[test]
fn cache_returns_what_was_put() {
    let mut c = ProofCache::New();
    let a = vec![bin("<", var("x"), lit(3))];
    let g = bin("==", var("x"), lit(5));
    assert!(c.Get(&a, &g).is_none());
    c.Put(&a, &g, SolverVerdict::Unsat);
    assert_eq!(c.Get(&a, &g), Some(&SolverVerdict::Unsat));
    assert!(c.Get(&[], &g).is_none());
    c.Put(&a, &g, SolverVerdict::Unknown);
    assert_eq!(c.Get(&a, &g), Some(&SolverVerdict::Unknown));
}

#[test]
fn folding_keeps_what_the_solver_decides() {
    let cond = bin(
        "&&",
        bin("<", bin("*", bin("+", lit(1), lit(2)), lit(3)), var("x")),
        bin("||", bin(">=", lit(4), lit(5)), bin("!=", var("x"), lit(0))),
    );
    let folded = FoldExpr(cond.clone());
    let p0 = ToProp(&cond).unwrap();
    let p1 = ToProp(&folded).unwrap();
    for x in [-3i64, 0, 9, 10, 100] {
        let mut env = NameMap::New();
        env.Insert("x", x);
        assert_eq!(EvalProp(&p1, &env), EvalProp(&p0, &env));
    }
    let term = bin("-", bin("*", lit(6), lit(7)), var("y"));
    let t0 = ToTerm(&term).unwrap();
    let t1 = ToTerm(&FoldExpr(term.clone())).unwrap();
    let mut env = NameMap::New();
    env.Insert("y", 2);
    assert_eq!(EvalTerm(&t1, &env), Some(40));
    assert_eq!(EvalTerm(&t0, &env), Some(40));
}

#[test]
fn query_sampled_window_without_model_is_unknown() {
    let assumptions = vec![bin(">", var("x"), lit(0))];
    let goal = bin("==", bin("+", var("x"), lit(0)), lit(1000));
    assert_eq!(Query(&assumptions, &goal), SolverVerdict::Unknown);
}

#[test]
fn query_wide_interval_without_model_is_unknown() {
    let assumptions = vec![bin(">=", var("x"), lit(0)), bin("<=", var("x"), lit(5000))];
    let goal = bin("==", bin("*", var("x"), lit(1)), lit(4000));
    assert_eq!(Query(&assumptions, &goal), SolverVerdict::Unknown);
}

#[test]
fn query_unbounded_model_in_window_is_sat() {
    let goal = bin("==", bin("+", var("x"), lit(1)), lit(5));
    match Query(&[], &goal) {
        SolverVerdict::Sat { Model } => assert_eq!(Model.Get("x"), Some(&4)),
        other => panic!("expected a model, got {:?}", other),
    }
}

#[test]
fn negation_is_pushed_down_to_the_atoms() {
    let e = Expression::UnaryOp {
        Op: "!".to_string(),
        Target: Box::new(bin("&&", bin("<", var("x"), lit(1)), bin("<", var("y"), lit(2)))),
    };
    let p = ToProp(&e).unwrap();
    let x = || Term::Var("x".to_string());
    let y = || Term::Var("y".to_string());
    assert_eq!(p, Prop::Or(vec![Prop::Atom(Atom::Ge(x(), Term::Const(1))), Prop::Atom(Atom::Ge(y(), Term::Const(2)))]));
    for (xv, yv) in [(0, 0), (0, 5), (3, 0), (3, 5)] {
        let mut env = NameMap::New();
        env.Insert("x", xv);
        env.Insert("y", yv);
        assert_eq!(EvalProp(&p, &env), Some(!(xv < 1 && yv < 2)));
    }
    let double = Expression::UnaryOp { Op: "!".to_string(), Target: Box::new(e) };
    assert!(matches!(ToProp(&double).unwrap(), Prop::And(_)));
    let not_var = Expression::UnaryOp { Op: "!".to_string(), Target: Box::new(var("b")) };
    assert_eq!(ToProp(&not_var).unwrap(), Prop::Atom(Atom::Eq(Term::Var("b".to_string()), Term::Const(0))));
}

#[test]
fn cache_keeps_a_verdict_through_other_puts() {
    let mut c = ProofCache::New();
    let a = vec![bin("<", var("x"), lit(3))];
    let g = bin("==", var("x"), lit(5));
    c.Put(&a, &g, SolverVerdict::Unsat);
    for k in 0..5 {
        c.Put(&a, &bin("==", var("x"), lit(k)), SolverVerdict::Unknown);
        c.Put(&[], &g, SolverVerdict::Unknown);
    }
    assert_eq!(c.Get(&a, &g), Some(&SolverVerdict::Unsat));
}
