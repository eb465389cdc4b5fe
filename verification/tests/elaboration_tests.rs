use layerscript::ast::{Expression, Layer, LayerBuilder, LayerIds, LayerKind, Param, SourceLocation, Type};
use layerscript::elaboration::context::ElaborationContext;
use layerscript::elaboration::layer1_semantics::errors::SemanticError;
use layerscript::elaboration::layer1_semantics::resolve::Resolve;
use layerscript::elaboration::layer1_semantics::scope::{Scope, ScopeStack};
use layerscript::elaboration::layer1_semantics::shadowing::{IsShadowingAllowed, ShadowDecision};
use layerscript::elaboration::layer1_semantics::symbol::{Symbol, SymbolId, SymbolKind, SymbolTable};
use layerscript::elaboration::layer2_types::check::{CheckAssignment, CheckBinaryOp, CheckFunctionCall, CheckReturn};
use layerscript::elaboration::layer2_types::errors::TypeError;
use layerscript::elaboration::layer2_types::infer::InferExpression;
use layerscript::elaboration::layer2_types::typed_ast::{TypeEnv, TypeTable};
use layerscript::elaboration::layer2_types::walk::CheckProgram;
use layerscript::elaboration::layer3_refinements::branch::AssumptionStack;
use layerscript::elaboration::layer3_refinements::constraint::{GoalId, ProofObligation};
use layerscript::elaboration::layer3_refinements::local_proof::TryLocal;
use layerscript::elaboration::layer3_refinements::propagate::{ConstraintGraph, Negate, Propagate};
use layerscript::elaboration::layer5_optimize::constant_fold::{Fold, FoldExpr};
use layerscript::elaboration::layer5_optimize::dce::Eliminate;
use layerscript::elaboration::layer5_optimize::dead_branch::RemoveDeadBranches;
use layerscript::elaboration::layer5_optimize::safety_erasure::{EraseProvenSafe, ErasureSet};
use layerscript::elaboration::pipeline::RunAll;
use layerscript::lexer::{Lexer, Token};
use layerscript::parser::Parser;

fn parse(code: &str) -> Layer {
    let tokens: Vec<Token> = Lexer::New(code).CollectTokens();
    let mut ids = LayerIds::New();
    let context = LayerBuilder::New(LayerKind::Program, SourceLocation::Builtin(), &mut ids).Build();
    let mut parser = Parser::New(tokens, context, ids);
    parser.Parse().unwrap()
}

fn var(n: &str) -> Expression {
    Expression::Variable(n.to_string())
}

fn lit(n: i64) -> Expression {
    Expression::LiteralInt(n)
}

fn bin(op: &str, l: Expression, r: Expression) -> Expression {
    Expression::BinaryOp { Op: op.to_string(), Lhs: Box::new(l), Rhs: Box::new(r) }
}

fn i32t() -> Type {
    Type::BitPrecise('i', 32)
}

#[test]
fn shadowing_is_allowed() {
    assert_eq!(IsShadowingAllowed(false), ShadowDecision::Allow);
    assert_eq!(IsShadowingAllowed(true), ShadowDecision::Allow);
}

#[test]
fn scope_stack_duplicates_and_shadowing() {
    let mut s = ScopeStack::New();
    assert_eq!(s.Depth(), 1);
    assert!(s.Insert("x", SymbolId(0), SourceLocation::Builtin()).is_ok());
    match s.Insert("x", SymbolId(1), SourceLocation::Builtin()) {
        Err(SemanticError::DuplicateName { Name, .. }) => assert_eq!(Name, "x"),
        other => panic!("expected a duplicate, got {:?}", other),
    }
    s.Enter();
    assert!(s.Insert("x", SymbolId(2), SourceLocation::Builtin()).is_ok());
    assert_eq!(s.Lookup("x"), Some(SymbolId(2)));
    s.Leave();
    assert_eq!(s.Lookup("x"), Some(SymbolId(0)));
    s.Leave();
    assert_eq!(s.Depth(), 1);
    assert_eq!(s.Lookup("y"), None);
    assert!(Scope::New().Symbols.Len() == 0);
}

#[test]
fn symbol_table_ids_are_positions() {
    let mut t = SymbolTable::New();
    let sym = |n: &str| Symbol {
        Id: SymbolId(99),
        Name: n.to_string(),
        Kind: SymbolKind::Function,
        DeclaredType: None,
        DeclaredAt: SourceLocation::Builtin(),
    };
    assert_eq!(t.Intern(sym("a")), SymbolId(0));
    assert_eq!(t.Intern(sym("b")), SymbolId(1));
    assert_eq!(t.Len(), 2);
    assert_eq!(t.Get(SymbolId(1)).unwrap().Name, "b");
    assert_eq!(t.Get(SymbolId(1)).unwrap().Id, SymbolId(1));
    assert!(t.Get(SymbolId(2)).is_none());
    assert_eq!(t.Iter().len(), 2);
}

#[test]
fn resolve_reports_undefined_and_duplicate_names() {
    let ast = parse("var x = y; var x = 1; println(x);");
    let r = Resolve(&ast);
    assert_eq!(r.Symbols.Len(), 4);
    assert_eq!(r.Errors.len(), 2);
    assert!(matches!(&r.Errors[0], SemanticError::UndefinedName { Name, .. } if Name == "y"));
    assert!(matches!(&r.Errors[1], SemanticError::DuplicateName { Name, .. } if Name == "x"));
}

#[test]
fn resolve_initializer_sees_outer_name_only() {
    let ast = parse("var x = x;");
    let r = Resolve(&ast);
    assert!(matches!(&r.Errors[0], SemanticError::UndefinedName { Name, .. } if Name == "x"));
}

#[test]
fn resolve_function_parameters_are_scoped() {
    let ast = parse("function f(a: i32) { return a; } return a;");
    let r = Resolve(&ast);
    assert_eq!(r.Errors.len(), 1);
    assert!(matches!(&r.Errors[0], SemanticError::UndefinedName { Name, .. } if Name == "a"));
}

#[test]
fn binary_operator_table() {
    assert_eq!(CheckBinaryOp("+", &Type::BitPrecise('i', 8), &i32t()), Ok(i32t()));
    assert_eq!(CheckBinaryOp("<", &i32t(), &Type::BitPrecise('i', 64)), Ok(Type::BitPrecise('b', 1)));
    assert!(matches!(CheckBinaryOp("&&", &i32t(), &i32t()), Err(TypeError::BadOperator { .. })));
    assert!(matches!(CheckBinaryOp("+", &i32t(), &Type::BitPrecise('f', 64)), Err(TypeError::BadOperator { .. })));
    assert_eq!(CheckBinaryOp("@", &i32t(), &i32t()), Err(TypeError::NotImplemented("operator @".to_string())));
}

#[test]
fn assignment_call_and_return_checks() {
    assert!(CheckAssignment(&Type::BitPrecise('i', 64), &Type::BitPrecise('i', 8)).is_ok());
    assert!(CheckAssignment(&Type::Inferred, &Type::Unit).is_ok());
    assert!(matches!(CheckAssignment(&Type::BitPrecise('i', 8), &Type::BitPrecise('i', 64)), Err(TypeError::Mismatch { .. })));
    assert!(matches!(
        CheckFunctionCall(&[i32t()], &[]),
        Err(TypeError::ArityMismatch { Expected: 1, Found: 0, .. })
    ));
    assert!(CheckFunctionCall(&[i32t(), i32t()], &[i32t(), Type::BitPrecise('i', 8)]).is_ok());
    assert!(CheckReturn(&Type::Unit, &Type::Unit).is_ok());
}

#[test]
fn inference_of_expressions() {
    let mut env = TypeEnv::New();
    env.Insert("x", Type::Pointer(Box::new(i32t())));
    assert_eq!(InferExpression(&lit(1), &env), Ok(i32t()));
    let deref = Expression::UnaryOp { Op: "*".to_string(), Target: Box::new(var("x")) };
    assert_eq!(InferExpression(&deref, &env), Ok(i32t()));
    assert_eq!(
        InferExpression(&var("q"), &env),
        Err(TypeError::NotImplemented("no type for 'q'".to_string()))
    );
    assert_eq!(
        InferExpression(&bin("<", lit(1), lit(2)), &env),
        Ok(Type::BitPrecise('b', 1))
    );
    env.Enter();
    env.Insert("x", Type::Unit);
    assert_eq!(env.Lookup("x"), Some(&Type::Unit));
    env.Leave();
    assert_eq!(env.Lookup("x"), Some(&Type::Pointer(Box::new(i32t()))));
}

#[test]
fn type_table_keeps_latest() {
    let mut t = TypeTable::New();
    let id = layerscript::ast::LayerId(7);
    assert!(t.Get(id).is_none());
    t.SetType(id, i32t());
    t.SetType(id, Type::Unit);
    assert_eq!(t.Get(id), Some(&Type::Unit));
}

#[test]
fn check_program_reports_mismatches() {
    let ast = parse("var x: i8 = 300 < 2; if (1) { panic; }");
    let resolved = Resolve(&ast);
    let typed = CheckProgram(&ast, &resolved);
    assert_eq!(typed.Errors.len(), 2);
    assert!(matches!(&typed.Errors[0], TypeError::Mismatch { .. }));
    assert!(matches!(&typed.Errors[1], TypeError::Mismatch { Found: Type::BitPrecise('i', 32), .. }));
}

#[test]
fn assumption_frames_end_with_their_region() {
    let mut s = AssumptionStack::New();
    s.PushAssumption(var("a"));
    s.EnterFrame();
    s.PushAssumption(var("b"));
    assert_eq!(s.Snapshot(), vec![var("a"), var("b")]);
    s.LeaveFrame();
    assert_eq!(s.Snapshot(), vec![var("a")]);
    s.LeaveFrame();
    assert_eq!(s.Snapshot(), vec![var("a")]);
}

#[test]
fn local_proof_rules() {
    let ob = |a: Vec<Expression>, g: Expression| ProofObligation {
        Id: GoalId(0),
        Assumptions: a,
        Goal: g,
        At: SourceLocation::Builtin(),
    };
    assert_eq!(TryLocal(&ob(vec![], Expression::LiteralBool(false))), Some(true));
    assert_eq!(TryLocal(&ob(vec![Expression::LiteralBool(false)], Expression::LiteralBool(true))), Some(true));
    assert_eq!(TryLocal(&ob(vec![], Expression::LiteralBool(true))), Some(false));
    assert_eq!(TryLocal(&ob(vec![Expression::LiteralBool(true)], Expression::LiteralBool(true))), Some(false));
    // Assumptions that may contradict each other leave the goal to the solver.
    assert_eq!(TryLocal(&ob(vec![var("p")], var("p"))), None);
    assert_eq!(TryLocal(&ob(vec![var("p")], var("q"))), None);
    let contradiction = vec![bin(">", var("x"), lit(0)), bin("<", var("x"), lit(0))];
    assert_eq!(TryLocal(&ob(contradiction, Expression::LiteralBool(true))), None);
}

#[test]
fn propagate_collects_goals_with_assumptions() {
    let ast = parse("function f(x: i32 where x > 0) { if (x < 0) { panic; } }");
    let g = Propagate(&ast);
    assert_eq!(g.Obligations.len(), 1);
    let o = &g.Obligations[0];
    assert_eq!(o.Id, GoalId(0));
    assert_eq!(o.Assumptions, vec![bin(">", var("x"), lit(0)), bin("<", var("x"), lit(0))]);
    assert_eq!(o.Goal, Expression::LiteralBool(true));
    let erased = EraseProvenSafe(&g);
    assert!(erased.Contains(GoalId(0)));
    assert!(!ErasureSet::New().Contains(GoalId(0)));
}

#[test]
fn fresh_goal_ids_count_up() {
    let mut g = ConstraintGraph::New();
    assert_eq!(g.FreshGoalId(), GoalId(0));
    assert_eq!(g.FreshGoalId(), GoalId(1));
}

#[test]
fn folding_constants() {
    assert_eq!(FoldExpr(bin("+", lit(2), bin("*", lit(3), lit(4)))), lit(14));
    assert_eq!(FoldExpr(bin("+", lit(i64::MAX), lit(1))), lit(i64::MIN));
    assert_eq!(FoldExpr(bin("/", lit(i64::MIN), lit(-1))), lit(i64::MIN));
    assert_eq!(FoldExpr(bin("/", lit(1), lit(0))), bin("/", lit(1), lit(0)));
    assert_eq!(FoldExpr(bin("<", lit(1), lit(2))), Expression::LiteralBool(true));
    let t = Expression::LiteralBool(true);
    let f = Expression::LiteralBool(false);
    assert_eq!(FoldExpr(bin("==", t.clone(), f.clone())), Expression::LiteralBool(false));
    assert_eq!(FoldExpr(bin("!=", t.clone(), f.clone())), Expression::LiteralBool(true));
    assert_eq!(FoldExpr(bin("==", f.clone(), f)), Expression::LiteralBool(true));
    assert_eq!(FoldExpr(bin("&&", Expression::LiteralBool(true), var("z"))), var("z"));
    assert_eq!(FoldExpr(bin("||", Expression::LiteralBool(true), var("z"))), Expression::LiteralBool(true));
    let neg = Expression::UnaryOp { Op: "-".to_string(), Target: Box::new(lit(5)) };
    assert_eq!(FoldExpr(neg), lit(-5));
    let ast = parse("x = 1 + 1;");
    let folded = Fold(&ast);
    assert!(matches!(&folded.Children[0].Kind, LayerKind::Assignment { Value: Expression::LiteralInt(2), .. }));
}

#[test]
fn dead_code_drops_unobservable_expressions() {
    // A layer the trace observes stays.
    let ast = parse("x; return 1;");
    assert_eq!(Eliminate(&ast).Children.len(), 2);
    // Once no flag claims an effect, the expression statement goes.
    let mut quiet = parse("x; return 1;");
    quiet.Children[0].Observability.ObservableToTrace = false;
    let pruned = Eliminate(&quiet);
    assert_eq!(pruned.Children.len(), 1);
    assert!(matches!(pruned.Children[0].Kind, LayerKind::Return { .. }));
}

#[test]
fn dead_branches_are_removed() {
    let ast = parse("if (1 < 0) { panic; } else { unreachable; }");
    let folded = Fold(&ast);
    let pruned = RemoveDeadBranches(&folded);
    let cond = &pruned.Children[0];
    assert_eq!(cond.Children.len(), 1);
    assert!(matches!(cond.Children[0].Kind, LayerKind::Block));
    assert!(matches!(cond.Children[0].Children[0].Kind, LayerKind::Unreachable));
}

#[test]
fn negation_is_syntactic() {
    assert_eq!(Negate(var("a")), Expression::UnaryOp { Op: "!".to_string(), Target: Box::new(var("a")) });
}

#[test]
fn smt_translation() {
    let mut c = ElaborationContext::New();
    assert_eq!(c.TranslateToSmt(&bin("<=", var("x"), lit(-3))), Ok("(<= x -3)".to_string()));
    assert_eq!(c.TranslateToSmt(&bin("!=", var("a"), var("b"))), Ok("(distinct a b)".to_string()));
    let call = Expression::FunctionCall { Name: "f".to_string(), Args: vec![lit(1), var("y")] };
    assert_eq!(c.TranslateToSmt(&call), Ok("(f 1 y)".to_string()));
    assert_eq!(
        c.TranslateToSmt(&bin("^", lit(1), lit(2))),
        Err("Unsupported SMT operator: ^".to_string())
    );
    let not = Expression::UnaryOp { Op: "!".to_string(), Target: Box::new(Expression::LiteralBool(true)) };
    assert_eq!(c.TranslateToSmt(&not), Ok("(not true)".to_string()));
    assert_eq!(
        c.TranslateToSmt(&Expression::LiteralString("hi".to_string())),
        Ok("LiteralString(\"hi\")".to_string())
    );
}

#[test]
fn elaborate_layer_collects_assertions() {
    let ast = parse("function f(x: i32 where x > 0) { var y: i32 where y < 5 = 1; }");
    let mut c = ElaborationContext::New();
    assert!(c.ElaborateLayer(&ast).is_ok());
    assert_eq!(c.Constraints, vec!["(assert (> x 0))".to_string(), "(assert (< y 5))".to_string()]);
    assert!(c.KnownVars.ContainsKey("x"));
    assert!(c.KnownVars.ContainsKey("y"));
    assert_eq!(c.Messages[0], "Elaborating function: f");
}

#[test]
fn run_all_pipeline() {
    let ast = parse("function f(x: i32 where x > 0) { if (x < 0) { panic; } }");
    let e = RunAll(&ast);
    assert!(e.Resolved.Errors.is_empty());
    assert_eq!(e.Constraints.Obligations.len(), 1);
    assert_eq!(e.Erasures.Erased, vec![GoalId(0)]);
    let f = &e.Program.Children[0];
    assert!(matches!(f.Kind, LayerKind::Function { .. }));
    let cond = &f.Children[0];
    assert_eq!(cond.Children.len(), 1);
    let _ = Param { Name: String::new(), Type_: Type::Unit, Value: Type::Unit };
}

#[test]
fn leaving_a_region_drops_every_name_declared_in_it() {
    let mut s = ScopeStack::New();
    assert!(s.Insert("x", SymbolId(0), SourceLocation::Builtin()).is_ok());
    s.Enter();
    for (i, n) in ["x", "y", "z", "w"].iter().enumerate() {
        assert!(s.Insert(n, SymbolId(10 + i), SourceLocation::Builtin()).is_ok());
    }
    assert_eq!(s.Depth(), 2);
    s.Leave();
    assert_eq!(s.Depth(), 1);
    assert_eq!(s.Lookup("x"), Some(SymbolId(0)));
    assert_eq!(s.Lookup("y"), None);
    assert_eq!(s.Lookup("w"), None);
}

#[test]
fn integers_are_written_in_decimal() {
    let mut c = ElaborationContext::New();
    assert_eq!(c.TranslateToSmt(&lit(0)), Ok("0".to_string()));
    assert_eq!(c.TranslateToSmt(&lit(1234567890)), Ok("1234567890".to_string()));
    assert_eq!(c.TranslateToSmt(&lit(-42)), Ok("-42".to_string()));
    assert_eq!(c.TranslateToSmt(&lit(i64::MAX)), Ok(i64::MAX.to_string()));
    assert_eq!(c.TranslateToSmt(&lit(i64::MIN)), Ok("-9223372036854775808".to_string()));
    assert_eq!(layerscript::text::usize_text(0), "0");
    assert_eq!(layerscript::text::usize_text(907), "907");
    assert_eq!(layerscript::text::u32_text(u32::MAX), u32::MAX.to_string());
}
