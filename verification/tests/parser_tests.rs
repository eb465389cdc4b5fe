use layerscript::ast::{Expression, HookKind, LayerBuilder, LayerId, LayerIds, LayerKind, SourceLocation, Type};
use layerscript::lexer::{Lexer, Token};
use layerscript::parser::Parser;

fn parse(code: &str) -> Result<layerscript::ast::Layer, String> {
    let tokens: Vec<Token> = Lexer::New(code).CollectTokens();
    let mut ids = LayerIds::New();
    let context = LayerBuilder::New(LayerKind::Program, SourceLocation::Builtin(), &mut ids).Build();
    let mut parser = Parser::New(tokens, context, ids);
    parser.Parse()
}

#[test]
fn test_parse_basic_function() {
    let code = "function test() { panic; }";
    let tokens: Vec<Token> = Lexer::New(code).CollectTokens();
    let mut ids = LayerIds::New();
    let context = LayerBuilder::New(LayerKind::Program, SourceLocation::Builtin(), &mut ids).Build();
    let mut parser = Parser::New(tokens, context, ids);
    let ast = parser.Parse().unwrap();
    assert!(matches!(ast.Kind, LayerKind::Program));
    assert_eq!(ast.Children.len(), 1);
}

#[test]
fn test_parse_complex_expressions_and_return() {
    let code = "function test() { return ptr[index]; }";
    let tokens: Vec<Token> = Lexer::New(code).CollectTokens();
    let mut ids = LayerIds::New();
    let context = LayerBuilder::New(LayerKind::Program, SourceLocation::Builtin(), &mut ids).Build();
    let mut parser = Parser::New(tokens, context, ids);
    let ast = parser.Parse().unwrap();
    assert!(matches!(ast.Kind, LayerKind::Program));

    let func = &ast.Children[0];
    assert_eq!(func.Children.len(), 1);
    let ret_stmt = &func.Children[0];
    assert!(matches!(ret_stmt.Kind, LayerKind::Return { .. }));
    if let LayerKind::Return { Value: Some(expr) } = &ret_stmt.Kind {
        assert!(matches!(expr, Expression::IndexAccess { .. }));
    } else {
        panic!("Expected return statement with index access expression");
    }
}

#[test]
fn parser_reads_if_else_with_two_arms() {
    let ast = parse("if (x < 3) { panic; } else { unreachable; }").unwrap();
    let cond = &ast.Children[0];
    match &cond.Kind {
        LayerKind::Conditional { HasElse, Condition } => {
            assert!(*HasElse);
            assert!(matches!(Condition, Expression::BinaryOp { .. }));
        }
        other => panic!("expected a conditional, got {:?}", other),
    }
    assert_eq!(cond.Children.len(), 2);
}

#[test]
fn parser_binds_multiplication_tighter_than_addition() {
    let ast = parse("x = 1 + 2 * 3;").unwrap();
    match &ast.Children[0].Kind {
        LayerKind::Assignment { Value: Expression::BinaryOp { Op, Rhs, .. }, .. } => {
            assert_eq!(Op, "+");
            assert!(matches!(**Rhs, Expression::BinaryOp { .. }));
        }
        other => panic!("expected an assignment, got {:?}", other),
    }
}

#[test]
fn parser_consume_error_names_what_was_found() {
    let err = parse("function f( { }").unwrap_err();
    assert!(err.starts_with("Expected type. Found"), "{}", err);
}

#[test]
fn parser_missing_brace_is_an_error() {
    let err = parse("function f() { panic;").unwrap_err();
    assert!(err.starts_with("Expected '}' after function body"), "{}", err);
}

#[test]
fn parser_records_variable_binding_mutability() {
    let ast = parse("var x: i32 = 1;").unwrap();
    match &ast.Children[0].Kind {
        LayerKind::VariableBinding { Name, IsMutable, .. } => {
            assert_eq!(Name, "x");
            assert!(*IsMutable);
        }
        other => panic!("expected a binding, got {:?}", other),
    }
}

#[test]
fn parser_history_equals_consumed_tokens() {
    let tokens: Vec<Token> = Lexer::New("function f() { panic; }").CollectTokens();
    let n = tokens.len();
    let mut ids = LayerIds::New();
    let context = LayerBuilder::New(LayerKind::Program, SourceLocation::Builtin(), &mut ids).Build();
    let mut parser = Parser::New(tokens, context, ids);
    parser.Parse().unwrap();
    assert_eq!(parser.Position, n);
    assert_eq!(parser.History, parser.Tokens);
}

#[test]
fn parser_where_false_refinement_is_unsatisfiable() {
    let err = parse("var x: i32 where 0 = 1;").unwrap_err();
    assert_eq!(err, "Unsatisfiable 'where' constraint");
}

#[test]
fn parser_struct_keeps_fields_in_order() {
    let ast = parse("struct P { x: i32, y: i32 }").unwrap();
    match &ast.Children[0].Kind {
        LayerKind::Struct { Name, Fields, IsPacked } => {
            assert_eq!(Name, "P");
            assert!(!*IsPacked);
            assert_eq!(Fields.len(), 2);
            assert_eq!(Fields[0].Name, "x");
            assert_eq!(Fields[1].Name, "y");
            assert!(matches!(Fields[1].Type_, Type::BitPrecise('i', 32)));
        }
        other => panic!("expected a struct, got {:?}", other),
    }
}

#[test]
fn parser_numbers_layers_children_first() {
    // The context layer took id 0 from the counter; the parser goes on.
    let ast = parse("function f() { panic; unreachable; }").unwrap();
    assert_eq!(ast.Id, LayerId(1));
    let func = &ast.Children[0];
    assert_eq!(func.Children[0].Id, LayerId(2));
    assert_eq!(func.Children[1].Id, LayerId(3));
    assert_eq!(func.Id, LayerId(4));
}

#[test]
fn parser_hook_keeps_the_kind_of_its_function() {
    let ast = parse("var x = 1 { on_change: function() { panic; } };").unwrap();
    match &ast.Children[0].Kind {
        LayerKind::VariableBinding { Name, TypeAnnotation, Hooks, InitialValue, .. } => {
            assert_eq!(Name, "x");
            assert!(matches!(TypeAnnotation, Some(Type::Inferred)));
            assert!(matches!(InitialValue, Some(Expression::LiteralInt(1))));
            assert_eq!(Hooks.len(), 1);
            assert_eq!(Hooks[0].Kind, HookKind::OnChange);
            assert_eq!(Hooks[0].Body.len(), 1);
            assert!(matches!(Hooks[0].Body[0], LayerKind::Function { .. }));
        }
        other => panic!("expected a binding, got {:?}", other),
    }
}

#[test]
fn parser_unknown_hook_kind_is_an_error() {
    let err = parse("var x = 1 { on_drop: function() { } };").unwrap_err();
    assert_eq!(err, "Expected hook type");
}

#[test]
fn parser_interrupt_reads_syscall_and_body() {
    let ast = parse("interrupt \"write\" { panic; }").unwrap();
    let l = &ast.Children[0];
    match &l.Kind {
        LayerKind::Interrupt { Syscall } => assert_eq!(Syscall, "write"),
        other => panic!("expected an interrupt, got {:?}", other),
    }
    assert_eq!(l.Children.len(), 1);
    assert!(matches!(l.Children[0].Kind, LayerKind::Panic));
}

#[test]
fn parser_interrupt_needs_a_syscall_name() {
    let err = parse("interrupt { panic; }").unwrap_err();
    assert_eq!(err, "Expected syscall name in interrupt");
}

#[test]
fn parser_struct_needs_a_name() {
    let err = parse("struct { }").unwrap_err();
    assert_eq!(err, "Expected struct name");
}

#[test]
fn parser_member_call_takes_the_dotted_name() {
    let ast = parse("a.b.c(1, 2);").unwrap();
    match &ast.Children[0].Kind {
        LayerKind::Expression(Expression::FunctionCall { Name, Args }) => {
            assert_eq!(Name, "a.b.c");
            assert_eq!(Args.len(), 2);
        }
        other => panic!("expected a call, got {:?}", other),
    }
}

#[test]
fn parser_call_on_an_indexed_member_is_an_invalid_target() {
    let err = parse("a[0].b(1);").unwrap_err();
    assert_eq!(err, "Invalid function target");
}

#[test]
fn parser_call_needs_a_name() {
    let err = parse("1(2);").unwrap_err();
    assert_eq!(err, "Expected function name before '('");
}

#[test]
fn parser_reads_type_then_name_parameters() {
    let ast = parse("function f(i32 x, *u8 p) { }").unwrap();
    match &ast.Children[0].Kind {
        LayerKind::Function { Name, Params, ReturnType, .. } => {
            assert_eq!(Name, "f");
            assert_eq!(Params.len(), 2);
            assert_eq!(Params[0].Name, "x");
            assert!(matches!(Params[0].Type_, Type::BitPrecise('i', 32)));
            assert_eq!(Params[1].Name, "p");
            assert!(matches!(Params[1].Type_, Type::Pointer(_)));
            assert!(ReturnType.is_none());
        }
        other => panic!("expected a function, got {:?}", other),
    }
}

#[test]
fn parser_while_has_its_body_as_only_child() {
    let ast = parse("while (x < 1) { panic; }").unwrap();
    let l = &ast.Children[0];
    assert!(matches!(l.Kind, LayerKind::Loop { Label: None, .. }));
    assert_eq!(l.Children.len(), 1);
    assert!(matches!(l.Children[0].Kind, LayerKind::Block));
}

fn collect_ids(l: &layerscript::ast::Layer, out: &mut Vec<usize>) {
    for c in l.Children.iter() {
        collect_ids(c, out);
    }
    out.push(l.Id.0);
}

#[test]
fn parser_gives_every_layer_its_own_id() {
    let code = "function f(i32 a) { if (a < 1) { panic; } else { unreachable; } } var x = 1 { on_change: function() { panic; } }; while (x) { x = x - 1; }";
    let tokens: Vec<Token> = Lexer::New(code).CollectTokens();
    let n = tokens.len();
    let mut ids = LayerIds::New();
    let context = LayerBuilder::New(LayerKind::Program, SourceLocation::Builtin(), &mut ids).Build();
    let mut parser = Parser::New(tokens, context, ids);
    let ast = parser.Parse().unwrap();
    let mut ids = Vec::new();
    collect_ids(&ast, &mut ids);
    let mut sorted = ids.clone();
    sorted.sort();
    sorted.dedup();
    assert_eq!(sorted.len(), ids.len());
    // The context layer took id 0; the parser went on from 1.
    assert!(ids.iter().all(|&i| 1 <= i && i < parser.NextLayerId));
    assert!(parser.NextLayerId <= n + 2);
}

#[test]
fn parser_keeps_what_was_read_before_an_error() {
    let tokens: Vec<Token> = Lexer::New("var x: i32 = 1; y = ;").CollectTokens();
    let mut ids = LayerIds::New();
    let context = LayerBuilder::New(LayerKind::Program, SourceLocation::Builtin(), &mut ids).Build();
    let mut parser = Parser::New(tokens, context, ids);
    assert!(parser.Parse().is_err());
    // The context layer took id 0, the program layer 1 and the binding 2
    // before the failure.
    assert_eq!(parser.NextLayerId, 3);
    assert!(parser.CurrentLayer.VariableStorage.Variables.ContainsKey("x"));
    assert!(!parser.CurrentLayer.VariableStorage.Variables.ContainsKey("y"));
}

#[test]
fn layers_built_from_one_counter_get_distinct_ids() {
    let mut ids = LayerIds::New();
    let a = LayerBuilder::New(LayerKind::Panic, SourceLocation::Builtin(), &mut ids).Build();
    let b = LayerBuilder::New(LayerKind::Block, SourceLocation::Builtin(), &mut ids).Build();
    assert_eq!(a.Id, LayerId(0));
    assert_eq!(b.Id, LayerId(1));
    assert_eq!(ids.Next, 2);
    assert!(a.Children.is_empty() && a.Constraints.is_empty() && a.Metadata.Docs.is_none());
    assert!(a.Observability.ObservableToTrace && !a.Observability.AffectsOutput && !a.Observability.AffectsHardware);
}

#[test]
fn conditions_compare_integers_as_integers() {
    let mut ids = LayerIds::New();
    let context = LayerBuilder::New(LayerKind::Program, SourceLocation::Builtin(), &mut ids).Build();
    let mut p = Parser::New(vec![], context, ids);
    let bin = |o: &str, l: i64, r: i64| Expression::BinaryOp {
        Op: o.to_string(),
        Lhs: Box::new(Expression::LiteralInt(l)),
        Rhs: Box::new(Expression::LiteralInt(r)),
    };
    assert_eq!(p.EvaluateExpression(&bin("<", 1, 2)), Ok(true));
    assert_eq!(p.EvaluateExpression(&bin("==", 1, 2)), Ok(false));
    assert_eq!(p.EvaluateExpression(&bin(">=", 3, 2)), Ok(true));
    assert_eq!(p.EvaluateExpression(&bin("!=", 0, 0)), Ok(false));
    let t = Expression::LiteralBool(true);
    let f = Expression::LiteralBool(false);
    let cmp = Expression::BinaryOp { Op: "<".to_string(), Lhs: Box::new(f), Rhs: Box::new(t) };
    assert_eq!(p.EvaluateExpression(&cmp), Ok(true));
}
