use term_repl::bindings::Bindings;
use term_repl::expression::{build_application, AppExpression, Expression, FuncExpression};
use term_repl::parsers::{
    parse_atom, parse_command_line, parse_reference, parse_s_expression, parse_term_index,
    parse_vector,
};
use term_repl::commands::{Command, ContextualCommand};
use term_repl::terms::{format_term_ref, TermIndex, TermPointer, TermReference};

fn func_ref(type_id: usize, index: usize) -> TermReference {
    TermReference::FuncRef(TermPointer {
        type_id,
        index: TermIndex::Primitive(index),
    })
}

fn bindings_with(names: &[(&str, TermReference)]) -> Bindings {
    let mut b = Bindings::new();
    for (name, term_ref) in names {
        b.write(name.to_string(), term_ref.clone());
    }
    b
}

#[test]
fn left_associative_currying() {
    // (f a b c) builds as App(App(App(f,a),b),c).
    let b = bindings_with(&[
        ("f", func_ref(0, 0)),
        ("a", func_ref(0, 1)),
        ("b", func_ref(0, 2)),
        ("c", func_ref(0, 3)),
    ]);
    let (app, rest) = parse_s_expression("(f a b c)", &b).unwrap();
    assert_eq!(rest, "");
    // Outermost argument is c.
    let outer_arg = match *app.arg_expr {
        Expression::Ref(TermReference::FuncRef(p)) => p,
        _ => panic!("outer argument should be c"),
    };
    assert!(matches!(outer_arg.index, TermIndex::Primitive(3)));
    // Peeling the callee gives App(App(f,a),b).
    let middle = match *app.func_expr {
        FuncExpression::App(inner) => inner,
        _ => panic!("outer callee should be an application"),
    };
    let middle_arg = match *middle.arg_expr {
        Expression::Ref(TermReference::FuncRef(p)) => p,
        _ => panic!("middle argument should be b"),
    };
    assert!(matches!(middle_arg.index, TermIndex::Primitive(2)));
    let inner = match *middle.func_expr {
        FuncExpression::App(inner) => inner,
        _ => panic!("middle callee should be an application"),
    };
    let inner_arg = match *inner.arg_expr {
        Expression::Ref(TermReference::FuncRef(p)) => p,
        _ => panic!("inner argument should be a"),
    };
    assert!(matches!(inner_arg.index, TermIndex::Primitive(1)));
    let head = match *inner.func_expr {
        FuncExpression::Func(p) => p,
        _ => panic!("inner callee should be the bare function f"),
    };
    assert!(matches!(head.index, TermIndex::Primitive(0)));
}

#[test]
fn rendering_shows_left_associative_tree() {
    let b = bindings_with(&[
        ("f", func_ref(0, 0)),
        ("a", func_ref(0, 1)),
        ("b", func_ref(0, 2)),
        ("c", func_ref(0, 3)),
    ]);
    let line = term_repl::commands::handle_parse("(f a b c)".to_string(), &b);
    assert_eq!(line, "(((#0p0 #0p1) #0p2) #0p3)");
}

#[test]
fn build_application_rejects_empty() {
    let r = build_application(Vec::new());
    assert_eq!(r.unwrap_err(), "Empty expression");
}

#[test]
fn build_application_rejects_singleton() {
    let r = build_application(vec![Expression::Ref(func_ref(0, 0))]);
    assert_eq!(r.unwrap_err(), "Singleton expressions are disallowed");
}

#[test]
fn build_application_rejects_vector_head() {
    let vector_ref = TermReference::VecRef(0, vec!["1.0".to_string()]);
    let r = build_application(vec![
        Expression::Ref(vector_ref),
        Expression::Ref(func_ref(0, 0)),
    ]);
    assert_eq!(r.unwrap_err(), "Cannot apply vector as a function");
}

#[test]
fn vector_literal_round_trip() {
    let (term_ref, rest) = parse_reference("#0[1.0, 2.0, 3.0]").unwrap();
    assert_eq!(rest, "");
    match &term_ref {
        TermReference::VecRef(type_id, elems) => {
            assert_eq!(*type_id, 0);
            assert_eq!(elems, &vec!["1.0".to_string(), "2.0".to_string(), "3.0".to_string()]);
        }
        _ => panic!("expected a vector reference"),
    }
    let rendered = format_term_ref(&term_ref);
    assert_eq!(rendered, "#0[1.0, 2.0, 3.0]");
    // The rendering parses back to an equivalent literal.
    let (again, rest2) = parse_reference(&rendered).unwrap();
    assert_eq!(rest2, "");
    assert_eq!(format_term_ref(&again), rendered);
}

#[test]
fn term_index_round_trip() {
    let (term_ref, rest) = parse_reference("#2p5").unwrap();
    assert_eq!(rest, "");
    match term_ref {
        TermReference::FuncRef(p) => {
            assert_eq!(p.type_id, 2);
            assert!(matches!(p.index, TermIndex::Primitive(5)));
        }
        _ => panic!("expected a function reference"),
    }
    let (term_ref2, _) = parse_reference("#2n5").unwrap();
    match term_ref2 {
        TermReference::FuncRef(p) => {
            assert_eq!(p.type_id, 2);
            assert!(matches!(p.index, TermIndex::NonPrimitive(5)));
        }
        _ => panic!("expected a function reference"),
    }
    assert_eq!(format_term_ref(&parse_reference("#2p5").unwrap().0), "#2p5");
    assert_eq!(format_term_ref(&parse_reference("#2n5").unwrap().0), "#2n5");
    assert_eq!(
        format_term_ref(&parse_reference("#123n456").unwrap().0),
        "#123n456"
    );
}

#[test]
fn unbound_identifier_is_a_lookup_error() {
    let b = Bindings::new();
    let err = parse_s_expression("(foo bar)", &b).unwrap_err();
    assert_eq!(err, "No identifier named foo in scope");
}

#[test]
fn lookup_returns_last_write() {
    let mut b = Bindings::new();
    b.write("x".to_string(), func_ref(1, 1));
    b.write("x".to_string(), func_ref(2, 2));
    match b.lookup("x").unwrap() {
        TermReference::FuncRef(p) => assert_eq!(p.type_id, 2),
        _ => panic!("expected a function reference"),
    }
    let err = b.lookup("y").unwrap_err();
    assert_eq!(err, "No identifier named y in scope");
}

#[test]
fn missing_left_paren() {
    let b = Bindings::new();
    let err = parse_s_expression("f a)", &b).unwrap_err();
    assert_eq!(err, "Missing left paren for sub-expression: f a)");
}

#[test]
fn running_out_inside_s_expression() {
    let b = bindings_with(&[("f", func_ref(0, 0)), ("a", func_ref(0, 1))]);
    // The last atom runs to the end of input without a break character.
    let err = parse_s_expression("(f a", &b).unwrap_err();
    assert_eq!(err, "Ran out of input while parsing identifier: a");
    // With the atoms delimited, it is the s-expression that runs out.
    let err2 = parse_s_expression("(f a ", &b).unwrap_err();
    assert_eq!(err2, "Ran out of input while parsing s-expression: (f a ");
}

#[test]
fn empty_and_singleton_s_expressions() {
    let b = bindings_with(&[("f", func_ref(0, 0))]);
    assert_eq!(parse_s_expression("()", &b).unwrap_err(), "Empty expression");
    assert_eq!(
        parse_s_expression("(f)", &b).unwrap_err(),
        "Singleton expressions are disallowed"
    );
}

#[test]
fn nested_sub_expressions_parse() {
    let b = bindings_with(&[
        ("f", func_ref(0, 0)),
        ("g", func_ref(1, 0)),
        ("x", func_ref(2, 0)),
    ]);
    let line = term_repl::commands::handle_parse("(f (g x) x)".to_string(), &b);
    assert_eq!(line, "((#0p0 (#1p0 #2p0)) #2p0)");
}

#[test]
fn reference_errors() {
    assert_eq!(
        parse_reference("abc").unwrap_err(),
        "Missing pound sign for reference: abc"
    );
    assert_eq!(
        parse_reference("#123").unwrap_err(),
        "Ran out of input while parsing reference: #123"
    );
    // A missing type number leaves an empty integer literal.
    assert_eq!(parse_reference("#p5").unwrap_err(), "Malformed integer: ");
    // A type number too large for the machine is malformed.
    assert_eq!(
        parse_reference("#99999999999999999999999p1").unwrap_err(),
        "Malformed integer: 99999999999999999999999"
    );
}

#[test]
fn term_index_errors() {
    assert_eq!(
        parse_term_index("q5").unwrap_err(),
        "Cannot parse term index q5"
    );
    // A digit run may end with the input itself.
    let (ti, rest) = parse_term_index("p123").unwrap();
    assert!(matches!(ti, TermIndex::Primitive(123)));
    assert_eq!(rest, "");
    assert_eq!(
        parse_term_index("p").unwrap_err(),
        "Ran out of input while parsing term index: p"
    );
    assert_eq!(parse_term_index("px)").unwrap_err(), "Malformed integer: ");
}

#[test]
fn vector_errors() {
    assert_eq!(
        parse_vector("1.0]").unwrap_err(),
        "Missing left bracket for vector: 1.0]"
    );
    assert_eq!(
        parse_vector("[1.0").unwrap_err(),
        "Missing right bracket for vector: [1.0"
    );
    assert_eq!(parse_vector("[1.x]").unwrap_err(), "Malformed float: 1.x");
    assert_eq!(parse_vector("[]").unwrap_err(), "Malformed float: ");
    assert_eq!(parse_vector("[1.0, ,2.0]").unwrap_err(), "Malformed float: ");
}

#[test]
fn vector_component_grammar() {
    // Accepted forms of a single-precision literal.
    for ok in [
        "[1]", "[1.]", "[.5]", "[-3.25]", "[+4]", "[3e5]", "[1.5E-3]", "[inf]", "[-INF]",
        "[nan]", "[Infinity]",
    ] {
        assert!(parse_vector(ok).is_ok(), "{} should parse", ok);
    }
    // Rejected forms.
    for bad in ["[.]", "[1e]", "[+]", "[1.2.3]", "[e5]", "[in]", "[infinityy]", "[na n]"] {
        assert!(parse_vector(bad).is_err(), "{} should be rejected", bad);
    }
}

#[test]
fn identifier_runs_to_break_character() {
    let b = bindings_with(&[("plus-one", func_ref(4, 7))]);
    let (expr, rest) = parse_atom("plus-one )", &b).unwrap();
    match expr {
        Expression::Ref(TermReference::FuncRef(p)) => assert_eq!(p.type_id, 4),
        _ => panic!("expected the bound reference"),
    }
    assert_eq!(rest, " )");
    assert_eq!(
        parse_atom("plus-one", &b).unwrap_err(),
        "Ran out of input while parsing identifier: plus-one"
    );
}

#[test]
fn atom_dispatch() {
    let b = Bindings::new();
    assert_eq!(parse_atom("", &b).unwrap_err(), "Cannot parse atom: empty text");
    let (expr, rest) = parse_atom("#1p0 more", &b).unwrap();
    assert!(matches!(expr, Expression::Ref(TermReference::FuncRef(_))));
    assert_eq!(rest, " more");
}

#[test]
fn command_line_parsing() {
    match parse_command_line("  parse (f a)  ").unwrap() {
        Command::Parse(rest) => assert_eq!(rest, "(f a)"),
        _ => panic!("expected a parse command"),
    }
    match parse_command_line("let x = (f a)").unwrap() {
        Command::Contextual(ContextualCommand::Let(var, expr)) => {
            assert_eq!(var, "x");
            assert_eq!(expr, "(f a)");
        }
        _ => panic!("expected a let command"),
    }
    assert!(matches!(parse_command_line("help").unwrap(), Command::Help));
    assert!(matches!(
        parse_command_line("unload_context").unwrap(),
        Command::UnloadContext
    ));
    assert!(matches!(
        parse_command_line("list_types").unwrap(),
        Command::Contextual(ContextualCommand::ListTypes)
    ));
    match parse_command_line("eval (f a)").unwrap() {
        Command::Contextual(ContextualCommand::Evaluate(e)) => assert_eq!(e, "(f a)"),
        _ => panic!("expected an evaluate command"),
    }
    match parse_command_line("sim (f a)").unwrap() {
        Command::Contextual(ContextualCommand::Simulate(e)) => assert_eq!(e, "(f a)"),
        _ => panic!("expected a simulate command"),
    }
    match parse_command_line("load_context /tmp/ctx.json").unwrap() {
        Command::LoadContextFromPath(p) => assert_eq!(p, "/tmp/ctx.json"),
        _ => panic!("expected a load command"),
    }
    assert_eq!(
        parse_command_line("frobnicate").unwrap_err(),
        "frobnicate is not a recognized command (without arguments)"
    );
    assert_eq!(
        parse_command_line("frobnicate now").unwrap_err(),
        "frobnicate is not a recognized command (with arguments)"
    );
    assert_eq!(
        parse_command_line("let x (f a)").unwrap_err(),
        "Let body x (f a) does not have the format [var] = [expr]"
    );
}

#[test]
fn nested_rendering_round_trip() {
    // Parsing a rendering gives back the same tree: the rendering of the
    // reparse is identical.
    let b = bindings_with(&[("f", func_ref(0, 0)), ("g", func_ref(1, 3))]);
    let (tree, rest) = parse_s_expression("( f ( g #0[1.0, 2.5e-1] )  #2n5 )", &b).unwrap();
    assert_eq!(rest, "");
    let rendered = term_repl::expression::format_app_expr(&tree);
    assert_eq!(rendered, "((#0p0 (#1p3 #0[1.0, 2.5e-1])) #2n5)");
    let (tree2, rest2) = parse_s_expression(&rendered, &b).unwrap();
    assert_eq!(rest2, "");
    assert_eq!(term_repl::expression::format_app_expr(&tree2), rendered);
}
