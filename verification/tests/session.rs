use term_repl::bindings::Bindings;
use term_repl::commands::{
    handle_evaluate, handle_help, handle_let, handle_load_models, handle_parse,
    handle_save_models, handle_simulate, CommandOutcome, SimulateOutcome,
};
use term_repl::simulate::SimResponse;
use term_repl::state::{ContextState, GlobalState};
use term_repl::terms::{TermIndex, TermPointer, TermReference};

fn prim_ref(type_id: usize, index: usize) -> TermReference {
    TermReference::FuncRef(TermPointer {
        type_id,
        index: TermIndex::Primitive(index),
    })
}

#[test]
fn let_binds_and_reports_the_result() {
    let mut cs = ContextState::new(vec![1, 2, 3], vec![9, 9]);
    let mut bindings = Bindings::new();
    bindings.write("f".to_string(), prim_ref(1, 0));
    bindings.write("a".to_string(), prim_ref(2, 0));
    let responses = vec![prim_ref(7, 4)];
    let outcome = handle_let("x".to_string(), "(f a)", &mut cs, &mut bindings, &responses);
    match outcome {
        CommandOutcome::Output(line) => assert_eq!(line, "#7p4"),
        _ => panic!("expected an output line"),
    }
    // The result is bound under the given name.
    match bindings.lookup("x").unwrap() {
        TermReference::FuncRef(p) => {
            assert_eq!(p.type_id, 7);
            assert!(matches!(p.index, TermIndex::Primitive(4)));
        }
        _ => panic!("expected the bound result"),
    }
    // The serialized model is untouched.
    assert_eq!(cs.model, vec![9, 9]);
    assert_eq!(cs.ctxt_bytes, vec![1, 2, 3]);
}

#[test]
fn let_reports_parse_errors_and_binds_nothing() {
    let mut cs = ContextState::new(Vec::new(), vec![5]);
    let mut bindings = Bindings::new();
    let outcome = handle_let("x".to_string(), "(foo bar)", &mut cs, &mut bindings, &Vec::new());
    match outcome {
        CommandOutcome::Output(line) => {
            assert_eq!(line, "Let: Expression Parsing Error: No identifier named foo in scope")
        }
        _ => panic!("expected an output line"),
    }
    assert!(bindings.lookup("x").is_err());
    // The checkout protocol restored the model on the error path.
    assert_eq!(cs.model, vec![5]);
}

#[test]
fn let_reports_evaluation_errors_and_restores_the_model() {
    let mut cs = ContextState::new(Vec::new(), vec![5, 6]);
    let mut bindings = Bindings::new();
    bindings.write("f".to_string(), prim_ref(1, 0));
    bindings.write("a".to_string(), prim_ref(2, 0));
    // The one response makes the inner callee a vector.
    let responses = vec![TermReference::VecRef(5, vec!["2.0".to_string()])];
    let outcome = handle_let(
        "x".to_string(),
        "((f a) a)",
        &mut cs,
        &mut bindings,
        &responses,
    );
    match outcome {
        CommandOutcome::Output(line) => assert_eq!(
            line,
            "Let: Expression Evaluation Error: Expected function, but obtained vector from evaluating (#1p0 #2p0)"
        ),
        _ => panic!("expected an output line"),
    }
    assert!(bindings.lookup("x").is_err());
    assert_eq!(cs.model, vec![5, 6]);
}

#[test]
fn let_pauses_when_the_model_must_answer() {
    let mut cs = ContextState::new(Vec::new(), vec![8]);
    let mut bindings = Bindings::new();
    bindings.write("f".to_string(), prim_ref(1, 0));
    bindings.write("a".to_string(), prim_ref(2, 0));
    let outcome = handle_let("x".to_string(), "(f a)", &mut cs, &mut bindings, &Vec::new());
    match outcome {
        CommandOutcome::NeedApply(f, a) => {
            assert_eq!(f.type_id, 1);
            assert!(matches!(a, TermReference::FuncRef(_)));
        }
        _ => panic!("expected a pause"),
    }
    // Paused or not, the model is resident.
    assert_eq!(cs.model, vec![8]);
}

#[test]
fn evaluate_binds_ans() {
    let mut cs = ContextState::new(Vec::new(), Vec::new());
    let mut bindings = Bindings::new();
    bindings.write("f".to_string(), prim_ref(1, 0));
    bindings.write("a".to_string(), prim_ref(2, 0));
    let responses = vec![prim_ref(3, 3)];
    let outcome = handle_evaluate("(f a)", &mut cs, &mut bindings, &responses);
    match outcome {
        CommandOutcome::Output(line) => assert_eq!(line, "#3p3"),
        _ => panic!("expected an output line"),
    }
    match bindings.lookup("ans").unwrap() {
        TermReference::FuncRef(p) => assert_eq!(p.type_id, 3),
        _ => panic!("expected ans to be bound"),
    }
}

#[test]
fn perform_on_models_restores_whatever_the_operation_returns() {
    let mut cs = ContextState::new(vec![1], vec![2, 3]);
    // An operation that fails logically still hands a model back; the
    // state holds exactly that model afterwards.
    let r: Result<u32, String> = cs.perform_on_models(|m| {
        let mut m2 = m;
        m2.push(4);
        (m2, Err("logical failure".to_string()))
    });
    assert_eq!(r.unwrap_err(), "logical failure");
    assert_eq!(cs.model, vec![2, 3, 4]);
    assert_eq!(cs.ctxt_bytes, vec![1]);
}

#[test]
fn update_models_installs_the_stepped_model() {
    let mut cs = ContextState::new(vec![1], vec![2]);
    cs.update_models(vec![7, 7, 7]);
    assert_eq!(cs.model, vec![7, 7, 7]);
    assert_eq!(cs.ctxt_bytes, vec![1]);
}

#[test]
fn global_state_load_and_unload() {
    let mut gs = GlobalState {
        bindings: Bindings::new(),
        maybe_context_state: None,
    };
    gs.set_context(vec![1, 2], vec![3]);
    match &gs.maybe_context_state {
        Some(cs) => {
            assert_eq!(cs.ctxt_bytes, vec![1, 2]);
            assert_eq!(cs.model, vec![3]);
        }
        None => panic!("a context should be loaded"),
    }
    gs.unload_context();
    assert!(gs.maybe_context_state.is_none());
}

#[test]
fn parse_command_reports_errors_as_lines() {
    let bindings = Bindings::new();
    let line = handle_parse("(foo".to_string(), &bindings);
    assert_eq!(
        line,
        "Parsing error: Ran out of input while parsing identifier: foo"
    );
    let line2 = handle_parse("( ".to_string(), &bindings);
    assert_eq!(
        line2,
        "Parsing error: Ran out of input while parsing s-expression: ( "
    );
}

#[test]
fn simulate_command_runs_the_simulator() {
    let mut bindings = Bindings::new();
    bindings.write("f".to_string(), prim_ref(1, 0));
    let responses = vec![SimResponse::Sample(vec![1.0f32.to_bits()])];
    match handle_simulate("f ", &bindings, &responses) {
        SimulateOutcome::Value(v) => {
            assert_eq!(v.type_id, 1);
            assert_eq!(v.vec, vec![1.0f32.to_bits()]);
        }
        _ => panic!("expected a simulated value"),
    }
    match handle_simulate("(foo bar)", &bindings, &Vec::new()) {
        SimulateOutcome::Output(line) => assert_eq!(
            line,
            "Simulate: Expression Parsing Error: No identifier named foo in scope"
        ),
        _ => panic!("expected an output line"),
    }
    match handle_simulate("f ", &bindings, &Vec::new()) {
        SimulateOutcome::NeedCapability(_) => {}
        _ => panic!("expected a capability request"),
    }
}

#[test]
fn model_commands_report_unavailability() {
    let mut cs = ContextState::new(Vec::new(), Vec::new());
    let mut bindings = Bindings::new();
    assert_eq!(
        handle_save_models("p".to_string(), &cs),
        "save_models is not available in this session"
    );
    assert_eq!(
        handle_load_models("p".to_string(), &mut cs, &mut bindings),
        "load_models is not available in this session"
    );
}

#[test]
fn help_lists_every_command() {
    let text = handle_help();
    for needle in [
        "generate_context [path]",
        "load_context [path]",
        "unload_context:",
        "list_types:",
        "parse [expr]",
        "let [var] = [expr]",
        "eval [expr] | evaluate [expr]",
        "simulate [expr] | sim [expr]",
        "list_primitive_terms [type_num] | list_prim_terms [type_num]",
        "save_context [path]",
        "load_models [path]",
        "save_models [path]",
        "help: Prints this help screen",
    ] {
        assert!(text.contains(needle), "help should mention {}", needle);
    }
}
