//! The command surface the interactive loop hands to the core, and the
//! computational part of each command handler: every handler here turns
//! its inputs into the exact line the session prints, leaving the printing
//! itself to the surrounding program.

use vstd::prelude::*;
use vstd::string::*;
use crate::bindings::Bindings;
use crate::eval::{spec_evaluate_expression, EvalInterruptView};
use crate::expression::render_app_expr_spec;
use crate::parsers::{parse_atom, parse_s_expression, spec_parse_atom, spec_parse_s_expression};
use crate::simulate::{
    spec_simulate_expression, SimInterruptView, SimRequest, SimRequestView, SimResponse,
    SimResponseView, TypedVectorView,
};
use crate::state::ContextState;
use crate::terms::{
    format_term_ref, render_term_ref_spec, TermPointer, TermReference, TermRefView, TypedVector,
};
use crate::text::str_concat;

verus! {

/// A command of the interactive session.
#[derive(Debug)]
pub enum Command {
    Contextual(ContextualCommand),
    Parse(String),
    GenerateContextFromPath(String),
    LoadContextFromPath(String),
    UnloadContext,
    Help,
}

/// A command that needs a loaded context.
#[derive(Debug)]
pub enum ContextualCommand {
    Let(String, String),
    Evaluate(String),
    Simulate(String),
    ListTypes,
    ListPrimitiveTerms(String),
    SaveContextToPath(String),
    LoadModelsFromPath(String),
    SaveModelsToPath(String),
}

/// Mathematical reading of a command.
pub enum CommandView {
    Contextual(ContextualCommandView),
    Parse(Seq<char>),
    GenerateContextFromPath(Seq<char>),
    LoadContextFromPath(Seq<char>),
    UnloadContext,
    Help,
}

/// Mathematical reading of a contextual command.
pub enum ContextualCommandView {
    Let(Seq<char>, Seq<char>),
    Evaluate(Seq<char>),
    Simulate(Seq<char>),
    ListTypes,
    ListPrimitiveTerms(Seq<char>),
    SaveContextToPath(Seq<char>),
    LoadModelsFromPath(Seq<char>),
    SaveModelsToPath(Seq<char>),
}

impl View for ContextualCommand {
    type V = ContextualCommandView;

    open spec fn view(&self) -> ContextualCommandView {
        match self {
            ContextualCommand::Let(v, e) => ContextualCommandView::Let(v@, e@),
            ContextualCommand::Evaluate(e) => ContextualCommandView::Evaluate(e@),
            ContextualCommand::Simulate(e) => ContextualCommandView::Simulate(e@),
            ContextualCommand::ListTypes => ContextualCommandView::ListTypes,
            ContextualCommand::ListPrimitiveTerms(t) => ContextualCommandView::ListPrimitiveTerms(
                t@,
            ),
            ContextualCommand::SaveContextToPath(p) => ContextualCommandView::SaveContextToPath(
                p@,
            ),
            ContextualCommand::LoadModelsFromPath(p) => ContextualCommandView::LoadModelsFromPath(
                p@,
            ),
            ContextualCommand::SaveModelsToPath(p) => ContextualCommandView::SaveModelsToPath(p@),
        }
    }
}

impl View for Command {
    type V = CommandView;

    open spec fn view(&self) -> CommandView {
        match self {
            Command::Contextual(c) => CommandView::Contextual(c@),
            Command::Parse(s) => CommandView::Parse(s@),
            Command::GenerateContextFromPath(s) => CommandView::GenerateContextFromPath(s@),
            Command::LoadContextFromPath(s) => CommandView::LoadContextFromPath(s@),
            Command::UnloadContext => CommandView::UnloadContext,
            Command::Help => CommandView::Help,
        }
    }
}

/// What a model-touching handler reports: a finished output line, or the
/// external application the evaluator still needs answered.
#[derive(Debug)]
pub enum CommandOutcome {
    Output(String),
    NeedApply(TermPointer, TermReference),
}

/// Mathematical reading of a handler outcome.
pub enum CommandOutcomeView {
    Output(Seq<char>),
    NeedApply(TermPointer, TermRefView),
}

impl View for CommandOutcome {
    type V = CommandOutcomeView;

    open spec fn view(&self) -> CommandOutcomeView {
        match self {
            CommandOutcome::Output(s) => CommandOutcomeView::Output(s@),
            CommandOutcome::NeedApply(p, a) => CommandOutcomeView::NeedApply(*p, a@),
        }
    }
}

/// The line a `let` (or `evaluate`) command prints, given the transcript
/// of external-apply responses.
pub open spec fn spec_handle_let_output(
    expr_text: Seq<char>,
    env: Map<Seq<char>, TermRefView>,
    responses: Seq<TermRefView>,
) -> CommandOutcomeView {
    match spec_parse_atom(expr_text, env) {
        Result::Err(m) => CommandOutcomeView::Output("Let: Expression Parsing Error: "@ + m),
        Result::Ok((e, rem)) => match spec_evaluate_expression(e, responses, 0).0 {
            Result::Err(EvalInterruptView::NeedApply(f, a)) => CommandOutcomeView::NeedApply(f, a),
            Result::Err(EvalInterruptView::Failure(m)) => CommandOutcomeView::Output(
                "Let: Expression Evaluation Error: "@ + m,
            ),
            Result::Ok(t) => CommandOutcomeView::Output(render_term_ref_spec(t)),
        },
    }
}

/// The binding environment after a `let` command: only a successful
/// evaluation binds the variable.
pub open spec fn spec_handle_let_env(
    var_text: Seq<char>,
    expr_text: Seq<char>,
    env: Map<Seq<char>, TermRefView>,
    responses: Seq<TermRefView>,
) -> Map<Seq<char>, TermRefView> {
    match spec_parse_atom(expr_text, env) {
        Result::Err(m) => env,
        Result::Ok((e, rem)) => match spec_evaluate_expression(e, responses, 0).0 {
            Result::Err(i) => env,
            Result::Ok(t) => env.insert(var_text, t),
        },
    }
}

/// Parses the expression, evaluates it through the checkout protocol, and
/// on success binds the result and reports its rendering.
pub fn handle_let(
    var_text: String,
    expr_text: &str,
    context_state: &mut ContextState,
    bindings: &mut Bindings,
    responses: &Vec<TermReference>,
) -> (r: CommandOutcome)
    ensures
        r@ == spec_handle_let_output(expr_text@, old(bindings)@, responses.deep_view()),
        final(bindings)@ == spec_handle_let_env(
            var_text@,
            expr_text@,
            old(bindings)@,
            responses.deep_view(),
        ),
        final(context_state).ctxt_bytes == old(context_state).ctxt_bytes,
        final(context_state).model_bytes() == old(context_state).model_bytes(),
{
    let parse_result = parse_atom(expr_text, bindings);
    match parse_result {
        Result::Err(err) => CommandOutcome::Output(
            str_concat("Let: Expression Parsing Error: ", err.as_str()),
        ),
        Result::Ok((expr, _rest)) => {
            let maybe_result_ref = context_state.eval(expr, responses);
            match maybe_result_ref {
                Result::Err(crate::eval::EvalInterrupt::NeedApply(f, a)) => {
                    CommandOutcome::NeedApply(f, a)
                },
                Result::Err(crate::eval::EvalInterrupt::Failure(err)) => CommandOutcome::Output(
                    str_concat("Let: Expression Evaluation Error: ", err.as_str()),
                ),
                Result::Ok(result_ref) => {
                    let result_string = format_term_ref(&result_ref);
                    bindings.write(var_text, result_ref);
                    CommandOutcome::Output(result_string)
                },
            }
        },
    }
}

/// `evaluate` is `let` with the result bound to `ans`.
pub fn handle_evaluate(
    expr_text: &str,
    context_state: &mut ContextState,
    bindings: &mut Bindings,
    responses: &Vec<TermReference>,
) -> (r: CommandOutcome)
    ensures
        r@ == spec_handle_let_output(expr_text@, old(bindings)@, responses.deep_view()),
        final(bindings)@ == spec_handle_let_env(
            "ans"@,
            expr_text@,
            old(bindings)@,
            responses.deep_view(),
        ),
        final(context_state).ctxt_bytes == old(context_state).ctxt_bytes,
        final(context_state).model_bytes() == old(context_state).model_bytes(),
{
    handle_let(String::from_str("ans"), expr_text, context_state, bindings, responses)
}

/// The line the `parse` command prints: the rendering of the parsed tree,
/// or the parse error.
pub open spec fn spec_handle_parse(
    line: Seq<char>,
    env: Map<Seq<char>, TermRefView>,
) -> Seq<char> {
    match spec_parse_s_expression(line, env) {
        Result::Ok((app, rem)) => render_app_expr_spec(app),
        Result::Err(m) => "Parsing error: "@ + m,
    }
}

/// Parses the given s-expression and renders what it parsed as.
pub fn handle_parse(line: String, bindings: &Bindings) -> (r: String)
    ensures
        r@ == spec_handle_parse(line@, bindings@),
{
    let parse_result = parse_s_expression(line.as_str(), bindings);
    match parse_result {
        Result::Ok((expr, _rest)) => crate::expression::format_app_expr(&expr),
        Result::Err(err) => str_concat("Parsing error: ", err.as_str()),
    }
}

/// Saving the interpreter and embedder models is not offered yet; the
/// command reports an explicit error instead of acting.
pub fn handle_save_models(path: String, context_state: &ContextState) -> (r: String)
    ensures
        r@ == "save_models is not available in this session"@,
{
    let _ = path;
    String::from_str("save_models is not available in this session")
}

/// Loading the interpreter and embedder models is not offered yet; the
/// command reports an explicit error instead of acting.
pub fn handle_load_models(
    path: String,
    context_state: &mut ContextState,
    bindings: &mut Bindings,
) -> (r: String)
    ensures
        r@ == "load_models is not available in this session"@,
        final(context_state).ctxt_bytes == old(context_state).ctxt_bytes,
        final(context_state).model_bytes() == old(context_state).model_bytes(),
        final(bindings)@ == old(bindings)@,
{
    let _ = path;
    String::from_str("load_models is not available in this session")
}

/// The help screen, one description per command.
pub open spec fn help_text() -> Seq<char> {
    "generate_context [path]: Generates a Context from the path to json-ized Params to generate it from"@
        + seq!['\n']
        + "load_context [path]: Loads a json-ized Context from the given path"@ + seq!['\n']
        + "unload_context: Unloads the current Context"@ + seq!['\n']
        + "list_types: Lists all types matching type numbers to their definitions"@ + seq!['\n']
        + "parse [expr]: Parses the given s-expression, and renders what it parsed as"@
        + seq!['\n']
        + "let [var] = [expr]: Evaluates the expression, and binds it to the given variable"@
        + seq!['\n']
        + "eval [expr] | evaluate [expr]: Evaluates the expression, and prints the result"@
        + seq!['\n']
        + "simulate [expr] | sim [expr]: Simulates the given expression [via a drawn sample], and prints the result"@
        + seq!['\n']
        + "list_primitive_terms [type_num] | list_prim_terms [type_num]: Lists the primitive terms of the type with the given number"@
        + seq!['\n']
        + "save_context [path]: Saves the current Context, json-ized, to the given path"@
        + seq!['\n']
        + "load_models [path]: Loads the jsonized interpreter+embedder state from the given path"@
        + seq!['\n']
        + "save_models [path]: Saves the interpreter+embedder state as json to the given path"@
        + seq!['\n'] + "help: Prints this help screen"@
}

/// The help screen's text.
pub fn handle_help() -> (r: String)
    ensures
        r@ == help_text(),
{
    proof {
        reveal_strlit("\n");
    }
    let mut s = String::from_str(
        "generate_context [path]: Generates a Context from the path to json-ized Params to generate it from",
    );
    s.append("\n");
    s.append("load_context [path]: Loads a json-ized Context from the given path");
    s.append("\n");
    s.append("unload_context: Unloads the current Context");
    s.append("\n");
    s.append("list_types: Lists all types matching type numbers to their definitions");
    s.append("\n");
    s.append("parse [expr]: Parses the given s-expression, and renders what it parsed as");
    s.append("\n");
    s.append("let [var] = [expr]: Evaluates the expression, and binds it to the given variable");
    s.append("\n");
    s.append("eval [expr] | evaluate [expr]: Evaluates the expression, and prints the result");
    s.append("\n");
    s.append(
        "simulate [expr] | sim [expr]: Simulates the given expression [via a drawn sample], and prints the result",
    );
    s.append("\n");
    s.append(
        "list_primitive_terms [type_num] | list_prim_terms [type_num]: Lists the primitive terms of the type with the given number",
    );
    s.append("\n");
    s.append("save_context [path]: Saves the current Context, json-ized, to the given path");
    s.append("\n");
    s.append("load_models [path]: Loads the jsonized interpreter+embedder state from the given path");
    s.append("\n");
    s.append("save_models [path]: Saves the interpreter+embedder state as json to the given path");
    s.append("\n");
    s.append("help: Prints this help screen");
    proof {
        assert(s@ =~= help_text());
    }
    s
}


/// What the `simulate` command reports: a typed vector for the driver to
/// render, a capability request still to be answered, or a finished error
/// line.
#[derive(Debug)]
pub enum SimulateOutcome {
    Value(TypedVector),
    NeedCapability(SimRequest),
    Output(String),
}

/// Mathematical reading of a simulate outcome.
pub enum SimulateOutcomeView {
    Value(TypedVectorView),
    NeedCapability(SimRequestView),
    Output(Seq<char>),
}

impl View for SimulateOutcome {
    type V = SimulateOutcomeView;

    open spec fn view(&self) -> SimulateOutcomeView {
        match self {
            SimulateOutcome::Value(v) => SimulateOutcomeView::Value(v@),
            SimulateOutcome::NeedCapability(rq) => SimulateOutcomeView::NeedCapability(rq@),
            SimulateOutcome::Output(s) => SimulateOutcomeView::Output(s@),
        }
    }
}

/// What a `simulate` command reports, given the capability transcript.
pub open spec fn spec_handle_simulate(
    expr_text: Seq<char>,
    env: Map<Seq<char>, TermRefView>,
    responses: Seq<SimResponseView>,
) -> SimulateOutcomeView {
    match spec_parse_atom(expr_text, env) {
        Result::Err(m) => SimulateOutcomeView::Output(
            "Simulate: Expression Parsing Error: "@ + m,
        ),
        Result::Ok((e, rem)) => match spec_simulate_expression(e, responses, 0).0 {
            Result::Err(SimInterruptView::NeedCapability(rq)) => SimulateOutcomeView::NeedCapability(
                rq,
            ),
            Result::Err(SimInterruptView::Failure(m)) => SimulateOutcomeView::Output(
                "Simulate: Expression Simulation Error: "@ + m,
            ),
            Result::Ok(v) => SimulateOutcomeView::Value(v),
        },
    }
}

/// Parses the expression and simulates it against the capability
/// transcript.
pub fn handle_simulate(expr_text: &str, bindings: &Bindings, responses: &Vec<SimResponse>) -> (r:
    SimulateOutcome)
    ensures
        r@ == spec_handle_simulate(expr_text@, bindings@, responses.deep_view()),
{
    let parse_result = parse_atom(expr_text, bindings);
    match parse_result {
        Result::Err(err) => SimulateOutcome::Output(
            str_concat("Simulate: Expression Parsing Error: ", err.as_str()),
        ),
        Result::Ok((expr, _rest)) => {
            let (result, _consumed) = crate::simulate::simulate_expression(expr, responses, 0);
            match result {
                Result::Err(crate::simulate::SimInterrupt::NeedCapability(rq)) => {
                    SimulateOutcome::NeedCapability(rq)
                },
                Result::Err(crate::simulate::SimInterrupt::Failure(err)) => {
                    SimulateOutcome::Output(
                        str_concat("Simulate: Expression Simulation Error: ", err.as_str()),
                    )
                },
                Result::Ok(v) => SimulateOutcome::Value(v),
            }
        },
    }
}

} // verus!
