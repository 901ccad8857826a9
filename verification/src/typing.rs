//! Type consistency across the two evaluation modes.
//!
//! The external model assigns every function type a return type.  When the
//! transcripts driving the deterministic evaluator and the stochastic
//! simulator both agree with one such assignment — every external
//! application's result lies in the return type of its callee's type, and
//! every return-type answer is the assignment's value at the queried type
//! — then evaluating and simulating the same expression, whenever both
//! complete, yield results of the same declared type.

use vstd::prelude::*;
use crate::eval::{
    spec_evaluate_app_expression, spec_evaluate_expression, spec_evaluate_func_expression,
};
use crate::expression::{AppExprView, ExprView, FuncExprView};
use crate::simulate::{
    spec_apply_vectors, spec_simulate_app_expression, spec_simulate_expression,
    spec_simulate_func_expression, SimResponseView,
};
use crate::terms::{TermRefView, TypeId};

verus! {

/// The declared type of a term reference.
pub open spec fn ref_type(term_ref: TermRefView) -> TypeId {
    match term_ref {
        TermRefView::Func(p) => p.type_id,
        TermRefView::Vector(t, _) => t,
    }
}

/// The apply transcript agrees with the return-type assignment `rt` along
/// the evaluation of `expr`: every response consumed for an application
/// has the return type of the callee's type.
pub open spec fn eval_expr_typed(
    expr: ExprView,
    responses: Seq<TermRefView>,
    at: nat,
    rt: spec_fn(TypeId) -> TypeId,
) -> bool
    decreases expr, 1int,
{
    match expr {
        ExprView::Ref(_) => true,
        ExprView::App(app) => eval_app_typed(*app, responses, at, rt),
    }
}

pub open spec fn eval_app_typed(
    app: AppExprView,
    responses: Seq<TermRefView>,
    at: nat,
    rt: spec_fn(TypeId) -> TypeId,
) -> bool
    decreases app, 2int,
{
    eval_func_typed(app.func, responses, at, rt) && {
        let (func_r, at1) = spec_evaluate_func_expression(app.func, responses, at);
        match func_r {
            Result::Err(_) => true,
            Result::Ok(func_ptr) => eval_expr_typed(app.arg, responses, at1, rt) && {
                let (arg_r, at2) = spec_evaluate_expression(app.arg, responses, at1);
                match arg_r {
                    Result::Err(_) => true,
                    Result::Ok(_) => at2 < responses.len() ==> ref_type(responses[at2 as int])
                        == rt(func_ptr.type_id),
                }
            },
        }
    }
}

pub open spec fn eval_func_typed(
    func_expr: FuncExprView,
    responses: Seq<TermRefView>,
    at: nat,
    rt: spec_fn(TypeId) -> TypeId,
) -> bool
    decreases func_expr, 0int,
{
    match func_expr {
        FuncExprView::Func(_) => true,
        FuncExprView::App(app) => eval_app_typed(*app, responses, at, rt),
    }
}

/// The simulation transcript agrees with `rt` along the simulation of
/// `expr`: every return-type answer is `rt` of the callee's type.
pub open spec fn sim_expr_typed(
    expr: ExprView,
    responses: Seq<SimResponseView>,
    at: nat,
    rt: spec_fn(TypeId) -> TypeId,
) -> bool
    decreases expr, 1int,
{
    match expr {
        ExprView::Ref(_) => true,
        ExprView::App(app) => sim_app_typed(*app, responses, at, rt),
    }
}

pub open spec fn sim_app_typed(
    app: AppExprView,
    responses: Seq<SimResponseView>,
    at: nat,
    rt: spec_fn(TypeId) -> TypeId,
) -> bool
    decreases app, 2int,
{
    sim_func_typed(app.func, responses, at, rt) && {
        let (func_r, at1) = spec_simulate_func_expression(app.func, responses, at);
        match func_r {
            Result::Err(_) => true,
            Result::Ok(func_vec) => sim_expr_typed(app.arg, responses, at1, rt) && {
                let (arg_r, at2) = spec_simulate_expression(app.arg, responses, at1);
                match arg_r {
                    Result::Err(_) => true,
                    Result::Ok(_) => at2 + 1 < responses.len() ==> match responses[at2 + 1 as int] {
                        SimResponseView::RetType(t) => t == rt(func_vec.type_id),
                        _ => true,
                    },
                }
            },
        }
    }
}

pub open spec fn sim_func_typed(
    func_expr: FuncExprView,
    responses: Seq<SimResponseView>,
    at: nat,
    rt: spec_fn(TypeId) -> TypeId,
) -> bool
    decreases func_expr, 0int,
{
    match func_expr {
        FuncExprView::Func(_) => true,
        FuncExprView::App(app) => sim_app_typed(*app, responses, at, rt),
    }
}

/// A completed numeric application is typed by the return-type answer the
/// transcript gave for it.
proof fn lemma_apply_type(
    func_vec: crate::simulate::TypedVectorView,
    arg_vec: crate::simulate::TypedVectorView,
    responses: Seq<SimResponseView>,
    at: nat,
)
    ensures
        ({
            let (r, at9) = spec_apply_vectors(func_vec, arg_vec, responses, at);
            match r {
                Result::Ok(v) => at + 1 < responses.len() && match responses[at + 1 as int] {
                    SimResponseView::RetType(t) => v.type_id == t,
                    _ => false,
                },
                Result::Err(_) => true,
            }
        }),
{
}

/// Type consistency for applications.
proof fn lemma_type_consistency_app(
    app: AppExprView,
    eval_responses: Seq<TermRefView>,
    eval_at: nat,
    sim_responses: Seq<SimResponseView>,
    sim_at: nat,
    rt: spec_fn(TypeId) -> TypeId,
)
    requires
        eval_app_typed(app, eval_responses, eval_at, rt),
        sim_app_typed(app, sim_responses, sim_at, rt),
    ensures
        ({
            let (eval_r, e2) = spec_evaluate_app_expression(app, eval_responses, eval_at);
            let (sim_r, s2) = spec_simulate_app_expression(app, sim_responses, sim_at);
            match (eval_r, sim_r) {
                (Result::Ok(t), Result::Ok(v)) => ref_type(t) == v.type_id,
                _ => true,
            }
        }),
    decreases app, 2int,
{
    lemma_type_consistency_func(app.func, eval_responses, eval_at, sim_responses, sim_at, rt);
    let (efunc_r, eat1) = spec_evaluate_func_expression(app.func, eval_responses, eval_at);
    let (sfunc_r, sat1) = spec_simulate_func_expression(app.func, sim_responses, sim_at);
    match (efunc_r, sfunc_r) {
        (Result::Ok(func_ptr), Result::Ok(func_vec)) => {
            let (earg_r, eat2) = spec_evaluate_expression(app.arg, eval_responses, eat1);
            let (sarg_r, sat2) = spec_simulate_expression(app.arg, sim_responses, sat1);
            match (earg_r, sarg_r) {
                (Result::Ok(_), Result::Ok(arg_vec)) => {
                    lemma_apply_type(func_vec, arg_vec, sim_responses, sat2);
                },
                _ => {},
            }
        },
        _ => {},
    }
}

/// Type consistency for callee positions.
proof fn lemma_type_consistency_func(
    func_expr: FuncExprView,
    eval_responses: Seq<TermRefView>,
    eval_at: nat,
    sim_responses: Seq<SimResponseView>,
    sim_at: nat,
    rt: spec_fn(TypeId) -> TypeId,
)
    requires
        eval_func_typed(func_expr, eval_responses, eval_at, rt),
        sim_func_typed(func_expr, sim_responses, sim_at, rt),
    ensures
        ({
            let (eval_r, e2) = spec_evaluate_func_expression(func_expr, eval_responses, eval_at);
            let (sim_r, s2) = spec_simulate_func_expression(func_expr, sim_responses, sim_at);
            match (eval_r, sim_r) {
                (Result::Ok(p), Result::Ok(v)) => p.type_id == v.type_id,
                _ => true,
            }
        }),
    decreases func_expr, 0int,
{
    match func_expr {
        FuncExprView::Func(_) => {},
        FuncExprView::App(app) => {
            lemma_type_consistency_app(*app, eval_responses, eval_at, sim_responses, sim_at, rt);
        },
    }
}

/// Type consistency of the two evaluation modes: on transcripts that
/// agree with one return-type assignment, evaluating and simulating the
/// same expression, whenever both complete, yield results of the same
/// declared type.
pub proof fn lemma_eval_sim_type_consistency(
    expr: ExprView,
    eval_responses: Seq<TermRefView>,
    sim_responses: Seq<SimResponseView>,
    rt: spec_fn(TypeId) -> TypeId,
)
    requires
        eval_expr_typed(expr, eval_responses, 0, rt),
        sim_expr_typed(expr, sim_responses, 0, rt),
    ensures
        ({
            let (eval_r, e2) = spec_evaluate_expression(expr, eval_responses, 0);
            let (sim_r, s2) = spec_simulate_expression(expr, sim_responses, 0);
            match (eval_r, sim_r) {
                (Result::Ok(t), Result::Ok(v)) => ref_type(t) == v.type_id,
                _ => true,
            }
        }),
{
    match expr {
        ExprView::Ref(_) => {},
        ExprView::App(app) => {
            lemma_type_consistency_app(*app, eval_responses, 0, sim_responses, 0, rt);
        },
    }
}

} // verus!
