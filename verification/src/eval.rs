//! The deterministic evaluator: a callee-first, argument-second walk of the
//! expression tree that delegates every application to the external
//! term-application capability.
//!
//! The capability itself is out of scope: the evaluator is driven by a
//! transcript of its responses, consumed in the order the applications are
//! delegated.  When the transcript runs out, the evaluator pauses and
//! reports exactly which application it needs answered next, so a driver
//! can ask the external model and run the evaluator again on the extended
//! transcript.  Every decision the evaluator makes is thereby verified for
//! every possible response.

use vstd::prelude::*;
use vstd::string::*;
use crate::expression::{
    AppExpression, AppExprView, Expression, ExprView, FuncExpression, FuncExprView,
    format_app_expr, render_app_expr_spec,
};
use crate::terms::{TermPointer, TermReference, TermRefView};
use crate::text::str_concat;

verus! {

/// Why an evaluator run stopped short of a result: the transcript ran out
/// at the given application, or the expression is genuinely faulty.
#[derive(Debug)]
pub enum EvalInterrupt {
    NeedApply(TermPointer, TermReference),
    Failure(String),
}

/// Mathematical reading of an interrupt.
pub enum EvalInterruptView {
    NeedApply(TermPointer, TermRefView),
    Failure(Seq<char>),
}

impl View for EvalInterrupt {
    type V = EvalInterruptView;

    open spec fn view(&self) -> EvalInterruptView {
        match self {
            EvalInterrupt::NeedApply(p, a) => EvalInterruptView::NeedApply(*p, a@),
            EvalInterrupt::Failure(m) => EvalInterruptView::Failure(m@),
        }
    }
}

/// The message reported when a callee reduces to a vector.
pub open spec fn expected_function_msg(app: AppExprView) -> Seq<char> {
    "Expected function, but obtained vector from evaluating "@ + render_app_expr_spec(app)
}

/// Evaluation of an expression against the responses from `at` onward:
/// a reference evaluates to itself, an application is delegated.
pub open spec fn spec_evaluate_expression(
    expr: ExprView,
    responses: Seq<TermRefView>,
    at: nat,
) -> (Result<TermRefView, EvalInterruptView>, nat)
    decreases expr,
{
    match expr {
        ExprView::Ref(term_ref) => (Result::Ok(term_ref), at),
        ExprView::App(app) => spec_evaluate_app_expression(*app, responses, at),
    }
}

/// Evaluation of an application: callee first, then the argument, then one
/// response of the external capability.
pub open spec fn spec_evaluate_app_expression(
    app: AppExprView,
    responses: Seq<TermRefView>,
    at: nat,
) -> (Result<TermRefView, EvalInterruptView>, nat)
    decreases app,
{
    let (func_r, at1) = spec_evaluate_func_expression(app.func, responses, at);
    match func_r {
        Result::Err(i) => (Result::Err(i), at1),
        Result::Ok(func_ptr) => {
            let (arg_r, at2) = spec_evaluate_expression(app.arg, responses, at1);
            match arg_r {
                Result::Err(i) => (Result::Err(i), at2),
                Result::Ok(arg_ref) => {
                    if at2 < responses.len() {
                        (Result::Ok(responses[at2 as int]), at2 + 1)
                    } else {
                        (
                            Result::Err(EvalInterruptView::NeedApply(func_ptr, arg_ref)),
                            at2,
                        )
                    }
                },
            }
        },
    }
}

/// Evaluation of a callee position: a concrete function term stands for
/// itself; a nested application must reduce to a function reference, and a
/// vector result is the `ExpectedFunctionGotVector` failure, quoting the
/// rendered sub-expression.
pub open spec fn spec_evaluate_func_expression(
    func_expr: FuncExprView,
    responses: Seq<TermRefView>,
    at: nat,
) -> (Result<TermPointer, EvalInterruptView>, nat)
    decreases func_expr,
{
    match func_expr {
        FuncExprView::Func(term_ptr) => (Result::Ok(term_ptr), at),
        FuncExprView::App(app) => {
            let (r, at1) = spec_evaluate_app_expression(*app, responses, at);
            match r {
                Result::Err(i) => (Result::Err(i), at1),
                Result::Ok(TermRefView::Vector(t, v)) => (
                    Result::Err(EvalInterruptView::Failure(expected_function_msg(*app))),
                    at1,
                ),
                Result::Ok(TermRefView::Func(func_ptr)) => (Result::Ok(func_ptr), at1),
            }
        },
    }
}

/// The evaluator's cursor never retreats and never passes the transcript's
/// end.
pub proof fn lemma_eval_expr_cursor(expr: ExprView, responses: Seq<TermRefView>, at: nat)
    requires
        at <= responses.len(),
    ensures
        at <= spec_evaluate_expression(expr, responses, at).1 <= responses.len(),
    decreases expr,
{
    match expr {
        ExprView::Ref(_) => {},
        ExprView::App(app) => {
            lemma_eval_app_cursor(*app, responses, at);
        },
    }
}

pub proof fn lemma_eval_app_cursor(app: AppExprView, responses: Seq<TermRefView>, at: nat)
    requires
        at <= responses.len(),
    ensures
        at <= spec_evaluate_app_expression(app, responses, at).1 <= responses.len(),
    decreases app,
{
    lemma_eval_func_cursor(app.func, responses, at);
    let (func_r, at1) = spec_evaluate_func_expression(app.func, responses, at);
    if func_r is Ok {
        lemma_eval_expr_cursor(app.arg, responses, at1);
    }
}

pub proof fn lemma_eval_func_cursor(
    func_expr: FuncExprView,
    responses: Seq<TermRefView>,
    at: nat,
)
    requires
        at <= responses.len(),
    ensures
        at <= spec_evaluate_func_expression(func_expr, responses, at).1 <= responses.len(),
    decreases func_expr,
{
    match func_expr {
        FuncExprView::Func(_) => {},
        FuncExprView::App(app) => {
            lemma_eval_app_cursor(*app, responses, at);
        },
    }
}

/// Evaluates an expression against a transcript of external-apply
/// responses, returning the result (or interrupt) and the new cursor.
pub fn evaluate_expression(expr: Expression, responses: &Vec<TermReference>, at: usize) -> (r: (
    Result<TermReference, EvalInterrupt>,
    usize,
))
    requires
        at <= responses@.len(),
    ensures
        ({
            let (sr, sat) = spec_evaluate_expression(expr@, responses.deep_view(), at as nat);
            &&& r.1 == sat
            &&& match r.0 {
                Result::Ok(t) => sr == Result::<TermRefView, EvalInterruptView>::Ok(t@),
                Result::Err(i) => sr == Result::<TermRefView, EvalInterruptView>::Err(i@),
            }
        }),
    decreases expr,
{
    match expr {
        Expression::Ref(term_ref) => (Result::Ok(term_ref), at),
        Expression::App(app_expression) => evaluate_app_expression(app_expression, responses, at),
    }
}

/// Evaluates an application node; the evaluation order is callee first,
/// then argument, then the external capability's response.
pub fn evaluate_app_expression(
    app_expr: AppExpression,
    responses: &Vec<TermReference>,
    at: usize,
) -> (r: (Result<TermReference, EvalInterrupt>, usize))
    requires
        at <= responses@.len(),
    ensures
        ({
            let (sr, sat) = spec_evaluate_app_expression(app_expr@, responses.deep_view(), at as nat);
            &&& r.1 == sat
            &&& match r.0 {
                Result::Ok(t) => sr == Result::<TermRefView, EvalInterruptView>::Ok(t@),
                Result::Err(i) => sr == Result::<TermRefView, EvalInterruptView>::Err(i@),
            }
        }),
    decreases app_expr,
{
    let func_expr = *app_expr.func_expr;
    let arg_expr = *app_expr.arg_expr;
    let (func_r, at1) = evaluate_func_expression(func_expr, responses, at);
    match func_r {
        Result::Err(i) => (Result::Err(i), at1),
        Result::Ok(func_ptr) => {
            proof {
                lemma_eval_func_cursor(app_expr@.func, responses.deep_view(), at as nat);
            }
            let (arg_r, at2) = evaluate_expression(arg_expr, responses, at1);
            match arg_r {
                Result::Err(i) => (Result::Err(i), at2),
                Result::Ok(arg_ref) => {
                    proof {
                        lemma_eval_expr_cursor(app_expr@.arg, responses.deep_view(), at1 as nat);
                    }
                    if at2 < responses.len() {
                        (Result::Ok(responses[at2].clone()), at2 + 1)
                    } else {
                        (Result::Err(EvalInterrupt::NeedApply(func_ptr, arg_ref)), at2)
                    }
                },
            }
        },
    }
}

/// Evaluates a callee position to a function pointer.
pub fn evaluate_func_expression(
    func_expr: FuncExpression,
    responses: &Vec<TermReference>,
    at: usize,
) -> (r: (Result<TermPointer, EvalInterrupt>, usize))
    requires
        at <= responses@.len(),
    ensures
        ({
            let (sr, sat) = spec_evaluate_func_expression(
                func_expr@,
                responses.deep_view(),
                at as nat,
            );
            &&& r.1 == sat
            &&& match r.0 {
                Result::Ok(p) => sr == Result::<TermPointer, EvalInterruptView>::Ok(p),
                Result::Err(i) => sr == Result::<TermPointer, EvalInterruptView>::Err(i@),
            }
        }),
    decreases func_expr,
{
    match func_expr {
        FuncExpression::Func(term_ptr) => (Result::Ok(term_ptr), at),
        FuncExpression::App(app_expr) => {
            let formatted_app = format_app_expr(&app_expr);
            let (r, at1) = evaluate_app_expression(app_expr, responses, at);
            match r {
                Result::Err(i) => (Result::Err(i), at1),
                Result::Ok(result_ref) => match result_ref {
                    TermReference::VecRef(_, _) => {
                        let m = str_concat(
                            "Expected function, but obtained vector from evaluating ",
                            formatted_app.as_str(),
                        );
                        (Result::Err(EvalInterrupt::Failure(m)), at1)
                    },
                    TermReference::FuncRef(func_ptr) => (Result::Ok(func_ptr), at1),
                },
            }
        },
    }
}


/// A paused result: the transcript ran out.
pub open spec fn paused<T>(r: Result<T, EvalInterruptView>) -> bool {
    match r {
        Result::Err(EvalInterruptView::NeedApply(_, _)) => true,
        _ => false,
    }
}

/// Extending the transcript never changes a completed run: a driver that
/// answers the reported application and runs the evaluator again replays
/// the finished prefix exactly.
pub proof fn lemma_eval_expr_extends(
    expr: ExprView,
    responses: Seq<TermRefView>,
    more: Seq<TermRefView>,
    at: nat,
)
    requires
        at <= responses.len(),
    ensures
        ({
            let (r, c) = spec_evaluate_expression(expr, responses, at);
            !paused(r) ==> spec_evaluate_expression(expr, responses + more, at) == (r, c)
        }),
    decreases expr,
{
    match expr {
        ExprView::Ref(_) => {},
        ExprView::App(app) => {
            lemma_eval_app_extends(*app, responses, more, at);
        },
    }
}

pub proof fn lemma_eval_app_extends(
    app: AppExprView,
    responses: Seq<TermRefView>,
    more: Seq<TermRefView>,
    at: nat,
)
    requires
        at <= responses.len(),
    ensures
        ({
            let (r, c) = spec_evaluate_app_expression(app, responses, at);
            !paused(r) ==> spec_evaluate_app_expression(app, responses + more, at) == (r, c)
        }),
    decreases app,
{
    let (func_r, at1) = spec_evaluate_func_expression(app.func, responses, at);
    lemma_eval_func_extends(app.func, responses, more, at);
    lemma_eval_func_cursor(app.func, responses, at);
    if !paused(func_r) {
        match func_r {
            Result::Ok(func_ptr) => {
                let (arg_r, at2) = spec_evaluate_expression(app.arg, responses, at1);
                lemma_eval_expr_extends(app.arg, responses, more, at1);
                lemma_eval_expr_cursor(app.arg, responses, at1);
                if !paused(arg_r) {
                    match arg_r {
                        Result::Ok(arg_ref) => {
                            if at2 < responses.len() {
                                assert((responses + more)[at2 as int] == responses[at2 as int]);
                            }
                        },
                        Result::Err(_) => {},
                    }
                }
            },
            Result::Err(_) => {},
        }
    }
}

pub proof fn lemma_eval_func_extends(
    func_expr: FuncExprView,
    responses: Seq<TermRefView>,
    more: Seq<TermRefView>,
    at: nat,
)
    requires
        at <= responses.len(),
    ensures
        ({
            let (r, c) = spec_evaluate_func_expression(func_expr, responses, at);
            !paused(r) ==> spec_evaluate_func_expression(func_expr, responses + more, at) == (
            r,
            c,
            )
        }),
    decreases func_expr,
{
    match func_expr {
        FuncExprView::Func(_) => {},
        FuncExprView::App(app) => {
            lemma_eval_app_extends(*app, responses, more, at);
        },
    }
}

} // verus!
