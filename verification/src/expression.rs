//! The expression tree: a tagged-union AST whose application nodes
//! exclusively own their children, together with the curried-application
//! builder and the textual renderers.

use vstd::prelude::*;
use vstd::string::*;
use crate::terms::{
    TermPointer, TermReference, TermRefView, render_term_ptr_spec, render_term_ref_spec,
    format_term_ptr, format_term_ref,
};

verus! {

/// A function position: either a concrete function term, or a function
/// obtained by reducing a nested application.  Vectors are excluded from
/// this position at the type level.
#[derive(Debug)]
pub enum FuncExpression {
    Func(TermPointer),
    App(AppExpression),
}

/// An expression: a term reference or an application.
#[derive(Debug)]
pub enum Expression {
    Ref(TermReference),
    App(AppExpression),
}

/// A binary application node, exclusively owning callee and argument.
#[derive(Debug)]
pub struct AppExpression {
    pub func_expr: Box<FuncExpression>,
    pub arg_expr: Box<Expression>,
}

/// Mathematical reading of a function-position expression.
pub enum FuncExprView {
    Func(TermPointer),
    App(Box<AppExprView>),
}

/// Mathematical reading of an expression.
pub enum ExprView {
    Ref(TermRefView),
    App(Box<AppExprView>),
}

/// Mathematical reading of an application node.
pub struct AppExprView {
    pub func: FuncExprView,
    pub arg: ExprView,
}

pub open spec fn func_expr_view(func_expr: FuncExpression) -> FuncExprView
    decreases func_expr,
{
    match func_expr {
        FuncExpression::Func(term_ptr) => FuncExprView::Func(term_ptr),
        FuncExpression::App(app_expr) => FuncExprView::App(Box::new(app_expr_view(app_expr))),
    }
}

pub open spec fn expr_view(expr: Expression) -> ExprView
    decreases expr,
{
    match expr {
        Expression::Ref(term_ref) => ExprView::Ref(term_ref@),
        Expression::App(app_expr) => ExprView::App(Box::new(app_expr_view(app_expr))),
    }
}

pub open spec fn app_expr_view(app_expr: AppExpression) -> AppExprView
    decreases app_expr,
{
    AppExprView { func: func_expr_view(*app_expr.func_expr), arg: expr_view(*app_expr.arg_expr) }
}

impl View for FuncExpression {
    type V = FuncExprView;

    open spec fn view(&self) -> FuncExprView {
        func_expr_view(*self)
    }
}

impl View for Expression {
    type V = ExprView;

    open spec fn view(&self) -> ExprView {
        expr_view(*self)
    }
}

impl DeepView for Expression {
    type V = ExprView;

    open spec fn deep_view(&self) -> ExprView {
        expr_view(*self)
    }
}

impl View for AppExpression {
    type V = AppExprView;

    open spec fn view(&self) -> AppExprView {
        app_expr_view(*self)
    }
}

/// How an expression is read in callee position: a vector reference has no
/// reading, everything else does.
pub open spec fn func_of_expression(expr: ExprView) -> Option<FuncExprView> {
    match expr {
        ExprView::Ref(term_ref) => match term_ref {
            TermRefView::Func(func_ptr) => Option::Some(FuncExprView::Func(func_ptr)),
            TermRefView::Vector(_, _) => Option::None,
        },
        ExprView::App(app) => Option::Some(FuncExprView::App(app)),
    }
}

impl AppExpression {
    /// Reads an expression in callee position; `None` rejects a bare vector.
    pub fn maybe_from_expression(expr: Expression) -> (r: Option<FuncExpression>)
        ensures
            match r {
                Option::Some(f) => func_of_expression(expr@) == Option::Some(f@),
                Option::None => func_of_expression(expr@) is None,
            },
    {
        match expr {
            Expression::Ref(term_ref) => match term_ref {
                TermReference::FuncRef(func_ptr) => Option::Some(FuncExpression::Func(func_ptr)),
                TermReference::VecRef(_, _) => Option::None,
            },
            Expression::App(app) => Option::Some(FuncExpression::App(app)),
        }
    }

    pub fn new(func_expr: FuncExpression, arg_expr: Expression) -> (r: AppExpression)
        ensures
            r@ == (AppExprView { func: func_expr@, arg: arg_expr@ }),
    {
        AppExpression { func_expr: Box::new(func_expr), arg_expr: Box::new(arg_expr) }
    }
}

/// Rendering of a function-position expression.
pub open spec fn render_func_expr_spec(func_expr: FuncExprView) -> Seq<char>
    decreases func_expr,
{
    match func_expr {
        FuncExprView::Func(term_ptr) => render_term_ptr_spec(term_ptr),
        FuncExprView::App(app_expr) => render_app_expr_spec(*app_expr),
    }
}

/// Rendering of an application: `(<callee> <argument>)`.
pub open spec fn render_app_expr_spec(app_expr: AppExprView) -> Seq<char>
    decreases app_expr,
{
    seq!['('] + render_func_expr_spec(app_expr.func) + seq![' '] + render_expr_spec(app_expr.arg)
        + seq![')']
}

/// Rendering of an expression.
pub open spec fn render_expr_spec(expr: ExprView) -> Seq<char>
    decreases expr,
{
    match expr {
        ExprView::Ref(term_ref) => render_term_ref_spec(term_ref),
        ExprView::App(app_expr) => render_app_expr_spec(*app_expr),
    }
}

pub fn format_func_expr(func_expr: &FuncExpression) -> (r: String)
    ensures
        r@ == render_func_expr_spec(func_expr@),
    decreases *func_expr,
{
    match func_expr {
        FuncExpression::Func(term_ptr) => format_term_ptr(term_ptr),
        FuncExpression::App(app_expr) => format_app_expr(app_expr),
    }
}

pub fn format_app_expr(app_expr: &AppExpression) -> (r: String)
    ensures
        r@ == render_app_expr_spec(app_expr@),
    decreases *app_expr,
{
    proof {
        reveal_strlit("(");
        reveal_strlit(" ");
        reveal_strlit(")");
    }
    let mut s = String::from_str("(");
    s.append(format_func_expr(&app_expr.func_expr).as_str());
    s.append(" ");
    s.append(format_expr(&app_expr.arg_expr).as_str());
    s.append(")");
    proof {
        assert(s@ =~= render_app_expr_spec(app_expr@));
    }
    s
}

pub fn format_expr(expr: &Expression) -> (r: String)
    ensures
        r@ == render_expr_spec(expr@),
    decreases *expr,
{
    match expr {
        Expression::Ref(term_ref) => format_term_ref(term_ref),
        Expression::App(app_expr) => format_app_expr(app_expr),
    }
}

/// Left fold of arguments onto an accumulated application: strict
/// left-associative currying.
pub open spec fn fold_app(acc: AppExprView, args: Seq<ExprView>) -> AppExprView
    decreases args.len(),
{
    if args.len() == 0 {
        acc
    } else {
        fold_app(
            AppExprView { func: FuncExprView::App(Box::new(acc)), arg: args[0] },
            args.skip(1),
        )
    }
}

/// What `build_application` returns: the left-associative curried tree, or
/// the error the sequence earns.
pub open spec fn build_application_spec(exprs: Seq<ExprView>) -> Result<AppExprView, Seq<char>> {
    if exprs.len() == 0 {
        Result::Err("Empty expression"@)
    } else if exprs.len() < 2 {
        Result::Err("Singleton expressions are disallowed"@)
    } else {
        match func_of_expression(exprs[0]) {
            Option::None => Result::Err("Cannot apply vector as a function"@),
            Option::Some(func_expr) => Result::Ok(
                fold_app(AppExprView { func: func_expr, arg: exprs[1] }, exprs.skip(2)),
            ),
        }
    }
}

/// Builds the curried application `(f a b c ...)` as
/// `App(App(App(f,a),b),c)`: the first element is the callee, each further
/// element is folded in left-associatively.
pub fn build_application(expr_vec: Vec<Expression>) -> (r: Result<AppExpression, String>)
    ensures
        match r {
            Result::Ok(app) => build_application_spec(expr_vec.deep_view()) == Result::<
                AppExprView,
                Seq<char>,
            >::Ok(app@),
            Result::Err(m) => build_application_spec(expr_vec.deep_view()) == Result::<
                AppExprView,
                Seq<char>,
            >::Err(m@),
        },
{
    let mut expr_vec = expr_vec;
    let ghost exprs0 = expr_vec.deep_view();
    if expr_vec.len() == 0 {
        return Result::Err(String::from_str("Empty expression"));
    }
    if expr_vec.len() < 2 {
        return Result::Err(String::from_str("Singleton expressions are disallowed"));
    }
    let func_expr = expr_vec.remove(0);
    proof {
        assert(expr_vec.deep_view() =~= exprs0.skip(1));
    }
    let maybe_func_expr = AppExpression::maybe_from_expression(func_expr);
    match maybe_func_expr {
        Option::None => Result::Err(String::from_str("Cannot apply vector as a function")),
        Option::Some(func_expr) => {
            let arg_expr = expr_vec.remove(0);
            proof {
                assert(expr_vec.deep_view() =~= exprs0.skip(2));
                assert(exprs0.skip(1)[0] == exprs0[1]);
            }
            let mut result = AppExpression::new(func_expr, arg_expr);
            while expr_vec.len() > 0
                invariant
                    build_application_spec(exprs0) == Result::<AppExprView, Seq<char>>::Ok(
                        fold_app(result@, expr_vec.deep_view()),
                    ),
                decreases expr_vec.len(),
            {
                let ghost before = expr_vec.deep_view();
                let next_arg = expr_vec.remove(0);
                let prior = FuncExpression::App(result);
                result = AppExpression::new(prior, next_arg);
                proof {
                    assert(expr_vec.deep_view() =~= before.skip(1));
                    assert(before[0] == next_arg@);
                }
            }
            proof {
                assert(expr_vec.deep_view() =~= Seq::<ExprView>::empty());
                assert(fold_app(result@, expr_vec.deep_view()) == result@);
            }
            Result::Ok(result)
        },
    }
}

} // verus!
