//! The stochastic simulator: walks the expression tree drawing samples
//! from the external probabilistic embeddings and propagating them through
//! learned linear maps, producing a fully-expanded typed vector.
//!
//! All numeric work — sampling, decoding vector literals, feature
//! expansion, matrix-vector products, elaboration matrices — belongs to
//! the external model and its numeric kernel, so the simulator is driven
//! by a transcript of capability responses, exactly as the deterministic
//! evaluator is.  When the transcript runs out it pauses and reports the
//! request a driver must answer next.  Every decision — which capability
//! is consulted when, every dimension check, and every failure — is
//! verified for every possible response.

use vstd::prelude::*;
use vstd::string::*;
use crate::expression::{
    AppExpression, AppExprView, Expression, ExprView, FuncExpression, FuncExprView,
    format_app_expr, render_app_expr_spec,
};
use crate::terms::{TermPointer, TermReference, TermRefView, TypeId, TypedVector};
use crate::text::str_concat;

verus! {

/// A matrix of single-precision bit patterns, row-major.
#[derive(Debug)]
pub struct MatrixBits {
    pub rows: usize,
    pub cols: usize,
    pub data: Vec<u32>,
}

/// Mathematical reading of a matrix of bit patterns.
pub struct MatrixBitsView {
    pub rows: usize,
    pub cols: usize,
    pub data: Seq<u32>,
}

impl View for MatrixBits {
    type V = MatrixBitsView;

    open spec fn view(&self) -> MatrixBitsView {
        MatrixBitsView { rows: self.rows, cols: self.cols, data: self.data@ }
    }
}

/// Mathematical reading of a typed vector.
pub struct TypedVectorView {
    pub type_id: TypeId,
    pub vec: Seq<u32>,
}

impl View for TypedVector {
    type V = TypedVectorView;

    open spec fn view(&self) -> TypedVectorView {
        TypedVectorView { type_id: self.type_id, vec: self.vec@ }
    }
}

/// One request to the external model or its numeric kernel.
#[derive(Debug)]
pub enum SimRequest {
    /// One stochastic draw from the embedding of a term.
    Sample(TermPointer),
    /// The numeric decoding of a vector literal's components.
    DecodeLiterals(Vec<String>),
    /// Output and feature dimensions of a function-typed space.
    FuncSpaceInfo(TypeId),
    /// Feature expansion of a base vector of the given type.
    Features(TypeId, Vec<u32>),
    /// The return type of a function type.
    RetType(TypeId),
    /// Whether the type is a raw vector type.
    IsVectorType(TypeId),
    /// The mean elaboration matrix of a compressed space.
    ElaboratorMean(TypeId),
    /// A matrix-vector product.
    MatVecMul(MatrixBits, Vec<u32>),
}

/// Mathematical reading of a request.
pub enum SimRequestView {
    Sample(TermPointer),
    DecodeLiterals(Seq<Seq<char>>),
    FuncSpaceInfo(TypeId),
    Features(TypeId, Seq<u32>),
    RetType(TypeId),
    IsVectorType(TypeId),
    ElaboratorMean(TypeId),
    MatVecMul(MatrixBitsView, Seq<u32>),
}

impl View for SimRequest {
    type V = SimRequestView;

    open spec fn view(&self) -> SimRequestView {
        match self {
            SimRequest::Sample(p) => SimRequestView::Sample(*p),
            SimRequest::DecodeLiterals(ls) => SimRequestView::DecodeLiterals(ls.deep_view()),
            SimRequest::FuncSpaceInfo(t) => SimRequestView::FuncSpaceInfo(*t),
            SimRequest::Features(t, v) => SimRequestView::Features(*t, v@),
            SimRequest::RetType(t) => SimRequestView::RetType(*t),
            SimRequest::IsVectorType(t) => SimRequestView::IsVectorType(*t),
            SimRequest::ElaboratorMean(t) => SimRequestView::ElaboratorMean(*t),
            SimRequest::MatVecMul(m, v) => SimRequestView::MatVecMul(m@, v@),
        }
    }
}

/// One response from the external model or its numeric kernel.
#[derive(Debug)]
pub enum SimResponse {
    Sample(Vec<u32>),
    DecodedLiterals(Vec<u32>),
    FuncSpaceInfo(usize, usize),
    Features(Vec<u32>),
    RetType(TypeId),
    IsVectorType(bool),
    ElaboratorMean(MatrixBits),
    Product(Vec<u32>),
}

/// Mathematical reading of a response.
pub enum SimResponseView {
    Sample(Seq<u32>),
    DecodedLiterals(Seq<u32>),
    FuncSpaceInfo(usize, usize),
    Features(Seq<u32>),
    RetType(TypeId),
    IsVectorType(bool),
    ElaboratorMean(MatrixBitsView),
    Product(Seq<u32>),
}

impl View for SimResponse {
    type V = SimResponseView;

    open spec fn view(&self) -> SimResponseView {
        match self {
            SimResponse::Sample(v) => SimResponseView::Sample(v@),
            SimResponse::DecodedLiterals(v) => SimResponseView::DecodedLiterals(v@),
            SimResponse::FuncSpaceInfo(o, f) => SimResponseView::FuncSpaceInfo(*o, *f),
            SimResponse::Features(v) => SimResponseView::Features(v@),
            SimResponse::RetType(t) => SimResponseView::RetType(*t),
            SimResponse::IsVectorType(b) => SimResponseView::IsVectorType(*b),
            SimResponse::ElaboratorMean(m) => SimResponseView::ElaboratorMean(m@),
            SimResponse::Product(v) => SimResponseView::Product(v@),
        }
    }
}

impl DeepView for SimResponse {
    type V = SimResponseView;

    open spec fn deep_view(&self) -> SimResponseView {
        self.view()
    }
}

/// Why a simulator run stopped short of a result.
#[derive(Debug)]
pub enum SimInterrupt {
    NeedCapability(SimRequest),
    Failure(String),
}

/// Mathematical reading of an interrupt.
pub enum SimInterruptView {
    NeedCapability(SimRequestView),
    Failure(Seq<char>),
}

impl View for SimInterrupt {
    type V = SimInterruptView;

    open spec fn view(&self) -> SimInterruptView {
        match self {
            SimInterrupt::NeedCapability(rq) => SimInterruptView::NeedCapability(rq@),
            SimInterrupt::Failure(m) => SimInterruptView::Failure(m@),
        }
    }
}

pub open spec fn msg_mismatched_response() -> Seq<char> {
    "Mismatched response from the model capability"@
}

pub open spec fn msg_sample_dim_mismatch() -> Seq<char> {
    "Dimension mismatch: function sample does not fill its matrix"@
}

pub open spec fn msg_feature_dim_mismatch() -> Seq<char> {
    "Dimension mismatch: feature vector does not match the function matrix"@
}

pub open spec fn msg_elaborator_dim_mismatch() -> Seq<char> {
    "Dimension mismatch: elaborator matrix does not match the compressed vector"@
}

/// The message reported when a callee simulates to a raw vector.
pub open spec fn expected_function_sim_msg(app: AppExprView) -> Seq<char> {
    "Expected function, but obtained vector from simulating "@ + render_app_expr_spec(app)
}

pub type SimStep<T> = (Result<T, SimInterruptView>, nat);

/// Simulation of a bare function term: one draw from its embedding; the
/// sample lives in the term's own type.
pub open spec fn spec_simulate_term_pointer(
    term_ptr: TermPointer,
    responses: Seq<SimResponseView>,
    at: nat,
) -> SimStep<TypedVectorView> {
    if at >= responses.len() {
        (
            Result::Err(SimInterruptView::NeedCapability(SimRequestView::Sample(term_ptr))),
            at,
        )
    } else {
        match responses[at as int] {
            SimResponseView::Sample(v) => (
                Result::Ok(TypedVectorView { type_id: term_ptr.type_id, vec: v }),
                at + 1,
            ),
            _ => (Result::Err(SimInterruptView::Failure(msg_mismatched_response())), at),
        }
    }
}

/// Simulation of a term reference: a function reference draws a sample; a
/// vector literal is decoded into plain numeric components.
pub open spec fn spec_simulate_term_reference(
    term_ref: TermRefView,
    responses: Seq<SimResponseView>,
    at: nat,
) -> SimStep<TypedVectorView> {
    match term_ref {
        TermRefView::Func(func_ptr) => spec_simulate_term_pointer(func_ptr, responses, at),
        TermRefView::Vector(type_id, literals) => {
            if at >= responses.len() {
                (
                    Result::Err(
                        SimInterruptView::NeedCapability(SimRequestView::DecodeLiterals(literals)),
                    ),
                    at,
                )
            } else {
                match responses[at as int] {
                    SimResponseView::DecodedLiterals(v) => (
                        Result::Ok(TypedVectorView { type_id, vec: v }),
                        at + 1,
                    ),
                    _ => (Result::Err(SimInterruptView::Failure(msg_mismatched_response())), at),
                }
            }
        },
    }
}

/// Expansion of a compressed vector to full dimensionality: a raw vector
/// type keeps it; any other type is elaborated through its mean matrix.
pub open spec fn spec_expand_compressed_vector(
    type_id: TypeId,
    vec: Seq<u32>,
    responses: Seq<SimResponseView>,
    at: nat,
) -> SimStep<TypedVectorView> {
    if at >= responses.len() {
        (
            Result::Err(
                SimInterruptView::NeedCapability(SimRequestView::IsVectorType(type_id)),
            ),
            at,
        )
    } else {
        match responses[at as int] {
            SimResponseView::IsVectorType(b) => {
                if b {
                    (Result::Ok(TypedVectorView { type_id, vec }), at + 1)
                } else {
                    spec_elaborate(type_id, vec, responses, at + 1)
                }
            },
            _ => (Result::Err(SimInterruptView::Failure(msg_mismatched_response())), at),
        }
    }
}

/// The elaboration itself: fetch the mean matrix, check its shape against
/// the compressed vector, and take the product.
pub open spec fn spec_elaborate(
    type_id: TypeId,
    vec: Seq<u32>,
    responses: Seq<SimResponseView>,
    at: nat,
) -> SimStep<TypedVectorView> {
    if at >= responses.len() {
        (
            Result::Err(
                SimInterruptView::NeedCapability(SimRequestView::ElaboratorMean(type_id)),
            ),
            at,
        )
    } else {
        match responses[at as int] {
            SimResponseView::ElaboratorMean(m) => {
                if m.data.len() != m.rows * m.cols || m.cols != vec.len() {
                    (
                        Result::Err(SimInterruptView::Failure(msg_elaborator_dim_mismatch())),
                        at + 1,
                    )
                } else {
                    let (prod_r, at2) = spec_mat_vec(m, vec, responses, at + 1);
                    match prod_r {
                        Result::Ok(p) => (
                            Result::Ok(TypedVectorView { type_id, vec: p }),
                            at2,
                        ),
                        Result::Err(i) => (Result::Err(i), at2),
                    }
                }
            },
            _ => (Result::Err(SimInterruptView::Failure(msg_mismatched_response())), at),
        }
    }
}

/// One matrix-vector product by the numeric kernel; the product of an
/// `r`-by-`c` matrix must come back with `r` components.  The result is
/// bare: the caller types it.
pub open spec fn spec_mat_vec(
    m: MatrixBitsView,
    vec: Seq<u32>,
    responses: Seq<SimResponseView>,
    at: nat,
) -> SimStep<Seq<u32>> {
    if at >= responses.len() {
        (
            Result::Err(SimInterruptView::NeedCapability(SimRequestView::MatVecMul(m, vec))),
            at,
        )
    } else {
        match responses[at as int] {
            SimResponseView::Product(p) => {
                if p.len() == m.rows {
                    (Result::Ok(p), at + 1)
                } else {
                    (Result::Err(SimInterruptView::Failure(msg_mismatched_response())), at + 1)
                }
            },
            _ => (Result::Err(SimInterruptView::Failure(msg_mismatched_response())), at),
        }
    }
}

/// Simulation of an expression.
pub open spec fn spec_simulate_expression(
    expr: ExprView,
    responses: Seq<SimResponseView>,
    at: nat,
) -> SimStep<TypedVectorView>
    decreases expr, 1int,
{
    match expr {
        ExprView::Ref(term_ref) => spec_simulate_term_reference(term_ref, responses, at),
        ExprView::App(app) => spec_simulate_app_expression(*app, responses, at),
    }
}

/// Simulation of an application: simulate the callee, simulate the
/// argument, reshape the callee's sample into its function matrix, expand
/// the argument into feature space, multiply, and expand the compressed
/// result in the return type's space.
pub open spec fn spec_simulate_app_expression(
    app: AppExprView,
    responses: Seq<SimResponseView>,
    at: nat,
) -> SimStep<TypedVectorView>
    decreases app, 2int,
{
    let (func_r, at1) = spec_simulate_func_expression(app.func, responses, at);
    match func_r {
        Result::Err(i) => (Result::Err(i), at1),
        Result::Ok(func_vec) => {
            let (arg_r, at2) = spec_simulate_expression(app.arg, responses, at1);
            match arg_r {
                Result::Err(i) => (Result::Err(i), at2),
                Result::Ok(arg_vec) => spec_apply_vectors(func_vec, arg_vec, responses, at2),
            }
        },
    }
}

/// The numeric application of one simulated callee to one simulated
/// argument.
pub open spec fn spec_apply_vectors(
    func_vec: TypedVectorView,
    arg_vec: TypedVectorView,
    responses: Seq<SimResponseView>,
    at: nat,
) -> SimStep<TypedVectorView> {
    if at >= responses.len() {
        (
            Result::Err(
                SimInterruptView::NeedCapability(
                    SimRequestView::FuncSpaceInfo(func_vec.type_id),
                ),
            ),
            at,
        )
    } else {
        match responses[at as int] {
            SimResponseView::FuncSpaceInfo(out_dim, feat_dim) => {
                let at1 = at + 1;
                if at1 >= responses.len() {
                    (
                        Result::Err(
                            SimInterruptView::NeedCapability(
                                SimRequestView::RetType(func_vec.type_id),
                            ),
                        ),
                        at1,
                    )
                } else {
                    match responses[at1 as int] {
                        SimResponseView::RetType(ret_type_id) => {
                            let at2 = at1 + 1;
                            if func_vec.vec.len() != out_dim * feat_dim {
                                (
                                    Result::Err(
                                        SimInterruptView::Failure(msg_sample_dim_mismatch()),
                                    ),
                                    at2,
                                )
                            } else {
                                spec_apply_features(
                                    func_vec,
                                    arg_vec,
                                    out_dim,
                                    feat_dim,
                                    ret_type_id,
                                    responses,
                                    at2,
                                )
                            }
                        },
                        _ => (
                            Result::Err(SimInterruptView::Failure(msg_mismatched_response())),
                            at1,
                        ),
                    }
                }
            },
            _ => (Result::Err(SimInterruptView::Failure(msg_mismatched_response())), at),
        }
    }
}

/// Feature expansion of the argument, then the product and the final
/// expansion in the return type's space.
pub open spec fn spec_apply_features(
    func_vec: TypedVectorView,
    arg_vec: TypedVectorView,
    out_dim: usize,
    feat_dim: usize,
    ret_type_id: TypeId,
    responses: Seq<SimResponseView>,
    at: nat,
) -> SimStep<TypedVectorView> {
    if at >= responses.len() {
        (
            Result::Err(
                SimInterruptView::NeedCapability(
                    SimRequestView::Features(arg_vec.type_id, arg_vec.vec),
                ),
            ),
            at,
        )
    } else {
        match responses[at as int] {
            SimResponseView::Features(feats) => {
                let at1 = at + 1;
                if feats.len() != feat_dim {
                    (Result::Err(SimInterruptView::Failure(msg_feature_dim_mismatch())), at1)
                } else {
                    let func_mat = MatrixBitsView {
                        rows: out_dim,
                        cols: feat_dim,
                        data: func_vec.vec,
                    };
                    let (prod_r, at2) = spec_mat_vec(func_mat, feats, responses, at1);
                    match prod_r {
                        Result::Err(i) => (Result::Err(i), at2),
                        Result::Ok(compressed) => spec_expand_compressed_vector(
                            ret_type_id,
                            compressed,
                            responses,
                            at2,
                        ),
                    }
                }
            },
            _ => (Result::Err(SimInterruptView::Failure(msg_mismatched_response())), at),
        }
    }
}

/// Simulation of a callee position: a bare function term samples directly;
/// an application is simulated recursively and must land in a function
/// space — a raw vector type is the `ExpectedFunctionGotVector` failure.
pub open spec fn spec_simulate_func_expression(
    func_expr: FuncExprView,
    responses: Seq<SimResponseView>,
    at: nat,
) -> SimStep<TypedVectorView>
    decreases func_expr, 0int,
{
    match func_expr {
        FuncExprView::Func(term_ptr) => spec_simulate_term_pointer(term_ptr, responses, at),
        FuncExprView::App(app) => {
            let (r, at1) = spec_simulate_app_expression(*app, responses, at);
            match r {
                Result::Err(i) => (Result::Err(i), at1),
                Result::Ok(result_vec) => {
                    if at1 >= responses.len() {
                        (
                            Result::Err(
                                SimInterruptView::NeedCapability(
                                    SimRequestView::IsVectorType(result_vec.type_id),
                                ),
                            ),
                            at1,
                        )
                    } else {
                        match responses[at1 as int] {
                            SimResponseView::IsVectorType(b) => {
                                if b {
                                    (
                                        Result::Err(
                                            SimInterruptView::Failure(
                                                expected_function_sim_msg(*app),
                                            ),
                                        ),
                                        at1 + 1,
                                    )
                                } else {
                                    (Result::Ok(result_vec), at1 + 1)
                                }
                            },
                            _ => (
                                Result::Err(
                                    SimInterruptView::Failure(msg_mismatched_response()),
                                ),
                                at1,
                            ),
                        }
                    }
                },
            }
        },
    }
}


// ------------------------------------------------------------------
// Cursor bounds: the simulator's cursor never retreats and never passes
// the transcript's end.
// ------------------------------------------------------------------

pub proof fn lemma_sim_mat_vec_cursor(
    m: MatrixBitsView,
    vec: Seq<u32>,
    responses: Seq<SimResponseView>,
    at: nat,
)
    requires
        at <= responses.len(),
    ensures
        at <= spec_mat_vec(m, vec, responses, at).1 <= responses.len(),
{
}

pub proof fn lemma_sim_elaborate_cursor(
    type_id: TypeId,
    vec: Seq<u32>,
    responses: Seq<SimResponseView>,
    at: nat,
)
    requires
        at <= responses.len(),
    ensures
        at <= spec_elaborate(type_id, vec, responses, at).1 <= responses.len(),
{
    if at < responses.len() {
        match responses[at as int] {
            SimResponseView::ElaboratorMean(m) => {
                lemma_sim_mat_vec_cursor(m, vec, responses, at + 1);
            },
            _ => {},
        }
    }
}

pub proof fn lemma_sim_expand_cursor(
    type_id: TypeId,
    vec: Seq<u32>,
    responses: Seq<SimResponseView>,
    at: nat,
)
    requires
        at <= responses.len(),
    ensures
        at <= spec_expand_compressed_vector(type_id, vec, responses, at).1 <= responses.len(),
{
    if at < responses.len() {
        lemma_sim_elaborate_cursor(type_id, vec, responses, at + 1);
    }
}

pub proof fn lemma_sim_apply_features_cursor(
    func_vec: TypedVectorView,
    arg_vec: TypedVectorView,
    out_dim: usize,
    feat_dim: usize,
    ret_type_id: TypeId,
    responses: Seq<SimResponseView>,
    at: nat,
)
    requires
        at <= responses.len(),
    ensures
        at <= spec_apply_features(
            func_vec,
            arg_vec,
            out_dim,
            feat_dim,
            ret_type_id,
            responses,
            at,
        ).1 <= responses.len(),
{
    if at < responses.len() {
        match responses[at as int] {
            SimResponseView::Features(feats) => {
                if feats.len() == feat_dim {
                    let func_mat = MatrixBitsView {
                        rows: out_dim,
                        cols: feat_dim,
                        data: func_vec.vec,
                    };
                    lemma_sim_mat_vec_cursor(func_mat, feats, responses, at + 1);
                    let (prod_r, at2) = spec_mat_vec(func_mat, feats, responses, at + 1);
                    match prod_r {
                        Result::Ok(compressed) => {
                            lemma_sim_expand_cursor(ret_type_id, compressed, responses, at2);
                        },
                        Result::Err(_) => {},
                    }
                }
            },
            _ => {},
        }
    }
}

pub proof fn lemma_sim_apply_cursor(
    func_vec: TypedVectorView,
    arg_vec: TypedVectorView,
    responses: Seq<SimResponseView>,
    at: nat,
)
    requires
        at <= responses.len(),
    ensures
        at <= spec_apply_vectors(func_vec, arg_vec, responses, at).1 <= responses.len(),
{
    if at < responses.len() {
        match responses[at as int] {
            SimResponseView::FuncSpaceInfo(out_dim, feat_dim) => {
                if at + 1 < responses.len() {
                    match responses[at + 1 as int] {
                        SimResponseView::RetType(ret_type_id) => {
                            if func_vec.vec.len() == out_dim * feat_dim {
                                lemma_sim_apply_features_cursor(
                                    func_vec,
                                    arg_vec,
                                    out_dim,
                                    feat_dim,
                                    ret_type_id,
                                    responses,
                                    at + 2,
                                );
                            }
                        },
                        _ => {},
                    }
                }
            },
            _ => {},
        }
    }
}

pub proof fn lemma_sim_expr_cursor(expr: ExprView, responses: Seq<SimResponseView>, at: nat)
    requires
        at <= responses.len(),
    ensures
        at <= spec_simulate_expression(expr, responses, at).1 <= responses.len(),
    decreases expr, 1int,
{
    match expr {
        ExprView::Ref(_) => {},
        ExprView::App(app) => {
            lemma_sim_app_cursor(*app, responses, at);
        },
    }
}

pub proof fn lemma_sim_app_cursor(app: AppExprView, responses: Seq<SimResponseView>, at: nat)
    requires
        at <= responses.len(),
    ensures
        at <= spec_simulate_app_expression(app, responses, at).1 <= responses.len(),
    decreases app, 2int,
{
    lemma_sim_func_cursor(app.func, responses, at);
    let (func_r, at1) = spec_simulate_func_expression(app.func, responses, at);
    match func_r {
        Result::Ok(func_vec) => {
            lemma_sim_expr_cursor(app.arg, responses, at1);
            let (arg_r, at2) = spec_simulate_expression(app.arg, responses, at1);
            match arg_r {
                Result::Ok(arg_vec) => {
                    lemma_sim_apply_cursor(func_vec, arg_vec, responses, at2);
                },
                Result::Err(_) => {},
            }
        },
        Result::Err(_) => {},
    }
}

pub proof fn lemma_sim_func_cursor(
    func_expr: FuncExprView,
    responses: Seq<SimResponseView>,
    at: nat,
)
    requires
        at <= responses.len(),
    ensures
        at <= spec_simulate_func_expression(func_expr, responses, at).1 <= responses.len(),
    decreases func_expr, 0int,
{
    match func_expr {
        FuncExprView::Func(_) => {},
        FuncExprView::App(app) => {
            lemma_sim_app_cursor(*app, responses, at);
        },
    }
}

// ------------------------------------------------------------------
// The executable simulator.
// ------------------------------------------------------------------

fn clone_bits(v: &Vec<u32>) -> (res: Vec<u32>)
    ensures
        res@ == v@,
{
    let mut res: Vec<u32> = Vec::new();
    let mut i: usize = 0;
    while i < v.len()
        invariant
            i <= v.len(),
            res@ =~= v@.take(i as int),
        decreases v.len() - i,
    {
        res.push(v[i]);
        i = i + 1;
    }
    proof {
        assert(v@.take(v@.len() as int) =~= v@);
    }
    res
}

fn clone_matrix(m: &MatrixBits) -> (res: MatrixBits)
    ensures
        res@ == m@,
{
    MatrixBits { rows: m.rows, cols: m.cols, data: clone_bits(&m.data) }
}

/// One draw from a term's embedding.
pub fn simulate_term_pointer(term_ptr: TermPointer, responses: &Vec<SimResponse>, at: usize) -> (r:
    (Result<TypedVector, SimInterrupt>, usize))
    requires
        at <= responses@.len(),
    ensures
        ({
            let (sr, sat) = spec_simulate_term_pointer(term_ptr, responses.deep_view(), at as nat);
            &&& r.1 == sat
            &&& match r.0 {
                Result::Ok(v) => sr == Result::<TypedVectorView, SimInterruptView>::Ok(v@),
                Result::Err(i) => sr == Result::<TypedVectorView, SimInterruptView>::Err(i@),
            }
        }),
{
    if at >= responses.len() {
        return (
            Result::Err(SimInterrupt::NeedCapability(SimRequest::Sample(term_ptr))),
            at,
        );
    }
    match &responses[at] {
        SimResponse::Sample(v) => (
            Result::Ok(TypedVector { type_id: term_ptr.type_id, vec: clone_bits(v) }),
            at + 1,
        ),
        _ => (
            Result::Err(
                SimInterrupt::Failure(
                    String::from_str("Mismatched response from the model capability"),
                ),
            ),
            at,
        ),
    }
}

/// A function reference draws a sample; a vector literal is decoded and
/// returned as-is, reinterpreted as a plain numeric vector.
pub fn simulate_term_reference(
    term_ref: TermReference,
    responses: &Vec<SimResponse>,
    at: usize,
) -> (r: (Result<TypedVector, SimInterrupt>, usize))
    requires
        at <= responses@.len(),
    ensures
        ({
            let (sr, sat) = spec_simulate_term_reference(term_ref@, responses.deep_view(), at as nat);
            &&& r.1 == sat
            &&& match r.0 {
                Result::Ok(v) => sr == Result::<TypedVectorView, SimInterruptView>::Ok(v@),
                Result::Err(i) => sr == Result::<TypedVectorView, SimInterruptView>::Err(i@),
            }
        }),
{
    match term_ref {
        TermReference::FuncRef(func_ptr) => simulate_term_pointer(func_ptr, responses, at),
        TermReference::VecRef(type_id, literals) => {
            if at >= responses.len() {
                return (
                    Result::Err(
                        SimInterrupt::NeedCapability(SimRequest::DecodeLiterals(literals)),
                    ),
                    at,
                );
            }
            match &responses[at] {
                SimResponse::DecodedLiterals(v) => (
                    Result::Ok(TypedVector { type_id, vec: clone_bits(v) }),
                    at + 1,
                ),
                _ => (
                    Result::Err(
                        SimInterrupt::Failure(
                            String::from_str("Mismatched response from the model capability"),
                        ),
                    ),
                    at,
                ),
            }
        },
    }
}

/// The numeric kernel's matrix-vector product.
fn run_mat_vec(m: MatrixBits, vec: Vec<u32>, responses: &Vec<SimResponse>, at: usize) -> (r: (
    Result<Vec<u32>, SimInterrupt>,
    usize,
))
    requires
        at <= responses@.len(),
    ensures
        ({
            let (sr, sat) = spec_mat_vec(m@, vec@, responses.deep_view(), at as nat);
            &&& r.1 == sat
            &&& match r.0 {
                Result::Ok(v) => sr == Result::<Seq<u32>, SimInterruptView>::Ok(v@),
                Result::Err(i) => sr == Result::<Seq<u32>, SimInterruptView>::Err(i@),
            }
        }),
{
    if at >= responses.len() {
        return (Result::Err(SimInterrupt::NeedCapability(SimRequest::MatVecMul(m, vec))), at);
    }
    match &responses[at] {
        SimResponse::Product(p) => {
            if p.len() == m.rows {
                (Result::Ok(clone_bits(p)), at + 1)
            } else {
                (
                    Result::Err(
                        SimInterrupt::Failure(
                            String::from_str("Mismatched response from the model capability"),
                        ),
                    ),
                    at + 1,
                )
            }
        },
        _ => (
            Result::Err(
                SimInterrupt::Failure(
                    String::from_str("Mismatched response from the model capability"),
                ),
            ),
            at,
        ),
    }
}

/// Elaboration through the mean matrix of a compressed space.
fn run_elaborate(type_id: TypeId, vec: Vec<u32>, responses: &Vec<SimResponse>, at: usize) -> (r: (
    Result<TypedVector, SimInterrupt>,
    usize,
))
    requires
        at <= responses@.len(),
    ensures
        ({
            let (sr, sat) = spec_elaborate(type_id, vec@, responses.deep_view(), at as nat);
            &&& r.1 == sat
            &&& match r.0 {
                Result::Ok(v) => sr == Result::<TypedVectorView, SimInterruptView>::Ok(v@),
                Result::Err(i) => sr == Result::<TypedVectorView, SimInterruptView>::Err(i@),
            }
        }),
{
    if at >= responses.len() {
        return (
            Result::Err(SimInterrupt::NeedCapability(SimRequest::ElaboratorMean(type_id))),
            at,
        );
    }
    match &responses[at] {
        SimResponse::ElaboratorMean(m) => {
            let dl = m.data.len();
            let shape_ok = match m.rows.checked_mul(m.cols) {
                Option::Some(p) => dl == p,
                Option::None => false,
            };
            proof {
                assert(dl <= usize::MAX);
                assert(shape_ok == (m@.data.len() == m@.rows * m@.cols));
            }
            if !shape_ok || m.cols != vec.len() {
                (
                    Result::Err(
                        SimInterrupt::Failure(
                            String::from_str(
                                "Dimension mismatch: elaborator matrix does not match the compressed vector",
                            ),
                        ),
                    ),
                    at + 1,
                )
            } else {
                let (prod_r, at2) = run_mat_vec(clone_matrix(m), vec, responses, at + 1);
                match prod_r {
                    Result::Ok(p) => (Result::Ok(TypedVector { type_id, vec: p }), at2),
                    Result::Err(i) => (Result::Err(i), at2),
                }
            }
        },
        _ => (
            Result::Err(
                SimInterrupt::Failure(
                    String::from_str("Mismatched response from the model capability"),
                ),
            ),
            at,
        ),
    }
}

/// Expands a compressed vector to full dimensionality: a raw vector type
/// uses it directly, any other type is elaborated.
pub fn expand_compressed_vector(
    type_id: TypeId,
    vec: Vec<u32>,
    responses: &Vec<SimResponse>,
    at: usize,
) -> (r: (Result<TypedVector, SimInterrupt>, usize))
    requires
        at <= responses@.len(),
    ensures
        ({
            let (sr, sat) = spec_expand_compressed_vector(
                type_id,
                vec@,
                responses.deep_view(),
                at as nat,
            );
            &&& r.1 == sat
            &&& match r.0 {
                Result::Ok(v) => sr == Result::<TypedVectorView, SimInterruptView>::Ok(v@),
                Result::Err(i) => sr == Result::<TypedVectorView, SimInterruptView>::Err(i@),
            }
        }),
{
    if at >= responses.len() {
        return (
            Result::Err(SimInterrupt::NeedCapability(SimRequest::IsVectorType(type_id))),
            at,
        );
    }
    match &responses[at] {
        SimResponse::IsVectorType(b) => {
            if *b {
                (Result::Ok(TypedVector { type_id, vec }), at + 1)
            } else {
                run_elaborate(type_id, vec, responses, at + 1)
            }
        },
        _ => (
            Result::Err(
                SimInterrupt::Failure(
                    String::from_str("Mismatched response from the model capability"),
                ),
            ),
            at,
        ),
    }
}

/// Applies one simulated callee to one simulated argument.
fn apply_vectors(
    func_vec: TypedVector,
    arg_vec: TypedVector,
    responses: &Vec<SimResponse>,
    at: usize,
) -> (r: (Result<TypedVector, SimInterrupt>, usize))
    requires
        at <= responses@.len(),
    ensures
        ({
            let (sr, sat) = spec_apply_vectors(func_vec@, arg_vec@, responses.deep_view(), at as nat);
            &&& r.1 == sat
            &&& match r.0 {
                Result::Ok(v) => sr == Result::<TypedVectorView, SimInterruptView>::Ok(v@),
                Result::Err(i) => sr == Result::<TypedVectorView, SimInterruptView>::Err(i@),
            }
        }),
{
    if at >= responses.len() {
        return (
            Result::Err(
                SimInterrupt::NeedCapability(SimRequest::FuncSpaceInfo(func_vec.type_id)),
            ),
            at,
        );
    }
    match &responses[at] {
        SimResponse::FuncSpaceInfo(out_dim, feat_dim) => {
            let out_dim = *out_dim;
            let feat_dim = *feat_dim;
            let at1 = at + 1;
            if at1 >= responses.len() {
                return (
                    Result::Err(
                        SimInterrupt::NeedCapability(SimRequest::RetType(func_vec.type_id)),
                    ),
                    at1,
                );
            }
            match &responses[at1] {
                SimResponse::RetType(ret_type_id) => {
                    let ret_type_id = *ret_type_id;
                    let at2 = at1 + 1;
                    let fl = func_vec.vec.len();
                    let sample_fits = match out_dim.checked_mul(feat_dim) {
                        Option::Some(p) => fl == p,
                        Option::None => false,
                    };
                    proof {
                        assert(fl <= usize::MAX);
                        assert(sample_fits == (func_vec@.vec.len() == out_dim * feat_dim));
                    }
                    if !sample_fits {
                        (
                            Result::Err(
                                SimInterrupt::Failure(
                                    String::from_str(
                                        "Dimension mismatch: function sample does not fill its matrix",
                                    ),
                                ),
                            ),
                            at2,
                        )
                    } else {
                        apply_features(
                            func_vec,
                            arg_vec,
                            out_dim,
                            feat_dim,
                            ret_type_id,
                            responses,
                            at2,
                        )
                    }
                },
                _ => (
                    Result::Err(
                        SimInterrupt::Failure(
                            String::from_str("Mismatched response from the model capability"),
                        ),
                    ),
                    at1,
                ),
            }
        },
        _ => (
            Result::Err(
                SimInterrupt::Failure(
                    String::from_str("Mismatched response from the model capability"),
                ),
            ),
            at,
        ),
    }
}

/// Feature-expands the argument, multiplies, and expands the result.
fn apply_features(
    func_vec: TypedVector,
    arg_vec: TypedVector,
    out_dim: usize,
    feat_dim: usize,
    ret_type_id: TypeId,
    responses: &Vec<SimResponse>,
    at: usize,
) -> (r: (Result<TypedVector, SimInterrupt>, usize))
    requires
        at <= responses@.len(),
        func_vec@.vec.len() == out_dim * feat_dim,
    ensures
        ({
            let (sr, sat) = spec_apply_features(
                func_vec@,
                arg_vec@,
                out_dim,
                feat_dim,
                ret_type_id,
                responses.deep_view(),
                at as nat,
            );
            &&& r.1 == sat
            &&& match r.0 {
                Result::Ok(v) => sr == Result::<TypedVectorView, SimInterruptView>::Ok(v@),
                Result::Err(i) => sr == Result::<TypedVectorView, SimInterruptView>::Err(i@),
            }
        }),
{
    if at >= responses.len() {
        return (
            Result::Err(
                SimInterrupt::NeedCapability(
                    SimRequest::Features(arg_vec.type_id, arg_vec.vec),
                ),
            ),
            at,
        );
    }
    match &responses[at] {
        SimResponse::Features(feats) => {
            let at1 = at + 1;
            if feats.len() != feat_dim {
                (
                    Result::Err(
                        SimInterrupt::Failure(
                            String::from_str(
                                "Dimension mismatch: feature vector does not match the function matrix",
                            ),
                        ),
                    ),
                    at1,
                )
            } else {
                let func_mat = MatrixBits { rows: out_dim, cols: feat_dim, data: func_vec.vec };
                let (prod_r, at2) = run_mat_vec(func_mat, clone_bits(feats), responses, at1);
                match prod_r {
                    Result::Err(i) => (Result::Err(i), at2),
                    Result::Ok(compressed) => {
                        proof {
                            lemma_sim_mat_vec_cursor(
                                MatrixBitsView {
                                    rows: out_dim,
                                    cols: feat_dim,
                                    data: func_vec@.vec,
                                },
                                feats@,
                                responses.deep_view(),
                                at1 as nat,
                            );
                        }
                        expand_compressed_vector(ret_type_id, compressed, responses, at2)
                    },
                }
            }
        },
        _ => (
            Result::Err(
                SimInterrupt::Failure(
                    String::from_str("Mismatched response from the model capability"),
                ),
            ),
            at,
        ),
    }
}

/// Simulates an expression against a transcript of capability responses,
/// returning the result (or interrupt) and the new cursor.
pub fn simulate_expression(expr: Expression, responses: &Vec<SimResponse>, at: usize) -> (r: (
    Result<TypedVector, SimInterrupt>,
    usize,
))
    requires
        at <= responses@.len(),
    ensures
        ({
            let (sr, sat) = spec_simulate_expression(expr@, responses.deep_view(), at as nat);
            &&& r.1 == sat
            &&& match r.0 {
                Result::Ok(v) => sr == Result::<TypedVectorView, SimInterruptView>::Ok(v@),
                Result::Err(i) => sr == Result::<TypedVectorView, SimInterruptView>::Err(i@),
            }
        }),
    decreases expr, 1int,
{
    match expr {
        Expression::Ref(term_ref) => simulate_term_reference(term_ref, responses, at),
        Expression::App(app_expression) => simulate_app_expression(app_expression, responses, at),
    }
}

/// Simulates an application node: callee, then argument, then the numeric
/// application.
pub fn simulate_app_expression(app_expr: AppExpression, responses: &Vec<SimResponse>, at: usize) -> (r: (
    Result<TypedVector, SimInterrupt>,
    usize,
))
    requires
        at <= responses@.len(),
    ensures
        ({
            let (sr, sat) = spec_simulate_app_expression(app_expr@, responses.deep_view(), at as nat);
            &&& r.1 == sat
            &&& match r.0 {
                Result::Ok(v) => sr == Result::<TypedVectorView, SimInterruptView>::Ok(v@),
                Result::Err(i) => sr == Result::<TypedVectorView, SimInterruptView>::Err(i@),
            }
        }),
    decreases app_expr, 2int,
{
    let func_expr = *app_expr.func_expr;
    let arg_expr = *app_expr.arg_expr;
    let (func_r, at1) = simulate_func_expression(func_expr, responses, at);
    match func_r {
        Result::Err(i) => (Result::Err(i), at1),
        Result::Ok(func_vec) => {
            proof {
                lemma_sim_func_cursor(app_expr@.func, responses.deep_view(), at as nat);
            }
            let (arg_r, at2) = simulate_expression(arg_expr, responses, at1);
            match arg_r {
                Result::Err(i) => (Result::Err(i), at2),
                Result::Ok(arg_vec) => {
                    proof {
                        lemma_sim_expr_cursor(app_expr@.arg, responses.deep_view(), at1 as nat);
                    }
                    apply_vectors(func_vec, arg_vec, responses, at2)
                },
            }
        },
    }
}

/// Simulates a callee position: the result must land in a function space.
pub fn simulate_func_expression(
    func_expr: FuncExpression,
    responses: &Vec<SimResponse>,
    at: usize,
) -> (r: (Result<TypedVector, SimInterrupt>, usize))
    requires
        at <= responses@.len(),
    ensures
        ({
            let (sr, sat) = spec_simulate_func_expression(func_expr@, responses.deep_view(), at as nat);
            &&& r.1 == sat
            &&& match r.0 {
                Result::Ok(v) => sr == Result::<TypedVectorView, SimInterruptView>::Ok(v@),
                Result::Err(i) => sr == Result::<TypedVectorView, SimInterruptView>::Err(i@),
            }
        }),
    decreases func_expr, 0int,
{
    match func_expr {
        FuncExpression::Func(term_ptr) => simulate_term_pointer(term_ptr, responses, at),
        FuncExpression::App(app_expr) => {
            let formatted_app = format_app_expr(&app_expr);
            let ghost app_view = app_expr@;
            let (r, at1) = simulate_app_expression(app_expr, responses, at);
            match r {
                Result::Err(i) => (Result::Err(i), at1),
                Result::Ok(result_vec) => {
                    proof {
                        lemma_sim_app_cursor(app_view, responses.deep_view(), at as nat);
                    }
                    if at1 >= responses.len() {
                        return (
                            Result::Err(
                                SimInterrupt::NeedCapability(
                                    SimRequest::IsVectorType(result_vec.type_id),
                                ),
                            ),
                            at1,
                        );
                    }
                    match &responses[at1] {
                        SimResponse::IsVectorType(b) => {
                            if *b {
                                let m = str_concat(
                                    "Expected function, but obtained vector from simulating ",
                                    formatted_app.as_str(),
                                );
                                (Result::Err(SimInterrupt::Failure(m)), at1 + 1)
                            } else {
                                (Result::Ok(result_vec), at1 + 1)
                            }
                        },
                        _ => (
                            Result::Err(
                                SimInterrupt::Failure(
                                    String::from_str(
                                        "Mismatched response from the model capability",
                                    ),
                                ),
                            ),
                            at1,
                        ),
                    }
                },
            }
        },
    }
}


// ------------------------------------------------------------------
// Extending the transcript never changes a completed run: a driver that
// answers the reported request and runs the simulator again replays the
// finished prefix exactly.
// ------------------------------------------------------------------

/// A paused result: the transcript ran out.
pub open spec fn sim_paused<T>(r: Result<T, SimInterruptView>) -> bool {
    match r {
        Result::Err(SimInterruptView::NeedCapability(_)) => true,
        _ => false,
    }
}

proof fn lemma_mat_vec_extends(
    m: MatrixBitsView,
    vec: Seq<u32>,
    responses: Seq<SimResponseView>,
    more: Seq<SimResponseView>,
    at: nat,
)
    requires
        at <= responses.len(),
    ensures
        ({
            let (r, c) = spec_mat_vec(m, vec, responses, at);
            !sim_paused(r) ==> spec_mat_vec(m, vec, responses + more, at) == (r, c)
        }),
{
    if at < responses.len() {
        assert((responses + more)[at as int] == responses[at as int]);
    }
}

proof fn lemma_elaborate_extends(
    type_id: TypeId,
    vec: Seq<u32>,
    responses: Seq<SimResponseView>,
    more: Seq<SimResponseView>,
    at: nat,
)
    requires
        at <= responses.len(),
    ensures
        ({
            let (r, c) = spec_elaborate(type_id, vec, responses, at);
            !sim_paused(r) ==> spec_elaborate(type_id, vec, responses + more, at) == (r, c)
        }),
{
    if at < responses.len() {
        assert((responses + more)[at as int] == responses[at as int]);
        match responses[at as int] {
            SimResponseView::ElaboratorMean(m) => {
                lemma_mat_vec_extends(m, vec, responses, more, at + 1);
            },
            _ => {},
        }
    }
}

proof fn lemma_expand_extends(
    type_id: TypeId,
    vec: Seq<u32>,
    responses: Seq<SimResponseView>,
    more: Seq<SimResponseView>,
    at: nat,
)
    requires
        at <= responses.len(),
    ensures
        ({
            let (r, c) = spec_expand_compressed_vector(type_id, vec, responses, at);
            !sim_paused(r) ==> spec_expand_compressed_vector(type_id, vec, responses + more, at)
                == (r, c)
        }),
{
    if at < responses.len() {
        assert((responses + more)[at as int] == responses[at as int]);
        lemma_elaborate_extends(type_id, vec, responses, more, at + 1);
    }
}

proof fn lemma_apply_features_extends(
    func_vec: TypedVectorView,
    arg_vec: TypedVectorView,
    out_dim: usize,
    feat_dim: usize,
    ret_type_id: TypeId,
    responses: Seq<SimResponseView>,
    more: Seq<SimResponseView>,
    at: nat,
)
    requires
        at <= responses.len(),
    ensures
        ({
            let (r, c) = spec_apply_features(
                func_vec,
                arg_vec,
                out_dim,
                feat_dim,
                ret_type_id,
                responses,
                at,
            );
            !sim_paused(r) ==> spec_apply_features(
                func_vec,
                arg_vec,
                out_dim,
                feat_dim,
                ret_type_id,
                responses + more,
                at,
            ) == (r, c)
        }),
{
    if at < responses.len() {
        assert((responses + more)[at as int] == responses[at as int]);
        match responses[at as int] {
            SimResponseView::Features(feats) => {
                if feats.len() == feat_dim {
                    let func_mat = MatrixBitsView {
                        rows: out_dim,
                        cols: feat_dim,
                        data: func_vec.vec,
                    };
                    lemma_mat_vec_extends(func_mat, feats, responses, more, at + 1);
                    lemma_sim_mat_vec_cursor(func_mat, feats, responses, at + 1);
                    let (prod_r, at2) = spec_mat_vec(func_mat, feats, responses, at + 1);
                    match prod_r {
                        Result::Ok(compressed) => {
                            lemma_expand_extends(ret_type_id, compressed, responses, more, at2);
                        },
                        Result::Err(_) => {},
                    }
                }
            },
            _ => {},
        }
    }
}

proof fn lemma_apply_extends(
    func_vec: TypedVectorView,
    arg_vec: TypedVectorView,
    responses: Seq<SimResponseView>,
    more: Seq<SimResponseView>,
    at: nat,
)
    requires
        at <= responses.len(),
    ensures
        ({
            let (r, c) = spec_apply_vectors(func_vec, arg_vec, responses, at);
            !sim_paused(r) ==> spec_apply_vectors(func_vec, arg_vec, responses + more, at) == (
            r,
            c,
            )
        }),
{
    if at < responses.len() {
        assert((responses + more)[at as int] == responses[at as int]);
        match responses[at as int] {
            SimResponseView::FuncSpaceInfo(out_dim, feat_dim) => {
                if at + 1 < responses.len() {
                    assert((responses + more)[at + 1 as int] == responses[at + 1 as int]);
                    match responses[at + 1 as int] {
                        SimResponseView::RetType(ret_type_id) => {
                            if func_vec.vec.len() == out_dim * feat_dim {
                                lemma_apply_features_extends(
                                    func_vec,
                                    arg_vec,
                                    out_dim,
                                    feat_dim,
                                    ret_type_id,
                                    responses,
                                    more,
                                    at + 2,
                                );
                            }
                        },
                        _ => {},
                    }
                }
            },
            _ => {},
        }
    }
}

proof fn lemma_term_pointer_extends(
    term_ptr: TermPointer,
    responses: Seq<SimResponseView>,
    more: Seq<SimResponseView>,
    at: nat,
)
    requires
        at <= responses.len(),
    ensures
        ({
            let (r, c) = spec_simulate_term_pointer(term_ptr, responses, at);
            !sim_paused(r) ==> spec_simulate_term_pointer(term_ptr, responses + more, at) == (
            r,
            c,
            )
        }),
{
    if at < responses.len() {
        assert((responses + more)[at as int] == responses[at as int]);
    }
}

proof fn lemma_term_reference_extends(
    term_ref: TermRefView,
    responses: Seq<SimResponseView>,
    more: Seq<SimResponseView>,
    at: nat,
)
    requires
        at <= responses.len(),
    ensures
        ({
            let (r, c) = spec_simulate_term_reference(term_ref, responses, at);
            !sim_paused(r) ==> spec_simulate_term_reference(term_ref, responses + more, at) == (
            r,
            c,
            )
        }),
{
    if at < responses.len() {
        assert((responses + more)[at as int] == responses[at as int]);
    }
}

/// Extending the transcript never changes a completed simulation.
pub proof fn lemma_sim_expr_extends(
    expr: ExprView,
    responses: Seq<SimResponseView>,
    more: Seq<SimResponseView>,
    at: nat,
)
    requires
        at <= responses.len(),
    ensures
        ({
            let (r, c) = spec_simulate_expression(expr, responses, at);
            !sim_paused(r) ==> spec_simulate_expression(expr, responses + more, at) == (r, c)
        }),
    decreases expr, 1int,
{
    match expr {
        ExprView::Ref(term_ref) => {
            lemma_term_reference_extends(term_ref, responses, more, at);
        },
        ExprView::App(app) => {
            lemma_sim_app_extends(*app, responses, more, at);
        },
    }
}

pub proof fn lemma_sim_app_extends(
    app: AppExprView,
    responses: Seq<SimResponseView>,
    more: Seq<SimResponseView>,
    at: nat,
)
    requires
        at <= responses.len(),
    ensures
        ({
            let (r, c) = spec_simulate_app_expression(app, responses, at);
            !sim_paused(r) ==> spec_simulate_app_expression(app, responses + more, at) == (r, c)
        }),
    decreases app, 2int,
{
    let (func_r, at1) = spec_simulate_func_expression(app.func, responses, at);
    lemma_sim_func_extends(app.func, responses, more, at);
    lemma_sim_func_cursor(app.func, responses, at);
    if !sim_paused(func_r) {
        match func_r {
            Result::Ok(func_vec) => {
                let (arg_r, at2) = spec_simulate_expression(app.arg, responses, at1);
                lemma_sim_expr_extends(app.arg, responses, more, at1);
                lemma_sim_expr_cursor(app.arg, responses, at1);
                if !sim_paused(arg_r) {
                    match arg_r {
                        Result::Ok(arg_vec) => {
                            lemma_apply_extends(func_vec, arg_vec, responses, more, at2);
                        },
                        Result::Err(_) => {},
                    }
                }
            },
            Result::Err(_) => {},
        }
    }
}

pub proof fn lemma_sim_func_extends(
    func_expr: FuncExprView,
    responses: Seq<SimResponseView>,
    more: Seq<SimResponseView>,
    at: nat,
)
    requires
        at <= responses.len(),
    ensures
        ({
            let (r, c) = spec_simulate_func_expression(func_expr, responses, at);
            !sim_paused(r) ==> spec_simulate_func_expression(func_expr, responses + more, at)
                == (r, c)
        }),
    decreases func_expr, 0int,
{
    match func_expr {
        FuncExprView::Func(term_ptr) => {
            lemma_term_pointer_extends(term_ptr, responses, more, at);
        },
        FuncExprView::App(app) => {
            lemma_sim_app_extends(*app, responses, more, at);
            lemma_sim_app_cursor(*app, responses, at);
            let (r, at1) = spec_simulate_app_expression(*app, responses, at);
            if !sim_paused(r) {
                match r {
                    Result::Ok(result_vec) => {
                        if at1 < responses.len() {
                            assert((responses + more)[at1 as int] == responses[at1 as int]);
                        }
                    },
                    Result::Err(_) => {},
                }
            }
        },
    }
}

} // verus!
