//! The checkout-based state manager.
//!
//! A `ContextState` owns the serialized type ontology and a serialized form
//! of the mutable model.  A live, directly usable model borrows the
//! ontology and therefore cannot be stored beside it: any operation
//! against the live model rides the checkout protocol instead.  The stored
//! serialized model is swapped out against an empty placeholder, the
//! operation runs on the checked-out value, and whatever serialized model
//! the operation hands back is swapped in again — on the success path and
//! on the error path alike, so the state is never observably missing or
//! half-updated between commands.

use vstd::prelude::*;
use crate::bindings::Bindings;
use crate::eval::{spec_evaluate_expression, evaluate_expression, EvalInterrupt, EvalInterruptView};
use crate::expression::Expression;
use crate::terms::{TermReference, TermRefView};

verus! {

/// Owns the immutable type ontology (serialized) and the serialized form
/// of the mutable model.
pub struct ContextState {
    pub ctxt_bytes: Vec<u8>,
    pub model: Vec<u8>,
}

/// The globally persistent session state: the binding environment and the
/// currently loaded context, if any.
pub struct GlobalState {
    pub bindings: Bindings,
    pub maybe_context_state: Option<ContextState>,
}

impl ContextState {
    /// The serialized model currently resident in the state.
    pub open spec fn model_bytes(self) -> Vec<u8> {
        self.model
    }

    /// Builds a context state around a serialized ontology and the initial
    /// serialized model derived from it.
    pub fn new(ctxt_bytes: Vec<u8>, initial_model: Vec<u8>) -> (r: ContextState)
        ensures
            r.ctxt_bytes == ctxt_bytes,
            r.model_bytes() == initial_model,
    {
        ContextState { ctxt_bytes, model: initial_model }
    }

    /// The checkout protocol.  The stored serialized model is exchanged
    /// for an empty placeholder, the operation receives the checked-out
    /// value, and the serialized model it returns is restored before its
    /// result is handed back — whether that result reports success or
    /// failure.  Afterwards the state holds exactly the model the
    /// operation produced, never the placeholder.
    pub fn perform_on_models<R, F: FnOnce(Vec<u8>) -> (Vec<u8>, R)>(&mut self, op: F) -> (r: R)
        requires
            call_requires(op, (old(self).model_bytes(),)),
        ensures
            call_ensures(op, (old(self).model_bytes(),), (final(self).model_bytes(), r)),
            final(self).ctxt_bytes == old(self).ctxt_bytes,
    {
        let mut checked_out: Vec<u8> = Vec::new();
        core::mem::swap(&mut self.model, &mut checked_out);
        let (restored_model, ret) = op(checked_out);
        self.model = restored_model;
        ret
    }

    /// Runs the deterministic evaluator against the live model, riding the
    /// checkout protocol.  The external term-application capability's
    /// answers arrive as a transcript; the serialized model is restored
    /// unchanged whatever the evaluator reports.
    pub fn eval(&mut self, expr: Expression, responses: &Vec<TermReference>) -> (r: Result<
        TermReference,
        EvalInterrupt,
    >)
        ensures
            final(self).ctxt_bytes == old(self).ctxt_bytes,
            final(self).model_bytes() == old(self).model_bytes(),
            ({
                let (sr, sat) = spec_evaluate_expression(expr@, responses.deep_view(), 0);
                match r {
                    Result::Ok(t) => sr == Result::<TermRefView, EvalInterruptView>::Ok(t@),
                    Result::Err(i) => sr == Result::<TermRefView, EvalInterruptView>::Err(i@),
                }
            }),
    {
        let ghost expr_view = expr@;
        let op = |m: Vec<u8>| -> (out: (Vec<u8>, Result<TermReference, EvalInterrupt>))
            ensures
                out.0 == m,
                ({
                    let (sr, sat) = spec_evaluate_expression(expr_view, responses.deep_view(), 0);
                    match out.1 {
                        Result::Ok(t) => sr == Result::<TermRefView, EvalInterruptView>::Ok(t@),
                        Result::Err(i) => sr == Result::<TermRefView, EvalInterruptView>::Err(
                            i@,
                        ),
                    }
                }),
            {
                let (result, _consumed) = evaluate_expression(expr, responses, 0);
                (m, result)
            };
        self.perform_on_models(op)
    }

    /// Installs the serialized model an external update step produced:
    /// one Bayesian update of the embeddings followed by clearing the
    /// newly-received-terms queue, both performed by the external model on
    /// the checked-out value.
    pub fn update_models(&mut self, updated_model: Vec<u8>) -> (r: ())
        ensures
            final(self).ctxt_bytes == old(self).ctxt_bytes,
            final(self).model_bytes() == updated_model,
    {
        let op = |m: Vec<u8>| -> (out: (Vec<u8>, ()))
            ensures
                out.0 == updated_model,
            {
                (updated_model, ())
            };
        self.perform_on_models(op)
    }
}

/// Checkout invariant: an operation whose every possible outcome is a
/// structurally valid serialized model leaves the state holding a valid
/// model — never the transient placeholder — whatever result it reports.
pub proof fn lemma_checkout_restores<R, F: FnOnce(Vec<u8>) -> (Vec<u8>, R)>(
    pre: ContextState,
    post: ContextState,
    op: F,
    r: R,
    valid: spec_fn(Seq<u8>) -> bool,
)
    requires
        call_ensures(op, (pre.model_bytes(),), (post.model_bytes(), r)),
        forall|m: Vec<u8>, out: R|
            call_ensures(op, (pre.model_bytes(),), (m, out)) ==> valid(m@),
    ensures
        valid(post.model_bytes()@),
{
}

impl GlobalState {
    /// Loads a context: the session's current context state is replaced.
    pub fn set_context(&mut self, ctxt_bytes: Vec<u8>, initial_model: Vec<u8>)
        ensures
            final(self).bindings == old(self).bindings,
            match final(self).maybe_context_state {
                Option::Some(cs) => cs.ctxt_bytes == ctxt_bytes && cs.model_bytes()
                    == initial_model,
                Option::None => false,
            },
    {
        let context_state = ContextState::new(ctxt_bytes, initial_model);
        self.maybe_context_state = Option::Some(context_state);
    }

    /// Unloads the current context, if any.
    pub fn unload_context(&mut self)
        ensures
            final(self).bindings == old(self).bindings,
            final(self).maybe_context_state is None,
    {
        self.maybe_context_state = Option::None;
    }
}

} // verus!
