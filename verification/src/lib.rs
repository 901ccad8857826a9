//! An interactive evaluator for a small s-expression language whose atoms
//! denote references into an external typed-term/embedding model.
//!
//! Text is parsed into an application tree ([`parsers`], [`expression`]),
//! resolving identifiers through the binding environment ([`bindings`]).
//! The tree is then either evaluated deterministically against the
//! persistent term-application model ([`eval`]) or simulated by drawing
//! stochastic samples from the model's embeddings and propagating them
//! through learned linear maps ([`simulate`]).  The model itself is an
//! external capability: both engines are driven by transcripts of its
//! responses, pausing with an explicit request whenever a transcript runs
//! out, so that every decision the core makes is verified for every
//! possible response.  The session's state rides the exclusive-checkout
//! protocol of [`state`], and [`typing`] proves the two evaluation modes
//! type-consistent.

pub mod bindings;
pub mod commands;
pub mod eval;
pub mod expression;
pub mod parsers;
pub mod simulate;
pub mod state;
pub mod terms;
pub mod text;
pub mod typing;
