//! The data model: term indices, term pointers, term references and typed
//! vectors, together with their textual renderings.
//!
//! A vector-typed reference carries its components as validated numeric
//! literals, exactly as they appeared in the source text; the numeric
//! interpretation of a literal is the external model's concern.  A simulated
//! vector carries its components as the bit patterns of the external model's
//! single-precision values.

use vstd::prelude::*;
use vstd::string::*;
use crate::text::{dec_digits, usize_to_string};

verus! {

/// Opaque integer naming a type of the external ontology.
pub type TypeId = usize;

/// Distinguishes built-in terms from ones synthesized during evaluation.
#[derive(Clone, Copy, Debug)]
pub enum TermIndex {
    Primitive(usize),
    NonPrimitive(usize),
}

/// A stable identifier for one function-typed term.
#[derive(Clone, Copy, Debug)]
pub struct TermPointer {
    pub type_id: TypeId,
    pub index: TermIndex,
}

/// A reference to a term: either a concrete function term, or a literal
/// vector value of a vector-typed space.
#[derive(Debug)]
pub enum TermReference {
    FuncRef(TermPointer),
    VecRef(TypeId, Vec<String>),
}

/// The result of simulation: a fully-expanded vector of a given type, its
/// components stored as single-precision bit patterns.
#[derive(Debug)]
pub struct TypedVector {
    pub type_id: TypeId,
    pub vec: Vec<u32>,
}

/// The mathematical reading of a term reference: vector components as
/// character sequences.
pub enum TermRefView {
    Func(TermPointer),
    Vector(TypeId, Seq<Seq<char>>),
}

impl View for TermReference {
    type V = TermRefView;

    open spec fn view(&self) -> TermRefView {
        match self {
            TermReference::FuncRef(p) => TermRefView::Func(*p),
            TermReference::VecRef(t, elems) => TermRefView::Vector(*t, elems.deep_view()),
        }
    }
}

impl DeepView for TermReference {
    type V = TermRefView;

    open spec fn deep_view(&self) -> TermRefView {
        self.view()
    }
}

impl Clone for TermReference {
    fn clone(&self) -> (res: Self)
        ensures
            res@ == self@,
    {
        match self {
            TermReference::FuncRef(p) => TermReference::FuncRef(*p),
            TermReference::VecRef(t, elems) => {
                let copy = TermReference::VecRef(*t, clone_literals(elems));
                proof {
                    assert(copy@ == self@);
                }
                copy
            },
        }
    }
}

pub(crate) fn clone_literals(elems: &Vec<String>) -> (res: Vec<String>)
    ensures
        res.deep_view() == elems.deep_view(),
{
    let mut res: Vec<String> = Vec::new();
    let mut i: usize = 0;
    while i < elems.len()
        invariant
            i <= elems.len(),
            res@.len() == i,
            forall|j: int| 0 <= j < i ==> #[trigger] res@[j]@ == elems@[j]@,
        decreases elems.len() - i,
    {
        res.push(elems[i].clone());
        i = i + 1;
    }
    proof {
        assert forall|j: int| 0 <= j < elems@.len() implies res.deep_view()[j]
            == elems.deep_view()[j] by {
            assert(res@[j]@ == elems@[j]@);
        }
        assert(res.deep_view() =~= elems.deep_view());
    }
    res
}

/// Rendering of a term index: `p` or `n`, then the index in decimal.
pub open spec fn render_term_index_spec(term_index: TermIndex) -> Seq<char> {
    match term_index {
        TermIndex::Primitive(i) => seq!['p'] + dec_digits(i as nat),
        TermIndex::NonPrimitive(i) => seq!['n'] + dec_digits(i as nat),
    }
}

/// Rendering of a term pointer: `#`, the type in decimal, then the index.
pub open spec fn render_term_ptr_spec(term_ptr: TermPointer) -> Seq<char> {
    seq!['#'] + dec_digits(term_ptr.type_id as nat) + render_term_index_spec(term_ptr.index)
}

/// A comma-and-space separated joining of literal components.
pub open spec fn join_literals(es: Seq<Seq<char>>) -> Seq<char>
    decreases es.len(),
{
    if es.len() == 0 {
        Seq::empty()
    } else if es.len() == 1 {
        es[0]
    } else {
        es[0] + seq![',', ' '] + join_literals(es.skip(1))
    }
}

pub proof fn lemma_join_push(es: Seq<Seq<char>>, e: Seq<char>)
    ensures
        join_literals(es.push(e)) == if es.len() == 0 {
            e
        } else {
            join_literals(es) + seq![',', ' '] + e
        },
    decreases es.len(),
{
    if es.len() == 0 {
        assert(es.push(e)[0] == e);
        assert(join_literals(es.push(e)) =~= e);
    } else if es.len() == 1 {
        assert(es.push(e).skip(1) =~= seq![e]);
        assert(es.push(e)[0] == es[0]);
        assert(join_literals(seq![e]) == e);
        assert(join_literals(es.push(e)) == es[0] + seq![',', ' '] + e);
        assert(join_literals(es.push(e)) =~= join_literals(es) + seq![',', ' '] + e);
    } else {
        lemma_join_push(es.skip(1), e);
        assert(es.push(e).skip(1) =~= es.skip(1).push(e));
        assert(es.push(e)[0] == es[0]);
        assert(join_literals(es.skip(1).push(e)) == join_literals(es.skip(1)) + seq![',', ' ']
            + e);
        assert(es.push(e).len() >= 3);
        assert(join_literals(es.push(e)) == es.push(e)[0] + seq![',', ' '] + join_literals(
            es.push(e).skip(1),
        ));
        assert(join_literals(es.push(e)) == es[0] + seq![',', ' '] + join_literals(
            es.skip(1).push(e),
        ));
        assert(join_literals(es) == es[0] + seq![',', ' '] + join_literals(es.skip(1)));
        let sep = seq![',', ' '];
        let js = join_literals(es.skip(1));
        assert(join_literals(es.push(e)) == es[0] + sep + (js + sep + e));
        assert(es[0] + sep + (js + sep + e) =~= (es[0] + sep + js) + sep + e);
        assert((es[0] + sep + js) + sep + e == join_literals(es) + sep + e);
        assert(join_literals(es.push(e)) =~= join_literals(es) + seq![',', ' '] + e);
    }
}

/// Rendering of a term reference; a vector reference renders as
/// `#<type>[<literals>]`.
pub open spec fn render_term_ref_spec(term_ref: TermRefView) -> Seq<char> {
    match term_ref {
        TermRefView::Func(p) => render_term_ptr_spec(p),
        TermRefView::Vector(t, elems) => seq!['#'] + dec_digits(t as nat) + seq!['[']
            + join_literals(elems) + seq![']'],
    }
}

pub fn format_term_index(term_index: &TermIndex) -> (r: String)
    ensures
        r@ == render_term_index_spec(*term_index),
{
    proof {
        reveal_strlit("p");
        reveal_strlit("n");
    }
    match term_index {
        TermIndex::Primitive(i) => {
            let mut s = String::from_str("p");
            s.append(usize_to_string(*i).as_str());
            proof {
                assert(s@ =~= render_term_index_spec(*term_index));
            }
            s
        },
        TermIndex::NonPrimitive(i) => {
            let mut s = String::from_str("n");
            s.append(usize_to_string(*i).as_str());
            proof {
                assert(s@ =~= render_term_index_spec(*term_index));
            }
            s
        },
    }
}

pub fn format_term_ptr(term_ptr: &TermPointer) -> (r: String)
    ensures
        r@ == render_term_ptr_spec(*term_ptr),
{
    proof {
        reveal_strlit("#");
    }
    let mut s = String::from_str("#");
    s.append(usize_to_string(term_ptr.type_id).as_str());
    s.append(format_term_index(&term_ptr.index).as_str());
    proof {
        assert(s@ =~= render_term_ptr_spec(*term_ptr));
    }
    s
}

fn format_literal_list(elems: &Vec<String>) -> (r: String)
    ensures
        r@ == join_literals(elems.deep_view()),
{
    let mut s = String::new();
    if elems.len() == 0 {
        proof {
            assert(s@ =~= join_literals(elems.deep_view()));
        }
        return s;
    }
    s.append(elems[0].as_str());
    let mut i: usize = 1;
    proof {
        assert(elems.deep_view().take(1) =~= seq![elems.deep_view()[0]]);
        assert(s@ =~= join_literals(elems.deep_view().take(1)));
    }
    while i < elems.len()
        invariant
            1 <= i <= elems.len(),
            s@ == join_literals(elems.deep_view().take(i as int)),
        decreases elems.len() - i,
    {
        s.append(", ");
        s.append(elems[i].as_str());
        proof {
            reveal_strlit(", ");
            let pre = elems.deep_view().take(i as int);
            lemma_join_push(pre, elems.deep_view()[i as int]);
            assert(pre.push(elems.deep_view()[i as int]) =~= elems.deep_view().take(i + 1));
            assert(s@ =~= join_literals(elems.deep_view().take(i + 1)));
        }
        i = i + 1;
    }
    proof {
        assert(elems.deep_view().take(elems.len() as int) =~= elems.deep_view());
    }
    s
}

pub fn format_term_ref(term_ref: &TermReference) -> (r: String)
    ensures
        r@ == render_term_ref_spec(term_ref@),
{
    match term_ref {
        TermReference::FuncRef(p) => format_term_ptr(p),
        TermReference::VecRef(t, elems) => {
            proof {
                reveal_strlit("#");
                reveal_strlit("[");
                reveal_strlit("]");
            }
            let mut s = String::from_str("#");
            s.append(usize_to_string(*t).as_str());
            s.append("[");
            s.append(format_literal_list(elems).as_str());
            s.append("]");
            proof {
                assert(s@ =~= render_term_ref_spec(term_ref@));
            }
            s
        },
    }
}

} // verus!
