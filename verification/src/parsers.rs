//! The recursive-descent parser: a left-to-right cursor walk in which each
//! parse function consumes a prefix of its input and returns the parsed
//! value together with the remaining suffix.  There is no backtracking:
//! the next character alone decides between a sub-expression (`(`), a
//! reference (`#`) and an identifier.

use vstd::prelude::*;
use vstd::string::*;
use crate::bindings::{Bindings, lookup_err_msg};
use crate::commands::{Command, CommandView, ContextualCommand, ContextualCommandView};
use crate::expression::{
    AppExpression, AppExprView, Expression, ExprView, FuncExprView, build_application,
    build_application_spec, fold_app, func_of_expression, render_app_expr_spec, render_expr_spec,
    render_func_expr_spec,
};
use crate::terms::{
    join_literals, render_term_index_spec, render_term_ref_spec, TermIndex, TermPointer,
    TermReference, TermRefView,
};
use crate::text::{
    digit_prefix_len, digit_run_end, digits_value, find_break, find_char, find_exp,
    first_break_index, first_exp_index, first_index_of, is_break_char, is_digit, is_digit_char,
    dec_digits, is_exp_char, is_ws_char, lemma_dec_digits_all_digits, lemma_dec_digits_value,
    lemma_digit_prefix_char, lemma_digit_prefix_le_len, lemma_first_break_bounds,
    lemma_first_index_bounds, lemma_first_index_char, lemma_trim_start_trimmed,
    lemma_ws_prefix_char, lemma_ws_suffix_char, parse_decimal, str_eq, trim, trim_spec,
    trim_start, trim_start_spec, ws_prefix_len,
};

verus! {

pub open spec fn msg_missing_left_paren(text: Seq<char>) -> Seq<char> {
    "Missing left paren for sub-expression: "@ + text
}

pub open spec fn msg_ran_out_sexpr(text: Seq<char>) -> Seq<char> {
    "Ran out of input while parsing s-expression: "@ + text
}

pub open spec fn msg_missing_pound(text: Seq<char>) -> Seq<char> {
    "Missing pound sign for reference: "@ + text
}

pub open spec fn msg_ran_out_reference(text: Seq<char>) -> Seq<char> {
    "Ran out of input while parsing reference: "@ + text
}

pub open spec fn msg_cannot_parse_term_index(text: Seq<char>) -> Seq<char> {
    "Cannot parse term index "@ + text
}

pub open spec fn msg_ran_out_term_index(text: Seq<char>) -> Seq<char> {
    "Ran out of input while parsing term index: "@ + text
}

pub open spec fn msg_malformed_integer(text: Seq<char>) -> Seq<char> {
    "Malformed integer: "@ + text
}

pub open spec fn msg_missing_left_bracket(text: Seq<char>) -> Seq<char> {
    "Missing left bracket for vector: "@ + text
}

pub open spec fn msg_missing_right_bracket(text: Seq<char>) -> Seq<char> {
    "Missing right bracket for vector: "@ + text
}

pub open spec fn msg_malformed_float(text: Seq<char>) -> Seq<char> {
    "Malformed float: "@ + text
}

pub open spec fn msg_ran_out_identifier(text: Seq<char>) -> Seq<char> {
    "Ran out of input while parsing identifier: "@ + text
}

pub open spec fn msg_cannot_parse_atom() -> Seq<char> {
    "Cannot parse atom: empty text"@
}

/// Builds an error message from a fixed prefix and the offending text.
fn err_with(prefix: &str, text: &str) -> (r: String)
    ensures
        r@ == prefix@ + text@,
{
    let mut m = String::from_str(prefix);
    m.append(text);
    m
}

// ------------------------------------------------------------------
// Numeric-literal grammar.  A vector component must be a literal the
// single-precision decoder accepts: an optional sign, then `inf`,
// `infinity` or `nan` (case-insensitive) or a decimal number with an
// optional fraction and exponent.
// ------------------------------------------------------------------

pub open spec fn all_digit_chars(s: Seq<char>) -> bool {
    forall|i: int| 0 <= i < s.len() ==> is_digit_char(#[trigger] s[i])
}

/// Case-insensitive match of one character against a lowercase letter.
pub open spec fn ci_eq(c: char, lower: char) -> bool {
    c == lower || c as u32 + 32 == lower as u32
}

pub open spec fn is_ci_word(s: Seq<char>, w: Seq<char>) -> bool {
    s.len() == w.len() && forall|i: int| 0 <= i < s.len() ==> ci_eq(#[trigger] s[i], w[i])
}

pub open spec fn is_special_float_word(t: Seq<char>) -> bool {
    is_ci_word(t, seq!['i', 'n', 'f']) || is_ci_word(
        t,
        seq!['i', 'n', 'f', 'i', 'n', 'i', 't', 'y'],
    ) || is_ci_word(t, seq!['n', 'a', 'n'])
}

pub open spec fn is_mantissa(m: Seq<char>) -> bool {
    match first_index_of(m, '.') {
        Option::None => m.len() > 0 && all_digit_chars(m),
        Option::Some(i) => {
            let a = m.take(i);
            let b = m.skip(i + 1);
            (a.len() > 0 || b.len() > 0) && all_digit_chars(a) && all_digit_chars(b)
        },
    }
}

pub open spec fn is_exponent_part(x: Seq<char>) -> bool {
    let y = if x.len() > 0 && (x[0] == '+' || x[0] == '-') {
        x.skip(1)
    } else {
        x
    };
    y.len() > 0 && all_digit_chars(y)
}

pub open spec fn is_number_literal(t: Seq<char>) -> bool {
    match first_exp_index(t) {
        Option::None => is_mantissa(t),
        Option::Some(i) => is_mantissa(t.take(i)) && is_exponent_part(t.skip(i + 1)),
    }
}

/// The literals the single-precision decoder accepts.
pub open spec fn is_float_literal(s: Seq<char>) -> bool {
    let t = if s.len() > 0 && (s[0] == '+' || s[0] == '-') {
        s.skip(1)
    } else {
        s
    };
    is_special_float_word(t) || is_number_literal(t)
}

fn ci_eq_exec(c: char, lower: char) -> (r: bool)
    ensures
        r == ci_eq(c, lower),
{
    let cu = c as u32;
    let lu = lower as u32;
    cu == lu || (lu >= 32 && cu == lu - 32)
}

fn is_word_inf(t: &str) -> (r: bool)
    ensures
        r == is_ci_word(t@, seq!['i', 'n', 'f']),
{
    if t.unicode_len() != 3 {
        return false;
    }
    let ok = ci_eq_exec(t.get_char(0), 'i') && ci_eq_exec(t.get_char(1), 'n') && ci_eq_exec(
        t.get_char(2),
        'f',
    );
    proof {
        let w = seq!['i', 'n', 'f'];
        if ok {
            assert forall|i: int| 0 <= i < t@.len() implies ci_eq(#[trigger] t@[i], w[i]) by {
                if i == 0 {
                } else if i == 1 {
                } else {
                    assert(i == 2);
                }
            }
        }
    }
    ok
}

fn is_word_infinity(t: &str) -> (r: bool)
    ensures
        r == is_ci_word(t@, seq!['i', 'n', 'f', 'i', 'n', 'i', 't', 'y']),
{
    if t.unicode_len() != 8 {
        return false;
    }
    let ok = ci_eq_exec(t.get_char(0), 'i') && ci_eq_exec(t.get_char(1), 'n') && ci_eq_exec(
        t.get_char(2),
        'f',
    ) && ci_eq_exec(t.get_char(3), 'i') && ci_eq_exec(t.get_char(4), 'n') && ci_eq_exec(
        t.get_char(5),
        'i',
    ) && ci_eq_exec(t.get_char(6), 't') && ci_eq_exec(t.get_char(7), 'y');
    proof {
        let w = seq!['i', 'n', 'f', 'i', 'n', 'i', 't', 'y'];
        if ok {
            assert forall|i: int| 0 <= i < t@.len() implies ci_eq(#[trigger] t@[i], w[i]) by {
                if i == 0 {
                } else if i == 1 {
                } else if i == 2 {
                } else if i == 3 {
                } else if i == 4 {
                } else if i == 5 {
                } else if i == 6 {
                } else {
                    assert(i == 7);
                }
            }
        }
    }
    ok
}

fn is_word_nan(t: &str) -> (r: bool)
    ensures
        r == is_ci_word(t@, seq!['n', 'a', 'n']),
{
    if t.unicode_len() != 3 {
        return false;
    }
    let ok = ci_eq_exec(t.get_char(0), 'n') && ci_eq_exec(t.get_char(1), 'a') && ci_eq_exec(
        t.get_char(2),
        'n',
    );
    proof {
        let w = seq!['n', 'a', 'n'];
        if ok {
            assert forall|i: int| 0 <= i < t@.len() implies ci_eq(#[trigger] t@[i], w[i]) by {
                if i == 0 {
                } else if i == 1 {
                } else {
                    assert(i == 2);
                }
            }
        }
    }
    ok
}

fn all_digits_exec(t: &str) -> (r: bool)
    ensures
        r == all_digit_chars(t@),
{
    let n = t.unicode_len();
    let mut i: usize = 0;
    while i < n
        invariant
            i <= n,
            n == t@.len(),
            forall|j: int| 0 <= j < i ==> is_digit_char(#[trigger] t@[j]),
        decreases n - i,
    {
        if !is_digit(t.get_char(i)) {
            return false;
        }
        i = i + 1;
    }
    true
}

fn is_mantissa_exec(m: &str) -> (r: bool)
    ensures
        r == is_mantissa(m@),
{
    let n = m.unicode_len();
    match find_char(m, '.') {
        Option::None => n > 0 && all_digits_exec(m),
        Option::Some(i) => {
            let a = m.substring_char(0, i);
            let b = m.substring_char(i + 1, n);
            proof {
                assert(a@ =~= m@.take(i as int));
                assert(b@ =~= m@.skip(i + 1));
            }
            (a.unicode_len() > 0 || b.unicode_len() > 0) && all_digits_exec(a) && all_digits_exec(b)
        },
    }
}

fn is_exponent_exec(x: &str) -> (r: bool)
    ensures
        r == is_exponent_part(x@),
{
    let n = x.unicode_len();
    let y = if n > 0 && (x.get_char(0) == '+' || x.get_char(0) == '-') {
        let y = x.substring_char(1, n);
        proof {
            assert(y@ =~= x@.skip(1));
        }
        y
    } else {
        x
    };
    y.unicode_len() > 0 && all_digits_exec(y)
}

/// Decides whether `text` is an acceptable vector-component literal.
pub fn is_float_lit(text: &str) -> (r: bool)
    ensures
        r == is_float_literal(text@),
{
    let n = text.unicode_len();
    let t = if n > 0 && (text.get_char(0) == '+' || text.get_char(0) == '-') {
        let t = text.substring_char(1, n);
        proof {
            assert(t@ =~= text@.skip(1));
        }
        t
    } else {
        text
    };
    if is_word_inf(t) || is_word_infinity(t) || is_word_nan(t) {
        return true;
    }
    let tn = t.unicode_len();
    match find_exp(t) {
        Option::None => is_mantissa_exec(t),
        Option::Some(i) => {
            let a = t.substring_char(0, i);
            let b = t.substring_char(i + 1, tn);
            proof {
                assert(a@ =~= t@.take(i as int));
                assert(b@ =~= t@.skip(i + 1));
            }
            is_mantissa_exec(a) && is_exponent_exec(b)
        },
    }
}

// ------------------------------------------------------------------
// Vector literals.
// ------------------------------------------------------------------

/// Splits the bracket interior at commas; every piece is trimmed and must
/// be an acceptable numeric literal.
pub open spec fn spec_parse_literal_list(content: Seq<char>) -> Result<Seq<Seq<char>>, Seq<char>>
    decreases content.len(),
    via spec_parse_literal_list_decreases
{
    match first_index_of(content, ',') {
        Option::None => {
            let t = trim_spec(content);
            if is_float_literal(t) {
                Result::Ok(seq![t])
            } else {
                Result::Err(msg_malformed_float(t))
            }
        },
        Option::Some(i) => {
            let t = trim_spec(content.take(i));
            if !is_float_literal(t) {
                Result::Err(msg_malformed_float(t))
            } else {
                match spec_parse_literal_list(content.skip(i + 1)) {
                    Result::Ok(rest) => Result::Ok(seq![t] + rest),
                    Result::Err(m) => Result::Err(m),
                }
            }
        },
    }
}

#[via_fn]
proof fn spec_parse_literal_list_decreases(content: Seq<char>) {
    lemma_first_index_bounds(content, ',');
}

fn parse_literal_list(content: &str) -> (r: Result<Vec<String>, String>)
    ensures
        match r {
            Result::Ok(v) => spec_parse_literal_list(content@) == Result::<
                Seq<Seq<char>>,
                Seq<char>,
            >::Ok(v.deep_view()),
            Result::Err(m) => spec_parse_literal_list(content@) == Result::<
                Seq<Seq<char>>,
                Seq<char>,
            >::Err(m@),
        },
    decreases content@.len(),
{
    let n = content.unicode_len();
    match find_char(content, ',') {
        Option::None => {
            let t = trim(content);
            if is_float_lit(t) {
                let mut v: Vec<String> = Vec::new();
                v.push(String::from_str(t));
                proof {
                    assert(v.deep_view() =~= seq![t@]);
                }
                Result::Ok(v)
            } else {
                Result::Err(err_with("Malformed float: ", t))
            }
        },
        Option::Some(i) => {
            let head = content.substring_char(0, i);
            proof {
                assert(head@ =~= content@.take(i as int));
            }
            let t = trim(head);
            if !is_float_lit(t) {
                return Result::Err(err_with("Malformed float: ", t));
            }
            let rest = content.substring_char(i + 1, n);
            proof {
                assert(rest@ =~= content@.skip(i + 1));
            }
            match parse_literal_list(rest) {
                Result::Ok(rest_elems) => {
                    let mut rest_elems = rest_elems;
                    let mut v: Vec<String> = Vec::new();
                    v.push(String::from_str(t));
                    let ghost rest_dv = rest_elems.deep_view();
                    v.append(&mut rest_elems);
                    proof {
                        assert(v.deep_view() =~= seq![t@] + rest_dv);
                    }
                    Result::Ok(v)
                },
                Result::Err(m) => Result::Err(m),
            }
        },
    }
}

/// What `parse_vector` returns on a given suffix: the literal components
/// and the text after the closing bracket, or the error earned.
pub open spec fn spec_parse_vector(s: Seq<char>) -> Result<(Seq<Seq<char>>, Seq<char>), Seq<char>> {
    if s.len() == 0 || s[0] != '[' {
        Result::Err(msg_missing_left_bracket(s))
    } else {
        let rest = s.skip(1);
        match first_index_of(rest, ']') {
            Option::None => Result::Err(msg_missing_right_bracket(s)),
            Option::Some(rb) => {
                let content = rest.take(rb);
                let rem = rest.skip(rb + 1);
                match spec_parse_literal_list(content) {
                    Result::Ok(elems) => Result::Ok((elems, rem)),
                    Result::Err(m) => Result::Err(m),
                }
            },
        }
    }
}

/// Parses `[lit, lit, ...]`, returning the components and the remaining
/// suffix.
pub fn parse_vector<'a>(text: &'a str) -> (r: Result<(Vec<String>, &'a str), String>)
    ensures
        match r {
            Result::Ok((v, rem)) => spec_parse_vector(text@) == Result::<
                (Seq<Seq<char>>, Seq<char>),
                Seq<char>,
            >::Ok((v.deep_view(), rem@)),
            Result::Err(m) => spec_parse_vector(text@) == Result::<
                (Seq<Seq<char>>, Seq<char>),
                Seq<char>,
            >::Err(m@),
        },
{
    let n = text.unicode_len();
    if n == 0 || text.get_char(0) != '[' {
        return Result::Err(err_with("Missing left bracket for vector: ", text));
    }
    let rest = text.substring_char(1, n);
    proof {
        assert(rest@ =~= text@.skip(1));
    }
    let rn = rest.unicode_len();
    match find_char(rest, ']') {
        Option::None => Result::Err(err_with("Missing right bracket for vector: ", text)),
        Option::Some(rb) => {
            let content = rest.substring_char(0, rb);
            let rem = rest.substring_char(rb + 1, rn);
            proof {
                assert(content@ =~= rest@.take(rb as int));
                assert(rem@ =~= rest@.skip(rb + 1));
            }
            match parse_literal_list(content) {
                Result::Ok(elems) => Result::Ok((elems, rem)),
                Result::Err(m) => Result::Err(m),
            }
        },
    }
}

// ------------------------------------------------------------------
// Term indices and references.
// ------------------------------------------------------------------

/// What `parse_term_index` returns: `p<digits>` or `n<digits>`, and the
/// suffix after the digits.
pub open spec fn spec_parse_term_index(s: Seq<char>) -> Result<(TermIndex, Seq<char>), Seq<char>> {
    if s.len() == 0 || (s[0] != 'p' && s[0] != 'n') {
        Result::Err(msg_cannot_parse_term_index(s))
    } else {
        let rest = s.skip(1);
        if rest.len() == 0 {
            Result::Err(msg_ran_out_term_index(s))
        } else {
            let dlen = digit_prefix_len(rest) as int;
            let digits = rest.take(dlen);
            if dlen == 0 || digits_value(digits) > usize::MAX {
                Result::Err(msg_malformed_integer(digits))
            } else {
                let v = digits_value(digits) as usize;
                if s[0] == 'p' {
                    Result::Ok((TermIndex::Primitive(v), rest.skip(dlen)))
                } else {
                    Result::Ok((TermIndex::NonPrimitive(v), rest.skip(dlen)))
                }
            }
        }
    }
}

/// Parses a term index of the form `p<digits>` or `n<digits>`.
pub fn parse_term_index<'a>(text: &'a str) -> (r: Result<(TermIndex, &'a str), String>)
    ensures
        match r {
            Result::Ok((ti, rem)) => spec_parse_term_index(text@) == Result::<
                (TermIndex, Seq<char>),
                Seq<char>,
            >::Ok((ti, rem@)),
            Result::Err(m) => spec_parse_term_index(text@) == Result::<
                (TermIndex, Seq<char>),
                Seq<char>,
            >::Err(m@),
        },
{
    let n = text.unicode_len();
    if n == 0 || (text.get_char(0) != 'p' && text.get_char(0) != 'n') {
        return Result::Err(err_with("Cannot parse term index ", text));
    }
    let is_primitive = text.get_char(0) == 'p';
    let rest = text.substring_char(1, n);
    proof {
        assert(rest@ =~= text@.skip(1));
    }
    let rn = rest.unicode_len();
    if rn == 0 {
        return Result::Err(err_with("Ran out of input while parsing term index: ", text));
    }
    let dlen = digit_run_end(rest);
    let digits = rest.substring_char(0, dlen);
    proof {
        assert(digits@ =~= rest@.take(dlen as int));
        lemma_digit_prefix_le_len(rest@);
        assert forall|i: int| 0 <= i < digits@.len() implies is_digit_char(
            #[trigger] digits@[i],
        ) by {
            assert(digits@[i] == rest@[i]);
        }
    }
    if dlen == 0 {
        return Result::Err(err_with("Malformed integer: ", digits));
    }
    match parse_decimal(digits) {
        Option::None => Result::Err(err_with("Malformed integer: ", digits)),
        Option::Some(v) => {
            let rem = rest.substring_char(dlen, rn);
            proof {
                assert(rem@ =~= rest@.skip(dlen as int));
            }
            if is_primitive {
                Result::Ok((TermIndex::Primitive(v), rem))
            } else {
                Result::Ok((TermIndex::NonPrimitive(v), rem))
            }
        },
    }
}

/// What `parse_reference` returns: `#<type>` followed by a vector literal
/// or a term index.
pub open spec fn spec_parse_reference(s: Seq<char>) -> Result<(TermRefView, Seq<char>), Seq<char>> {
    if s.len() == 0 || s[0] != '#' {
        Result::Err(msg_missing_pound(s))
    } else {
        let rest = s.skip(1);
        let dlen = digit_prefix_len(rest) as int;
        if dlen == rest.len() {
            Result::Err(msg_ran_out_reference(s))
        } else {
            let digits = rest.take(dlen);
            let suffix = rest.skip(dlen);
            if dlen == 0 || digits_value(digits) > usize::MAX {
                Result::Err(msg_malformed_integer(digits))
            } else {
                let t = digits_value(digits) as usize;
                if suffix[0] == '[' {
                    match spec_parse_vector(suffix) {
                        Result::Ok((elems, rem)) => Result::Ok((TermRefView::Vector(t, elems), rem)),
                        Result::Err(m) => Result::Err(m),
                    }
                } else {
                    match spec_parse_term_index(suffix) {
                        Result::Ok((ti, rem)) => Result::Ok(
                            (TermRefView::Func(TermPointer { type_id: t, index: ti }), rem),
                        ),
                        Result::Err(m) => Result::Err(m),
                    }
                }
            }
        }
    }
}

/// Parses a reference: `#` then a decimal type id, then either a vector
/// literal (`[`) or a term index (`p`/`n`).
pub fn parse_reference<'a>(text: &'a str) -> (r: Result<(TermReference, &'a str), String>)
    ensures
        match r {
            Result::Ok((term_ref, rem)) => spec_parse_reference(text@) == Result::<
                (TermRefView, Seq<char>),
                Seq<char>,
            >::Ok((term_ref@, rem@)),
            Result::Err(m) => spec_parse_reference(text@) == Result::<
                (TermRefView, Seq<char>),
                Seq<char>,
            >::Err(m@),
        },
{
    let n = text.unicode_len();
    if n == 0 || text.get_char(0) != '#' {
        return Result::Err(err_with("Missing pound sign for reference: ", text));
    }
    let rest = text.substring_char(1, n);
    proof {
        assert(rest@ =~= text@.skip(1));
    }
    let rn = rest.unicode_len();
    let dlen = digit_run_end(rest);
    if dlen == rn {
        return Result::Err(err_with("Ran out of input while parsing reference: ", text));
    }
    let digits = rest.substring_char(0, dlen);
    let suffix = rest.substring_char(dlen, rn);
    proof {
        assert(digits@ =~= rest@.take(dlen as int));
        assert(suffix@ =~= rest@.skip(dlen as int));
        lemma_digit_prefix_le_len(rest@);
        assert forall|i: int| 0 <= i < digits@.len() implies is_digit_char(
            #[trigger] digits@[i],
        ) by {
            assert(digits@[i] == rest@[i]);
        }
    }
    if dlen == 0 {
        return Result::Err(err_with("Malformed integer: ", digits));
    }
    match parse_decimal(digits) {
        Option::None => Result::Err(err_with("Malformed integer: ", digits)),
        Option::Some(type_number) => {
            if suffix.get_char(0) == '[' {
                match parse_vector(suffix) {
                    Result::Ok((vec, remaining)) => Result::Ok(
                        (TermReference::VecRef(type_number, vec), remaining),
                    ),
                    Result::Err(m) => Result::Err(m),
                }
            } else {
                match parse_term_index(suffix) {
                    Result::Ok((term_index, remaining)) => {
                        let term_ptr = TermPointer { type_id: type_number, index: term_index };
                        Result::Ok((TermReference::FuncRef(term_ptr), remaining))
                    },
                    Result::Err(m) => Result::Err(m),
                }
            }
        },
    }
}

// ------------------------------------------------------------------
// Identifiers.
// ------------------------------------------------------------------

/// What `parse_identifier` returns: the environment's value for the run of
/// characters before the first whitespace or `)`, which must be bound.
pub open spec fn spec_parse_identifier(
    s: Seq<char>,
    env: Map<Seq<char>, TermRefView>,
) -> Result<(TermRefView, Seq<char>), Seq<char>> {
    match first_break_index(s) {
        Option::None => Result::Err(msg_ran_out_identifier(s)),
        Option::Some(end) => {
            let id = s.take(end);
            if env.contains_key(id) {
                Result::Ok((env[id], s.skip(end)))
            } else {
                Result::Err(lookup_err_msg(id))
            }
        },
    }
}

/// Parses an identifier and resolves it against the binding environment;
/// an unbound identifier is a parse-time failure.
pub fn parse_identifier<'a>(text: &'a str, bindings: &Bindings) -> (r: Result<
    (TermReference, &'a str),
    String,
>)
    ensures
        match r {
            Result::Ok((term_ref, rem)) => spec_parse_identifier(text@, bindings@) == Result::<
                (TermRefView, Seq<char>),
                Seq<char>,
            >::Ok((term_ref@, rem@)),
            Result::Err(m) => spec_parse_identifier(text@, bindings@) == Result::<
                (TermRefView, Seq<char>),
                Seq<char>,
            >::Err(m@),
        },
{
    let n = text.unicode_len();
    match find_break(text) {
        Option::None => Result::Err(err_with("Ran out of input while parsing identifier: ", text)),
        Option::Some(end) => {
            let identifier_content = text.substring_char(0, end);
            let suffix = text.substring_char(end, n);
            proof {
                assert(identifier_content@ =~= text@.take(end as int));
                assert(suffix@ =~= text@.skip(end as int));
            }
            match bindings.lookup(identifier_content) {
                Result::Ok(term_ref) => Result::Ok((term_ref, suffix)),
                Result::Err(m) => Result::Err(m),
            }
        },
    }
}


// ------------------------------------------------------------------
// Atoms and s-expressions.
// ------------------------------------------------------------------

/// What `parse_atom` returns: the next character alone decides between a
/// sub-expression, a reference and an identifier.
pub open spec fn spec_parse_atom(s: Seq<char>, env: Map<Seq<char>, TermRefView>) -> Result<
    (ExprView, Seq<char>),
    Seq<char>,
>
    decreases s.len(), 1int,
{
    if s.len() == 0 {
        Result::Err(msg_cannot_parse_atom())
    } else if s[0] == '(' {
        match spec_parse_s_expression(s, env) {
            Result::Ok((app, rem)) => Result::Ok((ExprView::App(Box::new(app)), rem)),
            Result::Err(m) => Result::Err(m),
        }
    } else if s[0] == '#' {
        match spec_parse_reference(s) {
            Result::Ok((term_ref, rem)) => Result::Ok((ExprView::Ref(term_ref), rem)),
            Result::Err(m) => Result::Err(m),
        }
    } else {
        match spec_parse_identifier(s, env) {
            Result::Ok((term_ref, rem)) => Result::Ok((ExprView::Ref(term_ref), rem)),
            Result::Err(m) => Result::Err(m),
        }
    }
}

/// The atoms of an s-expression interior, up to and beyond the closing
/// parenthesis.  `orig` is the full text of the s-expression, quoted by
/// the running-out error.
pub open spec fn spec_parse_atoms(
    s: Seq<char>,
    env: Map<Seq<char>, TermRefView>,
    orig: Seq<char>,
) -> Result<(Seq<ExprView>, Seq<char>), Seq<char>>
    decreases s.len(), 2int,
{
    if s.len() == 0 {
        Result::Err(msg_ran_out_sexpr(orig))
    } else if s[0] == ')' {
        Result::Ok((Seq::empty(), s.skip(1)))
    } else {
        match spec_parse_atom(s, env) {
            Result::Err(m) => Result::Err(m),
            Result::Ok((e, rest)) => {
                let rest2 = trim_start_spec(rest);
                // A parsed atom always consumes at least one character
                // (`lemma_parse_atom_consumes`), so the guard below holds
                // on every reachable path; it renders the recursion
                // visibly well-founded.
                if rest2.len() < s.len() {
                    match spec_parse_atoms(rest2, env, orig) {
                        Result::Ok((es, rem)) => Result::Ok((seq![e] + es, rem)),
                        Result::Err(m) => Result::Err(m),
                    }
                } else {
                    Result::Err(msg_ran_out_sexpr(orig))
                }
            },
        }
    }
}

/// What `parse_s_expression` returns: the application built from the
/// atoms between the parentheses, and the text after the closing one.
pub open spec fn spec_parse_s_expression(
    s: Seq<char>,
    env: Map<Seq<char>, TermRefView>,
) -> Result<(AppExprView, Seq<char>), Seq<char>>
    decreases s.len(), 0int,
    via spec_parse_s_expression_decreases
{
    if s.len() == 0 || s[0] != '(' {
        Result::Err(msg_missing_left_paren(s))
    } else {
        let interior = trim_start_spec(s.skip(1));
        match spec_parse_atoms(interior, env, s) {
            Result::Err(m) => Result::Err(m),
            Result::Ok((atom_views, rem)) => match build_application_spec(atom_views) {
                Result::Ok(app) => Result::Ok((app, rem)),
                Result::Err(m) => Result::Err(m),
            },
        }
    }
}

#[via_fn]
proof fn spec_parse_s_expression_decreases(s: Seq<char>, env: Map<Seq<char>, TermRefView>) {
    if s.len() > 0 {
        lemma_trim_start_trimmed(s.skip(1));
    }
}

/// A successful reference parse consumes at least one character.
pub proof fn lemma_parse_reference_consumes(s: Seq<char>)
    ensures
        match spec_parse_reference(s) {
            Result::Ok((term_ref, rem)) => rem.len() < s.len(),
            Result::Err(m) => true,
        },
{
    if s.len() > 0 && s[0] == '#' {
        let rest = s.skip(1);
        let dlen = digit_prefix_len(rest) as int;
        lemma_digit_prefix_le_len(rest);
        if dlen < rest.len() {
            let suffix = rest.skip(dlen);
            assert(suffix.len() == s.len() - 1 - dlen);
            if suffix[0] == '[' {
                let rest_v = suffix.skip(1);
                lemma_first_index_bounds(rest_v, ']');
                match first_index_of(rest_v, ']') {
                    Option::Some(rb) => {
                        assert(rest_v.skip(rb + 1).len() < s.len());
                    },
                    Option::None => {},
                }
            } else {
                let rest_t = suffix.skip(1);
                lemma_digit_prefix_le_len(rest_t);
                let dt = digit_prefix_len(rest_t) as int;
                assert(rest_t.skip(dt).len() < s.len());
            }
        }
    }
}

/// A successful atom parse consumes at least one character, provided the
/// text begins with neither whitespace nor a closing parenthesis.
pub proof fn lemma_parse_atom_consumes(s: Seq<char>, env: Map<Seq<char>, TermRefView>)
    requires
        s.len() > 0,
        !is_ws_char(s[0]),
        s[0] != ')',
    ensures
        match spec_parse_atom(s, env) {
            Result::Ok((e, rest)) => rest.len() < s.len(),
            Result::Err(m) => true,
        },
    decreases s.len(), 1int,
{
    if s[0] == '(' {
        lemma_parse_sexpr_consumes(s, env);
    } else if s[0] == '#' {
        lemma_parse_reference_consumes(s);
    } else {
        lemma_first_break_bounds(s);
        match first_break_index(s) {
            Option::Some(end) => {
                assert(end >= 1) by {
                    assert(!is_break_char(s[0]));
                }
            },
            Option::None => {},
        }
    }
}

/// The atom list of an s-expression interior consumes at least the
/// closing parenthesis.
pub proof fn lemma_parse_atoms_consumes(
    s: Seq<char>,
    env: Map<Seq<char>, TermRefView>,
    orig: Seq<char>,
)
    requires
        ws_prefix_len(s) == 0,
    ensures
        match spec_parse_atoms(s, env, orig) {
            Result::Ok((es, rem)) => rem.len() < s.len(),
            Result::Err(m) => true,
        },
    decreases s.len(), 2int,
{
    if s.len() == 0 {
    } else if s[0] == ')' {
    } else {
        assert(!is_ws_char(s[0]));
        lemma_parse_atom_consumes(s, env);
        match spec_parse_atom(s, env) {
            Result::Ok((e, rest)) => {
                let rest2 = trim_start_spec(rest);
                lemma_trim_start_trimmed(rest);
                if rest2.len() < s.len() {
                    lemma_parse_atoms_consumes(rest2, env, orig);
                }
            },
            Result::Err(m) => {},
        }
    }
}

/// A successful s-expression parse consumes at least one character.
pub proof fn lemma_parse_sexpr_consumes(s: Seq<char>, env: Map<Seq<char>, TermRefView>)
    ensures
        match spec_parse_s_expression(s, env) {
            Result::Ok((app, rem)) => rem.len() < s.len(),
            Result::Err(m) => true,
        },
    decreases s.len(), 0int,
{
    if s.len() > 0 && s[0] == '(' {
        let interior = trim_start_spec(s.skip(1));
        lemma_trim_start_trimmed(s.skip(1));
        lemma_parse_atoms_consumes(interior, env, s);
    }
}

/// A successfully parsed s-expression is the strict left-associative
/// curried application of its atoms: at least two were present, the first
/// read in callee position, the second as the first argument, and every
/// further atom folded in on the left.
pub proof fn lemma_parse_builds_curried_tree(s: Seq<char>, env: Map<Seq<char>, TermRefView>)
    ensures
        match spec_parse_s_expression(s, env) {
            Result::Ok((app, rem)) => exists|atoms: Seq<ExprView>|
                {
                    &&& #[trigger] spec_parse_atoms(trim_start_spec(s.skip(1)), env, s)
                        == Result::<(Seq<ExprView>, Seq<char>), Seq<char>>::Ok((atoms, rem))
                    &&& atoms.len() >= 2
                    &&& func_of_expression(atoms[0]) is Some
                    &&& app == fold_app(
                        AppExprView {
                            func: func_of_expression(atoms[0])->Some_0,
                            arg: atoms[1],
                        },
                        atoms.skip(2),
                    )
                },
            Result::Err(m) => true,
        },
{
    match spec_parse_s_expression(s, env) {
        Result::Ok((app, rem)) => {
            let interior = trim_start_spec(s.skip(1));
            match spec_parse_atoms(interior, env, s) {
                Result::Ok((atoms, rem0)) => {
                    assert(spec_parse_atoms(interior, env, s) == Result::<
                        (Seq<ExprView>, Seq<char>),
                        Seq<char>,
                    >::Ok((atoms, rem)));
                },
                Result::Err(_) => {},
            }
        },
        Result::Err(_) => {},
    }
}

/// Parses the interior of an s-expression: atoms until the closing
/// parenthesis, each separated by whitespace.
fn parse_atom_list<'a>(current: &'a str, orig: &str, bindings: &Bindings) -> (r: Result<
    (Vec<Expression>, &'a str),
    String,
>)
    requires
        ws_prefix_len(current@) == 0,
    ensures
        match r {
            Result::Ok((es, rem)) => spec_parse_atoms(current@, bindings@, orig@) == Result::<
                (Seq<ExprView>, Seq<char>),
                Seq<char>,
            >::Ok((es.deep_view(), rem@)),
            Result::Err(m) => spec_parse_atoms(current@, bindings@, orig@) == Result::<
                (Seq<ExprView>, Seq<char>),
                Seq<char>,
            >::Err(m@),
        },
    decreases current@.len(), 2int,
{
    let n = current.unicode_len();
    if n == 0 {
        return Result::Err(err_with("Ran out of input while parsing s-expression: ", orig));
    }
    if current.get_char(0) == ')' {
        let rem = current.substring_char(1, n);
        let empty_atoms: Vec<Expression> = Vec::new();
        proof {
            assert(rem@ =~= current@.skip(1));
            assert(empty_atoms.deep_view() =~= Seq::<ExprView>::empty());
        }
        return Result::Ok((empty_atoms, rem));
    }
    match parse_atom(current, bindings) {
        Result::Err(m) => Result::Err(m),
        Result::Ok((atom_expr, modified)) => {
            proof {
                assert(!is_ws_char(current@[0]));
                lemma_parse_atom_consumes(current@, bindings@);
                lemma_trim_start_trimmed(modified@);
            }
            let next = trim_start(modified);
            match parse_atom_list(next, orig, bindings) {
                Result::Err(m) => Result::Err(m),
                Result::Ok((es, rem)) => {
                    let mut es = es;
                    let ghost tail_views = es.deep_view();
                    es.insert(0, atom_expr);
                    proof {
                        assert forall|j: int| 0 <= j < es.deep_view().len() implies
                            es.deep_view()[j] == (seq![atom_expr@] + tail_views)[j] by {
                            if j > 0 {
                                assert(es@[j] == es@.subrange(1, es@.len() as int)[j - 1]);
                            }
                        }
                        assert(es.deep_view() =~= seq![atom_expr@] + tail_views);
                    }
                    Result::Ok((es, rem))
                },
            }
        },
    }
}

/// Parses `(_* atom atom ... _*)`: at least two atoms are required, the
/// first of which becomes the callee of a curried application.
pub fn parse_s_expression<'a>(text: &'a str, bindings: &Bindings) -> (r: Result<
    (AppExpression, &'a str),
    String,
>)
    ensures
        match r {
            Result::Ok((app, rem)) => spec_parse_s_expression(text@, bindings@) == Result::<
                (AppExprView, Seq<char>),
                Seq<char>,
            >::Ok((app@, rem@)),
            Result::Err(m) => spec_parse_s_expression(text@, bindings@) == Result::<
                (AppExprView, Seq<char>),
                Seq<char>,
            >::Err(m@),
        },
    decreases text@.len(), 0int,
{
    let n = text.unicode_len();
    if n == 0 || text.get_char(0) != '(' {
        return Result::Err(err_with("Missing left paren for sub-expression: ", text));
    }
    let without_left_paren = text.substring_char(1, n);
    proof {
        assert(without_left_paren@ =~= text@.skip(1));
        lemma_trim_start_trimmed(text@.skip(1));
    }
    let interior = trim_start(without_left_paren);
    match parse_atom_list(interior, text, bindings) {
        Result::Err(m) => Result::Err(m),
        Result::Ok((atom_exprs, rem)) => match build_application(atom_exprs) {
            Result::Ok(result_expr) => Result::Ok((result_expr, rem)),
            Result::Err(m) => Result::Err(m),
        },
    }
}

/// Parses one atom: a sub-expression, a reference, or an identifier.
pub fn parse_atom<'a>(text: &'a str, bindings: &Bindings) -> (r: Result<
    (Expression, &'a str),
    String,
>)
    ensures
        match r {
            Result::Ok((e, rem)) => spec_parse_atom(text@, bindings@) == Result::<
                (ExprView, Seq<char>),
                Seq<char>,
            >::Ok((e@, rem@)),
            Result::Err(m) => spec_parse_atom(text@, bindings@) == Result::<
                (ExprView, Seq<char>),
                Seq<char>,
            >::Err(m@),
        },
    decreases text@.len(), 1int,
{
    let n = text.unicode_len();
    if n == 0 {
        return Result::Err(String::from_str("Cannot parse atom: empty text"));
    }
    let c = text.get_char(0);
    if c == '(' {
        match parse_s_expression(text, bindings) {
            Result::Ok((app_expr, updated_text)) => Result::Ok(
                (Expression::App(app_expr), updated_text),
            ),
            Result::Err(m) => Result::Err(m),
        }
    } else if c == '#' {
        match parse_reference(text) {
            Result::Ok((ref_expr, updated_text)) => Result::Ok(
                (Expression::Ref(ref_expr), updated_text),
            ),
            Result::Err(m) => Result::Err(m),
        }
    } else {
        match parse_identifier(text, bindings) {
            Result::Ok((ref_expr, updated_text)) => Result::Ok(
                (Expression::Ref(ref_expr), updated_text),
            ),
            Result::Err(m) => Result::Err(m),
        }
    }
}


// ------------------------------------------------------------------
// The command line.
// ------------------------------------------------------------------

pub open spec fn msg_unrecognized_primitive(cmd: Seq<char>) -> Seq<char> {
    cmd + " is not a recognized command (without arguments)"@
}

pub open spec fn msg_unrecognized_argumented(cmd: Seq<char>) -> Seq<char> {
    cmd + " is not a recognized command (with arguments)"@
}

pub open spec fn msg_bad_let_body(body: Seq<char>) -> Seq<char> {
    "Let body "@ + body + " does not have the format [var] = [expr]"@
}

pub open spec fn spec_parse_primitive_command(cmd: Seq<char>) -> Result<CommandView, Seq<char>> {
    if cmd == "unload_context"@ {
        Result::Ok(CommandView::UnloadContext)
    } else if cmd == "list_types"@ {
        Result::Ok(CommandView::Contextual(ContextualCommandView::ListTypes))
    } else if cmd == "help"@ {
        Result::Ok(CommandView::Help)
    } else {
        Result::Err(msg_unrecognized_primitive(cmd))
    }
}

pub open spec fn spec_parse_let(body: Seq<char>) -> Result<CommandView, Seq<char>> {
    match first_index_of(body, '=') {
        Option::Some(i) => Result::Ok(
            CommandView::Contextual(
                ContextualCommandView::Let(trim_spec(body.take(i)), trim_spec(body.skip(i + 1))),
            ),
        ),
        Option::None => Result::Err(msg_bad_let_body(body)),
    }
}

pub open spec fn spec_parse_argumented_command(cmd: Seq<char>, rest: Seq<char>) -> Result<
    CommandView,
    Seq<char>,
> {
    if cmd == "parse"@ {
        Result::Ok(CommandView::Parse(rest))
    } else if cmd == "generate_context"@ {
        Result::Ok(CommandView::GenerateContextFromPath(rest))
    } else if cmd == "load_context"@ {
        Result::Ok(CommandView::LoadContextFromPath(rest))
    } else if cmd == "let"@ {
        spec_parse_let(rest)
    } else if cmd == "evaluate"@ || cmd == "eval"@ {
        Result::Ok(CommandView::Contextual(ContextualCommandView::Evaluate(rest)))
    } else if cmd == "simulate"@ || cmd == "sim"@ {
        Result::Ok(CommandView::Contextual(ContextualCommandView::Simulate(rest)))
    } else if cmd == "list_primitive_terms"@ || cmd == "list_prim_terms"@ {
        Result::Ok(CommandView::Contextual(ContextualCommandView::ListPrimitiveTerms(rest)))
    } else if cmd == "save_context"@ {
        Result::Ok(CommandView::Contextual(ContextualCommandView::SaveContextToPath(rest)))
    } else if cmd == "load_models"@ {
        Result::Ok(CommandView::Contextual(ContextualCommandView::LoadModelsFromPath(rest)))
    } else if cmd == "save_models"@ {
        Result::Ok(CommandView::Contextual(ContextualCommandView::SaveModelsToPath(rest)))
    } else {
        Result::Err(msg_unrecognized_argumented(cmd))
    }
}

pub open spec fn spec_parse_command_line(text: Seq<char>) -> Result<CommandView, Seq<char>> {
    let trimmed = trim_spec(text);
    match first_index_of(trimmed, ' ') {
        Option::Some(i) => spec_parse_argumented_command(
            trimmed.take(i),
            trim_spec(trimmed.skip(i + 1)),
        ),
        Option::None => spec_parse_primitive_command(trimmed),
    }
}

/// Parses a command without arguments.
pub fn parse_primitive_command(command_text: &str) -> (r: Result<Command, String>)
    ensures
        match r {
            Result::Ok(c) => spec_parse_primitive_command(command_text@) == Result::<
                CommandView,
                Seq<char>,
            >::Ok(c@),
            Result::Err(m) => spec_parse_primitive_command(command_text@) == Result::<
                CommandView,
                Seq<char>,
            >::Err(m@),
        },
{
    if str_eq(command_text, "unload_context") {
        Result::Ok(Command::UnloadContext)
    } else if str_eq(command_text, "list_types") {
        Result::Ok(Command::Contextual(ContextualCommand::ListTypes))
    } else if str_eq(command_text, "help") {
        Result::Ok(Command::Help)
    } else {
        let mut m = String::from_str(command_text);
        m.append(" is not a recognized command (without arguments)");
        Result::Err(m)
    }
}

/// Parses the body of a `let`: `[var] = [expr]`.
pub fn parse_let(let_body_text: &str) -> (r: Result<Command, String>)
    ensures
        match r {
            Result::Ok(c) => spec_parse_let(let_body_text@) == Result::<
                CommandView,
                Seq<char>,
            >::Ok(c@),
            Result::Err(m) => spec_parse_let(let_body_text@) == Result::<
                CommandView,
                Seq<char>,
            >::Err(m@),
        },
{
    let n = let_body_text.unicode_len();
    match find_char(let_body_text, '=') {
        Option::Some(i) => {
            let untrimmed_var_text = let_body_text.substring_char(0, i);
            let untrimmed_expr_text = let_body_text.substring_char(i + 1, n);
            proof {
                assert(untrimmed_var_text@ =~= let_body_text@.take(i as int));
                assert(untrimmed_expr_text@ =~= let_body_text@.skip(i + 1));
            }
            let var_text = trim(untrimmed_var_text);
            let expr_text = trim(untrimmed_expr_text);
            Result::Ok(
                Command::Contextual(
                    ContextualCommand::Let(
                        String::from_str(var_text),
                        String::from_str(expr_text),
                    ),
                ),
            )
        },
        Option::None => {
            let mut m = String::from_str("Let body ");
            m.append(let_body_text);
            m.append(" does not have the format [var] = [expr]");
            proof {
                assert(m@ =~= msg_bad_let_body(let_body_text@));
            }
            Result::Err(m)
        },
    }
}

/// Parses a command that carries an argument text.
pub fn parse_argumented_command(command_text: &str, trimmed_rest: &str) -> (r: Result<
    Command,
    String,
>)
    ensures
        match r {
            Result::Ok(c) => spec_parse_argumented_command(command_text@, trimmed_rest@)
                == Result::<CommandView, Seq<char>>::Ok(c@),
            Result::Err(m) => spec_parse_argumented_command(command_text@, trimmed_rest@)
                == Result::<CommandView, Seq<char>>::Err(m@),
        },
{
    if str_eq(command_text, "parse") {
        Result::Ok(Command::Parse(String::from_str(trimmed_rest)))
    } else if str_eq(command_text, "generate_context") {
        Result::Ok(Command::GenerateContextFromPath(String::from_str(trimmed_rest)))
    } else if str_eq(command_text, "load_context") {
        Result::Ok(Command::LoadContextFromPath(String::from_str(trimmed_rest)))
    } else if str_eq(command_text, "let") {
        parse_let(trimmed_rest)
    } else if str_eq(command_text, "evaluate") || str_eq(command_text, "eval") {
        Result::Ok(
            Command::Contextual(ContextualCommand::Evaluate(String::from_str(trimmed_rest))),
        )
    } else if str_eq(command_text, "simulate") || str_eq(command_text, "sim") {
        Result::Ok(
            Command::Contextual(ContextualCommand::Simulate(String::from_str(trimmed_rest))),
        )
    } else if str_eq(command_text, "list_primitive_terms") || str_eq(
        command_text,
        "list_prim_terms",
    ) {
        Result::Ok(
            Command::Contextual(
                ContextualCommand::ListPrimitiveTerms(String::from_str(trimmed_rest)),
            ),
        )
    } else if str_eq(command_text, "save_context") {
        Result::Ok(
            Command::Contextual(
                ContextualCommand::SaveContextToPath(String::from_str(trimmed_rest)),
            ),
        )
    } else if str_eq(command_text, "load_models") {
        Result::Ok(
            Command::Contextual(
                ContextualCommand::LoadModelsFromPath(String::from_str(trimmed_rest)),
            ),
        )
    } else if str_eq(command_text, "save_models") {
        Result::Ok(
            Command::Contextual(
                ContextualCommand::SaveModelsToPath(String::from_str(trimmed_rest)),
            ),
        )
    } else {
        let mut m = String::from_str(command_text);
        m.append(" is not a recognized command (with arguments)");
        Result::Err(m)
    }
}

/// Parses one command line: the first word selects the command, the rest
/// is its argument text.
pub fn parse_command_line(text: &str) -> (r: Result<Command, String>)
    ensures
        match r {
            Result::Ok(c) => spec_parse_command_line(text@) == Result::<
                CommandView,
                Seq<char>,
            >::Ok(c@),
            Result::Err(m) => spec_parse_command_line(text@) == Result::<
                CommandView,
                Seq<char>,
            >::Err(m@),
        },
{
    let trimmed_text = trim(text);
    let n = trimmed_text.unicode_len();
    match find_char(trimmed_text, ' ') {
        Option::Some(i) => {
            let command_text = trimmed_text.substring_char(0, i);
            let rest_text = trimmed_text.substring_char(i + 1, n);
            proof {
                assert(command_text@ =~= trim_spec(text@).take(i as int));
                assert(rest_text@ =~= trim_spec(text@).skip(i + 1));
            }
            let trimmed_rest = trim(rest_text);
            parse_argumented_command(command_text, trimmed_rest)
        },
        Option::None => parse_primitive_command(trimmed_text),
    }
}


// ------------------------------------------------------------------
// Round trips: rendering a term reference and parsing it back gives the
// same reference.  This is the general form behind the vector-literal and
// term-index round trips.
// ------------------------------------------------------------------

/// The characters an acceptable numeric literal can contain.
pub open spec fn is_literal_char(c: char) -> bool {
    is_digit_char(c) || c == '.' || c == '+' || c == '-' || is_exp_char(c) || ci_eq(c, 'i')
        || ci_eq(c, 'n') || ci_eq(c, 'f') || ci_eq(c, 't') || ci_eq(c, 'y') || ci_eq(c, 'a')
}

/// No literal character is a comma, a bracket, or whitespace, so a
/// literal never collides with the vector syntax around it.
pub proof fn lemma_literal_char_no_breaks(c: char)
    requires
        is_literal_char(c),
    ensures
        c != ',' && c != '[' && c != ']' && !is_ws_char(c),
{
}

proof fn lemma_mantissa_chars(m: Seq<char>)
    requires
        is_mantissa(m),
    ensures
        forall|i: int| 0 <= i < m.len() ==> is_literal_char(#[trigger] m[i]),
{
    lemma_first_index_bounds(m, '.');
    match first_index_of(m, '.') {
        Option::None => {},
        Option::Some(j) => {
            let a = m.take(j);
            let b = m.skip(j + 1);
            assert forall|i: int| 0 <= i < m.len() implies is_literal_char(#[trigger] m[i]) by {
                if i < j {
                    assert(a[i] == m[i]);
                } else if i == j {
                } else {
                    assert(b[i - j - 1] == m[i]);
                }
            }
        },
    }
}

proof fn lemma_exponent_chars(x: Seq<char>)
    requires
        is_exponent_part(x),
    ensures
        forall|i: int| 0 <= i < x.len() ==> is_literal_char(#[trigger] x[i]),
{
    if x.len() > 0 && (x[0] == '+' || x[0] == '-') {
        let y = x.skip(1);
        assert forall|i: int| 0 <= i < x.len() implies is_literal_char(#[trigger] x[i]) by {
            if i > 0 {
                assert(y[i - 1] == x[i]);
            }
        }
    }
}

proof fn lemma_exp_index_bounds(s: Seq<char>)
    ensures
        match first_exp_index(s) {
            Option::Some(i) => 0 <= i < s.len() && is_exp_char(s[i]),
            Option::None => true,
        },
    decreases s.len(),
{
    if s.len() > 0 && !is_exp_char(s[0]) {
        lemma_exp_index_bounds(s.skip(1));
    }
}

proof fn lemma_word_chars(t: Seq<char>, w: Seq<char>)
    requires
        is_ci_word(t, w),
        forall|j: int| 0 <= j < w.len() ==> is_literal_char(#[trigger] w[j]),
        forall|j: int|
            0 <= j < w.len() ==> (#[trigger] w[j] == 'i' || w[j] == 'n' || w[j] == 'f' || w[j]
                == 't' || w[j] == 'y' || w[j] == 'a'),
    ensures
        forall|i: int| 0 <= i < t.len() ==> is_literal_char(#[trigger] t[i]),
{
    assert forall|i: int| 0 <= i < t.len() implies is_literal_char(#[trigger] t[i]) by {
        assert(ci_eq(t[i], w[i]));
        assert(w[i] == 'i' || w[i] == 'n' || w[i] == 'f' || w[i] == 't' || w[i] == 'y' || w[i]
            == 'a');
    }
}

/// Every character of an acceptable numeric literal is a literal
/// character.
#[verifier::rlimit(50)]
pub proof fn lemma_float_literal_chars(s: Seq<char>)
    requires
        is_float_literal(s),
    ensures
        forall|i: int| 0 <= i < s.len() ==> is_literal_char(#[trigger] s[i]),
{
    let signed = s.len() > 0 && (s[0] == '+' || s[0] == '-');
    let t = if signed {
        s.skip(1)
    } else {
        s
    };
    let winf = seq!['i', 'n', 'f'];
    let winfinity = seq!['i', 'n', 'f', 'i', 'n', 'i', 't', 'y'];
    let wnan = seq!['n', 'a', 'n'];
    assert forall|j: int| 0 <= j < winf.len() implies (#[trigger] winf[j] == 'i' || winf[j] == 'n'
        || winf[j] == 'f' || winf[j] == 't' || winf[j] == 'y' || winf[j] == 'a') by {
        if j == 0 {
        } else if j == 1 {
        } else {
            assert(j == 2);
        }
    }
    assert forall|j: int| 0 <= j < winfinity.len() implies (#[trigger] winfinity[j] == 'i'
        || winfinity[j] == 'n' || winfinity[j] == 'f' || winfinity[j] == 't' || winfinity[j]
        == 'y' || winfinity[j] == 'a') by {
        if j == 0 {
        } else if j == 1 {
        } else if j == 2 {
        } else if j == 3 {
        } else if j == 4 {
        } else if j == 5 {
        } else if j == 6 {
        } else {
            assert(j == 7);
        }
    }
    assert forall|j: int| 0 <= j < wnan.len() implies (#[trigger] wnan[j] == 'i' || wnan[j] == 'n'
        || wnan[j] == 'f' || wnan[j] == 't' || wnan[j] == 'y' || wnan[j] == 'a') by {
        if j == 0 {
        } else if j == 1 {
        } else {
            assert(j == 2);
        }
    }
    assert forall|j: int| 0 <= j < winf.len() implies is_literal_char(#[trigger] winf[j]) by {
        if j == 0 {
        } else if j == 1 {
        } else {
            assert(j == 2);
        }
    }
    assert forall|j: int| 0 <= j < winfinity.len() implies is_literal_char(
        #[trigger] winfinity[j],
    ) by {
        if j == 0 {
        } else if j == 1 {
        } else if j == 2 {
        } else if j == 3 {
        } else if j == 4 {
        } else if j == 5 {
        } else if j == 6 {
        } else {
            assert(j == 7);
        }
    }
    assert forall|j: int| 0 <= j < wnan.len() implies is_literal_char(#[trigger] wnan[j]) by {
        if j == 0 {
        } else if j == 1 {
        } else {
            assert(j == 2);
        }
    }
    if is_ci_word(t, winf) {
        lemma_word_chars(t, winf);
    } else if is_ci_word(t, winfinity) {
        lemma_word_chars(t, winfinity);
    } else if is_ci_word(t, wnan) {
        lemma_word_chars(t, wnan);
    } else {
        lemma_exp_index_bounds(t);
        match first_exp_index(t) {
            Option::None => {
                lemma_mantissa_chars(t);
            },
            Option::Some(j) => {
                lemma_mantissa_chars(t.take(j));
                lemma_exponent_chars(t.skip(j + 1));
                assert forall|i: int| 0 <= i < t.len() implies is_literal_char(
                    #[trigger] t[i],
                ) by {
                    if i < j {
                        assert(t.take(j)[i] == t[i]);
                    } else if i == j {
                    } else {
                        assert(t.skip(j + 1)[i - j - 1] == t[i]);
                    }
                }
            },
        }
    }
    assert forall|i: int| 0 <= i < s.len() implies is_literal_char(#[trigger] s[i]) by {
        if signed && i == 0 {
        } else if signed {
            assert(t[i - 1] == s[i]);
        } else {
            assert(t[i] == s[i]);
        }
    }
}


/// A joined list of literals contains `,` only as a separator and never
/// `]` or `[`.
#[verifier::rlimit(50)]
proof fn lemma_join_chars(lits: Seq<Seq<char>>)
    requires
        forall|k: int| 0 <= k < lits.len() ==> is_float_literal(#[trigger] lits[k]),
    ensures
        forall|i: int|
            0 <= i < join_literals(lits).len() ==> (#[trigger] join_literals(lits)[i] != ']'
                && join_literals(lits)[i] != '['),
    decreases lits.len(),
{
    if lits.len() == 0 {
    } else if lits.len() == 1 {
        lemma_float_literal_chars(lits[0]);
        assert forall|i: int| 0 <= i < join_literals(lits).len() implies (
        #[trigger] join_literals(lits)[i] != ']' && join_literals(lits)[i] != '[') by {
            lemma_literal_char_no_breaks(lits[0][i]);
        }
    } else {
        lemma_float_literal_chars(lits[0]);
        lemma_join_chars(lits.skip(1));
        let l0 = lits[0];
        let sep = seq![',', ' '];
        let rest = join_literals(lits.skip(1));
        assert forall|i: int| 0 <= i < join_literals(lits).len() implies (
        #[trigger] join_literals(lits)[i] != ']' && join_literals(lits)[i] != '[') by {
            if i < l0.len() {
                assert(join_literals(lits)[i] == l0[i]);
                lemma_literal_char_no_breaks(l0[i]);
            } else if i < l0.len() + 2 {
                assert(join_literals(lits)[i] == sep[i - l0.len()]);
            } else {
                assert(join_literals(lits)[i] == rest[i - l0.len() - 2]);
            }
        }
    }
}

/// Splitting a joined literal list at its separators, trimming each
/// piece, gives the literals back; any leading whitespace before the
/// first literal is trimmed away.
#[verifier::rlimit(50)]
proof fn lemma_literal_list_round_trip(lead: Seq<char>, lits: Seq<Seq<char>>)
    requires
        lits.len() >= 1,
        forall|k: int| 0 <= k < lits.len() ==> is_float_literal(#[trigger] lits[k]),
        forall|i: int| 0 <= i < lead.len() ==> is_ws_char(#[trigger] lead[i]),
    ensures
        spec_parse_literal_list(lead + join_literals(lits)) == Result::<
            Seq<Seq<char>>,
            Seq<char>,
        >::Ok(lits),
    decreases lits.len(),
{
    let l0 = lits[0];
    lemma_float_literal_chars(l0);
    let s = lead + join_literals(lits);
    if lits.len() == 1 {
        assert(s =~= lead + l0);
        // No comma anywhere: the whole text is the one literal.
        assert forall|i: int| 0 <= i < s.len() implies #[trigger] s[i] != ',' by {
            if i >= lead.len() {
                lemma_literal_char_no_breaks(l0[i - lead.len()]);
            }
        }
        lemma_first_index_char(s, ',', s.len() as int);
        // Trimming strips the lead and nothing of the literal.
        assert forall|i: int| 0 <= i < lead.len() implies is_ws_char(#[trigger] s[i]) by {}
        if l0.len() > 0 {
            lemma_literal_char_no_breaks(l0[0]);
            assert(!is_ws_char(s[lead.len() as int]));
        }
        lemma_ws_prefix_char(s, lead.len() as int);
        let t = trim_start_spec(s);
        assert(t =~= l0);
        assert forall|i: int| 0 <= i < t.len() implies !is_ws_char(#[trigger] t[i]) by {
            lemma_literal_char_no_breaks(l0[i]);
        }
        lemma_ws_suffix_char(t, t.len() as int);
        assert(trim_spec(s) =~= l0);
        assert(seq![l0] =~= lits);
    } else {
        let sep = seq![',', ' '];
        let rest = join_literals(lits.skip(1));
        assert(join_literals(lits) == l0 + sep + rest);
        let cut = lead.len() + l0.len();
        // The first comma stands right after the first literal.
        assert forall|i: int| 0 <= i < cut implies #[trigger] s[i] != ',' by {
            if i >= lead.len() {
                assert(s[i] == l0[i - lead.len()]);
                lemma_literal_char_no_breaks(l0[i - lead.len()]);
            }
        }
        assert(s[cut as int] == ',');
        lemma_first_index_char(s, ',', cut as int);
        // The head piece trims to the first literal.
        let head = s.take(cut as int);
        assert(head =~= lead + l0);
        assert forall|i: int| 0 <= i < lead.len() implies is_ws_char(#[trigger] head[i]) by {}
        if l0.len() > 0 {
            lemma_literal_char_no_breaks(l0[0]);
            assert(!is_ws_char(head[lead.len() as int]));
        }
        lemma_ws_prefix_char(head, lead.len() as int);
        let t = trim_start_spec(head);
        assert(t =~= l0);
        assert forall|i: int| 0 <= i < t.len() implies !is_ws_char(#[trigger] t[i]) by {
            lemma_literal_char_no_breaks(l0[i]);
        }
        lemma_ws_suffix_char(t, t.len() as int);
        assert(trim_spec(head) =~= l0);
        // The tail recurses behind the separator's space.
        let tail = s.skip(cut + 1 as int);
        assert(tail =~= seq![' '] + join_literals(lits.skip(1)));
        lemma_literal_list_round_trip(seq![' '], lits.skip(1));
        assert(spec_parse_literal_list(tail) == Result::<Seq<Seq<char>>, Seq<char>>::Ok(
            lits.skip(1),
        ));
        assert(seq![l0] + lits.skip(1) =~= lits);
    }
}


/// Rendering a term index and parsing it back gives the index back and
/// consumes the whole text.
pub proof fn lemma_term_index_round_trip(term_index: TermIndex)
    ensures
        spec_parse_term_index(render_term_index_spec(term_index)) == Result::<
            (TermIndex, Seq<char>),
            Seq<char>,
        >::Ok((term_index, Seq::<char>::empty())),
{
    let s = render_term_index_spec(term_index);
    let i = match term_index {
        TermIndex::Primitive(i) => i,
        TermIndex::NonPrimitive(i) => i,
    };
    let digits = dec_digits(i as nat);
    assert(s =~= seq![s[0]] + digits);
    lemma_dec_digits_all_digits(i as nat);
    lemma_dec_digits_value(i as nat);
    let rest = s.skip(1);
    assert(rest =~= digits);
    lemma_digit_prefix_char(rest, rest.len() as int);
    assert(rest.take(rest.len() as int) =~= digits);
    assert(rest.skip(rest.len() as int) =~= Seq::<char>::empty());
}

/// A term reference with well-formed literal components renders to a text
/// that parses back to the same reference, consuming it whole.  This is
/// the round trip behind both the vector-literal and the term-index forms
/// of a reference; a vector reference needs at least one component, since
/// an empty bracket pair does not parse.
#[verifier::rlimit(50)]
pub proof fn lemma_term_ref_round_trip(term_ref: TermRefView)
    requires
        match term_ref {
            TermRefView::Func(_) => true,
            TermRefView::Vector(_, lits) => lits.len() >= 1 && forall|k: int|
                0 <= k < lits.len() ==> is_float_literal(#[trigger] lits[k]),
        },
    ensures
        spec_parse_reference(render_term_ref_spec(term_ref)) == Result::<
            (TermRefView, Seq<char>),
            Seq<char>,
        >::Ok((term_ref, Seq::<char>::empty())),
{
    let s = render_term_ref_spec(term_ref);
    match term_ref {
        TermRefView::Func(p) => {
            let digits = dec_digits(p.type_id as nat);
            let rti = render_term_index_spec(p.index);
            assert(s =~= seq!['#'] + digits + rti);
            lemma_dec_digits_all_digits(p.type_id as nat);
            lemma_dec_digits_value(p.type_id as nat);
            let rest = s.skip(1);
            assert(rest =~= digits + rti);
            // The digit run stops exactly at the index marker.
            assert(rti.len() >= 1);
            assert(rti[0] == 'p' || rti[0] == 'n');
            assert forall|i: int| 0 <= i < digits.len() implies is_digit_char(
                #[trigger] rest[i],
            ) by {
                assert(rest[i] == digits[i]);
            }
            assert(!is_digit_char(rest[digits.len() as int]));
            lemma_digit_prefix_char(rest, digits.len() as int);
            assert(rest.take(digits.len() as int) =~= digits);
            let suffix = rest.skip(digits.len() as int);
            assert(suffix =~= rti);
            assert(suffix[0] != '[');
            lemma_term_index_round_trip(p.index);
        },
        TermRefView::Vector(t, lits) => {
            let digits = dec_digits(t as nat);
            let joined = join_literals(lits);
            assert(s =~= seq!['#'] + digits + (seq!['['] + joined + seq![']']));
            lemma_dec_digits_all_digits(t as nat);
            lemma_dec_digits_value(t as nat);
            let rest = s.skip(1);
            assert(rest =~= digits + (seq!['['] + joined + seq![']']));
            assert forall|i: int| 0 <= i < digits.len() implies is_digit_char(
                #[trigger] rest[i],
            ) by {
                assert(rest[i] == digits[i]);
            }
            assert(rest[digits.len() as int] == '[');
            assert(!is_digit_char(rest[digits.len() as int]));
            lemma_digit_prefix_char(rest, digits.len() as int);
            assert(rest.take(digits.len() as int) =~= digits);
            let suffix = rest.skip(digits.len() as int);
            assert(suffix =~= seq!['['] + joined + seq![']']);
            assert(suffix[0] == '[');
            // Inside the brackets, the first closing bracket is the final
            // character.
            let rest_v = suffix.skip(1);
            assert(rest_v =~= joined + seq![']']);
            lemma_join_chars(lits);
            assert forall|i: int| 0 <= i < joined.len() implies #[trigger] rest_v[i] != ']' by {
                assert(rest_v[i] == joined[i]);
            }
            assert(rest_v[joined.len() as int] == ']');
            lemma_first_index_char(rest_v, ']', joined.len() as int);
            assert(rest_v.take(joined.len() as int) =~= joined);
            assert(rest_v.skip(joined.len() + 1 as int) =~= Seq::<char>::empty());
            lemma_literal_list_round_trip(Seq::<char>::empty(), lits);
            assert(Seq::<char>::empty() + joined =~= joined);
        },
    }
}


/// Well-formedness of the literals inside a tree: every vector reference
/// carries at least one acceptable numeric literal.
pub open spec fn wf_ref_literals(term_ref: TermRefView) -> bool {
    match term_ref {
        TermRefView::Func(_) => true,
        TermRefView::Vector(_, lits) => lits.len() >= 1 && forall|k: int|
            0 <= k < lits.len() ==> is_float_literal(#[trigger] lits[k]),
    }
}

pub open spec fn wf_expr_literals(expr: ExprView) -> bool
    decreases expr,
{
    match expr {
        ExprView::Ref(term_ref) => wf_ref_literals(term_ref),
        ExprView::App(app) => wf_app_literals(*app),
    }
}

pub open spec fn wf_app_literals(app: AppExprView) -> bool
    decreases app,
{
    wf_func_literals(app.func) && wf_expr_literals(app.arg)
}

pub open spec fn wf_func_literals(func_expr: FuncExprView) -> bool
    decreases func_expr,
{
    match func_expr {
        FuncExprView::Func(_) => true,
        FuncExprView::App(app) => wf_app_literals(*app),
    }
}

/// A rendered reference starts with the pound sign.
proof fn lemma_render_ref_head(term_ref: TermRefView)
    ensures
        render_term_ref_spec(term_ref).len() >= 1,
        render_term_ref_spec(term_ref)[0] == '#',
{
    match term_ref {
        TermRefView::Func(p) => {
            assert(render_term_ref_spec(term_ref)[0] == seq!['#'][0]);
        },
        TermRefView::Vector(t, lits) => {
            assert(render_term_ref_spec(term_ref)[0] == seq!['#'][0]);
        },
    }
}

/// A rendered expression starts with `#` or `(`, never with whitespace,
/// a digit, or a closing parenthesis.
proof fn lemma_render_expr_head(expr: ExprView)
    ensures
        render_expr_spec(expr).len() >= 1,
        render_expr_spec(expr)[0] == '#' || render_expr_spec(expr)[0] == '(',
{
    match expr {
        ExprView::Ref(term_ref) => {
            lemma_render_ref_head(term_ref);
        },
        ExprView::App(app) => {
            assert(render_expr_spec(expr)[0] == seq!['('][0]);
        },
    }
}

proof fn lemma_render_func_head(func_expr: FuncExprView)
    ensures
        render_func_expr_spec(func_expr).len() >= 1,
        render_func_expr_spec(func_expr)[0] == '#' || render_func_expr_spec(func_expr)[0] == '(',
{
    match func_expr {
        FuncExprView::Func(p) => {
            lemma_render_ref_head(TermRefView::Func(p));
        },
        FuncExprView::App(app) => {
            assert(render_func_expr_spec(func_expr)[0] == seq!['('][0]);
        },
    }
}

/// A rendered term index parses back even with more text behind it, as
/// long as that text does not extend the digit run.
proof fn lemma_term_index_parses_with_tail(term_index: TermIndex, tail: Seq<char>)
    requires
        tail.len() == 0 || !is_digit_char(tail[0]),
    ensures
        spec_parse_term_index(render_term_index_spec(term_index) + tail) == Result::<
            (TermIndex, Seq<char>),
            Seq<char>,
        >::Ok((term_index, tail)),
{
    let i = match term_index {
        TermIndex::Primitive(i) => i,
        TermIndex::NonPrimitive(i) => i,
    };
    let digits = dec_digits(i as nat);
    let s = render_term_index_spec(term_index) + tail;
    assert(s[0] == 'p' || s[0] == 'n');
    lemma_dec_digits_all_digits(i as nat);
    lemma_dec_digits_value(i as nat);
    let rest = s.skip(1);
    assert(rest =~= digits + tail);
    assert forall|j: int| 0 <= j < digits.len() implies is_digit_char(#[trigger] rest[j]) by {
        assert(rest[j] == digits[j]);
    }
    if tail.len() > 0 {
        assert(rest[digits.len() as int] == tail[0]);
    }
    lemma_digit_prefix_char(rest, digits.len() as int);
    assert(rest.take(digits.len() as int) =~= digits);
    assert(rest.skip(digits.len() as int) =~= tail);
}

/// A rendered reference parses back even with more text behind it, as
/// long as that text does not extend a digit run.
#[verifier::rlimit(50)]
proof fn lemma_term_ref_parses_with_tail(term_ref: TermRefView, tail: Seq<char>)
    requires
        wf_ref_literals(term_ref),
        tail.len() == 0 || !is_digit_char(tail[0]),
    ensures
        spec_parse_reference(render_term_ref_spec(term_ref) + tail) == Result::<
            (TermRefView, Seq<char>),
            Seq<char>,
        >::Ok((term_ref, tail)),
{
    let s = render_term_ref_spec(term_ref) + tail;
    match term_ref {
        TermRefView::Func(p) => {
            let digits = dec_digits(p.type_id as nat);
            let rti = render_term_index_spec(p.index);
            assert(s[0] == '#');
            lemma_dec_digits_all_digits(p.type_id as nat);
            lemma_dec_digits_value(p.type_id as nat);
            let rest = s.skip(1);
            assert(rest =~= digits + (rti + tail));
            assert(rti.len() >= 1);
            assert(rti[0] == 'p' || rti[0] == 'n');
            assert forall|j: int| 0 <= j < digits.len() implies is_digit_char(
                #[trigger] rest[j],
            ) by {
                assert(rest[j] == digits[j]);
            }
            assert(rest[digits.len() as int] == rti[0]);
            assert(!is_digit_char(rest[digits.len() as int]));
            lemma_digit_prefix_char(rest, digits.len() as int);
            assert(rest.take(digits.len() as int) =~= digits);
            let suffix = rest.skip(digits.len() as int);
            assert(suffix =~= rti + tail);
            assert(suffix[0] != '[');
            lemma_term_index_parses_with_tail(p.index, tail);
        },
        TermRefView::Vector(t, lits) => {
            let digits = dec_digits(t as nat);
            let joined = join_literals(lits);
            assert(s[0] == '#');
            lemma_dec_digits_all_digits(t as nat);
            lemma_dec_digits_value(t as nat);
            let rest = s.skip(1);
            assert(rest =~= digits + (seq!['['] + joined + seq![']'] + tail));
            assert forall|j: int| 0 <= j < digits.len() implies is_digit_char(
                #[trigger] rest[j],
            ) by {
                assert(rest[j] == digits[j]);
            }
            assert(rest[digits.len() as int] == '[');
            lemma_digit_prefix_char(rest, digits.len() as int);
            assert(rest.take(digits.len() as int) =~= digits);
            let suffix = rest.skip(digits.len() as int);
            assert(suffix =~= seq!['['] + joined + seq![']'] + tail);
            assert(suffix[0] == '[');
            let rest_v = suffix.skip(1);
            assert(rest_v =~= joined + (seq![']'] + tail));
            lemma_join_chars(lits);
            assert forall|j: int| 0 <= j < joined.len() implies #[trigger] rest_v[j] != ']' by {
                assert(rest_v[j] == joined[j]);
            }
            assert(rest_v[joined.len() as int] == ']');
            lemma_first_index_char(rest_v, ']', joined.len() as int);
            assert(rest_v.take(joined.len() as int) =~= joined);
            assert(rest_v.skip(joined.len() + 1 as int) =~= tail);
            lemma_literal_list_round_trip(Seq::<char>::empty(), lits);
            assert(Seq::<char>::empty() + joined =~= joined);
        },
    }
}

/// A rendered expression, followed by a space, a closing parenthesis or
/// nothing, parses back as one atom, leaving exactly the tail.
proof fn lemma_expr_parses_with_tail(
    expr: ExprView,
    tail: Seq<char>,
    env: Map<Seq<char>, TermRefView>,
)
    requires
        wf_expr_literals(expr),
        tail.len() == 0 || tail[0] == ' ' || tail[0] == ')',
    ensures
        spec_parse_atom(render_expr_spec(expr) + tail, env) == Result::<
            (ExprView, Seq<char>),
            Seq<char>,
        >::Ok((expr, tail)),
    decreases expr,
{
    let s = render_expr_spec(expr) + tail;
    lemma_render_expr_head(expr);
    match expr {
        ExprView::Ref(term_ref) => {
            lemma_render_ref_head(term_ref);
            assert(s[0] == '#');
            lemma_term_ref_parses_with_tail(term_ref, tail);
        },
        ExprView::App(app) => {
            assert(s[0] == '(');
            lemma_app_parses_with_tail(*app, tail, env);
            assert(spec_parse_s_expression(s, env) == Result::<
                (AppExprView, Seq<char>),
                Seq<char>,
            >::Ok((*app, tail)));
        },
    }
}

/// A rendered callee, followed by a space or a closing parenthesis,
/// parses back as one atom that reads in callee position as itself.
proof fn lemma_func_parses_with_tail(
    func_expr: FuncExprView,
    tail: Seq<char>,
    env: Map<Seq<char>, TermRefView>,
)
    requires
        wf_func_literals(func_expr),
        tail.len() > 0 && (tail[0] == ' ' || tail[0] == ')'),
    ensures
        ({
            let r = spec_parse_atom(render_func_expr_spec(func_expr) + tail, env);
            exists|a: ExprView|
                r == Result::<(ExprView, Seq<char>), Seq<char>>::Ok((a, tail))
                    && #[trigger] func_of_expression(a) == Option::Some(func_expr)
        }),
    decreases func_expr,
{
    let s = render_func_expr_spec(func_expr) + tail;
    lemma_render_func_head(func_expr);
    match func_expr {
        FuncExprView::Func(p) => {
            lemma_render_ref_head(TermRefView::Func(p));
            assert(render_func_expr_spec(func_expr) =~= render_term_ref_spec(
                TermRefView::Func(p),
            ));
            assert(s =~= render_term_ref_spec(TermRefView::Func(p)) + tail);
            assert(s[0] == '#');
            lemma_term_ref_parses_with_tail(TermRefView::Func(p), tail);
            let a = ExprView::Ref(TermRefView::Func(p));
            assert(spec_parse_atom(s, env) == Result::<(ExprView, Seq<char>), Seq<char>>::Ok(
                (a, tail),
            ));
            assert(func_of_expression(a) == Option::Some(func_expr));
        },
        FuncExprView::App(app) => {
            assert(s[0] == '(');
            lemma_app_parses_with_tail(*app, tail, env);
            let a = ExprView::App(app);
            assert(spec_parse_atom(s, env) == Result::<(ExprView, Seq<char>), Seq<char>>::Ok(
                (a, tail),
            ));
            assert(func_of_expression(a) == Option::Some(func_expr));
        },
    }
}

/// A rendered application parses back as itself, leaving exactly the
/// tail.
#[verifier::rlimit(50)]
proof fn lemma_app_parses_with_tail(
    app: AppExprView,
    tail: Seq<char>,
    env: Map<Seq<char>, TermRefView>,
)
    requires
        wf_app_literals(app),
    ensures
        spec_parse_s_expression(render_app_expr_spec(app) + tail, env) == Result::<
            (AppExprView, Seq<char>),
            Seq<char>,
        >::Ok((app, tail)),
    decreases app,
{
    let rf = render_func_expr_spec(app.func);
    let ra = render_expr_spec(app.arg);
    let s = render_app_expr_spec(app) + tail;
    lemma_render_func_head(app.func);
    lemma_render_expr_head(app.arg);
    assert(s[0] == '(');
    let tail1 = seq![' '] + ra + seq![')'] + tail;
    let inner = s.skip(1);
    assert(inner =~= rf + tail1);
    // No leading whitespace: the callee's rendering starts the interior.
    assert(inner[0] == rf[0]);
    assert(!is_ws_char(inner[0]));
    lemma_ws_prefix_char(inner, 0);
    assert(trim_start_spec(inner) =~= inner);
    // First atom: the callee.
    assert(inner[0] != ')');
    lemma_func_parses_with_tail(app.func, tail1, env);
    let a0 = choose|a: ExprView|
        spec_parse_atom(inner, env) == Result::<(ExprView, Seq<char>), Seq<char>>::Ok((a, tail1))
            && #[trigger] func_of_expression(a) == Option::Some(app.func);
    // The separator space is trimmed before the second atom.
    let tail2 = seq![')'] + tail;
    assert(tail1[0] == ' ');
    assert(tail1[1] == ra[0]);
    assert(!is_ws_char(tail1[1]));
    lemma_ws_prefix_char(tail1, 1);
    let rest2 = trim_start_spec(tail1);
    assert(rest2 =~= ra + tail2);
    assert(rest2.len() < inner.len());
    // Second atom: the argument.
    assert(rest2[0] == ra[0]);
    assert(rest2[0] != ')');
    lemma_expr_parses_with_tail(app.arg, tail2, env);
    assert(spec_parse_atom(rest2, env) == Result::<(ExprView, Seq<char>), Seq<char>>::Ok(
        (app.arg, tail2),
    ));
    // The closing parenthesis ends the atom list.
    assert(tail2[0] == ')');
    assert(!is_ws_char(tail2[0]));
    lemma_ws_prefix_char(tail2, 0);
    let rest3 = trim_start_spec(tail2);
    assert(rest3 =~= tail2);
    assert(rest3.len() < rest2.len());
    assert(tail2.skip(1) =~= tail);
    assert(spec_parse_atoms(rest3, env, s) == Result::<
        (Seq<ExprView>, Seq<char>),
        Seq<char>,
    >::Ok((Seq::<ExprView>::empty(), tail)));
    assert(seq![app.arg] + Seq::<ExprView>::empty() =~= seq![app.arg]);
    assert(spec_parse_atoms(rest2, env, s) == Result::<
        (Seq<ExprView>, Seq<char>),
        Seq<char>,
    >::Ok((seq![app.arg], tail)));
    let atoms = seq![a0, app.arg];
    assert(seq![a0] + seq![app.arg] =~= atoms);
    assert(spec_parse_atoms(inner, env, s) == Result::<
        (Seq<ExprView>, Seq<char>),
        Seq<char>,
    >::Ok((atoms, tail)));
    // Two atoms build the application: the callee and the one argument.
    assert(atoms.len() == 2);
    assert(func_of_expression(atoms[0]) == Option::Some(app.func));
    assert(atoms.skip(2) =~= Seq::<ExprView>::empty());
    assert(fold_app(AppExprView { func: app.func, arg: atoms[1] }, atoms.skip(2)) == app);
    assert(build_application_spec(atoms) == Result::<AppExprView, Seq<char>>::Ok(app));
}

/// The full round trip: rendering an application tree whose vector
/// literals are well formed, then parsing the rendering, rebuilds the
/// same left-associative curried tree and consumes the text whole.
pub proof fn lemma_render_parse_round_trip(app: AppExprView, env: Map<Seq<char>, TermRefView>)
    requires
        wf_app_literals(app),
    ensures
        spec_parse_s_expression(render_app_expr_spec(app), env) == Result::<
            (AppExprView, Seq<char>),
            Seq<char>,
        >::Ok((app, Seq::<char>::empty())),
{
    lemma_app_parses_with_tail(app, Seq::<char>::empty(), env);
    assert(render_app_expr_spec(app) + Seq::<char>::empty() =~= render_app_expr_spec(app));
}

} // verus!
