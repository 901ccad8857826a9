use ndarray::{Array1, Array2};
use term_repl::eval::{evaluate_expression, EvalInterrupt};
use term_repl::expression::{AppExpression, Expression, FuncExpression};
use term_repl::simulate::{simulate_expression, MatrixBits, SimInterrupt, SimRequest, SimResponse};
use term_repl::terms::{TermIndex, TermPointer, TermReference};

fn func_ptr(type_id: usize, index: usize) -> TermPointer {
    TermPointer {
        type_id,
        index: TermIndex::Primitive(index),
    }
}

fn app(f: FuncExpression, a: Expression) -> Expression {
    Expression::App(AppExpression::new(f, a))
}

fn bits(xs: &[f32]) -> Vec<u32> {
    xs.iter().map(|x| x.to_bits()).collect()
}

#[test]
fn evaluate_reference_is_identity() {
    let term_ref = TermReference::VecRef(3, vec!["1.5".to_string()]);
    let (r, consumed) = evaluate_expression(Expression::Ref(term_ref), &Vec::new(), 0);
    match r.unwrap() {
        TermReference::VecRef(t, elems) => {
            assert_eq!(t, 3);
            assert_eq!(elems, vec!["1.5".to_string()]);
        }
        _ => panic!("expected the vector reference back"),
    }
    assert_eq!(consumed, 0);
}

#[test]
fn evaluate_pauses_without_a_response() {
    // (f a) with an empty transcript pauses at the one application.
    let expr = app(
        FuncExpression::Func(func_ptr(1, 0)),
        Expression::Ref(TermReference::FuncRef(func_ptr(2, 4))),
    );
    let (r, _) = evaluate_expression(expr, &Vec::new(), 0);
    match r.unwrap_err() {
        EvalInterrupt::NeedApply(f, a) => {
            assert_eq!(f.type_id, 1);
            match a {
                TermReference::FuncRef(p) => assert_eq!(p.type_id, 2),
                _ => panic!("wrong argument reported"),
            }
        }
        _ => panic!("expected a pause"),
    }
}

#[test]
fn evaluate_consumes_responses_callee_first() {
    // ((f a) b): the inner application is delegated first, its answer
    // becomes the callee of the outer one.
    let inner = AppExpression::new(
        FuncExpression::Func(func_ptr(1, 0)),
        Expression::Ref(TermReference::FuncRef(func_ptr(2, 0))),
    );
    let outer = app(
        FuncExpression::App(inner),
        Expression::Ref(TermReference::FuncRef(func_ptr(4, 0))),
    );
    let responses = vec![
        TermReference::FuncRef(func_ptr(3, 9)),
        TermReference::VecRef(5, vec!["2.0".to_string()]),
    ];
    let (r, consumed) = evaluate_expression(outer, &responses, 0);
    assert_eq!(consumed, 2);
    match r.unwrap() {
        TermReference::VecRef(t, elems) => {
            assert_eq!(t, 5);
            assert_eq!(elems, vec!["2.0".to_string()]);
        }
        _ => panic!("expected the second response"),
    }
}

#[test]
fn evaluate_rejects_vector_in_callee_position() {
    // ((f a) b) where the inner application answers with a vector.
    let inner = AppExpression::new(
        FuncExpression::Func(func_ptr(1, 0)),
        Expression::Ref(TermReference::FuncRef(func_ptr(2, 0))),
    );
    let outer = app(
        FuncExpression::App(inner),
        Expression::Ref(TermReference::FuncRef(func_ptr(4, 0))),
    );
    let responses = vec![TermReference::VecRef(5, vec!["2.0".to_string()])];
    let (r, _) = evaluate_expression(outer, &responses, 0);
    match r.unwrap_err() {
        EvalInterrupt::Failure(m) => assert_eq!(
            m,
            "Expected function, but obtained vector from evaluating (#1p0 #2p0)"
        ),
        _ => panic!("expected the vector-in-callee failure"),
    }
}

#[test]
fn driver_loop_reaches_a_result() {
    // A driver answers each pause in turn and reruns; the finished prefix
    // replays exactly.
    let inner = AppExpression::new(
        FuncExpression::Func(func_ptr(1, 0)),
        Expression::Ref(TermReference::FuncRef(func_ptr(2, 0))),
    );
    let outer = app(
        FuncExpression::App(inner),
        Expression::Ref(TermReference::FuncRef(func_ptr(4, 0))),
    );
    let mut responses: Vec<TermReference> = Vec::new();
    let mut rounds = 0;
    loop {
        rounds += 1;
        assert!(rounds <= 3, "driver should finish in three rounds");
        let inner_clone = AppExpression::new(
            FuncExpression::Func(func_ptr(1, 0)),
            Expression::Ref(TermReference::FuncRef(func_ptr(2, 0))),
        );
        let outer_clone = app(
            FuncExpression::App(inner_clone),
            Expression::Ref(TermReference::FuncRef(func_ptr(4, 0))),
        );
        let (r, _) = evaluate_expression(outer_clone, &responses, 0);
        match r {
            Err(EvalInterrupt::NeedApply(f, _a)) => {
                // Answer with a function term in the callee's return type.
                responses.push(TermReference::FuncRef(func_ptr(f.type_id + 10, 0)));
            }
            Err(EvalInterrupt::Failure(m)) => panic!("unexpected failure: {}", m),
            Ok(t) => {
                match t {
                    TermReference::FuncRef(p) => assert_eq!(p.type_id, 21),
                    _ => panic!("expected a function reference"),
                }
                break;
            }
        }
    }
    let _ = outer;
}

#[test]
fn simulate_literal_vector_is_decoded() {
    let expr = Expression::Ref(TermReference::VecRef(
        7,
        vec!["1.0".to_string(), "2.0".to_string()],
    ));
    // First run pauses asking for the decoding.
    let e2 = Expression::Ref(TermReference::VecRef(
        7,
        vec!["1.0".to_string(), "2.0".to_string()],
    ));
    let (paused, _) = simulate_expression(e2, &Vec::new(), 0);
    match paused.unwrap_err() {
        SimInterrupt::NeedCapability(SimRequest::DecodeLiterals(ls)) => {
            assert_eq!(ls, vec!["1.0".to_string(), "2.0".to_string()]);
        }
        _ => panic!("expected a decode request"),
    }
    // With the decoding supplied, the literal is returned as-is.
    let responses = vec![SimResponse::DecodedLiterals(bits(&[1.0, 2.0]))];
    let (r, consumed) = simulate_expression(expr, &responses, 0);
    assert_eq!(consumed, 1);
    let v = r.unwrap();
    assert_eq!(v.type_id, 7);
    assert_eq!(v.vec, bits(&[1.0, 2.0]));
}

#[test]
fn simulate_application_propagates_through_linear_maps() {
    // (f x) where f samples a 1-by-2 function matrix and x is a literal.
    let expr = app(
        FuncExpression::Func(func_ptr(1, 0)),
        Expression::Ref(TermReference::VecRef(2, vec!["3.0".to_string()])),
    );
    let responses = vec![
        SimResponse::Sample(bits(&[2.0, 4.0])),
        SimResponse::DecodedLiterals(bits(&[3.0])),
        SimResponse::FuncSpaceInfo(1, 2),
        SimResponse::RetType(5),
        SimResponse::Features(bits(&[3.0, 9.0])),
        // The kernel's product: 2*3 + 4*9 = 42.
        SimResponse::Product(bits(&[42.0])),
        SimResponse::IsVectorType(true),
    ];
    let (r, consumed) = simulate_expression(expr, &responses, 0);
    assert_eq!(consumed, 7);
    let v = r.unwrap();
    assert_eq!(v.type_id, 5);
    assert_eq!(v.vec, bits(&[42.0]));
}

#[test]
fn simulate_elaborates_compressed_results() {
    let expr = app(
        FuncExpression::Func(func_ptr(1, 0)),
        Expression::Ref(TermReference::VecRef(2, vec!["1.0".to_string()])),
    );
    let responses = vec![
        SimResponse::Sample(bits(&[1.0])),
        SimResponse::DecodedLiterals(bits(&[1.0])),
        SimResponse::FuncSpaceInfo(1, 1),
        SimResponse::RetType(6),
        SimResponse::Features(bits(&[1.0])),
        SimResponse::Product(bits(&[2.0])),
        // Not a raw vector type: expand through the 2-by-1 mean matrix.
        SimResponse::IsVectorType(false),
        SimResponse::ElaboratorMean(MatrixBits {
            rows: 2,
            cols: 1,
            data: bits(&[1.0, 0.5]),
        }),
        SimResponse::Product(bits(&[2.0, 1.0])),
    ];
    let (r, consumed) = simulate_expression(expr, &responses, 0);
    assert_eq!(consumed, 9);
    let v = r.unwrap();
    assert_eq!(v.type_id, 6);
    assert_eq!(v.vec, bits(&[2.0, 1.0]));
}

#[test]
fn simulate_rejects_vector_in_callee_position() {
    // ((f x) y): the inner application lands in a raw vector type.
    let inner = AppExpression::new(
        FuncExpression::Func(func_ptr(3, 7)),
        Expression::Ref(TermReference::VecRef(9, vec!["1.0".to_string()])),
    );
    let outer = app(
        FuncExpression::App(inner),
        Expression::Ref(TermReference::VecRef(9, vec!["2.0".to_string()])),
    );
    let responses = vec![
        SimResponse::Sample(bits(&[1.0, 2.0])),
        SimResponse::DecodedLiterals(bits(&[1.0])),
        SimResponse::FuncSpaceInfo(1, 2),
        SimResponse::RetType(5),
        SimResponse::Features(bits(&[1.0, 1.0])),
        SimResponse::Product(bits(&[3.0])),
        SimResponse::IsVectorType(true),
        // The callee-position check: type 5 is a raw vector type.
        SimResponse::IsVectorType(true),
    ];
    let (r, _) = simulate_expression(outer, &responses, 0);
    match r.unwrap_err() {
        SimInterrupt::Failure(m) => assert_eq!(
            m,
            "Expected function, but obtained vector from simulating (#3p7 #9[1.0])"
        ),
        _ => panic!("expected the vector-in-callee failure"),
    }
}

#[test]
fn simulate_reports_sample_dimension_mismatch() {
    let expr = app(
        FuncExpression::Func(func_ptr(1, 0)),
        Expression::Ref(TermReference::VecRef(2, vec!["1.0".to_string()])),
    );
    let responses = vec![
        SimResponse::Sample(bits(&[1.0, 2.0, 3.0])),
        SimResponse::DecodedLiterals(bits(&[1.0])),
        SimResponse::FuncSpaceInfo(2, 2),
        SimResponse::RetType(5),
    ];
    let (r, _) = simulate_expression(expr, &responses, 0);
    match r.unwrap_err() {
        SimInterrupt::Failure(m) => {
            assert_eq!(m, "Dimension mismatch: function sample does not fill its matrix")
        }
        _ => panic!("expected a dimension failure"),
    }
}

#[test]
fn simulate_reports_feature_dimension_mismatch() {
    let expr = app(
        FuncExpression::Func(func_ptr(1, 0)),
        Expression::Ref(TermReference::VecRef(2, vec!["1.0".to_string()])),
    );
    let responses = vec![
        SimResponse::Sample(bits(&[1.0, 2.0])),
        SimResponse::DecodedLiterals(bits(&[1.0])),
        SimResponse::FuncSpaceInfo(1, 2),
        SimResponse::RetType(5),
        SimResponse::Features(bits(&[1.0, 1.0, 1.0])),
    ];
    let (r, _) = simulate_expression(expr, &responses, 0);
    match r.unwrap_err() {
        SimInterrupt::Failure(m) => assert_eq!(
            m,
            "Dimension mismatch: feature vector does not match the function matrix"
        ),
        _ => panic!("expected a dimension failure"),
    }
}

#[test]
fn simulate_reports_elaborator_dimension_mismatch() {
    let expr = app(
        FuncExpression::Func(func_ptr(1, 0)),
        Expression::Ref(TermReference::VecRef(2, vec!["1.0".to_string()])),
    );
    let responses = vec![
        SimResponse::Sample(bits(&[1.0])),
        SimResponse::DecodedLiterals(bits(&[1.0])),
        SimResponse::FuncSpaceInfo(1, 1),
        SimResponse::RetType(6),
        SimResponse::Features(bits(&[1.0])),
        SimResponse::Product(bits(&[2.0])),
        SimResponse::IsVectorType(false),
        // Wrong column count: the compressed vector has one component.
        SimResponse::ElaboratorMean(MatrixBits {
            rows: 2,
            cols: 3,
            data: bits(&[1.0; 6]),
        }),
    ];
    let (r, _) = simulate_expression(expr, &responses, 0);
    match r.unwrap_err() {
        SimInterrupt::Failure(m) => assert_eq!(
            m,
            "Dimension mismatch: elaborator matrix does not match the compressed vector"
        ),
        _ => panic!("expected a dimension failure"),
    }
}

#[test]
fn simulate_rejects_mismatched_response_kind() {
    let expr = Expression::Ref(TermReference::FuncRef(func_ptr(1, 0)));
    let responses = vec![SimResponse::RetType(5)];
    let (r, _) = simulate_expression(expr, &responses, 0);
    match r.unwrap_err() {
        SimInterrupt::Failure(m) => {
            assert_eq!(m, "Mismatched response from the model capability")
        }
        _ => panic!("expected a protocol failure"),
    }
}

#[test]
fn evaluation_and_simulation_agree_on_the_declared_type() {
    // (f x): the external model's return type for f's type is 5 in both
    // transcripts; both results land in type 5.
    let eval_expr = app(
        FuncExpression::Func(func_ptr(1, 0)),
        Expression::Ref(TermReference::VecRef(2, vec!["3.0".to_string()])),
    );
    let sim_expr = app(
        FuncExpression::Func(func_ptr(1, 0)),
        Expression::Ref(TermReference::VecRef(2, vec!["3.0".to_string()])),
    );
    let eval_responses = vec![TermReference::VecRef(5, vec!["42.0".to_string()])];
    let sim_responses = vec![
        SimResponse::Sample(bits(&[2.0, 4.0])),
        SimResponse::DecodedLiterals(bits(&[3.0])),
        SimResponse::FuncSpaceInfo(1, 2),
        SimResponse::RetType(5),
        SimResponse::Features(bits(&[3.0, 9.0])),
        SimResponse::Product(bits(&[42.0])),
        SimResponse::IsVectorType(true),
    ];
    let (er, _) = evaluate_expression(eval_expr, &eval_responses, 0);
    let (sr, _) = simulate_expression(sim_expr, &sim_responses, 0);
    let eval_type = match er.unwrap() {
        TermReference::VecRef(t, _) => t,
        TermReference::FuncRef(p) => p.type_id,
    };
    let sim_type = sr.unwrap().type_id;
    assert_eq!(eval_type, sim_type);
}

/// Answers one capability request the way a live session would, with
/// ndarray as the numeric kernel.
fn answer_capability(rq: SimRequest) -> SimResponse {
    match rq {
        // One "draw" from the embedding of the function term: a 1-by-2
        // function matrix, flattened.
        SimRequest::Sample(_p) => SimResponse::Sample(bits(&[2.0, 4.0])),
        SimRequest::DecodeLiterals(ls) => SimResponse::DecodedLiterals(
            ls.iter().map(|s| s.parse::<f32>().unwrap().to_bits()).collect(),
        ),
        SimRequest::FuncSpaceInfo(_t) => SimResponse::FuncSpaceInfo(1, 2),
        SimRequest::RetType(_t) => SimResponse::RetType(5),
        // The feature expansion of a base vector [x] is [x, x*x].
        SimRequest::Features(_t, v) => {
            let x = f32::from_bits(v[0]);
            SimResponse::Features(bits(&[x, x * x]))
        }
        SimRequest::IsVectorType(_t) => SimResponse::IsVectorType(true),
        SimRequest::ElaboratorMean(_t) => panic!("no elaboration for a raw vector type"),
        SimRequest::MatVecMul(m, v) => {
            let mat: Vec<f32> = m.data.iter().map(|b| f32::from_bits(*b)).collect();
            let vec: Vec<f32> = v.iter().map(|b| f32::from_bits(*b)).collect();
            let mat = Array2::from_shape_vec((m.rows, m.cols), mat).unwrap();
            let vec = Array1::from(vec);
            let product = mat.dot(&vec);
            SimResponse::Product(product.iter().map(|f| f.to_bits()).collect())
        }
    }
}

#[test]
fn simulate_driver_with_numeric_kernel() {
    // Drives the simulator the way a session would: run, answer the
    // reported request, run again on the extended transcript.
    let mut responses: Vec<SimResponse> = Vec::new();
    let mut rounds = 0;
    loop {
        rounds += 1;
        assert!(rounds <= 10, "driver should finish");
        let expr = app(
            FuncExpression::Func(func_ptr(1, 0)),
            Expression::Ref(TermReference::VecRef(2, vec!["3.0".to_string()])),
        );
        let (r, _) = simulate_expression(expr, &responses, 0);
        match r {
            Ok(v) => {
                assert_eq!(v.type_id, 5);
                // [2, 4] . [3, 9] = 42, computed by the kernel.
                assert_eq!(v.vec, bits(&[42.0]));
                break;
            }
            Err(SimInterrupt::NeedCapability(rq)) => responses.push(answer_capability(rq)),
            Err(SimInterrupt::Failure(m)) => panic!("unexpected failure: {}", m),
        }
    }
}
