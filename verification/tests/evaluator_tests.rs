use stark_core::air::{
    AuxTraceRandElements, BoundaryConstraint, BoundaryConstraintGroup, BoundaryDivisorTerm,
    ConstraintCompositionCoefficients, EvaluationFrame, SimpleAir,
};
use stark_core::evaluator::evaluate_constraints;
use stark_core::felt::{felt_add, felt_exp, felt_inv, felt_mul, felt_sub, poly_eval, FIELD_MODULUS};

#[test]
fn field_arithmetic_matches_known_values() {
    assert_eq!(felt_exp(3, 5), 243);
    assert_eq!(felt_add(FIELD_MODULUS - 1, 1), 0);
    assert_eq!(felt_sub(3, 5), FIELD_MODULUS - 2);
    assert_eq!(felt_mul(7, felt_inv(7)), 1);
    // 1 + 2x + 3x^2 at x = 2
    assert_eq!(poly_eval(&vec![1, 2, 3], 2), 17);
}

#[test]
fn evaluator_matches_independently_computed_value() {
    // a minimal AIR: one transition constraint valid everywhere (each row
    // doubles the previous one) and one boundary constraint fixing row 0
    let air = SimpleAir {
        trace_length: 8,
        trace_domain_generator: 5,
        ce_blowup_factor: 2,
        transition_degree_adjustment: 3,
        divisor_exemption: 13,
        boundary_value: 21,
        boundary_degree_adjustment: 4,
    };
    let coefficients = ConstraintCompositionCoefficients {
        transition: vec![(101, 202)],
        boundary: vec![(303, 404)],
    };
    let current: u64 = 21;
    let next: u64 = 42;
    let frame = EvaluationFrame { current: vec![current], next: vec![next] };
    let x: u64 = 7_000_000_009;

    let got = evaluate_constraints(
        &air,
        ConstraintCompositionCoefficients {
            transition: vec![(101, 202)],
            boundary: vec![(303, 404)],
        },
        &frame,
        &None,
        AuxTraceRandElements { elements: vec![] },
        x,
    );

    // the same linear combination, computed independently
    let t_eval = felt_sub(next, felt_mul(2, current));
    let scaled = felt_mul(
        t_eval,
        felt_add(coefficients.transition[0].0, felt_mul(coefficients.transition[0].1, felt_exp(x, 3))),
    );
    let z_t = felt_mul(felt_sub(felt_exp(x, 8), 1), felt_inv(felt_sub(x, 13)));
    let t_combined = felt_mul(scaled, felt_inv(z_t));

    let xp = felt_exp(x, 4);
    let numerator = felt_mul(
        felt_sub(current, 21),
        felt_add(coefficients.boundary[0].0, felt_mul(coefficients.boundary[0].1, xp)),
    );
    let z_b = felt_mul(1, felt_sub(felt_exp(x, 1), 1));
    let b = felt_mul(numerator, felt_inv(z_b));

    let expected = felt_add(b, t_combined);
    assert_eq!(got, expected);
}

#[test]
fn boundary_accumulation_is_order_invariant() {
    // two groups sharing one degree adjustment contribute the same sum in
    // either processing order
    let g1 = BoundaryConstraintGroup {
        constraints: vec![BoundaryConstraint { column: 0, value: 5, cc0: 11, cc1: 13 }],
        divisor: vec![BoundaryDivisorTerm { num_steps: 1, offset_value: 1 }],
        degree_adjustment: 6,
    };
    let g2 = BoundaryConstraintGroup {
        constraints: vec![BoundaryConstraint { column: 1, value: 9, cc0: 17, cc1: 19 }],
        divisor: vec![BoundaryDivisorTerm { num_steps: 2, offset_value: 3 }],
        degree_adjustment: 6,
    };
    let row = vec![23_u64, 29];
    let x: u64 = 1234577;
    let xp = felt_exp(x, 6);

    let forward = felt_add(
        felt_add(0, g1.evaluate_at(&row, x, xp)),
        g2.evaluate_at(&row, x, xp),
    );
    let backward = felt_add(
        felt_add(0, g2.evaluate_at(&row, x, xp)),
        g1.evaluate_at(&row, x, xp),
    );
    assert_eq!(forward, backward);
}

#[test]
fn evaluator_reuses_cached_adjustment_power() {
    let air1 = SimpleAir {
        trace_length: 4,
        trace_domain_generator: 5,
        ce_blowup_factor: 2,
        transition_degree_adjustment: 2,
        divisor_exemption: 3,
        boundary_value: 1,
        boundary_degree_adjustment: 2,
    };
    let frame = EvaluationFrame { current: vec![1], next: vec![2] };
    let x: u64 = 1_000_003;
    let r1 = evaluate_constraints(
        &air1,
        ConstraintCompositionCoefficients { transition: vec![(1, 1)], boundary: vec![(1, 1)] },
        &frame,
        &None,
        AuxTraceRandElements { elements: vec![] },
        x,
    );

    // equal adjustments mean the cached power is reused; the result must be
    // what the formula gives outright
    let t_eval = felt_sub(2, felt_mul(2, 1));
    assert_eq!(t_eval, 0);
    let z_t = felt_mul(felt_sub(felt_exp(x, 4), 1), felt_inv(felt_sub(x, 3)));
    let t_combined = felt_mul(0, felt_inv(z_t));
    let xp = felt_exp(x, 2);
    let numerator = felt_mul(felt_sub(1, 1), felt_add(1, felt_mul(1, xp)));
    let b = felt_mul(numerator, felt_inv(felt_sub(x, 1)));
    assert_eq!(r1, felt_add(b, t_combined));
    assert_eq!(r1, 0);
}
