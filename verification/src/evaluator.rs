//! The constraint-evaluation engine.
//!
//! [`evaluate_constraints`] checks, at one out-of-domain point x, whether an
//! execution trace satisfies an AIR's constraints: it evaluates the periodic
//! columns at x, lets the AIR evaluate its transition constraints on the
//! trace frames, combines those evaluations through the AIR's composition
//! terms and divisor, and adds the evaluations of all boundary constraint
//! groups. The power of x that adjusts a boundary group's degree is
//! recomputed only when the adjustment changes from the previous group — a
//! pure optimization: the contract states the sum with every group's power
//! computed from its own adjustment, so caching provably never alters it.

use vstd::prelude::*;
use crate::air::{
    Air, AuxTraceRandElements, BoundaryGroupView, ConstraintCompositionCoefficients,
    EvaluationFrame, all_felt_pairs, boundary_groups_wf, groups_view, polys_view,
};
use crate::felt::{
    all_felts, felt_add, felt_add_spec, felt_exp, felt_exp_spec, is_felt, lemma_felt_add_assoc,
    poly_eval, poly_eval_spec,
};

verus! {

/// A run of zero elements.
pub open spec fn zero_seq(n: nat) -> Seq<u64> {
    Seq::new(n, |i: int| 0u64)
}

fn zero_vec(n: usize) -> (r: Vec<u64>)
    ensures
        r@ == zero_seq(n as nat),
        all_felts(r@),
{
    let mut r: Vec<u64> = Vec::new();
    let mut i: usize = 0;
    while i < n
        invariant
            i <= n,
            r@ == zero_seq(i as nat),
        decreases n - i,
    {
        r.push(0u64);
        proof {
            assert(r@ =~= zero_seq((i + 1) as nat));
        }
        i = i + 1;
    }
    r
}

/// The periodic columns' values at x: each column of length L is evaluated
/// at x raised to trace_length / L, folding x to the column's own period.
pub open spec fn periodic_values_spec(polys: Seq<Seq<u64>>, trace_length: u64, x: u64) -> Seq<u64> {
    Seq::new(
        polys.len(),
        |i: int|
            poly_eval_spec(
                polys[i],
                felt_exp_spec(x, ((trace_length as int) / (polys[i].len() as int)) as u64),
            ),
    )
}

/// One boundary group's contribution: its evaluation at x, with the degree
/// adjustment power computed from the group's own adjustment exponent.
pub open spec fn boundary_group_term_spec(g: BoundaryGroupView, row: Seq<u64>, x: u64) -> u64 {
    g.evaluate_at_spec(row, x, felt_exp_spec(x, g.degree_adjustment))
}

/// The accumulated boundary sum over a run of groups, in order.
pub open spec fn boundary_sum_spec(gs: Seq<BoundaryGroupView>, row: Seq<u64>, x: u64) -> u64
    decreases gs.len(),
{
    if gs.len() == 0 {
        0u64
    } else {
        felt_add_spec(
            boundary_sum_spec(gs.drop_last(), row, x),
            boundary_group_term_spec(gs.last(), row, x),
        )
    }
}

/// Every term of a boundary sum is a canonical field element, so the sum is
/// one as well.
pub proof fn lemma_boundary_sum_is_felt(gs: Seq<BoundaryGroupView>, row: Seq<u64>, x: u64)
    ensures
        is_felt(boundary_sum_spec(gs, row, x)),
    decreases gs.len(),
{
    if gs.len() > 0 {
        lemma_boundary_sum_is_felt(gs.drop_last(), row, x);
    }
}

/// The evaluator's whole result: the combined transition value plus the
/// boundary sums of the main segment and, when an auxiliary frame is
/// present, of the auxiliary segment.
pub open spec fn evaluate_constraints_spec<A: Air>(
    air: &A,
    coefficients: ConstraintCompositionCoefficients,
    main_frame: EvaluationFrame,
    aux_frame: Option<EvaluationFrame>,
    aux_rand: AuxTraceRandElements,
    x: u64,
) -> u64 {
    let periodic = periodic_values_spec(air.periodic_polys_spec(), air.trace_length_spec(), x);
    let tc = air.transition_constraints_spec(coefficients.transition@);
    let e1 = air.main_transition_evals_spec(main_frame.current@, main_frame.next@, periodic);
    let e2 = match aux_frame {
        Some(af) => air.aux_transition_evals_spec(
            main_frame.current@,
            main_frame.next@,
            af.current@,
            af.next@,
            periodic,
            aux_rand.elements@,
        ),
        None => zero_seq(air.num_aux_constraints_spec()),
    };
    let t_combined = tc.combine_spec(e1, e2, x);
    let b_main = boundary_sum_spec(
        air.main_boundary_groups_spec(aux_rand.elements@, coefficients.boundary@),
        main_frame.current@,
        x,
    );
    let b = match aux_frame {
        Some(af) => felt_add_spec(
            b_main,
            boundary_sum_spec(
                air.aux_boundary_groups_spec(aux_rand.elements@, coefficients.boundary@),
                af.current@,
                x,
            ),
        ),
        None => b_main,
    };
    felt_add_spec(b, t_combined)
}

/// Evaluates an AIR's constraints at the out-of-domain point x, for the
/// given trace frames, composition coefficients and auxiliary randomness.
pub fn evaluate_constraints<A: Air>(
    air: &A,
    composition_coefficients: ConstraintCompositionCoefficients,
    main_trace_frame: &EvaluationFrame,
    aux_trace_frame: &Option<EvaluationFrame>,
    aux_rand_elements: AuxTraceRandElements,
    x: u64,
) -> (r: u64)
    requires
        air.wf(),
        is_felt(x),
        main_trace_frame.wf(),
        main_trace_frame.current@.len() == air.main_trace_width_spec(),
        main_trace_frame.next@.len() == air.main_trace_width_spec(),
        aux_trace_frame matches Some(af) ==> af.wf() && af.current@.len()
            == air.aux_trace_width_spec() && af.next@.len() == air.aux_trace_width_spec(),
        all_felt_pairs(composition_coefficients.transition@),
        all_felt_pairs(composition_coefficients.boundary@),
        composition_coefficients.transition@.len() >= air.num_main_constraints_spec()
            + air.num_aux_constraints_spec(),
        composition_coefficients.boundary@.len() >= air.num_assertions_spec(),
        all_felts(aux_rand_elements.elements@),
        air.main_boundary_groups_spec(
            aux_rand_elements.elements@,
            composition_coefficients.boundary@,
        ).len() >= 1,
    ensures
        r == evaluate_constraints_spec(
            air,
            composition_coefficients,
            *main_trace_frame,
            *aux_trace_frame,
            aux_rand_elements,
            x,
        ),
        is_felt(r),
{
    // transition constraints for the supplied coefficients
    let t_constraints = air.get_transition_constraints(&composition_coefficients.transition);

    // values of the periodic columns at x
    let trace_length = air.trace_length();
    let polys = air.get_periodic_column_polys();
    let ghost periodic_spec = periodic_values_spec(
        air.periodic_polys_spec(),
        air.trace_length_spec(),
        x,
    );
    let mut periodic_values: Vec<u64> = Vec::new();
    let mut i: usize = 0;
    while i < polys.len()
        invariant
            air.wf(),
            is_felt(x),
            trace_length == air.trace_length_spec(),
            polys_view(polys@) == air.periodic_polys_spec(),
            crate::air::periodic_polys_wf(air.periodic_polys_spec(), air.trace_length_spec()),
            periodic_spec == periodic_values_spec(
                air.periodic_polys_spec(),
                air.trace_length_spec(),
                x,
            ),
            i <= polys@.len(),
            periodic_values@.len() == i,
            all_felts(periodic_values@),
            forall|k: int| 0 <= k < i ==> periodic_values@[k] == periodic_spec[k],
        decreases polys@.len() - i,
    {
        let poly = &polys[i];
        proof {
            assert(polys_view(polys@)[i as int] == poly@);
            assert(1 <= poly@.len() <= trace_length && (trace_length as int) % (
            poly@.len() as int) == 0 && all_felts(poly@));
        }
        let num_cycles: u64 = trace_length / (poly.len() as u64);
        let xp = felt_exp(x, num_cycles);
        let v = poly_eval(poly, xp);
        periodic_values.push(v);
        i = i + 1;
    }
    proof {
        assert(periodic_values@ =~= periodic_spec);
    }

    // transition evaluations of the main segment
    let n_main = t_constraints.num_main_constraints();
    let mut t_evaluations1 = zero_vec(n_main);
    air.evaluate_transition(main_trace_frame, &periodic_values, &mut t_evaluations1);

    // transition evaluations of the auxiliary segment, if one is present
    let n_aux = t_constraints.num_aux_constraints();
    let mut t_evaluations2 = zero_vec(n_aux);
    if let Some(aux_frame) = aux_trace_frame {
        air.evaluate_aux_transition(
            main_trace_frame,
            aux_frame,
            &periodic_values,
            &aux_rand_elements,
            &mut t_evaluations2,
        );
    }

    // one random linear combination of all transition evaluations, divided
    // by the transition divisor
    let t_combined = t_constraints.combine_evaluations(&t_evaluations1, &t_evaluations2, x);

    // boundary constraint groups, by shared divisor
    let b_constraints = air.get_boundary_constraints(
        &aux_rand_elements,
        &composition_coefficients.boundary,
    );
    let ghost main_groups_spec = air.main_boundary_groups_spec(
        aux_rand_elements.elements@,
        composition_coefficients.boundary@,
    );
    let ghost aux_groups_spec = air.aux_boundary_groups_spec(
        aux_rand_elements.elements@,
        composition_coefficients.boundary@,
    );

    // cache the power of x, recomputing it only when the degree adjustment
    // changes from the previous group
    let groups = b_constraints.main_constraints();
    let mut degree_adjustment = groups[0].degree_adjustment();
    let mut xp = felt_exp(x, degree_adjustment);
    let mut b_result: u64 = 0;
    let mut i: usize = 0;
    while i < groups.len()
        invariant
            is_felt(x),
            main_trace_frame.wf(),
            groups_view(groups@) == main_groups_spec,
            boundary_groups_wf(main_groups_spec, main_trace_frame.current@.len() as nat),
            i <= groups@.len(),
            xp == felt_exp_spec(x, degree_adjustment),
            is_felt(xp),
            is_felt(b_result),
            b_result == boundary_sum_spec(
                main_groups_spec.take(i as int),
                main_trace_frame.current@,
                x,
            ),
        decreases groups@.len() - i,
    {
        let group = &groups[i];
        proof {
            assert(groups_view(groups@)[i as int] == group@);
            assert(main_groups_spec[i as int].wf(main_trace_frame.current@.len() as nat));
        }
        if group.degree_adjustment() != degree_adjustment {
            degree_adjustment = group.degree_adjustment();
            xp = felt_exp(x, degree_adjustment);
        }
        let v = group.evaluate_at(main_trace_frame.current(), x, xp);
        b_result = felt_add(b_result, v);
        proof {
            let i = i as int;
            assert(main_groups_spec.take(i + 1).drop_last() =~= main_groups_spec.take(i));
            assert(main_groups_spec.take(i + 1).last() == main_groups_spec[i]);
        }
        i = i + 1;
    }
    proof {
        assert(main_groups_spec.take(main_groups_spec.len() as int) =~= main_groups_spec);
    }
    let ghost b_main = boundary_sum_spec(main_groups_spec, main_trace_frame.current@, x);

    // boundary groups of the auxiliary segment continue the accumulation,
    // carrying the cached power across
    if let Some(aux_frame) = aux_trace_frame {
        let aux_groups = b_constraints.aux_constraints();
        let mut j: usize = 0;
        proof {
            assert(boundary_sum_spec(aux_groups_spec.take(0), aux_frame.current@, x) == 0u64);
        }
        while j < aux_groups.len()
            invariant
                is_felt(x),
                aux_frame.wf(),
                groups_view(aux_groups@) == aux_groups_spec,
                boundary_groups_wf(aux_groups_spec, aux_frame.current@.len() as nat),
                j <= aux_groups@.len(),
                xp == felt_exp_spec(x, degree_adjustment),
                is_felt(xp),
                is_felt(b_result),
                is_felt(b_main),
                b_result == felt_add_spec(
                    b_main,
                    boundary_sum_spec(aux_groups_spec.take(j as int), aux_frame.current@, x),
                ),
            decreases aux_groups@.len() - j,
        {
            let group = &aux_groups[j];
            proof {
                assert(groups_view(aux_groups@)[j as int] == group@);
                assert(aux_groups_spec[j as int].wf(aux_frame.current@.len() as nat));
            }
            if group.degree_adjustment() != degree_adjustment {
                degree_adjustment = group.degree_adjustment();
                xp = felt_exp(x, degree_adjustment);
            }
            let v = group.evaluate_at(aux_frame.current(), x, xp);
            b_result = felt_add(b_result, v);
            proof {
                let j = j as int;
                assert(aux_groups_spec.take(j + 1).drop_last() =~= aux_groups_spec.take(j));
                assert(aux_groups_spec.take(j + 1).last() == aux_groups_spec[j]);
                lemma_boundary_sum_is_felt(aux_groups_spec.take(j), aux_frame.current@, x);
                lemma_felt_add_assoc(
                    b_main,
                    boundary_sum_spec(aux_groups_spec.take(j), aux_frame.current@, x),
                    boundary_group_term_spec(aux_groups_spec[j], aux_frame.current@, x),
                );
            }
            j = j + 1;
        }
        proof {
            assert(aux_groups_spec.take(aux_groups_spec.len() as int) =~= aux_groups_spec);
        }
    }

    felt_add(b_result, t_combined)
}

/// The boundary sum is invariant to the processing order of its groups:
/// exchanging two adjacent groups — in particular two groups sharing one
/// degree adjustment — leaves the sum unchanged.
pub proof fn lemma_boundary_sum_swap_adjacent(
    gs: Seq<BoundaryGroupView>,
    row: Seq<u64>,
    x: u64,
    i: int,
)
    requires
        0 <= i,
        i + 1 < gs.len(),
    ensures
        boundary_sum_spec(gs.update(i, gs[i + 1]).update(i + 1, gs[i]), row, x)
            == boundary_sum_spec(gs, row, x),
    decreases gs.len(),
{
    let sw = gs.update(i, gs[i + 1]).update(i + 1, gs[i]);
    assert(sw.len() == gs.len());
    if i + 2 == gs.len() {
        let prefix = gs.drop_last().drop_last();
        assert(sw.drop_last().drop_last() =~= prefix);
        assert(sw.drop_last().last() == gs[i + 1]);
        assert(sw.last() == gs[i]);
        assert(gs.drop_last().drop_last() =~= prefix);
        assert(gs.drop_last().last() == gs[i]);
        assert(gs.last() == gs[i + 1]);
        let s = boundary_sum_spec(prefix, row, x);
        let t1 = boundary_group_term_spec(gs[i], row, x);
        let t2 = boundary_group_term_spec(gs[i + 1], row, x);
        assert(boundary_sum_spec(sw, row, x) == felt_add_spec(
            boundary_sum_spec(sw.drop_last(), row, x),
            t1,
        ));
        assert(boundary_sum_spec(sw.drop_last(), row, x) == felt_add_spec(s, t2));
        assert(boundary_sum_spec(gs, row, x) == felt_add_spec(
            boundary_sum_spec(gs.drop_last(), row, x),
            t2,
        ));
        assert(boundary_sum_spec(gs.drop_last(), row, x) == felt_add_spec(s, t1));
        lemma_felt_add_assoc_any(s, t1, t2);
        lemma_felt_add_assoc_any(s, t2, t1);
        assert(felt_add_spec(t1, t2) == felt_add_spec(t2, t1));
    } else {
        assert(sw.drop_last() =~= gs.drop_last().update(i, gs[i + 1]).update(i + 1, gs[i]));
        assert(sw.last() == gs.last());
        lemma_boundary_sum_swap_adjacent(gs.drop_last(), row, x, i);
        assert(boundary_sum_spec(sw, row, x) == felt_add_spec(
            boundary_sum_spec(sw.drop_last(), row, x),
            boundary_group_term_spec(sw.last(), row, x),
        ));
        assert(boundary_sum_spec(gs, row, x) == felt_add_spec(
            boundary_sum_spec(gs.drop_last(), row, x),
            boundary_group_term_spec(gs.last(), row, x),
        ));
    }
}

/// Associativity of field addition, for arbitrary operands.
proof fn lemma_felt_add_assoc_any(a: u64, b: u64, c: u64)
    ensures
        felt_add_spec(felt_add_spec(a, b), c) == felt_add_spec(a, felt_add_spec(b, c)),
{
    let m = crate::felt::FIELD_MODULUS as int;
    vstd::arithmetic::div_mod::lemma_add_mod_noop_right(c as int, a as int + b, m);
    vstd::arithmetic::div_mod::lemma_add_mod_noop_right(a as int, b as int + c, m);
}

} // verus!
