//! The constraint-description interface the evaluator consumes.
//!
//! An AIR (Algebraic Intermediate Representation) describes a computation
//! by its transition constraints — relations between consecutive trace
//! rows — and its boundary constraints — assertions at fixed trace
//! positions, grouped by shared enforcement domain. The evaluator depends
//! only on the [`Air`] capability trait, never on a concrete variant;
//! [`SimpleAir`] is a minimal concrete variant with one main transition
//! constraint and one boundary group fixing the first trace step.

use vstd::prelude::*;
use crate::felt::{
    all_felts, felt_add, felt_add_spec, felt_exp_spec, felt_inv, felt_inv_spec, felt_mul,
    felt_mul_spec, felt_exp, felt_sub, felt_sub_spec, is_felt,
};

verus! {

// PLAIN DATA
// ================================================================================================
/// An ordered pair of trace rows: the current row and the next row of one
/// trace segment.
pub struct EvaluationFrame {
    pub current: Vec<u64>,
    pub next: Vec<u64>,
}

impl EvaluationFrame {
    /// Both rows hold canonical field elements.
    pub open spec fn wf(&self) -> bool {
        all_felts(self.current@) && all_felts(self.next@)
    }

    pub fn current(&self) -> (r: &Vec<u64>)
        ensures
            r@ == self.current@,
    {
        &self.current
    }

    pub fn next(&self) -> (r: &Vec<u64>)
        ensures
            r@ == self.next@,
    {
        &self.next
    }
}

/// The verifier-drawn random scalars that linearly combine constraint
/// evaluations: one pair per transition constraint, and one pair per
/// boundary assertion.
pub struct ConstraintCompositionCoefficients {
    pub transition: Vec<(u64, u64)>,
    pub boundary: Vec<(u64, u64)>,
}

/// The random elements drawn for auxiliary trace segments, supporting
/// randomness-dependent checks such as running-product arguments.
pub struct AuxTraceRandElements {
    pub elements: Vec<u64>,
}

pub open spec fn all_felt_pairs(s: Seq<(u64, u64)>) -> bool {
    forall|i: int|
        0 <= i < s.len() ==> is_felt((#[trigger] s[i]).0) && is_felt(s[i].1)
}

// TRANSITION CONSTRAINTS
// ================================================================================================
/// One transition constraint's composition data: its two random
/// coefficients and the exponent that normalizes the constraint's degree
/// before combination.
#[derive(Clone, Copy)]
pub struct CompositionTerm {
    pub cc0: u64,
    pub cc1: u64,
    pub degree_adjustment: u64,
}

/// The transition-constraint divisor, vanishing on every trace step but the
/// last: z(x) = (x^trace_length - 1) / (x - exemption), where the exemption
/// is the last point of the trace domain.
#[derive(Clone, Copy)]
pub struct TransitionDivisor {
    pub trace_length: u64,
    pub exemption: u64,
}

/// The transition constraints an AIR yields for given composition
/// coefficients: one term per main-segment constraint, one per
/// auxiliary-segment constraint, and their common divisor.
pub struct TransitionConstraints {
    pub main: Vec<CompositionTerm>,
    pub aux: Vec<CompositionTerm>,
    pub divisor: TransitionDivisor,
}

/// The mathematical content of [`TransitionConstraints`].
#[verifier::ext_equal]
pub struct TransitionConstraintsView {
    pub main: Seq<CompositionTerm>,
    pub aux: Seq<CompositionTerm>,
    pub divisor: TransitionDivisor,
}

impl View for TransitionConstraints {
    type V = TransitionConstraintsView;

    open spec fn view(&self) -> TransitionConstraintsView {
        TransitionConstraintsView { main: self.main@, aux: self.aux@, divisor: self.divisor }
    }
}

pub open spec fn term_wf(t: CompositionTerm) -> bool {
    is_felt(t.cc0) && is_felt(t.cc1)
}

pub open spec fn terms_wf(s: Seq<CompositionTerm>) -> bool {
    forall|i: int| 0 <= i < s.len() ==> term_wf(#[trigger] s[i])
}

/// One evaluation scaled by its composition term:
/// `e * (cc0 + cc1 * x^degree_adjustment)`.
pub open spec fn term_value_spec(t: CompositionTerm, e: u64, x: u64) -> u64 {
    felt_mul_spec(
        e,
        felt_add_spec(t.cc0, felt_mul_spec(t.cc1, felt_exp_spec(x, t.degree_adjustment))),
    )
}

/// The linear combination of a run of evaluations with their terms.
pub open spec fn terms_sum_spec(ts: Seq<CompositionTerm>, es: Seq<u64>, x: u64) -> u64
    decreases ts.len(),
{
    if ts.len() == 0 {
        0u64
    } else {
        felt_add_spec(
            terms_sum_spec(ts.drop_last(), es.take(ts.len() - 1), x),
            term_value_spec(ts.last(), es[ts.len() - 1], x),
        )
    }
}

/// The scaled sum of a run of evaluations, computed by one forward pass.
fn terms_sum(ts: &Vec<CompositionTerm>, es: &Vec<u64>, x: u64) -> (r: u64)
    requires
        terms_wf(ts@),
        all_felts(es@),
        es@.len() == ts@.len(),
        is_felt(x),
    ensures
        r == terms_sum_spec(ts@, es@, x),
        is_felt(r),
{
    let mut acc: u64 = 0;
    let mut i: usize = 0;
    while i < ts.len()
        invariant
            terms_wf(ts@),
            all_felts(es@),
            es@.len() == ts@.len(),
            is_felt(x),
            is_felt(acc),
            i <= ts@.len(),
            acc == terms_sum_spec(ts@.take(i as int), es@.take(i as int), x),
        decreases ts@.len() - i,
    {
        let t = ts[i];
        let xp = felt_exp(x, t.degree_adjustment);
        let v = felt_mul(es[i], felt_add(t.cc0, felt_mul(t.cc1, xp)));
        acc = felt_add(acc, v);
        proof {
            let i = i as int;
            assert(ts@.take(i + 1).drop_last() =~= ts@.take(i));
            assert(es@.take(i + 1).take(i) =~= es@.take(i));
            assert(ts@.take(i + 1).last() == ts@[i]);
            assert(es@.take(i + 1)[i] == es@[i]);
        }
        i = i + 1;
    }
    proof {
        assert(ts@.take(ts@.len() as int) =~= ts@);
        assert(es@.take(ts@.len() as int) =~= es@);
    }
    acc
}

impl TransitionConstraintsView {
    pub open spec fn wf(&self) -> bool {
        terms_wf(self.main) && terms_wf(self.aux) && is_felt(self.divisor.exemption)
    }

    /// The transition divisor's value at x.
    pub open spec fn divisor_eval_spec(&self, x: u64) -> u64 {
        felt_mul_spec(
            felt_sub_spec(felt_exp_spec(x, self.divisor.trace_length), 1),
            felt_inv_spec(felt_sub_spec(x, self.divisor.exemption)),
        )
    }

    /// The composed transition value at x: the scaled sum of the main and
    /// auxiliary evaluations, divided by the transition divisor.
    pub open spec fn combine_spec(&self, e1: Seq<u64>, e2: Seq<u64>, x: u64) -> u64 {
        felt_mul_spec(
            felt_add_spec(terms_sum_spec(self.main, e1, x), terms_sum_spec(self.aux, e2, x)),
            felt_inv_spec(self.divisor_eval_spec(x)),
        )
    }
}

impl TransitionConstraints {
    pub fn num_main_constraints(&self) -> (r: usize)
        ensures
            r == self.main@.len(),
    {
        self.main.len()
    }

    pub fn num_aux_constraints(&self) -> (r: usize)
        ensures
            r == self.aux@.len(),
    {
        self.aux.len()
    }

    /// Merges the main and auxiliary constraint evaluations into one value:
    /// each evaluation is scaled by its composition term, the sums are
    /// added, and the total is divided by the transition divisor.
    pub fn combine_evaluations(&self, main_evals: &Vec<u64>, aux_evals: &Vec<u64>, x: u64) -> (r:
        u64)
        requires
            self@.wf(),
            all_felts(main_evals@),
            all_felts(aux_evals@),
            main_evals@.len() == self.main@.len(),
            aux_evals@.len() == self.aux@.len(),
            is_felt(x),
        ensures
            r == self@.combine_spec(main_evals@, aux_evals@, x),
            is_felt(r),
    {
        let s1 = terms_sum(&self.main, main_evals, x);
        let s2 = terms_sum(&self.aux, aux_evals, x);
        let z = felt_mul(
            felt_sub(felt_exp(x, self.divisor.trace_length), 1),
            felt_inv(felt_sub(x, self.divisor.exemption)),
        );
        felt_mul(felt_add(s1, s2), felt_inv(z))
    }
}

// BOUNDARY CONSTRAINTS
// ================================================================================================
/// One boundary assertion folded with its composition coefficients: the
/// trace column it constrains, the value asserted there, and its two
/// random coefficients.
#[derive(Clone, Copy)]
pub struct BoundaryConstraint {
    pub column: usize,
    pub value: u64,
    pub cc0: u64,
    pub cc1: u64,
}

/// One factor `(x^num_steps - offset_value)` of a boundary divisor; a
/// divisor's factors encode the cyclic (num_steps, offset) pattern of the
/// positions the group is enforced on.
#[derive(Clone, Copy)]
pub struct BoundaryDivisorTerm {
    pub num_steps: u64,
    pub offset_value: u64,
}

/// A group of boundary assertions sharing one enforcement domain: the
/// assertions, the factors of the shared divisor, and the exponent that
/// adjusts the group's degree before combination.
pub struct BoundaryConstraintGroup {
    pub constraints: Vec<BoundaryConstraint>,
    pub divisor: Vec<BoundaryDivisorTerm>,
    pub degree_adjustment: u64,
}

/// The mathematical content of a boundary constraint group.
#[verifier::ext_equal]
pub struct BoundaryGroupView {
    pub constraints: Seq<BoundaryConstraint>,
    pub divisor: Seq<BoundaryDivisorTerm>,
    pub degree_adjustment: u64,
}

impl View for BoundaryConstraintGroup {
    type V = BoundaryGroupView;

    open spec fn view(&self) -> BoundaryGroupView {
        BoundaryGroupView {
            constraints: self.constraints@,
            divisor: self.divisor@,
            degree_adjustment: self.degree_adjustment,
        }
    }
}

/// The views of a run of groups.
pub open spec fn groups_view(gs: Seq<BoundaryConstraintGroup>) -> Seq<BoundaryGroupView> {
    Seq::new(gs.len(), |i: int| gs[i]@)
}

/// The numerator of a group's evaluation: the sum over its assertions of
/// `(row[column] - value) * (cc0 + cc1 * xp)`.
pub open spec fn boundary_numerator_spec(cs: Seq<BoundaryConstraint>, row: Seq<u64>, xp: u64) -> u64
    decreases cs.len(),
{
    if cs.len() == 0 {
        0u64
    } else {
        let c = cs.last();
        felt_add_spec(
            boundary_numerator_spec(cs.drop_last(), row, xp),
            felt_mul_spec(
                felt_sub_spec(row[c.column as int], c.value),
                felt_add_spec(c.cc0, felt_mul_spec(c.cc1, xp)),
            ),
        )
    }
}

/// A boundary divisor's value at x: the product of its factors.
pub open spec fn boundary_divisor_eval_spec(ds: Seq<BoundaryDivisorTerm>, x: u64) -> u64
    decreases ds.len(),
{
    if ds.len() == 0 {
        1u64
    } else {
        let d = ds.last();
        felt_mul_spec(
            boundary_divisor_eval_spec(ds.drop_last(), x),
            felt_sub_spec(felt_exp_spec(x, d.num_steps), d.offset_value),
        )
    }
}

impl BoundaryGroupView {
    /// Every assertion fits a row of the given width and all values are
    /// canonical field elements.
    pub open spec fn wf(&self, width: nat) -> bool {
        (forall|i: int|
            0 <= i < self.constraints.len() ==> {
                let c = #[trigger] self.constraints[i];
                c.column < width && is_felt(c.value) && is_felt(c.cc0) && is_felt(c.cc1)
            }) && (forall|i: int|
            0 <= i < self.divisor.len() ==> is_felt((#[trigger] self.divisor[i]).offset_value))
    }

    /// The group's evaluation at x: its numerator divided by its divisor's
    /// value at x.
    pub open spec fn evaluate_at_spec(&self, row: Seq<u64>, x: u64, xp: u64) -> u64 {
        felt_mul_spec(
            boundary_numerator_spec(self.constraints, row, xp),
            felt_inv_spec(boundary_divisor_eval_spec(self.divisor, x)),
        )
    }
}

pub open spec fn boundary_groups_wf(gs: Seq<BoundaryGroupView>, width: nat) -> bool {
    forall|i: int| 0 <= i < gs.len() ==> (#[trigger] gs[i]).wf(width)
}

impl BoundaryConstraintGroup {
    pub fn degree_adjustment(&self) -> (r: u64)
        ensures
            r == self.degree_adjustment,
    {
        self.degree_adjustment
    }

    pub fn divisor(&self) -> (r: &Vec<BoundaryDivisorTerm>)
        ensures
            r@ == self.divisor@,
    {
        &self.divisor
    }

    /// Evaluates all assertions of the group at x: each assertion's
    /// deviation is scaled by `cc0 + cc1 * xp`, the sum is divided by the
    /// group's divisor evaluated at x.
    pub fn evaluate_at(&self, row: &Vec<u64>, x: u64, xp: u64) -> (r: u64)
        requires
            self@.wf(row@.len() as nat),
            all_felts(row@),
            is_felt(x),
            is_felt(xp),
        ensures
            r == self@.evaluate_at_spec(row@, x, xp),
            is_felt(r),
    {
        let mut numerator: u64 = 0;
        let mut i: usize = 0;
        while i < self.constraints.len()
            invariant
                self@.wf(row@.len() as nat),
                all_felts(row@),
                is_felt(x),
                is_felt(xp),
                is_felt(numerator),
                i <= self.constraints@.len(),
                numerator == boundary_numerator_spec(self.constraints@.take(i as int), row@, xp),
            decreases self.constraints@.len() - i,
        {
            let c = self.constraints[i];
            proof {
                assert(self@.constraints[i as int] == c);
                assert(c.column < row@.len() && is_felt(c.value) && is_felt(c.cc0) && is_felt(
                    c.cc1,
                ));
            }
            let v = felt_mul(felt_sub(row[c.column], c.value), felt_add(c.cc0, felt_mul(c.cc1, xp)));
            numerator = felt_add(numerator, v);
            proof {
                let i = i as int;
                assert(self.constraints@.take(i + 1).drop_last() =~= self.constraints@.take(i));
                assert(self.constraints@.take(i + 1).last() == self.constraints@[i]);
            }
            i = i + 1;
        }
        let mut z: u64 = 1;
        let mut j: usize = 0;
        while j < self.divisor.len()
            invariant
                self@.wf(row@.len() as nat),
                is_felt(x),
                is_felt(z),
                j <= self.divisor@.len(),
                z == boundary_divisor_eval_spec(self.divisor@.take(j as int), x),
            decreases self.divisor@.len() - j,
        {
            let d = self.divisor[j];
            proof {
                assert(self@.divisor[j as int] == d);
                assert(is_felt(d.offset_value));
            }
            z = felt_mul(z, felt_sub(felt_exp(x, d.num_steps), d.offset_value));
            proof {
                let j = j as int;
                assert(self.divisor@.take(j + 1).drop_last() =~= self.divisor@.take(j));
                assert(self.divisor@.take(j + 1).last() == self.divisor@[j]);
            }
            j = j + 1;
        }
        proof {
            assert(self.constraints@.take(self.constraints@.len() as int) =~= self.constraints@);
            assert(self.divisor@.take(self.divisor@.len() as int) =~= self.divisor@);
        }
        felt_mul(numerator, felt_inv(z))
    }
}

/// The boundary constraints an AIR yields for given composition
/// coefficients: the groups of the main segment and of the auxiliary
/// segment, each partitioned by shared divisor, in enforcement order.
pub struct BoundaryConstraints {
    pub main: Vec<BoundaryConstraintGroup>,
    pub aux: Vec<BoundaryConstraintGroup>,
}

impl BoundaryConstraints {
    pub fn main_constraints(&self) -> (r: &Vec<BoundaryConstraintGroup>)
        ensures
            r@ == self.main@,
    {
        &self.main
    }

    pub fn aux_constraints(&self) -> (r: &Vec<BoundaryConstraintGroup>)
        ensures
            r@ == self.aux@,
    {
        &self.aux
    }
}

/// Every periodic column is non-empty, no longer than the trace, divides
/// the trace length evenly, and holds canonical field elements.
pub open spec fn periodic_polys_wf(polys: Seq<Seq<u64>>, trace_length: u64) -> bool {
    forall|i: int|
        0 <= i < polys.len() ==> {
            let p = #[trigger] polys[i];
            1 <= p.len() <= trace_length && (trace_length as int) % (p.len() as int) == 0
                && all_felts(p)
        }
}

/// The views of a run of periodic columns.
pub open spec fn polys_view(ps: Seq<Vec<u64>>) -> Seq<Seq<u64>> {
    Seq::new(ps.len(), |i: int| ps[i]@)
}

// THE AIR CAPABILITY TRAIT
// ================================================================================================
/// What the evaluator consumes from an AIR. Each exec method returns
/// exactly what the matching spec function describes, so the evaluator's
/// own contract is stated purely over the spec functions.
pub trait Air {
    /// The implementation's own validity condition.
    spec fn wf(&self) -> bool;

    spec fn trace_length_spec(&self) -> u64;

    spec fn trace_domain_generator_spec(&self) -> u64;

    spec fn ce_blowup_factor_spec(&self) -> u64;

    spec fn main_trace_width_spec(&self) -> nat;

    spec fn aux_trace_width_spec(&self) -> nat;

    spec fn num_main_constraints_spec(&self) -> nat;

    spec fn num_aux_constraints_spec(&self) -> nat;

    /// How many boundary assertions the AIR places, over both segments.
    spec fn num_assertions_spec(&self) -> nat;

    spec fn periodic_polys_spec(&self) -> Seq<Seq<u64>>;

    spec fn transition_constraints_spec(&self, coeffs: Seq<(u64, u64)>) -> TransitionConstraintsView;

    spec fn main_transition_evals_spec(&self, current: Seq<u64>, next: Seq<u64>, periodic: Seq<u64>) -> Seq<u64>;

    spec fn aux_transition_evals_spec(
        &self,
        main_current: Seq<u64>,
        main_next: Seq<u64>,
        aux_current: Seq<u64>,
        aux_next: Seq<u64>,
        periodic: Seq<u64>,
        rand: Seq<u64>,
    ) -> Seq<u64>;

    spec fn main_boundary_groups_spec(&self, rand: Seq<u64>, coeffs: Seq<(u64, u64)>) -> Seq<
        BoundaryGroupView,
    >;

    spec fn aux_boundary_groups_spec(&self, rand: Seq<u64>, coeffs: Seq<(u64, u64)>) -> Seq<
        BoundaryGroupView,
    >;

    /// The number of steps in the execution trace.
    fn trace_length(&self) -> (r: u64)
        requires
            self.wf(),
        ensures
            r == self.trace_length_spec(),
            r >= 1,
    ;

    /// The generator of the trace domain.
    fn trace_domain_generator(&self) -> (r: u64)
        requires
            self.wf(),
        ensures
            r == self.trace_domain_generator_spec(),
            is_felt(r),
    ;

    /// The blowup factor of the constraint-evaluation domain.
    fn ce_blowup_factor(&self) -> (r: u64)
        requires
            self.wf(),
        ensures
            r == self.ce_blowup_factor_spec(),
    ;

    /// The periodic column polynomials, lowest coefficient first. Each
    /// column's length divides the trace length evenly — a condition this
    /// interface owes the evaluator.
    fn get_periodic_column_polys(&self) -> (r: Vec<Vec<u64>>)
        requires
            self.wf(),
        ensures
            polys_view(r@) == self.periodic_polys_spec(),
            periodic_polys_wf(self.periodic_polys_spec(), self.trace_length_spec()),
    ;

    /// The transition constraints for the given composition coefficients.
    fn get_transition_constraints(&self, coeffs: &Vec<(u64, u64)>) -> (r: TransitionConstraints)
        requires
            self.wf(),
            all_felt_pairs(coeffs@),
            coeffs@.len() >= self.num_main_constraints_spec() + self.num_aux_constraints_spec(),
        ensures
            r@ == self.transition_constraints_spec(coeffs@),
            r@.wf(),
            r.main@.len() == self.num_main_constraints_spec(),
            r.aux@.len() == self.num_aux_constraints_spec(),
    ;

    /// Writes one evaluation per main-segment transition constraint into
    /// `result`.
    fn evaluate_transition(
        &self,
        frame: &EvaluationFrame,
        periodic_values: &Vec<u64>,
        result: &mut Vec<u64>,
    )
        requires
            self.wf(),
            frame.wf(),
            frame.current@.len() == self.main_trace_width_spec(),
            frame.next@.len() == self.main_trace_width_spec(),
            all_felts(periodic_values@),
            periodic_values@.len() == self.periodic_polys_spec().len(),
            old(result)@.len() == self.num_main_constraints_spec(),
        ensures
            final (result)@ == self.main_transition_evals_spec(
                frame.current@,
                frame.next@,
                periodic_values@,
            ),
            final (result)@.len() == self.num_main_constraints_spec(),
            all_felts(final (result)@),
    ;

    /// Writes one evaluation per auxiliary-segment transition constraint
    /// into `result`, from both frames, the periodic values, and the
    /// auxiliary random elements.
    fn evaluate_aux_transition(
        &self,
        main_frame: &EvaluationFrame,
        aux_frame: &EvaluationFrame,
        periodic_values: &Vec<u64>,
        aux_rand_elements: &AuxTraceRandElements,
        result: &mut Vec<u64>,
    )
        requires
            self.wf(),
            main_frame.wf(),
            aux_frame.wf(),
            main_frame.current@.len() == self.main_trace_width_spec(),
            main_frame.next@.len() == self.main_trace_width_spec(),
            aux_frame.current@.len() == self.aux_trace_width_spec(),
            aux_frame.next@.len() == self.aux_trace_width_spec(),
            all_felts(periodic_values@),
            periodic_values@.len() == self.periodic_polys_spec().len(),
            all_felts(aux_rand_elements.elements@),
            old(result)@.len() == self.num_aux_constraints_spec(),
        ensures
            final (result)@ == self.aux_transition_evals_spec(
                main_frame.current@,
                main_frame.next@,
                aux_frame.current@,
                aux_frame.next@,
                periodic_values@,
                aux_rand_elements.elements@,
            ),
            final (result)@.len() == self.num_aux_constraints_spec(),
            all_felts(final (result)@),
    ;

    /// The boundary constraints for the given composition coefficients,
    /// grouped by shared divisor, in enforcement order.
    fn get_boundary_constraints(
        &self,
        aux_rand_elements: &AuxTraceRandElements,
        coeffs: &Vec<(u64, u64)>,
    ) -> (r: BoundaryConstraints)
        requires
            self.wf(),
            all_felts(aux_rand_elements.elements@),
            all_felt_pairs(coeffs@),
            coeffs@.len() >= self.num_assertions_spec(),
        ensures
            groups_view(r.main@) == self.main_boundary_groups_spec(
                aux_rand_elements.elements@,
                coeffs@,
            ),
            groups_view(r.aux@) == self.aux_boundary_groups_spec(
                aux_rand_elements.elements@,
                coeffs@,
            ),
            boundary_groups_wf(
                self.main_boundary_groups_spec(aux_rand_elements.elements@, coeffs@),
                self.main_trace_width_spec(),
            ),
            boundary_groups_wf(
                self.aux_boundary_groups_spec(aux_rand_elements.elements@, coeffs@),
                self.aux_trace_width_spec(),
            ),
    ;
}

// A MINIMAL CONCRETE AIR
// ================================================================================================
/// A minimal synthetic AIR over a single-column trace: one main transition
/// constraint requiring every row to double the previous one, one boundary
/// group fixing column 0 at the first trace step (whose divisor is x - 1),
/// no auxiliary segment and no periodic columns. The boundary group takes
/// the first boundary coefficient pair; the transition constraint takes the
/// first transition coefficient pair.
pub struct SimpleAir {
    pub trace_length: u64,
    pub trace_domain_generator: u64,
    pub ce_blowup_factor: u64,
    /// The degree-adjustment exponent of the transition constraint.
    pub transition_degree_adjustment: u64,
    /// The last trace-domain point, exempted from the transition divisor.
    pub divisor_exemption: u64,
    /// The value asserted in column 0 at the first step.
    pub boundary_value: u64,
    /// The degree-adjustment exponent of the boundary group.
    pub boundary_degree_adjustment: u64,
}

impl Air for SimpleAir {
    open spec fn wf(&self) -> bool {
        self.trace_length >= 1 && is_felt(self.trace_domain_generator) && is_felt(
            self.divisor_exemption,
        ) && is_felt(self.boundary_value)
    }

    open spec fn trace_length_spec(&self) -> u64 {
        self.trace_length
    }

    open spec fn trace_domain_generator_spec(&self) -> u64 {
        self.trace_domain_generator
    }

    open spec fn ce_blowup_factor_spec(&self) -> u64 {
        self.ce_blowup_factor
    }

    open spec fn main_trace_width_spec(&self) -> nat {
        1
    }

    open spec fn aux_trace_width_spec(&self) -> nat {
        0
    }

    open spec fn num_main_constraints_spec(&self) -> nat {
        1
    }

    open spec fn num_aux_constraints_spec(&self) -> nat {
        0
    }

    open spec fn num_assertions_spec(&self) -> nat {
        1
    }

    open spec fn periodic_polys_spec(&self) -> Seq<Seq<u64>> {
        Seq::empty()
    }

    open spec fn transition_constraints_spec(&self, coeffs: Seq<(u64, u64)>) -> TransitionConstraintsView {
        TransitionConstraintsView {
            main: seq![
                CompositionTerm {
                    cc0: coeffs[0].0,
                    cc1: coeffs[0].1,
                    degree_adjustment: self.transition_degree_adjustment,
                },
            ],
            aux: Seq::empty(),
            divisor: TransitionDivisor {
                trace_length: self.trace_length,
                exemption: self.divisor_exemption,
            },
        }
    }

    open spec fn main_transition_evals_spec(
        &self,
        current: Seq<u64>,
        next: Seq<u64>,
        periodic: Seq<u64>,
    ) -> Seq<u64> {
        seq![felt_sub_spec(next[0], felt_mul_spec(2, current[0]))]
    }

    open spec fn aux_transition_evals_spec(
        &self,
        main_current: Seq<u64>,
        main_next: Seq<u64>,
        aux_current: Seq<u64>,
        aux_next: Seq<u64>,
        periodic: Seq<u64>,
        rand: Seq<u64>,
    ) -> Seq<u64> {
        Seq::empty()
    }

    open spec fn main_boundary_groups_spec(&self, rand: Seq<u64>, coeffs: Seq<(u64, u64)>) -> Seq<
        BoundaryGroupView,
    > {
        seq![
            BoundaryGroupView {
                constraints: seq![
                    BoundaryConstraint {
                        column: 0,
                        value: self.boundary_value,
                        cc0: coeffs[0].0,
                        cc1: coeffs[0].1,
                    },
                ],
                divisor: seq![BoundaryDivisorTerm { num_steps: 1, offset_value: 1 }],
                degree_adjustment: self.boundary_degree_adjustment,
            },
        ]
    }

    open spec fn aux_boundary_groups_spec(&self, rand: Seq<u64>, coeffs: Seq<(u64, u64)>) -> Seq<
        BoundaryGroupView,
    > {
        Seq::empty()
    }

    fn trace_length(&self) -> (r: u64) {
        self.trace_length
    }

    fn trace_domain_generator(&self) -> (r: u64) {
        self.trace_domain_generator
    }

    fn ce_blowup_factor(&self) -> (r: u64) {
        self.ce_blowup_factor
    }

    fn get_periodic_column_polys(&self) -> (r: Vec<Vec<u64>>) {
        let r: Vec<Vec<u64>> = Vec::new();
        proof {
            assert(polys_view(r@) =~= self.periodic_polys_spec());
        }
        r
    }

    fn get_transition_constraints(&self, coeffs: &Vec<(u64, u64)>) -> (r: TransitionConstraints) {
        let c = coeffs[0];
        let mut main: Vec<CompositionTerm> = Vec::new();
        main.push(
            CompositionTerm {
                cc0: c.0,
                cc1: c.1,
                degree_adjustment: self.transition_degree_adjustment,
            },
        );
        let r = TransitionConstraints {
            main,
            aux: Vec::new(),
            divisor: TransitionDivisor {
                trace_length: self.trace_length,
                exemption: self.divisor_exemption,
            },
        };
        proof {
            let spec = self.transition_constraints_spec(coeffs@);
            assert(r@.main =~= spec.main);
            assert(r@.aux =~= spec.aux);
            assert(r@ =~= spec);
            assert(coeffs@[0] == c);
            assert(is_felt(c.0) && is_felt(c.1));
        }
        r
    }

    fn evaluate_transition(
        &self,
        frame: &EvaluationFrame,
        periodic_values: &Vec<u64>,
        result: &mut Vec<u64>,
    ) {
        let v = felt_sub(frame.next[0], felt_mul(2, frame.current[0]));
        result.clear();
        result.push(v);
        proof {
            assert(result@ =~= self.main_transition_evals_spec(
                frame.current@,
                frame.next@,
                periodic_values@,
            ));
        }
    }

    fn evaluate_aux_transition(
        &self,
        main_frame: &EvaluationFrame,
        aux_frame: &EvaluationFrame,
        periodic_values: &Vec<u64>,
        aux_rand_elements: &AuxTraceRandElements,
        result: &mut Vec<u64>,
    ) {
        proof {
            assert(result@ =~= Seq::<u64>::empty());
        }
    }

    fn get_boundary_constraints(
        &self,
        aux_rand_elements: &AuxTraceRandElements,
        coeffs: &Vec<(u64, u64)>,
    ) -> (r: BoundaryConstraints) {
        let c = coeffs[0];
        let mut constraints: Vec<BoundaryConstraint> = Vec::new();
        constraints.push(
            BoundaryConstraint { column: 0, value: self.boundary_value, cc0: c.0, cc1: c.1 },
        );
        let mut divisor: Vec<BoundaryDivisorTerm> = Vec::new();
        divisor.push(BoundaryDivisorTerm { num_steps: 1, offset_value: 1 });
        let mut main: Vec<BoundaryConstraintGroup> = Vec::new();
        main.push(
            BoundaryConstraintGroup {
                constraints,
                divisor,
                degree_adjustment: self.boundary_degree_adjustment,
            },
        );
        let r = BoundaryConstraints { main, aux: Vec::new() };
        proof {
            let spec = self.main_boundary_groups_spec(aux_rand_elements.elements@, coeffs@);
            assert(coeffs@[0] == c);
            assert(r.main@[0]@.constraints =~= spec[0].constraints);
            assert(r.main@[0]@.divisor =~= spec[0].divisor);
            assert(r.main@[0]@ =~= spec[0]);
            assert(groups_view(r.main@) =~= spec);
            assert(groups_view(r.aux@) =~= self.aux_boundary_groups_spec(
                aux_rand_elements.elements@,
                coeffs@,
            ));
            assert(is_felt(1));
            assert(spec[0].wf(self.main_trace_width_spec()));
            assert(boundary_groups_wf(spec, self.main_trace_width_spec()));
            assert(boundary_groups_wf(
                self.aux_boundary_groups_spec(aux_rand_elements.elements@, coeffs@),
                self.aux_trace_width_spec(),
            ));
        }
        r
    }
}

} // verus!
