//! Rule evaluation and the two defuzzification strategies.
//!
//! A rule is an ordered antecedent clause chain plus one consequent. The
//! antecedent strength is a left fold over the clauses (`ante_fold`):
//! operator precedence is strictly evaluation order. `Centroid` sums every
//! rule's contribution over the output domain and returns the discrete
//! centre of mass as an exact numerator/denominator pair; `Mom` pools the
//! domain points where each rule's activation peaks and returns their exact
//! mean in the same form.

use vstd::prelude::*;

verus! {

use vstd::math::{max, min};
use crate::hedges::{hedge_val, lemma_hedge_val_bounds, Hedge};
use crate::mf::MfType;
use crate::{FuzzyError, COORD_MAX, DOMAIN_MAX, RULES_MAX, SCALE};

/// One antecedent clause: the input variable's name, the membership function
/// it is tested against, an optional hedge chain, and the operator that joins
/// it to the next clause (absent on the last clause).
pub type Clause = (String, MfType, Option<Box<Hedge>>, Option<DefuzzOp>);

/// One rule: the antecedent clauses, the consequent's optional hedge chain,
/// and the consequent membership function.
pub type Rule = (Vec<Clause>, Option<Box<Hedge>>, MfType);

/// The operators that join antecedent clauses.
#[derive(Debug, Clone, Copy, PartialEq, Eq, Structural)]
pub enum DefuzzOp {
    And,
    Or,
    Not,
}

/// The selected defuzzification strategy; `Undefined` until one is chosen.
#[derive(Debug, Clone)]
pub enum DefuzzType {
    Centroid(Centroid),
    Mom(Mom),
    Undefined,
}

/// Centroid-of-area defuzzification.
#[derive(Debug, Clone)]
pub struct Centroid;

/// Mean-of-maxima defuzzification.
#[derive(Debug, Clone)]
pub struct Mom;

/// First value bound to `name` in the input mapping, if any.
pub open spec fn lookup(m: Seq<(String, i64)>, name: Seq<char>) -> Option<i64>
    decreases m.len(),
{
    if m.len() == 0 {
        None
    } else if m[0].0@ == name {
        Some(m[0].1)
    } else {
        lookup(m.drop_first(), name)
    }
}

/// Every value of the input mapping lies in the coordinate range.
pub open spec fn inputs_wf(m: Seq<(String, i64)>) -> bool {
    forall|i: int| 0 <= i < m.len() ==> -COORD_MAX <= (#[trigger] m[i]).1 <= COORD_MAX
}

/// Every clause's membership function is well formed.
pub open spec fn clauses_wf(clauses: Seq<Clause>) -> bool {
    forall|i: int| 0 <= i < clauses.len() ==> (#[trigger] clauses[i]).1.wf()
}

/// Every clause and the consequent of the rule are well formed.
pub open spec fn rule_wf(rule: Rule) -> bool {
    clauses_wf(rule.0@) && rule.2.wf()
}

/// Every rule of the rule base is well formed.
pub open spec fn rules_wf(rules: Seq<Rule>) -> bool {
    forall|i: int| 0 <= i < rules.len() ==> rule_wf(#[trigger] rules[i])
}

/// The input mapping defines every variable the clause chain references.
pub open spec fn ante_defined(clauses: Seq<Clause>, m: Seq<(String, i64)>) -> bool {
    forall|i: int| 0 <= i < clauses.len() ==> lookup(m, (#[trigger] clauses[i]).0@) is Some
}

/// The input mapping defines every variable referenced by any rule.
pub open spec fn all_defined(rules: Seq<Rule>, m: Seq<(String, i64)>) -> bool {
    forall|i: int| 0 <= i < rules.len() ==> ante_defined((#[trigger] rules[i]).0@, m)
}

/// One clause's hedged membership degree of its input's current value.
pub open spec fn clause_deg(cl: Clause, m: Seq<(String, i64)>) -> int {
    match lookup(m, cl.0@) {
        Some(x) => {
            let d = cl.1.spec_compute(x as int);
            match cl.2 {
                Some(h) => hedge_val(*h, d),
                None => d,
            }
        },
        None => 0,
    }
}

/// The antecedent's left fold: `And` takes the minimum, `Or` the maximum, and
/// `Not` replaces the accumulator by its complement, discarding the newly
/// computed degree.
pub open spec fn ante_fold(
    clauses: Seq<Clause>,
    m: Seq<(String, i64)>,
    acc: int,
    pending: Option<DefuzzOp>,
) -> int
    decreases clauses.len(),
{
    if clauses.len() == 0 {
        acc
    } else {
        let d = clause_deg(clauses[0], m);
        let combined = match pending {
            None => d,
            Some(DefuzzOp::And) => min(acc, d),
            Some(DefuzzOp::Or) => max(acc, d),
            Some(DefuzzOp::Not) => SCALE - acc,
        };
        ante_fold(clauses.drop_first(), m, combined, clauses[0].3)
    }
}

/// A rule's antecedent strength: the fold started from a zero accumulator
/// with no pending operator.
pub open spec fn ante_strength(clauses: Seq<Clause>, m: Seq<(String, i64)>) -> int {
    ante_fold(clauses, m, 0, None)
}

/// A defined lookup hands back one of the mapping's values, so it lies in
/// the coordinate range.
pub proof fn lemma_lookup_in_range(m: Seq<(String, i64)>, name: Seq<char>)
    requires
        inputs_wf(m),
    ensures
        lookup(m, name) matches Some(x) ==> -COORD_MAX <= x <= COORD_MAX,
    decreases m.len(),
{
    if m.len() > 0 && m[0].0@ != name {
        assert(inputs_wf(m.drop_first())) by {
            assert(forall|i: int|
                0 <= i < m.drop_first().len() ==> #[trigger] m.drop_first()[i] == m[i + 1]);
        }
        lemma_lookup_in_range(m.drop_first(), name);
    }
}



/// A clause degree lies in `[0, SCALE]`.
proof fn lemma_clause_deg_bounds(cl: Clause, m: Seq<(String, i64)>)
    requires
        cl.1.wf(),
        inputs_wf(m),
    ensures
        0 <= clause_deg(cl, m) <= SCALE,
{
    match lookup(m, cl.0@) {
        Some(x) => {
            lemma_lookup_in_range(m, cl.0@);
            crate::mf::lemma_mf_val_bounds(cl.1, x as int);
            let d = cl.1.spec_compute(x as int);
            match cl.2 {
                Some(h) => {
                    lemma_hedge_val_bounds(*h, d);
                },
                None => {},
            }
        },
        None => {},
    }
}

/// The antecedent fold keeps its accumulator in `[0, SCALE]`.
pub proof fn lemma_ante_fold_bounds(
    clauses: Seq<Clause>,
    m: Seq<(String, i64)>,
    acc: int,
    pending: Option<DefuzzOp>,
)
    requires
        clauses_wf(clauses),
        inputs_wf(m),
        0 <= acc <= SCALE,
    ensures
        0 <= ante_fold(clauses, m, acc, pending) <= SCALE,
    decreases clauses.len(),
{
    if clauses.len() > 0 {
        lemma_clause_deg_bounds(clauses[0], m);
        let d = clause_deg(clauses[0], m);
        let combined = match pending {
            None => d,
            Some(DefuzzOp::And) => min(acc, d),
            Some(DefuzzOp::Or) => max(acc, d),
            Some(DefuzzOp::Not) => SCALE - acc,
        };
        assert(clauses_wf(clauses.drop_first())) by {
            assert(forall|i: int|
                0 <= i < clauses.drop_first().len() ==> #[trigger] clauses.drop_first()[i]
                    == clauses[i + 1]);
        }
        lemma_ante_fold_bounds(clauses.drop_first(), m, combined, clauses[0].3);
    }
}

/// Antecedent evaluation is a pure function of the clause chain and the
/// input mapping: equal arguments always yield equal strengths.
pub proof fn lemma_antecedent_deterministic(
    c1: Seq<Clause>,
    c2: Seq<Clause>,
    m1: Seq<(String, i64)>,
    m2: Seq<(String, i64)>,
)
    requires
        c1 == c2,
        m1 == m2,
    ensures
        ante_strength(c1, m1) == ante_strength(c2, m2),
{
}

/// First value bound to `name` in the mapping, executably.
fn lookup_value(inputs: &Vec<(String, i64)>, name: &String) -> (r: Option<i64>)
    ensures
        r == lookup(inputs@, name@),
{
    let mut i: usize = 0;
    proof {
        assert(inputs@.skip(0) =~= inputs@);
    }
    while i < inputs.len()
        invariant
            0 <= i <= inputs@.len(),
            lookup(inputs@, name@) == lookup(inputs@.skip(i as int), name@),
        decreases inputs@.len() - i,
    {
        proof {
            assert(inputs@.skip(i as int)[0] == inputs@[i as int]);
            assert(inputs@.skip(i as int).drop_first() =~= inputs@.skip(i as int + 1));
        }
        if inputs[i].0 == *name {
            return Some(inputs[i].1);
        }
        i += 1;
    }
    proof {
        assert(inputs@.skip(i as int).len() == 0);
    }
    None
}

/// Evaluate a rule's antecedent clause chain against the input mapping.
///
/// Returns `FuzzyError::UndefinedVariable` exactly when some clause
/// references a variable the mapping does not define.
pub fn eval_antecedent(clauses: &Vec<Clause>, inputs: &Vec<(String, i64)>) -> (r: Result<
    u64,
    FuzzyError,
>)
    requires
        clauses_wf(clauses@),
        inputs_wf(inputs@),
    ensures
        (r is Ok) == ante_defined(clauses@, inputs@),
        r matches Ok(s) ==> s == ante_strength(clauses@, inputs@) && s <= SCALE,
        r matches Err(e) ==> e == FuzzyError::UndefinedVariable,
{
    let ghost full = ante_strength(clauses@, inputs@);
    let mut acc: u64 = 0;
    let mut pending: Option<DefuzzOp> = None;
    let mut i: usize = 0;
    proof {
        assert(clauses@.skip(0) =~= clauses@);
    }
    while i < clauses.len()
        invariant
            0 <= i <= clauses@.len(),
            clauses_wf(clauses@),
            inputs_wf(inputs@),
            acc <= SCALE,
            forall|j: int| 0 <= j < i ==> lookup(inputs@, (#[trigger] clauses@[j]).0@) is Some,
            ante_fold(clauses@.skip(i as int), inputs@, acc as int, pending) == full,
            full == ante_strength(clauses@, inputs@),
        decreases clauses@.len() - i,
    {
        proof {
            assert(clauses@.skip(i as int)[0] == clauses@[i as int]);
            assert(clauses@.skip(i as int).drop_first() =~= clauses@.skip(i as int + 1));
        }
        let x = match lookup_value(inputs, &clauses[i].0) {
            Some(v) => v,
            None => {
                return Err(FuzzyError::UndefinedVariable);
            },
        };
        proof {
            lemma_lookup_in_range(inputs@, clauses@[i as int].0@);
        }
        let mut d = clauses[i].1.compute(x);
        if let Some(ref h) = clauses[i].2 {
            d = h.compute(d);
        }
        proof {
            assert(d == clause_deg(clauses@[i as int], inputs@));
        }
        let combined: u64 = match pending {
            None => d,
            Some(DefuzzOp::And) => if acc < d {
                acc
            } else {
                d
            },
            Some(DefuzzOp::Or) => if acc > d {
                acc
            } else {
                d
            },
            Some(DefuzzOp::Not) => SCALE - acc,
        };
        acc = combined;
        pending = clauses[i].3;
        i += 1;
    }
    proof {
        assert(clauses@.skip(i as int).len() == 0);
    }
    Ok(acc)
}

/// A rule's contribution at domain sample `y`, given antecedent strength
/// `s`: the consequent's degree at the sample coordinate, scaled by `s`,
/// with the consequent hedge applied.
pub open spec fn contrib_val(out_hedge: Option<Box<Hedge>>, out_mf: MfType, s: int, y: int) -> int {
    let c = out_mf.spec_compute(y * SCALE);
    let p = c * s / (SCALE as int);
    match out_hedge {
        Some(h) => hedge_val(*h, p),
        None => p,
    }
}

/// A rule's contribution at sample `y` under the input mapping `m`.
pub open spec fn rule_contrib(rule: Rule, m: Seq<(String, i64)>, y: int) -> int {
    contrib_val(rule.1, rule.2, ante_strength(rule.0@, m), y)
}

/// The aggregated output at sample `y`: the sum of every rule's
/// contribution.
pub open spec fn fdom(rules: Seq<Rule>, m: Seq<(String, i64)>, y: int) -> int
    decreases rules.len(),
{
    if rules.len() == 0 {
        0
    } else {
        fdom(rules.drop_last(), m, y) + rule_contrib(rules.last(), m, y)
    }
}

/// `Σ fdom[y]` over the samples `[start, e)`.
pub open spec fn den_sum(rules: Seq<Rule>, m: Seq<(String, i64)>, start: int, e: int) -> int
    decreases e - start,
{
    if e <= start {
        0
    } else {
        den_sum(rules, m, start, e - 1) + fdom(rules, m, e - 1)
    }
}

/// `Σ y * fdom[y]` over the samples `[start, e)`.
pub open spec fn num_sum(rules: Seq<Rule>, m: Seq<(String, i64)>, start: int, e: int) -> int
    decreases e - start,
{
    if e <= start {
        0
    } else {
        num_sum(rules, m, start, e - 1) + (e - 1) * fdom(rules, m, e - 1)
    }
}

/// The greatest activation a rule reaches on `[s, e)`, at least 0.
pub open spec fn act_max(rule: Rule, m: Seq<(String, i64)>, s: int, e: int) -> int
    decreases e - s,
{
    if e <= s {
        0
    } else {
        max(act_max(rule, m, s, e - 1), rule_contrib(rule, m, e - 1))
    }
}

/// Sum of the samples in `[s, e)` whose activation is positive and equals
/// the maximum `mx`.
pub open spec fn pool_sum(rule: Rule, m: Seq<(String, i64)>, s: int, e: int, mx: int) -> int
    decreases e - s,
{
    if e <= s {
        0
    } else {
        pool_sum(rule, m, s, e - 1, mx) + if rule_contrib(rule, m, e - 1) > 0 && rule_contrib(
            rule,
            m,
            e - 1,
        ) == mx {
            e - 1
        } else {
            0
        }
    }
}

/// Count of the samples in `[s, e)` whose activation is positive and equals
/// the maximum `mx`.
pub open spec fn pool_count(rule: Rule, m: Seq<(String, i64)>, s: int, e: int, mx: int) -> int
    decreases e - s,
{
    if e <= s {
        0
    } else {
        pool_count(rule, m, s, e - 1, mx) + if rule_contrib(rule, m, e - 1) > 0 && rule_contrib(
            rule,
            m,
            e - 1,
        ) == mx {
            1int
        } else {
            0int
        }
    }
}

/// Pooled sample sum across all rules, each against its own maximum.
pub open spec fn mom_sum(rules: Seq<Rule>, m: Seq<(String, i64)>, s: int, e: int) -> int
    decreases rules.len(),
{
    if rules.len() == 0 {
        0
    } else {
        mom_sum(rules.drop_last(), m, s, e) + pool_sum(
            rules.last(),
            m,
            s,
            e,
            act_max(rules.last(), m, s, e),
        )
    }
}

/// Pooled sample count across all rules.
pub open spec fn mom_count(rules: Seq<Rule>, m: Seq<(String, i64)>, s: int, e: int) -> int
    decreases rules.len(),
{
    if rules.len() == 0 {
        0
    } else {
        mom_count(rules.drop_last(), m, s, e) + pool_count(
            rules.last(),
            m,
            s,
            e,
            act_max(rules.last(), m, s, e),
        )
    }
}

/// One rule's contribution at sample `y`, executably.
fn contrib_at(out_hedge: &Option<Box<Hedge>>, out_mf: &MfType, s: u64, y: usize) -> (r: u64)
    requires
        out_mf.wf(),
        s <= SCALE,
        y <= DOMAIN_MAX,
    ensures
        r == contrib_val(*out_hedge, *out_mf, s as int, y as int),
        r <= SCALE,
{
    let coord: i64 = (y as i64) * (SCALE as i64);
    let c = out_mf.compute(coord);
    proof {
        assert(c * s <= SCALE * SCALE) by (nonlinear_arith)
            requires
                0 <= c <= SCALE,
                0 <= s <= SCALE,
        ;
        vstd::arithmetic::div_mod::lemma_div_is_ordered(
            (c * s) as int,
            (SCALE * SCALE) as int,
            SCALE as int,
        );
        vstd::arithmetic::div_mod::lemma_div_multiples_vanish(SCALE as int, SCALE as int);
    }
    let p: u64 = c * s / SCALE;
    match out_hedge {
        Some(h) => h.compute(p),
        None => p,
    }
}

/// Every rule's antecedent strength, or the first evaluation failure.
fn eval_strengths(rules: &Vec<Rule>, inputs: &Vec<(String, i64)>) -> (r: Result<
    Vec<u64>,
    FuzzyError,
>)
    requires
        rules_wf(rules@),
        inputs_wf(inputs@),
    ensures
        (r is Ok) == all_defined(rules@, inputs@),
        r matches Ok(v) ==> (v@.len() == rules@.len() && forall|i: int|
            0 <= i < rules@.len() ==> #[trigger] v@[i] == ante_strength(rules@[i].0@, inputs@)
                && v@[i] <= SCALE),
        r matches Err(e) ==> e == FuzzyError::UndefinedVariable,
{
    let mut v: Vec<u64> = Vec::new();
    let mut i: usize = 0;
    while i < rules.len()
        invariant
            rules_wf(rules@),
            inputs_wf(inputs@),
            0 <= i <= rules@.len(),
            v@.len() == i,
            forall|j: int| 0 <= j < i ==> ante_defined((#[trigger] rules@[j]).0@, inputs@),
            forall|j: int|
                0 <= j < i ==> #[trigger] v@[j] == ante_strength(rules@[j].0@, inputs@) && v@[j]
                    <= SCALE,
        decreases rules@.len() - i,
    {
        proof {
            assert(rule_wf(rules@[i as int]));
        }
        let s = match eval_antecedent(&rules[i].0, inputs) {
            Ok(s) => s,
            Err(e) => {
                return Err(e);
            },
        };
        v.push(s);
        i += 1;
    }
    Ok(v)
}

impl Centroid {
    /// Discrete centroid of area over `[start, end)`: the exact pair
    /// `(Σ y * fdom[y], Σ fdom[y])`.
    ///
    /// Fails with `UndefinedVariable` when a rule references an input the
    /// mapping lacks, and with `ZeroActivation` when the aggregated output
    /// sums to zero (no rule fired), so a meaningless quotient is never
    /// produced.
    pub fn get(&self, start: usize, end: usize, rules: &Vec<Rule>, inputs: &Vec<(String, i64)>) -> (r:
        Result<(u128, u128), FuzzyError>)
        requires
            rules_wf(rules@),
            inputs_wf(inputs@),
            end <= DOMAIN_MAX,
            rules@.len() <= RULES_MAX,
        ensures
            (r is Ok) == (all_defined(rules@, inputs@) && den_sum(
                rules@,
                inputs@,
                start as int,
                end as int,
            ) > 0),
            r matches Ok(p) ==> (p.0 == num_sum(rules@, inputs@, start as int, end as int) && p.1
                == den_sum(rules@, inputs@, start as int, end as int)),
            !all_defined(rules@, inputs@) ==> r == Err::<(u128, u128), FuzzyError>(
                FuzzyError::UndefinedVariable,
            ),
            (all_defined(rules@, inputs@) && den_sum(rules@, inputs@, start as int, end as int)
                == 0) ==> r == Err::<(u128, u128), FuzzyError>(FuzzyError::ZeroActivation),
            all_defined(rules@, inputs@) ==> den_sum(rules@, inputs@, start as int, end as int)
                >= 0,
    {
        let strengths = match eval_strengths(rules, inputs) {
            Ok(v) => v,
            Err(e) => {
                return Err(e);
            },
        };
        let mut num: u128 = 0;
        let mut den: u128 = 0;
        let mut y: usize = start;
        while y < end
            invariant
                start <= y,
                y <= end || y == start,
                end <= DOMAIN_MAX,
                rules@.len() <= RULES_MAX,
                rules_wf(rules@),
                inputs_wf(inputs@),
                strengths@.len() == rules@.len(),
                forall|j: int|
                    0 <= j < rules@.len() ==> #[trigger] strengths@[j] == ante_strength(
                        rules@[j].0@,
                        inputs@,
                    ) && strengths@[j] <= SCALE,
                num as int == num_sum(rules@, inputs@, start as int, y as int),
                den as int == den_sum(rules@, inputs@, start as int, y as int),
                num as int <= (y as int - start as int) * 4_000_000_000_000_000_000,
                den as int <= (y as int - start as int) * 1_000_000_000_000,
            decreases end - y,
        {
            let mut f: u64 = 0;
            let mut k: usize = 0;
            while k < rules.len()
                invariant
                    0 <= k <= rules@.len(),
                    rules@.len() <= RULES_MAX,
                    y < end <= DOMAIN_MAX,
                    rules_wf(rules@),
                    inputs_wf(inputs@),
                    strengths@.len() == rules@.len(),
                    forall|j: int|
                        0 <= j < rules@.len() ==> #[trigger] strengths@[j] == ante_strength(
                            rules@[j].0@,
                            inputs@,
                        ) && strengths@[j] <= SCALE,
                    f as int == fdom(rules@.take(k as int), inputs@, y as int),
                    f as int <= (k as int) * (SCALE as int),
                decreases rules@.len() - k,
            {
                proof {
                    assert(rule_wf(rules@[k as int]));
                }
                let c = contrib_at(&rules[k].1, &rules[k].2, strengths[k], y);
                proof {
                    assert(rules@.take(k as int + 1).drop_last() =~= rules@.take(k as int));
                    assert(rules@.take(k as int + 1).last() == rules@[k as int]);
                }
                f = f + c;
                k += 1;
            }
            proof {
                assert(rules@.take(rules@.len() as int) =~= rules@);
                assert((y as int) * (f as int) <= 4_000_000_000_000_000_000) by (nonlinear_arith)
                    requires
                        0 <= y as int <= 4_000_000,
                        0 <= f as int <= 1_000_000_000_000,
                ;
            }
            num = num + (y as u128) * (f as u128);
            den = den + (f as u128);
            y += 1;
        }
        if den == 0 {
            Err(FuzzyError::ZeroActivation)
        } else {
            Ok((num, den))
        }
    }
}

impl Mom {
    /// Mean of maxima over `[start, end)`: the exact pair
    /// `(Σ pooled samples, pooled sample count)`, pooling for every rule the
    /// samples where its activation is positive and equal to its maximum.
    ///
    /// Fails with `UndefinedVariable` when a rule references an input the
    /// mapping lacks, and with `NoActivation` when no rule produced a
    /// positive activation, so the mean of an empty pool is never taken.
    pub fn get(&self, start: usize, end: usize, rules: &Vec<Rule>, inputs: &Vec<(String, i64)>) -> (r:
        Result<(u128, u128), FuzzyError>)
        requires
            rules_wf(rules@),
            inputs_wf(inputs@),
            end <= DOMAIN_MAX,
            rules@.len() <= RULES_MAX,
        ensures
            (r is Ok) == (all_defined(rules@, inputs@) && mom_count(
                rules@,
                inputs@,
                start as int,
                end as int,
            ) > 0),
            r matches Ok(p) ==> (p.0 == mom_sum(rules@, inputs@, start as int, end as int) && p.1
                == mom_count(rules@, inputs@, start as int, end as int)),
            !all_defined(rules@, inputs@) ==> r == Err::<(u128, u128), FuzzyError>(
                FuzzyError::UndefinedVariable,
            ),
            (all_defined(rules@, inputs@) && mom_count(rules@, inputs@, start as int, end as int)
                == 0) ==> r == Err::<(u128, u128), FuzzyError>(FuzzyError::NoActivation),
            all_defined(rules@, inputs@) ==> mom_count(rules@, inputs@, start as int, end as int)
                >= 0,
    {
        let strengths = match eval_strengths(rules, inputs) {
            Ok(v) => v,
            Err(e) => {
                return Err(e);
            },
        };
        let mut tot_s: u128 = 0;
        let mut tot_c: u64 = 0;
        let mut i: usize = 0;
        while i < rules.len()
            invariant
                0 <= i <= rules@.len(),
                rules@.len() <= RULES_MAX,
                end <= DOMAIN_MAX,
                rules_wf(rules@),
                inputs_wf(inputs@),
                strengths@.len() == rules@.len(),
                forall|j: int|
                    0 <= j < rules@.len() ==> #[trigger] strengths@[j] == ante_strength(
                        rules@[j].0@,
                        inputs@,
                    ) && strengths@[j] <= SCALE,
                tot_s as int == mom_sum(rules@.take(i as int), inputs@, start as int, end as int),
                tot_c as int == mom_count(rules@.take(i as int), inputs@, start as int, end as int),
                tot_s as int <= (i as int) * 16_000_000_000_000,
                tot_c as int <= (i as int) * 4_000_000,
            decreases rules@.len() - i,
        {
            proof {
                assert(rule_wf(rules@[i as int]));
            }
            let mut mx: u64 = 0;
            let mut y: usize = start;
            while y < end
                invariant
                    start <= y,
                    y <= end || y == start,
                    end <= DOMAIN_MAX,
                    i < rules@.len(),
                    rules_wf(rules@),
                    inputs_wf(inputs@),
                    strengths@.len() == rules@.len(),
                    strengths@[i as int] == ante_strength(rules@[i as int].0@, inputs@),
                    strengths@[i as int] <= SCALE,
                    mx as int == act_max(rules@[i as int], inputs@, start as int, y as int),
                    mx <= SCALE,
                decreases end - y,
            {
                proof {
                    assert(rule_wf(rules@[i as int]));
                }
                let a = contrib_at(&rules[i].1, &rules[i].2, strengths[i], y);
                if a >= mx {
                    mx = a;
                }
                y += 1;
            }
            proof {
                if start as int >= end as int {
                    assert(act_max(rules@[i as int], inputs@, start as int, end as int) == 0);
                }
                assert(mx as int == act_max(rules@[i as int], inputs@, start as int, end as int));
            }
            let mut ps: u64 = 0;
            let mut pc: u64 = 0;
            let mut y2: usize = start;
            while y2 < end
                invariant
                    start <= y2,
                    y2 <= end || y2 == start,
                    end <= DOMAIN_MAX,
                    i < rules@.len(),
                    rules_wf(rules@),
                    inputs_wf(inputs@),
                    strengths@.len() == rules@.len(),
                    strengths@[i as int] == ante_strength(rules@[i as int].0@, inputs@),
                    strengths@[i as int] <= SCALE,
                    mx <= SCALE,
                    ps as int == pool_sum(
                        rules@[i as int],
                        inputs@,
                        start as int,
                        y2 as int,
                        mx as int,
                    ),
                    pc as int == pool_count(
                        rules@[i as int],
                        inputs@,
                        start as int,
                        y2 as int,
                        mx as int,
                    ),
                    ps as int <= (y2 as int - start as int) * 4_000_000,
                    pc as int <= y2 as int - start as int,
                decreases end - y2,
            {
                proof {
                    assert(rule_wf(rules@[i as int]));
                }
                let a = contrib_at(&rules[i].1, &rules[i].2, strengths[i], y2);
                if a > 0 && a == mx {
                    ps = ps + (y2 as u64);
                    pc = pc + 1;
                }
                y2 += 1;
            }
            proof {
                assert(rules@.take(i as int + 1).drop_last() =~= rules@.take(i as int));
                assert(rules@.take(i as int + 1).last() == rules@[i as int]);
                if start as int >= end as int {
                    assert(pool_sum(rules@[i as int], inputs@, start as int, end as int, mx as int)
                        == 0);
                    assert(pool_count(
                        rules@[i as int],
                        inputs@,
                        start as int,
                        end as int,
                        mx as int,
                    ) == 0);
                }
            }
            tot_s = tot_s + (ps as u128);
            tot_c = tot_c + pc;
            i += 1;
        }
        proof {
            assert(rules@.take(rules@.len() as int) =~= rules@);
        }
        if tot_c == 0 {
            Err(FuzzyError::NoActivation)
        } else {
            Ok((tot_s, tot_c as u128))
        }
    }
}

/// A rule's contribution lies in `[0, SCALE]` at every admissible sample.
proof fn lemma_rule_contrib_bounds(rule: Rule, m: Seq<(String, i64)>, y: int)
    requires
        rule_wf(rule),
        inputs_wf(m),
        0 <= y,
        y * SCALE <= COORD_MAX,
    ensures
        0 <= rule_contrib(rule, m, y) <= SCALE,
{
    lemma_ante_fold_bounds(rule.0@, m, 0, None);
    let s = ante_strength(rule.0@, m);
    assert(0 <= y * SCALE) by (nonlinear_arith)
        requires
            0 <= y,
            SCALE > 0,
    ;
    crate::mf::lemma_mf_val_bounds(rule.2, y * SCALE);
    let c = rule.2.spec_compute(y * SCALE);
    assert(0 <= c * s <= (SCALE as int) * (SCALE as int)) by (nonlinear_arith)
        requires
            0 <= c <= SCALE,
            0 <= s <= SCALE,
    ;
    vstd::arithmetic::div_mod::lemma_div_pos_is_pos(c * s, SCALE as int);
    vstd::arithmetic::div_mod::lemma_div_is_ordered(
        c * s,
        (SCALE as int) * (SCALE as int),
        SCALE as int,
    );
    vstd::arithmetic::div_mod::lemma_div_multiples_vanish(SCALE as int, SCALE as int);
    let p = c * s / (SCALE as int);
    match rule.1 {
        Some(h) => {
            lemma_hedge_val_bounds(*h, p);
        },
        None => {},
    }
}

/// The aggregated output is nonnegative at every admissible sample.
proof fn lemma_fdom_nonneg(rules: Seq<Rule>, m: Seq<(String, i64)>, y: int)
    requires
        rules_wf(rules),
        inputs_wf(m),
        0 <= y,
        y * SCALE <= COORD_MAX,
    ensures
        0 <= fdom(rules, m, y),
    decreases rules.len(),
{
    if rules.len() > 0 {
        assert(rules_wf(rules.drop_last())) by {
            assert(forall|i: int|
                0 <= i < rules.drop_last().len() ==> #[trigger] rules.drop_last()[i] == rules[i]);
        }
        lemma_fdom_nonneg(rules.drop_last(), m, y);
        lemma_rule_contrib_bounds(rules.last(), m, y);
    }
}

/// The centroid's denominator is nonnegative.
proof fn lemma_den_sum_nonneg(rules: Seq<Rule>, m: Seq<(String, i64)>, start: int, e: int)
    requires
        rules_wf(rules),
        inputs_wf(m),
        0 <= start,
        e <= DOMAIN_MAX,
    ensures
        0 <= den_sum(rules, m, start, e),
    decreases e - start,
{
    if e > start {
        lemma_den_sum_nonneg(rules, m, start, e - 1);
        lemma_fdom_nonneg(rules, m, e - 1);
    }
}

/// The centroid's exact pair denotes a weighted average of the sampled
/// domain points: the numerator lies between `start` times the denominator
/// and `end - 1` times it, so the crisp value it stands for never leaves the
/// output domain.
pub proof fn lemma_centroid_in_domain(rules: Seq<Rule>, m: Seq<(String, i64)>, start: int, e: int)
    requires
        rules_wf(rules),
        inputs_wf(m),
        0 <= start,
        e <= DOMAIN_MAX,
    ensures
        start * den_sum(rules, m, start, e) <= num_sum(rules, m, start, e),
        num_sum(rules, m, start, e) <= (e - 1) * den_sum(rules, m, start, e),
    decreases e - start,
{
    if e > start {
        lemma_centroid_in_domain(rules, m, start, e - 1);
        lemma_fdom_nonneg(rules, m, e - 1);
        lemma_den_sum_nonneg(rules, m, start, e - 1);
        let f = fdom(rules, m, e - 1);
        let dprev = den_sum(rules, m, start, e - 1);
        let nprev = num_sum(rules, m, start, e - 1);
        assert(nprev + (e - 1) * f <= (e - 1) * (dprev + f)) by (nonlinear_arith)
            requires
                nprev <= (e - 2) * dprev,
                dprev >= 0,
        ;
        assert(start * (dprev + f) <= nprev + (e - 1) * f) by (nonlinear_arith)
            requires
                start * dprev <= nprev,
                f >= 0,
                start <= e - 1,
        ;
    }
}

/// A rule's pooled-sample count is nonnegative.
proof fn lemma_pool_count_nonneg(rule: Rule, m: Seq<(String, i64)>, s: int, e: int, mx: int)
    ensures
        0 <= pool_count(rule, m, s, e, mx),
    decreases e - s,
{
    if e > s {
        lemma_pool_count_nonneg(rule, m, s, e - 1, mx);
    }
}

/// A rule's pooled samples all come from `[s, e)`: the pooled sum lies
/// between `s` and `e - 1` times the pooled count.
proof fn lemma_pool_in_domain(rule: Rule, m: Seq<(String, i64)>, s: int, e: int, mx: int)
    requires
        0 <= s,
    ensures
        s * pool_count(rule, m, s, e, mx) <= pool_sum(rule, m, s, e, mx),
        pool_sum(rule, m, s, e, mx) <= (e - 1) * pool_count(rule, m, s, e, mx),
    decreases e - s,
{
    if e > s {
        lemma_pool_in_domain(rule, m, s, e - 1, mx);
        lemma_pool_count_nonneg(rule, m, s, e - 1, mx);
        let ps = pool_sum(rule, m, s, e - 1, mx);
        let pc = pool_count(rule, m, s, e - 1, mx);
        if rule_contrib(rule, m, e - 1) > 0 && rule_contrib(rule, m, e - 1) == mx {
            assert(ps + (e - 1) <= (e - 1) * (pc + 1)) by (nonlinear_arith)
                requires
                    ps <= (e - 2) * pc,
                    pc >= 0,
            ;
            assert(s * (pc + 1) <= ps + (e - 1)) by (nonlinear_arith)
                requires
                    s * pc <= ps,
                    s <= e - 1,
            ;
        } else {
            assert(ps <= (e - 1) * pc) by (nonlinear_arith)
                requires
                    ps <= (e - 2) * pc,
                    pc >= 0,
            ;
        }
    }
}

/// The pooled-sample count across all rules is nonnegative.
proof fn lemma_mom_count_nonneg(rules: Seq<Rule>, m: Seq<(String, i64)>, s: int, e: int)
    ensures
        0 <= mom_count(rules, m, s, e),
    decreases rules.len(),
{
    if rules.len() > 0 {
        lemma_mom_count_nonneg(rules.drop_last(), m, s, e);
        lemma_pool_count_nonneg(rules.last(), m, s, e, act_max(rules.last(), m, s, e));
    }
}

/// The mean of maxima's exact pair denotes a mean of sampled domain points:
/// the pooled sum lies between `s` and `e - 1` times the pooled count, so
/// the crisp value it stands for never leaves the output domain.
pub proof fn lemma_mom_in_domain(rules: Seq<Rule>, m: Seq<(String, i64)>, s: int, e: int)
    requires
        0 <= s,
    ensures
        s * mom_count(rules, m, s, e) <= mom_sum(rules, m, s, e),
        mom_sum(rules, m, s, e) <= (e - 1) * mom_count(rules, m, s, e),
    decreases rules.len(),
{
    if rules.len() > 0 {
        lemma_mom_in_domain(rules.drop_last(), m, s, e);
        lemma_pool_in_domain(rules.last(), m, s, e, act_max(rules.last(), m, s, e));
        let ms = mom_sum(rules.drop_last(), m, s, e);
        let mc = mom_count(rules.drop_last(), m, s, e);
        let ps = pool_sum(rules.last(), m, s, e, act_max(rules.last(), m, s, e));
        let pc = pool_count(rules.last(), m, s, e, act_max(rules.last(), m, s, e));
        assert(s * (mc + pc) == s * mc + s * pc) by (nonlinear_arith);
        assert((e - 1) * (mc + pc) == (e - 1) * mc + (e - 1) * pc) by (nonlinear_arith);
    }
}

/// The result the selected strategy owes for the given domain, rule base and
/// input mapping: an exact numerator/denominator pair, or the error that
/// names what went wrong.
pub open spec fn spec_get(
    d: DefuzzType,
    start: int,
    end: int,
    rules: Seq<Rule>,
    m: Seq<(String, i64)>,
) -> Result<(int, int), FuzzyError> {
    match d {
        DefuzzType::Undefined => Err(FuzzyError::StrategyUndefined),
        DefuzzType::Centroid(_) => if !all_defined(rules, m) {
            Err(FuzzyError::UndefinedVariable)
        } else if den_sum(rules, m, start, end) == 0 {
            Err(FuzzyError::ZeroActivation)
        } else {
            Ok((num_sum(rules, m, start, end), den_sum(rules, m, start, end)))
        },
        DefuzzType::Mom(_) => if !all_defined(rules, m) {
            Err(FuzzyError::UndefinedVariable)
        } else if mom_count(rules, m, start, end) == 0 {
            Err(FuzzyError::NoActivation)
        } else {
            Ok((mom_sum(rules, m, start, end), mom_count(rules, m, start, end)))
        },
    }
}

/// The executable result agrees with the specified one: the same error, or
/// the same exact numerator/denominator pair.
pub open spec fn results_agree(
    r: Result<(u128, u128), FuzzyError>,
    s: Result<(int, int), FuzzyError>,
) -> bool {
    match (r, s) {
        (Ok(p), Ok(q)) => p.0 == q.0 && p.1 == q.1,
        (Err(e1), Err(e2)) => e1 == e2,
        _ => false,
    }
}

impl DefuzzType {
    /// Run the selected strategy; `Undefined` fails with
    /// `StrategyUndefined` instead of producing a value.
    pub fn get(&self, start: usize, end: usize, rules: &Vec<Rule>, inputs: &Vec<(String, i64)>) -> (r:
        Result<(u128, u128), FuzzyError>)
        requires
            rules_wf(rules@),
            inputs_wf(inputs@),
            end <= DOMAIN_MAX,
            rules@.len() <= RULES_MAX,
        ensures
            results_agree(r, spec_get(*self, start as int, end as int, rules@, inputs@)),
    {
        match *self {
            DefuzzType::Centroid(ref value) => value.get(start, end, rules, inputs),
            DefuzzType::Mom(ref value) => value.get(start, end, rules, inputs),
            DefuzzType::Undefined => Err(FuzzyError::StrategyUndefined),
        }
    }
}

} // verus!
