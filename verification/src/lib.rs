//! A fuzzy-inference evaluator.
//!
//! Named numeric inputs are turned into membership degrees of linguistic
//! terms, combined through a rule base with fuzzy operators and hedges, and
//! collapsed to one crisp scalar over a discretized output domain.
//!
//! All quantities are fixed-point numbers: a real value `v` is represented by
//! the integer `v * SCALE`, and a membership degree lies in `[0, SCALE]`.
//! Every arithmetic step rounds toward negative infinity (floor), and the
//! contracts state the exact integer value of every result.

use vstd::prelude::*;

pub mod deffuz;
pub mod hedges;
pub mod mf;

verus! {

/// The fixed-point unit: the degree `1.0` and the coordinate scale.
pub const SCALE: u64 = 1_000_000;

/// Largest admitted output-domain bound: keeps every centroid and
/// mean-of-maxima accumulator inside its integer type.
pub const DOMAIN_MAX: usize = 4_000_000;

/// Largest admitted number of rules, for the same reason.
pub const RULES_MAX: usize = 1_000_000;

/// Largest magnitude of a fixed-point coordinate (shape parameter or crisp
/// input); keeps every intermediate product inside `i64`/`u64`.
pub const COORD_MAX: i64 = 4_000_000_000_000;

/// Everything that can go wrong while configuring or evaluating an engine.
#[derive(Clone, Copy, Debug, PartialEq, Eq, Structural)]
pub enum FuzzyError {
    /// A membership-function shape was given the wrong number of parameters,
    /// or parameters that would divide by zero or overflow.
    Configuration,
    /// A hedge, operator, strategy, variable or term name is not known.
    UnknownIdentifier,
    /// A rule antecedent references an input name absent from the supplied
    /// input mapping.
    UndefinedVariable,
    /// Evaluation was attempted before a defuzzification strategy was chosen.
    StrategyUndefined,
    /// Mean-of-maxima found no sample with a positive activation.
    NoActivation,
    /// Centroid aggregation summed to zero: no rule fired.
    ZeroActivation,
}

use crate::deffuz::{
    inputs_wf, results_agree, rules_wf, spec_get, Clause, DefuzzOp, DefuzzType, Rule,
};
use crate::deffuz::{Centroid, Mom};
use crate::hedges::{chain_of, hedge_names_ok};
use crate::mf::{find_mf, lemma_find_mf_wf, MfType};

/// An input linguistic variable: named membership functions over one integer
/// domain `[start, end)`.
#[derive(Debug)]
pub struct InputVar {
    pub vars: Vec<MfType>,
    pub start: usize,
    pub end: usize,
}

/// An output linguistic variable, shaped exactly like an input one; only the
/// engine's usage context distinguishes them.
#[derive(Debug)]
pub struct OutputVar {
    pub vars: Vec<MfType>,
    pub start: usize,
    pub end: usize,
}

impl Clone for InputVar {
    /// A field-for-field copy.
    fn clone(&self) -> (r: Self)
        ensures
            r.vars@ == self.vars@,
            r.start == self.start,
            r.end == self.end,
    {
        InputVar { vars: clone_mfs(&self.vars), start: self.start, end: self.end }
    }
}

impl Clone for OutputVar {
    /// A field-for-field copy.
    fn clone(&self) -> (r: Self)
        ensures
            r.vars@ == self.vars@,
            r.start == self.start,
            r.end == self.end,
    {
        OutputVar { vars: clone_mfs(&self.vars), start: self.start, end: self.end }
    }
}

/// An element-for-element copy of a membership-function list.
fn clone_mfs(vars: &Vec<MfType>) -> (r: Vec<MfType>)
    ensures
        r@ == vars@,
{
    let mut out: Vec<MfType> = Vec::new();
    let mut i: usize = 0;
    while i < vars.len()
        invariant
            0 <= i <= vars@.len(),
            out@ =~= vars@.take(i as int),
        decreases vars@.len() - i,
    {
        out.push(vars[i].clone());
        i += 1;
    }
    proof {
        assert(out@ =~= vars@);
    }
    out
}

impl InputVar {
    /// A variable over the given membership functions; the domain is set by
    /// the engine when the variable is registered.
    pub fn new(input: Vec<MfType>) -> (r: InputVar)
        ensures
            r.vars == input,
            r.start == 0,
            r.end == 0,
    {
        InputVar { vars: input, start: 0, end: 0 }
    }

    /// Every membership function of the variable is well formed.
    pub open spec fn wf(&self) -> bool {
        forall|i: int| 0 <= i < self.vars@.len() ==> (#[trigger] self.vars@[i]).wf()
    }

    /// Set the domain's lower bound.
    pub fn start(&mut self, start: usize)
        ensures
            final(self).start == start,
            final(self).end == old(self).end,
            final(self).vars == old(self).vars,
    {
        self.start = start;
    }

    /// Set the domain's upper bound.
    pub fn end(&mut self, end: usize)
        ensures
            final(self).end == end,
            final(self).start == old(self).start,
            final(self).vars == old(self).vars,
    {
        self.end = end;
    }

    /// The first membership function registered under `name`, if any.
    pub fn get(&self, name: &str) -> (r: Option<&MfType>)
        ensures
            (r is Some) == (find_mf(self.vars@, name@) is Some),
            r matches Some(m) ==> *m == find_mf(self.vars@, name@).unwrap(),
    {
        find_mf_exec(&self.vars, name)
    }
}

impl OutputVar {
    /// A variable over the given membership functions; the domain is set by
    /// the engine when the variable is registered.
    pub fn new(input: Vec<MfType>) -> (r: OutputVar)
        ensures
            r.vars == input,
            r.start == 0,
            r.end == 0,
    {
        OutputVar { vars: input, start: 0, end: 0 }
    }

    /// Every membership function of the variable is well formed.
    pub open spec fn wf(&self) -> bool {
        forall|i: int| 0 <= i < self.vars@.len() ==> (#[trigger] self.vars@[i]).wf()
    }

    /// Set the domain's lower bound.
    pub fn start(&mut self, start: usize)
        ensures
            final(self).start == start,
            final(self).end == old(self).end,
            final(self).vars == old(self).vars,
    {
        self.start = start;
    }

    /// Set the domain's upper bound.
    pub fn end(&mut self, end: usize)
        ensures
            final(self).end == end,
            final(self).start == old(self).start,
            final(self).vars == old(self).vars,
    {
        self.end = end;
    }

    /// The first membership function registered under `name`, if any.
    pub fn get(&self, name: &str) -> (r: Option<&MfType>)
        ensures
            (r is Some) == (find_mf(self.vars@, name@) is Some),
            r matches Some(m) ==> *m == find_mf(self.vars@, name@).unwrap(),
    {
        find_mf_exec(&self.vars, name)
    }

    /// The variable's domain `[start, end)`.
    pub fn range(&self) -> (r: (usize, usize))
        ensures
            r == (self.start, self.end),
    {
        (self.start, self.end)
    }
}

/// First membership function of the list whose name is `name`, executably.
fn find_mf_exec<'a>(vars: &'a Vec<MfType>, name: &str) -> (r: Option<&'a MfType>)
    ensures
        (r is Some) == (find_mf(vars@, name@) is Some),
        r matches Some(m) ==> *m == find_mf(vars@, name@).unwrap(),
{
    let target = name.to_owned();
    let mut i: usize = 0;
    proof {
        assert(vars@.skip(0) =~= vars@);
    }
    while i < vars.len()
        invariant
            0 <= i <= vars@.len(),
            find_mf(vars@, name@) == find_mf(vars@.skip(i as int), name@),
            target@ == name@,
        decreases vars@.len() - i,
    {
        proof {
            assert(vars@.skip(i as int)[0] == vars@[i as int]);
            assert(vars@.skip(i as int).drop_first() =~= vars@.skip(i as int + 1));
        }
        if vars[i].name().to_owned() == target {
            return Some(&vars[i]);
        }
        i += 1;
    }
    None
}

/// First input variable registered under `name`, if any.
pub open spec fn find_in(reg: Seq<(String, InputVar)>, name: Seq<char>) -> Option<InputVar>
    decreases reg.len(),
{
    if reg.len() == 0 {
        None
    } else if reg[0].0@ == name {
        Some(reg[0].1)
    } else {
        find_in(reg.drop_first(), name)
    }
}

/// First output variable registered under `name`, if any.
pub open spec fn find_out(reg: Seq<(String, OutputVar)>, name: Seq<char>) -> Option<OutputVar>
    decreases reg.len(),
{
    if reg.len() == 0 {
        None
    } else if reg[0].0@ == name {
        Some(reg[0].1)
    } else {
        find_out(reg.drop_first(), name)
    }
}

/// A found input variable inherits well-formedness from its registry.
proof fn lemma_find_in_wf(reg: Seq<(String, InputVar)>, name: Seq<char>)
    requires
        forall|i: int| 0 <= i < reg.len() ==> (#[trigger] reg[i]).1.wf(),
    ensures
        find_in(reg, name) matches Some(v) ==> v.wf(),
    decreases reg.len(),
{
    if reg.len() > 0 && reg[0].0@ != name {
        assert(forall|i: int|
            0 <= i < reg.drop_first().len() ==> #[trigger] reg.drop_first()[i] == reg[i + 1]);
        lemma_find_in_wf(reg.drop_first(), name);
    }
}

/// A found output variable inherits well-formedness and its domain bound
/// from its registry.
proof fn lemma_find_out_wf(reg: Seq<(String, OutputVar)>, name: Seq<char>)
    requires
        forall|i: int|
            0 <= i < reg.len() ==> (#[trigger] reg[i]).1.wf() && reg[i].1.end <= DOMAIN_MAX,
    ensures
        find_out(reg, name) matches Some(v) ==> v.wf() && v.end <= DOMAIN_MAX,
    decreases reg.len(),
{
    if reg.len() > 0 && reg[0].0@ != name {
        assert(forall|i: int|
            0 <= i < reg.drop_first().len() ==> #[trigger] reg.drop_first()[i] == reg[i + 1]);
        lemma_find_out_wf(reg.drop_first(), name);
    }
}

/// One rule, described by names: the registration boundary receives it
/// already tokenized and resolves it against the engine's registries.
/// Hedge names are listed innermost first, as they precede the term in the
/// rule language.
#[derive(Debug)]
pub struct RuleSpec {
    pub clauses: Vec<(String, Vec<String>, String, Option<DefuzzOp>)>,
    pub out_var: String,
    pub out_hedges: Vec<String>,
    pub out_mf: String,
}

/// The clause's input variable exists, its hedge names are recognized, and
/// the variable has a term of the clause's name.
pub open spec fn clause_resolvable(
    reg: Seq<(String, InputVar)>,
    cl: (String, Vec<String>, String, Option<DefuzzOp>),
) -> bool {
    match find_in(reg, cl.0@) {
        Some(v) => hedge_names_ok(cl.1@) && find_mf(v.vars@, cl.2@) is Some,
        None => false,
    }
}

/// The clause a resolvable description denotes.
pub open spec fn resolved_clause(
    reg: Seq<(String, InputVar)>,
    cl: (String, Vec<String>, String, Option<DefuzzOp>),
) -> Clause {
    (cl.0, find_mf(find_in(reg, cl.0@).unwrap().vars@, cl.2@).unwrap(), chain_of(cl.1@), cl.3)
}

/// Every part of the rule description resolves against the registries.
pub open spec fn rule_resolvable(
    ir: Seq<(String, InputVar)>,
    or: Seq<(String, OutputVar)>,
    rs: RuleSpec,
) -> bool {
    &&& forall|i: int|
        0 <= i < rs.clauses@.len() ==> clause_resolvable(ir, #[trigger] rs.clauses@[i])
    &&& find_out(or, rs.out_var@) is Some
    &&& hedge_names_ok(rs.out_hedges@)
    &&& find_mf(find_out(or, rs.out_var@).unwrap().vars@, rs.out_mf@) is Some
}

/// The consequent membership function a resolvable description denotes.
pub open spec fn resolved_out_mf(or: Seq<(String, OutputVar)>, rs: RuleSpec) -> MfType {
    find_mf(find_out(or, rs.out_var@).unwrap().vars@, rs.out_mf@).unwrap()
}

/// The output domain a resolvable description selects.
pub open spec fn resolved_range(or: Seq<(String, OutputVar)>, rs: RuleSpec) -> (usize, usize) {
    (find_out(or, rs.out_var@).unwrap().start, find_out(or, rs.out_var@).unwrap().end)
}

/// The registered rule matches its description: clauses resolved in order,
/// the consequent hedge chain built from the listed names, the consequent
/// term found in the output variable.
pub open spec fn rule_matches(
    ir: Seq<(String, InputVar)>,
    or: Seq<(String, OutputVar)>,
    rs: RuleSpec,
    rule: Rule,
) -> bool {
    &&& rule.0@.len() == rs.clauses@.len()
    &&& forall|j: int|
        0 <= j < rs.clauses@.len() ==> #[trigger] rule.0@[j] == resolved_clause(
            ir,
            rs.clauses@[j],
        )
    &&& rule.1 == chain_of(rs.out_hedges@)
    &&& rule.2 == resolved_out_mf(or, rs)
}

/// The strategy a recognized name denotes, tested in the same order as the
/// executable code.
pub open spec fn defuzz_of(n: Seq<char>) -> Option<DefuzzType> {
    if n == "centroid"@ {
        Some(DefuzzType::Centroid(Centroid))
    } else if n == "mom"@ {
        Some(DefuzzType::Mom(Mom))
    } else {
        None
    }
}

/// The inference engine: the variable registries, the rule base, the active
/// output domain and the selected defuzzification strategy.
///
/// The active domain is one global pair, overwritten by the output variable
/// of the most recently added rule: the engine supports one logically active
/// output domain at a time.
#[derive(Debug)]
pub struct Engine {
    pub inputs: Vec<(String, InputVar)>,
    pub output: Vec<(String, OutputVar)>,
    pub rules: Vec<Rule>,
    pub range: (usize, usize),
    pub defuzz: DefuzzType,
}

impl Engine {
    /// The rule base and active domain are ready for evaluation.
    pub open spec fn wf(&self) -> bool {
        &&& rules_wf(self.rules@)
        &&& self.rules@.len() <= RULES_MAX
        &&& self.range.1 <= DOMAIN_MAX
    }

    /// Every registered variable is well formed and every output domain is
    /// within the admitted bound.
    pub open spec fn regs_wf(&self) -> bool {
        &&& forall|i: int| 0 <= i < self.inputs@.len() ==> (#[trigger] self.inputs@[i]).1.wf()
        &&& forall|i: int|
            0 <= i < self.output@.len() ==> (#[trigger] self.output@[i]).1.wf()
                && self.output@[i].1.end <= DOMAIN_MAX
    }

    /// The result evaluation owes: the selected strategy applied to the
    /// active domain, the rule base and the input mapping.
    pub open spec fn spec_calculate(e: Engine, m: Seq<(String, i64)>) -> Result<
        (int, int),
        FuzzyError,
    > {
        spec_get(e.defuzz, e.range.0 as int, e.range.1 as int, e.rules@, m)
    }

    /// An empty engine: no variables, no rules, no strategy.
    pub fn new() -> (r: Engine)
        ensures
            r.inputs@.len() == 0,
            r.output@.len() == 0,
            r.rules@.len() == 0,
            r.range == (0usize, 0usize),
            r.defuzz is Undefined,
            r.wf(),
            r.regs_wf(),
    {
        Engine {
            inputs: Vec::new(),
            output: Vec::new(),
            rules: Vec::new(),
            range: (0, 0),
            defuzz: DefuzzType::Undefined,
        }
    }

    /// Register an input variable under `name` with the domain
    /// `[start, end)`; a variable already registered under the same name is
    /// shadowed.
    pub fn add_input_var(&mut self, name: &str, input_var: InputVar, start: usize, end: usize)
        ensures
            find_in(final(self).inputs@, name@) == Some(
                InputVar { vars: input_var.vars, start, end },
            ),
            forall|n: Seq<char>|
                n != name@ ==> #[trigger] find_in(final(self).inputs@, n) == find_in(
                    old(self).inputs@,
                    n,
                ),
            final(self).output == old(self).output,
            final(self).rules == old(self).rules,
            final(self).range == old(self).range,
            final(self).defuzz == old(self).defuzz,
            old(self).regs_wf() && input_var.wf() ==> final(self).regs_wf(),
    {
        let mut i_var = input_var;
        i_var.start(start);
        i_var.end(end);
        let ghost pre = self.inputs@;
        self.inputs.insert(0, (name.to_owned(), i_var));
        proof {
            assert(self.inputs@.drop_first() =~= pre);
        }
    }

    /// Register an output variable under `name` with the domain
    /// `[start, end)`; a variable already registered under the same name is
    /// shadowed. The bound on `end` keeps evaluation inside its integer
    /// types.
    pub fn add_output_var(&mut self, name: &str, output_var: OutputVar, start: usize, end: usize)
        requires
            end <= DOMAIN_MAX,
        ensures
            find_out(final(self).output@, name@) == Some(
                OutputVar { vars: output_var.vars, start, end },
            ),
            forall|n: Seq<char>|
                n != name@ ==> #[trigger] find_out(final(self).output@, n) == find_out(
                    old(self).output@,
                    n,
                ),
            final(self).inputs == old(self).inputs,
            final(self).rules == old(self).rules,
            final(self).range == old(self).range,
            final(self).defuzz == old(self).defuzz,
            old(self).regs_wf() && output_var.wf() ==> final(self).regs_wf(),
    {
        let mut o_var = output_var;
        o_var.start(start);
        o_var.end(end);
        let ghost pre = self.output@;
        self.output.insert(0, (name.to_owned(), o_var));
        proof {
            assert(self.output@.drop_first() =~= pre);
        }
    }

    /// Select the defuzzification strategy by name: `centroid` or `mom`.
    ///
    /// Returns `FuzzyError::UnknownIdentifier` for any other name, leaving
    /// the engine unchanged.
    pub fn add_defuzz(&mut self, name: &str) -> (r: Result<(), FuzzyError>)
        ensures
            (r is Ok) == (defuzz_of(name@) is Some),
            r is Ok ==> final(self).defuzz == defuzz_of(name@).unwrap(),
            r is Err ==> final(self).defuzz == old(self).defuzz,
            r matches Err(e) ==> e == FuzzyError::UnknownIdentifier,
            final(self).inputs == old(self).inputs,
            final(self).output == old(self).output,
            final(self).rules == old(self).rules,
            final(self).range == old(self).range,
    {
        let n = name.to_owned();
        if n == "centroid".to_owned() {
            self.defuzz = DefuzzType::Centroid(Centroid);
            Ok(())
        } else if n == "mom".to_owned() {
            self.defuzz = DefuzzType::Mom(Mom);
            Ok(())
        } else {
            Err(FuzzyError::UnknownIdentifier)
        }
    }


    /// Register already-tokenized rules, resolving every name against the
    /// variable registries, and set the active output domain to the last
    /// rule's output variable's domain.
    ///
    /// Returns `FuzzyError::UnknownIdentifier` when a variable, term or
    /// hedge name does not resolve; the engine is then left unchanged.
    pub fn add_rules(&mut self, rules: Vec<RuleSpec>) -> (r: Result<(), FuzzyError>)
        requires
            old(self).rules@.len() + rules@.len() <= RULES_MAX,
            forall|i: int|
                0 <= i < rules@.len() ==> (#[trigger] rules@[i]).clauses@.len() > 0
                    && rules@[i].clauses@.last().3 is None,
        ensures
            (r is Ok) == (forall|i: int|
                0 <= i < rules@.len() ==> rule_resolvable(
                    old(self).inputs@,
                    old(self).output@,
                    #[trigger] rules@[i],
                )),
            r matches Err(e) ==> e == FuzzyError::UnknownIdentifier && *final(self) == *old(self),
            r is Ok ==> final(self).rules@.len() == old(self).rules@.len() + rules@.len(),
            r is Ok ==> (forall|i: int|
                0 <= i < old(self).rules@.len() ==> #[trigger] final(self).rules@[i] == old(
                    self,
                ).rules@[i]),
            r is Ok ==> (forall|i: int|
                0 <= i < rules@.len() ==> rule_matches(
                    old(self).inputs@,
                    old(self).output@,
                    #[trigger] rules@[i],
                    final(self).rules@[old(self).rules@.len() + i],
                )),
            r is Ok && rules@.len() > 0 ==> final(self).range == resolved_range(
                old(self).output@,
                rules@.last(),
            ),
            r is Ok && rules@.len() == 0 ==> final(self).range == old(self).range,
            final(self).inputs == old(self).inputs,
            final(self).output == old(self).output,
            final(self).defuzz == old(self).defuzz,
            r is Ok && old(self).wf() && old(self).regs_wf() ==> final(self).wf(),
    {
        let mut new_rules: Vec<Rule> = Vec::new();
        let mut new_range: (usize, usize) = self.range;
        let mut i: usize = 0;
        while i < rules.len()
            invariant
                0 <= i <= rules@.len(),
                new_rules@.len() == i,
                forall|t: int|
                    0 <= t < i ==> rule_resolvable(
                        self.inputs@,
                        self.output@,
                        #[trigger] rules@[t],
                    ),
                forall|t: int|
                    0 <= t < i ==> rule_matches(
                        self.inputs@,
                        self.output@,
                        rules@[t],
                        #[trigger] new_rules@[t],
                    ),
                i > 0 ==> new_range == resolved_range(self.output@, rules@[i - 1]),
                i == 0 ==> new_range == self.range,
            decreases rules@.len() - i,
        {
            let rs = &rules[i];
            let mut cls: Vec<Clause> = Vec::new();
            let mut j: usize = 0;
            while j < rs.clauses.len()
                invariant
                    0 <= j <= rs.clauses@.len(),
                    rs == &rules@[i as int],
                    0 <= i < rules@.len(),
                    cls@.len() == j,
                    forall|t: int|
                        0 <= t < j ==> clause_resolvable(
                            self.inputs@,
                            #[trigger] rules@[i as int].clauses@[t],
                        ),
                    forall|t: int|
                        0 <= t < j ==> #[trigger] cls@[t] == resolved_clause(
                            self.inputs@,
                            rules@[i as int].clauses@[t],
                        ),
                decreases rs.clauses@.len() - j,
            {
                let cl = &rs.clauses[j];
                let var = match find_in_exec(&self.inputs, &cl.0) {
                    Some(v) => v,
                    None => {
                        return Err(FuzzyError::UnknownIdentifier);
                    },
                };
                let chain = match crate::hedges::build_chain(&cl.1) {
                    Ok(c) => c,
                    Err(_) => {
                        return Err(FuzzyError::UnknownIdentifier);
                    },
                };
                let mf = match var.get(cl.2.as_str()) {
                    Some(m) => m.clone(),
                    None => {
                        return Err(FuzzyError::UnknownIdentifier);
                    },
                };
                cls.push((cl.0.clone(), mf, chain, cl.3));
                j += 1;
            }
            let out_var = match find_out_exec(&self.output, &rs.out_var) {
                Some(v) => v,
                None => {
                    return Err(FuzzyError::UnknownIdentifier);
                },
            };
            let out_chain = match crate::hedges::build_chain(&rs.out_hedges) {
                Ok(c) => c,
                Err(_) => {
                    return Err(FuzzyError::UnknownIdentifier);
                },
            };
            let out_mf = match out_var.get(rs.out_mf.as_str()) {
                Some(m) => m.clone(),
                None => {
                    return Err(FuzzyError::UnknownIdentifier);
                },
            };
            new_range = out_var.range();
            new_rules.push((cls, out_chain, out_mf));
            i += 1;
        }
        proof {
            if self.wf() && self.regs_wf() {
                assert forall|t: int| 0 <= t < new_rules@.len() implies crate::deffuz::rule_wf(
                    #[trigger] new_rules@[t],
                ) by {
                    lemma_resolved_rule_wf(self.inputs@, self.output@, rules@[t], new_rules@[t]);
                }
                if rules@.len() > 0 {
                    lemma_find_out_wf(self.output@, rules@[rules@.len() - 1].out_var@);
                }
            }
        }
        self.rules.append(&mut new_rules);
        if rules.len() > 0 {
            self.range = new_range;
        }
        Ok(())
    }

    /// Evaluate the engine on an input mapping and return the crisp output
    /// as an exact numerator/denominator pair, or the error that names what
    /// went wrong (`StrategyUndefined`, `UndefinedVariable`,
    /// `ZeroActivation`, `NoActivation`).
    pub fn calculate(&self, inputs: &Vec<(String, i64)>) -> (r: Result<(u128, u128), FuzzyError>)
        requires
            self.wf(),
            inputs_wf(inputs@),
        ensures
            results_agree(r, Engine::spec_calculate(*self, inputs@)),
    {
        self.defuzz.get(self.range.0, self.range.1, &self.rules, inputs)
    }
}


/// First input variable registered under `name`, executably.
fn find_in_exec<'a>(reg: &'a Vec<(String, InputVar)>, name: &String) -> (r: Option<&'a InputVar>)
    ensures
        (r is Some) == (find_in(reg@, name@) is Some),
        r matches Some(v) ==> *v == find_in(reg@, name@).unwrap(),
{
    let mut i: usize = 0;
    proof {
        assert(reg@.skip(0) =~= reg@);
    }
    while i < reg.len()
        invariant
            0 <= i <= reg@.len(),
            find_in(reg@, name@) == find_in(reg@.skip(i as int), name@),
        decreases reg@.len() - i,
    {
        proof {
            assert(reg@.skip(i as int)[0] == reg@[i as int]);
            assert(reg@.skip(i as int).drop_first() =~= reg@.skip(i as int + 1));
        }
        if reg[i].0 == *name {
            return Some(&reg[i].1);
        }
        i += 1;
    }
    None
}

/// First output variable registered under `name`, executably.
fn find_out_exec<'a>(reg: &'a Vec<(String, OutputVar)>, name: &String) -> (r: Option<&'a OutputVar>)
    ensures
        (r is Some) == (find_out(reg@, name@) is Some),
        r matches Some(v) ==> *v == find_out(reg@, name@).unwrap(),
{
    let mut i: usize = 0;
    proof {
        assert(reg@.skip(0) =~= reg@);
    }
    while i < reg.len()
        invariant
            0 <= i <= reg@.len(),
            find_out(reg@, name@) == find_out(reg@.skip(i as int), name@),
        decreases reg@.len() - i,
    {
        proof {
            assert(reg@.skip(i as int)[0] == reg@[i as int]);
            assert(reg@.skip(i as int).drop_first() =~= reg@.skip(i as int + 1));
        }
        if reg[i].0 == *name {
            return Some(&reg[i].1);
        }
        i += 1;
    }
    None
}

/// A rule resolved against well-formed registries is itself well formed.
proof fn lemma_resolved_rule_wf(
    ir: Seq<(String, InputVar)>,
    or: Seq<(String, OutputVar)>,
    rs: RuleSpec,
    rule: Rule,
)
    requires
        forall|i: int| 0 <= i < ir.len() ==> (#[trigger] ir[i]).1.wf(),
        forall|i: int| 0 <= i < or.len() ==> (#[trigger] or[i]).1.wf() && or[i].1.end <= DOMAIN_MAX,
        rule_resolvable(ir, or, rs),
        rule_matches(ir, or, rs, rule),
    ensures
        crate::deffuz::rule_wf(rule),
{
    assert forall|j: int| 0 <= j < rule.0@.len() implies (#[trigger] rule.0@[j]).1.wf() by {
        let cl = rs.clauses@[j];
        lemma_find_in_wf(ir, cl.0@);
        lemma_find_mf_wf(find_in(ir, cl.0@).unwrap().vars@, cl.2@);
    }
    lemma_find_out_wf(or, rs.out_var@);
    lemma_find_mf_wf(find_out(or, rs.out_var@).unwrap().vars@, rs.out_mf@);
}

/// Evaluation is a pure function of the engine and the input mapping:
/// re-evaluating the same engine with the same mapping yields the identical
/// result.
pub proof fn lemma_calculate_idempotent(e1: Engine, e2: Engine, m1: Seq<(String, i64)>, m2: Seq<(String, i64)>)
    requires
        e1 == e2,
        m1 == m2,
    ensures
        Engine::spec_calculate(e1, m1) == Engine::spec_calculate(e2, m2),
{
}

} // verus!
