//! End-to-end tests of the fuzzy-inference evaluator.
//!
//! All quantities are fixed point: a real value `v` is the integer
//! `v * SCALE` with `SCALE = 1_000_000`, and a membership degree lies in
//! `[0, SCALE]`.

use fuzzy::deffuz::DefuzzOp;
use fuzzy::hedges::{self, Hedge};
use fuzzy::mf::{Down, Trapezoid, Triangle, Up};
use fuzzy::{Engine, FuzzyError, InputVar, OutputVar, RuleSpec, SCALE};

const S: i64 = SCALE as i64;

fn tri_0_50_100() -> fuzzy::mf::MfType {
    Triangle::new("temp", vec![0, 50 * S, 100 * S]).unwrap()
}

fn up_0_10(name: &str) -> fuzzy::mf::MfType {
    Up::new(name, vec![0, 10 * S]).unwrap()
}

#[test]
fn triangle_values() {
    let mf = tri_0_50_100();
    // Feet are zero, the shape is zero outside the support.
    assert_eq!(mf.compute(0), 0);
    assert_eq!(mf.compute(100 * S), 0);
    assert_eq!(mf.compute(150 * S), 0);
    assert_eq!(mf.compute(-10 * S), 0);
    // At the apex parameter the formula yields (c-b)/(c-a) = 0.5, not 1.
    assert_eq!(mf.compute(50 * S), 500_000);
    // Rising part: at x=25 the grades are 0.5 and 0.75, so 0.5.
    assert_eq!(mf.compute(25 * S), 500_000);
    assert_eq!(mf.name(), "temp");
}

#[test]
fn triangle_rejects_bad_parameters() {
    assert_eq!(
        Triangle::new("t", vec![0, 1]).unwrap_err(),
        FuzzyError::Configuration
    );
    assert_eq!(
        Triangle::new("t", vec![0, 1, 2, 3]).unwrap_err(),
        FuzzyError::Configuration
    );
    // Degenerate a == b would divide by zero; rejected at construction.
    assert_eq!(
        Triangle::new("t", vec![5, 5, 9]).unwrap_err(),
        FuzzyError::Configuration
    );
}

#[test]
fn trapezoid_values() {
    let mf = Trapezoid::new("p", vec![0, 2 * S, 2 * S, 4 * S]).unwrap();
    assert_eq!(mf.compute(2 * S), 1_000_000);
    assert_eq!(mf.compute(S), 500_000);
    assert_eq!(mf.compute(3 * S), 500_000);
    assert_eq!(mf.compute(0), 0);
    assert_eq!(mf.compute(4 * S), 0);
    assert_eq!(
        Trapezoid::new("p", vec![0, 1, 2]).unwrap_err(),
        FuzzyError::Configuration
    );
}

#[test]
fn up_and_down_are_complements() {
    let up = Up::new("u", vec![0, 10 * S]).unwrap();
    let down = Down::new("d", vec![0, 10 * S]).unwrap();
    assert_eq!(up.compute(0), 0);
    assert_eq!(up.compute(10 * S), 1_000_000);
    assert_eq!(up.compute(5 * S), 500_000);
    assert_eq!(up.compute(-S), 0);
    assert_eq!(up.compute(20 * S), 1_000_000);
    for x in [-S, 0, 3 * S, 5 * S, 10 * S, 20 * S] {
        assert_eq!(down.compute(x), SCALE - up.compute(x));
    }
    assert_eq!(
        Up::new("u", vec![1]).unwrap_err(),
        FuzzyError::Configuration
    );
    assert_eq!(
        Down::new("d", vec![1, 2, 3]).unwrap_err(),
        FuzzyError::Configuration
    );
}

#[test]
fn hedge_very_squares() {
    let very = Hedge::new("very", None).unwrap();
    // 0.5^2 = 0.25
    assert_eq!(very.compute(500_000), 250_000);
    // Chains preserve zero.
    assert_eq!(very.compute(0), 0);
    // very(very(0.5)) = 0.5^4 = 0.0625
    let very_twice = Hedge::new("very", Some(Box::new(Hedge::new("very", None).unwrap()))).unwrap();
    assert_eq!(very_twice.compute(500_000), 62_500);
    assert_eq!(very_twice.compute(0), 0);
}

#[test]
fn hedge_roots_and_cube() {
    let extremely = Hedge::new("extremely", None).unwrap();
    // 0.5^3 = 0.125
    assert_eq!(extremely.compute(500_000), 125_000);
    let somewhat = Hedge::new("somewhat", None).unwrap();
    // sqrt(0.25) = 0.5
    assert_eq!(somewhat.compute(250_000), 500_000);
    let slightly = Hedge::new("slightly", None).unwrap();
    // cbrt(0.125) = 0.5
    assert_eq!(slightly.compute(125_000), 500_000);
    // The free function applies the same chain.
    assert_eq!(hedges::compute(&somewhat, 250_000), 500_000);
}

#[test]
fn hedge_unknown_name_is_rejected() {
    assert_eq!(
        Hedge::new("roughly", None).unwrap_err(),
        FuzzyError::UnknownIdentifier
    );
}

#[test]
fn hedge_types_list() {
    assert_eq!(
        hedges::types(),
        vec!["very", "extremely", "somewhat", "slightly"]
    );
}

fn single_rule_engine() -> Engine {
    let mut engine = Engine::new();
    engine.add_input_var("temp", InputVar::new(vec![tri_0_50_100()]), 0, 100);
    engine.add_output_var("fan", OutputVar::new(vec![up_0_10("fan")]), 0, 10);
    engine
        .add_rules(vec![RuleSpec {
            clauses: vec![("temp".to_string(), vec![], "temp".to_string(), None)],
            out_var: "fan".to_string(),
            out_hedges: vec![],
            out_mf: "fan".to_string(),
        }])
        .unwrap();
    engine
}

#[test]
fn centroid_pulls_toward_high_degree_region() {
    let mut engine = single_rule_engine();
    engine.add_defuzz("centroid").unwrap();
    let inputs = vec![("temp".to_string(), 50 * S)];
    let (num, den) = engine.calculate(&inputs).unwrap();
    // Antecedent strength 0.5; fdom[y] = up(y) * 0.5 = y * 0.05, so the
    // centroid is (Σ y^2 * 0.05) / (Σ y * 0.05) = 285/45 ≈ 6.33.
    assert_eq!(num, 14_250_000);
    assert_eq!(den, 2_250_000);
    // The crisp value lies between 5 and 10, toward the ramp's high end.
    assert!(num > 5 * den);
    assert!(num < 10 * den);
}

#[test]
fn centroid_is_idempotent() {
    let mut engine = single_rule_engine();
    engine.add_defuzz("centroid").unwrap();
    let inputs = vec![("temp".to_string(), 37 * S + 123_456)];
    let first = engine.calculate(&inputs).unwrap();
    let second = engine.calculate(&inputs).unwrap();
    assert_eq!(first, second);
}

#[test]
fn mom_averages_disjoint_peaks() {
    let mut engine = Engine::new();
    engine.add_input_var(
        "lvl",
        InputVar::new(vec![up_0_10("high")]),
        0,
        10,
    );
    let p2 = Trapezoid::new("p2", vec![0, 2 * S, 2 * S, 4 * S]).unwrap();
    let p6 = Trapezoid::new("p6", vec![4 * S, 6 * S, 6 * S, 8 * S]).unwrap();
    engine.add_output_var("out", OutputVar::new(vec![p2, p6]), 0, 10);
    engine.add_defuzz("mom").unwrap();
    engine
        .add_rules(vec![
            RuleSpec {
                clauses: vec![("lvl".to_string(), vec![], "high".to_string(), None)],
                out_var: "out".to_string(),
                out_hedges: vec![],
                out_mf: "p2".to_string(),
            },
            RuleSpec {
                clauses: vec![("lvl".to_string(), vec![], "high".to_string(), None)],
                out_var: "out".to_string(),
                out_hedges: vec![],
                out_mf: "p6".to_string(),
            },
        ])
        .unwrap();
    // Full antecedent strength for both rules; the consequents peak at 2
    // and 6, so the mean of maxima is (2 + 6) / 2 = 4.
    let r = engine.calculate(&vec![("lvl".to_string(), 10 * S)]).unwrap();
    assert_eq!(r, (8, 2));
}

#[test]
fn missing_variable_fails_evaluation() {
    let mut engine = single_rule_engine();
    engine.add_defuzz("centroid").unwrap();
    let r = engine.calculate(&vec![("pressure".to_string(), 50 * S)]);
    assert_eq!(r.unwrap_err(), FuzzyError::UndefinedVariable);
    let r2 = engine.calculate(&vec![]);
    assert_eq!(r2.unwrap_err(), FuzzyError::UndefinedVariable);
}

#[test]
fn zero_activation_is_surfaced() {
    let mut engine = single_rule_engine();
    engine.add_defuzz("centroid").unwrap();
    // Degree 0 everywhere: the aggregated output sums to zero.
    let r = engine.calculate(&vec![("temp".to_string(), 200 * S)]);
    assert_eq!(r.unwrap_err(), FuzzyError::ZeroActivation);
}

#[test]
fn mom_without_activation_fails() {
    let mut engine = single_rule_engine();
    engine.add_defuzz("mom").unwrap();
    let r = engine.calculate(&vec![("temp".to_string(), 200 * S)]);
    assert_eq!(r.unwrap_err(), FuzzyError::NoActivation);
}

#[test]
fn evaluation_without_strategy_fails() {
    let engine = single_rule_engine();
    let r = engine.calculate(&vec![("temp".to_string(), 50 * S)]);
    assert_eq!(r.unwrap_err(), FuzzyError::StrategyUndefined);
}

#[test]
fn unknown_strategy_name_is_rejected() {
    let mut engine = Engine::new();
    assert_eq!(
        engine.add_defuzz("bisector").unwrap_err(),
        FuzzyError::UnknownIdentifier
    );
}

#[test]
fn unresolved_rule_names_are_rejected() {
    let mut engine = single_rule_engine();
    let bad_var = RuleSpec {
        clauses: vec![("hum".to_string(), vec![], "temp".to_string(), None)],
        out_var: "fan".to_string(),
        out_hedges: vec![],
        out_mf: "fan".to_string(),
    };
    assert_eq!(
        engine.add_rules(vec![bad_var]).unwrap_err(),
        FuzzyError::UnknownIdentifier
    );
    let bad_hedge = RuleSpec {
        clauses: vec![(
            "temp".to_string(),
            vec!["roughly".to_string()],
            "temp".to_string(),
            None,
        )],
        out_var: "fan".to_string(),
        out_hedges: vec![],
        out_mf: "fan".to_string(),
    };
    assert_eq!(
        engine.add_rules(vec![bad_hedge]).unwrap_err(),
        FuzzyError::UnknownIdentifier
    );
    let bad_mf = RuleSpec {
        clauses: vec![("temp".to_string(), vec![], "cold".to_string(), None)],
        out_var: "fan".to_string(),
        out_hedges: vec![],
        out_mf: "fan".to_string(),
    };
    assert_eq!(
        engine.add_rules(vec![bad_mf]).unwrap_err(),
        FuzzyError::UnknownIdentifier
    );
}

#[test]
fn operators_fold_left_to_right() {
    // Two inputs joined by `and`: the antecedent strength is the minimum of
    // the two degrees, and the centroid scales accordingly.
    let mut engine = Engine::new();
    engine.add_input_var("a", InputVar::new(vec![up_0_10("high")]), 0, 10);
    engine.add_input_var("b", InputVar::new(vec![up_0_10("high")]), 0, 10);
    engine.add_output_var("out", OutputVar::new(vec![up_0_10("more")]), 0, 10);
    engine.add_defuzz("centroid").unwrap();
    engine
        .add_rules(vec![RuleSpec {
            clauses: vec![
                (
                    "a".to_string(),
                    vec![],
                    "high".to_string(),
                    Some(DefuzzOp::And),
                ),
                ("b".to_string(), vec![], "high".to_string(), None),
            ],
            out_var: "out".to_string(),
            out_hedges: vec![],
            out_mf: "more".to_string(),
        }])
        .unwrap();
    // a=1.0, b=0.4: min is 0.4; fdom[y] = up(y)*0.4 = y*0.04.
    let r = engine
        .calculate(&vec![
            ("a".to_string(), 10 * S),
            ("b".to_string(), 4 * S),
        ])
        .unwrap();
    // num = 0.04 * Σ y^2 = 0.04 * 285, den = 0.04 * 45.
    assert_eq!(r, (11_400_000, 1_800_000));
}

#[test]
fn hedged_rule_sharpens_output() {
    // `very` on the antecedent squares the strength 0.5 to 0.25.
    let mut engine = Engine::new();
    engine.add_input_var("temp", InputVar::new(vec![tri_0_50_100()]), 0, 100);
    engine.add_output_var("fan", OutputVar::new(vec![up_0_10("fan")]), 0, 10);
    engine.add_defuzz("centroid").unwrap();
    engine
        .add_rules(vec![RuleSpec {
            clauses: vec![(
                "temp".to_string(),
                vec!["very".to_string()],
                "temp".to_string(),
                None,
            )],
            out_var: "fan".to_string(),
            out_hedges: vec![],
            out_mf: "fan".to_string(),
        }])
        .unwrap();
    let (num, den) = engine
        .calculate(&vec![("temp".to_string(), 50 * S)])
        .unwrap();
    // Strength 0.25: fdom[y] = y * 0.025.
    assert_eq!(num, 7_125_000);
    assert_eq!(den, 1_125_000);
}

#[test]
fn hedge_constructors_set_the_exponent() {
    let e = Hedge::init_extremely(None);
    assert_eq!(e.compute(500_000), 125_000);
    let sw = Hedge::init_somewhat(None);
    assert_eq!(sw.compute(250_000), 500_000);
    let sl = Hedge::init_slightly(None);
    assert_eq!(sl.compute(125_000), 500_000);
    // Wrapping a chain: somewhat(very(0.5)) = sqrt(0.25) = 0.5.
    let sw_very = Hedge::init_somewhat(Some(Box::new(Hedge::new("very", None).unwrap())));
    assert_eq!(sw_very.compute(500_000), 500_000);
}

#[test]
fn variables_expose_terms_and_range() {
    let mut var = InputVar::new(vec![tri_0_50_100()]);
    assert!(var.get("temp").is_some());
    assert!(var.get("hum").is_none());
    var.start(1);
    var.end(99);
    assert_eq!((var.start, var.end), (1, 99));
    let mut out = OutputVar::new(vec![up_0_10("fan")]);
    out.start(3);
    out.end(12);
    assert_eq!(out.range(), (3, 12));
    assert!(out.get("fan").is_some());
    assert!(out.get("off").is_none());
}

#[test]
fn reregistering_a_variable_shadows_the_old_one() {
    let mut engine = Engine::new();
    engine.add_input_var("temp", InputVar::new(vec![tri_0_50_100()]), 0, 100);
    engine.add_input_var("temp", InputVar::new(vec![up_0_10("hot")]), 0, 10);
    engine.add_output_var("fan", OutputVar::new(vec![up_0_10("fan")]), 0, 10);
    // The old term set is shadowed: its term name no longer resolves.
    let old_term = RuleSpec {
        clauses: vec![("temp".to_string(), vec![], "temp".to_string(), None)],
        out_var: "fan".to_string(),
        out_hedges: vec![],
        out_mf: "fan".to_string(),
    };
    assert_eq!(
        engine.add_rules(vec![old_term]).unwrap_err(),
        FuzzyError::UnknownIdentifier
    );
    let new_term = RuleSpec {
        clauses: vec![("temp".to_string(), vec![], "hot".to_string(), None)],
        out_var: "fan".to_string(),
        out_hedges: vec![],
        out_mf: "fan".to_string(),
    };
    assert!(engine.add_rules(vec![new_term]).is_ok());
}

#[test]
fn empty_output_domain_yields_zero_activation() {
    let mut engine = Engine::new();
    engine.add_input_var("temp", InputVar::new(vec![tri_0_50_100()]), 0, 100);
    engine.add_output_var("fan", OutputVar::new(vec![up_0_10("fan")]), 0, 0);
    engine.add_defuzz("centroid").unwrap();
    engine
        .add_rules(vec![RuleSpec {
            clauses: vec![("temp".to_string(), vec![], "temp".to_string(), None)],
            out_var: "fan".to_string(),
            out_hedges: vec![],
            out_mf: "fan".to_string(),
        }])
        .unwrap();
    let r = engine.calculate(&vec![("temp".to_string(), 50 * S)]);
    assert_eq!(r.unwrap_err(), FuzzyError::ZeroActivation);
}

#[test]
fn duplicate_mapping_keys_use_the_first_value() {
    let mut engine = single_rule_engine();
    engine.add_defuzz("centroid").unwrap();
    let doubled = vec![
        ("temp".to_string(), 50 * S),
        ("temp".to_string(), 200 * S),
    ];
    let single = vec![("temp".to_string(), 50 * S)];
    assert_eq!(
        engine.calculate(&doubled).unwrap(),
        engine.calculate(&single).unwrap()
    );
}
