use moral_ledger::budget::{
    estimate_demand, BudgetError, Dimension, EcoEnvelope, EcoFairnessGuard, EcoFairnessSpec,
    GraceEquityKernel,
};
use moral_ledger::hash::genesis_hash;
use moral_ledger::record::DeedEvent;
use moral_ledger::scoring::{
    calc_clin_trust, calc_compliance, calc_cs, calc_eco_align, calc_od, calc_privacy, calc_rec,
    eco_grant, mp_score, nano_stable_hash, normalize_tree_assets, reputation_engine,
    AuxiliarySignals, PredicateFlags, Recommendation, ReputationEngine, TreeState,
};
use moral_ledger::value::Value;

fn env(power: u64, kwh: u64) -> EcoEnvelope {
    EcoEnvelope {
        max_power_watts: power,
        max_daily_kwh: kwh,
        max_heat_output: 0,
        max_co2e_kg: 0,
        max_water_liters: 0,
    }
}

fn open_policy() -> EcoFairnessSpec {
    EcoFairnessSpec {
        global_roh_ceiling_milli: 300,
        global_envelope: EcoEnvelope {
            max_power_watts: 850,
            max_daily_kwh: 18,
            max_heat_output: 45,
            max_co2e_kg: 3,
            max_water_liters: 15,
        },
        per_route_budgets: vec![],
        per_subject_minimums: vec![],
        altar_routes: vec![],
    }
}

#[test]
fn ceiling_exceeded_reports_first_dimension_in_order() {
    // Ceiling {power: 850, kwh: 18}; demand {power: 900} on a route with
    // no override.
    let mut kernel = GraceEquityKernel::new(open_policy());
    let demand = env(900, 0);
    let r = kernel.check_route("subject", "standard", &demand, 100, true);
    match r {
        Err(BudgetError::CeilingExceeded { dimension, demand, limit }) => {
            assert!(matches!(dimension, Dimension::PowerWatts));
            assert_eq!(demand, 900);
            assert_eq!(limit, 850);
        },
        _ => panic!("expected a power ceiling breach"),
    }
    // Nothing was charged.
    assert_eq!(kernel.usage_of("subject").max_power_watts, 0);
}

#[test]
fn governed_route_never_admits() {
    let mut policy = open_policy();
    policy.altar_routes = vec!["altar".to_string()];
    let mut kernel = GraceEquityKernel::new(policy);
    let demand = env(100, 2);
    let r = kernel.check_route("subject", "altar", &demand, 100, true);
    assert!(matches!(r, Err(BudgetError::GovernedRouteBlocked)));
    // Case-insensitively governed, and still never Ok.
    let r2 = kernel.check_route("subject", "ALTAR", &demand, 100, true);
    assert!(matches!(r2, Err(BudgetError::GovernedRouteBlocked)));
    assert_eq!(kernel.usage_of("subject").max_daily_kwh, 0);
}

#[test]
fn route_override_substitutes_for_global() {
    let mut policy = open_policy();
    policy.per_route_budgets = vec![("tight".to_string(), env(100, 1))];
    let mut kernel = GraceEquityKernel::new(policy);
    // 200 W passes the global ceiling but not the tight route's.
    let demand = env(200, 0);
    assert!(kernel.check_route("s", "other", &demand, 100, true).is_ok());
    assert!(matches!(
        kernel.check_route("s", "tight", &demand, 100, true),
        Err(BudgetError::CeilingExceeded { dimension: Dimension::PowerWatts, .. })
    ));
}

#[test]
fn safety_ceiling_breach_is_checked_first() {
    let mut policy = open_policy();
    policy.altar_routes = vec!["altar".to_string()];
    let mut kernel = GraceEquityKernel::new(policy);
    let demand = env(10_000, 0);
    let r = kernel.check_route("subject", "altar", &demand, 301, true);
    assert!(matches!(r, Err(BudgetError::SafetyCeilingBreach { .. })));
}

#[test]
fn check_and_commit_is_the_admission_surface() {
    let mut kernel = GraceEquityKernel::new(open_policy());
    assert!(kernel.check_and_commit("subject", "standard", &env(100, 2), 100, true).is_ok());
    assert_eq!(kernel.usage_of("subject").max_power_watts, 100);
}

#[test]
fn viability_rejection_leaves_usage_unchanged() {
    let mut kernel = GraceEquityKernel::new(open_policy());
    let demand = env(10, 1);
    let r = kernel.check_route("subject", "standard", &demand, 100, false);
    assert!(matches!(r, Err(BudgetError::ViabilityRejected)));
    assert_eq!(kernel.usage_of("subject").max_power_watts, 0);
}

#[test]
fn admitted_usage_is_the_exact_sum() {
    // Admissions for one subject accumulate exactly; another subject's
    // rejection never disturbs them.
    let mut kernel = GraceEquityKernel::new(open_policy());
    assert!(kernel.check_route("s1", "standard", &env(100, 3), 100, true).is_ok());
    assert!(kernel.check_route("s1", "standard", &env(200, 4), 100, true).is_ok());
    assert!(kernel.check_route("s2", "standard", &env(5000, 1), 100, true).is_err());
    let usage = kernel.usage_of("s1");
    assert_eq!(usage.max_power_watts, 300);
    assert_eq!(usage.max_daily_kwh, 7);
    assert_eq!(kernel.usage_of("s2").max_power_watts, 0);
    kernel.reset_window();
    assert_eq!(kernel.usage_of("s1").max_power_watts, 0);
}

#[test]
fn minimum_guarantee_is_reached_by_accumulation() {
    // Guarantee of 5 kWh per window, usage starting at zero: three
    // admissions of 2 kWh each succeed and usage reaches 6 kWh,
    // satisfying the guarantee before the window reset.
    let mut policy = open_policy();
    policy.per_subject_minimums = vec![("guarded".to_string(), env(0, 5))];
    let mut kernel = GraceEquityKernel::new(policy);
    let two_kwh = env(1, 2);
    for _ in 0..3 {
        assert!(kernel.check_route("guarded", "standard", &two_kwh, 100, true).is_ok());
    }
    assert_eq!(kernel.usage_of("guarded").max_daily_kwh, 6);
}

#[test]
fn stalled_guarantee_rejects_non_contributing_demands() {
    // While the guarantee is unmet, a demand contributing nothing to it
    // is rejected; once the floor is reached, the same demand passes.
    let mut policy = open_policy();
    policy.per_subject_minimums = vec![("guarded".to_string(), env(0, 5))];
    let mut kernel = GraceEquityKernel::new(policy);
    let no_kwh = env(10, 0);
    assert!(matches!(
        kernel.check_route("guarded", "standard", &no_kwh, 100, true),
        Err(BudgetError::BelowMinimumGuarantee)
    ));
    assert!(kernel.check_route("guarded", "standard", &env(1, 5), 100, true).is_ok());
    assert!(kernel.check_route("guarded", "standard", &no_kwh, 100, true).is_ok());
}

#[test]
fn policy_reload_swaps_whole_snapshot() {
    let mut kernel = GraceEquityKernel::new(open_policy());
    assert!(kernel.check_route("s", "standard", &env(500, 1), 100, true).is_ok());
    let mut tighter = open_policy();
    tighter.global_envelope = env(100, 18);
    kernel.reload_policy(tighter);
    assert!(kernel.check_route("s", "standard", &env(500, 1), 100, true).is_err());
    // Usage survived the reload.
    assert_eq!(kernel.usage_of("s").max_power_watts, 500);
}

#[test]
fn default_policy_has_altar_override_and_governed_routes() {
    let policy = EcoFairnessSpec::default();
    assert_eq!(policy.global_roh_ceiling_milli, 300);
    assert_eq!(policy.global_envelope.max_power_watts, 850);
    assert_eq!(policy.per_route_budgets[0].0, "altar");
    assert_eq!(policy.per_route_budgets[0].1.max_power_watts, 420);
    assert_eq!(policy.altar_routes, vec!["altar", "donation", "lesson"]);
}

#[test]
fn sub_scores_match_their_formulas() {
    assert_eq!(calc_privacy(true, true, 10), 970);
    assert_eq!(calc_privacy(true, true, 100), 1000);
    assert_eq!(calc_privacy(false, true, 0), 450);
    assert_eq!(calc_compliance(1, 1, 0), 970);
    assert_eq!(calc_compliance(1, 1, 2), 670);
    assert_eq!(calc_compliance(0, 1, 0), 500);
    assert_eq!(calc_compliance(1, 1, 5), 570);
    assert_eq!(calc_eco_align(1, 0, 2), 775);
    assert_eq!(calc_eco_align(0, 0, 0), 600);
    assert_eq!(calc_eco_align(0, 9, 1), 0);
    assert_eq!(calc_clin_trust(1, 0), 740);
    assert_eq!(calc_clin_trust(9, 100), 1000);
}

#[test]
fn tree_state_clamps_and_normalizes() {
    let mut s = TreeState { blood: 1200, oxygen: 800, decay: 200, lifeforce: 800, fear: 300, pain: 200 };
    s.clamp();
    assert_eq!(s.blood, 1000);
    let n = normalize_tree_assets(&s);
    // 1000*120 + 800*110 + 800*150 + 700*80 + 800*70 = 440000; /1000 = 440; +470
    assert_eq!(n, 910);
}

#[test]
fn reputation_vector_high_trust() {
    let d1 = DeedEvent::new(
        genesis_hash(),
        "subject".to_string(),
        vec![],
        "high_trust_eeg".to_string(),
        vec![
            "did_bound".to_string(),
            "consent".to_string(),
            "attested".to_string(),
            "anchored".to_string(),
            "low_energy".to_string(),
        ],
        Value::Obj(vec![]),
        vec![],
        false,
    );
    let d2 = DeedEvent::new(
        d1.self_hash.clone(),
        "subject".to_string(),
        vec![],
        "signed_bci".to_string(),
        vec!["signed_trial".to_string(), "low_energy".to_string()],
        Value::Obj(vec![]),
        vec![],
        false,
    );
    let deeds = vec![d1, d2];
    let aux = AuxiliarySignals { avg_asset_milli: 900, unfair_drain: false };
    let mut engine = ReputationEngine::new();
    let vec = engine.compute(&deeds, &aux);
    assert!(vec.mp_score > 900);
    assert!(vec.eco_align > 800);
    assert!(matches!(engine.recommend(), Recommendation::EcoGrant));
    assert!(engine.recommend_eco_grant().contains("eco_grant"));
    // The one-call engine agrees.
    let again = reputation_engine(&deeds, &aux);
    assert_eq!(again, vec);
}

#[test]
fn low_trust_vector_only_observes() {
    let deeds: Vec<DeedEvent> = vec![];
    let aux = AuxiliarySignals { avg_asset_milli: 0, unfair_drain: true };
    let mut engine = ReputationEngine::new();
    let v = engine.compute(&deeds, &aux);
    assert_eq!(v.privacy, 450);
    assert_eq!(v.compliance, 500);
    assert_eq!(v.eco_align, 480);
    assert_eq!(v.clin_trust, 700);
    assert!(matches!(engine.recommend(), Recommendation::Observe));
    assert!(engine.recommend_eco_grant().contains("observe"));
}

#[test]
fn moral_position_and_grant_formulas() {
    let deed = DeedEvent::new(
        genesis_hash(),
        "actor".to_string(),
        vec![],
        "ecological_sustainability".to_string(),
        vec!["ecological_sustainability".to_string(), "extra".to_string()],
        Value::Obj(vec![]),
        vec![],
        false,
    );
    // 850 + 80 for the one good tag.
    assert_eq!(mp_score(&deed), 930);
    // 25 * 930 * (1000 + 50*2) millionths.
    assert_eq!(eco_grant(&deed), 25 * 930 * 1100);
    assert_eq!(nano_stable_hash(&deed), deed.self_hash);
    let harmful = DeedEvent::new(
        genesis_hash(),
        "actor".to_string(),
        vec![],
        "ecological_sustainability".to_string(),
        vec![],
        Value::Obj(vec![]),
        vec![],
        true,
    );
    assert_eq!(mp_score(&harmful), 0);
    // Harm zeroes the score and the grant even under good tags.
    let harmful_tagged = DeedEvent::new(
        genesis_hash(),
        "actor".to_string(),
        vec![],
        "ecological_sustainability".to_string(),
        vec!["ecological_sustainability".to_string(), "homelessness_relief".to_string()],
        Value::Obj(vec![]),
        vec![],
        true,
    );
    assert_eq!(mp_score(&harmful_tagged), 0);
    assert_eq!(eco_grant(&harmful_tagged), 0);
    let flags = PredicateFlags {
        calm_stable: true,
        overloaded: false,
        recovery: false,
        unfair_drain: false,
    };
    assert!(flags.calm_stable && !flags.unfair_drain);
}

#[test]
fn guard_projects_demand_and_checks_route() {
    let d = estimate_demand(2000, "standard");
    assert_eq!(d.max_power_watts, 850);
    assert_eq!(d.max_daily_kwh, 3);
    let d = estimate_demand(100, "Altar-Route");
    assert_eq!(d.max_daily_kwh, 8);
    assert_eq!(d.max_co2e_kg, 2);
    let d = estimate_demand(100, "sim-42");
    assert_eq!(d.max_daily_kwh, 5);
    let mut guard = EcoFairnessGuard::new(open_policy());
    assert!(guard.check("subject", "standard", 100, 200, true).is_ok());
    assert_eq!(guard.kernel.usage_of("subject").max_daily_kwh, 3);
    // The projected altar demand of the default policy is governed.
    let mut guard = EcoFairnessGuard::new(EcoFairnessSpec::default());
    assert!(matches!(
        guard.check("subject", "altar", 100, 200, true),
        Err(BudgetError::GovernedRouteBlocked)
    ));
}

#[test]
fn calm_stable_window_is_exact() {
    let calm = TreeState { blood: 800, oxygen: 800, decay: 200, lifeforce: 800, fear: 300, pain: 200 };
    let tense = TreeState { blood: 800, oxygen: 800, decay: 700, lifeforce: 300, fear: 900, pain: 100 };
    let history = vec![tense, calm, calm, calm];
    // Over the last three states: stress 900, decay 600, lifeforce 2400.
    assert!(calc_cs(&history, 3));
    // A window reaching the tense state tips the averages.
    assert!(!calc_cs(&history, 4));
    // Too short a history never counts as calm.
    assert!(!calc_cs(&history, 5));
    assert!(!calc_cs(&history, 0));
    // The boundary holds with equality: average stress exactly 0.350.
    let edge = TreeState { blood: 0, oxygen: 0, decay: 400, lifeforce: 650, fear: 350, pain: 0 };
    assert!(calc_cs(&vec![edge], 1));
    let over = TreeState { fear: 351, ..edge };
    assert!(!calc_cs(&vec![over], 1));
}

#[test]
fn overload_and_recovery_windows_are_exact() {
    let calm = TreeState { blood: 800, oxygen: 800, decay: 200, lifeforce: 800, fear: 200, pain: 100 };
    let tense = TreeState { blood: 800, oxygen: 800, decay: 300, lifeforce: 500, fear: 800, pain: 100 };
    // Two calm states, then two tense ones: stress averages 0.800 over
    // the recent window against 0.200 before it — overloaded.
    let history = vec![calm, calm, tense, tense];
    assert!(calc_od(&history, 2, 2));
    // Against an equally tense past there is no rise.
    let flat = vec![tense, tense, tense, tense];
    assert!(!calc_od(&flat, 2, 2));
    // Too short a history is never overloaded.
    assert!(!calc_od(&history, 3, 2));
    assert!(!calc_od(&history, 0, 2));

    // A tense base followed by calm states: stress and decay fall,
    // lifeforce rises — recovery.
    let rec_history = vec![tense, calm, calm, calm];
    assert!(calc_rec(&rec_history, 1, 3));
    // No recovery against a calm base.
    let calm_history = vec![calm, calm, calm, calm];
    assert!(!calc_rec(&calm_history, 1, 3));
    assert!(!calc_rec(&rec_history, 2, 3));
}
