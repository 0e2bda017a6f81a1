use ed25519_dalek::Signer;
use moral_ledger::lineage::{CommandPattern, LineageRecord};
use moral_ledger::neuromorph::{
    try_evolve_neuromorph, FearDailyTurnState, FearDoctrineEnvelope, FearError,
    FearNeuromorphConfig, FearNeuromorphEvolutionFrame, NeuromorphRoute,
};
use moral_ledger::reversal::{
    BiophysicalEnvelope, DowngradeRequest, ReversalError, ReversalProtectionKernel,
    SovereigntyState,
};
use moral_ledger::runtime::{
    json_ok, session_key_from_template, update_state, JobKind, Scheduler, Session,
};
use moral_ledger::sponsor::{BalanceSnapshot, SponsorDistributor};
use moral_ledger::topology::{Cluster, ClusterRole, Event, EventKind, Node, NodeKind};
use moral_ledger::value::Value;

fn keypair() -> (ed25519_dalek::SigningKey, Vec<u8>) {
    let sk = ed25519_dalek::SigningKey::from_bytes(&[7u8; 32]);
    let pk = sk.verifying_key().to_bytes().to_vec();
    (sk, pk)
}

#[test]
fn quorum_accepts_enough_valid_signatures() {
    let (sk, pk) = keypair();
    let kernel = ReversalProtectionKernel::new("audit.log".to_string(), vec![pk.clone()], 1);
    let message = "downgrade-request-body";
    let sig = sk.sign(message.as_bytes()).to_bytes().to_vec();
    assert!(kernel.verify_quorum_sig(message, &vec![(pk.clone(), sig.clone())]).is_ok());
    // A signature over another message does not count.
    assert!(matches!(
        kernel.verify_quorum_sig("other-body", &vec![(pk, sig)]),
        Err(ReversalError::Unauthorized)
    ));
}

fn base_state() -> SovereigntyState {
    SovereigntyState {
        user_id: "subject-1".to_string(),
        capability_tier: "CapGeneralUse".to_string(),
        roh_value_milli: 250,
        power: 100,
        tech: 100,
        nano: 100,
        evolution_index: 1,
        no_rollback: true,
    }
}

#[test]
fn resimulation_advances_without_reversal() {
    let mut kernel = ReversalProtectionKernel::new("audit.log".to_string(), vec![], 0);
    let mut state = base_state();
    // Inside the warning band: evolution advances.
    let calm = BiophysicalEnvelope {
        min_safe_milli: 0,
        max_safe_milli: 300,
        min_warn_milli: 100,
        max_warn_milli: 250,
        current_value_milli: 200,
    };
    let proof = kernel.resimulate_safe(&mut state, &calm, "simulation-data").unwrap();
    assert!(proof.preserved_rights);
    assert_eq!(
        proof.proof_hash,
        moral_ledger::hash::sha256_hex("simulation-data")
    );
    assert_eq!(state.evolution_index, 2);
    assert_eq!(state.power, 110);
    assert_eq!(kernel.church_token_balance, 100);
    // Outside the band: only the nano margin rises.
    let hot = BiophysicalEnvelope { current_value_milli: 260, ..calm };
    kernel.resimulate_safe(&mut state, &hot, "sim").unwrap();
    assert_eq!(state.nano, 101);
    assert_eq!(state.evolution_index, 2);
    // With rollback allowed the call is refused.
    let mut mutable = base_state();
    mutable.no_rollback = false;
    assert!(matches!(
        kernel.resimulate_safe(&mut mutable, &calm, "sim"),
        Err(ReversalError::RollbackForbidden)
    ));
}

#[test]
fn rights_held_orders_its_checks() {
    let (sk, pk) = keypair();
    let mut kernel = ReversalProtectionKernel::new("audit.log".to_string(), vec![], 1);
    let mut state = base_state();
    let request = DowngradeRequest {
        new_tier: "CapLabBench".to_string(),
        emergency: true,
        simulation_data: "data".to_string(),
    };
    let calm = BiophysicalEnvelope {
        min_safe_milli: 0,
        max_safe_milli: 300,
        min_warn_milli: 100,
        max_warn_milli: 250,
        current_value_milli: 200,
    };
    // No signatures at all: unauthorized.
    let r = kernel.ensure_rights_held(
        &mut state,
        &calm,
        &request,
        "body",
        &vec![],
        "prev".to_string(),
        "event-1".to_string(),
        7,
    );
    assert!(matches!(r, Err(ReversalError::Unauthorized)));
    // Authorized but bounds compliant: a safer alternative exists.
    let sig = sk.sign("body".as_bytes()).to_bytes().to_vec();
    let sigs = vec![(pk, sig)];
    let r = kernel.ensure_rights_held(
        &mut state,
        &calm,
        &request,
        "body",
        &sigs,
        "prev".to_string(),
        "event-1".to_string(),
        7,
    );
    assert!(matches!(r, Err(ReversalError::SaferAlternativeExists)));
    // Emergency out of bounds with no-rollback: re-simulation, no downgrade.
    let hot = BiophysicalEnvelope { current_value_milli: 260, ..calm };
    let r = kernel
        .ensure_rights_held(
            &mut state,
            &hot,
            &request,
            "body",
            &sigs,
            "prev".to_string(),
            "event-1".to_string(),
            7,
        )
        .unwrap();
    assert!(r.is_none());
    assert_eq!(state.capability_tier, "CapGeneralUse");
    // A non-emergency request past all gates lowers the tier and yields
    // the audit record to persist.
    let plain = DowngradeRequest { emergency: false, ..request };
    let r = kernel
        .ensure_rights_held(
            &mut state,
            &hot,
            &plain,
            "body",
            &sigs,
            "prev-hash".to_string(),
            "event-2".to_string(),
            9,
        )
        .unwrap();
    let record = r.unwrap();
    assert_eq!(state.capability_tier, "CapLabBench");
    assert_eq!(record.prev_hash, "prev-hash");
    assert_eq!(record.deed_type, "emergency_downgrade");
    assert_eq!(record.actor_id, "subject-1");
    assert!(!record.life_harm_flag);
    // The audit row records the applied tier in its context payload.
    match &record.context_json {
        Value::Obj(pairs) => {
            assert_eq!(pairs[0].0, "new_tier");
            assert!(matches!(pairs[0].1, Value::Str(ref s) if s == "CapLabBench"));
        },
        _ => panic!("audit context must be an object"),
    }
}

fn frame(flops: u64, energy: u64, scale: u32) -> FearNeuromorphEvolutionFrame {
    FearNeuromorphEvolutionFrame {
        plane: "neuromorph.softwareonly".to_string(),
        adapter_id: "adapter-1".to_string(),
        scope: "cursor-control".to_string(),
        estimated_flops: flops,
        estimated_energy_nj: energy,
        expected_effect_band: "eco-optimized".to_string(),
        proposed_scale_delta_milli: scale,
    }
}

#[test]
fn evolution_gate_checks_in_order() {
    let cfg = FearNeuromorphConfig {
        host_id: "host-1".to_string(),
        doctrine: FearDoctrineEnvelope {
            max_flops_per_turn: 1000,
            max_eco_energy_nj: 500,
            min_microstep_scale_milli: 100,
        },
        max_daily_turns: 2,
    };
    let mut turns = FearDailyTurnState { date_yyyymmdd: 20260101, turns_used: 0 };
    // Denied route.
    assert!(matches!(
        try_evolve_neuromorph(&cfg, NeuromorphRoute::Deny, &frame(1, 1, 50), true, &mut turns, 20260101),
        Err(FearError::NeuromorphDenied)
    ));
    // Over the FLOPs budget.
    assert!(matches!(
        try_evolve_neuromorph(&cfg, NeuromorphRoute::Safe, &frame(2000, 1, 50), true, &mut turns, 20260101),
        Err(FearError::EcoBudgetExceeded)
    ));
    // The guard's refusal blocks the step before any turn is consumed.
    assert!(matches!(
        try_evolve_neuromorph(&cfg, NeuromorphRoute::Safe, &frame(10, 10, 50), false, &mut turns, 20260101),
        Err(FearError::LifeforceViolation)
    ));
    assert_eq!(turns.turns_used, 0);
    // A clean step: the proposal is raised to the doctrine floor.
    let adj = try_evolve_neuromorph(
        &cfg,
        NeuromorphRoute::Safe,
        &frame(10, 10, 50),
        true,
        &mut turns,
        20260101,
    )
    .unwrap();
    assert_eq!(adj.delta_wave_milli, 100);
    assert_eq!(adj.eco_cost_flops, 10);
    assert_eq!(turns.turns_used, 1);
    // An oversized proposal is capped at one.
    let adj = try_evolve_neuromorph(
        &cfg,
        NeuromorphRoute::Safe,
        &frame(10, 10, 5000),
        true,
        &mut turns,
        20260101,
    )
    .unwrap();
    assert_eq!(adj.delta_wave_milli, 1000);
    // The daily limit is now reached.
    assert!(matches!(
        try_evolve_neuromorph(&cfg, NeuromorphRoute::Safe, &frame(10, 10, 50), true, &mut turns, 20260101),
        Err(FearError::DailyTurnLimitReached)
    ));
    // A new day rolls the counter over.
    assert!(turns.can_consume_turn(cfg.max_daily_turns, 20260102));
    assert!(turns.consume_turn(cfg.max_daily_turns, 20260102).is_ok());
    assert_eq!(turns.turns_used, 1);
}

#[test]
fn session_keys_and_state_updates() {
    assert_eq!(
        session_key_from_template("session:{user_id}:git", "user-9"),
        "session:user-9:git"
    );
    assert_eq!(session_key_from_template("plain", "user-9"), "plain");
    let mut session = Session::new(
        "user-9".to_string(),
        "bot-1".to_string(),
        "idle".to_string(),
    );
    update_state(&mut session, "config_list_done");
    assert_eq!(session.state, "config_list_done");
    assert_eq!(session.user_id, "user-9");
}

#[test]
fn reply_envelope_carries_payload_and_status() {
    let reply = json_ok("executed", Value::Int(3));
    match &reply {
        Value::Obj(pairs) => {
            assert_eq!(pairs.len(), 2);
            assert_eq!(pairs[0].0, "payload");
            assert!(matches!(pairs[0].1, Value::Int(3)));
            assert_eq!(pairs[1].0, "status");
            assert!(matches!(pairs[1].1, Value::Str(ref s) if s == "executed"));
        },
        _ => panic!("the reply envelope must be an object"),
    }
}

#[test]
fn scheduler_queues_and_drains_in_order() {
    let mut scheduler = Scheduler::new("worker-1");
    assert_eq!(scheduler.worker.name, "worker-1");
    scheduler.enqueue_git_maintenance(Value::Str("gc".to_string()));
    scheduler.enqueue_git_maintenance(Value::Str("prune".to_string()));
    let first = scheduler.next_job().unwrap();
    assert!(matches!(first.kind, JobKind::GitMaintenance));
    assert!(matches!(first.payload, Value::Str(ref s) if s == "gc"));
    let second = scheduler.next_job().unwrap();
    assert!(matches!(second.payload, Value::Str(ref s) if s == "prune"));
    assert!(scheduler.next_job().is_none());
}

#[test]
fn topology_records_carry_defaults() {
    let cluster = Cluster::new("alpha", ClusterRole::Validator);
    assert_eq!(cluster.eco_profile, "eco_friendly");
    assert_eq!(cluster.ethical_profile, "harm_aware_safe");
    assert_eq!(cluster.id.0.len(), 36);
    let node = Node::new(&cluster.id.0, NodeKind::Gpu);
    assert_eq!(node.capacity_score, 100);
    assert_eq!(node.eco_cost_score, 10);
    let event = Event::new(EventKind::JobStarted, "job started on alpha");
    assert_eq!(event.description, "job started on alpha");
}

#[test]
fn lineage_patterns_compile_and_match() {
    let pattern = CommandPattern { name: "alien".to_string(), raw: "^ALIEN_.*$".to_string() };
    let compiled = pattern.compile().unwrap();
    assert!(compiled.is_match("ALIEN_PING"));
    assert!(!compiled.is_match("HUMAN_PING"));
    let bad = CommandPattern { name: "broken".to_string(), raw: "(".to_string() };
    assert!(bad.compile().is_err());
    let record = LineageRecord::new("alien", "ALIEN_PING", true);
    assert!(record.matched);
    assert_eq!(record.pattern_name, "alien");
}

#[test]
fn balance_snapshots_are_plain_records() {
    let snap = BalanceSnapshot {
        account_id: "acct-1".to_string(),
        church: 5,
        pwr: 10,
        timestamp: 7,
    };
    assert_eq!(snap.account_id, "acct-1");
    assert_eq!(snap.church, 5);
}

#[test]
fn sponsorship_proposals_are_advisory() {
    let mut distributor = SponsorDistributor::new();
    assert_eq!(distributor.available_pwr, 1_000_000);
    let proposal = distributor.propose_grant(
        "shelter-npo".to_string(),
        250_000,
        "proof-cid".to_string(),
    );
    assert_eq!(proposal.purpose, "ecological_sustainability");
    assert_eq!(proposal.amount_usd_cents, 250_000);
    // Proposals never move capacity.
    assert_eq!(distributor.available_pwr, 1_000_000);
}
