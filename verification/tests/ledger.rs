use moral_ledger::chain::{
    log_ecological_cleanup, log_open_source_contribution, reload_ledger, MoralLedger,
};
use moral_ledger::codec::decode_line;
use moral_ledger::hash::{genesis_hash, sha256_hex};
use moral_ledger::record::{Category, DeedEvent};
use moral_ledger::validator::{
    burn_for_harm, validate_chain, validate_deed, BioloadMetrics, EthicsContext, LedgerValidator,
    ValidationError,
};
use moral_ledger::value::{value_is_wf, Value};

fn plain_deed(prev: String, actor: &str, deed_type: &str, harm: bool) -> DeedEvent {
    DeedEvent::new(
        prev,
        actor.to_string(),
        vec![],
        deed_type.to_string(),
        vec![],
        Value::Obj(vec![]),
        vec![],
        harm,
    )
}

#[test]
fn compliant_deed_passes() {
    let deed = plain_deed(genesis_hash(), "actor", "ecological_sustainability", false);
    assert!(validate_deed(&deed, 100, 200).is_ok());
}

#[test]
fn biophysical_violation_fails() {
    let deed = plain_deed(genesis_hash(), "actor", "ecological_sustainability", false);
    assert!(validate_deed(&deed, 900, 1500).is_err());
}

#[test]
fn chain_integrity_holds() {
    let d1 = DeedEvent::new(
        genesis_hash(),
        "a1".to_string(),
        vec!["t1".to_string()],
        "ecological_sustainability".to_string(),
        vec![],
        Value::Obj(vec![]),
        vec![],
        false,
    );
    let d2 = DeedEvent::new(
        d1.self_hash.clone(),
        "a2".to_string(),
        vec!["t2".to_string()],
        "ecological_sustainability".to_string(),
        vec![],
        Value::Obj(vec![]),
        vec![],
        false,
    );
    let chain = vec![d1, d2];
    assert!(validate_chain(&chain));
}

#[test]
fn test_append_and_validate() {
    let mut ledger = MoralLedger::new();
    let evidence = Value::Obj(vec![
        ("project".to_string(), Value::Str("arizona-desert-restoration".to_string())),
        ("volunteers".to_string(), Value::Int(12)),
    ]);
    assert!(value_is_wf(&evidence));
    let hash1 = ledger
        .append(
            "user-xboxtj".to_string(),
            vec!["eco-project-1".to_string()],
            "ecological_sustainability".to_string(),
            vec!["tree-of-life".to_string()],
            evidence,
            vec![],
            false,
        )
        .unwrap();
    assert!(!hash1.is_empty());
    assert!(validate_chain(&ledger.records));
}

#[test]
fn empty_store_append_then_tamper() {
    // Append one clean deed: chain length 1 and the chain validates.
    let mut ledger = MoralLedger::new();
    ledger
        .append(
            "actor-a".to_string(),
            vec![],
            "ecological_sustainability".to_string(),
            vec![],
            Value::Obj(vec![]),
            vec![],
            false,
        )
        .unwrap();
    assert_eq!(ledger.len(), 1);
    assert!(validate_chain(&ledger.records));
    // Tamper the record's prev_hash: the whole chain is invalid.
    let mut tampered = ledger.records.clone();
    tampered[0].prev_hash = "1".repeat(64);
    assert!(!validate_chain(&tampered));
}

#[test]
fn durable_round_trip_is_byte_identical() {
    let mut ledger = MoralLedger::new();
    let evidence = Value::Obj(vec![
        ("depth".to_string(), Value::Arr(vec![Value::Int(-7), Value::Null, Value::Bool(true)])),
        ("note".to_string(), Value::Str("line\none \"two\" back\\slash".to_string())),
    ]);
    assert!(value_is_wf(&evidence));
    ledger
        .append(
            "actor-a".to_string(),
            vec!["b".to_string(), "c".to_string()],
            "homelessness_relief".to_string(),
            vec!["shelter".to_string()],
            evidence,
            vec![],
            false,
        )
        .unwrap();
    ledger
        .append(
            "actor-d".to_string(),
            vec![],
            "free_form_kind".to_string(),
            vec![],
            Value::Obj(vec![]),
            vec![],
            false,
        )
        .unwrap();
    let lines: Vec<String> = ledger.records.iter().map(|r| r.line_json()).collect();
    let reloaded = reload_ledger(&lines).expect("reload must succeed on its own lines");
    assert_eq!(reloaded.records.len(), 2);
    let relines: Vec<String> = reloaded.records.iter().map(|r| r.line_json()).collect();
    assert_eq!(lines, relines);
    assert_eq!(reloaded.records[0].actor_id, "actor-a");
    assert_eq!(reloaded.records[1].prev_hash, ledger.records[0].self_hash);
}

#[test]
fn decode_rejects_malformed_lines() {
    assert!(decode_line("").is_none());
    assert!(decode_line("{\"actor\":1}").is_none());
    let mut ledger = MoralLedger::new();
    ledger
        .append(
            "actor-a".to_string(),
            vec![],
            "ecological_sustainability".to_string(),
            vec![],
            Value::Obj(vec![]),
            vec![],
            false,
        )
        .unwrap();
    let good = ledger.records[0].line_json();
    let bad = good.replace("actor-a", "actor-b");
    // The tampered line still parses, but the re-derived chain breaks.
    let reloaded = reload_ledger(&vec![bad]);
    assert!(reloaded.is_none());
}

#[test]
fn content_validation_rejects_ethics_flags() {
    // A record with any ethics flag is rejected, wherever it would sit.
    let deed = DeedEvent::new(
        genesis_hash(),
        "actor".to_string(),
        vec![],
        "ecological_sustainability".to_string(),
        vec![],
        Value::Obj(vec![]),
        vec!["RoH_CEILING_EXCEEDED".to_string()],
        false,
    );
    match LedgerValidator::validate_content(&deed) {
        Err(ValidationError::EthicsViolation(flags)) => {
            assert_eq!(flags, vec!["RoH_CEILING_EXCEEDED".to_string()]);
        },
        _ => panic!("ethics flags must be rejected"),
    }
    let harmful = plain_deed(genesis_hash(), "actor", "ecological_sustainability", true);
    assert!(matches!(
        LedgerValidator::validate_content(&harmful),
        Err(ValidationError::LifeHarm)
    ));
}

#[test]
fn validate_record_reports_link_and_hash_breaks() {
    let good = plain_deed(genesis_hash(), "actor", "ecological_sustainability", false);
    assert!(LedgerValidator::validate_record(&good, &genesis_hash()).is_ok());
    match LedgerValidator::validate_record(&good, "deadbeef") {
        Err(ValidationError::HashMismatch { expected, actual }) => {
            assert_eq!(expected, "deadbeef");
            assert_eq!(actual, genesis_hash());
        },
        _ => panic!("prev-hash mismatch must be reported"),
    }
    let mut broken = good.clone();
    broken.self_hash = "0".repeat(64);
    assert!(matches!(
        LedgerValidator::validate_record(&broken, &genesis_hash()),
        Err(ValidationError::ChainBroken)
    ));
}

#[test]
fn validate_new_event_requires_the_real_tail_hash() {
    // A first record must carry the genesis sentinel itself; no token
    // stands in for the link check.
    let first = plain_deed(genesis_hash(), "actor", "ecological_sustainability", false);
    assert!(LedgerValidator::validate_new_event(&first, &genesis_hash()).is_ok());
    let unlinked = plain_deed("anything".to_string(), "actor", "ecological_sustainability", false);
    assert!(LedgerValidator::validate_new_event(&unlinked, "genesis").is_err());
    assert!(LedgerValidator::validate_new_event(&unlinked, &genesis_hash()).is_err());
}

#[test]
fn sha256_wrapper_matches_known_digest() {
    assert_eq!(
        sha256_hex("abc"),
        "ba7816bf8f01cfea414140de5dae2223b00361a396177a9cb410ff61f20015ad"
    );
    assert_eq!(genesis_hash(), "0".repeat(64));
}

#[test]
fn self_hash_is_stable_across_construction_paths() {
    // Two records with identical fields (ignoring id and timestamp) hash
    // identically once those fields match.
    let a = plain_deed(genesis_hash(), "actor", "ecological_sustainability", false);
    let mut b = a.clone();
    assert_eq!(a.compute_self_hash(), b.compute_self_hash());
    b.actor_id = "other".to_string();
    assert_ne!(a.compute_self_hash(), b.compute_self_hash());
}

#[test]
fn finalize_hash_chain_recomputes_commitment() {
    let a = plain_deed(genesis_hash(), "actor", "ecological_sustainability", false);
    let tail = a.self_hash.clone();
    let b = plain_deed(genesis_hash(), "next", "homelessness_relief", false);
    let b2 = b.finalize_hash_chain(tail.clone());
    assert_eq!(b2.prev_hash, tail);
    assert_eq!(b2.self_hash, b2.compute_self_hash());
}

#[test]
fn church_recommendation_is_zero_for_harm_whatever_the_category() {
    let harmful = plain_deed(genesis_hash(), "actor", "ecological_sustainability", true);
    assert_eq!(harmful.church_recommendation(), 0);
    let flagged = DeedEvent::new(
        genesis_hash(),
        "actor".to_string(),
        vec![],
        "homelessness_relief".to_string(),
        vec![],
        Value::Obj(vec![]),
        vec!["flag".to_string()],
        false,
    );
    assert_eq!(flagged.church_recommendation(), 0);
    let clean = plain_deed(genesis_hash(), "actor", "math_science_education", false);
    assert_eq!(clean.church_recommendation(), 1);
    let other = plain_deed(genesis_hash(), "actor", "misc_kind", false);
    assert_eq!(other.church_recommendation(), 0);
    assert!(matches!(clean.category, Category::MathScienceEducation));
}

#[test]
fn ethics_context_is_clean_only_without_flags_and_harm() {
    let clean = EthicsContext { flags: vec![], life_harm_flag: false };
    assert!(clean.is_clean());
    let flagged = EthicsContext { flags: vec!["x".to_string()], life_harm_flag: false };
    assert!(!flagged.is_clean());
    let harmful = EthicsContext { flags: vec![], life_harm_flag: true };
    assert!(!harmful.is_clean());
}

#[test]
fn bioload_metrics_and_burn() {
    let m = BioloadMetrics::new(-100, 200, 900);
    assert!(m.is_positive());
    let m2 = BioloadMetrics::new(100, 200, 900);
    assert!(!m2.is_positive());
    let harmful = plain_deed(genesis_hash(), "actor", "ecological_sustainability", true);
    assert_eq!(burn_for_harm(100, &harmful), 50);
    let clean = plain_deed(genesis_hash(), "actor", "ecological_sustainability", false);
    assert_eq!(burn_for_harm(100, &clean), 100);
}

#[test]
fn value_wf_requires_sorted_keys_recursively() {
    let sorted = Value::Obj(vec![
        ("a".to_string(), Value::Int(1)),
        ("b".to_string(), Value::Obj(vec![
            ("x".to_string(), Value::Null),
            ("y".to_string(), Value::Bool(false)),
        ])),
    ]);
    assert!(value_is_wf(&sorted));
    let unsorted = Value::Obj(vec![
        ("b".to_string(), Value::Int(1)),
        ("a".to_string(), Value::Int(2)),
    ]);
    assert!(!value_is_wf(&unsorted));
    let nested_bad = Value::Arr(vec![Value::Obj(vec![
        ("z".to_string(), Value::Null),
        ("a".to_string(), Value::Null),
    ])]);
    assert!(!value_is_wf(&nested_bad));
}

#[test]
fn convenience_deeds_and_helpers() {
    let d = DeedEvent::new_ecological_sustainability(
        "actor".to_string(),
        "https://evidence.example/cleanup".to_string(),
    );
    assert!(matches!(d.category, Category::EcologicalSustainability));
    assert_eq!(d.tags, vec!["reforestation", "carbon_negative"]);
    assert_eq!(d.church_recommendation(), 1);
    let d = DeedEvent::new_math_science_education("actor".to_string(), "tiny-verified-lib".to_string());
    assert!(matches!(d.category, Category::MathScienceEducation));
    let mut ledger = MoralLedger::new();
    assert!(log_ecological_cleanup(&mut ledger, "a".to_string(), "url".to_string()).is_ok());
    assert!(log_open_source_contribution(&mut ledger, "a".to_string(), "lib".to_string()).is_ok());
    assert_eq!(ledger.len(), 2);
    assert!(validate_chain(&ledger.records));
}
