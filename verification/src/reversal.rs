//! The reversal protection kernel: downgrades and rollbacks are guarded by
//! a multi-signature quorum, biophysical envelope checks and emergency
//! conditions; safe re-simulation is always preferred over reversal.

use crate::codec::{value_view, VView};
use crate::hash::{sha256_hex, sha256_hex_of};
use crate::record::{bool_text, write_bool};
use crate::value::{int_text, value_text, write_int, write_value, Value};
use ed25519_dalek::Verifier;
use vstd::prelude::*;
use vstd::string::StringExecFns;

verus! {

/// Whether the named key accepts the signature over the message. Relied
/// on below; acceptance is a pure function of the three byte strings.
pub uninterp spec fn ed25519_verifies(pk: Seq<u8>, msg: Seq<char>, sig: Seq<u8>) -> bool;

/// Relies on ed25519_dalek::VerifyingKey::verify: whether a 32-byte key
/// accepts a 64-byte signature over the message's bytes; malformed keys
/// or signatures are never accepted.
#[verifier::external_body]
fn verify_signature(pk: &Vec<u8>, msg: &str, sig: &Vec<u8>) -> (r: bool)
    ensures
        r == ed25519_verifies(pk@, msg@, sig@),
{
    let kb: Result<[u8; 32], _> = pk.as_slice().try_into();
    let key = match kb {
        Ok(b) => ed25519_dalek::VerifyingKey::from_bytes(&b),
        Err(_) => return false,
    };
    let sg = ed25519_dalek::Signature::from_slice(sig.as_slice());
    match (key, sg) {
        (Ok(k), Ok(s)) => k.verify(msg.as_bytes(), &s).is_ok(),
        _ => false,
    }
}

/// The user's sovereign state. The evolution index only ever grows and
/// `no_rollback` is the standing invariant.
#[derive(Clone, Debug)]
pub struct SovereigntyState {
    pub user_id: String,
    pub capability_tier: String,
    pub roh_value_milli: u32,
    pub power: u64,
    pub tech: u64,
    pub nano: u64,
    pub evolution_index: u64,
    pub no_rollback: bool,
}

/// Biophysical bounds in thousandths, with the live reading.
#[derive(Clone, Copy, Debug, PartialEq, Eq, Structural)]
pub struct BiophysicalEnvelope {
    pub min_safe_milli: i64,
    pub max_safe_milli: i64,
    pub min_warn_milli: i64,
    pub max_warn_milli: i64,
    pub current_value_milli: i64,
}

/// Why a reversal request was refused.
#[derive(Debug)]
pub enum ReversalError {
    /// Quorum signature verification failed.
    Unauthorized,
    /// Bounds are compliant, so a safer alternative exists.
    SaferAlternativeExists,
    /// Rights to non-reversal are upheld.
    RollbackForbidden,
    /// A durable write failed.
    IoFailure(String),
    Crypto(String),
}

/// A verifiable proof that a re-analysis preserved rights without a
/// downgrade.
#[derive(Clone, Debug)]
pub struct NonReversalProof {
    pub proof_hash: String,
    pub preserved_rights: bool,
}

/// A request to lower a capability tier.
#[derive(Clone, Debug)]
pub struct DowngradeRequest {
    pub new_tier: String,
    pub emergency: bool,
    pub simulation_data: String,
}

/// A tamper-evident audit row for an evolution event. Its `self_hash`
/// commits to every identifying field and to the context payload.
#[derive(Clone, Debug)]
pub struct EvolutionAuditRecord {
    pub timestamp: i64,
    pub event_id: String,
    pub prev_hash: String,
    pub self_hash: String,
    pub actor_id: String,
    pub deed_type: String,
    pub tags: Vec<String>,
    pub ethics_flags: Vec<String>,
    pub life_harm_flag: bool,
    pub context_json: Value,
}

/// How many of the submitted (key, signature) pairs the message accepts.
pub open spec fn valid_sig_count(sigs: Seq<(Vec<u8>, Vec<u8>)>, msg: Seq<char>) -> int
    decreases sigs.len(),
{
    if sigs.len() == 0 {
        0
    } else {
        valid_sig_count(sigs.drop_last(), msg) + if ed25519_verifies(
            sigs.last().0@,
            msg,
            sigs.last().1@,
        ) {
            1int
        } else {
            0int
        }
    }
}

/// The canonical text an audit record's self-hash commits to: its
/// identifying fields, the harm flag and the canonical context payload,
/// newline-separated.
pub open spec fn audit_text(
    event_id: Seq<char>,
    actor_id: Seq<char>,
    deed_type: Seq<char>,
    prev_hash: Seq<char>,
    timestamp: int,
    life_harm_flag: bool,
    context: Seq<char>,
) -> Seq<char> {
    event_id + seq!['\n'] + actor_id + seq!['\n'] + deed_type + seq!['\n'] + prev_hash + seq![
        '\n',
    ] + int_text(timestamp) + seq!['\n'] + bool_text(life_harm_flag) + seq!['\n'] + context
}

/// The emergency predicate: the live reading sits outside the warning
/// band.
pub open spec fn out_of_warn_bounds(envelope: BiophysicalEnvelope) -> bool {
    envelope.current_value_milli > envelope.max_warn_milli || envelope.current_value_milli
        < envelope.min_warn_milli
}

pub struct ReversalProtectionKernel {
    pub audit_log_path: String,
    pub public_keys: Vec<Vec<u8>>,
    pub quorum_threshold: usize,
    pub church_token_balance: u64,
}

impl ReversalProtectionKernel {
    pub fn new(audit_log_path: String, public_keys: Vec<Vec<u8>>, quorum_threshold: usize) -> (r:
        ReversalProtectionKernel)
        ensures
            r.audit_log_path == audit_log_path,
            r.public_keys == public_keys,
            r.quorum_threshold == quorum_threshold,
            r.church_token_balance == 0,
    {
        ReversalProtectionKernel {
            audit_log_path,
            public_keys,
            quorum_threshold,
            church_token_balance: 0,
        }
    }

    /// Accepts exactly when enough of the submitted (key, signature)
    /// pairs verify over the message. Deliberately, each pair carries its
    /// own key and the kernel's key roster is not consulted here: the
    /// roster documents the authorized set for callers assembling the
    /// pairs, and a signature only counts if its own key accepts it.
    pub fn verify_quorum_sig(&self, message: &str, signatures: &Vec<(Vec<u8>, Vec<u8>)>) -> (r:
        Result<(), ReversalError>)
        ensures
            r is Ok <==> valid_sig_count(signatures@, message@) >= self.quorum_threshold,
            r is Err ==> r matches Err(ReversalError::Unauthorized),
    {
        let mut count: usize = 0;
        let mut i: usize = 0;
        while i < signatures.len()
            invariant
                i <= signatures@.len(),
                count == valid_sig_count(signatures@.take(i as int), message@),
                count <= i,
            decreases signatures@.len() - i,
        {
            proof {
                assert(signatures@.take(i + 1).drop_last() =~= signatures@.take(i as int));
                assert(signatures@.take(i + 1).last() == signatures@[i as int]);
            }
            if verify_signature(&signatures[i].0, message, &signatures[i].1) {
                count = count + 1;
            }
            i = i + 1;
        }
        proof {
            assert(signatures@.take(signatures@.len() as int) =~= signatures@);
        }
        if count < self.quorum_threshold {
            Err(ReversalError::Unauthorized)
        } else {
            Ok(())
        }
    }

    /// Emergency is required exactly when the live reading is outside the
    /// warning band; inside it a safer alternative (re-analysis) exists.
    pub fn compute_nosaferalternative(&self, envelope: &BiophysicalEnvelope) -> (r: bool)
        ensures
            r == out_of_warn_bounds(*envelope),
    {
        envelope.current_value_milli > envelope.max_warn_milli || envelope.current_value_milli
            < envelope.min_warn_milli
    }

    /// Accrues the advisory CHURCH balance for a good deed.
    pub fn mint_church_tokens(&mut self, deed_value: u64)
        requires
            old(self).church_token_balance + deed_value <= u64::MAX,
        ensures
            final(self).church_token_balance == old(self).church_token_balance + deed_value,
            final(self).audit_log_path == old(self).audit_log_path,
            final(self).public_keys == old(self).public_keys,
            final(self).quorum_threshold == old(self).quorum_threshold,
    {
        self.church_token_balance = self.church_token_balance + deed_value;
    }

    /// Re-simulates safely instead of reversing: inside warning bounds the
    /// evolution index, power and tech advance; outside them only the nano
    /// margin is raised. Rewards the deed and never downgrades.
    pub fn resimulate_safe(
        &mut self,
        state: &mut SovereigntyState,
        envelope: &BiophysicalEnvelope,
        simulation_data: &str,
    ) -> (r: Result<NonReversalProof, ReversalError>)
        requires
            old(state).nano + 1 <= u64::MAX,
            old(state).evolution_index + 1 <= u64::MAX,
            old(state).power + 10 <= u64::MAX,
            old(state).tech + 10 <= u64::MAX,
            old(self).church_token_balance + 100 <= u64::MAX,
        ensures
            r is Ok <==> old(state).no_rollback,
            !old(state).no_rollback ==> (r matches Err(ReversalError::RollbackForbidden) && *final(state) == *old(state) && *final(self) == *old(self)),
            old(state).no_rollback ==> {
                &&& final(self).church_token_balance == old(self).church_token_balance + 100
                &&& final(state).user_id == old(state).user_id
                &&& final(state).capability_tier == old(state).capability_tier
                &&& final(state).roh_value_milli == old(state).roh_value_milli
                &&& final(state).no_rollback == old(state).no_rollback
                &&& final(state).power >= old(state).power
                &&& final(state).tech >= old(state).tech
                &&& final(state).nano >= old(state).nano
                &&& final(state).evolution_index >= old(state).evolution_index
                &&& (out_of_warn_bounds(*envelope) ==> final(state).nano == old(state).nano + 1
                    && final(state).evolution_index == old(state).evolution_index && final(state).power == old(state).power && final(state).tech == old(state).tech)
                &&& (!out_of_warn_bounds(*envelope) ==> final(state).evolution_index == old(state).evolution_index + 1 && final(state).power == old(state).power + 10 && final(state).tech == old(state).tech + 10 && final(state).nano == old(state).nano)
                &&& (r matches Ok(p) && p.proof_hash@ == sha256_hex_of(simulation_data@)
                    && p.preserved_rights)
            },
    {
        if state.no_rollback {
            if self.compute_nosaferalternative(envelope) {
                state.nano = state.nano + 1;
            } else {
                state.evolution_index = state.evolution_index + 1;
                state.power = state.power + 10;
                state.tech = state.tech + 10;
            }
            let proof_hash = sha256_hex(simulation_data);
            self.mint_church_tokens(100);
            Ok(NonReversalProof { proof_hash, preserved_rights: true })
        } else {
            Err(ReversalError::RollbackForbidden)
        }
    }

    /// Processes a downgrade request strictly: quorum first, then the
    /// emergency predicate, then re-simulation in place of any rollback;
    /// only past all of that is the tier lowered, and the audit record to
    /// persist is handed back to the caller.
    pub fn ensure_rights_held(
        &mut self,
        state: &mut SovereigntyState,
        envelope: &BiophysicalEnvelope,
        downgrade_request: &DowngradeRequest,
        message: &str,
        signatures: &Vec<(Vec<u8>, Vec<u8>)>,
        audit_prev_hash: String,
        audit_event_id: String,
        audit_timestamp: i64,
    ) -> (r: Result<Option<EvolutionAuditRecord>, ReversalError>)
        requires
            old(state).nano + 1 <= u64::MAX,
            old(state).evolution_index + 1 <= u64::MAX,
            old(state).power + 10 <= u64::MAX,
            old(state).tech + 10 <= u64::MAX,
            old(self).church_token_balance + 100 <= u64::MAX,
        ensures
            valid_sig_count(signatures@, message@) < old(self).quorum_threshold ==> (r matches Err(
                ReversalError::Unauthorized,
            ) && *final(state) == *old(state)),
            (valid_sig_count(signatures@, message@) >= old(self).quorum_threshold
                && !out_of_warn_bounds(*envelope)) ==> (r matches Err(
                ReversalError::SaferAlternativeExists,
            ) && *final(state) == *old(state)),
            (valid_sig_count(signatures@, message@) >= old(self).quorum_threshold
                && out_of_warn_bounds(*envelope) && old(state).no_rollback
                && downgrade_request.emergency) ==> (r matches Ok(None) && final(state).capability_tier == old(state).capability_tier),
            (valid_sig_count(signatures@, message@) >= old(self).quorum_threshold
                && out_of_warn_bounds(*envelope) && !(old(state).no_rollback
                && downgrade_request.emergency)) ==> (r matches Ok(Some(rec)) && final(state).capability_tier == downgrade_request.new_tier && rec.prev_hash == audit_prev_hash
                && !rec.life_harm_flag && rec.ethics_flags@.len() == 0 && rec.tags@.len() == 0
                && rec.event_id == audit_event_id && rec.timestamp == audit_timestamp
                && rec.actor_id == old(state).user_id && rec.deed_type@
                == "emergency_downgrade"@ && value_view(rec.context_json) == (VView::Obj(
                seq![("new_tier"@, VView::Str(downgrade_request.new_tier@))],
            )) && rec.self_hash@ == sha256_hex_of(
                audit_text(
                    audit_event_id@,
                    old(state).user_id@,
                    "emergency_downgrade"@,
                    audit_prev_hash@,
                    audit_timestamp as int,
                    false,
                    value_text(rec.context_json),
                ),
            )),
    {
        match self.verify_quorum_sig(message, signatures) {
            Ok(()) => {},
            Err(e) => {
                return Err(e);
            },
        }
        if !self.compute_nosaferalternative(envelope) {
            return Err(ReversalError::SaferAlternativeExists);
        }
        if state.no_rollback && downgrade_request.emergency {
            match self.resimulate_safe(state, envelope, downgrade_request.simulation_data.as_str())
            {
                Ok(_) => {
                    return Ok(None);
                },
                Err(e) => {
                    return Err(e);
                },
            }
        }
        state.capability_tier = downgrade_request.new_tier.clone();
        let deed_type = String::from_str("emergency_downgrade");
        let mut ctx_pairs: Vec<(String, Value)> = Vec::new();
        ctx_pairs.push((String::from_str("new_tier"), Value::Str(
            downgrade_request.new_tier.clone(),
        )));
        let ctx = Value::Obj(ctx_pairs);
        proof {
            match &ctx {
                Value::Obj(ps) => {
                    assert(value_view(ps@[0].1) == VView::Str(downgrade_request.new_tier@));
                    assert(crate::codec::view_pairs(ps@.skip(1)) =~= Seq::<
                        (Seq<char>, VView),
                    >::empty());
                    assert(crate::codec::view_pairs(ps@) =~= seq![
                        ("new_tier"@, VView::Str(downgrade_request.new_tier@)),
                    ]);
                },
                _ => {},
            }
            assert(value_view(ctx) == (VView::Obj(
                seq![("new_tier"@, VView::Str(downgrade_request.new_tier@))],
            )));
        }
        let mut body = String::new();
        body.append(audit_event_id.as_str());
        body.push('\n');
        body.append(state.user_id.as_str());
        body.push('\n');
        body.append(deed_type.as_str());
        body.push('\n');
        body.append(audit_prev_hash.as_str());
        body.push('\n');
        write_int(audit_timestamp, &mut body);
        body.push('\n');
        write_bool(false, &mut body);
        body.push('\n');
        write_value(&ctx, &mut body);
        proof {
            assert(body@ =~= audit_text(
                audit_event_id@,
                state.user_id@,
                deed_type@,
                audit_prev_hash@,
                audit_timestamp as int,
                false,
                value_text(ctx),
            ));
        }
        let self_hash = sha256_hex(body.as_str());
        let record = EvolutionAuditRecord {
            timestamp: audit_timestamp,
            event_id: audit_event_id,
            prev_hash: audit_prev_hash,
            self_hash,
            actor_id: state.user_id.clone(),
            deed_type,
            tags: Vec::new(),
            ethics_flags: Vec::new(),
            life_harm_flag: false,
            context_json: ctx,
        };
        Ok(Some(record))
    }
}

} // verus!
