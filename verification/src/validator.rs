//! Content policy and chain integrity checks. Content policy (harm and
//! ethics flags) is independent of, and checked before, chain integrity; a
//! record that fails either never reaches the chain.

use crate::hash::{genesis_seq, sha256_hex_of};
use crate::record::{canon_text, self_hash_ok, DeedEvent};
use crate::strutil::str_eq;
use vstd::prelude::*;
use vstd::string::StringExecFns;

verus! {

/// Why a candidate record was rejected. A rejection never alters the
/// existing chain.
#[derive(Debug)]
pub enum ValidationError {
    /// The record's `prev_hash` does not match the expected tail hash.
    HashMismatch { expected: String, actual: String },
    /// The record's `self_hash` does not match its canonical text.
    ChainBroken,
    /// Harm to a living creature is an unconditional rejection.
    LifeHarm,
    /// Any ethics flag is an unconditional rejection.
    EthicsViolation(Vec<String>),
    /// A durable write failed; the record is not committed.
    IoFailure(String),
}

/// The ethics facts of one candidate record.
#[derive(Clone, Debug)]
pub struct EthicsContext {
    pub flags: Vec<String>,
    pub life_harm_flag: bool,
}

impl EthicsContext {
    /// Clean means no harm flag and no ethics flags at all.
    pub fn is_clean(&self) -> (r: bool)
        ensures
            r == (!self.life_harm_flag && self.flags@.len() == 0),
    {
        !self.life_harm_flag && self.flags.len() == 0
    }
}

/// Content policy: a record passes iff it has no harm flag and no ethics
/// flags, whatever its category and wherever it would sit in the chain.
pub open spec fn content_ok(d: DeedEvent) -> bool {
    !d.life_harm_flag && d.ethics_flags@.len() == 0
}

/// Copies a list of strings, element for element.
fn clone_strings(v: &Vec<String>) -> (r: Vec<String>)
    ensures
        r@ == v@,
{
    let mut out: Vec<String> = Vec::new();
    let mut i: usize = 0;
    while i < v.len()
        invariant
            i <= v@.len(),
            out@.len() == i,
            forall|j: int| 0 <= j < i ==> out@[j] == v@[j],
        decreases v@.len() - i,
    {
        out.push(v[i].clone());
        i = i + 1;
    }
    proof {
        assert(out@ =~= v@);
    }
    out
}

pub struct LedgerValidator;

impl LedgerValidator {
    /// Content policy check: rejects harm first, then ethics flags;
    /// accepts exactly the clean records.
    pub fn validate_content(event: &DeedEvent) -> (r: Result<(), ValidationError>)
        ensures
            r is Ok <==> content_ok(*event),
            event.life_harm_flag ==> r matches Err(ValidationError::LifeHarm),
            (!event.life_harm_flag && event.ethics_flags@.len() > 0) ==> (r matches Err(
                ValidationError::EthicsViolation(f),
            ) && f@ == event.ethics_flags@),
    {
        if event.life_harm_flag {
            return Err(ValidationError::LifeHarm);
        }
        if event.ethics_flags.len() > 0 {
            return Err(ValidationError::EthicsViolation(clone_strings(&event.ethics_flags)));
        }
        Ok(())
    }

    /// Chain link check for one record against the expected tail hash:
    /// `prev_hash` must match, and `self_hash` must be the digest of the
    /// record's canonical text.
    pub fn validate_record(event: &DeedEvent, expected_prev_hash: &str) -> (r: Result<
        (),
        ValidationError,
    >)
        ensures
            r is Ok <==> (event.prev_hash@ == expected_prev_hash@ && self_hash_ok(*event)),
            event.prev_hash@ != expected_prev_hash@ ==> (r matches Err(
                ValidationError::HashMismatch { expected, actual },
            ) && expected@ == expected_prev_hash@ && actual@ == event.prev_hash@),
            (event.prev_hash@ == expected_prev_hash@ && !self_hash_ok(*event)) ==> (r matches Err(
                ValidationError::ChainBroken,
            )),
    {
        if !str_eq(event.prev_hash.as_str(), expected_prev_hash) {
            return Err(
                ValidationError::HashMismatch {
                    expected: String::from_str(expected_prev_hash),
                    actual: event.prev_hash.clone(),
                },
            );
        }
        let computed = event.compute_self_hash();
        if !str_eq(computed.as_str(), event.self_hash.as_str()) {
            return Err(ValidationError::ChainBroken);
        }
        Ok(())
    }

    /// The admission check a new event passes before it is appended:
    /// content policy first, then the chain link against the expected
    /// tail hash — the genesis sentinel of 64 zero characters for a
    /// first record, never a stand-in token.
    pub fn validate_new_event(event: &DeedEvent, expected_prev_hash: &str) -> (r: Result<
        (),
        ValidationError,
    >)
        ensures
            r is Ok <==> (content_ok(*event) && event.prev_hash@ == expected_prev_hash@),
            event.life_harm_flag ==> r matches Err(ValidationError::LifeHarm),
            (!event.life_harm_flag && event.ethics_flags@.len() > 0) ==> (r matches Err(
                ValidationError::EthicsViolation(f),
            ) && f@ == event.ethics_flags@),
            (content_ok(*event) && event.prev_hash@ != expected_prev_hash@) ==> (r matches Err(
                ValidationError::HashMismatch { expected, actual },
            ) && expected@ == expected_prev_hash@ && actual@ == event.prev_hash@),
    {
        if event.life_harm_flag {
            return Err(ValidationError::LifeHarm);
        }
        if event.ethics_flags.len() > 0 {
            return Err(ValidationError::EthicsViolation(clone_strings(&event.ethics_flags)));
        }
        if !str_eq(event.prev_hash.as_str(), expected_prev_hash) {
            return Err(
                ValidationError::HashMismatch {
                    expected: String::from_str(expected_prev_hash),
                    actual: event.prev_hash.clone(),
                },
            );
        }
        Ok(())
    }
}

/// A whole chain is valid iff every record's `prev_hash` equals its
/// predecessor's `self_hash` (the genesis sentinel for the first) and
/// every record's `self_hash` is the digest of its canonical text.
pub open spec fn chain_valid(s: Seq<DeedEvent>) -> bool {
    forall|i: int|
        0 <= i < s.len() ==> ((#[trigger] s[i]).prev_hash@ == (if i == 0 {
            genesis_seq()
        } else {
            s[i - 1].self_hash@
        }) && s[i].self_hash@ == sha256_hex_of(canon_text(s[i])))
}

/// Walks the sequence from genesis and validates every link; one break
/// anywhere invalidates the whole chain.
#[verifier::rlimit(50)]
pub fn validate_chain(chain: &Vec<DeedEvent>) -> (r: bool)
    ensures
        r == chain_valid(chain@),
{
    let mut prev = crate::hash::genesis_hash();
    let mut i: usize = 0;
    while i < chain.len()
        invariant
            i <= chain@.len(),
            prev@ == (if i == 0 {
                genesis_seq()
            } else {
                chain@[i - 1].self_hash@
            }),
            forall|j: int|
                0 <= j < i ==> ((#[trigger] chain@[j]).prev_hash@ == (if j == 0 {
                    genesis_seq()
                } else {
                    chain@[j - 1].self_hash@
                }) && chain@[j].self_hash@ == sha256_hex_of(canon_text(chain@[j]))),
        decreases chain@.len() - i,
    {
        let ev = &chain[i];
        if !str_eq(ev.prev_hash.as_str(), prev.as_str()) {
            return false;
        }
        let computed = ev.compute_self_hash();
        if !str_eq(computed.as_str(), ev.self_hash.as_str()) {
            return false;
        }
        prev = ev.self_hash.clone();
        i = i + 1;
    }
    true
}

/// Thresholds for the biophysical compliance envelope, in thousandths.
#[derive(Clone, Copy, Debug, PartialEq, Eq, Structural)]
pub struct EcoRegEnvelope {
    pub max_roh_milli: u32,
    pub max_decay_milli: u32,
}

impl EcoRegEnvelope {
    /// The default compliance envelope: risk at most 0.300, decay at
    /// most 1.000.
    pub fn default_envelope() -> (r: EcoRegEnvelope)
        ensures
            r == (EcoRegEnvelope { max_roh_milli: 300, max_decay_milli: 1000 }),
    {
        EcoRegEnvelope { max_roh_milli: 300, max_decay_milli: 1000 }
    }

    /// Both readings are inside the envelope.
    pub fn within_bounds(&self, roh_milli: u32, decay_milli: u32) -> (r: bool)
        ensures
            r == (roh_milli <= self.max_roh_milli && decay_milli <= self.max_decay_milli),
    {
        roh_milli <= self.max_roh_milli && decay_milli <= self.max_decay_milli
    }
}

/// Why a deed failed compliance validation.
#[derive(Debug)]
pub enum DeedError {
    InvariantViolation(String),
}

/// Full compliance check of one deed: the biophysical readings must sit
/// inside the default envelope and the ethics context must be clean.
pub fn validate_deed(event: &DeedEvent, roh_milli: u32, decay_milli: u32) -> (r: Result<
    (),
    DeedError,
>)
    ensures
        r is Ok <==> (roh_milli <= 300 && decay_milli <= 1000 && content_ok(*event)),
        !(roh_milli <= 300 && decay_milli <= 1000) ==> (r matches Err(
            DeedError::InvariantViolation(m),
        ) && m@ == "EcoReg envelope breach"@),
        (roh_milli <= 300 && decay_milli <= 1000 && !content_ok(*event)) ==> (r matches Err(
            DeedError::InvariantViolation(m),
        ) && m@ == "Ethics flags present"@),
{
    let eco = EcoRegEnvelope::default_envelope();
    if !eco.within_bounds(roh_milli, decay_milli) {
        return Err(
            DeedError::InvariantViolation(
                String::from_str("EcoReg envelope breach"),
            ),
        );
    }
    let ctx = EthicsContext {
        flags: clone_strings(&event.ethics_flags),
        life_harm_flag: event.life_harm_flag,
    };
    if !ctx.is_clean() {
        return Err(
            DeedError::InvariantViolation(String::from_str("Ethics flags present")),
        );
    }
    Ok(())
}

/// Bioload readings attached to a minting request, in thousandths.
#[derive(Clone, Copy, Debug, PartialEq, Eq, Structural)]
pub struct BioloadMetrics {
    pub bioload_delta_milli: i64,
    pub roh_milli: u32,
    pub decay_milli: u32,
}

impl BioloadMetrics {
    pub fn new(bioload_delta_milli: i64, roh_milli: u32, decay_milli: u32) -> (r: BioloadMetrics)
        ensures
            r == (BioloadMetrics { bioload_delta_milli, roh_milli, decay_milli }),
    {
        BioloadMetrics { bioload_delta_milli, roh_milli, decay_milli }
    }

    /// A positive bioload report: strictly negative delta inside the
    /// compliance envelope.
    pub fn is_positive(&self) -> (r: bool)
        ensures
            r == (self.bioload_delta_milli < 0 && self.roh_milli <= 300 && self.decay_milli
                <= 1000),
    {
        self.bioload_delta_milli < 0 && self.roh_milli <= 300 && self.decay_milli <= 1000
    }
}

/// Harm halves the balance; anything else leaves it unchanged.
pub fn burn_for_harm(current_balance: u64, event: &DeedEvent) -> (r: u64)
    ensures
        r == (if event.life_harm_flag {
            current_balance / 2
        } else {
            current_balance
        }),
{
    if event.life_harm_flag {
        current_balance / 2
    } else {
        current_balance
    }
}

} // verus!
