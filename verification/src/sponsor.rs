//! Sponsorship proposals and balance snapshots. A proposal is advisory
//! evidence attached to a deed; nothing here moves funds.

use vstd::prelude::*;
use vstd::string::StringExecFns;

verus! {

/// An eco-grant proposal to attach to a deed's evidence; the amount is in
/// hundredths of the unit of account.
#[derive(Clone, Debug)]
pub struct EcoGrantProposal {
    pub recipient: String,
    pub amount_usd_cents: u64,
    pub proof_hash: String,
    pub purpose: String,
}

/// A point-in-time balance of one account.
#[derive(Clone, Debug)]
pub struct BalanceSnapshot {
    pub account_id: String,
    pub church: u64,
    pub pwr: u64,
    pub timestamp: i64,
}

/// The advisory distributor of sponsorship capacity.
pub struct SponsorDistributor {
    pub available_pwr: u64,
}

impl SponsorDistributor {
    /// Starts with the full capacity pool.
    pub fn new() -> (r: SponsorDistributor)
        ensures
            r.available_pwr == 1000000,
    {
        SponsorDistributor { available_pwr: 1000000 }
    }

    /// Drafts a sponsorship proposal; capacity is untouched, as proposals
    /// are advisory only.
    pub fn propose_grant(
        &mut self,
        recipient: String,
        amount_usd_cents: u64,
        proof_hash: String,
    ) -> (r: EcoGrantProposal)
        ensures
            r.recipient == recipient,
            r.amount_usd_cents == amount_usd_cents,
            r.proof_hash == proof_hash,
            r.purpose@ == "ecological_sustainability"@,
            final(self).available_pwr == old(self).available_pwr,
    {
        EcoGrantProposal {
            recipient,
            amount_usd_cents,
            proof_hash,
            purpose: String::from_str("ecological_sustainability"),
        }
    }
}

/// Drafts a homelessness-relief sponsorship proposal with its proof of
/// funds, through the distributor.
pub fn propose_homelessness_grant(
    distributor: &mut SponsorDistributor,
    recipient: String,
    amount_usd_cents: u64,
    proof_hash: String,
) -> (r: EcoGrantProposal)
    ensures
        r.recipient == recipient,
        r.amount_usd_cents == amount_usd_cents,
        r.proof_hash == proof_hash,
        r.purpose@ == "ecological_sustainability"@,
        final(distributor).available_pwr == old(distributor).available_pwr,
{
    distributor.propose_grant(recipient, amount_usd_cents, proof_hash)
}

} // verus!
