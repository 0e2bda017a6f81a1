//! The advisory reputation scoring engine. Four sub-scores and a composite,
//! each an exact integer formula in thousandths over counts drawn from a
//! ledger slice and auxiliary signals, each clamped to [0, 1000]. Scores
//! are derived, never stored as ground truth, and a recommendation is
//! advisory only.

use crate::record::{category_name, Category, DeedEvent};
use crate::strutil::{contains_seq, str_contains, str_eq};
use vstd::prelude::*;
use vstd::string::StringExecFns;

verus! {

/// Clamp to the unit interval in thousandths.
pub open spec fn clamp_milli(x: int) -> int {
    if x < 0 {
        0
    } else if x > 1000 {
        1000
    } else {
        x
    }
}

/// The derived reputation vector; every component is in thousandths.
#[derive(Clone, Copy, Debug, PartialEq, Eq, Structural)]
pub struct ReputationVector {
    pub privacy: u32,
    pub compliance: u32,
    pub eco_align: u32,
    pub clin_trust: u32,
    pub mp_score: u32,
}

impl Default for ReputationVector {
    /// All-zero vector.
    fn default() -> (r: ReputationVector)
        ensures
            r == (ReputationVector {
                privacy: 0,
                compliance: 0,
                eco_align: 0,
                clin_trust: 0,
                mp_score: 0,
            }),
    {
        ReputationVector { privacy: 0, compliance: 0, eco_align: 0, clin_trust: 0, mp_score: 0 }
    }
}

/// Named weights of the asset normalization, in thousandths; policy data,
/// not safety-critical constants.
#[derive(Clone, Copy, Debug, PartialEq, Eq, Structural)]
pub struct TreeAssetWeights {
    pub blood: u32,
    pub oxygen: u32,
    pub lifeforce: u32,
    pub fear: u32,
    pub pain: u32,
    pub nano: u32,
    pub power: u32,
    pub tech: u32,
    pub time: u32,
}

impl Default for TreeAssetWeights {
    /// The hand-tuned default weight table.
    fn default() -> (r: TreeAssetWeights)
        ensures
            r == (TreeAssetWeights {
                blood: 120,
                oxygen: 110,
                lifeforce: 150,
                fear: 80,
                pain: 70,
                nano: 100,
                power: 130,
                tech: 140,
                time: 100,
            }),
    {
        TreeAssetWeights {
            blood: 120,
            oxygen: 110,
            lifeforce: 150,
            fear: 80,
            pain: 70,
            nano: 100,
            power: 130,
            tech: 140,
            time: 100,
        }
    }
}

/// One agent's biophysical state, each axis in thousandths of the unit
/// interval.
#[derive(Clone, Copy, Debug, PartialEq, Eq, Structural)]
pub struct TreeState {
    pub blood: u32,
    pub oxygen: u32,
    pub decay: u32,
    pub lifeforce: u32,
    pub fear: u32,
    pub pain: u32,
}

/// Every axis inside the unit interval.
pub open spec fn tree_state_wf(s: TreeState) -> bool {
    s.blood <= 1000 && s.oxygen <= 1000 && s.decay <= 1000 && s.lifeforce <= 1000 && s.fear
        <= 1000 && s.pain <= 1000
}

impl TreeState {
    /// Clamps every axis into the unit interval.
    pub fn clamp(&mut self)
        ensures
            tree_state_wf(*final(self)),
            final(self).blood == (if old(self).blood > 1000 {
                1000u32
            } else {
                old(self).blood
            }),
            final(self).oxygen == (if old(self).oxygen > 1000 {
                1000u32
            } else {
                old(self).oxygen
            }),
            final(self).decay == (if old(self).decay > 1000 {
                1000u32
            } else {
                old(self).decay
            }),
            final(self).lifeforce == (if old(self).lifeforce > 1000 {
                1000u32
            } else {
                old(self).lifeforce
            }),
            final(self).fear == (if old(self).fear > 1000 {
                1000u32
            } else {
                old(self).fear
            }),
            final(self).pain == (if old(self).pain > 1000 {
                1000u32
            } else {
                old(self).pain
            }),
    {
        if self.blood > 1000 {
            self.blood = 1000;
        }
        if self.oxygen > 1000 {
            self.oxygen = 1000;
        }
        if self.decay > 1000 {
            self.decay = 1000;
        }
        if self.lifeforce > 1000 {
            self.lifeforce = 1000;
        }
        if self.fear > 1000 {
            self.fear = 1000;
        }
        if self.pain > 1000 {
            self.pain = 1000;
        }
    }
}

/// Diagnostic predicate flags of an observed window.
#[derive(Clone, Copy, Debug, PartialEq, Eq, Structural)]
pub struct PredicateFlags {
    pub calm_stable: bool,
    pub overloaded: bool,
    pub recovery: bool,
    pub unfair_drain: bool,
}

/// Stress of one state: the worse of fear and pain.
pub open spec fn stress_of(s: TreeState) -> int {
    if s.fear >= s.pain {
        s.fear as int
    } else {
        s.pain as int
    }
}

pub open spec fn sum_stress(s: Seq<TreeState>) -> int
    decreases s.len(),
{
    if s.len() == 0 {
        0
    } else {
        sum_stress(s.drop_last()) + stress_of(s.last())
    }
}

pub open spec fn sum_decay(s: Seq<TreeState>) -> int
    decreases s.len(),
{
    if s.len() == 0 {
        0
    } else {
        sum_decay(s.drop_last()) + s.last().decay
    }
}

pub open spec fn sum_energy(s: Seq<TreeState>) -> int
    decreases s.len(),
{
    if s.len() == 0 {
        0
    } else {
        sum_energy(s.drop_last()) + s.last().lifeforce
    }
}

/// Calm and stable over the last `window` states: average stress at most
/// 0.350, average decay at most 0.400 and average lifeforce at least
/// 0.650 — stated exactly as sum comparisons, so no rounding enters.
pub open spec fn spec_calc_cs(history: Seq<TreeState>, window: int) -> bool {
    if window <= 0 || history.len() < window {
        false
    } else {
        let recent = history.skip(history.len() - window);
        sum_stress(recent) <= 350 * window && sum_decay(recent) <= 400 * window && sum_energy(
            recent,
        ) >= 650 * window
    }
}

/// The calm-stable predicate over the last `window` observed states.
pub fn calc_cs(history: &Vec<TreeState>, window: usize) -> (r: bool)
    ensures
        r == spec_calc_cs(history@, window as int),
{
    if window == 0 || history.len() < window {
        return false;
    }
    let len = history.len();
    let start = len - window;
    let ghost recent = history@.skip(start as int);
    let mut stress: u128 = 0;
    let mut decay: u128 = 0;
    let mut energy: u128 = 0;
    let mut i: usize = start;
    while i < len
        invariant
            start <= i <= len,
            len == history@.len(),
            window == len - start,
            window >= 1,
            recent == history@.skip(start as int),
            stress == sum_stress(recent.take(i - start)),
            decay == sum_decay(recent.take(i - start)),
            energy == sum_energy(recent.take(i - start)),
            stress <= (i - start) * 0xffff_ffffu128,
            decay <= (i - start) * 0xffff_ffffu128,
            energy <= (i - start) * 0xffff_ffffu128,
        decreases len - i,
    {
        let s = &history[i];
        proof {
            let k = i - start;
            assert(recent[k as int] == history@[i as int]);
            assert(recent.take(k + 1).drop_last() =~= recent.take(k as int));
            assert(recent.take(k + 1).last() == recent[k as int]);
            assert((k + 1) * 0xffff_ffffu128 == k * 0xffff_ffffu128 + 0xffff_ffffu128)
                by (nonlinear_arith);
        }
        let st: u32 = if s.fear >= s.pain {
            s.fear
        } else {
            s.pain
        };
        stress = stress + (st as u128);
        decay = decay + (s.decay as u128);
        energy = energy + (s.lifeforce as u128);
        i = i + 1;
    }
    proof {
        assert(recent.take(window as int) =~= recent);
    }
    let w = window as u128;
    stress <= 350 * w && decay <= 400 * w && energy >= 650 * w
}

/// Sums of one contiguous run of states, starting at `from`, `count`
/// entries long, computed in one pass.
fn sum_window(history: &Vec<TreeState>, from: usize, count: usize) -> (r: (u128, u128, u128))
    requires
        from + count <= history@.len(),
        forall|i: int| 0 <= i < history@.len() ==> tree_state_wf(#[trigger] history@[i]),
    ensures
        r.0 == sum_stress(history@.subrange(from as int, from + count)),
        r.1 == sum_decay(history@.subrange(from as int, from + count)),
        r.2 == sum_energy(history@.subrange(from as int, from + count)),
        r.0 <= 1000 * count && r.1 <= 1000 * count && r.2 <= 1000 * count,
{
    let ghost win = history@.subrange(from as int, from + count);
    let len = history.len();
    let end = from + count;
    let mut stress: u128 = 0;
    let mut decay: u128 = 0;
    let mut energy: u128 = 0;
    let mut i: usize = from;
    while i < end
        invariant
            from <= i <= end,
            end == from + count,
            end <= len,
            len == history@.len(),
            forall|j: int| 0 <= j < history@.len() ==> tree_state_wf(#[trigger] history@[j]),
            win == history@.subrange(from as int, from + count),
            stress == sum_stress(win.take(i - from)),
            decay == sum_decay(win.take(i - from)),
            energy == sum_energy(win.take(i - from)),
            stress <= 1000 * (i - from) && decay <= 1000 * (i - from) && energy <= 1000 * (i
                - from),
        decreases end - i,
    {
        let s = &history[i];
        proof {
            let k = i - from;
            assert(win[k as int] == history@[i as int]);
            assert(win.take(k + 1).drop_last() =~= win.take(k as int));
            assert(win.take(k + 1).last() == win[k as int]);
            assert(tree_state_wf(history@[i as int]));
        }
        let st: u32 = if s.fear >= s.pain {
            s.fear
        } else {
            s.pain
        };
        stress = stress + (st as u128);
        decay = decay + (s.decay as u128);
        energy = energy + (s.lifeforce as u128);
        i = i + 1;
    }
    proof {
        assert(win.take(count as int) =~= win);
    }
    (stress, decay, energy)
}

/// Overloaded: over the last `window` states against the `h` states just
/// before them, stress is high and rising, or decay is high and rising —
/// the average comparisons stated exactly by cross-multiplication, so no
/// rounding enters.
pub open spec fn spec_calc_od(history: Seq<TreeState>, window: int, h: int) -> bool {
    if window <= 0 || h <= 0 || history.len() < window + h {
        false
    } else {
        let recent = history.subrange(history.len() - window, history.len() as int);
        let prev = history.subrange(history.len() - window - h, history.len() - window);
        (sum_stress(recent) >= 650 * window && h * sum_stress(recent) - window * sum_stress(prev)
            >= 80 * (window * h)) || (sum_decay(recent) >= 700 * window && h * sum_decay(recent)
            - window * sum_decay(prev) >= 60 * (window * h))
    }
}

/// The overload predicate, for windows within 32-bit bookkeeping.
#[verifier::rlimit(60)]
pub fn calc_od(history: &Vec<TreeState>, window: usize, h: usize) -> (r: bool)
    requires
        forall|i: int| 0 <= i < history@.len() ==> tree_state_wf(#[trigger] history@[i]),
        window <= 0xffff_ffff,
        h <= 0xffff_ffff,
    ensures
        r == spec_calc_od(history@, window as int, h as int),
{
    if window == 0 || h == 0 || history.len() < window || history.len() - window < h {
        return false;
    }
    let len = history.len();
    let (sr, dr, _er) = sum_window(history, len - window, window);
    let (sp, dp, _ep) = sum_window(history, len - window - h, h);
    let w128 = window as u128;
    let h128 = h as u128;
    proof {
        assert(history@.subrange(len - window, len as int) =~= history@.subrange(
            history@.len() - window,
            history@.len() as int,
        ));
        assert(h128 * sr <= 0xffff_ffffu128 * (1000 * 0xffff_ffffu128)) by (nonlinear_arith)
            requires
                sr <= 1000 * w128,
                h128 <= 0xffff_ffffu128,
                w128 <= 0xffff_ffffu128,
        ;
        assert(w128 * sp <= 0xffff_ffffu128 * (1000 * 0xffff_ffffu128)) by (nonlinear_arith)
            requires
                sp <= 1000 * h128,
                h128 <= 0xffff_ffffu128,
                w128 <= 0xffff_ffffu128,
        ;
        assert(h128 * dr <= 0xffff_ffffu128 * (1000 * 0xffff_ffffu128)) by (nonlinear_arith)
            requires
                dr <= 1000 * w128,
                h128 <= 0xffff_ffffu128,
                w128 <= 0xffff_ffffu128,
        ;
        assert(w128 * dp <= 0xffff_ffffu128 * (1000 * 0xffff_ffffu128)) by (nonlinear_arith)
            requires
                dp <= 1000 * h128,
                h128 <= 0xffff_ffffu128,
                w128 <= 0xffff_ffffu128,
        ;
        assert(80 * (w128 * h128) <= 80 * (0xffff_ffffu128 * 0xffff_ffffu128))
            by (nonlinear_arith)
            requires
                h128 <= 0xffff_ffffu128,
                w128 <= 0xffff_ffffu128,
        ;
    }
    let stress_high = sr >= 650 * w128;
    let stress_rising = (h128 * sr) as i128 - (w128 * sp) as i128 >= (80 * (w128 * h128)) as i128;
    let decay_high = dr >= 700 * w128;
    let decay_rising = (h128 * dr) as i128 - (w128 * dp) as i128 >= (60 * (w128 * h128)) as i128;
    (stress_high && stress_rising) || (decay_high && decay_rising)
}

/// Recovery: over the last `h_rec` states against the single state just
/// before them, stress and decay fall and lifeforce rises by the
/// documented margins — again stated exactly by cross-multiplication.
pub open spec fn spec_calc_rec(history: Seq<TreeState>, w_rec: int, h_rec: int) -> bool {
    if w_rec <= 0 || h_rec <= 0 || history.len() < w_rec + h_rec {
        false
    } else {
        let recent = history.subrange(history.len() - h_rec, history.len() as int);
        let base = history[history.len() - h_rec - 1];
        &&& h_rec * stress_of(base) - sum_stress(recent) >= 50 * h_rec
        &&& h_rec * base.decay - sum_decay(recent) >= 40 * h_rec
        &&& sum_energy(recent) - h_rec * base.lifeforce >= 60 * h_rec
    }
}

/// The recovery predicate, for windows within 32-bit bookkeeping.
#[verifier::rlimit(60)]
pub fn calc_rec(history: &Vec<TreeState>, w_rec: usize, h_rec: usize) -> (r: bool)
    requires
        forall|i: int| 0 <= i < history@.len() ==> tree_state_wf(#[trigger] history@[i]),
        w_rec <= 0xffff_ffff,
        h_rec <= 0xffff_ffff,
    ensures
        r == spec_calc_rec(history@, w_rec as int, h_rec as int),
{
    if w_rec == 0 || h_rec == 0 || history.len() < w_rec || history.len() - w_rec < h_rec {
        return false;
    }
    let len = history.len();
    let (sr, dr, er) = sum_window(history, len - h_rec, h_rec);
    let base = &history[len - h_rec - 1];
    proof {
        assert(history@.subrange(len - h_rec, len as int) =~= history@.subrange(
            history@.len() - h_rec,
            history@.len() as int,
        ));
        assert(tree_state_wf(history@[len - h_rec - 1]));
    }
    let h128 = h_rec as u128;
    let base_stress: u32 = if base.fear >= base.pain {
        base.fear
    } else {
        base.pain
    };
    proof {
        assert(h128 * (base_stress as u128) <= 0xffff_ffffu128 * 1000) by (nonlinear_arith)
            requires
                h128 <= 0xffff_ffffu128,
                base_stress <= 1000,
        ;
        assert(h128 * (base.decay as u128) <= 0xffff_ffffu128 * 1000) by (nonlinear_arith)
            requires
                h128 <= 0xffff_ffffu128,
                base.decay <= 1000,
        ;
        assert(h128 * (base.lifeforce as u128) <= 0xffff_ffffu128 * 1000) by (nonlinear_arith)
            requires
                h128 <= 0xffff_ffffu128,
                base.lifeforce <= 1000,
        ;
    }
    let stress_falls = (h128 * (base_stress as u128)) as i128 - sr as i128 >= (50 * h128) as i128;
    let decay_falls = (h128 * (base.decay as u128)) as i128 - dr as i128 >= (40 * h128) as i128;
    let energy_rises = er as i128 - (h128 * (base.lifeforce as u128)) as i128 >= (60 * h128)
        as i128;
    stress_falls && decay_falls && energy_rises
}

/// Neuro-rights sub-score: a high base when identity is bound and consent
/// is in scope, plus a small capped per-event bonus.
pub open spec fn spec_calc_privacy(did_bound: bool, consent_ok: bool, events: int) -> int {
    let base: int = if did_bound && consent_ok {
        950
    } else {
        450
    };
    let bonus: int = if 2 * events < 50 {
        2 * events
    } else {
        50
    };
    clamp_milli(base + bonus)
}

/// Attestation sub-score: a high base when attested and anchored deeds
/// both exist, minus a capped penalty per harm flag.
pub open spec fn spec_calc_compliance(attested: int, anchors: int, harms: int) -> int {
    let base: int = if attested > 0 && anchors > 0 {
        970
    } else {
        500
    };
    let penalty: int = if 150 * harms < 400 {
        150 * harms
    } else {
        400
    };
    clamp_milli(base - penalty)
}

/// Eco-alignment sub-score: low-impact-run fraction scaled, minus an
/// unfair-drain penalty.
pub open spec fn spec_calc_eco_align(low_energy: int, unfair_drain: int, total: int) -> int {
    let t: int = if total < 1 {
        1
    } else {
        total
    };
    clamp_milli(600 + (low_energy * 350) / t - unfair_drain * 120)
}

/// Clinical-trust sub-score: signed-trial count scaled and capped, plus a
/// recovery bonus.
pub open spec fn spec_calc_clin_trust(signed: int, recovery: int) -> int {
    let cap: int = if 40 * signed < 250 {
        40 * signed
    } else {
        250
    };
    clamp_milli(700 + cap + 30 * recovery)
}

/// Weighted normalization of one agent's assets under the default weight
/// table, the constant share standing for the unobserved axes.
pub open spec fn spec_normalize_tree_assets(s: TreeState) -> int {
    clamp_milli(
        (s.blood * 120 + s.oxygen * 110 + s.lifeforce * 150 + (1000 - s.fear) * 80 + (1000
            - s.pain) * 70 + 470000) / 1000,
    )
}

/// Composite moral-position score: the documented convex combination of
/// the four sub-scores plus the normalized auxiliary-asset term.
pub open spec fn spec_mp_score(p: int, c: int, e: int, t: int, asset: int) -> int {
    clamp_milli((p * 250 + c * 250 + e * 250 + t * 200 + asset * 50) / 1000)
}

pub fn calc_privacy(did_bound: bool, consent_ok: bool, events_in_scope: usize) -> (r: u32)
    ensures
        r as int == spec_calc_privacy(did_bound, consent_ok, events_in_scope as int),
{
    let base: u32 = if did_bound && consent_ok {
        950
    } else {
        450
    };
    let bonus: u32 = if events_in_scope < 25 {
        (events_in_scope as u32) * 2
    } else {
        50
    };
    base + bonus
}

pub fn calc_compliance(attested_count: usize, anchor_count: usize, life_harm_flags: usize) -> (r:
    u32)
    ensures
        r as int == spec_calc_compliance(
            attested_count as int,
            anchor_count as int,
            life_harm_flags as int,
        ),
{
    let base: u32 = if attested_count > 0 && anchor_count > 0 {
        970
    } else {
        500
    };
    let penalty: u32 = if life_harm_flags < 3 {
        (life_harm_flags as u32) * 150
    } else {
        400
    };
    base - penalty
}

pub fn calc_eco_align(low_energy_runs: usize, unfair_drain_count: usize, total_events: usize) -> (r:
    u32)
    ensures
        r as int == spec_calc_eco_align(
            low_energy_runs as int,
            unfair_drain_count as int,
            total_events as int,
        ),
{
    let t: u128 = if total_events < 1 {
        1
    } else {
        total_events as u128
    };
    let pos: u128 = 600 + ((low_energy_runs as u128) * 350) / t;
    let neg: u128 = (unfair_drain_count as u128) * 120;
    let v: u128 = if pos > neg {
        pos - neg
    } else {
        0
    };
    let r: u32 = if v > 1000 {
        1000
    } else {
        v as u32
    };
    proof {
        let le = low_energy_runs as int;
        let ti: int = if (total_events as int) < 1 {
            1int
        } else {
            total_events as int
        };
        assert((le * 350) / ti >= 0);
        assert(r as int == clamp_milli(600 + (le * 350) / ti - (unfair_drain_count as int)
            * 120));
    }
    r
}

pub fn calc_clin_trust(signed_trials: usize, recovery_events: usize) -> (r: u32)
    ensures
        r as int == spec_calc_clin_trust(signed_trials as int, recovery_events as int),
{
    let cap: u64 = if signed_trials < 7 {
        (signed_trials as u64) * 40
    } else {
        250
    };
    let v: u64 = 700 + cap + (if recovery_events as u64 <= 1000 {
        (recovery_events as u64) * 30
    } else {
        30000
    });
    let r: u32 = if v > 1000 {
        1000
    } else {
        v as u32
    };
    proof {
        assert(r as int == spec_calc_clin_trust(signed_trials as int, recovery_events as int));
    }
    r
}

pub fn normalize_tree_assets(state: &TreeState) -> (r: u32)
    requires
        tree_state_wf(*state),
    ensures
        r as int == spec_normalize_tree_assets(*state),
{
    let n: u64 = (state.blood as u64) * 120 + (state.oxygen as u64) * 110 + (state.lifeforce
        as u64) * 150 + ((1000 - state.fear) as u64) * 80 + ((1000 - state.pain) as u64) * 70
        + 470000;
    let v: u64 = n / 1000;
    if v > 1000 {
        1000
    } else {
        v as u32
    }
}

/// The small enumerated advisory label set. A recommendation never itself
/// authorizes any state change.
#[derive(Clone, Copy, Debug, PartialEq, Eq, Structural)]
pub enum Recommendation {
    EcoGrant,
    CivicDuty,
    Observe,
}

/// The advisory label for a vector, against fixed thresholds.
pub open spec fn spec_recommend(v: ReputationVector) -> Recommendation {
    if v.mp_score > 880 && v.eco_align > 820 {
        Recommendation::EcoGrant
    } else if v.mp_score > 750 {
        Recommendation::CivicDuty
    } else {
        Recommendation::Observe
    }
}

/// Auxiliary signals consulted beside the ledger slice: the normalized
/// asset average of the observed lattice and the unfair-drain predicate.
#[derive(Clone, Copy, Debug, PartialEq, Eq, Structural)]
pub struct AuxiliarySignals {
    pub avg_asset_milli: u32,
    pub unfair_drain: bool,
}

/// A deed carries the given tag.
pub open spec fn has_tag(d: DeedEvent, t: Seq<char>) -> bool {
    exists|i: int| 0 <= i < d.tags@.len() && (#[trigger] d.tags@[i])@ == t
}

/// How many deeds of the slice carry the tag.
pub open spec fn count_tag(s: Seq<DeedEvent>, t: Seq<char>) -> int
    decreases s.len(),
{
    if s.len() == 0 {
        0
    } else {
        count_tag(s.drop_last(), t) + if has_tag(s.last(), t) {
            1int
        } else {
            0int
        }
    }
}

/// How many deeds carry the tag and no harm flag.
pub open spec fn count_tag_clean(s: Seq<DeedEvent>, t: Seq<char>) -> int
    decreases s.len(),
{
    if s.len() == 0 {
        0
    } else {
        count_tag_clean(s.drop_last(), t) + if has_tag(s.last(), t) && !s.last().life_harm_flag {
            1int
        } else {
            0int
        }
    }
}

/// How many deeds carry the harm flag.
pub open spec fn count_harm(s: Seq<DeedEvent>) -> int
    decreases s.len(),
{
    if s.len() == 0 {
        0
    } else {
        count_harm(s.drop_last()) + if s.last().life_harm_flag {
            1int
        } else {
            0int
        }
    }
}

/// How many deeds are recovery deeds (category name contains the word).
pub open spec fn count_recovery(s: Seq<DeedEvent>) -> int
    decreases s.len(),
{
    if s.len() == 0 {
        0
    } else {
        count_recovery(s.drop_last()) + if contains_seq(
            category_name(s.last().category),
            "recovery"@,
        ) {
            1int
        } else {
            0int
        }
    }
}

/// Some deed of the slice carries the tag.
pub open spec fn exists_tag(s: Seq<DeedEvent>, t: Seq<char>) -> bool {
    exists|i: int| 0 <= i < s.len() && has_tag(#[trigger] s[i], t)
}

/// Whether one deed carries the tag.
fn deed_has_tag(d: &DeedEvent, t: &str) -> (r: bool)
    ensures
        r == has_tag(*d, t@),
{
    let mut i: usize = 0;
    while i < d.tags.len()
        invariant
            i <= d.tags@.len(),
            forall|j: int| 0 <= j < i ==> (#[trigger] d.tags@[j])@ != t@,
        decreases d.tags@.len() - i,
    {
        if str_eq(d.tags[i].as_str(), t) {
            return true;
        }
        i = i + 1;
    }
    false
}

/// The stateless reputation engine: recomputed from the current ledger
/// slice and auxiliary signals on every call.
pub struct ReputationEngine {
    pub vector: ReputationVector,
    pub asset_weights: TreeAssetWeights,
    pub predicate_history: Vec<(bool, bool, bool, bool)>,
}

impl ReputationEngine {
    /// A fresh engine with the zero vector and default weights.
    pub fn new() -> (r: ReputationEngine)
        ensures
            r.vector == (ReputationVector {
                privacy: 0,
                compliance: 0,
                eco_align: 0,
                clin_trust: 0,
                mp_score: 0,
            }),
            r.predicate_history@.len() == 0,
    {
        ReputationEngine {
            vector: ReputationVector::default(),
            asset_weights: TreeAssetWeights::default(),
            predicate_history: Vec::new(),
        }
    }

    /// Recomputes the whole vector from the ledger slice and the
    /// auxiliary signals: consent and identity binding from tags, the
    /// attested/anchored counts net of harm penalties, low-impact
    /// fraction net of unfair drain, signed trials and recoveries, and
    /// the documented composite.
    pub fn compute(&mut self, deeds: &Vec<DeedEvent>, aux: &AuxiliarySignals) -> (r:
        ReputationVector)
        requires
            aux.avg_asset_milli <= 1000,
        ensures
            r == final(self).vector,
            final(self).asset_weights == old(self).asset_weights,
            final(self).vector.privacy as int == spec_calc_privacy(
                exists_tag(deeds@, "did_bound"@),
                exists_tag(deeds@, "consent"@),
                deeds@.len() as int,
            ),
            final(self).vector.compliance as int == spec_calc_compliance(
                count_tag_clean(deeds@, "attested"@),
                count_tag(deeds@, "anchored"@),
                count_harm(deeds@),
            ),
            final(self).vector.eco_align as int == spec_calc_eco_align(
                count_tag(deeds@, "low_energy"@),
                if aux.unfair_drain {
                    1int
                } else {
                    0int
                },
                deeds@.len() as int,
            ),
            final(self).vector.clin_trust as int == spec_calc_clin_trust(
                count_tag(deeds@, "signed_trial"@),
                count_recovery(deeds@),
            ),
            final(self).vector.mp_score as int == spec_mp_score(
                final(self).vector.privacy as int,
                final(self).vector.compliance as int,
                final(self).vector.eco_align as int,
                final(self).vector.clin_trust as int,
                aux.avg_asset_milli as int,
            ),
    {
        let mut did_bound = false;
        let mut consent_ok = false;
        let mut attested_count: usize = 0;
        let mut anchor_count: usize = 0;
        let mut low_energy_runs: usize = 0;
        let mut signed_trials: usize = 0;
        let mut life_harm_flags: usize = 0;
        let mut recovery_events: usize = 0;
        let total_events = deeds.len();
        let mut i: usize = 0;
        while i < deeds.len()
            invariant
                i <= deeds@.len(),
                did_bound == exists_tag(deeds@.take(i as int), "did_bound"@),
                consent_ok == exists_tag(deeds@.take(i as int), "consent"@),
                attested_count == count_tag_clean(deeds@.take(i as int), "attested"@),
                anchor_count == count_tag(deeds@.take(i as int), "anchored"@),
                low_energy_runs == count_tag(deeds@.take(i as int), "low_energy"@),
                signed_trials == count_tag(deeds@.take(i as int), "signed_trial"@),
                life_harm_flags == count_harm(deeds@.take(i as int)),
                recovery_events == count_recovery(deeds@.take(i as int)),
                attested_count <= i && anchor_count <= i && low_energy_runs <= i && signed_trials
                    <= i && life_harm_flags <= i && recovery_events <= i,
            decreases deeds@.len() - i,
        {
            let d = &deeds[i];
            let ghost pre = deeds@.take(i as int);
            proof {
                assert(deeds@.take(i + 1).drop_last() =~= pre);
                assert(deeds@.take(i + 1).last() == deeds@[i as int]);
            }
            if deed_has_tag(d, "did_bound") {
                did_bound = true;
            }
            if deed_has_tag(d, "consent") {
                consent_ok = true;
            }
            if deed_has_tag(d, "attested") && !d.life_harm_flag {
                attested_count = attested_count + 1;
            }
            if deed_has_tag(d, "anchored") {
                anchor_count = anchor_count + 1;
            }
            if deed_has_tag(d, "low_energy") {
                low_energy_runs = low_energy_runs + 1;
            }
            if deed_has_tag(d, "signed_trial") {
                signed_trials = signed_trials + 1;
            }
            if d.life_harm_flag {
                life_harm_flags = life_harm_flags + 1;
            }
            let cat = d.category_string();
            if str_contains(cat.as_str(), "recovery") {
                recovery_events = recovery_events + 1;
            }
            i = i + 1;
            proof {
                lemma_exists_tag_take_step(deeds@, i as int, "did_bound"@);
                lemma_exists_tag_take_step(deeds@, i as int, "consent"@);
            }
        }
        proof {
            assert(deeds@.take(deeds@.len() as int) =~= deeds@);
        }
        let privacy = calc_privacy(did_bound, consent_ok, total_events);
        let compliance = calc_compliance(attested_count, anchor_count, life_harm_flags);
        let unfair: usize = if aux.unfair_drain {
            1
        } else {
            0
        };
        let eco_align = calc_eco_align(low_energy_runs, unfair, total_events);
        let clin_trust = calc_clin_trust(signed_trials, recovery_events);
        let mp: u64 = ((privacy as u64) * 250 + (compliance as u64) * 250 + (eco_align as u64)
            * 250 + (clin_trust as u64) * 200 + (aux.avg_asset_milli as u64) * 50) / 1000;
        let mp_score: u32 = if mp > 1000 {
            1000
        } else {
            mp as u32
        };
        self.vector = ReputationVector { privacy, compliance, eco_align, clin_trust, mp_score };
        self.vector
    }

    /// The advisory label for the engine's current vector.
    pub fn recommend(&self) -> (r: Recommendation)
        ensures
            r == spec_recommend(self.vector),
    {
        if self.vector.mp_score > 880 && self.vector.eco_align > 820 {
            Recommendation::EcoGrant
        } else if self.vector.mp_score > 750 {
            Recommendation::CivicDuty
        } else {
            Recommendation::Observe
        }
    }

    /// The advisory label, spelt out for human consumption.
    pub fn recommend_eco_grant(&self) -> (r: String)
        ensures
            spec_recommend(self.vector) == Recommendation::EcoGrant ==> r@
                == "eco_grant: homelessness_relief_NPO + ecological_sustainability"@,
            spec_recommend(self.vector) == Recommendation::CivicDuty ==> r@
                == "civic_duty: share_resources"@,
            spec_recommend(self.vector) == Recommendation::Observe ==> r@
                == "observe: raise calm_stable"@,
    {
        match self.recommend() {
            Recommendation::EcoGrant => String::from_str(
                "eco_grant: homelessness_relief_NPO + ecological_sustainability",
            ),
            Recommendation::CivicDuty => String::from_str("civic_duty: share_resources"),
            Recommendation::Observe => String::from_str("observe: raise calm_stable"),
        }
    }
}

proof fn lemma_exists_tag_take_step(s: Seq<DeedEvent>, i: int, t: Seq<char>)
    requires
        0 < i <= s.len(),
    ensures
        exists_tag(s.take(i), t) == (exists_tag(s.take(i - 1), t) || has_tag(s[i - 1], t)),
{
    let a = s.take(i - 1);
    let b = s.take(i);
    if exists_tag(a, t) {
        let j = choose|j: int| 0 <= j < a.len() && has_tag(a[j], t);
        assert(b[j] == a[j]);
        assert(exists_tag(b, t));
    }
    if has_tag(s[i - 1], t) {
        assert(b[i - 1] == s[i - 1]);
        assert(exists_tag(b, t));
    }
    if exists_tag(b, t) {
        let j = choose|j: int| 0 <= j < b.len() && has_tag(b[j], t);
        if j < i - 1 {
            assert(a[j] == b[j]);
            assert(exists_tag(a, t));
        } else {
            assert(b[j] == s[i - 1]);
        }
    }
}

/// Computes the reputation vector in one call with a fresh engine.
pub fn reputation_engine(deeds: &Vec<DeedEvent>, aux: &AuxiliarySignals) -> (r: ReputationVector)
    requires
        aux.avg_asset_milli <= 1000,
    ensures
        r.privacy as int == spec_calc_privacy(
            exists_tag(deeds@, "did_bound"@),
            exists_tag(deeds@, "consent"@),
            deeds@.len() as int,
        ),
        r.compliance as int == spec_calc_compliance(
            count_tag_clean(deeds@, "attested"@),
            count_tag(deeds@, "anchored"@),
            count_harm(deeds@),
        ),
        r.eco_align as int == spec_calc_eco_align(
            count_tag(deeds@, "low_energy"@),
            if aux.unfair_drain {
                1int
            } else {
                0int
            },
            deeds@.len() as int,
        ),
        r.clin_trust as int == spec_calc_clin_trust(
            count_tag(deeds@, "signed_trial"@),
            count_recovery(deeds@),
        ),
        r.mp_score as int == spec_mp_score(
            r.privacy as int,
            r.compliance as int,
            r.eco_align as int,
            r.clin_trust as int,
            aux.avg_asset_milli as int,
        ),
{
    let mut engine = ReputationEngine::new();
    engine.compute(deeds, aux)
}

/// How many of a deed's tags name an enumerated good-deed kind.
pub open spec fn good_tag_count(tags: Seq<String>) -> int
    decreases tags.len(),
{
    if tags.len() == 0 {
        0
    } else {
        good_tag_count(tags.drop_last()) + if tags.last()@ == "ecological_sustainability"@
            || tags.last()@ == "homelessness_relief"@ || tags.last()@
            == "math_science_education"@ {
            1int
        } else {
            0int
        }
    }
}

/// Advisory moral-position score of one deed, in thousandths. A deed
/// with the harm flag scores zero outright, whatever its category and
/// tags: a harmed life admits no positive recommendation. Otherwise the
/// base is discounted per ethics flag and credited per good tag.
pub open spec fn spec_moral_position(d: DeedEvent) -> int {
    if d.life_harm_flag {
        0
    } else {
        clamp_milli(850 - 150 * d.ethics_flags@.len() + 80 * good_tag_count(d.tags@))
    }
}

/// The base grant, in whole CHURCH units, for a deed's category.
pub open spec fn base_grant_of(c: Category) -> int {
    match c {
        Category::EcologicalSustainability => 25,
        Category::HomelessnessRelief => 30,
        Category::MathScienceEducation => 20,
        Category::Other(_) => 10,
    }
}

/// Advisory grant recommendation in millionths of a CHURCH unit: the
/// base grant scaled by the moral position and a per-tag bonus. A
/// harm-flagged deed's position is zero, so its grant is zero.
pub open spec fn spec_eco_grant_micro(d: DeedEvent) -> int {
    base_grant_of(d.category) * spec_moral_position(d) * (1000 + 50 * d.tags@.len())
}

impl DeedEvent {
    /// Advisory moral-position score in thousandths.
    pub fn moral_position_score(&self) -> (r: u32)
        ensures
            r as int == spec_moral_position(*self),
            self.life_harm_flag ==> r == 0,
    {
        if self.life_harm_flag {
            return 0;
        }
        let mut good: usize = 0;
        let mut i: usize = 0;
        while i < self.tags.len()
            invariant
                i <= self.tags@.len(),
                good == good_tag_count(self.tags@.take(i as int)),
                good <= i,
            decreases self.tags@.len() - i,
        {
            proof {
                assert(self.tags@.take(i + 1).drop_last() =~= self.tags@.take(i as int));
                assert(self.tags@.take(i + 1).last() == self.tags@[i as int]);
            }
            let t = &self.tags[i];
            if str_eq(t.as_str(), "ecological_sustainability") || str_eq(
                t.as_str(),
                "homelessness_relief",
            ) || str_eq(t.as_str(), "math_science_education") {
                good = good + 1;
            }
            i = i + 1;
        }
        proof {
            assert(self.tags@.take(self.tags@.len() as int) =~= self.tags@);
        }
        let v: i128 = 850 - 150 * (self.ethics_flags.len() as i128) + 80 * (good as i128);
        if v < 0 {
            0
        } else if v > 1000 {
            1000
        } else {
            v as u32
        }
    }

    /// Advisory grant recommendation in millionths of a CHURCH unit.
    pub fn eco_grant_recommendation(&self) -> (r: u128)
        ensures
            r as int == spec_eco_grant_micro(*self),
            self.life_harm_flag ==> r == 0,
    {
        let base: u128 = match &self.category {
            Category::EcologicalSustainability => 25,
            Category::HomelessnessRelief => 30,
            Category::MathScienceEducation => 20,
            Category::Other(_) => 10,
        };
        let mp = self.moral_position_score();
        let tl: u128 = self.tags.len() as u128;
        let factor: u128 = 1000 + 50 * tl;
        let bm: u128 = base * (mp as u128);
        proof {
            if self.life_harm_flag {
                assert(mp == 0);
                assert(bm == base * 0) by (nonlinear_arith)
                    requires
                        mp == 0,
                        bm == base * (mp as u128),
                ;
                assert(bm * factor == 0) by (nonlinear_arith)
                    requires
                        bm == 0,
                ;
            }
            assert(bm <= 30000) by (nonlinear_arith)
                requires
                    base <= 30,
                    mp <= 1000,
                    bm == base * (mp as u128),
            ;
            assert(bm * factor <= 30000u128 * (1000 + 50 * 0xffff_ffff_ffff_ffffu128))
                by (nonlinear_arith)
                requires
                    bm <= 30000,
                    factor <= 1000 + 50 * 0xffff_ffff_ffff_ffffu128,
            ;
        }
        bm * factor
    }
}

/// The moral-position score of a deed, for short-form callers.
pub fn mp_score(deed: &DeedEvent) -> (r: u32)
    ensures
        r as int == spec_moral_position(*deed),
{
    deed.moral_position_score()
}

/// The grant recommendation of a deed, for short-form callers.
pub fn eco_grant(deed: &DeedEvent) -> (r: u128)
    ensures
        r as int == spec_eco_grant_micro(*deed),
{
    deed.eco_grant_recommendation()
}

/// The stable content hash of a deed, for anchoring integrations.
pub fn nano_stable_hash(event: &DeedEvent) -> (r: String)
    ensures
        r@ == event.self_hash@,
{
    event.self_hash.clone()
}

} // verus!
