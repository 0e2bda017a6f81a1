//! The budget kernel: a per-subject, per-route resource-envelope admission
//! gate. A demand is admitted only when the live risk indicator is under the
//! global cap, every envelope dimension is within the effective ceiling, the
//! route is not governed, the subject's minimum guarantee is respected and
//! the external viability predicate accepted the demand. Only an admitted
//! demand is added to the subject's running usage; a rejection leaves all
//! state unchanged.

use crate::strutil::{eq_ci_seq, str_eq, str_eq_ci};
use vstd::pervasive::VecAdditionalExecFns;
use vstd::prelude::*;
use vstd::string::StringExecFns;

verus! {

/// A resource envelope: named non-negative dimensions, used both as a
/// ceiling (policy) and as a running usage accumulator (state).
#[derive(Clone, Copy, Debug, PartialEq, Eq, Structural)]
pub struct EcoEnvelope {
    pub max_power_watts: u64,
    pub max_daily_kwh: u64,
    pub max_heat_output: u64,
    pub max_co2e_kg: u64,
    pub max_water_liters: u64,
}

/// The fixed order in which envelope dimensions are checked and reported:
/// power, energy, heat, emissions, water.
#[derive(Clone, Copy, Debug, PartialEq, Eq, Structural)]
pub enum Dimension {
    PowerWatts,
    DailyKwh,
    HeatOutput,
    Co2eKg,
    WaterLiters,
}

/// Why an admission request was rejected. Every rejection leaves the
/// kernel's state unchanged.
#[derive(Clone, Copy, Debug, PartialEq, Eq, Structural)]
pub enum BudgetError {
    /// The live route-independent risk indicator exceeds the global cap.
    SafetyCeilingBreach { current_roh_milli: u32, ceiling_milli: u32 },
    /// One demand dimension exceeds the effective ceiling; the first
    /// violating dimension in the fixed order is reported.
    CeilingExceeded { dimension: Dimension, demand: u64, limit: u64 },
    /// The route is governed and never auto-admits.
    GovernedRouteBlocked,
    /// The subject's configured minimum guarantee for this window is
    /// still unmet and the demand contributes nothing towards it.
    BelowMinimumGuarantee,
    /// The external viability predicate reported the demand outside the
    /// admissible region.
    ViabilityRejected,
}

/// The policy snapshot: global risk cap (in thousandths), global ceiling,
/// per-route ceiling overrides, per-subject minimum guarantees, and the set
/// of governed routes. The risk cap is hard-bounded: no snapshot may set
/// it above 0.300 (see `policy_wf`).
pub struct EcoFairnessSpec {
    pub global_roh_ceiling_milli: u32,
    pub global_envelope: EcoEnvelope,
    pub per_route_budgets: Vec<(String, EcoEnvelope)>,
    pub per_subject_minimums: Vec<(String, EcoEnvelope)>,
    pub altar_routes: Vec<String>,
}

/// The hard bound every accepted policy snapshot obeys: the global risk
/// cap never exceeds 0.300.
pub open spec fn policy_wf(p: EcoFairnessSpec) -> bool {
    p.global_roh_ceiling_milli <= 300
}

pub open spec fn zero_env() -> EcoEnvelope {
    EcoEnvelope {
        max_power_watts: 0,
        max_daily_kwh: 0,
        max_heat_output: 0,
        max_co2e_kg: 0,
        max_water_liters: 0,
    }
}

/// Every dimension of `d` is within `c`.
pub open spec fn env_within(d: EcoEnvelope, c: EcoEnvelope) -> bool {
    &&& d.max_power_watts <= c.max_power_watts
    &&& d.max_daily_kwh <= c.max_daily_kwh
    &&& d.max_heat_output <= c.max_heat_output
    &&& d.max_co2e_kg <= c.max_co2e_kg
    &&& d.max_water_liters <= c.max_water_liters
}

/// Dimension-wise sum; meaningful when each dimension's sum fits in u64.
pub open spec fn env_add(a: EcoEnvelope, b: EcoEnvelope) -> EcoEnvelope {
    EcoEnvelope {
        max_power_watts: (a.max_power_watts + b.max_power_watts) as u64,
        max_daily_kwh: (a.max_daily_kwh + b.max_daily_kwh) as u64,
        max_heat_output: (a.max_heat_output + b.max_heat_output) as u64,
        max_co2e_kg: (a.max_co2e_kg + b.max_co2e_kg) as u64,
        max_water_liters: (a.max_water_liters + b.max_water_liters) as u64,
    }
}

/// No dimension-wise sum of `a` and `b` overflows.
pub open spec fn env_add_fits(a: EcoEnvelope, b: EcoEnvelope) -> bool {
    &&& a.max_power_watts + b.max_power_watts <= u64::MAX
    &&& a.max_daily_kwh + b.max_daily_kwh <= u64::MAX
    &&& a.max_heat_output + b.max_heat_output <= u64::MAX
    &&& a.max_co2e_kg + b.max_co2e_kg <= u64::MAX
    &&& a.max_water_liters + b.max_water_liters <= u64::MAX
}

/// First-match lookup with ASCII case-insensitive keys (route tables).
pub open spec fn lookup_ci(m: Seq<(String, EcoEnvelope)>, key: Seq<char>) -> Option<EcoEnvelope>
    decreases m.len(),
{
    if m.len() == 0 {
        None
    } else if eq_ci_seq(m[0].0@, key) {
        Some(m[0].1)
    } else {
        lookup_ci(m.skip(1), key)
    }
}

/// First-match lookup with exact keys (subject tables).
pub open spec fn lookup_exact(m: Seq<(String, EcoEnvelope)>, key: Seq<char>) -> Option<
    EcoEnvelope,
>
    decreases m.len(),
{
    if m.len() == 0 {
        None
    } else if m[0].0@ == key {
        Some(m[0].1)
    } else {
        lookup_exact(m.skip(1), key)
    }
}

/// The ceiling that applies on a route: the route-specific ceiling if one
/// is configured, else the global ceiling — substitution, never merging.
pub open spec fn effective_ceiling(p: EcoFairnessSpec, route: Seq<char>) -> EcoEnvelope {
    match lookup_ci(p.per_route_budgets@, route) {
        Some(e) => e,
        None => p.global_envelope,
    }
}

/// The route is in the governed set (never auto-admits).
pub open spec fn is_governed(routes: Seq<String>, route: Seq<char>) -> bool {
    exists|i: int| 0 <= i < routes.len() && eq_ci_seq(#[trigger] routes[i]@, route)
}

/// The subject's current usage, zero if it has none recorded.
pub open spec fn usage_of_seq(u: Seq<(String, EcoEnvelope)>, subject: Seq<char>) -> EcoEnvelope {
    match lookup_exact(u, subject) {
        Some(e) => e,
        None => zero_env(),
    }
}

/// The admission decision, evaluated in the fixed order: safety ceiling,
/// effective-ceiling dimensions, governed route, minimum guarantee,
/// viability. `Ok` means the demand is admitted and charged to the
/// subject. The minimum guarantee is a floor the subject accumulates
/// towards before the window reset: admissions that contribute to it are
/// admitted even while usage is still below the floor, and only a demand
/// that would leave the unmet guarantee stalled is rejected.
pub open spec fn decide(
    p: EcoFairnessSpec,
    usage: EcoEnvelope,
    minimum: Option<EcoEnvelope>,
    route: Seq<char>,
    demand: EcoEnvelope,
    current_roh_milli: u32,
    viable: bool,
) -> Result<(), BudgetError> {
    let ceil = effective_ceiling(p, route);
    if current_roh_milli > p.global_roh_ceiling_milli {
        Result::Err(
            BudgetError::SafetyCeilingBreach {
                current_roh_milli,
                ceiling_milli: p.global_roh_ceiling_milli,
            },
        )
    } else if demand.max_power_watts > ceil.max_power_watts {
        Result::Err(
            BudgetError::CeilingExceeded {
                dimension: Dimension::PowerWatts,
                demand: demand.max_power_watts,
                limit: ceil.max_power_watts,
            },
        )
    } else if demand.max_daily_kwh > ceil.max_daily_kwh {
        Result::Err(
            BudgetError::CeilingExceeded {
                dimension: Dimension::DailyKwh,
                demand: demand.max_daily_kwh,
                limit: ceil.max_daily_kwh,
            },
        )
    } else if demand.max_heat_output > ceil.max_heat_output {
        Result::Err(
            BudgetError::CeilingExceeded {
                dimension: Dimension::HeatOutput,
                demand: demand.max_heat_output,
                limit: ceil.max_heat_output,
            },
        )
    } else if demand.max_co2e_kg > ceil.max_co2e_kg {
        Result::Err(
            BudgetError::CeilingExceeded {
                dimension: Dimension::Co2eKg,
                demand: demand.max_co2e_kg,
                limit: ceil.max_co2e_kg,
            },
        )
    } else if demand.max_water_liters > ceil.max_water_liters {
        Result::Err(
            BudgetError::CeilingExceeded {
                dimension: Dimension::WaterLiters,
                demand: demand.max_water_liters,
                limit: ceil.max_water_liters,
            },
        )
    } else if is_governed(p.altar_routes@, route) {
        Result::Err(BudgetError::GovernedRouteBlocked)
    } else if minimum is Some && usage.max_daily_kwh + demand.max_daily_kwh
        < minimum->Some_0.max_daily_kwh && demand.max_daily_kwh == 0 {
        Result::Err(BudgetError::BelowMinimumGuarantee)
    } else if !viable {
        Result::Err(BudgetError::ViabilityRejected)
    } else {
        Result::Ok(())
    }
}

impl EcoEnvelope {
    /// The default node envelope of the policy shard.
    pub fn default_envelope() -> (r: EcoEnvelope)
        ensures
            r == (EcoEnvelope {
                max_power_watts: 850,
                max_daily_kwh: 18,
                max_heat_output: 45,
                max_co2e_kg: 3,
                max_water_liters: 15,
            }),
    {
        EcoEnvelope {
            max_power_watts: 850,
            max_daily_kwh: 18,
            max_heat_output: 45,
            max_co2e_kg: 3,
            max_water_liters: 15,
        }
    }

    /// The zero envelope, the initial usage of every subject.
    pub fn zero() -> (r: EcoEnvelope)
        ensures
            r == zero_env(),
    {
        EcoEnvelope {
            max_power_watts: 0,
            max_daily_kwh: 0,
            max_heat_output: 0,
            max_co2e_kg: 0,
            max_water_liters: 0,
        }
    }
}

impl Default for EcoEnvelope {
    /// The default node envelope.
    fn default() -> (r: EcoEnvelope)
        ensures
            r == (EcoEnvelope {
                max_power_watts: 850,
                max_daily_kwh: 18,
                max_heat_output: 45,
                max_co2e_kg: 3,
                max_water_liters: 15,
            }),
    {
        EcoEnvelope::default_envelope()
    }
}

impl Default for EcoFairnessSpec {
    /// The default policy shard: the standard risk cap and node envelope,
    /// a tighter ceiling on the altar route, no subject minimums, and the
    /// three governed routes.
    fn default() -> (r: EcoFairnessSpec)
        ensures
            r.global_roh_ceiling_milli == 300,
            r.global_envelope == (EcoEnvelope {
                max_power_watts: 850,
                max_daily_kwh: 18,
                max_heat_output: 45,
                max_co2e_kg: 3,
                max_water_liters: 15,
            }),
            r.per_route_budgets@.len() == 1,
            r.per_route_budgets@[0].0@ == "altar"@,
            r.per_route_budgets@[0].1 == (EcoEnvelope {
                max_power_watts: 420,
                max_daily_kwh: 8,
                max_heat_output: 45,
                max_co2e_kg: 3,
                max_water_liters: 15,
            }),
            r.per_subject_minimums@.len() == 0,
            r.altar_routes@.len() == 3,
            r.altar_routes@[0]@ == "altar"@,
            r.altar_routes@[1]@ == "donation"@,
            r.altar_routes@[2]@ == "lesson"@,
    {
        let mut budgets: Vec<(String, EcoEnvelope)> = Vec::new();
        budgets.push(
            (
                String::from_str("altar"),
                EcoEnvelope {
                    max_power_watts: 420,
                    max_daily_kwh: 8,
                    max_heat_output: 45,
                    max_co2e_kg: 3,
                    max_water_liters: 15,
                },
            ),
        );
        let mut altar: Vec<String> = Vec::new();
        altar.push(String::from_str("altar"));
        altar.push(String::from_str("donation"));
        altar.push(String::from_str("lesson"));
        EcoFairnessSpec {
            global_roh_ceiling_milli: 300,
            global_envelope: EcoEnvelope::default_envelope(),
            per_route_budgets: budgets,
            per_subject_minimums: Vec::new(),
            altar_routes: altar,
        }
    }
}

/// The grace/equity kernel: a policy snapshot and the per-subject usage
/// ledger it owns. Usage is mutated only by a successful admission and
/// cleared only by an explicit window reset.
pub struct GraceEquityKernel {
    pub policy: EcoFairnessSpec,
    pub usage: Vec<(String, EcoEnvelope)>,
}

impl GraceEquityKernel {
    pub open spec fn usage_view(&self) -> Seq<(String, EcoEnvelope)> {
        self.usage@
    }

    /// A fresh kernel with the given policy snapshot and an empty ledger.
    pub fn new(policy: EcoFairnessSpec) -> (r: GraceEquityKernel)
        requires
            policy_wf(policy),
        ensures
            r.policy == policy,
            r.usage_view() =~= Seq::<(String, EcoEnvelope)>::empty(),
    {
        GraceEquityKernel { policy, usage: Vec::new() }
    }

    /// Runtime check of the hard policy bound, for callers assembling a
    /// snapshot from unchecked parts.
    pub fn policy_is_wf(policy: &EcoFairnessSpec) -> (r: bool)
        ensures
            r == policy_wf(*policy),
    {
        policy.global_roh_ceiling_milli <= 300
    }

    /// The subject's committed usage in the current window.
    pub fn usage_of(&self, subject: &str) -> (r: EcoEnvelope)
        ensures
            r == usage_of_seq(self.usage_view(), subject@),
    {
        match find_exact(&self.usage, subject) {
            Some(i) => self.usage[i].1,
            None => EcoEnvelope::zero(),
        }
    }

    /// Atomically replaces the policy snapshot; usage is untouched.
    pub fn reload_policy(&mut self, policy: EcoFairnessSpec)
        requires
            policy_wf(policy),
        ensures
            final(self).policy == policy,
            final(self).usage_view() == old(self).usage_view(),
    {
        self.policy = policy;
    }

    /// The explicit external window reset: clears all committed usage.
    /// The kernel never triggers this itself.
    pub fn reset_window(&mut self)
        ensures
            final(self).policy == old(self).policy,
            final(self).usage_view() =~= Seq::<(String, EcoEnvelope)>::empty(),
            forall|s: Seq<char>| usage_of_seq(final(self).usage_view(), s) == zero_env(),
    {
        self.usage = Vec::new();
    }

    /// The admission surface under its published name: identical to
    /// `check_route`.
    pub fn check_and_commit(
        &mut self,
        subject_id: &str,
        route_id: &str,
        demand: &EcoEnvelope,
        current_roh_milli: u32,
        viable: bool,
    ) -> (r: Result<(), BudgetError>)
        requires
            env_add_fits(usage_of_seq(old(self).usage_view(), subject_id@), *demand),
        ensures
            final(self).policy == old(self).policy,
            r == decide(
                old(self).policy,
                usage_of_seq(old(self).usage_view(), subject_id@),
                lookup_exact(old(self).policy.per_subject_minimums@, subject_id@),
                route_id@,
                *demand,
                current_roh_milli,
                viable,
            ),
            r is Err ==> final(self).usage_view() == old(self).usage_view(),
            r is Ok ==> usage_of_seq(final(self).usage_view(), subject_id@) == env_add(
                usage_of_seq(old(self).usage_view(), subject_id@),
                *demand,
            ),
            forall|s: Seq<char>|
                s != subject_id@ ==> usage_of_seq(final(self).usage_view(), s) == usage_of_seq(
                    old(self).usage_view(),
                    s,
                ),
            r is Ok ==> env_within(*demand, effective_ceiling(old(self).policy, route_id@)),
    {
        self.check_route(subject_id, route_id, demand, current_roh_milli, viable)
    }

    /// The admission gate. Decides in the fixed order and, only on `Ok`,
    /// adds the demand to the subject's running usage; any rejection
    /// leaves the ledger unchanged. Callers keep each subject's usage
    /// within machine bounds (see `usage_of`).
    pub fn check_route(
        &mut self,
        subject: &str,
        route: &str,
        demand: &EcoEnvelope,
        current_roh_milli: u32,
        viable: bool,
    ) -> (r: Result<(), BudgetError>)
        requires
            env_add_fits(usage_of_seq(old(self).usage_view(), subject@), *demand),
        ensures
            final(self).policy == old(self).policy,
            r == decide(
                old(self).policy,
                usage_of_seq(old(self).usage_view(), subject@),
                lookup_exact(old(self).policy.per_subject_minimums@, subject@),
                route@,
                *demand,
                current_roh_milli,
                viable,
            ),
            r is Err ==> final(self).usage_view() == old(self).usage_view(),
            r is Ok ==> usage_of_seq(final(self).usage_view(), subject@) == env_add(
                usage_of_seq(old(self).usage_view(), subject@),
                *demand,
            ),
            forall|s: Seq<char>|
                s != subject@ ==> usage_of_seq(final(self).usage_view(), s) == usage_of_seq(
                    old(self).usage_view(),
                    s,
                ),
            r is Ok ==> env_within(*demand, effective_ceiling(old(self).policy, route@)),
    {
        let usage_now = self.usage_of(subject);
        if current_roh_milli > self.policy.global_roh_ceiling_milli {
            return Result::Err(
                BudgetError::SafetyCeilingBreach {
                    current_roh_milli,
                    ceiling_milli: self.policy.global_roh_ceiling_milli,
                },
            );
        }
        let ceil = match find_ci(&self.policy.per_route_budgets, route) {
            Some(i) => self.policy.per_route_budgets[i].1,
            None => self.policy.global_envelope,
        };
        if demand.max_power_watts > ceil.max_power_watts {
            return Result::Err(
                BudgetError::CeilingExceeded {
                    dimension: Dimension::PowerWatts,
                    demand: demand.max_power_watts,
                    limit: ceil.max_power_watts,
                },
            );
        }
        if demand.max_daily_kwh > ceil.max_daily_kwh {
            return Result::Err(
                BudgetError::CeilingExceeded {
                    dimension: Dimension::DailyKwh,
                    demand: demand.max_daily_kwh,
                    limit: ceil.max_daily_kwh,
                },
            );
        }
        if demand.max_heat_output > ceil.max_heat_output {
            return Result::Err(
                BudgetError::CeilingExceeded {
                    dimension: Dimension::HeatOutput,
                    demand: demand.max_heat_output,
                    limit: ceil.max_heat_output,
                },
            );
        }
        if demand.max_co2e_kg > ceil.max_co2e_kg {
            return Result::Err(
                BudgetError::CeilingExceeded {
                    dimension: Dimension::Co2eKg,
                    demand: demand.max_co2e_kg,
                    limit: ceil.max_co2e_kg,
                },
            );
        }
        if demand.max_water_liters > ceil.max_water_liters {
            return Result::Err(
                BudgetError::CeilingExceeded {
                    dimension: Dimension::WaterLiters,
                    demand: demand.max_water_liters,
                    limit: ceil.max_water_liters,
                },
            );
        }
        if find_governed(&self.policy.altar_routes, route) {
            return Result::Err(BudgetError::GovernedRouteBlocked);
        }
        match find_exact(&self.policy.per_subject_minimums, subject) {
            Some(i) => {
                let m = self.policy.per_subject_minimums[i].1;
                if usage_now.max_daily_kwh + demand.max_daily_kwh < m.max_daily_kwh
                    && demand.max_daily_kwh == 0 {
                    return Result::Err(BudgetError::BelowMinimumGuarantee);
                }
            },
            None => {},
        }
        if !viable {
            return Result::Err(BudgetError::ViabilityRejected);
        }
        let charged = EcoEnvelope {
            max_power_watts: usage_now.max_power_watts + demand.max_power_watts,
            max_daily_kwh: usage_now.max_daily_kwh + demand.max_daily_kwh,
            max_heat_output: usage_now.max_heat_output + demand.max_heat_output,
            max_co2e_kg: usage_now.max_co2e_kg + demand.max_co2e_kg,
            max_water_liters: usage_now.max_water_liters + demand.max_water_liters,
        };
        let ghost before = self.usage@;
        match find_exact(&self.usage, subject) {
            Some(i) => {
                let key = self.usage[i].0.clone();
                self.usage.set(i, (key, charged));
                proof {
                    let p = self.usage@[i as int];
                    assert(self.usage@ =~= before.update(i as int, p));
                    lemma_lookup_exact_update_one(before, i as int, subject@, p, subject@);
                    assert forall|s: Seq<char>| s != subject@ implies lookup_exact(
                        self.usage@,
                        s,
                    ) == lookup_exact(before, s) by {
                        lemma_lookup_exact_update_one(before, i as int, subject@, p, s);
                    }
                }
            },
            None => {
                let key = String::from_str(subject);
                self.usage.push((key, charged));
                proof {
                    let p = self.usage@.last();
                    assert(self.usage@ =~= before.push(p));
                    lemma_lookup_exact_push_one(before, subject@, p, subject@);
                    assert forall|s: Seq<char>| s != subject@ implies lookup_exact(
                        self.usage@,
                        s,
                    ) == lookup_exact(before, s) by {
                        lemma_lookup_exact_push_one(before, subject@, p, s);
                    }
                }
            },
        }
        Result::Ok(())
    }
}

/// Index of the first entry whose key equals `key` case-insensitively.
fn find_ci(v: &Vec<(String, EcoEnvelope)>, key: &str) -> (r: Option<usize>)
    ensures
        match r {
            Some(i) => i < v@.len() && lookup_ci(v@, key@) == Some(v@[i as int].1),
            None => lookup_ci(v@, key@) is None,
        },
{
    let mut i: usize = 0;
    proof {
        assert(v@.skip(0) =~= v@);
    }
    while i < v.len()
        invariant
            i <= v@.len(),
            lookup_ci(v@, key@) == lookup_ci(v@.skip(i as int), key@),
        decreases v@.len() - i,
    {
        let ghost restv = v@.skip(i as int);
        if str_eq_ci(v[i].0.as_str(), key) {
            proof {
                assert(restv[0] == v@[i as int]);
            }
            return Some(i);
        }
        i = i + 1;
        proof {
            assert(restv.skip(1) =~= v@.skip(i as int));
        }
    }
    proof {
        assert(v@.skip(i as int) =~= Seq::<(String, EcoEnvelope)>::empty());
    }
    None
}

/// Index of the first entry whose key equals `key` exactly.
fn find_exact(v: &Vec<(String, EcoEnvelope)>, key: &str) -> (r: Option<usize>)
    ensures
        match r {
            Some(i) => {
                &&& i < v@.len()
                &&& lookup_exact(v@, key@) == Some(v@[i as int].1)
                &&& v@[i as int].0@ == key@
                &&& forall|j: int| 0 <= j < i ==> #[trigger] v@[j].0@ != key@
            },
            None => lookup_exact(v@, key@) is None,
        },
{
    let mut i: usize = 0;
    proof {
        assert(v@.skip(0) =~= v@);
    }
    while i < v.len()
        invariant
            i <= v@.len(),
            lookup_exact(v@, key@) == lookup_exact(v@.skip(i as int), key@),
            forall|j: int| 0 <= j < i ==> #[trigger] v@[j].0@ != key@,
        decreases v@.len() - i,
    {
        let ghost restv = v@.skip(i as int);
        if str_eq(v[i].0.as_str(), key) {
            proof {
                assert(restv[0] == v@[i as int]);
            }
            return Some(i);
        }
        i = i + 1;
        proof {
            assert(restv.skip(1) =~= v@.skip(i as int));
        }
    }
    proof {
        assert(v@.skip(i as int) =~= Seq::<(String, EcoEnvelope)>::empty());
    }
    None
}

/// Whether `route` is in the governed list.
fn find_governed(v: &Vec<String>, route: &str) -> (r: bool)
    ensures
        r == is_governed(v@, route@),
{
    let mut i: usize = 0;
    while i < v.len()
        invariant
            i <= v@.len(),
            forall|j: int| 0 <= j < i ==> !eq_ci_seq(#[trigger] v@[j]@, route@),
        decreases v@.len() - i,
    {
        if str_eq_ci(v[i].as_str(), route) {
            return true;
        }
        i = i + 1;
    }
    false
}

proof fn lemma_lookup_exact_update_one(
    m: Seq<(String, EcoEnvelope)>,
    i: int,
    key: Seq<char>,
    p: (String, EcoEnvelope),
    s: Seq<char>,
)
    requires
        0 <= i < m.len(),
        m[i].0@ == key,
        p.0@ == key,
        forall|j: int| 0 <= j < i ==> #[trigger] m[j].0@ != key,
    ensures
        s == key ==> lookup_exact(m.update(i, p), s) == Some(p.1),
        s != key ==> lookup_exact(m.update(i, p), s) == lookup_exact(m, s),
    decreases m.len(),
{
    let u = m.update(i, p);
    if i == 0 {
        if s == key {
        } else {
            assert(u.skip(1) =~= m.skip(1));
        }
    } else {
        assert(u[0] == m[0]);
        assert(u.skip(1) =~= m.skip(1).update(i - 1, p));
        assert(forall|j: int| 0 <= j < i - 1 ==> #[trigger] m.skip(1)[j].0@ != key);
        lemma_lookup_exact_update_one(m.skip(1), i - 1, key, p, s);
    }
}

proof fn lemma_lookup_exact_push_one(
    m: Seq<(String, EcoEnvelope)>,
    key: Seq<char>,
    p: (String, EcoEnvelope),
    s: Seq<char>,
)
    requires
        lookup_exact(m, key) is None,
        p.0@ == key,
    ensures
        s == key ==> lookup_exact(m.push(p), s) == Some(p.1),
        s != key ==> lookup_exact(m.push(p), s) == lookup_exact(m, s),
    decreases m.len(),
{
    let u = m.push(p);
    if m.len() == 0 {
        assert(u[0] == p);
        assert(u.skip(1) =~= Seq::<(String, EcoEnvelope)>::empty());
        if s != key {
            assert(lookup_exact(u, s) == lookup_exact(u.skip(1), s));
            assert(lookup_exact(u.skip(1), s) is None);
            assert(lookup_exact(m, s) is None);
        }
    } else {
        assert(u[0] == m[0]);
        assert(u.skip(1) =~= m.skip(1).push(p));
        lemma_lookup_exact_push_one(m.skip(1), key, p, s);
    }
}


/// One admission request in a single-subject trace: the route, the demand,
/// and the live risk and viability readings at that moment.
pub struct AdmissionEvent {
    pub route: Seq<char>,
    pub demand: EcoEnvelope,
    pub current_roh_milli: u32,
    pub viable: bool,
}

/// The subject's usage after one admission request: charged only on `Ok`.
pub open spec fn step_usage(
    p: EcoFairnessSpec,
    usage: EcoEnvelope,
    minimum: Option<EcoEnvelope>,
    e: AdmissionEvent,
) -> EcoEnvelope {
    if decide(p, usage, minimum, e.route, e.demand, e.current_roh_milli, e.viable) is Ok {
        env_add(usage, e.demand)
    } else {
        usage
    }
}

/// The subject's usage after a whole trace of admission requests.
pub open spec fn run_usage(
    p: EcoFairnessSpec,
    usage: EcoEnvelope,
    minimum: Option<EcoEnvelope>,
    events: Seq<AdmissionEvent>,
) -> EcoEnvelope
    decreases events.len(),
{
    if events.len() == 0 {
        usage
    } else {
        run_usage(p, step_usage(p, usage, minimum, events[0]), minimum, events.skip(1))
    }
}

/// The subsequence of a trace that was admitted, in order.
pub open spec fn admitted_events(
    p: EcoFairnessSpec,
    usage: EcoEnvelope,
    minimum: Option<EcoEnvelope>,
    events: Seq<AdmissionEvent>,
) -> Seq<AdmissionEvent>
    decreases events.len(),
{
    if events.len() == 0 {
        Seq::empty()
    } else {
        let e = events[0];
        let rest = admitted_events(p, step_usage(p, usage, minimum, e), minimum, events.skip(1));
        if decide(p, usage, minimum, e.route, e.demand, e.current_roh_milli, e.viable) is Ok {
            seq![e] + rest
        } else {
            rest
        }
    }
}

/// The dimension-wise sums of the demands of a trace, as unbounded
/// integers: (power, energy, heat, emissions, water).
pub open spec fn demand_sums(s: Seq<AdmissionEvent>) -> (int, int, int, int, int)
    decreases s.len(),
{
    if s.len() == 0 {
        (0, 0, 0, 0, 0)
    } else {
        let r = demand_sums(s.skip(1));
        (
            s[0].demand.max_power_watts + r.0,
            s[0].demand.max_daily_kwh + r.1,
            s[0].demand.max_heat_output + r.2,
            s[0].demand.max_co2e_kg + r.3,
            s[0].demand.max_water_liters + r.4,
        )
    }
}

proof fn lemma_demand_sums_nonneg(s: Seq<AdmissionEvent>)
    ensures
        demand_sums(s).0 >= 0,
        demand_sums(s).1 >= 0,
        demand_sums(s).2 >= 0,
        demand_sums(s).3 >= 0,
        demand_sums(s).4 >= 0,
    decreases s.len(),
{
    if s.len() > 0 {
        lemma_demand_sums_nonneg(s.skip(1));
    }
}

/// For any sequence of admission requests for one subject, the final usage
/// equals the starting usage plus the exact sum of the admitted demands —
/// no admitted demand is lost, no rejected demand is charged — and every
/// admitted demand was within the effective ceiling of its route at
/// admission time.
pub proof fn lemma_no_lost_updates(
    p: EcoFairnessSpec,
    usage0: EcoEnvelope,
    minimum: Option<EcoEnvelope>,
    events: Seq<AdmissionEvent>,
)
    requires
        usage0.max_power_watts + demand_sums(
            admitted_events(p, usage0, minimum, events),
        ).0 <= u64::MAX,
        usage0.max_daily_kwh + demand_sums(
            admitted_events(p, usage0, minimum, events),
        ).1 <= u64::MAX,
        usage0.max_heat_output + demand_sums(
            admitted_events(p, usage0, minimum, events),
        ).2 <= u64::MAX,
        usage0.max_co2e_kg + demand_sums(
            admitted_events(p, usage0, minimum, events),
        ).3 <= u64::MAX,
        usage0.max_water_liters + demand_sums(
            admitted_events(p, usage0, minimum, events),
        ).4 <= u64::MAX,
    ensures
        run_usage(p, usage0, minimum, events).max_power_watts == usage0.max_power_watts
            + demand_sums(admitted_events(p, usage0, minimum, events)).0,
        run_usage(p, usage0, minimum, events).max_daily_kwh == usage0.max_daily_kwh
            + demand_sums(admitted_events(p, usage0, minimum, events)).1,
        run_usage(p, usage0, minimum, events).max_heat_output == usage0.max_heat_output
            + demand_sums(admitted_events(p, usage0, minimum, events)).2,
        run_usage(p, usage0, minimum, events).max_co2e_kg == usage0.max_co2e_kg + demand_sums(
            admitted_events(p, usage0, minimum, events),
        ).3,
        run_usage(p, usage0, minimum, events).max_water_liters == usage0.max_water_liters
            + demand_sums(admitted_events(p, usage0, minimum, events)).4,
        forall|i: int|
            0 <= i < admitted_events(p, usage0, minimum, events).len() ==> env_within(
                #[trigger] admitted_events(p, usage0, minimum, events)[i].demand,
                effective_ceiling(p, admitted_events(p, usage0, minimum, events)[i].route),
            ),
    decreases events.len(),
{
    if events.len() == 0 {
    } else {
        let e = events[0];
        let adm = admitted_events(p, usage0, minimum, events);
        let u1 = step_usage(p, usage0, minimum, e);
        let rest_adm = admitted_events(p, u1, minimum, events.skip(1));
        lemma_demand_sums_nonneg(rest_adm);
        if decide(p, usage0, minimum, e.route, e.demand, e.current_roh_milli, e.viable) is Ok {
            assert(adm == seq![e] + rest_adm);
            assert((seq![e] + rest_adm).skip(1) =~= rest_adm);
            assert(demand_sums(adm).0 == e.demand.max_power_watts + demand_sums(rest_adm).0);
            lemma_no_lost_updates(p, u1, minimum, events.skip(1));
            assert(env_within(e.demand, effective_ceiling(p, e.route)));
            assert forall|i: int| 0 <= i < adm.len() implies env_within(
                #[trigger] adm[i].demand,
                effective_ceiling(p, adm[i].route),
            ) by {
                if i > 0 {
                    assert(adm[i] == rest_adm[i - 1]);
                }
            }
        } else {
            assert(adm == rest_adm);
            lemma_no_lost_updates(p, u1, minimum, events.skip(1));
        }
    }
}

/// A governed route never auto-admits: the decision for it is never `Ok`,
/// and when no earlier check rejects first it is exactly
/// `GovernedRouteBlocked`.
pub proof fn lemma_governed_route_never_admits(
    p: EcoFairnessSpec,
    usage: EcoEnvelope,
    minimum: Option<EcoEnvelope>,
    route: Seq<char>,
    demand: EcoEnvelope,
    current_roh_milli: u32,
    viable: bool,
)
    requires
        is_governed(p.altar_routes@, route),
    ensures
        !(decide(p, usage, minimum, route, demand, current_roh_milli, viable) is Ok),
        current_roh_milli <= p.global_roh_ceiling_milli && env_within(
            demand,
            effective_ceiling(p, route),
        ) ==> decide(p, usage, minimum, route, demand, current_roh_milli, viable) == Result::<
            (),
            BudgetError,
        >::Err(BudgetError::GovernedRouteBlocked),
{
}


/// The projection from an action's lifeforce cost and its route to an
/// expected resource envelope: power is the cost clamped to the node
/// ceiling, and the energy and emissions expectations depend on the kind
/// of route. Values are whole units.
pub open spec fn spec_estimate_demand(lifeforce_cost_watts: u64, route: Seq<char>) -> EcoEnvelope {
    let power: u64 = if lifeforce_cost_watts > 850 {
        850
    } else {
        lifeforce_cost_watts
    };
    let kwh: u64 = if contains_ci(route, "altar"@) {
        8
    } else if contains_ci(route, "sim"@) {
        5
    } else {
        3
    };
    let co2e: u64 = if contains_ci(route, "altar"@) {
        2
    } else {
        1
    };
    EcoEnvelope {
        max_power_watts: power,
        max_daily_kwh: kwh,
        max_heat_output: 40,
        max_co2e_kg: co2e,
        max_water_liters: 10,
    }
}

/// The needle occurs in the haystack, ASCII case-insensitively.
pub open spec fn contains_ci(h: Seq<char>, n: Seq<char>) -> bool {
    exists|i: int|
        0 <= i && i + n.len() <= h.len() && eq_ci_seq(#[trigger] h.subrange(i, i + n.len() as int), n)
}

/// The needle matches at `at`, case-insensitively.
fn matches_at_ci(h: &str, lh: usize, n: &str, ln: usize, at: usize) -> (r: bool)
    requires
        lh == h@.len(),
        ln == n@.len(),
        at + ln <= lh,
    ensures
        r == eq_ci_seq(h@.subrange(at as int, at + ln), n@),
{
    let mut j: usize = 0;
    while j < ln
        invariant
            j <= ln,
            lh == h@.len(),
            ln == n@.len(),
            at + ln <= lh,
            forall|k: int|
                0 <= k < j ==> crate::strutil::lower_code(h@[at + k]) == crate::strutil::lower_code(
                    n@[k],
                ),
        decreases ln - j,
    {
        let ca = h.get_char(at + j) as u32;
        let cb = n.get_char(j) as u32;
        let la: u32 = if 65 <= ca && ca <= 90 {
            ca + 32
        } else {
            ca
        };
        let lb: u32 = if 65 <= cb && cb <= 90 {
            cb + 32
        } else {
            cb
        };
        if la != lb {
            proof {
                assert(h@.subrange(at as int, at + ln)[j as int] == h@[at + j]);
            }
            return false;
        }
        j = j + 1;
    }
    proof {
        let sub = h@.subrange(at as int, at + ln);
        assert(forall|k: int| 0 <= k < ln ==> sub[k] == h@[at + k]);
    }
    true
}

/// Case-insensitive substring search.
fn str_contains_ci(h: &str, n: &str) -> (r: bool)
    ensures
        r == contains_ci(h@, n@),
{
    let lh = h.unicode_len();
    let ln = n.unicode_len();
    if ln > lh {
        return false;
    }
    if ln == 0 {
        proof {
            assert(h@.subrange(0, 0 + n@.len() as int) =~= n@);
            assert(eq_ci_seq(h@.subrange(0, 0 + n@.len() as int), n@));
        }
        return true;
    }
    let mut i: usize = 0;
    while i <= lh - ln
        invariant
            lh == h@.len(),
            ln == n@.len(),
            1 <= ln <= lh,
            i <= lh - ln + 1,
            forall|k: int| 0 <= k < i ==> !eq_ci_seq(#[trigger] h@.subrange(k, k + ln), n@),
        decreases lh - ln + 1 - i,
    {
        if matches_at_ci(h, lh, n, ln, i) {
            return true;
        }
        i = i + 1;
    }
    false
}

/// Projects an action onto an expected resource envelope.
pub fn estimate_demand(lifeforce_cost_watts: u64, route: &str) -> (r: EcoEnvelope)
    ensures
        r == spec_estimate_demand(lifeforce_cost_watts, route@),
{
    let power: u64 = if lifeforce_cost_watts > 850 {
        850
    } else {
        lifeforce_cost_watts
    };
    let altar = str_contains_ci(route, "altar");
    let sim = str_contains_ci(route, "sim");
    let kwh: u64 = if altar {
        8
    } else if sim {
        5
    } else {
        3
    };
    let co2e: u64 = if altar {
        2
    } else {
        1
    };
    EcoEnvelope {
        max_power_watts: power,
        max_daily_kwh: kwh,
        max_heat_output: 40,
        max_co2e_kg: co2e,
        max_water_liters: 10,
    }
}

/// The public guardian: projects the action onto a demand envelope and
/// runs the admission check for it.
pub struct EcoFairnessGuard {
    pub kernel: GraceEquityKernel,
}

impl EcoFairnessGuard {
    pub fn new(policy: EcoFairnessSpec) -> (r: EcoFairnessGuard)
        requires
            policy_wf(policy),
        ensures
            r.kernel.policy == policy,
            r.kernel.usage_view() =~= Seq::<(String, EcoEnvelope)>::empty(),
    {
        EcoFairnessGuard { kernel: GraceEquityKernel::new(policy) }
    }

    /// Projects and checks one action. The live risk reading and the
    /// viability verdict come from external collaborators.
    pub fn check(
        &mut self,
        subject_id: &str,
        route: &str,
        lifeforce_cost_watts: u64,
        current_roh_milli: u32,
        viable: bool,
    ) -> (r: Result<(), BudgetError>)
        requires
            env_add_fits(
                usage_of_seq(old(self).kernel.usage_view(), subject_id@),
                spec_estimate_demand(lifeforce_cost_watts, route@),
            ),
        ensures
            final(self).kernel.policy == old(self).kernel.policy,
            r == decide(
                old(self).kernel.policy,
                usage_of_seq(old(self).kernel.usage_view(), subject_id@),
                lookup_exact(old(self).kernel.policy.per_subject_minimums@, subject_id@),
                route@,
                spec_estimate_demand(lifeforce_cost_watts, route@),
                current_roh_milli,
                viable,
            ),
            r is Ok ==> usage_of_seq(final(self).kernel.usage_view(), subject_id@) == env_add(
                usage_of_seq(old(self).kernel.usage_view(), subject_id@),
                spec_estimate_demand(lifeforce_cost_watts, route@),
            ),
            r is Err ==> final(self).kernel.usage_view() == old(self).kernel.usage_view(),
    {
        let demand = estimate_demand(lifeforce_cost_watts, route);
        self.kernel.check_route(subject_id, route, &demand, current_roh_milli, viable)
    }
}

} // verus!
