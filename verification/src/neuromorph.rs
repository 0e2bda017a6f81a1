//! The neuromorphic evolution gate: a single non-predatory micro-step may
//! go ahead only on a safe route, inside the doctrine envelope, under the
//! daily turn limit, and with the lifeforce guard's consent. The routing
//! and lifeforce verdicts come from external collaborators and enter here
//! as plain values.

use vstd::prelude::*;

verus! {

/// The fairness envelope for one evolution turn; the micro-step floor is
/// in thousandths.
#[derive(Clone, Copy, Debug, PartialEq, Eq, Structural)]
pub struct FearDoctrineEnvelope {
    pub max_flops_per_turn: u64,
    pub max_eco_energy_nj: u64,
    pub min_microstep_scale_milli: u32,
}

/// Per-host evolution configuration.
#[derive(Clone, Debug)]
pub struct FearNeuromorphConfig {
    pub host_id: String,
    pub doctrine: FearDoctrineEnvelope,
    pub max_daily_turns: u8,
}

/// Runtime-tracked daily turn state.
#[derive(Clone, Copy, Debug, PartialEq, Eq, Structural)]
pub struct FearDailyTurnState {
    pub date_yyyymmdd: u32,
    pub turns_used: u8,
}

impl FearDailyTurnState {
    /// A turn is available on a new day unconditionally, and on the same
    /// day only below the limit.
    pub fn can_consume_turn(&self, max_turns: u8, today: u32) -> (r: bool)
        ensures
            r == (self.date_yyyymmdd != today || self.turns_used < max_turns),
    {
        if self.date_yyyymmdd != today {
            return true;
        }
        self.turns_used < max_turns
    }

    /// Consumes one turn, rolling the counter over on a new day; fails
    /// exactly at the daily limit.
    pub fn consume_turn(&mut self, max_turns: u8, today: u32) -> (r: Result<(), FearError>)
        ensures
            final(self).date_yyyymmdd == today,
            r is Ok <==> (if old(self).date_yyyymmdd != today {
                max_turns > 0
            } else {
                old(self).turns_used < max_turns
            }),
            r is Ok ==> final(self).turns_used == (if old(self).date_yyyymmdd != today {
                1u8
            } else {
                (old(self).turns_used + 1) as u8
            }),
            r is Err ==> (r matches Err(FearError::DailyTurnLimitReached) && final(self).turns_used == (if old(self).date_yyyymmdd != today {
                0u8
            } else {
                old(self).turns_used
            })),
    {
        if self.date_yyyymmdd != today {
            self.date_yyyymmdd = today;
            self.turns_used = 0;
        }
        if self.turns_used >= max_turns {
            return Err(FearError::DailyTurnLimitReached);
        }
        self.turns_used = self.turns_used + 1;
        Ok(())
    }
}

/// Why an evolution micro-step was refused.
#[derive(Clone, Copy, Debug, PartialEq, Eq, Structural)]
pub enum FearError {
    /// The safety router denied the route.
    NeuromorphDenied,
    /// The eco or FLOPs budget for this turn is exceeded.
    EcoBudgetExceeded,
    /// The lifeforce guard rejected the proposed adjustment.
    LifeforceViolation,
    /// The daily evolution turn limit is reached.
    DailyTurnLimitReached,
}

/// The safety router's verdict for a feature, handed in by the caller.
#[derive(Clone, Copy, Debug, PartialEq, Eq, Structural)]
pub enum NeuromorphRoute {
    Safe,
    Defer,
    Deny,
}

/// One evolution request; the scale delta is in thousandths.
#[derive(Clone, Debug)]
pub struct FearNeuromorphEvolutionFrame {
    pub plane: String,
    pub adapter_id: String,
    pub scope: String,
    pub estimated_flops: u64,
    pub estimated_energy_nj: u64,
    pub expected_effect_band: String,
    pub proposed_scale_delta_milli: u32,
}

/// The equality-preserving micro-step actually applied, in thousandths:
/// never below the doctrine floor, never above one.
#[derive(Clone, Copy, Debug, PartialEq, Eq, Structural)]
pub struct SystemAdjustment {
    pub delta_wave_milli: u32,
    pub eco_cost_flops: u64,
}

/// The micro-step the doctrine allows: the proposal raised to the floor
/// and capped at one.
pub open spec fn micro_scale_of(doctrine: FearDoctrineEnvelope, proposed_milli: u32) -> u32 {
    let raised: u32 = if proposed_milli < doctrine.min_microstep_scale_milli {
        doctrine.min_microstep_scale_milli
    } else {
        proposed_milli
    };
    if raised > 1000 {
        1000
    } else {
        raised
    }
}

/// Attempts one non-predatory evolution micro-step, in the fixed order:
/// the route must be safe, the frame inside the doctrine envelope, a
/// daily turn available, and the lifeforce guard (whose verdict on the
/// planned adjustment the caller supplies) consenting; only then is the
/// turn consumed and the adjustment returned.
pub fn try_evolve_neuromorph(
    cfg: &FearNeuromorphConfig,
    route: NeuromorphRoute,
    frame: &FearNeuromorphEvolutionFrame,
    lifeforce_accepts: bool,
    daily_turns: &mut FearDailyTurnState,
    today_yyyymmdd: u32,
) -> (r: Result<SystemAdjustment, FearError>)
    ensures
        route != NeuromorphRoute::Safe ==> (r matches Err(FearError::NeuromorphDenied) && *final(daily_turns) == *old(daily_turns)),
        (route == NeuromorphRoute::Safe && (frame.estimated_flops > cfg.doctrine.max_flops_per_turn
            || frame.estimated_energy_nj > cfg.doctrine.max_eco_energy_nj)) ==> (r matches Err(
            FearError::EcoBudgetExceeded,
        ) && *final(daily_turns) == *old(daily_turns)),
        (route == NeuromorphRoute::Safe && frame.estimated_flops
            <= cfg.doctrine.max_flops_per_turn && frame.estimated_energy_nj
            <= cfg.doctrine.max_eco_energy_nj && !(old(daily_turns).date_yyyymmdd
            != today_yyyymmdd || old(daily_turns).turns_used < cfg.max_daily_turns)) ==> (r matches
            Err(FearError::DailyTurnLimitReached) && *final(daily_turns) == *old(daily_turns)),
        (route == NeuromorphRoute::Safe && frame.estimated_flops
            <= cfg.doctrine.max_flops_per_turn && frame.estimated_energy_nj
            <= cfg.doctrine.max_eco_energy_nj && (old(daily_turns).date_yyyymmdd != today_yyyymmdd
            || old(daily_turns).turns_used < cfg.max_daily_turns) && !lifeforce_accepts) ==> (r
            matches Err(FearError::LifeforceViolation) && *final(daily_turns) == *old(daily_turns)),
        r is Ok <==> (route == NeuromorphRoute::Safe && frame.estimated_flops
            <= cfg.doctrine.max_flops_per_turn && frame.estimated_energy_nj
            <= cfg.doctrine.max_eco_energy_nj && lifeforce_accepts && (if old(daily_turns).date_yyyymmdd != today_yyyymmdd {
            cfg.max_daily_turns > 0
        } else {
            old(daily_turns).turns_used < cfg.max_daily_turns
        })),
        r is Ok ==> (r matches Ok(adj) && adj == (SystemAdjustment {
            delta_wave_milli: micro_scale_of(cfg.doctrine, frame.proposed_scale_delta_milli),
            eco_cost_flops: frame.estimated_flops,
        }) && final(daily_turns).date_yyyymmdd == today_yyyymmdd && final(daily_turns).turns_used == (if old(daily_turns).date_yyyymmdd != today_yyyymmdd {
            1u8
        } else {
            (old(daily_turns).turns_used + 1) as u8
        })),
        (route == NeuromorphRoute::Safe && frame.estimated_flops
            <= cfg.doctrine.max_flops_per_turn && frame.estimated_energy_nj
            <= cfg.doctrine.max_eco_energy_nj && lifeforce_accepts && old(daily_turns).date_yyyymmdd != today_yyyymmdd && cfg.max_daily_turns == 0) ==> (r matches Err(
            FearError::DailyTurnLimitReached,
        ) && *final(daily_turns) == (FearDailyTurnState {
            date_yyyymmdd: today_yyyymmdd,
            turns_used: 0,
        })),
{
    match route {
        NeuromorphRoute::Safe => {},
        _ => {
            return Err(FearError::NeuromorphDenied);
        },
    }
    if frame.estimated_flops > cfg.doctrine.max_flops_per_turn || frame.estimated_energy_nj
        > cfg.doctrine.max_eco_energy_nj {
        return Err(FearError::EcoBudgetExceeded);
    }
    if !daily_turns.can_consume_turn(cfg.max_daily_turns, today_yyyymmdd) {
        return Err(FearError::DailyTurnLimitReached);
    }
    let raised: u32 = if frame.proposed_scale_delta_milli < cfg.doctrine.min_microstep_scale_milli {
        cfg.doctrine.min_microstep_scale_milli
    } else {
        frame.proposed_scale_delta_milli
    };
    let micro: u32 = if raised > 1000 {
        1000
    } else {
        raised
    };
    let adj = SystemAdjustment { delta_wave_milli: micro, eco_cost_flops: frame.estimated_flops };
    if !lifeforce_accepts {
        return Err(FearError::LifeforceViolation);
    }
    match daily_turns.consume_turn(cfg.max_daily_turns, today_yyyymmdd) {
        Ok(()) => {},
        Err(e) => {
            return Err(e);
        },
    }
    Ok(adj)
}

} // verus!
