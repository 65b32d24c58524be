use crate::action::{lemma_index_bijection, Action, Attributes};
use crate::action_set::ActionSet;
use crate::craft_context::CraftContext;
use vstd::arithmetic::div_mod::{lemma_div_by_multiple, lemma_div_is_ordered};
use vstd::arithmetic::mul::lemma_mul_inequality;
use vstd::prelude::*;

verus! {

/// A score of 1.0, in the fixed-point unit that scores are counted in
/// (millionths).
pub const SCORE_SCALE: u32 = 1_000_000;

/// How a finished or failed craft ended.
#[derive(Debug, Clone, Copy, PartialEq, Eq, Structural)]
pub enum CraftResult {
    /// The craft reached 100% progress. Includes the score of the `CraftState`,
    /// in millionths.
    Finished(u32),
    /// No durability remains.
    DurabilityFailure,
    /// The step limit was reached.
    MaxStepsFailure,
    /// No actions are available, or an invalid action was used.
    InvalidActionFailure,
}

/// Where the one-shot Trained Perfection buff stands.
#[derive(Debug, Clone, Copy, PartialEq, Eq, Structural)]
pub enum TrainedPerfection {
    Unused,
    Active,
    Used,
}

/// Buff timers (steps remaining), and the Inner Quiet stack count.
#[derive(Debug, Clone, Copy, PartialEq, Eq, Structural)]
pub struct Buffs {
    pub inner_quiet: u8,
    pub waste_not: u8,
    pub waste_not_ii: u8,
    pub manipulation: u8,
    pub great_strides: u8,
    pub innovation: u8,
    pub veneration: u8,
    pub muscle_memory: u8,
}

pub open spec fn dec(t: u8) -> u8 {
    if t > 0 {
        (t - 1) as u8
    } else {
        0
    }
}

impl Buffs {
    /// All timers one step further, Inner Quiet left as it is.
    pub open spec fn spec_decremented(self) -> Buffs {
        Buffs {
            inner_quiet: self.inner_quiet,
            waste_not: dec(self.waste_not),
            waste_not_ii: dec(self.waste_not_ii),
            manipulation: dec(self.manipulation),
            great_strides: dec(self.great_strides),
            innovation: dec(self.innovation),
            veneration: dec(self.veneration),
            muscle_memory: dec(self.muscle_memory),
        }
    }

    pub fn new() -> (r: Buffs)
        ensures
            r == (Buffs {
                inner_quiet: 0,
                waste_not: 0,
                waste_not_ii: 0,
                manipulation: 0,
                great_strides: 0,
                innovation: 0,
                veneration: 0,
                muscle_memory: 0,
            }),
    {
        Buffs {
            inner_quiet: 0,
            waste_not: 0,
            waste_not_ii: 0,
            manipulation: 0,
            great_strides: 0,
            innovation: 0,
            veneration: 0,
            muscle_memory: 0,
        }
    }

    /// Decrements all buff timers by 1 step
    pub fn decrement_timers(&mut self)
        ensures
            *final(self) == old(self).spec_decremented(),
    {
        self.waste_not = self.waste_not.saturating_sub(1);
        self.waste_not_ii = self.waste_not_ii.saturating_sub(1);
        self.manipulation = self.manipulation.saturating_sub(1);
        self.great_strides = self.great_strides.saturating_sub(1);
        self.innovation = self.innovation.saturating_sub(1);
        self.veneration = self.veneration.saturating_sub(1);
        self.muscle_memory = self.muscle_memory.saturating_sub(1);
    }
}

/// One node's game state, with its search statistics.
#[derive(Debug, Clone, Copy)]
pub struct CraftState {
    pub step: u8,
    pub progress: u32,
    pub quality: u32,
    pub durability: i8,
    pub cp: u32,
    /// The anchor of a combo in progress, not necessarily the last action.
    pub previous_combo_action: Option<Action>,
    pub quick_innovation_available: bool,
    pub trained_perfection: TrainedPerfection,
    pub buffs: Buffs,
    /// The action that led to this state
    pub action: Option<Action>,
    /// Sum of scores from this node onward, in millionths
    pub score_sum: u64,
    /// Maximum score that can be obtained by following this node, in millionths
    pub max_score: u32,
    /// Number of times this node has been visited
    pub visits: u64,
    pub available_moves: ActionSet,
}

pub open spec fn saturate_u32(v: int) -> u32 {
    if v > u32::MAX {
        u32::MAX
    } else {
        v as u32
    }
}

pub open spec fn flag(b: bool) -> nat {
    if b {
        1
    } else {
        0
    }
}

/// `floor(base × e × m / 100)` with `m = 1 + 0.5·[veneration] + 1·[muscle memory]`.
pub open spec fn spec_progress_increase(ctx: CraftContext, s: CraftState, efficiency: u32) -> nat {
    (ctx.base_progress_factor * efficiency * (2 + flag(s.buffs.veneration > 0) + 2 * flag(
        s.buffs.muscle_memory > 0,
    ))) as nat / 200
}

/// The quality that `action` of efficiency `efficiency` adds in state `s`:
/// `floor(base × e × (1 + iq/10) × (1 + 0.5·[innovation] + 1·[great strides]) / 100)`,
/// where Byregot's Blessing has `e = 100 + 20·iq` and Trained Eye tops quality
/// up to the target.
pub open spec fn spec_quality_increase(
    ctx: CraftContext,
    s: CraftState,
    action: Action,
    efficiency: u32,
) -> nat {
    if action == Action::TrainedEye {
        if s.quality < ctx.quality_target {
            (ctx.quality_target - s.quality) as nat
        } else {
            0
        }
    } else {
        let iq = s.buffs.inner_quiet;
        let e = if action == Action::ByregotsBlessing {
            100 + 20 * iq
        } else {
            efficiency as int
        };
        (ctx.base_quality_factor * e * (10 + iq) * (2 + flag(s.buffs.innovation > 0) + 2 * flag(
            s.buffs.great_strides > 0,
        ))) as nat / 2000
    }
}

/// Durability that an action of base cost `base` takes in state `s`.
pub open spec fn spec_durability_cost(s: CraftState, base: i8) -> int {
    if s.trained_perfection == TrainedPerfection::Active {
        0
    } else if s.buffs.waste_not > 0 || s.buffs.waste_not_ii > 0 {
        trunc_half(base as int)
    } else {
        base as int
    }
}

/// Whether `action` continues the combo anchored at `previous`.
pub open spec fn spec_is_combo(previous: Option<Action>, action: Action) -> bool {
    (previous == Some(Action::BasicTouch) && action == Action::StandardTouch) || ((previous == Some(
        Action::StandardTouch,
    ) || previous == Some(Action::Observe)) && action == Action::AdvancedTouch)
}

/// CP that `action` of base cost `base` takes in state `s`.
pub open spec fn spec_cp_cost(s: CraftState, action: Action, base: u32) -> nat {
    if spec_is_combo(s.previous_combo_action, action) {
        18
    } else {
        base as nat
    }
}

pub open spec fn spec_next_inner_quiet(s: CraftState, action: Action) -> u8 {
    let iq = s.buffs.inner_quiet;
    let gain: int = if action == Action::Reflect || action == Action::PreparatoryTouch || (
    s.previous_combo_action == Some(Action::BasicTouch) && action == Action::RefinedTouch) {
        2
    } else {
        1
    };
    if action == Action::ByregotsBlessing {
        0
    } else if iq + gain > 10 {
        10
    } else {
        (iq + gain) as u8
    }
}

pub open spec fn spec_next_combo(previous: Option<Action>, action: Action) -> Option<Action> {
    if previous == Some(Action::BasicTouch) && (action == Action::StandardTouch || action
        == Action::RefinedTouch) {
        Some(action)
    } else if action == Action::BasicTouch || action == Action::Observe {
        Some(action)
    } else {
        None
    }
}

pub open spec fn min_int(a: int, b: int) -> int {
    if a < b {
        a
    } else {
        b
    }
}

/// The buff or restoration that `action` grants, applied last.
pub open spec fn spec_apply_effect(ctx: CraftContext, s: CraftState, action: Action) -> CraftState {
    match action {
        Action::MastersMend => CraftState {
            durability: min_int(s.durability + 30, ctx.durability_max as int) as i8,
            ..s
        },
        Action::WasteNot => CraftState {
            buffs: Buffs { waste_not: 4, waste_not_ii: 0, ..s.buffs },
            ..s
        },
        Action::Veneration => CraftState { buffs: Buffs { veneration: 4, ..s.buffs }, ..s },
        Action::GreatStrides => CraftState { buffs: Buffs { great_strides: 3, ..s.buffs }, ..s },
        Action::Innovation => CraftState { buffs: Buffs { innovation: 4, ..s.buffs }, ..s },
        Action::WasteNotII => CraftState {
            buffs: Buffs { waste_not: 0, waste_not_ii: 8, ..s.buffs },
            ..s
        },
        Action::MuscleMemory => CraftState { buffs: Buffs { muscle_memory: 5, ..s.buffs }, ..s },
        Action::Manipulation => CraftState { buffs: Buffs { manipulation: 8, ..s.buffs }, ..s },
        Action::QuickInnovation => CraftState {
            buffs: Buffs { innovation: 1, ..s.buffs },
            quick_innovation_available: false,
            ..s
        },
        Action::ImmaculateMend => CraftState { durability: ctx.durability_max, ..s },
        Action::TrainedPerfection => CraftState {
            trained_perfection: TrainedPerfection::Active,
            ..s
        },
        _ => s,
    }
}

/// Steps 1 to 3 of a transition: the step count, the recorded action, zeroed
/// statistics, progress and quality.
pub open spec fn spec_gain(ctx: CraftContext, s: CraftState, action: Action) -> CraftState {
    let attrs = action.spec_attributes();
    let s1 = CraftState {
        step: if action == Action::QuickInnovation {
            s.step
        } else {
            (s.step + 1) as u8
        },
        action: Some(action),
        score_sum: 0,
        max_score: 0,
        visits: 0,
        ..s
    };
    let s2 = match attrs.progress_efficiency {
        Some(e) => CraftState {
            progress: saturate_u32(s1.progress + spec_progress_increase(ctx, s1, e)),
            buffs: Buffs { muscle_memory: 0, ..s1.buffs },
            ..s1
        },
        None => s1,
    };
    match attrs.quality_efficiency {
        Some(e) => CraftState {
            quality: saturate_u32(s2.quality + spec_quality_increase(ctx, s2, action, e)),
            buffs: Buffs {
                inner_quiet: if ctx.player_job_level >= 11 {
                    spec_next_inner_quiet(s2, action)
                } else {
                    s2.buffs.inner_quiet
                },
                great_strides: 0,
                ..s2.buffs
            },
            ..s2
        },
        None => s2,
    }
}

/// Steps 4 to 9 of a transition: durability, Manipulation, CP, combo, timers
/// and the action's own effect.
pub open spec fn spec_costs(ctx: CraftContext, s3: CraftState, action: Action) -> CraftState {
    let attrs = action.spec_attributes();
    let s4 = match attrs.durability_cost {
        Some(c) => CraftState {
            durability: (s3.durability - spec_durability_cost(s3, c)) as i8,
            trained_perfection: if c > 0 && s3.trained_perfection == TrainedPerfection::Active {
                TrainedPerfection::Used
            } else {
                s3.trained_perfection
            },
            ..s3
        },
        None => s3,
    };
    let s5 = if s4.buffs.manipulation > 0 && s4.durability > 0 {
        CraftState {
            durability: min_int(s4.durability + 5, ctx.durability_max as int) as i8,
            ..s4
        }
    } else {
        s4
    };
    let s6 = match attrs.cp_cost {
        Some(c) => CraftState { cp: (s5.cp - spec_cp_cost(s5, action, c)) as u32, ..s5 },
        None => s5,
    };
    let s7 = CraftState {
        previous_combo_action: spec_next_combo(s6.previous_combo_action, action),
        ..s6
    };
    let s8 = if action == Action::QuickInnovation {
        s7
    } else {
        CraftState { buffs: s7.buffs.spec_decremented(), ..s7 }
    };
    spec_apply_effect(ctx, s8, action)
}

/// The state after `action`, apart from its available moves (which are left
/// as they were and then recomputed by the caller).
pub open spec fn spec_transition(ctx: CraftContext, s: CraftState, action: Action) -> CraftState {
    spec_costs(ctx, spec_gain(ctx, s, action), action)
}

/// Whether the craft has ended: complete, out of steps or out of durability.
pub open spec fn spec_is_terminal(ctx: CraftContext, s: CraftState) -> bool {
    s.progress >= ctx.progress_target || s.step >= ctx.step_max || s.durability <= 0
}

/// The pruning rules that only strict mode applies.
pub open spec fn spec_strict_allows(ctx: CraftContext, s: CraftState, action: Action) -> bool {
    let attrs = action.spec_attributes();
    if s.step == 1 && ctx.quality_target > 0 && !ctx.is_expert && ctx.action_pool@.contains(
        Action::TrainedEye,
    ) {
        action == Action::TrainedEye
    } else {
        &&& (s.previous_combo_action == Some(Action::Observe) ==> action == Action::AdvancedTouch)
        &&& !(ctx.player_job_level == ctx.recipe_job_level && s.buffs.muscle_memory > 0
            && attrs.quality_efficiency is Some)
        &&& !(s.buffs.veneration > 0 && attrs.progress_efficiency is None
            && attrs.quality_efficiency is Some)
        &&& match attrs.progress_efficiency {
            Some(e) => if s.progress + spec_progress_increase(ctx, s, e) >= ctx.progress_target {
                s.quality >= ctx.quality_target / 5
            } else {
                !(s.buffs.innovation > 0 && attrs.quality_efficiency is None)
            },
            None => true,
        }
    }
}

/// The per-action rules, in strict or non-strict mode.
pub open spec fn spec_action_allows(ctx: CraftContext, s: CraftState, action: Action, strict: bool) -> bool {
    let b = s.buffs;
    let no_waste_not = b.waste_not == 0 && b.waste_not_ii == 0;
    match action {
        Action::MuscleMemory | Action::Reflect => s.step == 1,
        Action::TrainedEye => s.step == 1 && !ctx.is_expert,
        Action::ByregotsBlessing => if strict {
            b.inner_quiet > 1
        } else {
            b.inner_quiet > 0
        },
        Action::TrainedFinesse => b.inner_quiet == 10,
        Action::TrainedPerfection => s.trained_perfection == TrainedPerfection::Unused,
        Action::PrudentSynthesis | Action::PrudentTouch => no_waste_not,
        Action::WasteNot | Action::WasteNotII => !strict || no_waste_not,
        Action::Observe => s.previous_combo_action != Some(Action::Observe) && (!strict || s.cp
            >= 25),
        Action::Groundwork | Action::GroundworkTraited => s.durability >= spec_durability_cost(
            s,
            20,
        ),
        Action::RefinedTouch => s.previous_combo_action == Some(Action::BasicTouch),
        Action::Manipulation => ctx.use_manipulation && (!strict || b.manipulation == 0),
        Action::QuickInnovation => ctx.use_delineation && s.quick_innovation_available
            && b.innovation == 0,
        Action::MastersMend => !strict || ctx.durability_max - s.durability >= 25,
        Action::GreatStrides => !strict || b.great_strides == 0,
        Action::Veneration | Action::Innovation => !strict || (b.veneration <= 1 && b.innovation
            <= 1),
        Action::ImmaculateMend => !strict || (ctx.durability_max - s.durability > 45
            && b.manipulation == 0),
        _ => true,
    }
}

/// Whether `action` of the pool may be played in the non-terminal state `s`.
pub open spec fn spec_allows(ctx: CraftContext, s: CraftState, action: Action, strict: bool) -> bool {
    let attrs = action.spec_attributes();
    &&& match attrs.cp_cost {
        Some(c) => spec_cp_cost(s, action, c) <= s.cp,
        None => true,
    }
    &&& !(s.quality >= ctx.quality_target && attrs.quality_efficiency is Some)
    &&& (strict ==> spec_strict_allows(ctx, s, action))
    &&& spec_action_allows(ctx, s, action, strict)
}

/// The legal moves of `s`: none in a terminal state, else the actions of the
/// pool that the rules allow.
#[verifier::opaque]
pub open spec fn spec_legal_moves(ctx: CraftContext, s: CraftState, strict: bool) -> Set<Action> {
    if spec_is_terminal(ctx, s) {
        Set::empty()
    } else {
        ctx.action_pool@.filter(|a: Action| spec_allows(ctx, s, a, strict))
    }
}

/// `weight × min(1, value / target)`, floored; a zero target counts as met.
pub open spec fn spec_fraction(weight: nat, value: nat, target: nat) -> nat {
    if target == 0 {
        weight
    } else if value >= target {
        weight
    } else {
        weight * value / target
    }
}

/// `weight × (1 − step / step_max)`, floored; nothing when no step is allowed.
pub open spec fn spec_steps_left(weight: nat, step: nat, step_max: nat) -> nat {
    if step_max == 0 {
        0
    } else if step >= step_max {
        0
    } else {
        weight * (step_max - step) as nat / step_max
    }
}

pub open spec fn nonneg(v: int) -> nat {
    if v > 0 {
        v as nat
    } else {
        0
    }
}

/// The reward of a completed craft in millionths, from 0 to `SCORE_SCALE`:
/// 20% progress, 65% quality, 5% durability, 5% CP and 5% fewer steps, each
/// capped at its target; with no quality target, the step term alone.
pub open spec fn spec_score(ctx: CraftContext, s: CraftState) -> nat {
    if ctx.quality_target == 0 {
        spec_steps_left(SCORE_SCALE as nat, s.step as nat, ctx.step_max as nat)
    } else {
        spec_fraction(200_000, s.progress as nat, ctx.progress_target as nat) + spec_fraction(
            650_000,
            s.quality as nat,
            ctx.quality_target as nat,
        ) + spec_fraction(50_000, nonneg(s.durability as int), nonneg(ctx.durability_max as int))
            + spec_fraction(50_000, s.cp as nat, ctx.cp_max as nat) + spec_steps_left(
            50_000,
            s.step as nat,
            ctx.step_max as nat,
        )
    }
}

/// How the craft stands: finished (with its score), failed, or going on.
pub open spec fn spec_check_result(ctx: CraftContext, s: CraftState) -> Option<CraftResult> {
    if s.progress >= ctx.progress_target {
        Some(CraftResult::Finished(spec_score(ctx, s) as u32))
    } else if s.durability <= 0 {
        Some(CraftResult::DurabilityFailure)
    } else if s.step >= ctx.step_max {
        Some(CraftResult::MaxStepsFailure)
    } else if s.available_moves@ == Set::<Action>::empty() {
        Some(CraftResult::InvalidActionFailure)
    } else {
        None
    }
}

/// The same state with other search statistics.
pub open spec fn spec_with_stats(s: CraftState, score_sum: u64, max_score: u32, visits: u64) -> CraftState {
    CraftState { score_sum, max_score, visits, ..s }
}

impl CraftState {
    /// What holds of every state that the simulator produces: resources
    /// within their maxima, Inner Quiet at most 10, and only legal moves
    /// offered (none once the craft has ended).
    pub open spec fn valid(self, ctx: CraftContext) -> bool {
        &&& self.durability <= ctx.durability_max
        &&& self.cp <= ctx.cp_max
        &&& self.buffs.inner_quiet <= 10
        &&& self.available_moves@.subset_of(spec_legal_moves(ctx, self, false))
    }
}

pub open spec fn trunc_half(b: int) -> int {
    if b >= 0 {
        b / 2
    } else {
        -((-b) / 2)
    }
}

impl Action {
    /// Progress that an action of efficiency `efficiency` adds in `state`.
    pub fn calc_progress_increase(ctx: &CraftContext, state: &CraftState, efficiency: u32) -> (r: u128)
        ensures
            r == spec_progress_increase(*ctx, *state, efficiency),
            r <= 0xffff_ffff * 0xffff_ffff * 5,
    {
        let mut m: u128 = 2;
        if state.buffs.veneration > 0 {
            m = m + 1;
        }
        if state.buffs.muscle_memory > 0 {
            m = m + 2;
        }
        let base = ctx.base_progress_factor as u128;
        let e = efficiency as u128;
        assert(base * e <= 0xffff_ffff * 0xffff_ffff) by (nonlinear_arith)
            requires
                base <= 0xffff_ffff,
                e <= 0xffff_ffff,
        ;
        assert(base * e * m <= 0xffff_ffff * 0xffff_ffff * 5) by (nonlinear_arith)
            requires
                base <= 0xffff_ffff,
                e <= 0xffff_ffff,
                m <= 5,
        ;
        assert(m == 2 + flag(state.buffs.veneration > 0) + 2 * flag(state.buffs.muscle_memory > 0));
        (base * e * m) / 200
    }

    /// Quality that `action` of efficiency `efficiency` adds in `state`.
    pub fn calc_quality_increase(ctx: &CraftContext, state: &CraftState, action: Action, efficiency: u32) -> (r: u128)
        ensures
            r == spec_quality_increase(*ctx, *state, action, efficiency),
            r <= 0xffff_ffff * 0xffff_ffff * 265 * 5,
    {
        if action == Action::TrainedEye {
            return if state.quality < ctx.quality_target {
                (ctx.quality_target - state.quality) as u128
            } else {
                0
            };
        }
        let iq = state.buffs.inner_quiet as u128;
        let e: u128 = if action == Action::ByregotsBlessing {
            100 + 20 * iq
        } else {
            efficiency as u128
        };
        let mut m: u128 = 2;
        if state.buffs.innovation > 0 {
            m = m + 1;
        }
        if state.buffs.great_strides > 0 {
            m = m + 2;
        }
        let base = ctx.base_quality_factor as u128;
        assert(base * e <= 0xffff_ffff * 0xffff_ffff) by (nonlinear_arith)
            requires
                base <= 0xffff_ffff,
                e <= 0xffff_ffff,
        ;
        assert(base * e * (10 + iq) <= 0xffff_ffff * 0xffff_ffff * 265) by (nonlinear_arith)
            requires
                base <= 0xffff_ffff,
                e <= 0xffff_ffff,
                iq <= 255,
        ;
        assert(base * e * (10 + iq) * m <= 0xffff_ffff * 0xffff_ffff * 265 * 5) by (nonlinear_arith)
            requires
                base <= 0xffff_ffff,
                e <= 0xffff_ffff,
                iq <= 255,
                m <= 5,
        ;
        assert(m == 2 + flag(state.buffs.innovation > 0) + 2 * flag(state.buffs.great_strides > 0));
        (base * e * (10 + iq) * m) / 2000
    }

    /// Durability that an action of base cost `base_cost` takes in `state`.
    pub fn calc_durability_cost(state: &CraftState, base_cost: i8) -> (r: i8)
        ensures
            r == (if state.trained_perfection == TrainedPerfection::Active {
                0
            } else if state.buffs.waste_not > 0 || state.buffs.waste_not_ii > 0 {
                trunc_half(base_cost as int)
            } else {
                base_cost as int
            }),
    {
        if state.trained_perfection == TrainedPerfection::Active {
            return 0;
        }
        if state.buffs.waste_not > 0 || state.buffs.waste_not_ii > 0 {
            let b = base_cost as i16;
            return if b >= 0 {
                (b / 2) as i8
            } else {
                (-((-b) / 2)) as i8
            };
        }
        base_cost
    }

    /// CP that `action` of base cost `base_cost` takes in `state`.
    pub fn calc_cp_cost(state: &CraftState, action: Action, base_cost: u32) -> (r: u32)
        ensures
            r == spec_cp_cost(*state, action, base_cost),
    {
        match (state.previous_combo_action, action) {
            (Some(Action::BasicTouch), Action::StandardTouch)
            | (Some(Action::StandardTouch), Action::AdvancedTouch)
            | (Some(Action::Observe), Action::AdvancedTouch) => 18,
            _ => base_cost,
        }
    }
}

impl CraftState {
    fn strict_allows(&self, ctx: &CraftContext, action: Action) -> (r: bool)
        ensures
            r == spec_strict_allows(*ctx, *self, action),
    {
        let attrs = action.attributes();
        if self.step == 1 && ctx.quality_target > 0 && !ctx.is_expert && ctx.action_pool.contains(
            Action::TrainedEye,
        ) {
            return action == Action::TrainedEye;
        }
        if self.previous_combo_action == Some(Action::Observe) && action != Action::AdvancedTouch {
            return false;
        }
        if ctx.player_job_level == ctx.recipe_job_level && self.buffs.muscle_memory > 0
            && attrs.quality_efficiency.is_some() {
            return false;
        }
        if self.buffs.veneration > 0 && attrs.progress_efficiency.is_none()
            && attrs.quality_efficiency.is_some() {
            return false;
        }
        match attrs.progress_efficiency {
            Some(e) => {
                let increase = Action::calc_progress_increase(ctx, self, e);
                if self.progress as u128 + increase >= ctx.progress_target as u128 {
                    self.quality >= ctx.quality_target / 5
                } else {
                    !(self.buffs.innovation > 0 && attrs.quality_efficiency.is_none())
                }
            },
            None => true,
        }
    }

    fn action_allows(&self, ctx: &CraftContext, action: Action, strict: bool) -> (r: bool)
        ensures
            r == spec_action_allows(*ctx, *self, action, strict),
    {
        let b = self.buffs;
        let no_waste_not = b.waste_not == 0 && b.waste_not_ii == 0;
        let missing = ctx.durability_max as i16 - self.durability as i16;
        match action {
            Action::MuscleMemory | Action::Reflect => self.step == 1,
            Action::TrainedEye => self.step == 1 && !ctx.is_expert,
            Action::ByregotsBlessing => if strict {
                b.inner_quiet > 1
            } else {
                b.inner_quiet > 0
            },
            Action::TrainedFinesse => b.inner_quiet == 10,
            Action::TrainedPerfection => self.trained_perfection == TrainedPerfection::Unused,
            Action::PrudentSynthesis | Action::PrudentTouch => no_waste_not,
            Action::WasteNot | Action::WasteNotII => !strict || no_waste_not,
            Action::Observe => self.previous_combo_action != Some(Action::Observe) && (!strict
                || self.cp >= 25),
            Action::Groundwork | Action::GroundworkTraited => self.durability
                >= Action::calc_durability_cost(self, 20),
            Action::RefinedTouch => self.previous_combo_action == Some(Action::BasicTouch),
            Action::Manipulation => ctx.use_manipulation && (!strict || b.manipulation == 0),
            Action::QuickInnovation => ctx.use_delineation && self.quick_innovation_available
            && b.innovation == 0,
            Action::MastersMend => !strict || missing >= 25,
            Action::GreatStrides => !strict || b.great_strides == 0,
            Action::Veneration | Action::Innovation => !strict || (b.veneration <= 1
                && b.innovation <= 1),
            Action::ImmaculateMend => !strict || (missing > 45 && b.manipulation == 0),
            _ => true,
        }
    }

    /// Whether `action` passes the pruning rules in this state.
    pub fn is_allowed(&self, ctx: &CraftContext, action: Action, strict: bool) -> (r: bool)
        ensures
            r == spec_allows(*ctx, *self, action, strict),
    {
        let attrs = action.attributes();
        let cp_ok = match attrs.cp_cost {
            Some(c) => Action::calc_cp_cost(self, action, c) <= self.cp,
            None => true,
        };
        if !cp_ok {
            return false;
        }
        if self.quality >= ctx.quality_target && attrs.quality_efficiency.is_some() {
            return false;
        }
        if strict && !self.strict_allows(ctx, action) {
            return false;
        }
        self.action_allows(ctx, action, strict)
    }

    /// Whether the craft has ended.
    pub fn is_terminal(&self, ctx: &CraftContext) -> (r: bool)
        ensures
            r == spec_is_terminal(*ctx, *self),
    {
        self.progress >= ctx.progress_target || self.step >= ctx.step_max || self.durability <= 0
    }

    /// The legal moves of this state, strictly pruned or not.
    pub fn legal_moves(&self, ctx: &CraftContext, strict: bool) -> (r: ActionSet)
        ensures
            r@ == spec_legal_moves(*ctx, *self, strict),
    {
        if self.is_terminal(ctx) {
            proof {
                reveal(spec_legal_moves);
            }
            return ActionSet::new();
        }
        let mut moves = ctx.action_pool;
        let state = self;
        let allowed = (|action: Action| -> (r: bool)
            ensures
                r == spec_allows(*ctx, *state, action, strict),
            { state.is_allowed(ctx, action, strict) });
        moves.keep(allowed);
        proof {
            reveal(spec_legal_moves);
            assert(moves@ =~= spec_legal_moves(*ctx, *self, strict));
        }
        moves
    }

    /// Examines the state and fills `available_moves`. Enabling `strict`
    /// adds rules that prune as many suboptimal moves as possible.
    pub fn set_available_moves(&mut self, ctx: &CraftContext, strict: bool)
        ensures
            final(self).available_moves@ == spec_legal_moves(*ctx, *old(self), strict),
            *final(self) == (CraftState { available_moves: final(self).available_moves, ..*old(self) }),
    {
        let moves = self.legal_moves(ctx, strict);
        self.available_moves = moves;
    }
}

impl CraftState {
    fn apply_effect(&mut self, ctx: &CraftContext, action: Action)
        ensures
            *final(self) == spec_apply_effect(*ctx, *old(self), action),
    {
        match action {
            Action::MastersMend => {
                let restored = self.durability as i16 + 30;
                self.durability = if restored < ctx.durability_max as i16 {
                    restored as i8
                } else {
                    ctx.durability_max
                };
            },
            Action::WasteNot => {
                self.buffs.waste_not = 4;
                self.buffs.waste_not_ii = 0;
            },
            Action::Veneration => {
                self.buffs.veneration = 4;
            },
            Action::GreatStrides => {
                self.buffs.great_strides = 3;
            },
            Action::Innovation => {
                self.buffs.innovation = 4;
            },
            Action::WasteNotII => {
                self.buffs.waste_not = 0;
                self.buffs.waste_not_ii = 8;
            },
            Action::MuscleMemory => {
                self.buffs.muscle_memory = 5;
            },
            Action::Manipulation => {
                self.buffs.manipulation = 8;
            },
            Action::QuickInnovation => {
                self.buffs.innovation = 1;
                self.quick_innovation_available = false;
            },
            Action::ImmaculateMend => {
                self.durability = ctx.durability_max;
            },
            Action::TrainedPerfection => {
                self.trained_perfection = TrainedPerfection::Active;
            },
            _ => {},
        }
    }

    fn gain(&self, ctx: &CraftContext, action: Action) -> (r: CraftState)
        requires
            action != Action::QuickInnovation ==> self.step < 255,
        ensures
            r == spec_gain(*ctx, *self, action),
    {
        let attrs = action.attributes();
        let mut state = *self;
        if action != Action::QuickInnovation {
            state.step = self.step + 1;
        }
        state.action = Some(action);
        state.score_sum = 0;
        state.max_score = 0;
        state.visits = 0;
        if let Some(e) = attrs.progress_efficiency {
            let total = state.progress as u128 + Action::calc_progress_increase(ctx, &state, e);
            state.progress = if total > u32::MAX as u128 {
                u32::MAX
            } else {
                total as u32
            };
            state.buffs.muscle_memory = 0;
        }
        if let Some(e) = attrs.quality_efficiency {
            let total = state.quality as u128 + Action::calc_quality_increase(ctx, &state, action, e);
            let iq = state.buffs.inner_quiet;
            let gain: u8 = if action == Action::Reflect || action == Action::PreparatoryTouch || (
            state.previous_combo_action == Some(Action::BasicTouch) && action
                == Action::RefinedTouch) {
                2
            } else {
                1
            };
            state.quality = if total > u32::MAX as u128 {
                u32::MAX
            } else {
                total as u32
            };
            if ctx.player_job_level >= 11 {
                state.buffs.inner_quiet = if action == Action::ByregotsBlessing {
                    0
                } else if iq as u16 + gain as u16 > 10 {
                    10
                } else {
                    iq + gain
                };
            }
            state.buffs.great_strides = 0;
        }
        state
    }

    fn pay(&mut self, ctx: &CraftContext, action: Action)
        requires
            old(self).durability > 0,
            match action.spec_attributes().cp_cost {
                Some(c) => spec_cp_cost(*old(self), action, c) <= old(self).cp,
                None => true,
            },
        ensures
            *final(self) == spec_costs(*ctx, *old(self), action),
    {
        let attrs = action.attributes();
        if let Some(c) = attrs.durability_cost {
            let cost = Action::calc_durability_cost(self, c);
            if c > 0 && self.trained_perfection == TrainedPerfection::Active {
                self.trained_perfection = TrainedPerfection::Used;
            }
            self.durability = self.durability - cost;
        }
        if self.buffs.manipulation > 0 && self.durability > 0 {
            let restored = self.durability as i16 + 5;
            self.durability = if restored < ctx.durability_max as i16 {
                restored as i8
            } else {
                ctx.durability_max
            };
        }
        if let Some(c) = attrs.cp_cost {
            self.cp = self.cp - Action::calc_cp_cost(self, action, c);
        }
        self.previous_combo_action = match (self.previous_combo_action, action) {
            (Some(Action::BasicTouch), Action::StandardTouch) => Some(action),
            (Some(Action::BasicTouch), Action::RefinedTouch) => Some(action),
            (_, Action::BasicTouch) => Some(action),
            (_, Action::Observe) => Some(action),
            _ => None,
        };
        if action != Action::QuickInnovation {
            self.buffs.decrement_timers();
        }
        self.apply_effect(ctx, action);
    }

    fn transition(&self, ctx: &CraftContext, action: Action) -> (r: CraftState)
        requires
            self.valid(*ctx),
            spec_legal_moves(*ctx, *self, false).contains(action),
        ensures
            r == spec_transition(*ctx, *self, action),
            r.durability <= ctx.durability_max,
            r.cp <= ctx.cp_max,
            r.buffs.inner_quiet <= 10,
    {
        proof {
            reveal(spec_legal_moves);
        }
        let mut state = self.gain(ctx, action);
        state.pay(ctx, action);
        state
    }

    /// Executes the action and returns the next state with all game-legal
    /// moves available.
    pub fn execute(&self, ctx: &CraftContext, action: Action) -> (r: CraftState)
        requires
            self.valid(*ctx),
            spec_legal_moves(*ctx, *self, false).contains(action),
        ensures
            r == (CraftState { available_moves: r.available_moves, ..spec_transition(*ctx, *self, action) }),
            r.available_moves@ == spec_legal_moves(*ctx, r, false),
            r.valid(*ctx),
    {
        let next = self.transition(ctx, action);
        let mut state = next;
        state.set_available_moves(ctx, false);
        proof {
            lemma_legal_moves_ignore_offer(*ctx, next, state.available_moves, false);
        }
        state
    }

    /// Executes the action and returns the next state with a strict, pruned
    /// moveset.
    pub fn execute_strict(&self, ctx: &CraftContext, action: Action) -> (r: CraftState)
        requires
            self.valid(*ctx),
            spec_legal_moves(*ctx, *self, false).contains(action),
        ensures
            r == (CraftState { available_moves: r.available_moves, ..spec_transition(*ctx, *self, action) }),
            r.available_moves@ == spec_legal_moves(*ctx, r, true),
            r.valid(*ctx),
    {
        let next = self.transition(ctx, action);
        let mut state = next;
        state.set_available_moves(ctx, true);
        proof {
            lemma_strict_moves_subset(*ctx, next);
            lemma_legal_moves_ignore_offer(*ctx, next, state.available_moves, true);
            lemma_legal_moves_ignore_offer(*ctx, next, state.available_moves, false);
        }
        state
    }
}

/// Strict pruning only removes moves: every strictly legal move is legal.
pub proof fn lemma_strict_moves_subset(ctx: CraftContext, s: CraftState)
    ensures
        spec_legal_moves(ctx, s, true).subset_of(spec_legal_moves(ctx, s, false)),
{
    reveal(spec_legal_moves);
}

/// The legal moves of a state do not depend on the moves it offers.
pub proof fn lemma_legal_moves_ignore_offer(ctx: CraftContext, s: CraftState, offer: ActionSet, strict: bool)
    ensures
        spec_legal_moves(ctx, CraftState { available_moves: offer, ..s }, strict)
            == spec_legal_moves(ctx, s, strict),
{
    reveal(spec_legal_moves);
    assert(spec_legal_moves(ctx, CraftState { available_moves: offer, ..s }, strict)
        =~= spec_legal_moves(ctx, s, strict));
}

/// A fraction of `weight` never exceeds `weight`, and grows with `value`.
proof fn lemma_fraction_monotone(weight: nat, v1: nat, v2: nat, target: nat)
    requires
        v1 <= v2,
    ensures
        spec_fraction(weight, v1, target) <= spec_fraction(weight, v2, target),
        spec_fraction(weight, v2, target) <= weight,
{
    if target > 0 {
        if v2 < target {
            lemma_mul_inequality(v2 as int, target as int, weight as int);
            lemma_div_is_ordered((v2 * weight) as int, (target * weight) as int, target as int);
            lemma_div_by_multiple(weight as int, target as int);
            assert(v2 * weight == weight * v2) by (nonlinear_arith);
            assert(target * weight == weight * target) by (nonlinear_arith);
            lemma_mul_inequality(v1 as int, v2 as int, weight as int);
            lemma_div_is_ordered((v1 * weight) as int, (v2 * weight) as int, target as int);
            assert(v1 * weight == weight * v1) by (nonlinear_arith);
        } else if v1 < target {
            lemma_mul_inequality(v1 as int, target as int, weight as int);
            lemma_div_is_ordered((v1 * weight) as int, (target * weight) as int, target as int);
            lemma_div_by_multiple(weight as int, target as int);
            assert(v1 * weight == weight * v1) by (nonlinear_arith);
            assert(target * weight == weight * target) by (nonlinear_arith);
        }
    }
}

proof fn lemma_steps_left_bound(weight: nat, step: nat, step_max: nat)
    ensures
        spec_steps_left(weight, step, step_max) <= weight,
{
    if step_max > 0 && step < step_max {
        let left = (step_max - step) as nat;
        lemma_mul_inequality(left as int, step_max as int, weight as int);
        lemma_div_is_ordered((left * weight) as int, (step_max * weight) as int, step_max as int);
        lemma_div_by_multiple(weight as int, step_max as int);
        assert(left * weight == weight * left) by (nonlinear_arith);
        assert(step_max * weight == weight * step_max) by (nonlinear_arith);
    }
}

/// Scores lie between 0 and `SCORE_SCALE`.
pub proof fn lemma_score_bounded(ctx: CraftContext, s: CraftState)
    ensures
        spec_score(ctx, s) <= SCORE_SCALE,
{
    lemma_steps_left_bound(SCORE_SCALE as nat, s.step as nat, ctx.step_max as nat);
    lemma_steps_left_bound(50_000, s.step as nat, ctx.step_max as nat);
    lemma_fraction_monotone(200_000, s.progress as nat, s.progress as nat, ctx.progress_target as nat);
    lemma_fraction_monotone(650_000, s.quality as nat, s.quality as nat, ctx.quality_target as nat);
    lemma_fraction_monotone(
        50_000,
        nonneg(s.durability as int),
        nonneg(s.durability as int),
        nonneg(ctx.durability_max as int),
    );
    lemma_fraction_monotone(50_000, s.cp as nat, s.cp as nat, ctx.cp_max as nat);
}

/// For a completed craft, more quality never lowers the score when
/// everything else stays the same.
pub proof fn lemma_score_monotone_in_quality(ctx: CraftContext, s: CraftState, more_quality: u32)
    requires
        s.progress >= ctx.progress_target,
        s.quality <= more_quality,
    ensures
        spec_score(ctx, s) <= spec_score(ctx, CraftState { quality: more_quality, ..s }),
{
    lemma_fraction_monotone(650_000, s.quality as nat, more_quality as nat, ctx.quality_target as nat);
}

/// The outcome of a state depends on its game fields alone, not on its search
/// statistics, so asking again, or asking after a visit, gives the same answer.
pub proof fn lemma_check_result_ignores_stats(
    ctx: CraftContext,
    s: CraftState,
    score_sum: u64,
    max_score: u32,
    visits: u64,
)
    ensures
        spec_check_result(ctx, spec_with_stats(s, score_sum, max_score, visits))
            == spec_check_result(ctx, s),
{
}

/// A transition is a function of the game fields and the action: states that
/// differ only in their search statistics lead to the same successor, whose
/// statistics start at zero.
pub proof fn lemma_transition_ignores_stats(
    ctx: CraftContext,
    s: CraftState,
    action: Action,
    score_sum: u64,
    max_score: u32,
    visits: u64,
)
    ensures
        spec_transition(ctx, spec_with_stats(s, score_sum, max_score, visits), action)
            == spec_transition(ctx, s, action),
        spec_transition(ctx, s, action).score_sum == 0,
        spec_transition(ctx, s, action).max_score == 0,
        spec_transition(ctx, s, action).visits == 0,
{
}

/// A transition records the action that led to it.
pub proof fn lemma_transition_records_action(ctx: CraftContext, s: CraftState, action: Action)
    ensures
        spec_transition(ctx, s, action).action == Some(action),
{
}

/// Every state that the simulator produces and that has not ended keeps its
/// resources in range: progress below target, durability positive and at
/// most its maximum, CP at most its maximum, steps below the limit, Inner
/// Quiet at most 10, and only actions of the pool on offer.
pub proof fn lemma_valid_state_bounds(ctx: CraftContext, s: CraftState)
    requires
        s.valid(ctx),
        !spec_is_terminal(ctx, s),
    ensures
        s.progress < ctx.progress_target,
        0 < s.durability <= ctx.durability_max,
        s.cp <= ctx.cp_max,
        s.step < ctx.step_max,
        s.buffs.inner_quiet <= 10,
        s.available_moves@.subset_of(ctx.action_pool@),
{
    reveal(spec_legal_moves);
}

/// A state that has ended offers no move.
pub proof fn lemma_terminal_offers_nothing(ctx: CraftContext, s: CraftState)
    requires
        s.valid(ctx),
        spec_is_terminal(ctx, s),
    ensures
        s.available_moves@ == Set::<Action>::empty(),
{
    reveal(spec_legal_moves);
    assert(s.available_moves@ =~= Set::<Action>::empty());
}

/// Whether `s` is the state in which a craft of `ctx` starts.
pub open spec fn spec_is_initial(ctx: CraftContext, s: CraftState) -> bool {
    &&& s.step == 1
    &&& s.progress == 0
    &&& s.quality == ctx.starting_quality
    &&& s.durability == ctx.durability_max
    &&& s.cp == ctx.cp_max
    &&& s.previous_combo_action is None
    &&& s.quick_innovation_available
    &&& s.trained_perfection == TrainedPerfection::Unused
    &&& s.buffs == Buffs {
        inner_quiet: 0,
        waste_not: 0,
        waste_not_ii: 0,
        manipulation: 0,
        great_strides: 0,
        innovation: 0,
        veneration: 0,
        muscle_memory: 0,
    }
    &&& s.action is None
    &&& s.score_sum == 0
    &&& s.max_score == 0
    &&& s.visits == 0
}

impl CraftState {
    fn initial(ctx: &CraftContext) -> (r: CraftState)
        ensures
            spec_is_initial(*ctx, r),
    {
        CraftState {
            step: 1,
            progress: 0,
            quality: ctx.starting_quality,
            durability: ctx.durability_max,
            cp: ctx.cp_max,
            previous_combo_action: None,
            quick_innovation_available: true,
            trained_perfection: TrainedPerfection::Unused,
            buffs: Buffs::new(),
            action: None,
            score_sum: 0,
            max_score: 0,
            visits: 0,
            available_moves: ActionSet::new(),
        }
    }

    /// The starting state of a craft, with all game-legal moves available.
    pub fn new(ctx: &CraftContext) -> (r: CraftState)
        ensures
            spec_is_initial(*ctx, r),
            r.available_moves@ == spec_legal_moves(*ctx, r, false),
            r.valid(*ctx),
    {
        let start = Self::initial(ctx);
        let mut state = start;
        state.set_available_moves(ctx, false);
        proof {
            lemma_legal_moves_ignore_offer(*ctx, start, state.available_moves, false);
        }
        state
    }

    /// The starting state of a craft, with a strict, pruned moveset.
    pub fn new_strict(ctx: &CraftContext) -> (r: CraftState)
        ensures
            spec_is_initial(*ctx, r),
            r.available_moves@ == spec_legal_moves(*ctx, r, true),
            r.valid(*ctx),
    {
        let start = Self::initial(ctx);
        let mut state = start;
        state.set_available_moves(ctx, true);
        proof {
            lemma_strict_moves_subset(*ctx, start);
            lemma_legal_moves_ignore_offer(*ctx, start, state.available_moves, true);
            lemma_legal_moves_ignore_offer(*ctx, start, state.available_moves, false);
        }
        state
    }

    /// A copy of this state whose moves are strictly pruned.
    pub fn clone_strict(&self, ctx: &CraftContext) -> (r: CraftState)
        requires
            self.valid(*ctx),
        ensures
            r == (CraftState { available_moves: r.available_moves, ..*self }),
            r.available_moves@ == spec_legal_moves(*ctx, r, true),
            r.valid(*ctx),
    {
        let mut state = *self;
        state.set_available_moves(ctx, true);
        proof {
            lemma_strict_moves_subset(*ctx, *self);
            lemma_legal_moves_ignore_offer(*ctx, *self, state.available_moves, true);
            lemma_legal_moves_ignore_offer(*ctx, *self, state.available_moves, false);
        }
        state
    }

    /// An evaluation of the craft, from 0 to `SCORE_SCALE` (millionths).
    pub fn score(&self, ctx: &CraftContext) -> (r: u32)
        ensures
            r == spec_score(*ctx, *self),
            r <= SCORE_SCALE,
    {
        proof {
            lemma_score_bounded(*ctx, *self);
        }
        if ctx.quality_target == 0 {
            return self.score_no_quality(ctx);
        }
        let durability: u64 = if self.durability > 0 {
            self.durability as u64
        } else {
            0
        };
        let durability_max: u64 = if ctx.durability_max > 0 {
            ctx.durability_max as u64
        } else {
            0
        };
        let total = fraction(200_000, self.progress as u64, ctx.progress_target as u64) + fraction(
            650_000,
            self.quality as u64,
            ctx.quality_target as u64,
        ) + fraction(50_000, durability, durability_max) + fraction(
            50_000,
            self.cp as u64,
            ctx.cp_max as u64,
        ) + steps_left(50_000, self.step as u64, ctx.step_max as u64);
        total as u32
    }

    /// Evaluates the craft by its step count alone, for crafts where quality
    /// does not matter. From 0 to `SCORE_SCALE`.
    pub fn score_no_quality(&self, ctx: &CraftContext) -> (r: u32)
        ensures
            r == spec_steps_left(SCORE_SCALE as nat, self.step as nat, ctx.step_max as nat),
    {
        proof {
            lemma_steps_left_bound(SCORE_SCALE as nat, self.step as nat, ctx.step_max as nat);
        }
        steps_left(SCORE_SCALE as u64, self.step as u64, ctx.step_max as u64) as u32
    }

    /// How the craft stands: `None` while it goes on.
    pub fn check_result(&self, ctx: &CraftContext) -> (r: Option<CraftResult>)
        ensures
            r == spec_check_result(*ctx, *self),
    {
        if self.progress >= ctx.progress_target {
            Some(CraftResult::Finished(self.score(ctx)))
        } else if self.durability <= 0 {
            Some(CraftResult::DurabilityFailure)
        } else if self.step >= ctx.step_max {
            Some(CraftResult::MaxStepsFailure)
        } else if self.available_moves.is_empty() {
            Some(CraftResult::InvalidActionFailure)
        } else {
            None
        }
    }
}

fn fraction(weight: u64, value: u64, target: u64) -> (r: u64)
    requires
        weight <= 1_000_000,
        value <= u32::MAX,
        target <= u32::MAX,
    ensures
        r == spec_fraction(weight as nat, value as nat, target as nat),
        r <= weight,
{
    proof {
        lemma_fraction_monotone(weight as nat, value as nat, value as nat, target as nat);
    }
    if target == 0 || value >= target {
        weight
    } else {
        assert(weight * value <= 1_000_000 * 0xffff_ffff) by (nonlinear_arith)
            requires
                weight <= 1_000_000,
                value <= 0xffff_ffff,
        ;
        weight * value / target
    }
}

fn steps_left(weight: u64, step: u64, step_max: u64) -> (r: u64)
    requires
        weight <= 1_000_000,
        step_max <= u32::MAX,
    ensures
        r == spec_steps_left(weight as nat, step as nat, step_max as nat),
        r <= weight,
{
    proof {
        lemma_steps_left_bound(weight as nat, step as nat, step_max as nat);
    }
    if step_max == 0 || step >= step_max {
        0
    } else {
        assert(weight * (step_max - step) <= 1_000_000 * 0xffff_ffff) by (nonlinear_arith)
            requires
                weight <= 1_000_000,
                step_max - step <= 0xffff_ffff,
        ;
        weight * (step_max - step) / step_max
    }
}

} // verus!
