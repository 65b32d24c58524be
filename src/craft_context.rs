use crate::action::{lemma_index_bijection, Action, ACTION_COUNT};
use crate::action_set::ActionSet;
use crate::player::{Player, Recipe};
use vstd::prelude::*;

verus! {

/// Immutable configuration of one craft, shared by every state of it.
#[derive(Debug, Clone, Copy)]
pub struct CraftContext {
    pub player_job_level: u32,
    pub recipe_job_level: u32,
    /// Multiply by synthesis action efficiency for increase in progress
    pub base_progress_factor: u32,
    /// Multiply by touch action efficiency for increase in quality
    pub base_quality_factor: u32,
    pub step_max: u8,
    pub progress_target: u32,
    pub starting_quality: u32,
    pub quality_target: u32,
    pub durability_max: i8,
    pub cp_max: u32,
    pub is_expert: bool,
    pub action_pool: ActionSet,
    pub player_is_specialist: bool,
    pub use_manipulation: bool,
    pub use_delineation: bool,
}

/// Caller's choices for one craft.
#[derive(Debug, Clone, Copy, PartialEq, Eq, Structural)]
pub struct CraftOptions {
    pub max_steps: u8,
    pub starting_quality: Option<u32>,
    pub quality_target: Option<u32>,
    pub player_is_specialist: bool,
    pub use_manipulation: bool,
    pub use_delineation: bool,
}

impl Default for CraftOptions {
    fn default() -> (r: CraftOptions)
        ensures
            r == (CraftOptions {
                max_steps: 0,
                starting_quality: None,
                quality_target: None,
                player_is_specialist: false,
                use_manipulation: false,
                use_delineation: false,
            }),
    {
        CraftOptions {
            max_steps: 0,
            starting_quality: None,
            quality_target: None,
            player_is_specialist: false,
            use_manipulation: false,
            use_delineation: false,
        }
    }
}

/// `floor(stat × 10 / divisor + constant)`, then, when `scaled`, that factor
/// times `modifier / 100`, floored again; saturated at `u32::MAX`.
pub open spec fn spec_base_factor(stat: u32, divisor: u32, constant: u32, modifier: u32, scaled: bool) -> nat
    recommends
        divisor > 0,
{
    let unscaled = (10 * stat) / divisor as int + constant;
    let raw = if scaled {
        (unscaled * modifier) / 100
    } else {
        unscaled
    };
    if raw > u32::MAX {
        u32::MAX as nat
    } else {
        raw as nat
    }
}

/// Whether the player has unlocked `action` and could ever pay for it.
pub open spec fn spec_unlocked(player: Player, recipe: Recipe, action: Action) -> bool {
    let attrs = action.spec_attributes();
    &&& attrs.level <= player.job_level
    &&& match attrs.cp_cost {
        Some(c) => c <= player.cp,
        None => true,
    }
    &&& (action == Action::TrainedEye ==> player.job_level >= recipe.job_level + 10)
}

/// The actions available for the craft: the unlocked ones, without those
/// that an unlocked higher-level variant supersedes.
pub open spec fn spec_action_pool(player: Player, recipe: Recipe) -> Set<Action> {
    Set::new(
        |a: Action|
            spec_unlocked(player, recipe, a) && !(a.spec_traited() != a && spec_unlocked(
                player,
                recipe,
                a.spec_traited(),
            )),
    )
}

impl CraftContext {
    fn base_factor(stat: u32, divisor: u32, constant: u32, modifier: u32, scaled: bool) -> (r: u32)
        requires
            divisor > 0,
        ensures
            r == spec_base_factor(stat, divisor, constant, modifier, scaled),
    {
        let d: u128 = divisor as u128;
        let m: u128 = modifier as u128;
        let unscaled: u128 = (10 * (stat as u128)) / d + constant as u128;
        assert(unscaled * m <= 0x2_0000_0000_0000 * 0xffff_ffff) by (nonlinear_arith)
            requires
                unscaled <= 0x2_0000_0000_0000,
                m <= 0xffff_ffff,
        ;
        let raw: u128 = if scaled {
            (unscaled * m) / 100
        } else {
            unscaled
        };
        if raw > u32::MAX as u128 {
            u32::MAX
        } else {
            raw as u32
        }
    }

    /// The base progress and quality factors of a player on a recipe.
    fn base_factors(player: &Player, recipe: &Recipe) -> (r: (u32, u32))
        requires
            recipe.progress_div > 0,
            recipe.quality_div > 0,
        ensures
            r.0 == spec_base_factor(
                player.craftsmanship,
                recipe.progress_div,
                2,
                recipe.progress_mod,
                player.job_level <= recipe.job_level,
            ),
            r.1 == spec_base_factor(
                player.control,
                recipe.quality_div,
                35,
                recipe.quality_mod,
                player.job_level <= recipe.job_level,
            ),
    {
        let scaled = player.job_level <= recipe.job_level;
        let progress = Self::base_factor(player.craftsmanship, recipe.progress_div, 2, recipe.progress_mod, scaled);
        let quality = Self::base_factor(player.control, recipe.quality_div, 35, recipe.quality_mod, scaled);
        (progress, quality)
    }

    fn unlocked(player: &Player, recipe: &Recipe, action: Action) -> (r: bool)
        ensures
            r == spec_unlocked(*player, *recipe, action),
    {
        let attrs = action.attributes();
        let cp_ok = match attrs.cp_cost {
            Some(c) => c <= player.cp,
            None => true,
        };
        let eye_ok = match action {
            Action::TrainedEye => player.job_level as u64 >= recipe.job_level as u64 + 10,
            _ => true,
        };
        attrs.level <= player.job_level && cp_ok && eye_ok
    }

    fn determine_action_pool(player: &Player, recipe: &Recipe) -> (r: ActionSet)
        ensures
            r@ == spec_action_pool(*player, *recipe),
    {
        let mut pool = ActionSet::new();
        let mut index: usize = 0;
        while index < ACTION_COUNT
            invariant
                index <= ACTION_COUNT,
                forall|a: Action|
                    #[trigger] pool@.contains(a) <==> (a.spec_index() < index && spec_action_pool(*player, *recipe).contains(a)),
            decreases ACTION_COUNT - index,
        {
            proof {
                lemma_index_bijection();
            }
            let action = Action::from_index(index).unwrap();
            let traited = action.traited();
            let superseded = traited != action && Self::unlocked(player, recipe, traited);
            if Self::unlocked(player, recipe, action) && !superseded {
                pool.set(action);
            }
            index += 1;
        }
        proof {
            lemma_index_bijection();
            assert(pool@ =~= spec_action_pool(*player, *recipe));
        }
        pool
    }

    /// Builds the context of one craft of `recipe` by `player`.
    pub fn new(player: &Player, recipe: &Recipe, options: CraftOptions) -> (r: CraftContext)
        requires
            recipe.progress_div > 0,
            recipe.quality_div > 0,
        ensures
            r.player_job_level == player.job_level,
            r.recipe_job_level == recipe.job_level,
            r.base_progress_factor == spec_base_factor(
                player.craftsmanship,
                recipe.progress_div,
                2,
                recipe.progress_mod,
                player.job_level <= recipe.job_level,
            ),
            r.base_quality_factor == spec_base_factor(
                player.control,
                recipe.quality_div,
                35,
                recipe.quality_mod,
                player.job_level <= recipe.job_level,
            ),
            r.step_max == options.max_steps,
            r.progress_target == recipe.progress,
            r.starting_quality == match options.starting_quality {
                Some(q) => q,
                None => 0,
            },
            r.quality_target == match options.quality_target {
                Some(q) => q,
                None => recipe.quality,
            },
            r.durability_max == if recipe.durability > 127 {
                127
            } else {
                recipe.durability as i8
            },
            r.cp_max == player.cp,
            r.is_expert == recipe.is_expert,
            r.action_pool@ == spec_action_pool(*player, *recipe),
            r.player_is_specialist == options.player_is_specialist,
            r.use_manipulation == options.use_manipulation,
            r.use_delineation == options.use_delineation,
    {
        let (base_progress_factor, base_quality_factor) = Self::base_factors(player, recipe);
        let starting_quality = match options.starting_quality {
            Some(q) => q,
            None => 0,
        };
        let quality_target = match options.quality_target {
            Some(q) => q,
            None => recipe.quality,
        };
        let durability_max: i8 = if recipe.durability > 127 {
            127
        } else {
            recipe.durability as i8
        };
        CraftContext {
            player_job_level: player.job_level,
            recipe_job_level: recipe.job_level,
            base_progress_factor,
            base_quality_factor,
            step_max: options.max_steps,
            progress_target: recipe.progress,
            starting_quality,
            quality_target,
            durability_max,
            cp_max: player.cp,
            is_expert: recipe.is_expert,
            action_pool: Self::determine_action_pool(player, recipe),
            player_is_specialist: options.player_is_specialist,
            use_manipulation: options.use_manipulation,
            use_delineation: options.use_delineation,
        }
    }
}

} // verus!
