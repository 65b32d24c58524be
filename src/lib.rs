//! Crafting-rotation search: a deterministic craft simulator, a legal-move
//! pruner and a Monte Carlo tree search over the simulator.
//!
//! Scores are fixed-point integers in millionths: `SCORE_SCALE` stands for a
//! score of 1.0.

mod action;
mod action_set;
pub mod backtracker;
mod craft_context;
mod craft_state;
mod player;
mod rng;
mod simulator;
mod tree;
mod validators;

pub use action::{lemma_index_bijection, Action, Attributes, ACTION_COUNT};
pub use action_set::{bit_set, ActionSet};
pub use backtracker::{spec_path, Backtracker};
pub use craft_context::{
    spec_action_pool, spec_base_factor, spec_unlocked, CraftContext, CraftOptions,
};
pub use craft_state::{
    lemma_check_result_ignores_stats, lemma_legal_moves_ignore_offer, lemma_score_bounded,
    lemma_score_monotone_in_quality, lemma_strict_moves_subset, lemma_terminal_offers_nothing,
    lemma_transition_ignores_stats, lemma_transition_records_action, lemma_valid_state_bounds,
    spec_action_allows, spec_allows, spec_apply_effect, spec_check_result, spec_costs,
    spec_cp_cost, spec_durability_cost, spec_fraction, spec_gain, spec_is_combo, spec_is_initial,
    spec_is_terminal, spec_legal_moves, spec_next_combo, spec_next_inner_quiet,
    spec_progress_increase, spec_quality_increase, spec_score, spec_steps_left,
    spec_strict_allows, spec_transition, spec_with_stats, Buffs, CraftResult, CraftState,
    TrainedPerfection, SCORE_SCALE,
};
pub use player::{Player, Recipe};
pub use simulator::{
    lemma_game_determines, lemma_game_legal, lemma_move_shortens, lemma_replays_append, lemma_replays_push,
    lemma_reaches_push, lemma_replay_length, lemma_replays_same_game, spec_answer_fits, spec_eval, spec_expanded, spec_exploitation, spec_exploration_square, spec_extends,
    spec_follows, spec_game, spec_initial_state, spec_is_isqrt, spec_isqrt, spec_ln_millionths, spec_log2,
    spec_moves_left, spec_on_path, spec_outcome, spec_reaches_strict, spec_replays, spec_resolve, spec_rolls_out, spec_run, spec_simulated, spec_visited, SearchOptions,
    Simulator, DEFAULT_EXPLORATION, DEFAULT_ITERATIONS, DEFAULT_MAX_SCORE_WEIGHTING,
};
pub use tree::{Arena, Node};
pub use validators::{is_between, RangeError};
