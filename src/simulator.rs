use crate::action::Action;
use crate::craft_context::CraftContext;
use crate::craft_state::{
    lemma_transition_ignores_stats, lemma_transition_records_action, spec_check_result, spec_is_terminal,
    spec_legal_moves, spec_score, spec_transition, Buffs, CraftResult, CraftState, TrainedPerfection,
    SCORE_SCALE,
};
use crate::rng::{entropy_seed, seeded};
use crate::tree::{Arena, Node};
use rand::rngs::SmallRng;
use vstd::arithmetic::power2::{lemma2_to64_rest, lemma_pow2_adds, lemma_pow2_unfold, pow2};
use vstd::prelude::*;

verus! {

/// The game fields of a state: its search statistics zeroed and its offered
/// moves replaced by the pool, so that two states with equal games are the
/// same point of the craft.
pub open spec fn spec_game(ctx: CraftContext, s: CraftState) -> CraftState {
    CraftState { available_moves: ctx.action_pool, score_sum: 0, max_score: 0, visits: 0, ..s }
}

/// The state in which every craft of `ctx` starts, up to its offered moves.
pub open spec fn spec_initial_state(ctx: CraftContext) -> CraftState {
    CraftState {
        step: 1,
        progress: 0,
        quality: ctx.starting_quality,
        durability: ctx.durability_max,
        cp: ctx.cp_max,
        previous_combo_action: None,
        quick_innovation_available: true,
        trained_perfection: TrainedPerfection::Unused,
        buffs: Buffs {
            inner_quiet: 0,
            waste_not: 0,
            waste_not_ii: 0,
            manipulation: 0,
            great_strides: 0,
            innovation: 0,
            veneration: 0,
            muscle_memory: 0,
        },
        action: None,
        score_sum: 0,
        max_score: 0,
        visits: 0,
        available_moves: ctx.action_pool,
    }
}

/// The action that a caller's `action` stands for in this craft: its
/// higher-level variant when that variant has replaced it in the pool.
pub open spec fn spec_resolve(ctx: CraftContext, action: Action) -> Action {
    if ctx.action_pool@.contains(action.spec_traited()) {
        action.spec_traited()
    } else {
        action
    }
}

/// `check_result` of a state that offers exactly its game-legal moves.
pub open spec fn spec_outcome(ctx: CraftContext, s: CraftState) -> Option<CraftResult> {
    if s.progress >= ctx.progress_target {
        Some(CraftResult::Finished(spec_score(ctx, s) as u32))
    } else if s.durability <= 0 {
        Some(CraftResult::DurabilityFailure)
    } else if s.step >= ctx.step_max {
        Some(CraftResult::MaxStepsFailure)
    } else if spec_legal_moves(ctx, s, false) == Set::<Action>::empty() {
        Some(CraftResult::InvalidActionFailure)
    } else {
        None
    }
}

/// Plays `actions` from `s` with game-legal moves: stops at the first state
/// that has ended, or with `InvalidActionFailure` at the first action that is
/// not legal there. Returns the last state (as a game) and how it stands.
pub open spec fn spec_run(ctx: CraftContext, s: CraftState, actions: Seq<Action>) -> (
    CraftState,
    Option<CraftResult>,
)
    decreases actions.len(),
{
    let g = spec_game(ctx, s);
    match spec_outcome(ctx, g) {
        Some(r) => (g, Some(r)),
        None => if actions.len() == 0 {
            (g, None)
        } else if !spec_legal_moves(ctx, g, false).contains(spec_resolve(ctx, actions[0])) {
            (g, Some(CraftResult::InvalidActionFailure))
        } else {
            spec_run(ctx, spec_transition(ctx, g, spec_resolve(ctx, actions[0])), actions.drop_first())
        },
    }
}

proof fn lemma_run_same_game(ctx: CraftContext, s1: CraftState, s2: CraftState, actions: Seq<Action>)
    requires
        spec_game(ctx, s1) == spec_game(ctx, s2),
    ensures
        spec_run(ctx, s1, actions) == spec_run(ctx, s2, actions),
{
}

/// Whether `s` is the state that `simulate` gives for `actions`: the state
/// that `spec_run` reaches, offering its game-legal moves, with no search
/// statistics.
pub open spec fn spec_simulated(ctx: CraftContext, actions: Seq<Action>, s: CraftState) -> bool {
    &&& spec_game(ctx, s) == spec_run(ctx, spec_initial_state(ctx), actions).0
    &&& s.available_moves@ == spec_legal_moves(ctx, s, false)
    &&& s.score_sum == 0 && s.max_score == 0 && s.visits == 0
}

/// Whether playing `actions` from `start`, each a game-legal move where it is
/// played, leads to `end`.
pub open spec fn spec_replays(ctx: CraftContext, start: CraftState, actions: Seq<Action>, end: CraftState) -> bool
    decreases actions.len(),
{
    if actions.len() == 0 {
        spec_game(ctx, start) == spec_game(ctx, end)
    } else {
        spec_legal_moves(ctx, start, false).contains(actions[0]) && spec_replays(
            ctx,
            spec_transition(ctx, start, actions[0]),
            actions.drop_first(),
            end,
        )
    }
}

#[verifier::rlimit(60)]
proof fn lemma_transition_game(ctx: CraftContext, s: CraftState, action: Action)
    ensures
        spec_game(ctx, spec_transition(ctx, s, action)) == spec_game(
            ctx,
            spec_transition(ctx, spec_game(ctx, s), action),
        ),
{
}

/// States with equal games have equal legal moves.
pub proof fn lemma_game_legal(ctx: CraftContext, s1: CraftState, s2: CraftState)
    requires
        spec_game(ctx, s1) == spec_game(ctx, s2),
    ensures
        spec_legal_moves(ctx, s1, false) == spec_legal_moves(ctx, s2, false),
        spec_legal_moves(ctx, s1, true) == spec_legal_moves(ctx, s2, true),
        spec_is_terminal(ctx, s1) == spec_is_terminal(ctx, s2),
{
    lemma_legal_moves_ignore_stats(ctx, s1);
    lemma_legal_moves_ignore_stats(ctx, s2);
}

/// States with equal games have equal successors and equal legal moves.
pub proof fn lemma_game_determines(ctx: CraftContext, s1: CraftState, s2: CraftState, action: Action)
    requires
        spec_game(ctx, s1) == spec_game(ctx, s2),
    ensures
        spec_game(ctx, spec_transition(ctx, s1, action)) == spec_game(
            ctx,
            spec_transition(ctx, s2, action),
        ),
        spec_legal_moves(ctx, s1, false) == spec_legal_moves(ctx, s2, false),
        spec_legal_moves(ctx, s1, true) == spec_legal_moves(ctx, s2, true),
        spec_is_terminal(ctx, s1) == spec_is_terminal(ctx, s2),
{
    lemma_transition_game(ctx, s1, action);
    lemma_transition_game(ctx, s2, action);
    lemma_legal_moves_ignore_stats(ctx, s1);
    lemma_legal_moves_ignore_stats(ctx, s2);
}

proof fn lemma_legal_moves_ignore_stats(ctx: CraftContext, s: CraftState)
    ensures
        spec_legal_moves(ctx, s, false) == spec_legal_moves(
            ctx,
            CraftState { score_sum: 0, max_score: 0, visits: 0, ..s },
            false,
        ),
        spec_legal_moves(ctx, s, true) == spec_legal_moves(
            ctx,
            CraftState { score_sum: 0, max_score: 0, visits: 0, ..s },
            true,
        ),
        spec_legal_moves(ctx, spec_game(ctx, s), false) == spec_legal_moves(ctx, s, false),
        spec_legal_moves(ctx, spec_game(ctx, s), true) == spec_legal_moves(ctx, s, true),
{
    reveal(spec_legal_moves);
    let z = CraftState { score_sum: 0, max_score: 0, visits: 0, ..s };
    assert(spec_legal_moves(ctx, s, false) =~= spec_legal_moves(ctx, z, false));
    assert(spec_legal_moves(ctx, s, true) =~= spec_legal_moves(ctx, z, true));
    assert(spec_legal_moves(ctx, spec_game(ctx, s), false) =~= spec_legal_moves(ctx, s, false));
    assert(spec_legal_moves(ctx, spec_game(ctx, s), true) =~= spec_legal_moves(ctx, s, true));
}

/// A replay extended by one legal move.
pub proof fn lemma_replays_push(
    ctx: CraftContext,
    start: CraftState,
    actions: Seq<Action>,
    mid: CraftState,
    action: Action,
    end: CraftState,
)
    requires
        spec_replays(ctx, start, actions, mid),
        spec_legal_moves(ctx, mid, false).contains(action),
        spec_game(ctx, end) == spec_game(ctx, spec_transition(ctx, mid, action)),
    ensures
        spec_replays(ctx, start, actions.push(action), end),
    decreases actions.len(),
{
    if actions.len() == 0 {
        lemma_game_determines(ctx, start, mid, action);
        let one = actions.push(action);
        assert(one.drop_first() =~= Seq::<Action>::empty());
        assert(one[0] == action);
        assert(spec_replays(ctx, spec_transition(ctx, start, action), one.drop_first(), end));
    } else {
        lemma_replays_push(
            ctx,
            spec_transition(ctx, start, actions[0]),
            actions.drop_first(),
            mid,
            action,
            end,
        );
        assert(actions.push(action).drop_first() =~= actions.drop_first().push(action));
        assert(actions.push(action)[0] == actions[0]);
    }
}

/// Two replays in a row are one replay.
pub proof fn lemma_replays_append(
    ctx: CraftContext,
    start: CraftState,
    first: Seq<Action>,
    mid: CraftState,
    second: Seq<Action>,
    end: CraftState,
)
    requires
        spec_replays(ctx, start, first, mid),
        spec_replays(ctx, mid, second, end),
    ensures
        spec_replays(ctx, start, first + second, end),
    decreases first.len(),
{
    if first.len() == 0 {
        assert(first + second =~= second);
        lemma_replays_same_game(ctx, mid, start, second, end);
    } else {
        lemma_replays_append(
            ctx,
            spec_transition(ctx, start, first[0]),
            first.drop_first(),
            mid,
            second,
            end,
        );
        assert((first + second).drop_first() =~= first.drop_first() + second);
    }
}

/// A replay depends on its start only through the start's game.
pub proof fn lemma_replays_same_game(
    ctx: CraftContext,
    s1: CraftState,
    s2: CraftState,
    actions: Seq<Action>,
    end: CraftState,
)
    requires
        spec_game(ctx, s1) == spec_game(ctx, s2),
        spec_replays(ctx, s1, actions, end),
    ensures
        spec_replays(ctx, s2, actions, end),
    decreases actions.len(),
{
    if actions.len() > 0 {
        lemma_game_determines(ctx, s1, s2, actions[0]);
        lemma_replays_same_game(
            ctx,
            spec_transition(ctx, s1, actions[0]),
            spec_transition(ctx, s2, actions[0]),
            actions.drop_first(),
            end,
        );
    }
}

/// Whether playing `actions` from `start`, each a strictly legal move where
/// it is played, leads to `end`.
pub open spec fn spec_reaches_strict(ctx: CraftContext, start: CraftState, actions: Seq<Action>, end: CraftState) -> bool
    decreases actions.len(),
{
    if actions.len() == 0 {
        spec_game(ctx, start) == spec_game(ctx, end)
    } else {
        spec_legal_moves(ctx, start, true).contains(actions[0]) && spec_reaches_strict(
            ctx,
            spec_transition(ctx, start, actions[0]),
            actions.drop_first(),
            end,
        )
    }
}

/// A strict play extended by one strictly legal move.
pub proof fn lemma_reaches_push(
    ctx: CraftContext,
    start: CraftState,
    actions: Seq<Action>,
    mid: CraftState,
    action: Action,
    end: CraftState,
)
    requires
        spec_reaches_strict(ctx, start, actions, mid),
        spec_legal_moves(ctx, mid, true).contains(action),
        spec_game(ctx, end) == spec_game(ctx, spec_transition(ctx, mid, action)),
    ensures
        spec_reaches_strict(ctx, start, actions.push(action), end),
    decreases actions.len(),
{
    if actions.len() == 0 {
        lemma_game_determines(ctx, start, mid, action);
        let one = actions.push(action);
        assert(one.drop_first() =~= Seq::<Action>::empty());
        assert(one[0] == action);
        assert(spec_reaches_strict(ctx, spec_transition(ctx, start, action), one.drop_first(), end));
    } else {
        lemma_reaches_push(
            ctx,
            spec_transition(ctx, start, actions[0]),
            actions.drop_first(),
            mid,
            action,
            end,
        );
        assert(actions.push(action).drop_first() =~= actions.drop_first().push(action));
        assert(actions.push(action)[0] == actions[0]);
    }
}

/// Whether a random strict play from `start` can end with `result`: some
/// strictly legal moves lead from `start` to a state, offering its strict
/// moves, whose `check_result` is `result`.
pub open spec fn spec_rolls_out(ctx: CraftContext, start: CraftState, result: CraftResult) -> bool {
    exists|actions: Seq<Action>, end: CraftState|
        #![trigger spec_reaches_strict(ctx, start, actions, end)]
        spec_reaches_strict(ctx, start, actions, end) && end.available_moves@ == spec_legal_moves(
            ctx,
            end,
            true,
        ) && spec_check_result(ctx, end) == Some(result)
}

/// Whether expanding `parent` by one of its offered moves gave `child`,
/// left `parent_after` offering the other moves, and a random strict play
/// from the child ended with `result`.
pub open spec fn spec_expanded(
    ctx: CraftContext,
    parent: CraftState,
    parent_after: CraftState,
    child: CraftState,
    result: CraftResult,
) -> bool {
    exists|action: Action|
        #![trigger parent.available_moves@.contains(action)]
        parent.available_moves@.contains(action) && parent_after.available_moves@
            == parent.available_moves@.remove(action) && child.action == Some(action) && spec_game(
            ctx,
            child,
        ) == spec_game(ctx, spec_transition(ctx, parent, action)) && spec_rolls_out(
            ctx,
            spec_transition(ctx, parent, action),
            result,
        )
}

/// A bound on the moves left: the steps left, plus one while Quick
/// Innovation (which takes no step, and is played once) is still available.
pub open spec fn spec_moves_left(ctx: CraftContext, s: CraftState) -> nat {
    if s.step >= ctx.step_max {
        0
    } else {
        ((ctx.step_max - s.step) + if s.quick_innovation_available {
            1int
        } else {
            0
        }) as nat
    }
}

/// Every move brings the craft closer to its end.
pub proof fn lemma_move_shortens(ctx: CraftContext, s: CraftState, action: Action)
    requires
        !spec_is_terminal(ctx, s),
        spec_legal_moves(ctx, s, false).contains(action),
    ensures
        spec_moves_left(ctx, spec_transition(ctx, s, action)) < spec_moves_left(ctx, s),
{
    reveal(spec_legal_moves);
}

/// Search hyperparameters. Scores and constants are in millionths
/// (`SCORE_SCALE` stands for 1.0).
#[derive(Debug, Clone, Copy, PartialEq, Eq, Structural)]
pub struct SearchOptions {
    /// Number of simulations to run
    pub iterations: u32,
    /// Numerical seed to use for RNG. Randomly picked if None
    pub rng_seed: Option<u64>,
    /// A memory optimization option that specifies the minimum score a craft has
    /// to reach for action history to be stored. Only stores 100% scores if None.
    pub score_storage_threshold: Option<u32>,
    /// How much a node's max score counts against its mean score; 0.1 if None.
    pub max_score_weighting_constant: Option<u32>,
    /// Higher values favour less explored nodes; 1.5 if None.
    pub exploration_constant: Option<u32>,
}

pub const DEFAULT_ITERATIONS: u32 = 10_000;

pub const DEFAULT_MAX_SCORE_WEIGHTING: u32 = 100_000;

pub const DEFAULT_EXPLORATION: u32 = 1_500_000;

impl Default for SearchOptions {
    fn default() -> (r: SearchOptions)
        ensures
            r.iterations == DEFAULT_ITERATIONS,
            r.rng_seed is Some,
            r.score_storage_threshold == Some(SCORE_SCALE),
            r.max_score_weighting_constant == Some(DEFAULT_MAX_SCORE_WEIGHTING),
            r.exploration_constant == Some(DEFAULT_EXPLORATION),
    {
        SearchOptions {
            iterations: DEFAULT_ITERATIONS,
            rng_seed: Some(entropy_seed()),
            score_storage_threshold: Some(SCORE_SCALE),
            max_score_weighting_constant: Some(DEFAULT_MAX_SCORE_WEIGHTING),
            exploration_constant: Some(DEFAULT_EXPLORATION),
        }
    }
}

/// Whether node `i` lies on the way from node `from` up to node `target` (or
/// to the root), following parent links.
pub open spec fn spec_on_path(nodes: Seq<Node<CraftState>>, from: int, target: int, i: int) -> bool
    decreases from + 1,
{
    if from < 0 || from >= nodes.len() {
        false
    } else if i == from {
        true
    } else if from == target || from == 0 {
        false
    } else {
        match nodes[from].parent {
            Some(p) => if (p as int) < from {
                spec_on_path(nodes, p as int, target, i)
            } else {
                false
            },
            None => false,
        }
    }
}

proof fn lemma_on_path_below(nodes: Seq<Node<CraftState>>, from: int, target: int, i: int)
    requires
        spec_on_path(nodes, from, target, i),
    ensures
        i <= from,
    decreases from + 1,
{
    if i != from {
        let p = nodes[from].parent->0 as int;
        lemma_on_path_below(nodes, p, target, i);
    }
}

proof fn lemma_on_path_split(nodes: Seq<Node<CraftState>>, from: int, target: int, mid: int, i: int)
    requires
        spec_on_path(nodes, from, target, mid),
        spec_on_path(nodes, from, target, i),
        i <= mid,
    ensures
        spec_on_path(nodes, mid, target, i),
    decreases from + 1,
{
    if mid != from {
        lemma_on_path_below(nodes, from, target, mid);
        let p = nodes[from].parent->0 as int;
        lemma_on_path_split(nodes, p, target, mid, i);
    }
}

proof fn lemma_on_path_trans(nodes: Seq<Node<CraftState>>, from: int, target: int, mid: int, i: int)
    requires
        spec_on_path(nodes, from, target, mid),
        spec_on_path(nodes, mid, target, i),
    ensures
        spec_on_path(nodes, from, target, i),
    decreases from + 1,
{
    if mid != from && i != from {
        let p = nodes[from].parent->0 as int;
        lemma_on_path_trans(nodes, p, target, mid, i);
    }
}

/// A state after one more visit that scored `score`.
pub open spec fn spec_visited(s: CraftState, score: u32) -> CraftState {
    CraftState {
        visits: if s.visits == u64::MAX {
            u64::MAX
        } else {
            (s.visits + 1) as u64
        },
        score_sum: if s.score_sum + score > u64::MAX {
            u64::MAX
        } else {
            (s.score_sum + score) as u64
        },
        max_score: if score > s.max_score {
            score
        } else {
            s.max_score
        },
        ..s
    }
}

/// Whether `child` is what a legal move of `parent` leads to.
pub open spec fn spec_follows(ctx: CraftContext, parent: CraftState, child: CraftState) -> bool {
    &&& child.action is Some
    &&& spec_legal_moves(ctx, parent, false).contains(child.action->0)
    &&& spec_game(ctx, child) == spec_game(ctx, spec_transition(ctx, parent, child.action->0))
}

/// A Monte Carlo tree search over the states of one craft.
pub struct Simulator {
    tree: Arena<CraftState>,
    ctx: CraftContext,
    iterations: u32,
    /// Amount of "dead ends" encountered. This means a node was selected, but
    /// there weren't any available moves.
    pub dead_ends_selected: u64,
    pub rng_seed: u64,
    rng: SmallRng,
    score_storage_threshold: u32,
    /// The higher the weight, the more a node's potential max score is valued
    /// over its average score, in millionths: 1.0 means only max scores are
    /// used, 0.0 only average scores.
    max_score_weighting_constant: u32,
    /// Higher values prioritize exploring less promising nodes.
    exploration_constant: u32,
}

impl Simulator {
    pub closed spec fn node_ok(&self, i: int) -> bool {
        let n = self.tree.nodes@;
        &&& n[i].state.valid(self.ctx)
        &&& i > 0 ==> spec_follows(self.ctx, n[n[i].parent->0 as int].state, n[i].state)
    }

    /// The tree is well formed, every state in it is valid, and every node is
    /// what a legal move of its parent leads to.
    pub closed spec fn inv(&self) -> bool {
        &&& self.tree.wf()
        &&& forall|i: int| 0 <= i < self.tree.nodes@.len() ==> #[trigger] self.node_ok(i)
        &&& self.max_score_weighting_constant <= SCORE_SCALE
    }

    pub closed spec fn context(&self) -> CraftContext {
        self.ctx
    }

    /// The state at the root of the tree.
    pub closed spec fn root(&self) -> CraftState {
        self.tree.nodes@[0].state
    }

    pub closed spec fn len(&self) -> nat {
        self.tree.nodes@.len()
    }

    fn from_state(ctx: &CraftContext, state: CraftState, options: SearchOptions) -> (r: Simulator)
        requires
            state.valid(*ctx),
        ensures
            r.inv(),
            r.context() == *ctx,
            r.root() == state,
            r.len() == 1,
            r.iterations == options.iterations,
            options.rng_seed matches Some(seed) ==> r.rng_seed == seed,
            r.score_storage_threshold == match options.score_storage_threshold {
                Some(t) => t,
                None => SCORE_SCALE,
            },
            r.max_score_weighting_constant == match options.max_score_weighting_constant {
                Some(w) => if w > SCORE_SCALE {
                    SCORE_SCALE
                } else {
                    w
                },
                None => DEFAULT_MAX_SCORE_WEIGHTING,
            },
            r.exploration_constant == match options.exploration_constant {
                Some(c) => c,
                None => DEFAULT_EXPLORATION,
            },
    {
        let rng_seed = match options.rng_seed {
            Some(seed) => seed,
            None => entropy_seed(),
        };
        let weighting = match options.max_score_weighting_constant {
            Some(w) => if w > SCORE_SCALE {
                SCORE_SCALE
            } else {
                w
            },
            None => DEFAULT_MAX_SCORE_WEIGHTING,
        };
        let r = Simulator {
            tree: Arena::new(state),
            ctx: *ctx,
            iterations: options.iterations,
            dead_ends_selected: 0,
            rng_seed,
            rng: seeded(rng_seed),
            score_storage_threshold: match options.score_storage_threshold {
                Some(t) => t,
                None => SCORE_SCALE,
            },
            max_score_weighting_constant: weighting,
            exploration_constant: match options.exploration_constant {
                Some(c) => c,
                None => DEFAULT_EXPLORATION,
            },
        };
        assert(r.node_ok(0));
        r
    }

    proof fn lemma_inv_frame(&self, other: &Simulator)
        requires
            self.inv(),
            self.tree == other.tree,
            self.ctx == other.ctx,
            self.max_score_weighting_constant == other.max_score_weighting_constant,
            self.iterations == other.iterations,
            self.score_storage_threshold == other.score_storage_threshold,
        ensures
            other.inv(),
            other.grows_from(*self),
    {
        assert forall|i: int| 0 <= i < other.tree.nodes@.len() implies #[trigger] other.node_ok(i) by {
            assert(self.node_ok(i));
        }
    }

    /// What every search step keeps: the craft, the root's game, the settings
    /// and every existing node's parent, while nodes and children are only
    /// ever added.
    pub closed spec fn grows_from(&self, old: Simulator) -> bool {
        &&& self.ctx == old.ctx
        &&& spec_game(self.ctx, self.root()) == spec_game(old.ctx, old.root())
        &&& self.iterations == old.iterations
        &&& self.score_storage_threshold == old.score_storage_threshold
        &&& self.len() >= old.len()
        &&& forall|j: int|
            0 <= j < old.len() ==> (#[trigger] self.tree.nodes@[j]).parent == old.tree.nodes@[j].parent
                && self.tree.nodes@[j].children@.len() >= old.tree.nodes@[j].children@.len()
                && spec_game(self.ctx, self.tree.nodes@[j].state) == spec_game(old.ctx, old.tree.nodes@[j].state)
    }

    proof fn lemma_grows_trans(a: Simulator, b: Simulator, c: Simulator)
        requires
            b.grows_from(a),
            c.grows_from(b),
        ensures
            c.grows_from(a),
    {
        assert forall|j: int| 0 <= j < a.len() implies (#[trigger] c.tree.nodes@[j]).parent == a.tree.nodes@[j].parent
            && c.tree.nodes@[j].children@.len() >= a.tree.nodes@[j].children@.len()
            && spec_game(c.ctx, c.tree.nodes@[j].state) == spec_game(a.ctx, a.tree.nodes@[j].state) by {
            assert(b.tree.nodes@[j].parent == a.tree.nodes@[j].parent);
        }
    }

    proof fn lemma_grows_refl(a: Simulator)
        ensures
            a.grows_from(a),
    {
    }

    /// Replaces the state of node `index` by one of the same game.
    fn set_state(&mut self, index: usize, state: CraftState)
        requires
            old(self).inv(),
            index < old(self).len(),
            spec_game(old(self).ctx, state) == spec_game(old(self).ctx, old(self).tree.nodes@[index as int].state),
            state.valid(old(self).ctx),
        ensures
            final(self).inv(),
            final(self).len() == old(self).len(),
            final(self).ctx == old(self).ctx,
            final(self).tree.nodes@[index as int].state == state,
            forall|j: int| 0 <= j < old(self).len() ==> #[trigger] final(self).tree.nodes@[j].children
                == old(self).tree.nodes@[j].children,
            forall|j: int|
                0 <= j < old(self).len() && j != index ==> #[trigger] final(self).tree.nodes@[j].state
                    == old(self).tree.nodes@[j].state,
            spec_game(final(self).ctx, final(self).root()) == spec_game(old(self).ctx, old(self).root()),
            final(self).iterations == old(self).iterations,
            final(self).score_storage_threshold == old(self).score_storage_threshold,
            final(self).grows_from(*old(self)),
    {
        let ghost old_nodes = self.tree.nodes@;
        let node = self.tree.get_mut(index);
        node.state = state;
        proof {
            let n = self.tree.nodes@;
            assert forall|j: int| 0 <= j < n.len() implies #[trigger] n[j].parent == old_nodes[j].parent by {}
            assert forall|i: int, k: int|
                0 <= i < n.len() && 0 <= k < n[i].children@.len() implies {
                    let c = #[trigger] n[i].children@[k];
                    &&& i < c < n.len()
                    &&& n[c as int].parent == Some(i as usize)
                } by {
                assert(n[i].children == old_nodes[i].children);
                assert(old(self).tree.nodes@[i].children@[k] == n[i].children@[k]);
            }
            assert forall|i: int| 0 <= i < n.len() implies #[trigger] self.node_ok(i) by {
                assert(old(self).node_ok(i));
                if i > 0 {
                    let p = n[i].parent->0 as int;
                    if p == index as int {
                        lemma_game_determines(self.ctx, state, old_nodes[p].state, n[i].state.action->0);
                    }
                    if i == index as int {
                        assert(spec_game(self.ctx, n[i].state) == spec_game(self.ctx, old_nodes[i].state));
                    }
                }
            }
        }
    }

    /// Appends `state` below node `parent`.
    fn add_child(&mut self, parent: usize, state: CraftState) -> (r: usize)
        requires
            old(self).inv(),
            parent < old(self).len(),
            old(self).len() < usize::MAX,
            spec_follows(old(self).ctx, old(self).tree.nodes@[parent as int].state, state),
            state.valid(old(self).ctx),
        ensures
            final(self).inv(),
            r == old(self).len(),
            final(self).len() == old(self).len() + 1,
            final(self).ctx == old(self).ctx,
            final(self).tree.nodes@[r as int].state == state,
            forall|j: int| 0 <= j < old(self).len() ==> #[trigger] final(self).tree.nodes@[j].state
                == old(self).tree.nodes@[j].state,
            final(self).root() == old(self).root(),
            final(self).iterations == old(self).iterations,
            final(self).score_storage_threshold == old(self).score_storage_threshold,
            final(self).grows_from(*old(self)),
            final(self).tree.nodes@[r as int].parent == Some(parent),
            final(self).tree.nodes@[parent as int].children@.len() == old(self).tree.nodes@[parent as int].children@.len() + 1,
    {
        let ghost old_nodes = self.tree.nodes@;
        let r = self.tree.insert(parent, state);
        proof {
            let n = self.tree.nodes@;
            assert forall|i: int| 0 <= i < n.len() implies #[trigger] self.node_ok(i) by {
                if i < old_nodes.len() {
                    assert(old(self).node_ok(i));
                    if i != parent as int {
                        assert(n[i] == old_nodes[i]);
                    }
                    if i > 0 {
                        let p = n[i].parent->0 as int;
                        if p != parent as int {
                            assert(n[p] == old_nodes[p]);
                        }
                    }
                }
            }
        }
        r
    }

    /// A standalone method to obtain a `CraftState` from a series of actions,
    /// played with all game-legal moves available. Stops early with
    /// `CraftResult::InvalidActionFailure` at an action that is not legal
    /// where it comes. An action stands for its higher-level variant when that
    /// variant has replaced it.
    pub fn simulate(ctx: &CraftContext, actions: Vec<Action>) -> (r: (CraftState, Option<CraftResult>))
        ensures
            spec_simulated(*ctx, actions@, r.0),
            r.1 == spec_run(*ctx, spec_initial_state(*ctx), actions@).1,
            r.0.valid(*ctx),
    {
        Self::replay(ctx, &actions)
    }

    fn replay(ctx: &CraftContext, actions: &Vec<Action>) -> (r: (CraftState, Option<CraftResult>))
        ensures
            spec_simulated(*ctx, actions@, r.0),
            r.1 == spec_run(*ctx, spec_initial_state(*ctx), actions@).1,
            r.0.valid(*ctx),
            r.1 is None ==> spec_check_result(*ctx, r.0) is None,
    {
        let mut state = CraftState::new(ctx);
        let mut i: usize = 0;
        proof {
            assert(spec_game(*ctx, state) == spec_game(*ctx, spec_initial_state(*ctx)));
            assert(actions@.subrange(0, actions@.len() as int) =~= actions@);
        }
        while i < actions.len()
            invariant
                i <= actions@.len(),
                state.valid(*ctx),
                state.available_moves@ == spec_legal_moves(*ctx, state, false),
                state.score_sum == 0 && state.max_score == 0 && state.visits == 0,
                spec_run(*ctx, state, actions@.subrange(i as int, actions@.len() as int))
                    == spec_run(*ctx, spec_initial_state(*ctx), actions@),
            decreases actions.len() - i,
        {
            let ghost rest = actions@.subrange(i as int, actions@.len() as int);
            proof {
                lemma_legal_moves_ignore_stats(*ctx, state);
            }
            if let Some(result) = state.check_result(ctx) {
                return (state, Some(result));
            }
            let wanted = actions[i];
            let traited = wanted.traited();
            let action = if ctx.action_pool.contains(traited) {
                traited
            } else {
                wanted
            };
            if !state.available_moves.contains(action) {
                return (state, Some(CraftResult::InvalidActionFailure));
            }
            let next = state.execute(ctx, action);
            proof {
                let g = spec_game(*ctx, state);
                lemma_transition_game(*ctx, state, action);
                assert(rest[0] == wanted);
                assert(rest.drop_first() =~= actions@.subrange(i + 1, actions@.len() as int));
                assert(spec_outcome(*ctx, g) is None);
                assert(spec_legal_moves(*ctx, g, false).contains(spec_resolve(*ctx, rest[0])));
                assert(spec_run(*ctx, state, rest) == spec_run(
                    *ctx,
                    spec_transition(*ctx, g, action),
                    rest.drop_first(),
                ));
                lemma_run_same_game(*ctx, next, spec_transition(*ctx, g, action), rest.drop_first());
                lemma_transition_ignores_stats(*ctx, state, action, 0, 0, 0);
            }
            state = next;
            i += 1;
        }
        proof {
            lemma_legal_moves_ignore_stats(*ctx, state);
        }
        let result = state.check_result(ctx);
        (state, result)
    }
}

/// `floor(log2(x))`, and 0 for 0.
pub open spec fn spec_log2(x: nat) -> nat
    decreases x,
{
    if x <= 1 {
        0
    } else {
        1 + spec_log2(x / 2)
    }
}

proof fn lemma_log2_below(x: nat, k: nat)
    requires
        k >= 1,
        x < pow2(k),
    ensures
        spec_log2(x) < k,
    decreases x,
{
    if x > 1 {
        lemma_pow2_unfold(k);
        if k == 1 {
            assert(pow2(0) == 1) by {
                vstd::arithmetic::power2::lemma2_to64();
            }
        } else {
            lemma_log2_below(x / 2, (k - 1) as nat);
        }
    }
}

/// `floor(log2(x))`.
fn log2_floor(x: u128) -> (r: u32)
    ensures
        r == spec_log2(x as nat),
        r < 128,
{
    proof {
        lemma2_to64_rest();
        lemma_pow2_adds(64, 64);
        assert(x < pow2(128)) by (nonlinear_arith)
            requires
                pow2(128) == pow2(64) * pow2(64),
                pow2(64) == 0x1_0000_0000_0000_0000,
                x <= 0xffff_ffff_ffff_ffff_ffff_ffff_ffff_ffff,
        ;
        lemma_log2_below(x as nat, 128);
    }
    let mut rest = x;
    let mut r: u32 = 0;
    while rest > 1
        invariant
            r + spec_log2(rest as nat) == spec_log2(x as nat),
            spec_log2(x as nat) < 128,
        decreases rest,
    {
        rest = rest / 2;
        r = r + 1;
    }
    r
}

/// The integer square root: the `r` with `r² ≤ x < (r + 1)²`.
fn isqrt(x: u64) -> (r: u64)
    ensures
        r * r <= x,
        x < (r + 1) * (r + 1),
{
    let mut lo: u64 = 0;
    let mut hi: u64 = 0x1_0000_0000;
    assert(x < hi * hi) by (nonlinear_arith)
        requires
            hi == 0x1_0000_0000u64,
    ;
    while hi - lo > 1
        invariant
            lo < hi <= 0x1_0000_0000,
            lo * lo <= x,
            x < hi * hi,
        decreases hi - lo,
    {
        let mid = lo + (hi - lo) / 2;
        assert(mid * mid <= 0x1_0000_0000 * 0x1_0000_0000) by (nonlinear_arith)
            requires
                mid <= 0x1_0000_0000,
        ;
        if (mid as u128) * (mid as u128) <= x as u128 {
            lo = mid;
        } else {
            hi = mid;
        }
    }
    assert(hi == lo + 1);
    lo
}

/// `ln(p)` in millionths, with the logarithm taken to half a bit:
/// `ln 2 × floor(log2(p²)) / 2`.
pub open spec fn spec_ln_millionths(p: nat) -> nat {
    693_147 * spec_log2(p * p) / 2
}

/// The mean-and-max part of a node's selection score, in millionths:
/// `(1 − w)·score_sum/visits + w·max_score`.
pub open spec fn spec_exploitation(w: nat, s: CraftState) -> nat
    recommends
        s.visits > 0,
{
    (((SCORE_SCALE - w) * s.score_sum + w * s.max_score * s.visits) / (SCORE_SCALE * s.visits)) as nat
}

/// What the exploration term is the square root of, in millionths squared:
/// `c · ln(parent_visits) / visits`.
pub open spec fn spec_exploration_square(c: nat, s: CraftState, parent_visits: nat) -> nat
    recommends
        s.visits > 0,
{
    ((c * spec_ln_millionths(parent_visits)) as int / s.visits as int) as nat
}

/// Whether `root` is the integer square root of `x`.
pub open spec fn spec_is_isqrt(root: int, x: nat) -> bool {
    root >= 0 && root * root <= x && x < (root + 1) * (root + 1)
}

/// The integer square root of `x`.
pub open spec fn spec_isqrt(x: nat) -> nat {
    choose|root: nat| spec_is_isqrt(root as int, x)
}

proof fn lemma_isqrt_unique(root: int, x: nat)
    requires
        spec_is_isqrt(root, x),
    ensures
        spec_isqrt(x) == root,
{
    let other = spec_isqrt(x);
    assert(spec_is_isqrt(root as nat as int, x));
    assert(spec_is_isqrt(other as int, x));
    if other < root {
        assert((other + 1) * (other + 1) <= root * root) by (nonlinear_arith)
            requires
                other + 1 <= root,
                other >= 0,
        ;
    } else if root < other {
        assert((root + 1) * (root + 1) <= other * other) by (nonlinear_arith)
            requires
                root + 1 <= other,
                root >= 0,
        ;
    }
}

/// The selection score of a node whose parent has `parent_visits` visits,
/// in millionths: `(1 − w)·mean + w·max + sqrt(c · ln(parent_visits) / visits)`;
/// a node never visited scores `u128::MAX`.
pub open spec fn spec_eval(w: nat, c: nat, s: CraftState, parent_visits: nat) -> nat {
    if s.visits == 0 {
        u128::MAX as nat
    } else {
        spec_exploitation(w, s) + spec_isqrt(spec_exploration_square(c, s, parent_visits))
    }
}

impl Simulator {
    pub closed spec fn score_of(&self, s: CraftState, parent_visits: nat) -> nat {
        spec_eval(self.max_score_weighting_constant as nat, self.exploration_constant as nat, s, parent_visits)
    }

    /// The UCB1 score of a node, in millionths: exploitation plus
    /// `sqrt(c · ln(parent_visits) / visits)`. A node never visited scores
    /// above every visited one.
    fn eval(&self, state: &CraftState, parent_visits: u64) -> (r: u128)
        requires
            self.max_score_weighting_constant <= SCORE_SCALE,
        ensures
            state.visits == 0 ==> r == u128::MAX,
            state.visits > 0 ==> spec_is_isqrt(
                r - spec_exploitation(self.max_score_weighting_constant as nat, *state),
                spec_exploration_square(self.exploration_constant as nat, *state, parent_visits as nat),
            ),
            r == self.score_of(*state, parent_visits as nat),
    {
        if state.visits == 0 {
            return u128::MAX;
        }
        let w = self.max_score_weighting_constant as u128;
        let visits = state.visits as u128;
        let sum = state.score_sum as u128;
        let max = state.max_score as u128;
        let scale = SCORE_SCALE as u128;
        assert((scale - w) * sum <= 0x10_0000 * 0xffff_ffff_ffff_ffff) by (nonlinear_arith)
            requires
                scale - w <= 0x10_0000,
                sum <= 0xffff_ffff_ffff_ffff,
        ;
        assert(w * max <= 0x10_0000 * 0xffff_ffff) by (nonlinear_arith)
            requires
                w <= 0x10_0000,
                max <= 0xffff_ffff,
        ;
        assert(w * max * visits <= 0x10_0000 * 0xffff_ffff * 0xffff_ffff_ffff_ffff) by (nonlinear_arith)
            requires
                w * max <= 0x10_0000 * 0xffff_ffff,
                visits <= 0xffff_ffff_ffff_ffff,
        ;
        assert(scale * visits <= 0x10_0000 * 0xffff_ffff_ffff_ffff) by (nonlinear_arith)
            requires
                scale <= 0x10_0000,
                visits <= 0xffff_ffff_ffff_ffff,
        ;
        assert(scale * visits > 0) by (nonlinear_arith)
            requires
                scale > 0,
                visits > 0,
        ;
        let exploitation = ((scale - w) * sum + w * max * visits) / (scale * visits);
        let p = parent_visits as u128;
        assert(p * p <= 0xffff_ffff_ffff_ffff * 0xffff_ffff_ffff_ffff) by (nonlinear_arith)
            requires
                p <= 0xffff_ffff_ffff_ffff,
        ;
        let log2 = log2_floor(p * p) as u64;
        let ln = 693_147 * log2 / 2;
        let c = self.exploration_constant as u64;
        assert(c * ln <= 0xffff_ffff * (693_147 * 128)) by (nonlinear_arith)
            requires
                c <= 0xffff_ffff,
                ln <= 693_147 * 128,
        ;
        let square = c * ln / state.visits;
        let e = isqrt(square);
        assert(exploitation <= 0x10_0000 * 0xffff_ffff_ffff_ffff + 0x10_0000 * 0xffff_ffff * 0xffff_ffff_ffff_ffff) by (nonlinear_arith)
            requires
                exploitation == ((scale - w) * sum + w * max * visits) / (scale * visits),
                (scale - w) * sum <= 0x10_0000 * 0xffff_ffff_ffff_ffff,
                w * max * visits <= 0x10_0000 * 0xffff_ffff * 0xffff_ffff_ffff_ffff,
                scale * visits > 0,
        ;
        let r = exploitation + e as u128;
        assert(r == spec_exploitation(self.max_score_weighting_constant as nat, *state) + e);
        proof {
            lemma_isqrt_unique(e as int, spec_exploration_square(self.exploration_constant as nat, *state, parent_visits as nat));
        }
        r
    }

    /// The child of node `index` with the highest selection score; of equal
    /// scores, the last one.
    fn best_child(&self, index: usize) -> (r: usize)
        requires
            self.inv(),
            index < self.len(),
            self.tree.nodes@[index as int].children@.len() > 0,
        ensures
            exists|k: int|
                0 <= k < self.tree.nodes@[index as int].children@.len()
                    && self.tree.nodes@[index as int].children@[k] == r
                    && forall|j: int|
                    #![trigger self.tree.nodes@[index as int].children@[j]]
                    0 <= j < self.tree.nodes@[index as int].children@.len() ==> {
                        let sj = self.score_of(self.tree.nodes@[self.tree.nodes@[index as int].children@[j] as int].state, self.tree.nodes@[index as int].state.visits as nat);
                        let sr = self.score_of(self.tree.nodes@[r as int].state, self.tree.nodes@[index as int].state.visits as nat);
                        sj <= sr && (j > k ==> sj < sr)
                    },
            index < r < self.len(),
    {
        let node = self.tree.get(index);
        let ghost children = node.children@;
        let ghost pv = node.state.visits as nat;
        let mut best_k: usize = 0;
        let mut best = node.children[0];
        proof {
            assert(index < best < self.len());
        }
        let mut best_score = self.eval(&self.tree.get(best).state, node.state.visits);
        let mut k: usize = 1;
        while k < node.children.len()
            invariant
                self.inv(),
                index < self.len(),
                *node == self.tree.nodes@[index as int],
                children == node.children@,
                pv == node.state.visits as nat,
                1 <= k <= children.len(),
                best_k < k,
                best == children[best_k as int],
                index < best < self.len(),
                best_score == self.score_of(self.tree.nodes@[best as int].state, pv),
                forall|j: int|
                    #![trigger children[j]]
                    0 <= j < k ==> {
                        let sj = self.score_of(self.tree.nodes@[children[j] as int].state, pv);
                        sj <= best_score && (j > best_k ==> sj < best_score)
                    },
            decreases children.len() - k,
        {
            let child = node.children[k];
            proof {
                assert(index < child < self.len());
            }
            let score = self.eval(&self.tree.get(child).state, node.state.visits);
            if score >= best_score {
                best_k = k;
                best = child;
                best_score = score;
            }
            k += 1;
        }
        best
    }

    /// Descends from `start` by the highest selection score until a node
    /// that still has moves to expand, or has no children.
    fn select(&self, start: usize) -> (r: usize)
        requires
            self.inv(),
            start < self.len(),
        ensures
            r < self.len(),
            self.tree.nodes@[r as int].state.available_moves@ != Set::<Action>::empty()
                || self.tree.nodes@[r as int].children@.len() == 0,
            self.tree.nodes@[start as int].state.available_moves@ != Set::<Action>::empty() ==> r
                == start,
    {
        let mut selected = start;
        loop
            invariant
                self.inv(),
                selected < self.len(),
                start < self.len(),
                self.tree.nodes@[start as int].state.available_moves@ != Set::<Action>::empty()
                    ==> selected == start,
            decreases self.len() - selected,
        {
            let node = self.tree.get(selected);
            if !node.state.available_moves.is_empty() || node.children.len() == 0 {
                return selected;
            }
            selected = self.best_child(selected);
        }
    }
}

impl Simulator {
    /// Executes a series of actions with strict move pruning, storing each
    /// state below the last. Stops at a state that has ended, or with
    /// `InvalidActionFailure` at an action that is not on offer.
    fn execute_actions_strict(&mut self, start_index: usize, actions: &Vec<Action>) -> (r: (
        usize,
        Option<CraftResult>,
    ))
        requires
            old(self).inv(),
            start_index < old(self).len(),
        ensures
            final(self).inv(),
            r.0 < final(self).len(),
            final(self).ctx == old(self).ctx,
            spec_game(final(self).ctx, final(self).root()) == spec_game(old(self).ctx, old(self).root()),
            final(self).iterations == old(self).iterations,
            final(self).score_storage_threshold == old(self).score_storage_threshold,
            final(self).grows_from(*old(self)),
            forall|j: int|
                0 <= j < start_index ==> #[trigger] final(self).tree.nodes@[j].state
                    == old(self).tree.nodes@[j].state,
    {
        proof {
            Self::lemma_grows_refl(*self);
        }
        let mut current = start_index;
        let mut i: usize = 0;
        while i < actions.len()
            invariant
                self.inv(),
                current < self.len(),
                self.ctx == old(self).ctx,
                spec_game(self.ctx, self.root()) == spec_game(old(self).ctx, old(self).root()),
                self.iterations == old(self).iterations,
                self.score_storage_threshold == old(self).score_storage_threshold,
                self.grows_from(*old(self)),
                start_index <= current,
                forall|j: int|
                    0 <= j < start_index ==> #[trigger] self.tree.nodes@[j].state
                        == old(self).tree.nodes@[j].state,
            decreases actions.len() - i,
        {
            let state = self.tree.get(current).state;
            proof {
                assert(self.node_ok(current as int));
            }
            if let Some(result) = state.check_result(&self.ctx) {
                return (current, Some(result));
            }
            let action = actions[i];
            // the next action must be available to use
            if !state.available_moves.contains(action) {
                return (current, Some(CraftResult::InvalidActionFailure));
            }
            if self.tree.nodes.len() == usize::MAX {
                // the arena is full: nothing more can be stored
                return (current, None);
            }
            let mut remaining = state;
            remaining.available_moves.unset(action);
            proof {
                lemma_game_determines(self.ctx, remaining, state, action);
                lemma_transition_records_action(self.ctx, state, action);
            }
            let ghost s0 = *self;
            self.set_state(current, remaining);
            let ghost s1 = *self;
            let next = state.execute_strict(&self.ctx, action);
            current = self.add_child(current, next);
            proof {
                Self::lemma_grows_trans(*old(self), s0, s1);
                Self::lemma_grows_trans(*old(self), s1, *self);
            }
            i += 1;
        }
        proof {
            assert(self.node_ok(current as int));
        }
        let result = self.tree.get(current).state.check_result(&self.ctx);
        (current, result)
    }

    /// Expands the tree by one move of the selected node, then plays random
    /// moves until the craft ends. Only the expanded node is stored, unless
    /// the play reached a score worth keeping, in which case the whole path
    /// is stored.
    fn expand_and_rollout(&mut self, initial_index: usize) -> (r: (usize, CraftResult))
        requires
            old(self).inv(),
            initial_index < old(self).len(),
        ensures
            final(self).inv(),
            r.0 < final(self).len(),
            final(self).grows_from(*old(self)),
            spec_check_result(old(self).ctx, old(self).tree.nodes@[initial_index as int].state) matches Some(
                res,
            ) ==> r == (initial_index, res) && final(self).tree.nodes@ == old(self).tree.nodes@,
            spec_check_result(old(self).ctx, old(self).tree.nodes@[initial_index as int].state) is None
                && old(self).len() < usize::MAX ==> {
                &&& final(self).len() > old(self).len()
                &&& final(self).tree.nodes@[old(self).len() as int].parent == Some(initial_index)
                &&& final(self).tree.nodes@[initial_index as int].children@.len() > old(
                    self,
                ).tree.nodes@[initial_index as int].children@.len()
                &&& spec_expanded(
                    old(self).ctx,
                    old(self).tree.nodes@[initial_index as int].state,
                    final(self).tree.nodes@[initial_index as int].state,
                    final(self).tree.nodes@[old(self).len() as int].state,
                    r.1,
                )
            },
    {
        proof {
            Self::lemma_grows_refl(*self);
        }
        let state = self.tree.get(initial_index).state;
        proof {
            assert(self.node_ok(initial_index as int));
        }
        if let Some(result) = state.check_result(&self.ctx) {
            return (initial_index, result);
        }
        if self.tree.nodes.len() == usize::MAX {
            // the arena is full: treat the node as a dead end
            return (initial_index, CraftResult::InvalidActionFailure);
        }
        // expand once
        let mut remaining = state;
        let ghost s0 = *self;
        let random_action = remaining.available_moves.pick(&mut self.rng);
        proof {
            s0.lemma_inv_frame(self);
            lemma_game_determines(self.ctx, remaining, state, random_action);
            lemma_transition_records_action(self.ctx, state, random_action);
        }
        let ghost s1 = *self;
        self.set_state(initial_index, remaining);
        let ghost s2 = *self;
        let expanded_state = state.execute_strict(&self.ctx, random_action);
        let expanded_index = self.add_child(initial_index, expanded_state);
        let ghost s3 = *self;
        proof {
            Self::lemma_grows_trans(*old(self), s1, s2);
            Self::lemma_grows_trans(*old(self), s2, s3);
        }
        let ghost first = spec_transition(self.ctx, state, random_action);

        // playout to a terminal state
        let ctx = self.ctx;
        let mut current = expanded_state;
        let mut action_history: Vec<Action> = Vec::new();
        let mut outcome = current.check_result(&ctx);
        while outcome.is_none()
            invariant
                current.valid(ctx),
                current.available_moves@ == spec_legal_moves(ctx, current, true),
                outcome == spec_check_result(ctx, current),
                spec_reaches_strict(ctx, first, action_history@, current),
                ctx == self.ctx,
                self.inv(),
                self.tree == s3.tree,
                self.ctx == s3.ctx,
                self.iterations == s3.iterations,
                self.score_storage_threshold == s3.score_storage_threshold,
                self.max_score_weighting_constant == s3.max_score_weighting_constant,
            decreases spec_moves_left(ctx, current),
        {
            let ghost before = *self;
            let random_action = current.available_moves.sample(&mut self.rng);
            proof {
                before.lemma_inv_frame(self);
            }
            let ghost done = action_history@;
            action_history.push(random_action);
            let next = current.execute_strict(&ctx, random_action);
            proof {
                lemma_move_shortens(ctx, current, random_action);
                lemma_reaches_push(ctx, first, done, current, random_action, next);
            }
            current = next;
            outcome = current.check_result(&ctx);
        }
        let result = outcome.unwrap();
        proof {
            s3.lemma_inv_frame(self);
            Self::lemma_grows_trans(*old(self), s3, *self);
            assert(spec_reaches_strict(ctx, first, action_history@, current));
            assert(spec_rolls_out(ctx, first, result));
            assert(spec_expanded(
                ctx,
                state,
                self.tree.nodes@[initial_index as int].state,
                self.tree.nodes@[expanded_index as int].state,
                result,
            ));
        }

        // store the result if a max score was reached
        if let CraftResult::Finished(score) = result {
            if score >= self.score_storage_threshold && score >= self.tree.get(0).state.max_score {
                let ghost s4 = *self;
                let (terminal_index, _) = self.execute_actions_strict(expanded_index, &action_history);
                proof {
                    Self::lemma_grows_trans(*old(self), s4, *self);
                    assert(self.tree.nodes@[initial_index as int].state == s4.tree.nodes@[initial_index as int].state);
                    assert(s4.tree.nodes@[expanded_index as int].parent == self.tree.nodes@[expanded_index as int].parent);
                    assert(spec_game(ctx, s4.tree.nodes@[expanded_index as int].state) == spec_game(ctx, self.tree.nodes@[expanded_index as int].state));
                    assert(spec_expanded(
                        ctx,
                        state,
                        self.tree.nodes@[initial_index as int].state,
                        self.tree.nodes@[expanded_index as int].state,
                        result,
                    ));
                }
                return (terminal_index, result);
            }
        }
        (expanded_index, result)
    }

    /// From a starting node, follows parent nodes back to `target_index` (or
    /// to the root), counting a visit of `score` at each node on the way.
    fn backpropagate(&mut self, start_index: usize, target_index: usize, score: u32)
        requires
            old(self).inv(),
            start_index < old(self).len(),
        ensures
            final(self).inv(),
            final(self).len() == old(self).len(),
            final(self).grows_from(*old(self)),
            forall|j: int|
                0 <= j < old(self).len() ==> (#[trigger] final(self).tree.nodes@[j]).state == if spec_on_path(
                    old(self).tree.nodes@,
                    start_index as int,
                    target_index as int,
                    j,
                ) {
                    spec_visited(old(self).tree.nodes@[j].state, score)
                } else {
                    old(self).tree.nodes@[j].state
                },
            forall|j: int|
                0 <= j < old(self).len() ==> (#[trigger] final(self).tree.nodes@[j]).children
                    == old(self).tree.nodes@[j].children,
    {
        proof {
            Self::lemma_grows_refl(*self);
        }
        let ghost old_nodes = self.tree.nodes@;
        let mut current_index = start_index;
        proof {
            assert forall|j: int|
                0 <= j < old_nodes.len() && spec_on_path(old_nodes, start_index as int, target_index as int, j)
                    implies j <= start_index by {
                lemma_on_path_below(old_nodes, start_index as int, target_index as int, j);
            }
        }
        loop
            invariant_except_break
                forall|j: int|
                    0 <= j < old_nodes.len() ==> (#[trigger] self.tree.nodes@[j]).state == if spec_on_path(
                        old_nodes,
                        start_index as int,
                        target_index as int,
                        j,
                    ) && j > current_index {
                        spec_visited(old_nodes[j].state, score)
                    } else {
                        old_nodes[j].state
                    },
            invariant
                self.inv(),
                self.grows_from(*old(self)),
                old_nodes == old(self).tree.nodes@,
                current_index < self.len(),
                self.len() == old(self).len(),
                spec_on_path(old_nodes, start_index as int, target_index as int, current_index as int),
                forall|j: int|
                    0 <= j < old_nodes.len() ==> (#[trigger] self.tree.nodes@[j]).children
                        == old_nodes[j].children,
            ensures
                forall|j: int|
                    0 <= j < old_nodes.len() ==> (#[trigger] self.tree.nodes@[j]).state == if spec_on_path(
                        old_nodes,
                        start_index as int,
                        target_index as int,
                        j,
                    ) {
                        spec_visited(old_nodes[j].state, score)
                    } else {
                        old_nodes[j].state
                    },
            decreases current_index,
        {
            let mut state = self.tree.get(current_index).state;
            proof {
                assert(self.node_ok(current_index as int));
                assert(state == old_nodes[current_index as int].state);
            }
            state.visits = state.visits.saturating_add(1);
            state.score_sum = state.score_sum.saturating_add(score as u64);
            if score > state.max_score {
                state.max_score = score;
            }
            proof {
                lemma_game_legal(self.ctx, state, self.tree.nodes@[current_index as int].state);
            }
            let ghost before = *self;
            self.set_state(current_index, state);
            proof {
                Self::lemma_grows_trans(*old(self), before, *self);
                assert(self.tree.nodes@[current_index as int].parent == old_nodes[current_index as int].parent);
            }
            if current_index == target_index || current_index == 0 {
                proof {
                    assert forall|j: int|
                        0 <= j < old_nodes.len() && spec_on_path(
                            old_nodes,
                            start_index as int,
                            target_index as int,
                            j,
                        ) && j <= current_index implies j == current_index by {
                        lemma_on_path_split(old_nodes, start_index as int, target_index as int, current_index as int, j);
                    }
                }
                break;
            }
            let parent = self.tree.get(current_index).parent.unwrap();
            proof {
                let c = current_index as int;
                let p = parent as int;
                assert(old_nodes[c].parent == Some(parent));
                assert(p < c);
                assert(spec_on_path(old_nodes, p, target_index as int, p));
                assert(spec_on_path(old_nodes, c, target_index as int, p));
                assert forall|j: int|
                    0 <= j < old_nodes.len() && spec_on_path(
                        old_nodes,
                        start_index as int,
                        target_index as int,
                        j,
                    ) && p < j && j < c implies false by {
                    lemma_on_path_split(old_nodes, start_index as int, target_index as int, c, j);
                    lemma_on_path_below(old_nodes, p, target_index as int, j);
                }
                lemma_on_path_trans(old_nodes, start_index as int, target_index as int, c, p);
            }
            current_index = parent;
        }
    }

    /// Runs the configured number of search iterations from the root:
    /// select, expand and roll out, backpropagate.
    fn search(&mut self)
        requires
            old(self).inv(),
        ensures
            final(self).inv(),
            final(self).grows_from(*old(self)),
            old(self).iterations > 0 && spec_check_result(old(self).ctx, old(self).root()) is None
                && old(self).len() < usize::MAX ==> final(self).tree.nodes@[0].children@.len() > old(
                self,
            ).tree.nodes@[0].children@.len(),
    {
        proof {
            Self::lemma_grows_refl(*self);
        }
        let iterations = self.iterations;
        let mut i: u32 = 0;
        while i < iterations
            invariant
                self.inv(),
                self.grows_from(*old(self)),
                iterations == old(self).iterations,
                i == 0 ==> self.tree.nodes@ == old(self).tree.nodes@,
                i > 0 && spec_check_result(old(self).ctx, old(self).root()) is None && old(self).len()
                    < usize::MAX ==> self.tree.nodes@[0].children@.len() > old(
                    self,
                ).tree.nodes@[0].children@.len(),
            decreases iterations - i,
        {
            let selected_index = self.select(0);
            let ghost s0 = *self;
            let (end_index, result) = self.expand_and_rollout(selected_index);
            let ghost s1 = *self;
            proof {
                Self::lemma_grows_trans(*old(self), s0, s1);
            }
            if selected_index == end_index {
                let ghost before = *self;
                self.dead_ends_selected = self.dead_ends_selected.saturating_add(1);
                proof {
                    before.lemma_inv_frame(self);
                    Self::lemma_grows_trans(*old(self), s1, *self);
                }
            }
            let score = match result {
                CraftResult::Finished(s) => s,
                _ => 0,
            };
            let ghost s2 = *self;
            self.backpropagate(end_index, 0, score);
            proof {
                Self::lemma_grows_trans(*old(self), s2, *self);
                assert(self.tree.nodes@[0].children@.len() >= s0.tree.nodes@[0].children@.len());
            }
            i += 1;
        }
    }

    /// The child of node `index` with the highest max score; of equal max
    /// scores, the last one.
    fn most_promising_child(&self, index: usize) -> (r: usize)
        requires
            self.inv(),
            index < self.len(),
            self.tree.nodes@[index as int].children@.len() > 0,
        ensures
            exists|k: int|
                0 <= k < self.tree.nodes@[index as int].children@.len()
                    && self.tree.nodes@[index as int].children@[k] == r
                    && forall|j: int|
                    #![trigger self.tree.nodes@[index as int].children@[j]]
                    0 <= j < self.tree.nodes@[index as int].children@.len() ==> {
                        let mj = self.tree.nodes@[self.tree.nodes@[index as int].children@[j] as int].state.max_score;
                        let mr = self.tree.nodes@[r as int].state.max_score;
                        mj <= mr && (j > k ==> mj < mr)
                    },
            index < r < self.len(),
    {
        let node = self.tree.get(index);
        let ghost children = node.children@;
        let mut best_k: usize = 0;
        let mut best = node.children[0];
        proof {
            assert(index < best < self.len());
        }
        let mut best_score = self.tree.get(best).state.max_score;
        let mut k: usize = 1;
        while k < node.children.len()
            invariant
                self.inv(),
                index < self.len(),
                *node == self.tree.nodes@[index as int],
                children == node.children@,
                1 <= k <= children.len(),
                best_k < k,
                best == children[best_k as int],
                index < best < self.len(),
                best_score == self.tree.nodes@[best as int].state.max_score,
                forall|j: int|
                    #![trigger children[j]]
                    0 <= j < k ==> {
                        let mj = self.tree.nodes@[children[j] as int].state.max_score;
                        mj <= best_score && (j > best_k ==> mj < best_score)
                    },
            decreases children.len() - k,
        {
            let child = node.children[k];
            proof {
                assert(index < child < self.len());
            }
            let score = self.tree.get(child).state.max_score;
            if score >= best_score {
                best_k = k;
                best = child;
                best_score = score;
            }
            k += 1;
        }
        best
    }

    /// Follows, from the root, the child with the highest max score, and
    /// returns the actions on the way and the state reached.
    fn solution(&self) -> (r: (Vec<Action>, CraftState))
        requires
            self.inv(),
        ensures
            spec_replays(self.ctx, self.root(), r.0@, r.1),
            r.1.valid(self.ctx),
            self.tree.nodes@[0].children@.len() > 0 ==> r.0@.len() > 0,
    {
        let mut actions: Vec<Action> = Vec::new();
        let mut index: usize = 0;
        while self.tree.get(index).children.len() > 0
            invariant
                self.inv(),
                index < self.len(),
                actions@.len() == 0 ==> index == 0,
                spec_replays(self.ctx, self.root(), actions@, self.tree.nodes@[index as int].state),
            decreases self.len() - index,
        {
            let best = self.most_promising_child(index);
            proof {
                let k = choose|k: int|
                    0 <= k < self.tree.nodes@[index as int].children@.len()
                        && self.tree.nodes@[index as int].children@[k] == best;
                assert(self.tree.nodes@[best as int].parent == Some(index));
                assert(self.node_ok(best as int));
            }
            let child_state = self.tree.get(best).state;
            let action = child_state.action.unwrap();
            let ghost before = actions@;
            actions.push(action);
            proof {
                lemma_replays_push(
                    self.ctx,
                    self.root(),
                    before,
                    self.tree.nodes@[index as int].state,
                    action,
                    child_state,
                );
            }
            index = best;
        }
        proof {
            assert(self.node_ok(index as int));
        }
        (actions, self.tree.get(index).state)
    }
}

/// What the searches promise: the history comes first, and the rest of the
/// actions are legal moves from where the history leads, which end in `end`.
pub open spec fn spec_extends(
    ctx: CraftContext,
    history: Seq<Action>,
    actions: Seq<Action>,
    end: CraftState,
) -> bool {
    &&& actions.len() >= history.len()
    &&& actions.subrange(0, history.len() as int) == history
    &&& spec_replays(
        ctx,
        spec_run(ctx, spec_initial_state(ctx), history).0,
        actions.skip(history.len() as int),
        end,
    )
}

fn concat(first: Vec<Action>, second: &Vec<Action>) -> (r: Vec<Action>)
    ensures
        r@ == first@ + second@,
{
    let mut all = first;
    let mut i: usize = 0;
    while i < second.len()
        invariant
            i <= second@.len(),
            all@ == first@ + second@.subrange(0, i as int),
        decreases second.len() - i,
    {
        all.push(second[i]);
        assert(second@.subrange(0, i + 1) =~= second@.subrange(0, i as int).push(second@[i as int]));
        i += 1;
    }
    assert(second@.subrange(0, i as int) =~= second@);
    all
}

/// A legal replay is never longer than the moves left where it starts.
pub proof fn lemma_replay_length(ctx: CraftContext, start: CraftState, actions: Seq<Action>, end: CraftState)
    requires
        spec_replays(ctx, start, actions, end),
    ensures
        actions.len() <= spec_moves_left(ctx, start),
    decreases actions.len(),
{
    if actions.len() > 0 {
        assert(!spec_is_terminal(ctx, start)) by {
            reveal(spec_legal_moves);
        }
        lemma_move_shortens(ctx, start, actions[0]);
        lemma_replay_length(ctx, spec_transition(ctx, start, actions[0]), actions.drop_first(), end);
    }
}

/// How long a search's answer can be: the history, then at most the steps
/// left where the history leads, plus one while Quick Innovation is
/// available there.
pub open spec fn spec_answer_fits(ctx: CraftContext, history: Seq<Action>, actions: Seq<Action>) -> bool {
    actions.len() <= history.len() + spec_moves_left(ctx, spec_run(ctx, spec_initial_state(ctx), history).0)
}

proof fn lemma_extends_fits(ctx: CraftContext, history: Seq<Action>, actions: Seq<Action>, end: CraftState)
    requires
        spec_extends(ctx, history, actions, end),
    ensures
        spec_answer_fits(ctx, history, actions),
{
    lemma_replay_length(
        ctx,
        spec_run(ctx, spec_initial_state(ctx), history).0,
        actions.skip(history.len() as int),
        end,
    );
}

proof fn lemma_extends_append(
    ctx: CraftContext,
    history: Seq<Action>,
    actions: Seq<Action>,
    mid: CraftState,
    more: Seq<Action>,
    end: CraftState,
)
    requires
        spec_extends(ctx, history, actions, mid),
        spec_replays(ctx, mid, more, end),
    ensures
        spec_extends(ctx, history, actions + more, end),
{
    let start = spec_run(ctx, spec_initial_state(ctx), history).0;
    let done = actions.skip(history.len() as int);
    lemma_replays_append(ctx, start, done, mid, more, end);
    assert((actions + more).skip(history.len() as int) =~= done + more);
    assert((actions + more).subrange(0, history.len() as int) =~= actions.subrange(0, history.len() as int));
}

proof fn lemma_extends_push(
    ctx: CraftContext,
    history: Seq<Action>,
    actions: Seq<Action>,
    mid: CraftState,
    action: Action,
    end: CraftState,
)
    requires
        spec_extends(ctx, history, actions, mid),
        spec_legal_moves(ctx, mid, false).contains(action),
        spec_game(ctx, end) == spec_game(ctx, spec_transition(ctx, mid, action)),
    ensures
        spec_extends(ctx, history, actions.push(action), end),
{
    let start = spec_run(ctx, spec_initial_state(ctx), history).0;
    let done = actions.skip(history.len() as int);
    lemma_replays_push(ctx, start, done, mid, action, end);
    assert(actions.push(action).skip(history.len() as int) =~= done.push(action));
    assert(actions.push(action).subrange(0, history.len() as int) =~= actions.subrange(
        0,
        history.len() as int,
    ));
}

impl Simulator {
    /// Runs one search from `state` and returns its best path.
    fn search_from(ctx: &CraftContext, state: CraftState, search_options: SearchOptions) -> (r: (
        Vec<Action>,
        CraftState,
    ))
        requires
            state.valid(*ctx),
        ensures
            spec_replays(*ctx, state, r.0@, r.1),
            r.1.valid(*ctx),
            search_options.iterations > 0 && spec_check_result(*ctx, state) is None ==> r.0@.len() > 0,
    {
        let mut sim = Self::from_state(ctx, state, search_options);
        sim.search();
        let (actions, result_state) = sim.solution();
        proof {
            lemma_replays_same_game(*ctx, sim.root(), state, actions@, result_state);
        }
        (actions, result_state)
    }

    /// Searches for good actions step by step. Creates a fresh tree and runs a
    /// new search from scratch for each action picked, and hands each picked
    /// action to `action_callback`. Stops early with the whole solution of a
    /// search whose best score is the maximum.
    pub fn search_stepwise<F: Fn(Action)>(
        ctx: &CraftContext,
        action_history: Vec<Action>,
        search_options: SearchOptions,
        action_callback: Option<F>,
    ) -> (r: (Vec<Action>, CraftState))
        requires
            action_callback matches Some(f) ==> forall|a: Action| #[trigger] f.requires((a,)),
        ensures
            spec_extends(*ctx, action_history@, r.0@, r.1),
            spec_answer_fits(*ctx, action_history@, r.0@),
            r.1.valid(*ctx),
            spec_run(*ctx, spec_initial_state(*ctx), action_history@).1 is Some ==> r.0@
                == action_history@ && spec_simulated(*ctx, action_history@, r.1),
            spec_run(*ctx, spec_initial_state(*ctx), action_history@).1 is None
                && search_options.iterations > 0 ==> spec_check_result(*ctx, r.1) is Some,
    {
        // only store perfect scores to reduce memory usage
        let options = SearchOptions { score_storage_threshold: None, ..search_options };
        let ghost history = action_history@;
        let (start_state, result) = Self::replay(ctx, &action_history);
        proof {
            assert(action_history@.subrange(0, history.len() as int) =~= history);
            assert(action_history@.skip(history.len() as int) =~= Seq::<Action>::empty());
        }
        if result.is_some() {
            proof {
                lemma_extends_fits(*ctx, history, action_history@, start_state);
            }
            return (action_history, start_state);
        }
        let mut state = start_state.clone_strict(ctx);
        let mut actions = action_history;
        while state.check_result(ctx).is_none()
            invariant
                history == action_history@,
                state.valid(*ctx),
                spec_extends(*ctx, history, actions@, state),
                action_callback matches Some(f) ==> forall|a: Action| #[trigger] f.requires((a,)),
                spec_run(*ctx, spec_initial_state(*ctx), action_history@).1 is None,
                options.iterations == search_options.iterations,
            decreases spec_moves_left(*ctx, state),
        {
            let (solution_actions, solution_state) = Self::search_from(ctx, state, options);
            // commit a perfect solution in full, once it ends the craft
            if solution_state.max_score >= SCORE_SCALE && solution_state.check_result(ctx).is_some() {
                let ghost done = actions@;
                let all = concat(actions, &solution_actions);
                proof {
                    lemma_extends_append(*ctx, history, done, state, solution_actions@, solution_state);
                    lemma_extends_fits(*ctx, history, all@, solution_state);
                }
                return (all, solution_state);
            }
            if solution_actions.len() == 0 {
                // the search found no move to make
                proof {
                    lemma_extends_fits(*ctx, history, actions@, state);
                }
                return (actions, state);
            }
            let chosen_action = solution_actions[0];
            let next = state.execute_strict(ctx, chosen_action);
            proof {
                lemma_move_shortens(*ctx, state, chosen_action);
                lemma_extends_push(*ctx, history, actions@, state, chosen_action, next);
            }
            actions.push(chosen_action);
            state = next;
            if let Some(callback) = &action_callback {
                callback(chosen_action);
            }
        }
        proof {
            lemma_extends_fits(*ctx, history, actions@, state);
        }
        (actions, state)
    }

    /// Constructs a single large tree from where `action_history` leads,
    /// storing good candidate paths based on `score_storage_threshold`. When
    /// the iteration limit is reached, the action path that results in the
    /// highest score is returned after the history.
    pub fn search_oneshot(
        ctx: &CraftContext,
        action_history: Vec<Action>,
        search_options: SearchOptions,
    ) -> (r: (Vec<Action>, CraftState))
        ensures
            spec_extends(*ctx, action_history@, r.0@, r.1),
            spec_answer_fits(*ctx, action_history@, r.0@),
            r.1.valid(*ctx),
            spec_run(*ctx, spec_initial_state(*ctx), action_history@).1 is Some ==> r.0@
                == action_history@ && spec_simulated(*ctx, action_history@, r.1),
            search_options.iterations > 0 && spec_run(*ctx, spec_initial_state(*ctx), action_history@).1 is None
                && spec_legal_moves(*ctx, spec_run(*ctx, spec_initial_state(*ctx), action_history@).0, true)
                != Set::<Action>::empty() ==> r.0@.len() > action_history@.len(),
    {
        let ghost history = action_history@;
        let (start_state, result) = Self::replay(ctx, &action_history);
        proof {
            assert(action_history@.subrange(0, history.len() as int) =~= history);
            assert(action_history@.skip(history.len() as int) =~= Seq::<Action>::empty());
        }
        if result.is_some() {
            proof {
                lemma_extends_fits(*ctx, history, action_history@, start_state);
            }
            return (action_history, start_state);
        }
        let root = start_state.clone_strict(ctx);
        proof {
            lemma_game_legal(*ctx, start_state, spec_run(*ctx, spec_initial_state(*ctx), history).0);
            lemma_game_legal(*ctx, root, start_state);
        }
        let (actions, result_state) = Self::search_from(ctx, root, search_options);
        let ghost done = action_history@;
        let all = concat(action_history, &actions);
        proof {
            lemma_replays_same_game(*ctx, root, start_state, actions@, result_state);
            lemma_extends_append(*ctx, history, done, start_state, actions@, result_state);
            lemma_extends_fits(*ctx, history, all@, result_state);
        }
        (all, result_state)
    }
}

} // verus!
