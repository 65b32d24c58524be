use crafty::Action::{
    BasicSynthesis,
    BasicTouch,
    MastersMend,
    Observe,
    WasteNot,
    Veneration,
    StandardTouch,
    GreatStrides,
    Innovation,
    BasicSynthesisTraited,
    WasteNotII,
    ByregotsBlessing,
    MuscleMemory,
    Manipulation,
    AdvancedTouch,
    Reflect,
    PreparatoryTouch,
    Groundwork,
    DelicateSynthesis,
    TrainedEye,
    GroundworkTraited,
    DelicateSynthesisTraited,
    QuickInnovation,
    TrainedPerfection,
};
use crafty::{
    is_between, Action, Buffs, CraftContext, CraftOptions, CraftResult, CraftState, Player,
    Recipe, Simulator, ACTION_COUNT, SCORE_SCALE,
};

fn recipe(job_level: u32) -> Recipe {
    Recipe {
        recipe_level: 560,
        job_level,
        stars: 0,
        progress: 3500,
        quality: 7200,
        durability: 80,
        progress_div: 130,
        progress_mod: 90,
        quality_div: 115,
        quality_mod: 80,
        is_expert: false,
        conditions_flag: 15,
    }
}

fn context() -> CraftContext {
    let player = Player::new(90, 3304, 3374, 575);
    let options = CraftOptions {
        max_steps: 25,
        ..Default::default()
    };
    CraftContext::new(&player, &recipe(90), options)
}

fn all_actions() -> Vec<Action> {
    (0..ACTION_COUNT).map(|i| Action::from_index(i).unwrap()).collect()
}

#[test]
fn base_factors_and_pool() {
    let ctx = context();
    assert_eq!(ctx.base_progress_factor, 230);
    assert_eq!(ctx.base_quality_factor, 262);
    assert!(ctx.action_pool.contains(BasicSynthesisTraited));
    assert!(!ctx.action_pool.contains(BasicSynthesis));
    assert!(ctx.action_pool.contains(GroundworkTraited));
    assert!(!ctx.action_pool.contains(Groundwork));
    assert!(ctx.action_pool.contains(DelicateSynthesis));
    assert!(!ctx.action_pool.contains(DelicateSynthesisTraited));
    assert!(!ctx.action_pool.contains(TrainedEye));
    assert!(!ctx.action_pool.contains(TrainedPerfection));
    assert_eq!(ctx.durability_max, 80);
    assert_eq!(ctx.quality_target, 7200);
}

#[test]
fn reachable_states_stay_in_bounds() {
    let ctx = context();
    let actions = vec![
        MuscleMemory,
        Manipulation,
        MastersMend,
        WasteNotII,
        Innovation,
        DelicateSynthesis,
        BasicTouch,
        GreatStrides,
        ByregotsBlessing,
    ];
    let mut state = CraftState::new(&ctx);
    for action in actions {
        assert!(state.check_result(&ctx).is_none());
        assert!(state.progress < ctx.progress_target);
        assert!(state.durability > 0 && state.durability <= ctx.durability_max);
        assert!(state.cp <= ctx.cp_max);
        assert!(state.step < ctx.step_max);
        assert!(state.buffs.inner_quiet <= 10);
        for a in state.available_moves.to_vec() {
            assert!(ctx.action_pool.contains(a));
        }
        state = state.execute(&ctx, action);
    }
    assert_eq!(state.progress, 1150);
}

#[test]
fn execute_is_pure() {
    let ctx = context();
    let (start, _) = Simulator::simulate(&ctx, vec![Reflect, Innovation]);
    let mut visited = start;
    visited.visits = 12;
    visited.score_sum = 3_000_000;
    visited.max_score = 700_000;
    let a = start.execute(&ctx, PreparatoryTouch);
    let b = start.execute(&ctx, PreparatoryTouch);
    let c = visited.execute(&ctx, PreparatoryTouch);
    for next in [b, c] {
        assert_eq!(a.step, next.step);
        assert_eq!(a.progress, next.progress);
        assert_eq!(a.quality, next.quality);
        assert_eq!(a.durability, next.durability);
        assert_eq!(a.cp, next.cp);
        assert_eq!(a.buffs, next.buffs);
        assert_eq!(a.previous_combo_action, next.previous_combo_action);
        assert_eq!(a.action, next.action);
        assert_eq!(a.available_moves, next.available_moves);
        assert_eq!((next.visits, next.score_sum, next.max_score), (0, 0, 0));
    }
    // the state itself is left as it was
    assert_eq!(start.quality, 262);
    assert_eq!(start.step, 3);
}

#[test]
fn terminal_state_offers_no_moves() {
    let mut ctx = context();
    ctx.step_max = 2;
    let start = CraftState::new(&ctx);
    let next = start.execute(&ctx, BasicTouch);
    assert_eq!(next.step, 2);
    assert!(next.available_moves.is_empty());
    assert_eq!(next.check_result(&ctx), Some(CraftResult::MaxStepsFailure));
    assert!(next.legal_moves(&ctx, true).is_empty());
}

#[test]
fn score_grows_with_quality() {
    let ctx = context();
    let mut state = CraftState::new(&ctx);
    state.progress = ctx.progress_target;
    let mut last = 0;
    for quality in [0, 1000, 3600, 7199, 7200, 9000] {
        state.quality = quality;
        let score = state.score(&ctx);
        assert!(score >= last);
        last = score;
    }
    // every term at its maximum but the steps: 1 - 1/25
    assert_eq!(last, 200_000 + 650_000 + 50_000 + 50_000 + 48_000);
    assert!(last <= SCORE_SCALE);
    state.quality = 3600;
    assert_eq!(state.score(&ctx), 200_000 + 325_000 + 50_000 + 50_000 + 48_000);
}

#[test]
fn score_without_quality_target_counts_steps() {
    let player = Player::new(90, 3304, 3374, 575);
    let options = CraftOptions {
        max_steps: 20,
        quality_target: Some(0),
        ..Default::default()
    };
    let ctx = CraftContext::new(&player, &recipe(90), options);
    let mut state = CraftState::new(&ctx);
    state.step = 5;
    assert_eq!(state.score(&ctx), 750_000);
    assert_eq!(state.score_no_quality(&ctx), 750_000);
}

#[test]
fn check_result_ignores_search_statistics() {
    let ctx = context();
    let mut state = CraftState::new(&ctx);
    state.progress = ctx.progress_target;
    let first = state.check_result(&ctx);
    assert_eq!(first, state.check_result(&ctx));
    state.visits = 40;
    state.score_sum = 12_345;
    state.max_score = 999_999;
    assert_eq!(first, state.check_result(&ctx));
    let ongoing = CraftState::new(&ctx);
    assert_eq!(ongoing.check_result(&ctx), None);
}

#[test]
fn strict_moves_are_a_subset() {
    let ctx = context();
    let histories = vec![
        vec![],
        vec![Reflect],
        vec![MuscleMemory, Veneration],
        vec![Reflect, Innovation, Observe],
        vec![Reflect, WasteNot, PreparatoryTouch, PreparatoryTouch],
    ];
    for history in histories {
        let (state, _) = Simulator::simulate(&ctx, history);
        let strict = state.clone_strict(&ctx);
        for a in strict.available_moves.to_vec() {
            assert!(state.available_moves.contains(a));
        }
        assert!(strict.available_moves.len() <= state.available_moves.len());
    }
}

#[test]
fn combo_pricing() {
    let ctx = context();
    let (state, _) = Simulator::simulate(&ctx, vec![BasicTouch]);
    assert_eq!(state.cp, 575 - 18);
    let (state, _) = Simulator::simulate(&ctx, vec![BasicTouch, StandardTouch]);
    assert_eq!(state.cp, 575 - 18 - 18);
    let (state, _) = Simulator::simulate(&ctx, vec![BasicTouch, StandardTouch, AdvancedTouch]);
    assert_eq!(state.cp, 575 - 18 - 18 - 18);
    let (state, _) = Simulator::simulate(&ctx, vec![Observe, AdvancedTouch]);
    assert_eq!(state.cp, 575 - 7 - 18);
    // without the combo, the base costs apply
    let (state, _) = Simulator::simulate(&ctx, vec![StandardTouch, AdvancedTouch]);
    assert_eq!(state.cp, 575 - 32 - 46);
    let (state, _) = Simulator::simulate(&ctx, vec![Innovation, AdvancedTouch]);
    assert_eq!(state.cp, 575 - 18 - 46);
}

#[test]
fn trained_eye_is_forced_when_strict() {
    let player = Player::new(90, 3304, 3374, 575);
    let options = CraftOptions {
        max_steps: 25,
        ..Default::default()
    };
    let ctx = CraftContext::new(&player, &recipe(70), options);
    assert!(ctx.action_pool.contains(TrainedEye));
    let strict = CraftState::new_strict(&ctx);
    assert_eq!(strict.available_moves.to_vec(), vec![TrainedEye]);
    let loose = CraftState::new(&ctx);
    assert!(loose.available_moves.len() > 1);
    assert!(loose.available_moves.contains(TrainedEye));
    let after = strict.execute_strict(&ctx, TrainedEye);
    assert_eq!(after.quality, ctx.quality_target);
}

#[test]
fn quick_innovation_takes_no_step() {
    let player = Player::new(100, 4000, 4000, 600);
    let options = CraftOptions {
        max_steps: 25,
        use_delineation: true,
        ..Default::default()
    };
    let ctx = CraftContext::new(&player, &recipe(90), options);
    let start = CraftState::new(&ctx);
    assert!(start.available_moves.contains(QuickInnovation));
    let next = start.execute(&ctx, QuickInnovation);
    assert_eq!(next.step, 1);
    assert_eq!(next.buffs.innovation, 1);
    assert!(!next.quick_innovation_available);
    assert!(!next.available_moves.contains(QuickInnovation));
}

#[test]
fn trained_perfection_spares_one_action() {
    let player = Player::new(100, 4000, 4000, 600);
    let options = CraftOptions {
        max_steps: 25,
        ..Default::default()
    };
    let ctx = CraftContext::new(&player, &recipe(90), options);
    let (state, result) = Simulator::simulate(&ctx, vec![TrainedPerfection, BasicTouch, BasicTouch]);
    assert_eq!(result, None);
    assert_eq!(state.durability, 70);
    assert!(!state.available_moves.contains(TrainedPerfection));
}

#[test]
fn decrement_timers_spares_inner_quiet() {
    let mut buffs = Buffs::new();
    buffs.inner_quiet = 4;
    buffs.waste_not = 1;
    buffs.manipulation = 3;
    buffs.decrement_timers();
    assert_eq!(buffs.inner_quiet, 4);
    assert_eq!(buffs.waste_not, 0);
    assert_eq!(buffs.manipulation, 2);
    buffs.decrement_timers();
    assert_eq!(buffs.waste_not, 0);
}

#[test]
fn every_action_has_a_label() {
    for action in all_actions() {
        assert!(!action.label().is_empty());
        assert!(action.macro_text().starts_with("/ac "));
    }
}

#[test]
fn is_between_checks_range() {
    assert_eq!(is_between(&5, 1, 90, "job level"), Ok(()));
    assert_eq!(is_between(&1, 1, 1, "cp"), Ok(()));
    let err = is_between(&91, 1, 90, "job level").unwrap_err();
    assert_eq!(err.label, "job level");
    assert_eq!((err.min, err.max), (1, 90));
    assert!(is_between(&0, 1, 90, "recipe level").is_err());
}

#[test]
fn base_factor_floors_before_scaling() {
    let player = Player::new(90, 799, 799, 500);
    let mut r = recipe(90);
    r.progress_div = 1000;
    r.progress_mod = 110;
    r.quality_div = 1000;
    r.quality_mod = 110;
    let options = CraftOptions {
        max_steps: 25,
        ..Default::default()
    };
    let ctx = CraftContext::new(&player, &r, options);
    // floor(7990 / 1000 + 2) = 9, then floor(9 × 1.1) = 9
    assert_eq!(ctx.base_progress_factor, 9);
    // floor(7990 / 1000 + 35) = 42, then floor(42 × 1.1) = 46
    assert_eq!(ctx.base_quality_factor, 46);
}

#[test]
fn quick_innovation_is_played_once() {
    let player = Player::new(100, 4000, 4000, 600);
    let options = CraftOptions {
        max_steps: 25,
        use_delineation: true,
        ..Default::default()
    };
    let ctx = CraftContext::new(&player, &recipe(90), options);
    let (state, result) = Simulator::simulate(&ctx, vec![QuickInnovation, BasicTouch]);
    assert_eq!(result, None);
    assert_eq!(state.buffs.innovation, 0);
    assert!(!state.available_moves.contains(QuickInnovation));
    let (_, again) = Simulator::simulate(&ctx, vec![QuickInnovation, BasicTouch, QuickInnovation]);
    assert_eq!(again, Some(CraftResult::InvalidActionFailure));
}
