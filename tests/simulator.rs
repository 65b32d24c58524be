use crafty::Action::{
    BasicSynthesis,
    BasicTouch,
    MastersMend,
    WasteNot,
    Veneration,
    StandardTouch,
    GreatStrides,
    Innovation,
    WasteNotII,
    ByregotsBlessing,
    MuscleMemory,
    Manipulation,
    PrudentTouch,
    AdvancedTouch,
    Reflect,
    PreparatoryTouch,
    Groundwork,
    DelicateSynthesis,
    TrainedFinesse,
};
use crafty::{
    Action, CraftContext, CraftOptions, CraftResult, Player, Recipe, SearchOptions, Simulator,
};

fn options(max_steps: u8) -> CraftOptions {
    CraftOptions {
        max_steps,
        starting_quality: None,
        quality_target: None,
        player_is_specialist: false,
        use_manipulation: true,
        use_delineation: false,
    }
}

fn search_options(seed: u64) -> SearchOptions {
    SearchOptions {
        rng_seed: Some(seed),
        ..Default::default()
    }
}

fn setup_1() -> (CraftContext, SearchOptions) {
    let recipe = Recipe {
        recipe_level: 560,
        job_level: 90,
        stars: 0,
        progress: 3500,
        quality: 7200,
        durability: 80,
        progress_div: 130,
        progress_mod: 90,
        quality_div: 115,
        quality_mod: 80,
        is_expert: false,
        conditions_flag: 15,
    };
    let player = Player::new(90, 3304, 3374, 575);
    let context = CraftContext::new(&player, &recipe, options(25));
    (context, search_options(0))
}

fn setup_2() -> (CraftContext, SearchOptions) {
    let recipe = Recipe {
        recipe_level: 580,
        job_level: 90,
        stars: 2,
        progress: 3900,
        quality: 10920,
        durability: 70,
        progress_div: 130,
        progress_mod: 80,
        quality_div: 115,
        quality_mod: 70,
        is_expert: false,
        conditions_flag: 15,
    };
    let player = Player::new(90, 3290, 3541, 649);
    let context = CraftContext::new(&player, &recipe, options(25));
    (context, search_options(123))
}

fn assert_craft(
    context: &CraftContext,
    actions: Vec<Action>,
    progress: u32,
    quality: u32,
    durability: i8,
    cp: u32,
) {
    let (end_state, _) = Simulator::simulate(context, actions);
    assert_eq!(end_state.progress, progress);
    assert_eq!(end_state.quality, quality);
    assert_eq!(end_state.durability, durability);
    assert_eq!(end_state.cp, cp);
}

#[test]
fn basic_actions() {
    let actions = vec![BasicTouch, BasicSynthesis, MastersMend];
    let (context, _) = setup_1();
    assert_craft(&context, actions, 276, 262, 80, 469);
}

#[test]
fn basic_touch_combo() {
    let actions = vec![
        Innovation,
        BasicTouch,
        StandardTouch,
        AdvancedTouch,
        StandardTouch,
        AdvancedTouch,
    ];
    let (context, _) = setup_1();
    assert_craft(&context, actions, 0, 2828, 30, 425);
}

#[test]
fn with_buffs_1() {
    let actions = vec![Reflect, Manipulation, PreparatoryTouch, WasteNotII];
    let (context, _) = setup_1();
    assert_craft(&context, actions, 0, 890, 60, 335);
}

#[test]
fn with_buffs_2() {
    let actions = vec![MuscleMemory, GreatStrides, PrudentTouch, DelicateSynthesis];
    let (context, _) = setup_1();
    assert_craft(&context, actions, 1150, 812, 55, 480);
}

#[test]
fn with_buffs_3() {
    let actions = vec![
        MuscleMemory,
        Manipulation,
        MastersMend,
        WasteNotII,
        Innovation,
        DelicateSynthesis,
        BasicTouch,
        GreatStrides,
        ByregotsBlessing,
    ];
    let (context, _) = setup_1();
    assert_craft(&context, actions, 1150, 1925, 80, 163);
}

#[test]
fn trained_finesse_procs() {
    let actions = vec![
        Reflect,
        WasteNot,
        PreparatoryTouch,
        PreparatoryTouch,
        BasicTouch,
        StandardTouch,
        PrudentTouch,
        PreparatoryTouch,
    ];
    let (context, _) = setup_1();
    let (end_state, _) = Simulator::simulate(&context, actions);
    // 10 stacks of IQ
    assert_eq!(10, end_state.buffs.inner_quiet);
    // should proc Trained Finesse
    assert!(end_state.available_moves.contains(TrainedFinesse));
}

#[test]
fn rotation_should_not_panic_1() {
    let actions = vec![
        Reflect,
        Manipulation,
        PreparatoryTouch,
        WasteNotII,
        PreparatoryTouch,
        Innovation,
        PreparatoryTouch,
        PreparatoryTouch,
        GreatStrides,
        ByregotsBlessing,
        Veneration,
        Groundwork,
        Groundwork,
        Groundwork,
    ];
    let (context, _) = setup_1();
    Simulator::simulate(&context, actions);
}

#[test]
fn rotation_should_not_panic_2() {
    let actions = vec![
        MuscleMemory,
        Manipulation,
        Veneration,
        WasteNotII,
        Groundwork,
        Groundwork,
        StandardTouch,
        Innovation,
        PreparatoryTouch,
        PreparatoryTouch,
        PreparatoryTouch,
        PreparatoryTouch,
        GreatStrides,
        Innovation,
        PreparatoryTouch,
        TrainedFinesse,
        GreatStrides,
        ByregotsBlessing,
    ];
    let (context, _) = setup_2();
    Simulator::simulate(&context, actions);
}

#[test]
fn search_should_not_panic() {
    let (context, options) = setup_2();
    Simulator::search_oneshot(&context, vec![], options);
}

#[test]
fn search_oneshot_fits_step_limit() {
    let (context, options) = setup_1();
    let (actions, state) = Simulator::search_oneshot(&context, vec![], options);
    assert!(actions.len() <= context.step_max as usize);
    assert!(state.step <= context.step_max);
}

#[test]
fn search_oneshot_keeps_history_first() {
    let (context, options) = setup_1();
    let history = vec![MuscleMemory, Manipulation];
    let search = SearchOptions { iterations: 300, ..options };
    let (actions, _) = Simulator::search_oneshot(&context, history.clone(), search);
    assert_eq!(&actions[..2], &history[..]);
}

#[test]
fn search_oneshot_is_deterministic_for_a_seed() {
    let (context, options) = setup_1();
    let search = SearchOptions { iterations: 2000, ..options };
    let (actions_a, state_a) = Simulator::search_oneshot(&context, vec![], search);
    let (actions_b, state_b) = Simulator::search_oneshot(&context, vec![], search);
    assert_eq!(actions_a, actions_b);
    assert_eq!(state_a.progress, state_b.progress);
    assert_eq!(state_a.quality, state_b.quality);
    assert_eq!(state_a.durability, state_b.durability);
    assert_eq!(state_a.cp, state_b.cp);
    assert_eq!(state_a.step, state_b.step);
    assert_eq!(state_a.max_score, state_b.max_score);
    assert_eq!(state_a.visits, state_b.visits);
    assert_eq!(state_a.buffs, state_b.buffs);
}

#[test]
fn search_stepwise_calls_back_each_step() {
    let (context, options) = setup_1();
    let search = SearchOptions { iterations: 200, ..options };
    let seen = std::cell::RefCell::new(Vec::new());
    let callback = |action: Action| seen.borrow_mut().push(action);
    let (actions, state) = Simulator::search_stepwise(&context, vec![], search, Some(callback));
    assert!(!actions.is_empty());
    let seen = seen.into_inner();
    assert!(seen.len() <= actions.len());
    assert_eq!(&actions[..seen.len()], &seen[..]);
    assert!(state.step <= context.step_max);
}

#[test]
fn simulate_rejects_an_unavailable_action() {
    let (context, _) = setup_1();
    // Reflect is only allowed on the first step
    let (state, result) = Simulator::simulate(&context, vec![BasicTouch, Reflect, BasicTouch]);
    assert_eq!(result, Some(CraftResult::InvalidActionFailure));
    assert_eq!(state.step, 2);
    assert_eq!(state.quality, 262);
}

#[test]
fn simulate_reports_max_steps() {
    let (mut context, _) = setup_1();
    context.step_max = 3;
    let (state, result) = Simulator::simulate(&context, vec![BasicTouch, BasicTouch, BasicTouch]);
    assert_eq!(result, Some(CraftResult::MaxStepsFailure));
    assert_eq!(state.step, 3);
    assert!(state.available_moves.is_empty());
}

#[test]
fn simulate_reports_durability_failure() {
    let (mut context, _) = setup_1();
    context.durability_max = 20;
    let (state, result) = Simulator::simulate(&context, vec![BasicTouch, BasicTouch]);
    assert_eq!(result, Some(CraftResult::DurabilityFailure));
    assert_eq!(state.durability, 0);
    assert!(state.available_moves.is_empty());
}

#[test]
fn simulate_reports_finished_with_score() {
    let (mut context, _) = setup_1();
    context.progress_target = 600;
    // 690 progress from Muscle Memory completes the craft at step 2
    let (state, result) = Simulator::simulate(&context, vec![MuscleMemory]);
    assert_eq!(state.progress, 690);
    // 200000 progress + 0 quality + 50000 * 70/80 + 50000 * 569/575 + 50000 * 23/25
    let expected = 200_000 + 43_750 + 49_478 + 46_000;
    assert_eq!(result, Some(CraftResult::Finished(expected)));
    assert_eq!(state.score(&context), expected);
}

#[test]
fn simulate_without_actions_is_the_start() {
    let (context, _) = setup_1();
    let (state, result) = Simulator::simulate(&context, vec![]);
    assert_eq!(result, None);
    assert_eq!(state.step, 1);
    assert_eq!(state.cp, 575);
    assert_eq!(state.durability, 80);
    assert!(state.available_moves.contains(Reflect));
}

#[test]
fn search_stepwise_ends_the_craft() {
    let (context, options) = setup_1();
    let search = SearchOptions { iterations: 100, ..options };
    let (actions, state) =
        Simulator::search_stepwise(&context, vec![Reflect], search, None::<fn(Action)>);
    assert_eq!(actions[0], Reflect);
    assert!(actions.len() > 1);
    assert!(state.check_result(&context).is_some());
}

#[test]
fn search_stepwise_keeps_an_invalid_history() {
    let (context, options) = setup_1();
    let history = vec![BasicTouch, Reflect];
    let calls = std::cell::Cell::new(0);
    let callback = |_: Action| calls.set(calls.get() + 1);
    let (actions, state) =
        Simulator::search_stepwise(&context, history.clone(), options, Some(callback));
    assert_eq!(actions, history);
    assert_eq!(calls.get(), 0);
    let (simulated, _) = Simulator::simulate(&context, history);
    assert_eq!(state.step, simulated.step);
    assert_eq!(state.quality, simulated.quality);
    assert_eq!(state.available_moves, simulated.available_moves);
}

#[test]
fn search_oneshot_extends_a_running_craft() {
    let (context, options) = setup_1();
    let search = SearchOptions { iterations: 1, ..options };
    let (actions, _) = Simulator::search_oneshot(&context, vec![MuscleMemory], search);
    assert!(actions.len() > 1);
    let none = SearchOptions { iterations: 0, ..options };
    let (actions, state) = Simulator::search_oneshot(&context, vec![MuscleMemory], none);
    assert_eq!(actions, vec![MuscleMemory]);
    assert_eq!(state.step, 2);
}
