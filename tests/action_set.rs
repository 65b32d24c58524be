use crafty::Action::{
    BasicSynthesis,
    BasicTouch,
    Observe,
    GreatStrides,
    Innovation,
    BasicSynthesisTraited,
    WasteNotII,
    ByregotsBlessing,
    MuscleMemory,
    Reflect,
    Groundwork,
    GroundworkTraited,
    TrainedFinesse,
    TrainedPerfection,
};
use crafty::{Action, ActionSet, ACTION_COUNT};
use rand::rngs::SmallRng;
use rand::SeedableRng;

#[test]
fn set_and_unset_works() {
    let mut set = ActionSet::new();

    set.set(BasicTouch);
    set.set(BasicSynthesis);
    assert_eq!(set.len(), 2);

    set.unset(BasicTouch);
    set.unset(BasicSynthesis);
    assert!(set.is_empty());
}

#[test]
fn keep_works() {
    let mut set = ActionSet::new();
    set.set(BasicTouch);
    set.set(BasicSynthesis);
    set.set(GreatStrides);
    set.set(MuscleMemory);

    set.keep(|action| action != BasicTouch && action != GreatStrides);
    assert_eq!(set.len(), 2);
    assert!(set.contains(BasicSynthesis));
    assert!(set.contains(MuscleMemory));
}

#[test]
fn random_index_works() {
    let mut set = ActionSet::new();
    set.set(BasicTouch);
    set.set(BasicSynthesis);
    set.set(GreatStrides);
    set.set(TrainedFinesse);

    let mut counts = vec![0; ACTION_COUNT];
    let mut rng = SmallRng::seed_from_u64(1);
    for _ in 0..100 {
        let random_index = set.sample(&mut rng).index();

        assert!([
            BasicTouch.index(),
            BasicSynthesis.index(),
            GreatStrides.index(),
            TrainedFinesse.index(),
        ]
        .contains(&random_index));

        counts[random_index] += 1;
    }

    assert!(counts[BasicTouch.index()] > 0);
    assert!(counts[BasicSynthesis.index()] > 0);
    assert!(counts[GreatStrides.index()] > 0);
    assert!(counts[TrainedFinesse.index()] > 0);
}

#[test]
fn index_works() {
    let indices: Vec<usize> = (0..ACTION_COUNT)
        .map(|i| Action::from_index(i).unwrap().index())
        .collect();
    assert_eq!(indices, (0..ACTION_COUNT).collect::<Vec<usize>>());
    assert_eq!(BasicSynthesis.index(), 0);
    assert_eq!(TrainedPerfection.index(), ACTION_COUNT - 1);
}

#[test]
fn from_index_works() {
    assert_eq!(Action::from_index(0), Some(BasicSynthesis));
    assert_eq!(Action::from_index(1), Some(BasicTouch));
    assert_eq!(Action::from_index(ACTION_COUNT - 1), Some(TrainedPerfection));
    assert_eq!(Action::from_index(ACTION_COUNT), None);
}

#[test]
fn pick_removes_a_member() {
    let mut set = ActionSet::from_vec(&vec![Observe, Reflect, Observe]);
    assert_eq!(set.len(), 2);
    let mut rng = SmallRng::seed_from_u64(7);
    let first = set.pick(&mut rng);
    assert!(first == Observe || first == Reflect);
    assert!(!set.contains(first));
    assert_eq!(set.len(), 1);
    let second = set.pick(&mut rng);
    assert_ne!(first, second);
    assert!(set.is_empty());
}

#[test]
fn to_vec_lists_in_catalog_order() {
    let mut set = ActionSet::default();
    set.set(TrainedPerfection);
    set.set(Observe);
    set.set(BasicSynthesis);
    assert_eq!(set.to_vec(), vec![BasicSynthesis, Observe, TrainedPerfection]);
    assert_eq!(ActionSet::new().to_vec(), Vec::<Action>::new());
}

#[test]
fn macro_text_quotes_labels_and_waits() {
    assert_eq!(BasicSynthesis.macro_text(), "/ac \"Basic Synthesis\" <wait.3>");
    assert_eq!(Innovation.macro_text(), "/ac Innovation <wait.2>");
    assert_eq!(Observe.macro_text(), "/ac Observe <wait.3>");
    assert_eq!(WasteNotII.macro_text(), "/ac \"Waste Not II\" <wait.2>");
    assert_eq!(ByregotsBlessing.macro_text(), "/ac \"Byregot's Blessing\" <wait.3>");
}

#[test]
fn traited_variants() {
    assert_eq!(BasicSynthesis.traited(), BasicSynthesisTraited);
    assert_eq!(Groundwork.traited(), GroundworkTraited);
    assert_eq!(Observe.traited(), Observe);
    assert_eq!(BasicSynthesisTraited.label(), BasicSynthesis.label());
    assert_eq!(BasicSynthesis.name(), "BasicSynthesis");
}
