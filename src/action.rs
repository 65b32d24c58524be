use vstd::prelude::*;

verus! {

/// Number of actions in the catalog; indices are dense in `0..ACTION_COUNT`.
pub const ACTION_COUNT: usize = 31;

/// Every crafting action, in catalog order.
#[derive(Debug, Clone, Copy, PartialEq, Eq, Hash, Structural)]
pub enum Action {
    BasicSynthesis,
    BasicTouch,
    MastersMend,
    Observe,
    WasteNot,
    Veneration,
    StandardTouch,
    GreatStrides,
    Innovation,
    BasicSynthesisTraited,
    WasteNotII,
    ByregotsBlessing,
    MuscleMemory,
    CarefulSynthesis,
    Manipulation,
    PrudentTouch,
    AdvancedTouch,
    Reflect,
    PreparatoryTouch,
    Groundwork,
    DelicateSynthesis,
    TrainedEye,
    CarefulSynthesisTraited,
    GroundworkTraited,
    PrudentSynthesis,
    TrainedFinesse,
    RefinedTouch,
    DelicateSynthesisTraited,
    QuickInnovation,
    ImmaculateMend,
    TrainedPerfection,
}

/// The static attributes of an action.
///
/// An efficiency of `Some(0)` marks an action that does move progress or
/// quality but computes its increase specially. A durability cost of
/// `Some(0)` marks an action that is not a buff although it costs nothing.
#[derive(Debug, Clone, Copy, PartialEq, Eq, Structural)]
pub struct Attributes {
    pub level: u32,
    pub progress_efficiency: Option<u32>,
    pub quality_efficiency: Option<u32>,
    pub durability_cost: Option<i8>,
    pub cp_cost: Option<u32>,
}

impl Action {
    /// Position of the action in the catalog.
    pub open spec fn spec_index(self) -> nat {
        match self {
            Action::BasicSynthesis => 0,
            Action::BasicTouch => 1,
            Action::MastersMend => 2,
            Action::Observe => 3,
            Action::WasteNot => 4,
            Action::Veneration => 5,
            Action::StandardTouch => 6,
            Action::GreatStrides => 7,
            Action::Innovation => 8,
            Action::BasicSynthesisTraited => 9,
            Action::WasteNotII => 10,
            Action::ByregotsBlessing => 11,
            Action::MuscleMemory => 12,
            Action::CarefulSynthesis => 13,
            Action::Manipulation => 14,
            Action::PrudentTouch => 15,
            Action::AdvancedTouch => 16,
            Action::Reflect => 17,
            Action::PreparatoryTouch => 18,
            Action::Groundwork => 19,
            Action::DelicateSynthesis => 20,
            Action::TrainedEye => 21,
            Action::CarefulSynthesisTraited => 22,
            Action::GroundworkTraited => 23,
            Action::PrudentSynthesis => 24,
            Action::TrainedFinesse => 25,
            Action::RefinedTouch => 26,
            Action::DelicateSynthesisTraited => 27,
            Action::QuickInnovation => 28,
            Action::ImmaculateMend => 29,
            Action::TrainedPerfection => 30,
        }
    }

    /// The action at a catalog position, if there is one.
    pub open spec fn spec_from_index(i: nat) -> Option<Action> {
        if i == 0 {
            Some(Action::BasicSynthesis)
        }         else if i == 1 {
            Some(Action::BasicTouch)
        }         else if i == 2 {
            Some(Action::MastersMend)
        }         else if i == 3 {
            Some(Action::Observe)
        }         else if i == 4 {
            Some(Action::WasteNot)
        }         else if i == 5 {
            Some(Action::Veneration)
        }         else if i == 6 {
            Some(Action::StandardTouch)
        }         else if i == 7 {
            Some(Action::GreatStrides)
        }         else if i == 8 {
            Some(Action::Innovation)
        }         else if i == 9 {
            Some(Action::BasicSynthesisTraited)
        }         else if i == 10 {
            Some(Action::WasteNotII)
        }         else if i == 11 {
            Some(Action::ByregotsBlessing)
        }         else if i == 12 {
            Some(Action::MuscleMemory)
        }         else if i == 13 {
            Some(Action::CarefulSynthesis)
        }         else if i == 14 {
            Some(Action::Manipulation)
        }         else if i == 15 {
            Some(Action::PrudentTouch)
        }         else if i == 16 {
            Some(Action::AdvancedTouch)
        }         else if i == 17 {
            Some(Action::Reflect)
        }         else if i == 18 {
            Some(Action::PreparatoryTouch)
        }         else if i == 19 {
            Some(Action::Groundwork)
        }         else if i == 20 {
            Some(Action::DelicateSynthesis)
        }         else if i == 21 {
            Some(Action::TrainedEye)
        }         else if i == 22 {
            Some(Action::CarefulSynthesisTraited)
        }         else if i == 23 {
            Some(Action::GroundworkTraited)
        }         else if i == 24 {
            Some(Action::PrudentSynthesis)
        }         else if i == 25 {
            Some(Action::TrainedFinesse)
        }         else if i == 26 {
            Some(Action::RefinedTouch)
        }         else if i == 27 {
            Some(Action::DelicateSynthesisTraited)
        }         else if i == 28 {
            Some(Action::QuickInnovation)
        }         else if i == 29 {
            Some(Action::ImmaculateMend)
        }         else if i == 30 {
            Some(Action::TrainedPerfection)
        } else {
            None
        }
    }

    pub open spec fn spec_attributes(self) -> Attributes {
        match self {
            Action::BasicSynthesis => Attributes {
                level: 1,
                progress_efficiency: Some(100),
                quality_efficiency: None,
                durability_cost: Some(10),
                cp_cost: None,
            },
            Action::BasicTouch => Attributes {
                level: 5,
                progress_efficiency: None,
                quality_efficiency: Some(100),
                durability_cost: Some(10),
                cp_cost: Some(18),
            },
            Action::MastersMend => Attributes {
                level: 7,
                progress_efficiency: None,
                quality_efficiency: None,
                durability_cost: Some(0),
                cp_cost: Some(88),
            },
            Action::Observe => Attributes {
                level: 13,
                progress_efficiency: None,
                quality_efficiency: None,
                durability_cost: Some(0),
                cp_cost: Some(7),
            },
            Action::WasteNot => Attributes {
                level: 15,
                progress_efficiency: None,
                quality_efficiency: None,
                durability_cost: None,
                cp_cost: Some(56),
            },
            Action::Veneration => Attributes {
                level: 15,
                progress_efficiency: None,
                quality_efficiency: None,
                durability_cost: None,
                cp_cost: Some(18),
            },
            Action::StandardTouch => Attributes {
                level: 18,
                progress_efficiency: None,
                quality_efficiency: Some(125),
                durability_cost: Some(10),
                cp_cost: Some(32),
            },
            Action::GreatStrides => Attributes {
                level: 21,
                progress_efficiency: None,
                quality_efficiency: None,
                durability_cost: None,
                cp_cost: Some(32),
            },
            Action::Innovation => Attributes {
                level: 26,
                progress_efficiency: None,
                quality_efficiency: None,
                durability_cost: None,
                cp_cost: Some(18),
            },
            Action::BasicSynthesisTraited => Attributes {
                level: 31,
                progress_efficiency: Some(120),
                quality_efficiency: None,
                durability_cost: Some(10),
                cp_cost: None,
            },
            Action::WasteNotII => Attributes {
                level: 47,
                progress_efficiency: None,
                quality_efficiency: None,
                durability_cost: None,
                cp_cost: Some(98),
            },
            Action::ByregotsBlessing => Attributes {
                level: 50,
                progress_efficiency: None,
                quality_efficiency: Some(0),
                durability_cost: Some(10),
                cp_cost: Some(24),
            },
            Action::MuscleMemory => Attributes {
                level: 54,
                progress_efficiency: Some(300),
                quality_efficiency: None,
                durability_cost: Some(10),
                cp_cost: Some(6),
            },
            Action::CarefulSynthesis => Attributes {
                level: 62,
                progress_efficiency: Some(150),
                quality_efficiency: None,
                durability_cost: Some(10),
                cp_cost: Some(7),
            },
            Action::Manipulation => Attributes {
                level: 65,
                progress_efficiency: None,
                quality_efficiency: None,
                durability_cost: None,
                cp_cost: Some(96),
            },
            Action::PrudentTouch => Attributes {
                level: 66,
                progress_efficiency: None,
                quality_efficiency: Some(100),
                durability_cost: Some(5),
                cp_cost: Some(25),
            },
            Action::AdvancedTouch => Attributes {
                level: 68,
                progress_efficiency: None,
                quality_efficiency: Some(150),
                durability_cost: Some(10),
                cp_cost: Some(46),
            },
            Action::Reflect => Attributes {
                level: 69,
                progress_efficiency: None,
                quality_efficiency: Some(100),
                durability_cost: Some(10),
                cp_cost: Some(6),
            },
            Action::PreparatoryTouch => Attributes {
                level: 71,
                progress_efficiency: None,
                quality_efficiency: Some(200),
                durability_cost: Some(20),
                cp_cost: Some(40),
            },
            Action::Groundwork => Attributes {
                level: 72,
                progress_efficiency: Some(300),
                quality_efficiency: None,
                durability_cost: Some(20),
                cp_cost: Some(18),
            },
            Action::DelicateSynthesis => Attributes {
                level: 76,
                progress_efficiency: Some(100),
                quality_efficiency: Some(100),
                durability_cost: Some(10),
                cp_cost: Some(32),
            },
            Action::TrainedEye => Attributes {
                level: 80,
                progress_efficiency: None,
                quality_efficiency: Some(0),
                durability_cost: Some(0),
                cp_cost: Some(250),
            },
            Action::CarefulSynthesisTraited => Attributes {
                level: 82,
                progress_efficiency: Some(180),
                quality_efficiency: None,
                durability_cost: Some(10),
                cp_cost: Some(7),
            },
            Action::GroundworkTraited => Attributes {
                level: 86,
                progress_efficiency: Some(360),
                quality_efficiency: None,
                durability_cost: Some(20),
                cp_cost: Some(18),
            },
            Action::PrudentSynthesis => Attributes {
                level: 88,
                progress_efficiency: Some(180),
                quality_efficiency: None,
                durability_cost: Some(5),
                cp_cost: Some(18),
            },
            Action::TrainedFinesse => Attributes {
                level: 90,
                progress_efficiency: None,
                quality_efficiency: Some(100),
                durability_cost: None,
                cp_cost: Some(32),
            },
            Action::RefinedTouch => Attributes {
                level: 92,
                progress_efficiency: None,
                quality_efficiency: Some(100),
                durability_cost: None,
                cp_cost: Some(24),
            },
            Action::DelicateSynthesisTraited => Attributes {
                level: 94,
                progress_efficiency: Some(150),
                quality_efficiency: Some(100),
                durability_cost: Some(10),
                cp_cost: Some(32),
            },
            Action::QuickInnovation => Attributes {
                level: 96,
                progress_efficiency: None,
                quality_efficiency: None,
                durability_cost: None,
                cp_cost: None,
            },
            Action::ImmaculateMend => Attributes {
                level: 98,
                progress_efficiency: None,
                quality_efficiency: None,
                durability_cost: Some(0),
                cp_cost: Some(112),
            },
            Action::TrainedPerfection => Attributes {
                level: 100,
                progress_efficiency: None,
                quality_efficiency: None,
                durability_cost: Some(0),
                cp_cost: None,
            },
        }
    }

    /// The catalog position of the action.
    pub fn index(&self) -> (r: usize)
        ensures
            r == self.spec_index(),
            r < ACTION_COUNT,
    {
        match self {
            Action::BasicSynthesis => 0,
            Action::BasicTouch => 1,
            Action::MastersMend => 2,
            Action::Observe => 3,
            Action::WasteNot => 4,
            Action::Veneration => 5,
            Action::StandardTouch => 6,
            Action::GreatStrides => 7,
            Action::Innovation => 8,
            Action::BasicSynthesisTraited => 9,
            Action::WasteNotII => 10,
            Action::ByregotsBlessing => 11,
            Action::MuscleMemory => 12,
            Action::CarefulSynthesis => 13,
            Action::Manipulation => 14,
            Action::PrudentTouch => 15,
            Action::AdvancedTouch => 16,
            Action::Reflect => 17,
            Action::PreparatoryTouch => 18,
            Action::Groundwork => 19,
            Action::DelicateSynthesis => 20,
            Action::TrainedEye => 21,
            Action::CarefulSynthesisTraited => 22,
            Action::GroundworkTraited => 23,
            Action::PrudentSynthesis => 24,
            Action::TrainedFinesse => 25,
            Action::RefinedTouch => 26,
            Action::DelicateSynthesisTraited => 27,
            Action::QuickInnovation => 28,
            Action::ImmaculateMend => 29,
            Action::TrainedPerfection => 30,
        }
    }

    /// The action at catalog position `index`, or `None` past the end.
    pub fn from_index(index: usize) -> (r: Option<Action>)
        ensures
            r == Action::spec_from_index(index as nat),
    {
        match index {
            0 => Some(Action::BasicSynthesis),
            1 => Some(Action::BasicTouch),
            2 => Some(Action::MastersMend),
            3 => Some(Action::Observe),
            4 => Some(Action::WasteNot),
            5 => Some(Action::Veneration),
            6 => Some(Action::StandardTouch),
            7 => Some(Action::GreatStrides),
            8 => Some(Action::Innovation),
            9 => Some(Action::BasicSynthesisTraited),
            10 => Some(Action::WasteNotII),
            11 => Some(Action::ByregotsBlessing),
            12 => Some(Action::MuscleMemory),
            13 => Some(Action::CarefulSynthesis),
            14 => Some(Action::Manipulation),
            15 => Some(Action::PrudentTouch),
            16 => Some(Action::AdvancedTouch),
            17 => Some(Action::Reflect),
            18 => Some(Action::PreparatoryTouch),
            19 => Some(Action::Groundwork),
            20 => Some(Action::DelicateSynthesis),
            21 => Some(Action::TrainedEye),
            22 => Some(Action::CarefulSynthesisTraited),
            23 => Some(Action::GroundworkTraited),
            24 => Some(Action::PrudentSynthesis),
            25 => Some(Action::TrainedFinesse),
            26 => Some(Action::RefinedTouch),
            27 => Some(Action::DelicateSynthesisTraited),
            28 => Some(Action::QuickInnovation),
            29 => Some(Action::ImmaculateMend),
            30 => Some(Action::TrainedPerfection),
            _ => None,
        }
    }

    /// The static attributes of the action.
    pub fn attributes(&self) -> (r: Attributes)
        ensures
            r == self.spec_attributes(),
    {
        match self {
            Action::BasicSynthesis => Attributes {
                level: 1,
                progress_efficiency: Some(100),
                quality_efficiency: None,
                durability_cost: Some(10),
                cp_cost: None,
            },
            Action::BasicTouch => Attributes {
                level: 5,
                progress_efficiency: None,
                quality_efficiency: Some(100),
                durability_cost: Some(10),
                cp_cost: Some(18),
            },
            Action::MastersMend => Attributes {
                level: 7,
                progress_efficiency: None,
                quality_efficiency: None,
                durability_cost: Some(0),
                cp_cost: Some(88),
            },
            Action::Observe => Attributes {
                level: 13,
                progress_efficiency: None,
                quality_efficiency: None,
                durability_cost: Some(0),
                cp_cost: Some(7),
            },
            Action::WasteNot => Attributes {
                level: 15,
                progress_efficiency: None,
                quality_efficiency: None,
                durability_cost: None,
                cp_cost: Some(56),
            },
            Action::Veneration => Attributes {
                level: 15,
                progress_efficiency: None,
                quality_efficiency: None,
                durability_cost: None,
                cp_cost: Some(18),
            },
            Action::StandardTouch => Attributes {
                level: 18,
                progress_efficiency: None,
                quality_efficiency: Some(125),
                durability_cost: Some(10),
                cp_cost: Some(32),
            },
            Action::GreatStrides => Attributes {
                level: 21,
                progress_efficiency: None,
                quality_efficiency: None,
                durability_cost: None,
                cp_cost: Some(32),
            },
            Action::Innovation => Attributes {
                level: 26,
                progress_efficiency: None,
                quality_efficiency: None,
                durability_cost: None,
                cp_cost: Some(18),
            },
            Action::BasicSynthesisTraited => Attributes {
                level: 31,
                progress_efficiency: Some(120),
                quality_efficiency: None,
                durability_cost: Some(10),
                cp_cost: None,
            },
            Action::WasteNotII => Attributes {
                level: 47,
                progress_efficiency: None,
                quality_efficiency: None,
                durability_cost: None,
                cp_cost: Some(98),
            },
            Action::ByregotsBlessing => Attributes {
                level: 50,
                progress_efficiency: None,
                quality_efficiency: Some(0),
                durability_cost: Some(10),
                cp_cost: Some(24),
            },
            Action::MuscleMemory => Attributes {
                level: 54,
                progress_efficiency: Some(300),
                quality_efficiency: None,
                durability_cost: Some(10),
                cp_cost: Some(6),
            },
            Action::CarefulSynthesis => Attributes {
                level: 62,
                progress_efficiency: Some(150),
                quality_efficiency: None,
                durability_cost: Some(10),
                cp_cost: Some(7),
            },
            Action::Manipulation => Attributes {
                level: 65,
                progress_efficiency: None,
                quality_efficiency: None,
                durability_cost: None,
                cp_cost: Some(96),
            },
            Action::PrudentTouch => Attributes {
                level: 66,
                progress_efficiency: None,
                quality_efficiency: Some(100),
                durability_cost: Some(5),
                cp_cost: Some(25),
            },
            Action::AdvancedTouch => Attributes {
                level: 68,
                progress_efficiency: None,
                quality_efficiency: Some(150),
                durability_cost: Some(10),
                cp_cost: Some(46),
            },
            Action::Reflect => Attributes {
                level: 69,
                progress_efficiency: None,
                quality_efficiency: Some(100),
                durability_cost: Some(10),
                cp_cost: Some(6),
            },
            Action::PreparatoryTouch => Attributes {
                level: 71,
                progress_efficiency: None,
                quality_efficiency: Some(200),
                durability_cost: Some(20),
                cp_cost: Some(40),
            },
            Action::Groundwork => Attributes {
                level: 72,
                progress_efficiency: Some(300),
                quality_efficiency: None,
                durability_cost: Some(20),
                cp_cost: Some(18),
            },
            Action::DelicateSynthesis => Attributes {
                level: 76,
                progress_efficiency: Some(100),
                quality_efficiency: Some(100),
                durability_cost: Some(10),
                cp_cost: Some(32),
            },
            Action::TrainedEye => Attributes {
                level: 80,
                progress_efficiency: None,
                quality_efficiency: Some(0),
                durability_cost: Some(0),
                cp_cost: Some(250),
            },
            Action::CarefulSynthesisTraited => Attributes {
                level: 82,
                progress_efficiency: Some(180),
                quality_efficiency: None,
                durability_cost: Some(10),
                cp_cost: Some(7),
            },
            Action::GroundworkTraited => Attributes {
                level: 86,
                progress_efficiency: Some(360),
                quality_efficiency: None,
                durability_cost: Some(20),
                cp_cost: Some(18),
            },
            Action::PrudentSynthesis => Attributes {
                level: 88,
                progress_efficiency: Some(180),
                quality_efficiency: None,
                durability_cost: Some(5),
                cp_cost: Some(18),
            },
            Action::TrainedFinesse => Attributes {
                level: 90,
                progress_efficiency: None,
                quality_efficiency: Some(100),
                durability_cost: None,
                cp_cost: Some(32),
            },
            Action::RefinedTouch => Attributes {
                level: 92,
                progress_efficiency: None,
                quality_efficiency: Some(100),
                durability_cost: None,
                cp_cost: Some(24),
            },
            Action::DelicateSynthesisTraited => Attributes {
                level: 94,
                progress_efficiency: Some(150),
                quality_efficiency: Some(100),
                durability_cost: Some(10),
                cp_cost: Some(32),
            },
            Action::QuickInnovation => Attributes {
                level: 96,
                progress_efficiency: None,
                quality_efficiency: None,
                durability_cost: None,
                cp_cost: None,
            },
            Action::ImmaculateMend => Attributes {
                level: 98,
                progress_efficiency: None,
                quality_efficiency: None,
                durability_cost: Some(0),
                cp_cost: Some(112),
            },
            Action::TrainedPerfection => Attributes {
                level: 100,
                progress_efficiency: None,
                quality_efficiency: None,
                durability_cost: Some(0),
                cp_cost: None,
            },
        }
    }

    /// The identifier of the action, as written in action lists.
    pub open spec fn spec_name(self) -> Seq<char> {
        match self {
            Action::BasicSynthesis => "BasicSynthesis"@,
            Action::BasicTouch => "BasicTouch"@,
            Action::MastersMend => "MastersMend"@,
            Action::Observe => "Observe"@,
            Action::WasteNot => "WasteNot"@,
            Action::Veneration => "Veneration"@,
            Action::StandardTouch => "StandardTouch"@,
            Action::GreatStrides => "GreatStrides"@,
            Action::Innovation => "Innovation"@,
            Action::BasicSynthesisTraited => "BasicSynthesisTraited"@,
            Action::WasteNotII => "WasteNotII"@,
            Action::ByregotsBlessing => "ByregotsBlessing"@,
            Action::MuscleMemory => "MuscleMemory"@,
            Action::CarefulSynthesis => "CarefulSynthesis"@,
            Action::Manipulation => "Manipulation"@,
            Action::PrudentTouch => "PrudentTouch"@,
            Action::AdvancedTouch => "AdvancedTouch"@,
            Action::Reflect => "Reflect"@,
            Action::PreparatoryTouch => "PreparatoryTouch"@,
            Action::Groundwork => "Groundwork"@,
            Action::DelicateSynthesis => "DelicateSynthesis"@,
            Action::TrainedEye => "TrainedEye"@,
            Action::CarefulSynthesisTraited => "CarefulSynthesisTraited"@,
            Action::GroundworkTraited => "GroundworkTraited"@,
            Action::PrudentSynthesis => "PrudentSynthesis"@,
            Action::TrainedFinesse => "TrainedFinesse"@,
            Action::RefinedTouch => "RefinedTouch"@,
            Action::DelicateSynthesisTraited => "DelicateSynthesisTraited"@,
            Action::QuickInnovation => "QuickInnovation"@,
            Action::ImmaculateMend => "ImmaculateMend"@,
            Action::TrainedPerfection => "TrainedPerfection"@,
        }
    }

    /// The identifier of the action, as written in action lists.
    pub fn name(&self) -> (r: &'static str)
        ensures
            r@ == self.spec_name(),
    {
        match self {
            Action::BasicSynthesis => "BasicSynthesis",
            Action::BasicTouch => "BasicTouch",
            Action::MastersMend => "MastersMend",
            Action::Observe => "Observe",
            Action::WasteNot => "WasteNot",
            Action::Veneration => "Veneration",
            Action::StandardTouch => "StandardTouch",
            Action::GreatStrides => "GreatStrides",
            Action::Innovation => "Innovation",
            Action::BasicSynthesisTraited => "BasicSynthesisTraited",
            Action::WasteNotII => "WasteNotII",
            Action::ByregotsBlessing => "ByregotsBlessing",
            Action::MuscleMemory => "MuscleMemory",
            Action::CarefulSynthesis => "CarefulSynthesis",
            Action::Manipulation => "Manipulation",
            Action::PrudentTouch => "PrudentTouch",
            Action::AdvancedTouch => "AdvancedTouch",
            Action::Reflect => "Reflect",
            Action::PreparatoryTouch => "PreparatoryTouch",
            Action::Groundwork => "Groundwork",
            Action::DelicateSynthesis => "DelicateSynthesis",
            Action::TrainedEye => "TrainedEye",
            Action::CarefulSynthesisTraited => "CarefulSynthesisTraited",
            Action::GroundworkTraited => "GroundworkTraited",
            Action::PrudentSynthesis => "PrudentSynthesis",
            Action::TrainedFinesse => "TrainedFinesse",
            Action::RefinedTouch => "RefinedTouch",
            Action::DelicateSynthesisTraited => "DelicateSynthesisTraited",
            Action::QuickInnovation => "QuickInnovation",
            Action::ImmaculateMend => "ImmaculateMend",
            Action::TrainedPerfection => "TrainedPerfection",
        }
    }

    /// The in-game label of the action.
    pub open spec fn spec_label(self) -> Seq<char> {
        match self {
            Action::BasicSynthesis => "Basic Synthesis"@,
            Action::BasicTouch => "Basic Touch"@,
            Action::MastersMend => "Master's Mend"@,
            Action::Observe => "Observe"@,
            Action::WasteNot => "Waste Not"@,
            Action::Veneration => "Veneration"@,
            Action::StandardTouch => "Standard Touch"@,
            Action::GreatStrides => "Great Strides"@,
            Action::Innovation => "Innovation"@,
            Action::BasicSynthesisTraited => "Basic Synthesis"@,
            Action::WasteNotII => "Waste Not II"@,
            Action::ByregotsBlessing => "Byregot's Blessing"@,
            Action::MuscleMemory => "Muscle Memory"@,
            Action::CarefulSynthesis => "Careful Synthesis"@,
            Action::Manipulation => "Manipulation"@,
            Action::PrudentTouch => "Prudent Touch"@,
            Action::AdvancedTouch => "Advanced Touch"@,
            Action::Reflect => "Reflect"@,
            Action::PreparatoryTouch => "Preparatory Touch"@,
            Action::Groundwork => "Groundwork"@,
            Action::DelicateSynthesis => "Delicate Synthesis"@,
            Action::TrainedEye => "Trained Eye"@,
            Action::CarefulSynthesisTraited => "Careful Synthesis"@,
            Action::GroundworkTraited => "Groundwork"@,
            Action::PrudentSynthesis => "Prudent Synthesis"@,
            Action::TrainedFinesse => "Trained Finesse"@,
            Action::RefinedTouch => "Refined Touch"@,
            Action::DelicateSynthesisTraited => "Delicate Synthesis"@,
            Action::QuickInnovation => "Quick Innovation"@,
            Action::ImmaculateMend => "Immaculate Mend"@,
            Action::TrainedPerfection => "Trained Perfection"@,
        }
    }

    /// The in-game label of the action.
    pub fn label(&self) -> (r: &'static str)
        ensures
            r@ == self.spec_label(),
    {
        match self {
            Action::BasicSynthesis => "Basic Synthesis",
            Action::BasicTouch => "Basic Touch",
            Action::MastersMend => "Master's Mend",
            Action::Observe => "Observe",
            Action::WasteNot => "Waste Not",
            Action::Veneration => "Veneration",
            Action::StandardTouch => "Standard Touch",
            Action::GreatStrides => "Great Strides",
            Action::Innovation => "Innovation",
            Action::BasicSynthesisTraited => "Basic Synthesis",
            Action::WasteNotII => "Waste Not II",
            Action::ByregotsBlessing => "Byregot's Blessing",
            Action::MuscleMemory => "Muscle Memory",
            Action::CarefulSynthesis => "Careful Synthesis",
            Action::Manipulation => "Manipulation",
            Action::PrudentTouch => "Prudent Touch",
            Action::AdvancedTouch => "Advanced Touch",
            Action::Reflect => "Reflect",
            Action::PreparatoryTouch => "Preparatory Touch",
            Action::Groundwork => "Groundwork",
            Action::DelicateSynthesis => "Delicate Synthesis",
            Action::TrainedEye => "Trained Eye",
            Action::CarefulSynthesisTraited => "Careful Synthesis",
            Action::GroundworkTraited => "Groundwork",
            Action::PrudentSynthesis => "Prudent Synthesis",
            Action::TrainedFinesse => "Trained Finesse",
            Action::RefinedTouch => "Refined Touch",
            Action::DelicateSynthesisTraited => "Delicate Synthesis",
            Action::QuickInnovation => "Quick Innovation",
            Action::ImmaculateMend => "Immaculate Mend",
            Action::TrainedPerfection => "Trained Perfection",
        }
    }

    /// Whether the action neither moves progress or quality nor touches durability.
    pub open spec fn spec_is_pure_buff(self) -> bool {
        let attrs = self.spec_attributes();
        attrs.progress_efficiency is None && attrs.quality_efficiency is None
            && attrs.durability_cost is None
    }

    /// The in-game macro line for the action: `/ac <label> <wait.N>`, with the
    /// label quoted when it holds a space, and a wait of 2 for pure buffs and 3
    /// otherwise.
    pub open spec fn spec_macro_text(self) -> Seq<char> {
        let label = self.spec_label();
        let shown = if label.contains(' ') {
            "\""@ + label + "\""@
        } else {
            label
        };
        let wait = if self.spec_is_pure_buff() {
            "2"@
        } else {
            "3"@
        };
        "/ac "@ + shown + " <wait."@ + wait + ">"@
    }

    pub fn macro_text(&self) -> (r: String)
        ensures
            r@ == self.spec_macro_text(),
    {
        let label = self.label();
        let n = label.unicode_len();
        let mut has_space = false;
        let mut i: usize = 0;
        while i < n
            invariant
                n == label@.len(),
                i <= n,
                has_space == exists|k: int| 0 <= k < i && label@[k] == ' ',
            decreases n - i,
        {
            if label.get_char(i) == ' ' {
                has_space = true;
            }
            i += 1;
        }
        let mut text = String::from_str("/ac ");
        if has_space {
            text.append("\"");
            text.append(label);
            text.append("\"");
        } else {
            text.append(label);
        }
        text.append(" <wait.");
        let attrs = self.attributes();
        if attrs.progress_efficiency.is_none() && attrs.quality_efficiency.is_none()
            && attrs.durability_cost.is_none() {
            text.append("2");
        } else {
            text.append("3");
        }
        text.append(">");
        text
    }

    /// The higher-level variant that supersedes this action once unlocked.
    pub open spec fn spec_traited(self) -> Action {
        match self {
            Action::BasicSynthesis => Action::BasicSynthesisTraited,
            Action::CarefulSynthesis => Action::CarefulSynthesisTraited,
            Action::Groundwork => Action::GroundworkTraited,
            Action::DelicateSynthesis => Action::DelicateSynthesisTraited,
            _ => self,
        }
    }

    pub fn traited(&self) -> (r: Action)
        ensures
            r == self.spec_traited(),
    {
        match self {
            Action::BasicSynthesis => Action::BasicSynthesisTraited,
            Action::CarefulSynthesis => Action::CarefulSynthesisTraited,
            Action::Groundwork => Action::GroundworkTraited,
            Action::DelicateSynthesis => Action::DelicateSynthesisTraited,
            _ => *self,
        }
    }
}

/// Catalog positions and actions are in one-to-one correspondence.
pub proof fn lemma_index_bijection()
    ensures
        forall|a: Action| #[trigger] Action::spec_from_index(a.spec_index()) == Some(a),
        forall|a: Action| #[trigger] a.spec_index() < ACTION_COUNT,
        forall|i: nat|
            i < ACTION_COUNT ==> (#[trigger] Action::spec_from_index(i)) is Some
                && Action::spec_from_index(i)->0.spec_index() == i,
        forall|i: nat| i >= ACTION_COUNT ==> (#[trigger] Action::spec_from_index(i)) is None,
{
}

} // verus!
