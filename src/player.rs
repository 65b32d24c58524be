use vstd::prelude::*;

verus! {

/// A crafter's level and stats.
#[derive(Debug, Clone, Copy, PartialEq, Eq, Structural)]
pub struct Player {
    pub job_level: u32,
    pub craftsmanship: u32,
    pub control: u32,
    pub cp: u32,
}

impl Player {
    pub fn new(job_level: u32, craftsmanship: u32, control: u32, cp: u32) -> (r: Player)
        ensures
            r == (Player { job_level, craftsmanship, control, cp }),
    {
        Player { job_level, craftsmanship, control, cp }
    }
}

/// A recipe as the recipe tables describe it.
#[derive(Debug, Clone, Copy, PartialEq, Eq, Hash, Structural)]
pub struct Recipe {
    pub recipe_level: u32,
    pub job_level: u32,
    pub stars: u32,
    pub progress: u32,
    pub quality: u32,
    pub durability: u32,
    pub progress_div: u32,
    pub progress_mod: u32,
    pub quality_div: u32,
    pub quality_mod: u32,
    pub is_expert: bool,
    pub conditions_flag: u32,
}

} // verus!
