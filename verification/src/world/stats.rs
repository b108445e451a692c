use vstd::prelude::*;

verus! {

/// Hit points, mana and the four attributes of a creature.
#[derive(Debug, Clone, Copy, PartialEq, Eq, Structural)]
pub struct Stats {
    pub hp: i32,
    pub max_hp: i32,
    pub mp: i32,
    pub max_mp: i32,
    pub str: i32,
    pub dex: i32,
    pub int: i32,
    pub vit: i32,
}

impl Stats {
    pub fn is_alive(&self) -> (r: bool)
        ensures
            r == (self.hp > 0),
    {
        self.hp > 0
    }
}

} // verus!
