use vstd::prelude::*;

verus! {

/// One hit: who struck whom, for how much, whether it was critical and
/// whether it killed.
#[derive(Debug, Clone)]
pub struct CombatEvent {
    pub attacker: String,
    pub target: String,
    pub damage: i32,
    pub is_crit: bool,
    pub killed: bool,
}

/// A hit as a value: the names as character sequences.
pub struct CombatView {
    pub attacker: Seq<char>,
    pub target: Seq<char>,
    pub damage: i32,
    pub is_crit: bool,
    pub killed: bool,
}

impl View for CombatEvent {
    type V = CombatView;

    open spec fn view(&self) -> CombatView {
        CombatView {
            attacker: self.attacker@,
            target: self.target@,
            damage: self.damage,
            is_crit: self.is_crit,
            killed: self.killed,
        }
    }
}

} // verus!
