use vstd::prelude::*;
use crate::world::CombatEvent;
use crate::world::combat::CombatView;
use crate::entity::{GroundItem, Monster, Player};
use crate::entity::monster::MonsterView;
use crate::entity::player::PlayerView;

verus! {

/// The colour a log line is shown in.
#[derive(Debug, Clone, Copy, PartialEq, Eq, Structural)]
pub enum Color {
    Red,
    Green,
    Yellow,
    LightYellow,
    Cyan,
    White,
    Blue,
    Magenta,
    Gray,
    Reset,
}

/// What a single-player action or tick reports to the client.
pub enum SpEvent {
    UpdatePlayer(Player),
    MonsterUpdate(Monster),
    MonsterDied { id: u64, xp: u64 },
    ItemDropped(GroundItem),
    ItemPickedUp { item_id: u64 },
    LevelUp { level: u32, stat_points: u32 },
    Log(String, Color),
    Combat(CombatEvent),
}

pub enum SpEventView {
    UpdatePlayer(PlayerView),
    MonsterUpdate(MonsterView),
    MonsterDied { id: u64, xp: u64 },
    ItemDropped(GroundItem),
    ItemPickedUp { item_id: u64 },
    LevelUp { level: u32, stat_points: u32 },
    Log(Seq<char>, Color),
    Combat(CombatView),
}

impl View for SpEvent {
    type V = SpEventView;

    open spec fn view(&self) -> SpEventView {
        match self {
            SpEvent::UpdatePlayer(p) => SpEventView::UpdatePlayer(p@),
            SpEvent::MonsterUpdate(m) => SpEventView::MonsterUpdate(m@),
            SpEvent::MonsterDied { id, xp } => SpEventView::MonsterDied { id: *id, xp: *xp },
            SpEvent::ItemDropped(g) => SpEventView::ItemDropped(*g),
            SpEvent::ItemPickedUp { item_id } => SpEventView::ItemPickedUp { item_id: *item_id },
            SpEvent::LevelUp { level, stat_points } => SpEventView::LevelUp { level: *level, stat_points: *stat_points },
            SpEvent::Log(s, c) => SpEventView::Log(s@, *c),
            SpEvent::Combat(c) => SpEventView::Combat(c@),
        }
    }
}

pub open spec fn events_view(v: Seq<SpEvent>) -> Seq<SpEventView> {
    v.map_values(|e: SpEvent| e@)
}

/// Appends an event.
pub fn emit(events: &mut Vec<SpEvent>, e: SpEvent)
    ensures
        events_view(final(events)@) == events_view(old(events)@).push(e@),
{
    let ghost before = events@;
    events.push(e);
    assert(events_view(events@) =~= events_view(before).push(e@));
}

/// Appends all events of `more`.
pub fn emit_all(events: &mut Vec<SpEvent>, more: Vec<SpEvent>)
    ensures
        events_view(final(events)@) == events_view(old(events)@) + events_view(more@),
{
    let ghost start = events_view(events@);
    let ghost all = more@;
    let mut more = more;
    let mut rev: Vec<SpEvent> = Vec::new();
    while more.len() > 0
        invariant
            more@.len() + rev@.len() == all.len(),
            more@ == all.subrange(0, more@.len() as int),
            forall|k: int| 0 <= k < rev@.len() ==> #[trigger] rev@[k] == all[all.len() - 1 - k],
        decreases more.len(),
    {
        let e = more.pop().unwrap();
        rev.push(e);
    }
    let ghost mid = events_view(events@);
    while rev.len() > 0
        invariant
            rev@.len() <= all.len(),
            forall|k: int| 0 <= k < rev@.len() ==> #[trigger] rev@[k] == all[all.len() - 1 - k],
            events_view(events@) == start + events_view(all.subrange(0, all.len() - rev@.len())),
        decreases rev.len(),
    {
        let ghost n = all.len() - rev@.len();
        let e = rev.pop().unwrap();
        assert(e == all[n]);
        let ghost before = events@;
        events.push(e);
        assert(all.subrange(0, n + 1) =~= all.subrange(0, n).push(all[n]));
        assert(events_view(all.subrange(0, n + 1)) =~= events_view(all.subrange(0, n)).push(e@));
        assert(events_view(events@) =~= events_view(before).push(e@));
    }
    assert(all.subrange(0, all.len() as int) =~= all);
}

} // verus!
