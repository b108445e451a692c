pub mod events;
pub mod loot;
pub mod actions;
pub mod ai;
pub mod setup;

use vstd::prelude::*;
use rand::rngs::StdRng;
use crate::config::GameConfig;
use crate::config::{find_key, Keyed};
use crate::entity::{ClassDef, GroundItem, Item, ItemTemplate, Monster, Player};
use crate::entity::item::spec_localized;
use crate::entity::monster::{MonsterView, mons_view};
use crate::entity::player::PlayerView;
use crate::rules::{level_step, level_step_fits, level_step_fits_exec, apply_level_step, player_ok, monster_ok, cfg_ok,
    check_player, check_monster, check_cfg, XP_LIMIT, ID_LIMIT};
use crate::actions::{first_min, first_min_index};
use crate::text::{copy_string, copy_strings, decimal, push_decimal, push_str};
use crate::world::{GameMap, Pos};
use events::{Color, SpEventView, emit, events_view};

pub use events::SpEvent;

verus! {

/// The single-player (offline) game: the map, the player, the monsters
/// (each id once), the items on the ground and the configuration.
pub struct LocalGame {
    pub map: GameMap,
    pub player: Player,
    pub monsters: Vec<Monster>,
    pub ground_items: Vec<GroundItem>,
    pub cfg: GameConfig,
    pub next_id: u64,
    pub tick: u64,
    pub rng: StdRng,
}

pub open spec fn ids_unique(s: Seq<MonsterView>) -> bool {
    forall|i: int, j: int| 0 <= i < j < s.len() ==> (#[trigger] s[i]).id != (#[trigger] s[j]).id
}

/// The class a class id names in the configuration, if any.
pub open spec fn class_of(cfg: GameConfig, id: Seq<char>) -> Option<ClassDef> {
    match find_key(cfg.classes@, id) {
        Some(i) => Some(cfg.classes@[i]),
        None => None,
    }
}

/// The item a template makes with id `id`, named for language `lang`.
pub open spec fn item_from(t: ItemTemplate, id: u64, lang: Seq<char>, it: Item) -> bool {
    &&& it.id == id
    &&& it.template_id == t.id
    &&& it.name@ == spec_localized(&t.name, &t.name_ru, lang)
    &&& it.symbol == t.symbol
    &&& it.color == t.color
    &&& it.kind == t.kind
}

/// The player after levelling up as long as the experience covers the next
/// threshold and the numbers of the next level fit their types.
pub open spec fn leveled(p: PlayerView, cls: Option<ClassDef>) -> PlayerView
    decreases p.xp, if p.xp_next == 0 { 1int } else { 0int },
{
    if p.xp >= p.xp_next && level_step_fits(p, cls) {
        proof { lemma_step_threshold_positive(p, cls); }
        leveled(level_step(p, cls), cls)
    } else {
        p
    }
}

/// The log line of a level up.
pub open spec fn level_up_line(level: u32) -> Seq<char> {
    "★★★ LEVEL UP! Level "@ + decimal(level as nat) + "! (+3 stat points) ★★★"@
}

/// The events of levelling up: for each level, the new level and stat
/// points, then a log line.
pub open spec fn level_up_events(p: PlayerView, cls: Option<ClassDef>) -> Seq<SpEventView>
    decreases p.xp, if p.xp_next == 0 { 1int } else { 0int },
{
    if p.xp >= p.xp_next && level_step_fits(p, cls) {
        proof { lemma_step_threshold_positive(p, cls); }
        let q = level_step(p, cls);
        seq![
            SpEventView::LevelUp { level: q.level, stat_points: q.stat_points },
            SpEventView::Log(level_up_line(q.level), Color::LightYellow),
        ] + level_up_events(q, cls)
    } else {
        Seq::empty()
    }
}

/// Levelling up changes no more than level, experience, stat points and stats.
pub proof fn lemma_leveled_keeps(p: PlayerView, cls: Option<ClassDef>)
    ensures
        leveled(p, cls).pos == p.pos,
        leveled(p, cls).id == p.id,
        leveled(p, cls).name == p.name,
        leveled(p, cls).class_id == p.class_id,
        leveled(p, cls).inventory == p.inventory,
        leveled(p, cls).equipment == p.equipment,
    decreases p.xp, if p.xp_next == 0 { 1int } else { 0int },
{
    if p.xp >= p.xp_next && level_step_fits(p, cls) {
        lemma_step_threshold_positive(p, cls);
        lemma_leveled_keeps(level_step(p, cls), cls);
    }
}

/// After a level step the next threshold is positive.
pub proof fn lemma_step_threshold_positive(p: PlayerView, cls: Option<ClassDef>)
    requires
        level_step_fits(p, cls),
    ensures
        level_step(p, cls).xp_next > 0,
{
    let l: int = p.level + 2;
    assert(l * l * 150 >= 150) by (nonlinear_arith)
        requires l >= 1;
}

/// The index of the first monster with id `id`, if any.
#[verifier::opaque]
pub open spec fn mon_index(s: Seq<MonsterView>, id: u64) -> Option<int> {
    if exists|i: int| 0 <= i < s.len() && (#[trigger] s[i]).id == id
            && forall|j: int| 0 <= j < i ==> (#[trigger] s[j]).id != id {
        Some(choose|i: int| 0 <= i < s.len() && (#[trigger] s[i]).id == id
            && forall|j: int| 0 <= j < i ==> (#[trigger] s[j]).id != id)
    } else {
        None
    }
}

/// Finds the first monster with id `id`.
pub fn find_monster(v: &Vec<Monster>, id: u64) -> (r: Option<usize>)
    ensures
        match mon_index(mons_view(v@), id) {
            Some(i) => 0 <= i < v@.len() && r is Some && r.unwrap() as int == i,
            None => r is None,
        },
        match r {
            Some(i) => i < v@.len() && v@[i as int].id == id,
            None => true,
        },
{
    let ghost s = mons_view(v@);
    let mut i: usize = 0;
    while i < v.len()
        invariant
            i <= v@.len(),
            s == mons_view(v@),
            forall|j: int| 0 <= j < i ==> (#[trigger] s[j]).id != id,
        decreases v.len() - i,
    {
        assert(s[i as int] == v@[i as int]@);
        if v[i].id == id {
            proof {
                reveal(mon_index);
                let c = choose|c: int| 0 <= c < s.len() && (#[trigger] s[c]).id == id
                    && forall|j: int| 0 <= j < c ==> (#[trigger] s[j]).id != id;
                assert(c == i as int) by {
                    if c > i {
                        assert(s[i as int].id != id);
                    }
                }
            }
            return Some(i);
        }
        i += 1;
    }
    proof { reveal(mon_index); }
    None
}

/// Squared distances from `from` to the living monsters (only the adjacent
/// ones where `adjacent_only`).
pub open spec fn monster_distances(s: Seq<MonsterView>, from: Pos, adjacent_only: bool) -> Seq<Option<i32>> {
    s.map_values(|m: MonsterView|
        if m.stats.hp > 0 && (!adjacent_only || from.spec_adjacent(m.pos)) {
            Some(from.spec_dist_sq(m.pos) as i32)
        } else {
            None
        })
}

/// The id of the nearest living monster (the first of equally near ones).
pub open spec fn nearest_of(s: Seq<MonsterView>, from: Pos, adjacent_only: bool) -> Option<u64> {
    match first_min(monster_distances(s, from, adjacent_only)) {
        Some(i) => Some(s[i].id),
        None => None,
    }
}

impl LocalGame {
    pub open spec fn mons(self) -> Seq<MonsterView> {
        mons_view(self.monsters@)
    }

    /// The game numbers are in range: player and monsters, experience, ids
    /// and the configuration (see `rules`).
    pub open spec fn values_ok(self) -> bool {
        &&& player_ok(self.player@)
        &&& self.player.xp <= XP_LIMIT
        &&& self.next_id <= ID_LIMIT
        &&& forall|i: int| 0 <= i < self.mons().len() ==> monster_ok(#[trigger] self.mons()[i])
        &&& cfg_ok(self.cfg)
    }

    /// Whether `values_ok` holds.
    pub fn check_values(&self) -> (r: bool)
        requires
            self.cfg.wf(),
        ensures
            r == self.values_ok(),
    {
        if !check_player(&self.player) || self.player.xp > XP_LIMIT || self.next_id > ID_LIMIT || !check_cfg(&self.cfg) {
            return false;
        }
        let ghost s = self.mons();
        let mut i: usize = 0;
        while i < self.monsters.len()
            invariant
                i <= s.len(),
                s == self.mons(),
                forall|j: int| 0 <= j < i ==> monster_ok(#[trigger] s[j]),
            decreases self.monsters.len() - i,
        {
            assert(s[i as int] == self.monsters@[i as int]@);
            if !check_monster(&self.monsters[i]) {
                return false;
            }
            i += 1;
        }
        true
    }

    /// Everything but the random generator is as in `g`.
    pub open spec fn same_as(self, g: LocalGame) -> bool {
        &&& self.map == g.map
        &&& self.player == g.player
        &&& self.monsters@ == g.monsters@
        &&& self.ground_items@ == g.ground_items@
        &&& self.cfg == g.cfg
        &&& self.next_id == g.next_id
        &&& self.tick == g.tick
    }

    /// Everything but the player and the random generator is as in `g`.
    pub open spec fn same_but_player(self, g: LocalGame) -> bool {
        &&& self.map == g.map
        &&& self.monsters@ == g.monsters@
        &&& self.ground_items@ == g.ground_items@
        &&& self.cfg == g.cfg
        &&& self.next_id == g.next_id
        &&& self.tick == g.tick
    }

    /// The game with the player replaced.
    pub open spec fn with_player(self, p: Player) -> LocalGame {
        LocalGame { player: p, ..self }
    }

    /// Structural invariant: valid map of moderate size, valid
    /// configuration, unique monster ids no greater than `next_id`, and
    /// positions in the coordinate range.
    pub open spec fn wf(self) -> bool {
        &&& self.map.wf()
        &&& self.map.width <= 4096
        &&& self.map.height <= 4096
        &&& self.cfg.wf()
        &&& ids_unique(self.mons())
        &&& forall|i: int| 0 <= i < self.mons().len() ==> (#[trigger] self.mons()[i]).id <= self.next_id
        &&& self.player.pos.bounded()
        &&& forall|i: int| 0 <= i < self.mons().len() ==> (#[trigger] self.mons()[i]).pos.bounded()
            && self.mons()[i].home.bounded()
    }

    pub open spec fn player_class(self) -> Option<ClassDef> {
        class_of(self.cfg, self.player.class_id@)
    }

    /// The spell ids that the class `class_id` has; none for an unknown class.
    pub fn cfg_spells_for_class(&self, class_id: &str) -> (r: Vec<String>)
        requires
            self.cfg.wf(),
        ensures
            r@ == match find_key(self.cfg.classes@, class_id@) {
                Some(i) => self.cfg.classes@[i].spells@,
                None => Seq::empty(),
            },
    {
        match self.cfg.class(class_id) {
            Some(c) => copy_strings(&c.spells),
            None => Vec::new(),
        }
    }

    fn distances(&self, adjacent_only: bool) -> (r: Vec<Option<i32>>)
        requires
            self.wf(),
        ensures
            r@ == monster_distances(self.mons(), self.player.pos, adjacent_only),
    {
        let ghost s = self.mons();
        let mut out: Vec<Option<i32>> = Vec::new();
        let mut i: usize = 0;
        while i < self.monsters.len()
            invariant
                self.wf(),
                i <= s.len(),
                s == self.mons(),
                out@ == monster_distances(s, self.player.pos, adjacent_only).subrange(0, i as int),
            decreases self.monsters.len() - i,
        {
            assert(s[i as int] == self.monsters@[i as int]@);
            let m = &self.monsters[i];
            let d: Option<i32> = if m.stats.is_alive() && (!adjacent_only || self.player.pos.adjacent(m.pos)) {
                Some(self.player.pos.dist_sq(m.pos))
            } else {
                None
            };
            out.push(d);
            i += 1;
        }
        assert(out@ =~= monster_distances(s, self.player.pos, adjacent_only));
        out
    }

    /// The nearest living monster next to the player (the first of equally
    /// near ones), if any.
    pub fn nearest_monster_id(&self) -> (r: Option<u64>)
        requires
            self.wf(),
        ensures
            r == nearest_of(self.mons(), self.player.pos, true),
    {
        let d = self.distances(true);
        match first_min_index(&d) {
            Some(i) => {
                assert(self.mons()[i as int] == self.monsters@[i as int]@);
                Some(self.monsters[i].id)
            },
            None => None,
        }
    }

    /// The nearest living monster anywhere on the map, if any.
    pub fn nearest_monster_id_any(&self) -> (r: Option<u64>)
        requires
            self.wf(),
        ensures
            r == nearest_of(self.mons(), self.player.pos, false),
    {
        let d = self.distances(false);
        match first_min_index(&d) {
            Some(i) => {
                assert(self.mons()[i as int] == self.monsters@[i as int]@);
                Some(self.monsters[i].id)
            },
            None => None,
        }
    }

    /// A new item from template `template_id`, with the next id and the
    /// name in the configured language; none for an unknown template.
    pub fn make_item(&mut self, template_id: &str) -> (r: Option<Item>)
        requires
            old(self).cfg.wf(),
            old(self).next_id < u64::MAX,
        ensures
            final(self).map == old(self).map,
            final(self).player == old(self).player,
            final(self).monsters == old(self).monsters,
            final(self).ground_items == old(self).ground_items,
            final(self).cfg == old(self).cfg,
            final(self).tick == old(self).tick,
            match find_key(old(self).cfg.items@, template_id@) {
                Some(i) => {
                    &&& final(self).next_id == old(self).next_id + 1
                    &&& r is Some
                    &&& item_from(old(self).cfg.items@[i], final(self).next_id, old(self).cfg.locale.lang@, r.unwrap())
                },
                None => r is None && final(self).next_id == old(self).next_id,
            },
    {
        match self.cfg.item(template_id) {
            Some(tmpl) => {
                let name = String::from_str(tmpl.display_name(self.cfg.locale.lang.as_str()));
                let it = Item {
                    id: self.next_id + 1,
                    template_id: copy_string(&tmpl.id),
                    name,
                    symbol: tmpl.symbol,
                    color: copy_string(&tmpl.color),
                    kind: tmpl.kind.duplicate(),
                };
                self.next_id += 1;
                Some(it)
            },
            None => None,
        }
    }

    /// Levels the player up while the experience reaches the next threshold
    /// (and the next level's numbers fit their types); reports each level.
    pub fn try_level_up(&mut self) -> (events: Vec<SpEvent>)
        requires
            old(self).cfg.wf(),
        ensures
            final(self).player@ == leveled(old(self).player@, old(self).player_class()),
            events_view(events@) == level_up_events(old(self).player@, old(self).player_class()),
            final(self).map == old(self).map,
            final(self).monsters == old(self).monsters,
            final(self).ground_items == old(self).ground_items,
            final(self).cfg == old(self).cfg,
            final(self).next_id == old(self).next_id,
            final(self).tick == old(self).tick,
    {
        let mut events: Vec<SpEvent> = Vec::new();
        let ghost cls = self.player_class();
        let ghost p0 = self.player@;
        let ghost s0 = *self;
        let cls_ref = self.cfg.class(self.player.class_id.as_str());
        assert(match cls_ref { Some(c) => Some(*c), None => None } == cls);
        while self.player.xp >= self.player.xp_next && level_step_fits_exec(&self.player, cls_ref)
            invariant
                cls == class_of(self.cfg, self.player.class_id@),
                match cls_ref { Some(c) => Some(*c), None => None } == cls,
                leveled(self.player@, cls) == leveled(p0, cls),
                events_view(events@) + level_up_events(self.player@, cls) == level_up_events(p0, cls),
                self.player.class_id == p0.class_id,
                self.map == s0.map,
                self.monsters == s0.monsters,
                self.ground_items == s0.ground_items,
                self.cfg == s0.cfg,
                self.next_id == s0.next_id,
                self.tick == s0.tick,
            decreases self.player.xp, if self.player.xp_next == 0 { 1int } else { 0int },
        {
            proof { lemma_step_threshold_positive(self.player@, cls); }
            let ghost before = self.player@;
            apply_level_step(&mut self.player, cls_ref);
            let mut line = String::from_str("★★★ LEVEL UP! Level ");
            push_decimal(&mut line, self.player.level as u64);
            push_str(&mut line, "! (+3 stat points) ★★★");
            let ghost ev_before = events_view(events@);
            emit(&mut events, SpEvent::LevelUp { level: self.player.level, stat_points: self.player.stat_points });
            emit(&mut events, SpEvent::Log(line, Color::LightYellow));
            proof {
                assert(events_view(events@) =~= ev_before + seq![
                    SpEventView::LevelUp { level: self.player.level, stat_points: self.player.stat_points },
                    SpEventView::Log(level_up_line(self.player.level), Color::LightYellow),
                ]);
            }
        }
        proof {
            assert(level_up_events(self.player@, cls) =~= Seq::empty());
            assert(events_view(events@) =~= level_up_events(p0, cls));
        }
        events
    }
}

} // verus!
