//! What a player does with the inventory, what a monster's hit and the
//! regeneration do to a player, and how monsters decide and move: the parts
//! that the single-player engine and the server share.

use vstd::prelude::*;
use crate::world::pos::abs_int;
use vstd::multiset::Multiset;
use crate::arith::{max_i32, max_int, min_i32, min_int, saturating_sub_i32};
use crate::entity::{GroundItem, Item, ItemKind, Player};
use crate::entity::item::{spec_slot_of, Equipment, Slot};
use crate::entity::player::{PlayerView, div_trunc};
use crate::rules::{in_limit, player_ok, stats_ok, lemma_player_ok_bounds, VALUE_LIMIT};
use crate::world::{GameMap, Pos, Stats};
use crate::entity::monster::{Monster, MonsterView, mons_view};
use crate::text::copy_string;

verus! {

/// The index of the first inventory item with id `id`, if any.
#[verifier::opaque]
pub open spec fn item_index(inv: Seq<Item>, id: u64) -> Option<int> {
    if exists|i: int| 0 <= i < inv.len() && (#[trigger] inv[i]).id == id
            && forall|j: int| 0 <= j < i ==> (#[trigger] inv[j]).id != id {
        Some(choose|i: int| 0 <= i < inv.len() && (#[trigger] inv[i]).id == id
            && forall|j: int| 0 <= j < i ==> (#[trigger] inv[j]).id != id)
    } else {
        None
    }
}

/// The index of the first item on the ground at `pos`, if any.
#[verifier::opaque]
pub open spec fn ground_index(g: Seq<GroundItem>, pos: Pos) -> Option<int> {
    if exists|i: int| 0 <= i < g.len() && (#[trigger] g[i]).pos == pos
            && forall|j: int| 0 <= j < i ==> (#[trigger] g[j]).pos != pos {
        Some(choose|i: int| 0 <= i < g.len() && (#[trigger] g[i]).pos == pos
            && forall|j: int| 0 <= j < i ==> (#[trigger] g[j]).pos != pos)
    } else {
        None
    }
}

proof fn lemma_first_on_tile(gs: Seq<GroundItem>, pos: Pos, j: int)
    requires
        0 <= j < gs.len(),
        gs[j].pos == pos,
    ensures
        exists|i: int| 0 <= i < gs.len() && (#[trigger] gs[i]).pos == pos
            && forall|k: int| 0 <= k < i ==> (#[trigger] gs[k]).pos != pos,
    decreases j,
{
    if exists|k: int| 0 <= k < j && (#[trigger] gs[k]).pos == pos {
        let k = choose|k: int| 0 <= k < j && (#[trigger] gs[k]).pos == pos;
        lemma_first_on_tile(gs, pos, k);
    } else {
        assert(forall|k: int| 0 <= k < j ==> (#[trigger] gs[k]).pos != pos);
    }
}

/// An item laid on a tile where nothing lay is the first item there.
pub proof fn lemma_ground_index_push(gs: Seq<GroundItem>, gi: GroundItem)
    requires
        ground_index(gs, gi.pos) is None,
    ensures
        ground_index(gs.push(gi), gi.pos) == Some(gs.len() as int),
{
    let pos = gi.pos;
    let gs1 = gs.push(gi);
    let n = gs.len() as int;
    assert forall|j: int| 0 <= j < n implies (#[trigger] gs[j]).pos != pos by {
        if gs[j].pos == pos {
            lemma_first_on_tile(gs, pos, j);
            reveal(ground_index);
        }
    }
    assert forall|j: int| 0 <= j < n implies (#[trigger] gs1[j]).pos != pos by {
        assert(gs1[j] == gs[j]);
    }
    assert(gs1[n].pos == pos);
    reveal(ground_index);
    let c = choose|c: int| 0 <= c < gs1.len() && (#[trigger] gs1[c]).pos == pos
        && forall|j: int| 0 <= j < c ==> (#[trigger] gs1[j]).pos != pos;
    assert(c == n) by {
        if c < n {
            assert(gs1[c].pos != pos);
        }
    }
}

/// The item `item_index` finds has the id sought.
pub proof fn lemma_item_index_bounds(inv: Seq<Item>, id: u64)
    ensures
        item_index(inv, id) matches Some(i) ==> 0 <= i < inv.len() && inv[i].id == id,
{
    reveal(item_index);
}

/// An optional item as a multiset of items.
pub open spec fn opt_items(o: Option<Item>) -> Multiset<Item> {
    match o {
        Some(x) => Multiset::singleton(x),
        None => Multiset::empty(),
    }
}

/// Everything a player owns: the inventory and the equipped items.
pub open spec fn belongings(p: PlayerView) -> Multiset<Item> {
    p.inventory.to_multiset().add(opt_items(p.equipment.weapon)).add(opt_items(p.equipment.armor))
        .add(opt_items(p.equipment.helmet)).add(opt_items(p.equipment.ring))
}

/// What a slot held, as a sequence of at most one item.
pub open spec fn held(o: Option<Item>) -> Seq<Item> {
    match o {
        Some(x) => seq![x],
        None => Seq::empty(),
    }
}

/// Equipping inventory item `i`: a weapon goes to the weapon slot, armor to
/// the armor slot, a helmet to the helmet slot and a ring to the ring slot,
/// the other three slots keeping what they held; the item leaves the
/// inventory and what its slot held before goes to the end of it. A potion
/// leaves the inventory and the equipment is as it was. Nothing else about
/// the player changes.
pub proof fn lemma_equip_slots(p: PlayerView, i: int)
    requires
        0 <= i < p.inventory.len(),
    ensures
        ({
            let it = p.inventory[i];
            let e = p.equipment;
            let q = equipped(p, i);
            &&& q == PlayerView { inventory: q.inventory, equipment: q.equipment, ..p }
            &&& it.kind is Weapon ==> q.equipment == (Equipment { weapon: Some(it), ..e })
                && q.inventory == p.inventory.remove(i) + held(e.weapon)
            &&& it.kind is Armor ==> q.equipment == (Equipment { armor: Some(it), ..e })
                && q.inventory == p.inventory.remove(i) + held(e.armor)
            &&& it.kind is Helmet ==> q.equipment == (Equipment { helmet: Some(it), ..e })
                && q.inventory == p.inventory.remove(i) + held(e.helmet)
            &&& it.kind is Ring ==> q.equipment == (Equipment { ring: Some(it), ..e })
                && q.inventory == p.inventory.remove(i) + held(e.ring)
            &&& it.kind is Potion ==> q.equipment == e && q.inventory == p.inventory.remove(i)
        }),
{
}

/// Equipping keeps everything the player owns: the item takes its slot and
/// what the slot held goes back to the inventory. A potion has no slot and
/// is lost.
pub proof fn lemma_equip_keeps_belongings(p: PlayerView, i: int)
    requires
        0 <= i < p.inventory.len(),
    ensures
        spec_slot_of(p.inventory[i].kind) != Slot::Consumable ==> belongings(equipped(p, i)) == belongings(p),
        spec_slot_of(p.inventory[i].kind) == Slot::Consumable ==> belongings(equipped(p, i)) == belongings(p).remove(p.inventory[i]),
{
    broadcast use vstd::multiset::group_multiset_axioms;
    let inv = p.inventory;
    let it = inv[i];
    let s = spec_slot_of(it.kind);
    let e = p.equipment;
    vstd::seq_lib::to_multiset_remove(inv, i);
    vstd::seq_lib::to_multiset_contains(inv, it);
    assert(inv.contains(it)) by { assert(inv[i] == it); }
    let rest = inv.remove(i);
    let q = equipped(p, i);
    if s == Slot::Consumable {
        assert(belongings(q) =~= belongings(p).remove(it));
    } else {
        let back: Seq<Item> = match e.spec_slot(s) {
            Some(o) => seq![o],
            None => Seq::empty(),
        };
        vstd::seq_lib::lemma_multiset_commutative(rest, back);
        let em = Seq::<Item>::empty();
        vstd::seq_lib::to_multiset_len(em);
        vstd::multiset::lemma_multiset_empty_len(em.to_multiset());
        assert(em.to_multiset() =~= Multiset::<Item>::empty());
        assert(back.to_multiset() =~= opt_items(e.spec_slot(s))) by {
            match e.spec_slot(s) {
                Some(o) => {
                    vstd::seq_lib::to_multiset_build(Seq::<Item>::empty(), o);
                    assert(seq![o] =~= Seq::<Item>::empty().push(o));
                },
                None => {
                    assert(back =~= em);
                },
            }
        }
        assert(q.inventory.to_multiset() =~= inv.to_multiset().remove(it).add(opt_items(e.spec_slot(s))));
        assert(belongings(q) =~= belongings(p));
    }
}

/// Finds the first inventory item with id `id`.
pub fn find_item(inv: &Vec<Item>, id: u64) -> (r: Option<usize>)
    ensures
        match item_index(inv@, id) {
            Some(i) => 0 <= i < inv@.len() && r is Some && r.unwrap() as int == i,
            None => r is None,
        },
        match r {
            Some(i) => i < inv@.len() && inv@[i as int].id == id,
            None => true,
        },
{
    let mut i: usize = 0;
    while i < inv.len()
        invariant
            i <= inv@.len(),
            forall|j: int| 0 <= j < i ==> (#[trigger] inv@[j]).id != id,
        decreases inv.len() - i,
    {
        if inv[i].id == id {
            proof {
                reveal(item_index);
                let c = choose|c: int| 0 <= c < inv@.len() && (#[trigger] inv@[c]).id == id
                    && forall|j: int| 0 <= j < c ==> (#[trigger] inv@[j]).id != id;
                assert(c == i as int) by {
                    if c > i {
                        assert(inv@[i as int].id != id);
                    }
                }
            }
            return Some(i);
        }
        i += 1;
    }
    proof { reveal(item_index); }
    None
}

/// Finds the first item on the ground at `pos`.
pub fn find_ground(g: &Vec<GroundItem>, pos: Pos) -> (r: Option<usize>)
    ensures
        match ground_index(g@, pos) {
            Some(i) => 0 <= i < g@.len() && r is Some && r.unwrap() as int == i,
            None => r is None,
        },
        match r {
            Some(i) => i < g@.len() && g@[i as int].pos == pos,
            None => true,
        },
{
    let mut i: usize = 0;
    while i < g.len()
        invariant
            i <= g@.len(),
            forall|j: int| 0 <= j < i ==> (#[trigger] g@[j]).pos != pos,
        decreases g.len() - i,
    {
        if g[i].pos == pos {
            proof {
                reveal(ground_index);
                let c = choose|c: int| 0 <= c < g@.len() && (#[trigger] g@[c]).pos == pos
                    && forall|j: int| 0 <= j < c ==> (#[trigger] g@[j]).pos != pos;
                assert(c == i as int) by {
                    if c > i {
                        assert(g@[i as int].pos != pos);
                    }
                }
            }
            return Some(i);
        }
        i += 1;
    }
    proof { reveal(ground_index); }
    None
}

/// What using an inventory item came to.
pub enum UseOutcome {
    /// No inventory item has that id.
    NotFound,
    /// The item is not a potion; nothing changed.
    NotConsumable,
    /// The potion was drunk: its name and what it restores.
    Used { name: String, hp: i32, mp: i32 },
}

/// The player after drinking the potion at inventory index `i`: the potion is
/// gone, hit points and mana rise by its amounts, capped at their maxima.
pub open spec fn potion_used(p: PlayerView, i: int, hp: i32, mp: i32) -> PlayerView {
    PlayerView {
        inventory: p.inventory.remove(i),
        stats: Stats {
            hp: min_int(p.stats.hp + hp, p.stats.max_hp as int) as i32,
            mp: min_int(p.stats.mp + mp, p.stats.max_mp as int) as i32,
            ..p.stats
        },
        ..p
    }
}

/// Drinking the potion at inventory index `i` that restores `hp` and `mp`:
/// it leaves the inventory, the hit points rise by `hp` and the mana by `mp`,
/// each capped at its maximum; nothing else about the player changes.
pub proof fn lemma_potion_restores(p: PlayerView, i: int, hp: i32, mp: i32)
    requires
        0 <= i < p.inventory.len(),
        player_ok(p),
        in_limit(hp as int),
        in_limit(mp as int),
    ensures
        ({
            let q = potion_used(p, i, hp, mp);
            &&& q.inventory == p.inventory.remove(i)
            &&& p.stats.hp + hp <= p.stats.max_hp ==> q.stats.hp == p.stats.hp + hp
            &&& p.stats.hp + hp > p.stats.max_hp ==> q.stats.hp == p.stats.max_hp
            &&& p.stats.mp + mp <= p.stats.max_mp ==> q.stats.mp == p.stats.mp + mp
            &&& p.stats.mp + mp > p.stats.max_mp ==> q.stats.mp == p.stats.max_mp
            &&& q == (PlayerView { inventory: q.inventory, stats: Stats { hp: q.stats.hp, mp: q.stats.mp, ..p.stats }, ..p })
        }),
{
    lemma_player_ok_bounds(p);
}

/// The player after equipping the inventory item at index `i`: it leaves the
/// inventory and takes its slot, and what the slot held goes to the end of
/// the inventory. A potion has no slot: it leaves the inventory and nothing
/// else changes.
pub open spec fn equipped(p: PlayerView, i: int) -> PlayerView {
    let it = p.inventory[i];
    let s = spec_slot_of(it.kind);
    if s == Slot::Consumable {
        PlayerView { inventory: p.inventory.remove(i), ..p }
    } else {
        let back = match p.equipment.spec_slot(s) {
            Some(o) => seq![o],
            None => Seq::empty(),
        };
        PlayerView {
            inventory: p.inventory.remove(i) + back,
            equipment: p.equipment.spec_with(s, Some(it)),
            ..p
        }
    }
}

/// Drinks the potion with id `item_id` from the inventory.
pub fn use_item(p: &mut Player, item_id: u64) -> (r: UseOutcome)
    requires
        player_ok(old(p)@),
    ensures
        match item_index(old(p)@.inventory, item_id) {
            None => r is NotFound && final(p)@ == old(p)@,
            Some(i) => match old(p)@.inventory[i].kind {
                ItemKind::Potion { hp, mp } => {
                    &&& r == (UseOutcome::Used { name: old(p)@.inventory[i].name, hp, mp })
                    &&& final(p)@ == potion_used(old(p)@, i, hp, mp)
                },
                _ => r is NotConsumable && final(p)@ == old(p)@,
            },
        },
{
    match find_item(&p.inventory, item_id) {
        None => UseOutcome::NotFound,
        Some(idx) => {
            let (hp, mp) = match &p.inventory[idx].kind {
                ItemKind::Potion { hp, mp } => (*hp, *mp),
                _ => {
                    return UseOutcome::NotConsumable;
                },
            };
            proof {
                assert(in_limit(hp as int) && in_limit(mp as int));
            }
            let ghost p0 = p@;
            let item = p.inventory.remove(idx);
            p.stats.hp = min_i32(p.stats.hp + hp, p.stats.max_hp);
            p.stats.mp = min_i32(p.stats.mp + mp, p.stats.max_mp);
            assert(p@ =~= potion_used(p0, idx as int, hp, mp));
            UseOutcome::Used { name: item.name, hp, mp }
        },
    }
}

/// Equips the inventory item with id `item_id`; returns it, if there was one.
pub fn equip_from_inventory(p: &mut Player, item_id: u64) -> (r: Option<Item>)
    ensures
        match item_index(old(p)@.inventory, item_id) {
            None => r is None && final(p)@ == old(p)@,
            Some(i) => r == Some(old(p)@.inventory[i]) && final(p)@ == equipped(old(p)@, i),
        },
{
    match find_item(&p.inventory, item_id) {
        None => None,
        Some(idx) => {
            let ghost p0 = p@;
            let item = p.inventory.remove(idx);
            let copy = item.duplicate();
            let back = p.equipment.equip_item(item);
            if let Some(o) = back {
                p.inventory.push(o);
            }
            proof {
                let s = spec_slot_of(copy.kind);
                if s != Slot::Consumable {
                    match p0.equipment.spec_slot(s) {
                        Some(o) => assert(p@.inventory =~= p0.inventory.remove(idx as int) + seq![o]),
                        None => assert(p@.inventory =~= p0.inventory.remove(idx as int) + Seq::<Item>::empty()),
                    }
                }
                assert(p@ =~= equipped(p0, idx as int));
            }
            Some(copy)
        },
    }
}

/// Takes the inventory item with id `item_id` out and lays it at `pos`.
pub fn drop_from_inventory(p: &mut Player, item_id: u64, pos: Pos) -> (r: Option<GroundItem>)
    ensures
        match item_index(old(p)@.inventory, item_id) {
            None => r is None && final(p)@ == old(p)@,
            Some(i) => {
                &&& r == Some(GroundItem { item: old(p)@.inventory[i], pos })
                &&& final(p)@ == PlayerView { inventory: old(p)@.inventory.remove(i), ..old(p)@ }
            },
        },
{
    match find_item(&p.inventory, item_id) {
        None => None,
        Some(idx) => {
            let ghost p0 = p@;
            let item = p.inventory.remove(idx);
            assert(p@ =~= PlayerView { inventory: p0.inventory.remove(idx as int), ..p0 });
            Some(GroundItem { item, pos })
        },
    }
}

/// Damage that a hit of strength `dmg` does to a player: `dmg` less half the
/// player's defense, at least one.
pub open spec fn hit_damage(p: PlayerView, dmg: int) -> int {
    max_int(dmg - div_trunc(p.spec_defense(), 2), 1)
}

/// The player after a hit of strength `dmg`: the damage comes off the hit
/// points; a player brought to zero or below is back at a quarter of the
/// maximum hit points, at `home`.
pub open spec fn hit_taken(p: PlayerView, dmg: int, home: Pos) -> PlayerView {
    let hp = p.stats.hp - hit_damage(p, dmg);
    if hp > 0 {
        PlayerView { stats: Stats { hp: hp as i32, ..p.stats }, ..p }
    } else {
        PlayerView { stats: Stats { hp: div_trunc(p.stats.max_hp as int, 4) as i32, ..p.stats }, pos: home, ..p }
    }
}

/// A monster's hit on the player: it does at least one damage, and never
/// less than its strength minus half the player's defense; the damage comes
/// off the hit points. A player left with hit points above zero stays where
/// it stood; one brought to zero or below is back at `home` with a quarter
/// of its maximum hit points. Nothing else about the player changes.
pub proof fn lemma_hit_sends_home(p: PlayerView, dmg: int, home: Pos)
    requires
        player_ok(p),
        in_limit(dmg),
    ensures
        ({
            let d = hit_damage(p, dmg);
            let q = hit_taken(p, dmg, home);
            &&& d >= 1
            &&& d >= dmg - div_trunc(p.spec_defense(), 2)
            &&& d == 1 || d == dmg - div_trunc(p.spec_defense(), 2)
            &&& p.stats.hp - d > 0 ==> q.pos == p.pos && q.stats.hp == p.stats.hp - d
            &&& p.stats.hp - d <= 0 ==> q.pos == home && q.stats.hp == div_trunc(p.stats.max_hp as int, 4)
            &&& q == (PlayerView { pos: q.pos, stats: Stats { hp: q.stats.hp, ..p.stats }, ..p })
        }),
{
    lemma_player_ok_bounds(p);
}

/// A monster's hit of strength `dmg` on the player; returns the damage done
/// and whether it brought the player down.
pub fn take_hit(p: &mut Player, dmg: i32, home: Pos) -> (r: (i32, bool))
    requires
        player_ok(old(p)@),
        in_limit(dmg as int),
    ensures
        r.0 == hit_damage(old(p)@, dmg as int),
        r.1 == (old(p)@.stats.hp - r.0 <= 0),
        final(p)@ == hit_taken(old(p)@, dmg as int, home),
        player_ok(final(p)@),
        r.1 ==> final(p).pos == home && final(p).stats.hp == div_trunc(old(p).stats.max_hp as int, 4),
        !r.1 ==> final(p).pos == old(p).pos && final(p).stats.hp == old(p).stats.hp - r.0,
{
    proof { lemma_player_ok_bounds(p@); }
    let def = p.defense();
    let actual = max_i32(dmg - def / 2, 1);
    p.stats.hp = p.stats.hp - actual;
    let killed = !p.stats.is_alive();
    if killed {
        p.stats.hp = p.stats.max_hp / 4;
        p.pos = home;
    }
    (actual, killed)
}

/// Regeneration: the hit points rise by two plus a fifth of the vitality
/// (rounded toward zero) and the mana by three plus a fifth of the
/// intelligence, each capped at its maximum; nothing else changes.
pub proof fn lemma_regeneration(p: PlayerView)
    requires
        player_ok(p),
    ensures
        ({
            let q = regenerated(p);
            let hp = p.stats.hp + 2 + div_trunc(p.stats.vit as int, 5);
            let mp = p.stats.mp + 3 + div_trunc(p.stats.int as int, 5);
            &&& hp <= p.stats.max_hp ==> q.stats.hp == hp
            &&& hp > p.stats.max_hp ==> q.stats.hp == p.stats.max_hp
            &&& mp <= p.stats.max_mp ==> q.stats.mp == mp
            &&& mp > p.stats.max_mp ==> q.stats.mp == p.stats.max_mp
            &&& q == (PlayerView { stats: Stats { hp: q.stats.hp, mp: q.stats.mp, ..p.stats }, ..p })
        }),
{
    lemma_player_ok_bounds(p);
}

/// The player after regenerating: hit points rise by 2 plus a fifth of the
/// vitality, mana by 3 plus a fifth of the intelligence, each capped at its
/// maximum.
pub open spec fn regenerated(p: PlayerView) -> PlayerView {
    PlayerView {
        stats: Stats {
            hp: min_int(p.stats.hp + 2 + div_trunc(p.stats.vit as int, 5), p.stats.max_hp as int) as i32,
            mp: min_int(p.stats.mp + 3 + div_trunc(p.stats.int as int, 5), p.stats.max_mp as int) as i32,
            ..p.stats
        },
        ..p
    }
}

pub fn regenerate(p: &mut Player)
    requires
        stats_ok(old(p).stats),
    ensures
        final(p)@ == regenerated(old(p)@),
{
    p.stats.hp = min_i32(p.stats.hp + 2 + p.stats.vit / 5, p.stats.max_hp);
    p.stats.mp = min_i32(p.stats.mp + 3 + p.stats.int / 5, p.stats.max_mp);
}

/// Strength of a monster's hit: its strength less two (held at `i32::MIN`),
/// at least one.
pub open spec fn monster_hit(str: i32) -> int {
    max_int(if str - 2 < i32::MIN { i32::MIN as int } else { str - 2 }, 1)
}

pub fn monster_hit_exec(str: i32) -> (r: i32)
    ensures
        r == monster_hit(str),
{
    max_i32(saturating_sub_i32(str, 2), 1)
}

} // verus!

verus! {

/// `i` is the first of the smallest present entries of `s`.
pub open spec fn is_first_min(s: Seq<Option<i32>>, i: int) -> bool {
    &&& 0 <= i < s.len()
    &&& s[i] is Some
    &&& forall|j: int| 0 <= j < s.len() && (#[trigger] s[j]) is Some ==> s[i].unwrap() <= s[j].unwrap()
    &&& forall|j: int| 0 <= j < i && (#[trigger] s[j]) is Some ==> s[j].unwrap() > s[i].unwrap()
}

/// The index of the first smallest present entry, as `Iterator::min_by_key`
/// picks it; none when no entry is present.
#[verifier::opaque]
pub open spec fn first_min(s: Seq<Option<i32>>) -> Option<int> {
    if exists|i: int| is_first_min(s, i) {
        Some(choose|i: int| is_first_min(s, i))
    } else {
        None
    }
}

pub fn first_min_index(v: &Vec<Option<i32>>) -> (r: Option<usize>)
    ensures
        match first_min(v@) {
            Some(i) => r is Some && r.unwrap() as int == i,
            None => r is None,
        },
        match r {
            Some(i) => is_first_min(v@, i as int),
            None => forall|j: int| 0 <= j < v@.len() ==> (#[trigger] v@[j]) is None,
        },
{
    let mut best: Option<usize> = None;
    let mut i: usize = 0;
    while i < v.len()
        invariant
            i <= v@.len(),
            match best {
                None => forall|j: int| 0 <= j < i ==> (#[trigger] v@[j]) is None,
                Some(b) => {
                    &&& b < i
                    &&& v@[b as int] is Some
                    &&& forall|j: int| 0 <= j < i && (#[trigger] v@[j]) is Some ==> v@[b as int].unwrap() <= v@[j].unwrap()
                    &&& forall|j: int| 0 <= j < b && (#[trigger] v@[j]) is Some ==> v@[j].unwrap() > v@[b as int].unwrap()
                },
            },
        decreases v.len() - i,
    {
        if let Some(d) = v[i] {
            match best {
                None => {
                    best = Some(i);
                },
                Some(b) => {
                    if let Some(bd) = v[b] {
                        if d < bd {
                            best = Some(i);
                        }
                    }
                },
            }
        }
        i += 1;
    }
    proof {
        reveal(first_min);
        match best {
            Some(b) => {
                assert(is_first_min(v@, b as int));
                let c = choose|c: int| is_first_min(v@, c);
                assert(c == b as int) by {
                    if c < b {
                        assert(v@[c] is Some);
                    } else if c > b {
                        assert(v@[b as int] is Some);
                    }
                }
            },
            None => {
                assert forall|c: int| !is_first_min(v@, c) by {
                    if 0 <= c < v@.len() {
                        assert(v@[c] is None);
                    }
                }
            },
        }
    }
    best
}

/// A player as the monsters see it: id, position and whether alive.
pub type Sighting = (u64, Pos, bool);

/// Squared distances from `from` to the living players of `snap`.
pub open spec fn player_distances(snap: Seq<Sighting>, from: Pos) -> Seq<Option<i32>> {
    snap.map_values(|s: Sighting| if s.2 { Some(from.spec_dist_sq(s.1) as i32) } else { None })
}

/// What a monster does on a tick.
pub enum AiChoice {
    /// Hit the player with this id, with this strength.
    Strike(u64, i32),
    /// Step to this tile, if it is free.
    Step(Pos),
    /// Nothing.
    Stay,
}

/// A monster's choice: toward the nearest living player, it strikes from
/// squared distance 2 or less, steps closer from below 100; beyond 144 it
/// steps back toward its home if not there; else, or with nobody alive, it
/// stays.
pub open spec fn ai_choice(m: MonsterView, snap: Seq<Sighting>) -> AiChoice {
    match first_min(player_distances(snap, m.pos)) {
        None => AiChoice::Stay,
        Some(k) => {
            let d = m.pos.spec_dist_sq(snap[k].1);
            if d <= 2 {
                AiChoice::Strike(snap[k].0, monster_hit(m.stats.str) as i32)
            } else if d < 100 {
                AiChoice::Step(m.pos.spec_step_toward(snap[k].1))
            } else if d > 144 && m.pos != m.home {
                AiChoice::Step(m.pos.spec_step_toward(m.home))
            } else {
                AiChoice::Stay
            }
        },
    }
}

/// Whether a player of `snap`, or a monster of `mons` other than `id`, stands at `p`.
pub open spec fn occupied(snap: Seq<Sighting>, mons: Seq<MonsterView>, id: u64, p: Pos) -> bool {
    (exists|k: int| 0 <= k < snap.len() && (#[trigger] snap[k]).1 == p)
        || (exists|j: int| 0 <= j < mons.len() && (#[trigger] mons[j]).id != id && mons[j].pos == p)
}

/// The monsters, the hits (player id, strength, monster name) and the indices
/// of the monsters that moved, after the first `n` monsters acted in order.
/// A striking monster takes the player as its target where `set_target`.
pub open spec fn ai_run(
    map: GameMap,
    snap: Seq<Sighting>,
    set_target: bool,
    mons: Seq<MonsterView>,
    n: nat,
) -> (Seq<MonsterView>, Seq<(u64, i32, String)>, Seq<usize>)
    decreases n,
{
    if n == 0 {
        (mons, Seq::empty(), Seq::empty())
    } else {
        let prev = ai_run(map, snap, set_target, mons, (n - 1) as nat);
        let s = prev.0;
        let k = n - 1;
        let m = s[k];
        if !(m.stats.hp > 0) {
            prev
        } else {
            match ai_choice(m, snap) {
                AiChoice::Strike(pid, dmg) => (
                    if set_target { s.update(k, MonsterView { target: Some(pid), ..m }) } else { s },
                    prev.1.push((pid, dmg, m.name)),
                    prev.2,
                ),
                AiChoice::Step(np) => if map.spec_passable(np.x as int, np.y as int) && !occupied(snap, s, m.id, np) {
                    (s.update(k, MonsterView { pos: np, ..m }), prev.1, prev.2.push(k as usize))
                } else {
                    prev
                },
                AiChoice::Stay => prev,
            }
        }
    }
}

/// No two monsters stand on one tile.
pub open spec fn spread(s: Seq<MonsterView>) -> bool {
    forall|i: int, j: int| 0 <= i < s.len() && 0 <= j < s.len() && i != j ==> (#[trigger] s[i]).pos != (#[trigger] s[j]).pos
}

/// The monsters' turns change only their positions and targets: every
/// monster keeps its id, and one that moved stands on a passable tile that
/// no other monster and no player held when it stepped. Monsters that did
/// not share tiles before do not share them after.
pub proof fn lemma_ai_run_moves(map: GameMap, snap: Seq<Sighting>, set_target: bool, mons: Seq<MonsterView>, n: nat)
    requires
        n <= mons.len(),
        forall|i: int, j: int| 0 <= i < j < mons.len() ==> (#[trigger] mons[i]).id != (#[trigger] mons[j]).id,
    ensures
        ({
            let r = ai_run(map, snap, set_target, mons, n).0;
            &&& r.len() == mons.len()
            &&& forall|k: int| 0 <= k < mons.len() ==> (#[trigger] r[k]).id == mons[k].id
            &&& forall|k: int| 0 <= k < mons.len() ==> #[trigger] r[k].pos == mons[k].pos
                || map.spec_passable(r[k].pos.x as int, r[k].pos.y as int)
            &&& spread(mons) ==> spread(r)
        }),
    decreases n,
{
    if n > 0 {
        lemma_ai_run_moves(map, snap, set_target, mons, (n - 1) as nat);
        let prev = ai_run(map, snap, set_target, mons, (n - 1) as nat);
        let s = prev.0;
        let k = n - 1;
        let m = s[k];
        let r = ai_run(map, snap, set_target, mons, n).0;
        if m.stats.hp > 0 {
            match ai_choice(m, snap) {
                AiChoice::Step(np) => {
                    if map.spec_passable(np.x as int, np.y as int) && !occupied(snap, s, m.id, np) {
                        assert(r == s.update(k, MonsterView { pos: np, ..m }));
                        if spread(mons) {
                            assert forall|i: int, j: int| 0 <= i < r.len() && 0 <= j < r.len() && i != j
                                implies (#[trigger] r[i]).pos != (#[trigger] r[j]).pos by {
                                if i == k {
                                    assert(s[j].id != m.id);
                                    assert(!(s[j].id != m.id && s[j].pos == np));
                                } else if j == k {
                                    assert(s[i].id != m.id);
                                    assert(!(s[i].id != m.id && s[i].pos == np));
                                }
                            }
                        }
                    }
                },
                _ => {},
            }
        }
    }
}

/// A monster after the monsters' turns: the same monster, but for its
/// position and target; either it stayed, or it took one step along a row
/// or a column to a passable tile that no sighted player held.
pub open spec fn stepped_or_stayed(map: GameMap, snap: Seq<Sighting>, before: MonsterView, after: MonsterView) -> bool {
    &&& after == MonsterView { pos: after.pos, target: after.target, ..before }
    &&& after.pos == before.pos || {
        &&& abs_int(after.pos.x - before.pos.x) + abs_int(after.pos.y - before.pos.y) == 1
        &&& map.spec_passable(after.pos.x as int, after.pos.y as int)
        &&& forall|j: int| 0 <= j < snap.len() ==> (#[trigger] snap[j]).1 != after.pos
    }
}

/// The monsters' turns: every monster keeps everything but its position and
/// target, and moves at most one step along a row or column, onto a
/// passable tile that no sighted player held; monsters not yet reached are
/// untouched; with no living player in sight, nothing changes and no one is
/// hit.
pub proof fn lemma_ai_run_steps(map: GameMap, snap: Seq<Sighting>, set_target: bool, mons: Seq<MonsterView>, n: nat)
    requires
        n <= mons.len(),
        mons_bounded(mons),
    ensures
        ({
            let r = ai_run(map, snap, set_target, mons, n).0;
            &&& r.len() == mons.len()
            &&& forall|k: int| 0 <= k < mons.len() ==> stepped_or_stayed(map, snap, mons[k], #[trigger] r[k])
            &&& forall|k: int| n <= k < mons.len() ==> #[trigger] r[k] == mons[k]
            &&& (forall|j: int| 0 <= j < snap.len() ==> !(#[trigger] snap[j]).2) ==> r == mons
                && ai_run(map, snap, set_target, mons, n).1.len() == 0
                && ai_run(map, snap, set_target, mons, n).2.len() == 0
        }),
    decreases n,
{
    if n > 0 {
        lemma_ai_run_steps(map, snap, set_target, mons, (n - 1) as nat);
        if forall|j: int| 0 <= j < snap.len() ==> !(#[trigger] snap[j]).2 {
            let m0 = ai_run(map, snap, set_target, mons, (n - 1) as nat).0[n - 1];
            let ds = player_distances(snap, m0.pos);
            assert forall|i: int| !is_first_min(ds, i) by {
                if 0 <= i < ds.len() {
                    assert(!snap[i].2);
                    assert(ds[i] is None);
                }
            }
            assert(!exists|i: int| is_first_min(ds, i));
            reveal(first_min);
            assert(first_min(ds) is None);
        }
        let prev = ai_run(map, snap, set_target, mons, (n - 1) as nat);
        let s = prev.0;
        let k = n - 1;
        let m = s[k];
        assert(m == mons[k]);
        let r = ai_run(map, snap, set_target, mons, n).0;
        if m.stats.hp > 0 {
            match ai_choice(m, snap) {
                AiChoice::Step(np) => {
                    if map.spec_passable(np.x as int, np.y as int) && !occupied(snap, s, m.id, np) {
                        assert(r == s.update(k, MonsterView { pos: np, ..m }));
                        let t = match first_min(player_distances(snap, m.pos)) {
                            Some(q) => if m.pos.spec_dist_sq(snap[q].1) < 100 { snap[q].1 } else { m.home },
                            None => m.home,
                        };
                        assert(np == m.pos.spec_step_toward(t));
                        assert(m.pos.bounded());
                        assert(m.pos.spec_adjacent(np));
                        assert forall|j: int| 0 <= j < snap.len() implies (#[trigger] snap[j]).1 != np by {
                            if snap[j].1 == np {
                                assert(occupied(snap, s, m.id, np));
                            }
                        }
                        assert(stepped_or_stayed(map, snap, mons[k], r[k]));
                    }
                },
                AiChoice::Strike(pid, dmg) => {
                    assert(stepped_or_stayed(map, snap, mons[k], r[k]));
                },
                AiChoice::Stay => {},
            }
        }
    }
}

/// The hits of the monsters' turns have strengths from 1 to `VALUE_LIMIT`,
/// where the monsters' strengths are in range.
pub proof fn lemma_ai_run_hits(map: GameMap, snap: Seq<Sighting>, set_target: bool, mons: Seq<MonsterView>, n: nat)
    requires
        n <= mons.len(),
        forall|k: int| 0 <= k < mons.len() ==> in_limit((#[trigger] mons[k]).stats.str as int),
    ensures
        ({
            let r = ai_run(map, snap, set_target, mons, n);
            &&& r.0.len() == mons.len()
            &&& forall|i: int| 0 <= i < r.1.len() ==> 1 <= (#[trigger] r.1[i]).1 <= VALUE_LIMIT
            &&& forall|k: int| 0 <= k < mons.len() ==> in_limit((#[trigger] r.0[k]).stats.str as int)
        }),
    decreases n,
{
    if n > 0 {
        lemma_ai_run_hits(map, snap, set_target, mons, (n - 1) as nat);
        let prev = ai_run(map, snap, set_target, mons, (n - 1) as nat);
        let m = prev.0[n - 1];
        assert(in_limit(m.stats.str as int));
        let r = ai_run(map, snap, set_target, mons, n);
        assert(r.0.len() == prev.0.len());
        assert forall|k: int| 0 <= k < mons.len() implies in_limit((#[trigger] r.0[k]).stats.str as int) by {
            assert(in_limit(prev.0[k].stats.str as int));
            assert(r.0[k].stats == prev.0[k].stats) by {
                if m.stats.hp > 0 {
                    match ai_choice(m, snap) {
                        AiChoice::Strike(pid, dmg) => {},
                        AiChoice::Step(np) => {},
                        AiChoice::Stay => {},
                    }
                }
            }
        }
    }
}

/// Monsters stand on tiles of bounded coordinates.
pub open spec fn mons_bounded(s: Seq<MonsterView>) -> bool {
    forall|i: int| 0 <= i < s.len() ==> (#[trigger] s[i]).pos.bounded() && s[i].home.bounded()
}

fn sighting_at(snap: &Vec<Sighting>, p: Pos) -> (r: bool)
    ensures
        r == exists|k: int| 0 <= k < snap@.len() && (#[trigger] snap@[k]).1 == p,
{
    let mut k: usize = 0;
    while k < snap.len()
        invariant
            k <= snap@.len(),
            forall|j: int| 0 <= j < k ==> (#[trigger] snap@[j]).1 != p,
        decreases snap.len() - k,
    {
        if snap[k].1 == p {
            return true;
        }
        k += 1;
    }
    false
}

fn other_monster_at(mons: &Vec<Monster>, id: u64, p: Pos) -> (r: bool)
    ensures
        r == exists|j: int| 0 <= j < mons@.len() && (#[trigger] mons_view(mons@)[j]).id != id && mons_view(mons@)[j].pos == p,
{
    let mut j: usize = 0;
    while j < mons.len()
        invariant
            j <= mons@.len(),
            forall|i: int| 0 <= i < j ==> !((#[trigger] mons_view(mons@)[i]).id != id && mons_view(mons@)[i].pos == p),
        decreases mons.len() - j,
    {
        if mons[j].id != id && mons[j].pos == p {
            assert(mons_view(mons@)[j as int] == mons@[j as int]@);
            return true;
        }
        j += 1;
    }
    false
}

fn decide(m: &Monster, snap: &Vec<Sighting>) -> (r: AiChoice)
    requires
        m.pos.bounded(),
        m.home.bounded(),
        forall|k: int| 0 <= k < snap@.len() ==> (#[trigger] snap@[k]).1.bounded(),
    ensures
        r == ai_choice(m@, snap@),
{
    let mut dists: Vec<Option<i32>> = Vec::new();
    let mut k: usize = 0;
    while k < snap.len()
        invariant
            k <= snap@.len(),
            m.pos.bounded(),
            forall|j: int| 0 <= j < snap@.len() ==> (#[trigger] snap@[j]).1.bounded(),
            dists@ == player_distances(snap@, m.pos).subrange(0, k as int),
        decreases snap.len() - k,
    {
        let d: Option<i32> = if snap[k].2 { Some(m.pos.dist_sq(snap[k].1)) } else { None };
        dists.push(d);
        k += 1;
    }
    assert(dists@ =~= player_distances(snap@, m.pos));
    match first_min_index(&dists) {
        None => AiChoice::Stay,
        Some(k) => {
            let target = snap[k].1;
            let d = m.pos.dist_sq(target);
            if d <= 2 {
                AiChoice::Strike(snap[k].0, monster_hit_exec(m.stats.str))
            } else if d < 100 {
                AiChoice::Step(m.pos.step_toward(target))
            } else if d > 144 && m.pos != m.home {
                AiChoice::Step(m.pos.step_toward(m.home))
            } else {
                AiChoice::Stay
            }
        },
    }
}

/// Every monster, in order, acts on the sightings: see `ai_run`.
pub fn monster_ai(map: &GameMap, mons: &mut Vec<Monster>, snap: &Vec<Sighting>, set_target: bool)
    -> (r: (Vec<(u64, i32, String)>, Vec<usize>))
    requires
        map.wf(),
        map.width <= 4096,
        map.height <= 4096,
        mons_bounded(mons_view(old(mons)@)),
        forall|k: int| 0 <= k < snap@.len() ==> (#[trigger] snap@[k]).1.bounded(),
    ensures
        ai_run(*map, snap@, set_target, mons_view(old(mons)@), old(mons)@.len() as nat)
            == (mons_view(final(mons)@), r.0@, r.1@),
        final(mons)@.len() == old(mons)@.len(),
        mons_bounded(mons_view(final(mons)@)),
        forall|i: int| 0 <= i < final(mons)@.len() ==> {
            &&& (#[trigger] final(mons)@[i]).id == old(mons)@[i].id
            &&& final(mons)@[i].home == old(mons)@[i].home
            &&& final(mons)@[i].stats == old(mons)@[i].stats
        },
        forall|i: int| 0 <= i < r.1@.len() ==> (#[trigger] r.1@[i]) < final(mons)@.len(),
        (forall|i: int| 0 <= i < old(mons)@.len() ==> in_limit((#[trigger] old(mons)@[i]).stats.str as int))
            ==> forall|k: int| 0 <= k < r.0@.len() ==> 1 <= (#[trigger] r.0@[k]).1 <= VALUE_LIMIT,
{
    let ghost m0 = mons_view(mons@);
    let ghost v0 = mons@;
    let mut hits: Vec<(u64, i32, String)> = Vec::new();
    let mut moved: Vec<usize> = Vec::new();
    let mut i: usize = 0;
    while i < mons.len()
        invariant
            map.wf(),
            map.width <= 4096,
            map.height <= 4096,
            forall|k: int| 0 <= k < snap@.len() ==> (#[trigger] snap@[k]).1.bounded(),
            i <= mons@.len(),
            mons@.len() == v0.len(),
            m0 == mons_view(v0),
            ai_run(*map, snap@, set_target, m0, i as nat) == (mons_view(mons@), hits@, moved@),
            forall|j: int| i <= j < mons@.len() ==> #[trigger] mons@[j] == v0[j],
            mons_bounded(mons_view(mons@)),
            forall|j: int| 0 <= j < mons@.len() ==> {
                &&& (#[trigger] mons@[j]).id == v0[j].id
                &&& mons@[j].home == v0[j].home
                &&& mons@[j].stats == v0[j].stats
            },
            forall|j: int| 0 <= j < moved@.len() ==> (#[trigger] moved@[j]) < i,
            (forall|j: int| 0 <= j < v0.len() ==> in_limit((#[trigger] v0[j]).stats.str as int))
                ==> forall|k: int| 0 <= k < hits@.len() ==> 1 <= (#[trigger] hits@[k]).1 <= VALUE_LIMIT,
        decreases mons.len() - i,
    {
        let ghost s = mons_view(mons@);
        assert(s[i as int] == mons@[i as int]@);
        assert(s[i as int].pos.bounded() && s[i as int].home.bounded());
        if mons[i].stats.is_alive() {
            let choice = decide(&mons[i], snap);
            match choice {
                AiChoice::Strike(pid, dmg) => {
                    hits.push((pid, dmg, copy_string(&mons[i].name)));
                    if set_target {
                        mons[i].target = Some(pid);
                        assert(mons_view(mons@) =~= s.update(i as int, MonsterView { target: Some(pid), ..s[i as int] }));
                    }
                },
                AiChoice::Step(np) => {
                    let free = map.passable(np.x, np.y) && !sighting_at(snap, np) && !other_monster_at(mons, mons[i].id, np);
                    if free {
                        mons[i].pos = np;
                        moved.push(i);
                        proof {
                            assert(mons_view(mons@) =~= s.update(i as int, MonsterView { pos: np, ..s[i as int] }));
                            assert(map.in_bounds(np.x as int, np.y as int));
                        }
                    }
                },
                AiChoice::Stay => {},
            }
        }
        i += 1;
    }
    (hits, moved)
}

} // verus!
