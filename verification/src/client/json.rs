//! The JSON lists of the heads-up display: the log lines, the inventory and
//! the monsters nearby, written as `serde_json::to_string` writes them (no
//! spaces; struct fields in order; enums tagged by their variant's name; the
//! keys of a JSON object in sorted order).

use vstd::prelude::*;
use crate::entity::Item;
use crate::entity::item::ItemKind;
use crate::entity::Monster;
use crate::entity::monster::{MonsterView, mons_view};
use super::state::strings_view;
use crate::text::{chars_of, decimal, decimal_int, push_decimal, push_decimal_i64, push_str, string_push};

verus! {

/// A lowercase hexadecimal digit.
pub open spec fn hex_digit(d: int) -> char {
    if d < 10 {
        ((d + 48) as u8) as char
    } else {
        ((d + 87) as u8) as char
    }
}

/// How `serde_json` writes one character inside a string: quote and
/// backslash escaped, the usual short escapes for backspace, tab, line feed,
/// form feed and carriage return, `\u00XX` with lowercase hex digits for the
/// other characters below U+0020, and every other character as it is.
pub open spec fn json_escape(c: char) -> Seq<char> {
    if c == '"' {
        seq!['\\', '"']
    } else if c == '\\' {
        seq!['\\', '\\']
    } else if c == '\u{8}' {
        seq!['\\', 'b']
    } else if c == '\t' {
        seq!['\\', 't']
    } else if c == '\n' {
        seq!['\\', 'n']
    } else if c == '\u{c}' {
        seq!['\\', 'f']
    } else if c == '\r' {
        seq!['\\', 'r']
    } else if (c as int) < 32 {
        seq!['\\', 'u', '0', '0', hex_digit((c as int) / 16), hex_digit((c as int) % 16)]
    } else {
        seq![c]
    }
}

/// The characters of a string, each escaped.
pub open spec fn escaped(s: Seq<char>) -> Seq<char>
    decreases s.len(),
{
    if s.len() == 0 {
        Seq::empty()
    } else {
        escaped(s.drop_last()) + json_escape(s.last())
    }
}

/// What `serde_json::to_string` makes of a string: the string in double
/// quotes with its special characters escaped.
pub open spec fn json_str(s: Seq<char>) -> Seq<char> {
    seq!['"'] + escaped(s) + seq!['"']
}

fn hex_char(d: u32) -> (c: char)
    requires
        d < 16,
    ensures
        c == hex_digit(d as int),
{
    if d < 10 {
        ((d + 48) as u8) as char
    } else {
        ((d + 87) as u8) as char
    }
}

/// Appends how `serde_json` writes character `c` inside a string.
fn push_escaped_char(out: &mut String, c: char)
    ensures
        final(out)@ == old(out)@ + json_escape(c),
{
    let ghost o = out@;
    if c == '"' {
        string_push(out, '\\');
        string_push(out, '"');
    } else if c == '\\' {
        string_push(out, '\\');
        string_push(out, '\\');
    } else if c == '\u{8}' {
        string_push(out, '\\');
        string_push(out, 'b');
    } else if c == '\t' {
        string_push(out, '\\');
        string_push(out, 't');
    } else if c == '\n' {
        string_push(out, '\\');
        string_push(out, 'n');
    } else if c == '\u{c}' {
        string_push(out, '\\');
        string_push(out, 'f');
    } else if c == '\r' {
        string_push(out, '\\');
        string_push(out, 'r');
    } else if (c as u32) < 32 {
        let v: u32 = c as u32;
        string_push(out, '\\');
        string_push(out, 'u');
        string_push(out, '0');
        string_push(out, '0');
        string_push(out, hex_char(v / 16));
        string_push(out, hex_char(v % 16));
    } else {
        string_push(out, c);
    }
    assert(out@ =~= o + json_escape(c));
}

/// Appends the JSON of a string.
fn push_json_str(out: &mut String, s: &str)
    ensures
        final(out)@ == old(out)@ + json_str(s@),
{
    let ghost o = out@;
    let chars = chars_of(s);
    string_push(out, '"');
    let mut i: usize = 0;
    while i < chars.len()
        invariant
            i <= chars@.len(),
            chars@ == s@,
            out@ == o + seq!['"'] + escaped(s@.take(i as int)),
        decreases chars.len() - i,
    {
        push_escaped_char(out, chars[i]);
        proof {
            assert(s@.take(i + 1).drop_last() =~= s@.take(i as int));
            assert(s@.take(i + 1).last() == s@[i as int]);
        }
        i += 1;
    }
    string_push(out, '"');
    assert(s@.take(s@.len() as int) =~= s@);
    assert(out@ =~= o + json_str(s@));
}

/// The parts joined by commas.
pub open spec fn joined(parts: Seq<Seq<char>>) -> Seq<char>
    decreases parts.len(),
{
    if parts.len() == 0 {
        Seq::empty()
    } else if parts.len() == 1 {
        parts[0]
    } else {
        joined(parts.drop_last()) + ","@ + parts.last()
    }
}

/// A JSON array of the parts.
pub open spec fn json_array(parts: Seq<Seq<char>>) -> Seq<char> {
    "["@ + joined(parts) + "]"@
}

/// The JSON of a list of strings.
pub open spec fn strings_json(l: Seq<Seq<char>>) -> Seq<char> {
    json_array(Seq::new(l.len(), |i: int| json_str(l[i])))
}

pub open spec fn kind_json(k: ItemKind) -> Seq<char> {
    match k {
        ItemKind::Weapon { dmg } => "{\"Weapon\":{\"dmg\":"@ + decimal_int(dmg as int) + "}}"@,
        ItemKind::Armor { def } => "{\"Armor\":{\"def\":"@ + decimal_int(def as int) + "}}"@,
        ItemKind::Helmet { def } => "{\"Helmet\":{\"def\":"@ + decimal_int(def as int) + "}}"@,
        ItemKind::Ring { effect, value } => "{\"Ring\":{\"effect\":"@ + json_str(effect@) + ",\"value\":"@
            + decimal_int(value as int) + "}}"@,
        ItemKind::Potion { hp, mp } => "{\"Potion\":{\"hp\":"@ + decimal_int(hp as int) + ",\"mp\":"@ + decimal_int(
            mp as int,
        ) + "}}"@,
    }
}

/// The JSON of an item: its fields in order, the symbol as a one-character
/// string.
pub open spec fn item_json(it: Item) -> Seq<char> {
    "{\"id\":"@ + decimal(it.id as nat) + ",\"template_id\":"@ + json_str(it.template_id@) + ",\"name\":"@
        + json_str(it.name@) + ",\"symbol\":"@ + json_str(seq![it.symbol]) + ",\"color\":"@ + json_str(it.color@)
        + ",\"kind\":"@ + kind_json(it.kind) + "}"@
}

pub open spec fn items_json(l: Seq<Item>) -> Seq<char> {
    json_array(Seq::new(l.len(), |i: int| item_json(l[i])))
}

/// The JSON of a monster on the display: color, hp, max_hp, name and symbol.
pub open spec fn monster_json(m: MonsterView) -> Seq<char> {
    "{\"color\":"@ + json_str(m.color@) + ",\"hp\":"@ + decimal_int(m.stats.hp as int) + ",\"max_hp\":"@
        + decimal_int(m.stats.max_hp as int) + ",\"name\":"@ + json_str(m.name@) + ",\"symbol\":"@ + json_str(
        seq![m.symbol],
    ) + "}"@
}

pub open spec fn monsters_json(l: Seq<MonsterView>) -> Seq<char> {
    json_array(Seq::new(l.len(), |i: int| monster_json(l[i])))
}

proof fn lemma_joined_push(parts: Seq<Seq<char>>, n: int)
    requires
        0 < n <= parts.len(),
    ensures
        joined(parts.take(n)) == if n == 1 { parts[0] } else { joined(parts.take(n - 1)) + ","@ + parts[n - 1] },
{
    assert(parts.take(n).drop_last() =~= parts.take(n - 1));
}

fn push_json_char(out: &mut String, c: char)
    ensures
        final(out)@ == old(out)@ + json_str(seq![c]),
{
    let mut t = String::new();
    string_push(&mut t, c);
    assert(t@ =~= seq![c]);
    push_json_str(out, t.as_str());
}

fn push_kind_json(out: &mut String, k: &ItemKind)
    ensures
        final(out)@ == old(out)@ + kind_json(*k),
{
    let ghost o = out@;
    match k {
        ItemKind::Weapon { dmg } => {
            push_str(out, "{\"Weapon\":{\"dmg\":");
            push_decimal_i64(out, *dmg as i64);
            push_str(out, "}}");
            assert(out@ =~= o + kind_json(*k));
        },
        ItemKind::Armor { def } => {
            push_str(out, "{\"Armor\":{\"def\":");
            push_decimal_i64(out, *def as i64);
            push_str(out, "}}");
            assert(out@ =~= o + kind_json(*k));
        },
        ItemKind::Helmet { def } => {
            push_str(out, "{\"Helmet\":{\"def\":");
            push_decimal_i64(out, *def as i64);
            push_str(out, "}}");
            assert(out@ =~= o + kind_json(*k));
        },
        ItemKind::Ring { effect, value } => {
            push_str(out, "{\"Ring\":{\"effect\":");
            push_json_str(out, effect.as_str());
            push_str(out, ",\"value\":");
            push_decimal_i64(out, *value as i64);
            push_str(out, "}}");
            assert(out@ =~= o + kind_json(*k));
        },
        ItemKind::Potion { hp, mp } => {
            push_str(out, "{\"Potion\":{\"hp\":");
            push_decimal_i64(out, *hp as i64);
            push_str(out, ",\"mp\":");
            push_decimal_i64(out, *mp as i64);
            push_str(out, "}}");
            assert(out@ =~= o + kind_json(*k));
        },
    }
}

fn push_item_json(out: &mut String, it: &Item)
    ensures
        final(out)@ == old(out)@ + item_json(*it),
{
    let ghost o = out@;
    push_str(out, "{\"id\":");
    push_decimal(out, it.id);
    push_str(out, ",\"template_id\":");
    push_json_str(out, it.template_id.as_str());
    push_str(out, ",\"name\":");
    push_json_str(out, it.name.as_str());
    push_str(out, ",\"symbol\":");
    push_json_char(out, it.symbol);
    push_str(out, ",\"color\":");
    push_json_str(out, it.color.as_str());
    push_str(out, ",\"kind\":");
    push_kind_json(out, &it.kind);
    push_str(out, "}");
    assert(out@ =~= o + item_json(*it));
}

fn push_monster_json(out: &mut String, m: &Monster)
    ensures
        final(out)@ == old(out)@ + monster_json(m@),
{
    let ghost o = out@;
    push_str(out, "{\"color\":");
    push_json_str(out, m.color.as_str());
    push_str(out, ",\"hp\":");
    push_decimal_i64(out, m.stats.hp as i64);
    push_str(out, ",\"max_hp\":");
    push_decimal_i64(out, m.stats.max_hp as i64);
    push_str(out, ",\"name\":");
    push_json_str(out, m.name.as_str());
    push_str(out, ",\"symbol\":");
    push_json_char(out, m.symbol);
    push_str(out, "}");
    assert(out@ =~= o + monster_json(m@));
}

/// The log lines as a JSON array of strings.
pub fn lines_json(v: &Vec<String>) -> (r: String)
    ensures
        r@ == strings_json(strings_view(v@)),
{
    let ghost l = strings_view(v@);
    let ghost parts = Seq::new(l.len(), |i: int| json_str(l[i]));
    let mut out = String::new();
    push_str(&mut out, "[");
    let mut i: usize = 0;
    while i < v.len()
        invariant
            i <= v@.len(),
            l == strings_view(v@),
            parts == Seq::new(l.len(), |i: int| json_str(l[i])),
            out@ == "["@ + joined(parts.take(i as int)),
        decreases v.len() - i,
    {
        let ghost before = out@;
        if i > 0 {
            push_str(&mut out, ",");
        }
        push_json_str(&mut out, v[i].as_str());
        proof {
            lemma_joined_push(parts, i + 1);
            if i == 0 {
                assert(parts.take(0) =~= Seq::<Seq<char>>::empty());
            }
            assert(out@ =~= "["@ + joined(parts.take(i + 1)));
        }
        i += 1;
    }
    push_str(&mut out, "]");
    assert(parts.take(l.len() as int) =~= parts);
    out
}

/// Items as a JSON array.
pub fn inventory_json(v: &Vec<Item>) -> (r: String)
    ensures
        r@ == items_json(v@),
{
    let ghost parts = Seq::new(v@.len(), |i: int| item_json(v@[i]));
    let mut out = String::new();
    push_str(&mut out, "[");
    let mut i: usize = 0;
    while i < v.len()
        invariant
            i <= v@.len(),
            parts == Seq::new(v@.len(), |i: int| item_json(v@[i])),
            out@ == "["@ + joined(parts.take(i as int)),
        decreases v.len() - i,
    {
        if i > 0 {
            push_str(&mut out, ",");
        }
        push_item_json(&mut out, &v[i]);
        proof {
            lemma_joined_push(parts, i + 1);
            if i == 0 {
                assert(parts.take(0) =~= Seq::<Seq<char>>::empty());
            }
            assert(out@ =~= "["@ + joined(parts.take(i + 1)));
        }
        i += 1;
    }
    push_str(&mut out, "]");
    assert(parts.take(v@.len() as int) =~= parts);
    out
}

/// Monsters as a JSON array.
pub fn nearby_json(v: &Vec<Monster>) -> (r: String)
    ensures
        r@ == monsters_json(mons_view(v@)),
{
    let ghost l = mons_view(v@);
    let ghost parts = Seq::new(l.len(), |i: int| monster_json(l[i]));
    let mut out = String::new();
    push_str(&mut out, "[");
    let mut i: usize = 0;
    while i < v.len()
        invariant
            i <= v@.len(),
            l == mons_view(v@),
            parts == Seq::new(l.len(), |i: int| monster_json(l[i])),
            out@ == "["@ + joined(parts.take(i as int)),
        decreases v.len() - i,
    {
        if i > 0 {
            push_str(&mut out, ",");
        }
        push_monster_json(&mut out, &v[i]);
        proof {
            lemma_joined_push(parts, i + 1);
            if i == 0 {
                assert(parts.take(0) =~= Seq::<Seq<char>>::empty());
            }
            assert(out@ =~= "["@ + joined(parts.take(i + 1)));
        }
        i += 1;
    }
    push_str(&mut out, "]");
    assert(parts.take(l.len() as int) =~= parts);
    out
}

} // verus!
