pub mod locale;
pub mod defaults;

use vstd::prelude::*;
use crate::entity::{ClassDef, ItemTemplate, MonsterTemplate, Spell};
use crate::text::{push_decimal, push_str, str_eq, decimal};

pub use locale::LocaleConfig;
pub use defaults::{default_classes, default_monsters, default_items, default_spells};

verus! {

/// Configuration records found by their id.
pub trait Keyed {
    spec fn key_view(&self) -> Seq<char>;

    fn key(&self) -> (r: &String)
        ensures
            r@ == self.key_view(),
    ;
}

impl Keyed for ClassDef {
    open spec fn key_view(&self) -> Seq<char> {
        self.id@
    }

    fn key(&self) -> (r: &String) {
        &self.id
    }
}

impl Keyed for MonsterTemplate {
    open spec fn key_view(&self) -> Seq<char> {
        self.id@
    }

    fn key(&self) -> (r: &String) {
        &self.id
    }
}

impl Keyed for ItemTemplate {
    open spec fn key_view(&self) -> Seq<char> {
        self.id@
    }

    fn key(&self) -> (r: &String) {
        &self.id
    }
}

impl Keyed for Spell {
    open spec fn key_view(&self) -> Seq<char> {
        self.id@
    }

    fn key(&self) -> (r: &String) {
        &self.id
    }
}

impl Keyed for MonsterModel {
    open spec fn key_view(&self) -> Seq<char> {
        self.id@
    }

    fn key(&self) -> (r: &String) {
        &self.id
    }
}

/// No two records share an id.
pub open spec fn keys_unique<T: Keyed>(s: Seq<T>) -> bool {
    forall|i: int, j: int| 0 <= i < j < s.len() ==> (#[trigger] s[i]).key_view() != (#[trigger] s[j]).key_view()
}

/// No later record has the same id as record `i`.
pub open spec fn last_of_key<T: Keyed>(s: Seq<T>, i: int) -> bool {
    forall|j: int| i < j < s.len() ==> (#[trigger] s[j]).key_view() != s[i].key_view()
}

/// The position of the first record with id `key`.
pub fn find_first<T: Keyed>(v: &Vec<T>, key: &str) -> (r: Option<usize>)
    ensures
        match r {
            Some(i) => i < v@.len() && v@[i as int].key_view() == key@ && forall|j: int| 0 <= j < i ==> (#[trigger] v@[j]).key_view() != key@,
            None => forall|j: int| 0 <= j < v@.len() ==> (#[trigger] v@[j]).key_view() != key@,
        },
{
    let mut i: usize = 0;
    while i < v.len()
        invariant
            i <= v@.len(),
            forall|j: int| 0 <= j < i ==> (#[trigger] v@[j]).key_view() != key@,
        decreases v.len() - i,
    {
        if str_eq(v[i].key().as_str(), key) {
            return Some(i);
        }
        i += 1;
    }
    None
}

/// The records of `s[..n]` that no later record of `s` shares an id with,
/// in their order.
pub open spec fn kept<T: Keyed>(s: Seq<T>, n: int) -> Seq<T>
    decreases n,
{
    if n <= 0 {
        Seq::empty()
    } else if last_of_key(s, n - 1) {
        kept(s, n - 1).push(s[n - 1])
    } else {
        kept(s, n - 1)
    }
}

proof fn lemma_kept<T: Keyed>(s: Seq<T>, n: int)
    requires
        0 <= n <= s.len(),
    ensures
        forall|k: int, j: int| 0 <= k < kept(s, n).len() && n <= j < s.len() ==> (#[trigger] kept(s, n)[k]).key_view() != (#[trigger] s[j]).key_view(),
        keys_unique(kept(s, n)),
    decreases n,
{
    if n > 0 {
        lemma_kept(s, n - 1);
        let prev = kept(s, n - 1);
        let cur = kept(s, n);
        if last_of_key(s, n - 1) {
            assert forall|k: int, j: int| 0 <= k < cur.len() && n <= j < s.len() implies (#[trigger] cur[k]).key_view() != (#[trigger] s[j]).key_view() by {
                if k < prev.len() {
                    assert(cur[k] == prev[k]);
                } else {
                    assert(cur[k] == s[n - 1]);
                }
            }
            assert forall|p: int, q: int| 0 <= p < q < cur.len() implies (#[trigger] cur[p]).key_view() != (#[trigger] cur[q]).key_view() by {
                assert(cur[p] == prev[p]);
                if q < prev.len() {
                    assert(cur[q] == prev[q]);
                } else {
                    assert(cur[q] == s[n - 1]);
                    assert(prev[p].key_view() != s[n - 1].key_view());
                }
            }
        } else {
            assert forall|k: int, j: int| 0 <= k < cur.len() && n <= j < s.len() implies (#[trigger] cur[k]).key_view() != (#[trigger] s[j]).key_view() by {
                assert(cur[k] == prev[k]);
            }
        }
    }
}

/// Keeps, of the records that share an id, the last one, as collecting them
/// into a map keyed by id does; the kept records stay in their order.
pub fn index_by_id<T: Keyed>(v: Vec<T>) -> (r: Vec<T>)
    ensures
        r@ == kept(v@, v@.len() as int),
        keys_unique(r@),
{
    let ghost s = v@;
    let n = v.len();
    // which records are the last of their id
    let mut keep: Vec<bool> = Vec::new();
    let mut i: usize = 0;
    while i < n
        invariant
            n == s.len(),
            v@ == s,
            i <= n,
            keep@.len() == i,
            forall|a: int| 0 <= a < i ==> keep@[a] == last_of_key(s, a),
        decreases n - i,
    {
        let mut later = false;
        let mut j: usize = i + 1;
        while j < n
            invariant
                n == s.len(),
                v@ == s,
                i < n,
                i + 1 <= j <= n,
                later == exists|b: int| i < b < j && (#[trigger] s[b]).key_view() == s[i as int].key_view(),
            decreases n - j,
        {
            if str_eq(v[j].key().as_str(), v[i].key().as_str()) {
                later = true;
            }
            j += 1;
        }
        keep.push(!later);
        i += 1;
    }
    let mut v = v;
    let mut out: Vec<T> = Vec::new();
    let mut i: usize = 0;
    while i < n
        invariant
            n == s.len(),
            keep@.len() == n,
            forall|a: int| 0 <= a < n ==> keep@[a] == last_of_key(s, a),
            i <= n,
            v@ == s.subrange(i as int, n as int),
            out@ == kept(s, i as int),
        decreases n - i,
    {
        let x = v.remove(0);
        assert(x == s[i as int]);
        if keep[i] {
            out.push(x);
        }
        assert(s.subrange(i as int, n as int).drop_first() =~= s.subrange(i + 1, n as int));
        i += 1;
    }
    proof { lemma_kept(s, n as int); }
    out
}

/// A monster's look in the 3D view.
#[derive(Debug, Clone)]
pub struct MonsterModel {
    pub id: String,
    /// Multi-row ASCII sprite; spaces are transparent. Empty means the
    /// head/body/feet characters are used.
    pub sprite: Vec<String>,
    pub head: String,
    pub body: String,
    pub feet: String,
    pub color_r: u8,
    pub color_g: u8,
    pub color_b: u8,
}

/// The head character a monster model has by default.
pub fn default_head() -> (r: String)
    ensures
        r@ == "^"@,
{
    String::from_str("^")
}

/// The body character a monster model has by default.
pub fn default_body() -> (r: String)
    ensures
        r@ == "|"@,
{
    String::from_str("|")
}

/// The feet character a monster model has by default.
pub fn default_feet() -> (r: String)
    ensures
        r@ == "v"@,
{
    String::from_str("v")
}

/// Server settings.
#[derive(Debug, Clone)]
pub struct WorldConfig {
    pub host: String,
    pub port: u16,
    pub tick_ms: u64,
    pub monster_count: usize,
    pub view_radius: i32,
}

impl Default for WorldConfig {
    fn default() -> (r: Self)
        ensures
            r.host@ == "127.0.0.1"@,
            r.port == 7777,
            r.tick_ms == 600,
            r.monster_count == 40,
            r.view_radius == 18,
    {
        WorldConfig {
            host: String::from_str("127.0.0.1"),
            port: 7777,
            tick_ms: 600,
            monster_count: 40,
            view_radius: 18,
        }
    }
}

/// The whole game configuration: settings, classes, monsters, items, spells
/// and the interface language. Each table holds a record once per id.
#[derive(Debug, Clone)]
pub struct GameConfig {
    pub world: WorldConfig,
    pub classes: Vec<ClassDef>,
    pub monsters: Vec<MonsterTemplate>,
    pub items: Vec<ItemTemplate>,
    pub spells: Vec<Spell>,
    pub locale: LocaleConfig,
}

pub open spec fn find_key<T: Keyed>(s: Seq<T>, key: Seq<char>) -> Option<int> {
    if exists|i: int| 0 <= i < s.len() && (#[trigger] s[i]).key_view() == key {
        Some(choose|i: int| 0 <= i < s.len() && (#[trigger] s[i]).key_view() == key)
    } else {
        None
    }
}

/// In a table with unique ids, a record is found by its own id.
pub proof fn lemma_find_key_at<T: Keyed>(s: Seq<T>, t: int)
    requires
        keys_unique(s),
        0 <= t < s.len(),
    ensures
        find_key(s, s[t].key_view()) == Some(t),
{
    let k = s[t].key_view();
    assert(exists|i: int| 0 <= i < s.len() && (#[trigger] s[i]).key_view() == k);
    let c = choose|i: int| 0 <= i < s.len() && (#[trigger] s[i]).key_view() == k;
    assert(c == t) by {
        if c < t {
            assert(s[c].key_view() != s[t].key_view());
        } else if c > t {
            assert(s[t].key_view() != s[c].key_view());
        }
    }
}

/// A lookup in a table with unique ids.
pub fn lookup<'a, T: Keyed>(v: &'a Vec<T>, key: &str) -> (r: Option<&'a T>)
    requires
        keys_unique(v@),
    ensures
        match find_key(v@, key@) {
            Some(i) => r == Some(&v@[i]),
            None => r is None,
        },
{
    match find_first(v, key) {
        Some(i) => {
            proof {
                let c = choose|c: int| 0 <= c < v@.len() && (#[trigger] v@[c]).key_view() == key@;
                assert(c == i) by {
                    if c < i {
                    } else if c > i {
                        assert(v@[i as int].key_view() != v@[c].key_view());
                    }
                }
            }
            Some(&v[i])
        },
        None => None,
    }
}

impl GameConfig {
    pub open spec fn wf(self) -> bool {
        &&& keys_unique(self.classes@)
        &&& keys_unique(self.monsters@)
        &&& keys_unique(self.items@)
        &&& keys_unique(self.spells@)
    }

    /// A configuration from the loaded lists; where a list holds several
    /// records with one id, the last one counts.
    pub fn new(
        world: WorldConfig,
        classes: Vec<ClassDef>,
        monsters: Vec<MonsterTemplate>,
        items: Vec<ItemTemplate>,
        spells: Vec<Spell>,
        locale: LocaleConfig,
    ) -> (r: Self)
        ensures
            r.wf(),
            r.world == world,
            r.locale == locale,
            r.classes@ == kept(classes@, classes@.len() as int),
            r.monsters@ == kept(monsters@, monsters@.len() as int),
            r.items@ == kept(items@, items@.len() as int),
            r.spells@ == kept(spells@, spells@.len() as int),
    {
        GameConfig {
            world,
            classes: index_by_id(classes),
            monsters: index_by_id(monsters),
            items: index_by_id(items),
            spells: index_by_id(spells),
            locale,
        }
    }

    /// The server's address, "host:port".
    pub fn addr(&self) -> (r: String)
        ensures
            r@ == self.world.host@ + ":"@ + decimal(self.world.port as nat),
    {
        let mut s = self.world.host.clone();
        push_str(&mut s, ":");
        push_decimal(&mut s, self.world.port as u64);
        s
    }

    pub fn class(&self, id: &str) -> (r: Option<&ClassDef>)
        requires
            self.wf(),
        ensures
            match find_key(self.classes@, id@) {
                Some(i) => r == Some(&self.classes@[i]),
                None => r is None,
            },
    {
        lookup(&self.classes, id)
    }

    pub fn monster_template(&self, id: &str) -> (r: Option<&MonsterTemplate>)
        requires
            self.wf(),
        ensures
            match find_key(self.monsters@, id@) {
                Some(i) => r == Some(&self.monsters@[i]),
                None => r is None,
            },
    {
        lookup(&self.monsters, id)
    }

    pub fn item(&self, id: &str) -> (r: Option<&ItemTemplate>)
        requires
            self.wf(),
        ensures
            match find_key(self.items@, id@) {
                Some(i) => r == Some(&self.items@[i]),
                None => r is None,
            },
    {
        lookup(&self.items, id)
    }

    pub fn spell(&self, id: &str) -> (r: Option<&Spell>)
        requires
            self.wf(),
        ensures
            match find_key(self.spells@, id@) {
                Some(i) => r == Some(&self.spells@[i]),
                None => r is None,
            },
    {
        lookup(&self.spells, id)
    }
}

} // verus!
