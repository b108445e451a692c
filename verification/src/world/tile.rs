use vstd::prelude::*;

verus! {

/// The kinds of map tile; a map stores each as its number `0..=12`
/// (`to_u8` / `from_u8`).
#[derive(Debug, Clone, Copy, PartialEq, Eq, Structural)]
pub enum TileKind {
    Grass,
    Wall,
    Tree,
    Water,
    Floor,
    Road,
    Sand,
    /// impassable, volcanic
    Lava,
    /// passable, frozen ground
    Ice,
    /// impassable, stone column
    Pillar,
    /// impassable, thorns
    Bramble,
    /// passable, crumbled stone
    Ruins,
    /// passable, swamp mud
    Mud,
}

pub open spec fn spec_tile_from_u8(v: u8) -> TileKind {
    if v == 0 { TileKind::Grass }
    else if v == 1 { TileKind::Wall }
    else if v == 2 { TileKind::Tree }
    else if v == 3 { TileKind::Water }
    else if v == 4 { TileKind::Floor }
    else if v == 5 { TileKind::Road }
    else if v == 6 { TileKind::Sand }
    else if v == 7 { TileKind::Lava }
    else if v == 8 { TileKind::Ice }
    else if v == 9 { TileKind::Pillar }
    else if v == 10 { TileKind::Bramble }
    else if v == 11 { TileKind::Ruins }
    else if v == 12 { TileKind::Mud }
    else { TileKind::Grass }
}

impl TileKind {
    pub open spec fn spec_passable(self) -> bool {
        match self {
            TileKind::Grass | TileKind::Floor | TileKind::Road | TileKind::Sand
            | TileKind::Ice | TileKind::Ruins | TileKind::Mud => true,
            _ => false,
        }
    }

    pub open spec fn spec_to_u8(self) -> u8 {
        match self {
            TileKind::Grass => 0,
            TileKind::Wall => 1,
            TileKind::Tree => 2,
            TileKind::Water => 3,
            TileKind::Floor => 4,
            TileKind::Road => 5,
            TileKind::Sand => 6,
            TileKind::Lava => 7,
            TileKind::Ice => 8,
            TileKind::Pillar => 9,
            TileKind::Bramble => 10,
            TileKind::Ruins => 11,
            TileKind::Mud => 12,
        }
    }

    pub open spec fn spec_symbol(self) -> char {
        match self {
            TileKind::Grass => '.',
            TileKind::Wall => '#',
            TileKind::Tree => 'T',
            TileKind::Water => '~',
            TileKind::Floor => '.',
            TileKind::Road => '+',
            TileKind::Sand => ',',
            TileKind::Lava => '^',
            TileKind::Ice => '_',
            TileKind::Pillar => 'O',
            TileKind::Bramble => '*',
            TileKind::Ruins => ':',
            TileKind::Mud => ';',
        }
    }

    pub fn passable(self) -> (r: bool)
        ensures
            r == self.spec_passable(),
    {
        match self {
            TileKind::Grass | TileKind::Floor | TileKind::Road | TileKind::Sand
            | TileKind::Ice | TileKind::Ruins | TileKind::Mud => true,
            _ => false,
        }
    }

    pub fn symbol(self) -> (r: char)
        ensures
            r == self.spec_symbol(),
    {
        match self {
            TileKind::Grass => '.',
            TileKind::Wall => '#',
            TileKind::Tree => 'T',
            TileKind::Water => '~',
            TileKind::Floor => '.',
            TileKind::Road => '+',
            TileKind::Sand => ',',
            TileKind::Lava => '^',
            TileKind::Ice => '_',
            TileKind::Pillar => 'O',
            TileKind::Bramble => '*',
            TileKind::Ruins => ':',
            TileKind::Mud => ';',
        }
    }

    /// The tile's number in a map's byte array.
    pub fn to_u8(self) -> (r: u8)
        ensures
            r == self.spec_to_u8(),
            r <= 12,
    {
        match self {
            TileKind::Grass => 0,
            TileKind::Wall => 1,
            TileKind::Tree => 2,
            TileKind::Water => 3,
            TileKind::Floor => 4,
            TileKind::Road => 5,
            TileKind::Sand => 6,
            TileKind::Lava => 7,
            TileKind::Ice => 8,
            TileKind::Pillar => 9,
            TileKind::Bramble => 10,
            TileKind::Ruins => 11,
            TileKind::Mud => 12,
        }
    }

    /// Decodes a tile number; unknown numbers read as grass.
    pub fn from_u8(v: u8) -> (r: Self)
        ensures
            r == spec_tile_from_u8(v),
    {
        match v {
            0 => TileKind::Grass,
            1 => TileKind::Wall,
            2 => TileKind::Tree,
            3 => TileKind::Water,
            4 => TileKind::Floor,
            5 => TileKind::Road,
            6 => TileKind::Sand,
            7 => TileKind::Lava,
            8 => TileKind::Ice,
            9 => TileKind::Pillar,
            10 => TileKind::Bramble,
            11 => TileKind::Ruins,
            12 => TileKind::Mud,
            _ => TileKind::Grass,
        }
    }
}

/// Decoding a tile's number gives the tile back.
pub proof fn lemma_tile_roundtrip(t: TileKind)
    ensures
        spec_tile_from_u8(t.spec_to_u8()) == t,
{
}

/// Two tiles with the same number are the same tile.
pub proof fn lemma_tile_to_u8_injective(a: TileKind, b: TileKind)
    ensures
        a.spec_to_u8() == b.spec_to_u8() ==> a == b,
{
}

} // verus!
