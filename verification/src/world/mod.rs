pub mod pos;
pub mod tile;
pub mod map;
pub mod stats;
pub mod combat;

pub use pos::Pos;
pub use tile::TileKind;
pub use map::{GameMap, MAP_W, MAP_H, SP_MAP_W, SP_MAP_H};
pub use stats::Stats;
pub use combat::CombatEvent;
