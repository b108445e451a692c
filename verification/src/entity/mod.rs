pub mod player;
pub mod monster;
pub mod item;
pub mod spell;
pub mod class;

pub use player::Player;
pub use monster::{Monster, MonsterTemplate};
pub use item::{Item, ItemKind, ItemTemplate, Equipment, GroundItem};
pub use spell::Spell;
pub use class::ClassDef;
