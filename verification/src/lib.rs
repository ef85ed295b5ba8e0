//! Spatial substrate for a hex-grid simulation: axial/cubic coordinate
//! geometry on a bounded hexagonal map with edge wraparound, ring and
//! filled-hexagon enumeration, and a per-frame tile-selection state machine
//! that turns raw input signals into selected and hovered tile sets.

pub mod coords;
pub mod directions;
pub mod lines;
pub mod recipes;
pub mod rings;
pub mod selection;
pub mod signals;
pub mod tiles;

pub use coords::CubePosition;
pub use coords::Position;
pub use directions::HexDirection;
pub use recipes::Duration;
pub use recipes::Energy;
pub use recipes::Id;
pub use recipes::ItemCount;
pub use recipes::RecipeData;
pub use selection::ActionInputs;
pub use selection::AreaSelection;
pub use selection::LineSelection;
pub use selection::PlayerAction;
pub use selection::SelectedTiles;
pub use signals::ID;
pub use signals::SignalType;
pub use tiles::TilePos;
pub use tiles::TileSet;
