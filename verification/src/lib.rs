//! Core of a turn-based time-loop puzzle: a character moves on a grid level;
//! when the round's turn limit is reached its recorded command history is
//! frozen and replayed by a ghost while a fresh character begins, and the
//! level is won by reaching the goal cell before the ghost budget runs out.
//!
//! The crate holds the simulation only: grid arithmetic, terrain legality,
//! the occupancy map, signal counters for buttons and doors, the round-robin
//! turn scheduler, the actor/replay model and the level lifecycle. Rendering,
//! audio, input decoding and level files are collaborators outside it.

pub mod character;
pub mod grid;
pub mod level;
pub mod occupancy;
pub mod scheduler;
pub mod signals;
pub mod sim;
pub mod terrain;

pub use character::Character;
pub use grid::CharacterCommand;
pub use grid::Direction;
pub use grid::GridPosition;
pub use grid::Ordinate;
pub use occupancy::OccupationMap;
pub use scheduler::ActiveTurn;
pub use scheduler::GhostLimit;
pub use scheduler::TurnLimit;
pub use signals::SignalCounter;
pub use sim::World;
pub use terrain::TerrainMap;
