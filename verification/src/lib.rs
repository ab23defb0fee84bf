//! Block world game logic: terrain, collision lookups, inventory and mob state.
pub mod block;
pub mod controls;
pub mod inventory;
pub mod mob;
pub mod player;
pub mod terrain;
pub mod world;
