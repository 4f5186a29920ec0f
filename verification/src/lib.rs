//! Core logic of a voxel sandbox game server: blocks and chunks, inventories
//! and crafting, mining and placement, mob decisions and pathfinding, and the
//! rule-driven terrain decoration pipeline.

pub mod block;
pub mod blueprints;
pub mod breaking;
pub mod chunk;
pub mod clock;
pub mod crafting;
pub mod dropped;
pub mod furnace;
pub mod health;
pub mod interact;
pub mod interface;
pub mod items;
pub mod mobs;
pub mod movement;
pub mod pathfinding;
pub mod rng;
pub mod settings;
pub mod terrain;
pub mod wheat;
pub mod world;
