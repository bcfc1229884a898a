//! The rules of a multiplayer fishing game: what items are worth, how they
//! stack in an inventory, how gold changes hands, and how quests and levels
//! are earned.
//!
//! The state of the game is a [`store::World`] of tables. Every transaction
//! takes the world, checks in full whether it can be carried out, and either
//! changes the world or turns the request down and leaves the world as it
//! was. What each transaction does is stated over the views of the tables.

pub mod admin;
pub mod counters;
pub mod document;
pub mod economy;
pub mod fishing;
pub mod items;
pub mod ledger;
pub mod leveling;
pub mod npcs;
pub mod players;
pub mod quests;
pub mod seeds;
pub mod sessions;
pub mod store;
pub mod text;
