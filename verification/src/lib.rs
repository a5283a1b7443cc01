//! The core of a turn-based roguelike on an 80 by 50 grid: levels of rooms
//! and corridors, sight, monsters that go after the player, melee, items
//! that are picked up, used and put down, and the state machine that takes
//! the game from tick to tick. Every function states what it does in its
//! contract, and the contracts are proved.
//!
//! Chance and sight come from `rltk`; the few calls into it are the only
//! items here that are believed rather than proved. Drawing, input and the
//! search for paths are left to the program round the library, which hands
//! over keys, the mouse and the paths it found, and reads back what to
//! draw.

pub mod components;
pub mod connectivity;
pub mod damage_system;
pub mod fov;
pub mod gamelog;
pub mod glyph;
pub mod gui;
pub mod input;
pub mod intents;
pub mod inventory_system;
pub mod map;
pub mod map_indexing_system;
pub mod melee_combat_system;
pub mod monster_ai_system;
pub mod player;
pub mod rect;
pub mod render;
pub mod rng;
pub mod seq_filter;
pub mod spawner;
pub mod state;
pub mod turn;
pub mod visibility_system;
pub mod world;
