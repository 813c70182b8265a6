//! Simulation core of a tile-based side-scrolling arcade game: the bit-plane
//! sprite codec, the character state machine and the projectile engine.

pub mod bitmap;
pub mod character;
pub mod direction;
pub mod gamemap;
pub mod gamestate;
pub mod projectile;
pub mod sprite;
pub mod state;
pub mod text;
