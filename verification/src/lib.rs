//! Gameplay rules of a small 3D action game, stated over explicit tables of
//! entities: shooting with a cooldown, projectiles and what they hit, hit
//! points and death, timed particle effects, and the audio emitters with their
//! command queues and spatial mix.
//!
//! Quantities are fixed-point integers: lengths, speeds and hit points in
//! millionths of a unit, time in microseconds.

pub mod combat;
pub mod entity;
pub mod fixed;
pub mod particles;
pub mod spatial_audio;
pub mod spawning;
pub mod table;
