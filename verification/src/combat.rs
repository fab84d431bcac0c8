//! Hit points, shooting and projectiles.

pub mod health;
pub mod impact;
pub mod projectile;
pub mod shoot;
