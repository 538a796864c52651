//! Ready-made entities: tanks, bullets, healing items and walls, with the
//! scripts that make them behave.

pub mod bullet;
pub mod items;
pub mod player;
pub mod wall;

pub use bullet::{bullet, bullet_collision_script};
pub use items::{heal_item, heal_item_script, pickup_script};
pub use player::{
    default_color, player, player_collision_script, player_control_component,
    player_control_script, player_death_script,
};
pub use wall::{wall, wall_collision_script};
