pub mod atlas;
pub mod collision;
pub mod controls;
pub mod enemy;
pub mod health;
pub mod plugins;
pub mod tile_map;
pub mod tiles;
pub mod tmx;
