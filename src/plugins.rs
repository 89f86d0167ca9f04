use vstd::prelude::*;

use crate::collision::BULLET_DAMAGE;
use crate::enemy::Enemy;

verus! {

/// Settings of the bullets: how often one may be fired while the button is
/// held, how long one lives, how fast it flies and what a hit takes off.
pub struct BulletPlugin {
    pub spawn_interval_ms: u32,
    pub lifetime_ms: u32,
    pub speed: u32,
    pub damage: i32,
}

impl BulletPlugin {
    /// Ten bullets a second, each living one second at 1000 units a second.
    pub fn new() -> (r: BulletPlugin)
        ensures
            r.spawn_interval_ms == 100,
            r.lifetime_ms == 1000,
            r.speed == 1000,
            r.damage == BULLET_DAMAGE,
    {
        BulletPlugin { spawn_interval_ms: 100, lifetime_ms: 1000, speed: 1000, damage: BULLET_DAMAGE }
    }
}

/// Keeps the world position under the mouse cursor up to date.
pub struct CursorPositionPlugin;

/// Settings of the enemies: how many appear at start, their health and speed,
/// how near the player must come to be spotted, and how long an idle enemy
/// keeps its heading.
pub struct EnemyPlugin {
    pub count: u32,
    pub max_health: i32,
    pub speed: u32,
    pub chase_radius: u32,
    pub turn_interval_ms: u32,
}

impl EnemyPlugin {
    /// Ten enemies of 100 health moving at 100 units a second, spotting the
    /// player within 250 units and turning every second.
    pub fn new() -> (r: EnemyPlugin)
        ensures
            r.count == 10,
            r.max_health == 100,
            r.speed == 100,
            r.chase_radius == 250,
            r.turn_interval_ms == 1000,
    {
        EnemyPlugin { count: 10, max_health: 100, speed: 100, chase_radius: 250, turn_interval_ms: 1000 }
    }

    /// A freshly spawned enemy with these settings.
    pub fn spawn(&self) -> (r: Enemy)
        requires
            self.max_health >= 0,
        ensures
            r.health.current == self.max_health,
            r.health.max == self.max_health,
            r.speed == self.speed,
            !r.player_spotted,
    {
        Enemy::new(self.max_health, self.speed)
    }
}

/// Settings of the pickups: how many are scattered at start.
pub struct PickupPlugin {
    pub count: u32,
}

impl PickupPlugin {
    /// Ten pickups.
    pub fn new() -> (r: PickupPlugin)
        ensures
            r.count == 10,
    {
        PickupPlugin { count: 10 }
    }
}

/// The wall: the position of its centre and its half extents.
pub struct WallPlugin {
    pub x: i32,
    pub y: i32,
    pub half_width: u32,
    pub half_height: u32,
}

impl WallPlugin {
    /// A tall wall left of the origin.
    pub fn new() -> (r: WallPlugin)
        ensures
            r.x == -150,
            r.y == 10,
            r.half_width == 50,
            r.half_height == 1500,
    {
        WallPlugin { x: -150, y: 10, half_width: 50, half_height: 1500 }
    }
}

} // verus!
