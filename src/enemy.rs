use vstd::prelude::*;

use crate::health::Health;

verus! {

/// Health left after `amount` of damage: it stops at zero.
pub open spec fn damaged_health(current: int, amount: int) -> int {
    if current - amount > 0 {
        current - amount
    } else {
        0
    }
}

/// `e` after taking `amount` of damage.
pub open spec fn with_damage(e: Enemy, amount: int) -> Enemy {
    Enemy {
        health: Health { current: damaged_health(e.health.current as int, amount) as i32, max: e.health.max },
        ..e
    }
}

/// An enemy: its health, its speed in world units per second, and whether
/// it has noticed the player and is chasing.
#[derive(Clone, Copy)]
pub struct Enemy {
    pub health: Health,
    pub speed: u32,
    pub player_spotted: bool,
}

impl Enemy {
    /// A new enemy at full health that has not noticed the player yet. Health
    /// never goes below zero, so it cannot start there either.
    pub fn new(max_health: i32, speed: u32) -> (r: Enemy)
        requires
            max_health >= 0,
        ensures
            r.health.current == max_health,
            r.health.max == max_health,
            r.speed == speed,
            !r.player_spotted,
    {
        Enemy { health: Health::new(max_health), speed, player_spotted: false }
    }

    /// Takes `amount` hit points off; health never drops below zero.
    pub fn take_damage(&mut self, amount: i32)
        requires
            i32::MIN <= old(self).health.current - amount <= i32::MAX,
        ensures
            *final(self) == with_damage(*old(self), amount as int),
            final(self).health.current >= 0,
    {
        let left = self.health.current - amount;
        self.health.current = if left > 0 { left } else { 0 };
    }
}

} // verus!
