use vstd::prelude::*;

use crate::collision::has_entity;

verus! {

/// The four movement keys that are held down this frame.
#[derive(Clone, Copy, PartialEq, Eq, Structural)]
pub struct MoveKeys {
    pub up: bool,
    pub left: bool,
    pub down: bool,
    pub right: bool,
}

/// The animation the player shows.
#[derive(Clone, Copy, PartialEq, Eq, Structural)]
pub enum PlayerAnimation {
    Idle,
    Running,
}

/// This frame's movement: a direction on each axis (each of -1, 0 and 1,
/// before it is normalised), and the animation to show.
#[derive(Clone, Copy, PartialEq, Eq, Structural)]
pub struct PlayerMove {
    pub dx: i8,
    pub dy: i8,
    pub animation: PlayerAnimation,
}

/// One axis of the direction: the key towards the positive side counts one
/// up, the key towards the negative side one down.
pub open spec fn axis(negative: bool, positive: bool) -> int {
    (if positive { 1int } else { 0int }) - (if negative { 1int } else { 0int })
}

/// The player runs when the held keys give a direction, and idles otherwise.
pub open spec fn animation_for(dx: int, dy: int) -> PlayerAnimation {
    if dx != 0 || dy != 0 {
        PlayerAnimation::Running
    } else {
        PlayerAnimation::Idle
    }
}

fn axis_of(negative: bool, positive: bool) -> (r: i8)
    ensures
        r == axis(negative, positive),
{
    let mut d: i8 = 0;
    if positive {
        d = d + 1;
    }
    if negative {
        d = d - 1;
    }
    d
}

/// The direction that the held keys give, right and up counting positive;
/// opposite keys cancel out.
pub fn movement_direction(keys: MoveKeys) -> (r: (i8, i8))
    ensures
        r.0 == axis(keys.left, keys.right),
        r.1 == axis(keys.down, keys.up),
{
    (axis_of(keys.left, keys.right), axis_of(keys.down, keys.up))
}

/// The player's movement for this frame: the direction of the held keys, and
/// the running animation exactly when that direction is not zero.
pub fn player_movement(keys: MoveKeys) -> (r: PlayerMove)
    ensures
        r.dx == axis(keys.left, keys.right),
        r.dy == axis(keys.down, keys.up),
        r.animation == animation_for(r.dx as int, r.dy as int),
{
    let (dx, dy) = movement_direction(keys);
    let animation = if dx != 0 || dy != 0 {
        PlayerAnimation::Running
    } else {
        PlayerAnimation::Idle
    };
    PlayerMove { dx, dy, animation }
}

impl PlayerAnimation {
    /// First and last frame of the animation in the player's sprite sheet:
    /// the idle frames fill the first row of nine, the running frames the
    /// second.
    pub fn frame_range(&self) -> (r: (usize, usize))
        ensures
            *self == PlayerAnimation::Idle ==> r == (0usize, 8usize),
            *self == PlayerAnimation::Running ==> r == (9usize, 17usize),
    {
        match self {
            PlayerAnimation::Idle => (0, 8),
            PlayerAnimation::Running => (9, 17),
        }
    }
}

/// Whether an entity is one of `pickups`.
pub open spec fn is_pickup(pickups: Seq<u64>) -> spec_fn(u64) -> bool {
    |e: u64| pickups.contains(e)
}

/// The entities that the player's controller ran into this frame and that
/// are pickups, in the order of the collisions: these are collected.
pub fn listen_player_controller(collided: &Vec<u64>, pickups: &Vec<u64>) -> (r: Vec<u64>)
    ensures
        r@ == collided@.filter(is_pickup(pickups@)),
{
    let mut taken: Vec<u64> = Vec::new();
    let mut k: usize = 0;
    while k < collided.len()
        invariant
            k <= collided.len(),
            taken@ == collided@.take(k as int).filter(is_pickup(pickups@)),
        decreases collided.len() - k,
    {
        let ghost upto = collided@.take(k as int + 1);
        proof {
            reveal(Seq::filter);
        }
        assert(upto.drop_last() =~= collided@.take(k as int));
        assert(upto.last() == collided@[k as int]);
        if has_entity(pickups, collided[k]) {
            taken.push(collided[k]);
            assert(is_pickup(pickups@)(upto.last()));
        } else {
            assert(!is_pickup(pickups@)(upto.last()));
        }
        k = k + 1;
    }
    assert(collided@.take(collided.len() as int) =~= collided@);
    taken
}

} // verus!
