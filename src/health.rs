use vstd::prelude::*;

verus! {

/// Hit points of a living entity.
#[derive(Clone, Copy)]
pub struct Health {
    pub current: i32,
    pub max: i32,
}

impl Health {
    /// A fresh health pool, full to `max`.
    pub fn new(max: i32) -> (r: Health)
        ensures
            r.current == max,
            r.max == max,
    {
        Health { current: max, max }
    }
}

} // verus!
