use vstd::prelude::*;

use crate::enemy::{with_damage, Enemy};

verus! {

/// Hit points that one bullet takes off an enemy.
pub const BULLET_DAMAGE: i32 = 10;

/// An enemy together with the entity that carries it.
#[derive(Clone, Copy)]
pub struct EnemyEntry {
    pub entity: u64,
    pub enemy: Enemy,
}

/// The entities that bullet collisions care about, each named by its id:
/// the bullets, the enemies (with their state) and the walls.
pub struct CollisionWorld {
    pub bullets: Vec<u64>,
    pub enemies: Vec<EnemyEntry>,
    pub walls: Vec<u64>,
}

/// What a collision did: a bullet hit an enemy (which may have died of it),
/// a bullet hit a wall, or the collision concerned no bullet rule.
#[derive(Clone, Copy, PartialEq, Eq, Structural)]
pub enum BulletHit {
    Enemy { bullet: u64, enemy: u64, enemy_killed: bool },
    Wall { bullet: u64 },
    Ignored,
}

/// A contact reported by the physics engine between two entities.
#[derive(Clone, Copy, PartialEq, Eq, Structural)]
pub enum CollisionEvent {
    Started(u64, u64),
    Stopped(u64, u64),
}

/// The entity ids of the enemies, in order.
pub open spec fn enemy_ids(enemies: Seq<EnemyEntry>) -> Seq<u64> {
    enemies.map_values(|e: EnemyEntry| e.entity)
}

/// Every enemy has a health of zero or more.
pub open spec fn health_not_negative(enemies: Seq<EnemyEntry>) -> bool {
    forall|i: int| 0 <= i < enemies.len() ==> enemies[i].enemy.health.current >= 0
}

/// The bullet among two colliding entities, the first one taking precedence.
pub open spec fn bullet_of(bullets: Seq<u64>, e1: u64, e2: u64) -> Option<u64> {
    if bullets.contains(e1) {
        Some(e1)
    } else if bullets.contains(e2) {
        Some(e2)
    } else {
        None
    }
}

/// The slot of the enemy among two colliding entities, the first one taking
/// precedence; within the list the first entry of that entity.
pub open spec fn enemy_slot(enemies: Seq<EnemyEntry>, e1: u64, e2: u64) -> Option<int> {
    match enemy_ids(enemies).index_of_first(e1) {
        Some(i) => Some(i),
        None => enemy_ids(enemies).index_of_first(e2),
    }
}

/// What a collision between `e1` and `e2` does, and the enemies afterwards.
/// Being hit by a bullet, an enemy takes `BULLET_DAMAGE` and is killed when its
/// health reaches zero. The enemy rule is tried before the wall rule.
pub open spec fn collision_effect(
    bullets: Seq<u64>,
    enemies: Seq<EnemyEntry>,
    walls: Seq<u64>,
    e1: u64,
    e2: u64,
) -> (BulletHit, Seq<EnemyEntry>) {
    match bullet_of(bullets, e1, e2) {
        None => (BulletHit::Ignored, enemies),
        Some(b) => match enemy_slot(enemies, e1, e2) {
            Some(i) => {
                let hit = EnemyEntry {
                    entity: enemies[i].entity,
                    enemy: with_damage(enemies[i].enemy, BULLET_DAMAGE as int),
                };
                (
                    BulletHit::Enemy {
                        bullet: b,
                        enemy: hit.entity,
                        enemy_killed: hit.enemy.health.current == 0,
                    },
                    enemies.update(i, hit),
                )
            },
            None => if walls.contains(e1) || walls.contains(e2) {
                (BulletHit::Wall { bullet: b }, enemies)
            } else {
                (BulletHit::Ignored, enemies)
            },
        },
    }
}

/// The hits of a run of contact events, one for each started contact, and the
/// enemies afterwards. Stopped contacts change nothing.
pub open spec fn events_effect(
    bullets: Seq<u64>,
    enemies: Seq<EnemyEntry>,
    walls: Seq<u64>,
    events: Seq<CollisionEvent>,
) -> (Seq<BulletHit>, Seq<EnemyEntry>)
    decreases events.len(),
{
    if events.len() == 0 {
        (Seq::empty(), enemies)
    } else {
        let (hits, before) = events_effect(bullets, enemies, walls, events.drop_last());
        match events.last() {
            CollisionEvent::Started(e1, e2) => {
                let (hit, after) = collision_effect(bullets, before, walls, e1, e2);
                (hits.push(hit), after)
            },
            CollisionEvent::Stopped(_, _) => (hits, before),
        }
    }
}

/// The entities that a hit removes from the world: the bullet, and the enemy
/// if it was killed.
pub open spec fn despawned_by(hit: BulletHit) -> Seq<u64> {
    match hit {
        BulletHit::Enemy { bullet, enemy, enemy_killed } => if enemy_killed {
            seq![bullet, enemy]
        } else {
            seq![bullet]
        },
        BulletHit::Wall { bullet } => seq![bullet],
        BulletHit::Ignored => seq![],
    }
}

/// Whether `ids` holds `e`.
pub(crate) fn has_entity(ids: &Vec<u64>, e: u64) -> (r: bool)
    ensures
        r == ids@.contains(e),
{
    let mut i: usize = 0;
    while i < ids.len()
        invariant
            i <= ids.len(),
            forall|j: int| 0 <= j < i ==> ids@[j] != e,
        decreases ids.len() - i,
    {
        if ids[i] == e {
            return true;
        }
        i = i + 1;
    }
    false
}

/// Lifts the facts about a first occurrence found by a scan to `index_of_first`.
proof fn lemma_first_index(s: Seq<u64>, e: u64, i: int)
    requires
        0 <= i < s.len(),
        s[i] == e,
        forall|j: int| 0 <= j < i ==> s[j] != e,
    ensures
        s.index_of_first(e) == Some(i),
{
    s.index_of_first_ensures(e);
}

proof fn lemma_no_index(s: Seq<u64>, e: u64)
    requires
        forall|j: int| 0 <= j < s.len() ==> s[j] != e,
    ensures
        s.index_of_first(e) is None,
{
    s.index_of_first_ensures(e);
}

impl BulletHit {
    /// The entities to remove from the world after this hit.
    pub fn despawned(&self) -> (r: Vec<u64>)
        ensures
            r@ == despawned_by(*self),
    {
        match *self {
            BulletHit::Enemy { bullet, enemy, enemy_killed } => {
                if enemy_killed {
                    let r = vec![bullet, enemy];
                    assert(r@ =~= seq![bullet, enemy]);
                    r
                } else {
                    let r = vec![bullet];
                    assert(r@ =~= seq![bullet]);
                    r
                }
            },
            BulletHit::Wall { bullet } => {
                let r = vec![bullet];
                assert(r@ =~= seq![bullet]);
                r
            },
            BulletHit::Ignored => {
                let r: Vec<u64> = Vec::new();
                assert(r@ =~= seq![]);
                r
            },
        }
    }
}

impl CollisionWorld {
    /// Whether no enemy's health is below zero.
    pub fn healths_valid(&self) -> (r: bool)
        ensures
            r == health_not_negative(self.enemies@),
    {
        let mut i: usize = 0;
        while i < self.enemies.len()
            invariant
                i <= self.enemies.len(),
                forall|j: int| 0 <= j < i ==> self.enemies@[j].enemy.health.current >= 0,
            decreases self.enemies.len() - i,
        {
            if self.enemies[i].enemy.health.current < 0 {
                return false;
            }
            i = i + 1;
        }
        true
    }

    /// The slot of the first enemy carried by entity `e`.
    fn find_enemy(&self, e: u64) -> (r: Option<usize>)
        ensures
            match r {
                Some(i) => {
                    &&& i < self.enemies.len()
                    &&& self.enemies@[i as int].entity == e
                    &&& enemy_ids(self.enemies@).index_of_first(e) == Some(i as int)
                },
                None => enemy_ids(self.enemies@).index_of_first(e) is None,
            },
    {
        let ghost ids = enemy_ids(self.enemies@);
        let mut i: usize = 0;
        while i < self.enemies.len()
            invariant
                i <= self.enemies.len(),
                ids == enemy_ids(self.enemies@),
                forall|j: int| 0 <= j < i ==> ids[j] != e,
            decreases self.enemies.len() - i,
        {
            if self.enemies[i].entity == e {
                proof {
                    lemma_first_index(ids, e, i as int);
                }
                return Some(i);
            }
            i = i + 1;
        }
        proof {
            lemma_no_index(ids, e);
        }
        None
    }

    /// The bullet among two colliding entities: the first if it is a bullet,
    /// else the second if it is one.
    pub fn get_bullet_entity(&self, e1: u64, e2: u64) -> (r: Option<u64>)
        ensures
            r == bullet_of(self.bullets@, e1, e2),
    {
        if has_entity(&self.bullets, e1) {
            Some(e1)
        } else if has_entity(&self.bullets, e2) {
            Some(e2)
        } else {
            None
        }
    }

    /// Applies a bullet's hit to an enemy taking part in the collision, if one
    /// does: the enemy takes `BULLET_DAMAGE`, and the hit says whether it died.
    pub fn process_bullet_enemy_collision(&mut self, bullet: u64, e1: u64, e2: u64) -> (r: Option<
        BulletHit,
    >)
        requires
            health_not_negative(old(self).enemies@),
        ensures
            health_not_negative(final(self).enemies@),
            final(self).bullets == old(self).bullets,
            final(self).walls == old(self).walls,
            match enemy_slot(old(self).enemies@, e1, e2) {
                None => r is None && final(self).enemies@ == old(self).enemies@,
                Some(i) => {
                    let hit = EnemyEntry {
                        entity: old(self).enemies@[i].entity,
                        enemy: with_damage(old(self).enemies@[i].enemy, BULLET_DAMAGE as int),
                    };
                    &&& final(self).enemies@ == old(self).enemies@.update(i, hit)
                    &&& r == Some(
                        BulletHit::Enemy {
                            bullet,
                            enemy: hit.entity,
                            enemy_killed: hit.enemy.health.current == 0,
                        },
                    )
                },
            },
    {
        let slot = match self.find_enemy(e1) {
            Some(i) => Some(i),
            None => self.find_enemy(e2),
        };
        match slot {
            None => None,
            Some(i) => {
                let mut entry = self.enemies[i];
                entry.enemy.take_damage(BULLET_DAMAGE);
                self.enemies.set(i, entry);
                Some(
                    BulletHit::Enemy {
                        bullet,
                        enemy: entry.entity,
                        enemy_killed: entry.enemy.health.current == 0,
                    },
                )
            },
        }
    }

    /// A bullet's hit on a wall taking part in the collision, if one does.
    pub fn process_bullet_wall_collision(&self, bullet: u64, e1: u64, e2: u64) -> (r: Option<
        BulletHit,
    >)
        ensures
            r == (if self.walls@.contains(e1) || self.walls@.contains(e2) {
                Some(BulletHit::Wall { bullet })
            } else {
                None
            }),
    {
        if has_entity(&self.walls, e1) || has_entity(&self.walls, e2) {
            Some(BulletHit::Wall { bullet })
        } else {
            None
        }
    }

    /// Resolves the start of a contact between `e1` and `e2`: where one is a
    /// bullet, a hit on an enemy is applied before a hit on a wall is looked for.
    pub fn handle_bullet_collision(&mut self, e1: u64, e2: u64) -> (r: BulletHit)
        requires
            health_not_negative(old(self).enemies@),
        ensures
            health_not_negative(final(self).enemies@),
            final(self).bullets == old(self).bullets,
            final(self).walls == old(self).walls,
            (r, final(self).enemies@) == collision_effect(
                old(self).bullets@,
                old(self).enemies@,
                old(self).walls@,
                e1,
                e2,
            ),
    {
        match self.get_bullet_entity(e1, e2) {
            None => BulletHit::Ignored,
            Some(bullet) => {
                match self.process_bullet_enemy_collision(bullet, e1, e2) {
                    Some(hit) => hit,
                    None => match self.process_bullet_wall_collision(bullet, e1, e2) {
                        Some(hit) => hit,
                        None => BulletHit::Ignored,
                    },
                }
            },
        }
    }

    /// Resolves a frame's contact events in order, one hit for each started
    /// contact; stopped contacts are passed over.
    pub fn listen_collision_events(&mut self, events: &Vec<CollisionEvent>) -> (r: Vec<BulletHit>)
        requires
            health_not_negative(old(self).enemies@),
        ensures
            health_not_negative(final(self).enemies@),
            final(self).bullets == old(self).bullets,
            final(self).walls == old(self).walls,
            (r@, final(self).enemies@) == events_effect(
                old(self).bullets@,
                old(self).enemies@,
                old(self).walls@,
                events@,
            ),
    {
        let ghost start = self.enemies@;
        let mut hits: Vec<BulletHit> = Vec::new();
        let mut k: usize = 0;
        while k < events.len()
            invariant
                k <= events.len(),
                health_not_negative(self.enemies@),
                self.bullets == old(self).bullets,
                self.walls == old(self).walls,
                start == old(self).enemies@,
                (hits@, self.enemies@) == events_effect(
                    self.bullets@,
                    start,
                    self.walls@,
                    events@.take(k as int),
                ),
            decreases events.len() - k,
        {
            assert(events@.take(k as int + 1).drop_last() =~= events@.take(k as int));
            match events[k] {
                CollisionEvent::Started(e1, e2) => {
                    let hit = self.handle_bullet_collision(e1, e2);
                    hits.push(hit);
                },
                CollisionEvent::Stopped(_, _) => {},
            }
            k = k + 1;
        }
        assert(events@.take(events.len() as int) =~= events@);
        hits
    }
}

/// A bullet that touches an enemy and a wall in the same contact counts as
/// hitting the enemy, not the wall.
pub proof fn lemma_enemy_hit_before_wall(
    bullets: Seq<u64>,
    enemies: Seq<EnemyEntry>,
    walls: Seq<u64>,
    e1: u64,
    e2: u64,
)
    requires
        bullets.contains(e1) || bullets.contains(e2),
        enemy_ids(enemies).contains(e1) || enemy_ids(enemies).contains(e2),
        walls.contains(e1) || walls.contains(e2),
    ensures
        collision_effect(bullets, enemies, walls, e1, e2).0 is Enemy,
{
    enemy_ids(enemies).index_of_first_ensures(e1);
    enemy_ids(enemies).index_of_first_ensures(e2);
}

/// However many contacts a frame brings, no enemy's health goes below zero.
pub proof fn lemma_health_never_negative(
    bullets: Seq<u64>,
    enemies: Seq<EnemyEntry>,
    walls: Seq<u64>,
    events: Seq<CollisionEvent>,
)
    requires
        health_not_negative(enemies),
    ensures
        health_not_negative(events_effect(bullets, enemies, walls, events).1),
    decreases events.len(),
{
    if events.len() > 0 {
        lemma_health_never_negative(bullets, enemies, walls, events.drop_last());
        let before = events_effect(bullets, enemies, walls, events.drop_last()).1;
        match events.last() {
            CollisionEvent::Started(e1, e2) => {
                enemy_ids(before).index_of_first_ensures(e1);
                enemy_ids(before).index_of_first_ensures(e2);
            },
            CollisionEvent::Stopped(_, _) => {},
        }
    }
}

} // verus!
