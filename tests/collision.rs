use topdown_game::collision::{BulletHit, CollisionEvent, CollisionWorld, EnemyEntry, BULLET_DAMAGE};
use topdown_game::enemy::Enemy;

fn world(enemy_health: i32) -> CollisionWorld {
    CollisionWorld {
        bullets: vec![1, 2],
        enemies: vec![EnemyEntry { entity: 10, enemy: Enemy::new(enemy_health, 100) }],
        walls: vec![20],
    }
}

#[test]
fn bullet_hits_enemy_and_damages_it() {
    let mut w = world(100);
    let hit = w.handle_bullet_collision(1, 10);
    assert!(hit == BulletHit::Enemy { bullet: 1, enemy: 10, enemy_killed: false });
    assert_eq!(w.enemies[0].enemy.health.current, 100 - BULLET_DAMAGE);
    assert_eq!(hit.despawned(), vec![1]);
}

#[test]
fn bullet_as_second_entity_is_found() {
    let mut w = world(100);
    let hit = w.handle_bullet_collision(10, 2);
    assert!(hit == BulletHit::Enemy { bullet: 2, enemy: 10, enemy_killed: false });
    assert_eq!(w.enemies[0].enemy.health.current, 90);
}

#[test]
fn enemy_at_ten_health_is_killed() {
    let mut w = world(10);
    let hit = w.handle_bullet_collision(1, 10);
    assert!(hit == BulletHit::Enemy { bullet: 1, enemy: 10, enemy_killed: true });
    assert_eq!(w.enemies[0].enemy.health.current, 0);
    assert_eq!(hit.despawned(), vec![1, 10]);
}

#[test]
fn health_stops_at_zero() {
    let mut w = world(5);
    let hit = w.handle_bullet_collision(1, 10);
    assert!(hit == BulletHit::Enemy { bullet: 1, enemy: 10, enemy_killed: true });
    assert_eq!(w.enemies[0].enemy.health.current, 0);
    let again = w.handle_bullet_collision(2, 10);
    assert!(again == BulletHit::Enemy { bullet: 2, enemy: 10, enemy_killed: true });
    assert_eq!(w.enemies[0].enemy.health.current, 0);
}

#[test]
fn bullet_hits_wall() {
    let mut w = world(100);
    let hit = w.handle_bullet_collision(20, 1);
    assert!(hit == BulletHit::Wall { bullet: 1 });
    assert_eq!(w.enemies[0].enemy.health.current, 100);
    assert_eq!(hit.despawned(), vec![1]);
}

#[test]
fn enemy_hit_wins_over_wall_hit() {
    // The second entity is both an enemy and a wall.
    let mut w = CollisionWorld {
        bullets: vec![1],
        enemies: vec![EnemyEntry { entity: 30, enemy: Enemy::new(100, 100) }],
        walls: vec![30],
    };
    let hit = w.handle_bullet_collision(1, 30);
    assert!(hit == BulletHit::Enemy { bullet: 1, enemy: 30, enemy_killed: false });
    assert_eq!(w.enemies[0].enemy.health.current, 90);
}

#[test]
fn collision_without_bullet_is_ignored() {
    let mut w = world(100);
    let hit = w.handle_bullet_collision(10, 20);
    assert!(hit == BulletHit::Ignored);
    assert_eq!(w.enemies[0].enemy.health.current, 100);
    assert!(hit.despawned().is_empty());
}

#[test]
fn bullet_touching_nothing_relevant_is_ignored() {
    let mut w = world(100);
    assert!(w.handle_bullet_collision(1, 99) == BulletHit::Ignored);
}

#[test]
fn parts_of_the_dispatch() {
    let mut w = world(100);
    assert_eq!(w.get_bullet_entity(1, 2), Some(1));
    assert_eq!(w.get_bullet_entity(10, 2), Some(2));
    assert_eq!(w.get_bullet_entity(10, 20), None);
    assert!(w.process_bullet_wall_collision(1, 1, 20) == Some(BulletHit::Wall { bullet: 1 }));
    assert!(w.process_bullet_wall_collision(1, 1, 10).is_none());
    assert!(w.process_bullet_enemy_collision(1, 1, 20).is_none());
    assert!(
        w.process_bullet_enemy_collision(1, 1, 10)
            == Some(BulletHit::Enemy { bullet: 1, enemy: 10, enemy_killed: false })
    );
}

#[test]
fn only_started_contacts_are_resolved() {
    let mut w = world(20);
    let events = vec![
        CollisionEvent::Started(1, 10),
        CollisionEvent::Stopped(1, 10),
        CollisionEvent::Started(2, 20),
        CollisionEvent::Started(10, 2),
    ];
    let hits = w.listen_collision_events(&events);
    assert_eq!(hits.len(), 3);
    assert!(hits[0] == BulletHit::Enemy { bullet: 1, enemy: 10, enemy_killed: false });
    assert!(hits[1] == BulletHit::Wall { bullet: 2 });
    assert!(hits[2] == BulletHit::Enemy { bullet: 2, enemy: 10, enemy_killed: true });
    assert_eq!(w.enemies[0].enemy.health.current, 0);
}

#[test]
fn no_events_change_nothing() {
    let mut w = world(100);
    let hits = w.listen_collision_events(&Vec::new());
    assert!(hits.is_empty());
    assert_eq!(w.enemies[0].enemy.health.current, 100);
}

#[test]
fn health_check_of_the_world() {
    assert!(world(0).healths_valid());
    let mut hurt = world(100);
    hurt.enemies[0].enemy.health.current = -1;
    assert!(!hurt.healths_valid());
    assert!(CollisionWorld { bullets: vec![], enemies: vec![], walls: vec![] }.healths_valid());
}
