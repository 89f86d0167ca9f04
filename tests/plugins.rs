use topdown_game::collision::BULLET_DAMAGE;
use topdown_game::plugins::{BulletPlugin, CursorPositionPlugin, EnemyPlugin, PickupPlugin, WallPlugin};

#[test]
fn bullet_settings() {
    let b = BulletPlugin::new();
    assert_eq!((b.spawn_interval_ms, b.lifetime_ms, b.speed), (100, 1000, 1000));
    assert_eq!(b.damage, BULLET_DAMAGE);
    assert_eq!(b.damage, 10);
}

#[test]
fn enemy_settings_and_spawn() {
    let p = EnemyPlugin::new();
    assert_eq!((p.count, p.max_health, p.speed, p.chase_radius, p.turn_interval_ms), (10, 100, 100, 250, 1000));
    let e = p.spawn();
    assert_eq!((e.health.current, e.health.max, e.speed), (100, 100, 100));
    assert!(!e.player_spotted);
}

#[test]
fn pickup_and_wall_settings() {
    assert_eq!(PickupPlugin::new().count, 10);
    let w = WallPlugin::new();
    assert_eq!((w.x, w.y, w.half_width, w.half_height), (-150, 10, 50, 1500));
    let _cursor = CursorPositionPlugin;
}
