use topdown_game::controls::{listen_player_controller, movement_direction, player_movement, MoveKeys, PlayerAnimation};

fn keys(up: bool, left: bool, down: bool, right: bool) -> MoveKeys {
    MoveKeys { up, left, down, right }
}

#[test]
fn each_key_gives_its_direction() {
    assert_eq!(movement_direction(keys(true, false, false, false)), (0, 1));
    assert_eq!(movement_direction(keys(false, true, false, false)), (-1, 0));
    assert_eq!(movement_direction(keys(false, false, true, false)), (0, -1));
    assert_eq!(movement_direction(keys(false, false, false, true)), (1, 0));
}

#[test]
fn diagonal_and_opposite_keys() {
    assert_eq!(movement_direction(keys(true, false, false, true)), (1, 1));
    assert_eq!(movement_direction(keys(true, true, true, true)), (0, 0));
}

#[test]
fn running_only_with_a_direction() {
    let m = player_movement(keys(true, false, false, false));
    assert!(m.animation == PlayerAnimation::Running);
    assert_eq!((m.dx, m.dy), (0, 1));
    let still = player_movement(keys(false, true, false, true));
    assert!(still.animation == PlayerAnimation::Idle);
    assert_eq!((still.dx, still.dy), (0, 0));
    let none = player_movement(keys(false, false, false, false));
    assert!(none.animation == PlayerAnimation::Idle);
}

#[test]
fn animation_frames() {
    assert_eq!(PlayerAnimation::Idle.frame_range(), (0, 8));
    assert_eq!(PlayerAnimation::Running.frame_range(), (9, 17));
}

#[test]
fn only_pickups_are_collected() {
    let collided = vec![5, 7, 9, 7];
    let pickups = vec![7, 9, 11];
    assert_eq!(listen_player_controller(&collided, &pickups), vec![7, 9, 7]);
    assert!(listen_player_controller(&collided, &Vec::new()).is_empty());
    assert!(listen_player_controller(&Vec::new(), &pickups).is_empty());
}
