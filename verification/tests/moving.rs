use cone_catcher::command::Command;
use cone_catcher::input::{FrameInput, KeyCode, KeyboardState};
use cone_catcher::round::{advance, GameState, MOVEMENT_SPEED};
use cone_catcher::spawn::Position;

fn held(keys: Vec<KeyCode>, delta_nanos: u64) -> FrameInput {
    FrameInput {
        delta_nanos,
        window_width: 1_280_000_000_000,
        window_height: 720_000_000_000,
        keyboard_state: KeyboardState { pressed_keys: keys, just_pressed_keys: vec![] },
        collision_events: vec![],
    }
}

fn shift(dx: i128, dy: i128) -> Command {
    Command::MoveSprite { label: "player".to_string(), dx, dy }
}

fn moves(keys: Vec<KeyCode>, delta_nanos: u64) -> Vec<Command> {
    let mut state = GameState::default();
    let mut commands = advance(&held(keys, delta_nanos), &mut state, Position { x: 0, y: 0 });
    commands.retain(|c| !matches!(c, Command::PlaceText { .. }));
    commands
}

#[test]
fn speed_is_100_units_per_second() {
    assert_eq!(MOVEMENT_SPEED, 100);
    assert_eq!(moves(vec![KeyCode::Right], 1_000_000_000), vec![shift(100_000_000_000, 0)]);
}

#[test]
fn up_and_right_move_diagonally() {
    let d: u64 = 16_666_667;
    let commands = moves(vec![KeyCode::Up, KeyCode::Right], d);
    assert_eq!(commands, vec![shift(0, 1_666_666_700), shift(1_666_666_700, 0)]);
    let (mut x, mut y) = (0i128, 0i128);
    for command in commands {
        if let Command::MoveSprite { dx, dy, .. } = command {
            x += dx;
            y += dy;
        }
    }
    assert_eq!((x, y), (100 * d as i128, 100 * d as i128));
}

#[test]
fn each_direction_has_two_keys() {
    let d = 10;
    assert_eq!(moves(vec![KeyCode::Up], d), vec![shift(0, 1000)]);
    assert_eq!(moves(vec![KeyCode::W], d), vec![shift(0, 1000)]);
    assert_eq!(moves(vec![KeyCode::Down], d), vec![shift(0, -1000)]);
    assert_eq!(moves(vec![KeyCode::S], d), vec![shift(0, -1000)]);
    assert_eq!(moves(vec![KeyCode::Right], d), vec![shift(1000, 0)]);
    assert_eq!(moves(vec![KeyCode::D], d), vec![shift(1000, 0)]);
    assert_eq!(moves(vec![KeyCode::Left], d), vec![shift(-1000, 0)]);
    assert_eq!(moves(vec![KeyCode::A], d), vec![shift(-1000, 0)]);
    assert_eq!(moves(vec![KeyCode::Up, KeyCode::W], d), vec![shift(0, 1000)]);
    assert_eq!(moves(vec![KeyCode::Q, KeyCode::R], d), vec![]);
    assert_eq!(moves(vec![], d), vec![]);
}

#[test]
fn directions_come_in_a_fixed_order() {
    let all = vec![KeyCode::A, KeyCode::D, KeyCode::S, KeyCode::W];
    assert_eq!(moves(all, 3), vec![shift(0, 300), shift(0, -300), shift(300, 0), shift(-300, 0)]);
}

#[test]
fn keys_that_only_went_down_do_not_move() {
    let mut state = GameState::default();
    let mut input = held(vec![], 5);
    input.keyboard_state =
        KeyboardState { pressed_keys: vec![], just_pressed_keys: vec![KeyCode::Up] };
    assert_eq!(advance(&input, &mut state, Position { x: 0, y: 0 }).len(), 2);
}

#[test]
fn longest_frame_moves_without_overflow() {
    assert_eq!(
        moves(vec![KeyCode::Down, KeyCode::Right], u64::MAX),
        vec![
            shift(0, -1_844_674_407_370_955_161_500),
            shift(1_844_674_407_370_955_161_500, 0),
            Command::SpawnSprite { label: "enemy0".to_string(), x: 0, y: 0, collision: true },
        ]
    );
}

#[test]
fn still_frame_moves_nowhere() {
    assert_eq!(moves(vec![KeyCode::Up, KeyCode::Left], 0), vec![shift(0, 0), shift(0, 0)]);
}
