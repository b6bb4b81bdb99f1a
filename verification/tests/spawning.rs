use cone_catcher::command::Command;
use cone_catcher::input::{FrameInput, KeyboardState};
use cone_catcher::round::{advance as advance_frame, game_logic as play_frame, GameState};
use cone_catcher::spawn::{
    random_spawn_position, Position, NANO_UNITS_PER_UNIT, PLAY_FIELD_HALF_HEIGHT,
    PLAY_FIELD_HALF_WIDTH,
};
use cone_catcher::timer::{SpawnTimer, SPAWN_PERIOD_NANOS};

fn quiet_frame(delta_nanos: u64) -> FrameInput {
    FrameInput {
        delta_nanos,
        window_width: 1_280_000_000_000,
        window_height: 720_000_000_000,
        keyboard_state: KeyboardState::new(),
        collision_events: vec![],
    }
}

fn without_texts(mut commands: Vec<Command>) -> Vec<Command> {
    commands.retain(|c| !matches!(c, Command::PlaceText { .. }));
    commands
}

fn advance(input: &FrameInput, state: &mut GameState, spawn_at: Position) -> Vec<Command> {
    without_texts(advance_frame(input, state, spawn_at))
}

fn game_logic(input: &FrameInput, state: &mut GameState) -> Vec<Command> {
    without_texts(play_frame(input, state))
}

fn spawn_count(commands: &[Command]) -> usize {
    commands.iter().filter(|c| matches!(c, Command::SpawnSprite { .. })).count()
}

#[test]
fn play_field_is_550_by_325_units() {
    assert_eq!(NANO_UNITS_PER_UNIT, 1_000_000_000);
    assert_eq!(PLAY_FIELD_HALF_WIDTH, 550 * NANO_UNITS_PER_UNIT);
    assert_eq!(PLAY_FIELD_HALF_HEIGHT, 325 * NANO_UNITS_PER_UNIT);
    assert_eq!(SPAWN_PERIOD_NANOS, 2_000_000_000);
}

#[test]
fn timer_completes_when_the_period_is_reached() {
    let mut timer = SpawnTimer::new();
    assert_eq!(timer.elapsed_nanos(), 0);
    assert!(!timer.just_finished());
    assert!(!timer.finishes_within(1_999_999_999));
    assert!(timer.finishes_within(2_000_000_000));

    timer.tick(1_999_999_999);
    assert!(!timer.just_finished());
    assert_eq!(timer.elapsed_nanos(), 1_999_999_999);
    assert!(timer.finishes_within(1));
    assert!(!timer.finishes_within(0));

    timer.tick(1);
    assert!(timer.just_finished());
    assert_eq!(timer.elapsed_nanos(), 0);

    timer.tick(0);
    assert!(!timer.just_finished());
    assert_eq!(timer.elapsed_nanos(), 0);
}

#[test]
fn timer_keeps_what_is_left_of_a_period() {
    let mut timer = SpawnTimer::new();
    timer.tick(1_500_000_000);
    timer.tick(1_000_000_000);
    assert!(timer.just_finished());
    assert_eq!(timer.elapsed_nanos(), 500_000_000);
    timer.tick(1_499_999_999);
    assert!(!timer.just_finished());
    timer.tick(1);
    assert!(timer.just_finished());
    assert_eq!(timer.elapsed_nanos(), 0);
}

#[test]
fn timer_completes_once_in_a_long_frame() {
    let mut timer = SpawnTimer::new();
    timer.tick(4_000_000_000);
    assert!(timer.just_finished());
    assert_eq!(timer.elapsed_nanos(), 0);

    let mut timer = SpawnTimer::new();
    timer.tick(5_000_000_000);
    assert!(timer.just_finished());
    assert_eq!(timer.elapsed_nanos(), 1_000_000_000);

    let mut timer = SpawnTimer::new();
    timer.tick(1_999_999_999);
    timer.tick(u64::MAX);
    assert!(timer.just_finished());
    assert_eq!(
        timer.elapsed_nanos() as u128,
        (1_999_999_999u128 + u64::MAX as u128) % 2_000_000_000
    );
}

#[test]
fn frames_of_two_seconds_in_all_spawn_once() {
    for cuts in [
        vec![2_000_000_000u64],
        vec![1_000_000_000, 1_000_000_000],
        vec![1, 1_999_999_998, 1],
        vec![0, 500_000_000, 0, 700_000_000, 800_000_000, 0],
        vec![16_666_667; 119].into_iter().chain([16_666_627]).collect(),
    ] {
        assert_eq!(cuts.iter().sum::<u64>(), 2_000_000_000);
        let mut state = GameState::default();
        let mut spawned = 0;
        for delta in cuts {
            let commands = advance(&quiet_frame(delta), &mut state, Position { x: 0, y: 0 });
            spawned += spawn_count(&commands);
        }
        assert_eq!(spawned, 1);
        assert_eq!(state.enemy_index, 1);
        assert_eq!(state.spawn_timer.elapsed_nanos(), 0);
    }
}

#[test]
fn four_seconds_in_one_frame_spawn_once() {
    let mut state = GameState::default();
    let commands = advance(&quiet_frame(4_000_000_000), &mut state, Position { x: 7, y: -9 });
    assert_eq!(
        commands,
        vec![Command::SpawnSprite { label: "enemy0".to_string(), x: 7, y: -9, collision: true }]
    );
    assert_eq!(state.enemy_index, 1);
    let commands = advance(&quiet_frame(1_999_999_999), &mut state, Position { x: 0, y: 0 });
    assert_eq!(commands, vec![]);
}

#[test]
fn enemies_are_numbered_without_gaps() {
    let mut state = GameState::default();
    let mut labels = vec![];
    let deltas = [700_000_000u64, 1_300_000_000, 2_000_000_000, 6_000_000_000, 1_999_999_999, 1];
    let mut frames = 0;
    while labels.len() < 12 {
        let delta = deltas[frames % deltas.len()];
        frames += 1;
        for command in advance(&quiet_frame(delta), &mut state, Position { x: 1, y: 2 }) {
            match command {
                Command::SpawnSprite { label, x, y, collision } => {
                    assert_eq!((x, y, collision), (1, 2, true));
                    labels.push(label);
                }
                other => panic!("unexpected command {:?}", other),
            }
        }
        assert_eq!(state.enemy_index as usize, labels.len());
    }
    let expected: Vec<String> = (0..12).map(|n| format!("enemy{}", n)).collect();
    assert_eq!(labels, expected);
    assert_eq!(state.enemy_index, 12);
}

#[test]
fn spawn_position_is_not_used_without_a_spawn() {
    let mut state = GameState::default();
    let commands = advance(&quiet_frame(1_000_000_000), &mut state, Position { x: 5, y: 5 });
    assert_eq!(commands, vec![]);
    assert_eq!(state.enemy_index, 0);
    assert_eq!(state.spawn_timer.elapsed_nanos(), 1_000_000_000);
}

#[test]
fn random_positions_lie_in_the_play_field() {
    let mut xs = vec![];
    let mut ys = vec![];
    for _ in 0..2000 {
        let at = random_spawn_position();
        assert!(-PLAY_FIELD_HALF_WIDTH <= at.x && at.x < PLAY_FIELD_HALF_WIDTH);
        assert!(-PLAY_FIELD_HALF_HEIGHT <= at.y && at.y < PLAY_FIELD_HALF_HEIGHT);
        xs.push(at.x);
        ys.push(at.y);
    }
    assert!(xs.iter().any(|x| *x != -PLAY_FIELD_HALF_WIDTH));
    assert!(ys.iter().any(|y| *y != -PLAY_FIELD_HALF_HEIGHT));
    assert!(xs.iter().any(|x| *x != xs[0]));
    assert!(ys.iter().any(|y| *y != ys[0]));
    assert!(xs.iter().any(|x| *x < 0) && xs.iter().any(|x| *x > 0));
    assert!(ys.iter().any(|y| *y < 0) && ys.iter().any(|y| *y > 0));
}

#[test]
fn game_logic_spawns_within_the_play_field() {
    let mut state = GameState::default();
    let mut places = vec![];
    for n in 0..200 {
        let commands = game_logic(&quiet_frame(2_000_000_000), &mut state);
        assert_eq!(commands.len(), 1);
        match &commands[0] {
            Command::SpawnSprite { label, x, y, collision } => {
                assert_eq!(label, &format!("enemy{}", n));
                assert!(*collision);
                assert!(-PLAY_FIELD_HALF_WIDTH <= *x && *x <= PLAY_FIELD_HALF_WIDTH);
                assert!(-PLAY_FIELD_HALF_HEIGHT <= *y && *y <= PLAY_FIELD_HALF_HEIGHT);
                places.push((*x, *y));
            }
            other => panic!("unexpected command {:?}", other),
        }
    }
    assert!(places.iter().any(|p| *p != places[0]));
    let commands = game_logic(&quiet_frame(1_000_000_000), &mut state);
    assert_eq!(commands, vec![]);
}
