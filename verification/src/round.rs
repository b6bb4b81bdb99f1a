//! The state of a round and what one frame does to it.

use crate::command::{command_views, lemma_command_views_push, Command, CommandView, TextLabel};
use crate::input::{CollisionEvent, CollisionPair, CollisionState, FrameInput, KeyCode, KeyboardState};
use crate::spawn::{random_spawn_position, Position};
use crate::text::{decimal, numbered, same_text};
use crate::timer::{SpawnTimer, SpawnTimerView};
use vstd::prelude::*;

verus! {

/// The speed of the player, in world units per second, which is also
/// nano-units per nanosecond.
pub const MOVEMENT_SPEED: u64 = 100;

/// How far the current-score text stands from the right edge of the window,
/// in nano-units: 80 world units.
pub const CURRENT_SCORE_INSET: i64 = 80_000_000_000;

/// How far the high-score text stands from the left edge of the window, in
/// nano-units: 110 world units.
pub const HIGH_SCORE_INSET: i64 = 110_000_000_000;

/// How far both texts stand below the top edge of the window, in nano-units:
/// 30 world units.
pub const TEXT_DROP: i64 = 30_000_000_000;

/// The label of the player's sprite.
pub open spec fn player_label() -> Seq<char> {
    "player"@
}

/// The label of the enemy numbered `index`.
pub open spec fn enemy_label(index: nat) -> Seq<char> {
    "enemy"@ + decimal(index)
}

/// What the current-score text shows after a catch.
pub open spec fn score_text(score: nat) -> Seq<char> {
    "Score: "@ + decimal(score)
}

/// What the high-score text shows once the high score has risen.
pub open spec fn high_score_text(score: nat) -> Seq<char> {
    "High Score: "@ + decimal(score)
}

/// What the current-score text shows after a reset.
pub open spec fn reset_text() -> Seq<char> {
    "Current score: 0"@
}

/// Whether `event` is a catch: two sprites have begun to overlap, and one of
/// them is the player.
pub open spec fn is_catch(event: CollisionEvent) -> bool {
    event.state == CollisionState::Begin && (event.pair.0@ == player_label() || event.pair.1@
        == player_label())
}

/// The catches among `events`, in order.
pub open spec fn catches(events: Seq<CollisionEvent>) -> Seq<CollisionEvent> {
    events.filter(|event: CollisionEvent| is_catch(event))
}

/// One more event adds one catch if it is one, and none otherwise.
pub proof fn lemma_catches_push(events: Seq<CollisionEvent>, event: CollisionEvent)
    ensures
        catches(events.push(event)) == if is_catch(event) {
            catches(events).push(event)
        } else {
            catches(events)
        },
{
    events.lemma_filter_push(event, |event: CollisionEvent| is_catch(event));
}

/// No events, no catches.
pub proof fn lemma_catches_empty()
    ensures
        catches(Seq::<CollisionEvent>::empty()) == Seq::<CollisionEvent>::empty(),
{
    Seq::<CollisionEvent>::empty().lemma_filter_len(|event: CollisionEvent| is_catch(event));
    assert(catches(Seq::<CollisionEvent>::empty()) =~= Seq::<CollisionEvent>::empty());
}

/// What the state of a round stands for.
pub struct GameStateView {
    pub high_score: nat,
    pub current_score: nat,
    /// The number that the next enemy will bear.
    pub enemy_index: nat,
    pub spawn_timer: SpawnTimerView,
}

/// What the rules remember from one frame to the next.
#[derive(Clone, Debug, PartialEq, Eq)]
pub struct GameState {
    pub high_score: u32,
    pub current_score: u32,
    /// The number that the next enemy will bear.
    pub enemy_index: u32,
    pub spawn_timer: SpawnTimer,
}

impl View for GameState {
    type V = GameStateView;

    open spec fn view(&self) -> GameStateView {
        GameStateView {
            high_score: self.high_score as nat,
            current_score: self.current_score as nat,
            enemy_index: self.enemy_index as nat,
            spawn_timer: self.spawn_timer@,
        }
    }
}

impl Default for GameState {
    /// The state at the start of a round.
    fn default() -> (state: GameState)
        ensures
            state@ == GameStateView::initial(),
    {
        GameState { high_score: 0, current_score: 0, enemy_index: 0, spawn_timer: SpawnTimer::new() }
    }
}

impl GameStateView {
    /// The state at the start of a round: no score, no enemy yet, a timer
    /// that has not run.
    pub open spec fn initial() -> GameStateView {
        GameStateView {
            high_score: 0,
            current_score: 0,
            enemy_index: 0,
            spawn_timer: SpawnTimerView::fresh(),
        }
    }

    /// The high score is no less than the current score, and the timer holds
    /// less than its period.
    pub open spec fn wf(self) -> bool {
        self.high_score >= self.current_score && self.spawn_timer.wf()
    }

    /// Whether the frame `input` completes the spawn timer.
    pub open spec fn spawns(self, input: FrameInput) -> bool {
        self.spawn_timer.finishes_within(input.delta_nanos as nat)
    }

    /// The score once the catches of `input` are counted, before any reset.
    pub open spec fn score_with(self, input: FrameInput) -> nat {
        self.current_score + catches(input.collision_events@).len()
    }

    /// Whether the counters have room for the frame `input`.
    pub open spec fn accepts(self, input: FrameInput) -> bool {
        &&& self.score_with(input) <= u32::MAX
        &&& self.spawns(input) ==> self.enemy_index < u32::MAX
    }

    /// The state after the frame `input`.
    ///
    /// Every catch adds one to the current score. The high score rises to the
    /// new score where a catch took the score above it. A completed timer
    /// spends one enemy number. A reset, which comes last in the frame, sets
    /// the current score to zero and leaves the high score alone.
    pub open spec fn step(self, input: FrameInput) -> GameStateView {
        let caught = catches(input.collision_events@).len();
        let score = self.score_with(input);
        GameStateView {
            high_score: if caught > 0 && score > self.high_score {
                score
            } else {
                self.high_score
            },
            current_score: if input.keyboard_state.is_just_pressed(KeyCode::R) {
                0
            } else {
                score
            },
            enemy_index: if self.spawns(input) {
                self.enemy_index + 1
            } else {
                self.enemy_index
            },
            spawn_timer: self.spawn_timer.tick(input.delta_nanos as nat),
        }
    }
}

/// The command that leaves the run loop, if Q went down in this frame.
pub open spec fn exit_commands(keyboard: KeyboardState) -> Seq<CommandView> {
    if keyboard.is_just_pressed(KeyCode::Q) {
        seq![CommandView::RequestExit]
    } else {
        Seq::empty()
    }
}

/// The places of the two texts in a window of the given size, the origin
/// being the centre of the window: the current score near the right edge,
/// the high score near the left edge, both near the top.
pub open spec fn text_commands(window_width: nat, window_height: nat) -> Seq<CommandView> {
    seq![
        CommandView::PlaceText {
            text: TextLabel::CurrentScore,
            x: window_width / 2 - CURRENT_SCORE_INSET,
            y: window_height / 2 - TEXT_DROP,
        },
        CommandView::PlaceText {
            text: TextLabel::HighScore,
            x: HIGH_SCORE_INSET - window_width / 2,
            y: window_height / 2 - TEXT_DROP,
        },
    ]
}

/// The removals that a catch between the sprites of `pair` asks for: every
/// sprite of the pair but the player itself, the first of the pair first.
pub open spec fn removal_commands(pair: CollisionPair) -> Seq<CommandView> {
    let first = if pair.0@ != player_label() {
        seq![CommandView::RemoveSprite { label: pair.0@ }]
    } else {
        Seq::empty()
    };
    let second = if pair.1@ != player_label() {
        seq![CommandView::RemoveSprite { label: pair.1@ }]
    } else {
        Seq::empty()
    };
    first + second
}

/// The commands of one catch that brings the score to `score`, in a frame
/// that began with the high score `high_score`: the removals, the new
/// current-score text, the new high-score text if the score now exceeds the
/// high score, and the sound.
pub open spec fn catch_commands(high_score: nat, score: nat, pair: CollisionPair) -> Seq<
    CommandView,
> {
    let shown = seq![
        CommandView::SetText { text: TextLabel::CurrentScore, value: score_text(score) },
    ];
    let record = if score > high_score {
        seq![CommandView::SetText { text: TextLabel::HighScore, value: high_score_text(score) }]
    } else {
        Seq::empty()
    };
    removal_commands(pair) + shown + record + seq![CommandView::PlaySound]
}

/// The commands of the collisions `events`, in a frame that began with the
/// scores `high_score` and `current_score`. Events that are no catches ask
/// for nothing.
pub open spec fn collision_commands(
    high_score: nat,
    current_score: nat,
    events: Seq<CollisionEvent>,
) -> Seq<CommandView>
    decreases events.len(),
{
    if events.len() == 0 {
        Seq::empty()
    } else {
        let earlier = collision_commands(high_score, current_score, events.drop_last());
        if is_catch(events.last()) {
            earlier + catch_commands(
                high_score,
                current_score + catches(events).len(),
                events.last().pair,
            )
        } else {
            earlier
        }
    }
}

/// The shift of the player by `dx` and `dy`.
pub open spec fn move_player(dx: int, dy: int) -> Seq<CommandView> {
    seq![CommandView::MoveSprite { label: player_label(), dx, dy }]
}

/// The shifts of the player in a frame of `delta` nanoseconds: one for each
/// direction whose arrow key or letter key is held, in the order up, down,
/// right, left, each by the distance covered at [`MOVEMENT_SPEED`].
pub open spec fn movement_commands(keyboard: KeyboardState, delta: nat) -> Seq<CommandView> {
    let distance = MOVEMENT_SPEED * delta;
    let up = if keyboard.is_either_pressed(KeyCode::Up, KeyCode::W) {
        move_player(0, distance)
    } else {
        Seq::empty()
    };
    let down = if keyboard.is_either_pressed(KeyCode::Down, KeyCode::S) {
        move_player(0, -distance)
    } else {
        Seq::empty()
    };
    let right = if keyboard.is_either_pressed(KeyCode::Right, KeyCode::D) {
        move_player(distance, 0)
    } else {
        Seq::empty()
    };
    let left = if keyboard.is_either_pressed(KeyCode::Left, KeyCode::A) {
        move_player(-distance, 0)
    } else {
        Seq::empty()
    };
    up + down + right + left
}

/// The creation of the next enemy at `at`, if the frame completes the timer.
pub open spec fn spawn_commands(state: GameStateView, input: FrameInput, at: Position) -> Seq<
    CommandView,
> {
    if state.spawns(input) {
        seq![
            CommandView::SpawnSprite {
                label: enemy_label(state.enemy_index),
                x: at.x as int,
                y: at.y as int,
                collision: true,
            },
        ]
    } else {
        Seq::empty()
    }
}

/// The text that a reset shows, if R went down in this frame.
pub open spec fn reset_commands(keyboard: KeyboardState) -> Seq<CommandView> {
    if keyboard.is_just_pressed(KeyCode::R) {
        seq![CommandView::SetText { text: TextLabel::CurrentScore, value: reset_text() }]
    } else {
        Seq::empty()
    }
}

/// All the commands of the frame `input` that begins in `state`, where a new
/// enemy, if one is due, appears at `spawn_at`: exit, texts, collisions,
/// movement, spawn, reset, in that order.
pub open spec fn frame_commands(state: GameStateView, input: FrameInput, spawn_at: Position) -> Seq<
    CommandView,
> {
    exit_commands(input.keyboard_state) + text_commands(
        input.window_width as nat,
        input.window_height as nat,
    ) + collision_commands(
        state.high_score,
        state.current_score,
        input.collision_events@,
    ) + movement_commands(input.keyboard_state, input.delta_nanos as nat) + spawn_commands(
        state,
        input,
        spawn_at,
    ) + reset_commands(input.keyboard_state)
}

/// Appends `command` to `commands`.
fn emit(commands: &mut Vec<Command>, command: Command)
    ensures
        command_views(final(commands)@) == command_views(old(commands)@).push(command@),
{
    proof {
        lemma_command_views_push(commands@, command);
    }
    commands.push(command);
}

/// Whether `event` is a catch.
pub fn check_catch(event: &CollisionEvent) -> (catch: bool)
    ensures
        catch == is_catch(*event),
{
    match event.state {
        CollisionState::Begin => same_text(event.pair.0.as_str(), "player") || same_text(
            event.pair.1.as_str(),
            "player",
        ),
        CollisionState::End => false,
    }
}

/// The number of catches among `events`.
pub fn count_catches(events: &Vec<CollisionEvent>) -> (count: usize)
    ensures
        count == catches(events@).len(),
{
    let mut count: usize = 0;
    let mut i: usize = 0;
    proof {
        lemma_catches_empty();
        assert(events@.take(0) =~= Seq::<CollisionEvent>::empty());
    }
    while i < events.len()
        invariant
            i <= events@.len(),
            count <= i,
            count == catches(events@.take(i as int)).len(),
        decreases events@.len() - i,
    {
        proof {
            lemma_catches_push(events@.take(i as int), events@[i as int]);
            assert(events@.take(i + 1) =~= events@.take(i as int).push(events@[i as int]));
        }
        if check_catch(&events[i]) {
            count += 1;
        }
        i += 1;
    }
    assert(events@.take(events@.len() as int) =~= events@);
    count
}

/// Counts the catches among `events` into the scores of `game_state` and
/// appends their commands to `commands`.
fn handle_collisions(
    events: &Vec<CollisionEvent>,
    game_state: &mut GameState,
    commands: &mut Vec<Command>,
)
    requires
        old(game_state).current_score + catches(events@).len() <= u32::MAX,
    ensures
        final(game_state).current_score == old(game_state).current_score + catches(events@).len(),
        final(game_state).high_score == if catches(events@).len() > 0 && final(game_state).current_score
            > old(game_state).high_score {
            final(game_state).current_score
        } else {
            old(game_state).high_score
        },
        final(game_state).enemy_index == old(game_state).enemy_index,
        final(game_state).spawn_timer == old(game_state).spawn_timer,
        command_views(final(commands)@) == command_views(old(commands)@) + collision_commands(
            old(game_state).high_score as nat,
            old(game_state).current_score as nat,
            events@,
        ),
{
    let ghost high = game_state.high_score as nat;
    let ghost current = game_state.current_score as nat;
    let ghost enemy_index = game_state.enemy_index;
    let ghost timer = game_state.spawn_timer;
    let ghost issued = command_views(commands@);
    let mut i: usize = 0;
    proof {
        lemma_catches_empty();
        lemma_catches_monotone(events@, 0);
        assert(events@.take(0) =~= Seq::<CollisionEvent>::empty());
        assert(issued + collision_commands(high, current, events@.take(0)) =~= issued);
    }
    while i < events.len()
        invariant
            i <= events@.len(),
            current + catches(events@).len() <= u32::MAX,
            catches(events@.take(i as int)).len() <= catches(events@).len(),
            game_state.current_score == current + catches(events@.take(i as int)).len(),
            game_state.high_score == if catches(events@.take(i as int)).len() > 0
                && game_state.current_score > high {
                game_state.current_score as nat
            } else {
                high
            },
            game_state.enemy_index == enemy_index,
            game_state.spawn_timer == timer,
            command_views(commands@) == issued + collision_commands(
                high,
                current,
                events@.take(i as int),
            ),
        decreases events@.len() - i,
    {
        let event = &events[i];
        let ghost seen = events@.take(i as int);
        let ghost now = events@.take(i + 1);
        let ghost so_far = command_views(commands@);
        proof {
            assert(now =~= seen.push(*event));
            assert(now.drop_last() =~= seen);
            lemma_catches_push(seen, *event);
            lemma_catches_monotone(events@, i + 1);
        }
        if check_catch(event) {
            if !same_text(event.pair.0.as_str(), "player") {
                emit(commands, Command::RemoveSprite { label: event.pair.0.clone() });
            }
            if !same_text(event.pair.1.as_str(), "player") {
                emit(commands, Command::RemoveSprite { label: event.pair.1.clone() });
            }
            game_state.current_score += 1;
            emit(
                commands,
                Command::SetText {
                    text: TextLabel::CurrentScore,
                    value: numbered("Score: ", game_state.current_score),
                },
            );
            if game_state.current_score > game_state.high_score {
                game_state.high_score = game_state.current_score;
                emit(
                    commands,
                    Command::SetText {
                        text: TextLabel::HighScore,
                        value: numbered("High Score: ", game_state.high_score),
                    },
                );
            }
            emit(commands, Command::PlaySound);
            assert(command_views(commands@) =~= so_far + catch_commands(
                high,
                game_state.current_score as nat,
                event.pair,
            ));
        }
        i += 1;
    }
    assert(events@.take(events@.len() as int) =~= events@);
}

/// A part of a list of events holds no more catches than the whole list.
proof fn lemma_catches_monotone(events: Seq<CollisionEvent>, n: int)
    requires
        0 <= n <= events.len(),
    ensures
        catches(events.take(n)).len() <= catches(events).len(),
    decreases events.len() - n,
{
    if n < events.len() {
        lemma_catches_monotone(events, n + 1);
        lemma_catches_push(events.take(n), events[n]);
        assert(events.take(n + 1) =~= events.take(n).push(events[n]));
    } else {
        assert(events.take(n) =~= events);
    }
}

/// Appends to `commands` the shifts of the player in a frame of
/// `delta_nanos` nanoseconds.
fn handle_movement(keyboard: &KeyboardState, delta_nanos: u64, commands: &mut Vec<Command>)
    ensures
        command_views(final(commands)@) == command_views(old(commands)@) + movement_commands(
            *keyboard,
            delta_nanos as nat,
        ),
{
    let ghost issued = command_views(commands@);
    assert(MOVEMENT_SPEED * delta_nanos <= 100 * u64::MAX) by (nonlinear_arith)
        requires
            MOVEMENT_SPEED == 100,
            delta_nanos <= u64::MAX,
    ;
    let distance: i128 = (MOVEMENT_SPEED as i128) * (delta_nanos as i128);
    if keyboard.pressed_any(&[KeyCode::Up, KeyCode::W]) {
        emit(commands, Command::MoveSprite { label: String::from_str("player"), dx: 0, dy: distance });
    }
    if keyboard.pressed_any(&[KeyCode::Down, KeyCode::S]) {
        emit(
            commands,
            Command::MoveSprite { label: String::from_str("player"), dx: 0, dy: -distance },
        );
    }
    if keyboard.pressed_any(&[KeyCode::Right, KeyCode::D]) {
        emit(commands, Command::MoveSprite { label: String::from_str("player"), dx: distance, dy: 0 });
    }
    if keyboard.pressed_any(&[KeyCode::Left, KeyCode::A]) {
        emit(
            commands,
            Command::MoveSprite { label: String::from_str("player"), dx: -distance, dy: 0 },
        );
    }
    assert(command_views(commands@) =~= issued + movement_commands(*keyboard, delta_nanos as nat));
}

impl GameState {
    /// Whether the counters have room for the frame `input`: [`advance`] and
    /// [`game_logic`] ask for it.
    pub fn accepts(&self, input: &FrameInput) -> (ok: bool)
        ensures
            ok == self@.accepts(*input),
    {
        let caught = count_catches(&input.collision_events);
        let room = u32::MAX - self.current_score;
        if caught as u64 > room as u64 {
            return false;
        }
        !self.spawn_timer.finishes_within(input.delta_nanos) || self.enemy_index < u32::MAX
    }
}

/// Plays the frame `input` on `game_state` and returns what the host is to
/// do, in order. If the frame completes the spawn timer, the new enemy
/// appears at `spawn_at`; otherwise `spawn_at` is not used.
pub fn advance(input: &FrameInput, game_state: &mut GameState, spawn_at: Position) -> (commands:
    Vec<Command>)
    requires
        old(game_state)@.accepts(*input),
    ensures
        final(game_state)@ == old(game_state)@.step(*input),
        command_views(commands@) == frame_commands(old(game_state)@, *input, spawn_at),
        old(game_state)@.wf() ==> final(game_state)@.wf(),
{
    let ghost before = game_state@;
    let keyboard = &input.keyboard_state;
    let mut commands: Vec<Command> = Vec::new();
    assert(command_views(commands@) =~= Seq::<CommandView>::empty());

    if keyboard.just_pressed(KeyCode::Q) {
        emit(&mut commands, Command::RequestExit);
    }
    emit(
        &mut commands,
        Command::PlaceText {
            text: TextLabel::CurrentScore,
            x: (input.window_width / 2) as i64 - CURRENT_SCORE_INSET,
            y: (input.window_height / 2) as i64 - TEXT_DROP,
        },
    );
    emit(
        &mut commands,
        Command::PlaceText {
            text: TextLabel::HighScore,
            x: HIGH_SCORE_INSET - (input.window_width / 2) as i64,
            y: (input.window_height / 2) as i64 - TEXT_DROP,
        },
    );
    assert(command_views(commands@) =~= exit_commands(*keyboard) + text_commands(
        input.window_width as nat,
        input.window_height as nat,
    ));

    handle_collisions(&input.collision_events, game_state, &mut commands);
    handle_movement(keyboard, input.delta_nanos, &mut commands);

    game_state.spawn_timer.tick(input.delta_nanos);
    if game_state.spawn_timer.just_finished() {
        let label = numbered("enemy", game_state.enemy_index);
        game_state.enemy_index += 1;
        emit(
            &mut commands,
            Command::SpawnSprite { label, x: spawn_at.x, y: spawn_at.y, collision: true },
        );
    }
    if keyboard.just_pressed(KeyCode::R) {
        game_state.current_score = 0;
        emit(
            &mut commands,
            Command::SetText {
                text: TextLabel::CurrentScore,
                value: String::from_str("Current score: 0"),
            },
        );
    }
    assert(command_views(commands@) =~= frame_commands(before, *input, spawn_at));
    commands
}

/// Plays the frame `input` on `game_state` and returns what the host is to
/// do, in order. If the frame completes the spawn timer, the place of the new
/// enemy is drawn at random within the play field.
///
/// The state that results does not depend on the draw. The commands are
/// those of [`advance`] for the place that was drawn.
pub fn game_logic(input: &FrameInput, game_state: &mut GameState) -> (commands: Vec<Command>)
    requires
        old(game_state)@.accepts(*input),
    ensures
        final(game_state)@ == old(game_state)@.step(*input),
        exists|spawn_at: Position|
            spawn_at.in_play_field() && command_views(commands@) == #[trigger] frame_commands(
                old(game_state)@,
                *input,
                spawn_at,
            ),
        old(game_state)@.wf() ==> final(game_state)@.wf(),
{
    let spawn_at = if game_state.spawn_timer.finishes_within(input.delta_nanos) {
        random_spawn_position()
    } else {
        Position { x: 0, y: 0 }
    };
    advance(input, game_state, spawn_at)
}

} // verus!
