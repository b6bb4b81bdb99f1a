//! What holds of a round over any number of frames.
//!
//! A round is a sequence of calls of [`crate::round::game_logic`], each on
//! the state that the call before left. [`run`] and [`trace`] say what such a
//! sequence makes of the state and which commands it issues; the lemmas below
//! are stated over them.

use crate::command::{
    lemma_net_shift_concat, lemma_net_shift_none, lemma_spawned_labels_concat,
    lemma_spawned_labels_none, net_shift, spawned_labels, CommandView,
};
use crate::input::{CollisionEvent, FrameInput, KeyCode, KeyboardState};
use crate::round::{
    catch_commands, catches, collision_commands, enemy_label, exit_commands, frame_commands,
    movement_commands, player_label, reset_commands, spawn_commands, text_commands,
    GameStateView, MOVEMENT_SPEED,
};
use crate::spawn::{Position, PLAY_FIELD_HALF_HEIGHT, PLAY_FIELD_HALF_WIDTH};
use crate::text::{decimal, lemma_decimal_injective};
use crate::timer::{lemma_one_period_completes_once, total_time, SPAWN_PERIOD_NANOS};
use vstd::prelude::*;

verus! {

/// One frame of a round: what the host observed, and where a new enemy
/// appears if the frame brings one.
pub struct Frame {
    pub input: FrameInput,
    pub spawn_at: Position,
}

impl Frame {
    /// Whether the score is reset at the end of the frame.
    pub open spec fn resets(self) -> bool {
        self.input.keyboard_state.is_just_pressed(KeyCode::R)
    }

    /// The number of catches in the frame.
    pub open spec fn catch_count(self) -> nat {
        catches(self.input.collision_events@).len()
    }

    /// The length of the frame in nanoseconds.
    pub open spec fn length(self) -> nat {
        self.input.delta_nanos as nat
    }
}

/// The state after the frames `frames`, played in order from `state`.
pub open spec fn run(state: GameStateView, frames: Seq<Frame>) -> GameStateView
    decreases frames.len(),
{
    if frames.len() == 0 {
        state
    } else {
        run(state, frames.drop_last()).step(frames.last().input)
    }
}

/// The commands issued over the frames `frames`, played in order from
/// `state`.
pub open spec fn trace(state: GameStateView, frames: Seq<Frame>) -> Seq<CommandView>
    decreases frames.len(),
{
    if frames.len() == 0 {
        Seq::empty()
    } else {
        trace(state, frames.drop_last()) + frame_commands(
            run(state, frames.drop_last()),
            frames.last().input,
            frames.last().spawn_at,
        )
    }
}

/// The number of catches in all of `frames`.
pub open spec fn catches_in(frames: Seq<Frame>) -> nat
    decreases frames.len(),
{
    if frames.len() == 0 {
        0
    } else {
        catches_in(frames.drop_last()) + frames.last().catch_count()
    }
}

/// The lengths of the frames `frames`, in nanoseconds.
pub open spec fn frame_lengths(frames: Seq<Frame>) -> Seq<nat> {
    frames.map_values(|frame: Frame| frame.length())
}

/// The score in frame `i` of the run once the catches of that frame are
/// counted and before any reset: the highest that the score stands at during
/// that frame.
pub open spec fn peak_score(state: GameStateView, frames: Seq<Frame>, i: int) -> nat {
    run(state, frames.take(i)).score_with(frames[i].input)
}

/// A frame keeps the high score at or above the current score.
pub proof fn lemma_step_keeps_order(state: GameStateView, input: FrameInput)
    requires
        state.wf(),
    ensures
        state.step(input).wf(),
{
}

/// Any number of frames keep the high score at or above the current score.
pub proof fn lemma_run_keeps_order(state: GameStateView, frames: Seq<Frame>)
    requires
        state.wf(),
    ensures
        run(state, frames).wf(),
    decreases frames.len(),
{
    if frames.len() > 0 {
        lemma_run_keeps_order(state, frames.drop_last());
    }
}

/// In every state that a round can reach from its start, the high score is
/// at least the current score.
pub proof fn lemma_high_score_never_below_score(frames: Seq<Frame>)
    ensures
        run(GameStateView::initial(), frames).high_score >= run(
            GameStateView::initial(),
            frames,
        ).current_score,
{
    lemma_run_keeps_order(GameStateView::initial(), frames);
}

/// The current score is the number of catches since the last reset.
///
/// `since` is the number of frames up to and including the last one that
/// resets: frame `since - 1` resets and no later frame does. Where `since` is
/// zero no frame resets, and the catches are counted on top of the score that
/// the round began with. The catches of the frame that resets do not count:
/// the reset comes at the end of its frame.
pub proof fn lemma_score_counts_catches_since_reset(
    state: GameStateView,
    frames: Seq<Frame>,
    since: int,
)
    requires
        0 <= since <= frames.len(),
        since > 0 ==> frames[since - 1].resets(),
        forall|i: int| since <= i < frames.len() ==> !(#[trigger] frames[i]).resets(),
    ensures
        run(state, frames).current_score == (if since == 0 {
            state.current_score
        } else {
            0
        }) + catches_in(frames.subrange(since, frames.len() as int)),
    decreases frames.len(),
{
    let later = frames.subrange(since, frames.len() as int);
    if frames.len() == since {
        assert(later =~= Seq::<Frame>::empty());
    } else {
        let earlier = frames.drop_last();
        assert(!frames[frames.len() - 1].resets());
        lemma_score_counts_catches_since_reset(state, earlier, since);
        assert(later.drop_last() =~= earlier.subrange(since, earlier.len() as int));
    }
}

/// The high score is the running maximum of the score: it is at least the
/// score at every moment of the round, and it is either the high score that
/// the round began with or the score as it stood at some moment.
pub proof fn lemma_high_score_is_running_maximum(state: GameStateView, frames: Seq<Frame>)
    requires
        state.wf(),
    ensures
        run(state, frames).high_score >= state.high_score,
        forall|i: int|
            0 <= i < frames.len() ==> run(state, frames).high_score >= #[trigger] peak_score(
                state,
                frames,
                i,
            ),
        run(state, frames).high_score == state.high_score || exists|i: int|
            0 <= i < frames.len() && run(state, frames).high_score == #[trigger] peak_score(
                state,
                frames,
                i,
            ),
    decreases frames.len(),
{
    if frames.len() > 0 {
        let earlier = frames.drop_last();
        let last = frames.len() - 1;
        lemma_high_score_is_running_maximum(state, earlier);
        lemma_run_keeps_order(state, earlier);
        assert(frames.take(last) =~= earlier);
        assert forall|i: int| 0 <= i < earlier.len() implies peak_score(state, earlier, i)
            == peak_score(state, frames, i) by {
            assert(earlier.take(i) =~= frames.take(i));
        }
        let high = run(state, frames).high_score;
        assert(high >= peak_score(state, frames, last));
        assert forall|i: int| 0 <= i < frames.len() implies high >= #[trigger] peak_score(
            state,
            frames,
            i,
        ) by {
            if i < last {
                assert(run(state, earlier).high_score >= peak_score(state, earlier, i));
            }
        }
        if high != state.high_score {
            if high == run(state, earlier).high_score {
                let i = choose|i: int|
                    0 <= i < earlier.len() && run(state, earlier).high_score
                        == #[trigger] peak_score(state, earlier, i);
                assert(high == peak_score(state, frames, i));
            } else {
                assert(high == peak_score(state, frames, last));
            }
        }
    }
}

/// Whether `command` neither creates nor shifts a sprite.
pub open spec fn leaves_sprites_in_place(command: CommandView) -> bool {
    !(command is SpawnSprite) && !(command is MoveSprite)
}

/// The commands of a catch neither create nor shift a sprite.
pub proof fn lemma_catch_commands_leave_sprites(high_score: nat, score: nat, event: CollisionEvent)
    ensures
        forall|i: int|
            0 <= i < catch_commands(high_score, score, event.pair).len()
                ==> leaves_sprites_in_place(
                #[trigger] catch_commands(high_score, score, event.pair)[i],
            ),
{
}

/// The commands of collisions neither create nor shift a sprite.
pub proof fn lemma_collision_commands_leave_sprites(
    high_score: nat,
    current_score: nat,
    events: Seq<CollisionEvent>,
)
    ensures
        forall|i: int|
            0 <= i < collision_commands(high_score, current_score, events).len()
                ==> leaves_sprites_in_place(
                #[trigger] collision_commands(high_score, current_score, events)[i],
            ),
    decreases events.len(),
{
    if events.len() > 0 {
        let earlier = collision_commands(high_score, current_score, events.drop_last());
        let caught = catch_commands(
            high_score,
            current_score + catches(events).len(),
            events.last().pair,
        );
        let all = collision_commands(high_score, current_score, events);
        lemma_collision_commands_leave_sprites(high_score, current_score, events.drop_last());
        lemma_catch_commands_leave_sprites(
            high_score,
            current_score + catches(events).len(),
            events.last(),
        );
        assert forall|i: int| 0 <= i < all.len() implies leaves_sprites_in_place(
            #[trigger] all[i],
        ) by {
            if i < earlier.len() {
                assert(all[i] == earlier[i]);
            } else {
                assert(all[i] == caught[i - earlier.len()]);
            }
        }
    }
}

/// A frame creates one sprite if it completes the spawn timer, and none
/// otherwise; the sprite bears the next enemy number.
pub proof fn lemma_frame_spawns(state: GameStateView, input: FrameInput, spawn_at: Position)
    ensures
        spawned_labels(frame_commands(state, input, spawn_at)) == if state.spawns(input) {
            seq![enemy_label(state.enemy_index)]
        } else {
            Seq::<Seq<char>>::empty()
        },
{
    let exit = exit_commands(input.keyboard_state);
    let texts = text_commands(input.window_width as nat, input.window_height as nat);
    let collisions = collision_commands(
        state.high_score,
        state.current_score,
        input.collision_events@,
    );
    let movement = movement_commands(input.keyboard_state, input.delta_nanos as nat);
    let spawn = spawn_commands(state, input, spawn_at);
    let reset = reset_commands(input.keyboard_state);
    lemma_collision_commands_leave_sprites(
        state.high_score,
        state.current_score,
        input.collision_events@,
    );
    lemma_spawned_labels_none(exit);
    lemma_spawned_labels_none(texts);
    lemma_spawned_labels_none(collisions);
    lemma_spawned_labels_none(movement);
    lemma_spawned_labels_none(reset);
    lemma_spawned_labels_concat(exit, texts);
    lemma_spawned_labels_concat(exit + texts, collisions);
    lemma_spawned_labels_concat(exit + texts + collisions, movement);
    lemma_spawned_labels_concat(exit + texts + collisions + movement, spawn);
    lemma_spawned_labels_concat(exit + texts + collisions + movement + spawn, reset);
    if state.spawns(input) {
        assert(spawn.drop_last() =~= Seq::<CommandView>::empty());
        assert(spawned_labels(spawn.drop_last()) =~= Seq::<Seq<char>>::empty());
        assert(spawned_labels(spawn) =~= seq![enemy_label(state.enemy_index)]);
    }
    assert(spawned_labels(frame_commands(state, input, spawn_at)) =~= spawned_labels(spawn));
}

/// Enemies are numbered in order, without gaps or repeats: over any frames,
/// the enemies created bear the numbers that follow the one the round began
/// with, and the enemy index ends that many higher.
pub proof fn lemma_enemies_numbered_in_order(state: GameStateView, frames: Seq<Frame>)
    ensures
        run(state, frames).enemy_index == state.enemy_index + spawned_labels(
            trace(state, frames),
        ).len(),
        forall|k: int|
            0 <= k < spawned_labels(trace(state, frames)).len() ==> #[trigger] spawned_labels(
                trace(state, frames),
            )[k] == enemy_label((state.enemy_index + k) as nat),
    decreases frames.len(),
{
    if frames.len() > 0 {
        let earlier = frames.drop_last();
        let last = frames.last();
        lemma_enemies_numbered_in_order(state, earlier);
        lemma_frame_spawns(run(state, earlier), last.input, last.spawn_at);
        lemma_spawned_labels_concat(
            trace(state, earlier),
            frame_commands(run(state, earlier), last.input, last.spawn_at),
        );
    }
}

/// Enemies with different numbers bear different labels.
pub proof fn lemma_enemy_labels_distinct(i: nat, j: nat)
    requires
        i != j,
    ensures
        enemy_label(i) != enemy_label(j),
{
    if enemy_label(i) == enemy_label(j) {
        let stem = "enemy"@;
        assert(decimal(i) =~= enemy_label(i).subrange(
            stem.len() as int,
            enemy_label(i).len() as int,
        ));
        assert(decimal(j) =~= enemy_label(j).subrange(
            stem.len() as int,
            enemy_label(j).len() as int,
        ));
        lemma_decimal_injective(i, j);
    }
}

/// The spawn timer of the round is the timer fed with the lengths of the
/// frames, and an enemy is created exactly when a frame completes it.
pub proof fn lemma_spawns_follow_timer(state: GameStateView, frames: Seq<Frame>)
    ensures
        run(state, frames).spawn_timer == state.spawn_timer.after(frame_lengths(frames)),
        spawned_labels(trace(state, frames)).len() == state.spawn_timer.completions(
            frame_lengths(frames),
        ),
    decreases frames.len(),
{
    if frames.len() > 0 {
        let earlier = frames.drop_last();
        let last = frames.last();
        lemma_spawns_follow_timer(state, earlier);
        lemma_frame_spawns(run(state, earlier), last.input, last.spawn_at);
        lemma_spawned_labels_concat(
            trace(state, earlier),
            frame_commands(run(state, earlier), last.input, last.spawn_at),
        );
        assert(frame_lengths(frames).drop_last() =~= frame_lengths(earlier));
        assert(frame_lengths(frames).last() == last.length());
    } else {
        assert(frame_lengths(frames) =~= Seq::<nat>::empty());
    }
}

/// Frames that add up to exactly two seconds, from the start of a round,
/// create exactly one enemy, `enemy0`.
pub proof fn lemma_two_seconds_spawn_once(frames: Seq<Frame>)
    requires
        total_time(frame_lengths(frames)) == SPAWN_PERIOD_NANOS,
    ensures
        spawned_labels(trace(GameStateView::initial(), frames)) == seq![enemy_label(0)],
{
    let start = GameStateView::initial();
    lemma_spawns_follow_timer(start, frames);
    lemma_one_period_completes_once(frame_lengths(frames));
    lemma_enemies_numbered_in_order(start, frames);
    let labels = spawned_labels(trace(start, frames));
    assert(labels[0] == enemy_label(0));
    assert(labels =~= seq![enemy_label(0)]);
}

/// One frame creates at most one enemy, however long the frame.
pub proof fn lemma_one_frame_spawns_at_most_once(
    state: GameStateView,
    input: FrameInput,
    spawn_at: Position,
)
    ensures
        spawned_labels(frame_commands(state, input, spawn_at)).len() <= 1,
{
    lemma_frame_spawns(state, input, spawn_at);
}

/// An enemy is created where the frame says, so within the play field if
/// that place is within it.
pub proof fn lemma_spawn_within_play_field(
    state: GameStateView,
    input: FrameInput,
    spawn_at: Position,
)
    requires
        spawn_at.in_play_field(),
    ensures
        forall|i: int|
            0 <= i < frame_commands(state, input, spawn_at).len() ==> (#[trigger] frame_commands(
                state,
                input,
                spawn_at,
            )[i] matches CommandView::SpawnSprite { x, y, .. } ==> {
                &&& -PLAY_FIELD_HALF_WIDTH <= x <= PLAY_FIELD_HALF_WIDTH
                &&& -PLAY_FIELD_HALF_HEIGHT <= y <= PLAY_FIELD_HALF_HEIGHT
            }),
{
    lemma_collision_commands_leave_sprites(
        state.high_score,
        state.current_score,
        input.collision_events@,
    );
}

/// The number of nano-units by which held keys shift the player along one
/// axis in a frame of `delta` nanoseconds: forth if only the key group
/// `forth` is held, back if only `back` is held, not at all otherwise.
pub open spec fn axis_shift(forth: bool, back: bool, delta: nat) -> int {
    if forth && !back {
        MOVEMENT_SPEED * delta
    } else if back && !forth {
        -(MOVEMENT_SPEED * delta)
    } else {
        0
    }
}

/// The player moves along each axis by the distance covered at the movement
/// speed, independently: to the right or to the left along x, up or down
/// along y, and two opposite keys cancel. Nothing else in a frame moves the
/// player.
pub proof fn lemma_player_shift(state: GameStateView, input: FrameInput, spawn_at: Position)
    ensures
        ({
            let keyboard = input.keyboard_state;
            let delta = input.delta_nanos as nat;
            net_shift(frame_commands(state, input, spawn_at), player_label()) == (
                axis_shift(
                    keyboard.is_either_pressed(KeyCode::Right, KeyCode::D),
                    keyboard.is_either_pressed(KeyCode::Left, KeyCode::A),
                    delta,
                ),
                axis_shift(
                    keyboard.is_either_pressed(KeyCode::Up, KeyCode::W),
                    keyboard.is_either_pressed(KeyCode::Down, KeyCode::S),
                    delta,
                ),
            )
        }),
{
    let label = player_label();
    let exit = exit_commands(input.keyboard_state);
    let texts = text_commands(input.window_width as nat, input.window_height as nat);
    let collisions = collision_commands(
        state.high_score,
        state.current_score,
        input.collision_events@,
    );
    let movement = movement_commands(input.keyboard_state, input.delta_nanos as nat);
    let spawn = spawn_commands(state, input, spawn_at);
    let reset = reset_commands(input.keyboard_state);
    lemma_collision_commands_leave_sprites(
        state.high_score,
        state.current_score,
        input.collision_events@,
    );
    lemma_net_shift_none(exit, label);
    lemma_net_shift_none(texts, label);
    lemma_net_shift_none(collisions, label);
    lemma_net_shift_none(spawn, label);
    lemma_net_shift_none(reset, label);
    lemma_net_shift_concat(exit, texts, label);
    lemma_net_shift_concat(exit + texts, collisions, label);
    lemma_net_shift_concat(exit + texts + collisions, movement, label);
    lemma_net_shift_concat(exit + texts + collisions + movement, spawn, label);
    lemma_net_shift_concat(exit + texts + collisions + movement + spawn, reset, label);
    lemma_movement_shift(input.keyboard_state, input.delta_nanos as nat);
}

/// The shifts of one frame add up, axis by axis, to the distance covered at
/// the movement speed in the directions held.
pub proof fn lemma_movement_shift(keyboard: KeyboardState, delta: nat)
    ensures
        net_shift(movement_commands(keyboard, delta), player_label()) == (
            axis_shift(
                keyboard.is_either_pressed(KeyCode::Right, KeyCode::D),
                keyboard.is_either_pressed(KeyCode::Left, KeyCode::A),
                delta,
            ),
            axis_shift(
                keyboard.is_either_pressed(KeyCode::Up, KeyCode::W),
                keyboard.is_either_pressed(KeyCode::Down, KeyCode::S),
                delta,
            ),
        ),
{
    let label = player_label();
    let distance = MOVEMENT_SPEED * delta;
    let none = Seq::<CommandView>::empty();
    let up = if keyboard.is_either_pressed(KeyCode::Up, KeyCode::W) {
        seq![CommandView::MoveSprite { label, dx: 0, dy: distance }]
    } else {
        none
    };
    let down = if keyboard.is_either_pressed(KeyCode::Down, KeyCode::S) {
        seq![CommandView::MoveSprite { label, dx: 0, dy: -distance }]
    } else {
        none
    };
    let right = if keyboard.is_either_pressed(KeyCode::Right, KeyCode::D) {
        seq![CommandView::MoveSprite { label, dx: distance, dy: 0 }]
    } else {
        none
    };
    let left = if keyboard.is_either_pressed(KeyCode::Left, KeyCode::A) {
        seq![CommandView::MoveSprite { label, dx: -distance, dy: 0 }]
    } else {
        none
    };
    lemma_net_shift_one(up, label);
    lemma_net_shift_one(down, label);
    lemma_net_shift_one(right, label);
    lemma_net_shift_one(left, label);
    lemma_net_shift_concat(up, down, label);
    lemma_net_shift_concat(up + down, right, label);
    lemma_net_shift_concat(up + down + right, left, label);
    assert(movement_commands(keyboard, delta) == up + down + right + left);
}

/// The shift by at most one command is that command's, if it shifts `label`.
proof fn lemma_net_shift_one(commands: Seq<CommandView>, label: Seq<char>)
    requires
        commands.len() <= 1,
    ensures
        net_shift(commands, label) == if commands.len() == 1 {
            match commands[0] {
                CommandView::MoveSprite { label: moved, dx, dy } if moved == label => (dx, dy),
                _ => (0int, 0int),
            }
        } else {
            (0int, 0int)
        },
{
    if commands.len() == 1 {
        assert(commands.drop_last() =~= Seq::<CommandView>::empty());
        assert(net_shift(commands.drop_last(), label) == (0int, 0int));
    }
}

/// With the keys for up and for right held, and none for down or left, a
/// frame of `delta` nanoseconds moves the player by `100 * delta` nano-units
/// along each axis: the diagonal is the plain sum of both moves.
pub proof fn lemma_up_and_right_move_diagonally(
    state: GameStateView,
    input: FrameInput,
    spawn_at: Position,
)
    requires
        input.keyboard_state.is_either_pressed(KeyCode::Up, KeyCode::W),
        input.keyboard_state.is_either_pressed(KeyCode::Right, KeyCode::D),
        !input.keyboard_state.is_either_pressed(KeyCode::Down, KeyCode::S),
        !input.keyboard_state.is_either_pressed(KeyCode::Left, KeyCode::A),
    ensures
        net_shift(frame_commands(state, input, spawn_at), player_label()) == (
            100 * input.delta_nanos as int,
            100 * input.delta_nanos as int,
        ),
{
    lemma_player_shift(state, input, spawn_at);
}

} // verus!
