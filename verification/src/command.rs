//! What the rules ask the host to do.

use vstd::prelude::*;

verus! {

/// The two texts on screen.
#[derive(Clone, Copy, Debug, PartialEq, Eq, Structural)]
pub enum TextLabel {
    CurrentScore,
    HighScore,
}

/// One thing for the host to carry out. The commands of a frame are carried
/// out in the order in which they are listed.
#[derive(Clone, Debug, PartialEq, Eq)]
pub enum Command {
    /// Leave the run loop.
    RequestExit,
    /// Take the sprite `label` away. Not an error if there is none.
    RemoveSprite { label: String },
    /// Put the text `text` at `x`, `y` (nano-units). The host may let a text
    /// sway about its place.
    PlaceText { text: TextLabel, x: i64, y: i64 },
    /// Show `value` in the text `text`.
    SetText { text: TextLabel, value: String },
    /// Play the short sound of a catch, without waiting for it.
    PlaySound,
    /// Shift the sprite `label` by `dx` and `dy` nano-units.
    MoveSprite { label: String, dx: i128, dy: i128 },
    /// Create the sprite `label` at `x`, `y` (nano-units); `collision` says
    /// whether it takes part in collisions.
    SpawnSprite { label: String, x: i64, y: i64, collision: bool },
}

/// What a [`Command`] stands for.
pub enum CommandView {
    RequestExit,
    RemoveSprite { label: Seq<char> },
    PlaceText { text: TextLabel, x: int, y: int },
    SetText { text: TextLabel, value: Seq<char> },
    PlaySound,
    MoveSprite { label: Seq<char>, dx: int, dy: int },
    SpawnSprite { label: Seq<char>, x: int, y: int, collision: bool },
}

impl View for Command {
    type V = CommandView;

    open spec fn view(&self) -> CommandView {
        match *self {
            Command::RequestExit => CommandView::RequestExit,
            Command::RemoveSprite { label } => CommandView::RemoveSprite { label: label@ },
            Command::PlaceText { text, x, y } => CommandView::PlaceText {
                text,
                x: x as int,
                y: y as int,
            },
            Command::SetText { text, value } => CommandView::SetText { text, value: value@ },
            Command::PlaySound => CommandView::PlaySound,
            Command::MoveSprite { label, dx, dy } => CommandView::MoveSprite {
                label: label@,
                dx: dx as int,
                dy: dy as int,
            },
            Command::SpawnSprite { label, x, y, collision } => CommandView::SpawnSprite {
                label: label@,
                x: x as int,
                y: y as int,
                collision,
            },
        }
    }
}

/// What a list of commands stands for.
pub open spec fn command_views(commands: Seq<Command>) -> Seq<CommandView> {
    commands.map_values(|c: Command| c@)
}

/// Appending a command appends what it stands for.
pub proof fn lemma_command_views_push(commands: Seq<Command>, c: Command)
    ensures
        command_views(commands.push(c)) == command_views(commands).push(c@),
{
    assert(command_views(commands.push(c)) =~= command_views(commands).push(c@));
}

/// The labels of the sprites that `commands` create, in order.
pub open spec fn spawned_labels(commands: Seq<CommandView>) -> Seq<Seq<char>>
    decreases commands.len(),
{
    if commands.len() == 0 {
        Seq::empty()
    } else {
        let earlier = spawned_labels(commands.drop_last());
        match commands.last() {
            CommandView::SpawnSprite { label, .. } => earlier.push(label),
            _ => earlier,
        }
    }
}

/// How far `commands` shift the sprite `label` in all, along x and along y.
pub open spec fn net_shift(commands: Seq<CommandView>, label: Seq<char>) -> (int, int)
    decreases commands.len(),
{
    if commands.len() == 0 {
        (0, 0)
    } else {
        let (x, y) = net_shift(commands.drop_last(), label);
        match commands.last() {
            CommandView::MoveSprite { label: moved, dx, dy } if moved == label => (x + dx, y + dy),
            _ => (x, y),
        }
    }
}

/// The sprites that exist once the host has carried out `command` on the
/// sprites `sprites`, each sprite named by its label.
pub open spec fn sprites_after_command(sprites: Set<Seq<char>>, command: CommandView) -> Set<
    Seq<char>,
> {
    match command {
        CommandView::RemoveSprite { label } => sprites.remove(label),
        CommandView::SpawnSprite { label, .. } => sprites.insert(label),
        _ => sprites,
    }
}

/// The sprites that exist once the host has carried out `commands` in order.
pub open spec fn sprites_after(sprites: Set<Seq<char>>, commands: Seq<CommandView>) -> Set<
    Seq<char>,
>
    decreases commands.len(),
{
    if commands.len() == 0 {
        sprites
    } else {
        sprites_after_command(sprites_after(sprites, commands.drop_last()), commands.last())
    }
}

/// Removing a sprite is idempotent: a second removal of the same label
/// changes nothing, and neither does the removal of a label that no sprite
/// bears.
pub proof fn lemma_remove_sprite_idempotent(sprites: Set<Seq<char>>, label: Seq<char>)
    ensures
        ({
            let remove = CommandView::RemoveSprite { label };
            let once = sprites_after_command(sprites, remove);
            &&& sprites_after_command(once, remove) == once
            &&& sprites_after(sprites, seq![remove, remove]) == sprites_after(sprites, seq![remove])
            &&& !sprites.contains(label) ==> once == sprites
        }),
{
    let remove = CommandView::RemoveSprite { label };
    let once = sprites_after_command(sprites, remove);
    assert(sprites_after_command(once, remove) =~= once);
    if !sprites.contains(label) {
        assert(once =~= sprites);
    }
    let (one, two) = (seq![remove], seq![remove, remove]);
    assert(one.drop_last() =~= Seq::<CommandView>::empty());
    assert(two.drop_last() =~= one);
    assert(sprites_after(sprites, one.drop_last()) == sprites);
    assert(sprites_after(sprites, one) == once);
}

/// The sprites created by two lists of commands, one after the other, are
/// those of the first list followed by those of the second.
pub proof fn lemma_spawned_labels_concat(first: Seq<CommandView>, second: Seq<CommandView>)
    ensures
        spawned_labels(first + second) == spawned_labels(first) + spawned_labels(second),
    decreases second.len(),
{
    if second.len() == 0 {
        assert(first + second =~= first);
        assert(spawned_labels(first) + spawned_labels(second) =~= spawned_labels(first));
    } else {
        lemma_spawned_labels_concat(first, second.drop_last());
        assert((first + second).drop_last() =~= first + second.drop_last());
        assert((first + second).last() == second.last());
        assert(spawned_labels(first + second) =~= spawned_labels(first) + spawned_labels(second));
    }
}

/// Commands among which none creates a sprite create no sprites.
pub proof fn lemma_spawned_labels_none(commands: Seq<CommandView>)
    requires
        forall|i: int| 0 <= i < commands.len() ==> !(#[trigger] commands[i] is SpawnSprite),
    ensures
        spawned_labels(commands) == Seq::<Seq<char>>::empty(),
    decreases commands.len(),
{
    if commands.len() > 0 {
        lemma_spawned_labels_none(commands.drop_last());
        assert(!(commands[commands.len() - 1] is SpawnSprite));
    }
}

/// The shift by two lists of commands, one after the other, is the sum of
/// their shifts.
pub proof fn lemma_net_shift_concat(
    first: Seq<CommandView>,
    second: Seq<CommandView>,
    label: Seq<char>,
)
    ensures
        net_shift(first + second, label).0 == net_shift(first, label).0 + net_shift(
            second,
            label,
        ).0,
        net_shift(first + second, label).1 == net_shift(first, label).1 + net_shift(
            second,
            label,
        ).1,
    decreases second.len(),
{
    if second.len() == 0 {
        assert(first + second =~= first);
    } else {
        lemma_net_shift_concat(first, second.drop_last(), label);
        assert((first + second).drop_last() =~= first + second.drop_last());
        assert((first + second).last() == second.last());
    }
}

/// Commands among which none shifts a sprite shift nothing.
pub proof fn lemma_net_shift_none(commands: Seq<CommandView>, label: Seq<char>)
    requires
        forall|i: int| 0 <= i < commands.len() ==> !(#[trigger] commands[i] is MoveSprite),
    ensures
        net_shift(commands, label) == (0int, 0int),
    decreases commands.len(),
{
    if commands.len() > 0 {
        lemma_net_shift_none(commands.drop_last(), label);
        assert(!(commands[commands.len() - 1] is MoveSprite));
    }
}

} // verus!
