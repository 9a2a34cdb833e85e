//! The control scheme: which keys drive which of the game's actions.
use vstd::prelude::*;

verus! {

/// What the player can do.
#[derive(Clone, Copy, Debug, PartialEq, Eq, Hash, Structural)]
pub enum Action {
    Move,
    A,
    B,
    Select,
    Start,
}

/// The keys the game listens to.
#[derive(Clone, Copy, Debug, PartialEq, Eq, Hash, Structural)]
pub enum Key {
    KeyA,
    KeyB,
    ArrowUp,
    ArrowDown,
    ArrowLeft,
    ArrowRight,
    Enter,
    NumpadEnter,
    ShiftLeft,
    ShiftRight,
}

/// An input bound to an action: one key, or four keys read as a directional pad.
#[derive(Clone, Copy, Debug, PartialEq, Eq, Structural)]
pub enum InputBinding {
    Key(Key),
    DPad { up: Key, down: Key, left: Key, right: Key },
}

/// The player's bindings, in the order they are inserted into the input map.
pub open spec fn player_bindings() -> Seq<(Action, InputBinding)> {
    seq![
        (Action::A, InputBinding::Key(Key::KeyA)),
        (Action::B, InputBinding::Key(Key::KeyB)),
        (
            Action::Move,
            InputBinding::DPad {
                up: Key::ArrowUp,
                down: Key::ArrowDown,
                left: Key::ArrowLeft,
                right: Key::ArrowRight,
            },
        ),
        (Action::Start, InputBinding::Key(Key::Enter)),
        (Action::Start, InputBinding::Key(Key::NumpadEnter)),
        (Action::Select, InputBinding::Key(Key::ShiftLeft)),
        (Action::Select, InputBinding::Key(Key::ShiftRight)),
    ]
}

/// The player's input map: A and B on their keys, Move on the arrow keys as a
/// directional pad, Start on both Enter keys, Select on both Shift keys.
pub fn player_input_map() -> (m: Vec<(Action, InputBinding)>)
    ensures
        m@ == player_bindings(),
{
    let mut m: Vec<(Action, InputBinding)> = Vec::new();
    m.push((Action::A, InputBinding::Key(Key::KeyA)));
    m.push((Action::B, InputBinding::Key(Key::KeyB)));
    m.push(
        (
            Action::Move,
            InputBinding::DPad {
                up: Key::ArrowUp,
                down: Key::ArrowDown,
                left: Key::ArrowLeft,
                right: Key::ArrowRight,
            },
        ),
    );
    m.push((Action::Start, InputBinding::Key(Key::Enter)));
    m.push((Action::Start, InputBinding::Key(Key::NumpadEnter)));
    m.push((Action::Select, InputBinding::Key(Key::ShiftLeft)));
    m.push((Action::Select, InputBinding::Key(Key::ShiftRight)));
    assert(m@ =~= player_bindings());
    m
}

/// Every action of the game has at least one binding in the player's map.
pub proof fn lemma_every_action_bound(action: Action)
    ensures
        exists|i: int|
            0 <= i < player_bindings().len() && (#[trigger] player_bindings()[i]).0 == action,
{
    let b = player_bindings();
    match action {
        Action::A => assert(b[0].0 == action),
        Action::B => assert(b[1].0 == action),
        Action::Move => assert(b[2].0 == action),
        Action::Start => assert(b[3].0 == action),
        Action::Select => assert(b[5].0 == action),
    }
}

} // verus!
