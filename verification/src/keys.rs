//! The input half of the interaction loop: what a key press does to the view
//! state, and what the loop has to do next.

use crate::state::{row_above, row_below, State, StateView};
use vstd::prelude::*;

verus! {

/// The modifier keys that are held while a key is pressed.
#[derive(Clone, Copy, Debug, PartialEq, Eq, Structural)]
pub struct Modifiers {
    pub shift: bool,
    pub control: bool,
    pub alt: bool,
    pub logo: bool,
    pub hyper: bool,
    pub meta: bool,
}

impl Modifiers {
    /// Control is held, and no other modifier.
    pub open spec fn only_control(self) -> bool {
        self.control && !self.shift && !self.alt && !self.logo && !self.hyper && !self.meta
    }

    /// No modifier is held.
    pub fn none() -> (modifiers: Modifiers)
        ensures
            !modifiers.shift,
            !modifiers.control,
            !modifiers.alt,
            !modifiers.logo,
            !modifiers.hyper,
            !modifiers.meta,
    {
        Modifiers {
            shift: false,
            control: false,
            alt: false,
            logo: false,
            hyper: false,
            meta: false,
        }
    }

    /// Whether Control is held, and no other modifier.
    pub fn is_only_control(self) -> (only: bool)
        ensures
            only == self.only_control(),
    {
        self.control && !self.shift && !self.alt && !self.logo && !self.hyper && !self.meta
    }
}

/// A key press, as far as the interaction loop tells keys apart.
#[derive(Clone, Copy, Debug, PartialEq, Eq, Structural)]
pub enum Key {
    Esc,
    Char { ch: char, modifiers: Modifiers },
    Backspace,
    Up,
    Down,
    Other,
}

/// What the interaction loop does after a key press.
#[derive(Debug)]
pub enum Command {
    /// Stop both loops and close the stream of queries.
    Quit,
    /// Send the query to the search coordinator.
    Send(String),
    /// Nothing but the next redraw.
    Wait,
}

/// A `Command` with its query as a sequence of characters.
pub enum CommandView {
    Quit,
    Send(Seq<char>),
    Wait,
}

impl View for Command {
    type V = CommandView;

    open spec fn view(&self) -> CommandView {
        match self {
            Command::Quit => CommandView::Quit,
            Command::Send(query) => CommandView::Send(query@),
            Command::Wait => CommandView::Wait,
        }
    }
}

/// Whether the key ends the program: Escape, or `c` with Control and no
/// other modifier.
pub open spec fn is_quit(key: Key) -> bool {
    match key {
        Key::Esc => true,
        Key::Char { ch, modifiers } => ch == 'c' && modifiers.only_control(),
        _ => false,
    }
}

/// The live query after the key: one character longer, one shorter, or the same.
pub open spec fn input_after(input: Seq<char>, key: Key) -> Seq<char> {
    match key {
        Key::Char { ch, .. } => if is_quit(key) {
            input
        } else {
            input.push(ch)
        },
        Key::Backspace => if input.len() > 0 {
            input.drop_last()
        } else {
            input
        },
        _ => input,
    }
}

/// The view state after the key. An edit changes the live query alone, an
/// arrow key the selection alone.
pub open spec fn state_after(before: StateView, key: Key) -> StateView {
    match key {
        Key::Up => StateView {
            selected: row_above(before.items.len(), before.selected),
            ..before
        },
        Key::Down => StateView {
            selected: row_below(before.items.len(), before.selected),
            ..before
        },
        _ => StateView { input: input_after(before.input, key), ..before },
    }
}

/// What the loop does after the key. Every edit, a Backspace on an empty
/// query too, sends the query as it stands after the edit.
pub open spec fn command_after(before: StateView, key: Key) -> CommandView {
    if is_quit(key) {
        CommandView::Quit
    } else {
        match key {
            Key::Char { .. } | Key::Backspace => CommandView::Send(input_after(before.input, key)),
            _ => CommandView::Wait,
        }
    }
}

/// Applies a key press to the view state and says what the loop does next.
/// The query that is sent is the live query as this call leaves it.
pub fn handle_key(state: &mut State, key: Key) -> (command: Command)
    ensures
        final(state)@ == state_after(old(state)@, key),
        command@ == command_after(old(state)@, key),
        command@ matches CommandView::Send(query) ==> query == final(state)@.input,
        old(state).wf() ==> final(state).wf(),
{
    match key {
        Key::Esc => Command::Quit,
        Key::Char { ch, modifiers } => {
            if ch == 'c' && modifiers.is_only_control() {
                Command::Quit
            } else {
                state.input.push(ch);
                Command::Send(state.input.clone())
            }
        },
        Key::Backspace => {
            let _ = state.input.pop();
            Command::Send(state.input.clone())
        },
        Key::Up => {
            state.results.previous();
            Command::Wait
        },
        Key::Down => {
            state.results.next();
            Command::Wait
        },
        Key::Other => Command::Wait,
    }
}

} // verus!
