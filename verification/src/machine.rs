//! The interactive command state machine. Every keystroke maps a state
//! snapshot to a fresh snapshot and an action for the caller; no previously
//! returned state is ever mutated, so stale snapshots stay valid.
use vstd::prelude::*;
use crate::interpreter::{covered, get_commands, resolve, spec_parse};
use crate::text::push_char;
use vstd::string::StringSliceAdditionalSpecFns;

verus! {

/// Free navigation, or accumulation of a pending control command.
#[derive(Debug, Copy, Clone, PartialEq, Eq, Structural)]
pub enum Mode {
    Normal,
    Command,
}

/// One keystroke, as the input collaborator reports it.
#[derive(Debug, Copy, Clone, PartialEq, Eq, Structural)]
pub enum Key {
    /// A printable character.
    Char(char),
    /// A character typed with the control key held.
    Ctrl(char),
    /// The confirm key.
    Enter,
    /// Any other key.
    Other,
}

/// What the caller is asked to do after a transition.
#[derive(Debug, Clone, PartialEq, Eq)]
pub enum Action {
    /// Nothing beyond showing the new state.
    Stay,
    /// Write the control byte for `command` to every service the indices
    /// name, each exactly once, a failure on one never blocking the rest.
    Dispatch { command: char, indices: Vec<u32> },
    /// Stop the interaction loop.
    Quit,
}

/// The interaction state: a snapshot replaced, never mutated, on every
/// keystroke.
#[derive(Debug)]
pub struct State {
    pub mode: Mode,
    /// The pending command letter, `'\0'` before the first command.
    pub command: char,
    /// The highlighted service index, if any.
    pub highlighted: Option<u32>,
    /// The selection text typed since entering command mode.
    pub buffer: String,
}

/// Two snapshots carry the same information.
pub open spec fn state_eq(a: State, b: State) -> bool {
    a.mode == b.mode && a.command == b.command && a.highlighted == b.highlighted && a.buffer@
        == b.buffer@
}

/// The index a digit key selects.
pub open spec fn char_digit(c: char) -> Option<u32> {
    if 48 <= c as u32 <= 57 {
        Some((c as u32 - 48) as u32)
    } else {
        None
    }
}

/// The fixed alphabet of command-trigger letters, each bound to one control
/// byte.
pub open spec fn spec_is_svc_command(c: char) -> bool {
    c == 'i' || c == 't' || c == 'd' || c == 'k' || c == 'p' || c == 'c' || c == 'o' || c == 'x'
}

/// The quit key: interrupt in either mode.
pub open spec fn is_quit(key: Key) -> bool {
    key == Key::Ctrl('c')
}

/// How a keystroke moves the machine out of free navigation: a digit key
/// highlights that index, a command-trigger letter records the pending
/// command and enters command mode, anything else changes nothing.
pub open spec fn normal_step(key: Key, pre: State, post: State, act: Action) -> bool {
    if key matches Key::Char(c) && char_digit(c) is Some {
        &&& post.mode == pre.mode
        &&& post.command == pre.command
        &&& post.highlighted == char_digit(key->Char_0)
        &&& post.buffer@ == pre.buffer@
        &&& act == Action::Stay
    } else if key matches Key::Char(c) && spec_is_svc_command(c) {
        &&& post.mode == Mode::Command
        &&& post.command == key->Char_0
        &&& post.highlighted == pre.highlighted
        &&& post.buffer@ == pre.buffer@
        &&& act == Action::Stay
    } else {
        state_eq(post, pre) && act == Action::Stay
    }
}

/// How a keystroke moves the machine while a command is pending: characters
/// accumulate into the selection text; the confirm key resolves that text
/// against the live registry of `n` services and asks the caller to
/// dispatch the pending command to exactly the resolved indices, returning
/// to navigation with the text cleared; anything else changes nothing.
pub open spec fn command_step(key: Key, pre: State, post: State, act: Action, n: int) -> bool {
    if key matches Key::Char(c) {
        &&& post.mode == pre.mode
        &&& post.command == pre.command
        &&& post.highlighted == pre.highlighted
        &&& post.buffer@ == pre.buffer@.push(key->Char_0)
        &&& act == Action::Stay
    } else if key == Key::Enter {
        &&& post.mode == Mode::Normal
        &&& post.command == pre.command
        &&& post.highlighted == pre.highlighted
        &&& post.buffer@ == Seq::<char>::empty()
        &&& act matches Action::Dispatch { command, indices } ==> {
            &&& command == pre.command
            &&& forall|k: int|
                0 <= k < indices@.len() ==> (#[trigger] indices@[k]) < n && covered(
                    spec_parse(vstd::utf8::encode_utf8(pre.buffer@)),
                    indices@[k],
                )
            &&& forall|i: u32|
                i < n && covered(spec_parse(vstd::utf8::encode_utf8(pre.buffer@)), i) ==> indices@.contains(i)
            &&& forall|k1: int, k2: int|
                0 <= k1 < k2 < indices@.len() ==> indices@[k1] < indices@[k2]
        }
        &&& act is Dispatch
    } else {
        state_eq(post, pre) && act == Action::Stay
    }
}

/// One full transition: the quit key stops the loop from either mode with
/// the state unchanged; otherwise the current mode decides.
pub open spec fn machine_step(key: Key, pre: State, post: State, act: Action, n: int) -> bool {
    if is_quit(key) {
        state_eq(post, pre) && act == Action::Quit
    } else if pre.mode == Mode::Normal {
        normal_step(key, pre, post, act)
    } else {
        command_step(key, pre, post, act, n)
    }
}

impl State {
    /// The initial state: free navigation, nothing pending, nothing
    /// highlighted, empty selection text.
    pub fn initial() -> (s: State)
        ensures
            s.mode == Mode::Normal,
            s.command == '\0',
            s.highlighted is None,
            s.buffer@ == Seq::<char>::empty(),
    {
        State { mode: Mode::Normal, command: '\0', highlighted: None, buffer: String::new() }
    }

    /// An equal fresh snapshot; the original stays valid and untouched.
    pub fn snapshot(&self) -> (s: State)
        ensures
            state_eq(s, *self),
    {
        State {
            mode: self.mode,
            command: self.command,
            highlighted: self.highlighted,
            buffer: self.buffer.clone(),
        }
    }
}

/// Whether a letter triggers a control command.
pub fn is_svc_command(c: char) -> (b: bool)
    ensures
        b == spec_is_svc_command(c),
{
    match c {
        'i' | 't' | 'd' | 'k' | 'p' | 'c' | 'o' | 'x' => true,
        _ => false,
    }
}

/// A fresh snapshot with the highlight moved to `row`.
pub fn highlight_row(state: &State, row: Option<u32>) -> (s: State)
    ensures
        s.mode == state.mode,
        s.command == state.command,
        s.buffer@ == state.buffer@,
        s.highlighted == row,
{
    let mut new_state = state.snapshot();
    if let Some(row) = row {
        new_state.highlighted = Some(row);
    } else {
        new_state.highlighted = None;
    }
    new_state
}

/// A fresh snapshot with `command` recorded as pending and command mode
/// entered; the current selection is untouched.
pub fn send_command(state: &State, command: char) -> (s: State)
    ensures
        s.mode == Mode::Command,
        s.command == command,
        s.highlighted == state.highlighted,
        s.buffer@ == state.buffer@,
{
    let mut new_state = state.snapshot();
    new_state.command = command;
    new_state.mode = Mode::Command;
    new_state
}

/// The digit a key names, if it is a digit key.
fn key_digit(c: char) -> (r: Option<u32>)
    ensures
        r == char_digit(c),
{
    let v = c as u32;
    if 48 <= v && v <= 57 {
        Some(v - 48)
    } else {
        None
    }
}

/// One keystroke in free navigation.
pub fn handle_normal_input(key: &Key, state: &State) -> (r: (State, Action))
    ensures
        normal_step(*key, *state, r.0, r.1),
{
    match key {
        Key::Char(num) => {
            match key_digit(*num) {
                Some(row) => (highlight_row(state, Some(row)), Action::Stay),
                None => {
                    if is_svc_command(*num) {
                        (send_command(state, *num), Action::Stay)
                    } else {
                        (state.snapshot(), Action::Stay)
                    }
                },
            }
        },
        _ => (state.snapshot(), Action::Stay),
    }
}

/// One keystroke while a command is pending.
pub fn handle_command_input(key: &Key, state: &State, n: usize) -> (r: (State, Action))
    requires
        n <= u32::MAX as usize,
    ensures
        command_step(*key, *state, r.0, r.1, n as int),
{
    match key {
        Key::Char(c) => {
            let mut new_state = state.snapshot();
            push_char(&mut new_state.buffer, *c);
            (new_state, Action::Stay)
        },
        Key::Enter => {
            let expr = get_commands(state.buffer.as_str());
            let indices = resolve(&expr, n);
            let new_state = State {
                mode: Mode::Normal,
                command: state.command,
                highlighted: state.highlighted,
                buffer: String::new(),
            };
            (new_state, Action::Dispatch { command: state.command, indices })
        },
        _ => (state.snapshot(), Action::Stay),
    }
}

/// From free navigation, a command-trigger letter always enters command
/// mode with that letter pending and the current selection untouched.
pub proof fn lemma_trigger_letter_enters_command(
    key: Key,
    pre: State,
    post: State,
    act: Action,
    n: int,
)
    requires
        pre.mode == Mode::Normal,
        key matches Key::Char(c) && spec_is_svc_command(c),
        machine_step(key, pre, post, act, n),
    ensures
        post.mode == Mode::Command,
        post.command == key->Char_0,
        post.highlighted == pre.highlighted,
        act == Action::Stay,
{
    assert(!is_quit(key));
    assert(char_digit(key->Char_0) is None);
}

/// One keystroke, from whichever mode the machine is in.
pub fn handle_key(key: &Key, state: &State, n: usize) -> (r: (State, Action))
    requires
        n <= u32::MAX as usize,
    ensures
        machine_step(*key, *state, r.0, r.1, n as int),
{
    let quit = match key {
        Key::Ctrl(c) => *c == 'c',
        _ => false,
    };
    if quit {
        return (state.snapshot(), Action::Quit);
    }
    match state.mode {
        Mode::Normal => handle_normal_input(key, state),
        Mode::Command => handle_command_input(key, state, n),
    }
}

} // verus!
