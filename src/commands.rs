//! The developer command line: its open/closed state and how key presses
//! edit the typed text or invoke a command.
use crate::command_parser::{invocation, DevCommandList};
use vstd::prelude::*;

verus! {

/// Whether the command line is shown.
#[derive(Clone, Copy, Debug, PartialEq, Eq, Hash, Structural)]
pub enum CmdlineState {
    Open,
    Closed,
}

impl CmdlineState {
    /// The state after the toggle key: open becomes closed and closed open.
    pub fn toggled(self) -> (r: Self)
        ensures
            r == (if self == CmdlineState::Open {
                CmdlineState::Closed
            } else {
                CmdlineState::Open
            }),
    {
        match self {
            CmdlineState::Open => CmdlineState::Closed,
            CmdlineState::Closed => CmdlineState::Open,
        }
    }
}

/// Whether the simulation clock runs ticks.
#[derive(Clone, Copy, Debug, PartialEq, Eq, Hash, Structural)]
pub enum SimulationState {
    Running,
    Paused,
}

/// The simulation state after a frame: the pause key flips it, except while
/// the command line is open and takes the keys.
pub fn keyboard_state_changer(
    state: SimulationState,
    cmdline: CmdlineState,
    pause_key_pressed: bool,
) -> (r: SimulationState)
    ensures
        r == (if cmdline == CmdlineState::Open || !pause_key_pressed {
            state
        } else if state == SimulationState::Paused {
            SimulationState::Running
        } else {
            SimulationState::Paused
        }),
{
    if cmdline == CmdlineState::Open || !pause_key_pressed {
        return state;
    }
    match state {
        SimulationState::Paused => SimulationState::Running,
        SimulationState::Running => SimulationState::Paused,
    }
}

/// A key press while the command line is open.
#[derive(Clone, Debug, PartialEq, Eq)]
pub enum CmdlineKey {
    Enter,
    Tab,
    Backspace,
    Space,
    Character(String),
    Other,
}

/// Relies on `String::push`: appends one character.
#[verifier::external_body]
fn push_char(s: &mut String, c: char)
    ensures
        final(s)@ == old(s)@.push(c),
{
    s.push(c);
}

/// Relies on `String::pop`: removes and returns the last character, if any.
#[verifier::external_body]
fn pop_char(s: &mut String) -> (r: Option<char>)
    ensures
        old(s)@.len() == 0 ==> r is None && final(s)@ == old(s)@,
        old(s)@.len() > 0 ==> r == Some(old(s)@.last()) && final(s)@ == old(s)@.drop_last(),
{
    s.pop()
}

/// Relies on `String::push_str`: appends a string.
#[verifier::external_body]
fn push_text(s: &mut String, t: &str)
    ensures
        final(s)@ == old(s)@ + t@,
{
    s.push_str(t);
}

/// Applies one key press to the typed `text`. Enter invokes the command that
/// the text names and empties the text; Tab completes the text to a command
/// name where the names settle on one; Backspace removes the last character;
/// Space and characters are appended. Returns the command to run with its
/// argument.
pub fn update_cmdline<C>(commands: &DevCommandList<C>, text: &mut String, key: &CmdlineKey) -> (r:
    Option<(usize, String)>)
    requires
        commands.wf(),
    ensures
        match *key {
            CmdlineKey::Enter => invocation(commands.routes(), old(text)@, r) && final(text)@.len()
                == 0,
            CmdlineKey::Tab => r is None && (final(text)@ == old(text)@ || (
            commands.routes().contains_key(final(text)@) && old(text)@.is_prefix_of(
                final(text)@,
            ))) && (commands.routes().contains_key(old(text)@) ==> final(text)@ == old(text)@),
            CmdlineKey::Backspace => r is None && final(text)@ == (if old(text)@.len() > 0 {
                old(text)@.drop_last()
            } else {
                old(text)@
            }),
            CmdlineKey::Space => r is None && final(text)@ == old(text)@.push(' '),
            CmdlineKey::Character(c) => r is None && final(text)@ == old(text)@ + c@,
            CmdlineKey::Other => r is None && final(text)@ == old(text)@,
        },
        r is Some ==> r->Some_0.0 < commands.commands().len(),
{
    match key {
        CmdlineKey::Enter => {
            let r = commands.parse_command(text.as_str());
            *text = String::new();
            r
        },
        CmdlineKey::Tab => {
            if let Some(name) = commands.complete(text.as_str()) {
                *text = name;
            }
            None
        },
        CmdlineKey::Backspace => {
            pop_char(text);
            None
        },
        CmdlineKey::Space => {
            push_char(text, ' ');
            None
        },
        CmdlineKey::Character(c) => {
            push_text(text, c.as_str());
            None
        },
        CmdlineKey::Other => None,
    }
}

} // verus!
