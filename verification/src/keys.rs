use vstd::prelude::*;

verus! {

/// The modifier bits of a key press, as the terminal reports them.
pub const NO_MODIFIERS: u8 = 0;
/// The Shift key.
pub const SHIFT: u8 = 1;
/// The Control key.
pub const CONTROL: u8 = 2;

/// Which key was pressed.
#[derive(Clone, Copy, Debug, PartialEq, Eq, Structural)]
pub enum KeyCode {
    Char(char),
    Esc,
    /// Any other key.
    Other,
}

/// Whether the key went down, repeats, or went up.
#[derive(Clone, Copy, Debug, PartialEq, Eq, Structural)]
pub enum KeyEventKind {
    Press,
    Repeat,
    Release,
}

/// A key event: the key, the modifier bits held with it, and its kind.
#[derive(Clone, Copy, Debug, PartialEq, Eq, Structural)]
pub struct KeyEvent {
    pub code: KeyCode,
    pub modifiers: u8,
    pub kind: KeyEventKind,
}

/// What a key asks the clock to do.
#[derive(Clone, Copy, Debug, PartialEq, Eq, Structural)]
pub enum Command {
    Quit,
    ReloadConfig,
    TogglePause,
    RestartCounter,
    IntervalDown,
    IntervalUp,
    NextColor,
    PrevColor,
    ToggleBlink,
    ToggleSeconds,
    TogglePlain,
    Ignore,
}

/// Whether the key is the character `c`.
pub open spec fn is_char(k: KeyEvent, c: char) -> bool {
    k.code == KeyCode::Char(c)
}

/// Whether the key is a press with no modifier, or with Shift alone.
pub open spec fn plain_or_shifted_press(k: KeyEvent) -> bool {
    k.kind == KeyEventKind::Press && (k.modifiers == NO_MODIFIERS || k.modifiers == SHIFT)
}

/// Whether the key is a press with no modifier.
pub open spec fn plain_press(k: KeyEvent) -> bool {
    k.kind == KeyEventKind::Press && k.modifiers == NO_MODIFIERS
}

/// The key bindings, tried in this order: Esc, q or Q alone, or Ctrl+C
/// quit; Ctrl+R reloads the configuration; p or P pauses or resumes a
/// counter and r or R restarts it; - and + (or =) shorten and lengthen the
/// refresh interval; c and Shift+C step the color forward and back; b, s
/// and h (or their capitals) toggle blinking, seconds and the status bar.
/// Every key but the quit and reload keys acts only when pressed.
pub open spec fn spec_command(k: KeyEvent) -> Command {
    if (k.code == KeyCode::Esc || is_char(k, 'Q') || is_char(k, 'q')) && k.modifiers == NO_MODIFIERS {
        Command::Quit
    } else if is_char(k, 'c') && k.modifiers == CONTROL {
        Command::Quit
    } else if is_char(k, 'r') && k.modifiers == CONTROL {
        Command::ReloadConfig
    } else if (is_char(k, 'P') || is_char(k, 'p')) && plain_or_shifted_press(k) {
        Command::TogglePause
    } else if (is_char(k, 'R') || is_char(k, 'r')) && plain_or_shifted_press(k) {
        Command::RestartCounter
    } else if is_char(k, '-') && plain_press(k) {
        Command::IntervalDown
    } else if (is_char(k, '+') || is_char(k, '=')) && plain_press(k) {
        Command::IntervalUp
    } else if is_char(k, 'c') && plain_press(k) {
        Command::NextColor
    } else if is_char(k, 'C') && k.kind == KeyEventKind::Press && k.modifiers == SHIFT {
        Command::PrevColor
    } else if (is_char(k, 'b') || is_char(k, 'B')) && plain_or_shifted_press(k) {
        Command::ToggleBlink
    } else if (is_char(k, 's') || is_char(k, 'S')) && plain_or_shifted_press(k) {
        Command::ToggleSeconds
    } else if (is_char(k, 'h') || is_char(k, 'H')) && plain_or_shifted_press(k) {
        Command::TogglePlain
    } else {
        Command::Ignore
    }
}

/// The same key event with the character `c` in place of its key.
pub open spec fn with_char(k: KeyEvent, c: char) -> KeyEvent {
    KeyEvent { code: KeyCode::Char(c), modifiers: k.modifiers, kind: k.kind }
}

/// The letter keys for pausing, restarting, blinking, seconds and the
/// status bar act when pressed alone or with Shift, in either case.
pub proof fn lemma_letter_bindings(k: KeyEvent)
    requires
        plain_or_shifted_press(k),
    ensures
        spec_command(with_char(k, 'p')) == Command::TogglePause,
        spec_command(with_char(k, 'P')) == Command::TogglePause,
        spec_command(with_char(k, 'r')) == Command::RestartCounter,
        spec_command(with_char(k, 'R')) == Command::RestartCounter,
        spec_command(with_char(k, 'b')) == Command::ToggleBlink,
        spec_command(with_char(k, 'B')) == Command::ToggleBlink,
        spec_command(with_char(k, 's')) == Command::ToggleSeconds,
        spec_command(with_char(k, 'S')) == Command::ToggleSeconds,
        spec_command(with_char(k, 'h')) == Command::TogglePlain,
        spec_command(with_char(k, 'H')) == Command::TogglePlain,
{
}

/// The letters q, p, b, s and h mean the same in either case, whatever the
/// modifiers and the kind of the event; so does r, but for Ctrl+R, which
/// reloads the configuration while Ctrl with a capital R does nothing.
pub proof fn lemma_bindings_ignore_case(k: KeyEvent)
    ensures
        spec_command(with_char(k, 'q')) == spec_command(with_char(k, 'Q')),
        spec_command(with_char(k, 'p')) == spec_command(with_char(k, 'P')),
        spec_command(with_char(k, 'b')) == spec_command(with_char(k, 'B')),
        spec_command(with_char(k, 's')) == spec_command(with_char(k, 'S')),
        spec_command(with_char(k, 'h')) == spec_command(with_char(k, 'H')),
        k.modifiers != CONTROL ==> spec_command(with_char(k, 'r')) == spec_command(with_char(k, 'R')),
{
}

impl KeyEvent {
    /// The command that this key is bound to.
    pub fn command(&self) -> (c: Command)
        ensures
            c == spec_command(*self),
    {
        let ch: Option<char> = match self.code {
            KeyCode::Char(c) => Some(c),
            _ => None,
        };
        let is = |c: char| -> (b: bool)
            ensures
                b == is_char(*self, c),
            { ch == Some(c) };
        let press = match self.kind {
            KeyEventKind::Press => true,
            _ => false,
        };
        let esc = match self.code {
            KeyCode::Esc => true,
            _ => false,
        };
        let m = self.modifiers;
        let plain_or_shift = press && (m == NO_MODIFIERS || m == SHIFT);
        let plain = press && m == NO_MODIFIERS;
        if (esc || is('Q') || is('q')) && m == NO_MODIFIERS {
            Command::Quit
        } else if is('c') && m == CONTROL {
            Command::Quit
        } else if is('r') && m == CONTROL {
            Command::ReloadConfig
        } else if (is('P') || is('p')) && plain_or_shift {
            Command::TogglePause
        } else if (is('R') || is('r')) && plain_or_shift {
            Command::RestartCounter
        } else if is('-') && plain {
            Command::IntervalDown
        } else if (is('+') || is('=')) && plain {
            Command::IntervalUp
        } else if is('c') && plain {
            Command::NextColor
        } else if is('C') && press && m == SHIFT {
            Command::PrevColor
        } else if (is('b') || is('B')) && plain_or_shift {
            Command::ToggleBlink
        } else if (is('s') || is('S')) && plain_or_shift {
            Command::ToggleSeconds
        } else if (is('h') || is('H')) && plain_or_shift {
            Command::TogglePlain
        } else {
            Command::Ignore
        }
    }
}

} // verus!
