//! The five builtin capabilities' outside edges: terminal key input through
//! `crossterm`, byte and text output on standard output, the clock, and
//! sleeping. Each trusted wrapper holds one outside call; the interactive
//! numeral-entry state machine that decides which keys are accepted is
//! verified here. Write failures on standard output are ignored; terminal
//! and clock failures surface as capability failures.
use vstd::prelude::*;

use std::io::Write;
use std::time::Duration;
use std::time::SystemTime;
use std::time::UNIX_EPOCH;

verus! {

/// One key press, reduced to what the capabilities look at.
pub(crate) enum KeyInput {
    Char(char),
    Enter,
    Other,
    Failed,
}

/// How many times the key loops poll before giving up; at ten milliseconds
/// a poll this outlasts any session.
pub const KEY_POLL_BUDGET: u64 = 0xFFFF_FFFF_FFFF_FFFF;

/// Relies on crossterm's `enable_raw_mode`: keys arrive one by one without
/// echo while it is on.
#[verifier::external_body]
fn terminal_raw_on() -> bool {
    crossterm::terminal::enable_raw_mode().is_ok()
}

/// Relies on crossterm's `disable_raw_mode`; a failure to restore the
/// terminal is ignored.
#[verifier::external_body]
fn terminal_raw_off() {
    let _ = crossterm::terminal::disable_raw_mode();
}

/// Relies on crossterm's `event::poll`: whether an event is ready within
/// the given number of milliseconds.
#[verifier::external_body]
fn poll_key(timeout_ms: u64) -> bool {
    crossterm::event::poll(Duration::from_millis(timeout_ms)).unwrap_or(false)
}

/// Relies on crossterm's `event::read`: the next event, reduced to a key.
#[verifier::external_body]
fn read_key() -> KeyInput {
    match crossterm::event::read() {
        Ok(crossterm::event::Event::Key(key_event)) => match key_event.code {
            crossterm::event::KeyCode::Char(c) => KeyInput::Char(c),
            crossterm::event::KeyCode::Enter => KeyInput::Enter,
            _ => KeyInput::Other,
        },
        Ok(_) => KeyInput::Other,
        Err(_) => KeyInput::Failed,
    }
}

/// Relies on `std::io::Stdout`'s `write_all`: the byte goes to standard
/// output; a write failure is ignored.
#[verifier::external_body]
pub(crate) fn emit_byte(byte: u8) {
    let _ = std::io::stdout().write_all(&[byte]);
}

/// Relies on `write!` to standard output; a write failure is ignored.
#[verifier::external_body]
pub(crate) fn emit_text(text: &str) {
    let _ = write!(std::io::stdout(), "{}", text);
}

/// Relies on `write!` to standard output; a write failure is ignored.
#[verifier::external_body]
fn emit_char(c: char) {
    let _ = write!(std::io::stdout(), "{}", c);
}

/// Relies on `std::io::Stdout`'s `flush`; a failure is ignored.
#[verifier::external_body]
pub(crate) fn flush_output() {
    let _ = std::io::stdout().flush();
}

/// Relies on `SystemTime`: milliseconds since the epoch, or nothing when
/// the clock stands before it.
#[verifier::external_body]
pub(crate) fn now_millis() -> Option<u64> {
    match SystemTime::now().duration_since(UNIX_EPOCH) {
        Ok(stamp) => Some(stamp.as_millis() as u64),
        Err(_) => None,
    }
}

/// Relies on `spin_sleep::sleep`: blocks the thread for the given number
/// of milliseconds.
#[verifier::external_body]
pub(crate) fn sleep_millis(ms: u64) {
    spin_sleep::sleep(Duration::from_millis(ms));
}

/// The numeral-entry state: the text so far and which characters the next
/// key may add.
pub struct NumericEntry {
    pub text: Vec<char>,
    pub dot_allowed: bool,
    pub e_allowed: bool,
    pub sign_allowed: bool,
    pub has_e: bool,
}

/// The mathematical shape of the entry state.
pub struct EntryView {
    pub text: Seq<char>,
    pub dot_allowed: bool,
    pub e_allowed: bool,
    pub sign_allowed: bool,
    pub has_e: bool,
}

impl View for NumericEntry {
    type V = EntryView;

    open spec fn view(&self) -> EntryView {
        EntryView {
            text: self.text@,
            dot_allowed: self.dot_allowed,
            e_allowed: self.e_allowed,
            sign_allowed: self.sign_allowed,
            has_e: self.has_e,
        }
    }
}

/// What one typed character does to the entry: a digit is always taken;
/// one dot is taken while allowed; one `e` is taken after a digit and only
/// once; one sign is taken directly after the `e`; everything else is
/// ignored. The echoed character is the one taken.
pub open spec fn spec_entry_step(s: EntryView, c: char) -> (EntryView, Option<char>) {
    if c == 'e' && s.e_allowed && !s.has_e {
        (
            EntryView {
                text: s.text.push('e'),
                dot_allowed: false,
                e_allowed: false,
                sign_allowed: true,
                has_e: true,
            },
            Some('e'),
        )
    } else if (c == '+' || c == '-') && s.sign_allowed {
        (EntryView { text: s.text.push(c), sign_allowed: false, ..s }, Some(c))
    } else if c == '.' && s.dot_allowed {
        (
            EntryView {
                text: s.text.push('.'),
                dot_allowed: false,
                sign_allowed: !s.e_allowed,
                e_allowed: true,
                has_e: s.has_e,
            },
            Some('.'),
        )
    } else if '0' <= c && c <= '9' {
        (EntryView { text: s.text.push(c), e_allowed: true, ..s }, Some(c))
    } else {
        (s, None)
    }
}

impl NumericEntry {
    /// A fresh entry: a dot may come at once, an exponent only after a
    /// digit, a sign only after the exponent marker.
    pub fn new() -> (r: Self)
        ensures
            r@ == (EntryView {
                text: Seq::<char>::empty(),
                dot_allowed: true,
                e_allowed: false,
                sign_allowed: false,
                has_e: false,
            }),
    {
        NumericEntry {
            text: Vec::new(),
            dot_allowed: true,
            e_allowed: false,
            sign_allowed: false,
            has_e: false,
        }
    }

    /// Apply one typed character and hand back the character to echo, if
    /// the key was taken.
    pub fn step(&mut self, c: char) -> (echo: Option<char>)
        ensures
            (final(self)@, echo) == spec_entry_step(old(self)@, c),
    {
        if c == 'e' && self.e_allowed && !self.has_e {
            self.text.push('e');
            self.dot_allowed = false;
            self.e_allowed = false;
            self.sign_allowed = true;
            self.has_e = true;
            Some('e')
        } else if (c == '+' || c == '-') && self.sign_allowed {
            self.text.push(c);
            self.sign_allowed = false;
            Some(c)
        } else if c == '.' && self.dot_allowed {
            self.text.push('.');
            self.dot_allowed = false;
            self.sign_allowed = !self.e_allowed;
            self.e_allowed = true;
            Some('.')
        } else if '0' <= c && c <= '9' {
            self.text.push(c);
            self.e_allowed = true;
            Some(c)
        } else {
            None
        }
    }

    /// Whether the entered text ends in a bare exponent marker or sign, the
    /// one shape the entry loop can build that is not a numeral.
    pub fn ends_dangling(&self) -> (r: bool)
        ensures
            r == (self@.text.len() > 0 && (self@.text.last() == 'e' || self@.text.last() == '+'
                || self@.text.last() == '-')),
    {
        if self.text.len() > 0 {
            let c = self.text[self.text.len() - 1];
            c == 'e' || c == '+' || c == '-'
        } else {
            false
        }
    }
}

/// Block for a single key press and hand back its character code, with
/// the enter key reading as ten, as the mode-zero input capability does.
pub(crate) fn read_char_code() -> (r: Option<u8>)
{
    if !terminal_raw_on() {
        return None;
    }
    let mut budget: u64 = KEY_POLL_BUDGET;
    loop
        decreases budget,
    {
        if budget == 0 {
            terminal_raw_off();
            return None;
        }
        budget = budget - 1;
        if poll_key(10) {
            match read_key() {
                KeyInput::Char(c) => {
                    terminal_raw_off();
                    return Some((c as u32) as u8);
                },
                KeyInput::Enter => {
                    terminal_raw_off();
                    return Some(10u8);
                },
                KeyInput::Failed => {
                    terminal_raw_off();
                    return None;
                },
                KeyInput::Other => {},
            }
        }
    }
}

/// Run the interactive numeral-entry loop: digits, at most one dot, an
/// optional exponent with an optional sign, ended by the enter key, each
/// accepted key echoed. Hands back the entered text, or nothing when the
/// terminal fails.
pub(crate) fn read_numeric_entry() -> (r: Option<Vec<char>>)
{
    if !terminal_raw_on() {
        return None;
    }
    let mut entry = NumericEntry::new();
    let mut budget: u64 = KEY_POLL_BUDGET;
    loop
        decreases budget,
    {
        if budget == 0 {
            terminal_raw_off();
            return None;
        }
        budget = budget - 1;
        if poll_key(10) {
            match read_key() {
                KeyInput::Char(c) => {
                    match entry.step(c) {
                        Some(echo) => {
                            emit_char(echo);
                            flush_output();
                        },
                        None => {},
                    }
                },
                KeyInput::Enter => {
                    terminal_raw_off();
                    if entry.ends_dangling() {
                        // a dangling exponent is no numeral: hand back text
                        // that cannot parse
                        return Some(Vec::new());
                    }
                    return Some(entry.text);
                },
                KeyInput::Failed => {
                    terminal_raw_off();
                    return None;
                },
                KeyInput::Other => {},
            }
        }
    }
}

} // verus!
