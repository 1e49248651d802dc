//! The key dispatch: what each key does to the session.

use crate::character::Character;
use crate::config::Config;
use crate::state::{backspaced, word_backspaced, State};
use vstd::prelude::*;

verus! {

/// A key as the session sees it.
#[derive(Debug, Clone, Copy, PartialEq, Eq, Structural)]
pub enum Key {
    /// A key that stands for a character
    Char(char),
    Enter,
    Backspace,
    Esc,
    /// Any other key
    Other,
}

/// The character that a key types, if it types one: Enter types a line feed.
pub open spec fn key_char(key: Key) -> Option<char> {
    match key {
        Key::Char(c) => Some(c),
        Key::Enter => Some('\n'),
        _ => None,
    }
}

/// How one position of the page is shown: the symbol, its indexed colour
/// (none for the terminal's own) and whether it is bold.
#[derive(Debug, Clone, Copy, PartialEq, Eq, Structural)]
pub struct Glyph {
    pub symbol: char,
    pub color: Option<u8>,
    pub bold: bool,
}

/// How a verdict is shown: a hit plainly; a miss bold and in the colour of
/// misses, with a low line for a wrongly typed space so that it can be seen;
/// an untyped character in the colour of untyped text.
pub open spec fn glyph_of(config: &Config, character: Character) -> Glyph {
    match character {
        Character::Hit(c) => Glyph { symbol: c, color: None, bold: false },
        Character::Miss(c) => Glyph {
            symbol: if c == ' ' {
                '_'
            } else {
                c
            },
            color: Some(config.fg_miss),
            bold: true,
        },
        Character::Empty(c) => Glyph { symbol: c, color: Some(config.fg_empty), bold: false },
    }
}

/// The margin that centres `needed` cells within `available` ones: half of
/// what is left over, and nothing where nothing is.
pub open spec fn centred(available: u16, needed: u16) -> int {
    if needed >= available {
        0
    } else {
        (available - needed) / 2
    }
}

/// Computes the margin that centres `needed` cells within `available` ones.
pub fn margin(available: u16, needed: u16) -> (m: u16)
    ensures
        m == centred(available, needed),
        m + needed <= available || m == 0,
{
    if needed >= available {
        0
    } else {
        (available - needed) / 2
    }
}

#[derive(Debug)]
pub struct App<'a> {
    pub config: &'a Config,
    pub state: State,
    pub should_quit: bool,
}

impl<'a> App<'a> {
    /// Whether the session is complete: the input is the target.
    pub open spec fn complete(&self) -> bool {
        self.state.input@ == self.state.target@
    }

    /// `next` is this application after it left the session, to start another
    /// (`again`) or to end.
    pub open spec fn left(&self, next: &App<'a>, again: bool) -> bool {
        &&& next.should_quit
        &&& next.state.should_loop == again
        &&& next.state.target == self.state.target
        &&& next.state.input == self.state.input
        &&& next.state.strokes == self.state.strokes
        &&& next.state.hits == self.state.hits
        &&& next.state.session_start == self.state.session_start
        &&& next.state.session_end == self.state.session_end
    }

    /// `next` is this application after the character `c` was typed into a
    /// session that was not complete: the clock runs from the first
    /// character, the keystroke is applied, and the clock is stopped if it
    /// completed the session.
    pub open spec fn typed_into(&self, next: &App<'a>, c: char) -> bool {
        &&& next.should_quit == self.should_quit
        &&& next.state.should_loop == self.state.should_loop
        &&& next.state.target == self.state.target
        &&& next.state.tally() == crate::state::tally_step(
            self.state.target@,
            self.state.tally(),
            c,
        )
        &&& next.state.session_start is Some
        &&& self.state.session_start is Some ==> next.state.session_start
            == self.state.session_start
        &&& if next.complete() {
            next.state.session_end is Some
        } else {
            next.state.session_end == self.state.session_end
        }
    }

    /// `next` is this application after its input became `input` and nothing
    /// else changed.
    pub open spec fn erased_to(&self, next: &App<'a>, input: Seq<char>) -> bool {
        &&& next.should_quit == self.should_quit
        &&& self.state.same_but_input(&next.state)
        &&& next.state.input@ == input
    }

    /// `next` is this application after `key`, pressed with the control key
    /// held (`ctrl`) or not.
    ///
    /// Once the session is complete, Enter leaves for good and Esc leaves for
    /// another session. Before that, Ctrl+C leaves for good, Ctrl+W erases a
    /// word and any other key with Ctrl does nothing; without Ctrl a character
    /// or Enter is typed, Backspace erases, and Esc leaves for another session.
    pub open spec fn reacted(&self, next: &App<'a>, key: Key, ctrl: bool) -> bool {
        &&& next.config == self.config
        &&& if self.complete() {
            match key {
                Key::Enter => self.left(next, false),
                Key::Esc => self.left(next, true),
                _ => *next == *self,
            }
        } else if ctrl {
            match key {
                Key::Char('c') => self.left(next, false),
                Key::Char('w') => self.erased_to(next, word_backspaced(self.state.input@)),
                _ => *next == *self,
            }
        } else {
            match key {
                Key::Char(c) => self.typed_into(next, c),
                Key::Enter => self.typed_into(next, '\n'),
                Key::Backspace => self.erased_to(
                    next,
                    backspaced(self.state.target@, self.state.input@),
                ),
                Key::Esc => self.left(next, true),
                Key::Other => *next == *self,
            }
        }
    }

    pub fn new(state: State, config: &'a Config) -> (app: Self)
        ensures
            app.config == config,
            app.state == state,
            !app.should_quit,
    {
        Self { config, state, should_quit: false }
    }

    /// Decides how one verdict of the page is shown.
    pub fn render_character(&self, character: &Character) -> (g: Glyph)
        ensures
            g == glyph_of(self.config, *character),
    {
        match character {
            Character::Hit(c) => Glyph { symbol: *c, color: None, bold: false },
            Character::Miss(c) => Glyph {
                symbol: if *c == ' ' {
                    '_'
                } else {
                    *c
                },
                color: Some(self.config.fg_miss),
                bold: true,
            },
            Character::Empty(c) => Glyph {
                symbol: *c,
                color: Some(self.config.fg_empty),
                bold: false,
            },
        }
    }

    /// Applies one key to the session.
    pub fn handle_key_event(&mut self, key: Key, ctrl: bool)
        requires
            old(self).state.wf(),
            old(self).state.accepts() ==> old(self).state.strokes < u64::MAX,
        ensures
            old(self).reacted(final(self), key, ctrl),
            final(self).state.wf(),
            old(self).state.session_end is Some ==> final(self).state.session_end is Some,
    {
        if self.state.is_complete() {
            match key {
                Key::Enter => {
                    self.state.should_loop = false;
                    self.should_quit = true;
                },
                Key::Esc => {
                    self.state.should_loop = true;
                    self.should_quit = true;
                },
                _ => {},
            }
            return ;
        }
        if ctrl {
            match key {
                Key::Char('c') => {
                    self.state.should_loop = false;
                    self.should_quit = true;
                },
                Key::Char('w') => {
                    self.state.apply_backspace_word();
                },
                _ => {},
            }
            return ;
        }
        match key {
            Key::Char(c) => {
                self.type_char(c);
            },
            Key::Enter => {
                self.type_char('\n');
            },
            Key::Backspace => {
                self.state.apply_backspace();
            },
            Key::Esc => {
                self.state.should_loop = true;
                self.should_quit = true;
            },
            Key::Other => {},
        }
    }

    /// Types one character into the session and keeps its clock.
    fn type_char(&mut self, c: char)
        requires
            old(self).state.wf(),
            old(self).state.accepts() ==> old(self).state.strokes < u64::MAX,
        ensures
            final(self).config == old(self).config,
            old(self).typed_into(final(self), c),
            final(self).state.wf(),
            old(self).state.session_end is Some ==> final(self).state.session_end is Some,
    {
        if !self.state.has_started() {
            self.state.start_clock();
        }
        self.state.apply_char(c);

        if self.state.is_complete() {
            self.state.stop_clock();
        }
    }
}

} // verus!
