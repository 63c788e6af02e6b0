//! The decisions of the interactive session: what to do with each line the user types.
//! Reading lines, looking words up and writing the word list are left to the caller,
//! which performs the action that each step returns.
use vstd::prelude::*;
use vstd::utf8::encode_utf8;
use crate::preserver::{NEWLINE, Preserver, PreserverView};
use crate::text::{trim_text, trimmed};

verus! {

/// The word that a session starts on.
pub const FIRST_WORD: &'static str = "pasar";
/// The line that asks for the current word to be saved.
pub const SAVE_COMMAND: &'static str = "save";

/// A command of the session.
#[derive(Clone, Copy, Debug, PartialEq, Eq, Structural)]
pub enum Command {
    /// Save the current word to the word list.
    Save,
}

/// One line of user input, read as a command or as a word to look up.
#[derive(Clone, Debug)]
pub enum UserInput {
    Command(Command),
    Word(String),
}

/// What the caller is to do after one step.
#[derive(Clone, Debug)]
pub enum Action {
    /// Look the word up and show its page.
    Lookup(String),
    /// Write the word list's buffer to its file.
    Save,
    /// Report that the word was empty.
    EmptyWord,
}

pub ghost enum InputView {
    Command(Command),
    Word(Seq<char>),
}

pub ghost enum ActionView {
    Lookup(Seq<char>),
    Save,
    EmptyWord,
}

impl View for UserInput {
    type V = InputView;

    open spec fn view(&self) -> InputView {
        match *self {
            UserInput::Command(c) => InputView::Command(c),
            UserInput::Word(w) => InputView::Word(w@),
        }
    }
}

impl View for Action {
    type V = ActionView;

    open spec fn view(&self) -> ActionView {
        match *self {
            Action::Lookup(w) => ActionView::Lookup(w@),
            Action::Save => ActionView::Save,
            Action::EmptyWord => ActionView::EmptyWord,
        }
    }
}

/// How an already trimmed line is read.
pub open spec fn input_of(t: Seq<char>) -> InputView {
    if t == SAVE_COMMAND@ {
        InputView::Command(Command::Save)
    } else {
        InputView::Word(t)
    }
}

/// The action that an input asks for.
pub open spec fn action_of(input: InputView) -> ActionView {
    match input {
        InputView::Command(Command::Save) => ActionView::Save,
        InputView::Word(w) => if w.len() == 0 {
            ActionView::EmptyWord
        } else {
            ActionView::Lookup(w)
        },
    }
}

/// The word list after an input: saving appends the current word on a new line; any
/// other input leaves it as it was.
pub open spec fn list_after(p: PreserverView, current: Seq<char>, input: InputView) -> PreserverView {
    match input {
        InputView::Command(Command::Save) => PreserverView {
            buffer: p.buffer.push(NEWLINE) + encode_utf8(current),
            ..p
        },
        InputView::Word(_) => p,
    }
}

/// The state of an interactive session: the word list and the current word.
pub struct LanguageBuddy {
    preserver: Preserver,
    current_word: String,
}

pub ghost struct BuddyView {
    pub preserver: PreserverView,
    pub current_word: Seq<char>,
}

impl View for LanguageBuddy {
    type V = BuddyView;

    closed spec fn view(&self) -> BuddyView {
        BuddyView { preserver: self.preserver@, current_word: self.current_word@ }
    }
}

/// Reads an already trimmed line: the save command, or else a word.
pub fn parse_input(line: &str) -> (r: UserInput)
    ensures
        r@ == input_of(line@),
{
    let text = String::from_str(line);
    if text == String::from_str(SAVE_COMMAND) {
        UserInput::Command(Command::Save)
    } else {
        UserInput::Word(text)
    }
}

impl LanguageBuddy {
    /// A session over the given word list, starting on the first word.
    pub fn new(preserver: Preserver) -> (r: LanguageBuddy)
        ensures
            r@ == (BuddyView { preserver: preserver@, current_word: FIRST_WORD@ }),
    {
        LanguageBuddy { preserver, current_word: String::from_str(FIRST_WORD) }
    }

    /// The word list.
    pub fn preserver(&self) -> (r: &Preserver)
        ensures
            r@ == self@.preserver,
    {
        &self.preserver
    }

    /// The current word.
    pub fn current_word(&self) -> (r: &str)
        ensures
            r@ == self@.current_word,
    {
        self.current_word.as_str()
    }

    /// Appends the current word to the word list's buffer.
    fn do_save(&mut self)
        ensures
            final(self)@ == (BuddyView {
                preserver: PreserverView {
                    buffer: old(self)@.preserver.buffer.push(NEWLINE) + encode_utf8(old(self)@.current_word),
                    ..old(self)@.preserver
                },
                ..old(self)@
            }),
    {
        self.preserver.add_string(self.current_word.as_str());
    }

    /// Takes one input: a save command appends the current word to the word list and
    /// asks for the list to be written; an empty word is refused; any other word is to be
    /// looked up. The current word stays as it is.
    pub fn handle_input(&mut self, input: UserInput) -> (r: Action)
        ensures
            r@ == action_of(input@),
            final(self)@ == (BuddyView {
                preserver: list_after(old(self)@.preserver, old(self)@.current_word, input@),
                ..old(self)@
            }),
    {
        match input {
            UserInput::Command(Command::Save) => {
                self.do_save();
                Action::Save
            },
            UserInput::Word(w) => {
                if w.as_str().unicode_len() == 0 {
                    Action::EmptyWord
                } else {
                    Action::Lookup(w)
                }
            },
        }
    }

    /// One step of the session on a line the user typed: the line is trimmed, read by
    /// `parse_input`, and handled by `handle_input`.
    pub fn repl(&mut self, line: &str) -> (r: Action)
        ensures
            r@ == action_of(input_of(trimmed(line@))),
            final(self)@ == (BuddyView {
                preserver: list_after(old(self)@.preserver, old(self)@.current_word, input_of(trimmed(line@))),
                ..old(self)@
            }),
    {
        let t = trim_text(line);
        let input = parse_input(t.as_str());
        self.handle_input(input)
    }
}

} // verus!
