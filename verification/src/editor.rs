//! The editor between two key presses: what it keeps, what a key does to it, and what
//! it has the terminal draw.
//!
//! Nothing here touches a terminal. A turn of the editor takes the key that was read
//! and gives back the commands that bring the screen up to date; reading keys and
//! carrying out commands is left to the program around it.

use vstd::prelude::*;
use vstd::string::{StrSliceExecFns, StringExecFns};

verus! {

/// The version of the editor, as its welcome line shows it.
pub const VERSION: &'static str = "0.1.0";

/// A place on the screen or in a text: column `x` of line `y`, both counted from 0.
#[derive(Clone, Copy, Debug, PartialEq, Eq, Structural)]
pub struct Position {
    pub x: usize,
    pub y: usize,
}

/// A key press, as a terminal reports it.
#[derive(Clone, Copy, Debug, PartialEq, Eq, Structural)]
pub enum Key {
    Backspace,
    Left,
    Right,
    Up,
    Down,
    Home,
    End,
    PageUp,
    PageDown,
    BackTab,
    Delete,
    Insert,
    /// A function key, by its number.
    F(u8),
    /// A character by itself.
    Char(char),
    /// A character together with Alt.
    Alt(char),
    /// A character together with Ctrl.
    Ctrl(char),
    Null,
    Esc,
}

/// One thing for the terminal to do.
#[derive(Debug, PartialEq, Eq)]
pub enum Command {
    CursorHide,
    CursorShow,
    ClearScreen,
    ClearCurrentLine,
    /// Put the cursor at a place.
    CursorPosition(Position),
    /// Write a text, then go to the start of the next line.
    PrintLine(String),
    /// Send what was written so far to the screen.
    Flush,
}

/// A command, with its text as a sequence of scalar values.
pub enum CommandView {
    CursorHide,
    CursorShow,
    ClearScreen,
    ClearCurrentLine,
    CursorPosition(Position),
    PrintLine(Seq<char>),
    Flush,
}

impl DeepView for Command {
    type V = CommandView;

    open spec fn deep_view(&self) -> CommandView {
        match self {
            Command::CursorHide => CommandView::CursorHide,
            Command::CursorShow => CommandView::CursorShow,
            Command::ClearScreen => CommandView::ClearScreen,
            Command::ClearCurrentLine => CommandView::ClearCurrentLine,
            Command::CursorPosition(position) => CommandView::CursorPosition(*position),
            Command::PrintLine(text) => CommandView::PrintLine(text@),
            Command::Flush => CommandView::Flush,
        }
    }
}

/// The name and version of the editor.
pub open spec fn title() -> Seq<char> {
    "Hecto editor -- version "@ + VERSION@
}

/// The line that welcomes the user on a screen `width` columns wide: a tilde, then
/// the title, moved towards the middle by spaces as far as there is room, and cut
/// off at the width of the screen.
pub open spec fn welcome_text(width: int) -> Seq<char> {
    let room = if width > title().len() {
        width - title().len()
    } else {
        0
    };
    let padding = room / 2;
    let spaces = if padding > 1 {
        padding - 1
    } else {
        0
    };
    let full = "~"@ + Seq::new(spaces as nat, |i: int| ' ') + title();
    if full.len() > width {
        full.take(width)
    } else {
        full
    }
}

/// What line `row` of an empty screen shows: the welcome line a third of the way
/// down, and a tilde everywhere else.
pub open spec fn row_text(width: int, height: int, row: int) -> Seq<char> {
    if row == height / 3 {
        welcome_text(width)
    } else {
        "~"@
    }
}

/// The commands that draw the first `count` lines of an empty screen: each line is
/// cleared and then written.
pub open spec fn rows(width: int, height: int, count: int) -> Seq<CommandView>
    decreases count,
{
    if count <= 0 {
        Seq::empty()
    } else {
        rows(width, height, count - 1) + seq![
            CommandView::ClearCurrentLine,
            CommandView::PrintLine(row_text(width, height, count - 1)),
        ]
    }
}

/// The commands that bring a screen of `width` by `height` up to date.
///
/// The cursor is hidden, the screen cleared and the cursor put in the corner. An
/// editor that is about to quit then clears the screen once more and says goodbye.
/// Any other draws all lines but the last and puts the cursor in its place. At the
/// end the cursor is shown again, and all of it is sent to the screen.
pub open spec fn screen(should_quit: bool, cursor: Position, width: int, height: int) -> Seq<
    CommandView,
> {
    let body = if should_quit {
        seq![CommandView::ClearScreen, CommandView::PrintLine("Goodbye."@)]
    } else {
        rows(width, height, height - 1) + seq![CommandView::CursorPosition(cursor)]
    };
    seq![
        CommandView::CursorHide,
        CommandView::ClearScreen,
        CommandView::CursorPosition(Position { x: 0, y: 0 }),
    ] + body + seq![CommandView::CursorShow, CommandView::Flush]
}

/// Whether `key` is the one that ends the editor: Ctrl with `f`.
pub open spec fn quits(key: Key) -> bool {
    key == Key::Ctrl('f')
}

/// What the editor keeps between two key presses.
pub struct Editor {
    should_quit: bool,
    cursor_position: Position,
}

impl Editor {
    /// Whether the editor is about to quit.
    pub closed spec fn quitting(&self) -> bool {
        self.should_quit
    }

    /// Where the cursor stands.
    pub closed spec fn cursor(&self) -> Position {
        self.cursor_position
    }

    /// An editor that has just started: it is not about to quit, and its cursor
    /// stands in the corner.
    pub fn default() -> (editor: Editor)
        ensures
            !editor.quitting(),
            editor.cursor() == (Position { x: 0, y: 0 }),
    {
        Editor { should_quit: false, cursor_position: Position { x: 0, y: 0 } }
    }

    /// Whether the editor is about to quit.
    pub fn should_quit(&self) -> (quitting: bool)
        ensures
            quitting == self.quitting(),
    {
        self.should_quit
    }

    /// Where the cursor stands.
    pub fn cursor_position(&self) -> (cursor: Position)
        ensures
            cursor == self.cursor(),
    {
        self.cursor_position
    }

    /// Takes a key press: Ctrl with `f` makes the editor quit, and no other key does
    /// anything.
    pub fn process_keypress(&mut self, pressed_key: Key)
        ensures
            final(self).quitting() == (old(self).quitting() || quits(pressed_key)),
            final(self).cursor() == old(self).cursor(),
    {
        match pressed_key {
            Key::Ctrl(c) => {
                if c == 'f' {
                    self.should_quit = true;
                }
            },
            _ => (),
        }
    }

    /// The commands that bring a screen of `width` by `height` up to date.
    pub fn refresh_screen(&self, width: u16, height: u16) -> (commands: Vec<Command>)
        requires
            !self.quitting() ==> height >= 1,
        ensures
            commands.deep_view() == screen(
                self.quitting(),
                self.cursor(),
                width as int,
                height as int,
            ),
    {
        let mut commands: Vec<Command> = Vec::new();
        commands.push(Command::CursorHide);
        commands.push(Command::ClearScreen);
        commands.push(Command::CursorPosition(Position { x: 0, y: 0 }));
        let ghost head = seq![
            CommandView::CursorHide,
            CommandView::ClearScreen,
            CommandView::CursorPosition(Position { x: 0, y: 0 }),
        ];
        assert(commands.deep_view() =~= head);
        if self.should_quit {
            commands.push(Command::ClearScreen);
            commands.push(Command::PrintLine(String::from_str("Goodbye.")));
            assert(commands.deep_view() =~= head + seq![
                CommandView::ClearScreen,
                CommandView::PrintLine("Goodbye."@),
            ]);
        } else {
            draw_rows(&mut commands, width, height);
            let ghost drawn = commands.deep_view();
            commands.push(Command::CursorPosition(self.cursor_position));
            assert(commands.deep_view() =~= drawn + seq![
                CommandView::CursorPosition(self.cursor()),
            ]);
        }
        let ghost body = commands.deep_view();
        commands.push(Command::CursorShow);
        commands.push(Command::Flush);
        assert(commands.deep_view() =~= body + seq![CommandView::CursorShow, CommandView::Flush]);
        commands
    }

    /// One turn of the editor. The key that was read, if one was, is taken; then the
    /// screen is brought up to date. After a turn that leaves the editor about to
    /// quit, there is nothing more to do. Any other turn draws the lines of the
    /// screen, of which there must be at least one.
    pub fn run(&mut self, pressed_key: Option<Key>, width: u16, height: u16) -> (commands: Vec<
        Command,
    >)
        requires
            !(old(self).quitting() || (pressed_key matches Some(key) && quits(key))) ==> height
                >= 1,
        ensures
            final(self).quitting() == (old(self).quitting() || (pressed_key matches Some(key)
                && quits(key))),
            final(self).cursor() == old(self).cursor(),
            commands.deep_view() == screen(
                final(self).quitting(),
                final(self).cursor(),
                width as int,
                height as int,
            ),
    {
        match pressed_key {
            Some(key) => self.process_keypress(key),
            None => (),
        }
        self.refresh_screen(width, height)
    }
}

/// The line that welcomes the user on a screen `width` columns wide.
pub fn draw_welcome_message(width: u16) -> (line: String)
    ensures
        line@ == welcome_text(width as int),
{
    let mut welcome_message = String::from_str("Hecto editor -- version ");
    welcome_message.append(VERSION);
    let width = width as usize;
    let len = welcome_message.as_str().unicode_len();
    let room = if width > len {
        width - len
    } else {
        0
    };
    let padding = room / 2;
    let spaces = if padding > 1 {
        padding - 1
    } else {
        0
    };
    let mut line = String::from_str("~");
    let mut count: usize = 0;
    while count < spaces
        invariant
            count <= spaces,
            line@ == "~"@ + Seq::new(count as nat, |i: int| ' '),
        decreases spaces - count,
    {
        line.push(' ');
        count += 1;
        assert(line@ =~= "~"@ + Seq::new(count as nat, |i: int| ' '));
    }
    line.append(welcome_message.as_str());
    if line.as_str().unicode_len() > width {
        line.as_str().substring_char(0, width).to_owned()
    } else {
        line
    }
}

/// Adds to `commands` those that draw all lines of an empty screen but the last.
pub fn draw_rows(commands: &mut Vec<Command>, width: u16, height: u16)
    requires
        height >= 1,
    ensures
        final(commands).deep_view() == old(commands).deep_view() + rows(
            width as int,
            height as int,
            height - 1,
        ),
{
    let ghost before = commands.deep_view();
    let mut row: u16 = 0;
    assert(commands.deep_view() =~= before + rows(width as int, height as int, 0));
    while row < height - 1
        invariant
            height >= 1,
            row <= height - 1,
            commands.deep_view() == before + rows(width as int, height as int, row as int),
        decreases height - 1 - row,
    {
        let ghost drawn = commands.deep_view();
        commands.push(Command::ClearCurrentLine);
        if row == height / 3 {
            commands.push(Command::PrintLine(draw_welcome_message(width)));
        } else {
            commands.push(Command::PrintLine(String::from_str("~")));
        }
        assert(commands.deep_view() =~= drawn + seq![
            CommandView::ClearCurrentLine,
            CommandView::PrintLine(row_text(width as int, height as int, row as int)),
        ]);
        row += 1;
    }
}

} // verus!
