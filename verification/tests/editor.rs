use hecto::editor::{draw_rows, draw_welcome_message, VERSION};
use hecto::{Command, Editor, Key, Position};

fn line(text: &str) -> Command {
    Command::PrintLine(String::from(text))
}

#[test]
fn a_new_editor_is_not_quitting() {
    let editor = Editor::default();
    assert!(!editor.should_quit());
    assert_eq!(editor.cursor_position(), Position { x: 0, y: 0 });
}

#[test]
fn ctrl_f_quits() {
    let mut editor = Editor::default();
    editor.process_keypress(Key::Ctrl('f'));
    assert!(editor.should_quit());
    editor.process_keypress(Key::Char('a'));
    assert!(editor.should_quit());
}

#[test]
fn no_other_key_quits() {
    let keys = [
        Key::Char('f'),
        Key::Alt('f'),
        Key::Ctrl('F'),
        Key::Ctrl('q'),
        Key::F(1),
        Key::Esc,
        Key::Null,
        Key::Backspace,
        Key::Delete,
        Key::Insert,
        Key::Left,
        Key::Right,
        Key::Up,
        Key::Down,
        Key::Home,
        Key::End,
        Key::PageUp,
        Key::PageDown,
        Key::BackTab,
    ];
    let mut editor = Editor::default();
    for key in keys {
        editor.process_keypress(key);
        assert!(!editor.should_quit());
        assert_eq!(editor.cursor_position(), Position { x: 0, y: 0 });
    }
}

#[test]
fn the_welcome_line_is_moved_towards_the_middle() {
    assert_eq!(VERSION, "0.1.0");
    let expected = format!("~{}Hecto editor -- version 0.1.0", " ".repeat(24));
    assert_eq!(draw_welcome_message(80), expected);
    assert_eq!(draw_welcome_message(33), "~ Hecto editor -- version 0.1.0");
    assert_eq!(draw_welcome_message(32), "~Hecto editor -- version 0.1.0");
    assert_eq!(draw_welcome_message(31), "~Hecto editor -- version 0.1.0");
}

#[test]
fn the_welcome_line_is_cut_off_at_the_width() {
    assert_eq!(draw_welcome_message(30), "~Hecto editor -- version 0.1.0");
    assert_eq!(draw_welcome_message(29), "~Hecto editor -- version 0.1.");
    assert_eq!(draw_welcome_message(10), "~Hecto edi");
    assert_eq!(draw_welcome_message(1), "~");
    assert_eq!(draw_welcome_message(0), "");
}

#[test]
fn rows_are_drawn_but_for_the_last() {
    let mut commands = vec![Command::Flush];
    draw_rows(&mut commands, 10, 4);
    assert_eq!(
        commands,
        vec![
            Command::Flush,
            Command::ClearCurrentLine,
            line("~"),
            Command::ClearCurrentLine,
            line("~Hecto edi"),
            Command::ClearCurrentLine,
            line("~"),
        ]
    );
    let mut none = Vec::new();
    draw_rows(&mut none, 10, 1);
    assert_eq!(none, Vec::new());
}

#[test]
fn the_screen_of_a_running_editor() {
    let editor = Editor::default();
    assert_eq!(
        editor.refresh_screen(80, 3),
        vec![
            Command::CursorHide,
            Command::ClearScreen,
            Command::CursorPosition(Position { x: 0, y: 0 }),
            Command::ClearCurrentLine,
            line("~"),
            Command::ClearCurrentLine,
            line(&format!("~{}Hecto editor -- version 0.1.0", " ".repeat(24))),
            Command::CursorPosition(Position { x: 0, y: 0 }),
            Command::CursorShow,
            Command::Flush,
        ]
    );
}

#[test]
fn the_screen_of_an_editor_that_quits() {
    let mut editor = Editor::default();
    editor.process_keypress(Key::Ctrl('f'));
    let goodbye = vec![
        Command::CursorHide,
        Command::ClearScreen,
        Command::CursorPosition(Position { x: 0, y: 0 }),
        Command::ClearScreen,
        line("Goodbye."),
        Command::CursorShow,
        Command::Flush,
    ];
    assert_eq!(editor.refresh_screen(80, 24), goodbye);
    assert_eq!(editor.refresh_screen(80, 0), goodbye);
}

#[test]
fn a_turn_takes_the_key_and_draws() {
    let mut editor = Editor::default();
    let first = editor.run(None, 20, 2);
    assert!(!editor.should_quit());
    assert_eq!(
        first,
        vec![
            Command::CursorHide,
            Command::ClearScreen,
            Command::CursorPosition(Position { x: 0, y: 0 }),
            Command::ClearCurrentLine,
            line("~Hecto editor -- ver"),
            Command::CursorPosition(Position { x: 0, y: 0 }),
            Command::CursorShow,
            Command::Flush,
        ]
    );
    let second = editor.run(Some(Key::Char('x')), 20, 2);
    assert!(!editor.should_quit());
    assert_eq!(second, first);
    let last = editor.run(Some(Key::Ctrl('f')), 20, 2);
    assert!(editor.should_quit());
    assert_eq!(
        last,
        vec![
            Command::CursorHide,
            Command::ClearScreen,
            Command::CursorPosition(Position { x: 0, y: 0 }),
            Command::ClearScreen,
            line("Goodbye."),
            Command::CursorShow,
            Command::Flush,
        ]
    );
}

#[test]
fn a_turn_that_quits_needs_no_lines() {
    let mut editor = Editor::default();
    let last = editor.run(Some(Key::Ctrl('f')), 80, 0);
    assert!(editor.should_quit());
    assert_eq!(
        last,
        vec![
            Command::CursorHide,
            Command::ClearScreen,
            Command::CursorPosition(Position { x: 0, y: 0 }),
            Command::ClearScreen,
            line("Goodbye."),
            Command::CursorShow,
            Command::Flush,
        ]
    );
}
