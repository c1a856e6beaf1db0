use werk_cli::keys::{
    continue_utf8_char, read_escape_command, read_utf8_char, CharStep, EscapeState, EscapeStep,
    LineStep,
};
use werk_cli::line_edit::{redraw_editable_line, EditableLine, LineEditCommand, TerminalLineReader};

fn line_of(text: &str) -> EditableLine {
    let mut line = EditableLine::default();
    line.replace(text);
    line
}

#[test]
fn editable_line_inserts_at_cursor() {
    let mut line = EditableLine::default();
    for ch in "helo".chars() {
        line.insert(ch);
    }

    assert!(line.move_left());
    line.insert('l');

    assert_eq!(line.as_string(), "hello");
    assert_eq!(line.cursor, 4);
}

#[test]
fn editable_line_history_restores_draft() {
    let reader = TerminalLineReader {
        history: vec!["first".to_string(), "second".to_string()],
    };
    let mut line = EditableLine::default();
    let mut draft = String::new();
    let mut history_index = None;
    line.replace("draft");

    assert!(reader.apply_command(
        LineEditCommand::HistoryPrevious,
        &mut line,
        &mut draft,
        &mut history_index,
    ));
    assert_eq!(line.as_string(), "second");

    assert!(reader.apply_command(
        LineEditCommand::HistoryPrevious,
        &mut line,
        &mut draft,
        &mut history_index,
    ));
    assert_eq!(line.as_string(), "first");

    assert!(reader.apply_command(
        LineEditCommand::HistoryNext,
        &mut line,
        &mut draft,
        &mut history_index,
    ));
    assert_eq!(line.as_string(), "second");

    assert!(reader.apply_command(
        LineEditCommand::HistoryNext,
        &mut line,
        &mut draft,
        &mut history_index,
    ));
    assert_eq!(line.as_string(), "draft");
}

#[test]
fn backspace_and_delete_undo_an_insertion() {
    let mut line = line_of("ac");
    assert!(line.move_left());
    line.insert('b');
    assert_eq!(line.as_string(), "abc");
    assert!(line.backspace());
    assert_eq!(line.as_string(), "ac");
    assert_eq!(line.cursor, 1);
    line.insert('b');
    assert!(line.move_left());
    assert!(line.delete());
    assert_eq!(line.as_string(), "ac");
    assert_eq!(line.cursor, 1);
}

#[test]
fn words_are_passed_and_deleted_as_a_whole() {
    let mut line = line_of("one two  three");
    assert!(line.move_word_left());
    assert_eq!(line.cursor, 9);
    assert!(line.move_word_left());
    assert_eq!(line.cursor, 4);
    assert!(line.move_end());
    assert!(line.delete_word_before_cursor());
    assert_eq!(line.as_string(), "one two  ");
    assert!(line.move_home());
    assert!(!line.move_left());
    assert!(!line.backspace());
    assert!(line.delete_to_end());
    assert!(line.is_empty());
    assert!(!line.clear());
}

#[test]
fn history_skips_blanks_and_repetitions_and_stays_bounded() {
    let mut reader = TerminalLineReader::default();
    reader.push_history("   ");
    assert!(reader.history.is_empty());
    reader.push_history("again");
    reader.push_history("again");
    assert_eq!(reader.history, vec!["again".to_string()]);
    for n in 0..1000 {
        reader.push_history(&format!("line {n}"));
    }
    assert_eq!(reader.history.len(), 200);
    assert_eq!(reader.history.last().unwrap(), "line 999");
}

#[test]
fn redrawing_puts_the_cursor_back() {
    let mut line = line_of("hello");
    assert!(line.move_left());
    assert!(line.move_left());
    let drawn = redraw_editable_line("you> ", &line);
    assert!(drawn.contains("you> hello"));
    assert!(drawn.ends_with("\x1b[2D"));
}

#[test]
fn bytes_become_characters() {
    assert!(matches!(read_utf8_char(b'a'), CharStep::Done(Some('a'))));
    let bytes = "é".as_bytes();
    let CharStep::More(first) = read_utf8_char(bytes[0]) else {
        panic!("a second byte is missing")
    };
    assert!(matches!(
        continue_utf8_char(first, Some(bytes[1])),
        CharStep::Done(Some('é'))
    ));
}

#[test]
fn arrow_keys_are_commands() {
    let EscapeStep::More(state) = read_escape_command(EscapeState::Start, Some(b'[')) else {
        panic!("the sequence goes on")
    };
    let step = read_escape_command(state, Some(b'A'));
    assert!(matches!(
        step,
        EscapeStep::Done(LineEditCommand::HistoryPrevious)
    ));
}

#[test]
fn enter_hands_the_line_over() {
    let mut reader = TerminalLineReader::default();
    let mut line = line_of("hi");
    let step = reader.read_line(&mut line, b'\r');
    let LineStep::Entered(text) = step else {
        panic!("the line was not entered")
    };
    assert_eq!(text, "hi");
    assert_eq!(reader.history, vec!["hi".to_string()]);
}

#[test]
fn typed_characters_of_every_width_are_read() {
    for expected in ['a', 'é', '€', '😀', '\u{7ff}', '\u{ffff}', '\u{10ffff}'] {
        let mut buffer = [0u8; 4];
        let bytes = expected.encode_utf8(&mut buffer).as_bytes();
        let mut step = read_utf8_char(bytes[0]);
        for byte in &bytes[1..] {
            let CharStep::More(so_far) = step else {
                panic!("{expected} ended early")
            };
            step = continue_utf8_char(so_far, Some(*byte));
        }
        assert!(matches!(step, CharStep::Done(Some(c)) if c == expected));
    }
    let CharStep::More(bytes) = read_utf8_char(0xe2) else {
        panic!("more bytes follow")
    };
    assert!(matches!(
        continue_utf8_char(bytes, None),
        CharStep::Done(None)
    ));
    assert!(matches!(read_utf8_char(0xff), CharStep::Done(None)));
}
