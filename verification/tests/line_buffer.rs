use shell_repl::input::UserInput;
use shell_repl::text::char_offsets;

fn typed(text: &str) -> UserInput {
    let mut buffer = UserInput::new();
    for ch in text.chars() {
        buffer.insert(ch);
    }
    buffer
}

fn check_consistent(buffer: &UserInput) {
    assert!(buffer.cursor() <= buffer.len());
    assert_eq!(buffer.len(), buffer.as_str().chars().count());
    assert_eq!(buffer.is_empty(), buffer.as_str().is_empty());
}

#[test]
fn new_buffer_is_empty() {
    let buffer = UserInput::new();
    assert_eq!(buffer.as_str(), "");
    assert_eq!(buffer.cursor(), 0);
    assert_eq!(buffer.len(), 0);
    assert!(buffer.is_empty());
}

#[test]
fn insert_appends_at_the_end() {
    let buffer = typed("ls -l");
    assert_eq!(buffer.as_str(), "ls -l");
    assert_eq!(buffer.cursor(), 5);
    assert_eq!(buffer.len(), 5);
    assert!(!buffer.is_empty());
}

#[test]
fn insert_goes_in_at_the_cursor() {
    let mut buffer = typed("ac");
    buffer.move_by(-1);
    buffer.insert('b');
    assert_eq!(buffer.as_str(), "abc");
    assert_eq!(buffer.cursor(), 2);
    buffer.move_by(-2);
    buffer.insert('>');
    assert_eq!(buffer.as_str(), ">abc");
    assert_eq!(buffer.cursor(), 1);
}

#[test]
fn insert_counts_characters_not_bytes() {
    let mut buffer = typed("h\u{e9}\u{65e5}\u{1f600}");
    assert_eq!(buffer.as_str(), "h\u{e9}\u{65e5}\u{1f600}");
    assert_eq!(buffer.as_str().len(), 10);
    assert_eq!(buffer.len(), 4);
    assert_eq!(buffer.cursor(), 4);
    buffer.move_by(-1);
    buffer.insert('x');
    assert_eq!(buffer.as_str(), "h\u{e9}\u{65e5}x\u{1f600}");
    assert_eq!(buffer.cursor(), 4);
    buffer.move_by(-3);
    buffer.insert('\u{df}');
    assert_eq!(buffer.as_str(), "h\u{df}\u{e9}\u{65e5}x\u{1f600}");
    assert_eq!(buffer.cursor(), 2);
    assert_eq!(buffer.len(), 6);
    buffer.move_by(10);
    buffer.insert('!');
    assert_eq!(buffer.as_str(), "h\u{df}\u{e9}\u{65e5}x\u{1f600}!");
    assert_eq!(buffer.cursor(), 7);
}

#[test]
fn delete_removes_the_character_under_the_cursor() {
    let mut buffer = typed("a\u{e9}b");
    buffer.move_by(-2);
    buffer.delete();
    assert_eq!(buffer.as_str(), "ab");
    assert_eq!(buffer.cursor(), 1);
    buffer.delete();
    assert_eq!(buffer.as_str(), "a");
    assert_eq!(buffer.cursor(), 1);
}

#[test]
fn delete_at_the_end_does_nothing() {
    let mut buffer = typed("abc");
    buffer.delete();
    assert_eq!(buffer.as_str(), "abc");
    assert_eq!(buffer.cursor(), 3);
    let mut empty = UserInput::new();
    empty.delete();
    assert_eq!(empty.as_str(), "");
    assert_eq!(empty.cursor(), 0);
}

#[test]
fn backspace_removes_the_character_before_the_cursor() {
    let mut buffer = typed("a\u{1f600}b");
    buffer.move_by(-1);
    buffer.backspace();
    assert_eq!(buffer.as_str(), "ab");
    assert_eq!(buffer.cursor(), 1);
    buffer.backspace();
    assert_eq!(buffer.as_str(), "b");
    assert_eq!(buffer.cursor(), 0);
}

#[test]
fn backspace_at_the_start_does_nothing() {
    let mut buffer = typed("abc");
    buffer.move_by(-3);
    buffer.backspace();
    assert_eq!(buffer.as_str(), "abc");
    assert_eq!(buffer.cursor(), 0);
    let mut empty = UserInput::new();
    empty.backspace();
    assert_eq!(empty.as_str(), "");
    assert_eq!(empty.cursor(), 0);
}

#[test]
fn move_by_moves_within_the_text() {
    let mut buffer = typed("hello");
    buffer.move_by(-2);
    assert_eq!(buffer.cursor(), 3);
    buffer.move_by(1);
    assert_eq!(buffer.cursor(), 4);
    buffer.move_by(0);
    assert_eq!(buffer.cursor(), 4);
    assert_eq!(buffer.as_str(), "hello");
}

#[test]
fn move_by_stops_at_the_start() {
    let mut buffer = typed("hello");
    buffer.move_by(-5);
    assert_eq!(buffer.cursor(), 0);
    buffer.move_by(3);
    buffer.move_by(-4);
    assert_eq!(buffer.cursor(), 0);
    buffer.move_by(-1);
    assert_eq!(buffer.cursor(), 0);
    buffer.move_by(isize::MIN);
    assert_eq!(buffer.cursor(), 0);
    buffer.move_by(5);
    buffer.move_by(isize::MIN);
    assert_eq!(buffer.cursor(), 0);
}

#[test]
fn move_by_stops_at_the_end() {
    let mut buffer = typed("hello");
    buffer.move_by(-5);
    buffer.move_by(5);
    assert_eq!(buffer.cursor(), 5);
    buffer.move_by(-2);
    buffer.move_by(3);
    assert_eq!(buffer.cursor(), 5);
    buffer.move_by(1);
    assert_eq!(buffer.cursor(), 5);
    buffer.move_by(isize::MAX);
    assert_eq!(buffer.cursor(), 5);
    buffer.move_by(-5);
    buffer.move_by(isize::MAX);
    assert_eq!(buffer.cursor(), 5);
}

#[test]
fn clear_empties_the_buffer() {
    let mut buffer = typed("echo \u{65e5}\u{672c}");
    buffer.move_by(-3);
    buffer.clear();
    assert_eq!(buffer.as_str(), "");
    assert_eq!(buffer.cursor(), 0);
    assert_eq!(buffer.len(), 0);
    assert!(buffer.is_empty());
    buffer.insert('x');
    assert_eq!(buffer.as_str(), "x");
    assert_eq!(buffer.cursor(), 1);
}

#[test]
fn insert_then_backspace_restores_the_buffer() {
    let text = "a\u{e9}\u{65e5}\u{1f600}z";
    for cursor in 0..=5usize {
        for ch in ['x', '\u{f1}', '\u{4e2d}', '\u{1f680}'] {
            let mut buffer = typed(text);
            buffer.move_by(-5);
            buffer.move_by(cursor as isize);
            buffer.insert(ch);
            assert_eq!(buffer.len(), 6);
            assert_eq!(buffer.cursor(), cursor + 1);
            buffer.backspace();
            assert_eq!(buffer.as_str(), text);
            assert_eq!(buffer.cursor(), cursor);
            assert_eq!(buffer.len(), 5);
        }
    }
}

#[test]
fn cursor_stays_in_the_text_through_any_edits() {
    let alphabet = ['a', '\u{e9}', '\u{65e5}', '\u{1f600}', ' '];
    let mut seed: u64 = 0x2545_f491_4f6c_dd1d;
    let mut buffer = UserInput::new();
    let mut model: Vec<char> = Vec::new();
    let mut cursor: usize = 0;
    for _ in 0..3000 {
        seed ^= seed << 13;
        seed ^= seed >> 7;
        seed ^= seed << 17;
        let pick = (seed >> 8) % 12;
        let arg = ((seed >> 20) % 7) as usize;
        match pick {
            0..=4 => {
                let ch = alphabet[arg % alphabet.len()];
                buffer.insert(ch);
                model.insert(cursor, ch);
                cursor += 1;
            }
            5 | 6 => {
                buffer.delete();
                if cursor < model.len() {
                    model.remove(cursor);
                }
            }
            7 | 8 => {
                buffer.backspace();
                if cursor > 0 {
                    cursor -= 1;
                    model.remove(cursor);
                }
            }
            9 => {
                buffer.move_by(-(arg as isize));
                cursor = cursor.saturating_sub(arg);
            }
            10 => {
                buffer.move_by(arg as isize);
                cursor = (cursor + arg).min(model.len());
            }
            _ => {
                if arg == 0 {
                    buffer.clear();
                    model.clear();
                    cursor = 0;
                }
            }
        }
        check_consistent(&buffer);
        assert_eq!(buffer.cursor(), cursor);
        let expected: String = model.iter().collect();
        assert_eq!(buffer.as_str(), expected);
    }
}

#[test]
fn offsets_of_plain_text_count_up() {
    assert_eq!(char_offsets(&String::from("abc")), vec![0, 1, 2]);
    assert_eq!(char_offsets(&String::new()), Vec::<usize>::new());
}

#[test]
fn offsets_follow_the_width_of_each_character() {
    let text = String::from("h\u{e9}\u{65e5}\u{1f600}!");
    assert_eq!(char_offsets(&text), vec![0, 1, 3, 6, 10]);
    let expected: Vec<usize> = text.char_indices().map(|(at, _)| at).collect();
    assert_eq!(char_offsets(&text), expected);
}
