use heh::app::{Action, Data, Nibble};
use heh::buffer::AsyncBuffer;
use heh::decoder::Encoding;
use heh::label::{Handler as LabelHandler, Notification};
use heh::screen::{ComponentLayouts, Handler as ScreenHandler, Rect};
use heh::windows::adjust_offset;
use heh::windows::editor::{hex_digit, Editor};
use heh::windows::search::{perform_search, Search, SearchDirection};
use heh::windows::Window;

fn rect() -> Rect {
    Rect { x: 0, y: 0, width: 0, height: 0 }
}

fn screen(bytes_per_line: usize, lines_per_screen: usize) -> ScreenHandler {
    ScreenHandler {
        terminal_size: rect(),
        comp_layouts: ComponentLayouts {
            line_numbers: rect(),
            hex: rect(),
            ascii: rect(),
            labels: Vec::new(),
            popup: rect(),
            bytes_per_line,
            lines_per_screen,
        },
    }
}

fn session(bytes: &[u8], offset: usize) -> Data {
    Data::new(AsyncBuffer::new(bytes.to_vec()), Encoding::Ascii, offset, 4)
}

fn contents(app: &mut Data) -> Vec<u8> {
    app.contents.block();
    app.contents.read().to_vec()
}

#[test]
fn new_session() {
    let mut app = session(b"0123456789", 6);
    assert_eq!(app.offset, 6);
    assert_eq!(app.start_address, 4);
    assert_eq!(app.nibble, Nibble::Beginning);
    assert_eq!(app.last_click, Window::Unhandled);
    assert_eq!(app.editor, Editor::Hex);
    assert!(!app.dirty);
    assert!(app.actions.is_empty());
    assert!(app.search_offsets.is_empty());
    assert_eq!(contents(&mut app), b"0123456789".to_vec());
}

#[test]
fn nibble_toggles() {
    let mut nibble = Nibble::Beginning;
    nibble.toggle();
    assert_eq!(nibble, Nibble::End);
    nibble.toggle();
    assert_eq!(nibble, Nibble::Beginning);
}

#[test]
fn delete_first_byte_and_undo() {
    let initial: Vec<u8> = (0..10).collect();
    let mut app = session(&initial, 0);
    let display = screen(4, 2);
    let mut labels = LabelHandler::new(&[], 0);
    let mut editor = Editor::Hex;
    editor.delete(&mut app, &display, &mut labels);
    assert_eq!(app.contents.len(), 9);
    assert_eq!(app.actions, vec![Action::Delete(0, 0x00)]);
    assert!(app.dirty);
    assert_eq!(contents(&mut app), vec![1, 2, 3, 4, 5, 6, 7, 8, 9]);
    assert!(app.undo());
    assert_eq!(app.contents.len(), 10);
    assert_eq!(app.offset, 0);
    assert_eq!(contents(&mut app), initial);
    assert!(!app.undo());
    assert_eq!(contents(&mut app), initial);
}

#[test]
fn delete_last_byte_and_undo() {
    let mut app = session(b"abc", 2);
    let display = screen(4, 2);
    let mut labels = LabelHandler::new(&[], 0);
    let mut editor = Editor::Ascii;
    editor.delete(&mut app, &display, &mut labels);
    assert_eq!(app.offset, 1);
    assert_eq!(contents(&mut app), b"ab".to_vec());
    assert!(app.undo());
    assert_eq!(app.offset, 2);
    assert_eq!(contents(&mut app), b"abc".to_vec());
}

#[test]
fn the_only_byte_is_not_deleted() {
    let mut app = session(b"a", 0);
    let display = screen(4, 2);
    let mut labels = LabelHandler::new(&[], 0);
    let mut editor = Editor::Ascii;
    editor.delete(&mut app, &display, &mut labels);
    editor.backspace(&mut app, &display, &mut labels);
    assert_eq!(contents(&mut app), b"a".to_vec());
    assert!(app.actions.is_empty());
    assert!(!app.dirty);
}

#[test]
fn backspace_removes_the_byte_before_the_cursor() {
    let mut app = session(b"abcd", 2);
    let display = screen(4, 2);
    let mut labels = LabelHandler::new(&[], 0);
    let mut editor = Editor::Ascii;
    editor.backspace(&mut app, &display, &mut labels);
    assert_eq!(app.offset, 1);
    assert_eq!(app.actions, vec![Action::Delete(1, b'b')]);
    assert_eq!(contents(&mut app), b"acd".to_vec());
    assert!(app.undo());
    assert_eq!(app.offset, 1);
    assert_eq!(contents(&mut app), b"abcd".to_vec());
}

#[test]
fn typed_text_is_undone_edit_by_edit() {
    let initial = b"hello world".to_vec();
    let mut app = session(&initial, 0);
    let display = screen(4, 2);
    let mut labels = LabelHandler::new(&[], 0);
    let mut editor = Editor::Ascii;
    for c in "HELLO".chars() {
        editor.char(&mut app, &display, &mut labels, c);
    }
    assert_eq!(app.offset, 5);
    assert_eq!(app.actions.len(), 5);
    assert_eq!(app.actions[0], Action::CharacterInput(0, b'h', None));
    assert_eq!(contents(&mut app), b"HELLO world".to_vec());
    for _ in 0..5 {
        assert!(app.undo());
    }
    assert_eq!(app.offset, 0);
    assert_eq!(contents(&mut app), initial);
    assert!(!app.undo());
    assert_eq!(contents(&mut app), initial);
}

#[test]
fn typing_on_the_last_byte_keeps_the_cursor_there() {
    let mut app = session(b"ab", 1);
    let display = screen(4, 2);
    let mut labels = LabelHandler::new(&[], 0);
    let mut editor = Editor::Ascii;
    editor.char(&mut app, &display, &mut labels, 'x');
    assert_eq!(app.offset, 1);
    assert_eq!(contents(&mut app), b"ax".to_vec());
}

#[test]
fn a_character_is_written_as_its_low_byte() {
    let mut app = session(b"ab", 0);
    let display = screen(4, 2);
    let mut labels = LabelHandler::new(&[], 0);
    let mut editor = Editor::Ascii;
    editor.char(&mut app, &display, &mut labels, '\u{20AC}');
    assert_eq!(contents(&mut app), vec![0xAC, b'b']);
}

#[test]
fn hexadecimal_digits_are_typed_by_the_nibble() {
    let mut app = session(&[0x12, 0x34], 0);
    let display = screen(4, 2);
    let mut labels = LabelHandler::new(&[], 0);
    let mut editor = Editor::Hex;
    editor.char(&mut app, &display, &mut labels, 'a');
    assert_eq!(app.nibble, Nibble::End);
    assert_eq!(app.offset, 0);
    assert_eq!(contents(&mut app), vec![0xA2, 0x34]);
    editor.char(&mut app, &display, &mut labels, 'F');
    assert_eq!(app.nibble, Nibble::Beginning);
    assert_eq!(app.offset, 1);
    assert_eq!(contents(&mut app), vec![0xAF, 0x34]);
    assert_eq!(
        app.actions,
        vec![
            Action::CharacterInput(0, 0x12, Some(Nibble::Beginning)),
            Action::CharacterInput(0, 0xA2, Some(Nibble::End)),
        ]
    );
    assert!(app.undo());
    assert_eq!(app.nibble, Nibble::End);
    assert_eq!(app.offset, 0);
    assert!(app.undo());
    assert_eq!(app.nibble, Nibble::Beginning);
    assert_eq!(contents(&mut app), vec![0x12, 0x34]);
}

#[test]
fn what_is_no_hexadecimal_digit_is_refused() {
    let mut app = session(&[0x12, 0x34], 0);
    let display = screen(4, 2);
    let mut labels = LabelHandler::new(&[], 0);
    let mut editor = Editor::Hex;
    editor.char(&mut app, &display, &mut labels, 'g');
    assert_eq!(labels.notification, Notification::InvalidHex('g'));
    assert_eq!(app.nibble, Nibble::Beginning);
    assert_eq!(app.offset, 0);
    assert!(!app.dirty);
    assert!(app.actions.is_empty());
    assert!(!app.undo());
    assert_eq!(contents(&mut app), vec![0x12, 0x34]);
    assert_eq!(hex_digit('g'), None);
    assert_eq!(hex_digit('7'), Some(7));
    assert_eq!(hex_digit('c'), Some(12));
    assert_eq!(hex_digit('E'), Some(14));
}

#[test]
fn cursor_moves_in_the_text_editor() {
    let mut app = session(b"0123456789", 0);
    let display = screen(4, 2);
    let mut labels = LabelHandler::new(&[], 0);
    let mut editor = Editor::Ascii;
    editor.left(&mut app, &display, &mut labels);
    assert_eq!(app.offset, 0);
    editor.right(&mut app, &display, &mut labels);
    assert_eq!(app.offset, 1);
    editor.down(&mut app, &display, &mut labels);
    assert_eq!(app.offset, 5);
    editor.down(&mut app, &display, &mut labels);
    assert_eq!(app.offset, 9);
    editor.down(&mut app, &display, &mut labels);
    assert_eq!(app.offset, 9);
    assert_eq!(app.start_address, 4);
    editor.right(&mut app, &display, &mut labels);
    assert_eq!(app.offset, 9);
    editor.home(&mut app, &display, &mut labels);
    assert_eq!(app.offset, 8);
    editor.end(&mut app, &display, &mut labels);
    assert_eq!(app.offset, 9);
    editor.up(&mut app, &display, &mut labels);
    assert_eq!(app.offset, 5);
    editor.end(&mut app, &display, &mut labels);
    assert_eq!(app.offset, 7);
    editor.page_up(&mut app, &display, &mut labels);
    assert_eq!(app.offset, 0);
    assert_eq!(app.start_address, 0);
    editor.up(&mut app, &display, &mut labels);
    assert_eq!(app.offset, 0);
    editor.page_down(&mut app, &display, &mut labels);
    assert_eq!(app.offset, 8);
    assert_eq!(app.start_address, 4);
    editor.page_down(&mut app, &display, &mut labels);
    assert_eq!(app.offset, 9);
}

#[test]
fn cursor_moves_by_the_nibble_in_the_hexadecimal_editor() {
    let mut app = session(b"0123", 1);
    let display = screen(4, 2);
    let mut labels = LabelHandler::new(&[], 0);
    let mut editor = Editor::Hex;
    editor.right(&mut app, &display, &mut labels);
    assert_eq!((app.offset, app.nibble), (1, Nibble::End));
    editor.right(&mut app, &display, &mut labels);
    assert_eq!((app.offset, app.nibble), (2, Nibble::Beginning));
    editor.left(&mut app, &display, &mut labels);
    assert_eq!((app.offset, app.nibble), (1, Nibble::End));
    editor.left(&mut app, &display, &mut labels);
    assert_eq!((app.offset, app.nibble), (1, Nibble::Beginning));
    editor.end(&mut app, &display, &mut labels);
    assert_eq!((app.offset, app.nibble), (3, Nibble::End));
    editor.home(&mut app, &display, &mut labels);
    assert_eq!((app.offset, app.nibble), (0, Nibble::Beginning));
}

#[test]
fn moving_ends_a_drag() {
    let mut app = session(b"0123", 1);
    let display = screen(4, 2);
    let mut labels = LabelHandler::new(&[], 0);
    app.last_drag = Some(3);
    app.drag_nibble = Some(Nibble::End);
    let mut editor = Editor::Ascii;
    editor.left(&mut app, &display, &mut labels);
    assert_eq!(app.last_drag, None);
    assert_eq!(app.drag_nibble, None);
}

#[test]
fn screen_follows_the_cursor() {
    let mut app = session(&[0u8; 100], 0);
    let display = screen(4, 3);
    app.offset = 11;
    adjust_offset(&mut app, &display);
    assert_eq!(app.start_address, 0);
    app.offset = 12;
    adjust_offset(&mut app, &display);
    assert_eq!(app.start_address, 4);
    app.offset = 50;
    adjust_offset(&mut app, &display);
    assert_eq!(app.start_address, 40);
    app.offset = 13;
    adjust_offset(&mut app, &display);
    assert_eq!(app.start_address, 12);
}

#[test]
fn editors_know_their_windows() {
    assert!(Editor::Ascii.is_focusing(Window::Ascii));
    assert!(!Editor::Ascii.is_focusing(Window::Hex));
    assert!(Editor::Hex.is_focusing(Window::Hex));
    assert!(!Editor::Hex.is_focusing(Window::Search));
}

#[test]
fn search_walks_through_the_matches() {
    let mut app = session(b"abcabcabc", 0);
    let display = screen(4, 2);
    let mut labels = LabelHandler::new(&[], 0);
    let mut popup = Search::new();
    for c in "abc".chars() {
        popup.char(c);
    }
    popup.enter(&mut app, &display, &mut labels);
    assert_eq!(app.search_term, "abc");
    assert_eq!(app.search_offsets, vec![0, 3, 6]);
    assert_eq!(app.offset, 3);
    assert_eq!(labels.notification, Notification::SearchMatch { position: 2, total: 3 });
    perform_search(&mut app, &display, &mut labels, &SearchDirection::Forward);
    assert_eq!(app.offset, 6);
    perform_search(&mut app, &display, &mut labels, &SearchDirection::Forward);
    assert_eq!(app.offset, 0);
    assert_eq!(labels.notification, Notification::SearchMatch { position: 1, total: 3 });
    perform_search(&mut app, &display, &mut labels, &SearchDirection::Backward);
    assert_eq!(app.offset, 6);
    let mut editor = Editor::Hex;
    editor.enter(&mut app, &display, &mut labels);
    assert_eq!(app.offset, 0);
}

#[test]
fn search_after_an_edit_sees_the_new_contents() {
    let mut app = session(b"abcabcabc", 0);
    let display = screen(4, 2);
    let mut labels = LabelHandler::new(&[], 0);
    let mut popup = Search::new();
    for c in "abc".chars() {
        popup.char(c);
    }
    popup.enter(&mut app, &display, &mut labels);
    assert_eq!(app.search_offsets, vec![0, 3, 6]);
    // remove the "a" at offset 3
    let mut editor = Editor::Ascii;
    editor.delete(&mut app, &display, &mut labels);
    assert!(app.search_stale);
    perform_search(&mut app, &display, &mut labels, &SearchDirection::Forward);
    assert_eq!(app.search_offsets, vec![0, 5]);
    assert_eq!(app.offset, 5);
    // the saved state of the file does not keep the index from going stale
    app.dirty = false;
    app.offset = 0;
    editor.char(&mut app, &display, &mut labels, 'x');
    perform_search(&mut app, &display, &mut labels, &SearchDirection::Forward);
    assert_eq!(app.search_offsets, vec![5]);
    assert!(app.undo());
    perform_search(&mut app, &display, &mut labels, &SearchDirection::Forward);
    assert_eq!(app.search_offsets, vec![0, 5]);
}

#[test]
fn search_for_what_is_not_there() {
    let mut app = session(b"abcabcabc", 4);
    let display = screen(4, 2);
    let mut labels = LabelHandler::new(&[], 0);
    let mut popup = Search::new();
    popup.enter(&mut app, &display, &mut labels);
    assert_eq!(labels.notification, Notification::EmptySearchQuery);
    for c in "xyz".chars() {
        popup.char(c);
    }
    popup.enter(&mut app, &display, &mut labels);
    assert_eq!(labels.notification, Notification::QueryNotFound);
    assert_eq!(app.offset, 4);
    assert!(app.search_offsets.is_empty());
}

#[test]
fn search_without_a_term_does_nothing() {
    let mut app = session(b"abcabcabc", 4);
    let display = screen(4, 2);
    let mut labels = LabelHandler::new(&[], 0);
    perform_search(&mut app, &display, &mut labels, &SearchDirection::Forward);
    assert_eq!(app.offset, 4);
    assert_eq!(labels.notification, Notification::Nothing);
}

#[test]
fn search_for_hexadecimal_bytes() {
    let mut app = session(&[0x00, 0xDE, 0xAD, 0x00, 0xDE, 0xAD], 0);
    let display = screen(4, 2);
    let mut labels = LabelHandler::new(&[], 0);
    let mut popup = Search::new();
    for c in "de AD".chars() {
        popup.char(c);
    }
    popup.enter(&mut app, &display, &mut labels);
    assert_eq!(app.search_offsets, vec![1, 4]);
    assert_eq!(app.offset, 1);
}

#[test]
fn record_puts_an_action_on_the_log() {
    let mut app = session(b"abc", 1);
    app.record(Action::CharacterInput(1, b'b', None));
    app.contents.set(1, b'x');
    assert_eq!(contents(&mut app), b"axc".to_vec());
    assert!(app.undo());
    assert_eq!(contents(&mut app), b"abc".to_vec());
    assert!(!app.undo());
}

#[test]
fn next_match_is_found_from_any_offset() {
    let mut app = session(b"abcabcabc", 0);
    assert_eq!(app.find_next(0, &SearchDirection::Forward), None);
    app.set_query(String::from("abc"));
    assert!(app.search_stale);
    assert_eq!(app.find_next(0, &SearchDirection::Forward), Some(3));
    assert!(!app.search_stale);
    assert_eq!(app.search_offsets, vec![0, 3, 6]);
    assert_eq!(app.find_next(0, &SearchDirection::Backward), Some(6));
    assert_eq!(app.find_next(7, &SearchDirection::Forward), Some(0));
    assert_eq!(app.find_next(4, &SearchDirection::Backward), Some(3));
    assert_eq!(app.offset, 0);
    app.set_query(String::from("zz"));
    assert_eq!(app.find_next(0, &SearchDirection::Forward), None);
    assert!(app.search_offsets.is_empty());
}

#[test]
fn index_is_built_anew_only_when_it_is_stale() {
    let mut app = session(b"abcabcabc", 0);
    app.set_query(String::from("abc"));
    app.reindex_search();
    assert_eq!(app.search_offsets, vec![0, 3, 6]);
    app.contents.block();
    assert_eq!(app.find_next(0, &SearchDirection::Forward), Some(3));
}

#[test]
fn a_refused_key_between_edits_leaves_no_record() {
    let initial = vec![0x12, 0x34, 0x56];
    let mut app = session(&initial, 0);
    let display = screen(4, 2);
    let mut labels = LabelHandler::new(&[], 0);
    let mut editor = Editor::Hex;
    editor.char(&mut app, &display, &mut labels, 'a');
    assert_eq!(app.actions.len(), 1);
    editor.char(&mut app, &display, &mut labels, 'z');
    assert_eq!(labels.notification, Notification::InvalidHex('z'));
    assert_eq!(app.actions.len(), 1);
    assert_eq!((app.offset, app.nibble), (0, Nibble::End));
    editor.char(&mut app, &display, &mut labels, 'b');
    editor.char(&mut app, &display, &mut labels, ' ');
    editor.char(&mut app, &display, &mut labels, 'c');
    assert_eq!(app.actions.len(), 3);
    assert_eq!(contents(&mut app), vec![0xab, 0xc4, 0x56]);
    for _ in 0..3 {
        assert!(app.undo());
    }
    assert_eq!(contents(&mut app), initial);
    assert!(!app.undo());
    assert_eq!(contents(&mut app), initial);
}
