//! The two editors, which show the contents as hexadecimal digits and as text.

use crate::app::{Action, Data, DataView, Nibble};
use crate::label::{Handler as LabelHandler, Notification};
use crate::screen::{ComponentLayouts, Handler as ScreenHandler};
use crate::windows::search::{perform_search, SearchDirection};
use crate::windows::{adjust_offset, Window};
use vstd::prelude::*;

verus! {

/// The editor that has the focus.
#[derive(PartialEq, Eq, Clone, Copy, Debug, Structural)]
pub enum Editor {
    Ascii,
    Hex,
}

/// The number that a hexadecimal digit stands for, in either case.
pub open spec fn hex_digit_of(c: char) -> Option<u8> {
    if '0' <= c <= '9' {
        Some((c as u32 - '0' as u32) as u8)
    } else if 'a' <= c <= 'f' {
        Some((c as u32 - 'a' as u32 + 10) as u8)
    } else if 'A' <= c <= 'F' {
        Some((c as u32 - 'A' as u32 + 10) as u8)
    } else {
        None
    }
}

/// Reads a character as a hexadecimal digit.
pub fn hex_digit(c: char) -> (digit: Option<u8>)
    ensures
        digit == hex_digit_of(c),
{
    let code = c as u32;
    if '0' <= c && c <= '9' {
        Some((code - 0x30) as u8)
    } else if 'a' <= c && c <= 'f' {
        Some((code - 0x61 + 10) as u8)
    } else if 'A' <= c && c <= 'F' {
        Some((code - 0x41 + 10) as u8)
    } else {
        None
    }
}

/// The byte that a character is written as in the text editor: the low eight
/// bits of its code.
pub open spec fn byte_of(c: char) -> u8 {
    (c as u32 % 256) as u8
}

/// The byte with one of its halves replaced by a hexadecimal digit.
pub open spec fn with_nibble(byte: u8, nibble: Nibble, digit: u8) -> u8 {
    match nibble {
        Nibble::Beginning => (digit * 16 + byte % 16) as u8,
        Nibble::End => (byte / 16 * 16 + digit) as u8,
    }
}

impl DataView {
    /// The state with no drag under way.
    pub open spec fn without_drag(self) -> DataView {
        DataView { last_drag: None, drag_nibble: None, ..self }
    }

    /// The offset before the cursor, or the cursor itself at the start.
    pub open spec fn back(self) -> usize {
        if self.offset > 0 {
            (self.offset - 1) as usize
        } else {
            0
        }
    }

    /// The offset `distance` bytes behind the cursor, or the last offset where
    /// the contents end before that.
    pub open spec fn ahead(self, distance: int) -> usize {
        if self.offset + distance < self.contents.len() {
            (self.offset + distance) as usize
        } else {
            (self.contents.len() - 1) as usize
        }
    }

    /// The state with the byte at `at` removed and the removal recorded. The
    /// cursor comes to lie at `cursor`.
    pub open spec fn with_removed(self, at: usize, cursor: usize, layout: ComponentLayouts) -> DataView {
        (DataView {
            contents: self.contents.remove(at as int),
            actions: self.actions.push(Action::Delete(at, self.contents[at as int])),
            dirty: true,
            search_stale: true,
            ..self
        }).moved_to(cursor, layout)
    }

    /// The state with an overwriting of the byte under the cursor recorded.
    pub open spec fn with_record(self, nibble: Option<Nibble>) -> DataView {
        DataView {
            actions: self.actions.push(
                Action::CharacterInput(self.offset, self.contents[self.offset as int], nibble),
            ),
            ..self
        }
    }

    /// The state with the byte under the cursor overwritten.
    pub open spec fn with_byte(self, byte: u8) -> DataView {
        DataView {
            contents: self.contents.update(self.offset as int, byte),
            dirty: true,
            search_stale: true,
            ..self
        }
    }
}

/// Every edit leaves the index stale: the overwriting of a byte, the removal
/// of one, and the undoing of either.
pub proof fn lemma_edits_mark_index_stale(
    app: DataView,
    byte: u8,
    at: usize,
    cursor: usize,
    layout: ComponentLayouts,
)
    ensures
        app.with_byte(byte).search_stale,
        app.with_removed(at, cursor, layout).search_stale,
        app.actions.len() > 0 ==> app.undone().search_stale,
{
}

/// Every edit that an editor makes puts exactly one record on the undo log,
/// and the record is that of the edit: of the byte that a typed character
/// overwrote, or of the byte that was removed. The character is one that the
/// editor takes: any in the text editor, a hexadecimal digit in the
/// hexadecimal editor.
pub proof fn lemma_edits_are_recorded(editor: Editor, app: DataView, layout: ComponentLayouts, c: char)
    requires
        app.wf(),
        editor == Editor::Hex ==> hex_digit_of(c) is Some,
    ensures
        ({
            let after = editor.after_char(app, layout, c);
            &&& after.actions.drop_last() == app.actions
            &&& after.actions.len() == app.actions.len() + 1
            &&& crate::app::records(app.contents, after.contents, after.actions.last())
        }),
        app.contents.len() > 1 ==> ({
            let after = editor.after_delete(app, layout);
            &&& after.actions.drop_last() == app.actions
            &&& after.actions.len() == app.actions.len() + 1
            &&& crate::app::records(app.contents, after.contents, after.actions.last())
        }),
        app.offset > 0 ==> ({
            let after = editor.after_backspace(app, layout);
            &&& after.actions.drop_last() == app.actions
            &&& after.actions.len() == app.actions.len() + 1
            &&& crate::app::records(app.contents, after.contents, after.actions.last())
        }),
{
    let typed = editor.after_char(app, layout, c);
    assert(typed.actions.drop_last() =~= app.actions);
    assert(typed.contents =~= app.contents.update(
        app.offset as int,
        typed.contents[app.offset as int],
    ));
    if app.contents.len() > 1 {
        assert(editor.after_delete(app, layout).actions.drop_last() =~= app.actions);
    }
    if app.offset > 0 {
        assert(editor.after_backspace(app, layout).actions.drop_last() =~= app.actions);
    }
}

/// Undoing right after an edit of an editor gives back the contents and the
/// undo log from before the edit.
pub proof fn lemma_undo_takes_back(editor: Editor, app: DataView, layout: ComponentLayouts, c: char)
    requires
        app.wf(),
        editor == Editor::Hex ==> hex_digit_of(c) is Some,
    ensures
        editor.after_char(app, layout, c).undone().contents == app.contents,
        editor.after_char(app, layout, c).undone().actions == app.actions,
        app.contents.len() > 1 ==> editor.after_delete(app, layout).undone().contents
            == app.contents && editor.after_delete(app, layout).undone().actions == app.actions,
        app.offset > 0 ==> editor.after_backspace(app, layout).undone().contents == app.contents
            && editor.after_backspace(app, layout).undone().actions == app.actions,
{
    lemma_edits_are_recorded(editor, app, layout, c);
    let typed = editor.after_char(app, layout, c);
    assert(typed.undone().contents =~= app.contents);
    if app.contents.len() > 1 {
        let deleted = editor.after_delete(app, layout);
        assert(deleted.undone().contents =~= app.contents);
    }
    if app.offset > 0 {
        let removed = editor.after_backspace(app, layout);
        assert(removed.undone().contents =~= app.contents);
    }
}

/// A character that the hexadecimal editor refuses leaves the contents, the
/// cursor and the undo log as they are; it only ends a drag.
pub proof fn lemma_refused_char_changes_nothing(app: DataView, layout: ComponentLayouts, c: char)
    requires
        hex_digit_of(c) is None,
    ensures
        Editor::Hex.after_char(app, layout, c) == app.without_drag(),
        Editor::Hex.after_char(app, layout, c).actions == app.actions,
        Editor::Hex.after_char(app, layout, c).contents == app.contents,
        Editor::Hex.after_char(app, layout, c).dirty == app.dirty,
        Editor::Hex.after_char(app, layout, c).search_stale == app.search_stale,
{
}

impl Editor {
    /// The window of this editor.
    pub open spec fn window(self) -> Window {
        match self {
            Editor::Ascii => Window::Ascii,
            Editor::Hex => Window::Hex,
        }
    }

    /// The state after the key that moves left.
    pub open spec fn after_left(self, app: DataView, layout: ComponentLayouts) -> DataView {
        let app = app.without_drag();
        match self {
            Editor::Ascii => app.moved_to(app.back(), layout),
            Editor::Hex => {
                let moved = if app.nibble == Nibble::Beginning {
                    app.moved_to(app.back(), layout)
                } else {
                    app
                };
                DataView { nibble: app.nibble.toggled(), ..moved }
            },
        }
    }

    /// The state after the key that moves right.
    pub open spec fn after_right(self, app: DataView, layout: ComponentLayouts) -> DataView {
        let app = app.without_drag();
        match self {
            Editor::Ascii => app.moved_to(app.ahead(1), layout),
            Editor::Hex => {
                let moved = if app.nibble == Nibble::End {
                    app.moved_to(app.ahead(1), layout)
                } else {
                    app
                };
                DataView { nibble: app.nibble.toggled(), ..moved }
            },
        }
    }

    /// The state after the key that moves up.
    pub open spec fn after_up(self, app: DataView, layout: ComponentLayouts) -> DataView {
        let app = app.without_drag();
        if app.offset >= layout.bytes_per_line {
            app.moved_to((app.offset - layout.bytes_per_line) as usize, layout)
        } else {
            app
        }
    }

    /// The state after the key that moves down.
    pub open spec fn after_down(self, app: DataView, layout: ComponentLayouts) -> DataView {
        let app = app.without_drag();
        if app.offset + layout.bytes_per_line < app.contents.len() {
            app.moved_to((app.offset + layout.bytes_per_line) as usize, layout)
        } else {
            app
        }
    }

    /// The state after the key that moves to the start of the line.
    pub open spec fn after_home(self, app: DataView, layout: ComponentLayouts) -> DataView {
        let app = app.without_drag();
        let moved = app.moved_to(
            (app.offset / layout.bytes_per_line * layout.bytes_per_line) as usize,
            layout,
        );
        match self {
            Editor::Ascii => moved,
            Editor::Hex => DataView { nibble: Nibble::Beginning, ..moved },
        }
    }

    /// The state after the key that moves to the end of the line.
    pub open spec fn after_end(self, app: DataView, layout: ComponentLayouts) -> DataView {
        let app = app.without_drag();
        let moved = app.moved_to(
            app.ahead(layout.bytes_per_line - 1 - app.offset % layout.bytes_per_line),
            layout,
        );
        match self {
            Editor::Ascii => moved,
            Editor::Hex => DataView { nibble: Nibble::End, ..moved },
        }
    }

    /// The state after the key that moves one screen up.
    pub open spec fn after_page_up(self, app: DataView, layout: ComponentLayouts) -> DataView {
        let app = app.without_drag();
        if app.offset >= layout.bytes_per_screen() {
            app.moved_to((app.offset - layout.bytes_per_screen()) as usize, layout)
        } else {
            app.moved_to(0, layout)
        }
    }

    /// The state after the key that moves one screen down.
    pub open spec fn after_page_down(self, app: DataView, layout: ComponentLayouts) -> DataView {
        let app = app.without_drag();
        app.moved_to(app.ahead(layout.bytes_per_screen()), layout)
    }

    /// The state after the key that removes the byte before the cursor.
    pub open spec fn after_backspace(self, app: DataView, layout: ComponentLayouts) -> DataView {
        if app.offset > 0 {
            app.with_removed(app.back(), app.back(), layout)
        } else {
            app
        }
    }

    /// The state after the key that removes the byte under the cursor. The
    /// last byte of the contents is never removed. Where the byte removed was
    /// the last byte, the cursor moves onto the byte before it.
    pub open spec fn after_delete(self, app: DataView, layout: ComponentLayouts) -> DataView {
        if app.contents.len() > 1 {
            let cursor = if app.offset + 1 < app.contents.len() {
                app.offset
            } else {
                app.back()
            };
            app.with_removed(app.offset, cursor, layout)
        } else {
            app
        }
    }

    /// The state after a character was typed. The text editor overwrites the
    /// byte under the cursor and moves on. The hexadecimal editor overwrites
    /// the half of the byte that the cursor is on and moves on to the other
    /// half, from the second half on to the next byte. Either editor records
    /// the byte before it overwrites it. A character that is no hexadecimal
    /// digit is refused by the hexadecimal editor: nothing is recorded and
    /// nothing is written.
    pub open spec fn after_char(self, app: DataView, layout: ComponentLayouts, c: char) -> DataView {
        let app = app.without_drag();
        match self {
            Editor::Ascii => {
                let written = app.with_record(None).with_byte(byte_of(c));
                written.moved_to(written.ahead(1), layout)
            },
            Editor::Hex => match hex_digit_of(c) {
                Some(digit) => {
                    let written = app.with_record(Some(app.nibble)).with_byte(
                        with_nibble(app.contents[app.offset as int], app.nibble, digit),
                    );
                    let moved = match app.nibble {
                        Nibble::Beginning => written,
                        Nibble::End => written.moved_to(written.ahead(1), layout),
                    };
                    DataView { nibble: app.nibble.toggled(), ..moved }
                },
                None => app,
            },
        }
    }

    /// What the user is told after a character was typed.
    pub open spec fn told_after_char(self, c: char, before: Notification) -> Notification {
        if self == Editor::Hex && hex_digit_of(c) is None {
            Notification::InvalidHex(c)
        } else {
            before
        }
    }

    /// Whether this editor is the window asked for.
    pub fn is_focusing(&self, window_type: Window) -> (focusing: bool)
        ensures
            focusing == (window_type == self.window()),
    {
        match self {
            Self::Ascii => window_type == Window::Ascii,
            Self::Hex => window_type == Window::Hex,
        }
    }

    /// Moves the cursor left: the text editor by a byte, the hexadecimal
    /// editor by half a byte.
    pub fn left(&mut self, app: &mut Data, display: &ScreenHandler, labels: &mut LabelHandler)
        requires
            old(app).wf(),
            display.comp_layouts.wf(),
        ensures
            final(app).wf(),
            final(app)@ == old(self).after_left(old(app)@, display.comp_layouts),
            final(app).contents == old(app).contents,
            *final(self) == *old(self),
            *final(labels) == *old(labels),
    {
        app.last_drag = None;
        app.drag_nibble = None;
        let back = if app.offset > 0 {
            app.offset - 1
        } else {
            0
        };
        match self {
            Self::Ascii => {
                move_cursor(app, display, back);
            },
            Self::Hex => {
                if app.nibble == Nibble::Beginning {
                    move_cursor(app, display, back);
                }
                app.nibble.toggle();
            },
        }
    }

    /// Moves the cursor right: the text editor by a byte, the hexadecimal
    /// editor by half a byte. The cursor stays on the last byte.
    pub fn right(&mut self, app: &mut Data, display: &ScreenHandler, labels: &mut LabelHandler)
        requires
            old(app).wf(),
            display.comp_layouts.wf(),
        ensures
            final(app).wf(),
            final(app)@ == old(self).after_right(old(app)@, display.comp_layouts),
            final(app).contents == old(app).contents,
            *final(self) == *old(self),
            *final(labels) == *old(labels),
    {
        app.last_drag = None;
        app.drag_nibble = None;
        match self {
            Self::Ascii => {
                let ahead = cursor_ahead(app, 1);
                move_cursor(app, display, ahead);
            },
            Self::Hex => {
                if app.nibble == Nibble::End {
                    let ahead = cursor_ahead(app, 1);
                    move_cursor(app, display, ahead);
                }
                app.nibble.toggle();
            },
        }
    }

    /// Moves the cursor up a line, where there is one.
    pub fn up(&mut self, app: &mut Data, display: &ScreenHandler, labels: &mut LabelHandler)
        requires
            old(app).wf(),
            display.comp_layouts.wf(),
        ensures
            final(app).wf(),
            final(app)@ == old(self).after_up(old(app)@, display.comp_layouts),
            final(app).contents == old(app).contents,
            *final(self) == *old(self),
            *final(labels) == *old(labels),
    {
        app.last_drag = None;
        app.drag_nibble = None;
        if app.offset >= display.comp_layouts.bytes_per_line {
            let above = app.offset - display.comp_layouts.bytes_per_line;
            move_cursor(app, display, above);
        }
    }

    /// Moves the cursor down a line, where there is one.
    pub fn down(&mut self, app: &mut Data, display: &ScreenHandler, labels: &mut LabelHandler)
        requires
            old(app).wf(),
            display.comp_layouts.wf(),
        ensures
            final(app).wf(),
            final(app)@ == old(self).after_down(old(app)@, display.comp_layouts),
            final(app).contents == old(app).contents,
            *final(self) == *old(self),
            *final(labels) == *old(labels),
    {
        app.last_drag = None;
        app.drag_nibble = None;
        proof {
            app.contents.lemma_window_is_current();
        }
        let len = app.contents.len();
        if display.comp_layouts.bytes_per_line < len - app.offset {
            let below = app.offset + display.comp_layouts.bytes_per_line;
            move_cursor(app, display, below);
        }
    }

    /// Moves the cursor to the start of its line.
    pub fn home(&mut self, app: &mut Data, display: &ScreenHandler, labels: &mut LabelHandler)
        requires
            old(app).wf(),
            display.comp_layouts.wf(),
        ensures
            final(app).wf(),
            final(app)@ == old(self).after_home(old(app)@, display.comp_layouts),
            final(app).contents == old(app).contents,
            *final(self) == *old(self),
            *final(labels) == *old(labels),
    {
        app.last_drag = None;
        app.drag_nibble = None;
        let bytes_per_line = display.comp_layouts.bytes_per_line;
        proof {
            crate::windows::lemma_adjusted_start(
                app.start_address,
                app.offset,
                bytes_per_line,
                display.comp_layouts.lines_per_screen,
            );
        }
        let start = app.offset / bytes_per_line * bytes_per_line;
        move_cursor(app, display, start);
        if self.is_focusing(Window::Hex) {
            app.nibble = Nibble::Beginning;
        }
    }

    /// Moves the cursor to the end of its line, or onto the last byte where
    /// the contents end before that.
    pub fn end(&mut self, app: &mut Data, display: &ScreenHandler, labels: &mut LabelHandler)
        requires
            old(app).wf(),
            display.comp_layouts.wf(),
        ensures
            final(app).wf(),
            final(app)@ == old(self).after_end(old(app)@, display.comp_layouts),
            final(app).contents == old(app).contents,
            *final(self) == *old(self),
            *final(labels) == *old(labels),
    {
        app.last_drag = None;
        app.drag_nibble = None;
        let bytes_per_line = display.comp_layouts.bytes_per_line;
        let ahead = cursor_ahead(app, bytes_per_line - 1 - app.offset % bytes_per_line);
        move_cursor(app, display, ahead);
        if self.is_focusing(Window::Hex) {
            app.nibble = Nibble::End;
        }
    }

    /// Moves the cursor up by as many bytes as the screen shows, or onto the
    /// first byte.
    pub fn page_up(&mut self, app: &mut Data, display: &ScreenHandler, labels: &mut LabelHandler)
        requires
            old(app).wf(),
            display.comp_layouts.wf(),
        ensures
            final(app).wf(),
            final(app)@ == old(self).after_page_up(old(app)@, display.comp_layouts),
            final(app).contents == old(app).contents,
            *final(self) == *old(self),
            *final(labels) == *old(labels),
    {
        app.last_drag = None;
        app.drag_nibble = None;
        let bytes_per_screen = bytes_per_screen(&display.comp_layouts);
        let above = if app.offset >= bytes_per_screen {
            app.offset - bytes_per_screen
        } else {
            0
        };
        move_cursor(app, display, above);
    }

    /// Moves the cursor down by as many bytes as the screen shows, or onto the
    /// last byte.
    pub fn page_down(&mut self, app: &mut Data, display: &ScreenHandler, labels: &mut LabelHandler)
        requires
            old(app).wf(),
            display.comp_layouts.wf(),
        ensures
            final(app).wf(),
            final(app)@ == old(self).after_page_down(old(app)@, display.comp_layouts),
            final(app).contents == old(app).contents,
            *final(self) == *old(self),
            *final(labels) == *old(labels),
    {
        app.last_drag = None;
        app.drag_nibble = None;
        let ahead = cursor_ahead(app, bytes_per_screen(&display.comp_layouts));
        move_cursor(app, display, ahead);
    }

    /// Removes the byte before the cursor and moves the cursor onto its place.
    /// The removal is recorded in the undo log.
    pub fn backspace(&mut self, app: &mut Data, display: &ScreenHandler, labels: &mut LabelHandler)
        requires
            old(app).wf(),
            display.comp_layouts.wf(),
        ensures
            final(app).wf(),
            final(app)@ == old(self).after_backspace(old(app)@, display.comp_layouts),
            *final(self) == *old(self),
            *final(labels) == *old(labels),
    {
        if app.offset > 0 {
            let at = app.offset - 1;
            remove_byte(app, display, at, at);
        }
    }

    /// Removes the byte under the cursor, unless it is the only one. The
    /// removal is recorded in the undo log.
    pub fn delete(&mut self, app: &mut Data, display: &ScreenHandler, labels: &mut LabelHandler)
        requires
            old(app).wf(),
            display.comp_layouts.wf(),
        ensures
            final(app).wf(),
            final(app)@ == old(self).after_delete(old(app)@, display.comp_layouts),
            *final(self) == *old(self),
            *final(labels) == *old(labels),
    {
        proof {
            app.contents.lemma_window_is_current();
        }
        let len = app.contents.len();
        if len > 1 {
            let cursor = if app.offset < len - 1 {
                app.offset
            } else {
                app.offset - 1
            };
            remove_byte(app, display, app.offset, cursor);
        }
    }

    /// Takes a character that was typed.
    pub fn char(
        &mut self,
        app: &mut Data,
        display: &ScreenHandler,
        labels: &mut LabelHandler,
        c: char,
    )
        requires
            old(app).wf(),
            display.comp_layouts.wf(),
        ensures
            final(app).wf(),
            final(app)@ == old(self).after_char(old(app)@, display.comp_layouts, c),
            *final(self) == *old(self),
            *final(labels) == (LabelHandler {
                notification: old(self).told_after_char(c, old(labels).notification),
                ..*old(labels)
            }),
    {
        app.last_drag = None;
        app.drag_nibble = None;
        match *self {
            Self::Ascii => {
                record_byte(app, None);
                write_byte(app, (c as u32 % 256) as u8);
                let ahead = cursor_ahead(app, 1);
                move_cursor(app, display, ahead);
            },
            Self::Hex => {
                match hex_digit(c) {
                    Some(digit) => {
                        let nibble = app.nibble;
                        let byte = record_byte(app, Some(nibble));
                        match nibble {
                            Nibble::Beginning => {
                                write_byte(app, digit * 16 + byte % 16);
                            },
                            Nibble::End => {
                                write_byte(app, byte / 16 * 16 + digit);
                                let ahead = cursor_ahead(app, 1);
                                move_cursor(app, display, ahead);
                            },
                        }
                        app.nibble.toggle();
                    },
                    None => {
                        labels.notification = Notification::InvalidHex(c);
                    },
                }
            },
        }
    }

    /// Moves the cursor to the next match of the search term.
    pub fn enter(&mut self, app: &mut Data, display: &ScreenHandler, labels: &mut LabelHandler)
        requires
            old(app).wf(),
            display.comp_layouts.wf(),
        ensures
            final(app).wf(),
            final(app)@ == old(app)@.searched(SearchDirection::Forward, display.comp_layouts),
            *final(labels) == (LabelHandler {
                notification: old(app)@.told_after_search(
                SearchDirection::Forward,
                old(labels).notification,
            ),
                ..*old(labels)
            }),
            *final(self) == *old(self),
    {
        perform_search(app, display, labels, &SearchDirection::Forward);
    }
}

/// The number of bytes that the editors show at once.
pub fn bytes_per_screen(layout: &ComponentLayouts) -> (bytes: usize)
    requires
        layout.wf(),
    ensures
        bytes == layout.bytes_per_screen(),
{
    assert(layout.bytes_per_line * layout.lines_per_screen <= u16::MAX * u16::MAX)
        by (nonlinear_arith)
        requires
            layout.bytes_per_line <= u16::MAX,
            layout.lines_per_screen <= u16::MAX,
    ;
    layout.bytes_per_line * layout.lines_per_screen
}

/// The offset `distance` bytes behind the cursor, or the last offset.
pub fn cursor_ahead(app: &Data, distance: usize) -> (offset: usize)
    requires
        app.wf(),
    ensures
        offset == app@.ahead(distance as int),
        offset < app@.contents.len(),
{
    proof {
        app.contents.lemma_window_is_current();
    }
    let len = app.contents.len();
    if distance < len - app.offset {
        app.offset + distance
    } else {
        len - 1
    }
}

/// Moves the cursor to `offset` and the screen after it.
pub fn move_cursor(app: &mut Data, display: &ScreenHandler, offset: usize)
    requires
        old(app).wf(),
        display.comp_layouts.wf(),
        offset < old(app)@.contents.len(),
    ensures
        final(app).wf(),
        final(app)@ == old(app)@.moved_to(offset, display.comp_layouts),
        final(app).contents == old(app).contents,
{
    app.offset = offset;
    adjust_offset(app, display);
}

/// Removes the byte at `at`, which is the byte under the cursor or the one
/// before it, records the removal and moves the cursor to `cursor`.
fn remove_byte(app: &mut Data, display: &ScreenHandler, at: usize, cursor: usize)
    requires
        old(app).wf(),
        display.comp_layouts.wf(),
        at <= old(app).offset,
        cursor + 1 < old(app)@.contents.len(),
    ensures
        final(app).wf(),
        final(app)@ == old(app)@.with_removed(at, cursor, display.comp_layouts),
{
    proof {
        app.contents.lemma_window_is_current();
    }
    app.contents.compute_new_window(app.offset);
    let removed = app.contents.remove(at);
    app.actions.push(Action::Delete(at, removed));
    app.dirty = true;
    app.search_stale = true;
    app.offset = cursor;
    proof {
        assert(app.actions@.drop_last() =~= old(app).actions@);
    }
    adjust_offset(app, display);
}

/// Records the byte under the cursor in the undo log and returns it.
fn record_byte(app: &mut Data, nibble: Option<Nibble>) -> (byte: u8)
    requires
        old(app).wf(),
    ensures
        final(app).wf(),
        final(app)@ == old(app)@.with_record(nibble),
        byte == old(app)@.contents[old(app).offset as int],
{
    proof {
        app.contents.lemma_window_is_current();
    }
    app.contents.compute_new_window(app.offset);
    let byte = app.contents.get(app.offset);
    app.actions.push(Action::CharacterInput(app.offset, byte, nibble));
    proof {
        assert(app.actions@.drop_last() =~= old(app).actions@);
    }
    byte
}

/// Overwrites the byte under the cursor.
fn write_byte(app: &mut Data, byte: u8)
    requires
        old(app).wf(),
    ensures
        final(app).wf(),
        final(app)@ == old(app)@.with_byte(byte),
{
    proof {
        app.contents.lemma_window_is_current();
    }
    app.contents.compute_new_window(app.offset);
    app.contents.set(app.offset, byte);
    app.dirty = true;
    app.search_stale = true;
}

} // verus!
