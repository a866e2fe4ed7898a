//! What can have the focus, and how each of them takes the keys.

pub mod editor;
pub mod jump_to_byte;
pub mod search;
pub mod unsaved_changes;

use crate::app::{Data, DataView};
use crate::label::{Handler as LabelHandler, Notification};
use crate::screen::{ComponentLayouts, Handler as ScreenHandler};
use crate::windows::editor::Editor;
use crate::windows::jump_to_byte::JumpToByte;
use crate::windows::search::{Search, SearchDirection};
use crate::windows::unsaved_changes::UnsavedChanges;
use vstd::prelude::*;
use vstd::utf8::encode_utf8;

verus! {

/// The parts of the screen that can be clicked, some of which can have the
/// focus.
#[derive(PartialEq, Eq, Copy, Clone, Debug, Structural)]
pub enum Window {
    Ascii,
    Hex,
    JumpToByte,
    Search,
    UnsavedChanges,
    Label(usize),
    Unhandled,
}

/// What a popup hands back when it is closed.
#[derive(PartialEq, Eq, Debug)]
pub enum PopupOutput<'a> {
    Str(&'a str),
    Boolean(bool),
    NoOutput,
}

/// The offset of the first byte on the screen once the screen has followed
/// the cursor. A cursor above the screen comes to lie in its first line, a
/// cursor below the screen in its last line.
pub open spec fn adjusted_start(
    start_address: usize,
    offset: usize,
    bytes_per_line: usize,
    lines_per_screen: usize,
) -> usize {
    let line_start = offset / bytes_per_line * bytes_per_line;
    let bytes_per_screen = bytes_per_line * lines_per_screen;
    if offset < start_address {
        line_start as usize
    } else if offset - start_address >= bytes_per_screen {
        if line_start - bytes_per_screen + bytes_per_line <= usize::MAX {
            (line_start - bytes_per_screen + bytes_per_line) as usize
        } else {
            usize::MAX
        }
    } else {
        start_address
    }
}

/// The start of the line of an offset lies at most a line before the offset
/// and is a multiple of the length of a line.
pub proof fn lemma_line_start(offset: int, bytes_per_line: int)
    requires
        0 <= offset,
        0 < bytes_per_line,
    ensures
        0 <= offset / bytes_per_line,
        0 <= offset / bytes_per_line * bytes_per_line <= offset < offset / bytes_per_line
            * bytes_per_line + bytes_per_line,
        (offset / bytes_per_line * bytes_per_line) % bytes_per_line == 0,
{
    vstd::arithmetic::div_mod::lemma_fundamental_div_mod(offset, bytes_per_line);
    vstd::arithmetic::div_mod::lemma_mod_bound(offset, bytes_per_line);
    vstd::arithmetic::div_mod::lemma_div_pos_is_pos(offset, bytes_per_line);
    vstd::arithmetic::div_mod::lemma_mod_multiples_basic(offset / bytes_per_line, bytes_per_line);
    vstd::arithmetic::mul::lemma_mul_is_commutative(bytes_per_line, offset / bytes_per_line);
    vstd::arithmetic::mul::lemma_mul_nonnegative(offset / bytes_per_line, bytes_per_line);
}

/// The adjusted start is an offset, and with a screen of at least one line
/// the cursor then lies on the screen.
pub proof fn lemma_adjusted_start(
    start_address: usize,
    offset: usize,
    bytes_per_line: usize,
    lines_per_screen: usize,
)
    requires
        0 < bytes_per_line <= u16::MAX,
        lines_per_screen <= u16::MAX,
    ensures
        ({
            let line_start = offset / bytes_per_line * bytes_per_line;
            let bytes_per_screen = bytes_per_line * lines_per_screen;
            &&& 0 <= line_start <= offset < line_start + bytes_per_line
            &&& 0 <= bytes_per_screen <= u16::MAX * u16::MAX
            &&& offset >= bytes_per_screen ==> line_start >= bytes_per_screen
        }),
        lines_per_screen > 0 ==> ({
            let start = adjusted_start(start_address, offset, bytes_per_line, lines_per_screen);
            start <= offset < start + bytes_per_line * lines_per_screen
        }),
{
    let line = offset as int / bytes_per_line as int;
    let line_start = line * bytes_per_line;
    let bytes_per_screen = bytes_per_line * lines_per_screen;
    lemma_line_start(offset as int, bytes_per_line as int);
    vstd::arithmetic::mul::lemma_mul_nonnegative(bytes_per_line as int, lines_per_screen as int);
    vstd::arithmetic::mul::lemma_mul_upper_bound(
        bytes_per_line as int,
        u16::MAX as int,
        lines_per_screen as int,
        u16::MAX as int,
    );
    if offset >= bytes_per_screen {
        vstd::arithmetic::mul::lemma_mul_is_commutative(
            bytes_per_line as int,
            lines_per_screen as int,
        );
        vstd::arithmetic::div_mod::lemma_div_is_ordered(
            bytes_per_screen,
            offset as int,
            bytes_per_line as int,
        );
        vstd::arithmetic::div_mod::lemma_div_multiples_vanish(
            lines_per_screen as int,
            bytes_per_line as int,
        );
        vstd::arithmetic::mul::lemma_mul_inequality(
            lines_per_screen as int,
            line,
            bytes_per_line as int,
        );
    }
    if lines_per_screen > 0 {
        vstd::arithmetic::mul::lemma_mul_inequality(
            1,
            lines_per_screen as int,
            bytes_per_line as int,
        );
        vstd::arithmetic::mul::lemma_mul_is_commutative(
            bytes_per_line as int,
            lines_per_screen as int,
        );
    }
}

impl DataView {
    /// The state with the screen moved so that it shows the cursor.
    pub open spec fn adjusted(self, layout: ComponentLayouts) -> DataView {
        DataView {
            start_address: adjusted_start(
                self.start_address,
                self.offset,
                layout.bytes_per_line,
                layout.lines_per_screen,
            ),
            ..self
        }
    }

    /// The state with the cursor moved to `offset` and the screen after it.
    pub open spec fn moved_to(self, offset: usize, layout: ComponentLayouts) -> DataView {
        (DataView { offset, ..self }).adjusted(layout)
    }
}

/// Moves the screen so that it shows the cursor.
pub fn adjust_offset(app: &mut Data, display: &ScreenHandler)
    requires
        display.comp_layouts.wf(),
    ensures
        final(app)@ == old(app)@.adjusted(display.comp_layouts),
        final(app).contents == old(app).contents,
{
    let bytes_per_line = display.comp_layouts.bytes_per_line;
    proof {
        lemma_adjusted_start(
            app.start_address,
            app.offset,
            bytes_per_line,
            display.comp_layouts.lines_per_screen,
        );
    }
    let bytes_per_screen = bytes_per_line * display.comp_layouts.lines_per_screen;
    if app.offset < app.start_address {
        app.start_address = (app.offset / bytes_per_line) * bytes_per_line;
    } else if app.offset - app.start_address >= bytes_per_screen {
        let above = (app.offset / bytes_per_line) * bytes_per_line - bytes_per_screen;
        app.start_address = if above <= usize::MAX - bytes_per_line {
            above + bytes_per_line
        } else {
            usize::MAX
        };
    }
}

/// What has the focus and takes the keys: one of the editors or a popup.
pub enum KeyHandler {
    Editor(Editor),
    JumpToByte(JumpToByte),
    Search(Search),
    UnsavedChanges(UnsavedChanges),
}

/// What has the focus, as contracts speak of it: an editor, a popup with the
/// text typed into it, or the popup for unsaved changes with its answer.
pub enum KeyHandlerView {
    Editor(Editor),
    JumpToByte(Seq<char>),
    Search(Seq<char>),
    UnsavedChanges(bool),
}

impl KeyHandlerView {
    /// The window that has the focus.
    pub open spec fn window(self) -> Window {
        match self {
            KeyHandlerView::Editor(editor) => editor.window(),
            KeyHandlerView::JumpToByte(_) => Window::JumpToByte,
            KeyHandlerView::Search(_) => Window::Search,
            KeyHandlerView::UnsavedChanges(_) => Window::UnsavedChanges,
        }
    }

    /// What has the focus after a character was typed.
    pub open spec fn with_char(self, c: char) -> KeyHandlerView {
        match self {
            KeyHandlerView::JumpToByte(input) => KeyHandlerView::JumpToByte(input.push(c)),
            KeyHandlerView::Search(input) => KeyHandlerView::Search(input.push(c)),
            _ => self,
        }
    }

    /// What has the focus after the key that takes a character back.
    pub open spec fn with_backspace(self) -> KeyHandlerView {
        match self {
            KeyHandlerView::JumpToByte(input) => KeyHandlerView::JumpToByte(
                if input.len() > 0 {
                    input.drop_last()
                } else {
                    input
                },
            ),
            KeyHandlerView::Search(input) => KeyHandlerView::Search(
                if input.len() > 0 {
                    input.drop_last()
                } else {
                    input
                },
            ),
            _ => self,
        }
    }

    /// The state after the key that enters.
    pub open spec fn after_enter(self, app: DataView, layout: ComponentLayouts) -> DataView {
        match self {
            KeyHandlerView::Editor(_) => app.searched(SearchDirection::Forward, layout),
            KeyHandlerView::JumpToByte(input) => app.jumped(encode_utf8(input), layout),
            KeyHandlerView::Search(input) => if input.len() > 0 {
                app.with_search_term(input).searched(SearchDirection::Forward, layout)
            } else {
                app
            },
            KeyHandlerView::UnsavedChanges(_) => app,
        }
    }

    /// What the user is told after the key that enters.
    pub open spec fn told_after_enter(self, app: DataView, before: Notification) -> Notification {
        match self {
            KeyHandlerView::Editor(_) => app.told_after_search(SearchDirection::Forward, before),
            KeyHandlerView::JumpToByte(input) => app.told_after_jump(encode_utf8(input), before),
            KeyHandlerView::Search(input) => if input.len() > 0 {
                app.with_search_term(input).told_after_search(SearchDirection::Forward, before)
            } else {
                Notification::EmptySearchQuery
            },
            KeyHandlerView::UnsavedChanges(_) => before,
        }
    }
}

impl View for KeyHandler {
    type V = KeyHandlerView;

    open spec fn view(&self) -> KeyHandlerView {
        match self {
            KeyHandler::Editor(editor) => KeyHandlerView::Editor(*editor),
            KeyHandler::JumpToByte(popup) => KeyHandlerView::JumpToByte(popup.input@),
            KeyHandler::Search(popup) => KeyHandlerView::Search(popup.input@),
            KeyHandler::UnsavedChanges(popup) => KeyHandlerView::UnsavedChanges(popup.should_quit),
        }
    }
}

impl KeyHandler {
    /// Whether what has the focus is the window asked for.
    pub fn is_focusing(&self, window_type: Window) -> (focusing: bool)
        ensures
            focusing == (window_type == self@.window()),
    {
        match self {
            KeyHandler::Editor(editor) => editor.is_focusing(window_type),
            KeyHandler::JumpToByte(popup) => popup.is_focusing(window_type),
            KeyHandler::Search(popup) => popup.is_focusing(window_type),
            KeyHandler::UnsavedChanges(popup) => popup.is_focusing(window_type),
        }
    }

    /// The key that moves left. An editor moves the cursor; the popup for
    /// unsaved changes takes "yes"; the other popups do nothing.
    pub fn left(&mut self, app: &mut Data, display: &ScreenHandler, labels: &mut LabelHandler)
        requires
            old(app).wf(),
            display.comp_layouts.wf(),
        ensures
            final(app).wf(),
            *final(labels) == *old(labels),
            final(app)@ == match old(self)@ {
                KeyHandlerView::Editor(editor) => editor.after_left(
                    old(app)@,
                    display.comp_layouts,
                ),
                _ => old(app)@,
            },
            final(app).contents == old(app).contents,
            final(self)@ == match old(self)@ {
                KeyHandlerView::UnsavedChanges(_) => KeyHandlerView::UnsavedChanges(true),
                other => other,
            },
    {
        match self {
            KeyHandler::Editor(editor) => editor.left(app, display, labels),
            KeyHandler::UnsavedChanges(popup) => popup.left(),
            _ => {},
        }
    }

    /// The key that moves right. An editor moves the cursor; the popup for
    /// unsaved changes takes "no"; the other popups do nothing.
    pub fn right(&mut self, app: &mut Data, display: &ScreenHandler, labels: &mut LabelHandler)
        requires
            old(app).wf(),
            display.comp_layouts.wf(),
        ensures
            final(app).wf(),
            *final(labels) == *old(labels),
            final(app)@ == match old(self)@ {
                KeyHandlerView::Editor(editor) => editor.after_right(
                    old(app)@,
                    display.comp_layouts,
                ),
                _ => old(app)@,
            },
            final(app).contents == old(app).contents,
            final(self)@ == match old(self)@ {
                KeyHandlerView::UnsavedChanges(_) => KeyHandlerView::UnsavedChanges(false),
                other => other,
            },
    {
        match self {
            KeyHandler::Editor(editor) => editor.right(app, display, labels),
            KeyHandler::UnsavedChanges(popup) => popup.right(),
            _ => {},
        }
    }

    /// The key that moves up, which only an editor takes.
    pub fn up(&mut self, app: &mut Data, display: &ScreenHandler, labels: &mut LabelHandler)
        requires
            old(app).wf(),
            display.comp_layouts.wf(),
        ensures
            final(app).wf(),
            *final(labels) == *old(labels),
            final(app)@ == match old(self)@ {
                KeyHandlerView::Editor(editor) => editor.after_up(old(app)@, display.comp_layouts),
                _ => old(app)@,
            },
            final(app).contents == old(app).contents,
            final(self)@ == old(self)@,
    {
        match self {
            KeyHandler::Editor(editor) => editor.up(app, display, labels),
            _ => {},
        }
    }

    /// The key that moves down, which only an editor takes.
    pub fn down(&mut self, app: &mut Data, display: &ScreenHandler, labels: &mut LabelHandler)
        requires
            old(app).wf(),
            display.comp_layouts.wf(),
        ensures
            final(app).wf(),
            *final(labels) == *old(labels),
            final(app)@ == match old(self)@ {
                KeyHandlerView::Editor(editor) => editor.after_down(
                    old(app)@,
                    display.comp_layouts,
                ),
                _ => old(app)@,
            },
            final(app).contents == old(app).contents,
            final(self)@ == old(self)@,
    {
        match self {
            KeyHandler::Editor(editor) => editor.down(app, display, labels),
            _ => {},
        }
    }

    /// The key that moves to the start of the line, which only an editor takes.
    pub fn home(&mut self, app: &mut Data, display: &ScreenHandler, labels: &mut LabelHandler)
        requires
            old(app).wf(),
            display.comp_layouts.wf(),
        ensures
            final(app).wf(),
            *final(labels) == *old(labels),
            final(app)@ == match old(self)@ {
                KeyHandlerView::Editor(editor) => editor.after_home(
                    old(app)@,
                    display.comp_layouts,
                ),
                _ => old(app)@,
            },
            final(app).contents == old(app).contents,
            final(self)@ == old(self)@,
    {
        match self {
            KeyHandler::Editor(editor) => editor.home(app, display, labels),
            _ => {},
        }
    }

    /// The key that moves to the end of the line, which only an editor takes.
    pub fn end(&mut self, app: &mut Data, display: &ScreenHandler, labels: &mut LabelHandler)
        requires
            old(app).wf(),
            display.comp_layouts.wf(),
        ensures
            final(app).wf(),
            *final(labels) == *old(labels),
            final(app)@ == match old(self)@ {
                KeyHandlerView::Editor(editor) => editor.after_end(old(app)@, display.comp_layouts),
                _ => old(app)@,
            },
            final(app).contents == old(app).contents,
            final(self)@ == old(self)@,
    {
        match self {
            KeyHandler::Editor(editor) => editor.end(app, display, labels),
            _ => {},
        }
    }

    /// The key that moves a screen up, which only an editor takes.
    pub fn page_up(&mut self, app: &mut Data, display: &ScreenHandler, labels: &mut LabelHandler)
        requires
            old(app).wf(),
            display.comp_layouts.wf(),
        ensures
            final(app).wf(),
            *final(labels) == *old(labels),
            final(app)@ == match old(self)@ {
                KeyHandlerView::Editor(editor) => editor.after_page_up(
                    old(app)@,
                    display.comp_layouts,
                ),
                _ => old(app)@,
            },
            final(app).contents == old(app).contents,
            final(self)@ == old(self)@,
    {
        match self {
            KeyHandler::Editor(editor) => editor.page_up(app, display, labels),
            _ => {},
        }
    }

    /// The key that moves a screen down, which only an editor takes.
    pub fn page_down(&mut self, app: &mut Data, display: &ScreenHandler, labels: &mut LabelHandler)
        requires
            old(app).wf(),
            display.comp_layouts.wf(),
        ensures
            final(app).wf(),
            *final(labels) == *old(labels),
            final(app)@ == match old(self)@ {
                KeyHandlerView::Editor(editor) => editor.after_page_down(
                    old(app)@,
                    display.comp_layouts,
                ),
                _ => old(app)@,
            },
            final(app).contents == old(app).contents,
            final(self)@ == old(self)@,
    {
        match self {
            KeyHandler::Editor(editor) => editor.page_down(app, display, labels),
            _ => {},
        }
    }

    /// The key that takes back. An editor removes the byte before the cursor;
    /// a popup with text takes back the character typed last.
    pub fn backspace(&mut self, app: &mut Data, display: &ScreenHandler, labels: &mut LabelHandler)
        requires
            old(app).wf(),
            display.comp_layouts.wf(),
        ensures
            final(app).wf(),
            *final(labels) == *old(labels),
            final(app)@ == match old(self)@ {
                KeyHandlerView::Editor(editor) => editor.after_backspace(
                    old(app)@,
                    display.comp_layouts,
                ),
                _ => old(app)@,
            },
            final(self)@ == old(self)@.with_backspace(),
    {
        match self {
            KeyHandler::Editor(editor) => editor.backspace(app, display, labels),
            KeyHandler::JumpToByte(popup) => popup.backspace(),
            KeyHandler::Search(popup) => popup.backspace(),
            KeyHandler::UnsavedChanges(_) => {},
        }
    }

    /// The key that deletes, which only an editor takes.
    pub fn delete(&mut self, app: &mut Data, display: &ScreenHandler, labels: &mut LabelHandler)
        requires
            old(app).wf(),
            display.comp_layouts.wf(),
        ensures
            final(app).wf(),
            *final(labels) == *old(labels),
            final(app)@ == match old(self)@ {
                KeyHandlerView::Editor(editor) => editor.after_delete(
                    old(app)@,
                    display.comp_layouts,
                ),
                _ => old(app)@,
            },
            final(self)@ == old(self)@,
    {
        match self {
            KeyHandler::Editor(editor) => editor.delete(app, display, labels),
            _ => {},
        }
    }

    /// The key that enters. An editor moves to the next match of the search
    /// term; the popups for jumping and searching do what they are for; the
    /// popup for unsaved changes does nothing.
    pub fn enter(&mut self, app: &mut Data, display: &ScreenHandler, labels: &mut LabelHandler)
        requires
            old(app).wf(),
            display.comp_layouts.wf(),
        ensures
            final(app).wf(),
            final(app)@ == old(self)@.after_enter(old(app)@, display.comp_layouts),
            *final(labels) == (LabelHandler {
                notification: old(self)@.told_after_enter(
                old(app)@,
                old(labels).notification,
            ),
                ..*old(labels)
            }),
            final(self)@ == old(self)@,
    {
        match self {
            KeyHandler::Editor(editor) => editor.enter(app, display, labels),
            KeyHandler::JumpToByte(popup) => popup.enter(app, display, labels),
            KeyHandler::Search(popup) => popup.enter(app, display, labels),
            KeyHandler::UnsavedChanges(_) => {},
        }
    }

    /// A character that was typed. An editor writes it into the contents; a
    /// popup with text takes it into its text.
    pub fn char(
        &mut self,
        app: &mut Data,
        display: &ScreenHandler,
        labels: &mut LabelHandler,
        c: char,
    )
        requires
            old(app).wf(),
            display.comp_layouts.wf(),
        ensures
            final(app).wf(),
            final(app)@ == match old(self)@ {
                KeyHandlerView::Editor(editor) => editor.after_char(
                    old(app)@,
                    display.comp_layouts,
                    c,
                ),
                _ => old(app)@,
            },
            *final(labels) == (LabelHandler {
                notification: match old(self)@ {
                KeyHandlerView::Editor(editor) => editor.told_after_char(
                    c,
                    old(labels).notification,
                ),
                _ => old(labels).notification,
            },
                ..*old(labels)
            }),
            final(self)@ == old(self)@.with_char(c),
    {
        match self {
            KeyHandler::Editor(editor) => editor.char(app, display, labels, c),
            KeyHandler::JumpToByte(popup) => popup.char(c),
            KeyHandler::Search(popup) => popup.char(c),
            KeyHandler::UnsavedChanges(_) => {},
        }
    }

    /// What a popup hands back: its text or its answer. An editor hands back
    /// nothing.
    pub fn get_user_input(&self) -> (output: PopupOutput<'_>)
        ensures
            match self@ {
                KeyHandlerView::Editor(_) => output == PopupOutput::NoOutput,
                KeyHandlerView::JumpToByte(input) => output matches PopupOutput::Str(text)
                    && text@ == input,
                KeyHandlerView::Search(input) => output matches PopupOutput::Str(text) && text@
                    == input,
                KeyHandlerView::UnsavedChanges(answer) => output == PopupOutput::Boolean(answer),
            },
    {
        match self {
            KeyHandler::Editor(_) => PopupOutput::NoOutput,
            KeyHandler::JumpToByte(popup) => popup.get_user_input(),
            KeyHandler::Search(popup) => popup.get_user_input(),
            KeyHandler::UnsavedChanges(popup) => popup.get_user_input(),
        }
    }

    /// The width and height of a popup. An editor has none.
    pub fn dimensions(&self) -> (size: Option<(u16, u16)>)
        ensures
            size == match self@ {
                KeyHandlerView::Editor(_) => None,
                KeyHandlerView::JumpToByte(_) => Some((50u16, 3u16)),
                KeyHandlerView::Search(_) => Some((50u16, 3u16)),
                KeyHandlerView::UnsavedChanges(_) => Some((50u16, 5u16)),
            },
    {
        match self {
            KeyHandler::Editor(_) => None,
            KeyHandler::JumpToByte(popup) => popup.dimensions(),
            KeyHandler::Search(popup) => popup.dimensions(),
            KeyHandler::UnsavedChanges(popup) => popup.dimensions(),
        }
    }
}

} // verus!
