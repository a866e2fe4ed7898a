//! What the keys and the mouse do to a session.
//!
//! The functions here take an event as plain values and change the session.
//! What needs the world outside, they hand back as a [`Reaction`]: the caller
//! ends the session, writes the contents back, or copies a label.

use crate::app::{focused, Application, DataView, Nibble};
use crate::label::{Endianness, Handler as LabelHandler, Notification};
use crate::windows::editor::Editor;
use crate::screen::{ComponentLayouts, Rect};
use crate::windows::search::{perform_search, SearchDirection};
use crate::windows::{adjust_offset, KeyHandlerView, PopupOutput, Window};
use vstd::prelude::*;

verus! {

/// A key.
#[derive(Copy, Clone, Debug, PartialEq, Eq, Structural)]
pub enum KeyCode {
    Left,
    Right,
    Up,
    Down,
    Home,
    End,
    PageUp,
    PageDown,
    Backspace,
    Delete,
    Esc,
    Enter,
    Char(char),
    Other,
}

/// The keys that are held down with a key.
#[derive(Copy, Clone, Debug, PartialEq, Eq, Structural)]
pub enum KeyModifiers {
    /// None, or shift alone.
    Plain,
    /// Control alone.
    Control,
    /// Alt alone.
    Alt,
    /// Anything else.
    Other,
}

/// A key that was pressed.
#[derive(Copy, Clone, Debug, PartialEq, Eq, Structural)]
pub struct KeyEvent {
    pub code: KeyCode,
    pub modifiers: KeyModifiers,
}

/// What the mouse did.
#[derive(Copy, Clone, Debug, PartialEq, Eq, Structural)]
pub enum MouseEventKind {
    /// The left button went down.
    Down,
    /// The mouse moved with the left button down.
    Drag,
    /// The left button went up.
    Up,
    ScrollUp,
    ScrollDown,
    Other,
}

/// What the mouse did, and where.
#[derive(Copy, Clone, Debug, PartialEq, Eq, Structural)]
pub struct MouseEvent {
    pub kind: MouseEventKind,
    pub column: u16,
    pub row: u16,
}

/// What is left for the caller to do after an event.
#[derive(Copy, Clone, Debug, PartialEq, Eq, Structural)]
pub enum Reaction {
    /// Nothing: go on with the next event.
    Continue,
    /// End the session.
    Quit,
    /// Write the contents back to the file. Nothing is pending any more.
    Save,
    /// Copy the label with the given number to the clipboard.
    Copy(usize),
}

/// The rectangle of an editor.
pub open spec fn editor_rect(layout: ComponentLayouts, window: Window) -> Rect {
    if window == Window::Hex {
        layout.hex
    } else {
        layout.ascii
    }
}

/// The number of cells that an editor takes for a byte.
pub open spec fn word_size(window: Window) -> int {
    if window == Window::Hex {
        3
    } else {
        1
    }
}

/// The byte, and in the hexadecimal editor the half of it, that lies at a
/// cell of an editor. Cells on the border of the editor, cells behind the last
/// byte of the last line of the screen and cells behind the contents hold
/// nothing.
pub open spec fn cursor_target(
    window: Window,
    app: DataView,
    layout: ComponentLayouts,
    column: u16,
    row: u16,
) -> Option<(usize, Option<Nibble>)> {
    let editor = editor_rect(layout, window);
    let rel_x: int = if column >= editor.x {
        column - editor.x
    } else {
        0
    };
    let rel_y: int = if row >= editor.y {
        row - editor.y
    } else {
        0
    };
    let row_end = layout.bytes_per_line * word_size(window) - if window == Window::Hex {
        1int
    } else {
        0int
    };
    if rel_y == editor.height - 2 && rel_x > row_end {
        None
    } else if rel_y > 0 && rel_x > 0 && editor.height - 1 > rel_y && editor.width - 1 > rel_x {
        let position = if window == Window::Hex {
            app.start_address + (rel_y - 1) * layout.bytes_per_line + rel_x / 3
        } else {
            app.start_address + (rel_y - 1) * layout.bytes_per_line + (rel_x - 1)
        };
        if position < app.contents.len() {
            Some(
                (
                    position as usize,
                    if window == Window::Hex {
                        Some(
                            if rel_x % 3 < 2 {
                                Nibble::Beginning
                            } else {
                                Nibble::End
                            },
                        )
                    } else {
                        None
                    },
                ),
            )
        } else {
            None
        }
    } else {
        None
    }
}

/// The number of cells that an editor takes for the given number of bytes.
pub open spec fn cells(window: Window, bytes: int) -> int {
    if window == Window::Hex {
        3 * bytes
    } else {
        bytes
    }
}

/// The column of a drag held inside a row of an editor that begins at column
/// `left` and ends before column `end`.
pub open spec fn held_in_row(left: u16, column: u16, end: int) -> u16 {
    if column <= left {
        if left < u16::MAX {
            (left + 1) as u16
        } else {
            u16::MAX
        }
    } else if column >= end {
        end as u16
    } else {
        column
    }
}

/// Holds the column of a drag inside a row of an editor.
fn hold_in_row(left: u16, column: u16, end: usize) -> (held: u16)
    ensures
        held == held_in_row(left, column, end as int),
{
    if column <= left {
        if left < u16::MAX {
            left + 1
        } else {
            u16::MAX
        }
    } else if column as usize >= end {
        end as u16
    } else {
        column
    }
}

/// The number of cells that an editor takes for the given number of bytes.
fn cells_of(hex: bool, bytes: usize) -> (count: usize)
    requires
        bytes <= u16::MAX,
    ensures
        count == cells(
            if hex {
                Window::Hex
            } else {
                Window::Ascii
            },
            bytes as int,
        ),
{
    if hex {
        3 * bytes
    } else {
        bytes
    }
}

/// The byte that a drag to a cell selects. A drag past the sides of the
/// editor selects in the first or the last column; a drag above the editor or
/// below the last line with contents selects in the line before the first or
/// behind the last that the screen shows, where the contents have it.
pub open spec fn drag_target(
    window: Window,
    app: DataView,
    layout: ComponentLayouts,
    column: u16,
    row: u16,
) -> Option<(usize, Option<Nibble>)> {
    let editor = editor_rect(layout, window);
    let bytes_per_line = layout.bytes_per_line as int;
    let len = app.contents.len() as int;
    let remaining = if len >= app.start_address {
        len - app.start_address
    } else {
        0
    };
    let click_past_contents = layout.bytes_per_screen() + app.start_address > len;
    let column = held_in_row(editor.x, column, 1 + editor.x + cells(window, bytes_per_line));
    let lines = if layout.lines_per_screen <= remaining / bytes_per_line {
        layout.lines_per_screen as int
    } else {
        remaining / bytes_per_line
    };
    let bottom_row = editor.y + 1 + lines;
    if row == 0 {
        match cursor_target(window, app, layout, column, 1) {
            Some((position, nibble)) => Some(
                (
                    if position >= bytes_per_line {
                        (position - bytes_per_line) as usize
                    } else {
                        position
                    },
                    nibble,
                ),
            ),
            None => None,
        }
    } else if row > bottom_row {
        let last_end = 1 + editor.x + cells(window, remaining % bytes_per_line);
        let column: u16 = if click_past_contents && column >= last_end {
            last_end as u16
        } else {
            column
        };
        let row = if click_past_contents {
            bottom_row as u16
        } else {
            (bottom_row - 1) as u16
        };
        match cursor_target(window, app, layout, column, row) {
            Some((position, nibble)) => Some(
                (
                    if position + bytes_per_line < len {
                        (position + bytes_per_line) as usize
                    } else {
                        position
                    },
                    nibble,
                ),
            ),
            None => None,
        }
    } else {
        cursor_target(window, app, layout, column, row)
    }
}

/// Finds the byte at a cell of an editor.
pub fn handle_editor_cursor_action(window: Window, app: &Application, column: u16, row: u16) -> (target:
    Option<(usize, Option<Nibble>)>)
    requires
        app.wf(),
        window == Window::Hex || window == Window::Ascii,
    ensures
        target == cursor_target(window, app.data@, app.display.comp_layouts, column, row),
        target matches Some((position, nibble)) ==> position < app.data@.contents.len() && (
        nibble is Some <==> window == Window::Hex),
{
    proof {
        app.data.contents.lemma_window_is_current();
    }
    let hex = match window {
        Window::Hex => true,
        _ => false,
    };
    let editor = if hex {
        app.display.comp_layouts.hex
    } else {
        app.display.comp_layouts.ascii
    };
    let bytes_per_line = app.display.comp_layouts.bytes_per_line;
    let rel_x: usize = if column >= editor.x {
        (column - editor.x) as usize
    } else {
        0
    };
    let rel_y: usize = if row >= editor.y {
        (row - editor.y) as usize
    } else {
        0
    };
    let height = editor.height as usize;
    let width = editor.width as usize;
    let row_end = if hex {
        bytes_per_line * 3 - 1
    } else {
        bytes_per_line
    };
    if rel_y + 2 == height && rel_x > row_end {
        return None;
    }
    if rel_y > 0 && rel_x > 0 && height > rel_y + 1 && width > rel_x + 1 {
        assert((rel_y - 1) * bytes_per_line <= u16::MAX * u16::MAX) by (nonlinear_arith)
            requires
                rel_y <= u16::MAX,
                bytes_per_line <= u16::MAX,
                rel_y >= 1,
        ;
        let within = (rel_y - 1) * bytes_per_line + if hex {
            rel_x / 3
        } else {
            rel_x - 1
        };
        match app.data.start_address.checked_add(within) {
            Some(position) => {
                if position < app.data.contents.len() {
                    if hex {
                        if rel_x % 3 < 2 {
                            return Some((position, Some(Nibble::Beginning)));
                        }
                        return Some((position, Some(Nibble::End)));
                    }
                    return Some((position, None));
                }
            },
            None => {},
        }
    }
    None
}

/// Takes a click on an editor: the editor gets the focus, and a click on a
/// byte ends a drag that was under way and lets a new one begin.
pub fn handle_editor_click(window: Window, app: &mut Application, column: u16, row: u16) -> (target:
    Option<(usize, Option<Nibble>)>)
    requires
        old(app).wf(),
        window == Window::Hex || window == Window::Ascii,
    ensures
        final(app).wf(),
        target == cursor_target(window, old(app).data@, old(app).display.comp_layouts, column, row),
        target matches Some((position, nibble)) ==> position < old(app).data@.contents.len() && (
        nibble is Some <==> window == Window::Hex),
        final(app).key_handler@ == crate::app::focused(window),
        final(app).data@ == (DataView {
            editor: if window == Window::Hex {
                crate::windows::editor::Editor::Hex
            } else {
                crate::windows::editor::Editor::Ascii
            },
            last_drag: if target is Some {
                None
            } else {
                old(app).data.last_drag
            },
            drag_nibble: if target is Some {
                None
            } else {
                old(app).data.drag_nibble
            },
            drag_enabled: target is Some,
            ..old(app).data@
        }),
        final(app).data.contents == old(app).data.contents,
        final(app).display == old(app).display,
        final(app).labels == old(app).labels,
{
    app.set_focused_window(window);
    let res = handle_editor_cursor_action(window, app, column, row);
    if res.is_some() {
        app.data.last_drag = None;
        app.data.drag_nibble = None;
        app.data.drag_enabled = true;
    } else {
        app.data.drag_enabled = false;
    }
    res
}

/// Finds the byte that a drag to a cell selects.
#[verifier::rlimit(40)]
pub fn handle_editor_drag(window: Window, app: &Application, column: u16, row: u16) -> (target:
    Option<(usize, Option<Nibble>)>)
    requires
        app.wf(),
        window == Window::Hex || window == Window::Ascii,
    ensures
        target == drag_target(window, app.data@, app.display.comp_layouts, column, row),
        target matches Some((position, nibble)) ==> position < app.data@.contents.len() && (
        nibble is Some <==> window == Window::Hex),
{
    proof {
        app.data.contents.lemma_window_is_current();
    }
    let hex = match window {
        Window::Hex => true,
        _ => false,
    };
    let editor = if hex {
        app.display.comp_layouts.hex
    } else {
        app.display.comp_layouts.ascii
    };
    let bytes_per_line = app.display.comp_layouts.bytes_per_line;
    let lines_per_screen = app.display.comp_layouts.lines_per_screen;
    let len = app.data.contents.len();
    let start_address = app.data.start_address;
    let remaining = if len >= start_address {
        len - start_address
    } else {
        0
    };
    let per_screen = crate::windows::editor::bytes_per_screen(&app.display.comp_layouts);
    let click_past_contents = per_screen > remaining || start_address > len;
    let column = hold_in_row(
        editor.x,
        column,
        1 + editor.x as usize + cells_of(hex, bytes_per_line),
    );
    let rows = remaining / bytes_per_line;
    let rest = remaining % bytes_per_line;
    assert(rest < bytes_per_line) by (nonlinear_arith)
        requires
            rest == remaining % bytes_per_line,
            bytes_per_line > 0,
    ;
    let lines = if lines_per_screen <= rows {
        lines_per_screen
    } else {
        rows
    };
    let bottom_row: usize = editor.y as usize + 1 + lines;
    if row == 0 {
        match handle_editor_cursor_action(window, app, column, 1) {
            Some((position, nibble)) => {
                if position >= bytes_per_line {
                    Some((position - bytes_per_line, nibble))
                } else {
                    Some((position, nibble))
                }
            },
            None => None,
        }
    } else if row as usize > bottom_row {
        let last_end: usize = 1 + editor.x as usize + cells_of(hex, rest);
        let column: u16 = if click_past_contents && column as usize >= last_end {
            last_end as u16
        } else {
            column
        };
        let row: u16 = if click_past_contents {
            bottom_row as u16
        } else {
            (bottom_row - 1) as u16
        };
        match handle_editor_cursor_action(window, app, column, row) {
            Some((position, nibble)) => {
                if bytes_per_line < len - position {
                    Some((position + bytes_per_line, nibble))
                } else {
                    Some((position, nibble))
                }
            },
            None => None,
        }
    } else {
        handle_editor_cursor_action(window, app, column, row)
    }
}

/// Whether what has the focus is a popup.
pub open spec fn popup_enabled(handler: KeyHandlerView) -> bool {
    !(handler.window() == Window::Hex || handler.window() == Window::Ascii)
}

/// The offset of the first byte on the screen after the wheel was turned
/// down: a line further, unless the screen shows the last lines already.
pub open spec fn scrolled_down(app: DataView, layout: ComponentLayouts) -> usize {
    let content_lines = app.contents.len() as int / layout.bytes_per_line as int + 1;
    let start_row = app.start_address as int / layout.bytes_per_line as int;
    if start_row + layout.lines_per_screen < content_lines {
        if app.start_address + layout.bytes_per_line <= usize::MAX {
            (app.start_address + layout.bytes_per_line) as usize
        } else {
            usize::MAX
        }
    } else {
        app.start_address
    }
}

/// What is left to do after the mouse did something.
pub open spec fn mouse_reaction(
    last_click: Window,
    component: Window,
    kind: MouseEventKind,
) -> Reaction {
    match (kind, component) {
        (MouseEventKind::Up, Window::Label(i)) => if last_click == component {
            Reaction::Copy(i)
        } else {
            Reaction::Continue
        },
        _ => Reaction::Continue,
    }
}

/// The state after a click on `component`. The click is kept as the last one.
/// On an editor, the editor is the one that gets the focus back from a
/// popup, and a click on a byte moves the cursor there, ends a drag that was
/// under way and lets a new one begin.
pub open spec fn after_click(
    app: DataView,
    layout: ComponentLayouts,
    component: Window,
    column: u16,
    row: u16,
) -> DataView {
    let clicked = DataView { last_click: component, ..app };
    if component == Window::Hex || component == Window::Ascii {
        let focused = DataView {
            editor: if component == Window::Hex {
                Editor::Hex
            } else {
                Editor::Ascii
            },
            ..clicked
        };
        match cursor_target(component, app, layout, column, row) {
            Some((position, nibble)) => DataView {
                offset: position,
                nibble: match nibble {
                    Some(nibble) => nibble,
                    None => app.nibble,
                },
                last_drag: None,
                drag_nibble: None,
                drag_enabled: true,
                ..focused
            },
            None => DataView { drag_enabled: false, ..focused },
        }
    } else {
        clicked
    }
}

/// The state after a drag to a cell. A drag that began with a click on a
/// byte of an editor moves the cursor to the byte that it selects and the
/// screen after it, and keeps where it began.
pub open spec fn after_drag(app: DataView, layout: ComponentLayouts, column: u16, row: u16) -> DataView {
    if app.drag_enabled && (app.last_click == Window::Hex || app.last_click == Window::Ascii) {
        match drag_target(app.last_click, app, layout, column, row) {
            Some((position, nibble)) => (DataView {
                offset: position,
                nibble: match nibble {
                    Some(nibble) => nibble,
                    None => app.nibble,
                },
                last_drag: match app.last_drag {
                    Some(drag) => Some(drag),
                    None => Some(app.offset),
                },
                drag_nibble: if app.last_click == Window::Hex && app.last_drag is None {
                    Some(app.nibble)
                } else {
                    app.drag_nibble
                },
                ..app
            }).adjusted(layout),
            None => app,
        }
    } else {
        app
    }
}

/// The state after the mouse did something at a cell over `component`.
pub open spec fn after_mouse(
    app: DataView,
    layout: ComponentLayouts,
    component: Window,
    mouse: MouseEvent,
) -> DataView {
    match mouse.kind {
        MouseEventKind::Down => after_click(app, layout, component, mouse.column, mouse.row),
        MouseEventKind::Drag => after_drag(app, layout, mouse.column, mouse.row),
        MouseEventKind::ScrollUp => DataView {
            start_address: if app.start_address >= layout.bytes_per_line {
                (app.start_address - layout.bytes_per_line) as usize
            } else {
                0
            },
            ..app
        },
        MouseEventKind::ScrollDown => DataView {
            start_address: scrolled_down(app, layout),
            ..app
        },
        _ => app,
    }
}

/// Takes what the mouse did. A click on an editor gives it the focus and
/// moves the cursor; a drag from there moves the cursor and keeps where the
/// drag began; the end of a click on a label asks for the label to be copied;
/// the wheel moves the screen by a line.
pub fn handle_mouse_input(app: &mut Application, mouse: MouseEvent) -> (reaction: Reaction)
    requires
        old(app).wf(),
    ensures
        final(app).wf(),
        reaction == mouse_reaction(
            old(app).data.last_click,
            old(app).display.comp_layouts.component_at(
                mouse.column,
                mouse.row,
                popup_enabled(old(app).key_handler@),
            ),
            mouse.kind,
        ),
        final(app).data@ == after_mouse(
            old(app).data@,
            old(app).display.comp_layouts,
            old(app).display.comp_layouts.component_at(
                mouse.column,
                mouse.row,
                popup_enabled(old(app).key_handler@),
            ),
            mouse,
        ),
        final(app).key_handler@ == if mouse.kind == MouseEventKind::Down && (final(app).data.last_click
            == Window::Hex || final(app).data.last_click == Window::Ascii) {
            focused(final(app).data.last_click)
        } else {
            old(app).key_handler@
        },
        final(app).data.contents == old(app).data.contents,
        final(app).display == old(app).display,
        final(app).labels == old(app).labels,
{
    let enabled = !(app.key_handler.is_focusing(Window::Hex) || app.key_handler.is_focusing(
        Window::Ascii,
    ));
    let component = app.display.identify_clicked_component(mouse.row, mouse.column, enabled);
    match mouse.kind {
        MouseEventKind::Down => {
            mouse_down(app, component, mouse.column, mouse.row);
        },
        MouseEventKind::Drag => {
            mouse_drag(app, mouse.column, mouse.row);
        },
        MouseEventKind::Up => {
            match component {
                Window::Label(i) => {
                    if app.data.last_click == component {
                        return Reaction::Copy(i);
                    }
                },
                _ => {},
            }
        },
        MouseEventKind::ScrollUp => {
            let bytes_per_line = app.display.comp_layouts.bytes_per_line;
            app.data.start_address = app.data.start_address.saturating_sub(bytes_per_line);
        },
        MouseEventKind::ScrollDown => {
            scroll_down(app);
        },
        MouseEventKind::Other => {},
    }
    Reaction::Continue
}

/// Takes a click on `component`.
fn mouse_down(app: &mut Application, component: Window, column: u16, row: u16)
    requires
        old(app).wf(),
    ensures
        final(app).wf(),
        final(app).data@ == after_click(
            old(app).data@,
            old(app).display.comp_layouts,
            component,
            column,
            row,
        ),
        final(app).key_handler@ == if component == Window::Hex || component == Window::Ascii {
            focused(component)
        } else {
            old(app).key_handler@
        },
        final(app).data.contents == old(app).data.contents,
        final(app).display == old(app).display,
        final(app).labels == old(app).labels,
{
    app.data.last_click = component;
    match component {
        Window::Ascii => {
            if let Some((cursor_pos, _)) = handle_editor_click(Window::Ascii, app, column, row) {
                app.data.offset = cursor_pos;
            }
        },
        Window::Hex => {
            if let Some((cursor_pos, Some(nibble))) = handle_editor_click(
                Window::Hex,
                app,
                column,
                row,
            ) {
                app.data.offset = cursor_pos;
                app.data.nibble = nibble;
            }
        },
        _ => {},
    }
}

/// Takes a drag to a cell.
fn mouse_drag(app: &mut Application, column: u16, row: u16)
    requires
        old(app).wf(),
    ensures
        final(app).wf(),
        final(app).data@ == after_drag(old(app).data@, old(app).display.comp_layouts, column, row),
        final(app).key_handler == old(app).key_handler,
        final(app).data.contents == old(app).data.contents,
        final(app).display == old(app).display,
        final(app).labels == old(app).labels,
{
    if app.data.drag_enabled {
        match app.data.last_click {
            Window::Ascii => {
                if let Some((cursor_pos, _)) = handle_editor_drag(Window::Ascii, app, column, row) {
                    if app.data.last_drag.is_none() {
                        app.data.last_drag = Some(app.data.offset);
                    }
                    app.data.offset = cursor_pos;
                    adjust_offset(&mut app.data, &app.display);
                }
            },
            Window::Hex => {
                if let Some((cursor_pos, Some(nibble))) = handle_editor_drag(
                    Window::Hex,
                    app,
                    column,
                    row,
                ) {
                    if app.data.last_drag.is_none() {
                        app.data.last_drag = Some(app.data.offset);
                        app.data.drag_nibble = Some(app.data.nibble);
                    }
                    app.data.offset = cursor_pos;
                    app.data.nibble = nibble;
                    adjust_offset(&mut app.data, &app.display);
                }
            },
            _ => {},
        }
    }
}

/// Moves the screen down by a line, unless it shows the last lines already.
fn scroll_down(app: &mut Application)
    requires
        old(app).wf(),
    ensures
        final(app).wf(),
        final(app).data@ == (DataView {
            start_address: scrolled_down(old(app).data@, old(app).display.comp_layouts),
            ..old(app).data@
        }),
        final(app).key_handler == old(app).key_handler,
        final(app).data.contents == old(app).data.contents,
        final(app).display == old(app).display,
        final(app).labels == old(app).labels,
{
    proof {
        app.data.contents.lemma_window_is_current();
    }
    let bytes_per_line = app.display.comp_layouts.bytes_per_line;
    let lines_per_screen = app.display.comp_layouts.lines_per_screen;
    let full_lines = app.data.contents.len() / bytes_per_line;
    let start_row = app.data.start_address / bytes_per_line;
    if lines_per_screen <= full_lines && start_row <= full_lines - lines_per_screen {
        app.data.start_address = app.data.start_address.saturating_add(bytes_per_line);
    }
}

/// The other byte order.
pub open spec fn switched(endianness: Endianness) -> Endianness {
    match endianness {
        Endianness::LittleEndian => Endianness::BigEndian,
        Endianness::BigEndian => Endianness::LittleEndian,
    }
}

/// What has the focus after a popup was asked for or sent away with its key:
/// the popup if it was not open, the editor if it was.
pub open spec fn toggled_popup(handler: KeyHandlerView, data: DataView, popup: Window) -> KeyHandlerView {
    if handler.window() == popup {
        KeyHandlerView::Editor(data.editor)
    } else {
        focused(popup)
    }
}

/// What has the focus after quitting was asked for: the popup for unsaved
/// changes, where there are any and it is not open already.
pub open spec fn asked_to_quit(handler: KeyHandlerView, data: DataView) -> KeyHandlerView {
    if handler.window() != Window::UnsavedChanges && data.dirty {
        focused(Window::UnsavedChanges)
    } else {
        handler
    }
}

/// What has the focus and the state of the session after a character was
/// typed with control held down.
pub open spec fn after_control(
    handler: KeyHandlerView,
    data: DataView,
    layout: ComponentLayouts,
    c: char,
) -> (KeyHandlerView, DataView) {
    if c == 'j' {
        (toggled_popup(handler, data, Window::JumpToByte), data)
    } else if c == 'f' {
        (toggled_popup(handler, data, Window::Search), data)
    } else if c == 'q' {
        (asked_to_quit(handler, data), data)
    } else if c == 'd' {
        (
            handler,
            match handler {
                KeyHandlerView::Editor(editor) => editor.after_page_down(data, layout),
                _ => data,
            },
        )
    } else if c == 'u' {
        (
            handler,
            match handler {
                KeyHandlerView::Editor(editor) => editor.after_page_up(data, layout),
                _ => data,
            },
        )
    } else if c == 'n' {
        (handler, data.searched(SearchDirection::Forward, layout))
    } else if c == 'p' {
        (handler, data.searched(SearchDirection::Backward, layout))
    } else if c == 'z' {
        (handler, data.undone())
    } else {
        (handler, data)
    }
}

/// What is left to do after a character was typed with control held down.
pub open spec fn control_reaction(handler: KeyHandlerView, data: DataView, c: char) -> Reaction {
    if c == 'q' && handler.window() != Window::UnsavedChanges && !data.dirty {
        Reaction::Quit
    } else if c == 's' {
        Reaction::Save
    } else {
        Reaction::Continue
    }
}

/// What the labels are told after a character was typed with control held
/// down.
pub open spec fn labels_after_control(labels: LabelHandler, data: DataView, c: char) -> LabelHandler {
    if c == 'e' {
        LabelHandler {
            endianness: switched(labels.endianness),
            notification: Notification::EndiannessSwitched(switched(labels.endianness)),
            ..labels
        }
    } else if c == 'n' {
        LabelHandler {
            notification: data.told_after_search(SearchDirection::Forward, labels.notification),
            ..labels
        }
    } else if c == 'p' {
        LabelHandler {
            notification: data.told_after_search(SearchDirection::Backward, labels.notification),
            ..labels
        }
    } else {
        labels
    }
}

/// Takes a character that was typed with control held down: the shortcuts.
pub fn handle_control_options(c: char, app: &mut Application) -> (reaction: Reaction)
    requires
        old(app).wf(),
    ensures
        final(app).wf(),
        reaction == control_reaction(old(app).key_handler@, old(app).data@, c),
        (final(app).key_handler@, final(app).data@) == after_control(
            old(app).key_handler@,
            old(app).data@,
            old(app).display.comp_layouts,
            c,
        ),
        final(app).labels == labels_after_control(old(app).labels, old(app).data@, c),
        final(app).display == old(app).display,
        c == 's' ==> final(app).data.contents.pending().len() == 0,
{
    if c == 'j' {
        if app.key_handler.is_focusing(Window::JumpToByte) {
            app.focus_editor();
        } else {
            app.set_focused_window(Window::JumpToByte);
        }
    } else if c == 'f' {
        if app.key_handler.is_focusing(Window::Search) {
            app.focus_editor();
        } else {
            app.set_focused_window(Window::Search);
        }
    } else if c == 'q' {
        if !app.key_handler.is_focusing(Window::UnsavedChanges) {
            if !app.data.dirty {
                return Reaction::Quit;
            }
            app.set_focused_window(Window::UnsavedChanges);
        }
    } else if c == 's' {
        app.data.contents.block();
        return Reaction::Save;
    } else if c == 'e' {
        app.labels.switch_endianness();
        app.labels.notification = Notification::EndiannessSwitched(app.labels.endianness);
    } else if c == 'd' {
        app.key_handler.page_down(&mut app.data, &app.display, &mut app.labels);
    } else if c == 'u' {
        app.key_handler.page_up(&mut app.data, &app.display, &mut app.labels);
    } else if c == 'n' {
        perform_search(&mut app.data, &app.display, &mut app.labels, &SearchDirection::Forward);
    } else if c == 'p' {
        perform_search(&mut app.data, &app.display, &mut app.labels, &SearchDirection::Backward);
    } else if c == 'z' {
        app.data.undo();
    }
    Reaction::Continue
}

/// The number of bits that the stream labels show after a character was
/// typed with alt held down: one more for `=`, up to 64, and one fewer for
/// `-`, down to none.
pub open spec fn stream_length_after_alt(length: usize, c: char) -> usize {
    if c == '=' {
        if length + 1 <= 64 {
            (length + 1) as usize
        } else {
            64
        }
    } else if c == '-' {
        if length > 0 {
            (length - 1) as usize
        } else {
            0
        }
    } else {
        length
    }
}

/// What has the focus and the state of the session after a character was
/// typed with nothing but shift held down. In the hexadecimal editor some
/// characters move the cursor, `q` asks to quit and `/` opens the search;
/// every other character goes to what has the focus.
pub open spec fn after_plain_char(
    handler: KeyHandlerView,
    data: DataView,
    layout: ComponentLayouts,
    c: char,
) -> (KeyHandlerView, DataView) {
    if handler.window() == Window::Hex && c == 'q' {
        (asked_to_quit(handler, data), data)
    } else if handler.window() == Window::Hex && c == 'h' {
        (handler, Editor::Hex.after_left(data, layout))
    } else if handler.window() == Window::Hex && c == 'l' {
        (handler, Editor::Hex.after_right(data, layout))
    } else if handler.window() == Window::Hex && c == 'k' {
        (handler, Editor::Hex.after_up(data, layout))
    } else if handler.window() == Window::Hex && c == 'j' {
        (handler, Editor::Hex.after_down(data, layout))
    } else if handler.window() == Window::Hex && c == '^' {
        (handler, Editor::Hex.after_home(data, layout))
    } else if handler.window() == Window::Hex && c == '$' {
        (handler, Editor::Hex.after_end(data, layout))
    } else if handler.window() == Window::Hex && c == '/' {
        (focused(Window::Search), data)
    } else {
        (
            handler.with_char(c),
            match handler {
                KeyHandlerView::Editor(editor) => editor.after_char(data, layout, c),
                _ => data,
            },
        )
    }
}

/// What the user is told after a character was typed with nothing but shift
/// held down.
pub open spec fn told_after_plain_char(
    handler: KeyHandlerView,
    c: char,
    before: Notification,
) -> Notification {
    if handler == KeyHandlerView::Editor(Editor::Ascii) {
        before
    } else if handler.window() == Window::Hex && (c == 'q' || c == 'h' || c == 'l' || c == 'k'
        || c == 'j' || c == '^' || c == '$' || c == '/') {
        before
    } else {
        match handler {
            KeyHandlerView::Editor(editor) => editor.told_after_char(c, before),
            _ => before,
        }
    }
}

/// What has the focus and the state of the session after a character was
/// typed.
pub open spec fn after_character(
    handler: KeyHandlerView,
    data: DataView,
    layout: ComponentLayouts,
    c: char,
    modifiers: KeyModifiers,
) -> (KeyHandlerView, DataView) {
    match modifiers {
        KeyModifiers::Control => after_control(handler, data, layout, c),
        KeyModifiers::Plain => after_plain_char(handler, data, layout, c),
        _ => (handler, data),
    }
}

/// What is left to do after a character was typed.
pub open spec fn character_reaction(
    handler: KeyHandlerView,
    data: DataView,
    c: char,
    modifiers: KeyModifiers,
) -> Reaction {
    match modifiers {
        KeyModifiers::Control => control_reaction(handler, data, c),
        KeyModifiers::Plain => if handler.window() == Window::Hex && c == 'q' && !data.dirty {
            Reaction::Quit
        } else {
            Reaction::Continue
        },
        _ => Reaction::Continue,
    }
}

/// What the labels are told after a character was typed.
pub open spec fn labels_after_character(
    labels: LabelHandler,
    handler: KeyHandlerView,
    data: DataView,
    c: char,
    modifiers: KeyModifiers,
) -> LabelHandler {
    match modifiers {
        KeyModifiers::Control => labels_after_control(labels, data, c),
        KeyModifiers::Alt => LabelHandler {
            stream_length: stream_length_after_alt(labels.stream_length, c),
            ..labels
        },
        KeyModifiers::Plain => LabelHandler {
            notification: told_after_plain_char(handler, c, labels.notification),
            ..labels
        },
        KeyModifiers::Other => labels,
    }
}

/// Takes a character that was typed: a shortcut, a change of the stream
/// length, a move in the hexadecimal editor, or a character for what has the
/// focus.
pub fn handle_character_input(app: &mut Application, c: char, modifiers: KeyModifiers) -> (reaction:
    Reaction)
    requires
        old(app).wf(),
    ensures
        final(app).wf(),
        reaction == character_reaction(old(app).key_handler@, old(app).data@, c, modifiers),
        (final(app).key_handler@, final(app).data@) == after_character(
            old(app).key_handler@,
            old(app).data@,
            old(app).display.comp_layouts,
            c,
            modifiers,
        ),
        final(app).labels == labels_after_character(
            old(app).labels,
            old(app).key_handler@,
            old(app).data@,
            c,
            modifiers,
        ),
        final(app).display == old(app).display,
{
    match modifiers {
        KeyModifiers::Control => {
            return handle_control_options(c, app);
        },
        KeyModifiers::Alt => {
            if c == '=' {
                let length = app.labels.get_stream_length();
                app.labels.update_stream_length(
                    if length < 64 {
                        length + 1
                    } else {
                        64
                    },
                );
            } else if c == '-' {
                let length = app.labels.get_stream_length();
                app.labels.update_stream_length(length.saturating_sub(1));
            }
        },
        KeyModifiers::Plain => {
            let is_hex = app.key_handler.is_focusing(Window::Hex);
            if is_hex && c == 'q' {
                if !app.data.dirty {
                    return Reaction::Quit;
                }
                app.set_focused_window(Window::UnsavedChanges);
            } else if is_hex && c == 'h' {
                app.key_handler.left(&mut app.data, &app.display, &mut app.labels);
            } else if is_hex && c == 'l' {
                app.key_handler.right(&mut app.data, &app.display, &mut app.labels);
            } else if is_hex && c == 'k' {
                app.key_handler.up(&mut app.data, &app.display, &mut app.labels);
            } else if is_hex && c == 'j' {
                app.key_handler.down(&mut app.data, &app.display, &mut app.labels);
            } else if is_hex && c == '^' {
                app.key_handler.home(&mut app.data, &app.display, &mut app.labels);
            } else if is_hex && c == '$' {
                app.key_handler.end(&mut app.data, &app.display, &mut app.labels);
            } else if is_hex && c == '/' {
                app.set_focused_window(Window::Search);
            } else {
                app.key_handler.char(&mut app.data, &app.display, &mut app.labels, c);
            }
        },
        KeyModifiers::Other => {},
    }
    Reaction::Continue
}

/// What has the focus and the state of the session after a key.
pub open spec fn after_key(
    handler: KeyHandlerView,
    data: DataView,
    layout: ComponentLayouts,
    key: KeyEvent,
) -> (KeyHandlerView, DataView) {
    match key.code {
        KeyCode::Left => (
            match handler {
                KeyHandlerView::UnsavedChanges(_) => KeyHandlerView::UnsavedChanges(true),
                other => other,
            },
            match handler {
                KeyHandlerView::Editor(editor) => editor.after_left(data, layout),
                _ => data,
            },
        ),
        KeyCode::Right => (
            match handler {
                KeyHandlerView::UnsavedChanges(_) => KeyHandlerView::UnsavedChanges(false),
                other => other,
            },
            match handler {
                KeyHandlerView::Editor(editor) => editor.after_right(data, layout),
                _ => data,
            },
        ),
        KeyCode::Up => (
            handler,
            match handler {
                KeyHandlerView::Editor(editor) => editor.after_up(data, layout),
                _ => data,
            },
        ),
        KeyCode::Down => (
            handler,
            match handler {
                KeyHandlerView::Editor(editor) => editor.after_down(data, layout),
                _ => data,
            },
        ),
        KeyCode::Home => (
            handler,
            match handler {
                KeyHandlerView::Editor(editor) => editor.after_home(data, layout),
                _ => data,
            },
        ),
        KeyCode::End => (
            handler,
            match handler {
                KeyHandlerView::Editor(editor) => editor.after_end(data, layout),
                _ => data,
            },
        ),
        KeyCode::PageUp => (
            handler,
            match handler {
                KeyHandlerView::Editor(editor) => editor.after_page_up(data, layout),
                _ => data,
            },
        ),
        KeyCode::PageDown => (
            handler,
            match handler {
                KeyHandlerView::Editor(editor) => editor.after_page_down(data, layout),
                _ => data,
            },
        ),
        KeyCode::Backspace => (
            handler.with_backspace(),
            match handler {
                KeyHandlerView::Editor(editor) => editor.after_backspace(data, layout),
                _ => data,
            },
        ),
        KeyCode::Delete => (
            handler,
            match handler {
                KeyHandlerView::Editor(editor) => editor.after_delete(data, layout),
                _ => data,
            },
        ),
        KeyCode::Esc => (KeyHandlerView::Editor(data.editor), data),
        KeyCode::Enter => if handler == KeyHandlerView::UnsavedChanges(true) {
            (handler, data)
        } else {
            (KeyHandlerView::Editor(data.editor), handler.after_enter(data, layout))
        },
        KeyCode::Char(c) => after_character(handler, data, layout, c, key.modifiers),
        KeyCode::Other => (handler, data),
    }
}

/// What is left to do after a key.
pub open spec fn key_reaction(handler: KeyHandlerView, data: DataView, key: KeyEvent) -> Reaction {
    match key.code {
        KeyCode::Enter => if handler == KeyHandlerView::UnsavedChanges(true) {
            Reaction::Quit
        } else {
            Reaction::Continue
        },
        KeyCode::Char(c) => character_reaction(handler, data, c, key.modifiers),
        _ => Reaction::Continue,
    }
}

/// What the labels are told after a key.
pub open spec fn labels_after_key(
    labels: LabelHandler,
    handler: KeyHandlerView,
    data: DataView,
    key: KeyEvent,
) -> LabelHandler {
    match key.code {
        KeyCode::Enter => if handler == KeyHandlerView::UnsavedChanges(true) {
            labels
        } else {
            LabelHandler {
                notification: handler.told_after_enter(data, labels.notification),
                ..labels
            }
        },
        KeyCode::Char(c) => labels_after_character(labels, handler, data, c, key.modifiers),
        _ => labels,
    }
}

/// Takes a key: hands it to what has the focus, closes a popup, or ends the
/// session on "yes" in the popup for unsaved changes.
pub fn handle_key_input(app: &mut Application, key: KeyEvent) -> (reaction: Reaction)
    requires
        old(app).wf(),
    ensures
        final(app).wf(),
        reaction == key_reaction(old(app).key_handler@, old(app).data@, key),
        (final(app).key_handler@, final(app).data@) == after_key(
            old(app).key_handler@,
            old(app).data@,
            old(app).display.comp_layouts,
            key,
        ),
        final(app).labels == labels_after_key(
            old(app).labels,
            old(app).key_handler@,
            old(app).data@,
            key,
        ),
        final(app).display == old(app).display,
{
    match key.code {
        KeyCode::Left => {
            app.key_handler.left(&mut app.data, &app.display, &mut app.labels);
        },
        KeyCode::Right => {
            app.key_handler.right(&mut app.data, &app.display, &mut app.labels);
        },
        KeyCode::Up => {
            app.key_handler.up(&mut app.data, &app.display, &mut app.labels);
        },
        KeyCode::Down => {
            app.key_handler.down(&mut app.data, &app.display, &mut app.labels);
        },
        KeyCode::Home => {
            app.key_handler.home(&mut app.data, &app.display, &mut app.labels);
        },
        KeyCode::End => {
            app.key_handler.end(&mut app.data, &app.display, &mut app.labels);
        },
        KeyCode::PageUp => {
            app.key_handler.page_up(&mut app.data, &app.display, &mut app.labels);
        },
        KeyCode::PageDown => {
            app.key_handler.page_down(&mut app.data, &app.display, &mut app.labels);
        },
        KeyCode::Backspace => {
            app.key_handler.backspace(&mut app.data, &app.display, &mut app.labels);
        },
        KeyCode::Delete => {
            app.key_handler.delete(&mut app.data, &app.display, &mut app.labels);
        },
        KeyCode::Esc => {
            app.focus_editor();
        },
        KeyCode::Enter => {
            if app.key_handler.is_focusing(Window::UnsavedChanges) {
                match app.key_handler.get_user_input() {
                    PopupOutput::Boolean(true) => {
                        return Reaction::Quit;
                    },
                    _ => {},
                }
            }
            app.key_handler.enter(&mut app.data, &app.display, &mut app.labels);
            app.focus_editor();
        },
        KeyCode::Char(c) => {
            return handle_character_input(app, c, key.modifiers);
        },
        KeyCode::Other => {},
    }
    Reaction::Continue
}

/// Something that happened at the terminal.
#[derive(Copy, Clone, Debug, PartialEq, Eq, Structural)]
pub enum Event {
    /// A key was pressed.
    Key(KeyEvent),
    /// The mouse did something.
    Mouse(MouseEvent),
    /// Anything else.
    Other,
}

/// The labels with nothing to tell.
pub open spec fn cleared(labels: LabelHandler) -> LabelHandler {
    LabelHandler { notification: Notification::Nothing, ..labels }
}

/// Whether two states of the labels tell the user the same and have the same
/// settings: the length of the streams and the byte order.
pub open spec fn same_settings(labels: LabelHandler, other: LabelHandler) -> bool {
    &&& labels.notification == other.notification
    &&& labels.stream_length == other.stream_length
    &&& labels.endianness == other.endianness
}

impl Application {
    /// The bytes from the cursor on as the store holds them now. Inside the
    /// window of the store these are the contents.
    pub open spec fn bytes_at_cursor(&self) -> Seq<u8> {
        self.data.contents.backing().subrange(
            self.data.offset as int,
            self.data.contents.spec_len() as int,
        )
    }

    /// Whether the labels show the numbers and the streams of the bytes at
    /// the cursor.
    pub open spec fn labels_current(&self) -> bool {
        &&& self.labels.shows_numbers(crate::label::filled(self.bytes_at_cursor(), 8))
        &&& self.labels.shows_streams(self.bytes_at_cursor())
    }

    /// Reads the numbers and the streams of the labels anew from the bytes at
    /// the cursor.
    pub fn refresh_labels(&mut self)
        requires
            old(self).data.wf(),
        ensures
            final(self).labels_current(),
            same_settings(final(self).labels, old(self).labels),
            final(self).data == old(self).data,
            final(self).display == old(self).display,
            final(self).key_handler == old(self).key_handler,
    {
        proof {
            self.data.contents.lemma_window_is_current();
        }
        let bytes = self.data.contents.read();
        let at_cursor = vstd::slice::slice_subrange(bytes, self.data.offset, bytes.len());
        proof {
            assert(at_cursor@ =~= self.bytes_at_cursor());
        }
        self.labels.update_all(at_cursor);
    }

    /// Takes something that happened at the terminal. What the user was told
    /// before is taken back when a key or the mouse comes in, the key or the
    /// mouse is handled, and the labels are read anew from the bytes at the
    /// cursor.
    pub fn handle_input(&mut self, event: Event) -> (reaction: Reaction)
        requires
            old(self).wf(),
        ensures
            final(self).wf(),
            final(self).display == old(self).display,
            match event {
                Event::Key(key) => {
                    &&& reaction == key_reaction(old(self).key_handler@, old(self).data@, key)
                    &&& (final(self).key_handler@, final(self).data@) == after_key(
                        old(self).key_handler@,
                        old(self).data@,
                        old(self).display.comp_layouts,
                        key,
                    )
                    &&& same_settings(
                        final(self).labels,
                        labels_after_key(
                            cleared(old(self).labels),
                            old(self).key_handler@,
                            old(self).data@,
                            key,
                        ),
                    )
                    &&& final(self).labels_current()
                },
                Event::Mouse(mouse) => {
                    let component = old(self).display.comp_layouts.component_at(
                        mouse.column,
                        mouse.row,
                        popup_enabled(old(self).key_handler@),
                    );
                    &&& reaction == mouse_reaction(old(self).data.last_click, component, mouse.kind)
                    &&& final(self).data@ == after_mouse(
                        old(self).data@,
                        old(self).display.comp_layouts,
                        component,
                        mouse,
                    )
                    &&& final(self).key_handler@ == if mouse.kind == MouseEventKind::Down && (
                    component == Window::Hex || component == Window::Ascii) {
                        focused(component)
                    } else {
                        old(self).key_handler@
                    }
                    &&& same_settings(final(self).labels, cleared(old(self).labels))
                    &&& final(self).labels_current()
                    &&& final(self).data.contents == old(self).data.contents
                },
                Event::Other => {
                    &&& reaction == Reaction::Continue
                    &&& final(self).data == old(self).data
                    &&& final(self).labels == old(self).labels
                    &&& final(self).key_handler == old(self).key_handler
                },
            },
    {
        match event {
            Event::Key(key) => {
                self.labels.notification = Notification::Nothing;
                let reaction = handle_key_input(self, key);
                self.refresh_labels();
                reaction
            },
            Event::Mouse(mouse) => {
                self.labels.notification = Notification::Nothing;
                let reaction = handle_mouse_input(self, mouse);
                self.refresh_labels();
                reaction
            },
            Event::Other => Reaction::Continue,
        }
    }
}

} // verus!
