//! The dimensions of what is on the screen, as far as editing depends on them.

use crate::app::{Data, DataView, Nibble};
use crate::character::RichChar;
use crate::chunk::OverlappingChunks;
use crate::decoder::{aligned_from, decode, Encoding};
use crate::windows::Window;
use vstd::prelude::*;

verus! {

/// A rectangle of terminal cells.
#[derive(Copy, Clone, Debug, PartialEq, Eq, Structural)]
pub struct Rect {
    pub x: u16,
    pub y: u16,
    pub width: u16,
    pub height: u16,
}

impl Rect {
    /// Whether the cell at `col`, `row` lies in the rectangle or on the edge
    /// just right of it or just below it. A rectangle that reaches past the
    /// last column or row that there is holds no cell.
    pub open spec fn spec_holds(&self, col: u16, row: u16) -> bool {
        &&& self.x <= col <= self.x + self.width <= u16::MAX
        &&& self.y <= row <= self.y + self.height <= u16::MAX
    }

    /// Whether a click at `col`, `row` falls on the rectangle.
    pub fn holds(&self, col: u16, row: u16) -> (inside: bool)
        ensures
            inside == self.spec_holds(col, row),
    {
        self.width <= u16::MAX - self.x && self.height <= u16::MAX - self.y && self.x <= col && col
            - self.x <= self.width && self.y <= row && row - self.y <= self.height
    }
}

/// Where the parts of the screen lie, and how many bytes the editors show.
pub struct ComponentLayouts {
    pub line_numbers: Rect,
    pub hex: Rect,
    pub ascii: Rect,
    pub labels: Vec<Rect>,
    pub popup: Rect,
    pub bytes_per_line: usize,
    pub lines_per_screen: usize,
}

/// The number of bytes that an editor of the given width shows in a line:
/// inside its border each byte takes three cells.
pub open spec fn bytes_in_width(width: u16) -> usize {
    if width >= 2 {
        ((width - 2) / 3) as usize
    } else {
        0
    }
}

/// The number of lines that an editor of the given height shows inside its
/// border.
pub open spec fn lines_in_height(height: u16) -> usize {
    if height >= 2 {
        (height - 2) as usize
    } else {
        0
    }
}

impl ComponentLayouts {
    /// The layout of the given rectangles. The hexadecimal editor decides how
    /// many bytes a line shows and how many lines there are.
    pub fn new(line_numbers: Rect, hex: Rect, ascii: Rect, labels: Vec<Rect>, popup: Rect) -> (layout:
        Self)
        ensures
            layout.line_numbers == line_numbers,
            layout.hex == hex,
            layout.ascii == ascii,
            layout.labels == labels,
            layout.popup == popup,
            layout.bytes_per_line == bytes_in_width(hex.width),
            layout.lines_per_screen == lines_in_height(hex.height),
            layout.bytes_per_line > 0 ==> layout.wf(),
    {
        let bytes_per_line = if hex.width >= 2 {
            ((hex.width - 2) / 3) as usize
        } else {
            0
        };
        let lines_per_screen = if hex.height >= 2 {
            (hex.height - 2) as usize
        } else {
            0
        };
        ComponentLayouts {
            line_numbers,
            hex,
            ascii,
            labels,
            popup,
            bytes_per_line,
            lines_per_screen,
        }
    }

    /// The number of the first label that holds the cell at `col`, `row`, or
    /// the number of labels where none does.
    pub open spec fn label_at(&self, col: u16, row: u16, from: int) -> int
        decreases self.labels@.len() - from,
    {
        if from < 0 || from >= self.labels@.len() {
            self.labels@.len() as int
        } else if self.labels@[from].spec_holds(col, row) {
            from
        } else {
            self.label_at(col, row, from + 1)
        }
    }

    /// What lies at the cell at `col`, `row`: the popup hides what is below
    /// it, then come the editors, then the labels.
    pub open spec fn component_at(&self, col: u16, row: u16, popup_enabled: bool) -> Window {
        if popup_enabled && self.popup.spec_holds(col, row) {
            Window::Unhandled
        } else if self.hex.spec_holds(col, row) {
            Window::Hex
        } else if self.ascii.spec_holds(col, row) {
            Window::Ascii
        } else if self.label_at(col, row, 0) < self.labels@.len() {
            Window::Label(self.label_at(col, row, 0) as usize)
        } else {
            Window::Unhandled
        }
    }

    /// A line shows at least one byte, and the counts are those of a terminal.
    pub open spec fn wf(&self) -> bool {
        &&& 0 < self.bytes_per_line <= u16::MAX
        &&& self.lines_per_screen <= u16::MAX
    }

    /// The number of bytes that the editors show at once.
    pub open spec fn bytes_per_screen(&self) -> int {
        self.bytes_per_line * self.lines_per_screen
    }
}

/// The size of the terminal and the layout computed for it.
pub struct Handler {
    pub terminal_size: Rect,
    pub comp_layouts: ComponentLayouts,
}

impl Handler {
    /// Tells what was clicked at the given row and column. A click on a popup
    /// that is open is a click on nothing.
    pub fn identify_clicked_component(&self, row: u16, col: u16, popup_enabled: bool) -> (window:
        Window)
        ensures
            window == self.comp_layouts.component_at(col, row, popup_enabled),
    {
        if popup_enabled && self.comp_layouts.popup.holds(col, row) {
            return Window::Unhandled;
        } else if self.comp_layouts.hex.holds(col, row) {
            return Window::Hex;
        } else if self.comp_layouts.ascii.holds(col, row) {
            return Window::Ascii;
        }
        let mut i: usize = 0;
        while i < self.comp_layouts.labels.len()
            invariant
                i <= self.comp_layouts.labels.len(),
                !(popup_enabled && self.comp_layouts.popup.spec_holds(col, row)),
                !self.comp_layouts.hex.spec_holds(col, row),
                !self.comp_layouts.ascii.spec_holds(col, row),
                self.comp_layouts.label_at(col, row, 0) == self.comp_layouts.label_at(
                    col,
                    row,
                    i as int,
                ),
            decreases self.comp_layouts.labels.len() - i,
        {
            if self.comp_layouts.labels[i].holds(col, row) {
                return Window::Label(i);
            }
            i += 1;
        }
        Window::Unhandled
    }
}

/// Whether the text editor marks the byte at `byte_pos`: the byte under the
/// cursor and, during a drag, every byte between where the drag began and the
/// cursor.
pub open spec fn text_marked(app: DataView, byte_pos: usize) -> bool {
    let drag = match app.last_drag {
        Some(drag) => drag,
        None => app.offset,
    };
    (app.offset <= byte_pos <= drag) || (drag <= byte_pos <= app.offset)
}

/// Whether the text editor marks the byte at `byte_pos`.
pub fn text_cell_marked(app: &Data, byte_pos: usize) -> (marked: bool)
    ensures
        marked == text_marked(app@, byte_pos),
{
    let last_drag = match app.last_drag {
        Some(drag) => drag,
        None => app.offset,
    };
    byte_pos == app.offset || (app.offset <= byte_pos && byte_pos <= last_drag) || (last_drag
        <= byte_pos && byte_pos <= app.offset)
}

/// Whether the hexadecimal editor marks a cell of the byte at `byte_pos`: its
/// first digit, its second digit or the space behind it, numbered 0, 1 and 2.
/// The half of a byte that the cursor is on is marked. During a drag, the
/// cells from the half where the drag began to the half where the cursor is
/// are marked, but not the space behind the last of these bytes, and nothing
/// while the cursor is where the drag began.
pub open spec fn hex_marked(app: DataView, byte_pos: usize, nibble_pos: usize) -> bool {
    let is_cursor = byte_pos == app.offset && ((nibble_pos == 0 && app.nibble == Nibble::Beginning)
        || (nibble_pos == 1 && app.nibble == Nibble::End));
    let in_drag = match app.last_drag {
        Some(drag) => {
            let drag_nibble = match app.drag_nibble {
                Some(nibble) => nibble,
                None => Nibble::End,
            };
            if drag == app.offset && app.nibble == drag_nibble {
                false
            } else {
                let start = if app.offset < drag {
                    app.offset
                } else {
                    drag
                };
                let end = if app.offset < drag {
                    drag
                } else {
                    app.offset
                };
                let start_nibble = if app.offset < drag {
                    app.nibble
                } else {
                    drag_nibble
                };
                let end_nibble = if app.offset < drag {
                    drag_nibble
                } else {
                    app.nibble
                };
                let at_start = byte_pos == start && !(nibble_pos == 0 && start_nibble
                    == Nibble::End);
                let at_end = byte_pos == end && !(nibble_pos == 1 && end_nibble
                    == Nibble::Beginning) && nibble_pos != 2;
                if start == end && nibble_pos == 2 {
                    false
                } else {
                    at_start || at_end || start < byte_pos < end
                }
            }
        },
        None => false,
    };
    is_cursor || in_drag
}

/// Whether the hexadecimal editor marks a cell of the byte at `byte_pos`.
pub fn hex_cell_marked(app: &Data, byte_pos: usize, nibble_pos: usize) -> (marked: bool)
    ensures
        marked == hex_marked(app@, byte_pos, nibble_pos),
{
    let is_cursor = byte_pos == app.offset && ((nibble_pos == 0 && app.nibble == Nibble::Beginning)
        || (nibble_pos == 1 && app.nibble == Nibble::End));
    let mut in_drag = false;
    if let Some(drag) = app.last_drag {
        let drag_nibble = match app.drag_nibble {
            Some(nibble) => nibble,
            None => Nibble::End,
        };
        if !(drag == app.offset && app.nibble == drag_nibble) {
            let mut start = drag;
            let mut end = app.offset;
            let mut start_nibble = drag_nibble;
            let mut end_nibble = app.nibble;
            if app.offset < drag {
                start = app.offset;
                end = drag;
                start_nibble = app.nibble;
                end_nibble = drag_nibble;
            }
            if byte_pos == start {
                in_drag = !(nibble_pos == 0 && start_nibble == Nibble::End);
            }
            if byte_pos == end {
                in_drag = in_drag || (!(nibble_pos == 1 && end_nibble == Nibble::Beginning)
                    && nibble_pos != 2);
            }
            if start == end && nibble_pos == 2 {
                in_drag = false;
            } else if end - start > 1 {
                in_drag = in_drag || (start < byte_pos && byte_pos < end);
            }
        }
    }
    is_cursor || in_drag
}

/// The number of lines that the screen shows of the contents from the first
/// byte on the screen: all the lines that it has room for, or those that are
/// left of the contents, the line behind the last byte counted in.
pub open spec fn rows_shown(app: DataView, layout: ComponentLayouts) -> int {
    let content_lines = app.contents.len() as int / layout.bytes_per_line as int + 1;
    let start_row = app.start_address as int / layout.bytes_per_line as int;
    if start_row >= content_lines {
        0
    } else if layout.lines_per_screen <= content_lines - start_row {
        layout.lines_per_screen as int
    } else {
        content_lines - start_row
    }
}

/// The number of lines that the screen shows of the contents.
pub fn visible_rows(app: &Data, layout: &ComponentLayouts) -> (rows: usize)
    requires
        app.wf(),
        layout.wf(),
    ensures
        rows == rows_shown(app@, *layout),
{
    proof {
        app.contents.lemma_window_is_current();
    }
    let full_lines = app.contents.len() / layout.bytes_per_line;
    let start_row = app.start_address / layout.bytes_per_line;
    if start_row > full_lines {
        0
    } else if layout.lines_per_screen <= full_lines - start_row {
        layout.lines_per_screen
    } else {
        full_lines - start_row + 1
    }
}

/// A byte as the editors show it: the byte, the character that the text
/// editor shows for it, and its offset.
#[derive(Copy, Clone, Debug, PartialEq, Eq, Structural)]
pub struct Cell {
    pub byte: u8,
    pub character: RichChar,
    pub position: usize,
}

/// The number of bytes before the first byte on the screen that are read
/// along with it, so that a character that began before the screen is read
/// whole.
pub open spec fn lead_in(start_address: usize) -> int {
    if start_address < 3 {
        start_address as int
    } else {
        3
    }
}

/// The bytes that are read for the line numbered `row` of the screen: those
/// of the line, the bytes before the first byte on the screen that are read
/// along with it, and up to six bytes more.
pub open spec fn row_chunk(bytes: Seq<u8>, start_address: usize, bytes_per_line: usize, row: int) -> Seq<
    u8,
> {
    let from = start_address - lead_in(start_address) + row * bytes_per_line;
    let to = if from + bytes_per_line + 6 <= bytes.len() {
        from + bytes_per_line + 6
    } else {
        bytes.len() as int
    };
    bytes.subrange(from, to)
}

/// The bytes that the line numbered `row` of the screen shows, each with its
/// character as the bytes read for the line decode.
pub open spec fn row_cells(
    bytes: Seq<u8>,
    encoding: Encoding,
    start_address: usize,
    bytes_per_line: usize,
    row: int,
) -> Seq<Cell> {
    let skipped = lead_in(start_address);
    let chunk = row_chunk(bytes, start_address, bytes_per_line, row);
    let decoded = aligned_from(encoding, chunk, 0);
    let shown = if chunk.len() - skipped < bytes_per_line {
        chunk.len() - skipped
    } else {
        bytes_per_line as int
    };
    Seq::new(
        (if shown > 0 {
            shown
        } else {
            0
        }) as nat,
        |col: int|
            Cell {
                byte: chunk[skipped + col],
                character: decoded[skipped + col],
                position: (start_address + row * bytes_per_line + col) as usize,
            },
    )
}

/// Whether the lines hold the bytes that the screen shows, the first line
/// beginning at `start_address`.
pub open spec fn shows_rows(
    rows: Seq<Vec<Cell>>,
    bytes: Seq<u8>,
    encoding: Encoding,
    start_address: usize,
    bytes_per_line: usize,
) -> bool {
    forall|row: int|
        0 <= row < rows.len() ==> (#[trigger] rows[row])@ == row_cells(
            bytes,
            encoding,
            start_address,
            bytes_per_line,
            row,
        )
}

/// Reads the bytes that the screen shows, line by line. A line is read
/// together with a few bytes before and behind it, so that the characters at
/// its ends are read whole. There are as many lines as the screen has, or as
/// many as begin before the end of the contents.
pub fn visible_cells(app: &Data, layout: &ComponentLayouts) -> (rows: Vec<Vec<Cell>>)
    requires
        app.wf(),
        layout.wf(),
    ensures
        rows.len() <= layout.lines_per_screen,
        app.start_address > app.contents.spec_len() ==> rows.len() == 0,
        app.start_address <= app.contents.spec_len() ==> {
            let bytes = app.contents.backing().subrange(0, app.contents.spec_len() as int);
            let span = bytes.len() - (app.start_address - lead_in(app.start_address));
            &&& shows_rows(rows@, bytes, app.encoding, app.start_address, layout.bytes_per_line)
            &&& rows.len() > 0 ==> (rows.len() - 1) * layout.bytes_per_line < span
            &&& rows.len() < layout.lines_per_screen ==> rows.len() * layout.bytes_per_line
                >= span
        },
{
    let bytes = app.contents.read();
    let mut rows: Vec<Vec<Cell>> = Vec::new();
    let start_address = app.start_address;
    if start_address > bytes.len() {
        return rows;
    }
    let bytes_per_line = layout.bytes_per_line;
    let skipped: usize = if start_address < 3 {
        start_address
    } else {
        3
    };
    let origin = start_address - skipped;
    let slice = vstd::slice::slice_subrange(bytes, origin, bytes.len());
    let mut chunks = OverlappingChunks::new(slice, bytes_per_line, 6);
    let mut row: usize = 0;
    while row < layout.lines_per_screen
        invariant
            0 < bytes_per_line <= u16::MAX,
            layout.lines_per_screen <= u16::MAX,
            row <= layout.lines_per_screen,
            bytes_per_line == layout.bytes_per_line,
            start_address == app.start_address,
            skipped == lead_in(start_address),
            origin == start_address - skipped,
            origin <= bytes@.len(),
            slice@ == bytes@.subrange(origin as int, bytes@.len() as int),
            chunks.slice == slice,
            chunks.size == bytes_per_line,
            chunks.overlap == 6,
            chunks.cursor == row * bytes_per_line,
            rows.len() == row,
            bytes@.len() <= usize::MAX,
            shows_rows(rows@, bytes@, app.encoding, start_address, bytes_per_line),
            row > 0 ==> (row - 1) * bytes_per_line < bytes@.len() - origin,
        ensures
            rows.len() <= layout.lines_per_screen,
            shows_rows(rows@, bytes@, app.encoding, start_address, bytes_per_line),
            rows.len() > 0 ==> (rows.len() - 1) * bytes_per_line < bytes@.len() - origin,
            rows.len() < layout.lines_per_screen ==> rows.len() * bytes_per_line >= bytes@.len()
                - origin,
        decreases layout.lines_per_screen - row,
    {
        proof {
            vstd::arithmetic::mul::lemma_mul_upper_bound(
                row as int,
                u16::MAX as int,
                bytes_per_line as int,
                u16::MAX as int,
            );
            vstd::arithmetic::mul::lemma_mul_nonnegative(row as int, bytes_per_line as int);
            vstd::arithmetic::mul::lemma_mul_is_distributive_add_other_way(
                bytes_per_line as int,
                row as int,
                1,
            );
        }
        let chunk = match chunks.next() {
            Some(chunk) => chunk,
            None => {
                break ;
            },
        };
        let decoded = decode(chunk, app.encoding);
        let mut cells: Vec<Cell> = Vec::new();
        let mut col: usize = 0;
        let from = origin + row * bytes_per_line;
        proof {
            assert(chunk@ =~= row_chunk(bytes@, start_address, bytes_per_line, row as int));
        }
        while col < bytes_per_line && skipped + col < chunk.len()
            invariant
                skipped <= 3,
                col <= bytes_per_line <= u16::MAX,
                skipped + col <= chunk@.len() || col == 0,
                decoded@ == aligned_from(app.encoding, chunk@, 0),
                decoded@.len() == chunk@.len(),
                from + chunk@.len() <= bytes@.len() <= usize::MAX,
                from + skipped == start_address + row * bytes_per_line,
                cells@ == Seq::new(
                    col as nat,
                    |c: int|
                        Cell {
                            byte: chunk@[skipped + c],
                            character: decoded@[skipped + c],
                            position: (start_address + row * bytes_per_line + c) as usize,
                        },
                ),
            decreases bytes_per_line - col,
        {
            cells.push(
                Cell {
                    byte: chunk[skipped + col],
                    character: decoded[skipped + col],
                    position: from + (skipped + col),
                },
            );
            col += 1;
            assert(cells@ =~= Seq::new(
                col as nat,
                |c: int|
                    Cell {
                        byte: chunk@[skipped + c],
                        character: decoded@[skipped + c],
                        position: (start_address + row * bytes_per_line + c) as usize,
                    },
            ));
        }
        proof {
            assert(cells@ =~= row_cells(
                bytes@,
                app.encoding,
                start_address,
                bytes_per_line,
                row as int,
            ));
        }
        let ghost before = rows@;
        rows.push(cells);
        proof {
            assert forall|r: int| 0 <= r < rows@.len() implies (#[trigger] rows@[r])@ == row_cells(
                bytes@,
                app.encoding,
                start_address,
                bytes_per_line,
                r,
            ) by {
                if r < row {
                    assert(rows@[r] == before[r]);
                }
            }
        }
        row += 1;
    }
    rows
}

} // verus!
