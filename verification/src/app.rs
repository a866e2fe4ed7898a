//! The state of an editing session: the contents, the cursor, the undo log
//! and the search index.

use crate::buffer::AsyncBuffer;
use crate::decoder::Encoding;
use crate::label::{Endianness, Handler as LabelHandler, Notification};
use crate::screen::{ComponentLayouts, Handler as ScreenHandler};
use crate::search_index::{lemma_search_index, rebuild, search_index};
use crate::windows::search::{get_next_match_index, next_match_index, SearchDirection};
use crate::windows::editor::Editor;
use crate::windows::jump_to_byte::JumpToByte;
use crate::windows::search::Search;
use crate::windows::unsaved_changes::UnsavedChanges;
use crate::windows::{KeyHandler, KeyHandlerView, Window};
use vstd::prelude::*;
use vstd::utf8::encode_utf8;

verus! {

/// One of the two halves of a byte: its first hexadecimal digit or its second.
#[derive(PartialEq, Eq, Copy, Clone, Debug, Structural)]
pub enum Nibble {
    Beginning,
    End,
}

impl Nibble {
    /// The other half.
    pub open spec fn toggled(self) -> Nibble {
        match self {
            Nibble::Beginning => Nibble::End,
            Nibble::End => Nibble::Beginning,
        }
    }

    /// Moves on to the other half.
    pub fn toggle(&mut self)
        ensures
            *final(self) == old(self).toggled(),
    {
        match self {
            Self::Beginning => *self = Self::End,
            Self::End => *self = Self::Beginning,
        }
    }
}

/// A record of the undo log. It holds what was there before an edit.
#[derive(Copy, Clone, Debug, PartialEq, Eq)]
pub enum Action {
    /// A byte was overwritten: its offset, the byte that stood there, and the
    /// half of the byte that the cursor was on, where there was one.
    CharacterInput(usize, u8, Option<Nibble>),
    /// A byte was removed: its offset and the byte.
    Delete(usize, u8),
}

/// The contents with one record of the undo log reversed.
pub open spec fn reverted(content: Seq<u8>, action: Action) -> Seq<u8> {
    match action {
        Action::CharacterInput(offset, byte, _) => content.update(offset as int, byte),
        Action::Delete(offset, byte) => content.insert(offset as int, byte),
    }
}

/// The contents with every record of the undo log reversed, the last one
/// first.
pub open spec fn reverted_all(content: Seq<u8>, actions: Seq<Action>) -> Seq<u8>
    decreases actions.len(),
{
    if actions.len() == 0 {
        content
    } else {
        reverted_all(reverted(content, actions.last()), actions.drop_last())
    }
}

/// Whether every record of the undo log can be reversed in turn, the last one
/// first, on contents of `len` bytes that may grow to `capacity` bytes.
pub open spec fn actions_fit(actions: Seq<Action>, len: int, capacity: int) -> bool
    decreases actions.len(),
{
    if actions.len() == 0 {
        true
    } else {
        match actions.last() {
            Action::CharacterInput(offset, _, _) => {
                &&& offset < len
                &&& actions_fit(actions.drop_last(), len, capacity)
            },
            Action::Delete(offset, _) => {
                &&& offset <= len < capacity
                &&& actions_fit(actions.drop_last(), len + 1, capacity)
            },
        }
    }
}

/// Whether `action` is the record of the edit that made `after` of `before`:
/// the overwriting of one byte, or the removal of one.
pub open spec fn records(before: Seq<u8>, after: Seq<u8>, action: Action) -> bool {
    match action {
        Action::CharacterInput(offset, byte, _) => {
            &&& offset < before.len()
            &&& byte == before[offset as int]
            &&& after == before.update(offset as int, after[offset as int])
        },
        Action::Delete(offset, byte) => {
            &&& offset < before.len()
            &&& byte == before[offset as int]
            &&& after == before.remove(offset as int)
        },
    }
}

/// Undoing as many edits as were made and recorded gives back the contents
/// from before the first of them: where `history` holds the contents before
/// and after each edit and `actions` the record of each, reversing all the
/// records on the last contents gives the first.
pub proof fn lemma_undo_restores(history: Seq<Seq<u8>>, actions: Seq<Action>)
    requires
        history.len() == actions.len() + 1,
        forall|i: int|
            0 <= i < actions.len() ==> records(history[i], history[i + 1], #[trigger] actions[i]),
    ensures
        reverted_all(history.last(), actions) == history[0],
    decreases actions.len(),
{
    if actions.len() > 0 {
        let n = actions.len() as int;
        let before = history[n - 1];
        let after = history[n];
        assert(records(before, after, actions[n - 1]));
        assert(reverted(after, actions.last()) =~= before);
        let earlier = history.drop_last();
        assert forall|i: int| 0 <= i < actions.drop_last().len() implies records(
            earlier[i],
            earlier[i + 1],
            #[trigger] actions.drop_last()[i],
        ) by {
            assert(records(history[i], history[i + 1], actions[i]));
        }
        lemma_undo_restores(earlier, actions.drop_last());
    }
}

/// The state of a session as contracts speak of it.
pub struct DataView {
    pub contents: Seq<u8>,
    pub capacity: nat,
    pub encoding: Encoding,
    pub dirty: bool,
    pub start_address: usize,
    pub offset: usize,
    pub nibble: Nibble,
    pub last_click: Window,
    pub drag_enabled: bool,
    pub last_drag: Option<usize>,
    pub drag_nibble: Option<Nibble>,
    pub editor: Editor,
    pub actions: Seq<Action>,
    pub search_term: Seq<char>,
    pub search_offsets: Seq<usize>,
    pub search_stale: bool,
}

impl DataView {
    /// The bytes of the search term.
    pub open spec fn query(self) -> Seq<u8> {
        encode_utf8(self.search_term)
    }

    /// The invariant of a session. There is a byte under the cursor, every
    /// record of the undo log can be reversed, and the index is that of the
    /// search term over the contents unless it is marked as stale.
    pub open spec fn wf(self) -> bool {
        &&& self.offset < self.contents.len() <= self.capacity <= usize::MAX
        &&& actions_fit(self.actions, self.contents.len() as int, self.capacity as int)
        &&& !self.search_stale ==> self.search_offsets == search_index(self.contents, self.query())
    }

    /// The state with an index that is not stale: the index is built anew if
    /// it was.
    pub open spec fn current(self) -> DataView {
        if self.search_stale {
            self.reindexed()
        } else {
            self
        }
    }

    /// The match to go to from `from_offset`, if the search term occurs
    /// anywhere.
    pub open spec fn next_match(self, from_offset: usize, direction: SearchDirection) -> Option<
        usize,
    > {
        let index = self.current().search_offsets;
        if index.len() == 0 {
            None
        } else {
            Some(index[next_match_index(index, from_offset, direction)])
        }
    }

    /// The state with the index built anew.
    pub open spec fn reindexed(self) -> DataView {
        DataView {
            search_offsets: search_index(self.contents, self.query()),
            search_stale: false,
            ..self
        }
    }

    /// The state with the last record of the undo log reversed and taken off
    /// the log: the byte is back, the cursor is on it, and the index is stale.
    pub open spec fn undone(self) -> DataView {
        if self.actions.len() == 0 {
            self
        } else {
            match self.actions.last() {
                Action::CharacterInput(offset, byte, nibble) => DataView {
                    contents: self.contents.update(offset as int, byte),
                    offset,
                    nibble: match nibble {
                        Some(nibble) => nibble,
                        None => self.nibble,
                    },
                    actions: self.actions.drop_last(),
                    search_stale: true,
                    ..self
                },
                Action::Delete(offset, byte) => DataView {
                    contents: self.contents.insert(offset as int, byte),
                    offset,
                    actions: self.actions.drop_last(),
                    search_stale: true,
                    ..self
                },
            }
        }
    }
}

impl DataView {
    /// The state with the last `count` records of the undo log reversed.
    pub open spec fn undone_times(self, count: nat) -> DataView
        decreases count,
    {
        if count == 0 {
            self
        } else {
            self.undone().undone_times((count - 1) as nat)
        }
    }
}

/// Undoing once for each record of the undo log reverses every record, the
/// last one first, and empties the log; undoing once more changes nothing.
pub proof fn lemma_undo_all(app: DataView)
    ensures
        app.undone_times(app.actions.len()).contents == reverted_all(app.contents, app.actions),
        app.undone_times(app.actions.len()).actions.len() == 0,
        app.undone_times(app.actions.len()).undone() == app.undone_times(app.actions.len()),
    decreases app.actions.len(),
{
    if app.actions.len() > 0 {
        lemma_undo_all(app.undone());
    }
}

/// The state of a session.
pub struct Data {
    /// The contents of the file.
    pub contents: AsyncBuffer,
    /// The encoding in which the text side reads the bytes.
    pub encoding: Encoding,
    /// Whether the contents were edited and not written back since.
    pub dirty: bool,
    /// The offset of the first byte on the screen.
    pub start_address: usize,
    /// The offset of the byte under the cursor.
    pub offset: usize,
    /// The half of that byte that the cursor is on in the hexadecimal editor.
    pub nibble: Nibble,
    /// What was clicked last.
    pub last_click: Window,
    /// Whether dragging is under way.
    pub drag_enabled: bool,
    /// Where the drag began.
    pub last_drag: Option<usize>,
    /// The half of the byte on which the drag began.
    pub drag_nibble: Option<Nibble>,
    /// The editor that has the focus when no popup has it.
    pub editor: Editor,
    /// The undo log, the latest record last.
    pub actions: Vec<Action>,
    /// What the user searches for.
    pub search_term: String,
    /// The index: the offsets at which the search term occurs.
    pub search_offsets: Vec<usize>,
    /// Whether the contents or the search term changed since the index was
    /// built.
    pub search_stale: bool,
}

impl View for Data {
    type V = DataView;

    open spec fn view(&self) -> DataView {
        DataView {
            contents: self.contents@,
            capacity: self.contents.capacity(),
            encoding: self.encoding,
            dirty: self.dirty,
            start_address: self.start_address,
            offset: self.offset,
            nibble: self.nibble,
            last_click: self.last_click,
            drag_enabled: self.drag_enabled,
            last_drag: self.last_drag,
            drag_nibble: self.drag_nibble,
            editor: self.editor,
            actions: self.actions@,
            search_term: self.search_term@,
            search_offsets: self.search_offsets@,
            search_stale: self.search_stale,
        }
    }
}

impl Data {
    /// The invariant of a session: that of the contents and that of the state
    /// as contracts speak of it.
    pub open spec fn wf(&self) -> bool {
        &&& self.contents.wf()
        &&& self@.wf()
    }

    /// A session over the contents of a file, which are not empty, with the
    /// cursor at `offset`: nothing edited, nothing searched for, the
    /// hexadecimal editor in focus.
    pub fn new(contents: AsyncBuffer, encoding: Encoding, offset: usize, bytes_per_line: usize) -> (data:
        Self)
        requires
            contents.wf(),
            offset < contents.spec_len(),
            bytes_per_line > 0,
        ensures
            data.wf(),
            data.contents == contents,
            data.start_address == offset / bytes_per_line * bytes_per_line,
            data@ == (DataView {
                contents: contents@,
                capacity: contents.capacity(),
                encoding,
                dirty: false,
                start_address: (offset / bytes_per_line * bytes_per_line) as usize,
                offset,
                nibble: Nibble::Beginning,
                last_click: Window::Unhandled,
                drag_enabled: false,
                last_drag: None,
                drag_nibble: None,
                editor: Editor::Hex,
                actions: Seq::empty(),
                search_term: Seq::empty(),
                search_offsets: Seq::empty(),
                search_stale: true,
            }),
    {
        proof {
            contents.lemma_window_is_current();
            crate::windows::lemma_line_start(offset as int, bytes_per_line as int);
        }
        Data {
            contents,
            encoding,
            dirty: false,
            start_address: offset / bytes_per_line * bytes_per_line,
            offset,
            nibble: Nibble::Beginning,
            last_click: Window::Unhandled,
            drag_enabled: false,
            last_drag: None,
            drag_nibble: None,
            editor: Editor::Hex,
            actions: Vec::new(),
            search_term: String::new(),
            search_offsets: Vec::new(),
            search_stale: true,
        }
    }

    /// Builds the index anew: the worker is waited for, and the contents are
    /// scanned for the search term.
    pub fn reindex_search(&mut self)
        requires
            old(self).wf(),
        ensures
            final(self).wf(),
            final(self)@ == old(self)@.reindexed(),
    {
        self.contents.block();
        let offsets = rebuild(self.contents.read(), self.search_term.as_str().as_bytes());
        self.search_offsets = offsets;
        self.search_stale = false;
    }

    /// Makes `term` the search term. The index is stale from now on and is
    /// built anew when it is next used.
    pub fn set_query(&mut self, term: String)
        requires
            old(self).wf(),
        ensures
            final(self).wf(),
            final(self)@ == (DataView { search_term: term@, search_stale: true, ..old(self)@ }),
            final(self).contents == old(self).contents,
    {
        self.search_term = term;
        self.search_stale = true;
    }

    /// Finds the match to go to from `from_offset`: the nearest match behind
    /// it or before it, by the direction, or the first or last of all where
    /// there is none on that side. An index that is stale is built anew
    /// first. Where the search term occurs nowhere, there is no such match.
    pub fn find_next(&mut self, from_offset: usize, direction: &SearchDirection) -> (found: Option<
        usize,
    >)
        requires
            old(self).wf(),
        ensures
            final(self).wf(),
            final(self)@ == old(self)@.current(),
            found == old(self)@.next_match(from_offset, *direction),
            found matches Some(offset) ==> offset < final(self)@.contents.len(),
    {
        if self.search_stale {
            self.reindex_search();
        }
        if self.search_offsets.len() == 0 {
            return None;
        }
        proof {
            lemma_search_index(self@.contents, self@.query());
        }
        let idx = get_next_match_index(self.search_offsets.as_slice(), from_offset, direction);
        proof {
            let index = self@.search_offsets;
            assert(index.contains(index[idx as int]));
        }
        Some(self.search_offsets[idx])
    }

    /// Puts a record on the undo log. The caller does so just before it makes
    /// the edit that the record describes.
    pub fn record(&mut self, action: Action)
        ensures
            final(self)@ == (DataView { actions: old(self)@.actions.push(action), ..old(self)@ }),
            final(self).contents == old(self).contents,
    {
        self.actions.push(action);
    }

    /// Takes the last record off the undo log and reverses it. Returns whether
    /// there was a record.
    pub fn undo(&mut self) -> (undone: bool)
        requires
            old(self).wf(),
        ensures
            final(self).wf(),
            undone == (old(self)@.actions.len() > 0),
            final(self)@ == old(self)@.undone(),
            !undone ==> final(self).contents == old(self).contents,
    {
        proof {
            self.contents.lemma_window_is_current();
        }
        let last = self.actions.pop();
        assert(last is Some ==> actions_fit(
            old(self)@.actions.drop_last(),
            reverted(old(self)@.contents, last.unwrap()).len() as int,
            old(self)@.capacity as int,
        ));
        match last {
            Some(Action::CharacterInput(offset, byte, nibble)) => {
                self.offset = offset;
                if let Some(nibble) = nibble {
                    self.nibble = nibble;
                }
                self.contents.compute_new_window(offset);
                self.contents.set(offset, byte);
                self.search_stale = true;
                true
            },
            Some(Action::Delete(offset, byte)) => {
                self.contents.compute_new_window(offset);
                self.contents.insert(offset, byte);
                self.offset = offset;
                self.search_stale = true;
                true
            },
            None => false,
        }
    }
}

/// The offset of the first byte on the screen after the number of bytes in a
/// line has changed: the start of the line that has the old offset in its
/// first half or the line before in its second half.
pub open spec fn realigned_start(start_address: usize, bytes_per_line: usize) -> usize {
    let shifted = if start_address + bytes_per_line / 2 <= usize::MAX {
        start_address + bytes_per_line / 2
    } else {
        usize::MAX as int
    };
    (shifted / (bytes_per_line as int) * bytes_per_line) as usize
}

impl Data {
    /// Lays the first line of the screen anew after the number of bytes in a
    /// line has changed, so that the first line of all begins at offset zero.
    pub fn realign_start(&mut self, bytes_per_line: usize)
        requires
            bytes_per_line > 0,
        ensures
            final(self)@ == (DataView {
                start_address: realigned_start(old(self).start_address, bytes_per_line),
                ..old(self)@
            }),
            final(self).contents == old(self).contents,
            final(self).start_address % bytes_per_line == 0,
    {
        let shifted = self.start_address.saturating_add(bytes_per_line / 2);
        proof {
            crate::windows::lemma_line_start(shifted as int, bytes_per_line as int);
        }
        self.start_address = shifted / bytes_per_line * bytes_per_line;
    }
}

/// Why a session cannot begin.
#[derive(Copy, Clone, Debug, PartialEq, Eq, Structural)]
pub enum StartError {
    /// The file is empty.
    EmptyFile,
    /// The offset asked for lies behind the contents.
    OffsetTooLarge,
}

/// Whether a window can have the focus.
pub open spec fn takes_focus(window: Window) -> bool {
    window == Window::Hex || window == Window::Ascii || window == Window::JumpToByte || window
        == Window::Search || window == Window::UnsavedChanges
}

/// What has the focus when the given window has just taken it.
pub open spec fn focused(window: Window) -> KeyHandlerView {
    match window {
        Window::Ascii => KeyHandlerView::Editor(Editor::Ascii),
        Window::JumpToByte => KeyHandlerView::JumpToByte(Seq::empty()),
        Window::Search => KeyHandlerView::Search(Seq::empty()),
        Window::UnsavedChanges => KeyHandlerView::UnsavedChanges(false),
        _ => KeyHandlerView::Editor(Editor::Hex),
    }
}

/// A session with its screen, its labels and what has the focus.
pub struct Application {
    /// The state of the session.
    pub data: Data,
    /// The size of the terminal and the layout for it.
    pub display: ScreenHandler,
    /// What the labels are told.
    pub labels: LabelHandler,
    /// What has the focus and takes the keys.
    pub key_handler: KeyHandler,
}

impl Application {
    /// The invariant: that of the session and that of the layout.
    pub open spec fn wf(&self) -> bool {
        &&& self.data.wf()
        &&& self.display.comp_layouts.wf()
    }

    /// Begins a session on the contents of a file with the cursor at
    /// `offset`. The hexadecimal editor has the focus. An empty file and an
    /// offset behind the contents are refused.
    pub fn new(contents: AsyncBuffer, encoding: Encoding, offset: usize, display: ScreenHandler) -> (app:
        Result<Self, StartError>)
        requires
            contents.wf(),
            display.comp_layouts.wf(),
        ensures
            contents.spec_len() == 0 ==> app matches Err(StartError::EmptyFile),
            0 < contents.spec_len() <= offset ==> app matches Err(StartError::OffsetTooLarge),
            offset < contents.spec_len() ==> {
                &&& app matches Ok(app)
                &&& app.wf()
                &&& app.data.contents.pending().len() == 0
                &&& app.data@ == (DataView {
                    contents: contents@,
                    capacity: contents.capacity(),
                    encoding,
                    dirty: false,
                    start_address: app.data.start_address,
                    offset,
                    nibble: Nibble::Beginning,
                    last_click: Window::Unhandled,
                    drag_enabled: false,
                    last_drag: None,
                    drag_nibble: None,
                    editor: Editor::Hex,
                    actions: Seq::empty(),
                    search_term: Seq::empty(),
                    search_offsets: Seq::empty(),
                    search_stale: true,
                })
                &&& app.data.start_address == offset / display.comp_layouts.bytes_per_line
                    * display.comp_layouts.bytes_per_line
                &&& app.display == display
                &&& app.labels.notification == Notification::Nothing
                &&& app.labels.stream_length == 8
                &&& app.labels.endianness == Endianness::LittleEndian
                &&& app.labels.shows_numbers(
                    crate::label::filled(contents@.subrange(offset as int, contents@.len() as int), 8),
                )
                &&& app.labels.shows_streams(
                    contents@.subrange(offset as int, contents@.len() as int),
                )
                &&& app.labels_current()
                &&& app.key_handler@ == KeyHandlerView::Editor(Editor::Hex)
            },
    {
        if contents.is_empty() {
            return Err(StartError::EmptyFile);
        } else if offset >= contents.len() {
            return Err(StartError::OffsetTooLarge);
        }
        let bytes_per_line = display.comp_layouts.bytes_per_line;
        let mut contents = contents;
        contents.block();
        let labels = LabelHandler::new(contents.read(), offset);
        proof {
            let held = contents.backing().subrange(0, contents.spec_len() as int);
            assert(held.subrange(offset as int, held.len() as int) =~= contents.backing().subrange(
                offset as int,
                contents.spec_len() as int,
            ));
        }
        let data = Data::new(contents, encoding, offset, bytes_per_line);
        Ok(Application { data, display, labels, key_handler: KeyHandler::Editor(Editor::Hex) })
    }

    /// Gives the focus to a window. An editor that takes the focus is also
    /// the one that gets it back when a popup is closed.
    pub fn set_focused_window(&mut self, window: Window)
        requires
            takes_focus(window),
        ensures
            final(self).key_handler@ == focused(window),
            final(self).data@ == (DataView {
                editor: match window {
                    Window::Hex => Editor::Hex,
                    Window::Ascii => Editor::Ascii,
                    _ => old(self).data.editor,
                },
                ..old(self).data@
            }),
            final(self).data.contents == old(self).data.contents,
            final(self).display == old(self).display,
            final(self).labels == old(self).labels,
    {
        match window {
            Window::Ascii => {
                self.key_handler = KeyHandler::Editor(Editor::Ascii);
                self.data.editor = Editor::Ascii;
            },
            Window::JumpToByte => {
                self.key_handler = KeyHandler::JumpToByte(JumpToByte::new());
            },
            Window::Search => {
                self.key_handler = KeyHandler::Search(Search::new());
            },
            Window::UnsavedChanges => {
                self.key_handler = KeyHandler::UnsavedChanges(UnsavedChanges::new());
            },
            _ => {
                self.key_handler = KeyHandler::Editor(Editor::Hex);
                self.data.editor = Editor::Hex;
            },
        }
    }

    /// Gives the focus back to the editor that had it last.
    pub fn focus_editor(&mut self)
        ensures
            final(self).key_handler@ == KeyHandlerView::Editor(old(self).data.editor),
            final(self).data == old(self).data,
            final(self).display == old(self).display,
            final(self).labels == old(self).labels,
    {
        self.key_handler = KeyHandler::Editor(self.data.editor);
    }

    /// Takes a new size of the terminal with the layout for it. The first line
    /// of the screen is laid anew for the new length of a line.
    pub fn resize(&mut self, terminal_size: crate::screen::Rect, comp_layouts: ComponentLayouts)
        requires
            comp_layouts.wf(),
            old(self).data.wf(),
        ensures
            final(self).wf(),
            final(self).display.terminal_size == terminal_size,
            final(self).display.comp_layouts == comp_layouts,
            final(self).data@ == (DataView {
                start_address: realigned_start(
                    old(self).data.start_address,
                    comp_layouts.bytes_per_line,
                ),
                ..old(self).data@
            }),
            final(self).data.contents == old(self).data.contents,
            final(self).labels == old(self).labels,
            final(self).key_handler == old(self).key_handler,
    {
        let bytes_per_line = comp_layouts.bytes_per_line;
        self.display.terminal_size = terminal_size;
        self.display.comp_layouts = comp_layouts;
        self.data.realign_start(bytes_per_line);
    }

    /// Takes note that the contents were written back to the file.
    pub fn saved(&mut self)
        ensures
            final(self).data@ == (DataView { dirty: false, ..old(self).data@ }),
            final(self).data.contents == old(self).data.contents,
            final(self).labels == (LabelHandler {
                notification: Notification::Saved,
                ..old(self).labels
            }),
            final(self).display == old(self).display,
            final(self).key_handler == old(self).key_handler,
    {
        self.data.dirty = false;
        self.labels.notification = Notification::Saved;
    }
}

} // verus!
