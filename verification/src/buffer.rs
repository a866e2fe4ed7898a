//! The editable byte store.
//!
//! The store keeps the bytes of a file in one backing buffer of fixed capacity.
//! A prefix of it, the hot window, is brought up to date by every edit before
//! the edit returns. What lies behind the window, the cold tail, is shifted
//! later: every edit leaves a message in an ordered queue, and a worker applies
//! the messages one at a time, in the order in which they were sent.
//!
//! The contents that a reader is meant to see are the bytes that the backing
//! buffer holds once the worker has applied every queued message. Contracts
//! speak of these contents through [`AsyncBuffer::view`].

use vstd::prelude::*;

verus! {

/// The size of the window that is kept around the cursor.
pub const SYNC_BUFF_LEN: usize = 0x10000;

/// The least distance from the cursor to the end of the window at which the
/// window is left as it is.
pub const WINDOW_MIN_DISTANCE: usize = SYNC_BUFF_LEN / 3;

/// The greatest distance from the cursor to the end of the window at which
/// the window is left as it is.
pub const WINDOW_MAX_DISTANCE: usize = SYNC_BUFF_LEN * 4 / 3;

/// What the editing side tells the worker about an edit it has made.
#[derive(Clone, Copy, Debug, PartialEq, Eq, Structural)]
pub enum EditMessage {
    /// A byte was removed inside the window: the tail moves down by one.
    Remove,
    /// A byte was inserted inside the window. The byte carried is the one that
    /// was pushed out of the window and now leads the tail.
    Add(u8),
    /// The boundary between window and tail was moved to the given offset.
    ModifyWindow(usize),
}

/// The backing bytes after the worker has applied `msg`, its frontier standing
/// at `frontier` before.
pub open spec fn apply_message(backing: Seq<u8>, frontier: int, msg: EditMessage) -> Seq<u8> {
    match msg {
        EditMessage::Remove => backing.remove(frontier - 1).push(backing.last()),
        EditMessage::Add(byte) => backing.insert(frontier, byte).drop_last(),
        EditMessage::ModifyWindow(_) => backing,
    }
}

/// Where the worker's frontier stands after `msg`.
pub open spec fn frontier_after(frontier: int, msg: EditMessage) -> int {
    match msg {
        EditMessage::Remove => frontier - 1,
        EditMessage::Add(_) => frontier,
        EditMessage::ModifyWindow(boundary) => boundary as int,
    }
}

/// Whether the worker can apply `msg` to a backing buffer of `capacity` bytes
/// without touching a byte below `floor`.
pub open spec fn message_fits(capacity: int, frontier: int, msg: EditMessage, floor: int) -> bool {
    match msg {
        EditMessage::Remove => floor < frontier <= capacity,
        EditMessage::Add(_) => floor <= frontier < capacity,
        EditMessage::ModifyWindow(boundary) => floor <= boundary <= capacity,
    }
}

/// Moves the bytes at `from + 1 .. to` down by one position. The byte at
/// `from` is overwritten, the byte at `to - 1` stays as it was.
pub fn shift_down(buf: &mut Vec<u8>, from: usize, to: usize)
    requires
        from < to <= old(buf).len(),
    ensures
        final(buf)@ == old(buf)@.remove(from as int).insert(to - 1, old(buf)@[to - 1]),
{
    let mut i: usize = from;
    while i + 1 < to
        invariant
            from <= i < to <= buf.len(),
            buf.len() == old(buf).len(),
            forall|j: int| 0 <= j < from ==> buf@[j] == old(buf)@[j],
            forall|j: int| from <= j < i ==> buf@[j] == old(buf)@[j + 1],
            forall|j: int| i <= j < buf.len() ==> buf@[j] == old(buf)@[j],
        decreases to - i,
    {
        let next = buf[i + 1];
        buf.set(i, next);
        i += 1;
    }
    assert(buf@ =~= old(buf)@.remove(from as int).insert(to - 1, old(buf)@[to - 1]));
}

/// Moves the bytes at `from .. to - 1` up by one position. The byte at `from`
/// stays as it was, the byte at `to - 1` is overwritten.
pub fn shift_up(buf: &mut Vec<u8>, from: usize, to: usize)
    requires
        from < to <= old(buf).len(),
    ensures
        final(buf)@ == old(buf)@.insert(from as int, old(buf)@[from as int]).remove(to as int),
{
    let mut i: usize = to - 1;
    while i > from
        invariant
            from <= i < to <= buf.len(),
            buf.len() == old(buf).len(),
            forall|j: int| 0 <= j <= i ==> buf@[j] == old(buf)@[j],
            forall|j: int| i < j < to ==> buf@[j] == old(buf)@[j - 1],
            forall|j: int| to <= j < buf.len() ==> buf@[j] == old(buf)@[j],
        decreases i,
    {
        let prev = buf[i - 1];
        buf.set(i, prev);
        i -= 1;
    }
    assert(buf@ =~= old(buf)@.insert(from as int, old(buf)@[from as int]).remove(to as int));
}

/// Whether the worker can apply `msg` at all: a removal needs a byte below
/// the frontier, an insertion a byte at it.
pub open spec fn message_applies(capacity: int, frontier: int, msg: EditMessage) -> bool {
    match msg {
        EditMessage::Remove => 0 < frontier <= capacity,
        EditMessage::Add(_) => 0 <= frontier < capacity,
        EditMessage::ModifyWindow(_) => true,
    }
}

/// One step of the worker: applies `msg` to the backing buffer and returns the
/// new frontier. Nothing below the new frontier is read or written.
pub fn process_message(backing: &mut Vec<u8>, frontier: usize, msg: EditMessage) -> (next: usize)
    requires
        message_applies(old(backing).len() as int, frontier as int, msg),
    ensures
        final(backing)@ == apply_message(old(backing)@, frontier as int, msg),
        next == frontier_after(frontier as int, msg),
{
    match msg {
        EditMessage::Remove => {
            let end = backing.len();
            shift_down(backing, frontier - 1, end);
            assert(backing@ =~= apply_message(old(backing)@, frontier as int, msg));
            frontier - 1
        },
        EditMessage::Add(byte) => {
            let end = backing.len();
            shift_up(backing, frontier, end);
            backing.set(frontier, byte);
            assert(backing@ =~= apply_message(old(backing)@, frontier as int, msg));
            frontier
        },
        EditMessage::ModifyWindow(boundary) => boundary,
    }
}

/// The backing bytes after the worker has applied every message of `queue`,
/// first to last, starting with its frontier at `frontier`.
pub open spec fn settle(backing: Seq<u8>, frontier: int, queue: Seq<EditMessage>) -> Seq<u8>
    decreases queue.len(),
{
    if queue.len() == 0 {
        backing
    } else {
        settle(
            apply_message(backing, frontier, queue[0]),
            frontier_after(frontier, queue[0]),
            queue.drop_first(),
        )
    }
}

/// Where the worker's frontier stands after every message of `queue`.
pub open spec fn settled_frontier(frontier: int, queue: Seq<EditMessage>) -> int
    decreases queue.len(),
{
    if queue.len() == 0 {
        frontier
    } else {
        settled_frontier(frontier_after(frontier, queue[0]), queue.drop_first())
    }
}

/// Whether the worker can apply every message of `queue` in turn without
/// touching a byte below `floor`.
pub open spec fn queue_fits(
    capacity: int,
    frontier: int,
    queue: Seq<EditMessage>,
    floor: int,
) -> bool
    decreases queue.len(),
{
    if queue.len() == 0 {
        true
    } else {
        &&& message_fits(capacity, frontier, queue[0], floor)
        &&& queue_fits(capacity, frontier_after(frontier, queue[0]), queue.drop_first(), floor)
    }
}

/// A message that fits leaves the bytes below the floor alone, and what it
/// writes at or above the floor depends on the bytes there alone.
pub proof fn lemma_apply_frame(
    b1: Seq<u8>,
    b2: Seq<u8>,
    frontier: int,
    msg: EditMessage,
    floor: int,
)
    requires
        b1.len() == b2.len(),
        0 <= floor,
        message_fits(b1.len() as int, frontier, msg, floor),
        forall|i: int| floor <= i < b1.len() ==> b1[i] == b2[i],
    ensures
        apply_message(b1, frontier, msg).len() == b1.len(),
        apply_message(b2, frontier, msg).len() == b1.len(),
        forall|i: int|
            0 <= i < floor ==> (#[trigger] apply_message(b1, frontier, msg)[i]) == b1[i],
        forall|i: int|
            floor <= i < b1.len() ==> (#[trigger] apply_message(b1, frontier, msg)[i])
                == apply_message(b2, frontier, msg)[i],
{
}

/// The worker leaves the bytes below the floor alone whatever the queue holds,
/// and the bytes it settles at or above the floor depend on the bytes there
/// alone.
pub proof fn lemma_settle_frame(
    b1: Seq<u8>,
    b2: Seq<u8>,
    frontier: int,
    queue: Seq<EditMessage>,
    floor: int,
)
    requires
        b1.len() == b2.len(),
        0 <= floor,
        queue_fits(b1.len() as int, frontier, queue, floor),
        forall|i: int| floor <= i < b1.len() ==> b1[i] == b2[i],
    ensures
        settle(b1, frontier, queue).len() == b1.len(),
        settle(b2, frontier, queue).len() == b1.len(),
        forall|i: int|
            0 <= i < floor && i < b1.len() ==> (#[trigger] settle(b1, frontier, queue)[i]) == b1[i],
        forall|i: int|
            floor <= i < b1.len() ==> (#[trigger] settle(b1, frontier, queue)[i]) == settle(
                b2,
                frontier,
                queue,
            )[i],
    decreases queue.len(),
{
    if queue.len() > 0 {
        lemma_apply_frame(b1, b2, frontier, queue[0], floor);
        lemma_apply_frame(b2, b1, frontier, queue[0], floor);
        lemma_settle_frame(
            apply_message(b1, frontier, queue[0]),
            apply_message(b2, frontier, queue[0]),
            frontier_after(frontier, queue[0]),
            queue.drop_first(),
            floor,
        );
    }
}

/// Settling a queue with one more message at its end is settling the queue
/// and then applying that message.
pub proof fn lemma_settle_push(
    backing: Seq<u8>,
    frontier: int,
    queue: Seq<EditMessage>,
    msg: EditMessage,
)
    ensures
        settle(backing, frontier, queue.push(msg)) == apply_message(
            settle(backing, frontier, queue),
            settled_frontier(frontier, queue),
            msg,
        ),
        settled_frontier(frontier, queue.push(msg)) == frontier_after(
            settled_frontier(frontier, queue),
            msg,
        ),
    decreases queue.len(),
{
    if queue.len() == 0 {
        assert(queue.push(msg).drop_first() =~= queue);
        assert(settle(apply_message(backing, frontier, msg), frontier_after(frontier, msg), queue)
            == apply_message(backing, frontier, msg));
        assert(settled_frontier(frontier_after(frontier, msg), queue) == frontier_after(
            frontier,
            msg,
        ));
    } else {
        assert(queue.push(msg).drop_first() =~= queue.drop_first().push(msg));
        lemma_settle_push(
            apply_message(backing, frontier, queue[0]),
            frontier_after(frontier, queue[0]),
            queue.drop_first(),
            msg,
        );
    }
}

/// A queue that fits above a floor still fits with one more fitting message
/// at its end, and above any lower floor.
pub proof fn lemma_queue_fits_push(
    capacity: int,
    frontier: int,
    queue: Seq<EditMessage>,
    floor: int,
    msg: EditMessage,
    lower: int,
)
    requires
        queue_fits(capacity, frontier, queue, floor),
        lower <= floor,
        message_fits(capacity, settled_frontier(frontier, queue), msg, lower),
    ensures
        queue_fits(capacity, frontier, queue.push(msg), lower),
        queue_fits(capacity, frontier, queue, lower),
    decreases queue.len(),
{
    if queue.len() == 0 {
        assert(queue.push(msg).drop_first() =~= queue);
        assert(queue_fits(capacity, frontier_after(frontier, msg), queue, lower));
    } else {
        assert(queue.push(msg).drop_first() =~= queue.drop_first().push(msg));
        lemma_queue_fits_push(
            capacity,
            frontier_after(frontier, queue[0]),
            queue.drop_first(),
            floor,
            msg,
            lower,
        );
    }
}

/// Whether a window that ends at `window_end` is left as it is for a cursor at
/// `cursor`: the distance from the cursor to the end of the window is neither
/// under [`WINDOW_MIN_DISTANCE`] nor over [`WINDOW_MAX_DISTANCE`].
pub open spec fn window_is_kept(window_end: int, cursor: int) -> bool {
    let distance = if window_end >= cursor {
        window_end - cursor
    } else {
        0
    };
    WINDOW_MIN_DISTANCE <= distance <= WINDOW_MAX_DISTANCE
}

/// The end of a window that is laid anew for a cursor at `cursor` over `len`
/// bytes of content.
pub open spec fn fresh_window(cursor: int, len: int) -> int {
    if cursor + SYNC_BUFF_LEN <= len {
        cursor + SYNC_BUFF_LEN
    } else {
        len
    }
}

/// The end of the window after it was looked after for a cursor at `cursor`:
/// the old end where the window is kept, the end of a window laid anew
/// otherwise.
pub open spec fn window_after(window_end: int, cursor: int, len: int) -> int {
    if window_is_kept(window_end, cursor) {
        window_end
    } else {
        fresh_window(cursor, len)
    }
}

/// Whether a removal at `offset` keeps to the window that ends at
/// `window_end`: the offset lies inside the window.
pub open spec fn removal_in_window(window_end: int, offset: int) -> bool {
    0 <= offset < window_end
}

/// Whether an insertion at `offset` keeps to the window that ends at
/// `window_end` over `len` bytes of content: the offset lies inside the
/// window, or at the end of a window that ends where the contents end, where
/// the byte is appended.
pub open spec fn insertion_in_window(window_end: int, len: int, offset: int) -> bool {
    0 <= offset < window_end || (offset == window_end && window_end == len)
}

/// Once the window was looked after for a cursor, every edit at the cursor
/// keeps to the window: with the cursor on a byte, the removal of that byte
/// and of the byte before it and an insertion at either place; with the
/// cursor at the end of the contents, an insertion there.
pub proof fn lemma_window_after_admits_edits(window_end: int, cursor: int, len: int)
    requires
        0 <= window_end <= len,
        0 <= cursor <= len,
    ensures
        0 <= window_after(window_end, cursor, len) <= len,
        cursor < len ==> removal_in_window(window_after(window_end, cursor, len), cursor),
        0 < cursor < len ==> removal_in_window(window_after(window_end, cursor, len), cursor - 1),
        insertion_in_window(window_after(window_end, cursor, len), len, cursor),
        0 < cursor ==> insertion_in_window(window_after(window_end, cursor, len), len, cursor - 1),
{
}

/// The editable byte store.
pub struct AsyncBuffer {
    /// The backing bytes. Their number is the capacity and never changes.
    content_buf: Vec<u8>,
    /// The length of the content, which removals shorten.
    len: usize,
    /// The messages that the worker has not applied yet, oldest first.
    queue: Vec<EditMessage>,
    /// Where the hot window ends and the cold tail begins.
    window_end: usize,
    /// Where the worker has the cold tail begin.
    frontier: usize,
}

impl View for AsyncBuffer {
    type V = Seq<u8>;

    /// The contents: what the first `len` backing bytes are once the worker
    /// has applied every pending message.
    open spec fn view(&self) -> Seq<u8> {
        settle(self.backing(), self.frontier() as int, self.pending()).subrange(
            0,
            self.spec_len() as int,
        )
    }
}

impl AsyncBuffer {
    /// The backing bytes as they are now.
    pub closed spec fn backing(&self) -> Seq<u8> {
        self.content_buf@
    }

    /// The length of the content.
    pub closed spec fn spec_len(&self) -> nat {
        self.len as nat
    }

    /// The end of the hot window.
    pub closed spec fn window(&self) -> nat {
        self.window_end as nat
    }

    /// The messages that the worker has not applied yet, oldest first.
    pub closed spec fn pending(&self) -> Seq<EditMessage> {
        self.queue@
    }

    /// Where the worker has the cold tail begin.
    pub closed spec fn frontier(&self) -> nat {
        self.frontier as nat
    }

    /// The number of backing bytes.
    pub open spec fn capacity(&self) -> nat {
        self.backing().len()
    }

    /// The invariant of the store. The content fits the backing bytes and the
    /// window lies inside the content. Once the worker has applied what is
    /// pending, its frontier is the end of the window; and on the way there it
    /// touches no byte inside the window.
    pub open spec fn wf(&self) -> bool {
        &&& self.spec_len() <= self.capacity() <= usize::MAX
        &&& self.window() <= self.spec_len()
        &&& self.frontier() <= self.capacity()
        &&& settled_frontier(self.frontier() as int, self.pending()) == self.window()
        &&& queue_fits(
            self.capacity() as int,
            self.frontier() as int,
            self.pending(),
            self.window() as int,
        )
    }

    /// Takes over the bytes of a file. The window covers the first
    /// [`SYNC_BUFF_LEN`] bytes, or all of them where there are fewer.
    pub fn new(content: Vec<u8>) -> (buffer: Self)
        ensures
            buffer.wf(),
            buffer@ == content@,
            buffer.backing() == content@,
            buffer.spec_len() == content.len(),
            buffer.window() == fresh_window(0, content.len() as int),
            buffer.pending() == Seq::<EditMessage>::empty(),
    {
        let len = content.len();
        let window_end = if SYNC_BUFF_LEN < len {
            SYNC_BUFF_LEN
        } else {
            len
        };
        let buffer = AsyncBuffer {
            content_buf: content,
            len,
            queue: Vec::new(),
            window_end,
            frontier: window_end,
        };
        assert(buffer@ =~= content@);
        buffer
    }

    /// The length of the content.
    pub fn len(&self) -> (len: usize)
        ensures
            len == self.spec_len(),
    {
        self.len
    }

    /// Whether the content is empty.
    pub fn is_empty(&self) -> (empty: bool)
        ensures
            empty == (self.spec_len() == 0),
    {
        self.len == 0
    }

    /// The end of the hot window.
    pub fn window_end(&self) -> (end: usize)
        ensures
            end == self.window(),
    {
        self.window_end
    }

    /// Whether a removal at `offset` keeps to the window. A caller that cannot
    /// show this of its offset asks here before it removes.
    pub fn takes_removal(&self, offset: usize) -> (taken: bool)
        ensures
            taken == removal_in_window(self.window() as int, offset as int),
    {
        offset < self.window_end
    }

    /// Whether an insertion at `offset` keeps to the window and finds room in
    /// the backing bytes. A caller that cannot show this of its offset asks
    /// here before it inserts.
    pub fn takes_insertion(&self, offset: usize) -> (taken: bool)
        ensures
            taken == (insertion_in_window(
                self.window() as int,
                self.spec_len() as int,
                offset as int,
            ) && self.spec_len() < self.capacity()),
    {
        self.len < self.content_buf.len() && (offset < self.window_end || (offset
            == self.window_end && self.window_end == self.len))
    }

    /// Whether the worker has messages left to apply.
    pub fn has_work(&self) -> (work: bool)
        ensures
            work == (self.pending().len() > 0),
    {
        self.queue.len() > 0
    }

    /// The first `len` backing bytes as they are now. Inside the window they
    /// are the contents; behind it they are the contents once nothing is
    /// pending.
    pub fn read(&self) -> (bytes: &[u8])
        requires
            self.wf(),
        ensures
            bytes@ == self.backing().subrange(0, self.spec_len() as int),
            bytes@.len() == self@.len(),
            forall|i: int| 0 <= i < self.window() ==> bytes@[i] == self@[i],
            self.pending().len() == 0 ==> bytes@ == self@,
    {
        proof {
            self.lemma_window_is_current();
        }
        vstd::slice::slice_subrange(self.content_buf.as_slice(), 0, self.len)
    }

    /// Inside the window the backing bytes are the contents already; and they
    /// are the contents everywhere once nothing is pending.
    pub proof fn lemma_window_is_current(&self)
        requires
            self.wf(),
        ensures
            self@.len() == self.spec_len(),
            forall|i: int| 0 <= i < self.window() ==> self.backing()[i] == self@[i],
            self.pending().len() == 0 ==> self@ == self.backing().subrange(
                0,
                self.spec_len() as int,
            ),
    {
        lemma_settle_frame(
            self.backing(),
            self.backing(),
            self.frontier() as int,
            self.pending(),
            self.window() as int,
        );
    }

    /// The backing byte at `offset` as it is now: the content byte there if
    /// `offset` lies inside the window or nothing is pending.
    pub fn get(&self, offset: usize) -> (byte: u8)
        requires
            self.wf(),
            offset < self.spec_len(),
        ensures
            byte == self.backing()[offset as int],
            offset < self.window() || self.pending().len() == 0 ==> byte == self@[offset as int],
    {
        proof {
            self.lemma_window_is_current();
        }
        self.content_buf[offset]
    }

    /// Overwrites the content byte at `offset`, which lies inside the window.
    pub fn set(&mut self, offset: usize, byte: u8)
        requires
            old(self).wf(),
            offset < old(self).window(),
        ensures
            final(self).wf(),
            final(self)@ == old(self)@.update(offset as int, byte),
            final(self).backing() == old(self).backing().update(offset as int, byte),
            final(self).spec_len() == old(self).spec_len(),
            final(self).window() == old(self).window(),
            final(self).pending() == old(self).pending(),
    {
        self.content_buf.set(offset, byte);
        proof {
            lemma_settle_frame(
                old(self).backing(),
                self.backing(),
                self.frontier() as int,
                self.pending(),
                self.window() as int,
            );
            lemma_settle_frame(
                self.backing(),
                self.backing(),
                self.frontier() as int,
                self.pending(),
                self.window() as int,
            );
            assert(self@ =~= old(self)@.update(offset as int, byte));
        }
    }

    /// Removes the content byte at `offset`, which lies inside the window, and
    /// returns it. The bytes of the window behind it move down at once and the
    /// window shrinks by one; the worker is told to move the tail down.
    pub fn remove(&mut self, offset: usize) -> (val: u8)
        requires
            old(self).wf(),
            removal_in_window(old(self).window() as int, offset as int),
        ensures
            final(self).wf(),
            val == old(self)@[offset as int],
            final(self)@ == old(self)@.remove(offset as int),
            final(self).spec_len() == old(self).spec_len() - 1,
            final(self).window() == old(self).window() - 1,
            final(self).capacity() == old(self).capacity(),
            final(self).pending() == old(self).pending().push(EditMessage::Remove),
            forall|i: int|
                final(self).window() <= i < final(self).capacity() ==> final(self).backing()[i]
                    == old(self).backing()[i],
    {
        proof {
            self.lemma_window_is_current();
        }
        let val = self.content_buf[offset];
        shift_down(&mut self.content_buf, offset, self.window_end);
        self.window_end -= 1;
        self.queue.push(EditMessage::Remove);
        self.len -= 1;
        proof {
            let before = old(self).backing();
            let queue = old(self).pending();
            let frontier = old(self).frontier() as int;
            let window = old(self).window() as int;
            lemma_settle_frame(before, self.backing(), frontier, queue, window);
            lemma_settle_frame(self.backing(), before, frontier, queue, window);
            lemma_settle_push(self.backing(), frontier, queue, EditMessage::Remove);
            lemma_queue_fits_push(
                before.len() as int,
                frontier,
                queue,
                window,
                EditMessage::Remove,
                window - 1,
            );
            assert(self@ =~= old(self)@.remove(offset as int));
        }
        val
    }

    /// Inserts `byte` into the content at `offset`, which lies inside the
    /// window, or at the end of a window that ends where the contents end.
    /// The bytes of the window from `offset` on move up at once; the byte that
    /// this pushes out of the window is handed to the worker, which puts it in
    /// front of the tail. The window keeps its size.
    pub fn insert(&mut self, offset: usize, byte: u8)
        requires
            old(self).wf(),
            insertion_in_window(
                old(self).window() as int,
                old(self).spec_len() as int,
                offset as int,
            ),
            old(self).spec_len() < old(self).capacity(),
        ensures
            final(self).wf(),
            final(self)@ == old(self)@.insert(offset as int, byte),
            final(self).spec_len() == old(self).spec_len() + 1,
            final(self).window() == old(self).window(),
            final(self).capacity() == old(self).capacity(),
            final(self).pending() == old(self).pending().push(
                EditMessage::Add(old(self)@.insert(offset as int, byte)[old(self).window() as int]),
            ),
            forall|i: int|
                final(self).window() <= i < final(self).capacity() ==> final(self).backing()[i]
                    == old(self).backing()[i],
    {
        proof {
            self.lemma_window_is_current();
        }
        let window_end = self.window_end;
        let evicted = if offset < window_end {
            let last = self.content_buf[window_end - 1];
            shift_up(&mut self.content_buf, offset, window_end);
            self.content_buf.set(offset, byte);
            last
        } else {
            byte
        };
        self.queue.push(EditMessage::Add(evicted));
        assert(self.len < self.content_buf.len());
        self.len += 1;
        proof {
            let before = old(self).backing();
            let queue = old(self).pending();
            let frontier = old(self).frontier() as int;
            let window = old(self).window() as int;
            lemma_settle_frame(before, self.backing(), frontier, queue, window);
            lemma_settle_frame(self.backing(), before, frontier, queue, window);
            lemma_settle_push(self.backing(), frontier, queue, EditMessage::Add(evicted));
            lemma_queue_fits_push(
                before.len() as int,
                frontier,
                queue,
                window,
                EditMessage::Add(evicted),
                window,
            );
            assert(self@ =~= old(self)@.insert(offset as int, byte));
        }
    }

    /// Waits for the worker: every pending message is applied, oldest first.
    /// The contents stay what they are, and the backing bytes now hold them.
    pub fn block(&mut self)
        requires
            old(self).wf(),
        ensures
            final(self).wf(),
            final(self)@ == old(self)@,
            final(self).backing().subrange(0, final(self).spec_len() as int) == old(self)@,
            final(self).spec_len() == old(self).spec_len(),
            final(self).window() == old(self).window(),
            final(self).capacity() == old(self).capacity(),
            final(self).pending() == Seq::<EditMessage>::empty(),
            final(self).frontier() == final(self).window(),
    {
        let count = self.queue.len();
        let mut i: usize = 0;
        assert(self.queue@.subrange(0, count as int) =~= self.queue@);
        while i < count
            invariant
                i <= count == self.queue.len(),
                self.queue@ == old(self).queue@,
                self.len == old(self).len,
                self.window_end == old(self).window_end,
                self.content_buf.len() == old(self).content_buf.len(),
                self.frontier <= self.content_buf.len(),
                self.window_end <= self.len <= self.content_buf.len(),
                queue_fits(
                    self.content_buf.len() as int,
                    self.frontier as int,
                    self.queue@.subrange(i as int, count as int),
                    self.window_end as int,
                ),
                settled_frontier(self.frontier as int, self.queue@.subrange(i as int, count as int))
                    == self.window_end,
                settle(
                    self.content_buf@,
                    self.frontier as int,
                    self.queue@.subrange(i as int, count as int),
                ) == settle(old(self).content_buf@, old(self).frontier as int, old(self).queue@),
            decreases count - i,
        {
            let msg = self.queue[i];
            proof {
                let rest = self.queue@.subrange(i as int, count as int);
                assert(rest[0] == msg);
                assert(rest.drop_first() =~= self.queue@.subrange(i + 1, count as int));
                lemma_apply_frame(
                    self.content_buf@,
                    self.content_buf@,
                    self.frontier as int,
                    msg,
                    self.window_end as int,
                );
            }
            self.frontier = process_message(&mut self.content_buf, self.frontier, msg);
            i += 1;
        }
        self.queue.clear();
        proof {
            assert(old(self).queue@.subrange(count as int, count as int) =~= Seq::<
                EditMessage,
            >::empty());
        }
    }

    /// Does one step of the worker's work: the oldest pending message is
    /// applied, if there is one. Returns whether messages are left. The
    /// contents stay what they are.
    pub fn work(&mut self) -> (more: bool)
        requires
            old(self).wf(),
        ensures
            final(self).wf(),
            final(self)@ == old(self)@,
            final(self).spec_len() == old(self).spec_len(),
            final(self).window() == old(self).window(),
            final(self).capacity() == old(self).capacity(),
            final(self).pending() == if old(self).pending().len() > 0 {
                old(self).pending().drop_first()
            } else {
                old(self).pending()
            },
            old(self).pending().len() > 0 ==> {
                &&& final(self).backing() == apply_message(
                    old(self).backing(),
                    old(self).frontier() as int,
                    old(self).pending()[0],
                )
                &&& final(self).frontier() == frontier_after(
                    old(self).frontier() as int,
                    old(self).pending()[0],
                )
            },
            old(self).pending().len() == 0 ==> final(self).backing() == old(self).backing(),
            more == (final(self).pending().len() > 0),
    {
        if self.queue.len() == 0 {
            return false;
        }
        let msg = self.queue.remove(0);
        proof {
            assert(self.queue@ =~= old(self).queue@.drop_first());
            lemma_apply_frame(
                self.content_buf@,
                self.content_buf@,
                self.frontier as int,
                msg,
                self.window_end as int,
            );
        }
        self.frontier = process_message(&mut self.content_buf, self.frontier, msg);
        self.queue.len() > 0
    }

    /// Lays the window anew where the cursor has come too close to its end or
    /// has gone too far from it: the worker is waited for, told of the new
    /// boundary, and the window ends there from now on. Otherwise nothing
    /// changes. A cursor inside the content then lies inside the window.
    pub fn compute_new_window(&mut self, new_offset: usize)
        requires
            old(self).wf(),
        ensures
            final(self).wf(),
            final(self)@ == old(self)@,
            final(self).spec_len() == old(self).spec_len(),
            final(self).capacity() == old(self).capacity(),
            final(self).window() == window_after(
                old(self).window() as int,
                new_offset as int,
                old(self).spec_len() as int,
            ),
            new_offset < final(self).spec_len() ==> new_offset < final(self).window(),
            new_offset == final(self).spec_len() ==> final(self).window() == new_offset,
            window_is_kept(old(self).window() as int, new_offset as int) ==> {
                &&& final(self).window() == old(self).window()
                &&& final(self).pending() == old(self).pending()
                &&& final(self).backing() == old(self).backing()
            },
            !window_is_kept(old(self).window() as int, new_offset as int) ==> {
                &&& final(self).window() == fresh_window(
                    new_offset as int,
                    old(self).spec_len() as int,
                )
                &&& final(self).pending() == seq![
                    EditMessage::ModifyWindow(final(self).window() as usize),
                ]
                &&& final(self).backing().subrange(0, final(self).spec_len() as int) == old(self)@
            },
    {
        let distance = if self.window_end >= new_offset {
            self.window_end - new_offset
        } else {
            0
        };
        if distance < WINDOW_MIN_DISTANCE || distance > WINDOW_MAX_DISTANCE {
            self.block();
            let reach = if new_offset <= usize::MAX - SYNC_BUFF_LEN {
                new_offset + SYNC_BUFF_LEN
            } else {
                usize::MAX
            };
            let boundary = if reach < self.len {
                reach
            } else {
                self.len
            };
            self.queue.push(EditMessage::ModifyWindow(boundary));
            self.window_end = boundary;
            proof {
                let msg = EditMessage::ModifyWindow(boundary);
                assert(self.pending() =~= seq![msg]);
                assert(self.pending().drop_first() =~= Seq::<EditMessage>::empty());
                assert(settle(self.backing(), boundary as int, self.pending().drop_first())
                    == self.backing());
                assert(settled_frontier(boundary as int, self.pending().drop_first()) == boundary);
                assert(queue_fits(
                    self.capacity() as int,
                    boundary as int,
                    self.pending().drop_first(),
                    boundary as int,
                ));
            }
        }
    }
}

/// The contents after the bytes at the given offsets have been removed, one
/// after another.
pub open spec fn removed_all(content: Seq<u8>, offsets: Seq<int>) -> Seq<u8>
    decreases offsets.len(),
{
    if offsets.len() == 0 {
        content
    } else {
        removed_all(content.remove(offsets[0]), offsets.drop_first())
    }
}

/// The bytes that these removals take out, in the order of the removals.
pub open spec fn taken_all(content: Seq<u8>, offsets: Seq<int>) -> Seq<u8>
    decreases offsets.len(),
{
    if offsets.len() == 0 {
        Seq::empty()
    } else {
        seq![content[offsets[0]]] + taken_all(content.remove(offsets[0]), offsets.drop_first())
    }
}

/// The contents after each of the bytes has been inserted at the offset that
/// goes with it, the last pair first.
pub open spec fn restored_all(content: Seq<u8>, offsets: Seq<int>, bytes: Seq<u8>) -> Seq<u8>
    decreases offsets.len(),
{
    if offsets.len() == 0 {
        content
    } else {
        restored_all(content, offsets.drop_first(), bytes.drop_first()).insert(
            offsets[0],
            bytes[0],
        )
    }
}

/// Whether each of the removals finds a byte at its offset.
pub open spec fn removable(len: int, offsets: Seq<int>) -> bool {
    forall|i: int| 0 <= i < offsets.len() ==> 0 <= #[trigger] offsets[i] < len - i
}

/// Removals that are taken back by insertions at the same offsets, in the
/// opposite order and with the bytes that the removals returned, leave the
/// contents as they were.
pub proof fn lemma_round_trip(content: Seq<u8>, offsets: Seq<int>)
    requires
        removable(content.len() as int, offsets),
    ensures
        removed_all(content, offsets).len() == content.len() - offsets.len(),
        taken_all(content, offsets).len() == offsets.len(),
        restored_all(removed_all(content, offsets), offsets, taken_all(content, offsets))
            == content,
    decreases offsets.len(),
{
    if offsets.len() > 0 {
        let first = offsets[0];
        let shorter = content.remove(first);
        let rest = offsets.drop_first();
        assert forall|i: int| 0 <= i < rest.len() implies 0 <= #[trigger] rest[i] < shorter.len()
            - i by {
            assert(rest[i] == offsets[i + 1]);
        }
        lemma_round_trip(shorter, rest);
        assert(taken_all(content, offsets).drop_first() =~= taken_all(shorter, rest));
        assert(shorter.insert(first, content[first]) =~= content);
    }
}

} // verus!
