//! The search popup and the walk through the matches.

use crate::app::{Data, DataView};
use crate::label::{Handler as LabelHandler, Notification};
use crate::screen::{ComponentLayouts, Handler as ScreenHandler};
use crate::search_index::{ascending, lemma_search_index, occurs_at, search_index};
use crate::text::{pop_char, push_char};
use crate::windows::editor::move_cursor;
use crate::windows::{PopupOutput, Window};
use vstd::prelude::*;

verus! {

/// The way in which the matches are walked through.
#[derive(PartialEq, Eq, Clone, Copy, Debug, Structural)]
pub enum SearchDirection {
    Forward,
    Backward,
}

/// The number of offsets at the front of the list that are below `bound`.
pub open spec fn below_count(offsets: Seq<usize>, bound: int) -> int
    decreases offsets.len(),
{
    if offsets.len() == 0 || offsets[0] >= bound {
        0
    } else {
        1 + below_count(offsets.drop_first(), bound)
    }
}

/// The place in the list of the match to go to from `current`. Forward it is
/// the first match behind `current`, or the first of all where there is none
/// behind. Backward it is the last match before `current`, or the last of all
/// where there is none before.
pub open spec fn next_match_index(
    offsets: Seq<usize>,
    current: usize,
    direction: SearchDirection,
) -> int {
    match direction {
        SearchDirection::Forward => {
            let behind = below_count(offsets, current + 1);
            if behind < offsets.len() {
                behind
            } else {
                0
            }
        },
        SearchDirection::Backward => {
            let before = below_count(offsets, current as int);
            if before > 0 {
                before - 1
            } else {
                offsets.len() - 1
            }
        },
    }
}

/// In an ascending list the offsets below a bound are those at the front, up
/// to the count of them.
pub proof fn lemma_below_count(offsets: Seq<usize>, bound: int)
    requires
        ascending(offsets),
    ensures
        0 <= below_count(offsets, bound) <= offsets.len(),
        forall|i: int| 0 <= i < below_count(offsets, bound) ==> offsets[i] < bound,
        forall|i: int| below_count(offsets, bound) <= i < offsets.len() ==> offsets[i] >= bound,
    decreases offsets.len(),
{
    if offsets.len() > 0 {
        let rest = offsets.drop_first();
        assert forall|i: int, j: int| 0 <= i <= j < rest.len() implies rest[i] <= rest[j] by {
            assert(offsets[i + 1] <= offsets[j + 1]);
        }
        lemma_below_count(rest, bound);
        if offsets[0] >= bound {
            assert forall|i: int| 0 <= i < offsets.len() implies offsets[i] >= bound by {
                assert(offsets[0] <= offsets[i]);
            }
        } else {
            assert forall|i: int| 0 <= i < below_count(offsets, bound) implies offsets[i]
                < bound by {
                if i > 0 {
                    assert(rest[i - 1] < bound);
                }
            }
            assert forall|i: int| below_count(offsets, bound) <= i < offsets.len() implies offsets[i]
                >= bound by {
                assert(rest[i - 1] >= bound);
            }
        }
    }
}

/// The match to go to is the nearest one on the side asked for, and the one
/// at the far end of the list where there is none on that side: forward, the
/// first match behind `current`, or the first of all; backward, the last match
/// before `current`, or the last of all.
pub proof fn lemma_next_match_index(
    offsets: Seq<usize>,
    current: usize,
    direction: SearchDirection,
)
    requires
        ascending(offsets),
        offsets.len() > 0,
    ensures
        0 <= next_match_index(offsets, current, direction) < offsets.len(),
        direction == SearchDirection::Forward ==> {
            let index = next_match_index(offsets, current, direction);
            if exists|j: int| 0 <= j < offsets.len() && offsets[j] > current {
                &&& offsets[index] > current
                &&& forall|j: int| 0 <= j < index ==> offsets[j] <= current
            } else {
                index == 0
            }
        },
        direction == SearchDirection::Backward ==> {
            let index = next_match_index(offsets, current, direction);
            if exists|j: int| 0 <= j < offsets.len() && offsets[j] < current {
                &&& offsets[index] < current
                &&& forall|j: int| index < j < offsets.len() ==> offsets[j] >= current
            } else {
                index == offsets.len() - 1
            }
        },
{
    lemma_below_count(offsets, current + 1);
    lemma_below_count(offsets, current as int);
}

/// A place in an ascending list with only smaller offsets before it and none
/// smaller from it on is the count of the offsets below the bound.
proof fn lemma_below_count_is(offsets: Seq<usize>, bound: int, place: int)
    requires
        ascending(offsets),
        0 <= place <= offsets.len(),
        forall|i: int| 0 <= i < place ==> offsets[i] < bound,
        forall|i: int| place <= i < offsets.len() ==> offsets[i] >= bound,
    ensures
        below_count(offsets, bound) == place,
{
    lemma_below_count(offsets, bound);
    let count = below_count(offsets, bound);
    if count < place {
        assert(offsets[count] < bound);
    } else if count > place {
        assert(offsets[place] >= bound);
    }
}

/// Counts the offsets below `bound` in an ascending list by halving.
fn count_below(offsets: &[usize], bound: usize) -> (count: usize)
    requires
        ascending(offsets@),
    ensures
        count == below_count(offsets@, bound as int),
        count <= offsets.len(),
{
    let mut low: usize = 0;
    let mut high: usize = offsets.len();
    while low < high
        invariant
            low <= high <= offsets.len(),
            ascending(offsets@),
            forall|i: int| 0 <= i < low ==> offsets@[i] < bound,
            forall|i: int| high <= i < offsets.len() ==> offsets@[i] >= bound,
        decreases high - low,
    {
        let middle = low + (high - low) / 2;
        if offsets[middle] < bound {
            low = middle + 1;
        } else {
            high = middle;
        }
    }
    proof {
        lemma_below_count_is(offsets@, bound as int, low as int);
    }
    low
}

/// Finds the place in the list of matches of the match to go to from the
/// cursor, wrapping round at either end of the list.
pub fn get_next_match_index(
    search_offsets: &[usize],
    current_offset: usize,
    search_direction: &SearchDirection,
) -> (index: usize)
    requires
        search_offsets.len() > 0,
        ascending(search_offsets@),
    ensures
        index == next_match_index(search_offsets@, current_offset, *search_direction),
        index < search_offsets.len(),
{
    proof {
        lemma_below_count(search_offsets@, current_offset + 1);
        lemma_below_count(search_offsets@, current_offset as int);
    }
    match search_direction {
        SearchDirection::Forward => {
            if current_offset == usize::MAX {
                proof {
                    lemma_below_count_is(
                        search_offsets@,
                        current_offset + 1,
                        search_offsets.len() as int,
                    );
                }
                0
            } else {
                let behind = count_below(search_offsets, current_offset + 1);
                if behind < search_offsets.len() {
                    behind
                } else {
                    0
                }
            }
        },
        SearchDirection::Backward => {
            let before = count_below(search_offsets, current_offset);
            if before > 0 {
                before - 1
            } else {
                search_offsets.len() - 1
            }
        },
    }
}

impl DataView {
    /// The state after a search: with no search term, nothing changes;
    /// otherwise the index is built anew if it is stale, and the cursor moves
    /// to the match to go to, if there is any match.
    pub open spec fn searched(self, direction: SearchDirection, layout: ComponentLayouts) -> DataView {
        if self.search_term.len() == 0 {
            self
        } else {
            match self.next_match(self.offset, direction) {
                Some(offset) => self.current().moved_to(offset, layout),
                None => self.current(),
            }
        }
    }

    /// What the user is told after a search.
    pub open spec fn told_after_search(
        self,
        direction: SearchDirection,
        before: Notification,
    ) -> Notification {
        if self.search_term.len() == 0 {
            before
        } else if self.current().search_offsets.len() == 0 {
            Notification::QueryNotFound
        } else {
            Notification::SearchMatch {
                position: (next_match_index(self.current().search_offsets, self.offset, direction)
                    + 1) as usize,
                total: self.current().search_offsets.len() as usize,
            }
        }
    }
}

/// A search never goes by an index from before an edit: whatever was done to
/// the contents, the index after a search is that of the search term over the
/// contents as they are, and the cursor is on one of its offsets if it has any.
pub proof fn lemma_search_is_current(
    app: DataView,
    direction: SearchDirection,
    layout: ComponentLayouts,
)
    requires
        app.wf(),
        app.search_term.len() > 0,
    ensures
        app.searched(direction, layout).contents == app.contents,
        app.searched(direction, layout).search_offsets == search_index(app.contents, app.query()),
        !app.searched(direction, layout).search_stale,
        app.searched(direction, layout).search_offsets.len() > 0 ==> app.searched(
            direction,
            layout,
        ).search_offsets.contains(app.searched(direction, layout).offset),
        app.searched(direction, layout).wf(),
{
    let current = app.current();
    lemma_search_index(app.contents, app.query());
    if current.search_offsets.len() > 0 {
        lemma_below_count(current.search_offsets, current.offset + 1);
        lemma_below_count(current.search_offsets, current.offset as int);
        let index = next_match_index(current.search_offsets, current.offset, direction);
        assert(0 <= index < current.search_offsets.len());
        assert(occurs_at(app.contents, app.query(), current.search_offsets[index] as int) || (
        crate::search_index::hex_pattern_of(app.query()) is Some && occurs_at(
            app.contents,
            crate::search_index::hex_pattern_of(app.query()).unwrap(),
            current.search_offsets[index] as int,
        )));
    }
}

/// Moves the cursor to the next match of the search term in the given
/// direction. An index that is stale is built anew first.
pub fn perform_search(
    app: &mut Data,
    display: &ScreenHandler,
    labels: &mut LabelHandler,
    search_direction: &SearchDirection,
)
    requires
        old(app).wf(),
        display.comp_layouts.wf(),
    ensures
        final(app).wf(),
        final(app)@ == old(app)@.searched(*search_direction, display.comp_layouts),
        *final(labels) == (LabelHandler {
            notification: old(app)@.told_after_search(
            *search_direction,
            old(labels).notification,
        ),
            ..*old(labels)
        }),
{
    if app.search_term.as_str().is_empty() {
        return ;
    }
    let from = app.offset;
    match app.find_next(from, search_direction) {
        Some(found_position) => {
            proof {
                lemma_search_index(app@.contents, app@.query());
            }
            let idx = get_next_match_index(app.search_offsets.as_slice(), from, search_direction);
            labels.notification = Notification::SearchMatch {
                position: idx + 1,
                total: app.search_offsets.len(),
            };
            move_cursor(app, display, found_position);
        },
        None => {
            labels.notification = Notification::QueryNotFound;
        },
    }
}

/// The search popup. It holds what was typed.
#[derive(PartialEq, Eq)]
pub struct Search {
    pub input: String,
}

impl DataView {
    /// The state with a new search term and its index.
    pub open spec fn with_search_term(self, term: Seq<char>) -> DataView {
        (DataView { search_term: term, search_stale: true, ..self }).reindexed()
    }
}

impl Search {
    /// The popup with nothing typed.
    pub fn new() -> (popup: Self)
        ensures
            popup.input@ == Seq::<char>::empty(),
    {
        Self { input: String::new() }
    }

    /// Whether this popup is the window asked for.
    pub fn is_focusing(&self, window_type: Window) -> (focusing: bool)
        ensures
            focusing == (window_type == Window::Search),
    {
        window_type == Window::Search
    }

    /// Takes a character that was typed.
    pub fn char(&mut self, c: char)
        ensures
            final(self).input@ == old(self).input@.push(c),
    {
        push_char(&mut self.input, c);
    }

    /// What was typed.
    pub fn get_user_input(&self) -> (output: PopupOutput<'_>)
        ensures
            output matches PopupOutput::Str(text) && text@ == self.input@,
    {
        PopupOutput::Str(self.input.as_str())
    }

    /// Takes back the character that was typed last.
    pub fn backspace(&mut self)
        ensures
            final(self).input@ == if old(self).input@.len() > 0 {
                old(self).input@.drop_last()
            } else {
                old(self).input@
            },
    {
        pop_char(&mut self.input);
    }

    /// Makes what was typed the search term, builds its index and moves the
    /// cursor to the first match behind it. With nothing typed, the user is
    /// told so and nothing else happens.
    pub fn enter(&mut self, app: &mut Data, display: &ScreenHandler, labels: &mut LabelHandler)
        requires
            old(app).wf(),
            display.comp_layouts.wf(),
        ensures
            final(app).wf(),
            final(self).input@ == old(self).input@,
            old(self).input@.len() == 0 ==> {
                &&& final(app)@ == old(app)@
                &&& final(app).contents == old(app).contents
            },
            old(self).input@.len() > 0 ==> final(app)@ == old(app)@.with_search_term(
                old(self).input@,
            ).searched(SearchDirection::Forward, display.comp_layouts),
            *final(labels) == (LabelHandler {
                notification: if old(self).input@.len() == 0 {
                    Notification::EmptySearchQuery
                } else {
                    old(app)@.with_search_term(old(self).input@).told_after_search(
                        SearchDirection::Forward,
                        old(labels).notification,
                    )
                },
                ..*old(labels)
            }),
    {
        if self.input.as_str().is_empty() {
            labels.notification = Notification::EmptySearchQuery;
            return ;
        }
        app.set_query(self.input.clone());
        app.reindex_search();
        perform_search(app, display, labels, &SearchDirection::Forward);
    }

    /// The width and height of the popup.
    pub fn dimensions(&self) -> (size: Option<(u16, u16)>)
        ensures
            size == Some((50u16, 3u16)),
    {
        Some((50, 3))
    }
}

} // verus!
