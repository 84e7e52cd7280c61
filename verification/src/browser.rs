//! Selection and scroll state over an ordered list of account names.

use vstd::prelude::*;

verus! {

/// The scroll offset that brings `selected` into a window of `height` rows
/// starting at `offset`, moving the window no further than needed.
pub open spec fn scroll_after(selected: int, offset: int, height: int) -> int {
    if selected >= offset + height {
        selected - height + 1
    } else if selected < offset {
        selected
    } else {
        offset
    }
}

/// One visible row: an account name, and whether it is the selected one.
#[derive(Debug, Clone, PartialEq, Eq)]
pub struct Row {
    pub username: String,
    pub is_selected: bool,
}

/// Model of a `Row`.
pub struct RowModel {
    pub username: Seq<char>,
    pub is_selected: bool,
}

impl DeepView for Row {
    type V = RowModel;

    open spec fn deep_view(&self) -> RowModel {
        RowModel { username: self.username@, is_selected: self.is_selected }
    }
}

/// What is shown in one pass: the visible rows, the number of names in all
/// and the position of the selection, counted from one.
#[derive(Debug, Clone, PartialEq, Eq)]
pub struct Frame {
    pub rows: Vec<Row>,
    pub total: usize,
    pub position: usize,
}

/// The number of rows of a list of `len` names that a window of `height`
/// rows at `offset` shows.
pub open spec fn window_len(len: int, offset: int, height: int) -> int {
    let end = if offset + height < len {
        offset + height
    } else {
        len
    };
    if end > offset {
        end - offset
    } else {
        0
    }
}

/// Browsing state: the list, the selected row and the first visible row.
#[derive(Debug)]
pub struct App {
    non_mutual_follows: Vec<String>,
    selected: usize,
    scroll_offset: usize,
}

impl App {
    /// The account names, in list order.
    pub closed spec fn items(&self) -> Seq<Seq<char>> {
        self.non_mutual_follows.deep_view()
    }

    /// Index of the selected row.
    pub closed spec fn selected_index(&self) -> int {
        self.selected as int
    }

    /// Index of the first visible row.
    pub closed spec fn offset(&self) -> int {
        self.scroll_offset as int
    }

    /// The selection points at a row of the list, or is zero for an empty list.
    #[verifier::type_invariant]
    spec fn selection_on_list(&self) -> bool {
        if self.non_mutual_follows.len() == 0 {
            self.selected == 0
        } else {
            self.selected < self.non_mutual_follows.len()
        }
    }

    /// The selection lies inside a window of `height` rows at the scroll offset.
    pub open spec fn in_view(&self, height: int) -> bool {
        self.offset() <= self.selected_index() < self.offset() + height
    }

    /// A browser over `non_mutual_follows`, with the first row selected
    /// and at the top of the window.
    pub fn new(non_mutual_follows: Vec<String>) -> (app: Self)
        ensures
            app.items() == non_mutual_follows.deep_view(),
            app.selected_index() == 0,
            app.offset() == 0,
    {
        App { non_mutual_follows, selected: 0, scroll_offset: 0 }
    }

    /// The list of names.
    pub fn non_mutual_follows(&self) -> (names: &Vec<String>)
        ensures
            names.deep_view() == self.items(),
    {
        &self.non_mutual_follows
    }

    /// The index of the selected row: a row of the list, or zero where
    /// the list is empty.
    pub fn selected(&self) -> (index: usize)
        ensures
            index == self.selected_index(),
            self.items().len() > 0 ==> index < self.items().len(),
            self.items().len() == 0 ==> index == 0,
    {
        proof {
            use_type_invariant(self);
        }
        self.selected
    }

    /// The index of the first visible row.
    pub fn scroll_offset(&self) -> (index: usize)
        ensures
            index == self.offset(),
    {
        self.scroll_offset
    }

    /// Moves the selection one row down; stays on the last row.
    pub fn next(&mut self)
        ensures
            final(self).items() == old(self).items(),
            final(self).offset() == old(self).offset(),
            final(self).selected_index() == if old(self).selected_index() + 1 < old(self).items().len() {
                old(self).selected_index() + 1
            } else {
                old(self).selected_index()
            },
            final(self).items().len() > 0 ==> 0 <= final(self).selected_index() < old(self).items().len(),
    {
        proof {
            use_type_invariant(&*self);
        }
        let len: usize = self.non_mutual_follows.len();
        if len > 0 && self.selected < len - 1 {
            self.selected = self.selected + 1;
        }
    }

    /// Moves the selection one row up; stays on the first row.
    pub fn previous(&mut self)
        ensures
            final(self).items() == old(self).items(),
            final(self).offset() == old(self).offset(),
            final(self).selected_index() == if old(self).selected_index() > 0 {
                old(self).selected_index() - 1
            } else {
                0
            },
            final(self).items().len() > 0 ==> 0 <= final(self).selected_index() < old(self).items().len(),
    {
        proof {
            use_type_invariant(&*self);
        }
        if self.selected > 0 {
            self.selected = self.selected - 1;
        }
    }

    /// Re-derives the scroll offset for a window of `height` rows. For a
    /// window of at least one row the selection is visible afterwards.
    pub fn adjust_scroll(&mut self, height: usize)
        ensures
            final(self).items() == old(self).items(),
            final(self).selected_index() == old(self).selected_index(),
            final(self).offset() == scroll_after(
                old(self).selected_index(),
                old(self).offset(),
                height as int,
            ),
            height >= 1 ==> final(self).in_view(height as int),
            final(self).offset() >= 0,
    {
        proof {
            use_type_invariant(&*self);
        }
        if self.selected >= height && self.selected - height >= self.scroll_offset {
            self.scroll_offset = self.selected - height + 1;
        } else if self.selected < self.scroll_offset {
            self.scroll_offset = self.selected;
        }
    }

    /// The selected account name; `None` exactly when the list is empty.
    pub fn get_selected_username(&self) -> (name: Option<&String>)
        ensures
            name.is_some() <==> self.items().len() > 0,
            name.is_some() ==> name.unwrap()@ == self.items()[self.selected_index()],
    {
        proof {
            use_type_invariant(self);
        }
        if self.selected < self.non_mutual_follows.len() {
            Some(&self.non_mutual_follows[self.selected])
        } else {
            None
        }
    }

    /// The rows that a window of `height` rows shows: those from the scroll
    /// offset on, as far as the window and the list reach. The one row at
    /// the selected index is marked.
    pub open spec fn planned_rows(&self, height: int) -> Seq<RowModel> {
        Seq::new(
            window_len(self.items().len() as int, self.offset(), height) as nat,
            |i: int|
                RowModel {
                    username: self.items()[self.offset() + i],
                    is_selected: self.offset() + i == self.selected_index(),
                },
        )
    }

    /// The visible rows for a window of `viewport_height` rows.
    pub fn plan(&self, viewport_height: usize) -> (rows: Vec<Row>)
        ensures
            rows.deep_view() == self.planned_rows(viewport_height as int),
            rows.len() <= viewport_height,
            rows.len() > 0 ==> self.offset() + rows.len() <= self.items().len(),
            self.items().len() > 0 && self.in_view(viewport_height as int) ==> {
                &&& self.selected_index() - self.offset() < rows.len()
                &&& rows[self.selected_index() - self.offset()].is_selected
            },
    {
        proof {
            use_type_invariant(self);
        }
        let len: usize = self.non_mutual_follows.len();
        let mut rows: Vec<Row> = Vec::new();
        if self.scroll_offset >= len {
            assert(rows.deep_view() =~= self.planned_rows(viewport_height as int));
            return rows;
        }
        let end: usize = if viewport_height < len - self.scroll_offset {
            self.scroll_offset + viewport_height
        } else {
            len
        };
        let mut index: usize = self.scroll_offset;
        while index < end
            invariant
                self.scroll_offset <= index <= end <= len,
                len == self.non_mutual_follows.len(),
                rows.len() == index - self.scroll_offset,
                forall|i: int|
                    0 <= i < rows.len() ==> (#[trigger] rows[i]).deep_view() == (RowModel {
                        username: self.items()[self.offset() + i],
                        is_selected: self.offset() + i == self.selected_index(),
                    }),
            decreases end - index,
        {
            let row = Row {
                username: self.non_mutual_follows[index].clone(),
                is_selected: index == self.selected,
            };
            rows.push(row);
            index = index + 1;
        }
        assert(rows.deep_view() =~= self.planned_rows(viewport_height as int));
        rows
    }

    /// Scrolls for a window of `viewport_height` rows and gives what is to
    /// be shown: the visible rows, the number of names and the position of
    /// the selection, counted from one.
    pub fn frame(&mut self, viewport_height: usize) -> (frame: Frame)
        ensures
            final(self).items() == old(self).items(),
            final(self).selected_index() == old(self).selected_index(),
            final(self).offset() == scroll_after(
                old(self).selected_index(),
                old(self).offset(),
                viewport_height as int,
            ),
            frame.rows.deep_view() == final(self).planned_rows(viewport_height as int),
            frame.rows.len() <= viewport_height,
            frame.total == old(self).items().len(),
            frame.position == old(self).selected_index() + 1,
    {
        self.adjust_scroll(viewport_height);
        proof {
            use_type_invariant(&*self);
        }
        Frame {
            rows: self.plan(viewport_height),
            total: self.non_mutual_follows.len(),
            position: self.selected + 1,
        }
    }
}

impl Clone for App {
    /// A browser over the same list, with the same selection and offset.
    fn clone(&self) -> (copy: Self)
        ensures
            copy.items() == self.items(),
            copy.selected_index() == self.selected_index(),
            copy.offset() == self.offset(),
    {
        proof {
            use_type_invariant(self);
        }
        let names = self.non_mutual_follows.clone();
        assert(names.deep_view() =~= self.non_mutual_follows.deep_view());
        App { non_mutual_follows: names, selected: self.selected, scroll_offset: self.scroll_offset }
    }
}

/// Scrolling for a window of at least one row brings the selection into
/// the window and leaves the offset at or above zero, wherever the
/// selection and the offset stood.
pub proof fn lemma_scroll_shows_selection(selected: int, offset: int, height: int)
    requires
        0 <= selected,
        0 <= offset,
        1 <= height,
    ensures
        0 <= scroll_after(selected, offset, height),
        scroll_after(selected, offset, height) <= selected < scroll_after(selected, offset, height)
            + height,
{
}

/// Scrolling twice for the same window is scrolling once.
pub proof fn lemma_scroll_settles(selected: int, offset: int, height: int)
    requires
        1 <= height,
    ensures
        scroll_after(selected, scroll_after(selected, offset, height), height) == scroll_after(
            selected,
            offset,
            height,
        ),
{
}

/// A window never shows more rows than it has, nor rows beyond the list.
pub proof fn lemma_window_bounds(len: int, offset: int, height: int)
    requires
        0 <= len,
        0 <= offset,
        0 <= height,
    ensures
        0 <= window_len(len, offset, height) <= height,
        window_len(len, offset, height) > 0 ==> offset + window_len(len, offset, height) <= len,
{
}

} // verus!
