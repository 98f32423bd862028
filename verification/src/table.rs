//! A table of texts for the screen: a row of column headers over rows of
//! cells.

use vstd::prelude::*;

verus! {

/// A key as the table sees it.
#[derive(Debug, Clone, Copy, PartialEq, Eq, Structural)]
pub enum Key {
    Up,
    Down,
    Other,
}

/// A table with one row of headers, `columns`, and any number of `rows`.
#[derive(Debug)]
pub struct TableView<T> {
    columns: T,
    rows: Vec<T>,
    enabled: bool,
}

impl<T> TableView<T> {
    /// The row of headers.
    pub closed spec fn headers(&self) -> T {
        self.columns
    }

    /// The rows under the headers.
    pub closed spec fn body(&self) -> Seq<T> {
        self.rows@
    }

    /// Whether the table takes the focus.
    pub closed spec fn is_enabled(&self) -> bool {
        self.enabled
    }

    /// An enabled table with the given headers and rows.
    pub fn new(columns: T, rows: Vec<T>) -> (table: Self)
        ensures
            table.headers() == columns,
            table.body() == rows@,
            table.is_enabled(),
    {
        TableView { columns, rows, enabled: true }
    }

    /// The row of headers.
    pub fn columns(&self) -> (columns: &T)
        ensures
            *columns == self.headers(),
    {
        &self.columns
    }

    /// The rows under the headers.
    pub fn rows(&self) -> (rows: &Vec<T>)
        ensures
            rows@ == self.body(),
    {
        &self.rows
    }

    /// Whether the table takes the focus when it is offered: an enabled one
    /// does.
    pub fn take_focus(&self) -> (taken: bool)
        ensures
            taken == self.is_enabled(),
    {
        self.enabled
    }

    /// Whether the table keeps the key to itself: it does so with the keys
    /// that move up and down, and leaves every other key to others.
    pub fn on_event(&self, key: Key) -> (consumed: bool)
        ensures
            consumed == (key is Up || key is Down),
    {
        match key {
            Key::Up => true,
            Key::Down => true,
            Key::Other => false,
        }
    }
}

} // verus!
