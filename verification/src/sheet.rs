//! Sheets: titled tables of rows that can be read line by line and changed
//! row by row.

pub mod transaction_sheet;

use vstd::prelude::*;

verus! {

/// Why a sheet refused an operation.
#[derive(Clone, Copy, Debug, PartialEq, Eq, Structural)]
pub enum SheetError {
    /// The sheet has no row at the place that was named.
    NoSuchRow,
}

/// A table with a title, column headers and rows. `Row` is what is put in,
/// `RowFind` names a row of the sheet, and `RowHandle` is what is handed out
/// for a row that was found.
pub trait Sheet {
    type Row;

    type RowFind;

    type RowHandle;

    /// Whether the sheet has room for `row`. A sheet that sets no limit has
    /// room for every row.
    open spec fn can_insert(&self, row: Self::Row) -> bool {
        true
    }

    /// Whether the sheet has room for `new_row` once the row that
    /// `old_row` names has left. A sheet that sets no limit has room for
    /// every row.
    open spec fn can_update(&self, old_row: Self::RowFind, new_row: Self::Row) -> bool {
        true
    }

    #[must_use]
    fn title(&self) -> &str;

    #[must_use]
    fn headers(&self) -> Vec<&str>;

    #[must_use]
    fn lines(&self) -> Vec<String>;

    fn insert(&mut self, row: Self::Row)
        requires
            old(self).can_insert(row),
    ;

    /// Puts `new_row` in the place of the row that `old_row` names, or
    /// reports that there is no such row.
    fn update(&mut self, old_row: &Self::RowFind, new_row: Self::Row) -> Result<(), SheetError>
        requires
            old(self).can_update(*old_row, new_row),
    ;

    #[must_use]
    fn get_row(&self, find: &Self::RowFind) -> Option<Self::RowHandle>;
}

} // verus!
