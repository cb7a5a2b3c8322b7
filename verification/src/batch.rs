//! The columnar batch.

use vstd::prelude::*;
use crate::schema::{Field, FieldView, schema_view};
use crate::datum::Datum;

verus! {

/// A table held column by column: `columns[c][r]` is the cell of column `c` in
/// row `r`, and `fields[c]` describes column `c`.
#[derive(Debug, PartialEq)]
pub struct Batch {
    pub fields: Vec<Field>,
    pub columns: Vec<Vec<Datum>>,
    pub rows: usize,
}

impl Batch {
    /// There is one column per field, and every column has `rows` cells.
    pub open spec fn wf(&self) -> bool {
        &&& self.columns@.len() == self.fields@.len()
        &&& forall|c: int|
            0 <= c < self.columns@.len() ==> (#[trigger] self.columns@[c])@.len() == self.rows
    }

    /// The cell of column `c` in row `r`.
    pub open spec fn cell(&self, c: int, r: int) -> Datum {
        self.columns@[c]@[r]
    }

    /// The batch's schema as a sequence of field values.
    pub open spec fn schema(&self) -> Seq<FieldView> {
        schema_view(self.fields@)
    }

    /// Tests whether the batch is well formed.
    pub fn is_well_formed(&self) -> (r: bool)
        ensures
            r == self.wf(),
    {
        if self.columns.len() != self.fields.len() {
            return false;
        }
        let mut c: usize = 0;
        while c < self.columns.len()
            invariant
                c <= self.columns@.len(),
                forall|k: int| 0 <= k < c ==> (#[trigger] self.columns@[k])@.len() == self.rows,
            decreases self.columns@.len() - c,
        {
            if self.columns[c].len() != self.rows {
                return false;
            }
            c += 1;
        }
        true
    }

    /// The number of rows.
    pub fn num_rows(&self) -> (n: usize)
        ensures
            n == self.rows,
    {
        self.rows
    }

    /// The number of columns.
    pub fn num_columns(&self) -> (n: usize)
        ensures
            n == self.fields@.len(),
    {
        self.fields.len()
    }
}

} // verus!
