//! Rendering rows of text as a `prettytable` table.

use vstd::prelude::*;

verus! {

/// The text that `prettytable` prints for a table in its default format whose
/// rows hold the given cells.
pub uninterp spec fn table_text(rows: Seq<Seq<Seq<char>>>) -> Seq<char>;

/// The cells of rows of `String`s.
pub open spec fn rows_view(rows: Seq<Vec<String>>) -> Seq<Seq<Seq<char>>> {
    rows.map_values(|row: Vec<String>| row@.map_values(|c: String| c@))
}

/// Builds a `prettytable::Table` from the rows (one cell per string, as the
/// crate's `row!` macro does) and prints it with its `Display` impl. The
/// printed text is left to the name `table_text`.
#[verifier::external_body]
pub(crate) fn render_table(rows: &Vec<Vec<String>>) -> (r: String)
    ensures
        r@ == table_text(rows_view(rows@)),
{
    prettytable::Table::from(rows).to_string()
}

} // verus!
