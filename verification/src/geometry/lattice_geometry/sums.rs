//! Sums over the rows and the columns of a table of integers.

use vstd::prelude::*;

verus! {

/// The sum of the first `columns` cells of a row.
pub open spec fn row_sum(cell: spec_fn(int, int) -> int, row: int, columns: int) -> int
    decreases columns,
{
    if columns <= 0 {
        0
    } else {
        row_sum(cell, row, columns - 1) + cell(row, columns - 1)
    }
}

/// The sum of the first `rows` cells of a column.
pub open spec fn column_sum(cell: spec_fn(int, int) -> int, column: int, rows: int) -> int
    decreases rows,
{
    if rows <= 0 {
        0
    } else {
        column_sum(cell, column, rows - 1) + cell(rows - 1, column)
    }
}

/// The sum of the table, taken row by row.
pub open spec fn sum_by_rows(cell: spec_fn(int, int) -> int, rows: int, columns: int) -> int
    decreases rows,
{
    if rows <= 0 {
        0
    } else {
        sum_by_rows(cell, rows - 1, columns) + row_sum(cell, rows - 1, columns)
    }
}

/// The sum of the table, taken column by column.
pub open spec fn sum_by_columns(cell: spec_fn(int, int) -> int, rows: int, columns: int) -> int
    decreases columns,
{
    if columns <= 0 {
        0
    } else {
        sum_by_columns(cell, rows, columns - 1) + column_sum(cell, columns - 1, rows)
    }
}

proof fn lemma_without_rows(cell: spec_fn(int, int) -> int, rows: int, columns: int)
    requires
        rows <= 0,
    ensures
        sum_by_columns(cell, rows, columns) == 0,
    decreases columns,
{
    if columns > 0 {
        lemma_without_rows(cell, rows, columns - 1);
    }
}

proof fn lemma_one_more_row(cell: spec_fn(int, int) -> int, rows: int, columns: int)
    requires
        rows > 0,
    ensures
        sum_by_columns(cell, rows, columns) == sum_by_columns(cell, rows - 1, columns) + row_sum(
            cell,
            rows - 1,
            columns,
        ),
    decreases columns,
{
    if columns > 0 {
        lemma_one_more_row(cell, rows, columns - 1);
    }
}

/// A table sums to the same by rows and by columns.
pub proof fn lemma_sum_either_way(cell: spec_fn(int, int) -> int, rows: int, columns: int)
    ensures
        sum_by_rows(cell, rows, columns) == sum_by_columns(cell, rows, columns),
    decreases rows,
{
    if rows <= 0 {
        lemma_without_rows(cell, rows, columns);
    } else {
        lemma_sum_either_way(cell, rows - 1, columns);
        lemma_one_more_row(cell, rows, columns);
    }
}

/// A row of zeros sums to zero.
pub proof fn lemma_row_of_none(cell: spec_fn(int, int) -> int, row: int, columns: int)
    requires
        forall|column: int| 0 <= column < columns ==> #[trigger] cell(row, column) == 0,
    ensures
        row_sum(cell, row, columns) == 0,
    decreases columns,
{
    if columns > 0 {
        lemma_row_of_none(cell, row, columns - 1);
    }
}

/// A row of zeros but for one cell sums to that cell.
pub proof fn lemma_row_of_one(cell: spec_fn(int, int) -> int, row: int, columns: int, at: int)
    requires
        0 <= at < columns,
        forall|column: int|
            0 <= column < columns && column != at ==> #[trigger] cell(row, column) == 0,
    ensures
        row_sum(cell, row, columns) == cell(row, at),
    decreases columns,
{
    if columns - 1 == at {
        lemma_row_of_none(cell, row, columns - 1);
    } else {
        lemma_row_of_one(cell, row, columns - 1, at);
    }
}

/// A column of zeros sums to zero.
pub proof fn lemma_column_of_none(cell: spec_fn(int, int) -> int, column: int, rows: int)
    requires
        forall|row: int| 0 <= row < rows ==> #[trigger] cell(row, column) == 0,
    ensures
        column_sum(cell, column, rows) == 0,
    decreases rows,
{
    if rows > 0 {
        lemma_column_of_none(cell, column, rows - 1);
    }
}

/// A column of zeros but for one cell sums to that cell.
pub proof fn lemma_column_of_one(cell: spec_fn(int, int) -> int, column: int, rows: int, at: int)
    requires
        0 <= at < rows,
        forall|row: int| 0 <= row < rows && row != at ==> #[trigger] cell(row, column) == 0,
    ensures
        column_sum(cell, column, rows) == cell(at, column),
    decreases rows,
{
    if rows - 1 == at {
        lemma_column_of_none(cell, column, rows - 1);
    } else {
        lemma_column_of_one(cell, column, rows - 1, at);
    }
}

/// Two tables whose columns sum alike sum alike.
pub proof fn lemma_columns_agree(
    first: spec_fn(int, int) -> int,
    second: spec_fn(int, int) -> int,
    rows: int,
    columns: int,
)
    requires
        forall|column: int|
            0 <= column < columns ==> #[trigger] column_sum(first, column, rows) == column_sum(
                second,
                column,
                rows,
            ),
    ensures
        sum_by_columns(first, rows, columns) == sum_by_columns(second, rows, columns),
    decreases columns,
{
    if columns > 0 {
        lemma_columns_agree(first, second, rows, columns - 1);
    }
}

/// A column each of whose cells is the sum of a row of a second table sums
/// to that table.
pub proof fn lemma_column_of_row_sums(
    outer: spec_fn(int, int) -> int,
    column: int,
    inner: spec_fn(int, int) -> int,
    rows: int,
    columns: int,
)
    requires
        forall|row: int|
            0 <= row < rows ==> #[trigger] outer(row, column) == row_sum(inner, row, columns),
    ensures
        column_sum(outer, column, rows) == sum_by_rows(inner, rows, columns),
    decreases rows,
{
    if rows > 0 {
        lemma_column_of_row_sums(outer, column, inner, rows - 1, columns);
    }
}

/// A column each of whose cells is the sum of a column of a second table
/// sums to that table.
pub proof fn lemma_column_of_column_sums(
    outer: spec_fn(int, int) -> int,
    column: int,
    inner: spec_fn(int, int) -> int,
    rows: int,
    columns: int,
)
    requires
        forall|row: int|
            0 <= row < columns ==> #[trigger] outer(row, column) == column_sum(inner, row, rows),
    ensures
        column_sum(outer, column, columns) == sum_by_columns(inner, rows, columns),
    decreases columns,
{
    if columns > 0 {
        lemma_column_of_column_sums(outer, column, inner, rows, columns - 1);
    }
}

} // verus!
