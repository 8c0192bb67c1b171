//! Query results: rows out of columns, and single rows of integers.
use crate::cases::row_texts;
use crate::text::texts;
use vstd::prelude::*;

verus! {

/// What a result column holds.
#[derive(Clone, Copy, PartialEq, Eq, Structural, Debug)]
pub enum ColumnType {
    Int64,
    Other,
}

/// A result column: its name, its type, and the integer in its first row, where it is one.
#[derive(Debug)]
pub struct ResultColumn {
    pub name: String,
    pub column_type: ColumnType,
    pub value: Option<i64>,
}

/// A batch of a result.
#[derive(Debug)]
pub struct ResultBatch {
    pub row_count: usize,
    pub columns: Vec<ResultColumn>,
}

/// The texts that a list of columns holds.
pub open spec fn column_texts(columns: Seq<Vec<String>>) -> Seq<Seq<Seq<char>>> {
    columns.map_values(|column: Vec<String>| texts(column@))
}

/// The first `row_count` rows of a list of columns.
pub open spec fn rows_of(columns: Seq<Seq<Seq<char>>>, row_count: nat) -> Seq<Seq<Seq<char>>> {
    Seq::new(row_count, |row: int| columns.map_values(|column: Seq<Seq<char>>| column[row]))
}

/// A column has the given name and holds the given integer.
pub open spec fn column_is(column: ResultColumn, name: Seq<char>, value: Option<i64>) -> bool {
    &&& column.name@ == name
    &&& column.column_type == ColumnType::Int64
    &&& column.value == value
}

/// A result is one batch of one row, with as many columns as there are names, and each column
/// that has both a name and a value expected of it is as expected.
pub open spec fn is_single_row(
    batches: Seq<ResultBatch>,
    names: Seq<Seq<char>>,
    values: Seq<Option<i64>>,
) -> bool {
    &&& batches.len() == 1
    &&& batches[0].row_count == 1
    &&& batches[0].columns@.len() == names.len()
    &&& forall|i: int|
        0 <= i < names.len() && i < values.len() ==> column_is(
            #[trigger] batches[0].columns@[i],
            names[i],
            values[i],
        )
}

/// Adds the rows of one batch, given by its columns, to those of the batches before it.
pub fn append_rows(columns: &Vec<Vec<String>>, row_count: usize, rows: &mut Vec<Vec<String>>)
    requires
        forall|i: int| 0 <= i < columns@.len() ==> row_count <= (#[trigger] columns@[i])@.len(),
    ensures
        row_texts(final(rows)@) == row_texts(old(rows)@) + rows_of(
            column_texts(columns@),
            row_count as nat,
        ),
{
    let ghost all = rows_of(column_texts(columns@), row_count as nat);
    let mut row: usize = 0;
    assert(row_texts(rows@) =~= row_texts(old(rows)@) + all.take(0));
    while row < row_count
        invariant
            row <= row_count,
            all == rows_of(column_texts(columns@), row_count as nat),
            forall|i: int| 0 <= i < columns@.len() ==> row_count <= (#[trigger] columns@[i])@.len(),
            row_texts(rows@) == row_texts(old(rows)@) + all.take(row as int),
        decreases row_count - row,
    {
        let mut cells: Vec<String> = Vec::new();
        let mut i: usize = 0;
        while i < columns.len()
            invariant
                row < row_count,
                i <= columns@.len(),
                cells@.len() == i,
                forall|j: int|
                    0 <= j < columns@.len() ==> row_count <= (#[trigger] columns@[j])@.len(),
                forall|j: int|
                    0 <= j < i ==> (#[trigger] cells@[j])@ == columns@[j]@[row as int]@,
            decreases columns@.len() - i,
        {
            let column = &columns[i];
            cells.push(column[row].clone());
            i = i + 1;
        }
        let ghost before = rows@;
        assert(texts(cells@) =~= all[row as int]);
        rows.push(cells);
        assert(row_texts(rows@) =~= row_texts(before).push(all[row as int]));
        assert(row_texts(rows@) =~= row_texts(old(rows)@) + all.take(row + 1));
        row = row + 1;
    }
    assert(all.take(row_count as int) =~= all);
}

/// Whether a result is the one row that is expected.
pub fn single_row_matches(
    batches: &Vec<ResultBatch>,
    names: &Vec<String>,
    values: &Vec<Option<i64>>,
) -> (r: bool)
    ensures
        r == is_single_row(batches@, texts(names@), values@),
{
    if batches.len() != 1 {
        return false;
    }
    let batch = &batches[0];
    if batch.row_count != 1 || batch.columns.len() != names.len() {
        return false;
    }
    let mut i: usize = 0;
    while i < names.len() && i < values.len()
        invariant
            batches@.len() == 1,
            batch == batches@[0],
            batch.row_count == 1,
            batch.columns@.len() == names@.len(),
            i <= names@.len(),
            forall|j: int|
                0 <= j < i ==> column_is(
                    #[trigger] batch.columns@[j],
                    texts(names@)[j],
                    values@[j],
                ),
        decreases names@.len() - i,
    {
        let column = &batch.columns[i];
        let same_value = match (column.value, values[i]) {
            (Some(held), Some(wanted)) => held == wanted,
            (None, None) => true,
            _ => false,
        };
        if !(column.name == names[i] && column.column_type == ColumnType::Int64 && same_value) {
            assert(!column_is(
                batch.columns@[i as int],
                texts(names@)[i as int],
                values@[i as int],
            ));
            return false;
        }
        i = i + 1;
    }
    true
}

/// A result is accepted exactly where it is one batch of one row with as many columns as names, and
/// the first columns, as many as have both a name and a value expected of them, hold integers under
/// those names with those values, NULL or not.
pub proof fn law_accepted_row_holds_what_is_expected(
    batches: Seq<ResultBatch>,
    names: Seq<Seq<char>>,
    values: Seq<Option<i64>>,
    n: int,
)
    requires
        n == names.len() <= values.len() || n == values.len() <= names.len(),
    ensures
        is_single_row(batches, names, values) <==> {
            let first = batches[0].columns@.take(n);
            &&& batches.len() == 1
            &&& batches[0].row_count == 1
            &&& batches[0].columns@.len() == names.len()
            &&& names.take(n) == first.map_values(|column: ResultColumn| column.name@)
            &&& values.take(n) == first.map_values(|column: ResultColumn| column.value)
            &&& forall|i: int|
                0 <= i < n ==> (#[trigger] first[i]).column_type == ColumnType::Int64
        },
{
    let columns = batches[0].columns@;
    let first = columns.take(n);
    let held_names = first.map_values(|column: ResultColumn| column.name@);
    let held_values = first.map_values(|column: ResultColumn| column.value);
    if batches.len() == 1 && columns.len() == names.len() {
        if is_single_row(batches, names, values) {
            assert forall|i: int| 0 <= i < n implies column_is(
                #[trigger] first[i],
                names[i],
                values[i],
            ) by {
                assert(column_is(columns[i], names[i], values[i]));
            }
            assert(names.take(n) =~= held_names);
            assert(values.take(n) =~= held_values);
        }
        if names.take(n) == held_names && values.take(n) == held_values && (forall|i: int|
            0 <= i < n ==> (#[trigger] first[i]).column_type == ColumnType::Int64) {
            assert forall|i: int|
                0 <= i < names.len() && i < values.len() implies column_is(
                #[trigger] columns[i],
                names[i],
                values[i],
            ) by {
                assert(first[i] == columns[i]);
                assert(names.take(n)[i] == held_names[i]);
                assert(values.take(n)[i] == held_values[i]);
            }
        }
    }
}

/// What is accepted determines what was expected: where one result is accepted twice, as many
/// columns were expected, and each name and value that was expected both times is the same. So an
/// integer is never accepted where NULL is expected, nor NULL for an integer, nor one integer for
/// another.
pub proof fn law_accepted_row_determines_expectation(
    batches: Seq<ResultBatch>,
    names: Seq<Seq<char>>,
    values: Seq<Option<i64>>,
    other_names: Seq<Seq<char>>,
    other_values: Seq<Option<i64>>,
)
    requires
        is_single_row(batches, names, values),
        is_single_row(batches, other_names, other_values),
    ensures
        names.len() == other_names.len(),
        forall|i: int|
            0 <= i < names.len() && i < values.len() && i < other_values.len() ==> (
            #[trigger] names[i]) == other_names[i] && values[i] == other_values[i],
        names.len() == values.len() && names.len() == other_values.len() ==> names == other_names
            && values == other_values,
{
    let columns = batches[0].columns@;
    assert forall|i: int|
        0 <= i < names.len() && i < values.len() && i < other_values.len() implies (
    #[trigger] names[i]) == other_names[i] && values[i] == other_values[i] by {
        assert(column_is(columns[i], names[i], values[i]));
        assert(column_is(columns[i], other_names[i], other_values[i]));
    }
    if names.len() == values.len() && names.len() == other_values.len() {
        assert(names =~= other_names);
        assert forall|i: int| 0 <= i < values.len() implies values[i] == other_values[i] by {
            assert(names[i] == other_names[i]);
        }
        assert(values =~= other_values);
    }
}

/// Only columns that have both a name and a value expected of them are compared: surplus values
/// change nothing, and neither does what a surplus name is.
pub proof fn law_surplus_expectation_is_not_compared(
    batches: Seq<ResultBatch>,
    names: Seq<Seq<char>>,
    other_names: Seq<Seq<char>>,
    values: Seq<Option<i64>>,
    surplus: Seq<Option<i64>>,
)
    requires
        names.len() == other_names.len(),
        forall|i: int|
            0 <= i < names.len() && i < values.len() ==> (#[trigger] names[i]) == other_names[i],
    ensures
        is_single_row(batches, names, values) == is_single_row(batches, other_names, values),
        names.len() <= values.len() ==> is_single_row(batches, names, values + surplus)
            == is_single_row(batches, names, values),
{
    let columns = batches[0].columns@;
    if batches.len() == 1 && columns.len() == names.len() {
        assert forall|i: int| 0 <= i < names.len() && i < values.len() implies column_is(
            #[trigger] columns[i],
            names[i],
            values[i],
        ) == column_is(columns[i], other_names[i], values[i]) by {
            assert(names[i] == other_names[i]);
        }
        if names.len() <= values.len() {
            assert forall|i: int| 0 <= i < names.len() implies column_is(
                #[trigger] columns[i],
                names[i],
                (values + surplus)[i],
            ) == column_is(columns[i], names[i], values[i]) by {
                assert((values + surplus)[i] == values[i]);
            }
        }
    }
}

/// Rows turn columns: there are as many rows as asked for, each has a cell for every column, and
/// the cell of a row in a column is what that column holds in that row.
pub proof fn law_rows_turn_columns(columns: Seq<Vec<String>>, row_count: nat)
    ensures
        rows_of(column_texts(columns), row_count).len() == row_count,
        forall|row: int|
            0 <= row < row_count ==> (#[trigger] rows_of(
                column_texts(columns),
                row_count,
            )[row]).len() == columns.len(),
        forall|row: int, column: int|
            0 <= row < row_count && 0 <= column < columns.len() && row < columns[column]@.len()
                ==> (#[trigger] rows_of(column_texts(columns), row_count)[row][column])
                == columns[column]@[row]@,
{
}

} // verus!
