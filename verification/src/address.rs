//! The address extractor: from the coordinator's rows to the addresses of the
//! backends.
//!
//! The rows name no columns. The column of the addresses is found once for the
//! whole table: it is the first column, in the first row that has one, whose
//! cell is an IP address. Every row then gives the cell of that column.

use vstd::prelude::*;
use vstd::string::*;
use crate::ip::{address_syntax, is_address};
use crate::record::ReportError;

verus! {

/// Whether some cell of `row` is an IP address.
pub open spec fn row_has_address(row: Seq<Seq<char>>) -> bool {
    exists|c: int| 0 <= c < row.len() && address_syntax(#[trigger] row[c])
}

/// Whether `c` is the first column of `row` whose cell is an IP address.
pub open spec fn is_first_address_of_row(row: Seq<Seq<char>>, c: int) -> bool {
    &&& 0 <= c < row.len()
    &&& address_syntax(row[c])
    &&& forall|j: int| 0 <= j < c ==> !address_syntax(#[trigger] row[j])
}

/// The first column of `row` whose cell is an IP address, if it has one.
pub open spec fn address_column_of_row(row: Seq<Seq<char>>) -> Option<int> {
    if row_has_address(row) {
        Some(choose|c: int| is_first_address_of_row(row, c))
    } else {
        None
    }
}

/// The address column of a table: the one found in the first of its rows that
/// has an address at all, or `None` where no row has one.
pub open spec fn address_column(rows: Seq<Seq<Seq<char>>>) -> Option<int>
    decreases rows.len(),
{
    if rows.len() == 0 {
        None
    } else {
        match address_column(rows.drop_last()) {
            Some(c) => Some(c),
            None => address_column_of_row(rows.last()),
        }
    }
}

/// What the extractor gives for a table. A table without rows has no backend.
/// Otherwise the table must have an address column and every row must reach
/// it; the addresses are then the cells of that column, one per row, in the
/// order of the rows.
pub open spec fn addresses_of(rows: Seq<Seq<Seq<char>>>) -> Result<Seq<Seq<char>>, ReportError> {
    if rows.len() == 0 {
        Ok(Seq::empty())
    } else {
        match address_column(rows) {
            None => Err(ReportError::MalformedRow),
            Some(c) => if forall|r: int| 0 <= r < rows.len() ==> c < (#[trigger] rows[r]).len() {
                Ok(Seq::new(rows.len(), |r: int| rows[r][c]))
            } else {
                Err(ReportError::MalformedRow)
            },
        }
    }
}

/// The first column of `row` whose cell is an IP address.
pub fn find_address_in_row(row: &Vec<String>) -> (column: Option<usize>)
    ensures
        match column {
            Some(c) => is_first_address_of_row(row.deep_view(), c as int)
                && address_column_of_row(row.deep_view()) == Some(c as int),
            None => !row_has_address(row.deep_view()),
        },
{
    let ghost cells = row.deep_view();
    let mut c: usize = 0;
    while c < row.len()
        invariant
            c <= row.len(),
            cells == row.deep_view(),
            forall|j: int| 0 <= j < c ==> !address_syntax(#[trigger] cells[j]),
        decreases row.len() - c,
    {
        assert(cells[c as int] == row[c as int]@);
        if is_address(row[c].as_str()) {
            proof {
                assert(is_first_address_of_row(cells, c as int));
                let chosen = choose|k: int| is_first_address_of_row(cells, k);
                assert(chosen == c);
            }
            return Some(c);
        }
        c = c + 1;
    }
    None
}

/// The address column of `rows`.
pub fn find_address_column(rows: &Vec<Vec<String>>) -> (column: Option<usize>)
    ensures
        column is Some <==> address_column(rows.deep_view()) is Some,
        column matches Some(c) ==> address_column(rows.deep_view()) == Some(c as int),
{
    let ghost table = rows.deep_view();
    let mut r: usize = 0;
    while r < rows.len()
        invariant
            r <= rows.len(),
            table == rows.deep_view(),
            address_column(table.take(r as int)) is None,
        decreases rows.len() - r,
    {
        proof {
            assert(table.take(r + 1).drop_last() =~= table.take(r as int));
            assert(table.take(r + 1).last() == rows[r as int].deep_view());
        }
        match find_address_in_row(&rows[r]) {
            Some(c) => {
                proof {
                    lemma_address_column_stays(table, r + 1);
                }
                return Some(c);
            },
            None => {},
        }
        r = r + 1;
    }
    proof {
        assert(table.take(rows.len() as int) =~= table);
    }
    None
}

/// Once the first rows of a table have an address column, it is the table's.
pub proof fn lemma_address_column_stays(rows: Seq<Seq<Seq<char>>>, n: int)
    requires
        0 <= n <= rows.len(),
        address_column(rows.take(n)) is Some,
    ensures
        address_column(rows) == address_column(rows.take(n)),
    decreases rows.len() - n,
{
    if n < rows.len() {
        assert(rows.take(n + 1).drop_last() =~= rows.take(n));
        lemma_address_column_stays(rows, n + 1);
    } else {
        assert(rows.take(n) =~= rows);
    }
}

/// The addresses of the backends that `rows` list: for each row the cell of
/// the table's address column. `MalformedRow` where the table has rows but no
/// address column, or a row that does not reach it.
pub fn extract_addresses(rows: &Vec<Vec<String>>) -> (out: Result<Vec<String>, ReportError>)
    ensures
        match out {
            Ok(addresses) => addresses_of(rows.deep_view()) == Ok::<_, ReportError>(
                addresses.deep_view(),
            ),
            Err(error) => addresses_of(rows.deep_view()) == Err::<Seq<Seq<char>>, _>(error),
        },
{
    let ghost table = rows.deep_view();
    if rows.len() == 0 {
        let none: Vec<String> = Vec::new();
        assert(none.deep_view() =~= Seq::<Seq<char>>::empty());
        return Ok(none);
    }
    let column = match find_address_column(rows) {
        Some(c) => c,
        None => { return Err(ReportError::MalformedRow); },
    };
    let mut addresses: Vec<String> = Vec::new();
    let mut r: usize = 0;
    while r < rows.len()
        invariant
            r <= rows.len(),
            table == rows.deep_view(),
            addresses.len() == r,
            address_column(table) == Some(column as int),
            forall|k: int| 0 <= k < r ==> column < (#[trigger] table[k]).len(),
            forall|k: int| 0 <= k < r ==> (#[trigger] addresses[k])@ == table[k][column as int],
        decreases rows.len() - r,
    {
        let row = &rows[r];
        assert(table[r as int] == row.deep_view());
        if column >= row.len() {
            assert(!(column < table[r as int].len()));
            return Err(ReportError::MalformedRow);
        }
        addresses.push(row[column].clone());
        r = r + 1;
    }
    proof {
        assert(addresses.deep_view() =~= Seq::new(
            table.len(),
            |k: int| table[k][column as int],
        ));
    }
    Ok(addresses)
}

/// Whether `addresses` holds, for each row of `rows`, the cell of column `c`.
pub open spec fn stand_in_column(
    rows: Seq<Seq<Seq<char>>>,
    addresses: Seq<Seq<char>>,
    c: int,
) -> bool {
    &&& addresses.len() == rows.len()
    &&& forall|r: int|
        0 <= r < rows.len() ==> 0 <= c < (#[trigger] rows[r]).len() && addresses[r] == rows[r][c]
}

/// Where some row of a table holds an IP address and every row reaches the
/// table's address column, the extractor gives exactly one address per row,
/// and all of them stand in one and the same column.
pub proof fn lemma_one_address_per_row(rows: Seq<Seq<Seq<char>>>)
    requires
        exists|r: int| 0 <= r < rows.len() && row_has_address(#[trigger] rows[r]),
        forall|r: int|
            0 <= r < rows.len() ==> address_column(rows).unwrap() < (#[trigger] rows[r]).len(),
    ensures
        addresses_of(rows) is Ok,
        addresses_of(rows).unwrap().len() == rows.len(),
        exists|c: int| #[trigger] stand_in_column(rows, addresses_of(rows).unwrap(), c),
{
    let r = choose|r: int| 0 <= r < rows.len() && row_has_address(#[trigger] rows[r]);
    lemma_address_column_found(rows, r);
    let c = address_column(rows).unwrap();
    lemma_address_column_in_range(rows);
    assert(stand_in_column(rows, addresses_of(rows).unwrap(), c));
}

/// A table with an address in some row has an address column.
pub proof fn lemma_address_column_found(rows: Seq<Seq<Seq<char>>>, r: int)
    requires
        0 <= r < rows.len(),
        row_has_address(rows[r]),
    ensures
        address_column(rows) is Some,
    decreases rows.len(),
{
    if r < rows.len() - 1 {
        lemma_address_column_found(rows.drop_last(), r);
    }
}

/// The address column of a table is a column of one of its rows, whose cell
/// there is an IP address, and no row before that one has an address.
pub proof fn lemma_address_column_in_range(rows: Seq<Seq<Seq<char>>>)
    requires
        address_column(rows) is Some,
    ensures
        exists|r: int|
            0 <= r < rows.len() && is_first_address_of_row(
                #[trigger] rows[r],
                address_column(rows).unwrap(),
            ) && forall|q: int| 0 <= q < r ==> !row_has_address(#[trigger] rows[q]),
        address_column(rows).unwrap() >= 0,
    decreases rows.len(),
{
    if rows.len() > 0 {
        let front = rows.drop_last();
        if address_column(front) is Some {
            lemma_address_column_in_range(front);
            let r = choose|r: int|
                0 <= r < front.len() && is_first_address_of_row(
                    #[trigger] front[r],
                    address_column(front).unwrap(),
                ) && forall|q: int| 0 <= q < r ==> !row_has_address(#[trigger] front[q]);
            assert(rows[r] == front[r]);
            assert forall|q: int| 0 <= q < r implies !row_has_address(#[trigger] rows[q]) by {
                assert(rows[q] == front[q]);
            }
        } else {
            let last = rows.len() - 1;
            assert(row_has_address(rows[last]));
            let c = choose|c: int| 0 <= c < rows[last].len() && address_syntax(#[trigger] rows[last][c]);
            lemma_first_address_exists(rows[last], c);
            assert forall|q: int| 0 <= q < last implies !row_has_address(#[trigger] rows[q]) by {
                if row_has_address(rows[q]) {
                    assert(front[q] == rows[q]);
                    lemma_address_column_found(front, q);
                }
            }
        }
    }
}

/// A row with an address has a first column with an address.
pub proof fn lemma_first_address_exists(row: Seq<Seq<char>>, c: int)
    requires
        0 <= c < row.len(),
        address_syntax(row[c]),
    ensures
        exists|k: int| is_first_address_of_row(row, k),
    decreases c,
{
    if forall|j: int| 0 <= j < c ==> !address_syntax(#[trigger] row[j]) {
        assert(is_first_address_of_row(row, c));
    } else {
        let j = choose|j: int| 0 <= j < c && address_syntax(#[trigger] row[j]);
        lemma_first_address_exists(row, j);
    }
}

} // verus!
