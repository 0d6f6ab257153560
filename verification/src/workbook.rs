//! The workbook reader's computing half: given each sheet's name and its
//! resolved range (or nothing, when resolution failed), builds one [`Table`]
//! per resolved sheet, in file order. Opening the workbook file and decoding
//! its container is I/O and stays with the caller.

use vstd::prelude::*;

use crate::error::ParseError;
use crate::table::clone_row;
use crate::table::grid_view;
use crate::table::header_of;
use crate::table::text_cells;
use crate::table::CellValue;
use crate::table::Table;
use crate::text::sanitize_spec;

verus! {

/// One sheet as the workbook file presents it: its name, and its data range
/// when the sheet resolved. A sheet whose range could not be resolved
/// carries nothing and is skipped without failing the parse.
#[derive(Debug)]
pub struct Sheet {
    pub name: String,
    pub range: Option<Vec<Vec<CellValue>>>,
}

/// The positions of the resolved sheets, in file order.
pub open spec fn resolved_indices(sheets: Seq<Sheet>) -> Seq<int>
    decreases sheets.len(),
{
    if sheets.len() == 0 {
        Seq::empty()
    } else if sheets.last().range is Some {
        resolved_indices(sheets.drop_last()).push(sheets.len() - 1)
    } else {
        resolved_indices(sheets.drop_last())
    }
}

/// The resolved positions are exactly the sheets that carry a range, listed
/// in strictly increasing file order.
pub proof fn lemma_resolved_indices(sheets: Seq<Sheet>)
    ensures
        forall|i: int|
            0 <= i < resolved_indices(sheets).len() ==> 0 <= #[trigger] resolved_indices(
                sheets,
            )[i] < sheets.len() && sheets[resolved_indices(sheets)[i]].range is Some,
        forall|i: int, j: int|
            0 <= i < j < resolved_indices(sheets).len() ==> #[trigger] resolved_indices(sheets)[i]
                < #[trigger] resolved_indices(sheets)[j],
        forall|k: int|
            0 <= k < sheets.len() && sheets[k].range is Some ==> resolved_indices(
                sheets,
            ).contains(k),
    decreases sheets.len(),
{
    if sheets.len() > 0 {
        lemma_resolved_indices(sheets.drop_last());
        assert forall|k: int|
            0 <= k < sheets.len() && sheets[k].range is Some implies resolved_indices(
            sheets,
        ).contains(k) by {
            if k == sheets.len() - 1 {
                assert(resolved_indices(sheets).last() == k);
            } else {
                assert(sheets.drop_last()[k] == sheets[k]);
                assert(resolved_indices(sheets.drop_last()).contains(k));
                let w = choose|w: int|
                    0 <= w < resolved_indices(sheets.drop_last()).len() && resolved_indices(
                        sheets.drop_last(),
                    )[w] == k;
                assert(resolved_indices(sheets)[w] == k);
            }
        }
    }
}

/// Whether a table is the one that [`Table::new`] builds for this sheet.
pub open spec fn table_matches_sheet(t: Table, s: Sheet) -> bool {
    &&& s.range is Some
    &&& t.name@ == sanitize_spec(s.name@)
    &&& t.fields.deep_view() == text_cells(header_of(grid_view(s.range.unwrap()@)))
    &&& t.grid() == grid_view(s.range.unwrap()@)
}

fn clone_grid(g: &Vec<Vec<CellValue>>) -> (r: Vec<Vec<CellValue>>)
    ensures
        r@.len() == g@.len(),
        forall|i: int| 0 <= i < g@.len() ==> r@[i]@ == g@[i]@,
{
    let mut r: Vec<Vec<CellValue>> = Vec::new();
    let mut i: usize = 0;
    while i < g.len()
        invariant
            i <= g@.len(),
            r@.len() == i,
            forall|j: int| 0 <= j < i ==> r@[j]@ == g@[j]@,
        decreases g@.len() - i,
    {
        r.push(clone_row(&g[i]));
        i = i + 1;
    }
    r
}

/// Builds one table per resolved sheet, in file order; a sheet without a
/// range is skipped and contributes nothing. A parse over plain in-memory
/// ranges always succeeds.
pub fn parse_excel(sheets: &Vec<Sheet>) -> (r: Result<Vec<Table>, ParseError>)
    ensures
        r matches Ok(tables) && tables@.len() == resolved_indices(sheets@).len() && (forall|i: int|
            0 <= i < tables@.len() ==> table_matches_sheet(
                tables@[i],
                sheets@[resolved_indices(sheets@)[i]],
            )),
{
    let mut tables: Vec<Table> = Vec::new();
    let mut i: usize = 0;
    while i < sheets.len()
        invariant
            i <= sheets@.len(),
            tables@.len() == resolved_indices(sheets@.take(i as int)).len(),
            forall|j: int|
                0 <= j < tables@.len() ==> table_matches_sheet(
                    tables@[j],
                    sheets@[resolved_indices(sheets@.take(i as int))[j]],
                ),
        decreases sheets@.len() - i,
    {
        let ghost pre_idx = resolved_indices(sheets@.take(i as int));
        proof {
            assert(sheets@.take(i + 1 as int).drop_last() =~= sheets@.take(i as int));
            assert(sheets@.take(i + 1 as int).last() == sheets@[i as int]);
            lemma_resolved_indices(sheets@.take(i as int));
        }
        match &sheets[i].range {
            Some(rg) => {
                let grid = clone_grid(rg);
                proof {
                    assert(grid_view(grid@) =~= grid_view(rg@));
                }
                let t = match Table::new(sheets[i].name.as_str(), grid) {
                    Ok(t) => t,
                    Err(e) => {
                        return Err(e);
                    },
                };
                tables.push(t);
                proof {
                    assert(resolved_indices(sheets@.take(i + 1 as int)) =~= pre_idx.push(i as int));
                }
            },
            None => {
                proof {
                    assert(resolved_indices(sheets@.take(i + 1 as int)) =~= pre_idx);
                }
            },
        }
        i = i + 1;
    }
    proof {
        assert(sheets@.take(sheets@.len() as int) =~= sheets@);
    }
    Ok(tables)
}

} // verus!
