//! The spreadsheet decoder, as far as it is independent of the reader of
//! workbooks: how the sheets of a workbook become its text, one line for
//! each row, each cell followed by a tab.

use vstd::prelude::*;
use vstd::string::StringExecFns;
use crate::text::texts_of;

verus! {

/// The cells of the rows of a sheet, as character sequences.
pub open spec fn rows_of(rows: Seq<Vec<String>>) -> Seq<Seq<Seq<char>>> {
    Seq::new(rows.len(), |i: int| texts_of(rows[i]@))
}

/// The cells of a sheet that may be missing.
pub open spec fn grid_of(rows: Option<Vec<Vec<String>>>) -> Option<Seq<Seq<Seq<char>>>> {
    match rows {
        Some(rows) => Some(rows_of(rows@)),
        None => None,
    }
}

/// The cells of a row, each followed by a tab.
pub open spec fn cells_text(cells: Seq<Seq<char>>) -> Seq<char>
    decreases cells.len(),
{
    if cells.len() == 0 {
        Seq::empty()
    } else {
        cells_text(cells.drop_last()) + cells.last() + "\t"@
    }
}

/// The rows of a sheet, each as its cells followed by a line break.
pub open spec fn rows_text(rows: Seq<Seq<Seq<char>>>) -> Seq<char>
    decreases rows.len(),
{
    if rows.len() == 0 {
        Seq::empty()
    } else {
        rows_text(rows.drop_last()) + cells_text(rows.last()) + "\n"@
    }
}

/// A sheet in the output: a heading with its name, its rows where they
/// could be read, and an empty line.
pub open spec fn sheet_text(name: Seq<char>, rows: Option<Seq<Seq<Seq<char>>>>) -> Seq<char> {
    "Sheet: "@ + name + "\n"@ + (match rows {
        Some(rows) => rows_text(rows),
        None => Seq::empty(),
    }) + "\n"@
}

/// The sheets of a workbook in the output, one after the other.
pub open spec fn workbook_text(sheets: Seq<(Seq<char>, Option<Seq<Seq<Seq<char>>>>)>) -> Seq<char>
    decreases sheets.len(),
{
    if sheets.len() == 0 {
        Seq::empty()
    } else {
        workbook_text(sheets.drop_last()) + sheet_text(sheets.last().0, sheets.last().1)
    }
}

/// A sheet of a workbook: its name, and its rows of cells, each cell as
/// it is displayed; no rows for a sheet that cannot be read.
#[derive(Debug)]
pub struct Sheet {
    pub name: String,
    pub rows: Option<Vec<Vec<String>>>,
}

/// A sheet in the model: its name, and its rows of cells where they can
/// be read.
pub type SheetModel = (Seq<char>, Option<Seq<Seq<Seq<char>>>>);

/// The models of the sheets of a workbook.
pub open spec fn sheets_of(sheets: Seq<Sheet>) -> Seq<SheetModel> {
    Seq::new(sheets.len(), |i: int| (sheets[i].name@, grid_of(sheets[i].rows)))
}

/// Appends the cells of a row, each followed by a tab.
pub fn push_cells(out: &mut String, cells: &Vec<String>)
    ensures
        final(out)@ == old(out)@ + cells_text(texts_of(cells@)),
{
    let ghost all = texts_of(cells@);
    let mut i: usize = 0;
    assert(all.take(0) =~= Seq::<Seq<char>>::empty());
    assert(out@ =~= old(out)@ + cells_text(all.take(0)));
    while i < cells.len()
        invariant
            i <= cells.len(),
            all == texts_of(cells@),
            out@ == old(out)@ + cells_text(all.take(i as int)),
        decreases cells.len() - i,
    {
        let ghost before = out@;
        out.append(cells[i].as_str());
        out.append("\t");
        proof {
            let next = all.take(i + 1);
            assert(next.drop_last() =~= all.take(i as int));
            assert(next.last() == cells@[i as int]@);
            assert(out@ =~= old(out)@ + cells_text(next));
        }
        i += 1;
    }
    assert(all.take(cells.len() as int) =~= all);
}

/// Appends the rows of a sheet, each as its cells followed by a line
/// break.
pub fn push_rows(out: &mut String, rows: &Vec<Vec<String>>)
    ensures
        final(out)@ == old(out)@ + rows_text(rows_of(rows@)),
{
    let ghost all = rows_of(rows@);
    let mut i: usize = 0;
    assert(all.take(0) =~= Seq::<Seq<Seq<char>>>::empty());
    assert(out@ =~= old(out)@ + rows_text(all.take(0)));
    while i < rows.len()
        invariant
            i <= rows.len(),
            all == rows_of(rows@),
            out@ == old(out)@ + rows_text(all.take(i as int)),
        decreases rows.len() - i,
    {
        push_cells(out, &rows[i]);
        out.append("\n");
        proof {
            let next = all.take(i + 1);
            assert(next.drop_last() =~= all.take(i as int));
            assert(next.last() == texts_of(rows@[i as int]@));
            assert(out@ =~= old(out)@ + rows_text(next));
        }
        i += 1;
    }
    assert(all.take(rows.len() as int) =~= all);
}

/// Appends a sheet: its heading, its rows where they could be read, and
/// an empty line.
pub fn push_sheet(out: &mut String, name: &str, rows: &Option<Vec<Vec<String>>>)
    ensures
        final(out)@ == old(out)@ + sheet_text(name@, grid_of(*rows)),
{
    out.append("Sheet: ");
    out.append(name);
    out.append("\n");
    match rows {
        Some(rows) => {
            push_rows(out, rows);
        },
        None => {},
    }
    out.append("\n");
    assert(out@ =~= old(out)@ + sheet_text(name@, grid_of(*rows)));
}

/// The text of a workbook, from its sheets: every sheet in the order of
/// the workbook, as [`sheet_text`] renders it. A sheet that cannot be
/// read keeps its heading.
pub fn render_workbook(sheets: &Vec<Sheet>) -> (text: String)
    ensures
        text@ == workbook_text(sheets_of(sheets@)),
{
    let ghost all = sheets_of(sheets@);
    let mut text = String::new();
    let mut i: usize = 0;
    assert(all.take(0) =~= Seq::<SheetModel>::empty());
    while i < sheets.len()
        invariant
            i <= sheets.len(),
            all == sheets_of(sheets@),
            text@ == workbook_text(all.take(i as int)),
        decreases sheets.len() - i,
    {
        push_sheet(&mut text, sheets[i].name.as_str(), &sheets[i].rows);
        proof {
            let next = all.take(i + 1);
            assert(next.drop_last() =~= all.take(i as int));
            assert(next.last() == all[i as int]);
        }
        i += 1;
    }
    assert(all.take(sheets.len() as int) =~= all);
    text
}

} // verus!
