//! Extraction of text from Excel workbooks.

use vstd::prelude::*;

use crate::chars::{chars_of, extend_chars, nested_views, str_eq, str_views, string_from_chars,
    trim_chars, trimmed};
use crate::handler::FileHandler;
use crate::tokenize::{join_with, joined, views_of};
use calamine::Reader;

verus! {

/// The cells of a row that are not empty, in order.
pub open spec fn kept_cells(cells: Seq<Seq<char>>) -> Seq<Seq<char>>
    decreases cells.len(),
{
    if cells.len() == 0 {
        Seq::empty()
    } else {
        let prefix = kept_cells(cells.drop_last());
        if cells.last().len() > 0 {
            prefix.push(cells.last())
        } else {
            prefix
        }
    }
}

/// A row rendered as text: its non-empty cells joined with tabs.
pub open spec fn row_text_of(cells: Seq<Seq<char>>) -> Seq<char> {
    joined(kept_cells(cells), '\t')
}

/// The rows of a sheet rendered as text: each row with at least one
/// non-empty cell contributes its text and a newline.
pub open spec fn rows_text_of(rows: Seq<Seq<Seq<char>>>) -> Seq<char>
    decreases rows.len(),
{
    if rows.len() == 0 {
        Seq::empty()
    } else {
        rows_text_of(rows.drop_last()) + if kept_cells(rows.last()).len() > 0 {
            row_text_of(rows.last()) + seq!['\n']
        } else {
            Seq::empty()
        }
    }
}

/// A sheet rendered as text: a header line with its name, then its rows.
pub open spec fn sheet_text_of(name: Seq<char>, rows: Seq<Seq<Seq<char>>>) -> Seq<char> {
    "Sheet: "@ + name + seq!['\n'] + rows_text_of(rows)
}

/// A workbook rendered as text: the sheets, separated by blank lines.
pub open spec fn workbook_text_of(sheets: Seq<(Seq<char>, Seq<Seq<Seq<char>>>)>) -> Seq<char>
    decreases sheets.len(),
{
    if sheets.len() == 0 {
        Seq::empty()
    } else if sheets.len() == 1 {
        sheet_text_of(sheets[0].0, sheets[0].1)
    } else {
        workbook_text_of(sheets.drop_last()) + seq!['\n', '\n'] + sheet_text_of(
            sheets.last().0,
            sheets.last().1,
        )
    }
}

/// The pairs of sheet name and cell texts of a list of read sheets.
pub open spec fn sheet_views(ss: Seq<(String, Vec<Vec<String>>)>) -> Seq<
    (Seq<char>, Seq<Seq<Seq<char>>>),
> {
    ss.map_values(|p: (String, Vec<Vec<String>>)| (p.0@, nested_views(p.1@)))
}

/// The non-empty cells of a row, as character vectors.
fn kept_cells_of_row(row: &Vec<String>) -> (r: Vec<Vec<char>>)
    ensures
        views_of(r@) == kept_cells(str_views(row@)),
{
    let mut r: Vec<Vec<char>> = Vec::new();
    let n = row.len();
    for i in 0..n
        invariant
            n == row@.len(),
            views_of(r@) == kept_cells(str_views(row@).take(i as int)),
    {
        proof {
            assert(str_views(row@).take(i + 1).drop_last() =~= str_views(row@).take(i as int));
            assert(str_views(row@).take(i + 1).last() == str_views(row@)[i as int]);
        }
        let cell = chars_of(row[i].as_str());
        let ghost r0 = views_of(r@);
        if cell.len() > 0 {
            r.push(cell);
            proof {
                assert(views_of(r@) =~= r0.push(str_views(row@)[i as int]));
            }
        }
    }
    proof {
        assert(str_views(row@).take(n as int) =~= str_views(row@));
    }
    r
}

/// A sheet's text: the header line with its name, then every row that has
/// a non-empty cell, cells joined with tabs, one row per line.
#[verifier::loop_isolation(false)]
fn sheet_to_chars(name: &String, rows: &Vec<Vec<String>>) -> (r: Vec<char>)
    ensures
        r@ == sheet_text_of(name@, nested_views(rows@)),
{
    let mut out = chars_of("Sheet: ");
    let nm = chars_of(name.as_str());
    extend_chars(&mut out, nm.as_slice());
    out.push('\n');
    proof {
        assert(out@ =~= "Sheet: "@ + name@ + seq!['\n']);
        assert(out@ =~= "Sheet: "@ + name@ + seq!['\n'] + rows_text_of(
            nested_views(rows@).take(0),
        ));
    }
    let n = rows.len();
    for i in 0..n
        invariant
            out@ == "Sheet: "@ + name@ + seq!['\n'] + rows_text_of(nested_views(rows@).take(
                i as int,
            )),
    {
        proof {
            assert(nested_views(rows@).take(i + 1).drop_last() =~= nested_views(rows@).take(
                i as int,
            ));
            assert(nested_views(rows@).take(i + 1).last() == nested_views(rows@)[i as int]);
        }
        let kept = kept_cells_of_row(&rows[i]);
        if kept.len() > 0 {
            let rt = join_with(&kept, '\t');
            extend_chars(&mut out, rt.as_slice());
            out.push('\n');
        }
        proof {
            assert(out@ =~= "Sheet: "@ + name@ + seq!['\n'] + rows_text_of(
                nested_views(rows@).take(i + 1),
            ));
        }
    }
    proof {
        assert(nested_views(rows@).take(n as int) =~= nested_views(rows@));
    }
    out
}

/// The whole workbook's text: sheets separated by blank lines, trimmed.
#[verifier::loop_isolation(false)]
pub fn sheets_to_text(sheets: &Vec<(String, Vec<Vec<String>>)>) -> (r: String)
    ensures
        r@ == trimmed(workbook_text_of(sheet_views(sheets@))),
{
    let mut out: Vec<char> = Vec::new();
    let n = sheets.len();
    for i in 0..n
        invariant
            out@ == workbook_text_of(sheet_views(sheets@).take(i as int)),
    {
        proof {
            assert(sheet_views(sheets@).take(i + 1).drop_last() =~= sheet_views(sheets@).take(
                i as int,
            ));
            assert(sheet_views(sheets@).take(i + 1).last() == sheet_views(sheets@)[i as int]);
        }
        if i > 0 {
            out.push('\n');
            out.push('\n');
        }
        let sc = sheet_to_chars(&sheets[i].0, &sheets[i].1);
        extend_chars(&mut out, sc.as_slice());
        proof {
            if i == 0 {
                assert(out@ =~= workbook_text_of(sheet_views(sheets@).take(1)));
            } else {
                assert(out@ =~= workbook_text_of(sheet_views(sheets@).take(i as int))
                    + seq!['\n', '\n'] + sheet_text_of(
                    sheet_views(sheets@)[i as int].0,
                    sheet_views(sheets@)[i as int].1,
                ));
                assert(out@ =~= workbook_text_of(sheet_views(sheets@).take(i + 1)));
            }
        }
    }
    proof {
        assert(sheet_views(sheets@).take(n as int) =~= sheet_views(sheets@));
    }
    let t = trim_chars(out.as_slice());
    string_from_chars(t.as_slice())
}

/// Relies on calamine (open_workbook_from_rs, Reader::sheet_names,
/// Reader::worksheet_range, Range::rows, Data's Display): reads an XLSX
/// workbook from memory and hands out each readable sheet's name and cell
/// texts; sheets whose range cannot be read are skipped.
#[verifier::external_body]
fn read_workbook(content: &[u8]) -> Result<Vec<(String, Vec<Vec<String>>)>, String> {
    let cursor = std::io::Cursor::new(content);
    let mut workbook: calamine::Xlsx<_> = calamine::open_workbook_from_rs(cursor).map_err(|e| {
        format!("Failed to open Excel file: {}", e)
    })?;
    let mut sheets = Vec::new();
    for name in workbook.sheet_names() {
        if let Ok(range) = workbook.worksheet_range(&name) {
            let rows = range.rows().map(|row| {
                row.iter().map(|cell| cell.to_string()).collect()
            }).collect();
            sheets.push((name, rows));
        }
    }
    Ok(sheets)
}

/// Handler for Excel workbooks: renders every sheet's cells as
/// tab-separated text.
pub struct XlsxHandler;

impl XlsxHandler {
    /// A new Excel handler.
    pub fn new() -> Self {
        XlsxHandler
    }
}

impl FileHandler for XlsxHandler {
    fn can_handle(&self, mime_type: &str) -> bool {
        str_eq(mime_type, "application/vnd.openxmlformats-officedocument.spreadsheetml.sheet")
            || str_eq(mime_type, "application/vnd.ms-excel") || str_eq(
            mime_type,
            "application/xlsx",
        )
    }

    fn extract_text(&self, content: &[u8], _filename: &str, _mime_type: &str) -> Result<
        String,
        String,
    > {
        match read_workbook(content) {
            Ok(sheets) => Ok(sheets_to_text(&sheets)),
            Err(e) => Err(e),
        }
    }
}

} // verus!
