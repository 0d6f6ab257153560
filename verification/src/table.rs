//! The table model: one spreadsheet sheet mapped to one database table.
//!
//! A sheet's rectangular range arrives as plain rows of [`CellValue`]; the
//! header row becomes the field list, the sheet name is sanitized into a
//! table identifier, and the stored range serves restartable, skippable row
//! iteration.

use vstd::prelude::*;

use crate::error::ParseError;
use crate::text::lower_spec;
use crate::text::sanitize_spec;
use crate::text::sanitize_table_name;

verus! {

/// One typed spreadsheet cell. A floating-point cell arrives already
/// rendered as its decimal literal text, so the model holds no float.
#[derive(Debug, Clone, PartialEq)]
pub enum CellValue {
    Text(String),
    Boolean(bool),
    Integer(i64),
    Float(String),
    Empty,
}

/// The rows of a range, each row seen as a sequence of cells.
pub open spec fn grid_view(g: Seq<Vec<CellValue>>) -> Seq<Seq<CellValue>> {
    Seq::new(g.len(), |i: int| g[i]@)
}

/// The header row of a grid: its first row, or no cells when it has none.
pub open spec fn header_of(g: Seq<Seq<CellValue>>) -> Seq<CellValue> {
    if g.len() > 0 {
        g[0]
    } else {
        Seq::empty()
    }
}

/// The texts of the `Text`-valued cells of a row, in column order; cells of
/// any other kind contribute nothing.
pub open spec fn text_cells(row: Seq<CellValue>) -> Seq<Seq<char>>
    decreases row.len(),
{
    if row.len() == 0 {
        Seq::empty()
    } else {
        match row.last() {
            CellValue::Text(f) => text_cells(row.drop_last()).push(f@),
            _ => text_cells(row.drop_last()),
        }
    }
}

/// A field name after the naming-convention transform: the literal `id` is
/// exempt, every other name gains the `c_` prefix.
pub open spec fn django_field_spec(f: Seq<char>) -> Seq<char> {
    if f == "id"@ {
        f
    } else {
        "c_"@ + f
    }
}

/// Copies one cell.
pub fn clone_cell(c: &CellValue) -> (r: CellValue)
    ensures
        r == *c,
{
    match c {
        CellValue::Text(s) => CellValue::Text(s.clone()),
        CellValue::Boolean(b) => CellValue::Boolean(*b),
        CellValue::Integer(v) => CellValue::Integer(*v),
        CellValue::Float(s) => CellValue::Float(s.clone()),
        CellValue::Empty => CellValue::Empty,
    }
}

/// Copies one row of cells.
pub fn clone_row(row: &Vec<CellValue>) -> (r: Vec<CellValue>)
    ensures
        r@ == row@,
{
    let mut r: Vec<CellValue> = Vec::new();
    let mut i: usize = 0;
    while i < row.len()
        invariant
            i <= row@.len(),
            r@ =~= row@.take(i as int),
        decreases row@.len() - i,
    {
        r.push(clone_cell(&row[i]));
        i = i + 1;
    }
    proof {
        assert(row@.take(row@.len() as int) =~= row@);
    }
    r
}

/// One sheet mapped to one destination table: the sanitized name, the column
/// list taken from the header row, and the stored range for row iteration.
#[derive(Debug)]
pub struct Table {
    pub name: String,
    pub fields: Vec<String>,
    pub range: Vec<Vec<CellValue>>,
}

impl Table {
    /// The stored range, row by row.
    pub open spec fn grid(&self) -> Seq<Seq<CellValue>> {
        grid_view(self.range@)
    }

    /// Builds the table model for one sheet: reads the `Text` cells of the
    /// first row into `fields` in column order, sanitizes the sheet name,
    /// and keeps the whole range (header row included) for iteration. A
    /// plain in-memory range always yields a table.
    pub fn new(table_name: &str, range: Vec<Vec<CellValue>>) -> (r: Result<Table, ParseError>)
        ensures
            r matches Ok(t) && t.name@ == sanitize_spec(table_name@) && t.fields.deep_view()
                == text_cells(header_of(grid_view(range@))) && t.grid() == grid_view(range@),
    {
        let mut fields: Vec<String> = Vec::new();
        if range.len() > 0 {
            let row = &range[0];
            let mut i: usize = 0;
            while i < row.len()
                invariant
                    i <= row@.len(),
                    fields.deep_view() =~= text_cells(row@.take(i as int)),
                decreases row@.len() - i,
            {
                let ghost pre = fields.deep_view();
                match &row[i] {
                    CellValue::Text(f) => {
                        fields.push(f.clone());
                        proof {
                            assert(fields.deep_view() =~= pre.push(f@));
                        }
                    },
                    _ => {},
                }
                proof {
                    assert(row@.take(i + 1 as int).drop_last() =~= row@.take(i as int));
                    assert(row@.take(i + 1 as int).last() == row@[i as int]);
                }
                i = i + 1;
            }
            proof {
                assert(row@.take(row@.len() as int) =~= row@);
                assert(header_of(grid_view(range@)) == row@);
            }
        } else {
            proof {
                assert(fields.deep_view() =~= text_cells(header_of(grid_view(range@))));
            }
        }
        let name = sanitize_table_name(table_name);
        Ok(Table { name, fields, range })
    }

    /// A fresh pass over the stored range: every row from index `skip` on,
    /// in source order, the header row counting as row zero. Passing a skip
    /// beyond the row count yields no rows. Each call works from the same
    /// stored range, so repeated passes see the same rows.
    pub fn iter_rows(&self, skip: usize) -> (r: Result<Vec<Vec<CellValue>>, ParseError>)
        ensures
            r matches Ok(rows) && rows@.len() == (if skip as int <= self.grid().len() {
                self.grid().len() - skip as int
            } else {
                0
            }) && (forall|i: int|
                0 <= i < rows@.len() ==> rows@[i]@ == self.grid()[skip + i]),
    {
        let mut rows: Vec<Vec<CellValue>> = Vec::new();
        let mut i: usize = skip;
        while i < self.range.len()
            invariant
                i >= skip,
                i <= self.range@.len() || i == skip,
                rows@.len() == if i <= self.range@.len() {
                    i - skip
                } else {
                    0
                },
                forall|j: int| 0 <= j < rows@.len() ==> rows@[j]@ == self.grid()[skip + j],
            decreases self.range@.len() - i,
        {
            rows.push(clone_row(&self.range[i]));
            i = i + 1;
        }
        Ok(rows)
    }

    /// Rewrites every field but the literal `id` to its `c_`-prefixed form,
    /// in place; the name and the stored range are untouched.
    pub fn to_django_style_fields(&mut self)
        ensures
            final(self).name == old(self).name,
            final(self).grid() == old(self).grid(),
            final(self).fields@.len() == old(self).fields@.len(),
            forall|i: int|
                0 <= i < final(self).fields@.len() ==> final(self).fields@[i]@
                    == django_field_spec(old(self).fields@[i]@),
    {
        let id = String::from_str("id");
        proof {
            reveal_strlit("id");
        }
        let mut renamed: Vec<String> = Vec::new();
        let mut i: usize = 0;
        while i < self.fields.len()
            invariant
                i <= self.fields@.len(),
                id@ == "id"@,
                renamed@.len() == i,
                forall|j: int|
                    0 <= j < i ==> renamed@[j]@ == django_field_spec(self.fields@[j]@),
            decreases self.fields@.len() - i,
        {
            if self.fields[i].eq(&id) {
                renamed.push(self.fields[i].clone());
            } else {
                let mut nf = String::from_str("c_");
                nf.append(self.fields[i].as_str());
                renamed.push(nf);
            }
            i = i + 1;
        }
        self.fields = renamed;
    }

    /// The table identifier the naming convention produces for this table
    /// under the given source path.
    pub open spec fn conventional_name(&self, path: Seq<char>) -> Seq<char> {
        conventional_name_spec(path, self.name@)
    }
}

/// The naming-convention form of a table name: the file stem of the source
/// path and the lower-cased raw name, joined by an underscore. A path with
/// no stem contributes the empty string, so the result starts with `_`.
pub open spec fn conventional_name_spec(path: Seq<char>, raw_name: Seq<char>) -> Seq<char> {
    crate::text::stem_spec(path) + "_"@ + lower_spec(raw_name)
}

/// Joins the file stem of `filepath` and the lower-cased `table_name` with
/// an underscore, the table identifier the naming convention calls for.
pub fn make_django_style_table_name(filepath: &str, table_name: &str) -> (r: String)
    ensures
        r@ == conventional_name_spec(filepath@, table_name@),
{
    let stem = crate::text::file_stem_of(filepath);
    let mut r = String::from_str(stem);
    r.append("_");
    let lowered = crate::text::lower_ascii(table_name);
    r.append(lowered.as_str());
    r
}

/// Lower-casing is idempotent: a second pass changes nothing.
pub proof fn lemma_lower_idempotent(s: Seq<char>)
    ensures
        lower_spec(lower_spec(s)) == lower_spec(s),
{
    assert forall|i: int| 0 <= i < s.len() implies crate::text::lower_char(
        crate::text::lower_char(s[i]),
    ) == crate::text::lower_char(s[i]) by {
        assert((crate::text::lower_char(s[i]) as u32) > 90 || (crate::text::lower_char(s[i])
            as u32) < 65);
    }
    assert(lower_spec(lower_spec(s)) =~= lower_spec(s));
}

/// The conventional table name never shows the raw name's original casing:
/// it equals the name the already-lower-cased raw name would give, and with
/// a lower-case file stem it is `lowercase(stem) + "_" + lowercase(name)`
/// outright.
pub proof fn lemma_conventional_name_ignores_case(path: Seq<char>, raw_name: Seq<char>)
    ensures
        conventional_name_spec(path, raw_name) == conventional_name_spec(
            path,
            lower_spec(raw_name),
        ),
        lower_spec(crate::text::stem_spec(path)) == crate::text::stem_spec(path)
            ==> conventional_name_spec(path, raw_name) == lower_spec(crate::text::stem_spec(path))
            + "_"@ + lower_spec(raw_name),
{
    lemma_lower_idempotent(raw_name);
}

/// The naming convention looks only at the lower-cased raw name, so two raw
/// names that agree up to ASCII letter case give the same conventional
/// table name.
pub proof fn lemma_conventional_name_case_insensitive(
    path: Seq<char>,
    name_a: Seq<char>,
    name_b: Seq<char>,
)
    requires
        lower_spec(name_a) == lower_spec(name_b),
    ensures
        conventional_name_spec(path, name_a) == conventional_name_spec(path, name_b),
{
}

} // verus!
