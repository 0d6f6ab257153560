//! The SQL generator: turns a table name, a field list, and one row of
//! typed cells into a single INSERT statement, plus the fixed statement
//! shapes the import uses (existence lookup, delete-all) and the decision
//! over an existence lookup's outcome.
//!
//! The statements interpolate identifiers verbatim inside backticks and wrap
//! text values in double quotes without escaping embedded quotes; the
//! contracts pin that exact statement text down as this tool's documented
//! behaviour, not as an injection-safety guarantee.

use vstd::prelude::*;

use crate::error::ImportError;
use crate::table::CellValue;
use crate::text::dec_int;
use crate::text::i64_to_string;
use crate::text::push_char;

verus! {

/// The SQL literal for one cell: text double-quoted, booleans as `1`/`0`,
/// integers and floats as decimal literals, anything else as `null`.
pub open spec fn render_cell(c: CellValue) -> Seq<char> {
    match c {
        CellValue::Text(v) => "\""@ + v@ + "\""@,
        CellValue::Boolean(b) => if b {
            seq!['1']
        } else {
            seq!['0']
        },
        CellValue::Integer(v) => dec_int(v as int),
        CellValue::Float(s) => s@,
        CellValue::Empty => "null"@,
    }
}

/// The first `k` items joined as a comma-separated list: each item followed
/// by `", "` unless it is the last item of the whole list.
pub open spec fn joined_prefix(items: Seq<Seq<char>>, k: int) -> Seq<char>
    recommends
        k <= items.len(),
    decreases k,
{
    if k <= 0 {
        Seq::empty()
    } else {
        joined_prefix(items, k - 1) + items[k - 1] + (if k - 1 != items.len() - 1 {
            ", "@
        } else {
            Seq::<char>::empty()
        })
    }
}

/// All items joined as a comma-separated list.
pub open spec fn comma_joined(items: Seq<Seq<char>>) -> Seq<char> {
    joined_prefix(items, items.len() as int)
}

/// A field name wrapped in backticks.
pub open spec fn ticked(f: Seq<char>) -> Seq<char> {
    "`"@ + f + "`"@
}

/// Each field wrapped in backticks, in order.
pub open spec fn ticked_fields(fields: Seq<Seq<char>>) -> Seq<Seq<char>> {
    Seq::new(fields.len(), |i: int| ticked(fields[i]))
}

/// Each cell rendered as its SQL literal, in order.
pub open spec fn rendered_row(row: Seq<CellValue>) -> Seq<Seq<char>> {
    Seq::new(row.len(), |i: int| render_cell(row[i]))
}

/// The full text of the INSERT statement for one row.
pub open spec fn insert_sql_spec(
    name: Seq<char>,
    fields: Seq<Seq<char>>,
    row: Seq<CellValue>,
) -> Seq<char> {
    "INSERT INTO `"@ + name + "` ("@ + comma_joined(ticked_fields(fields)) + ") VALUES ("@
        + comma_joined(rendered_row(row)) + ");"@
}

/// The full text of the delete-all statement for a table.
pub open spec fn delete_sql_spec(name: Seq<char>) -> Seq<char> {
    "DELETE FROM "@ + name
}

/// The full text of the existence lookup for a table.
pub open spec fn show_tables_sql_spec(name: Seq<char>) -> Seq<char> {
    "SHOW TABLES LIKE \""@ + name + "\""@
}

/// Builds the INSERT statement for one row. `fields` and `row` are taken as
/// positionally aligned; the generator does not check their lengths against
/// each other, so a misaligned pair yields a well-formed but wrong
/// statement, exactly as specified.
pub fn make_insert_sql(table_name: &str, fields: &Vec<String>, row: &Vec<CellValue>) -> (r:
    String)
    ensures
        r@ == insert_sql_spec(table_name@, fields.deep_view(), row@),
{
    let ghost fitems = ticked_fields(fields.deep_view());
    let ghost vitems = rendered_row(row@);

    let mut r = String::from_str("INSERT INTO `");
    r.append(table_name);
    r.append("` (");
    let ghost head = "INSERT INTO `"@ + table_name@ + "` ("@;
    proof {
        assert(r@ =~= head + joined_prefix(fitems, 0));
    }

    let fields_len = fields.len();
    let mut i: usize = 0;
    while i < fields_len
        invariant
            i <= fields_len,
            fields_len == fields@.len(),
            fitems == ticked_fields(fields.deep_view()),
            r@ == head + joined_prefix(fitems, i as int),
        decreases fields_len - i,
    {
        let ghost pre = r@;
        r.append("`");
        r.append(fields[i].as_str());
        r.append("`");
        proof {
            assert(r@ =~= pre + ticked(fields.deep_view()[i as int]));
        }
        if i != fields_len - 1 {
            r.append(", ");
            proof {
                assert(r@ =~= head + joined_prefix(fitems, i + 1 as int));
            }
        } else {
            proof {
                assert(r@ =~= head + joined_prefix(fitems, i + 1 as int));
            }
        }
        i = i + 1;
    }

    r.append(") VALUES (");
    let ghost mid = head + joined_prefix(fitems, fitems.len() as int) + ") VALUES ("@;
    proof {
        assert(r@ =~= mid + joined_prefix(vitems, 0));
    }

    let row_len = row.len();
    let mut j: usize = 0;
    while j < row_len
        invariant
            j <= row_len,
            row_len == row@.len(),
            vitems == rendered_row(row@),
            r@ == mid + joined_prefix(vitems, j as int),
        decreases row_len - j,
    {
        let ghost pre = r@;
        match &row[j] {
            CellValue::Text(v) => {
                r.append("\"");
                r.append(v.as_str());
                r.append("\"");
            },
            CellValue::Boolean(v) => {
                if *v {
                    push_char(&mut r, '1');
                } else {
                    push_char(&mut r, '0');
                }
            },
            CellValue::Integer(v) => {
                let d = i64_to_string(*v);
                r.append(d.as_str());
            },
            CellValue::Float(s) => {
                r.append(s.as_str());
            },
            CellValue::Empty => {
                r.append("null");
            },
        }
        proof {
            assert(r@ =~= pre + render_cell(row@[j as int]));
        }
        if j != row_len - 1 {
            r.append(", ");
            proof {
                assert(r@ =~= mid + joined_prefix(vitems, j + 1 as int));
            }
        } else {
            proof {
                assert(r@ =~= mid + joined_prefix(vitems, j + 1 as int));
            }
        }
        j = j + 1;
    }

    r.append(");");
    proof {
        assert(r@ =~= insert_sql_spec(table_name@, fields.deep_view(), row@));
    }
    r
}

/// Builds the delete-all statement issued before loading when the clear
/// flag is set.
pub fn make_delete_sql(table_name: &str) -> (r: String)
    ensures
        r@ == delete_sql_spec(table_name@),
{
    let mut r = String::from_str("DELETE FROM ");
    r.append(table_name);
    r
}

/// Builds the existence lookup issued before loading a table.
pub fn make_show_tables_sql(table_name: &str) -> (r: String)
    ensures
        r@ == show_tables_sql_spec(table_name@),
{
    let mut r = String::from_str("SHOW TABLES LIKE \"");
    r.append(table_name);
    r.append("\"");
    r
}

/// Decides the existence check from the lookup's outcome: `found` says
/// whether the `SHOW TABLES LIKE` lookup for exactly this name returned a
/// row. Success exactly when it did; otherwise the structured
/// missing-table error naming the table.
pub fn check_table_exists(table_name: &str, found: bool) -> (r: Result<(), ImportError>)
    ensures
        found <==> r is Ok,
        !found ==> (r matches Err(e) && e matches ImportError::TableMissing(n) && n@
            == table_name@),
{
    if found {
        Ok(())
    } else {
        Err(ImportError::table_missing(table_name))
    }
}

} // verus!
