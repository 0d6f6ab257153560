//! The import orchestrator: for one table, the existence check, the
//! optional delete-all, and one INSERT per remaining row, in source order.
//!
//! Executing statements against a database server is I/O and stays with the
//! caller. The orchestrator is a state machine: [`ImportJob::new`] plans the
//! whole statement sequence and hands out the existence lookup; the caller
//! runs each query or statement and reports what happened; the machine
//! decides what comes next, counts the inserted rows, and produces either
//! the final `(row count, resolved name)` outcome or the error that aborted
//! the table.

use vstd::prelude::*;

use crate::error::Error;
use crate::error::ImportError;
use crate::sql::check_table_exists;
use crate::sql::delete_sql_spec;
use crate::sql::insert_sql_spec;
use crate::sql::make_delete_sql;
use crate::sql::make_insert_sql;
use crate::sql::make_show_tables_sql;
use crate::sql::show_tables_sql_spec;
use crate::table::conventional_name_spec;
use crate::table::make_django_style_table_name;
use crate::table::CellValue;
use crate::table::Table;

verus! {

/// The configuration snapshot shared read-only across all table imports:
/// the source workbook path, the target database identity, the
/// clear-before-load flag, the row-skip count, and the naming-convention
/// flag.
#[derive(Debug, Clone)]
pub struct Opts {
    pub excel: String,
    pub database: String,
    pub database_type: String,
    pub host: String,
    pub port: u16,
    pub user: String,
    pub password: String,
    pub clear: bool,
    pub skip: usize,
    pub django_style: bool,
}

/// The table identifier an import actually uses: the naming-convention name
/// when the flag is set, else the table's sanitized sheet name.
pub open spec fn resolved_name_spec(opts: Opts, t: Table) -> Seq<char> {
    if opts.django_style {
        conventional_name_spec(opts.excel@, t.name@)
    } else {
        t.name@
    }
}

/// The rows an import loads: every stored row from index `skip` on.
pub open spec fn rows_after_skip(grid: Seq<Seq<CellValue>>, skip: int) -> Seq<Seq<CellValue>> {
    if skip <= grid.len() {
        grid.skip(skip)
    } else {
        Seq::empty()
    }
}

/// The texts of the INSERT statements an import executes, in row order.
pub open spec fn insert_texts_spec(opts: Opts, t: Table) -> Seq<Seq<char>> {
    Seq::new(
        rows_after_skip(t.grid(), opts.skip as int).len(),
        |i: int|
            insert_sql_spec(
                resolved_name_spec(opts, t),
                t.fields.deep_view(),
                rows_after_skip(t.grid(), opts.skip as int)[i],
            ),
    )
}

/// The whole statement sequence an import executes after the existence
/// check: the delete-all first when the clear flag is set, then the INSERTs.
pub open spec fn planned_statements_spec(opts: Opts, t: Table) -> Seq<Seq<char>> {
    (if opts.clear {
        seq![delete_sql_spec(resolved_name_spec(opts, t))]
    } else {
        Seq::<Seq<char>>::empty()
    }) + insert_texts_spec(opts, t)
}

/// What one executed statement of the plan does to the target table's rows:
/// the delete-all empties the table, an INSERT adds the row that its
/// statement text describes.
pub enum TableOp {
    Clear,
    Insert(Seq<char>),
}

/// The effects of the planned statements, in execution order.
pub open spec fn planned_ops(clear: bool, inserts: Seq<Seq<char>>) -> Seq<TableOp> {
    (if clear {
        seq![TableOp::Clear]
    } else {
        Seq::<TableOp>::empty()
    }) + inserts.map_values(|s: Seq<char>| TableOp::Insert(s))
}

/// The effects of one import run, as planned from the options and the table.
pub open spec fn planned_ops_spec(opts: Opts, t: Table) -> Seq<TableOp> {
    planned_ops(opts.clear, insert_texts_spec(opts, t))
}

/// The target table's rows after one effect.
pub open spec fn apply_op(rows: Seq<Seq<char>>, op: TableOp) -> Seq<Seq<char>> {
    match op {
        TableOp::Clear => Seq::empty(),
        TableOp::Insert(s) => rows.push(s),
    }
}

/// The target table's rows after a sequence of effects, applied in order.
pub open spec fn apply_ops(rows: Seq<Seq<char>>, ops: Seq<TableOp>) -> Seq<Seq<char>>
    decreases ops.len(),
{
    if ops.len() == 0 {
        rows
    } else {
        apply_ops(apply_op(rows, ops.first()), ops.drop_first())
    }
}

/// A run of INSERT effects appends exactly its rows, in order.
pub proof fn lemma_apply_inserts(rows: Seq<Seq<char>>, inserts: Seq<Seq<char>>)
    ensures
        apply_ops(rows, inserts.map_values(|s: Seq<char>| TableOp::Insert(s))) == rows + inserts,
    decreases inserts.len(),
{
    let ops = inserts.map_values(|s: Seq<char>| TableOp::Insert(s));
    if inserts.len() == 0 {
        assert(rows + inserts =~= rows);
    } else {
        assert(ops.first() == TableOp::Insert(inserts.first()));
        assert(ops.drop_first() =~= inserts.drop_first().map_values(
            |s: Seq<char>| TableOp::Insert(s),
        ));
        lemma_apply_inserts(rows.push(inserts.first()), inserts.drop_first());
        assert(rows.push(inserts.first()) + inserts.drop_first() =~= rows + inserts);
    }
}

/// Re-running an import with the clear flag set is idempotent: whatever the
/// target table held before a run — in particular, the rows an earlier run
/// of the same plan left there — it holds exactly the planned rows
/// afterwards, so every run leaves the same rows and reports the same row
/// count, the number of planned INSERTs.
pub proof fn lemma_import_with_clear_is_idempotent(
    opts: Opts,
    t: Table,
    before_first: Seq<Seq<char>>,
    before_second: Seq<Seq<char>>,
)
    requires
        opts.clear,
    ensures
        apply_ops(before_first, planned_ops_spec(opts, t)) == apply_ops(
            before_second,
            planned_ops_spec(opts, t),
        ),
        apply_ops(before_first, planned_ops_spec(opts, t)) == insert_texts_spec(opts, t),
        apply_ops(before_first, planned_ops_spec(opts, t)).len() == rows_after_skip(
            t.grid(),
            opts.skip as int,
        ).len(),
{
    let inserts = insert_texts_spec(opts, t);
    let ops = planned_ops_spec(opts, t);
    let maps = inserts.map_values(|s: Seq<char>| TableOp::Insert(s));
    assert(ops.first() == TableOp::Clear);
    assert(ops.drop_first() =~= maps);
    lemma_apply_inserts(Seq::empty(), inserts);
    assert(Seq::<Seq<char>>::empty() + inserts =~= inserts);
}

/// Re-running an import without the clear flag is not idempotent: each run
/// appends the planned rows to whatever the table already holds, so a second
/// run of the same plan duplicates them.
pub proof fn lemma_import_without_clear_duplicates(
    opts: Opts,
    t: Table,
    before: Seq<Seq<char>>,
)
    requires
        !opts.clear,
    ensures
        apply_ops(before, planned_ops_spec(opts, t)) == before + insert_texts_spec(opts, t),
        apply_ops(apply_ops(before, planned_ops_spec(opts, t)), planned_ops_spec(opts, t))
            == before + insert_texts_spec(opts, t) + insert_texts_spec(opts, t),
{
    let inserts = insert_texts_spec(opts, t);
    let ops = planned_ops_spec(opts, t);
    let maps = inserts.map_values(|s: Seq<char>| TableOp::Insert(s));
    assert(ops =~= maps);
    lemma_apply_inserts(before, inserts);
    lemma_apply_inserts(before + inserts, inserts);
}

/// The effect model walks in step with the planned statement texts: effect
/// `i` is the delete-all exactly where statement `i` is the delete-all text,
/// and an INSERT effect carries its statement's text.
pub proof fn lemma_ops_match_statements(opts: Opts, t: Table)
    ensures
        planned_ops_spec(opts, t).len() == planned_statements_spec(opts, t).len(),
        forall|i: int|
            0 <= i < planned_ops_spec(opts, t).len() ==> match #[trigger] planned_ops_spec(
                opts,
                t,
            )[i] {
                TableOp::Clear => planned_statements_spec(opts, t)[i] == delete_sql_spec(
                    resolved_name_spec(opts, t),
                ) && opts.clear && i == 0,
                TableOp::Insert(s) => planned_statements_spec(opts, t)[i] == s,
            },
{
}

/// Resolves the table identifier the import will use.
pub fn resolve_table_name(opts: &Opts, table: &Table) -> (r: String)
    ensures
        r@ == resolved_name_spec(*opts, *table),
{
    if opts.django_style {
        make_django_style_table_name(opts.excel.as_str(), table.name.as_str())
    } else {
        table.name.clone()
    }
}

/// Where one table's import stands.
#[derive(Debug, PartialEq, Eq, Structural, Clone, Copy)]
pub enum JobPhase {
    /// The existence lookup is out; no statement may run yet.
    AwaitingExistence,
    /// Statements are being executed in planned order.
    Executing,
    /// Every planned statement ran; the outcome is ready.
    Finished,
    /// The table's import aborted; nothing further may run.
    Failed,
}

/// One table's import, from existence check to outcome.
pub struct ImportJob {
    table_name: String,
    statements: Vec<String>,
    clear: bool,
    issued: usize,
    count: u32,
    phase: JobPhase,
}

impl ImportJob {
    /// The resolved table identifier.
    pub closed spec fn resolved(&self) -> Seq<char> {
        self.table_name@
    }

    /// The planned statement sequence, delete-all first when clearing.
    pub closed spec fn planned(&self) -> Seq<Seq<char>> {
        self.statements.deep_view()
    }

    /// Whether the plan starts with the delete-all.
    pub closed spec fn clears(&self) -> bool {
        self.clear
    }

    /// How many planned statements have been executed.
    pub closed spec fn issued(&self) -> int {
        self.issued as int
    }

    /// Where the import stands.
    pub closed spec fn phase(&self) -> JobPhase {
        self.phase
    }

    /// How many INSERT statements the plan holds.
    pub open spec fn inserts_total(&self) -> int {
        self.planned().len() - (if self.clears() {
            1int
        } else {
            0int
        })
    }

    /// How many rows have been inserted so far.
    pub open spec fn inserts_done(&self) -> int {
        if self.clears() && self.issued() >= 1 {
            self.issued() - 1
        } else if self.clears() {
            0
        } else {
            self.issued()
        }
    }

    /// The machine's internal consistency: the executed prefix never passes
    /// the plan, a clearing plan holds its delete-all, the insert counter
    /// mirrors the executed prefix, and everything fits the counter's range.
    pub closed spec fn wf(&self) -> bool {
        &&& self.issued <= self.statements@.len()
        &&& (self.clear ==> self.statements@.len() >= 1)
        &&& self.inserts_total() <= u32::MAX
        &&& self.count as int == self.inserts_done()
    }

    /// Plans one table's import: resolves the table identifier, lays out the
    /// delete-all (when clearing) and one INSERT per row after the skip, and
    /// returns the machine together with the existence lookup to run first.
    pub fn new(opts: &Opts, table: &Table) -> (r: (ImportJob, String))
        requires
            table.grid().len() <= u32::MAX,
        ensures
            r.0.wf(),
            r.0.phase() is AwaitingExistence,
            r.0.issued() == 0,
            r.0.inserts_done() == 0,
            r.0.resolved() == resolved_name_spec(*opts, *table),
            r.0.clears() == opts.clear,
            r.0.planned() == planned_statements_spec(*opts, *table),
            r.0.inserts_total() == rows_after_skip(table.grid(), opts.skip as int).len(),
            r.1@ == show_tables_sql_spec(resolved_name_spec(*opts, *table)),
    {
        let table_name = resolve_table_name(opts, table);
        let query = make_show_tables_sql(table_name.as_str());

        let rows = match table.iter_rows(opts.skip) {
            Ok(rows) => rows,
            // a pass over the stored range always succeeds
            Err(_) => vstd::pervasive::unreached(),
        };
        let ghost planned_rows = rows_after_skip(table.grid(), opts.skip as int);
        proof {
            assert(rows@.len() == planned_rows.len());
            assert(forall|i: int| 0 <= i < rows@.len() ==> rows@[i]@ == planned_rows[i]);
        }

        let mut statements: Vec<String> = Vec::new();
        if opts.clear {
            statements.push(make_delete_sql(table_name.as_str()));
        }
        let ghost clear_part = if opts.clear {
            seq![delete_sql_spec(resolved_name_spec(*opts, *table))]
        } else {
            Seq::<Seq<char>>::empty()
        };
        proof {
            assert(statements.deep_view() =~= clear_part);
        }

        let ghost inserts = insert_texts_spec(*opts, *table);
        let mut i: usize = 0;
        while i < rows.len()
            invariant
                i <= rows@.len(),
                planned_rows == rows_after_skip(table.grid(), opts.skip as int),
                rows@.len() == planned_rows.len(),
                forall|j: int| 0 <= j < rows@.len() ==> rows@[j]@ == planned_rows[j],
                inserts == insert_texts_spec(*opts, *table),
                inserts.len() == planned_rows.len(),
                table_name@ == resolved_name_spec(*opts, *table),
                statements.deep_view() =~= clear_part + inserts.take(i as int),
            decreases rows@.len() - i,
        {
            let ghost pre = statements.deep_view();
            let stmt = make_insert_sql(table_name.as_str(), &table.fields, &rows[i]);
            proof {
                assert(rows@[i as int]@ == planned_rows[i as int]);
                assert(0 <= (i as int) && (i as int) < inserts.len());
                assert(inserts[i as int] == insert_sql_spec(
                    resolved_name_spec(*opts, *table),
                    table.fields.deep_view(),
                    planned_rows[i as int],
                ));
                assert(stmt@ == inserts[i as int]);
            }
            statements.push(stmt);
            proof {
                assert(statements.deep_view() =~= pre.push(inserts[i as int]));
                assert(clear_part + inserts.take(i + 1 as int) =~= (clear_part + inserts.take(
                    i as int,
                )).push(inserts[i as int]));
            }
            i = i + 1;
        }
        proof {
            assert(inserts.take(inserts.len() as int) =~= inserts);
        }

        let job = ImportJob {
            table_name,
            statements,
            clear: opts.clear,
            issued: 0,
            count: 0,
            phase: JobPhase::AwaitingExistence,
        };
        (job, query)
    }

    /// Digests the existence lookup's outcome: `found` says whether the
    /// lookup returned a row. When it did, statement execution may begin;
    /// when it did not, the import fails with the structured missing-table
    /// error naming the resolved table.
    pub fn on_exists_result(&mut self, found: bool) -> (r: Result<(), Error>)
        requires
            old(self).wf(),
            old(self).phase() is AwaitingExistence,
        ensures
            final(self).wf(),
            final(self).resolved() == old(self).resolved(),
            final(self).planned() == old(self).planned(),
            final(self).clears() == old(self).clears(),
            final(self).issued() == old(self).issued(),
            found ==> r is Ok && final(self).phase() is Executing,
            !found ==> final(self).phase() is Failed,
            !found ==> (r matches Err(e) && e matches Error::Import(ie) && ie
                matches ImportError::TableMissing(n) && n@ == old(self).resolved()),
    {
        match check_table_exists(self.table_name.as_str(), found) {
            Ok(()) => {
                self.phase = JobPhase::Executing;
                Ok(())
            },
            Err(e) => {
                self.phase = JobPhase::Failed;
                Err(Error::from(e))
            },
        }
    }

    /// The next statement to execute, in planned order; nothing when every
    /// planned statement has run.
    pub fn next_statement(&self) -> (r: Option<String>)
        requires
            self.wf(),
            self.phase() is Executing,
        ensures
            match r {
                Some(s) => self.issued() < self.planned().len() && s@ == self.planned()[
                    self.issued()
                ],
                None => self.issued() == self.planned().len(),
            },
    {
        if self.issued < self.statements.len() {
            Some(self.statements[self.issued].clone())
        } else {
            None
        }
    }

    /// Records that the statement just handed out executed without error;
    /// an executed INSERT raises the row count by one.
    pub fn statement_done(&mut self)
        requires
            old(self).wf(),
            old(self).phase() is Executing,
            old(self).issued() < old(self).planned().len(),
        ensures
            final(self).wf(),
            final(self).phase() is Executing,
            final(self).resolved() == old(self).resolved(),
            final(self).planned() == old(self).planned(),
            final(self).clears() == old(self).clears(),
            final(self).issued() == old(self).issued() + 1,
    {
        proof {
            assert(old(self).planned().len() == old(self).statements@.len());
        }
        let total = self.statements.len();
        assert(self.issued < total);
        if !(self.clear && self.issued == 0) {
            self.count = self.count + 1;
        }
        self.issued = self.issued + 1;
    }

    /// Records that the statement just handed out failed: the table's import
    /// aborts, and the database's report travels in the returned error.
    pub fn statement_failed(&mut self, detail: String) -> (r: Error)
        requires
            old(self).wf(),
            old(self).phase() is Executing,
        ensures
            final(self).wf(),
            final(self).phase() is Failed,
            r matches Error::Import(ie) && ie matches ImportError::Database(d) && d@ == detail@,
    {
        self.phase = JobPhase::Failed;
        Error::from(ImportError::Database(detail))
    }

    /// The outcome after every planned statement ran: how many rows were
    /// inserted, and the resolved table name.
    pub fn finish(&mut self) -> (r: (u32, String))
        requires
            old(self).wf(),
            old(self).phase() is Executing,
            old(self).issued() == old(self).planned().len(),
        ensures
            final(self).phase() is Finished,
            r.0 as int == old(self).inserts_total(),
            r.1@ == old(self).resolved(),
    {
        self.phase = JobPhase::Finished;
        (self.count, self.table_name.clone())
    }
}

} // verus!
