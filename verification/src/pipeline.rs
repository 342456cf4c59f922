//! Statement execution and the whole pipeline pass: executing a prepared
//! statement against the table, rendering selected rows, and processing
//! one raw input line from routing to output.
//!
//! `line_response` is the pure model of a pass: from the current table
//! model and the line's characters it determines the printed lines, the
//! next table model, and whether the loop terminates. `process_line` is
//! proved to follow it exactly.

use vstd::prelude::*;
use vstd::string::StringExecFns;

use crate::row::Row;
use crate::row::RowV;
use crate::statement::ExecuteResult;
use crate::statement::PrepareResult;
use crate::statement::Statement;
use crate::statement::StatementType;
use crate::statement::MetaCommandResult;
use crate::statement::do_meta_command;
use crate::statement::insert_line_ok;
use crate::statement::insert_row_of;
use crate::statement::is_exit_line;
use crate::statement::is_insert_line;
use crate::statement::is_meta_line;
use crate::statement::is_select_line;
use crate::statement::prepare_statement;
use crate::statement::stmt_wf;
use crate::table::TABLE_MAX_ROWS;
use crate::table::Table;
use crate::text::dec_str;
use crate::text::render_u32;
use crate::text::str_starts_with;
use crate::text::views_of;

verus! {

/// How one row prints: the id in decimal, then the username and the email,
/// the three fields separated by a comma and a space.
pub open spec fn render_row_spec(r: RowV) -> Seq<char> {
    dec_str(r.id as int) + ", "@ + r.username + ", "@ + r.email
}

/// The lines a select over the given rows prints, in insertion order.
pub open spec fn select_lines(rows: Seq<RowV>) -> Seq<Seq<char>> {
    rows.map_values(|r: RowV| render_row_spec(r))
}

/// Prints one row as its three comma-separated fields.
pub fn render_row(row: &Row) -> (out: String)
    ensures
        out@ == render_row_spec(row@),
{
    let mut out = render_u32(row.id);
    out.append(", ");
    out.append(row.username.as_str());
    out.append(", ");
    out.append(row.email.as_str());
    proof {
        assert(out@ =~= render_row_spec(row@));
    }
    out
}

/// Executes an insert: rejects with table-full when the capacity is
/// reached, otherwise appends the statement's row at the next slot. A
/// rejected insert leaves the table untouched; a statement carrying no row
/// fails and also leaves it untouched.
pub fn execute_insert(statement: &Statement, table: &mut Table) -> (r: ExecuteResult)
    requires
        old(table).wf(),
        stmt_wf(*statement),
    ensures
        final(table).wf(),
        statement.row_to_insert matches Some(row) ==> {
            if old(table).num_rows < TABLE_MAX_ROWS {
                &&& r == ExecuteResult::ExecuteSuccess
                &&& final(table).num_rows == old(table).num_rows + 1
                &&& final(table)@ == old(table)@.push(row@)
            } else {
                &&& r == ExecuteResult::ExecuteTableFull
                &&& *final(table) == *old(table)
            }
        },
        statement.row_to_insert is None ==> r == ExecuteResult::ExecuteFail && *final(table)
            == *old(table),
{
    match &statement.row_to_insert {
        Some(row_to_insert) => {
            if table.num_rows >= TABLE_MAX_ROWS {
                return ExecuteResult::ExecuteTableFull;
            }
            table.append_row(row_to_insert.duplicate());
            ExecuteResult::ExecuteSuccess
        },
        None => ExecuteResult::ExecuteFail,
    }
}

/// Executes a select: reads every stored row in insertion order, renders
/// each as its three comma-separated fields, and always succeeds. On an
/// empty table it returns no lines.
pub fn execute_select(statement: &Statement, table: &Table) -> (r: (ExecuteResult, Vec<String>))
    requires
        table.wf(),
    ensures
        r.0 == ExecuteResult::ExecuteSuccess,
        views_of(r.1@) == select_lines(table@),
{
    let mut lines: Vec<String> = Vec::new();
    let mut i: usize = 0;
    while i < table.num_rows
        invariant
            table.wf(),
            i <= table.num_rows,
            views_of(lines@) =~= select_lines(table@).subrange(0, i as int),
        decreases table.num_rows - i,
    {
        if let Some(row) = table.slot_for_read(i) {
            let line = render_row(row);
            lines.push(line);
            proof {
                assert(views_of(lines@) =~= views_of(lines@.drop_last()) + seq![
                    lines@.last()@,
                ]);
                assert(select_lines(table@)[i as int] == render_row_spec(table@[i as int]));
                assert(select_lines(table@).subrange(0, i + 1) =~= select_lines(
                    table@,
                ).subrange(0, i as int) + seq![select_lines(table@)[i as int]]);
            }
        }
        i = i + 1;
    }
    proof {
        assert(views_of(lines@) =~= select_lines(table@));
    }
    (ExecuteResult::ExecuteSuccess, lines)
}

/// Executes a prepared statement against the table, returning the result
/// and the lines the statement prints before its trailing status line.
/// Only a select prints; an unsupported statement fails without effect.
pub fn execute_statement(statement: &Statement, table: &mut Table) -> (r: (
    ExecuteResult,
    Vec<String>,
))
    requires
        old(table).wf(),
        stmt_wf(*statement),
    ensures
        final(table).wf(),
        statement.stmt_type == StatementType::StatementInsert ==> {
            &&& r.1@.len() == 0
            &&& statement.row_to_insert matches Some(row) ==> {
                if old(table).num_rows < TABLE_MAX_ROWS {
                    &&& r.0 == ExecuteResult::ExecuteSuccess
                    &&& final(table)@ == old(table)@.push(row@)
                } else {
                    &&& r.0 == ExecuteResult::ExecuteTableFull
                    &&& *final(table) == *old(table)
                }
            }
            &&& statement.row_to_insert is None ==> r.0 == ExecuteResult::ExecuteFail
                && *final(table) == *old(table)
        },
        statement.stmt_type == StatementType::StatementSelect ==> {
            &&& r.0 == ExecuteResult::ExecuteSuccess
            &&& views_of(r.1@) == select_lines(old(table)@)
            &&& *final(table) == *old(table)
        },
        statement.stmt_type == StatementType::StatementUnsupported ==> r.0
            == ExecuteResult::ExecuteFail && r.1@.len() == 0 && *final(table) == *old(table),
{
    match statement.stmt_type {
        StatementType::StatementInsert => {
            let result = execute_insert(statement, table);
            (result, Vec::new())
        },
        StatementType::StatementSelect => execute_select(statement, table),
        StatementType::StatementUnsupported => (ExecuteResult::ExecuteFail, Vec::new()),
    }
}

/// The outcome of one pipeline pass over the model: the lines printed, the
/// table model afterwards, and whether the loop terminates.
pub struct StepV {
    pub outputs: Seq<Seq<char>>,
    pub table: Seq<RowV>,
    pub terminate: bool,
}

/// The pure model of one pipeline pass on one raw input line.
///
/// A meta line (opening with the dot) terminates on the exit sentinel and
/// otherwise reports itself unrecognized. An acceptable insert appends its
/// row and reports execution, unless the table is full. A select prints
/// every stored row and reports execution. A malformed insert and an
/// unrecognized keyword each print their diagnostic. Only a successful
/// insert changes the table.
pub open spec fn line_response(rows: Seq<RowV>, line: Seq<char>) -> StepV {
    if is_meta_line(line) {
        if is_exit_line(line) {
            StepV { outputs: Seq::empty(), table: rows, terminate: true }
        } else {
            StepV {
                outputs: seq!["Unrecognized command "@ + line],
                table: rows,
                terminate: false,
            }
        }
    } else if is_insert_line(line) {
        if insert_line_ok(line) {
            if rows.len() < TABLE_MAX_ROWS {
                StepV {
                    outputs: seq!["Executed."@],
                    table: rows.push(insert_row_of(line)),
                    terminate: false,
                }
            } else {
                StepV { outputs: seq!["Error: Table full."@], table: rows, terminate: false }
            }
        } else {
            StepV {
                outputs: seq!["Syntax error. Could not parse statement."@],
                table: rows,
                terminate: false,
            }
        }
    } else if is_select_line(line) {
        StepV { outputs: select_lines(rows).push("Executed."@), table: rows, terminate: false }
    } else {
        StepV {
            outputs: seq!["Unrecognized keyword at start of "@ + line + "."@],
            table: rows,
            terminate: false,
        }
    }
}

/// Runs one whole pipeline pass on one raw input line, following the model
/// `line_response` exactly: the returned lines are what is printed, in
/// order, and the flag asks the owning loop to terminate.
pub fn process_line(table: &mut Table, line: &str) -> (r: (Vec<String>, bool))
    requires
        old(table).wf(),
    ensures
        final(table).wf(),
        views_of(r.0@) == line_response(old(table)@, line@).outputs,
        final(table)@ == line_response(old(table)@, line@).table,
        r.1 == line_response(old(table)@, line@).terminate,
{
    if str_starts_with(line, ".") {
        match do_meta_command(line) {
            MetaCommandResult::MetaCommandSuccess => {
                proof {
                    assert(views_of(Seq::<String>::empty()) =~= Seq::<Seq<char>>::empty());
                }
                (Vec::new(), true)
            },
            MetaCommandResult::MetaCommandUnrecognizedCommand => {
                let mut msg = ("Unrecognized command ").to_owned();
                msg.append(line);
                let lines = vec![msg];
                proof {
                    assert(views_of(lines@) =~= seq!["Unrecognized command "@ + line@]);
                }
                (lines, false)
            },
        }
    } else {
        let (stmt_opt, prepare_result) = prepare_statement(line);
        match prepare_result {
            PrepareResult::PrepareSyntaxError => {
                let lines = vec![("Syntax error. Could not parse statement.").to_owned()];
                proof {
                    assert(views_of(lines@) =~= seq!["Syntax error. Could not parse statement."@]);
                }
                (lines, false)
            },
            PrepareResult::PrepareUnrecognizedStatement => {
                let mut msg = ("Unrecognized keyword at start of ").to_owned();
                msg.append(line);
                msg.append(".");
                let lines = vec![msg];
                proof {
                    assert(msg@ =~= "Unrecognized keyword at start of "@ + line@ + "."@);
                    assert(views_of(lines@) =~= seq![msg@]);
                }
                (lines, false)
            },
            PrepareResult::PrepareSuccess => {
                let statement = match stmt_opt {
                    Some(statement) => statement,
                    None => {
                        proof {
                            assert(false);
                        }
                        Statement {
                            stmt_type: StatementType::StatementUnsupported,
                            row_to_insert: None,
                        }
                    },
                };
                let (result, mut lines) = execute_statement(&statement, table);
                match result {
                    ExecuteResult::ExecuteSuccess => {
                        lines.push(("Executed.").to_owned());
                        proof {
                            assert(views_of(lines@) =~= views_of(lines@.drop_last()) + seq![
                                "Executed."@,
                            ]);
                            assert(views_of(lines@) =~= line_response(
                                old(table)@,
                                line@,
                            ).outputs);
                        }
                        (lines, false)
                    },
                    ExecuteResult::ExecuteTableFull => {
                        let full = vec![("Error: Table full.").to_owned()];
                        proof {
                            assert(views_of(full@) =~= seq!["Error: Table full."@]);
                        }
                        (full, false)
                    },
                    ExecuteResult::ExecuteFail => {
                        proof {
                            assert(false);
                        }
                        (Vec::new(), false)
                    },
                }
            },
        }
    }
}

/// Capacity boundary: an acceptable insert line appends its row and
/// reports execution as long as the table holds fewer than
/// `TABLE_MAX_ROWS` rows — so exactly `TABLE_MAX_ROWS` inserts into a
/// fresh table succeed — and the next insert is rejected as full, leaving
/// the table unchanged.
pub proof fn lemma_capacity_boundary(rows: Seq<RowV>, line: Seq<char>)
    requires
        is_insert_line(line),
        insert_line_ok(line),
    ensures
        rows.len() < TABLE_MAX_ROWS ==> line_response(rows, line).table == rows.push(
            insert_row_of(line),
        ) && line_response(rows, line).outputs == seq!["Executed."@],
        rows.len() >= TABLE_MAX_ROWS ==> line_response(rows, line).table == rows
            && line_response(rows, line).outputs == seq!["Error: Table full."@],
{
    reveal_strlit("insert");
    reveal_strlit(".");
    // An insert line opens with the insert keyword, not with the dot.
    assert("insert"@[0] == line[0]);
    if is_meta_line(line) {
        assert("."@[0] == line[0]);
        assert(false);
    }
}

/// The spec-level table model built by a sequence of successful inserts,
/// applied first to last, starting from the empty table.
pub open spec fn inserts_applied(rows: Seq<RowV>) -> Seq<RowV>
    decreases rows.len(),
{
    if rows.len() == 0 {
        Seq::empty()
    } else {
        inserts_applied(rows.drop_last()).push(rows.last())
    }
}

/// Round trip: a sequence of successful inserts stores exactly the
/// supplied rows, in insertion order, and a select over them prints
/// exactly those rows, in that order, with their exact field values.
pub proof fn lemma_round_trip(rows: Seq<RowV>)
    ensures
        inserts_applied(rows) == rows,
        select_lines(inserts_applied(rows)) == rows.map_values(|r: RowV| render_row_spec(r)),
    decreases rows.len(),
{
    if rows.len() == 0 {
        assert(inserts_applied(rows) =~= rows);
    } else {
        lemma_round_trip(rows.drop_last());
        assert(inserts_applied(rows) =~= rows);
    }
}

} // verus!
