//! Statement preparation: the result enums of the pipeline, the
//! meta-command recognizer, and the parser that turns one input line into a
//! typed statement.

use vstd::prelude::*;

use crate::row::EMAIL_SIZE;
use crate::row::Row;
use crate::row::RowV;
use crate::row::USERNAME_SIZE;
use crate::row::row_fits;
use crate::row::text_byte_len;
use crate::text::all_digits;
use crate::text::dec_value;
use crate::text::is_prefix_of;
use crate::text::parse_u32;
use crate::text::split_on_spaces;
use crate::text::split_spaces;
use crate::text::str_eq;
use crate::text::str_starts_with;

verus! {

/// Outcome of routing a meta-command line.
#[derive(Clone, Copy, PartialEq, Eq, Structural, Debug)]
pub enum MetaCommandResult {
    MetaCommandSuccess,
    MetaCommandUnrecognizedCommand,
}

/// Outcome of preparing one statement line.
#[derive(Clone, Copy, PartialEq, Eq, Structural, Debug)]
pub enum PrepareResult {
    PrepareSuccess,
    PrepareSyntaxError,
    PrepareUnrecognizedStatement,
}

/// The kind of a prepared statement.
#[derive(Clone, Copy, PartialEq, Eq, Structural, Debug)]
pub enum StatementType {
    StatementInsert,
    StatementSelect,
    StatementUnsupported,
}

/// Outcome of executing a prepared statement.
#[derive(Clone, Copy, PartialEq, Eq, Structural, Debug)]
pub enum ExecuteResult {
    ExecuteSuccess,
    ExecuteFail,
    ExecuteTableFull,
}

/// A transient, typed statement produced from one input line; it carries
/// the parsed row payload exactly for inserts.
pub struct Statement {
    pub stmt_type: StatementType,
    pub row_to_insert: Option<Row>,
}

/// Any row a statement carries respects the field byte budgets; the parser
/// establishes this and the executor relies on it.
pub open spec fn stmt_wf(s: Statement) -> bool {
    s.row_to_insert matches Some(row) ==> row_fits(row@)
}

/// The line is the exit meta-command.
pub open spec fn is_exit_line(line: Seq<char>) -> bool {
    line == ".exit"@
}

/// The line is routed to the meta-command recognizer.
pub open spec fn is_meta_line(line: Seq<char>) -> bool {
    is_prefix_of("."@, line)
}

/// The line opens with the insert keyword.
pub open spec fn is_insert_line(line: Seq<char>) -> bool {
    is_prefix_of("insert"@, line)
}

/// The line opens with the select keyword.
pub open spec fn is_select_line(line: Seq<char>) -> bool {
    is_prefix_of("select"@, line)
}

/// An insert line supplies at least an id token and the two text tokens
/// after the keyword; tokens beyond those are ignored.
pub open spec fn insert_arity_ok(line: Seq<char>) -> bool {
    split_on_spaces(line).len() >= 4
}

/// The id token reads as an unsigned 32-bit decimal numeral.
pub open spec fn insert_id_ok(line: Seq<char>) -> bool {
    let tok = split_on_spaces(line)[1];
    tok.len() > 0 && all_digits(tok) && dec_value(tok) <= u32::MAX
}

/// The username and email tokens respect their byte budgets.
pub open spec fn insert_fields_ok(line: Seq<char>) -> bool {
    let tokens = split_on_spaces(line);
    text_byte_len(tokens[2]) <= USERNAME_SIZE && text_byte_len(tokens[3]) <= EMAIL_SIZE
}

/// The insert line parses into a row: enough tokens, a readable id, and
/// fields within budget.
pub open spec fn insert_line_ok(line: Seq<char>) -> bool {
    insert_arity_ok(line) && insert_id_ok(line) && insert_fields_ok(line)
}

/// The row an acceptable insert line denotes: the id token read as a
/// number, the username and email tokens verbatim.
pub open spec fn insert_row_of(line: Seq<char>) -> RowV {
    let tokens = split_on_spaces(line);
    RowV { id: dec_value(tokens[1]) as u32, username: tokens[2], email: tokens[3] }
}

/// Recognizes a meta-command line. The exit sentinel reports success, which
/// the owning loop interprets as the signal to terminate; every other line
/// is unrecognized. No process-lifecycle side effect happens here.
pub fn do_meta_command(command: &str) -> (r: MetaCommandResult)
    ensures
        is_exit_line(command@) ==> r == MetaCommandResult::MetaCommandSuccess,
        !is_exit_line(command@) ==> r == MetaCommandResult::MetaCommandUnrecognizedCommand,
{
    if str_eq(command, ".exit") {
        MetaCommandResult::MetaCommandSuccess
    } else {
        MetaCommandResult::MetaCommandUnrecognizedCommand
    }
}

/// Parses one non-meta input line into a statement.
///
/// A line opening with the insert keyword is split on single spaces; it
/// yields an insert statement carrying exactly the row the line denotes,
/// or a syntax error when a token is missing, the id does not read as an
/// unsigned 32-bit numeral, or a text field oversteps its byte budget. A
/// line opening with the select keyword yields a select statement. Every
/// other line yields an unsupported statement and an unrecognized-statement
/// result.
pub fn prepare_statement(command: &str) -> (r: (Option<Statement>, PrepareResult))
    ensures
        r.0 matches Some(stmt) ==> stmt_wf(stmt),
        is_insert_line(command@) && insert_line_ok(command@) ==> {
            &&& r.1 == PrepareResult::PrepareSuccess
            &&& r.0 matches Some(stmt) && stmt.stmt_type == StatementType::StatementInsert
                && (stmt.row_to_insert matches Some(row) && row@ == insert_row_of(command@))
        },
        is_insert_line(command@) && !insert_line_ok(command@) ==> r.1
            == PrepareResult::PrepareSyntaxError && r.0 is None,
        !is_insert_line(command@) && is_select_line(command@) ==> {
            &&& r.1 == PrepareResult::PrepareSuccess
            &&& r.0 matches Some(stmt) && stmt.stmt_type == StatementType::StatementSelect
                && stmt.row_to_insert is None
        },
        !is_insert_line(command@) && !is_select_line(command@) ==> {
            &&& r.1 == PrepareResult::PrepareUnrecognizedStatement
            &&& r.0 matches Some(stmt) && stmt.stmt_type == StatementType::StatementUnsupported
                && stmt.row_to_insert is None
        },
{
    if str_starts_with(command, "insert") {
        let tokens = split_spaces(command);
        proof {
            assert forall|k: int| 0 <= k < tokens@.len() implies split_on_spaces(command@)[k]
                == tokens@[k]@ by {
                assert(crate::text::views_of(tokens@)[k] == tokens@[k]@);
            }
        }
        if tokens.len() < 4 {
            return (None, PrepareResult::PrepareSyntaxError);
        }
        let id = match parse_u32(tokens[1].as_str()) {
            Some(v) => v,
            None => {
                return (None, PrepareResult::PrepareSyntaxError);
            },
        };
        let username = &tokens[2];
        let email = &tokens[3];
        if username.as_str().as_bytes().len() > USERNAME_SIZE || email.as_str().as_bytes().len()
            > EMAIL_SIZE {
            return (None, PrepareResult::PrepareSyntaxError);
        }
        let stmt = Statement {
            stmt_type: StatementType::StatementInsert,
            row_to_insert: Some(Row::new(id, username.clone(), email.clone())),
        };
        (Some(stmt), PrepareResult::PrepareSuccess)
    } else if str_starts_with(command, "select") {
        let stmt = Statement { stmt_type: StatementType::StatementSelect, row_to_insert: None };
        (Some(stmt), PrepareResult::PrepareSuccess)
    } else {
        let stmt = Statement {
            stmt_type: StatementType::StatementUnsupported,
            row_to_insert: None,
        };
        (Some(stmt), PrepareResult::PrepareUnrecognizedStatement)
    }
}

} // verus!
