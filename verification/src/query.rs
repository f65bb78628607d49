//! Running a client's SQL: checking the request, choosing how to run it, and
//! cutting the rows sent back to the requested number.

use vstd::prelude::*;
use crate::connection::clamp;
use crate::error::{ApiError, ErrorStatus};
use crate::sql::{returns_rows, spec_returns_rows};
use crate::text::{spec_trim, trim};

verus! {

/// The row limit used when a query request names none.
pub fn default_max_rows() -> (n: usize)
    ensures
        n == 500,
{
    500
}

/// The least and greatest number of rows a query sends back.
pub const MIN_ROWS: usize = 1;
pub const MAX_ROWS: usize = 5000;

/// A client's request to run one statement.
pub struct QueryRequest {
    pub sql: String,
    pub max_rows: usize,
}

/// How a statement is run: fetching its rows, or executing it for the count
/// of rows it affected.
#[derive(Clone, Copy, Debug, PartialEq, Eq, Structural)]
pub enum QueryKind {
    Rows,
    Command,
}

/// A checked query request.
pub struct QueryPlan {
    pub sql: String,
    pub max_rows: usize,
    pub kind: QueryKind,
}

/// A statement is run: trimmed; "sql is required" when nothing is left; the
/// row limit brought into `[1, 5000]`; its rows fetched when it yields rows.
pub fn plan_query(request: &QueryRequest) -> (r: Result<QueryPlan, ApiError>)
    ensures
        spec_trim(request.sql@).len() == 0 <==> r is Err,
        r matches Err(e) ==> e.status == ErrorStatus::BadRequest && e.message@
            == "sql is required"@,
        r matches Ok(p) ==> {
            &&& p.sql@ == spec_trim(request.sql@)
            &&& p.max_rows == clamp(request.max_rows as int, MIN_ROWS as int, MAX_ROWS as int)
            &&& (p.kind == QueryKind::Rows <==> spec_returns_rows(spec_trim(request.sql@)))
        },
{
    let sql = trim(request.sql.as_str());
    if sql.as_str().is_empty() {
        return Err(ApiError::bad_request("sql is required".to_owned()));
    }
    let max_rows = if request.max_rows < MIN_ROWS {
        MIN_ROWS
    } else if request.max_rows > MAX_ROWS {
        MAX_ROWS
    } else {
        request.max_rows
    };
    let kind = if returns_rows(sql.as_str()) {
        QueryKind::Rows
    } else {
        QueryKind::Command
    };
    Ok(QueryPlan { sql, max_rows, kind })
}

/// The rows sent back for a statement: at most the limit, with the number
/// fetched and whether some were left out.
pub struct RowsPage<T> {
    pub rows: Vec<T>,
    pub row_count: usize,
    pub limited: bool,
}

/// Keeps the first `max_rows` of `rows`.
pub fn limit_rows<T>(rows: Vec<T>, max_rows: usize) -> (page: RowsPage<T>)
    ensures
        page.row_count == rows@.len(),
        page.limited == (rows@.len() > max_rows),
        page.rows@ == rows@.take(if rows@.len() > max_rows { max_rows as int } else { rows@.len() as int }),
{
    let row_count = rows.len();
    let mut kept = rows;
    let limited = row_count > max_rows;
    if limited {
        kept.truncate(max_rows);
    }
    proof {
        if !limited {
            assert(kept@ =~= rows@.take(rows@.len() as int));
        }
    }
    RowsPage { rows: kept, row_count, limited }
}

} // verus!
