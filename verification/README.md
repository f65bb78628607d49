# sql_workbench

The logic of a small local SQL workbench service for MySQL, verified with
Verus. The library (`src/`) holds what the service decides; `app/` is the
HTTP service around it (axum routes, sqlx database access, the configuration
file, JSON bodies).

- `connection`: building a saved connection from a request, its summary for
  the client, the settings its pool is opened with.
- `registry`: the saved connections keyed by id, the open pools and how a
  request gets one, their listing and the order
  they are written in.
- `sql`: whether a statement yields rows; quoting identifiers.
- `query`: checking a query request and cutting its rows to the limit.
- `schema`: tables and columns as shown, and the statement sampling a table.
- `cell`: how a result cell is written as JSON.
- `config`: where the saved connections are kept.
- `text`, `order`: character classes, trimming, decimal text, label order.
- `error`: the error answered to a refused request.
