//! Describing a database's tables and a table's columns, and the statement
//! that samples a table's rows.

use vstd::prelude::*;
use crate::error::{ApiError, ErrorStatus};
use crate::sql::{quote_identifier, spec_quote_identifier};
use crate::text::{chars_of, push_decimal, push_str, decimal};

verus! {

/// A text read from a row, or the empty text when it could not be read.
pub open spec fn text_or_empty(o: Option<String>) -> Seq<char> {
    match o {
        Some(s) => s@,
        None => Seq::empty(),
    }
}

/// `o`'s text, or an empty text.
pub fn unwrap_text(o: Option<String>) -> (s: String)
    ensures
        s@ == text_or_empty(o),
        o matches Some(t) ==> s == t,
{
    match o {
        Some(s) => s,
        None => String::new(),
    }
}

/// The fields of one row of `information_schema.TABLES`, each `None` when it
/// could not be read.
pub struct TableFields {
    pub name: Option<String>,
    pub table_type: Option<String>,
    pub engine: Option<String>,
    pub table_rows: Option<u64>,
    pub comment: Option<String>,
}

/// A table as listed to the client.
pub struct TableInfo {
    pub name: String,
    pub table_type: String,
    pub engine: Option<String>,
    pub table_rows: Option<u64>,
    pub comment: Option<String>,
}

/// A table as listed: name and type default to empty text.
pub fn table_info(fields: TableFields) -> (t: TableInfo)
    ensures
        t.name@ == text_or_empty(fields.name),
        t.table_type@ == text_or_empty(fields.table_type),
        t.engine == fields.engine,
        t.table_rows == fields.table_rows,
        t.comment == fields.comment,
{
    TableInfo {
        name: unwrap_text(fields.name),
        table_type: unwrap_text(fields.table_type),
        engine: fields.engine,
        table_rows: fields.table_rows,
        comment: fields.comment,
    }
}

/// The fields of one row of `information_schema.COLUMNS`, each `None` when it
/// could not be read (or, for the default, when it is NULL).
pub struct ColumnFields {
    pub name: Option<String>,
    pub column_type: Option<String>,
    pub is_nullable: Option<String>,
    pub key: Option<String>,
    pub default_value: Option<String>,
    pub extra: Option<String>,
    pub comment: Option<String>,
}

/// A column of a table, as shown to the client.
pub struct TableColumn {
    pub name: String,
    pub column_type: String,
    pub nullable: bool,
    pub key: String,
    pub default_value: Option<String>,
    pub extra: String,
    pub comment: String,
}

/// A column of a result set: its name and type.
pub struct ColumnInfo {
    pub name: String,
    pub type_label: String,
}

/// Whether `s` is exactly `YES`.
fn is_yes(s: &str) -> (b: bool)
    ensures
        b == (s@ == seq!['Y', 'E', 'S']),
{
    let v = chars_of(s);
    let r = v.len() == 3 && v[0] == 'Y' && v[1] == 'E' && v[2] == 'S';
    proof {
        if r {
            assert(s@ =~= seq!['Y', 'E', 'S']);
        }
    }
    r
}

/// A column as shown: texts default to empty, and it is nullable exactly
/// when `IS_NULLABLE` reads `YES`.
pub open spec fn spec_table_column(fields: ColumnFields, c: TableColumn) -> bool {
    &&& c.name@ == text_or_empty(fields.name)
    &&& c.column_type@ == text_or_empty(fields.column_type)
    &&& c.nullable == (fields.is_nullable matches Some(s) && s@ == seq!['Y', 'E', 'S'])
    &&& c.key@ == text_or_empty(fields.key)
    &&& c.default_value == fields.default_value
    &&& c.extra@ == text_or_empty(fields.extra)
    &&& c.comment@ == text_or_empty(fields.comment)
}

/// A column as shown to the client.
pub fn table_column(fields: ColumnFields) -> (c: TableColumn)
    ensures
        spec_table_column(fields, c),
{
    let nullable = match &fields.is_nullable {
        Some(s) => is_yes(s.as_str()),
        None => false,
    };
    TableColumn {
        name: unwrap_text(fields.name),
        column_type: unwrap_text(fields.column_type),
        nullable,
        key: unwrap_text(fields.key),
        default_value: fields.default_value,
        extra: unwrap_text(fields.extra),
        comment: unwrap_text(fields.comment),
    }
}

/// The columns of a table, in order; "table not found" when it has none.
pub fn table_columns(rows: Vec<ColumnFields>) -> (r: Result<Vec<TableColumn>, ApiError>)
    ensures
        rows@.len() == 0 <==> r is Err,
        r matches Err(e) ==> e.status == ErrorStatus::NotFound && e.message@
            == "table not found"@,
        r matches Ok(cs) ==> cs@.len() == rows@.len() && forall|i: int|
            0 <= i < rows@.len() ==> spec_table_column(rows@[i], #[trigger] cs@[i]),
{
    if rows.len() == 0 {
        return Err(ApiError::not_found("table not found".to_owned()));
    }
    let ghost orig = rows@;
    let mut cs: Vec<TableColumn> = Vec::new();
    for f in it: rows
        invariant
            it.seq() == orig,
            cs@.len() == it.index(),
            forall|i: int| 0 <= i < cs@.len() ==> spec_table_column(orig[i], #[trigger] cs@[i]),
    {
        cs.push(table_column(f));
    }
    Ok(cs)
}

/// The columns of a table as result-set columns: each name with its type.
pub fn data_columns(columns: &Vec<TableColumn>) -> (out: Vec<ColumnInfo>)
    ensures
        out@.len() == columns@.len(),
        forall|i: int|
            0 <= i < out@.len() ==> (#[trigger] out@[i]).name == columns@[i].name
                && out@[i].type_label == columns@[i].column_type,
{
    let mut out: Vec<ColumnInfo> = Vec::new();
    let mut i: usize = 0;
    while i < columns.len()
        invariant
            0 <= i <= columns@.len(),
            out@.len() == i,
            forall|k: int|
                0 <= k < i ==> (#[trigger] out@[k]).name == columns@[k].name
                    && out@[k].type_label == columns@[k].column_type,
        decreases columns.len() - i,
    {
        out.push(
            ColumnInfo {
                name: columns[i].name.clone(),
                type_label: columns[i].column_type.clone(),
            },
        );
        i = i + 1;
    }
    out
}

/// How many rows of a table are sampled.
pub const SAMPLE_LIMIT: usize = 100;

/// `SELECT * FROM <database>.<table> LIMIT <limit>`, both names quoted.
pub open spec fn spec_sample_query(database: Seq<char>, table: Seq<char>) -> Seq<char> {
    seq!['S', 'E', 'L', 'E', 'C', 'T', ' ', '*', ' ', 'F', 'R', 'O', 'M', ' ']
        + spec_quote_identifier(database) + seq!['.'] + spec_quote_identifier(table) + seq![
        ' ',
        'L',
        'I',
        'M',
        'I',
        'T',
        ' ',
    ] + decimal(SAMPLE_LIMIT as nat)
}

/// The statement that samples the rows of `database`.`table`.
pub fn sample_query(database: &str, table: &str) -> (q: String)
    ensures
        q@ == spec_sample_query(database@, table@),
{
    let mut q = String::new();
    proof {
        reveal_strlit("SELECT * FROM ");
        reveal_strlit(".");
        reveal_strlit(" LIMIT ");
    }
    push_str(&mut q, "SELECT * FROM ");
    let d = quote_identifier(database);
    push_str(&mut q, d.as_str());
    push_str(&mut q, ".");
    let t = quote_identifier(table);
    push_str(&mut q, t.as_str());
    push_str(&mut q, " LIMIT ");
    push_decimal(&mut q, SAMPLE_LIMIT as u64);
    assert(q@ =~= spec_sample_query(database@, table@));
    q
}

/// The texts that were read, in order, skipping the ones that could not be.
pub open spec fn present_texts(values: Seq<Option<String>>) -> Seq<String>
    decreases values.len(),
{
    if values.len() == 0 {
        Seq::empty()
    } else {
        match values.last() {
            Some(s) => present_texts(values.drop_last()).push(s),
            None => present_texts(values.drop_last()),
        }
    }
}

/// The names of the databases, from the first column of each row of
/// `SHOW DATABASES`, skipping rows where it could not be read.
pub fn database_names(values: &Vec<Option<String>>) -> (names: Vec<String>)
    ensures
        names@ == present_texts(values@),
{
    let mut names: Vec<String> = Vec::new();
    let mut i: usize = 0;
    while i < values.len()
        invariant
            0 <= i <= values@.len(),
            names@ == present_texts(values@.take(i as int)),
        decreases values.len() - i,
    {
        assert(values@.take(i + 1).drop_last() =~= values@.take(i as int));
        match &values[i] {
            Some(s) => names.push(s.clone()),
            None => {},
        }
        i = i + 1;
    }
    assert(values@.take(values@.len() as int) =~= values@);
    names
}

} // verus!
