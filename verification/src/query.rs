//! The SQL text sent to the database.
//!
//! SQL has no bound parameters for identifiers, so the schema name is written
//! into the text itself. It comes in as a [`Schema`], which cannot hold
//! anything but ASCII letters and digits. A table name is written as the
//! catalog returned it.

use crate::identifier::{is_ascii_alphanumeric, is_valid_schema_name, Schema};
use vstd::prelude::*;
use vstd::string::*;

verus! {

/// The column that fixes the order of the exported rows.
pub open spec fn row_identifier_column() -> Seq<char> {
    "vid"@
}

/// The catalog query up to and including the quote that opens the schema
/// name.
pub open spec fn tables_query_head() -> Seq<char> {
    "SELECT tablename FROM pg_tables WHERE schemaname = '"@
}

/// The query that lists the tables of `schema`.
pub open spec fn tables_query_text(schema: Seq<char>) -> Seq<char> {
    tables_query_head() + schema + "'"@
}

/// The query that unloads every row of `schema.table` as CSV with a header
/// line, ordered by the row identifier.
pub open spec fn copy_query_text(schema: Seq<char>, table: Seq<char>) -> Seq<char> {
    copy_query_head() + schema + "."@ + table + " ORDER BY "@ + row_identifier_column()
        + ") TO STDOUT WITH (FORMAT CSV, HEADER)"@
}

/// The query that lists the tables of `schema`.
pub fn tables_query(schema: &Schema) -> (query: String)
    ensures
        query@ == tables_query_text(schema@),
{
    let mut query = String::from_str("SELECT tablename FROM pg_tables WHERE schemaname = '");
    query.append(schema.as_str());
    query.append("'");
    query
}

/// The query that unloads `schema.table`.
pub fn copy_query(schema: &Schema, table: &str) -> (query: String)
    ensures
        query@ == copy_query_text(schema@, table@),
{
    let mut query = String::from_str("COPY (SELECT * FROM ");
    query.append(schema.as_str());
    query.append(".");
    query.append(table);
    query.append(" ORDER BY ");
    query.append("vid");
    query.append(") TO STDOUT WITH (FORMAT CSV, HEADER)");
    query
}

/// In the catalog query of a valid schema name, the string literal that the
/// head opens is closed by the last character of the query and not before:
/// the name cannot end the literal and continue as SQL.
pub proof fn lemma_tables_query_literal_closes_last(schema: Seq<char>)
    requires
        is_valid_schema_name(schema),
    ensures
        ({
            let query = tables_query_text(schema);
            let start = tables_query_head().len() as int;
            &&& query.len() == start + schema.len() + 1
            &&& query.subrange(start, start + schema.len()) == schema
            &&& query[query.len() - 1] == '\''
            &&& forall|i: int| start <= i < query.len() - 1 ==> query[i] != '\''
        }),
{
    reveal_strlit("'");
    let query = tables_query_text(schema);
    let start = tables_query_head().len() as int;
    assert(query.subrange(start, start + schema.len()) =~= schema);
    assert forall|i: int| start <= i < query.len() - 1 implies query[i] != '\'' by {
        assert(query[i] == schema[i - start]);
        assert(is_ascii_alphanumeric(schema[i - start]));
    }
}

/// The unload query up to the place where the schema name is written.
pub open spec fn copy_query_head() -> Seq<char> {
    "COPY (SELECT * FROM "@
}

/// In the unload query of a valid schema name, the name stands right behind
/// the head, is not empty, holds nothing but ASCII letters and digits, and
/// is followed by the dot that separates it from the table: the schema part
/// of the qualified name is the schema name and nothing else, and the
/// qualified name never begins with the dot.
pub proof fn lemma_copy_query_qualifies_with_schema(schema: Seq<char>, table: Seq<char>)
    requires
        is_valid_schema_name(schema),
    ensures
        ({
            let query = copy_query_text(schema, table);
            let start = copy_query_head().len() as int;
            &&& query.len() > start + schema.len() + table.len()
            &&& schema.len() >= 1
            &&& is_ascii_alphanumeric(query[start])
            &&& query.subrange(0, start) == copy_query_head()
            &&& query.subrange(start, start + schema.len()) == schema
            &&& forall|i: int|
                start <= i < start + schema.len() ==> is_ascii_alphanumeric(#[trigger] query[i])
            &&& query[start + schema.len()] == '.'
            &&& query.subrange(start + schema.len() + 1, start + schema.len() + 1 + table.len())
                == table
        }),
{
    reveal_strlit(".");
    let query = copy_query_text(schema, table);
    let start = copy_query_head().len() as int;
    assert(query.subrange(0, start) =~= copy_query_head());
    assert(query.subrange(start, start + schema.len()) =~= schema);
    assert(query.subrange(start + schema.len() + 1, start + schema.len() + 1 + table.len())
        =~= table);
    assert forall|i: int| start <= i < start + schema.len() implies is_ascii_alphanumeric(
        #[trigger] query[i],
    ) by {
        assert(query[i] == schema[i - start]);
    }
}

} // verus!
