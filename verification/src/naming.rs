//! The name of the file that a table is exported to.

use crate::identifier::Schema;
use vstd::prelude::*;
use vstd::string::*;

verus! {

/// `csv.gz` for a compressed export, `csv` for a plain one.
pub open spec fn file_extension(compressed: bool) -> Seq<char> {
    if compressed {
        "csv.gz"@
    } else {
        "csv"@
    }
}

/// Schema, underscore, table, dot, extension.
pub open spec fn file_name_text(schema: Seq<char>, table: Seq<char>, compressed: bool) -> Seq<
    char,
> {
    schema + "_"@ + table + "."@ + file_extension(compressed)
}

/// The names of the files that the tables of a schema are exported to, in
/// the order of the tables.
pub open spec fn file_names(schema: Seq<char>, tables: Seq<Seq<char>>, compressed: bool) -> Seq<
    Seq<char>,
> {
    Seq::new(tables.len(), |i: int| file_name_text(schema, tables[i], compressed))
}

/// The extension of an output file.
pub fn extension(compressed: bool) -> (ext: &'static str)
    ensures
        ext@ == file_extension(compressed),
{
    if compressed {
        "csv.gz"
    } else {
        "csv"
    }
}

/// The name of the file that `schema.table` is exported to.
pub fn output_file_name(schema: &Schema, table: &str, compressed: bool) -> (name: String)
    ensures
        name@ == file_name_text(schema@, table@, compressed),
{
    let mut name = String::from_str(schema.as_str());
    name.append("_");
    name.append(table);
    name.append(".");
    name.append(extension(compressed));
    name
}

/// Within one schema and one mode, two tables share an output file only if
/// they are the same table: no export of a run overwrites another.
pub proof fn lemma_file_name_determines_table(
    schema: Seq<char>,
    first: Seq<char>,
    second: Seq<char>,
    compressed: bool,
)
    requires
        file_name_text(schema, first, compressed) == file_name_text(schema, second, compressed),
    ensures
        first == second,
{
    reveal_strlit("_");
    reveal_strlit(".");
    let a = file_name_text(schema, first, compressed);
    let b = file_name_text(schema, second, compressed);
    let start = (schema.len() + 1) as int;
    assert(a.len() == start + first.len() + 1 + file_extension(compressed).len());
    assert(b.len() == start + second.len() + 1 + file_extension(compressed).len());
    assert(first =~= a.subrange(start, start + first.len()));
    assert(second =~= b.subrange(start, start + second.len()));
}

/// The plain and the compressed export of a table never go to the same file.
pub proof fn lemma_modes_use_different_files(schema: Seq<char>, table: Seq<char>)
    ensures
        file_name_text(schema, table, true) != file_name_text(schema, table, false),
{
    reveal_strlit("csv");
    reveal_strlit("csv.gz");
    assert(file_name_text(schema, table, true).len() == file_name_text(schema, table, false).len()
        + 3);
}

} // verus!
