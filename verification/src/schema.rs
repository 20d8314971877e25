//! Column descriptors and the statement that creates the table.

use vstd::prelude::*;
use crate::ident::{normalize, normalized};
use crate::infer::{determine_sql_type, inferred};
use crate::sql_type::{keyword_of, quoted, SqlType};
use crate::text::push_text;

verus! {

/// What a column descriptor stands for: the header as it was read, and the
/// type of the column.
pub struct Column {
    pub title: Seq<char>,
    pub ty: SqlType,
}

impl Column {
    /// The identifier of the column, which its title decides.
    pub open spec fn name(self) -> Seq<char> {
        normalized(self.title)
    }
}

/// One column of the table: the header as it was read, the identifier made
/// from it, and the type of the column.
#[derive(Debug)]
pub struct CsvHeader {
    title: String,
    normalised: String,
    ty: SqlType,
}

impl View for CsvHeader {
    type V = Column;

    closed spec fn view(&self) -> Column {
        Column { title: self.title@, ty: self.ty }
    }
}

impl Clone for CsvHeader {
    fn clone(&self) -> (h: Self)
        ensures
            h@ == self@,
    {
        self.with_type(self.ty)
    }
}

impl DeepView for CsvHeader {
    type V = Column;

    open spec fn deep_view(&self) -> Column {
        self@
    }
}

impl CsvHeader {
    /// The stored identifier is the one that the title decides.
    #[verifier::type_invariant]
    spec fn name_follows_title(self) -> bool {
        self.normalised@ == normalized(self.title@)
    }

    /// A descriptor for the header `title`, with the type `ty`.
    pub fn new(title: String, ty: SqlType) -> (h: Self)
        ensures
            h@ == (Column { title: title@, ty }),
    {
        let normalised = normalize(title.as_str());
        Self { title, normalised, ty }
    }

    /// The same column with the type `ty`.
    pub fn with_type(&self, ty: SqlType) -> (h: Self)
        ensures
            h@ == (Column { title: self@.title, ty }),
    {
        proof {
            use_type_invariant(self);
        }
        Self { title: self.title.clone(), normalised: self.normalised.clone(), ty }
    }

    /// The keyword that declares the column's type.
    pub fn ty_str(&self) -> (kw: &str)
        ensures
            kw@ == keyword_of(self@.ty),
    {
        self.ty.keyword()
    }

    /// Whether the column's values are written between single quotes.
    pub fn need_quotes(&self) -> (q: bool)
        ensures
            q == quoted(self@.ty),
    {
        self.ty.is_quoted()
    }

    /// The header as it was read.
    pub fn title(&self) -> (t: &str)
        ensures
            t@ == self@.title,
    {
        self.title.as_str()
    }

    /// The identifier of the column.
    pub fn normalised(&self) -> (name: &str)
        ensures
            name@ == self@.name(),
    {
        proof {
            use_type_invariant(self);
        }
        self.normalised.as_str()
    }

    /// The type of the column.
    pub fn ty(&self) -> (ty: SqlType)
        ensures
            ty == self@.ty,
    {
        self.ty
    }
}

/// Why no schema could be built.
#[derive(Clone, Copy, Debug, PartialEq, Eq, Structural)]
pub enum SchemaError {
    /// The sample row has fewer fields than there are headers, so some
    /// header has no value to take its type from.
    UnmatchedHeader { headers: usize, fields: usize },
}

/// The columns for `headers`, typed by the values of `sample` at the same
/// positions, or all typed as text where `force_text` is set. Fields of the
/// sample beyond the last header play no part.
pub open spec fn schema_of(
    headers: Seq<Seq<char>>,
    sample: Seq<Seq<char>>,
    force_text: bool,
) -> Seq<Column> {
    Seq::new(
        headers.len(),
        |i: int|
            Column {
                title: headers[i],
                ty: if force_text {
                    SqlType::String
                } else {
                    inferred(sample[i])
                },
            },
    )
}

/// Builds the column descriptors from the header row and the sample row.
/// Fails exactly where a header has no sample value.
pub fn build_schema(headers: &Vec<String>, sample: &Vec<String>, force_text: bool) -> (r: Result<
    Vec<CsvHeader>,
    SchemaError,
>)
    ensures
        r is Err <==> headers.len() > sample.len(),
        r matches Err(e) ==> e == (SchemaError::UnmatchedHeader {
            headers: headers.len(),
            fields: sample.len(),
        }),
        r matches Ok(cols) ==> cols.deep_view() == schema_of(
            headers.deep_view(),
            sample.deep_view(),
            force_text,
        ),
{
    if headers.len() > sample.len() {
        return Err(SchemaError::UnmatchedHeader { headers: headers.len(), fields: sample.len() });
    }
    let mut cols: Vec<CsvHeader> = Vec::new();
    let mut i: usize = 0;
    while i < headers.len()
        invariant
            i <= headers.len() <= sample.len(),
            cols.len() == i,
            forall|j: int|
                0 <= j < i ==> (#[trigger] cols[j])@ == schema_of(
                    headers.deep_view(),
                    sample.deep_view(),
                    force_text,
                )[j],
        decreases headers.len() - i,
    {
        let ty = if force_text {
            SqlType::String
        } else {
            determine_sql_type(sample[i].as_str())
        };
        let col = CsvHeader::new(headers[i].clone(), ty);
        cols.push(col);
        i = i + 1;
    }
    proof {
        assert(cols.deep_view() =~= schema_of(
            headers.deep_view(),
            sample.deep_view(),
            force_text,
        ));
    }
    Ok(cols)
}

/// The line that declares the column `c`, with the comma that ends it.
pub open spec fn column_line(c: Column) -> Seq<char> {
    "\n  "@ + c.name() + " "@ + keyword_of(c.ty) + ","@
}

/// The lines that declare `cols`, one after the other.
pub open spec fn column_lines(cols: Seq<Column>) -> Seq<char>
    decreases cols.len(),
{
    if cols.len() == 0 {
        Seq::empty()
    } else {
        column_lines(cols.drop_last()) + column_line(cols.last())
    }
}

/// The statement that creates the table `name` with the columns `cols`: the
/// opening with the table's name and a bracket, one line for each column,
/// then the closing in place of the last character written so far (the comma
/// of the last column, or the bracket where there is no column).
pub open spec fn create_table_text(name: Seq<char>, cols: Seq<Column>) -> Seq<char> {
    ("CREATE TABLE IF NOT EXISTS "@ + name + " ("@ + column_lines(cols)).drop_last() + "\n);"@
}

/// The statement that creates the table `name` with the columns `items`.
pub fn create_table_sql(name: &str, items: &[CsvHeader]) -> (sql: String)
    ensures
        sql@ == create_table_text(name@, items.deep_view()),
{
    let mut sql = String::new();
    push_text(&mut sql, "CREATE TABLE IF NOT EXISTS ");
    push_text(&mut sql, name);
    push_text(&mut sql, " (");
    let ghost opening = sql@;
    let ghost cols = items.deep_view();
    let mut i: usize = 0;
    while i < items.len()
        invariant
            i <= items.len(),
            cols == items.deep_view(),
            sql@ == opening + column_lines(cols.take(i as int)),
        decreases items.len() - i,
    {
        let h = &items[i];
        proof {
            assert(cols.take(i + 1).drop_last() =~= cols.take(i as int));
            assert(cols.take(i + 1).last() == h@);
        }
        push_text(&mut sql, "\n  ");
        push_text(&mut sql, h.normalised());
        push_text(&mut sql, " ");
        push_text(&mut sql, h.ty_str());
        push_text(&mut sql, ",");
        proof {
            assert(sql@ =~= opening + column_lines(cols.take(i + 1)));
        }
        i = i + 1;
    }
    proof {
        assert(cols.take(i as int) =~= cols);
        assert(opening =~= "CREATE TABLE IF NOT EXISTS "@ + name@ + " ("@);
        reveal_strlit(" (");
    }
    sql.pop();
    push_text(&mut sql, "\n);");
    sql
}

} // verus!
