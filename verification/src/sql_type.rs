use vstd::prelude::*;

verus! {

/// The semantic type of a column.
#[derive(Clone, Copy, Debug, PartialEq, Eq, Structural)]
pub enum SqlType {
    String,
    Integer,
    Boolean,
    Float,
    IsoDateTime,
    NaiveDate,
}

/// The keyword that declares a column of type `ty`.
pub open spec fn keyword_of(ty: SqlType) -> Seq<char> {
    match ty {
        SqlType::String => "TEXT"@,
        SqlType::Integer => "INTEGER"@,
        SqlType::Float => "REAL"@,
        SqlType::IsoDateTime => "TIMESTAMP"@,
        SqlType::NaiveDate => "DATE"@,
        SqlType::Boolean => "BOOLEAN"@,
    }
}

/// Whether values of type `ty` are written between single quotes.
pub open spec fn quoted(ty: SqlType) -> bool {
    ty == SqlType::String || ty == SqlType::IsoDateTime || ty == SqlType::NaiveDate
}

impl SqlType {
    /// The keyword that declares a column of this type.
    pub fn keyword(&self) -> (kw: &'static str)
        ensures
            kw@ == keyword_of(*self),
    {
        match self {
            SqlType::String => "TEXT",
            SqlType::Integer => "INTEGER",
            SqlType::Float => "REAL",
            SqlType::IsoDateTime => "TIMESTAMP",
            SqlType::NaiveDate => "DATE",
            SqlType::Boolean => "BOOLEAN",
        }
    }

    /// Whether values of this type are written between single quotes.
    pub fn is_quoted(&self) -> (q: bool)
        ensures
            q == quoted(*self),
    {
        match self {
            SqlType::String | SqlType::IsoDateTime | SqlType::NaiveDate => true,
            SqlType::Integer | SqlType::Boolean | SqlType::Float => false,
        }
    }
}

} // verus!
