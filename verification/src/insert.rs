//! The statement that inserts a batch of rows.

use vstd::prelude::*;
use crate::schema::{Column, CsvHeader};
use crate::sql_type::{quoted, SqlType};
use crate::text::{chars_of, push_text};

verus! {

/// What stands for the character `c` inside a quoted value: a double quote
/// gets a backslash before it, a single quote is written twice, any other
/// character stays.
pub open spec fn escaped_char(c: char) -> Seq<char> {
    if c == '"' {
        seq!['\\', '"']
    } else if c == '\'' {
        seq!['\'', '\'']
    } else {
        seq![c]
    }
}

/// The value `v` with each of its characters escaped.
pub open spec fn escaped(v: Seq<char>) -> Seq<char>
    decreases v.len(),
{
    if v.len() == 0 {
        Seq::empty()
    } else {
        escaped(v.drop_last()) + escaped_char(v.last())
    }
}

/// How the field `v` is written in a column of type `ty`: an empty field as
/// `NULL`, a field of a quoted type escaped and between single quotes, any
/// other field as it is.
pub open spec fn rendered(ty: SqlType, v: Seq<char>) -> Seq<char> {
    if v.len() == 0 {
        "NULL"@
    } else if quoted(ty) {
        seq!['\''] + escaped(v) + seq!['\'']
    } else {
        v
    }
}

/// The texts of `parts` one after the other, with `sep` between each two.
pub open spec fn joined(parts: Seq<Seq<char>>, sep: Seq<char>) -> Seq<char>
    decreases parts.len(),
{
    if parts.len() == 0 {
        Seq::empty()
    } else if parts.len() == 1 {
        parts[0]
    } else {
        joined(parts.drop_last(), sep) + sep + parts.last()
    }
}

/// The number of fields of `row` that are written: those that have a
/// column.
pub open spec fn written_fields(cols: Seq<Column>, row: Seq<Seq<char>>) -> nat {
    if cols.len() <= row.len() {
        cols.len()
    } else {
        row.len()
    }
}

/// The written fields of `row`, each as its column has it rendered.
pub open spec fn rendered_fields(cols: Seq<Column>, row: Seq<Seq<char>>) -> Seq<Seq<char>> {
    Seq::new(written_fields(cols, row), |i: int| rendered(cols[i].ty, row[i]))
}

/// The bracketed list of the values of `row`.
pub open spec fn row_text(cols: Seq<Column>, row: Seq<Seq<char>>) -> Seq<char> {
    seq!['('] + joined(rendered_fields(cols, row), ", "@) + seq![')']
}

/// The identifiers of `cols`.
pub open spec fn column_names(cols: Seq<Column>) -> Seq<Seq<char>> {
    Seq::new(cols.len(), |i: int| cols[i].name())
}

/// The bracketed lists of `rows`.
pub open spec fn row_texts(cols: Seq<Column>, rows: Seq<Seq<Seq<char>>>) -> Seq<Seq<char>> {
    Seq::new(rows.len(), |i: int| row_text(cols, rows[i]))
}

/// The statement that inserts `rows` into the table `table` with the
/// columns `cols`.
pub open spec fn insert_text(table: Seq<char>, cols: Seq<Column>, rows: Seq<Seq<Seq<char>>>) -> Seq<
    char,
> {
    "INSERT INTO "@ + table + " ("@ + joined(column_names(cols), ", "@) + ") VALUES "@ + joined(
        row_texts(cols, rows),
        ", "@,
    ) + ";"@
}

/// Joining one more part adds the separator and the part, or the part
/// alone where it is the first.
pub proof fn lemma_joined_push(parts: Seq<Seq<char>>, sep: Seq<char>, part: Seq<char>)
    ensures
        joined(parts.push(part), sep) == if parts.len() == 0 {
            part
        } else {
            joined(parts, sep) + sep + part
        },
{
    assert(parts.push(part).drop_last() =~= parts);
}

/// `s` with `to` in place of each `from`.
pub open spec fn replaced_all(s: Seq<char>, from: char, to: Seq<char>) -> Seq<char>
    decreases s.len(),
{
    if s.len() == 0 {
        Seq::empty()
    } else {
        replaced_all(s.drop_last(), from, to) + if s.last() == from {
            to
        } else {
            seq![s.last()]
        }
    }
}

/// What a reader of quoted values makes of `s`: a backslash with a double
/// quote after it stands for the double quote, two single quotes stand for
/// one, any other character for itself.
pub open spec fn unescaped(s: Seq<char>) -> Seq<char>
    decreases s.len(),
{
    if s.len() == 0 {
        Seq::empty()
    } else if s.len() >= 2 && ((s[0] == '\\' && s[1] == '"') || (s[0] == '\'' && s[1] == '\'')) {
        seq![s[1]] + unescaped(s.skip(2))
    } else {
        seq![s[0]] + unescaped(s.skip(1))
    }
}

/// Replacing in two texts set end to end is replacing in each.
pub proof fn lemma_replaced_all_concat(a: Seq<char>, b: Seq<char>, from: char, to: Seq<char>)
    ensures
        replaced_all(a + b, from, to) == replaced_all(a, from, to) + replaced_all(b, from, to),
    decreases b.len(),
{
    if b.len() == 0 {
        assert(a + b =~= a);
    } else {
        lemma_replaced_all_concat(a, b.drop_last(), from, to);
        assert((a + b).drop_last() =~= a + b.drop_last());
    }
}

/// Escaping a value is putting a backslash before each double quote and
/// then doubling each single quote, in this order.
pub proof fn lemma_escaped_is_two_replacements(v: Seq<char>)
    ensures
        escaped(v) == replaced_all(
            replaced_all(v, '"', seq!['\\', '"']),
            '\'',
            seq!['\'', '\''],
        ),
    decreases v.len(),
{
    let backslashed = seq!['\\', '"'];
    let doubled = seq!['\'', '\''];
    if v.len() > 0 {
        let c = v.last();
        let piece = if c == '"' {
            backslashed
        } else {
            seq![c]
        };
        lemma_escaped_is_two_replacements(v.drop_last());
        lemma_replaced_all_concat(replaced_all(v.drop_last(), '"', backslashed), piece, '\'', doubled);
        assert(replaced_all(piece, '\'', doubled) =~= escaped_char(c)) by {
            if c == '"' {
                assert(piece.drop_last() =~= seq!['\\']);
                assert(seq!['\\'].drop_last() =~= Seq::<char>::empty());
                reveal_with_fuel(replaced_all, 3);
            } else {
                assert(piece.drop_last() =~= Seq::<char>::empty());
                reveal_with_fuel(replaced_all, 2);
            }
        }
    }
}

/// Escaping two texts set end to end is escaping each.
pub proof fn lemma_escaped_concat(a: Seq<char>, b: Seq<char>)
    ensures
        escaped(a + b) == escaped(a) + escaped(b),
    decreases b.len(),
{
    if b.len() == 0 {
        assert(a + b =~= a);
    } else {
        lemma_escaped_concat(a, b.drop_last());
        assert((a + b).drop_last() =~= a + b.drop_last());
    }
}

/// An escaped value starts with what stands for its first character.
pub proof fn lemma_escaped_front(v: Seq<char>)
    requires
        v.len() > 0,
    ensures
        escaped(v) == escaped_char(v[0]) + escaped(v.skip(1)),
{
    let head = seq![v[0]];
    assert(v =~= head + v.skip(1));
    lemma_escaped_concat(head, v.skip(1));
    assert(head.drop_last() =~= Seq::<char>::empty());
    reveal_with_fuel(escaped, 2);
    assert(escaped(head) =~= escaped_char(v[0]));
}

/// Reading an escaped value gives the value back.
pub proof fn lemma_unescaped_escaped(v: Seq<char>)
    ensures
        unescaped(escaped(v)) == v,
    decreases v.len(),
{
    if v.len() > 0 {
        let rest = v.skip(1);
        let e = escaped(v);
        lemma_escaped_front(v);
        lemma_unescaped_escaped(rest);
        if rest.len() > 0 {
            lemma_escaped_front(rest);
        }
        if v[0] == '"' || v[0] == '\'' {
            assert(e.skip(2) =~= escaped(rest));
        } else {
            assert(e.skip(1) =~= escaped(rest));
        }
        assert(unescaped(e) =~= v);
    }
}

/// Adds the field `field` at the end of `buffer`, as a column of type `ty`
/// has it rendered. An empty field is written as `NULL` whatever the type.
pub fn push_value(buffer: &mut String, ty: SqlType, field: &str)
    ensures
        final(buffer)@ == old(buffer)@ + rendered(ty, field@),
        field@.len() == 0 ==> final(buffer)@ == old(buffer)@ + "NULL"@,
{
    let text = chars_of(field);
    if text.len() == 0 {
        push_text(buffer, "NULL");
    } else if ty.is_quoted() {
        buffer.push('\'');
        let ghost start = buffer@;
        let mut i: usize = 0;
        while i < text.len()
            invariant
                i <= text.len(),
                buffer@ == start + escaped(text@.take(i as int)),
            decreases text.len() - i,
        {
            let c = text[i];
            proof {
                assert(text@.take(i + 1).drop_last() =~= text@.take(i as int));
            }
            if c == '"' {
                buffer.push('\\');
                buffer.push('"');
            } else if c == '\'' {
                buffer.push('\'');
                buffer.push('\'');
            } else {
                buffer.push(c);
            }
            proof {
                assert(buffer@ =~= start + escaped(text@.take(i + 1)));
            }
            i = i + 1;
        }
        proof {
            assert(text@.take(i as int) =~= text@);
        }
        buffer.push('\'');
        proof {
            assert(buffer@ =~= old(buffer)@ + rendered(ty, field@));
        }
    } else {
        push_text(buffer, field);
    }
}

/// Adds the bracketed list of the values of `row` at the end of `buffer`.
pub fn push_row(buffer: &mut String, headers: &[CsvHeader], row: &Vec<String>)
    ensures
        final(buffer)@ == old(buffer)@ + row_text(headers.deep_view(), row.deep_view()),
{
    let ghost cols = headers.deep_view();
    let ghost fields = rendered_fields(cols, row.deep_view());
    let n: usize = if headers.len() <= row.len() { headers.len() } else { row.len() };
    buffer.push('(');
    let ghost start = buffer@;
    let mut i: usize = 0;
    while i < n
        invariant
            i <= n,
            n == fields.len(),
            n <= headers.len(),
            n <= row.len(),
            cols == headers.deep_view(),
            fields == rendered_fields(cols, row.deep_view()),
            buffer@ == start + joined(fields.take(i as int), ", "@),
        decreases n - i,
    {
        if i > 0 {
            push_text(buffer, ", ");
        }
        push_value(buffer, headers[i].ty(), row[i].as_str());
        proof {
            lemma_joined_push(fields.take(i as int), ", "@, fields[i as int]);
            assert(fields.take(i + 1) =~= fields.take(i as int).push(fields[i as int]));
            assert(buffer@ =~= start + joined(fields.take(i + 1), ", "@));
        }
        i = i + 1;
    }
    proof {
        assert(fields.take(i as int) =~= fields);
    }
    buffer.push(')');
    proof {
        assert(buffer@ =~= old(buffer)@ + row_text(cols, row.deep_view()));
    }
}

/// Writes into `buffer`, in place of what it held, the statement that
/// inserts `rows` into `table`, and returns the number of rows that the
/// statement covers.
pub fn insert_row_sql_batch(
    buffer: &mut String,
    table: &str,
    headers: &[CsvHeader],
    rows: &[Vec<String>],
) -> (count: usize)
    ensures
        final(buffer)@ == insert_text(table@, headers.deep_view(), rows.deep_view()),
        count == rows.len(),
{
    let ghost cols = headers.deep_view();
    let ghost names = column_names(cols);
    let ghost texts = row_texts(cols, rows.deep_view());
    buffer.clear();
    push_text(buffer, "INSERT INTO ");
    push_text(buffer, table);
    push_text(buffer, " (");
    let ghost opening = buffer@;
    let mut i: usize = 0;
    while i < headers.len()
        invariant
            i <= headers.len(),
            cols == headers.deep_view(),
            names == column_names(cols),
            buffer@ == opening + joined(names.take(i as int), ", "@),
        decreases headers.len() - i,
    {
        if i > 0 {
            push_text(buffer, ", ");
        }
        push_text(buffer, headers[i].normalised());
        proof {
            lemma_joined_push(names.take(i as int), ", "@, names[i as int]);
            assert(names.take(i + 1) =~= names.take(i as int).push(names[i as int]));
            assert(buffer@ =~= opening + joined(names.take(i + 1), ", "@));
        }
        i = i + 1;
    }
    proof {
        assert(names.take(i as int) =~= names);
    }
    push_text(buffer, ") VALUES ");
    let ghost middle = buffer@;
    let mut count: usize = 0;
    while count < rows.len()
        invariant
            count <= rows.len(),
            cols == headers.deep_view(),
            texts == row_texts(cols, rows.deep_view()),
            buffer@ == middle + joined(texts.take(count as int), ", "@),
        decreases rows.len() - count,
    {
        if count > 0 {
            push_text(buffer, ", ");
        }
        push_row(buffer, headers, &rows[count]);
        proof {
            lemma_joined_push(texts.take(count as int), ", "@, texts[count as int]);
            assert(texts.take(count + 1) =~= texts.take(count as int).push(texts[count as int]));
            assert(buffer@ =~= middle + joined(texts.take(count + 1), ", "@));
        }
        count = count + 1;
    }
    proof {
        assert(texts.take(count as int) =~= texts);
    }
    push_text(buffer, ";");
    proof {
        assert(buffer@ =~= insert_text(table@, cols, rows.deep_view()));
    }
    count
}

} // verus!
