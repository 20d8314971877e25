//! Turning header text into column identifiers.

use vstd::prelude::*;
use crate::text::{chars_of, lowered, push_chars, same_chars};

verus! {

/// The words that cannot stand alone as a column name.
pub const RESERVED: [&'static str; 116] = [
    "add",
    "all",
    "alter",
    "and",
    "as",
    "asc",
    "autoincrement",
    "between",
    "by",
    "cascade",
    "case",
    "cast",
    "check",
    "collate",
    "column",
    "commit",
    "conflict",
    "constraint",
    "create",
    "cross",
    "current_date",
    "current_time",
    "current_timestamp",
    "database",
    "default",
    "deferrable",
    "deferred",
    "delete",
    "desc",
    "distinct",
    "drop",
    "each",
    "else",
    "end",
    "escape",
    "except",
    "exclusive",
    "exists",
    "explain",
    "fail",
    "for",
    "foreign",
    "from",
    "full",
    "glob",
    "group",
    "having",
    "if",
    "ignore",
    "immediate",
    "in",
    "index",
    "indexed",
    "initially",
    "inner",
    "insert",
    "instead",
    "intersect",
    "into",
    "is",
    "isnull",
    "join",
    "key",
    "left",
    "like",
    "limit",
    "match",
    "natural",
    "no",
    "not",
    "notnull",
    "null",
    "of",
    "offset",
    "on",
    "or",
    "order",
    "outer",
    "plan",
    "pragma",
    "primary",
    "query",
    "raise",
    "recursive",
    "references",
    "regexp",
    "reindex",
    "release",
    "rename",
    "replace",
    "restrict",
    "right",
    "rollback",
    "row",
    "savepoint",
    "select",
    "set",
    "table",
    "temp",
    "temporary",
    "then",
    "to",
    "transaction",
    "trigger",
    "union",
    "unique",
    "update",
    "using",
    "vacuum",
    "values",
    "view",
    "virtual",
    "when",
    "where",
    "with",
    "without",
];

/// Whether `s` is one of the reserved words.
pub open spec fn is_reserved(s: Seq<char>) -> bool {
    exists|i: int| 0 <= i < 116 && (#[trigger] RESERVED@[i])@ == s
}

/// Whether `c` may occur in an identifier: a lower-case ASCII letter, an
/// ASCII digit or the underscore.
pub open spec fn is_identifier_char(c: char) -> bool {
    ('a' <= c <= 'z') || ('0' <= c <= '9') || c == '_'
}

/// The replacement of one character: ASCII letters and digits stay, `%`
/// becomes `p`, anything else becomes `_`.
pub open spec fn replaced(c: char) -> char {
    if ('a' <= c <= 'z') || ('A' <= c <= 'Z') || ('0' <= c <= '9') {
        c
    } else if c == '%' {
        'p'
    } else {
        '_'
    }
}

/// `h` with every character replaced and lowered.
pub open spec fn sanitized(h: Seq<char>) -> Seq<char> {
    h.map_values(|c: char| lowered(replaced(c)))
}

/// The identifier that stands for the header `h`: its sanitized form, with
/// an underscore added where that form is a reserved word.
pub open spec fn normalized(h: Seq<char>) -> Seq<char> {
    if is_reserved(sanitized(h)) {
        sanitized(h).push('_')
    } else {
        sanitized(h)
    }
}

/// Whether every character of `s` may occur in an identifier.
pub open spec fn is_identifier_text(s: Seq<char>) -> bool {
    forall|i: int| 0 <= i < s.len() ==> is_identifier_char(#[trigger] s[i])
}

/// Every reserved word is made of identifier characters, and none is
/// empty.
pub proof fn lemma_reserved_is_identifier_text(k: Seq<char>)
    requires
        is_reserved(k),
    ensures
        is_identifier_text(k),
        k.len() > 0,
{
    reveal_strlit("add");
    reveal_strlit("all");
    reveal_strlit("alter");
    reveal_strlit("and");
    reveal_strlit("as");
    reveal_strlit("asc");
    reveal_strlit("autoincrement");
    reveal_strlit("between");
    reveal_strlit("by");
    reveal_strlit("cascade");
    reveal_strlit("case");
    reveal_strlit("cast");
    reveal_strlit("check");
    reveal_strlit("collate");
    reveal_strlit("column");
    reveal_strlit("commit");
    reveal_strlit("conflict");
    reveal_strlit("constraint");
    reveal_strlit("create");
    reveal_strlit("cross");
    reveal_strlit("current_date");
    reveal_strlit("current_time");
    reveal_strlit("current_timestamp");
    reveal_strlit("database");
    reveal_strlit("default");
    reveal_strlit("deferrable");
    reveal_strlit("deferred");
    reveal_strlit("delete");
    reveal_strlit("desc");
    reveal_strlit("distinct");
    reveal_strlit("drop");
    reveal_strlit("each");
    reveal_strlit("else");
    reveal_strlit("end");
    reveal_strlit("escape");
    reveal_strlit("except");
    reveal_strlit("exclusive");
    reveal_strlit("exists");
    reveal_strlit("explain");
    reveal_strlit("fail");
    reveal_strlit("for");
    reveal_strlit("foreign");
    reveal_strlit("from");
    reveal_strlit("full");
    reveal_strlit("glob");
    reveal_strlit("group");
    reveal_strlit("having");
    reveal_strlit("if");
    reveal_strlit("ignore");
    reveal_strlit("immediate");
    reveal_strlit("in");
    reveal_strlit("index");
    reveal_strlit("indexed");
    reveal_strlit("initially");
    reveal_strlit("inner");
    reveal_strlit("insert");
    reveal_strlit("instead");
    reveal_strlit("intersect");
    reveal_strlit("into");
    reveal_strlit("is");
    reveal_strlit("isnull");
    reveal_strlit("join");
    reveal_strlit("key");
    reveal_strlit("left");
    reveal_strlit("like");
    reveal_strlit("limit");
    reveal_strlit("match");
    reveal_strlit("natural");
    reveal_strlit("no");
    reveal_strlit("not");
    reveal_strlit("notnull");
    reveal_strlit("null");
    reveal_strlit("of");
    reveal_strlit("offset");
    reveal_strlit("on");
    reveal_strlit("or");
    reveal_strlit("order");
    reveal_strlit("outer");
    reveal_strlit("plan");
    reveal_strlit("pragma");
    reveal_strlit("primary");
    reveal_strlit("query");
    reveal_strlit("raise");
    reveal_strlit("recursive");
    reveal_strlit("references");
    reveal_strlit("regexp");
    reveal_strlit("reindex");
    reveal_strlit("release");
    reveal_strlit("rename");
    reveal_strlit("replace");
    reveal_strlit("restrict");
    reveal_strlit("right");
    reveal_strlit("rollback");
    reveal_strlit("row");
    reveal_strlit("savepoint");
    reveal_strlit("select");
    reveal_strlit("set");
    reveal_strlit("table");
    reveal_strlit("temp");
    reveal_strlit("temporary");
    reveal_strlit("then");
    reveal_strlit("to");
    reveal_strlit("transaction");
    reveal_strlit("trigger");
    reveal_strlit("union");
    reveal_strlit("unique");
    reveal_strlit("update");
    reveal_strlit("using");
    reveal_strlit("vacuum");
    reveal_strlit("values");
    reveal_strlit("view");
    reveal_strlit("virtual");
    reveal_strlit("when");
    reveal_strlit("where");
    reveal_strlit("with");
    reveal_strlit("without");
}

/// A reserved word is its own sanitized form, so its identifier is the word
/// followed by one underscore.
pub proof fn lemma_reserved_word_gets_suffix(k: Seq<char>)
    requires
        is_reserved(k),
    ensures
        normalized(k) == k.push('_'),
{
    lemma_reserved_is_identifier_text(k);
    assert(sanitized(k) =~= k);
}

/// The identifier of any header is made of identifier characters, and it
/// is empty only where the header is.
pub proof fn lemma_normalized_is_identifier(h: Seq<char>)
    ensures
        is_identifier_text(normalized(h)),
        normalized(h).len() == 0 <==> h.len() == 0,
{
    assert(is_identifier_text(sanitized(h)));
    if is_reserved(sanitized(h)) {
        lemma_reserved_is_identifier_text(sanitized(h));
    }
}

/// The one-character step of `sanitized`.
pub fn sanitize_char(c: char) -> (r: char)
    ensures
        r == lowered(replaced(c)),
        is_identifier_char(r),
{
    if ('a' <= c && c <= 'z') || ('0' <= c && c <= '9') {
        c
    } else if 'A' <= c && c <= 'Z' {
        ((c as u8) + 32) as char
    } else if c == '%' {
        'p'
    } else {
        '_'
    }
}

/// Whether `word` is one of the reserved words.
pub fn is_reserved_word(word: &Vec<char>) -> (found: bool)
    ensures
        found == is_reserved(word@),
{
    let mut i: usize = 0;
    while i < 116
        invariant
            i <= 116,
            forall|j: int| 0 <= j < i ==> (#[trigger] RESERVED@[j])@ != word@,
        decreases 116 - i,
    {
        let candidate = chars_of(RESERVED[i]);
        if same_chars(&candidate, word) {
            return true;
        }
        i = i + 1;
    }
    false
}

/// The identifier that stands for `header`.
pub fn normalize(header: &str) -> (id: String)
    ensures
        id@ == normalized(header@),
        is_identifier_text(id@),
        id@.len() == 0 <==> header@.len() == 0,
{
    let source = chars_of(header);
    let mut clean: Vec<char> = Vec::new();
    let mut i: usize = 0;
    while i < source.len()
        invariant
            i <= source.len(),
            source@ == header@,
            clean@ == sanitized(source@.take(i as int)),
        decreases source.len() - i,
    {
        clean.push(sanitize_char(source[i]));
        proof {
            assert(sanitized(source@.take(i + 1)) =~= sanitized(source@.take(i as int)).push(
                lowered(replaced(source@[i as int])),
            ));
        }
        i = i + 1;
    }
    proof {
        assert(source@.take(i as int) == source@);
        lemma_normalized_is_identifier(header@);
    }
    let mut id = String::new();
    push_chars(&mut id, &clean);
    if is_reserved_word(&clean) {
        id.push('_');
    }
    proof {
        assert(id@ =~= normalized(header@));
    }
    id
}

} // verus!
