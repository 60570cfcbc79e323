//! Safe SQL-building helpers.
//!
//! Every function here produces a fragment that reads back as what went into
//! it, whatever characters that holds: the laws at the end of the module say
//! so over a reader of quoted text.

use vstd::prelude::*;
use vstd::string::*;

use crate::text;
use crate::text::{join_texts, replace_char, u32_text, usize_text};

verus! {

/// `body` between two `q`, with every `q` inside doubled.
pub open spec fn quoted(body: Seq<char>, q: char) -> Seq<char> {
    seq![q] + text::replaced(body, q, seq![q, q]) + seq![q]
}

/// A quoted identifier.
pub open spec fn ident_text(name: Seq<char>) -> Seq<char> {
    quoted(name, '"')
}

/// A quoted string literal.
pub open spec fn literal_text(value: Seq<char>) -> Seq<char> {
    quoted(value, '\'')
}

/// A schema-qualified identifier.
pub open spec fn qualified_text(schema: Seq<char>, name: Seq<char>) -> Seq<char> {
    ident_text(schema) + "."@ + ident_text(name)
}

/// The quoted form of each name.
pub open spec fn ident_texts(names: Seq<Seq<char>>) -> Seq<Seq<char>> {
    Seq::new(names.len(), |i: int| ident_text(names[i]))
}

/// Quotes a text with a quote character.
fn quote(body: &str, q: char) -> (r: String)
    ensures
        r@ == quoted(body@, q),
{
    let mut both = String::new();
    both.push(q);
    both.push(q);
    assert(both@ =~= seq![q, q]);
    let mut r = String::new();
    r.push(q);
    assert(r@ =~= seq![q]);
    r.append(replace_char(body, q, both.as_str()).as_str());
    let ghost open = r@;
    r.push(q);
    assert(r@ =~= open + seq![q]);
    r
}

/// Quotes an identifier.
///
/// Double quotes in `name` are doubled.
pub fn ident(name: &str) -> (r: String)
    ensures
        r@ == ident_text(name@),
{
    quote(name, '"')
}

/// A schema-qualified identifier: `"schema"."name"`.
pub fn qualified(schema: &str, name: &str) -> (r: String)
    ensures
        r@ == qualified_text(schema@, name@),
{
    let mut r = ident(schema);
    r.append(".");
    r.append(ident(name).as_str());
    r
}

/// A string literal in single quotes.
///
/// Single quotes in `value` are doubled.  For values that users supply,
/// prefer a parameter of the statement: see [`spi_param`].
pub fn literal(value: &str) -> (r: String)
    ensures
        r@ == literal_text(value@),
{
    quote(value, '\'')
}

/// A cast from an object identifier to a table name.
pub fn regclass(oid: u32) -> (r: String)
    ensures
        r@ == text::decimal(oid as nat) + "::oid::regclass"@,
{
    let mut r = u32_text(oid);
    r.append("::oid::regclass");
    r
}

/// The placeholder of a statement parameter, counted from one.
pub fn spi_param(index: usize) -> (r: String)
    ensures
        r@ == "$"@ + text::decimal(index as nat),
{
    let mut r = "$".to_string();
    r.append(usize_text(index).as_str());
    r
}

/// A comma-separated list of quoted identifiers.
pub fn list_idents(names: &[&str]) -> (r: String)
    ensures
        r@ == text::join(Seq::new(names@.len(), |i: int| ident_text(names@[i]@)), ", "@),
{
    let mut parts: Vec<String> = Vec::new();
    let mut i: usize = 0;
    while i < names.len()
        invariant
            i <= names@.len(),
            parts@.len() == i,
            forall|k: int| 0 <= k < i ==> (#[trigger] parts@[k])@ == ident_text(names@[k]@),
        decreases names@.len() - i,
    {
        parts.push(ident(names[i]));
        i += 1;
    }
    assert(text::texts(parts@) =~= Seq::new(names@.len(), |i: int| ident_text(names@[i]@)));
    join_texts(&parts, ", ")
}

/// A comma-separated list of quoted identifiers, from owned names.
pub fn list_idents_owned(names: &[String]) -> (r: String)
    ensures
        r@ == text::join(ident_texts(text::texts(names@)), ", "@),
{
    let mut parts: Vec<String> = Vec::new();
    let mut i: usize = 0;
    while i < names.len()
        invariant
            i <= names@.len(),
            parts@.len() == i,
            forall|k: int| 0 <= k < i ==> (#[trigger] parts@[k])@ == ident_text(names@[k]@),
        decreases names@.len() - i,
    {
        parts.push(ident(names[i].as_str()));
        i += 1;
    }
    assert(text::texts(parts@) =~= ident_texts(text::texts(names@)));
    join_texts(&parts, ", ")
}

// ── Reading quoted text back ───────────────────────────────────────────

/// Reads the inside of a quoted text: up to the first `q` that is not doubled.
///
/// Returns what was read and what follows the closing quote.
pub open spec fn read_body(s: Seq<char>, q: char) -> Option<(Seq<char>, Seq<char>)>
    decreases s.len(),
{
    if s.len() == 0 {
        None
    } else if s[0] != q {
        match read_body(s.skip(1), q) {
            Some((body, rest)) => Some((seq![s[0]] + body, rest)),
            None => None,
        }
    } else if s.len() >= 2 && s[1] == q {
        match read_body(s.skip(2), q) {
            Some((body, rest)) => Some((seq![q] + body, rest)),
            None => None,
        }
    } else {
        Some((Seq::empty(), s.skip(1)))
    }
}

/// Reads a quoted text at the start of `s`, as a SQL scanner does.
pub open spec fn read_quoted(s: Seq<char>, q: char) -> Option<(Seq<char>, Seq<char>)> {
    if s.len() > 0 && s[0] == q {
        read_body(s.skip(1), q)
    } else {
        None
    }
}

/// Replacing in a text is replacing in its first character and in the rest.
proof fn replaced_from_front(s: Seq<char>, c: char, with: Seq<char>)
    requires
        s.len() > 0,
    ensures
        text::replaced(s, c, with) == (if s[0] == c {
            with
        } else {
            seq![s[0]]
        }) + text::replaced(s.skip(1), c, with),
    decreases s.len(),
{
    let head = if s[0] == c {
        with
    } else {
        seq![s[0]]
    };
    if s.len() == 1 {
        assert(s.drop_last() =~= Seq::empty());
        assert(s.skip(1) =~= Seq::empty());
        assert(text::replaced(s.drop_last(), c, with) =~= Seq::empty());
        assert(text::replaced(s, c, with) =~= head + text::replaced(s.skip(1), c, with));
    } else {
        replaced_from_front(s.drop_last(), c, with);
        assert(s.drop_last().skip(1) =~= s.skip(1).drop_last());
        assert(s.skip(1).last() == s.last());
        assert(text::replaced(s, c, with) =~= head + text::replaced(s.skip(1), c, with));
    }
}

/// The inside of a quoted text reads back, and reading stops at its end.
proof fn body_reads_back(body: Seq<char>, q: char, rest: Seq<char>)
    requires
        rest.len() == 0 || rest[0] != q,
    ensures
        read_body(text::replaced(body, q, seq![q, q]) + seq![q] + rest, q) == Some((body, rest)),
    decreases body.len(),
{
    let s = text::replaced(body, q, seq![q, q]) + seq![q] + rest;
    if body.len() == 0 {
        assert(s =~= seq![q] + rest);
        assert(s.skip(1) =~= rest);
        assert(body =~= Seq::empty());
    } else {
        let tail = body.skip(1);
        let s_tail = text::replaced(tail, q, seq![q, q]) + seq![q] + rest;
        replaced_from_front(body, q, seq![q, q]);
        body_reads_back(tail, q, rest);
        if body[0] == q {
            assert(s =~= seq![q, q] + s_tail);
            assert(s.skip(2) =~= s_tail);
            assert(seq![q] + tail =~= body);
        } else {
            assert(s =~= seq![body[0]] + s_tail);
            assert(s.skip(1) =~= s_tail);
            assert(seq![body[0]] + tail =~= body);
        }
    }
}

/// A quoted text reads back as what was quoted, whatever it holds, and the
/// text after it is left as it was.  So nothing inside can end the quotation.
pub proof fn quoted_reads_back(body: Seq<char>, q: char, rest: Seq<char>)
    requires
        rest.len() == 0 || rest[0] != q,
    ensures
        read_quoted(quoted(body, q) + rest, q) == Some((body, rest)),
{
    let s = quoted(body, q) + rest;
    body_reads_back(body, q, rest);
    assert(s.skip(1) =~= text::replaced(body, q, seq![q, q]) + seq![q] + rest);
}

/// An identifier reads back from its quoted form.
pub proof fn ident_reads_back(name: Seq<char>)
    ensures
        read_quoted(ident_text(name), '"') == Some((name, Seq::<char>::empty())),
{
    quoted_reads_back(name, '"', Seq::empty());
    assert(ident_text(name) + Seq::<char>::empty() =~= ident_text(name));
}

/// A literal reads back from its quoted form.
pub proof fn literal_reads_back(value: Seq<char>)
    ensures
        read_quoted(literal_text(value), '\'') == Some((value, Seq::<char>::empty())),
{
    quoted_reads_back(value, '\'', Seq::empty());
    assert(literal_text(value) + Seq::<char>::empty() =~= literal_text(value));
}

/// Different names have different quoted forms.
pub proof fn ident_is_injective(a: Seq<char>, b: Seq<char>)
    requires
        ident_text(a) == ident_text(b),
    ensures
        a == b,
{
    ident_reads_back(a);
    ident_reads_back(b);
}

/// Different values have different literals.
pub proof fn literal_is_injective(a: Seq<char>, b: Seq<char>)
    requires
        literal_text(a) == literal_text(b),
    ensures
        a == b,
{
    literal_reads_back(a);
    literal_reads_back(b);
}

/// A qualified name reads back as its schema, a dot and its name.
pub proof fn qualified_reads_back(schema: Seq<char>, name: Seq<char>)
    ensures
        read_quoted(qualified_text(schema, name), '"') == Some(
            (schema, "."@ + ident_text(name)),
        ),
        read_quoted(ident_text(name), '"') == Some((name, Seq::<char>::empty())),
{
    let rest = "."@ + ident_text(name);
    reveal_strlit(".");
    assert(rest[0] == '.');
    quoted_reads_back(schema, '"', rest);
    assert(qualified_text(schema, name) =~= ident_text(schema) + rest);
    ident_reads_back(name);
}

/// A quoted text begins and ends with its quote character.
pub proof fn quoted_is_delimited(body: Seq<char>, q: char)
    ensures
        quoted(body, q).len() >= 2,
        quoted(body, q)[0] == q,
        quoted(body, q).last() == q,
{
}

} // verus!
