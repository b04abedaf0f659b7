//! Statements for the document database: transactions built from single
//! statements, and the SELECT, UPDATE, DELETE and MERGE statements that address
//! a table's records by id or by the value of a field.

use vstd::prelude::*;

use crate::text::{join_str, contains_seq, contains_str, strip_leading, trim_start_matches_str};

verus! {

/// A transaction under construction: `BEGIN TRANSACTION;` followed by the
/// statements pushed so far, each after a space.
#[derive(Debug, Clone)]
pub struct QueryBuilder(String);

impl View for QueryBuilder {
    type V = Seq<char>;

    closed spec fn view(&self) -> Seq<char> {
        self.0@
    }
}

impl QueryBuilder {
    pub fn begin() -> (q: Self)
        ensures
            q@ == "BEGIN TRANSACTION;"@,
    {
        QueryBuilder("BEGIN TRANSACTION;".to_owned())
    }

    /// Appends a space and `query`.
    pub fn push(&mut self, query: &str)
        ensures
            final(self)@ == old(self)@ + seq![' '] + query@,
    {
        let spaced = join_str(self.0.as_str(), " ");
        self.0 = join_str(spaced.as_str(), query);
        proof {
            reveal_strlit(" ");
        }
    }

    /// The transaction text, closed by a space and `COMMIT TRANSACTION;`.
    pub fn end(self) -> (r: String)
        ensures
            r@ == self@ + seq![' '] + "COMMIT TRANSACTION;"@,
    {
        let mut me = self;
        me.push("COMMIT TRANSACTION;");
        me.0
    }
}

/// The text of a transaction holding `queries`, in order.
pub open spec fn transaction_text(queries: Seq<Seq<char>>) -> Seq<char>
    decreases queries.len(),
{
    if queries.len() == 0 {
        "BEGIN TRANSACTION;"@
    } else {
        transaction_text(queries.drop_last()) + seq![' '] + queries.last()
    }
}

/// A transaction starts with `BEGIN TRANSACTION;` whatever its statements.
pub proof fn lemma_transaction_starts_with_begin(queries: Seq<Seq<char>>)
    ensures
        transaction_text(queries).len() >= "BEGIN TRANSACTION;"@.len(),
        transaction_text(queries).take("BEGIN TRANSACTION;"@.len() as int)
            == "BEGIN TRANSACTION;"@,
    decreases queries.len(),
{
    if queries.len() > 0 {
        lemma_transaction_starts_with_begin(queries.drop_last());
        let prev = transaction_text(queries.drop_last());
        let n = "BEGIN TRANSACTION;"@.len() as int;
        assert((prev + seq![' '] + queries.last()).take(n) =~= prev.take(n));
    }
}

/// Either of two things.
#[derive(Debug, Clone, PartialEq, Eq)]
pub enum OneOf<L, R> {
    Left(L),
    Right(R),
}

/// Values that are one of two kinds of things.
pub trait IntoOneOf<'l, L, R> {
    fn one_of(me: &'l Self) -> OneOf<&'l L, &'l R>;
}

/// A record id: the table and the id within it, written as the database
/// writes it.
#[derive(Debug, Clone, PartialEq, Eq)]
pub struct Thing {
    pub tb: String,
    pub id: String,
}

/// A field and the JSON text of a value it should hold.
#[derive(Debug, Clone, PartialEq, Eq)]
pub struct FieldQuery {
    name: String,
    val: String,
}

/// A lowercase hexadecimal digit.
pub open spec fn hex_digit(d: nat) -> char {
    if d < 10 {
        crate::text::digit_char(d)
    } else if d == 10 {
        'a'
    } else if d == 11 {
        'b'
    } else if d == 12 {
        'c'
    } else if d == 13 {
        'd'
    } else if d == 14 {
        'e'
    } else {
        'f'
    }
}

/// How JSON writes `c` inside a string: quotes and backslashes behind a
/// backslash, backspace, tab, line feed, form feed and carriage return as
/// their short escapes, other control characters as `\u00` and two
/// lowercase hexadecimal digits, everything else as it is.
pub open spec fn json_escape_char(c: char) -> Seq<char> {
    if c == '"' {
        seq!['\\', '"']
    } else if c == '\\' {
        seq!['\\', '\\']
    } else if c == '\u{8}' {
        seq!['\\', 'b']
    } else if c == '\t' {
        seq!['\\', 't']
    } else if c == '\n' {
        seq!['\\', 'n']
    } else if c == '\u{c}' {
        seq!['\\', 'f']
    } else if c == '\r' {
        seq!['\\', 'r']
    } else if (c as u32) < 0x20 {
        seq!['\\', 'u', '0', '0', hex_digit((c as u32 / 16) as nat), hex_digit((c as u32 % 16) as nat)]
    } else {
        seq![c]
    }
}

/// The characters of `s`, each written as JSON writes it inside a string.
pub open spec fn json_escaped(s: Seq<char>) -> Seq<char>
    decreases s.len(),
{
    if s.len() == 0 {
        Seq::empty()
    } else {
        json_escaped(s.drop_last()) + json_escape_char(s.last())
    }
}

/// The JSON text of a string: the escaped string in double quotes.
pub open spec fn json_string_text(s: Seq<char>) -> Seq<char> {
    seq!['"'] + json_escaped(s) + seq!['"']
}

/// The compact JSON text of an optional string value: `null` for `None`.
pub open spec fn json_optional_text(v: Option<Seq<char>>) -> Seq<char> {
    match v {
        Some(s) => json_string_text(s),
        None => "null"@,
    }
}

/// `serde_json::Value::from(val)` displayed with `Display`: `null` for `None`
/// and the quoted, escaped string otherwise.
#[verifier::external_body]
pub(crate) fn json_of_optional_str(val: Option<&str>) -> (r: String)
    ensures
        val is None ==> r@ == "null"@,
        val matches Some(s) ==> r@ == json_string_text(s@),
{
    serde_json::Value::from(val).to_string()
}

impl FieldQuery {
    /// The query for records whose field `name` holds `val`, or holds no
    /// value for `None`.
    pub fn new(name: &str, val: Option<&str>) -> (q: Self)
        ensures
            q.name() == name@,
            q.value_text() == json_optional_text(
                match val {
                    Some(s) => Some(s@),
                    None => None,
                },
            ),
    {
        let val_text = json_of_optional_str(val);
        FieldQuery { name: name.to_owned(), val: val_text }
    }

    pub closed spec fn name(&self) -> Seq<char> {
        self.name@
    }

    pub closed spec fn value_text(&self) -> Seq<char> {
        self.val@
    }
}

impl<'l> IntoOneOf<'l, Thing, FieldQuery> for Thing {
    fn one_of(me: &'l Self) -> (r: OneOf<&'l Thing, &'l FieldQuery>)
        ensures
            r == OneOf::<&'l Thing, &'l FieldQuery>::Left(me),
    {
        OneOf::Left(me)
    }
}

impl<'l> IntoOneOf<'l, Thing, FieldQuery> for FieldQuery {
    fn one_of(me: &'l Self) -> (r: OneOf<&'l Thing, &'l FieldQuery>)
        ensures
            r == OneOf::<&'l Thing, &'l FieldQuery>::Right(me),
    {
        OneOf::Right(me)
    }
}

/// Errors of statement building.
#[derive(Debug, Clone, PartialEq, Eq)]
pub enum DatabaseError {
    /// A statement could not be built; the message says why.
    Undefined(String),
    /// A record lacks fields that the statement needs.
    DbStruct(String),
}

pub type DatabaseResult<T> = Result<T, DatabaseError>;

/// `table:id`.
pub open spec fn record_text(table: Seq<char>, thing: Thing) -> Seq<char> {
    table + seq![':'] + thing.id@
}

/// ` WHERE name = value`.
pub open spec fn where_text(fq: FieldQuery) -> Seq<char> {
    " WHERE "@ + fq.name() + " = "@ + fq.value_text()
}

fn record(table: &str, thing: &Thing) -> (r: String)
    ensures
        r@ == record_text(table@, *thing),
{
    let t = join_str(table, ":");
    proof {
        reveal_strlit(":");
    }
    join_str(t.as_str(), thing.id.as_str())
}

fn where_clause(fq: &FieldQuery) -> (r: String)
    ensures
        r@ == where_text(*fq),
{
    let a = join_str(" WHERE ", fq.name.as_str());
    let b = join_str(a.as_str(), " = ");
    join_str(b.as_str(), fq.val.as_str())
}

/// The text of the statement that selects `fieldname` (all fields for `None`)
/// from the record, the records matching the field query, or the whole table.
pub open spec fn select_text(
    table: Seq<char>,
    target: Option<OneOf<&Thing, &FieldQuery>>,
    fieldname: Option<&str>,
) -> Seq<char> {
    let field = match fieldname {
        Some(f) => f@,
        None => "*"@,
    };
    match target {
        Some(OneOf::Left(thing)) => "SELECT "@ + field + " FROM "@ + record_text(table, *thing)
            + ";"@,
        Some(OneOf::Right(fq)) => "SELECT "@ + field + " FROM "@ + table + where_text(*fq) + ";"@,
        None => "SELECT "@ + field + " FROM "@ + table + ";"@,
    }
}

/// The statement selecting from `table`; it is always built.
pub fn select(
    table: &str,
    target: Option<OneOf<&Thing, &FieldQuery>>,
    fieldname: Option<&str>,
) -> (r: DatabaseResult<String>)
    ensures
        r matches Ok(q) && q@ == select_text(table@, target, fieldname),
{
    let field: &str = match fieldname {
        Some(f) => f,
        None => "*",
    };
    let head = join_str("SELECT ", field);
    let head = join_str(head.as_str(), " FROM ");
    let body = match target {
        Some(OneOf::Left(thing)) => record(table, thing),
        Some(OneOf::Right(fq)) => {
            let w = where_clause(fq);
            join_str(table, w.as_str())
        },
        None => join_str(table, ""),
    };
    let q = join_str(head.as_str(), body.as_str());
    let q = join_str(q.as_str(), ";");
    proof {
        reveal_strlit("");
        assert(q@ =~= select_text(table@, target, fieldname));
    }
    Ok(q)
}

/// The text of the statement deleting the record or the records matching the
/// field query.
pub open spec fn delete_text(table: Seq<char>, target: OneOf<&Thing, &FieldQuery>) -> Seq<char> {
    match target {
        OneOf::Left(thing) => "DELETE "@ + record_text(table, *thing) + ";"@,
        OneOf::Right(fq) => "DELETE "@ + table + where_text(*fq) + ";"@,
    }
}

/// The statement deleting from `table`; it is always built.
pub fn delete(table: &str, target: OneOf<&Thing, &FieldQuery>) -> (r: DatabaseResult<String>)
    ensures
        r matches Ok(q) && q@ == delete_text(table@, target),
{
    let body = match target {
        OneOf::Left(thing) => record(table, thing),
        OneOf::Right(fq) => {
            let w = where_clause(fq);
            join_str(table, w.as_str())
        },
    };
    let q = join_str("DELETE ", body.as_str());
    let q = join_str(q.as_str(), ";");
    proof {
        assert(q@ =~= delete_text(table@, target));
    }
    Ok(q)
}

/// The text of the statement applying `merge` to the record or to the
/// records matching the field query.
pub open spec fn update_text(
    table: Seq<char>,
    target: OneOf<&Thing, &FieldQuery>,
    merge: Seq<char>,
) -> Seq<char> {
    match target {
        OneOf::Left(thing) => "UPDATE "@ + record_text(table, *thing) + seq![' '] + merge + ";"@,
        OneOf::Right(fq) => "UPDATE "@ + table + seq![' '] + merge + where_text(*fq) + ";"@,
    }
}

/// The statement updating `table` with the MERGE statement built from the
/// record's content; it fails exactly when that content has no `CONTENT`.
pub fn update(
    table: &str,
    target: OneOf<&Thing, &FieldQuery>,
    content: &str,
) -> (r: DatabaseResult<String>)
    ensures
        contains_seq(content@, "CONTENT"@) ==> (r matches Ok(q) && q@ == update_text(
            table@,
            target,
            merge_text(content@),
        )),
        !contains_seq(content@, "CONTENT"@) ==> (r matches Err(DatabaseError::Undefined(m))
            && m@ == "invalid content statement: "@ + content@),
{
    let m = match merge(content) {
        Ok(m) => m,
        Err(e) => return Err(e),
    };
    let q = match target {
        OneOf::Left(thing) => {
            let r = record(table, thing);
            let q = join_str("UPDATE ", r.as_str());
            let q = join_str(q.as_str(), " ");
            join_str(q.as_str(), m.as_str())
        },
        OneOf::Right(fq) => {
            let q = join_str("UPDATE ", table);
            let q = join_str(q.as_str(), " ");
            let q = join_str(q.as_str(), m.as_str());
            let w = where_clause(fq);
            join_str(q.as_str(), w.as_str())
        },
    };
    let q = join_str(q.as_str(), ";");
    proof {
        reveal_strlit(" ");
        assert(q@ =~= update_text(table@, target, merge_text(content@)));
    }
    Ok(q)
}

/// `MERGE ` followed by `content` without its leading `CONTENT` keywords.
pub open spec fn merge_text(content: Seq<char>) -> Seq<char> {
    "MERGE "@ + strip_leading(content, "CONTENT"@)
}

/// The MERGE statement made from a CONTENT statement; a content text without
/// `CONTENT` is refused, and the error names it.
pub fn merge(content: &str) -> (r: DatabaseResult<String>)
    ensures
        contains_seq(content@, "CONTENT"@) ==> (r matches Ok(q) && q@ == merge_text(content@)),
        !contains_seq(content@, "CONTENT"@) ==> (r matches Err(DatabaseError::Undefined(m))
            && m@ == "invalid content statement: "@ + content@),
{
    if !contains_str(content, "CONTENT") {
        let m = join_str("invalid content statement: ", content);
        return Err(DatabaseError::Undefined(m));
    }
    let rest = trim_start_matches_str(content, "CONTENT");
    Ok(join_str("MERGE ", rest.as_str()))
}

} // verus!
