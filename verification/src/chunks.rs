//! Splitting a document into line chunks for the database.
//!
//! A chunk takes the lines from `start` through `end` (or through the last
//! line when `end` is past it). After the `k`th chunk the next start is the
//! old start plus `LINES_IN_CHUNK + k`, and `end` grows by the new start; the
//! chunks therefore grow apart as the document goes on.

use vstd::prelude::*;

use crate::query::{json_of_optional_str, json_string_text, DatabaseError, DatabaseResult, OneOf, Thing};
use crate::text::{
    clone_string, join_str, decimal, join_lines, join_with_newlines, strip_leading, text_lines,
    text_lines_of, trim_start_matches_str, trim_str, trimmed, views,
};

verus! {

pub const LINES_IN_CHUNK: u32 = 20;

/// The chunk of `lines` starting at `start`, whose last line is `end` or the
/// document's last line, with the chunks after it; `k` chunks came before.
pub open spec fn windows(lines: Seq<Seq<char>>, start: int, end: int, k: int) -> Seq<
    ((int, int), Seq<char>),
>
    decreases lines.len() - start,
{
    if start < 0 || k < 0 || start >= lines.len() || end < start {
        Seq::empty()
    } else {
        let last = if end < lines.len() { end } else { lines.len() - 1 };
        let window = lines.subrange(start, last + 1);
        let next = start + LINES_IN_CHUNK + (k + 1);
        let rest = if next < lines.len() {
            windows(lines, next, end + next, k + 1)
        } else {
            Seq::empty()
        };
        seq![((start, last), join_lines(window))] + rest
    }
}

/// The chunks of a document with lines `lines`: ranges of line indices, the
/// last one included, and the text of those lines.
pub open spec fn chunks_of(lines: Seq<Seq<char>>) -> Seq<((int, int), Seq<char>)> {
    windows(lines, 0, LINES_IN_CHUNK as int, 0)
}

/// Every chunk's range lies within the document, its first line no later than
/// its last, and each chunk starts after the one before it.
pub proof fn lemma_windows_ranges(lines: Seq<Seq<char>>, start: int, end: int, k: int)
    ensures
        forall|i: int|
            0 <= i < windows(lines, start, end, k).len() ==> {
                let r = #[trigger] windows(lines, start, end, k)[i].0;
                &&& start <= r.0 <= r.1 < lines.len()
                &&& windows(lines, start, end, k)[i].1 == join_lines(lines.subrange(r.0, r.1 + 1))
            },
        forall|i: int, j: int|
            0 <= i < j < windows(lines, start, end, k).len() ==> windows(lines, start, end, k)[i].0.0
                < windows(lines, start, end, k)[j].0.0,
    decreases lines.len() - start,
{
    if start < 0 || k < 0 || start >= lines.len() || end < start {
    } else {
        let next = start + LINES_IN_CHUNK + (k + 1);
        if next < lines.len() {
            lemma_windows_ranges(lines, next, end + next, k + 1);
        }
        let w = windows(lines, start, end, k);
        let rest = if next < lines.len() {
            windows(lines, next, end + next, k + 1)
        } else {
            Seq::empty()
        };
        assert(w == seq![w[0]] + rest);
        assert forall|i: int| 0 < i < w.len() implies w[i] == rest[i - 1] by {}
    }
}

/// The chunks of any document: ranges within the document, first line no
/// later than last, starts increasing, and each text the lines of its range.
pub proof fn lemma_chunk_ranges(lines: Seq<Seq<char>>)
    ensures
        forall|i: int|
            0 <= i < chunks_of(lines).len() ==> {
                let r = #[trigger] chunks_of(lines)[i].0;
                &&& 0 <= r.0 <= r.1 < lines.len()
                &&& chunks_of(lines)[i].1 == join_lines(lines.subrange(r.0, r.1 + 1))
            },
        forall|i: int, j: int|
            0 <= i < j < chunks_of(lines).len() ==> chunks_of(lines)[i].0.0 < chunks_of(lines)[j].0.0,
{
    lemma_windows_ranges(lines, 0, LINES_IN_CHUNK as int, 0);
}

/// Whether every start and end that chunking `n` lines computes from
/// `start`, `end` and `k` stays at most `max`.
pub open spec fn steps_fit(n: int, start: int, end: int, k: int, max: int) -> bool
    decreases n - start,
{
    if start < 0 || k < 0 || start >= n {
        true
    } else {
        let next = start + LINES_IN_CHUNK + (k + 1);
        &&& k + 1 <= max
        &&& next <= max
        &&& end + next <= max
        &&& (next < n ==> steps_fit(n, next, end + next, k + 1, max))
    }
}

/// Whether chunking `n` lines keeps every index within `max`.
pub open spec fn chunking_fits(n: int, max: int) -> bool {
    n <= max && steps_fit(n, 0, LINES_IN_CHUNK as int, 0, max)
}

/// The chunk ranges and texts as plain values.
pub open spec fn chunk_views_u32(v: Seq<((u32, u32), String)>) -> Seq<((int, int), Seq<char>)> {
    v.map_values(|c: ((u32, u32), String)| ((c.0.0 as int, c.0.1 as int), c.1@))
}

/// The lines `lo` through `hi - 1` of `v`.
pub fn line_range(v: &Vec<String>, lo: usize, hi: usize) -> (r: Vec<String>)
    requires
        lo <= hi <= v@.len(),
    ensures
        views(r@) == views(v@).subrange(lo as int, hi as int),
{
    let mut r: Vec<String> = Vec::new();
    let mut i: usize = lo;
    while i < hi
        invariant
            lo <= i <= hi,
            hi <= v@.len(),
            views(r@) == views(v@).subrange(lo as int, i as int),
        decreases hi - i,
    {
        let ghost before = r@;
        r.push(clone_string(&v[i]));
        assert(views(r@) =~= views(before).push(v@[i as int]@));
        i = i + 1;
        assert(views(r@) =~= views(v@).subrange(lo as int, i as int));
    }
    r
}

/// The chunks of `text`, by the rule described above; each range holds the
/// indices of its first and last line.
pub fn chunk_text(text: &str) -> (r: Vec<((u32, u32), String)>)
    requires
        chunking_fits(text_lines(text@).len() as int, u32::MAX as int),
    ensures
        chunk_views_u32(r@) == chunks_of(text_lines(text@)),
{
    let lines = text_lines_of(text);
    let ghost ls = text_lines(text@);
    let ghost n = ls.len() as int;
    let mut chunks: Vec<((u32, u32), String)> = Vec::new();
    let mut start: u32 = 0;
    let mut end: u32 = LINES_IN_CHUNK;
    assert(chunk_views_u32(chunks@) =~= Seq::empty());
    while (start as usize) < lines.len()
        invariant
            views(lines@) == ls,
            n == ls.len(),
            n <= u32::MAX,
            start <= end,
            steps_fit(n, start as int, end as int, chunks@.len() as int, u32::MAX as int),
            start < n ==> chunk_views_u32(chunks@) + windows(
                ls,
                start as int,
                end as int,
                chunks@.len() as int,
            ) == chunks_of(ls),
            start >= n ==> chunk_views_u32(chunks@) == chunks_of(ls),
        decreases u32::MAX - start,
    {
        let last: usize = if (end as usize) < lines.len() {
            end as usize
        } else {
            lines.len() - 1
        };
        let window = line_range(&lines, start as usize, last + 1);
        let joined = join_with_newlines(window.as_slice());
        let k = chunks.len();
        let ghost before = chunks@;
        let ghost rest_before = windows(ls, start as int, end as int, k as int);
        chunks.push(((start, last as u32), joined));
        let next: u32 = start + LINES_IN_CHUNK + (chunks.len() as u32);
        proof {
            assert(chunk_views_u32(chunks@) =~= chunk_views_u32(before).push(
                ((start as int, last as int), join_lines(ls.subrange(start as int, last + 1))),
            ));
            if (next as int) < n {
                assert(rest_before =~= seq![
                    ((start as int, last as int), join_lines(ls.subrange(start as int, last + 1))),
                ] + windows(ls, next as int, end + next, k + 1));
            } else {
                assert(rest_before =~= seq![
                    ((start as int, last as int), join_lines(ls.subrange(start as int, last + 1))),
                ]);
            }
        }
        end = end + next;
        start = next;
    }
    chunks
}


/// A chunk as the database holds it. The embedding is held as its JSON text.
#[derive(Debug, PartialEq, Eq)]
pub struct DBChunk {
    pub id: Thing,
    pub uri: String,
    pub content: String,
    pub content_embedding: Option<String>,
    pub range: (u32, u32),
}

/// The fields of a chunk to write; absent fields are left as they are.
#[derive(Debug, PartialEq, Eq)]
pub struct DBChunkParams {
    pub uri: Option<String>,
    pub content: Option<String>,
    pub content_embedding: Option<String>,
    pub range: Option<(u32, u32)>,
}

/// The compact JSON text of a pair of numbers: `[a,b]`.
pub open spec fn json_pair_text(a: u32, b: u32) -> Seq<char> {
    "["@ + decimal(a as nat) + ","@ + decimal(b as nat) + "]"@
}

/// `serde_json::Value::from(vec![a, b])` displayed: a pair serializes as a
/// two-element array of decimal integers, written without spaces.
#[verifier::external_body]
fn json_of_pair(range: (u32, u32)) -> (r: String)
    ensures
        r@ == json_pair_text(range.0, range.1),
{
    serde_json::Value::from(vec![range.0, range.1]).to_string()
}

/// The JSON text of the string `s`.
pub(crate) fn json_of_str(s: &str) -> (r: String)
    ensures
        r@ == json_string_text(s@),
{
    json_of_optional_str(Some(s))
}

/// The CONTENT statement of a whole chunk.
pub open spec fn chunk_content_text(me: DBChunk) -> Seq<char> {
    let emb = match me.content_embedding {
        Some(e) => "content_embedding: "@ + e@ + ","@,
        None => Seq::empty(),
    };
    "CONTENT {\n                    uri: "@ + json_string_text(me.uri@)
        + ",\n                    content: "@ + json_string_text(me.content@)
        + ",\n                    range: "@ + json_pair_text(me.range.0, me.range.1)
        + ",\n                    "@ + emb + "\n                }"@
}

/// The text of an optional string.
pub open spec fn opt_view(o: Option<String>) -> Option<Seq<char>> {
    match o {
        Some(s) => Some(s@),
        None => None,
    }
}

/// The JSON text of an optional string.
pub open spec fn json_opt(o: Option<String>) -> Option<Seq<char>> {
    match o {
        Some(s) => Some(json_string_text(s@)),
        None => None,
    }
}

/// The JSON text of an optional pair.
pub open spec fn json_pair_opt(o: Option<(u32, u32)>) -> Option<Seq<char>> {
    match o {
        Some(r) => Some(json_pair_text(r.0, r.1)),
        None => None,
    }
}

/// One `,name: value` piece of a partial CONTENT statement, or nothing.
pub open spec fn field_piece(name: Seq<char>, value: Option<Seq<char>>) -> Seq<char> {
    match value {
        Some(v) => ","@ + name + ": "@ + v,
        None => Seq::empty(),
    }
}

/// The CONTENT statement of the given fields of a chunk: the pieces of the
/// present fields joined by spaces, trimmed, without leading commas.
pub open spec fn params_content_text(p: DBChunkParams) -> Seq<char> {
    let pieces = field_piece("uri"@, json_opt(p.uri)) + " "@
        + field_piece("content"@, json_opt(p.content)) + " "@
        + field_piece("range"@, json_pair_opt(p.range)) + " "@
        + field_piece("content_embedding"@, opt_view(p.content_embedding));
    "CONTENT { "@ + strip_leading(trimmed(pieces), ","@) + " }"@
}

pub(crate) fn field_piece_of(name: &str, value: Option<String>) -> (r: String)
    ensures
        r@ == field_piece(name@, opt_view(value)),
{
    match value {
        Some(v) => {
            let a = join_str(",", name);
            let b = join_str(a.as_str(), ": ");
            join_str(b.as_str(), v.as_str())
        },
        None => String::new(),
    }
}

impl DBChunk {
    pub fn db_id() -> (r: &'static str)
        ensures
            r@ == "doc_chunks"@,
    {
        "doc_chunks"
    }

    pub fn thing(&self) -> (r: &Thing)
        ensures
            *r == self.id,
    {
        &self.id
    }

    /// The CONTENT statement of a chunk or of some of its fields; it is
    /// always built.
    pub fn content(oneof: OneOf<&DBChunk, &DBChunkParams>) -> (r: DatabaseResult<String>)
        ensures
            r matches Ok(t) && t@ == match oneof {
                OneOf::Left(me) => chunk_content_text(*me),
                OneOf::Right(p) => params_content_text(*p),
            },
    {
        match oneof {
            OneOf::Left(me) => {
                let emb = match &me.content_embedding {
                    Some(e) => {
                        let a = join_str("content_embedding: ", e.as_str());
                        join_str(a.as_str(), ",")
                    },
                    None => String::new(),
                };
                let t = join_str("CONTENT {\n                    uri: ", json_of_str(me.uri.as_str()).as_str());
                let t = join_str(t.as_str(), ",\n                    content: ");
                let t = join_str(t.as_str(), json_of_str(me.content.as_str()).as_str());
                let t = join_str(t.as_str(), ",\n                    range: ");
                let t = join_str(t.as_str(), json_of_pair(me.range).as_str());
                let t = join_str(t.as_str(), ",\n                    ");
                let t = join_str(t.as_str(), emb.as_str());
                let t = join_str(t.as_str(), "\n                }");
                proof {
                    assert(t@ =~= chunk_content_text(*me));
                }
                Ok(t)
            },
            OneOf::Right(p) => {
                let uri = match &p.uri {
                    Some(u) => Some(json_of_str(u.as_str())),
                    None => None,
                };
                let content = match &p.content {
                    Some(c) => Some(json_of_str(c.as_str())),
                    None => None,
                };
                let range = match p.range {
                    Some(r) => Some(json_of_pair(r)),
                    None => None,
                };
                let emb = match &p.content_embedding {
                    Some(e) => Some(clone_string(e)),
                    None => None,
                };
                let a = field_piece_of("uri", uri);
                let b = field_piece_of("content", content);
                let c = field_piece_of("range", range);
                let d = field_piece_of("content_embedding", emb);
                let j = join_str(a.as_str(), " ");
                let j = join_str(j.as_str(), b.as_str());
                let j = join_str(j.as_str(), " ");
                let j = join_str(j.as_str(), c.as_str());
                let j = join_str(j.as_str(), " ");
                let j = join_str(j.as_str(), d.as_str());
                let t = trim_str(j.as_str());
                let t = trim_start_matches_str(t.as_str(), ",");
                let out = join_str("CONTENT { ", t.as_str());
                let out = join_str(out.as_str(), " }");
                proof {
                    assert(out@ =~= params_content_text(*p));
                }
                Ok(out)
            },
        }
    }

    /// The CREATE statement of a chunk; the uri, content and range must all
    /// be given.
    pub fn create(params: DBChunkParams) -> (r: DatabaseResult<String>)
        ensures
            params.uri is None || params.content is None || params.range is None ==> (r matches Err(
                DatabaseError::DbStruct(m),
            ) && m@ == missing_fields_spec()),
            params.uri is Some && params.content is Some && params.range is Some ==> (r matches Ok(
                t,
            ) && t@ == "CREATE "@ + "doc_chunks"@ + " "@ + params_content_text(params) + ";"@),
    {
        if params.uri.is_none() || params.content.is_none() || params.range.is_none() {
            return Err(DatabaseError::DbStruct(missing_fields_message()));
        }
        let c = match DBChunk::content(OneOf::Right(&params)) {
            Ok(c) => c,
            Err(e) => return Err(e),
        };
        let t = join_str("CREATE ", DBChunk::db_id());
        let t = join_str(t.as_str(), " ");
        let t = join_str(t.as_str(), c.as_str());
        let t = join_str(t.as_str(), ";");
        Ok(t)
    }

    /// The chunk framed for a prompt, its range written as a tuple.
    pub fn to_string(&self) -> (r: String)
        ensures
            r@ == chunk_display_text(self.range, self.content@),
    {
        let range = range_tuple(self.range);
        let t = join_str("\n        [ START OF CHUNK IN RANGE: ", range.as_str());
        let t = join_str(t.as_str(), " ]\n\n        ");
        let t = join_str(t.as_str(), self.content.as_str());
        let t = join_str(t.as_str(), "\n\n        [ END OF CHUNK IN RANGE: ");
        let t = join_str(t.as_str(), range.as_str());
        join_str(t.as_str(), " ]\n\n        ")
    }
}

/// The message of the error for a CREATE statement lacking fields.
pub open spec fn missing_fields_spec() -> Seq<char> {
    "All fields need to be Some for a create statement"@
}

fn missing_fields_message() -> (m: String)
    ensures
        m@ == missing_fields_spec(),
{
    "All fields need to be Some for a create statement".to_owned()
}

/// `(a, b)`, as `Debug` writes a pair of numbers.
pub open spec fn range_tuple_text(r: (u32, u32)) -> Seq<char> {
    "("@ + decimal(r.0 as nat) + ", "@ + decimal(r.1 as nat) + ")"@
}

fn range_tuple(r: (u32, u32)) -> (t: String)
    ensures
        t@ == range_tuple_text(r),
{
    let a = crate::text::decimal_string(r.0 as usize);
    let b = crate::text::decimal_string(r.1 as usize);
    let t = join_str("(", a.as_str());
    let t = join_str(t.as_str(), ", ");
    let t = join_str(t.as_str(), b.as_str());
    join_str(t.as_str(), ")")
}

/// The framed text of a chunk.
pub open spec fn chunk_display_text(range: (u32, u32), content: Seq<char>) -> Seq<char> {
    "\n        [ START OF CHUNK IN RANGE: "@ + range_tuple_text(range) + " ]\n\n        "@ + content
        + "\n\n        [ END OF CHUNK IN RANGE: "@ + range_tuple_text(range) + " ]\n\n        "@
}

/// Whether `c`'s range starts or ends at `line`.
pub open spec fn touches_line(c: DBChunk, line: u32) -> bool {
    c.range.1 == line || c.range.0 == line
}

/// The first chunk whose range starts or ends at `line`.
pub fn get_chunk_ref_by_line(vec: &Vec<DBChunk>, line: u32) -> (r: Option<&DBChunk>)
    ensures
        r is None <==> forall|i: int| 0 <= i < vec@.len() ==> !touches_line(vec@[i], line),
        r matches Some(c) ==> exists|i: int|
            0 <= i < vec@.len() && *c == vec@[i] && touches_line(vec@[i], line) && forall|j: int|
                0 <= j < i ==> !touches_line(vec@[j], line),
{
    let mut i: usize = 0;
    while i < vec.len()
        invariant
            i <= vec@.len(),
            forall|j: int| 0 <= j < i ==> !touches_line(vec@[j], line),
        decreases vec@.len() - i,
    {
        if vec[i].range.1 == line || vec[i].range.0 == line {
            return Some(&vec[i]);
        }
        i = i + 1;
    }
    None
}

/// Whether `p` holds the document `uri`, the text and range of chunk `c`,
/// and no embedding.
pub open spec fn params_of_chunk(p: DBChunkParams, uri: Seq<char>, c: ((int, int), Seq<char>)) -> bool {
    &&& p.uri matches Some(u) && u@ == uri
    &&& p.content matches Some(t) && t@ == c.1
    &&& p.range matches Some(rg) && rg.0 == c.0.0 && rg.1 == c.0.1
    &&& p.content_embedding is None
}

impl DBChunkParams {
    /// The fields of the chunks of `text` from the document at `uri`, without
    /// embeddings.
    pub fn from_text(uri: &str, text: &str) -> (r: Vec<DBChunkParams>)
        requires
            chunking_fits(text_lines(text@).len() as int, u32::MAX as int),
        ensures
            r@.len() == chunks_of(text_lines(text@)).len(),
            forall|i: int|
                0 <= i < r@.len() ==> params_of_chunk(
                    #[trigger] r@[i],
                    uri@,
                    chunks_of(text_lines(text@))[i],
                ),
    {
        let chunked = chunk_text(text);
        let mut chunks: Vec<DBChunkParams> = Vec::new();
        let mut i: usize = 0;
        while i < chunked.len()
            invariant
                i <= chunked@.len(),
                chunks@.len() == i,
                chunk_views_u32(chunked@) == chunks_of(text_lines(text@)),
                forall|k: int|
                    0 <= k < i ==> params_of_chunk(
                        #[trigger] chunks@[k],
                        uri@,
                        chunks_of(text_lines(text@))[k],
                    ),
            decreases chunked@.len() - i,
        {
            let (range, t) = &chunked[i];
            let p = DBChunkParams {
                uri: Some(uri.to_owned()),
                range: Some((range.0, range.1)),
                content: Some(clone_string(t)),
                content_embedding: None,
            };
            proof {
                assert(chunk_views_u32(chunked@)[i as int] == ((range.0 as int, range.1 as int), t@));
            }
            chunks.push(p);
            i = i + 1;
        }
        chunks
    }
}

} // verus!
