//! Blocks of a document for the database: the code outside comments, in
//! groups of lines, each with an id made of its index in the document and the
//! document's address.

use base64::Engine;
use vstd::prelude::*;

use crate::chunks::{field_piece, field_piece_of, json_of_str, json_opt, opt_view};
use crate::lexer::{tokens_view, Token, TokenView};
use crate::query::{json_string_text, DatabaseError, DatabaseResult, OneOf, Thing};
use crate::text::{
    chars_of, clone_string, join_str, decimal, decimal_string, join_lines, join_with_newlines,
    string_from_chars, strip_leading, text_lines, text_lines_of, trim_start_matches_str, trim_str,
    trimmed, utf8_len, views,
};

verus! {

pub const LINES_PER_BLOCK: usize = 25;

/// The base64 text, URL-safe alphabet without padding, of the UTF-8 bytes of
/// `s`.
pub uninterp spec fn base64_url_text(s: Seq<char>) -> Seq<char>;

/// The bytes that the URL-safe base64 text `s` (without padding) encodes,
/// or `None` where `s` is not such a text.
pub uninterp spec fn base64_url_bytes(s: Seq<char>) -> Option<Seq<u8>>;

/// `BASE64_URL_SAFE_NO_PAD.encode(s)`. Decoding the result gives back the
/// UTF-8 bytes of `s`.
#[verifier::external_body]
pub(crate) fn base64_encode(s: &str) -> (r: String)
    ensures
        r@ == base64_url_text(s@),
        base64_url_bytes(r@) == Some(vstd::utf8::encode_utf8(s@)),
{
    base64::prelude::BASE64_URL_SAFE_NO_PAD.encode(s)
}

/// `BASE64_URL_SAFE_NO_PAD.decode(s)`, with the decode error dropped.
#[verifier::external_body]
pub(crate) fn base64_decode(s: &str) -> (r: Option<Vec<u8>>)
    ensures
        r is Some == base64_url_bytes(s@) is Some,
        r matches Some(v) ==> base64_url_bytes(s@) == Some(v@) && v@.len() <= s@.len(),
{
    base64::prelude::BASE64_URL_SAFE_NO_PAD.decode(s).ok()
}

/// Whether `s` is a URI reference that `lsp_types::Uri` accepts.
pub uninterp spec fn uri_valid(s: Seq<char>) -> bool;

/// `lsp_types::Uri::from_str(s).is_ok()`; the parser panics on inputs longer
/// than `i32::MAX` bytes.
#[verifier::external_body]
pub(crate) fn uri_parses(s: &str) -> (r: bool)
    requires
        utf8_len(s@) <= i32::MAX,
    ensures
        r == uri_valid(s@),
{
    <lsp_types::Uri as core::str::FromStr>::from_str(s).is_ok()
}

/// The id of a block: the decimal index of the block in its document
/// followed by the base64 text of the document's address.
#[derive(Debug, Clone, PartialEq, Eq)]
pub struct DBBlockID(pub String);

/// The id text of block `idx` of the document at `uri`.
pub open spec fn block_id_text(uri: Seq<char>, idx: nat) -> Seq<char> {
    decimal(idx) + base64_url_text(uri)
}

/// The characters whose codes are the bytes `b`.
pub open spec fn latin1(b: Seq<u8>) -> Seq<char> {
    b.map_values(|x: u8| x as char)
}

/// The value of a decimal digit character.
pub open spec fn digit_value(c: char) -> Option<nat> {
    if c == '0' { Some(0) }
    else if c == '1' { Some(1) }
    else if c == '2' { Some(2) }
    else if c == '3' { Some(3) }
    else if c == '4' { Some(4) }
    else if c == '5' { Some(5) }
    else if c == '6' { Some(6) }
    else if c == '7' { Some(7) }
    else if c == '8' { Some(8) }
    else if c == '9' { Some(9) }
    else { None }
}

/// What reading an id gives back: the document's address and the block
/// index, or `None` where the first character is no digit, the rest is not
/// base64 or the decoded address is not a URI.
pub open spec fn read_block_id(id: Seq<char>) -> Option<(Seq<char>, nat)> {
    match digit_value(id[0]) {
        None => None,
        Some(d) => match base64_url_bytes(id.skip(1)) {
            None => None,
            Some(bytes) => if uri_valid(latin1(bytes)) {
                Some((latin1(bytes), d))
            } else {
                None
            },
        },
    }
}

/// Why an id could not be read.
#[derive(Debug, Clone, PartialEq, Eq)]
pub enum BlockIdError {
    /// The first character is not a digit.
    Index,
    /// The rest is not URL-safe base64.
    Encoding,
    /// The decoded address is not a URI.
    Uri,
}

fn parse_digit(c: char) -> (r: Option<usize>)
    ensures
        r matches Some(d) ==> digit_value(c) == Some(d as nat),
        r is None ==> digit_value(c) is None,
{
    if c == '0' { Some(0) }
    else if c == '1' { Some(1) }
    else if c == '2' { Some(2) }
    else if c == '3' { Some(3) }
    else if c == '4' { Some(4) }
    else if c == '5' { Some(5) }
    else if c == '6' { Some(6) }
    else if c == '7' { Some(7) }
    else if c == '8' { Some(8) }
    else if c == '9' { Some(9) }
    else { None }
}

impl DBBlockID {
    /// The id of block `doc_idx` of the document at `uri`. Reading it gives
    /// back the address and the index for a one-digit index and an ASCII
    /// address that is a URI; a longer index is read by its first digit only.
    pub fn from_uri_and_index(uri: &str, doc_idx: usize) -> (id: DBBlockID)
        ensures
            id.0@ == block_id_text(uri@, doc_idx as nat),
            doc_idx < 10 && is_ascii_seq(uri@) && uri_valid(uri@) ==> read_block_id(id.0@) == Some(
                (uri@, doc_idx as nat),
            ),
    {
        let encoded = base64_encode(uri);
        let idx = decimal_string(doc_idx);
        let id = DBBlockID(join_str(idx.as_str(), encoded.as_str()));
        proof {
            if doc_idx < 10 && is_ascii_seq(uri@) && uri_valid(uri@) {
                let n = doc_idx as nat;
                assert(decimal(n) == seq![crate::text::digit_char(n)]);
                assert(id.0@.skip(1) =~= encoded@);
                lemma_ascii_round_trip(uri@);
                assert(digit_value(id.0@[0]) == Some(n));
            }
        }
        id
    }

    /// The document's address and the block index held by the id. Only the
    /// first character is read as the index; the id must begin with a
    /// one-byte character.
    pub fn try_into_uri_and_index(self) -> (r: Result<(String, usize), BlockIdError>)
        requires
            self.0@.len() > 0,
            (self.0@[0] as u32) < 0x80,
            self.0@.len() <= i32::MAX / 2,
        ensures
            r matches Ok((u, i)) ==> read_block_id(self.0@) == Some((u@, i as nat)),
            r is Err <==> read_block_id(self.0@) is None,
            r == Err::<(String, usize), BlockIdError>(BlockIdError::Index) <==> digit_value(
                self.0@[0],
            ) is None,
    {
        let cs = chars_of(self.0.as_str());
        let d = match parse_digit(cs[0]) {
            Some(d) => d,
            None => return Err(BlockIdError::Index),
        };
        let mut rest_chars: Vec<char> = Vec::new();
        let mut i: usize = 1;
        while i < cs.len()
            invariant
                1 <= i <= cs@.len(),
                cs@ == self.0@,
                rest_chars@ == cs@.subrange(1, i as int),
            decreases cs@.len() - i,
        {
            rest_chars.push(cs[i]);
            i = i + 1;
            assert(rest_chars@ =~= cs@.subrange(1, i as int));
        }
        assert(rest_chars@ =~= self.0@.skip(1));
        let rest = string_from_chars(rest_chars.as_slice());
        let bytes = match base64_decode(rest.as_str()) {
            Some(b) => b,
            None => return Err(BlockIdError::Encoding),
        };
        let mut uri_chars: Vec<char> = Vec::new();
        let mut k: usize = 0;
        while k < bytes.len()
            invariant
                k <= bytes@.len(),
                uri_chars@ == latin1(bytes@.take(k as int)),
            decreases bytes@.len() - k,
        {
            uri_chars.push(bytes[k] as char);
            k = k + 1;
            assert(uri_chars@ =~= latin1(bytes@.take(k as int)));
        }
        assert(bytes@.take(bytes@.len() as int) =~= bytes@);
        let uri = string_from_chars(uri_chars.as_slice());
        proof {
            lemma_latin1_utf8_len(bytes@);
        }
        if !uri_parses(uri.as_str()) {
            return Err(BlockIdError::Uri);
        }
        Ok((uri, d))
    }
}

/// The UTF-8 length of a string of characters below 256 is at most twice the
/// number of characters.
pub(crate) proof fn lemma_latin1_utf8_len(b: Seq<u8>)
    ensures
        utf8_len(latin1(b)) <= 2 * b.len(),
    decreases b.len(),
{
    if b.len() > 0 {
        lemma_latin1_utf8_len(b.drop_first());
        assert(latin1(b).drop_first() =~= latin1(b.drop_first()));
    }
}

/// The characters of `s` all have one-byte encodings.
pub open spec fn is_ascii_seq(s: Seq<char>) -> bool {
    forall|i: int| 0 <= i < s.len() ==> (#[trigger] s[i] as u32) < 0x80
}

pub(crate) proof fn lemma_ascii_round_trip(s: Seq<char>)
    requires
        is_ascii_seq(s),
    ensures
        latin1(vstd::utf8::encode_utf8(s)) == s,
    decreases s.len(),
{
    if s.len() > 0 {
        let c = s[0] as u32;
        assert((s[0] as u32) < 0x80);
        assert(c & 0x7F == c) by (bit_vector)
            requires
                c < 0x80,
        ;
        lemma_ascii_round_trip(s.drop_first());
        let e = vstd::utf8::encode_utf8(s);
        assert(e == vstd::utf8::encode_scalar(c) + vstd::utf8::encode_utf8(s.drop_first()));
        assert(latin1(e) =~= seq![((c & 0x7F) as u8) as char] + latin1(
            vstd::utf8::encode_utf8(s.drop_first()),
        ));
        let b = (c & 0x7F) as u8;
        assert(b == c);
        vstd::utf8::char_u32_cast(s[0], c);
        assert(c as char == s[0]);
        assert(b as char == c as char);
        assert(latin1(e) =~= s);
    }
}


/// A block as the database holds it. The embedding is held as its JSON text.
#[derive(Debug, Clone, PartialEq, Eq)]
pub struct DBBlock {
    pub id: Thing,
    pub uri: String,
    pub content: String,
    pub content_embedding: Option<String>,
}

/// The fields of a block to write, with the block's id.
#[derive(Debug, Clone, PartialEq, Eq)]
pub struct DBBlockParams {
    pub id: DBBlockID,
    pub uri: Option<String>,
    pub content: Option<String>,
    pub content_embedding: Option<String>,
}

impl DBBlockParams {
    /// The fields of block `idx_in_doc` of the document at `uri`.
    pub fn new(uri: &str, idx_in_doc: usize, content: Option<String>) -> (p: Self)
        ensures
            p.id.0@ == block_id_text(uri@, idx_in_doc as nat),
            p.uri matches Some(u) && u@ == uri@,
            p.content == content,
            p.content_embedding is None,
    {
        let id = DBBlockID::from_uri_and_index(uri, idx_in_doc);
        DBBlockParams { id, uri: Some(uri.to_owned()), content, content_embedding: None }
    }
}

/// The code of a document: the texts of its blocks, in order.
pub open spec fn blocks_text(ts: Seq<TokenView>) -> Seq<char>
    decreases ts.len(),
{
    if ts.len() == 0 {
        Seq::empty()
    } else {
        blocks_text(ts.drop_last()) + match ts.last() {
            TokenView::Block(b) => b,
            _ => Seq::empty(),
        }
    }
}

/// The lines of block `k`: up to `LINES_PER_BLOCK` lines from line
/// `k * LINES_PER_BLOCK`, none past the end.
pub open spec fn block_window(lines: Seq<Seq<char>>, k: nat) -> Seq<char> {
    let lo = if k * LINES_PER_BLOCK < lines.len() { k * LINES_PER_BLOCK } else { lines.len() as int };
    let hi = if k * LINES_PER_BLOCK + LINES_PER_BLOCK < lines.len() {
        k * LINES_PER_BLOCK + LINES_PER_BLOCK
    } else {
        lines.len() as int
    };
    join_lines(lines.subrange(lo, hi))
}

/// The contents of blocks `k`, `k + 1`, ... up to the first one that is
/// blank.
pub open spec fn block_contents(lines: Seq<Seq<char>>, k: nat) -> Seq<Seq<char>>
    decreases lines.len() - k * LINES_PER_BLOCK,
{
    if k * LINES_PER_BLOCK >= lines.len() || trimmed(block_window(lines, k)).len() == 0 {
        Seq::empty()
    } else if (k + 1) * LINES_PER_BLOCK >= lines.len() {
        seq![block_window(lines, k)]
    } else {
        seq![block_window(lines, k)] + block_contents(lines, k + 1)
    }
}

/// Whether `p` holds block `k` of the document at `uri` with `content`.
pub open spec fn params_of_block(p: DBBlockParams, uri: Seq<char>, k: nat, content: Seq<char>) -> bool {
    &&& p.id.0@ == block_id_text(uri, k)
    &&& p.uri matches Some(u) && u@ == uri
    &&& p.content matches Some(c) && c@ == content
    &&& p.content_embedding is None
}

/// The blocks of a lexed document at `uri`: the code outside comments, cut
/// into groups of `LINES_PER_BLOCK` lines, up to the first group that is
/// blank.
pub fn block_params_from(tokens: &Vec<Token>, uri: &str) -> (r: Vec<DBBlockParams>)
    requires
        text_lines(blocks_text(tokens_view(tokens@))).len() < usize::MAX - LINES_PER_BLOCK,
    ensures
        r@.len() == block_contents(text_lines(blocks_text(tokens_view(tokens@))), 0).len(),
        forall|i: int|
            0 <= i < r@.len() ==> params_of_block(
                #[trigger] r@[i],
                uri@,
                i as nat,
                block_contents(text_lines(blocks_text(tokens_view(tokens@))), 0)[i],
            ),
{
    let mut doc = String::new();
    let mut t: usize = 0;
    while t < tokens.len()
        invariant
            t <= tokens@.len(),
            doc@ == blocks_text(tokens_view(tokens@).take(t as int)),
        decreases tokens@.len() - t,
    {
        proof {
            assert(tokens_view(tokens@).take(t + 1).drop_last() =~= tokens_view(tokens@).take(
                t as int,
            ));
        }
        match &tokens[t] {
            Token::Block(b) => {
                doc = join_str(doc.as_str(), b.as_str());
            },
            _ => {},
        }
        t = t + 1;
    }
    assert(tokens_view(tokens@).take(tokens@.len() as int) =~= tokens_view(tokens@));
    let lines = text_lines_of(doc.as_str());
    let ghost ls = text_lines(doc@);
    let n = lines.len();
    let mut all: Vec<DBBlockParams> = Vec::new();
    let mut k: usize = 0;
    loop
        invariant
            views(lines@) == ls,
            n == ls.len(),
            n < usize::MAX - LINES_PER_BLOCK,
            k * LINES_PER_BLOCK < n + LINES_PER_BLOCK,
            all@.len() == k,
            k <= block_contents(ls, 0).len(),
            block_contents(ls, 0) == block_contents(ls, 0).take(k as int) + block_contents(
                ls,
                k as nat,
            ),
            forall|i: int|
                0 <= i < k ==> params_of_block(
                    #[trigger] all@[i],
                    uri@,
                    i as nat,
                    block_contents(ls, 0)[i],
                ),
        ensures
            all@.len() == block_contents(ls, 0).len(),
            forall|i: int|
                0 <= i < all@.len() ==> params_of_block(
                    #[trigger] all@[i],
                    uri@,
                    i as nat,
                    block_contents(ls, 0)[i],
                ),
        decreases n + LINES_PER_BLOCK - k * LINES_PER_BLOCK,
    {
        let start = k * LINES_PER_BLOCK;
        if start >= n {
            proof {
                assert(block_contents(ls, k as nat) =~= Seq::empty());
                assert(block_contents(ls, 0).take(k as int) =~= block_contents(ls, 0));
            }
            break;
        }
        let hi = if start + LINES_PER_BLOCK < n { start + LINES_PER_BLOCK } else { n };
        let window = crate::chunks::line_range(&lines, start, hi);
        let content = join_with_newlines(window.as_slice());
        let t = trim_str(content.as_str());
        proof {
            assert(content@ == block_window(ls, k as nat));
        }
        if t.as_str().is_empty() {
            proof {
                assert(block_contents(ls, k as nat) =~= Seq::empty());
                assert(block_contents(ls, 0).take(k as int) =~= block_contents(ls, 0));
            }
            break;
        }
        let p = DBBlockParams::new(uri, k, Some(content));
        proof {
            let rest = block_contents(ls, k as nat);
            if (k + 1) * LINES_PER_BLOCK >= n {
                assert(block_contents(ls, (k + 1) as nat) =~= Seq::empty());
            }
            assert(rest =~= seq![block_window(ls, k as nat)] + block_contents(ls, (k + 1) as nat));
            assert(block_contents(ls, 0)[k as int] == rest[0]);
            assert(block_contents(ls, 0).take(k + 1) =~= block_contents(ls, 0).take(k as int)
                + seq![block_window(ls, k as nat)]);
            assert(block_contents(ls, 0) =~= block_contents(ls, 0).take(k + 1) + block_contents(
                ls,
                (k + 1) as nat,
            ));
        }
        all.push(p);
        k = k + 1;
    }
    all
}

/// The CONTENT statement of a whole block.
pub open spec fn block_content_text(me: DBBlock) -> Seq<char> {
    let emb = match me.content_embedding {
        Some(e) => "content_embedding: "@ + e@ + ","@,
        None => Seq::empty(),
    };
    "CONTENT {\n                uri: "@ + json_string_text(me.uri@) + ",\n                content: "@
        + json_string_text(me.content@) + ",\n                "@ + emb + "\n                }"@
}

/// The CONTENT statement of the given fields of a block.
pub open spec fn block_params_content_text(p: DBBlockParams) -> Seq<char> {
    let pieces = field_piece("uri"@, json_opt(p.uri)) + " "@ + field_piece(
        "content"@,
        json_opt(p.content),
    ) + " "@ + field_piece("content_embedding"@, opt_view(p.content_embedding));
    "CONTENT { "@ + strip_leading(trimmed(pieces), ","@) + " }"@
}

impl DBBlock {
    pub fn db_id() -> (r: &'static str)
        ensures
            r@ == "blocks"@,
    {
        "blocks"
    }

    pub fn thing(&self) -> (r: &Thing)
        ensures
            *r == self.id,
    {
        &self.id
    }

    /// The CONTENT statement of a block or of some of its fields; it is
    /// always built.
    pub fn content(oneof: OneOf<&DBBlock, &DBBlockParams>) -> (r: DatabaseResult<String>)
        ensures
            r matches Ok(t) && t@ == match oneof {
                OneOf::Left(me) => block_content_text(*me),
                OneOf::Right(p) => block_params_content_text(*p),
            },
    {
        match oneof {
            OneOf::Left(me) => {
                let emb = match &me.content_embedding {
                    Some(e) => {
                        let a = join_str("content_embedding: ", e.as_str());
                        join_str(a.as_str(), ",")
                    },
                    None => String::new(),
                };
                let t = join_str(
                    "CONTENT {\n                uri: ",
                    json_of_str(me.uri.as_str()).as_str(),
                );
                let t = join_str(t.as_str(), ",\n                content: ");
                let t = join_str(t.as_str(), json_of_str(me.content.as_str()).as_str());
                let t = join_str(t.as_str(), ",\n                ");
                let t = join_str(t.as_str(), emb.as_str());
                let t = join_str(t.as_str(), "\n                }");
                proof {
                    assert(t@ =~= block_content_text(*me));
                }
                Ok(t)
            },
            OneOf::Right(p) => {
                let uri = match &p.uri {
                    Some(u) => Some(json_of_str(u.as_str())),
                    None => None,
                };
                let content = match &p.content {
                    Some(c) => Some(json_of_str(c.as_str())),
                    None => None,
                };
                let emb = match &p.content_embedding {
                    Some(e) => Some(clone_string(e)),
                    None => None,
                };
                let a = field_piece_of("uri", uri);
                let b = field_piece_of("content", content);
                let d = field_piece_of("content_embedding", emb);
                let j = join_str(a.as_str(), " ");
                let j = join_str(j.as_str(), b.as_str());
                let j = join_str(j.as_str(), " ");
                let j = join_str(j.as_str(), d.as_str());
                let t = trim_str(j.as_str());
                let t = trim_start_matches_str(t.as_str(), ",");
                let out = join_str("CONTENT { ", t.as_str());
                let out = join_str(out.as_str(), " }");
                proof {
                    assert(out@ =~= block_params_content_text(*p));
                }
                Ok(out)
            },
        }
    }

    /// The UPSERT statement of a block's fields; the uri and the content
    /// must both be given.
    pub fn upsert(params: &DBBlockParams) -> (r: DatabaseResult<String>)
        ensures
            params.uri is None || params.content is None ==> (r matches Err(
                DatabaseError::DbStruct(m),
            ) && m@ == crate::chunks::missing_fields_spec()),
            params.uri is Some && params.content is Some ==> (r matches Ok(t) && t@ == "UPSERT "@
                + "blocks"@ + ":"@ + params.id.0@ + " "@ + block_params_content_text(*params)
                + ";"@),
    {
        if params.uri.is_none() || params.content.is_none() {
            return Err(DatabaseError::DbStruct(
                "All fields need to be Some for a create statement".to_owned(),
            ));
        }
        let c = match DBBlock::content(OneOf::Right(params)) {
            Ok(c) => c,
            Err(e) => return Err(e),
        };
        let t = join_str("UPSERT ", DBBlock::db_id());
        let t = join_str(t.as_str(), ":");
        let t = join_str(t.as_str(), params.id.0.as_str());
        let t = join_str(t.as_str(), " ");
        let t = join_str(t.as_str(), c.as_str());
        Ok(join_str(t.as_str(), ";"))
    }
}

} // verus!
