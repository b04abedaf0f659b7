//! The open documents: each document's text and, line by line, the
//! characters typed into it since it was opened.

use vstd::hash_map::HashMapWithView;
use vstd::prelude::*;

use crate::lexer::Range;
use crate::text::{chars_of, clone_string, split_newline_pieces, split_newlines, str_eq, views};

verus! {

broadcast use vstd::std_specs::hash::group_hash_axioms;

/// A character typed at a character index of a line.
#[derive(Debug, Clone, Copy, PartialEq, Eq, Structural)]
pub struct DocumentChange(pub u32, pub char);

/// A change to a document's text: the replaced range, if the client sent
/// one, and the new text.
#[derive(Debug, Clone, PartialEq, Eq)]
pub struct ChangeEvent {
    pub range: Option<Range>,
    pub range_length: Option<u32>,
    pub text: String,
}

/// An open document.
pub struct Document {
    url: String,
    current_text: String,
    pub changes: HashMapWithView<u32, Vec<DocumentChange>>,
}

/// Character indices and characters of changes.
pub open spec fn change_views(v: Seq<DocumentChange>) -> Seq<(int, char)> {
    v.map_values(|c: DocumentChange| (c.0 as int, c.1))
}

proof fn lemma_change_views_push(v: Seq<DocumentChange>, c: DocumentChange)
    ensures
        change_views(v.push(c)) == change_views(v).push((c.0 as int, c.1)),
{
    let a = change_views(v.push(c));
    let b = change_views(v).push((c.0 as int, c.1));
    assert(a.len() == b.len());
    assert forall|i: int| 0 <= i < a.len() implies a[i] == b[i] by {
        if i < v.len() {
            assert(v.push(c)[i] == v[i]);
        }
    }
    assert(a =~= b);
}

/// The changes recorded for `line` in `m`; none where it has no entry.
pub open spec fn changes_on(m: Map<u32, Vec<DocumentChange>>, line: u32) -> Seq<(int, char)> {
    if m.contains_key(line) {
        change_views(m[line]@)
    } else {
        Seq::empty()
    }
}

/// The changes of the characters of `piece`, the first at `start_char`.
pub open spec fn piece_changes(piece: Seq<char>, start_char: int) -> Seq<(int, char)> {
    Seq::new(piece.len(), |j: int| (start_char + j, piece[j]))
}

/// Whether every line number and character index that an edit of `text` at
/// `start_line` and `start_char` gives fits in a `u32`.
pub open spec fn edit_fits(text: Seq<char>, start_line: u32, start_char: u32) -> bool {
    let pieces = split_newlines(text);
    &&& start_line + pieces.len() - 1 <= u32::MAX
    &&& forall|i: int|
        0 <= i < pieces.len() ==> start_char + (#[trigger] pieces[i]).len() - 1 <= u32::MAX
}

/// What `update` records: the pieces of the new text between line feeds, the
/// `i`th appended to the changes of line `start_line + i`, each character at
/// its index counted from `start_char`. Every line of the edit gets an entry,
/// empty pieces included.
pub open spec fn recorded(
    old: Map<u32, Vec<DocumentChange>>,
    new: Map<u32, Vec<DocumentChange>>,
    text: Seq<char>,
    start_line: u32,
    start_char: u32,
) -> bool {
    let pieces = split_newlines(text);
    &&& forall|line: u32|
        #![trigger new.contains_key(line)]
        new.contains_key(line) <==> (old.contains_key(line) || (start_line <= line
            < start_line + pieces.len()))
    &&& forall|line: u32|
        #![trigger changes_on(new, line)]
        changes_on(new, line) == if start_line <= line < start_line + pieces.len() {
            changes_on(old, line) + piece_changes(pieces[line - start_line], start_char as int)
        } else {
            changes_on(old, line)
        }
}

impl ChangeEvent {
    /// Whether every line number and character index that recording this
    /// edit gives fits in a `u32`.
    pub fn fits(&self) -> (b: bool)
        ensures
            b == (self.range matches Some(r) ==> edit_fits(
                self.text@,
                r.start.line,
                r.start.character,
            )),
    {
        match self.range {
            None => true,
            Some(r) => {
                let pieces = split_newline_pieces(self.text.as_str());
                let ghost ps = split_newlines(self.text@);
                assert(pieces@.len() == ps.len());
                proof {
                    crate::text::lemma_split_newlines_nonempty(self.text@);
                }
                if pieces.len() - 1 > (u32::MAX - r.start.line) as usize {
                    return false;
                }
                let mut i: usize = 0;
                while i < pieces.len()
                    invariant
                        i <= pieces@.len(),
                        ps == split_newlines(self.text@),
                        self.range == Some(r),
                        views(pieces@) == ps,
                        pieces@.len() == ps.len(),
                        forall|k: int|
                            0 <= k < i ==> r.start.character + (#[trigger] ps[k]).len() - 1
                                <= u32::MAX,
                    decreases pieces@.len() - i,
                {
                    let n = chars_of(pieces[i].as_str()).len();
                    assert(views(pieces@)[i as int] == ps[i as int]);
                    if n > 0 && n - 1 > (u32::MAX - r.start.character) as usize {
                        proof {
                            assert(n == ps[i as int].len());
                            assert(!(r.start.character + (ps[i as int]).len() - 1 <= u32::MAX));
                        }
                        return false;
                    }
                    i = i + 1;
                }
                true
            },
        }
    }
}

impl Document {
    /// A document opened at `url` with `current_text`, with no changes.
    pub fn from_url_and_text(url: &str, current_text: String) -> (d: Document)
        ensures
            d.url() == url@,
            d.current_text() == current_text@,
            d.changes_view() == Map::<u32, Vec<DocumentChange>>::empty(),
    {
        Document { url: url.to_owned(), current_text, changes: HashMapWithView::new() }
    }

    pub closed spec fn url(&self) -> Seq<char> {
        self.url@
    }

    pub closed spec fn current_text(&self) -> Seq<char> {
        self.current_text@
    }

    /// The recorded changes, by line.
    pub closed spec fn changes_view(&self) -> Map<u32, Vec<DocumentChange>> {
        self.changes@
    }

    pub fn url_str(&self) -> (r: &str)
        ensures
            r@ == self.url(),
    {
        self.url.as_str()
    }

    pub fn current_text_str(&self) -> (r: &str)
        ensures
            r@ == self.current_text(),
    {
        self.current_text.as_str()
    }

    /// Records the characters of an edit with a range; an edit without one
    /// changes nothing.
    pub fn update(&mut self, event: &ChangeEvent)
        requires
            event.range matches Some(r) ==> edit_fits(event.text@, r.start.line, r.start.character),
        ensures
            final(self).url() == old(self).url(),
            final(self).current_text() == old(self).current_text(),
            event.range is None ==> final(self).changes_view() == old(self).changes_view(),
            event.range matches Some(r) ==> recorded(
                old(self).changes_view(),
                final(self).changes_view(),
                event.text@,
                r.start.line,
                r.start.character,
            ),
    {
        if let Some(range) = event.range {
            let texts = split_newline_pieces(event.text.as_str());
            let start_char = range.start.character;
            let start_line = range.start.line;
            let ghost pieces = split_newlines(event.text@);
            let ghost old_changes = self.changes@;
            assert(texts@.len() == views(texts@).len());
            let mut line_number: usize = 0;
            while line_number < texts.len()
                invariant
                    pieces == split_newlines(event.text@),
                    views(texts@) == pieces,
                    texts@.len() == pieces.len(),
                    line_number <= pieces.len(),
                    edit_fits(event.text@, start_line, start_char),
                    self.url@ == old(self).url@,
                    self.current_text@ == old(self).current_text@,
                    old_changes == old(self).changes@,
                    forall|line: u32|
                        #![trigger self.changes@.contains_key(line)]
                        self.changes@.contains_key(line) <==> (old_changes.contains_key(line) || (
                        start_line <= line < start_line + line_number)),
                    forall|line: u32|
                        #![trigger changes_on(self.changes@, line)]
                        changes_on(self.changes@, line) == if start_line <= line < start_line
                            + line_number {
                            changes_on(old_changes, line) + piece_changes(
                                pieces[line - start_line],
                                start_char as int,
                            )
                        } else {
                            changes_on(old_changes, line)
                        },
                decreases pieces.len() - line_number,
            {
                assert(views(texts@)[line_number as int] == pieces[line_number as int]);
                assert(line_number <= u32::MAX);
                let key: u32 = start_line + line_number as u32;
                let t = chars_of(texts[line_number].as_str());
                assert(t@ == pieces[line_number as int]);
                assert(start_char + pieces[line_number as int].len() - 1 <= u32::MAX);
                let ghost pre_map = self.changes@;
                assert(changes_on(pre_map, key) == changes_on(old_changes, key));
                let mut line_changes: Vec<DocumentChange> = match self.changes.remove(&key) {
                    Some(v) => v,
                    None => Vec::new(),
                };
                let ghost before = change_views(line_changes@);
                assert(before == changes_on(old_changes, key));
                let mut char_idx: usize = 0;
                while char_idx < t.len()
                    invariant
                        char_idx <= t@.len(),
                        t@ == pieces[line_number as int],
                        start_char + t@.len() - 1 <= u32::MAX,
                        change_views(line_changes@) == before + piece_changes(t@, start_char as int).take(
                            char_idx as int,
                        ),
                    decreases t@.len() - char_idx,
                {
                    assert(char_idx <= u32::MAX);
                    let at: u32 = start_char + char_idx as u32;
                    let ghost prev = line_changes@;
                    let ch = DocumentChange(at, t[char_idx]);
                    line_changes.push(ch);
                    assert(line_changes@ == prev.push(ch));
                    proof {
                        lemma_change_views_push(prev, ch);
                    }
                    char_idx = char_idx + 1;
                    assert(change_views(line_changes@) =~= before + piece_changes(t@, start_char as int).take(
                        char_idx as int,
                    ));
                }
                assert(piece_changes(t@, start_char as int).take(t@.len() as int) =~= piece_changes(
                    t@,
                    start_char as int,
                ));
                let ghost added = change_views(line_changes@);
                self.changes.insert(key, line_changes);
                proof {
                    assert(added == changes_on(old_changes, key) + piece_changes(
                        pieces[line_number as int],
                        start_char as int,
                    ));
                    assert forall|line: u32|
                        #![trigger changes_on(self.changes@, line)]
                        changes_on(self.changes@, line) == if start_line <= line < start_line
                            + line_number + 1 {
                            changes_on(old_changes, line) + piece_changes(
                                pieces[line - start_line],
                                start_char as int,
                            )
                        } else {
                            changes_on(old_changes, line)
                        } by {
                        if line == key {
                            assert(changes_on(self.changes@, line) == added);
                        } else {
                            assert(changes_on(self.changes@, line) == changes_on(pre_map, line));
                        }
                    }
                    assert forall|line: u32|
                        #![trigger self.changes@.contains_key(line)]
                        self.changes@.contains_key(line) <==> (old_changes.contains_key(line) || (
                        start_line <= line < start_line + line_number + 1)) by {
                        if line != key {
                            assert(self.changes@.contains_key(line) == pre_map.contains_key(line));
                        }
                    }
                }
                line_number = line_number + 1;
            }
        }
    }
}

/// Why a document could not be changed.
#[derive(Debug, Clone, PartialEq, Eq)]
pub enum DocStoreError {
    /// No document is open at the address.
    NoDocument(String),
}

/// The open documents, each at its own address.
pub struct DocumentStore {
    docs: Vec<Document>,
}

/// The index of the document at `url` in `docs`, if any.
pub open spec fn index_of(docs: Seq<Document>, url: Seq<char>) -> Option<int> {
    if exists|i: int| 0 <= i < docs.len() && (#[trigger] docs[i]).url() == url {
        Some(choose|i: int| 0 <= i < docs.len() && (#[trigger] docs[i]).url() == url)
    } else {
        None
    }
}

/// No two documents share an address.
pub open spec fn unique_urls(docs: Seq<Document>) -> bool {
    forall|i: int, j: int|
        0 <= i < docs.len() && 0 <= j < docs.len() && i != j ==> (#[trigger] docs[i]).url()
            != (#[trigger] docs[j]).url()
}

/// An empty store of documents.
pub fn init_doc_store() -> (s: DocumentStore)
    ensures
        s.wf(),
        s.docs().len() == 0,
{
    DocumentStore { docs: Vec::new() }
}

impl DocumentStore {
    pub closed spec fn docs(&self) -> Seq<Document> {
        self.docs@
    }

    pub open spec fn wf(&self) -> bool {
        unique_urls(self.docs())
    }

    /// The document at `url`, if one is open there.
    pub open spec fn lookup(&self, url: Seq<char>) -> Option<Document> {
        match index_of(self.docs(), url) {
            Some(i) => Some(self.docs()[i]),
            None => None,
        }
    }

    fn find(&self, url: &str) -> (r: Option<usize>)
        requires
            self.wf(),
        ensures
            r is None ==> index_of(self.docs(), url@) is None,
            r matches Some(i) ==> index_of(self.docs(), url@) == Some(i as int) && i
                < self.docs().len(),
    {
        let mut i: usize = 0;
        while i < self.docs.len()
            invariant
                i <= self.docs@.len(),
                unique_urls(self.docs@),
                forall|j: int| 0 <= j < i ==> (#[trigger] self.docs@[j]).url() != url@,
            decreases self.docs@.len() - i,
        {
            if str_eq(self.docs[i].url.as_str(), url) {
                proof {
                    assert(self.docs@[i as int].url() == url@);
                    let k = choose|k: int|
                        0 <= k < self.docs@.len() && (#[trigger] self.docs@[k]).url() == url@;
                    assert(k == i);
                }
                return Some(i);
            }
            i = i + 1;
        }
        None
    }

    /// Opens `doc`, replacing a document open at the same address.
    pub fn insert(&mut self, doc: Document)
        requires
            old(self).wf(),
        ensures
            final(self).wf(),
            final(self).lookup(doc.url()) == Some(doc),
            forall|u: Seq<char>| u != doc.url() ==> final(self).lookup(u) == old(self).lookup(u),
    {
        let ghost u = doc.url();
        match self.find(doc.url.as_str()) {
            Some(i) => {
                let ghost before = self.docs@;
                self.docs.remove(i);
                self.docs.insert(i, doc);
                proof {
                    assert(self.docs@ =~= before.update(i as int, doc));
                    lemma_lookup_update(before, i as int, doc);
                }
            },
            None => {
                let ghost before = self.docs@;
                self.docs.push(doc);
                proof {
                    lemma_lookup_push(before, doc);
                }
            },
        }
    }

    /// The current text of the document at `uri`.
    pub fn get_text_document_current(&self, uri: &str) -> (r: Option<String>)
        requires
            self.wf(),
        ensures
            r is None <==> self.lookup(uri@) is None,
            r matches Some(t) ==> t@ == self.lookup(uri@).unwrap().current_text(),
    {
        match self.find(uri) {
            Some(i) => Some(clone_string(&self.docs[i].current_text)),
            None => None,
        }
    }

    /// The document at `uri`.
    pub fn get_text_document(&self, uri: &str) -> (r: Option<&Document>)
        requires
            self.wf(),
        ensures
            r is None <==> self.lookup(uri@) is None,
            r matches Some(d) ==> self.lookup(uri@) == Some(*d),
    {
        match self.find(uri) {
            Some(i) => Some(&self.docs[i]),
            None => None,
        }
    }

    /// Sets the current text of the document at `uri`; there must be one.
    pub fn set_doc_current(&mut self, uri: &str, current: &str) -> (r: Result<(), DocStoreError>)
        requires
            old(self).wf(),
        ensures
            final(self).wf(),
            old(self).lookup(uri@) is None ==> (r matches Err(DocStoreError::NoDocument(u)) && u@
                == uri@ && final(self).docs() == old(self).docs()),
            old(self).lookup(uri@) matches Some(d) ==> r is Ok && (final(self).lookup(uri@) matches Some(
                n,
            ) && n.current_text() == current@ && n.url() == d.url() && n.changes_view() == d.changes_view()),
            forall|u: Seq<char>| u != uri@ ==> final(self).lookup(u) == old(self).lookup(u),
    {
        match self.find(uri) {
            Some(i) => {
                let ghost before = self.docs@;
                let mut d = self.docs.remove(i);
                d.current_text = current.to_owned();
                self.docs.insert(i, d);
                proof {
                    assert(self.docs@ =~= before.update(i as int, d));
                    lemma_lookup_update(before, i as int, d);
                }
                Ok(())
            },
            None => Err(DocStoreError::NoDocument(uri.to_owned())),
        }
    }

    /// Records an edit of the document at `uri`; there must be one.
    pub fn update_doc_store(&mut self, uri: &str, change: &ChangeEvent) -> (r: Result<
        (),
        DocStoreError,
    >)
        requires
            old(self).wf(),
            change.range matches Some(rg) ==> edit_fits(
                change.text@,
                rg.start.line,
                rg.start.character,
            ),
        ensures
            final(self).wf(),
            old(self).lookup(uri@) is None ==> (r matches Err(DocStoreError::NoDocument(u)) && u@
                == uri@ && final(self).docs() == old(self).docs()),
            old(self).lookup(uri@) matches Some(d) ==> r is Ok && (final(self).lookup(uri@) matches Some(
                n,
            ) && n.url() == d.url() && n.current_text() == d.current_text() && (change.range is None
                ==> n.changes_view() == d.changes_view()) && (change.range matches Some(rg) ==> recorded(
                d.changes_view(),
                n.changes_view(),
                change.text@,
                rg.start.line,
                rg.start.character,
            ))),
            forall|u: Seq<char>| u != uri@ ==> final(self).lookup(u) == old(self).lookup(u),
    {
        match self.find(uri) {
            Some(i) => {
                let ghost before = self.docs@;
                let mut d = self.docs.remove(i);
                d.update(change);
                self.docs.insert(i, d);
                proof {
                    assert(self.docs@ =~= before.update(i as int, d));
                    lemma_lookup_update(before, i as int, d);
                }
                Ok(())
            },
            None => Err(DocStoreError::NoDocument(uri.to_owned())),
        }
    }
}

proof fn lemma_lookup_update(docs: Seq<Document>, i: int, d: Document)
    requires
        unique_urls(docs),
        0 <= i < docs.len(),
        d.url() == docs[i].url(),
    ensures
        unique_urls(docs.update(i, d)),
        index_of(docs.update(i, d), d.url()) == Some(i),
        forall|u: Seq<char>|
            u != d.url() ==> index_of(docs.update(i, d), u) == index_of(docs, u),
        forall|u: Seq<char>|
            #![trigger index_of(docs, u)]
            u != d.url() ==> match index_of(docs, u) {
                Some(k) => docs.update(i, d)[k] == docs[k],
                None => true,
            },
{
    let nd = docs.update(i, d);
    assert forall|a: int, b: int|
        0 <= a < nd.len() && 0 <= b < nd.len() && a != b implies (#[trigger] nd[a]).url()
        != (#[trigger] nd[b]).url() by {
        assert(docs[a].url() != docs[b].url());
    }
    assert(nd[i].url() == d.url());
    assert(index_of(nd, d.url()) == Some(i)) by {
        let a = choose|k: int| 0 <= k < nd.len() && (#[trigger] nd[k]).url() == d.url();
        assert(nd[i].url() == d.url());
    }
    assert forall|u: Seq<char>| u != d.url() implies index_of(nd, u) == index_of(docs, u) by {
        if exists|k: int| 0 <= k < nd.len() && (#[trigger] nd[k]).url() == u {
            let a = choose|k: int| 0 <= k < nd.len() && (#[trigger] nd[k]).url() == u;
            assert(a != i);
            assert(docs[a].url() == u);
            let b = choose|k: int| 0 <= k < docs.len() && (#[trigger] docs[k]).url() == u;
            assert(docs[b].url() == u);
            assert(a == b);
        } else {
            assert forall|k: int| 0 <= k < docs.len() implies (#[trigger] docs[k]).url() != u by {
                if k != i {
                    assert(nd[k] == docs[k]);
                }
            }
        }
    }
}

proof fn lemma_lookup_push(docs: Seq<Document>, d: Document)
    requires
        unique_urls(docs),
        index_of(docs, d.url()) is None,
    ensures
        unique_urls(docs.push(d)),
        index_of(docs.push(d), d.url()) == Some(docs.len() as int),
        forall|u: Seq<char>| u != d.url() ==> index_of(docs.push(d), u) == index_of(docs, u),
{
    let nd = docs.push(d);
    assert(nd[docs.len() as int] == d);
    assert forall|a: int, b: int|
        0 <= a < nd.len() && 0 <= b < nd.len() && a != b implies (#[trigger] nd[a]).url()
        != (#[trigger] nd[b]).url() by {
        if a < docs.len() && b < docs.len() {
            assert(docs[a].url() != docs[b].url());
        } else if a < docs.len() {
            assert(nd[a] == docs[a]);
        } else {
            assert(nd[b] == docs[b]);
        }
    }
    assert(index_of(nd, d.url()) == Some(docs.len() as int)) by {
        let a = choose|k: int| 0 <= k < nd.len() && (#[trigger] nd[k]).url() == d.url();
        if a < docs.len() {
            assert(nd[a] == docs[a]);
        }
    }
    assert forall|u: Seq<char>| u != d.url() implies index_of(nd, u) == index_of(docs, u) by {
        if exists|k: int| 0 <= k < nd.len() && (#[trigger] nd[k]).url() == u {
            let a = choose|k: int| 0 <= k < nd.len() && (#[trigger] nd[k]).url() == u;
            assert(a < docs.len());
            assert(nd[a] == docs[a]);
            let b = choose|k: int| 0 <= k < docs.len() && (#[trigger] docs[k]).url() == u;
            assert(docs[b].url() == u);
            assert(a == b);
        } else {
            assert forall|k: int| 0 <= k < docs.len() implies (#[trigger] docs[k]).url() != u by {
                assert(nd[k] == docs[k]);
            }
        }
    }
}

} // verus!
