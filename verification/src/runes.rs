//! The marks put into documents, kept by document and by line, and found
//! again by a position.

use vstd::prelude::*;

use crate::burns::BufferBurn;
use crate::lexer::Position;
use crate::text::{clone_string, decimal, decimal_string, join_str, str_eq};

verus! {

/// Why the cache could not answer.
#[derive(Debug, Clone, PartialEq, Eq)]
pub enum CacheError {
    /// A failure with no variant of its own, kept as its message.
    Undefined(String),
    NotPresent,
    NoStaticInst,
}

pub type CacheResult<T> = Result<T, CacheError>;

/// The marks on one line of a document.
pub struct LineRunes {
    pub line: u32,
    pub burns: Vec<BufferBurn>,
}

/// The marks of one document, line by line.
pub struct DocRunes {
    pub url: String,
    pub lines: Vec<LineRunes>,
}

/// The marks of every document.
pub struct GlobalRunes {
    map: Vec<DocRunes>,
}

/// The line a mark is on: that of the start of its first diagnostic.
pub open spec fn burn_line(b: BufferBurn) -> u32 {
    b.diagnostic_ranges@[0].start.line
}

/// Whether `p` falls within the characters of the mark's first diagnostic.
pub open spec fn burn_covers(b: BufferBurn, p: Position) -> bool {
    b.diagnostic_ranges@[0].start.character <= p.character
        && p.character <= b.diagnostic_ranges@[0].end.character
}

/// Whether every mark has a diagnostic.
pub open spec fn burns_ok(v: Seq<BufferBurn>) -> bool {
    forall|k: int| 0 <= k < v.len() ==> (#[trigger] v[k]).diagnostic_ranges@.len() > 0
}

pub open spec fn line_index(lines: Seq<LineRunes>, line: u32) -> Option<int> {
    if exists|i: int| 0 <= i < lines.len() && (#[trigger] lines[i]).line == line {
        Some(choose|i: int| 0 <= i < lines.len() && (#[trigger] lines[i]).line == line)
    } else {
        None
    }
}

pub open spec fn doc_index(docs: Seq<DocRunes>, url: Seq<char>) -> Option<int> {
    if exists|i: int| 0 <= i < docs.len() && (#[trigger] docs[i]).url@ == url {
        Some(choose|i: int| 0 <= i < docs.len() && (#[trigger] docs[i]).url@ == url)
    } else {
        None
    }
}

pub open spec fn lines_wf(lines: Seq<LineRunes>) -> bool {
    &&& forall|i: int, j: int|
        0 <= i < lines.len() && 0 <= j < lines.len() && i != j ==> (#[trigger] lines[i]).line
            != (#[trigger] lines[j]).line
    &&& forall|i: int| 0 <= i < lines.len() ==> burns_ok((#[trigger] lines[i]).burns@)
}

pub open spec fn docs_wf(docs: Seq<DocRunes>) -> bool {
    &&& forall|i: int, j: int|
        0 <= i < docs.len() && 0 <= j < docs.len() && i != j ==> (#[trigger] docs[i]).url@
            != (#[trigger] docs[j]).url@
    &&& forall|i: int| 0 <= i < docs.len() ==> lines_wf((#[trigger] docs[i]).lines@)
}

/// The marks on `line` in `lines`, if that line has an entry.
pub open spec fn line_burns(lines: Seq<LineRunes>, line: u32) -> Option<Seq<BufferBurn>> {
    match line_index(lines, line) {
        Some(i) => Some(lines[i].burns@),
        None => None,
    }
}

/// All marks of the lines, line by line in the order the lines were first
/// marked.
pub open spec fn flatten_lines(lines: Seq<LineRunes>) -> Seq<BufferBurn>
    decreases lines.len(),
{
    if lines.len() == 0 {
        Seq::empty()
    } else {
        flatten_lines(lines.drop_last()) + lines.last().burns@
    }
}

/// The first mark of `v` covering `p`.
pub open spec fn first_covering(v: Seq<BufferBurn>, p: Position) -> Option<int> {
    if exists|k: int| 0 <= k < v.len() && burn_covers(#[trigger] v[k], p) {
        Some(
            choose|k: int|
                0 <= k < v.len() && burn_covers(#[trigger] v[k], p) && forall|m: int|
                    0 <= m < k ==> !burn_covers(#[trigger] v[m], p),
        )
    } else {
        None
    }
}

/// `No burns on line: ` and the line number.
pub open spec fn no_burns_message(line: u32) -> Seq<char> {
    "No burns on line: "@ + decimal(line as nat)
}

pub(crate) proof fn lemma_unique_index<T>(s: Seq<T>, f: spec_fn(T) -> bool, i: int)
    requires
        0 <= i < s.len(),
        f(s[i]),
        forall|a: int, b: int| 0 <= a < s.len() && 0 <= b < s.len() && f(s[a]) && f(s[b]) ==> a == b,
    ensures
        (choose|k: int| 0 <= k < s.len() && f(s[k])) == i,
{
}

impl Default for GlobalRunes {
    fn default() -> (g: Self)
        ensures
            g.wf(),
            g.docs().len() == 0,
    {
        GlobalRunes { map: Vec::new() }
    }
}

/// A mark saved on a line whose earlier marks do not cover a position is the
/// one found at that position when it covers it.
pub proof fn lemma_saved_burn_found(earlier: Seq<BufferBurn>, burn: BufferBurn, p: Position)
    requires
        burn_covers(burn, p),
        forall|k: int| 0 <= k < earlier.len() ==> !burn_covers(#[trigger] earlier[k], p),
    ensures
        first_covering(earlier.push(burn), p) == Some(earlier.len() as int),
{
    let v = earlier.push(burn);
    let n = earlier.len() as int;
    assert(v[n] == burn);
    assert forall|m: int| 0 <= m < n implies !burn_covers(#[trigger] v[m], p) by {
        assert(v[m] == earlier[m]);
    }
    assert(burn_covers(v[n], p));
    let c = choose|c: int|
        0 <= c < v.len() && burn_covers(#[trigger] v[c], p) && forall|m: int|
            0 <= m < c ==> !burn_covers(#[trigger] v[m], p);
    assert(c == n) by {
        if c < n {
            assert(!burn_covers(v[c], p));
        }
    }
}

impl GlobalRunes {
    pub closed spec fn docs(&self) -> Seq<DocRunes> {
        self.map@
    }

    pub open spec fn wf(&self) -> bool {
        docs_wf(self.docs())
    }

    /// The marks on `line` of the document at `url`; `None` where the
    /// document or the line has no entry.
    pub open spec fn burns_at(&self, url: Seq<char>, line: u32) -> Option<Seq<BufferBurn>> {
        match doc_index(self.docs(), url) {
            Some(d) => line_burns(self.docs()[d].lines@, line),
            None => None,
        }
    }

    /// Whether the document at `url` has an entry.
    pub open spec fn has_doc(&self, url: Seq<char>) -> bool {
        doc_index(self.docs(), url) is Some
    }

    fn find_doc(&self, url: &str) -> (r: Option<usize>)
        requires
            self.wf(),
        ensures
            r is None ==> doc_index(self.docs(), url@) is None,
            r matches Some(i) ==> i < self.docs().len() && doc_index(self.docs(), url@) == Some(
                i as int,
            ),
    {
        let mut i: usize = 0;
        while i < self.map.len()
            invariant
                i <= self.map@.len(),
                docs_wf(self.map@),
                forall|j: int| 0 <= j < i ==> (#[trigger] self.map@[j]).url@ != url@,
            decreases self.map@.len() - i,
        {
            if str_eq(self.map[i].url.as_str(), url) {
                proof {
                    let k = choose|k: int|
                        0 <= k < self.map@.len() && (#[trigger] self.map@[k]).url@ == url@;
                    assert(self.map@[k].url@ == self.map@[i as int].url@);
                }
                return Some(i);
            }
            i = i + 1;
        }
        None
    }
}

fn find_line(lines: &Vec<LineRunes>, line: u32) -> (r: Option<usize>)
    requires
        lines_wf(lines@),
    ensures
        r is None ==> line_index(lines@, line) is None,
        r matches Some(i) ==> i < lines@.len() && line_index(lines@, line) == Some(i as int),
{
    let mut i: usize = 0;
    while i < lines.len()
        invariant
            i <= lines@.len(),
            lines_wf(lines@),
            forall|j: int| 0 <= j < i ==> (#[trigger] lines@[j]).line != line,
        decreases lines@.len() - i,
    {
        if lines[i].line == line {
            proof {
                let k = choose|k: int| 0 <= k < lines@.len() && (#[trigger] lines@[k]).line == line;
                assert(lines@[k].line == lines@[i as int].line);
            }
            return Some(i);
        }
        i = i + 1;
    }
    None
}

/// Appends `burn` to the marks of its line in `lines`.
fn add_to_lines(lines: &mut Vec<LineRunes>, burn: BufferBurn)
    requires
        lines_wf(old(lines)@),
        burn.diagnostic_ranges@.len() > 0,
    ensures
        lines_wf(final(lines)@),
        line_burns(final(lines)@, burn_line(burn)) == Some(
            match line_burns(old(lines)@, burn_line(burn)) {
                Some(v) => v,
                None => Seq::<BufferBurn>::empty(),
            }.push(burn),
        ),
        forall|l: u32|
            l != burn_line(burn) ==> #[trigger] line_burns(final(lines)@, l) == line_burns(
                old(lines)@,
                l,
            ),
{
    let line = burn.range().start.line;
    let ghost before = lines@;
    match find_line(lines, line) {
        Some(i) => {
            let mut entry = lines.remove(i);
            let ghost old_burns = entry.burns@;
            entry.burns.push(burn);
            let ghost new_entry_line = entry.line;
            lines.insert(i, entry);
            proof {
                let after = lines@;
                assert(after =~= before.update(i as int, after[i as int]));
                assert(after[i as int].line == line);
                assert forall|a: int, b: int|
                    0 <= a < after.len() && 0 <= b < after.len() && a != b implies (#[trigger] after[
                    a]).line != (#[trigger] after[b]).line by {
                    assert(before[a].line != before[b].line);
                }
                assert forall|k: int| 0 <= k < after.len() implies burns_ok(
                    (#[trigger] after[k]).burns@,
                ) by {
                    if k == i {
                        assert forall|m: int| 0 <= m < after[k].burns@.len() implies (
                        #[trigger] after[k].burns@[m]).diagnostic_ranges@.len() > 0 by {
                            if m < old_burns.len() {
                                assert(after[k].burns@[m] == old_burns[m]);
                            }
                        }
                    } else {
                        assert(after[k] == before[k]);
                    }
                }
                assert(line_index(after, line) == Some(i as int)) by {
                    lemma_unique_index(after, |x: LineRunes| x.line == line, i as int);
                }
                assert forall|l: u32| l != line implies #[trigger] line_burns(after, l)
                    == line_burns(before, l) by {
                    if exists|k: int| 0 <= k < after.len() && (#[trigger] after[k]).line == l {
                        let k = choose|k: int| 0 <= k < after.len() && (#[trigger] after[k]).line == l;
                        assert(k != i);
                        assert(before[k] == after[k]);
                        lemma_unique_index(after, |x: LineRunes| x.line == l, k);
                        lemma_unique_index(before, |x: LineRunes| x.line == l, k);
                    } else {
                        assert forall|k: int| 0 <= k < before.len() implies (#[trigger] before[k]).line != l by {
                            if k != i {
                                assert(before[k] == after[k]);
                            }
                        }
                    }
                }
            }
        },
        None => {
            let burns: Vec<BufferBurn> = vec![burn];
            lines.push(LineRunes { line, burns });
            proof {
                let after = lines@;
                let n = before.len() as int;
                assert(after[n].line == line);
                assert forall|k: int| 0 <= k < n implies after[k] == before[k] by {}
                assert forall|a: int, b: int|
                    0 <= a < after.len() && 0 <= b < after.len() && a != b implies (#[trigger] after[
                    a]).line != (#[trigger] after[b]).line by {
                    if a < n && b < n {
                        assert(before[a].line != before[b].line);
                    }
                }
                assert forall|k: int| 0 <= k < after.len() implies burns_ok(
                    (#[trigger] after[k]).burns@,
                ) by {
                    if k == n {
                        assert(after[k].burns@ =~= seq![burn]);
                    }
                }
                assert(line_index(after, line) == Some(n)) by {
                    lemma_unique_index(after, |x: LineRunes| x.line == line, n);
                }
                assert(after[n].burns@ =~= Seq::<BufferBurn>::empty().push(burn));
                assert forall|l: u32| l != line implies #[trigger] line_burns(after, l)
                    == line_burns(before, l) by {
                    if exists|k: int| 0 <= k < before.len() && (#[trigger] before[k]).line == l {
                        let k = choose|k: int| 0 <= k < before.len() && (#[trigger] before[k]).line == l;
                        lemma_unique_index(after, |x: LineRunes| x.line == l, k);
                        lemma_unique_index(before, |x: LineRunes| x.line == l, k);
                    } else {
                        assert forall|k: int| 0 <= k < after.len() implies (#[trigger] after[k]).line != l by {
                            if k < n {
                                assert(before[k] == after[k]);
                            }
                        }
                    }
                }
            }
        },
    }
}

impl GlobalRunes {
    /// Keeps `burn` with the marks of its line in the document at `url`.
    pub fn save_burn(&mut self, url: &str, burn: BufferBurn) -> (r: CacheResult<()>)
        requires
            old(self).wf(),
            burn.diagnostic_ranges@.len() > 0,
        ensures
            r is Ok,
            final(self).wf(),
            final(self).burns_at(url@, burn_line(burn)) == Some(
                match old(self).burns_at(url@, burn_line(burn)) {
                    Some(v) => v,
                    None => Seq::<BufferBurn>::empty(),
                }.push(burn),
            ),
            forall|u: Seq<char>, l: u32|
                (u != url@ || l != burn_line(burn)) ==> #[trigger] final(self).burns_at(u, l)
                    == old(self).burns_at(u, l),
            forall|u: Seq<char>| #[trigger] final(self).has_doc(u) == (old(self).has_doc(u) || u == url@),
    {
        let ghost before = self.map@;
        match self.find_doc(url) {
            Some(i) => {
                let mut doc = self.map.remove(i);
                let ghost old_lines = doc.lines@;
                add_to_lines(&mut doc.lines, burn);
                self.map.insert(i, doc);
                proof {
                    let after = self.map@;
                    assert(after =~= before.update(i as int, after[i as int]));
                    assert(after[i as int].url@ == url@);
                    assert forall|a: int, b: int|
                        0 <= a < after.len() && 0 <= b < after.len() && a != b implies (
                        #[trigger] after[a]).url@ != (#[trigger] after[b]).url@ by {
                        assert(before[a].url@ != before[b].url@);
                    }
                    assert forall|k: int| 0 <= k < after.len() implies lines_wf(
                        (#[trigger] after[k]).lines@,
                    ) by {
                        if k != i {
                            assert(after[k] == before[k]);
                        }
                    }
                    assert(doc_index(after, url@) == Some(i as int)) by {
                        lemma_unique_index(after, |x: DocRunes| x.url@ == url@, i as int);
                    }
                    assert forall|u: Seq<char>| u != url@ implies #[trigger] doc_index(after, u)
                        == doc_index(before, u) && (doc_index(after, u) matches Some(k) ==> after[k]
                        == before[k]) by {
                        if exists|k: int| 0 <= k < after.len() && (#[trigger] after[k]).url@ == u {
                            let k = choose|k: int|
                                0 <= k < after.len() && (#[trigger] after[k]).url@ == u;
                            assert(k != i);
                            assert(before[k] == after[k]);
                            lemma_unique_index(after, |x: DocRunes| x.url@ == u, k);
                            lemma_unique_index(before, |x: DocRunes| x.url@ == u, k);
                        } else {
                            assert forall|k: int| 0 <= k < before.len() implies (
                            #[trigger] before[k]).url@ != u by {
                                if k != i {
                                    assert(before[k] == after[k]);
                                }
                            }
                        }
                    }
                    assert forall|u: Seq<char>, l: u32|
                        (u != url@ || l != burn_line(burn)) implies #[trigger] self.burns_at(u, l)
                        == old(self).burns_at(u, l) by {
                        if u != url@ {
                            assert(doc_index(after, u) == doc_index(before, u));
                        }
                    }
                    assert forall|u: Seq<char>| #[trigger] self.has_doc(u) == (old(self).has_doc(u)
                        || u == url@) by {
                        if u != url@ {
                            assert(doc_index(after, u) == doc_index(before, u));
                        }
                    }
                }
            },
            None => {
                let mut lines: Vec<LineRunes> = Vec::new();
                add_to_lines(&mut lines, burn);
                self.map.push(DocRunes { url: url.to_owned(), lines });
                proof {
                    let after = self.map@;
                    let n = before.len() as int;
                    assert forall|k: int| 0 <= k < n implies after[k] == before[k] by {}
                    assert(after[n].url@ == url@);
                    assert forall|a: int, b: int|
                        0 <= a < after.len() && 0 <= b < after.len() && a != b implies (
                        #[trigger] after[a]).url@ != (#[trigger] after[b]).url@ by {
                        if a < n && b < n {
                            assert(before[a].url@ != before[b].url@);
                        }
                    }
                    assert forall|k: int| 0 <= k < after.len() implies lines_wf(
                        (#[trigger] after[k]).lines@,
                    ) by {}
                    assert(doc_index(after, url@) == Some(n)) by {
                        lemma_unique_index(after, |x: DocRunes| x.url@ == url@, n);
                    }
                    assert(line_burns(Seq::<LineRunes>::empty(), burn_line(burn)) is None);
                    assert forall|u: Seq<char>| u != url@ implies #[trigger] doc_index(after, u)
                        == doc_index(before, u) by {
                        if exists|k: int| 0 <= k < before.len() && (#[trigger] before[k]).url@ == u {
                            let k = choose|k: int|
                                0 <= k < before.len() && (#[trigger] before[k]).url@ == u;
                            lemma_unique_index(after, |x: DocRunes| x.url@ == u, k);
                            lemma_unique_index(before, |x: DocRunes| x.url@ == u, k);
                        } else {
                            assert forall|k: int| 0 <= k < after.len() implies (
                            #[trigger] after[k]).url@ != u by {
                                if k < n {
                                    assert(before[k] == after[k]);
                                }
                            }
                        }
                    }
                    assert forall|u: Seq<char>, l: u32|
                        (u != url@ || l != burn_line(burn)) implies #[trigger] self.burns_at(u, l)
                        == old(self).burns_at(u, l) by {
                        if u != url@ {
                            assert(doc_index(after, u) == doc_index(before, u));
                            if let Some(k) = doc_index(before, u) {
                                assert(after[k] == before[k]);
                            }
                        } else {
                            assert(line_index(Seq::<LineRunes>::empty(), l) is None);
                        }
                    }
                    assert forall|u: Seq<char>| #[trigger] self.has_doc(u) == (old(self).has_doc(u)
                        || u == url@) by {
                        if u != url@ {
                            assert(doc_index(after, u) == doc_index(before, u));
                        }
                    }
                }
            },
        }
        Ok(())
    }

    /// The hover text of the first mark on the position's line whose first
    /// diagnostic covers the position's character. A document without marks,
    /// or no covering mark, is `NotPresent`; a line without marks is named
    /// in the error.
    pub fn get_burn_by_position(&self, url: &str, position: Position) -> (r: CacheResult<String>)
        requires
            self.wf(),
        ensures
            !self.has_doc(url@) ==> r == CacheResult::<String>::Err(CacheError::NotPresent),
            self.has_doc(url@) && self.burns_at(url@, position.line) is None ==> (r matches Err(
                CacheError::Undefined(m),
            ) && m@ == no_burns_message(position.line)),
            self.burns_at(url@, position.line) matches Some(v) ==> match first_covering(
                v,
                position,
            ) {
                Some(k) => r matches Ok(h) && h@ == v[k].hover_contents@,
                None => r == CacheResult::<String>::Err(CacheError::NotPresent),
            },
    {
        let d = match self.find_doc(url) {
            Some(d) => d,
            None => return Err(CacheError::NotPresent),
        };
        let doc = &self.map[d];
        proof {
            assert(lines_wf(doc.lines@));
        }
        let l = match find_line(&doc.lines, position.line) {
            Some(l) => l,
            None => {
                let m = join_str("No burns on line: ", decimal_string(position.line as usize).as_str());
                return Err(CacheError::Undefined(m));
            },
        };
        let burns = &doc.lines[l].burns;
        proof {
            assert(burns_ok(burns@));
            assert(self.has_doc(url@));
            assert(self.burns_at(url@, position.line) == Some(burns@));
        }
        let mut k: usize = 0;
        while k < burns.len()
            invariant
                k <= burns@.len(),
                burns_ok(burns@),
                self.has_doc(url@),
                self.burns_at(url@, position.line) == Some(burns@),
                forall|m: int| 0 <= m < k ==> !burn_covers(#[trigger] burns@[m], position),
            decreases burns@.len() - k,
        {
            let range = burns[k].range();
            if position.character >= range.start.character && position.character <= range.end.character {
                proof {
                    let v = burns@;
                    assert(burn_covers(v[k as int], position));
                    let c = choose|c: int|
                        0 <= c < v.len() && burn_covers(#[trigger] v[c], position) && forall|m: int|
                            0 <= m < c ==> !burn_covers(#[trigger] v[m], position);
                    assert(c == k) by {
                        if c < k {
                            assert(!burn_covers(v[c], position));
                        }
                        if c > k {
                            assert(!burn_covers(v[k as int], position));
                        }
                    }
                }
                return Ok(clone_string(&burns[k].hover_contents));
            }
            k = k + 1;
        }
        Err(CacheError::NotPresent)
    }

    /// Every mark of the document at `url`, line by line.
    pub fn all_burns_on_doc(&self, url: &str) -> (r: CacheResult<Vec<&BufferBurn>>)
        requires
            self.wf(),
        ensures
            !self.has_doc(url@) ==> (r matches Err(e) && e == CacheError::NotPresent),
            self.has_doc(url@) ==> (r matches Ok(v) && v@.map_values(|b: &BufferBurn| *b)
                == flatten_lines(self.docs()[doc_index(self.docs(), url@).unwrap()].lines@)),
    {
        let d = match self.find_doc(url) {
            Some(d) => d,
            None => return Err(CacheError::NotPresent),
        };
        let lines = &self.map[d].lines;
        let mut out: Vec<&BufferBurn> = Vec::new();
        let mut i: usize = 0;
        while i < lines.len()
            invariant
                i <= lines@.len(),
                out@.map_values(|b: &BufferBurn| *b) == flatten_lines(lines@.take(i as int)),
            decreases lines@.len() - i,
        {
            let burns = &lines[i].burns;
            let mut k: usize = 0;
            let ghost base = out@.map_values(|b: &BufferBurn| *b);
            while k < burns.len()
                invariant
                    k <= burns@.len(),
                    out@.map_values(|b: &BufferBurn| *b) == base + burns@.take(k as int),
                decreases burns@.len() - k,
            {
                let ghost prev = out@;
                out.push(&burns[k]);
                proof {
                    assert(out@.map_values(|b: &BufferBurn| *b) =~= prev.map_values(
                        |b: &BufferBurn| *b,
                    ).push(burns@[k as int]));
                    assert(burns@.take(k + 1) =~= burns@.take(k as int).push(burns@[k as int]));
                }
                k = k + 1;
            }
            proof {
                assert(burns@.take(burns@.len() as int) =~= burns@);
                assert(lines@.take(i + 1).drop_last() =~= lines@.take(i as int));
            }
            i = i + 1;
        }
        assert(lines@.take(lines@.len() as int) =~= lines@);
        Ok(out)
    }
}

} // verus!
