//! The burns of every document, at most one per line: an action found in the
//! text or the mark left where it was answered, each found again by a
//! position.

use vstd::prelude::*;

use crate::actions::ActionBurn;
use crate::burns::EchoBurn;
use crate::lexer::{Position, Range};
use crate::runes::lemma_unique_index;
use crate::text::{clone_string, str_eq};

verus! {

/// A burn: an action waiting to run, or the mark an answered action left.
#[derive(Debug, Clone, PartialEq, Eq)]
pub enum Burn {
    Action(ActionBurn),
    Echo(EchoBurn),
}

/// The range a burn covers.
pub open spec fn burn_range(b: Burn) -> Range {
    match b {
        Burn::Action(a) => a.range,
        Burn::Echo(e) => e.range,
    }
}

impl Burn {
    /// The range the burn covers.
    pub fn range(&self) -> (r: Range)
        ensures
            r == burn_range(*self),
    {
        match self {
            Burn::Action(a) => a.range,
            Burn::Echo(e) => e.range,
        }
    }

    /// The hover text of a mark; an action has none.
    pub fn hover_contents(&self) -> (r: Option<String>)
        ensures
            match self {
                Burn::Echo(e) => r matches Some(h) && h@ == e.hover_contents@,
                Burn::Action(_) => r is None,
            },
    {
        match self {
            Burn::Echo(e) => Some(clone_string(&e.hover_contents)),
            Burn::Action(_) => None,
        }
    }

    /// The placeholder of a mark; an action has none.
    pub fn echo_placeholder(&self) -> (r: Option<String>)
        ensures
            match self {
                Burn::Echo(e) => r matches Some(p) && p@ == e.content@,
                Burn::Action(_) => r is None,
            },
    {
        match self {
            Burn::Echo(e) => Some(clone_string(&e.content)),
            Burn::Action(_) => None,
        }
    }
}

impl From<ActionBurn> for Burn {
    fn from(value: ActionBurn) -> (b: Burn) {
        Burn::Action(value)
    }
}

impl vstd::std_specs::convert::FromSpecImpl<ActionBurn> for Burn {
    open spec fn obeys_from_spec() -> bool {
        true
    }

    open spec fn from_spec(v: ActionBurn) -> Burn {
        Burn::Action(v)
    }
}

impl From<EchoBurn> for Burn {
    fn from(value: EchoBurn) -> (b: Burn) {
        Burn::Echo(value)
    }
}

impl vstd::std_specs::convert::FromSpecImpl<EchoBurn> for Burn {
    open spec fn obeys_from_spec() -> bool {
        true
    }

    open spec fn from_spec(v: EchoBurn) -> Burn {
        Burn::Echo(v)
    }
}

/// A burn in the document at `url`.
#[derive(Debug, Clone, PartialEq, Eq)]
pub struct InBufferBurn {
    pub url: String,
    pub burn: Burn,
}

/// Why a burn could not be found.
#[derive(Debug, Clone, PartialEq, Eq)]
pub enum BurnError {
    /// A failure with no variant of its own, kept as its message.
    Undefined(String),
}

/// The burn on one line of a document.
pub struct LineBurn {
    pub line: u32,
    pub burn: InBufferBurn,
}

/// The burns of one document, by line.
pub struct DocBurns {
    pub url: String,
    pub lines: Vec<LineBurn>,
}

/// The burns of every document, at most one per line.
pub struct BurnCache {
    map: Vec<DocBurns>,
}

/// The line a burn is kept on: that of the start of its range.
pub open spec fn in_buffer_line(b: InBufferBurn) -> u32 {
    burn_range(b.burn).start.line
}

/// Whether `p` falls within the characters of the burn's range.
pub open spec fn covers(b: InBufferBurn, p: Position) -> bool {
    burn_range(b.burn).start.character <= p.character && p.character
        <= burn_range(b.burn).end.character
}

pub open spec fn slot_index(lines: Seq<LineBurn>, line: u32) -> Option<int> {
    if exists|i: int| 0 <= i < lines.len() && (#[trigger] lines[i]).line == line {
        Some(choose|i: int| 0 <= i < lines.len() && (#[trigger] lines[i]).line == line)
    } else {
        None
    }
}

pub open spec fn doc_slot(docs: Seq<DocBurns>, url: Seq<char>) -> Option<int> {
    if exists|i: int| 0 <= i < docs.len() && (#[trigger] docs[i]).url@ == url {
        Some(choose|i: int| 0 <= i < docs.len() && (#[trigger] docs[i]).url@ == url)
    } else {
        None
    }
}

pub open spec fn slots_wf(lines: Seq<LineBurn>) -> bool {
    forall|i: int, j: int|
        0 <= i < lines.len() && 0 <= j < lines.len() && i != j ==> (#[trigger] lines[i]).line
            != (#[trigger] lines[j]).line
}

pub open spec fn doc_burns_wf(docs: Seq<DocBurns>) -> bool {
    &&& forall|i: int, j: int|
        0 <= i < docs.len() && 0 <= j < docs.len() && i != j ==> (#[trigger] docs[i]).url@
            != (#[trigger] docs[j]).url@
    &&& forall|i: int| 0 <= i < docs.len() ==> slots_wf((#[trigger] docs[i]).lines@)
}

/// The burn kept on `line` of `lines`.
pub open spec fn slot_burn(lines: Seq<LineBurn>, line: u32) -> Option<InBufferBurn> {
    match slot_index(lines, line) {
        Some(i) => Some(lines[i].burn),
        None => None,
    }
}

/// The marks among the burns of `lines`, in the order their lines were
/// first given a burn.
pub open spec fn echos_of(lines: Seq<LineBurn>) -> Seq<InBufferBurn>
    decreases lines.len(),
{
    if lines.len() == 0 {
        Seq::empty()
    } else {
        let rest = echos_of(lines.drop_last());
        if lines.last().burn.burn is Echo {
            rest.push(lines.last().burn)
        } else {
            rest
        }
    }
}

impl Default for BurnCache {
    fn default() -> (c: Self)
        ensures
            c.wf(),
            c.docs().len() == 0,
    {
        BurnCache { map: Vec::new() }
    }
}

impl BurnCache {
    pub closed spec fn docs(&self) -> Seq<DocBurns> {
        self.map@
    }

    pub open spec fn wf(&self) -> bool {
        doc_burns_wf(self.docs())
    }

    /// Whether the document at `url` has an entry.
    pub open spec fn has_doc(&self, url: Seq<char>) -> bool {
        doc_slot(self.docs(), url) is Some
    }

    /// The burn kept on `line` of the document at `url`.
    pub open spec fn burn_at(&self, url: Seq<char>, line: u32) -> Option<InBufferBurn> {
        match doc_slot(self.docs(), url) {
            Some(d) => slot_burn(self.docs()[d].lines@, line),
            None => None,
        }
    }

    /// The burns of the document at `url`, by line.
    pub open spec fn doc_lines(&self, url: Seq<char>) -> Seq<LineBurn> {
        self.docs()[doc_slot(self.docs(), url).unwrap()].lines@
    }

    fn find_doc(&self, url: &str) -> (r: Option<usize>)
        requires
            self.wf(),
        ensures
            r is None ==> doc_slot(self.docs(), url@) is None,
            r matches Some(i) ==> i < self.docs().len() && doc_slot(self.docs(), url@) == Some(
                i as int,
            ),
    {
        let mut i: usize = 0;
        while i < self.map.len()
            invariant
                i <= self.map@.len(),
                doc_burns_wf(self.map@),
                forall|j: int| 0 <= j < i ==> (#[trigger] self.map@[j]).url@ != url@,
            decreases self.map@.len() - i,
        {
            if str_eq(self.map[i].url.as_str(), url) {
                proof {
                    let k = choose|k: int|
                        0 <= k < self.map@.len() && (#[trigger] self.map@[k]).url@ == url@;
                    assert(self.map@[k].url@ == self.map@[i as int].url@);
                }
                return Some(i);
            }
            i = i + 1;
        }
        None
    }
}

fn find_slot(lines: &Vec<LineBurn>, line: u32) -> (r: Option<usize>)
    requires
        slots_wf(lines@),
    ensures
        r is None ==> slot_index(lines@, line) is None,
        r matches Some(i) ==> i < lines@.len() && slot_index(lines@, line) == Some(i as int),
{
    let mut i: usize = 0;
    while i < lines.len()
        invariant
            i <= lines@.len(),
            slots_wf(lines@),
            forall|j: int| 0 <= j < i ==> (#[trigger] lines@[j]).line != line,
        decreases lines@.len() - i,
    {
        if lines[i].line == line {
            proof {
                let k = choose|k: int| 0 <= k < lines@.len() && (#[trigger] lines@[k]).line == line;
                assert(lines@[k].line == lines@[i as int].line);
            }
            return Some(i);
        }
        i = i + 1;
    }
    None
}

/// Keeps `burn` as the burn of `line` in `lines`, in place of any earlier one.
fn put_in_slots(lines: &mut Vec<LineBurn>, line: u32, burn: InBufferBurn)
    requires
        slots_wf(old(lines)@),
    ensures
        slots_wf(final(lines)@),
        slot_burn(final(lines)@, line) == Some(burn),
        forall|l: u32| l != line ==> #[trigger] slot_burn(final(lines)@, l) == slot_burn(old(lines)@, l),
        forall|l: u32| l != line ==> #[trigger] slot_index(final(lines)@, l) == slot_index(old(lines)@, l),
        slot_index(old(lines)@, line) matches Some(i) ==> final(lines)@ == old(lines)@.update(i, LineBurn { line, burn }),
        slot_index(old(lines)@, line) is None ==> final(lines)@ == old(lines)@.push(LineBurn { line, burn }),
{
    let ghost before = lines@;
    match find_slot(lines, line) {
        Some(i) => {
            lines.set(i, LineBurn { line, burn });
            proof {
                let after = lines@;
                assert forall|a: int, b: int|
                    0 <= a < after.len() && 0 <= b < after.len() && a != b implies (#[trigger] after[
                    a]).line != (#[trigger] after[b]).line by {
                    assert(before[a].line != before[b].line);
                }
                assert(slot_index(after, line) == Some(i as int)) by {
                    lemma_unique_index(after, |x: LineBurn| x.line == line, i as int);
                }
                assert forall|l: u32| l != line implies #[trigger] slot_index(after, l)
                    == slot_index(before, l) by {
                    if exists|k: int| 0 <= k < after.len() && (#[trigger] after[k]).line == l {
                        let k = choose|k: int| 0 <= k < after.len() && (#[trigger] after[k]).line == l;
                        assert(k != i);
                        lemma_unique_index(after, |x: LineBurn| x.line == l, k);
                        lemma_unique_index(before, |x: LineBurn| x.line == l, k);
                    } else {
                        assert forall|k: int| 0 <= k < before.len() implies (#[trigger] before[k]).line != l by {
                            if k != i {
                                assert(before[k] == after[k]);
                            }
                        }
                    }
                }
                assert forall|l: u32| l != line implies #[trigger] slot_burn(after, l)
                    == slot_burn(before, l) by {
                    assert(slot_index(after, l) == slot_index(before, l));
                    if let Some(k) = slot_index(before, l) {
                        assert(k != i);
                    }
                }
            }
        },
        None => {
            lines.push(LineBurn { line, burn });
            proof {
                let after = lines@;
                let n = before.len() as int;
                assert forall|a: int, b: int|
                    0 <= a < after.len() && 0 <= b < after.len() && a != b implies (#[trigger] after[
                    a]).line != (#[trigger] after[b]).line by {
                    if a < n && b < n {
                        assert(before[a].line != before[b].line);
                    }
                }
                assert(slot_index(after, line) == Some(n)) by {
                    lemma_unique_index(after, |x: LineBurn| x.line == line, n);
                }
                assert forall|l: u32| l != line implies #[trigger] slot_index(after, l)
                    == slot_index(before, l) by {
                    if exists|k: int| 0 <= k < before.len() && (#[trigger] before[k]).line == l {
                        let k = choose|k: int| 0 <= k < before.len() && (#[trigger] before[k]).line == l;
                        lemma_unique_index(after, |x: LineBurn| x.line == l, k);
                        lemma_unique_index(before, |x: LineBurn| x.line == l, k);
                    } else {
                        assert forall|k: int| 0 <= k < after.len() implies (#[trigger] after[k]).line != l by {
                            if k < n {
                                assert(before[k] == after[k]);
                            }
                        }
                    }
                }
                assert forall|l: u32| l != line implies #[trigger] slot_burn(after, l)
                    == slot_burn(before, l) by {
                    assert(slot_index(after, l) == slot_index(before, l));
                }
            }
        },
    }
}

impl BurnCache {
    /// Keeps `burn` as the burn of its line in its document, in place of any
    /// earlier burn on that line.
    pub fn save_burn(&mut self, burn: InBufferBurn) -> (r: Result<(), BurnError>)
        requires
            old(self).wf(),
        ensures
            r is Ok,
            final(self).wf(),
            final(self).burn_at(burn.url@, in_buffer_line(burn)) == Some(burn),
            forall|u: Seq<char>, l: u32|
                (u != burn.url@ || l != in_buffer_line(burn)) ==> #[trigger] final(self).burn_at(u, l)
                    == old(self).burn_at(u, l),
            forall|u: Seq<char>| #[trigger] final(self).has_doc(u) == (old(self).has_doc(u) || u == burn.url@),
    {
        let line = burn.burn.range().start.line;
        let url = clone_string(&burn.url);
        let ghost before = self.map@;
        match self.find_doc(url.as_str()) {
            Some(i) => {
                let mut doc = self.map.remove(i);
                put_in_slots(&mut doc.lines, line, burn);
                self.map.insert(i, doc);
                proof {
                    let after = self.map@;
                    assert(after =~= before.update(i as int, after[i as int]));
                    assert forall|a: int, b: int|
                        0 <= a < after.len() && 0 <= b < after.len() && a != b implies (
                        #[trigger] after[a]).url@ != (#[trigger] after[b]).url@ by {
                        assert(before[a].url@ != before[b].url@);
                    }
                    assert forall|k: int| 0 <= k < after.len() implies slots_wf(
                        (#[trigger] after[k]).lines@,
                    ) by {
                        if k != i {
                            assert(after[k] == before[k]);
                        }
                    }
                    assert(doc_slot(after, url@) == Some(i as int)) by {
                        lemma_unique_index(after, |x: DocBurns| x.url@ == url@, i as int);
                    }
                    assert forall|u: Seq<char>| u != url@ implies #[trigger] doc_slot(after, u)
                        == doc_slot(before, u) && (doc_slot(after, u) matches Some(k) ==> after[k]
                        == before[k]) by {
                        if exists|k: int| 0 <= k < after.len() && (#[trigger] after[k]).url@ == u {
                            let k = choose|k: int|
                                0 <= k < after.len() && (#[trigger] after[k]).url@ == u;
                            assert(k != i);
                            assert(before[k] == after[k]);
                            lemma_unique_index(after, |x: DocBurns| x.url@ == u, k);
                            lemma_unique_index(before, |x: DocBurns| x.url@ == u, k);
                        } else {
                            assert forall|k: int| 0 <= k < before.len() implies (
                            #[trigger] before[k]).url@ != u by {
                                if k != i {
                                    assert(before[k] == after[k]);
                                }
                            }
                        }
                    }
                    assert forall|u: Seq<char>, l: u32|
                        (u != url@ || l != line) implies #[trigger] self.burn_at(u, l)
                        == old(self).burn_at(u, l) by {
                        if u != url@ {
                            assert(doc_slot(after, u) == doc_slot(before, u));
                        }
                    }
                    assert forall|u: Seq<char>| #[trigger] self.has_doc(u) == (old(self).has_doc(u)
                        || u == url@) by {
                        if u != url@ {
                            assert(doc_slot(after, u) == doc_slot(before, u));
                        }
                    }
                }
            },
            None => {
                let mut lines: Vec<LineBurn> = Vec::new();
                put_in_slots(&mut lines, line, burn);
                self.map.push(DocBurns { url, lines });
                proof {
                    let after = self.map@;
                    let n = before.len() as int;
                    assert forall|k: int| 0 <= k < n implies after[k] == before[k] by {}
                    assert forall|a: int, b: int|
                        0 <= a < after.len() && 0 <= b < after.len() && a != b implies (
                        #[trigger] after[a]).url@ != (#[trigger] after[b]).url@ by {
                        if a < n && b < n {
                            assert(before[a].url@ != before[b].url@);
                        }
                    }
                    assert forall|k: int| 0 <= k < after.len() implies slots_wf(
                        (#[trigger] after[k]).lines@,
                    ) by {}
                    assert(doc_slot(after, url@) == Some(n)) by {
                        lemma_unique_index(after, |x: DocBurns| x.url@ == url@, n);
                    }
                    assert forall|u: Seq<char>| u != url@ implies #[trigger] doc_slot(after, u)
                        == doc_slot(before, u) by {
                        if exists|k: int| 0 <= k < before.len() && (#[trigger] before[k]).url@ == u {
                            let k = choose|k: int|
                                0 <= k < before.len() && (#[trigger] before[k]).url@ == u;
                            lemma_unique_index(after, |x: DocBurns| x.url@ == u, k);
                            lemma_unique_index(before, |x: DocBurns| x.url@ == u, k);
                        } else {
                            assert forall|k: int| 0 <= k < after.len() implies (
                            #[trigger] after[k]).url@ != u by {
                                if k < n {
                                    assert(before[k] == after[k]);
                                }
                            }
                        }
                    }
                    assert forall|u: Seq<char>, l: u32|
                        (u != url@ || l != line) implies #[trigger] self.burn_at(u, l)
                        == old(self).burn_at(u, l) by {
                        if u != url@ {
                            assert(doc_slot(after, u) == doc_slot(before, u));
                            if let Some(k) = doc_slot(before, u) {
                                assert(after[k] == before[k]);
                            }
                        } else {
                            assert(slot_index(Seq::<LineBurn>::empty(), l) is None);
                        }
                    }
                    assert forall|u: Seq<char>| #[trigger] self.has_doc(u) == (old(self).has_doc(u)
                        || u == url@) by {
                        if u != url@ {
                            assert(doc_slot(after, u) == doc_slot(before, u));
                        }
                    }
                }
            },
        }
        Ok(())
    }
}

impl BurnCache {
    /// The burn on the position's line of the document at `url`, where its
    /// range covers the position's character. A burn on the line that does
    /// not cover it, and a line or document without a burn, are errors.
    pub fn get_burn_by_position(&self, url: &str, position: Position) -> (r: Result<
        &InBufferBurn,
        BurnError,
    >)
        requires
            self.wf(),
        ensures
            match self.burn_at(url@, position.line) {
                Some(b) => if covers(b, position) {
                    r matches Ok(f) && *f == b
                } else {
                    r matches Err(BurnError::Undefined(m)) && m@
                        == "Burn on document on line, but char position is wrong"@
                },
                None => r matches Err(BurnError::Undefined(m)) && m@ == "No burns on given document"@,
            },
            r matches Ok(f) ==> burn_range(f.burn).start.character <= position.character
                <= burn_range(f.burn).end.character,
            self.burn_at(url@, position.line) matches Some(b) && (position.character
                < burn_range(b.burn).start.character || burn_range(b.burn).end.character
                < position.character) ==> (r matches Err(BurnError::Undefined(m)) && m@
                == "Burn on document on line, but char position is wrong"@),
    {
        if let Some(d) = self.find_doc(url) {
            let doc = &self.map[d];
            proof {
                assert(slots_wf(doc.lines@));
            }
            if let Some(l) = find_slot(&doc.lines, position.line) {
                let found = &doc.lines[l].burn;
                let range = found.burn.range();
                if position.character >= range.start.character && position.character
                    <= range.end.character {
                    return Ok(found);
                } else {
                    return Err(
                        BurnError::Undefined(
                            "Burn on document on line, but char position is wrong".to_owned(),
                        ),
                    );
                }
            }
        }
        Err(BurnError::Undefined("No burns on given document".to_owned()))
    }

    /// The marks of the document at `url`, in the order their lines were
    /// first given a burn; `None` where the document has no entry.
    pub fn all_echos_on_doc(&self, url: &str) -> (r: Option<Vec<&InBufferBurn>>)
        requires
            self.wf(),
        ensures
            !self.has_doc(url@) ==> r is None,
            self.has_doc(url@) ==> (r matches Some(v) && v@.map_values(|b: &InBufferBurn| *b)
                == echos_of(self.doc_lines(url@))),
    {
        let d = match self.find_doc(url) {
            Some(d) => d,
            None => return None,
        };
        let lines = &self.map[d].lines;
        let mut out: Vec<&InBufferBurn> = Vec::new();
        let mut i: usize = 0;
        while i < lines.len()
            invariant
                i <= lines@.len(),
                out@.map_values(|b: &InBufferBurn| *b) == echos_of(lines@.take(i as int)),
            decreases lines@.len() - i,
        {
            let ghost prev = out@;
            let b = &lines[i].burn;
            let is_echo = match &b.burn {
                Burn::Echo(_) => true,
                Burn::Action(_) => false,
            };
            if is_echo {
                out.push(b);
                proof {
                    assert(out@.map_values(|b: &InBufferBurn| *b) =~= prev.map_values(
                        |b: &InBufferBurn| *b,
                    ).push(lines@[i as int].burn));
                }
            }
            proof {
                assert(lines@.take(i + 1).drop_last() =~= lines@.take(i as int));
            }
            i = i + 1;
        }
        assert(lines@.take(lines@.len() as int) =~= lines@);
        Some(out)
    }
}

/// A burn covers a position exactly when the position's character lies
/// between the first and the last character of the burn's range, both
/// included.
pub proof fn lemma_covers_is_within_range(b: InBufferBurn, p: Position)
    ensures
        covers(b, p) <==> (burn_range(b.burn).start.character <= p.character && p.character
            <= burn_range(b.burn).end.character),
{
}

/// A burn saved in a cache is the one found at any position of its line
/// that its range covers.
pub proof fn lemma_saved_burn_is_found(cache: BurnCache, burn: InBufferBurn, p: Position)
    requires
        cache.burn_at(burn.url@, in_buffer_line(burn)) == Some(burn),
        p.line == in_buffer_line(burn),
        covers(burn, p),
    ensures
        cache.burn_at(burn.url@, p.line) matches Some(b) && covers(b, p) && b == burn,
{
}

} // verus!
