//! Changes typed into a document, grouped by line.

use vstd::hash_map::HashMapWithView;
use vstd::prelude::*;

verus! {

broadcast use vstd::std_specs::hash::group_hash_axioms;

/// A character typed at a line and character index.
#[derive(Debug, Clone, Copy, PartialEq, Eq, Structural)]
pub struct ChangesLookup {
    pub line: usize,
    pub char_idx: usize,
    pub char: char,
}

/// The changes of `line` in `v` as index and character, the last first.
pub open spec fn line_entries(v: Seq<ChangesLookup>, line: usize) -> Seq<(usize, char)>
    decreases v.len(),
{
    if v.len() == 0 {
        Seq::empty()
    } else {
        let rest = line_entries(v.drop_last(), line);
        if v.last().line == line {
            seq![(v.last().char_idx, v.last().char)] + rest
        } else {
            rest
        }
    }
}

/// Whether some change of `v` is on `line`.
pub open spec fn has_line(v: Seq<ChangesLookup>, line: usize) -> bool {
    exists|i: int| 0 <= i < v.len() && (#[trigger] v[i]).line == line
}

proof fn lemma_line_entries_prepend(v: Seq<ChangesLookup>, c: ChangesLookup, line: usize)
    ensures
        line_entries(seq![c] + v, line) == line_entries(v, line) + (if c.line == line {
            seq![(c.char_idx, c.char)]
        } else {
            Seq::empty()
        }),
    decreases v.len(),
{
    let w = seq![c] + v;
    if v.len() == 0 {
        assert(w.drop_last() =~= Seq::<ChangesLookup>::empty());
        assert(line_entries(Seq::<ChangesLookup>::empty(), line) == Seq::<(usize, char)>::empty());
    } else {
        assert(w.drop_last() =~= seq![c] + v.drop_last());
        assert(w.last() == v.last());
        lemma_line_entries_prepend(v.drop_last(), c, line);
    }
}

proof fn lemma_no_line_no_entries(v: Seq<ChangesLookup>, line: usize)
    requires
        !has_line(v, line),
    ensures
        line_entries(v, line) == Seq::<(usize, char)>::empty(),
    decreases v.len(),
{
    if v.len() > 0 {
        assert(v[v.len() - 1] == v.last());
        assert forall|i: int| 0 <= i < v.drop_last().len() implies (#[trigger] v.drop_last()[i]).line
            != line by {
            assert(v.drop_last()[i] == v[i]);
        }
        lemma_no_line_no_entries(v.drop_last(), line);
    }
}

impl ChangesLookup {
    /// The changes grouped by line: each line that has changes maps to its
    /// changes as index and character, the last change first.
    pub fn to_line_map(vec: Vec<ChangesLookup>) -> (m: HashMapWithView<usize, Vec<(usize, char)>>)
        ensures
            forall|line: usize| #[trigger] m@.contains_key(line) <==> has_line(vec@, line),
            forall|line: usize|
                #[trigger] m@.contains_key(line) ==> m@[line]@ == line_entries(vec@, line),
    {
        let mut map: HashMapWithView<usize, Vec<(usize, char)>> = HashMapWithView::new();
        let mut vec = vec;
        let ghost all = vec@;
        while vec.len() > 0
            invariant
                all.len() >= vec@.len(),
                vec@ == all.take(vec@.len() as int),
                forall|line: usize|
                    #[trigger] map@.contains_key(line) <==> has_line(all.skip(vec@.len() as int), line),
                forall|line: usize|
                    #[trigger] map@.contains_key(line) ==> map@[line]@ == line_entries(
                        all.skip(vec@.len() as int),
                        line,
                    ),
            decreases vec@.len(),
        {
            let ghost k = vec@.len() - 1;
            let change = vec.pop().unwrap();
            assert(change == all[k]);
            assert(all.skip(k) =~= seq![change] + all.skip(k + 1));
            proof {
                assert forall|line: usize| line_entries(all.skip(k), line) == line_entries(
                    all.skip(k + 1),
                    line,
                ) + (if change.line == line {
                    seq![(change.char_idx, change.char)]
                } else {
                    Seq::empty()
                }) by {
                    lemma_line_entries_prepend(all.skip(k + 1), change, line);
                }
                assert forall|line: usize| has_line(all.skip(k), line) <==> (has_line(
                    all.skip(k + 1),
                    line,
                ) || change.line == line) by {
                    if has_line(all.skip(k + 1), line) {
                        let i = choose|i: int|
                            0 <= i < all.skip(k + 1).len() && (#[trigger] all.skip(k + 1)[i]).line
                                == line;
                        assert(all.skip(k)[i + 1] == all.skip(k + 1)[i]);
                    }
                    if change.line == line {
                        assert(all.skip(k)[0] == change);
                    }
                    if has_line(all.skip(k), line) {
                        let i = choose|i: int|
                            0 <= i < all.skip(k).len() && (#[trigger] all.skip(k)[i]).line == line;
                        if i > 0 {
                            assert(all.skip(k + 1)[i - 1] == all.skip(k)[i]);
                        }
                    }
                }
            }
            let ghost pre_map = map@;
            proof {
                if !pre_map.contains_key(change.line) {
                    lemma_no_line_no_entries(all.skip(k + 1), change.line);
                }
            }
            let mut entries = match map.remove(&change.line) {
                Some(v) => v,
                None => Vec::new(),
            };
            entries.push((change.char_idx, change.char));
            map.insert(change.line, entries);
            proof {
                assert(vec@ =~= all.take(vec@.len() as int));
                assert forall|line: usize| #[trigger] map@.contains_key(line) implies map@[line]@
                    == line_entries(all.skip(k), line) by {
                    if line != change.line {
                        assert(pre_map.contains_key(line));
                        assert(map@[line] == pre_map[line]);
                    }
                }
            }
        }
        assert(all.skip(0) =~= all);
        map
    }
}

} // verus!
