//! The line chunks of documents kept with their embeddings, indexed by
//! `usize` line numbers; they follow the rule of [`crate::chunks`].

use vstd::prelude::*;

use crate::chunks::{chunking_fits, chunks_of, line_range, windows, steps_fit, LINES_IN_CHUNK};
use crate::text::{join_lines, join_with_newlines, text_lines, text_lines_of, views};

verus! {

/// The chunk ranges and texts as plain values.
pub open spec fn chunk_views_usize(v: Seq<((usize, usize), String)>) -> Seq<((int, int), Seq<char>)> {
    v.map_values(|c: ((usize, usize), String)| ((c.0.0 as int, c.0.1 as int), c.1@))
}

/// The chunks of `text`, by the rule of [`crate::chunks`]; each range holds the
/// indices of its first and last line.
pub fn chunk_text(text: &str) -> (r: Vec<((usize, usize), String)>)
    requires
        chunking_fits(text_lines(text@).len() as int, usize::MAX as int),
    ensures
        chunk_views_usize(r@) == chunks_of(text_lines(text@)),
{
    let lines = text_lines_of(text);
    let ghost ls = text_lines(text@);
    let ghost n = ls.len() as int;
    let mut chunks: Vec<((usize, usize), String)> = Vec::new();
    let mut start: usize = 0;
    let mut end: usize = LINES_IN_CHUNK as usize;
    assert(chunk_views_usize(chunks@) =~= Seq::empty());
    while start < lines.len()
        invariant
            views(lines@) == ls,
            n == ls.len(),
            n <= usize::MAX,
            start <= end,
            steps_fit(n, start as int, end as int, chunks@.len() as int, usize::MAX as int),
            start < n ==> chunk_views_usize(chunks@) + windows(
                ls,
                start as int,
                end as int,
                chunks@.len() as int,
            ) == chunks_of(ls),
            start >= n ==> chunk_views_usize(chunks@) == chunks_of(ls),
        decreases usize::MAX - start,
    {
        let last: usize = if end < lines.len() {
            end
        } else {
            lines.len() - 1
        };
        let window = line_range(&lines, start, last + 1);
        let joined = join_with_newlines(window.as_slice());
        let k = chunks.len();
        let ghost before = chunks@;
        let ghost rest_before = windows(ls, start as int, end as int, k as int);
        chunks.push(((start, last), joined));
        let next: usize = start + LINES_IN_CHUNK as usize + chunks.len();
        proof {
            assert(chunk_views_usize(chunks@) =~= chunk_views_usize(before).push(
                ((start as int, last as int), join_lines(ls.subrange(start as int, last + 1))),
            ));
            if (next as int) < n {
                assert(rest_before =~= seq![
                    ((start as int, last as int), join_lines(ls.subrange(start as int, last + 1))),
                ] + windows(ls, next as int, end + next, k + 1));
            } else {
                assert(rest_before =~= seq![
                    ((start as int, last as int), join_lines(ls.subrange(start as int, last + 1))),
                ]);
            }
        }
        end = end + next;
        start = next;
    }
    chunks
}

} // verus!
