//! The text of an error with the chain of errors that caused it.

use vstd::prelude::*;

use crate::text::join_str;

verus! {

/// `message`, a blank line, then one `Caused by:` paragraph per cause, the
/// nearest cause first.
pub open spec fn error_chain_text(message: Seq<char>, causes: Seq<Seq<char>>) -> Seq<char>
    decreases causes.len(),
{
    if causes.len() == 0 {
        message + "\n\n"@
    } else {
        error_chain_text(message, causes.drop_last()) + "Caused by:\n\t"@ + causes.last() + "\n"@
    }
}

/// The text an error is shown with for debugging: the error's own message,
/// then the messages of its sources, nearest first.
pub fn error_chain_fmt(message: &str, causes: &[String]) -> (r: String)
    ensures
        r@ == error_chain_text(message@, causes@.map_values(|c: String| c@)),
{
    let mut out = join_str(message, "\n\n");
    let ghost cs = causes@.map_values(|c: String| c@);
    let mut i: usize = 0;
    assert(cs.take(0) =~= Seq::<Seq<char>>::empty());
    while i < causes.len()
        invariant
            i <= causes@.len(),
            cs == causes@.map_values(|c: String| c@),
            out@ == error_chain_text(message@, cs.take(i as int)),
        decreases causes@.len() - i,
    {
        out = join_str(out.as_str(), "Caused by:\n\t");
        out = join_str(out.as_str(), causes[i].as_str());
        out = join_str(out.as_str(), "\n");
        proof {
            assert(cs.take(i + 1).drop_last() =~= cs.take(i as int));
        }
        i = i + 1;
    }
    assert(cs.take(causes@.len() as int) =~= cs);
    out
}

} // verus!
