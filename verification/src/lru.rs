//! A recency cache of documents: a doubly linked list of nodes, most recent
//! first, with a lookup from keys to nodes and a reverse lookup from values to
//! keys, used to find the key of the node evicted from the tail.
//!
//! The nodes live in an arena and link to each other by index. Unlinking a
//! node that has both neighbours leaves the successor's link back to it in
//! place, and replacing the value of a cached key leaves the reverse
//! lookup keyed by the old value. Operations that would then read through a
//! node's link to itself, or evict a node whose value the reverse lookup does
//! not know, do not complete; `update_completes` and `get_completes` say when
//! an operation completes, and the public functions ask for it.
//!
//! The cache also keeps the order in which its keys were last used. Where
//! the links agree with that order both ways (`linked`), a read moves its key
//! to the front, a new key goes in front, and an eviction takes the least
//! recently used key. Reading a key from the middle of the list leaves its
//! successor's link back to it in place: the list still runs in order from
//! the head, but no longer back from the tail (`forward_linked` only).

use vstd::hash_map::StringHashMap;
use vstd::prelude::*;

verus! {

/// A node of the recency list.
#[derive(Debug)]
pub struct LRUNode {
    val: String,
    next: Option<usize>,
    prev: Option<usize>,
}

impl LRUNode {
    pub closed spec fn value(&self) -> Seq<char> {
        self.val@
    }

    /// An unlinked node holding `val`.
    fn new(val: String) -> (n: LRUNode)
        ensures
            n.val == val,
            n.next is None,
            n.prev is None,
    {
        LRUNode { val, next: None, prev: None }
    }
}

/// The cache: keys and values are document identifiers and texts.
pub struct LRUCache {
    nodes: Vec<LRUNode>,
    head: Option<usize>,
    tail: Option<usize>,
    lookup: StringHashMap<usize>,
    reverse_lookup: StringHashMap<String>,
    length: usize,
    capacity: usize,
    /// The cached keys, most recently used first.
    order: Ghost<Seq<Seq<char>>>,
}

/// `o` without `k`, the rest in order.
pub open spec fn without(o: Seq<Seq<char>>, k: Seq<char>) -> Seq<Seq<char>> {
    if o.contains(k) {
        o.remove(o.index_of(k))
    } else {
        o
    }
}

/// `o` with `k` moved, or put, in front.
pub open spec fn to_front(o: Seq<Seq<char>>, k: Seq<char>) -> Seq<Seq<char>> {
    seq![k] + without(o, k)
}

/// Removing a key from keys that occur once keeps the others, in order and
/// once each.
pub proof fn lemma_without(o: Seq<Seq<char>>, k: Seq<char>)
    requires
        o.no_duplicates(),
    ensures
        without(o, k).no_duplicates(),
        forall|x: Seq<char>| #[trigger] without(o, k).contains(x) <==> (o.contains(x) && x != k),
        o.contains(k) ==> without(o, k).len() == o.len() - 1,
        !o.contains(k) ==> without(o, k) == o,
        o.contains(k) ==> 0 <= o.index_of(k) < o.len() && o[o.index_of(k)] == k && without(o, k)
            == o.remove(o.index_of(k)),
{
    if o.contains(k) {
        let p = o.index_of(k);
        let w = o.remove(p);
        assert(0 <= p < o.len() && o[p] == k);
        assert(forall|j: int| 0 <= j < p ==> w[j] == o[j]);
        assert(forall|j: int| p <= j < o.len() - 1 ==> w[j] == o[j + 1]);
        assert forall|a: int, b: int| 0 <= a < w.len() && 0 <= b < w.len() && a != b implies w[a]
            != w[b] by {
            let a0 = if a < p { a } else { a + 1 };
            let b0 = if b < p { b } else { b + 1 };
            assert(w[a] == o[a0]);
            assert(w[b] == o[b0]);
        }
        assert forall|x: Seq<char>| #[trigger] w.contains(x) <==> (o.contains(x) && x != k) by {
            if w.contains(x) {
                let j = choose|j: int| 0 <= j < w.len() && w[j] == x;
                let j0 = if j < p { j } else { j + 1 };
                assert(o[j0] == x);
                assert(j0 != p);
            }
            if o.contains(x) && x != k {
                let j = choose|j: int| 0 <= j < o.len() && o[j] == x;
                assert(j != p);
                if j < p {
                    assert(w[j] == x);
                } else {
                    assert(w[j - 1] == x);
                }
            }
        }
    }
}

/// The nodes of keys moved to the front: the key's node, then the others in
/// their order.
proof fn lemma_map_to_front(o: Seq<Seq<char>>, k: Seq<char>, f: spec_fn(Seq<char>) -> usize)
    requires
        o.no_duplicates(),
        o.contains(k),
    ensures
        to_front(o, k).map_values(f) == seq![f(k)] + o.map_values(f).remove(o.index_of(k)),
{
    lemma_without(o, k);
    let p = o.index_of(k);
    let a = to_front(o, k).map_values(f);
    let b = seq![f(k)] + o.map_values(f).remove(p);
    assert(a.len() == b.len());
    assert forall|j: int| 0 <= j < a.len() implies a[j] == b[j] by {
        if j > 0 {
            if j - 1 < p {
                assert(without(o, k)[j - 1] == o[j - 1]);
            } else {
                assert(without(o, k)[j - 1] == o[j]);
            }
        }
    }
    assert(a =~= b);
}

/// Moving a cached key to the front keeps the keys, once each.
pub proof fn lemma_to_front(o: Seq<Seq<char>>, k: Seq<char>)
    requires
        o.no_duplicates(),
    ensures
        to_front(o, k).no_duplicates(),
        forall|x: Seq<char>| #[trigger] to_front(o, k).contains(x) <==> (o.contains(x) || x == k),
        to_front(o, k)[0] == k,
{
    lemma_without(o, k);
    let w = without(o, k);
    let f = to_front(o, k);
    assert(f[0] == k);
    assert(forall|j: int| 0 < j < f.len() ==> f[j] == w[j - 1]);
    assert forall|x: Seq<char>| #[trigger] f.contains(x) <==> (o.contains(x) || x == k) by {
        if w.contains(x) {
            let j = choose|j: int| 0 <= j < w.len() && w[j] == x;
            assert(f[j + 1] == x);
        }
        if f.contains(x) && x != k {
            let j = choose|j: int| 0 <= j < f.len() && f[j] == x;
            assert(w[j - 1] == x);
        }
    }
    assert forall|a: int, b: int| 0 <= a < f.len() && 0 <= b < f.len() && a != b implies f[a]
        != f[b] by {
        if a > 0 && b > 0 {
            assert(w[a - 1] != w[b - 1]);
        } else if a == 0 {
            assert(!w.contains(k));
            assert(w[b - 1] != k);
        } else {
            assert(!w.contains(k));
            assert(w[a - 1] != k);
        }
    }
}

pub open spec fn link_ok(l: Option<usize>, n: nat) -> bool {
    match l {
        Some(j) => j < n,
        None => true,
    }
}

spec fn set_next(ns: Seq<LRUNode>, i: int, v: Option<usize>) -> Seq<LRUNode> {
    ns.update(i, LRUNode { next: v, ..ns[i] })
}

spec fn set_prev(ns: Seq<LRUNode>, i: int, v: Option<usize>) -> Seq<LRUNode> {
    ns.update(i, LRUNode { prev: v, ..ns[i] })
}

/// Unlinking node `i`, first step: its predecessor takes over its successor.
spec fn detach_step1(ns: Seq<LRUNode>, i: int) -> Seq<LRUNode> {
    match ns[i].prev {
        Some(p) => set_next(set_next(ns, p as int, ns[i].next), i, None),
        None => ns,
    }
}

/// Second step: the successor (still known only when there was no
/// predecessor) takes over the predecessor.
spec fn detach_step2(ns: Seq<LRUNode>, i: int) -> Seq<LRUNode> {
    match ns[i].next {
        Some(x) => set_prev(set_prev(ns, x as int, ns[i].prev), i, None),
        None => ns,
    }
}

spec fn detach_nodes(ns: Seq<LRUNode>, i: int) -> Seq<LRUNode> {
    let ns2 = detach_step2(detach_step1(ns, i), i);
    set_prev(set_next(ns2, i, None), i, None)
}

spec fn detach_head(ns: Seq<LRUNode>, head: Option<usize>, i: int) -> Option<usize> {
    if head == Some(i as usize) {
        detach_step2(detach_step1(ns, i), i)[i].next
    } else {
        head
    }
}

spec fn detach_tail(ns: Seq<LRUNode>, tail: Option<usize>, i: int) -> Option<usize> {
    if tail == Some(i as usize) {
        detach_step2(detach_step1(ns, i), i)[i].prev
    } else {
        tail
    }
}

/// Unlinking node `i` never locks a node through a link to itself.
pub closed spec fn detach_safe(ns: Seq<LRUNode>, i: int) -> bool {
    &&& ns[i].prev != Some(i as usize)
    &&& (ns[i].prev is Some || ns[i].next != Some(i as usize))
}

spec fn prepend_nodes(ns: Seq<LRUNode>, head: Option<usize>, i: int) -> Seq<LRUNode> {
    match head {
        None => ns,
        Some(h) => set_prev(set_next(ns, i, Some(h)), h as int, Some(i as usize)),
    }
}

spec fn prepend_tail(head: Option<usize>, tail: Option<usize>, i: int) -> Option<usize> {
    match head {
        None => Some(i as usize),
        Some(_) => tail,
    }
}

/// Unlinking node `i` leaves a node `n` that has no predecessor, and that
/// neither `i` nor `n` itself links to as a successor, safe to unlink; and
/// unlinking `n` itself leaves it with no links.
proof fn lemma_detach_keeps_new_node_safe(ns: Seq<LRUNode>, i: int, n: int)
    requires
        0 <= i < ns.len(),
        0 <= n < ns.len(),
        n <= usize::MAX,
        forall|j: int| 0 <= j < ns.len() ==> link_ok(#[trigger] ns[j].next, ns.len()) && link_ok(
            ns[j].prev,
            ns.len(),
        ),
        i != n ==> {
            &&& ns[n].prev is None
            &&& ns[n].next != Some(n as usize)
            &&& ns[i].next != Some(n as usize)
        },
    ensures
        detach_safe(detach_nodes(ns, i), n),
{
}

/// Unlinking node `i` leaves it with no links, and leaves the head elsewhere.
proof fn lemma_detach_unlinks(ns: Seq<LRUNode>, head: Option<usize>, i: int)
    requires
        0 <= i < ns.len(),
        i <= usize::MAX,
        forall|j: int| 0 <= j < ns.len() ==> link_ok(#[trigger] ns[j].next, ns.len()) && link_ok(
            ns[j].prev,
            ns.len(),
        ),
        detach_safe(ns, i),
    ensures
        detach_nodes(ns, i)[i].prev is None,
        detach_nodes(ns, i)[i].next is None,
        detach_head(ns, head, i) != Some(i as usize),
{
}

/// The nodes `ix` form the list from `head` to `tail` along the `next`
/// links.
spec fn fwd_ok(ns: Seq<LRUNode>, head: Option<usize>, tail: Option<usize>, ix: Seq<usize>) -> bool {
    &&& ix.len() == 0 ==> head is None && tail is None
    &&& ix.len() > 0 ==> {
        &&& head == Some(ix[0])
        &&& tail == Some(ix.last())
        &&& ns[ix.last() as int].next is None
    }
    &&& forall|j: int| 0 <= j < ix.len() - 1 ==> (#[trigger] ns[ix[j] as int]).next == Some(ix[j + 1])
}

/// The `prev` links of the nodes `ix` lead back along the list.
spec fn back_ok(ns: Seq<LRUNode>, ix: Seq<usize>) -> bool {
    &&& ix.len() > 0 ==> ns[ix[0] as int].prev is None
    &&& forall|j: int| 0 < j < ix.len() ==> (#[trigger] ns[ix[j] as int]).prev == Some(ix[j - 1])
}

/// The nodes `ix` are distinct nodes of `ns`.
spec fn ix_ok(ns: Seq<LRUNode>, ix: Seq<usize>) -> bool {
    &&& ix.no_duplicates()
    &&& forall|j: int| 0 <= j < ix.len() ==> (#[trigger] ix[j]) < ns.len()
}

proof fn lemma_prepend_list(
    ns: Seq<LRUNode>,
    head: Option<usize>,
    tail: Option<usize>,
    ix: Seq<usize>,
    i: usize,
)
    requires
        fwd_ok(ns, head, tail, ix),
        ix_ok(ns, ix),
        i < ns.len(),
        !ix.contains(i),
        ns[i as int].next is None,
        ns[i as int].prev is None,
    ensures
        fwd_ok(prepend_nodes(ns, head, i as int), Some(i), prepend_tail(head, tail, i as int), seq![i] + ix),
        ix_ok(prepend_nodes(ns, head, i as int), seq![i] + ix),
        back_ok(ns, ix) ==> back_ok(prepend_nodes(ns, head, i as int), seq![i] + ix),
        prepend_nodes(ns, head, i as int).len() == ns.len(),
        forall|j: int| 0 <= j < ns.len() ==> #[trigger] prepend_nodes(ns, head, i as int)[j].val == ns[j].val,
{
    let ns2 = prepend_nodes(ns, head, i as int);
    let ix2 = seq![i] + ix;
    assert(forall|j: int| 0 < j < ix2.len() ==> ix2[j] == ix[j - 1]);
    assert(forall|j: int| 0 <= j < ix.len() ==> ix[j] != i);
    match head {
        None => {
            assert(ix.len() == 0);
        },
        Some(h) => {
            assert(h == ix[0]);
            assert forall|j: int| 0 <= j < ix2.len() - 1 implies (#[trigger] ns2[ix2[j] as int]).next
                == Some(ix2[j + 1]) by {
                if j > 0 {
                    assert(ns[ix[j - 1] as int].next == Some(ix[j]));
                }
            }
            assert(ns2[ix2.last() as int].next is None) by {
                if ix.len() > 0 {
                    assert(ix2.last() == ix.last());
                }
            }
            if back_ok(ns, ix) {
                assert forall|j: int| 0 < j < ix2.len() implies (#[trigger] ns2[ix2[j] as int]).prev
                    == Some(ix2[j - 1]) by {
                    if j > 1 {
                        assert(ns[ix[j - 1] as int].prev == Some(ix[j - 2]));
                    }
                }
            }
        },
    }
    assert forall|a: int, b: int| 0 <= a < ix2.len() && 0 <= b < ix2.len() && a != b implies ix2[a]
        != ix2[b] by {
        if a > 0 && b > 0 {
            assert(ix[a - 1] != ix[b - 1]);
        }
    }
}

proof fn lemma_detach_list(
    ns: Seq<LRUNode>,
    head: Option<usize>,
    tail: Option<usize>,
    ix: Seq<usize>,
    p: int,
)
    requires
        fwd_ok(ns, head, tail, ix),
        back_ok(ns, ix),
        ix_ok(ns, ix),
        0 <= p < ix.len(),
    ensures
        detach_safe(ns, ix[p] as int),
        fwd_ok(
            detach_nodes(ns, ix[p] as int),
            detach_head(ns, head, ix[p] as int),
            detach_tail(ns, tail, ix[p] as int),
            ix.remove(p),
        ),
        ix_ok(detach_nodes(ns, ix[p] as int), ix.remove(p)),
        (p == 0 || p == ix.len() - 1) ==> back_ok(detach_nodes(ns, ix[p] as int), ix.remove(p)),
        detach_nodes(ns, ix[p] as int)[ix[p] as int].next is None,
        detach_nodes(ns, ix[p] as int)[ix[p] as int].prev is None,
        !ix.remove(p).contains(ix[p]),
        detach_nodes(ns, ix[p] as int).len() == ns.len(),
        forall|j: int|
            0 <= j < ns.len() ==> #[trigger] detach_nodes(ns, ix[p] as int)[j].val == ns[j].val,
{
    let i = ix[p];
    let n = ix.len();
    let ix1 = ix.remove(p);
    let ns1 = detach_nodes(ns, i as int);
    assert(forall|a: int, b: int| 0 <= a < n && 0 <= b < n && a != b ==> ix[a] != ix[b]);
    assert(forall|j: int| 0 <= j < p ==> ix1[j] == ix[j]);
    assert(forall|j: int| p <= j < n - 1 ==> ix1[j] == ix[j + 1]);
    assert(ix1.len() == n - 1);
    assert forall|j: int| 0 <= j < ix1.len() implies ix1[j] != i by {
        if j < p {
            assert(ix[j] != ix[p]);
        } else {
            assert(ix[j + 1] != ix[p]);
        }
    }
    assert forall|a: int, b: int| 0 <= a < ix1.len() && 0 <= b < ix1.len() && a != b implies ix1[a]
        != ix1[b] by {
        let a0 = if a < p { a } else { a + 1 };
        let b0 = if b < p { b } else { b + 1 };
        assert(ix1[a] == ix[a0]);
        assert(ix1[b] == ix[b0]);
    }
    if p == 0 {
        assert(ns[i as int].prev is None);
        if n == 1 {
            assert(ns[i as int].next is None);
        } else {
            assert(ns[i as int].next == Some(ix[1]));
            assert(ix[1] != i);
        }
        assert forall|j: int| 0 <= j < ix1.len() - 1 implies (#[trigger] ns1[ix1[j] as int]).next
            == Some(ix1[j + 1]) by {
            assert(ns[ix[j + 1] as int].next == Some(ix[j + 2]));
        }
        if n > 1 {
            assert(ns1[ix1.last() as int].next is None) by {
                assert(ix1.last() == ix.last());
            }
            assert forall|j: int| 0 < j < ix1.len() implies (#[trigger] ns1[ix1[j] as int]).prev
                == Some(ix1[j - 1]) by {
                assert(ns[ix[j + 1] as int].prev == Some(ix[j]));
            }
        }
    } else if p == n - 1 {
        assert(ns[i as int].prev == Some(ix[p - 1]));
        assert(ns[i as int].next is None);
        assert(ix[p - 1] != i);
        assert forall|j: int| 0 <= j < ix1.len() - 1 implies (#[trigger] ns1[ix1[j] as int]).next
            == Some(ix1[j + 1]) by {
            assert(ns[ix[j] as int].next == Some(ix[j + 1]));
        }
        assert forall|j: int| 0 < j < ix1.len() implies (#[trigger] ns1[ix1[j] as int]).prev
            == Some(ix1[j - 1]) by {
            assert(ns[ix[j] as int].prev == Some(ix[j - 1]));
        }
        if n > 1 {
            assert(ns1[ix1[0] as int].prev is None) by {
                assert(ix[0] != i);
            }
        }
    } else {
        assert(ns[i as int].prev == Some(ix[p - 1]));
        assert(ns[i as int].next == Some(ix[p + 1]));
        assert(ix[p - 1] != i);
        assert(ix[p + 1] != i);
        assert forall|j: int| 0 <= j < ix1.len() - 1 implies (#[trigger] ns1[ix1[j] as int]).next
            == Some(ix1[j + 1]) by {
            if j < p - 1 {
                assert(ns[ix[j] as int].next == Some(ix[j + 1]));
                assert(ix[j] != ix[p - 1]);
            } else if j == p - 1 {
            } else {
                assert(ns[ix[j + 1] as int].next == Some(ix[j + 2]));
                assert(ix[j + 1] != ix[p - 1]);
            }
        }
        assert(ns1[ix1.last() as int].next is None) by {
            assert(ix1.last() == ix.last());
            assert(ix.last() != ix[p - 1]);
        }
    }
}

/// Putting a new node in front of the list and, where it evicts, unlinking
/// the tail keeps the list in order.
proof fn lemma_insert_front_list(
    ns0: Seq<LRUNode>,
    h0: Option<usize>,
    t0: Option<usize>,
    ix: Seq<usize>,
    n: usize,
    pre: Seq<LRUNode>,
    nsb: Seq<LRUNode>,
    tb: Option<usize>,
    evicts: bool,
    nsc: Seq<LRUNode>,
    hc: Option<usize>,
    tc: Option<usize>,
)
    requires
        fwd_ok(ns0, h0, t0, ix),
        back_ok(ns0, ix),
        ix_ok(ns0, ix),
        n == ns0.len(),
        pre.len() == n + 1,
        forall|j: int| 0 <= j < n ==> #[trigger] pre[j] == ns0[j],
        pre[n as int].next is None,
        pre[n as int].prev is None,
        nsb == prepend_nodes(pre, h0, n as int),
        tb == prepend_tail(h0, t0, n as int),
        evicts ==> {
            &&& ix.len() > 0
            &&& nsc == detach_nodes(nsb, tb.unwrap() as int)
            &&& hc == detach_head(nsb, Some(n), tb.unwrap() as int)
            &&& tc == detach_tail(nsb, tb, tb.unwrap() as int)
        },
        !evicts ==> nsc == nsb && hc == Some(n) && tc == tb,
    ensures
        fwd_ok(nsc, hc, tc, if evicts { seq![n] + ix.drop_last() } else { seq![n] + ix }),
        back_ok(nsc, if evicts { seq![n] + ix.drop_last() } else { seq![n] + ix }),
        nsc.len() == n + 1,
        forall|j: int| 0 <= j <= n ==> #[trigger] nsc[j].val == pre[j].val,
{
    assert forall|j: int| 0 <= j < ix.len() implies #[trigger] pre[ix[j] as int] == ns0[ix[j] as int] by {
        assert(ix[j] < n);
    }
    assert(fwd_ok(pre, h0, t0, ix)) by {
        if ix.len() > 0 {
            assert(pre[ix.last() as int] == ns0[ix.last() as int]);
        }
        assert forall|j: int| 0 <= j < ix.len() - 1 implies (#[trigger] pre[ix[j] as int]).next == Some(
            ix[j + 1],
        ) by {
            assert(ns0[ix[j] as int].next == Some(ix[j + 1]));
        }
    }
    assert(back_ok(pre, ix)) by {
        if ix.len() > 0 {
            assert(pre[ix[0] as int] == ns0[ix[0] as int]);
        }
        assert forall|j: int| 0 < j < ix.len() implies (#[trigger] pre[ix[j] as int]).prev == Some(
            ix[j - 1],
        ) by {
            assert(ns0[ix[j] as int].prev == Some(ix[j - 1]));
        }
    }
    assert(ix_ok(pre, ix));
    assert(!ix.contains(n)) by {
        if ix.contains(n) {
            let j = choose|j: int| 0 <= j < ix.len() && ix[j] == n;
            assert(ix[j] < n);
        }
    }
    lemma_prepend_list(pre, h0, t0, ix, n);
    let ix2 = seq![n] + ix;
    if evicts {
        let last = (ix2.len() - 1) as int;
        assert(tb == Some(ix2[last]));
        lemma_detach_list(nsb, Some(n), tb, ix2, last);
        assert(ix2.remove(last) =~= seq![n] + ix.drop_last());
    }
}

/// Whether the value of each key of `lookup` leads back to the key in `rev`.
spec fn values_known_in(
    lookup: Map<Seq<char>, usize>,
    rev: Map<Seq<char>, String>,
    ns: Seq<LRUNode>,
) -> bool {
    forall|k: Seq<char>| #[trigger]
        lookup.contains_key(k) ==> {
            let v = ns[lookup[k] as int].val@;
            rev.contains_key(v) && rev[v]@ == k
        }
}

/// The keys after a new key is cached in front, evicting the last key where
/// it evicts: their nodes follow the new order, and their values lead back to
/// them.
proof fn lemma_new_key_keys(
    l0: Map<Seq<char>, usize>,
    r0: Map<Seq<char>, String>,
    ns0: Seq<LRUNode>,
    o: Seq<Seq<char>>,
    key: Seq<char>,
    value: Seq<char>,
    n: usize,
    evicts: bool,
    l1: Map<Seq<char>, usize>,
    r1: Map<Seq<char>, String>,
    ns1: Seq<LRUNode>,
    o1: Seq<Seq<char>>,
)
    requires
        o.no_duplicates(),
        forall|x: Seq<char>| #[trigger] o.contains(x) <==> l0.contains_key(x),
        forall|x: Seq<char>| #[trigger] l0.contains_key(x) ==> l0[x] < n,
        values_known_in(l0, r0, ns0),
        !l0.contains_key(key),
        forall|x: Seq<char>| #[trigger] l0.contains_key(x) ==> ns0[l0[x] as int].val@ != value,
        ns1.len() == n + 1,
        forall|j: int| 0 <= j < n ==> #[trigger] ns1[j].val == ns0[j].val,
        ns1[n as int].val@ == value,
        evicts ==> o.len() > 0,
        l1 == if evicts {
            l0.remove(o.last())
        } else {
            l0
        }.insert(key, n),
        r1.contains_key(value) && r1[value]@ == key,
        forall|v: Seq<char>|
            v != value && !(evicts && v == ns0[l0[o.last()] as int].val@) ==> (
            #[trigger] r1.contains_key(v) == r0.contains_key(v) && (r0.contains_key(v) ==> r1[v]
                == r0[v])),
        o1 == seq![key] + if evicts {
            without(o, o.last())
        } else {
            o
        },
    ensures
        values_known_in(l1, r1, ns1),
        o1.map_values(|k: Seq<char>| l1[k]) == seq![n] + if evicts {
            o.map_values(|k: Seq<char>| l0[k]).drop_last()
        } else {
            o.map_values(|k: Seq<char>| l0[k])
        },
{
    let ix = o.map_values(|k: Seq<char>| l0[k]);
    let rest = if evicts {
        o.drop_last()
    } else {
        o
    };
    if evicts {
        let victim = o.last();
        assert(o.contains(victim)) by {
            assert(o[o.len() - 1] == victim);
        }
        lemma_without(o, victim);
        assert(o.index_of(victim) == o.len() - 1) by {
            let q = o.index_of(victim);
            assert(o[q] == victim);
            assert(o[o.len() - 1] == victim);
        }
        assert(without(o, victim) =~= o.drop_last());
    }
    assert(o1 =~= seq![key] + rest);
    let lhs = o1.map_values(|k: Seq<char>| l1[k]);
    let rhs = seq![n] + if evicts {
        ix.drop_last()
    } else {
        ix
    };
    assert forall|j: int| 0 <= j < lhs.len() implies lhs[j] == rhs[j] by {
        if j > 0 {
            let x = rest[j - 1];
            assert(x == o[j - 1]);
            assert(o.contains(x));
            assert(x != key);
            if evicts {
                assert(x != o.last()) by {
                    assert(o[o.len() - 1] == o.last());
                }
            }
        }
    }
    assert(lhs =~= rhs);
    assert forall|k: Seq<char>| #[trigger] l1.contains_key(k) implies {
        let v = ns1[l1[k] as int].val@;
        r1.contains_key(v) && r1[v]@ == k
    } by {
        if k != key {
            assert(l0.contains_key(k));
            let i = l0[k];
            assert(l1[k] == i);
            assert(ns1[i as int].val == ns0[i as int].val);
            let v = ns0[i as int].val@;
            assert(v != value);
            if evicts {
                let victim = o.last();
                assert(k != victim);
                let vt = ns0[l0[victim] as int].val@;
                assert(o.contains(victim)) by {
                    assert(o[o.len() - 1] == victim);
                }
                assert(r0[vt]@ == victim);
                assert(r0[v]@ == k);
                assert(v != vt);
            }
        }
    }
}

proof fn lemma_detach_keeps_values(ns: Seq<LRUNode>, i: int)
    requires
        0 <= i < ns.len(),
        forall|j: int| 0 <= j < ns.len() ==> link_ok(#[trigger] ns[j].next, ns.len()) && link_ok(
            ns[j].prev,
            ns.len(),
        ),
        detach_safe(ns, i),
    ensures
        detach_nodes(ns, i).len() == ns.len(),
        forall|j: int| 0 <= j < ns.len() ==> #[trigger] detach_nodes(ns, i)[j].val == ns[j].val,
        forall|j: int|
            0 <= j < ns.len() ==> link_ok(#[trigger] detach_nodes(ns, i)[j].next, ns.len())
                && link_ok(detach_nodes(ns, i)[j].prev, ns.len()),
        link_ok(detach_step2(detach_step1(ns, i), i)[i].next, ns.len()),
        link_ok(detach_step2(detach_step1(ns, i), i)[i].prev, ns.len()),
{
    let ns1 = detach_step1(ns, i);
    assert(ns1.len() == ns.len());
    assert(forall|j: int| 0 <= j < ns.len() ==> #[trigger] ns1[j].val == ns[j].val);
    assert(forall|j: int|
        0 <= j < ns.len() ==> link_ok(#[trigger] ns1[j].next, ns.len()) && link_ok(
            ns1[j].prev,
            ns.len(),
        ));
    let ns2 = detach_step2(ns1, i);
    assert(ns2.len() == ns.len());
    assert(forall|j: int| 0 <= j < ns.len() ==> #[trigger] ns2[j].val == ns[j].val);
    assert(forall|j: int|
        0 <= j < ns.len() ==> link_ok(#[trigger] ns2[j].next, ns.len()) && link_ok(
            ns2[j].prev,
            ns.len(),
        ));
}

impl LRUCache {
    /// The keys the cache holds, each with the index of its node.
    pub closed spec fn keys(&self) -> Map<Seq<char>, usize> {
        self.lookup@
    }

    /// The cached keys, most recently used first.
    pub closed spec fn recency(&self) -> Seq<Seq<char>> {
        self.order@
    }

    /// The nodes of the cached keys, in recency order.
    spec fn node_order(&self) -> Seq<usize> {
        self.order@.map_values(|k: Seq<char>| self.lookup@[k])
    }

    /// Whether the value of each cached key leads back to the key in the
    /// reverse lookup.
    spec fn values_known(&self) -> bool {
        values_known_in(self.lookup@, self.reverse_lookup@, self.nodes@)
    }

    /// Whether the list, followed from its head along the links to the next
    /// node, visits the cached keys in recency order and ends at its tail, and
    /// each value leads back to its key.
    pub closed spec fn forward_linked(&self) -> bool {
        fwd_ok(self.nodes@, self.head, self.tail, self.node_order()) && self.values_known()
    }

    /// Whether, besides, the links to the previous node lead back along the
    /// list.
    pub closed spec fn linked(&self) -> bool {
        self.forward_linked() && back_ok(self.nodes@, self.node_order())
    }

    /// The key a new key evicts, on a list whose links follow the recency
    /// order, is the least recently used one.
    pub proof fn lemma_evicts_least_recent(&self, value: Seq<char>)
        requires
            self.wf(),
            self.forward_linked(),
            self.recency().len() > 0,
        ensures
            self.victim(value) == self.recency().last(),
    {
        self.lemma_node_order();
        let o = self.order@;
        assert(o.contains(o.last())) by {
            assert(o[o.len() - 1] == o.last());
        }
        assert(self.lookup@.contains_key(o.last()));
    }

    /// On a list whose links follow the recency order both ways, reading any
    /// key completes.
    pub proof fn lemma_linked_reads_complete(&self)
        requires
            self.wf(),
            self.linked(),
        ensures
            forall|k: Seq<char>| #[trigger] self.get_completes(k),
    {
        self.lemma_node_order();
        let o = self.order@;
        let ix = self.node_order();
        assert forall|k: Seq<char>| #[trigger] self.get_completes(k) by {
            if self.lookup@.contains_key(k) {
                assert(o.contains(k));
                let p = o.index_of(k);
                assert(ix[p] == self.lookup@[k]);
                lemma_detach_list(self.nodes@, self.head, self.tail, ix, p);
            }
        }
    }

    proof fn lemma_node_order(&self)
        requires
            self.wf(),
        ensures
            ix_ok(self.nodes@, self.node_order()),
            self.node_order().len() == self.order@.len(),
            forall|j: int|
                0 <= j < self.order@.len() ==> #[trigger] self.node_order()[j] == self.lookup@[self.order@[j]],
    {
        let o = self.order@;
        let ix = self.node_order();
        assert forall|j: int| 0 <= j < ix.len() implies (#[trigger] ix[j]) < self.nodes@.len() by {
            assert(o.contains(o[j]));
            assert(self.lookup@.contains_key(o[j]));
        }
        assert forall|a: int, b: int| 0 <= a < ix.len() && 0 <= b < ix.len() && a != b implies ix[a]
            != ix[b] by {
            assert(o.contains(o[a]));
            assert(o.contains(o[b]));
            assert(o[a] != o[b]);
            assert(self.lookup@.contains_key(o[a]));
            assert(self.lookup@.contains_key(o[b]));
        }
    }

    /// The number of keys ever inserted: the counter that `at_capacity`
    /// compares with the capacity.
    pub closed spec fn length(&self) -> nat {
        self.length as nat
    }

    pub closed spec fn capacity(&self) -> nat {
        self.capacity as nat
    }

    pub closed spec fn wf(&self) -> bool {
        &&& forall|j: int|
            0 <= j < self.nodes@.len() ==> link_ok(#[trigger] self.nodes@[j].next, self.nodes@.len())
                && link_ok(self.nodes@[j].prev, self.nodes@.len())
        &&& link_ok(self.head, self.nodes@.len())
        &&& link_ok(self.tail, self.nodes@.len())
        &&& forall|k: Seq<char>| #[trigger]
            self.lookup@.contains_key(k) ==> self.lookup@[k] < self.nodes@.len()
        &&& forall|k1: Seq<char>, k2: Seq<char>|
            #![trigger self.lookup@[k1], self.lookup@[k2]]
            self.lookup@.contains_key(k1) && self.lookup@.contains_key(k2) && k1 != k2
                ==> self.lookup@[k1] != self.lookup@[k2]
        &&& self.order@.no_duplicates()
        &&& forall|k: Seq<char>| #[trigger] self.order@.contains(k) <==> self.lookup@.contains_key(k)
    }

    /// Whether `get(key)` completes: unlinking the key's node never locks it
    /// through a link to itself.
    pub closed spec fn get_completes(&self, key: Seq<char>) -> bool {
        self.lookup@.contains_key(key) ==> detach_safe(self.nodes@, self.lookup@[key] as int)
    }

    /// Whether inserting a new key evicts: the counter, once incremented,
    /// reaches the capacity.
    pub closed spec fn evicts_on_insert(&self) -> bool {
        self.length + 1 >= self.capacity
    }

    /// The value of the node at the tail once a new node holding `value` is
    /// linked in front.
    pub closed spec fn tail_value_after_insert(&self, value: Seq<char>) -> Seq<char> {
        match self.head {
            None => value,
            Some(_) => self.nodes@[self.tail.unwrap() as int].val@,
        }
    }

    /// The key that the reverse lookup gives for the evicted tail when a new
    /// node holding `value` is inserted.
    pub closed spec fn victim(&self, value: Seq<char>) -> Seq<char> {
        self.reverse_lookup@[self.tail_value_after_insert(value)]@
    }

    /// Whether `update(key, value)` completes: for a cached key, as
    /// `get_completes`; for a new key, the counter can be incremented, and an
    /// eviction finds a tail, unlinks it safely and finds its value in the
    /// reverse lookup.
    pub closed spec fn update_completes(&self, key: Seq<char>, value: Seq<char>) -> bool {
        if self.lookup@.contains_key(key) {
            detach_safe(self.nodes@, self.lookup@[key] as int)
        } else {
            &&& self.length < usize::MAX
            &&& self.evicts_on_insert() ==> {
                &&& (self.head is Some ==> self.tail is Some && (self.tail == self.head
                    || detach_safe(self.nodes@, self.tail.unwrap() as int)))
                &&& self.reverse_lookup@.contains_key(self.tail_value_after_insert(value))
            }
        }
    }
}

impl View for LRUCache {
    type V = Map<Seq<char>, Seq<char>>;

    /// Each cached key with the value of its node.
    closed spec fn view(&self) -> Map<Seq<char>, Seq<char>> {
        Map::new(
            |k: Seq<char>| self.lookup@.contains_key(k),
            |k: Seq<char>| self.nodes@[self.lookup@[k] as int].val@,
        )
    }
}

/// The cache contents after `update(key, value)`: the key maps to the value;
/// a new key that evicts first removes the victim.
pub open spec fn updated_view(
    view: Map<Seq<char>, Seq<char>>,
    cached: bool,
    evicts: bool,
    victim: Seq<char>,
    key: Seq<char>,
    value: Seq<char>,
) -> Map<Seq<char>, Seq<char>> {
    if !cached && evicts {
        view.remove(victim).insert(key, value)
    } else {
        view.insert(key, value)
    }
}

} // verus!

verus! {

impl LRUCache {
    /// An empty cache that starts evicting once `capacity` keys were inserted.
    pub fn new(capacity: usize) -> (c: LRUCache)
        ensures
            c.wf(),
            c@ == Map::<Seq<char>, Seq<char>>::empty(),
            c.keys() == Map::<Seq<char>, usize>::empty(),
            c.length() == 0,
            c.capacity() == capacity,
            forall|k: Seq<char>| #[trigger] c.get_completes(k),
            capacity >= 2 ==> forall|k: Seq<char>, v: Seq<char>| #[trigger] c.update_completes(k, v),
            c.recency() == Seq::<Seq<char>>::empty(),
            c.linked(),
    {
        let c = LRUCache {
            nodes: Vec::new(),
            head: None,
            tail: None,
            lookup: StringHashMap::new(),
            reverse_lookup: StringHashMap::new(),
            length: 0,
            capacity,
            order: Ghost(Seq::empty()),
        };
        assert(c@ =~= Map::<Seq<char>, Seq<char>>::empty());
        c
    }

    /// Whether the insertion counter has reached the capacity.
    pub fn at_capacity(&self) -> (b: bool)
        ensures
            b == (self.length() >= self.capacity()),
    {
        self.length >= self.capacity
    }

    fn detach(&mut self, i: usize)
        requires
            old(self).wf(),
            i < old(self).nodes@.len(),
            detach_safe(old(self).nodes@, i as int),
        ensures
            final(self).wf(),
            final(self).nodes@ == detach_nodes(old(self).nodes@, i as int),
            final(self).head == detach_head(old(self).nodes@, old(self).head, i as int),
            final(self).tail == detach_tail(old(self).nodes@, old(self).tail, i as int),
            final(self).lookup == old(self).lookup,
            final(self).reverse_lookup == old(self).reverse_lookup,
            final(self).length == old(self).length,
            final(self).capacity == old(self).capacity,
            final(self).order == old(self).order,
            final(self)@ == old(self)@,
    {
        proof {
            lemma_detach_keeps_values(self.nodes@, i as int);
        }
        let ghost ns0 = self.nodes@;
        if let Some(p) = self.nodes[i].prev {
            let n = self.nodes[i].next;
            self.nodes[p].next = n;
            self.nodes[i].next = None;
        }
        assert(self.nodes@ == detach_step1(ns0, i as int));
        let ghost ns1 = self.nodes@;
        if let Some(x) = self.nodes[i].next {
            let p = self.nodes[i].prev;
            self.nodes[x].prev = p;
            self.nodes[i].prev = None;
        }
        assert(self.nodes@ == detach_step2(ns1, i as int));
        if self.head == Some(i) {
            self.head = self.nodes[i].next;
        }
        if self.tail == Some(i) {
            self.tail = self.nodes[i].prev;
        }
        self.nodes[i].next = None;
        self.nodes[i].prev = None;
        assert(self@ =~= old(self)@);
    }

    fn prepend(&mut self, i: usize)
        requires
            old(self).wf(),
            i < old(self).nodes@.len(),
        ensures
            final(self).wf(),
            final(self).nodes@ == prepend_nodes(old(self).nodes@, old(self).head, i as int),
            final(self).head == Some(i),
            final(self).tail == prepend_tail(old(self).head, old(self).tail, i as int),
            final(self).lookup == old(self).lookup,
            final(self).reverse_lookup == old(self).reverse_lookup,
            final(self).length == old(self).length,
            final(self).capacity == old(self).capacity,
            final(self).order == old(self).order,
            final(self)@ == old(self)@,
    {
        match self.head {
            None => {
                self.head = Some(i);
                self.tail = Some(i);
            },
            Some(h) => {
                self.nodes[i].next = Some(h);
                self.nodes[h].prev = Some(i);
                self.head = Some(i);
            },
        }
        assert forall|j: int| 0 <= j < self.nodes@.len() implies link_ok(
            #[trigger] self.nodes@[j].next,
            self.nodes@.len(),
        ) && link_ok(self.nodes@[j].prev, self.nodes@.len()) by {
            assert(link_ok(old(self).nodes@[j].next, old(self).nodes@.len()));
            assert(link_ok(old(self).nodes@[j].prev, old(self).nodes@.len()));
        }
        assert(self@ =~= old(self)@);
    }
}

} // verus!

verus! {

impl LRUCache {
    fn trim_cache(&mut self)
        requires
            old(self).wf(),
            old(self).length >= old(self).capacity ==> {
                &&& old(self).tail is Some
                &&& detach_safe(old(self).nodes@, old(self).tail.unwrap() as int)
                &&& old(self).reverse_lookup@.contains_key(
                    old(self).nodes@[old(self).tail.unwrap() as int].val@,
                )
            },
        ensures
            final(self).wf(),
            final(self).length == old(self).length,
            final(self).capacity == old(self).capacity,
            final(self).nodes@.len() == old(self).nodes@.len(),
            forall|j: int|
                0 <= j < old(self).nodes@.len() ==> #[trigger] final(self).nodes@[j].val
                    == old(self).nodes@[j].val,
            final(self).nodes@ == if old(self).length >= old(self).capacity {
                detach_nodes(old(self).nodes@, old(self).tail.unwrap() as int)
            } else {
                old(self).nodes@
            },
            if old(self).length >= old(self).capacity {
                let t = old(self).tail.unwrap() as int;
                let v = old(self).nodes@[t].val@;
                &&& final(self).lookup@ == old(self).lookup@.remove(old(self).reverse_lookup@[v]@)
                &&& final(self).reverse_lookup@ == old(self).reverse_lookup@.remove(v)
                &&& final(self).order@ == without(old(self).order@, old(self).reverse_lookup@[v]@)
            } else {
                &&& final(self).lookup@ == old(self).lookup@
                &&& final(self).reverse_lookup@ == old(self).reverse_lookup@
                &&& final(self).order@ == old(self).order@
            },
            final(self).head == if old(self).length >= old(self).capacity {
                detach_head(old(self).nodes@, old(self).head, old(self).tail.unwrap() as int)
            } else {
                old(self).head
            },
            final(self).tail == if old(self).length >= old(self).capacity {
                detach_tail(old(self).nodes@, old(self).tail, old(self).tail.unwrap() as int)
            } else {
                old(self).tail
            },
    {
        if !self.at_capacity() {
            return ;
        }
        let t = self.tail.unwrap();
        proof {
            lemma_detach_keeps_values(self.nodes@, t as int);
        }
        self.detach(t);
        let key: String = self.reverse_lookup.get(self.nodes[t].val.as_str()).unwrap().clone();
        let val: String = self.nodes[t].val.clone();
        self.lookup.remove(key.as_str());
        self.reverse_lookup.remove(val.as_str());
        proof {
            lemma_without(self.order@, key@);
        }
        self.order = Ghost(without(self.order@, key@));
    }

    /// Caches `value` under `key` and makes it the most recent entry. A key
    /// already cached keeps its node; a new key gets a new node, the counter
    /// goes up, and when it reaches the capacity the tail is evicted first.
    #[verifier::rlimit(40)]
    pub fn update(&mut self, key: String, value: String)
        requires
            old(self).wf(),
            old(self).update_completes(key@, value@),
        ensures
            final(self).wf(),
            final(self)@ == updated_view(
                old(self)@,
                old(self)@.contains_key(key@),
                old(self).evicts_on_insert(),
                old(self).victim(value@),
                key@,
                value@,
            ),
            final(self).length() == if old(self)@.contains_key(key@) {
                old(self).length()
            } else {
                old(self).length() + 1
            },
            final(self).capacity() == old(self).capacity(),
            final(self).get_completes(key@),
            final(self).recency() == if old(self)@.contains_key(key@) {
                to_front(old(self).recency(), key@)
            } else if old(self).evicts_on_insert() {
                seq![key@] + without(old(self).recency(), old(self).victim(value@))
            } else {
                seq![key@] + old(self).recency()
            },
            old(self).linked() && !old(self)@.contains_key(key@) && (forall|k: Seq<char>|
                #[trigger] old(self)@.contains_key(k) ==> old(self)@[k] != value@) && (
            old(self).evicts_on_insert() ==> old(self).recency().len() > 0) ==> final(self).linked(),
    {
        let found: Option<usize> = match self.lookup.get(key.as_str()) {
            Some(i) => Some(*i),
            None => None,
        };
        match found {
            None => {
                let ghost old_view = self@;
                let n = self.nodes.len();
                self.nodes.push(LRUNode::new(value.clone()));
                self.length = self.length + 1;
                assert forall|j: int| 0 <= j < self.nodes@.len() implies link_ok(
                    #[trigger] self.nodes@[j].next,
                    self.nodes@.len(),
                ) && link_ok(self.nodes@[j].prev, self.nodes@.len()) by {
                    if j < n {
                        assert(link_ok(old(self).nodes@[j].next, old(self).nodes@.len()));
                        assert(link_ok(old(self).nodes@[j].prev, old(self).nodes@.len()));
                    }
                }
                let ghost pre = self.nodes@;
                let ghost hA = self.head;
                let ghost tA = self.tail;
                self.prepend(n);
                let ghost nsB = self.nodes@;
                let ghost tB = self.tail;
                proof {
                    if self.length >= self.capacity {
                        let t = self.tail.unwrap() as int;
                        assert(self.nodes@[t] == pre[t] || t == n || Some(t as usize)
                            == old(self).head);
                    }
                }
                let ghost before_trim = self.nodes@;
                proof {
                    if self.length >= self.capacity {
                        let t = self.tail.unwrap() as int;
                        if t != n {
                            assert(old(self).head is Some);
                            assert(before_trim[t].next == pre[t].next);
                            assert(link_ok(old(self).nodes@[t].next, n as nat));
                        }
                        lemma_detach_keeps_new_node_safe(before_trim, t, n as int);
                    }
                }
                self.trim_cache();
                self.lookup.insert(key.clone(), n);
                self.reverse_lookup.insert(value, key);
                assert forall|k1: Seq<char>, k2: Seq<char>|
                    self.lookup@.contains_key(k1) && self.lookup@.contains_key(k2) && k1 != k2
                        implies #[trigger] self.lookup@[k1] != #[trigger] self.lookup@[k2] by {
                    if k1 != key@ && k2 != key@ {
                        assert(old(self).lookup@[k1] != old(self).lookup@[k2]);
                    }
                }
                assert(self@ =~= updated_view(
                    old_view,
                    false,
                    old(self).evicts_on_insert(),
                    old(self).victim(value@),
                    key@,
                    value@,
                ));
                proof {
                    lemma_without(old(self).order@, old(self).victim(value@));
                    assert(!old(self).order@.contains(key@));
                    assert(!self.order@.contains(key@));
                    assert forall|x: Seq<char>| #[trigger] (seq![key@] + self.order@).contains(x)
                        <==> (x == key@ || self.order@.contains(x)) by {
                        let o2 = seq![key@] + self.order@;
                        if self.order@.contains(x) {
                            let j = choose|j: int| 0 <= j < self.order@.len() && self.order@[j] == x;
                            assert(o2[j + 1] == x);
                        }
                        if o2.contains(x) && x != key@ {
                            let j = choose|j: int| 0 <= j < o2.len() && o2[j] == x;
                            assert(self.order@[j - 1] == x);
                        }
                        assert(o2[0] == key@);
                    }
                    assert forall|a: int, b: int|
                        0 <= a < self.order@.len() + 1 && 0 <= b < self.order@.len() + 1 && a != b
                            implies (seq![key@] + self.order@)[a] != (seq![key@] + self.order@)[b] by {
                        if a > 0 && b > 0 {
                            assert(self.order@[a - 1] != self.order@[b - 1]);
                        } else if a == 0 {
                            assert(self.order@[b - 1] != key@);
                        } else {
                            assert(self.order@[a - 1] != key@);
                        }
                    }
                }
                self.order = Ghost(seq![key@] + self.order@);
                proof {
                    let o = old(self).order@;
                    let ix = old(self).node_order();
                    let cached = old(self)@.contains_key(key@);
                    if old(self).linked() && !cached && (forall|k: Seq<char>|
                        #[trigger] old(self)@.contains_key(k) ==> old(self)@[k] != value@) && (
                    old(self).evicts_on_insert() ==> o.len() > 0) {
                        old(self).lemma_node_order();
                        lemma_insert_front_list(
                            old(self).nodes@,
                            hA,
                            tA,
                            ix,
                            n,
                            pre,
                            nsB,
                            tB,
                            old(self).evicts_on_insert(),
                            self.nodes@,
                            self.head,
                            self.tail,
                        );
                        if old(self).evicts_on_insert() {
                            old(self).lemma_evicts_least_recent(value@);
                            assert(tB == Some(ix.last())) by {
                                assert((seq![n] + ix).last() == ix.last());
                            }
                            assert(ix.last() == old(self).lookup@[o.last()]) by {
                                assert(ix[ix.len() - 1] == old(self).lookup@[o[o.len() - 1]]);
                            }
                        }
                        assert forall|x: Seq<char>| #[trigger]
                            old(self).lookup@.contains_key(x) implies old(self).nodes@[old(
                            self,
                        ).lookup@[x] as int].val@ != value@ by {
                            assert(old(self)@.contains_key(x));
                        }
                        lemma_new_key_keys(
                            old(self).lookup@,
                            old(self).reverse_lookup@,
                            old(self).nodes@,
                            o,
                            key@,
                            value@,
                            n,
                            old(self).evicts_on_insert(),
                            self.lookup@,
                            self.reverse_lookup@,
                            self.nodes@,
                            self.order@,
                        );
                        assert(self.forward_linked());
                    }
                }
            },
            Some(i) => {
                proof {
                    lemma_detach_unlinks(self.nodes@, self.head, i as int);
                }
                self.detach(i);
                self.prepend(i);
                self.nodes[i].val = value;
                assert(self@ =~= old(self)@.insert(key@, value@));
                proof {
                    lemma_to_front(self.order@, key@);
                }
                self.order = Ghost(to_front(self.order@, key@));
            },
        }
    }

    /// The value cached under `key`, making it the most recent entry.
    pub fn get(&mut self, key: &String) -> (r: Option<String>)
        requires
            old(self).wf(),
            old(self).get_completes(key@),
        ensures
            final(self).wf(),
            final(self)@ == old(self)@,
            final(self).keys() == old(self).keys(),
            final(self).length() == old(self).length(),
            final(self).capacity() == old(self).capacity(),
            match r {
                Some(v) => old(self)@.contains_key(key@) && v@ == old(self)@[key@],
                None => !old(self)@.contains_key(key@),
            },
            r is None ==> *final(self) == *old(self),
            r is Some ==> final(self).recency() == to_front(old(self).recency(), key@),
            old(self).linked() ==> final(self).forward_linked(),
            old(self).linked() && old(self).recency().len() > 0 && (key@ == old(self).recency()[0]
                || key@ == old(self).recency().last()) ==> final(self).linked(),
    {
        let found: Option<usize> = match self.lookup.get(key.as_str()) {
            Some(i) => Some(*i),
            None => None,
        };
        match found {
            None => None,
            Some(i) => {
                proof {
                    lemma_detach_unlinks(self.nodes@, self.head, i as int);
                }
                let ghost ns0 = self.nodes@;
                let ghost h0 = self.head;
                let ghost t0 = self.tail;
                self.detach(i);
                let ghost ns1 = self.nodes@;
                let ghost h1 = self.head;
                let ghost t1 = self.tail;
                self.prepend(i);
                proof {
                    let o = old(self).order@;
                    lemma_to_front(o, key@);
                    old(self).lemma_node_order();
                    assert(o.contains(key@));
                    let p = o.index_of(key@);
                    let ix = old(self).node_order();
                    assert(ix[p] == i);
                    lemma_map_to_front(o, key@, |k: Seq<char>| old(self).lookup@[k]);
                    if old(self).linked() {
                        lemma_detach_list(ns0, h0, t0, ix, p);
                        lemma_prepend_list(ns1, h1, t1, ix.remove(p), i);
                        if key@ == o[0] {
                            assert(p == 0);
                        }
                        if key@ == o.last() {
                            assert(p == o.len() - 1);
                        }
                    }
                }
                self.order = Ghost(to_front(self.order@, key@));
                proof {
                    assert(self.node_order() == seq![i] + old(self).node_order().remove(
                        old(self).order@.index_of(key@),
                    ));
                    if old(self).linked() {
                        assert forall|k: Seq<char>| #[trigger]
                            self.lookup@.contains_key(k) implies {
                            let v = self.nodes@[self.lookup@[k] as int].val@;
                            self.reverse_lookup@.contains_key(v) && self.reverse_lookup@[v]@ == k
                        } by {
                            assert(old(self).lookup@.contains_key(k));
                            assert(self.nodes@[self.lookup@[k] as int].val
                                == old(self).nodes@[old(self).lookup@[k] as int].val);
                        }
                    }
                }
                Some(self.nodes[i].val.clone())
            },
        }
    }
}

} // verus!

verus! {

impl LRUCache {
    fn detach_safe_at(&self, i: usize) -> (b: bool)
        requires
            i < self.nodes@.len(),
        ensures
            b == detach_safe(self.nodes@, i as int),
    {
        let prev_ok = match self.nodes[i].prev {
            Some(p) => p != i,
            None => true,
        };
        let next_ok = match self.nodes[i].prev {
            Some(_) => true,
            None => match self.nodes[i].next {
                Some(x) => x != i,
                None => true,
            },
        };
        prev_ok && next_ok
    }

    /// Whether `get(key)` would complete (see `get_completes`).
    pub fn can_get(&self, key: &String) -> (b: bool)
        requires
            self.wf(),
        ensures
            b == self.get_completes(key@),
    {
        match self.lookup.get(key.as_str()) {
            Some(i) => self.detach_safe_at(*i),
            None => true,
        }
    }

    /// Whether `update(key, value)` would complete (see `update_completes`).
    pub fn can_update(&self, key: &String, value: &String) -> (b: bool)
        requires
            self.wf(),
        ensures
            b == self.update_completes(key@, value@),
    {
        match self.lookup.get(key.as_str()) {
            Some(i) => self.detach_safe_at(*i),
            None => {
                if self.length == usize::MAX {
                    return false;
                }
                if self.length + 1 < self.capacity {
                    return true;
                }
                match self.head {
                    None => self.reverse_lookup.contains_key(value.as_str()),
                    Some(h) => match self.tail {
                        None => false,
                        Some(t) => {
                            if t != h && !self.detach_safe_at(t) {
                                return false;
                            }
                            self.reverse_lookup.contains_key(self.nodes[t].val.as_str())
                        },
                    },
                }
            },
        }
    }
}

/// A read gives back what a write wrote: after `update(key, value)` the cache
/// maps `key` to `value`, whether or not a key was evicted.
pub proof fn lemma_update_then_get(
    view: Map<Seq<char>, Seq<char>>,
    cached: bool,
    evicts: bool,
    victim: Seq<char>,
    key: Seq<char>,
    value: Seq<char>,
)
    ensures
        updated_view(view, cached, evicts, victim, key, value).contains_key(key),
        updated_view(view, cached, evicts, victim, key, value)[key] == value,
{
}

/// An update leaves every other key as it was, except the victim of an
/// eviction, which is then no longer cached.
pub proof fn lemma_update_keeps_others(
    view: Map<Seq<char>, Seq<char>>,
    cached: bool,
    evicts: bool,
    victim: Seq<char>,
    key: Seq<char>,
    value: Seq<char>,
    other: Seq<char>,
)
    requires
        other != key,
    ensures
        !cached && evicts && other == victim ==> !updated_view(
            view,
            cached,
            evicts,
            victim,
            key,
            value,
        ).contains_key(other),
        !(!cached && evicts && other == victim) ==> updated_view(
            view,
            cached,
            evicts,
            victim,
            key,
            value,
        ).contains_key(other) == view.contains_key(other) && (view.contains_key(other)
            ==> updated_view(view, cached, evicts, victim, key, value)[other] == view[other]),
{
}

/// Updating a key that is already cached never evicts: the cached keys stay
/// the same.
pub proof fn lemma_update_cached_keeps_keys(
    view: Map<Seq<char>, Seq<char>>,
    evicts: bool,
    victim: Seq<char>,
    key: Seq<char>,
    value: Seq<char>,
)
    requires
        view.contains_key(key),
    ensures
        updated_view(view, true, evicts, victim, key, value).dom() == view.dom(),
{
    assert(updated_view(view, true, evicts, victim, key, value).dom() =~= view.dom());
}

} // verus!
