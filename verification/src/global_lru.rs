//! The cache of recently used documents, and when the listener that keeps an
//! agent up to date with them is due.

use vstd::prelude::*;

use crate::lru::{updated_view, LRUCache};
use crate::runes::{CacheError, CacheResult};

verus! {

/// After this many document updates the listener is told to update its
/// agent, unless it still has an update to take.
pub const AMT_CHANGES_TO_TRIGGER_UPDATE: usize = 5;

/// The recent documents, the count of updates since the listener was last
/// told, and whether an update awaits the listener.
pub struct GlobalLRU {
    pub docs: LRUCache,
    pub updates_counter: usize,
    /// Set when the listener is told to update its agent; the listener
    /// clears it when it takes the update.
    pub listener_update: bool,
}

impl Default for GlobalLRU {
    fn default() -> (g: Self)
        ensures
            g.docs.wf(),
            g.docs@ == Map::<Seq<char>, Seq<char>>::empty(),
            g.docs.capacity() == 5,
            g.counter() == 0,
            !g.listener_update,
    {
        GlobalLRU { docs: LRUCache::new(5), updates_counter: 0, listener_update: false }
    }
}

impl GlobalLRU {
    pub open spec fn counter(&self) -> nat {
        self.updates_counter as nat
    }

    pub fn docs_at_capacity(&self) -> (b: bool)
        ensures
            b == (self.docs.length() >= self.docs.capacity()),
    {
        self.docs.at_capacity()
    }

    /// The cached text of the document at `url`.
    pub fn get_doc(&mut self, url: &String) -> (r: CacheResult<String>)
        requires
            old(self).docs.wf(),
            old(self).docs.get_completes(url@),
        ensures
            final(self).docs.wf(),
            final(self).docs@ == old(self).docs@,
            final(self).counter() == old(self).counter(),
            final(self).listener_update == old(self).listener_update,
            match r {
                Ok(t) => old(self).docs@.contains_key(url@) && t@ == old(self).docs@[url@],
                Err(e) => !old(self).docs@.contains_key(url@) && e == CacheError::NotPresent,
            },
    {
        match self.docs.get(url) {
            Some(t) => Ok(t),
            None => Err(CacheError::NotPresent),
        }
    }

    /// Caches `text` as the document at `url`, then counts the update.
    pub fn update_doc(&mut self, text: &str, url: String) -> (r: CacheResult<()>)
        requires
            old(self).docs.wf(),
            old(self).docs.update_completes(url@, text@),
            old(self).counter() < usize::MAX,
        ensures
            r is Ok,
            final(self).docs.wf(),
            final(self).docs@ == updated_view(
                old(self).docs@,
                old(self).docs@.contains_key(url@),
                old(self).docs.evicts_on_insert(),
                old(self).docs.victim(text@),
                url@,
                text@,
            ),
            counted(
                old(self).counter(),
                old(self).listener_update,
                final(self).counter(),
                final(self).listener_update,
            ),
    {
        self.docs.update(url, text.to_owned());
        self.increment_lru_updates_counter()
    }

    fn increment_lru_updates_counter(&mut self) -> (r: CacheResult<()>)
        requires
            old(self).counter() < usize::MAX,
        ensures
            r is Ok,
            final(self).docs == old(self).docs,
            counted(
                old(self).counter(),
                old(self).listener_update,
                final(self).counter(),
                final(self).listener_update,
            ),
    {
        let should_trigger = self.listener_update;
        self.updates_counter = self.updates_counter + 1;
        if self.updates_counter >= AMT_CHANGES_TO_TRIGGER_UPDATE && !should_trigger {
            self.listener_update = true;
            self.updates_counter = 0;
        }
        Ok(())
    }
}

/// One update counted: the count goes up, and once it reaches
/// `AMT_CHANGES_TO_TRIGGER_UPDATE` with no update awaiting the listener, the
/// listener is told and the count starts over.
pub open spec fn counted(old_count: nat, old_pending: bool, count: nat, pending: bool) -> bool {
    if old_count + 1 >= AMT_CHANGES_TO_TRIGGER_UPDATE && !old_pending {
        count == 0 && pending
    } else {
        count == old_count + 1 && pending == old_pending
    }
}

/// From a fresh count with nothing awaiting the listener, the listener is
/// told exactly at the fifth update.
pub proof fn lemma_told_at_fifth_update(c: Seq<nat>, p: Seq<bool>)
    requires
        c.len() == 6,
        p.len() == 6,
        c[0] == 0,
        !p[0],
        forall|i: int| 0 <= i < 5 ==> counted(c[i], p[i], #[trigger] c[i + 1], p[i + 1]),
    ensures
        forall|i: int| 0 <= i < 5 ==> !(#[trigger] p[i]),
        p[5],
        c[5] == 0,
{
    assert(counted(c[0], p[0], c[1], p[1]));
    assert(counted(c[1], p[1], c[2], p[2]));
    assert(counted(c[2], p[2], c[3], p[3]));
    assert(counted(c[3], p[3], c[4], p[4]));
    assert(counted(c[4], p[4], c[5], p[5]));
}

} // verus!
