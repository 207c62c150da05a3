//! Per-key scan sessions for embedded use: each owning key (a window, a
//! connection) has at most one running scan; starting a new one signals the
//! prior scan's cancellation flag before taking its place, and a finished
//! scan's entry is removed whatever way it ended.

use vstd::prelude::*;
use vstd::pervasive::VecAdditionalExecFns;
use crate::text::str_eq;
use crate::walk::CancelFlag;

verus! {

/// One owning key and the cancellation flag of its running scan.
pub struct Session {
    pub key: String,
    pub flag: CancelFlag,
}

/// `entries` holds `key`.
pub open spec fn spec_has_key(entries: Seq<Session>, key: Seq<char>) -> bool {
    exists|i: int| 0 <= i < entries.len() && entries[i].key@ == key
}

/// The registry of running scans, one per owning key.
pub struct SessionRegistry {
    pub entries: Vec<Session>,
}

impl SessionRegistry {
    /// Keys are unique.
    pub open spec fn wf(&self) -> bool {
        forall|i: int, j: int|
            0 <= i < j < self.entries@.len() ==> self.entries@[i].key@ != self.entries@[j].key@
    }

    /// An empty registry.
    pub fn new() -> (r: SessionRegistry)
        ensures
            r.wf(),
            r.entries@.len() == 0,
    {
        SessionRegistry { entries: Vec::new() }
    }

    fn find(&self, key: &str) -> (r: Option<usize>)
        ensures
            match r {
                Some(i) => i < self.entries@.len() && self.entries@[i as int].key@ == key@,
                None => !spec_has_key(self.entries@, key@),
            },
    {
        let mut i: usize = 0;
        while i < self.entries.len()
            invariant
                i <= self.entries@.len(),
                forall|k: int| 0 <= k < i ==> self.entries@[k].key@ != key@,
            decreases self.entries@.len() - i,
        {
            if str_eq(self.entries[i].key.as_str(), key) {
                return Some(i);
            }
            i = i + 1;
        }
        None
    }

    /// Start a scan for `key`: any prior scan under the same key is signalled
    /// to cancel and replaced. The returned flag is a handle to the one now
    /// registered; no other key's entry changes.
    pub fn begin(&mut self, key: &str) -> (flag: CancelFlag)
        requires
            old(self).wf(),
        ensures
            final(self).wf(),
            spec_has_key(final(self).entries@, key@),
            forall|i: int|
                0 <= i < old(self).entries@.len() && old(self).entries@[i].key@ != key@
                    ==> final(self).entries@.contains(old(self).entries@[i]),
            forall|i: int|
                0 <= i < final(self).entries@.len() ==> final(self).entries@[i].key@ == key@
                    || old(self).entries@.contains(final(self).entries@[i]),
    {
        let fresh = CancelFlag::new();
        let session = Session { key: key.to_owned(), flag: fresh.handle() };
        match self.find(key) {
            Some(i) => {
                self.entries[i].flag.set();
                let ghost pre = self.entries@;
                self.entries.set(i, session);
                proof {
                    assert(spec_has_key(self.entries@, key@)) by {
                        assert(self.entries@[i as int].key@ == key@);
                    }
                    assert forall|q: int|
                        0 <= q < pre.len() && pre[q].key@ != key@ implies final(self).entries@.contains(pre[q]) by {
                        assert(self.entries@[q] == pre[q]);
                    }
                    assert forall|q: int| 0 <= q < self.entries@.len() implies self.entries@[q].key@
                        == key@ || pre.contains(self.entries@[q]) by {
                        if q != i {
                            assert(self.entries@[q] == pre[q]);
                        }
                    }
                }
            },
            None => {
                let ghost pre = self.entries@;
                self.entries.push(session);
                proof {
                    assert(spec_has_key(self.entries@, key@)) by {
                        assert(self.entries@[pre.len() as int].key@ == key@);
                    }
                    assert forall|q: int|
                        0 <= q < pre.len() && pre[q].key@ != key@ implies final(self).entries@.contains(pre[q]) by {
                        assert(self.entries@[q] == pre[q]);
                    }
                    assert forall|q: int| 0 <= q < self.entries@.len() implies self.entries@[q].key@
                        == key@ || pre.contains(self.entries@[q]) by {
                        if q < pre.len() {
                            assert(self.entries@[q] == pre[q]);
                        }
                    }
                }
            },
        }
        fresh
    }

    /// Signal the running scan under `key`, if any; the registry itself is
    /// unchanged (the scan's own teardown removes the entry).
    pub fn cancel(&self, key: &str) -> (r: bool)
        ensures
            r == spec_has_key(self.entries@, key@),
    {
        match self.find(key) {
            Some(i) => {
                self.entries[i].flag.set();
                proof {
                    assert(self.entries@[i as int].key@ == key@);
                }
                true
            },
            None => false,
        }
    }

    /// Drop the entry under `key`, however its scan ended.
    pub fn finish(&mut self, key: &str)
        requires
            old(self).wf(),
        ensures
            final(self).wf(),
            !spec_has_key(final(self).entries@, key@),
            forall|i: int|
                0 <= i < old(self).entries@.len() && old(self).entries@[i].key@ != key@
                    ==> final(self).entries@.contains(old(self).entries@[i]),
    {
        match self.find(key) {
            Some(i) => {
                let ghost pre = self.entries@;
                let _ = self.entries.remove(i);
                proof {
                    pre.remove_ensures(i as int);
                    assert forall|q: int|
                        0 <= q < self.entries@.len() implies self.entries@[q].key@ != key@ by {
                        if q < i {
                            assert(self.entries@[q] == pre[q]);
                        } else {
                            assert(self.entries@[q] == pre[q + 1]);
                        }
                    }
                    assert forall|q: int|
                        0 <= q < pre.len() && pre[q].key@ != key@ implies final(self).entries@.contains(pre[q]) by {
                        if q < i {
                            assert(self.entries@[q] == pre[q]);
                        } else {
                            assert(q > i);
                            assert(self.entries@[q - 1] == pre[q]);
                        }
                    }
                }
            },
            None => {
            },
        }
    }
}

} // verus!
