use vstd::prelude::*;
use crate::actions::{ActionInfo, ActionRecordV};

verus! {

/// One ledger slot: an external action identifier and its pending record.
struct ActionEntry {
    id: Vec<u8>,
    info: ActionInfo,
}

/// Whether some slot of `s` carries the key `k`.
spec fn has_key(s: Seq<ActionEntry>, k: Seq<u8>) -> bool {
    exists|i: int| 0 <= i < s.len() && (#[trigger] s[i]).id@ == k
}

/// The index of the slot of `s` carrying `k` (meaningful when `has_key`).
spec fn key_index(s: Seq<ActionEntry>, k: Seq<u8>) -> int {
    choose|i: int| 0 <= i < s.len() && (#[trigger] s[i]).id@ == k
}

/// The mapping the slots of `s` stand for.
spec fn map_of(s: Seq<ActionEntry>) -> Map<Seq<u8>, ActionRecordV> {
    Map::new(|k: Seq<u8>| has_key(s, k), |k: Seq<u8>| s[key_index(s, k)].info@)
}

/// No two slots carry the same key.
spec fn unique_keys(s: Seq<ActionEntry>) -> bool {
    forall|i: int, j: int| 0 <= i < j < s.len() ==> (#[trigger] s[i]).id@ != (#[trigger] s[j]).id@
}

/// Keys are unique and every record is well-formed.
spec fn entries_wf(s: Seq<ActionEntry>) -> bool {
    &&& unique_keys(s)
    &&& forall|i: int| 0 <= i < s.len() ==> (#[trigger] s[i]).info.wf()
}

proof fn lemma_key_index(s: Seq<ActionEntry>, k: Seq<u8>)
    requires
        has_key(s, k),
    ensures
        0 <= key_index(s, k) < s.len(),
        s[key_index(s, k)].id@ == k,
{
}

/// With unique keys, any slot carrying `k` is the slot `key_index` picks.
proof fn lemma_unique_index(s: Seq<ActionEntry>, k: Seq<u8>, i: int)
    requires
        unique_keys(s),
        0 <= i < s.len(),
        s[i].id@ == k,
    ensures
        has_key(s, k),
        key_index(s, k) == i,
{
    assert(has_key(s, k));
    lemma_key_index(s, k);
}

/// Appending a slot with a fresh key inserts it into the mapping.
proof fn lemma_map_of_push(s: Seq<ActionEntry>, e: ActionEntry)
    requires
        unique_keys(s),
        !has_key(s, e.id@),
    ensures
        unique_keys(s.push(e)),
        map_of(s.push(e)) =~= map_of(s).insert(e.id@, e.info@),
{
    let s2 = s.push(e);
    assert forall|i: int, j: int| 0 <= i < j < s2.len() implies (#[trigger] s2[i]).id@ != (
    #[trigger] s2[j]).id@ by {
        if j == s.len() {
            assert(s2[i] == s[i]);
            if s[i].id@ == e.id@ {
                assert(has_key(s, e.id@));
            }
        } else {
            assert(s2[i] == s[i] && s2[j] == s[j]);
        }
    }
    let m1 = map_of(s).insert(e.id@, e.info@);
    let m2 = map_of(s2);
    assert forall|k: Seq<u8>| #[trigger] m2.dom().contains(k) implies m1.dom().contains(k)
        && m1[k] == m2[k] by {
        lemma_key_index(s2, k);
        let i = key_index(s2, k);
        if i == s.len() {
            assert(s2[i] == e);
            assert(k == e.id@);
            assert(m1[k] == e.info@);
        } else {
            assert(s2[i] == s[i]);
            lemma_unique_index(s, k, i);
            assert(m1.dom().contains(k));
            assert(m1[k] == s[i].info@);
        }
    }
    assert forall|k: Seq<u8>| #[trigger] m1.dom().contains(k) implies m2.dom().contains(k) by {
        if k == e.id@ {
            assert(s2[s.len() as int] == e);
            lemma_unique_index(s2, k, s.len() as int);
        } else {
            lemma_key_index(s, k);
            let i = key_index(s, k);
            assert(s2[i] == s[i]);
            lemma_unique_index(s2, k, i);
        }
    }
}

/// Removing the slot at `i` removes its key from the mapping.
proof fn lemma_map_of_remove(s: Seq<ActionEntry>, i: int)
    requires
        unique_keys(s),
        0 <= i < s.len(),
    ensures
        unique_keys(s.remove(i)),
        !has_key(s.remove(i), s[i].id@),
        map_of(s.remove(i)) =~= map_of(s).remove(s[i].id@),
{
    let s2 = s.remove(i);
    let k0 = s[i].id@;
    s.remove_ensures(i);
    assert forall|a: int, b: int| 0 <= a < b < s2.len() implies (#[trigger] s2[a]).id@ != (
    #[trigger] s2[b]).id@ by {
        let a0: int = if a < i { a } else { a + 1 };
        let b0: int = if b < i { b } else { b + 1 };
        assert(s2[a] == s[a0]);
        assert(s2[b] == s[b0]);
    }
    assert forall|j: int| 0 <= j < s2.len() implies (#[trigger] s2[j]).id@ != k0 by {
        let j0: int = if j < i { j } else { j + 1 };
        assert(s2[j] == s[j0]);
    }
    let m1 = map_of(s).remove(k0);
    let m2 = map_of(s2);
    assert forall|k: Seq<u8>| #[trigger] m2.dom().contains(k) implies m1.dom().contains(k)
        && m1[k] == m2[k] by {
        lemma_key_index(s2, k);
        let j = key_index(s2, k);
        let j0: int = if j < i { j } else { j + 1 };
        assert(s2[j] == s[j0]);
        lemma_unique_index(s, k, j0);
        assert(k != k0);
    }
    assert forall|k: Seq<u8>| #[trigger] m1.dom().contains(k) implies m2.dom().contains(k) by {
        lemma_key_index(s, k);
        let j0 = key_index(s, k);
        assert(j0 != i);
        let j: int = if j0 < i { j0 } else { j0 - 1 };
        assert(s2[j] == s[j0]);
        lemma_unique_index(s2, k, j);
    }
}

/// Compares two byte strings.
fn bytes_eq(a: &Vec<u8>, b: &Vec<u8>) -> (r: bool)
    ensures
        r == (a@ == b@),
{
    if a.len() != b.len() {
        return false;
    }
    let mut i: usize = 0;
    while i < a.len()
        invariant
            a@.len() == b@.len(),
            i <= a@.len(),
            forall|j: int| 0 <= j < i ==> a@[j] == b@[j],
        decreases a@.len() - i,
    {
        if a[i] != b[i] {
            return false;
        }
        i += 1;
    }
    proof {
        assert(a@ =~= b@);
    }
    true
}

/// The durable mapping from external action identifiers to pending records.
/// An identifier is an opaque byte string chosen by the relaying party; it is
/// never compared against the ids this chain assigns to outbound actions.
/// Records persist until they reach full-registry confirmation: there is no
/// expiry.
pub struct ActionLedger {
    entries: Vec<ActionEntry>,
}

impl View for ActionLedger {
    type V = Map<Seq<u8>, ActionRecordV>;

    closed spec fn view(&self) -> Map<Seq<u8>, ActionRecordV> {
        map_of(self.entries@)
    }
}

impl ActionLedger {
    /// Keys are unique and every stored record is well-formed.
    pub closed spec fn wf(self) -> bool {
        entries_wf(self.entries@)
    }

    /// An empty ledger.
    pub fn new() -> (r: ActionLedger)
        ensures
            r.wf(),
            r@ =~= Map::<Seq<u8>, ActionRecordV>::empty(),
    {
        let r = ActionLedger { entries: Vec::new() };
        proof {
            assert(r@ =~= Map::<Seq<u8>, ActionRecordV>::empty());
        }
        r
    }

    /// The index of the slot carrying `id`, if any.
    fn find(&self, id: &Vec<u8>) -> (r: Option<usize>)
        ensures
            match r {
                Some(i) => i < self.entries@.len() && self.entries@[i as int].id@ == id@,
                None => !has_key(self.entries@, id@),
            },
    {
        let mut i: usize = 0;
        while i < self.entries.len()
            invariant
                i <= self.entries@.len(),
                forall|j: int| 0 <= j < i ==> (#[trigger] self.entries@[j]).id@ != id@,
            decreases self.entries@.len() - i,
        {
            if bytes_eq(&self.entries[i].id, id) {
                return Some(i);
            }
            i += 1;
        }
        proof {
            if has_key(self.entries@, id@) {
                lemma_key_index(self.entries@, id@);
            }
        }
        None
    }

    /// The record stored under `id`, if any.
    pub fn get(&self, id: &Vec<u8>) -> (r: Option<&ActionInfo>)
        requires
            self.wf(),
        ensures
            match r {
                Some(info) => self@.contains_key(id@) && info@ == self@[id@] && info.wf(),
                None => !self@.contains_key(id@),
            },
    {
        match self.find(id) {
            Some(i) => {
                proof {
                    lemma_unique_index(self.entries@, id@, i as int);
                }
                Some(&self.entries[i].info)
            },
            None => None,
        }
    }

    /// Removes and returns the record stored under `id`, if any.
    pub fn remove(&mut self, id: &Vec<u8>) -> (r: Option<ActionInfo>)
        requires
            old(self).wf(),
        ensures
            final(self).wf(),
            match r {
                Some(info) => old(self)@.contains_key(id@) && info@ == old(self)@[id@]
                    && info.wf() && final(self)@ == old(self)@.remove(id@),
                None => !old(self)@.contains_key(id@) && final(self)@ == old(self)@,
            },
    {
        let ghost s0 = self.entries@;
        match self.find(id) {
            Some(i) => {
                proof {
                    lemma_unique_index(s0, id@, i as int);
                    lemma_map_of_remove(s0, i as int);
                }
                let e = self.entries.remove(i);
                proof {
                    assert forall|j: int| 0 <= j < self.entries@.len() implies (
                    #[trigger] self.entries@[j]).info.wf() by {
                        let j0: int = if j < i as int { j } else { j + 1 };
                        s0.remove_ensures(i as int);
                        assert(self.entries@[j] == s0[j0]);
                    }
                }
                Some(e.info)
            },
            None => None,
        }
    }

    /// Stores `info` under `id`, replacing any record already there.
    pub fn upsert(&mut self, id: Vec<u8>, info: ActionInfo)
        requires
            old(self).wf(),
            info.wf(),
        ensures
            final(self).wf(),
            final(self)@ =~= old(self)@.insert(id@, info@),
    {
        let ghost s0 = self.entries@;
        let ghost mut mid = s0;
        match self.find(&id) {
            Some(i) => {
                proof {
                    lemma_unique_index(s0, id@, i as int);
                    lemma_map_of_remove(s0, i as int);
                }
                let _removed = self.entries.remove(i);
                proof {
                    mid = self.entries@;
                    s0.remove_ensures(i as int);
                    assert forall|j: int| 0 <= j < mid.len() implies (
                    #[trigger] mid[j]).info.wf() by {
                        let j0: int = if j < i as int { j } else { j + 1 };
                        assert(mid[j] == s0[j0]);
                    }
                }
            },
            None => {
            },
        }
        let e = ActionEntry { id, info };
        proof {
            lemma_map_of_push(mid, e);
        }
        self.entries.push(e);
        proof {
            assert forall|j: int| 0 <= j < self.entries@.len() implies (
            #[trigger] self.entries@[j]).info.wf() by {
                if j < mid.len() {
                    assert(self.entries@[j] == mid[j]);
                } else {
                    assert(self.entries@[j] == e);
                }
            }
            assert(map_of(self.entries@) =~= map_of(s0).insert(e.id@, e.info@));
        }
    }
}

} // verus!
