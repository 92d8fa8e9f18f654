use vstd::prelude::*;

use crate::principal::Principal;

verus! {

/// Strictly ascending, hence free of repeats.
pub open spec fn sorted(s: Seq<u64>) -> bool {
    forall|i: int, j: int| 0 <= i < j < s.len() ==> s[i] < s[j]
}

/// The tokens one holder has, as ascending 64-bit token keys.
#[derive(Clone, Debug)]
pub struct OwnerTokens {
    pub holder: Principal,
    pub ids: Vec<u64>,
}

/// Whether the reverse index records `holder` as holding `id`.
pub open spec fn holds(index: Seq<OwnerTokens>, holder: Seq<u8>, id: u64) -> bool {
    exists|i: int|
        0 <= i < index.len() && #[trigger] index[i].holder@ == holder && index[i].ids@.contains(id)
}

/// Each holder has at most one entry, and each entry is ascending.
pub open spec fn index_wf(index: Seq<OwnerTokens>) -> bool {
    &&& forall|i: int, j: int|
        0 <= i < index.len() && 0 <= j < index.len() && i != j ==> index[i].holder@
            != index[j].holder@
    &&& forall|i: int| 0 <= i < index.len() ==> sorted(#[trigger] index[i].ids@)
}

impl OwnerTokens {
    /// An entry for `holder` with no tokens.
    pub fn new(holder: Principal) -> (r: OwnerTokens)
        ensures
            r.holder == holder,
            r.ids@ == Seq::<u64>::empty(),
    {
        OwnerTokens { holder, ids: Vec::new() }
    }

    /// How many tokens the holder has.
    pub fn balance_of(&self) -> (r: u64)
        ensures
            r == self.ids@.len(),
    {
        self.ids.len() as u64
    }

    /// Whether the holder has `id`.
    pub fn contains(&self, id: u64) -> (r: bool)
        ensures
            r == self.ids@.contains(id),
    {
        let mut i: usize = 0;
        while i < self.ids.len()
            invariant
                i <= self.ids@.len(),
                forall|k: int| 0 <= k < i ==> self.ids@[k] != id,
            decreases self.ids@.len() - i,
        {
            if self.ids[i] == id {
                return true;
            }
            i = i + 1;
        }
        false
    }

    /// Records `id` as held, keeping the list ascending.
    pub fn insert_id(&mut self, id: u64)
        requires
            sorted(old(self).ids@),
        ensures
            sorted(final(self).ids@),
            final(self).holder == old(self).holder,
            forall|x: u64| #[trigger]
                final(self).ids@.contains(x) <==> (old(self).ids@.contains(x) || x == id),
    {
        let mut p: usize = 0;
        while p < self.ids.len() && self.ids[p] < id
            invariant
                p <= self.ids@.len(),
                forall|k: int| 0 <= k < p ==> self.ids@[k] < id,
            decreases self.ids@.len() - p,
        {
            p = p + 1;
        }
        if p < self.ids.len() && self.ids[p] == id {
            return;
        }
        let ghost before = self.ids@;
        self.ids.insert(p, id);
        assert(self.ids@ == before.insert(p as int, id));
        assert forall|x: u64| #[trigger]
            self.ids@.contains(x) <==> (before.contains(x) || x == id) by {
            if self.ids@.contains(x) {
                let k = choose|k: int| 0 <= k < self.ids@.len() && self.ids@[k] == x;
                if k < p {
                    assert(before[k] == x);
                } else if k > p {
                    assert(before[k - 1] == x);
                }
            }
            if before.contains(x) {
                let k = choose|k: int| 0 <= k < before.len() && before[k] == x;
                if k < p {
                    assert(self.ids@[k] == x);
                } else {
                    assert(self.ids@[k + 1] == x);
                }
            }
            if x == id {
                assert(self.ids@[p as int] == x);
            }
        }
    }

    /// Drops `id` from the list, returning how many tokens remain.
    pub fn clear_for_transfer(&mut self, id: u64) -> (r: usize)
        requires
            sorted(old(self).ids@),
        ensures
            sorted(final(self).ids@),
            final(self).holder == old(self).holder,
            r == final(self).ids@.len(),
            forall|x: u64| #[trigger]
                final(self).ids@.contains(x) <==> (old(self).ids@.contains(x) && x != id),
    {
        let mut i: usize = 0;
        while i < self.ids.len()
            invariant
                i <= self.ids@.len(),
                self.ids@ == old(self).ids@,
                self.holder == old(self).holder,
                sorted(self.ids@),
                forall|k: int| 0 <= k < i ==> self.ids@[k] != id,
            decreases self.ids@.len() - i,
        {
            if self.ids[i] == id {
                let ghost before = self.ids@;
                self.ids.remove(i);
                assert(self.ids@ == before.remove(i as int));
                assert(sorted(self.ids@)) by {
                    assert forall|a: int, b: int| 0 <= a < b < self.ids@.len() implies self.ids@[a]
                        < self.ids@[b] by {
                        let a0 = if a < i { a } else { a + 1 };
                        let b0 = if b < i { b } else { b + 1 };
                        assert(self.ids@[a] == before[a0] && self.ids@[b] == before[b0]);
                        assert(sorted(before));
                        assert(before[a0] < before[b0]);
                    }
                }
                assert forall|x: u64| #[trigger]
                    self.ids@.contains(x) <==> (before.contains(x) && x != id) by {
                    if self.ids@.contains(x) {
                        let k = choose|k: int| 0 <= k < self.ids@.len() && self.ids@[k] == x;
                        assert(sorted(before));
                        if k < i {
                            assert(before[k] == x);
                            assert(before[k] < before[i as int]);
                        } else {
                            assert(before[k + 1] == x);
                            assert(before[i as int] < before[k + 1]);
                        }
                    }
                    if before.contains(x) && x != id {
                        let k = choose|k: int| 0 <= k < before.len() && before[k] == x;
                        if k < i {
                            assert(self.ids@[k] == x);
                        } else {
                            assert(k != i);
                            assert(self.ids@[k - 1] == x);
                        }
                    }
                }
                return self.ids.len();
            }
            i = i + 1;
        }
        assert forall|x: u64| #[trigger]
            self.ids@.contains(x) <==> (self.ids@.contains(x) && x != id) by {
            if self.ids@.contains(x) {
                let k = choose|k: int| 0 <= k < self.ids@.len() && self.ids@[k] == x;
                assert(self.ids@[k] != id);
            }
        }
        self.ids.len()
    }
}

/// The position of `holder`'s entry in the reverse index.
pub fn find_holder(index: &Vec<OwnerTokens>, holder: &Principal) -> (r: Option<usize>)
    ensures
        r is None ==> forall|i: int| 0 <= i < index@.len() ==> #[trigger] index@[i].holder@ != holder@,
        r matches Some(i) ==> i < index@.len() && index@[i as int].holder@ == holder@,
{
    let mut i: usize = 0;
    while i < index.len()
        invariant
            i <= index@.len(),
            forall|k: int| 0 <= k < i ==> #[trigger] index@[k].holder@ != holder@,
        decreases index@.len() - i,
    {
        if index[i].holder.same(holder) {
            return Some(i);
        }
        i = i + 1;
    }
    None
}

/// How many tokens `holder` has; zero where the index has no entry for it.
pub fn balance_of(index: &Vec<OwnerTokens>, holder: &Principal) -> (r: u64)
    requires
        index_wf(index@),
    ensures
        r == count_held(index@, holder@),
{
    match find_holder(index, holder) {
        Some(i) => {
            proof {
                lemma_entry_unique(index@, holder@, i as int);
            }
            index[i].balance_of()
        },
        None => 0,
    }
}

/// The number of tokens recorded for `holder`.
pub open spec fn count_held(index: Seq<OwnerTokens>, holder: Seq<u8>) -> nat {
    if exists|i: int| 0 <= i < index.len() && #[trigger] index[i].holder@ == holder {
        let i = choose|i: int| 0 <= i < index.len() && #[trigger] index[i].holder@ == holder;
        index[i].ids@.len()
    } else {
        0
    }
}

/// The ids recorded for `holder`, ascending.
pub open spec fn held_ids(index: Seq<OwnerTokens>, holder: Seq<u8>) -> Seq<u64> {
    if exists|i: int| 0 <= i < index.len() && #[trigger] index[i].holder@ == holder {
        let i = choose|i: int| 0 <= i < index.len() && #[trigger] index[i].holder@ == holder;
        index[i].ids@
    } else {
        Seq::empty()
    }
}

pub proof fn lemma_entry_unique(index: Seq<OwnerTokens>, holder: Seq<u8>, i: int)
    requires
        index_wf(index),
        0 <= i < index.len(),
        index[i].holder@ == holder,
    ensures
        held_ids(index, holder) == index[i].ids@,
        count_held(index, holder) == index[i].ids@.len(),
        forall|x: u64| holds(index, holder, x) <==> index[i].ids@.contains(x),
{
    let j = choose|j: int| 0 <= j < index.len() && #[trigger] index[j].holder@ == holder;
    assert(j == i);
}

/// Records `holder` as holding `id`, adding an entry for the holder if needed.
pub fn index_insert(index: &mut Vec<OwnerTokens>, holder: &Principal, id: u64)
    requires
        index_wf(old(index)@),
    ensures
        index_wf(final(index)@),
        forall|h: Seq<u8>, x: u64| #[trigger]
            holds(final(index)@, h, x) <==> (holds(old(index)@, h, x) || (h == holder@ && x == id)),
{
    match find_holder(index, holder) {
        Some(i) => {
            let mut entry = OwnerTokens::new(Principal(Vec::new()));
            index.set_and_swap(i, &mut entry);
            entry.insert_id(id);
            index.set_and_swap(i, &mut entry);
            assert forall|h: Seq<u8>, x: u64| #[trigger]
                holds(index@, h, x) <==> (holds(old(index)@, h, x) || (h == holder@ && x == id)) by {
                if holds(index@, h, x) {
                    let k = choose|k: int|
                        0 <= k < index@.len() && #[trigger] index@[k].holder@ == h
                            && index@[k].ids@.contains(x);
                    if k != i {
                        assert(old(index)@[k] == index@[k]);
                    } else if old(index)@[k].ids@.contains(x) {
                    }
                }
                if holds(old(index)@, h, x) {
                    let k = choose|k: int|
                        0 <= k < old(index)@.len() && #[trigger] old(index)@[k].holder@ == h
                            && old(index)@[k].ids@.contains(x);
                    assert(index@[k].holder@ == h && index@[k].ids@.contains(x));
                }
                if h == holder@ && x == id {
                    assert(index@[i as int].holder@ == h && index@[i as int].ids@.contains(x));
                }
            }
        },
        None => {
            let mut entry = OwnerTokens::new(holder.dup());
            entry.ids.push(id);
            assert(entry.ids@.contains(id)) by {
                assert(entry.ids@[0] == id);
            }
            index.push(entry);
            let ghost n = (index@.len() - 1) as int;
            assert forall|h: Seq<u8>, x: u64| #[trigger]
                holds(index@, h, x) <==> (holds(old(index)@, h, x) || (h == holder@ && x == id)) by {
                if holds(index@, h, x) {
                    let k = choose|k: int|
                        0 <= k < index@.len() && #[trigger] index@[k].holder@ == h
                            && index@[k].ids@.contains(x);
                    if k != n {
                        assert(old(index)@[k] == index@[k]);
                    } else {
                        let m = choose|m: int| 0 <= m < index@[k].ids@.len() && index@[k].ids@[m] == x;
                        assert(m == 0);
                    }
                }
                if holds(old(index)@, h, x) {
                    let k = choose|k: int|
                        0 <= k < old(index)@.len() && #[trigger] old(index)@[k].holder@ == h
                            && old(index)@[k].ids@.contains(x);
                    assert(index@[k] == old(index)@[k]);
                }
                if h == holder@ && x == id {
                    assert(index@[n].holder@ == h && index@[n].ids@.contains(x));
                }
            }
        },
    }
}

/// Forgets that `holder` holds `id`.
pub fn index_remove(index: &mut Vec<OwnerTokens>, holder: &Principal, id: u64)
    requires
        index_wf(old(index)@),
    ensures
        index_wf(final(index)@),
        forall|h: Seq<u8>, x: u64| #[trigger]
            holds(final(index)@, h, x) <==> (holds(old(index)@, h, x) && !(h == holder@ && x == id)),
{
    match find_holder(index, holder) {
        Some(i) => {
            let mut entry = OwnerTokens::new(Principal(Vec::new()));
            index.set_and_swap(i, &mut entry);
            entry.clear_for_transfer(id);
            index.set_and_swap(i, &mut entry);
            assert forall|h: Seq<u8>, x: u64| #[trigger]
                holds(index@, h, x) <==> (holds(old(index)@, h, x) && !(h == holder@ && x == id)) by {
                if holds(index@, h, x) {
                    let k = choose|k: int|
                        0 <= k < index@.len() && #[trigger] index@[k].holder@ == h
                            && index@[k].ids@.contains(x);
                    if k != i {
                        assert(old(index)@[k] == index@[k]);
                    }
                }
                if holds(old(index)@, h, x) && !(h == holder@ && x == id) {
                    let k = choose|k: int|
                        0 <= k < old(index)@.len() && #[trigger] old(index)@[k].holder@ == h
                            && old(index)@[k].ids@.contains(x);
                    assert(index@[k].holder@ == h && index@[k].ids@.contains(x));
                }
            }
        },
        None => {
            assert forall|h: Seq<u8>, x: u64| #[trigger]
                holds(index@, h, x) <==> (holds(old(index)@, h, x) && !(h == holder@ && x == id)) by {
                if holds(index@, h, x) && h == holder@ {
                    let k = choose|k: int|
                        0 <= k < index@.len() && #[trigger] index@[k].holder@ == h
                            && index@[k].ids@.contains(x);
                    assert(index@[k].holder@ != holder@);
                }
            }
        },
    }
}

} // verus!
