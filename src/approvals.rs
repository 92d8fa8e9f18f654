use vstd::prelude::*;

use crate::principal::{lemma_principal_lt_trans, principal_lt, Principal};

verus! {

/// One delegation: `spender` may move tokens until `expires_at` (seconds).
#[derive(Clone, Debug)]
pub struct Approval {
    pub spender: Principal,
    pub created_at: u64,
    pub expires_at: u64,
}

/// The approvals of one target (a token, or all of one holder's tokens),
/// at most one per spender, ascending by spender.
#[derive(Clone, Debug)]
pub struct Approvals(pub Vec<Approval>);

/// Whether `s` holds an entry for `spender`.
pub open spec fn has_spender(s: Seq<Approval>, spender: Seq<u8>) -> bool {
    exists|i: int| 0 <= i < s.len() && #[trigger] s[i].spender@ == spender
}

/// No spender appears twice.
pub open spec fn spenders_unique(s: Seq<Approval>) -> bool {
    forall|i: int, j: int|
        0 <= i < s.len() && 0 <= j < s.len() && i != j ==> s[i].spender@ != s[j].spender@
}

/// Entries ascend strictly by spender.
pub open spec fn spenders_sorted(s: Seq<Approval>) -> bool {
    forall|i: int, j: int| 0 <= i < j < s.len() ==> principal_lt(s[i].spender@, s[j].spender@)
}

/// Where an entry for `x`, absent from `s`, belongs: after every smaller spender
/// and before every larger one.
pub open spec fn insert_pos(s: Seq<Approval>, x: Seq<u8>) -> int {
    choose|p: int| #[trigger] splits_at(s, x, p)
}

/// Every spender before `p` is smaller than `x`, every one from `p` on larger.
pub open spec fn splits_at(s: Seq<Approval>, x: Seq<u8>, p: int) -> bool {
    &&& 0 <= p <= s.len()
    &&& forall|k: int| 0 <= k < p ==> principal_lt(s[k].spender@, x)
    &&& forall|k: int| p <= k < s.len() ==> principal_lt(x, s[k].spender@)
}

/// Whether `s` holds an entry for `spender` that has not expired at `now`.
pub open spec fn is_live(s: Seq<Approval>, spender: Seq<u8>, now: u64) -> bool {
    exists|i: int| 0 <= i < s.len() && #[trigger] s[i].spender@ == spender && s[i].expires_at > now
}

/// `s` with the entry of `a`'s spender set to `a`: replaced in place where the
/// spender is present, inserted in spender order otherwise.
pub open spec fn with_approval(s: Seq<Approval>, a: Approval) -> Seq<Approval> {
    if has_spender(s, a.spender@) {
        let i = choose|i: int| 0 <= i < s.len() && #[trigger] s[i].spender@ == a.spender@;
        s.update(i, a)
    } else {
        s.insert(insert_pos(s, a.spender@), a)
    }
}

/// `s` without the entry of `spender`, where there is one.
pub open spec fn without_spender(s: Seq<Approval>, spender: Seq<u8>) -> Seq<Approval> {
    if has_spender(s, spender) {
        let i = choose|i: int| 0 <= i < s.len() && #[trigger] s[i].spender@ == spender;
        s.remove(i)
    } else {
        s
    }
}

impl Approvals {
    pub open spec fn wf(&self) -> bool {
        spenders_unique(self.0@) && spenders_sorted(self.0@)
    }

    /// An empty set of approvals.
    pub fn new() -> (r: Approvals)
        ensures
            r.0@ == Seq::<Approval>::empty(),
            r.wf(),
    {
        Approvals(Vec::new())
    }

    /// The number of spenders.
    pub fn total(&self) -> (r: usize)
        ensures
            r == self.0@.len(),
    {
        self.0.len()
    }

    /// The position of `spender`'s entry.
    pub fn find(&self, spender: &Principal) -> (r: Option<usize>)
        requires
            self.wf(),
        ensures
            r is None <==> !has_spender(self.0@, spender@),
            r matches Some(i) ==> i < self.0@.len() && self.0@[i as int].spender@ == spender@,
    {
        let mut i: usize = 0;
        while i < self.0.len()
            invariant
                i <= self.0@.len(),
                forall|k: int| 0 <= k < i ==> self.0@[k].spender@ != spender@,
            decreases self.0@.len() - i,
        {
            if self.0[i].spender.same(spender) {
                return Some(i);
            }
            i = i + 1;
        }
        None
    }

    /// The (created_at, expires_at) of `spender`'s entry.
    pub fn get(&self, spender: &Principal) -> (r: Option<(u64, u64)>)
        requires
            self.wf(),
        ensures
            r is None <==> !has_spender(self.0@, spender@),
            r matches Some(p) ==> exists|i: int|
                0 <= i < self.0@.len() && #[trigger] self.0@[i].spender@ == spender@
                    && p == (self.0@[i].created_at, self.0@[i].expires_at),
    {
        match self.find(spender) {
            Some(i) => Some((self.0[i].created_at, self.0[i].expires_at)),
            None => None,
        }
    }

    /// Whether `spender` holds an entry that has not expired at `now`: a pure
    /// comparison, expired entries stay until revoked.
    pub fn is_approved(&self, spender: &Principal, now: u64) -> (r: bool)
        requires
            self.wf(),
        ensures
            r == is_live(self.0@, spender@, now),
    {
        match self.find(spender) {
            Some(i) => {
                let r = self.0[i].expires_at > now;
                proof {
                    if !r {
                        assert forall|j: int|
                            0 <= j < self.0@.len() && #[trigger] self.0@[j].spender@
                                == spender@ implies self.0@[j].expires_at <= now by {
                            assert(j == i as int);
                        }
                    }
                }
                r
            },
            None => false,
        }
    }

    /// Grants (or renews) `spender`'s approval.
    pub fn insert(&mut self, spender: Principal, created_at: u64, expires_at: u64)
        requires
            old(self).wf(),
        ensures
            final(self).wf(),
            final(self).0@ == with_approval(
                old(self).0@,
                Approval { spender, created_at, expires_at },
            ),
    {
        let ghost a = Approval { spender, created_at, expires_at };
        let ghost x = spender@;
        let ghost s0 = self.0@;
        let mut p: usize = 0;
        let mut c: i8 = 1;
        let mut stop = false;
        while p < self.0.len() && !stop
            invariant
                p <= self.0@.len(),
                self.0@ == s0,
                x == spender@,
                forall|k: int| 0 <= k < p ==> principal_lt(s0[k].spender@, x),
                stop ==> p < s0.len() && c >= 0,
                stop && c == 0 ==> s0[p as int].spender@ == x,
                stop && c > 0 ==> principal_lt(x, s0[p as int].spender@),
                !stop ==> c == 1,
            decreases self.0@.len() - p + if stop { 0int } else { 1int },
        {
            let d = self.0[p].spender.compare(&spender);
            if d < 0 {
                p = p + 1;
            } else {
                c = d;
                stop = true;
            }
        }
        if p < self.0.len() && c == 0 {
            proof {
                assert(s0[p as int].spender@ == x);
                let j = choose|j: int| 0 <= j < s0.len() && #[trigger] s0[j].spender@ == x;
                assert(j == p as int);
            }
            self.0.set(p, Approval { spender, created_at, expires_at });
            proof {
                assert forall|i: int, j: int| 0 <= i < j < self.0@.len() implies principal_lt(
                    self.0@[i].spender@,
                    self.0@[j].spender@,
                ) by {
                    assert(self.0@[i].spender@ == s0[i].spender@);
                    assert(self.0@[j].spender@ == s0[j].spender@);
                }
            }
        } else {
            proof {
                if p < s0.len() {
                    assert(principal_lt(x, s0[p as int].spender@));
                    assert forall|k: int| p <= k < s0.len() implies principal_lt(x, s0[k].spender@) by {
                        if k > p {
                            lemma_principal_lt_trans(x, s0[p as int].spender@, s0[k].spender@);
                        }
                    }
                }
                assert(!has_spender(s0, x)) by {
                    assert forall|k: int| 0 <= k < s0.len() implies #[trigger] s0[k].spender@ != x by {
                        if k < p {
                            assert(principal_lt(s0[k].spender@, x));
                        } else {
                            assert(principal_lt(x, s0[k].spender@));
                        }
                    }
                }
                assert(splits_at(s0, x, p as int));
                let q = insert_pos(s0, x);
                assert(splits_at(s0, x, q));
                if q < p {
                    assert(principal_lt(s0[q].spender@, x));
                    assert(principal_lt(x, s0[q].spender@));
                    lemma_principal_lt_trans(x, s0[q].spender@, x);
                }
                if q > p {
                    assert(principal_lt(s0[p as int].spender@, x));
                    assert(principal_lt(x, s0[p as int].spender@));
                    lemma_principal_lt_trans(x, s0[p as int].spender@, x);
                }
                assert(q == p as int);
            }
            self.0.insert(p, Approval { spender, created_at, expires_at });
            proof {
                let n = self.0@;
                assert(n == s0.insert(p as int, a));
                assert forall|i: int, j: int| 0 <= i < j < n.len() implies principal_lt(
                    n[i].spender@,
                    n[j].spender@,
                ) by {
                    let i0 = if i < p { i } else { i - 1 };
                    let j0 = if j < p { j } else { j - 1 };
                    if i != p && j != p {
                        assert(n[i] == s0[i0] && n[j] == s0[j0]);
                    } else if i == p {
                        assert(n[j] == s0[j0]);
                    } else {
                        assert(n[i] == s0[i0]);
                    }
                }
                assert forall|i: int, j: int|
                    0 <= i < n.len() && 0 <= j < n.len() && i != j implies n[i].spender@
                    != n[j].spender@ by {
                    if i < j {
                        assert(principal_lt(n[i].spender@, n[j].spender@));
                    } else {
                        assert(principal_lt(n[j].spender@, n[i].spender@));
                    }
                }
            }
        }
    }

    /// Removes `spender`'s entry; false where there is none.
    pub fn revoke(&mut self, spender: &Principal) -> (r: bool)
        requires
            old(self).wf(),
        ensures
            final(self).wf(),
            r == has_spender(old(self).0@, spender@),
            !has_spender(final(self).0@, spender@),
            final(self).0@ == without_spender(old(self).0@, spender@),
    {
        match self.find(spender) {
            Some(i) => {
                let ghost before = self.0@;
                self.0.remove(i);
                assert(spenders_sorted(self.0@)) by {
                    assert forall|a: int, b: int| 0 <= a < b < self.0@.len() implies principal_lt(
                        self.0@[a].spender@,
                        self.0@[b].spender@,
                    ) by {
                        let a0 = if a < i { a } else { a + 1 };
                        let b0 = if b < i { b } else { b + 1 };
                        assert(self.0@[a] == before[a0] && self.0@[b] == before[b0]);
                    }
                }
                assert(!has_spender(self.0@, spender@)) by {
                    assert forall|k: int| 0 <= k < self.0@.len() implies #[trigger] self.0@[k].spender@
                        != spender@ by {
                        if k < i {
                            assert(self.0@[k] == before[k]);
                        } else {
                            assert(self.0@[k] == before[k + 1]);
                        }
                    }
                }
                assert(before[i as int].spender@ == spender@);
                let ghost j = choose|j: int|
                    0 <= j < before.len() && #[trigger] before[j].spender@ == spender@;
                assert(j == i as int);
                true
            },
            None => false,
        }
    }

    /// Removes every entry.
    pub fn clear(&mut self)
        ensures
            final(self).0@ == Seq::<Approval>::empty(),
            final(self).wf(),
    {
        self.0.clear();
    }
}

} // verus!
