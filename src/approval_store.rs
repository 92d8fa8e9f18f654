use vstd::prelude::*;

use crate::approvals::{Approval, Approvals};
use crate::principal::Principal;

verus! {

/// The token-scoped approvals of one token, keyed by its 64-bit key.
#[derive(Clone, Debug)]
pub struct TokenApprovals {
    pub id: u64,
    pub approvals: Approvals,
}

/// The collection-scoped approvals one holder granted.
#[derive(Clone, Debug)]
pub struct HolderApprovals {
    pub holder: Principal,
    pub approvals: Approvals,
}

/// The approvals recorded for token `x`.
pub open spec fn token_list(s: Seq<TokenApprovals>, x: u64) -> Seq<Approval> {
    if exists|i: int| 0 <= i < s.len() && #[trigger] s[i].id == x {
        let i = choose|i: int| 0 <= i < s.len() && #[trigger] s[i].id == x;
        s[i].approvals.0@
    } else {
        Seq::empty()
    }
}

/// The approvals recorded for holder `h`.
pub open spec fn holder_list(s: Seq<HolderApprovals>, h: Seq<u8>) -> Seq<Approval> {
    if exists|i: int| 0 <= i < s.len() && #[trigger] s[i].holder@ == h {
        let i = choose|i: int| 0 <= i < s.len() && #[trigger] s[i].holder@ == h;
        s[i].approvals.0@
    } else {
        Seq::empty()
    }
}

pub open spec fn token_store_wf(s: Seq<TokenApprovals>) -> bool {
    &&& forall|i: int, j: int| 0 <= i < s.len() && 0 <= j < s.len() && i != j ==> s[i].id != s[j].id
    &&& forall|i: int| 0 <= i < s.len() ==> (#[trigger] s[i]).approvals.wf()
}

pub open spec fn holder_store_wf(s: Seq<HolderApprovals>) -> bool {
    &&& forall|i: int, j: int|
        0 <= i < s.len() && 0 <= j < s.len() && i != j ==> s[i].holder@ != s[j].holder@
    &&& forall|i: int| 0 <= i < s.len() ==> (#[trigger] s[i]).approvals.wf()
}

proof fn lemma_token_at(s: Seq<TokenApprovals>, i: int)
    requires
        token_store_wf(s),
        0 <= i < s.len(),
    ensures
        token_list(s, s[i].id) == s[i].approvals.0@,
{
    let x = s[i].id;
    let j = choose|j: int| 0 <= j < s.len() && #[trigger] s[j].id == x;
    assert(j == i);
}

proof fn lemma_holder_at(s: Seq<HolderApprovals>, i: int)
    requires
        holder_store_wf(s),
        0 <= i < s.len(),
    ensures
        holder_list(s, s[i].holder@) == s[i].approvals.0@,
{
    let h = s[i].holder@;
    let j = choose|j: int| 0 <= j < s.len() && #[trigger] s[j].holder@ == h;
    assert(j == i);
}

/// The position of token `x`'s entry.
pub fn find_token(s: &Vec<TokenApprovals>, x: u64) -> (r: Option<usize>)
    requires
        token_store_wf(s@),
    ensures
        r is None ==> token_list(s@, x) == Seq::<Approval>::empty() && forall|i: int|
            0 <= i < s@.len() ==> #[trigger] s@[i].id != x,
        r matches Some(i) ==> i < s@.len() && s@[i as int].id == x && token_list(s@, x)
            == s@[i as int].approvals.0@,
{
    let mut i: usize = 0;
    while i < s.len()
        invariant
            i <= s@.len(),
            token_store_wf(s@),
            forall|k: int| 0 <= k < i ==> #[trigger] s@[k].id != x,
        decreases s@.len() - i,
    {
        if s[i].id == x {
            proof {
                lemma_token_at(s@, i as int);
            }
            return Some(i);
        }
        i = i + 1;
    }
    None
}

/// The position of holder `h`'s entry.
pub fn find_holder_approvals(s: &Vec<HolderApprovals>, h: &Principal) -> (r: Option<usize>)
    requires
        holder_store_wf(s@),
    ensures
        r is None ==> holder_list(s@, h@) == Seq::<Approval>::empty() && forall|i: int|
            0 <= i < s@.len() ==> #[trigger] s@[i].holder@ != h@,
        r matches Some(i) ==> i < s@.len() && s@[i as int].holder@ == h@ && holder_list(s@, h@)
            == s@[i as int].approvals.0@,
{
    let mut i: usize = 0;
    while i < s.len()
        invariant
            i <= s@.len(),
            holder_store_wf(s@),
            forall|k: int| 0 <= k < i ==> #[trigger] s@[k].holder@ != h@,
        decreases s@.len() - i,
    {
        if s[i].holder.same(h) {
            proof {
                lemma_holder_at(s@, i as int);
            }
            return Some(i);
        }
        i = i + 1;
    }
    None
}

/// Drops every approval of token `x`.
pub fn clear_token(s: &mut Vec<TokenApprovals>, x: u64)
    requires
        token_store_wf(old(s)@),
    ensures
        token_store_wf(final(s)@),
        forall|y: u64| #[trigger]
            token_list(final(s)@, y) == if y == x {
                Seq::<Approval>::empty()
            } else {
                token_list(old(s)@, y)
            },
{
    match find_token(s, x) {
        None => {},
        Some(i) => {
            let ghost before = s@;
            s.remove(i);
            assert forall|y: u64| #[trigger]
                token_list(s@, y) == if y == x {
                    Seq::<Approval>::empty()
                } else {
                    token_list(before, y)
                } by {
                if exists|k: int| 0 <= k < s@.len() && #[trigger] s@[k].id == y {
                    let k = choose|k: int| 0 <= k < s@.len() && #[trigger] s@[k].id == y;
                    let k0 = if k < i { k } else { k + 1 };
                    assert(s@[k] == before[k0]);
                    lemma_token_at(s@, k);
                    lemma_token_at(before, k0);
                } else if y != x && exists|k: int| 0 <= k < before.len() && #[trigger] before[k].id == y {
                    let k = choose|k: int| 0 <= k < before.len() && #[trigger] before[k].id == y;
                    if k < i {
                        assert(s@[k] == before[k]);
                    } else {
                        assert(k != i);
                        assert(s@[k - 1] == before[k]);
                    }
                }
            }
        },
    }
}

/// Removes holder `h`'s entry, and so every approval it granted.
pub fn clear_holder(s: &mut Vec<HolderApprovals>, h: &Principal)
    requires
        holder_store_wf(old(s)@),
    ensures
        holder_store_wf(final(s)@),
        forall|g: Seq<u8>| #[trigger]
            holder_list(final(s)@, g) == if g == h@ {
                Seq::<Approval>::empty()
            } else {
                holder_list(old(s)@, g)
            },
{
    match find_holder_approvals(s, h) {
        None => {},
        Some(i) => {
            let ghost before = s@;
            s.remove(i);
            assert forall|g: Seq<u8>| #[trigger]
                holder_list(s@, g) == if g == h@ {
                    Seq::<Approval>::empty()
                } else {
                    holder_list(before, g)
                } by {
                if exists|k: int| 0 <= k < s@.len() && #[trigger] s@[k].holder@ == g {
                    let k = choose|k: int| 0 <= k < s@.len() && #[trigger] s@[k].holder@ == g;
                    let k0 = if k < i { k } else { k + 1 };
                    assert(s@[k] == before[k0]);
                    lemma_holder_at(s@, k);
                    lemma_holder_at(before, k0);
                } else if g != h@ && exists|k: int|
                    0 <= k < before.len() && #[trigger] before[k].holder@ == g {
                    let k = choose|k: int| 0 <= k < before.len() && #[trigger] before[k].holder@ == g;
                    if k < i {
                        assert(s@[k] == before[k]);
                    } else {
                        assert(k != i);
                        assert(s@[k - 1] == before[k]);
                    }
                }
            }
        },
    }
}

/// Replaces the approvals of token `x` by `list`.
pub fn put_token(s: &mut Vec<TokenApprovals>, x: u64, list: Approvals)
    requires
        token_store_wf(old(s)@),
        list.wf(),
    ensures
        token_store_wf(final(s)@),
        forall|y: u64| #[trigger]
            token_list(final(s)@, y) == if y == x {
                list.0@
            } else {
                token_list(old(s)@, y)
            },
{
    let ghost l = list.0@;
    match find_token(s, x) {
        Some(i) => {
            let ghost before = s@;
            s.set(i, TokenApprovals { id: x, approvals: list });
            assert forall|y: u64| #[trigger]
                token_list(s@, y) == if y == x {
                    l
                } else {
                    token_list(before, y)
                } by {
                lemma_token_at(s@, i as int);
                if y != x && exists|k: int| 0 <= k < s@.len() && #[trigger] s@[k].id == y {
                    let k = choose|k: int| 0 <= k < s@.len() && #[trigger] s@[k].id == y;
                    lemma_token_at(s@, k);
                    lemma_token_at(before, k);
                } else if y != x && exists|k: int| 0 <= k < before.len() && #[trigger] before[k].id == y {
                    let k = choose|k: int| 0 <= k < before.len() && #[trigger] before[k].id == y;
                    assert(s@[k] == before[k]);
                }
            }
        },
        None => {
            let ghost before = s@;
            s.push(TokenApprovals { id: x, approvals: list });
            let ghost n = before.len() as int;
            assert forall|y: u64| #[trigger]
                token_list(s@, y) == if y == x {
                    l
                } else {
                    token_list(before, y)
                } by {
                lemma_token_at(s@, n);
                if y != x && exists|k: int| 0 <= k < s@.len() && #[trigger] s@[k].id == y {
                    let k = choose|k: int| 0 <= k < s@.len() && #[trigger] s@[k].id == y;
                    lemma_token_at(s@, k);
                    lemma_token_at(before, k);
                } else if y != x && exists|k: int| 0 <= k < before.len() && #[trigger] before[k].id == y {
                    let k = choose|k: int| 0 <= k < before.len() && #[trigger] before[k].id == y;
                    assert(s@[k] == before[k]);
                }
            }
        },
    }
}

/// Replaces the approvals holder `h` granted by `list`.
pub fn put_holder(s: &mut Vec<HolderApprovals>, h: &Principal, list: Approvals)
    requires
        holder_store_wf(old(s)@),
        list.wf(),
    ensures
        holder_store_wf(final(s)@),
        forall|g: Seq<u8>| #[trigger]
            holder_list(final(s)@, g) == if g == h@ {
                list.0@
            } else {
                holder_list(old(s)@, g)
            },
{
    let ghost l = list.0@;
    match find_holder_approvals(s, h) {
        Some(i) => {
            let ghost before = s@;
            s.set(i, HolderApprovals { holder: h.dup(), approvals: list });
            assert forall|g: Seq<u8>| #[trigger]
                holder_list(s@, g) == if g == h@ {
                    l
                } else {
                    holder_list(before, g)
                } by {
                lemma_holder_at(s@, i as int);
                if g != h@ && exists|k: int| 0 <= k < s@.len() && #[trigger] s@[k].holder@ == g {
                    let k = choose|k: int| 0 <= k < s@.len() && #[trigger] s@[k].holder@ == g;
                    lemma_holder_at(s@, k);
                    lemma_holder_at(before, k);
                } else if g != h@ && exists|k: int|
                    0 <= k < before.len() && #[trigger] before[k].holder@ == g {
                    let k = choose|k: int| 0 <= k < before.len() && #[trigger] before[k].holder@ == g;
                    assert(s@[k] == before[k]);
                }
            }
        },
        None => {
            let ghost before = s@;
            s.push(HolderApprovals { holder: h.dup(), approvals: list });
            let ghost n = before.len() as int;
            assert forall|g: Seq<u8>| #[trigger]
                holder_list(s@, g) == if g == h@ {
                    l
                } else {
                    holder_list(before, g)
                } by {
                lemma_holder_at(s@, n);
                if g != h@ && exists|k: int| 0 <= k < s@.len() && #[trigger] s@[k].holder@ == g {
                    let k = choose|k: int| 0 <= k < s@.len() && #[trigger] s@[k].holder@ == g;
                    lemma_holder_at(s@, k);
                    lemma_holder_at(before, k);
                } else if g != h@ && exists|k: int|
                    0 <= k < before.len() && #[trigger] before[k].holder@ == g {
                    let k = choose|k: int| 0 <= k < before.len() && #[trigger] before[k].holder@ == g;
                    assert(s@[k] == before[k]);
                }
            }
        },
    }
}

/// Moves the approvals of token `x` out of the store, leaving none for it.
pub fn take_token(s: &mut Vec<TokenApprovals>, x: u64) -> (r: Approvals)
    requires
        token_store_wf(old(s)@),
    ensures
        r.wf(),
        r.0@ == token_list(old(s)@, x),
        token_store_wf(final(s)@),
        forall|y: u64| #[trigger]
            token_list(final(s)@, y) == if y == x {
                Seq::<Approval>::empty()
            } else {
                token_list(old(s)@, y)
            },
{
    match find_token(s, x) {
        Some(i) => {
            let ghost before = s@;
            let mut e = TokenApprovals { id: x, approvals: Approvals::new() };
            s.set_and_swap(i, &mut e);
            assert forall|y: u64| #[trigger]
                token_list(s@, y) == if y == x {
                    Seq::<Approval>::empty()
                } else {
                    token_list(before, y)
                } by {
                lemma_token_at(s@, i as int);
                if y != x && exists|k: int| 0 <= k < s@.len() && #[trigger] s@[k].id == y {
                    let k = choose|k: int| 0 <= k < s@.len() && #[trigger] s@[k].id == y;
                    lemma_token_at(s@, k);
                    lemma_token_at(before, k);
                } else if y != x && exists|k: int| 0 <= k < before.len() && #[trigger] before[k].id == y {
                    let k = choose|k: int| 0 <= k < before.len() && #[trigger] before[k].id == y;
                    assert(s@[k] == before[k]);
                }
            }
            e.approvals
        },
        None => Approvals::new(),
    }
}

/// Moves the approvals holder `h` granted out of the store, leaving none for it.
pub fn take_holder(s: &mut Vec<HolderApprovals>, h: &Principal) -> (r: Approvals)
    requires
        holder_store_wf(old(s)@),
    ensures
        r.wf(),
        r.0@ == holder_list(old(s)@, h@),
        holder_store_wf(final(s)@),
        forall|g: Seq<u8>| #[trigger]
            holder_list(final(s)@, g) == if g == h@ {
                Seq::<Approval>::empty()
            } else {
                holder_list(old(s)@, g)
            },
{
    match find_holder_approvals(s, h) {
        Some(i) => {
            let ghost before = s@;
            let mut e = HolderApprovals { holder: h.dup(), approvals: Approvals::new() };
            s.set_and_swap(i, &mut e);
            assert forall|g: Seq<u8>| #[trigger]
                holder_list(s@, g) == if g == h@ {
                    Seq::<Approval>::empty()
                } else {
                    holder_list(before, g)
                } by {
                lemma_holder_at(s@, i as int);
                if g != h@ && exists|k: int| 0 <= k < s@.len() && #[trigger] s@[k].holder@ == g {
                    let k = choose|k: int| 0 <= k < s@.len() && #[trigger] s@[k].holder@ == g;
                    lemma_holder_at(s@, k);
                    lemma_holder_at(before, k);
                } else if g != h@ && exists|k: int|
                    0 <= k < before.len() && #[trigger] before[k].holder@ == g {
                    let k = choose|k: int| 0 <= k < before.len() && #[trigger] before[k].holder@ == g;
                    assert(s@[k] == before[k]);
                }
            }
            e.approvals
        },
        None => Approvals::new(),
    }
}

} // verus!
