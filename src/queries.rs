use vstd::prelude::*;

use crate::approval_store::{find_holder_approvals, find_token, holder_list, token_list};
use crate::approvals::{Approval, Approvals};
use crate::ledger::Ledger;
use crate::owner_tokens::{count_held, find_holder, held_ids, holds, lemma_entry_unique, sorted};
use crate::principal::{anonymous_bytes, principal_lt, Principal};
use crate::settings::{take_spec, take_value};
use crate::token_id::{decode, encode, TokenId};

verus! {

/// `p` is where a page after `cursor` starts in the ascending `ids`: every id
/// before it is at or below the cursor, and the id at it is above.
pub open spec fn page_start(ids: Seq<u64>, cursor: Option<u64>, p: int) -> bool {
    &&& 0 <= p <= ids.len()
    &&& match cursor {
        None => p == 0,
        Some(c) => (forall|i: int| 0 <= i < p ==> ids[i] <= c) && (p < ids.len() ==> ids[p] > c),
    }
}

/// The smaller of two numbers.
pub open spec fn min(a: int, b: int) -> int {
    if a < b {
        a
    } else {
        b
    }
}

/// `r` is the page of at most `take` ids that follows `cursor`.
pub open spec fn is_page(ids: Seq<u64>, cursor: Option<u64>, take: nat, r: Seq<u64>) -> bool {
    exists|p: int|
        page_start(ids, cursor, p) && r == ids.subrange(p, p + min(take as int, ids.len() - p))
}

/// Two successive pages, the second taken after the last id of the first, are
/// consecutive runs of the ids: nothing is skipped and nothing repeats. A page
/// that comes back empty means every id after the cursor was visited.
pub proof fn lemma_pages_chain(ids: Seq<u64>, cursor: Option<u64>, take: nat, r1: Seq<u64>, r2: Seq<u64>)
    requires
        sorted(ids),
        is_page(ids, cursor, take, r1),
        r1.len() > 0,
        is_page(ids, Some(r1.last()), take, r2),
    ensures
        exists|p: int|
            page_start(ids, cursor, p) && r1 + r2 == ids.subrange(p, p + r1.len() + r2.len()),
{
    let first = choose|p: int|
        page_start(ids, cursor, p) && r1 == ids.subrange(p, p + min(take as int, ids.len() - p));
    let second = choose|p: int|
        page_start(ids, Some(r1.last()), p) && r2 == ids.subrange(
            p,
            p + min(take as int, ids.len() - p),
        );
    let end = first + r1.len();
    assert(r1.last() == ids[end - 1]);
    if second < end {
        assert(ids[second] > ids[end - 1]);
        assert(second < end - 1 ==> ids[second] < ids[end - 1]);
    }
    if second > end {
        assert(ids[end] <= r1.last());
        assert(ids[end - 1] < ids[end]);
    }
    assert(second == end);
    assert(r1 + r2 =~= ids.subrange(first, first + r1.len() + r2.len()));
}

/// An empty page after `cursor`, with a positive page size, means no id lies above it.
pub proof fn lemma_empty_page(ids: Seq<u64>, cursor: Option<u64>, take: nat, r: Seq<u64>)
    requires
        is_page(ids, cursor, take, r),
        take > 0,
        r.len() == 0,
    ensures
        forall|i: int| 0 <= i < ids.len() ==> cursor is Some && ids[i] <= cursor->0,
{
    let p = choose|p: int|
        page_start(ids, cursor, p) && r == ids.subrange(p, p + min(take as int, ids.len() - p));
    assert(p == ids.len());
}

/// An approval as callers see it; a zero time reads as absent.
#[derive(Clone, Debug, PartialEq, Eq)]
pub struct ApprovalInfo {
    pub spender: Principal,
    pub created_at_time: Option<u64>,
    pub expires_at: Option<u64>,
}

/// An approval of one token as callers see it.
#[derive(Clone, Debug, PartialEq, Eq)]
pub struct TokenApproval {
    pub token_id: u64,
    pub approval_info: ApprovalInfo,
}

pub open spec fn nonzero(t: u64) -> Option<u64> {
    if t > 0 {
        Some(t)
    } else {
        None
    }
}

/// `i` shows approval `a`.
pub open spec fn shows(i: ApprovalInfo, a: Approval) -> bool {
    i.spender@ == a.spender@ && i.created_at_time == nonzero(a.created_at) && i.expires_at == nonzero(
        a.expires_at,
    )
}

/// Where a page of approvals after `prev` starts: at the beginning without a
/// cursor, else at the first spender above the cursor's (entries ascend by spender).
pub open spec fn approval_page_start(s: Seq<Approval>, prev: Option<Principal>, p: int) -> bool {
    &&& 0 <= p <= s.len()
    &&& match prev {
        None => p == 0,
        Some(sp) => (forall|k: int| 0 <= k < p ==> !principal_lt(sp@, #[trigger] s[k].spender@)) && (p
            < s.len() ==> principal_lt(sp@, s[p].spender@)),
    }
}

/// `r` shows the page of at most `take` approvals of `s` after `prev`.
pub open spec fn is_approval_page(s: Seq<Approval>, prev: Option<Principal>, take: nat, r: Seq<ApprovalInfo>) -> bool {
    exists|p: int|
        approval_page_start(s, prev, p) && r.len() == min(take as int, s.len() - p) && forall|k: int|
            0 <= k < r.len() ==> shows(#[trigger] r[k], s[p + k])
}

impl ApprovalInfo {
    /// How an approval is shown to callers.
    pub fn to_info(a: &Approval) -> (r: ApprovalInfo)
        ensures
            shows(r, *a),
    {
        ApprovalInfo {
            spender: a.spender.dup(),
            created_at_time: if a.created_at > 0 {
                Some(a.created_at)
            } else {
                None
            },
            expires_at: if a.expires_at > 0 {
                Some(a.expires_at)
            } else {
                None
            },
        }
    }
}

/// The page of at most `take` approvals of `list` after `prev`.
pub fn approval_page(list: &Approvals, prev: &Option<Principal>, take: usize) -> (r: Vec<ApprovalInfo>)
    requires
        list.wf(),
    ensures
        is_approval_page(list.0@, *prev, take as nat, r@),
{
    let s = &list.0;
    let mut p: usize = 0;
    if let Some(sp) = prev {
        let mut stop = false;
        while p < s.len() && !stop
            invariant
                p <= s@.len(),
                forall|k: int| 0 <= k < p ==> !principal_lt(sp@, #[trigger] s@[k].spender@),
                stop ==> p < s@.len() && principal_lt(sp@, s@[p as int].spender@),
            decreases s@.len() - p + if stop { 0int } else { 1int },
        {
            let c = sp.compare(&s[p].spender);
            if c < 0 {
                stop = true;
            } else {
                proof {
                    if c == 0 {
                        crate::principal::lemma_principal_lt_irrefl(sp@);
                    } else {
                        assert(principal_lt(s@[p as int].spender@, sp@));
                        if principal_lt(sp@, s@[p as int].spender@) {
                            crate::principal::lemma_principal_lt_trans(
                                sp@,
                                s@[p as int].spender@,
                                sp@,
                            );
                        }
                    }
                }
                p = p + 1;
            }
        }
    }
    let end: usize = if s.len() - p < take {
        s.len()
    } else {
        p + take
    };
    let mut r: Vec<ApprovalInfo> = Vec::new();
    let mut i: usize = p;
    while i < end
        invariant
            p <= i <= end <= s@.len(),
            r@.len() == i - p,
            forall|k: int| 0 <= k < r@.len() ==> shows(#[trigger] r@[k], s@[p + k]),
        decreases end - i,
    {
        r.push(ApprovalInfo::to_info(&s[i]));
        i = i + 1;
    }
    proof {
        assert(approval_page_start(s@, *prev, p as int));
    }
    r
}

/// One item of an approval query: may `spender` move the caller's `token_id`?
#[derive(Clone, Debug)]
pub struct IsApprovedArg {
    pub spender: Principal,
    pub token_id: u64,
}

impl Ledger {
    /// The page of `account`'s tokens after `prev`, ascending by (class, serial),
    /// of the clamped page size.
    pub fn tokens_of(&self, account: &Principal, prev: Option<u64>, take: Option<u64>) -> (r: Vec<u64>)
        requires
            self.wf(),
        ensures
            is_page(
                held_ids(self.owner_tokens@, account@),
                prev,
                take_spec(self.collection.settings, take) as nat,
                r@,
            ),
    {
        let t = take_value(&self.collection.settings, take) as usize;
        let ghost ids = held_ids(self.owner_tokens@, account@);
        match find_holder(&self.owner_tokens, account) {
            None => {
                proof {
                    assert(ids =~= Seq::<u64>::empty());
                    assert(page_start(ids, prev, 0));
                    assert(Seq::<u64>::empty() =~= ids.subrange(0, 0));
                }
                Vec::new()
            },
            Some(e) => {
                proof {
                    lemma_entry_unique(self.owner_tokens@, account@, e as int);
                }
                let v = &self.owner_tokens[e].ids;
                let mut p: usize = 0;
                if let Some(c) = prev {
                    while p < v.len() && v[p] <= c
                        invariant
                            p <= v@.len(),
                            forall|i: int| 0 <= i < p ==> v@[i] <= c,
                        decreases v@.len() - p,
                    {
                        p = p + 1;
                    }
                }
                let end: usize = if v.len() - p < t {
                    v.len()
                } else {
                    p + t
                };
                let mut r: Vec<u64> = Vec::new();
                let mut i: usize = p;
                while i < end
                    invariant
                        p <= i <= end <= v@.len(),
                        r@ == v@.subrange(p as int, i as int),
                    decreases end - i,
                {
                    r.push(v[i]);
                    i = i + 1;
                    assert(r@ =~= v@.subrange(p as int, i as int));
                }
                proof {
                    assert(page_start(ids, prev, p as int));
                }
                r
            },
        }
    }

    /// The page of classes after the class of `prev` (from the first class
    /// when absent), each given by the key of its first serial.
    pub fn tokens(&self, prev: Option<u64>, take: Option<u64>) -> (r: Vec<u64>)
        requires
            self.wf(),
        ensures
            ({
                let start: int = match prev {
                    None => 1,
                    Some(p) => decode(p).0 + 1,
                };
                let t = take_spec(self.collection.settings, take) as int;
                let n = self.tokens@.len() as int;
                &&& r@.len() == if start > n {
                    0
                } else {
                    min(t, n - start + 1)
                }
                &&& forall|k: int| 0 <= k < r@.len() ==> #[trigger] r@[k] == encode((start + k) as u32, 1)
            }),
    {
        let t = take_value(&self.collection.settings, take) as usize;
        let n = self.tokens.len() as u64;
        let start: u64 = match prev {
            None => 1,
            Some(p) => TokenId::from_u64(p).0 as u64 + 1,
        };
        let mut r: Vec<u64> = Vec::new();
        if start > n {
            return r;
        }
        let mut c: u64 = start;
        while c <= n && r.len() < t
            invariant
                1 <= start <= c <= n + 1,
                r@.len() == c - start,
                r@.len() <= t,
                n == self.tokens@.len(),
                n < u32::MAX,
                forall|k: int| 0 <= k < r@.len() ==> #[trigger] r@[k] == encode((start + k) as u32, 1),
            decreases n + 1 - c,
        {
            r.push(TokenId(c as u32, 1).to_u64());
            c = c + 1;
        }
        r
    }

    /// How many tokens each account holds. Aborts where more accounts are asked
    /// for than the query batch size allows.
    pub fn balance_of(&self, accounts: &Vec<Principal>) -> (r: Result<Vec<u64>, String>)
        requires
            self.wf(),
        ensures
            r is Err <==> accounts@.len() > self.collection.settings.max_query_batch_size,
            r matches Ok(v) ==> v@.len() == accounts@.len() && forall|k: int|
                0 <= k < accounts@.len() ==> #[trigger] v@[k] == count_held(
                    self.owner_tokens@,
                    accounts@[k]@,
                ),
    {
        if accounts.len() > self.collection.settings.max_query_batch_size as usize {
            return Err("exceeds max query batch size".to_string());
        }
        let mut v: Vec<u64> = Vec::new();
        let mut k: usize = 0;
        while k < accounts.len()
            invariant
                self.wf(),
                k <= accounts@.len(),
                v@.len() == k,
                forall|j: int| 0 <= j < k ==> #[trigger] v@[j] == count_held(
                    self.owner_tokens@,
                    accounts@[j]@,
                ),
            decreases accounts@.len() - k,
        {
            v.push(crate::owner_tokens::balance_of(&self.owner_tokens, &accounts[k]));
            k = k + 1;
        }
        Ok(v)
    }

    /// The holder of each token. Aborts where more ids are asked for than the
    /// query batch size allows.
    pub fn owner_of(&self, ids: &Vec<u64>) -> (r: Result<Vec<Option<Principal>>, String>)
        requires
            self.wf(),
        ensures
            r is Err <==> ids@.len() > self.collection.settings.max_query_batch_size,
            r matches Ok(v) ==> v@.len() == ids@.len() && forall|k: int|
                0 <= k < ids@.len() ==> match #[trigger] v@[k] {
                    Some(p) => self.holders().contains_key(ids@[k]) && p@ == self.holders()[ids@[k]],
                    None => !self.holders().contains_key(ids@[k]),
                },
    {
        if ids.len() > self.collection.settings.max_query_batch_size as usize {
            return Err("exceeds max query batch size".to_string());
        }
        let mut v: Vec<Option<Principal>> = Vec::new();
        let mut k: usize = 0;
        while k < ids.len()
            invariant
                self.wf(),
                k <= ids@.len(),
                v@.len() == k,
                forall|j: int|
                    0 <= j < k ==> match #[trigger] v@[j] {
                        Some(p) => self.holders().contains_key(ids@[j]) && p@ == self.holders()[ids@[j]],
                        None => !self.holders().contains_key(ids@[j]),
                    },
            decreases ids@.len() - k,
        {
            let o = match self.owner_of_key(ids[k]) {
                Some(p) => Some(p.dup()),
                None => None,
            };
            v.push(o);
            k = k + 1;
        }
        Ok(v)
    }

    /// The page of token-scoped approvals of `token_id` after `prev`; empty for a
    /// token that does not exist.
    pub fn get_token_approvals(&self, token_id: u64, prev: &Option<Principal>, take: Option<u64>) -> (r: Vec<
        TokenApproval,
    >)
        requires
            self.wf(),
        ensures
            !self.holders().contains_key(token_id) ==> r@.len() == 0,
            self.holders().contains_key(token_id) ==> exists|infos: Seq<ApprovalInfo>|
                is_approval_page(
                    token_list(self.token_approvals@, token_id),
                    *prev,
                    take_spec(self.collection.settings, take) as nat,
                    infos,
                ) && infos.len() == r@.len() && forall|k: int|
                    0 <= k < r@.len() ==> (#[trigger] r@[k]).token_id == token_id
                        && r@[k].approval_info == infos[k],
    {
        if self.owner_of_key(token_id).is_none() {
            return Vec::new();
        }
        let t = take_value(&self.collection.settings, take) as usize;
        let infos = match find_token(&self.token_approvals, token_id) {
            Some(i) => approval_page(&self.token_approvals[i].approvals, prev, t),
            None => approval_page(&Approvals::new(), prev, t),
        };
        let ghost iv = infos@;
        let mut r: Vec<TokenApproval> = Vec::new();
        let mut infos = infos;
        let n = infos.len();
        let mut k: usize = 0;
        while k < n
            invariant
                k <= n == iv.len(),
                infos@ == iv.skip(k as int),
                r@.len() == k,
                forall|j: int|
                    0 <= j < k ==> (#[trigger] r@[j]).token_id == token_id && r@[j].approval_info
                        == iv[j],
            decreases n - k,
        {
            assert(infos@[0] == iv[k as int]);
            assert(infos@.remove(0) =~= iv.skip(k + 1));
            let info = infos.remove(0);
            r.push(TokenApproval { token_id, approval_info: info });
            k = k + 1;
        }
        r
    }

    /// The page of collection-scoped approvals `owner` granted, after `prev`.
    pub fn get_collection_approvals(&self, owner: &Principal, prev: &Option<Principal>, take: Option<u64>) -> (r:
        Vec<ApprovalInfo>)
        requires
            self.wf(),
        ensures
            is_approval_page(
                holder_list(self.collection_approvals@, owner@),
                *prev,
                take_spec(self.collection.settings, take) as nat,
                r@,
            ),
    {
        let t = take_value(&self.collection.settings, take) as usize;
        match find_holder_approvals(&self.collection_approvals, owner) {
            Some(i) => approval_page(&self.collection_approvals[i].approvals, prev, t),
            None => approval_page(&Approvals::new(), prev, t),
        }
    }

    /// For each item, whether the spender may move the caller's token: a live
    /// collection-scoped approval from the caller, or a live token-scoped one on
    /// a token the caller holds. All false for an anonymous caller. Aborts where
    /// the batch exceeds the query batch size.
    pub fn is_approved(&self, caller: &Principal, args: &Vec<IsApprovedArg>, now: u64) -> (r: Result<
        Vec<bool>,
        String,
    >)
        requires
            self.wf(),
        ensures
            r is Err <==> args@.len() > self.collection.settings.max_query_batch_size,
            r matches Ok(v) ==> v@.len() == args@.len() && forall|k: int|
                0 <= k < args@.len() ==> #[trigger] v@[k] == (caller@ != anonymous_bytes() && (
                self.collection_approved(caller@, args@[k].spender@, now) || (
                self.holders().contains_key(args@[k].token_id) && self.holders()[args@[k].token_id]
                    == caller@ && self.token_approved(args@[k].token_id, args@[k].spender@, now)))),
    {
        if args.len() > self.collection.settings.max_query_batch_size as usize {
            return Err("exceeds max query batch size".to_string());
        }
        let anonymous = caller.is_anonymous();
        let mut v: Vec<bool> = Vec::new();
        let mut k: usize = 0;
        while k < args.len()
            invariant
                self.wf(),
                k <= args@.len(),
                v@.len() == k,
                anonymous == (caller@ == anonymous_bytes()),
                forall|j: int|
                    0 <= j < k ==> #[trigger] v@[j] == (caller@ != anonymous_bytes() && (
                    self.collection_approved(caller@, args@[j].spender@, now) || (
                    self.holders().contains_key(args@[j].token_id)
                        && self.holders()[args@[j].token_id] == caller@ && self.token_approved(
                        args@[j].token_id,
                        args@[j].spender@,
                        now,
                    )))),
            decreases args@.len() - k,
        {
            let a = &args[k];
            let b = !anonymous && (self.is_collection_approved(caller, &a.spender, now) || (
            self.is_holder_of(a.token_id, caller) && self.is_token_approved(
                a.token_id,
                &a.spender,
                now,
            )));
            v.push(b);
            k = k + 1;
        }
        Ok(v)
    }
}

} // verus!
