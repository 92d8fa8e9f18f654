use vstd::prelude::*;

use crate::approval_store::{holder_list, put_holder, put_token, take_holder, take_token, token_list, TokenApprovals};
use crate::approvals::{has_spender, with_approval, without_spender, Approval};
use crate::ledger::Ledger;
use crate::principal::{anonymous_bytes, Principal};
use crate::settings::{check_item, check_spec, Settings};
use crate::transaction::{who, Op, Transaction};
use crate::transfer::{
    check_outcome, done_count, lemma_done_count_bound, lemma_done_count_prefix, lemma_take_push,
    lemma_take_step, memo_len, Outcome,
};
use crate::owner_tokens::{find_holder, holds, lemma_entry_unique};
use crate::types::{
    ApproveCollectionError, ApproveTokenError, ItemCheck, RevokeCollectionApprovalError,
    RevokeTokenApprovalError,
};

verus! {

/// Grants `spender` a collection-scoped approval over all the caller's tokens.
/// Times are in seconds; an absent time counts as 0.
#[derive(Clone, Debug)]
pub struct ApproveCollectionArg {
    pub spender: Principal,
    pub created_at_time: Option<u64>,
    pub expires_at: Option<u64>,
    pub memo: Option<Vec<u8>>,
}

/// Revokes the caller's collection-scoped approval of `spender`, or all of
/// them where `spender` is absent.
#[derive(Clone, Debug)]
pub struct RevokeCollectionApprovalArg {
    pub spender: Option<Principal>,
    pub memo: Option<Vec<u8>>,
    pub created_at_time: Option<u64>,
}

pub open spec fn or_zero(t: Option<u64>) -> u64 {
    match t {
        Some(v) => v,
        None => 0,
    }
}

/// The approval entry an approve item records.
pub open spec fn grant_of(spender: Principal, created_at_time: Option<u64>, expires_at: Option<u64>) -> Approval {
    Approval { spender, created_at: or_zero(created_at_time), expires_at: or_zero(expires_at) }
}

/// The outcome of one collection-scoped approve item against the caller's list.
pub open spec fn approve_collection_outcome(
    list: Seq<Approval>,
    caller: Seq<u8>,
    a: ApproveCollectionArg,
    now: u64,
    s: Settings,
) -> Outcome {
    let c = check_spec(s, now, a.created_at_time, memo_len(a.memo));
    if c != ItemCheck::Valid {
        check_outcome(c)
    } else if a.spender@ == caller {
        Outcome::InvalidSpender
    } else if list.len() >= s.max_approvals_per_token_or_collection {
        Outcome::TooManyApprovals
    } else {
        Outcome::Done
    }
}

pub open spec fn approve_collection_fold(
    list: Seq<Approval>,
    caller: Seq<u8>,
    args: Seq<ApproveCollectionArg>,
    now: u64,
    s: Settings,
) -> (Seq<Approval>, Seq<Outcome>)
    decreases args.len(),
{
    if args.len() == 0 {
        (list, Seq::empty())
    } else {
        let prev = approve_collection_fold(list, caller, args.drop_last(), now, s);
        let a = args.last();
        let o = approve_collection_outcome(prev.0, caller, a, now, s);
        if o == Outcome::Done {
            (
                with_approval(prev.0, grant_of(a.spender, a.created_at_time, a.expires_at)),
                prev.1.push(o),
            )
        } else {
            (prev.0, prev.1.push(o))
        }
    }
}

pub open spec fn approve_collection_result_matches(
    r: Result<u64, ApproveCollectionError>,
    o: Outcome,
    idx: int,
    now: u64,
) -> bool {
    match o {
        Outcome::Done => r == Ok::<u64, ApproveCollectionError>(idx as u64),
        Outcome::TooOld => r == Err::<u64, ApproveCollectionError>(ApproveCollectionError::TooOld),
        Outcome::CreatedInFuture => r == Err::<u64, ApproveCollectionError>(
            ApproveCollectionError::CreatedInFuture { ledger_time: now },
        ),
        Outcome::MemoTooLong => r matches Err(ApproveCollectionError::GenericError { message, .. }) && message@ == "memo too long"@,
        Outcome::InvalidSpender => r == Err::<u64, ApproveCollectionError>(
            ApproveCollectionError::InvalidSpender,
        ),
        Outcome::TooManyApprovals => r matches Err(ApproveCollectionError::GenericBatchError { message, .. }) && message@
            == "exceeds the maximum number of approvals"@,
        _ => false,
    }
}

/// The outcome of one collection-scoped revoke item against the caller's list.
pub open spec fn revoke_collection_outcome(
    list: Seq<Approval>,
    a: RevokeCollectionApprovalArg,
    now: u64,
    s: Settings,
) -> Outcome {
    let c = check_spec(s, now, a.created_at_time, memo_len(a.memo));
    if c != ItemCheck::Valid {
        check_outcome(c)
    } else if a.spender is Some && !has_spender(list, a.spender->0@) {
        Outcome::ApprovalDoesNotExist
    } else {
        Outcome::Done
    }
}

/// The list after a done revoke item: all entries gone, or the spender's.
pub open spec fn revoked(list: Seq<Approval>, spender: Option<Principal>) -> Seq<Approval> {
    match spender {
        Some(sp) => without_spender(list, sp@),
        None => Seq::empty(),
    }
}

pub open spec fn revoke_collection_fold(
    list: Seq<Approval>,
    args: Seq<RevokeCollectionApprovalArg>,
    now: u64,
    s: Settings,
) -> (Seq<Approval>, Seq<Outcome>)
    decreases args.len(),
{
    if args.len() == 0 {
        (list, Seq::empty())
    } else {
        let prev = revoke_collection_fold(list, args.drop_last(), now, s);
        let a = args.last();
        let o = revoke_collection_outcome(prev.0, a, now, s);
        if o == Outcome::Done {
            (revoked(prev.0, a.spender), prev.1.push(o))
        } else {
            (prev.0, prev.1.push(o))
        }
    }
}

pub open spec fn revoke_collection_result_matches(
    r: Result<u64, RevokeCollectionApprovalError>,
    o: Outcome,
    idx: int,
    now: u64,
) -> bool {
    match o {
        Outcome::Done => r == Ok::<u64, RevokeCollectionApprovalError>(idx as u64),
        Outcome::TooOld => r == Err::<u64, RevokeCollectionApprovalError>(
            RevokeCollectionApprovalError::TooOld,
        ),
        Outcome::CreatedInFuture => r == Err::<u64, RevokeCollectionApprovalError>(
            RevokeCollectionApprovalError::CreatedInFuture { ledger_time: now },
        ),
        Outcome::MemoTooLong => r matches Err(RevokeCollectionApprovalError::GenericError { message, .. }) && message@ == "memo too long"@,
        Outcome::ApprovalDoesNotExist => r == Err::<u64, RevokeCollectionApprovalError>(
            RevokeCollectionApprovalError::ApprovalDoesNotExist,
        ),
        _ => false,
    }
}

/// A batch call that aborts as a whole, changing nothing.
pub open spec fn batch_refused(l: Ledger, caller: Seq<u8>, n: nat, max: u16) -> bool {
    ||| n == 0
    ||| n > max
    ||| caller == anonymous_bytes()
    ||| l.log.0@.len() + n > u64::MAX
}

/// Only the caller's collection-scoped approvals and the log may change.
pub open spec fn only_collection_approvals(a: Ledger, b: Ledger, caller: Seq<u8>) -> bool {
    &&& a.tokens == b.tokens
    &&& a.owners == b.owners
    &&& a.owner_tokens == b.owner_tokens
    &&& a.token_approvals == b.token_approvals
    &&& a.collection == b.collection
    &&& a.assets == b.assets
    &&& a.secret == b.secret
    &&& forall|g: Seq<u8>|
        g != caller ==> #[trigger] holder_list(b.collection_approvals@, g) == holder_list(
            a.collection_approvals@,
            g,
        )
}


/// Grants `spender` a token-scoped approval on the caller's token `token_id`.
#[derive(Clone, Debug)]
pub struct ApproveTokenArg {
    pub token_id: u64,
    pub spender: Principal,
    pub created_at_time: Option<u64>,
    pub expires_at: Option<u64>,
    pub memo: Option<Vec<u8>>,
}

/// Revokes the token-scoped approval of `spender` on the caller's token
/// `token_id`, or all of them where `spender` is absent.
#[derive(Clone, Debug)]
pub struct RevokeTokenApprovalArg {
    pub token_id: u64,
    pub spender: Option<Principal>,
    pub memo: Option<Vec<u8>>,
    pub created_at_time: Option<u64>,
}

/// The approvals of token `y` once the lists in `ov` have replaced those of `init`.
pub open spec fn lookup(ov: Map<u64, Seq<Approval>>, init: Seq<TokenApprovals>, y: u64) -> Seq<Approval> {
    if ov.contains_key(y) {
        ov[y]
    } else {
        token_list(init, y)
    }
}

/// The outcome of one token-scoped approve item.
pub open spec fn approve_token_outcome(
    h: Map<u64, Seq<u8>>,
    holds_any: bool,
    list: Seq<Approval>,
    caller: Seq<u8>,
    a: ApproveTokenArg,
    now: u64,
    s: Settings,
) -> Outcome {
    let c = check_spec(s, now, a.created_at_time, memo_len(a.memo));
    if !holds_any {
        Outcome::Unauthorized
    } else if c != ItemCheck::Valid {
        check_outcome(c)
    } else if a.spender@ == caller {
        Outcome::InvalidSpender
    } else if !(h.contains_key(a.token_id) && h[a.token_id] == caller) {
        Outcome::NonExistingTokenId
    } else if list.len() >= s.max_approvals_per_token_or_collection {
        Outcome::TooManyApprovals
    } else {
        Outcome::Done
    }
}

pub open spec fn approve_token_fold(
    h: Map<u64, Seq<u8>>,
    holds_any: bool,
    init: Seq<TokenApprovals>,
    caller: Seq<u8>,
    args: Seq<ApproveTokenArg>,
    now: u64,
    s: Settings,
) -> (Map<u64, Seq<Approval>>, Seq<Outcome>)
    decreases args.len(),
{
    if args.len() == 0 {
        (Map::empty(), Seq::empty())
    } else {
        let prev = approve_token_fold(h, holds_any, init, caller, args.drop_last(), now, s);
        let a = args.last();
        let list = lookup(prev.0, init, a.token_id);
        let o = approve_token_outcome(h, holds_any, list, caller, a, now, s);
        if o == Outcome::Done {
            (
                prev.0.insert(
                    a.token_id,
                    with_approval(list, grant_of(a.spender, a.created_at_time, a.expires_at)),
                ),
                prev.1.push(o),
            )
        } else {
            (prev.0, prev.1.push(o))
        }
    }
}

pub open spec fn approve_token_result_matches(
    r: Result<u64, ApproveTokenError>,
    o: Outcome,
    idx: int,
    now: u64,
) -> bool {
    match o {
        Outcome::Done => r == Ok::<u64, ApproveTokenError>(idx as u64),
        Outcome::TooOld => r == Err::<u64, ApproveTokenError>(ApproveTokenError::TooOld),
        Outcome::CreatedInFuture => r == Err::<u64, ApproveTokenError>(
            ApproveTokenError::CreatedInFuture { ledger_time: now },
        ),
        Outcome::MemoTooLong => r matches Err(ApproveTokenError::GenericError { message, .. }) && message@ == "memo too long"@,
        Outcome::InvalidSpender => r == Err::<u64, ApproveTokenError>(ApproveTokenError::InvalidSpender),
        Outcome::Unauthorized => r == Err::<u64, ApproveTokenError>(ApproveTokenError::Unauthorized),
        Outcome::NonExistingTokenId => r == Err::<u64, ApproveTokenError>(
            ApproveTokenError::NonExistingTokenId,
        ),
        Outcome::TooManyApprovals => r matches Err(ApproveTokenError::GenericBatchError { message, .. }) && message@
            == "exceeds the maximum number of approvals"@,
        _ => false,
    }
}

/// The outcome of one token-scoped revoke item.
pub open spec fn revoke_token_outcome(
    h: Map<u64, Seq<u8>>,
    holds_any: bool,
    list: Seq<Approval>,
    caller: Seq<u8>,
    a: RevokeTokenApprovalArg,
    now: u64,
    s: Settings,
) -> Outcome {
    let c = check_spec(s, now, a.created_at_time, memo_len(a.memo));
    if !holds_any {
        Outcome::Unauthorized
    } else if c != ItemCheck::Valid {
        check_outcome(c)
    } else if !(h.contains_key(a.token_id) && h[a.token_id] == caller) {
        Outcome::NonExistingTokenId
    } else if a.spender is Some && !has_spender(list, a.spender->0@) {
        Outcome::ApprovalDoesNotExist
    } else {
        Outcome::Done
    }
}

pub open spec fn revoke_token_fold(
    h: Map<u64, Seq<u8>>,
    holds_any: bool,
    init: Seq<TokenApprovals>,
    caller: Seq<u8>,
    args: Seq<RevokeTokenApprovalArg>,
    now: u64,
    s: Settings,
) -> (Map<u64, Seq<Approval>>, Seq<Outcome>)
    decreases args.len(),
{
    if args.len() == 0 {
        (Map::empty(), Seq::empty())
    } else {
        let prev = revoke_token_fold(h, holds_any, init, caller, args.drop_last(), now, s);
        let a = args.last();
        let list = lookup(prev.0, init, a.token_id);
        let o = revoke_token_outcome(h, holds_any, list, caller, a, now, s);
        if o == Outcome::Done {
            (prev.0.insert(a.token_id, revoked(list, a.spender)), prev.1.push(o))
        } else {
            (prev.0, prev.1.push(o))
        }
    }
}

pub open spec fn revoke_token_result_matches(
    r: Result<u64, RevokeTokenApprovalError>,
    o: Outcome,
    idx: int,
    now: u64,
) -> bool {
    match o {
        Outcome::Done => r == Ok::<u64, RevokeTokenApprovalError>(idx as u64),
        Outcome::TooOld => r == Err::<u64, RevokeTokenApprovalError>(RevokeTokenApprovalError::TooOld),
        Outcome::CreatedInFuture => r == Err::<u64, RevokeTokenApprovalError>(
            RevokeTokenApprovalError::CreatedInFuture { ledger_time: now },
        ),
        Outcome::MemoTooLong => r matches Err(RevokeTokenApprovalError::GenericError { message, .. }) && message@ == "memo too long"@,
        Outcome::Unauthorized => r == Err::<u64, RevokeTokenApprovalError>(
            RevokeTokenApprovalError::Unauthorized,
        ),
        Outcome::NonExistingTokenId => r == Err::<u64, RevokeTokenApprovalError>(
            RevokeTokenApprovalError::NonExistingTokenId,
        ),
        Outcome::ApprovalDoesNotExist => r == Err::<u64, RevokeTokenApprovalError>(
            RevokeTokenApprovalError::ApprovalDoesNotExist,
        ),
        _ => false,
    }
}

/// Only token-scoped approvals and the log may change.
pub open spec fn only_token_approvals(a: Ledger, b: Ledger) -> bool {
    &&& a.tokens == b.tokens
    &&& a.owners == b.owners
    &&& a.owner_tokens == b.owner_tokens
    &&& a.collection_approvals == b.collection_approvals
    &&& a.collection == b.collection
    &&& a.assets == b.assets
    &&& a.secret == b.secret
}

impl Ledger {
    /// Whether `p` holds at least one token.
    pub fn holds_any(&self, p: &Principal) -> (r: bool)
        requires
            self.wf(),
        ensures
            r == exists|x: u64| holds(self.owner_tokens@, p@, x),
    {
        match find_holder(&self.owner_tokens, p) {
            Some(i) => {
                proof {
                    lemma_entry_unique(self.owner_tokens@, p@, i as int);
                }
                if self.owner_tokens[i].ids.len() > 0 {
                    proof {
                        let x = self.owner_tokens@[i as int].ids@[0];
                        assert(self.owner_tokens@[i as int].ids@.contains(x));
                        assert(holds(self.owner_tokens@, p@, x));
                    }
                    true
                } else {
                    proof {
                        assert forall|x: u64| !holds(self.owner_tokens@, p@, x) by {
                            if holds(self.owner_tokens@, p@, x) {
                                assert(self.owner_tokens@[i as int].ids@.contains(x));
                            }
                        }
                    }
                    false
                }
            },
            None => false,
        }
    }

    /// Whether `p` holds token `x`.
    pub fn is_holder_of(&self, x: u64, p: &Principal) -> (r: bool)
        requires
            self.wf(),
        ensures
            r == (self.holders().contains_key(x) && self.holders()[x] == p@),
    {
        match self.owner_of_key(x) {
            Some(h) => h.same(p),
            None => false,
        }
    }
}

impl Ledger {
    /// Grants collection-scoped approvals of the caller's tokens, item by item.
    ///
    /// Aborts, changing nothing, when the batch is empty or too large, the caller
    /// is anonymous, or the log has no room. An item fails on its time window or
    /// memo, a spender that is the caller, or a full approval list; a done item's
    /// result is the log position of its record.
    pub fn approve_collection(&mut self, caller: &Principal, args: Vec<ApproveCollectionArg>, now: u64) -> (r: Result<
        Vec<Result<u64, ApproveCollectionError>>,
        String,
    >)
        requires
            old(self).wf(),
        ensures
            final(self).wf(),
            r is Err <==> batch_refused(
                *old(self),
                caller@,
                args@.len(),
                old(self).collection.settings.max_update_batch_size,
            ),
            r is Err ==> *final(self) == *old(self),
            r matches Ok(rs) ==> ({
                let f = approve_collection_fold(
                    holder_list(old(self).collection_approvals@, caller@),
                    caller@, args@,
                    now,
                    old(self).collection.settings,
                );
                let base = old(self).log.0@.len() as int;
                &&& only_collection_approvals(*old(self), *final(self), caller@)
                &&& holder_list(final(self).collection_approvals@, caller@) == f.0
                &&& rs@.len() == args@.len()
                &&& forall|k: int|
                    0 <= k < args@.len() ==> approve_collection_result_matches(
                        #[trigger] rs@[k],
                        f.1[k],
                        base + done_count(f.1.take(k)) as int,
                        now,
                    )
                &&& final(self).log.0@.len() == base + done_count(f.1) as int
                &&& final(self).log.0@.take(base) == old(self).log.0@
                &&& forall|k: int|
                    0 <= k < args@.len() && f.1[k] == Outcome::Done ==> ({
                        let t = #[trigger] final(self).log.0@[base + done_count(f.1.take(k)) as int];
                        &&& t.op == Op::ApproveCollection
                        &&& t.ts == now
                        &&& who(t.from) == Some(caller@)
                        &&& who(t.spender) == Some(args@[k].spender@)
                    })
            }),
    {
        let settings = self.collection.settings;
        if args.len() == 0 {
            return Err("no args provided".to_string());
        }
        if args.len() > settings.max_update_batch_size as usize {
            return Err("exceeds max batch size".to_string());
        }
        if caller.is_anonymous() {
            return Err("anonymous caller".to_string());
        }
        if (self.log.total() as u128) + (args.len() as u128) > (u64::MAX as u128) {
            return Err("transaction log is full".to_string());
        }
        let ghost args0 = args@;
        let ghost old_self = *self;
        let ghost base = self.log.0@.len() as int;
        let mut args = args;
        let mut list = take_holder(&mut self.collection_approvals, caller);
        let ghost list0 = list.0@;
        let mut rs: Vec<Result<u64, ApproveCollectionError>> = Vec::new();
        let n = args.len();
        let mut k: usize = 0;
        proof {
            assert(args0.take(0) =~= Seq::<ApproveCollectionArg>::empty());
            assert(args0.skip(0) =~= args0);
        }
        while k < n
            invariant
                k <= n,
                n == args0.len(),
                args@ == args0.skip(k as int),
                settings == old_self.collection.settings,
                base == old_self.log.0@.len(),
                base + n <= u64::MAX,
                old_self == *old(self),
                list0 == holder_list(old_self.collection_approvals@, caller@),
                list.wf(),
                self.wf(),
                self.tokens == old_self.tokens,
                self.owners == old_self.owners,
                self.owner_tokens == old_self.owner_tokens,
                self.token_approvals == old_self.token_approvals,
                self.collection == old_self.collection,
                self.assets == old_self.assets,
                self.secret == old_self.secret,
                forall|g: Seq<u8>| #[trigger]
                    holder_list(self.collection_approvals@, g) == if g == caller@ {
                        Seq::<Approval>::empty()
                    } else {
                        holder_list(old_self.collection_approvals@, g)
                    },
                rs@.len() == k,
                ({
                    let f = approve_collection_fold(list0, caller@, args0.take(k as int), now, settings);
                    &&& list.0@ == f.0
                    &&& f.1.len() == k
                    &&& forall|j: int|
                        0 <= j < k ==> approve_collection_result_matches(
                            #[trigger] rs@[j],
                            f.1[j],
                            base + done_count(f.1.take(j)) as int,
                            now,
                        )
                    &&& self.log.0@.len() == base + done_count(f.1) as int
                    &&& self.log.0@.take(base) == old_self.log.0@
                    &&& forall|j: int|
                        0 <= j < k && f.1[j] == Outcome::Done ==> ({
                            let t = #[trigger] self.log.0@[base + done_count(f.1.take(j)) as int];
                            &&& t.op == Op::ApproveCollection
                            &&& t.ts == now
                            &&& who(t.from) == Some(caller@)
                            &&& who(t.spender) == Some(args0[j].spender@)
                        })
                }),
            decreases n - k,
        {
            let ghost f = approve_collection_fold(list0, caller@, args0.take(k as int), now, settings);
            let ghost before = *self;
            let ghost list_before = list.0@;
            proof {
                lemma_done_count_bound(f.1);
                lemma_take_step(args0, k as int);
                assert(args@[0] == args0[k as int]);
                assert(args@.remove(0) =~= args0.skip(k + 1));
            }
            let a = args.remove(0);
            let memo_len: usize = match &a.memo {
                Some(m) => m.len(),
                None => 0,
            };
            let c = check_item(&settings, now, a.created_at_time, memo_len);
            let ghost o = approve_collection_outcome(list_before, caller@, a, now, settings);
            let r: Result<u64, ApproveCollectionError> = if c != ItemCheck::Valid {
                match c {
                    ItemCheck::TooOld => Err(ApproveCollectionError::TooOld),
                    ItemCheck::CreatedInFuture => Err(
                        ApproveCollectionError::CreatedInFuture { ledger_time: now },
                    ),
                    _ => Err(
                        ApproveCollectionError::GenericError {
                            error_code: 0,
                            message: "memo too long".to_string(),
                        },
                    ),
                }
            } else if a.spender.same(caller) {
                Err(ApproveCollectionError::InvalidSpender)
            } else if list.total() >= settings.max_approvals_per_token_or_collection as usize {
                Err(
                    ApproveCollectionError::GenericBatchError {
                        error_code: 0,
                        message: "exceeds the maximum number of approvals".to_string(),
                    },
                )
            } else {
                let sp = a.spender.dup();
                let created = match a.created_at_time {
                    Some(t) => t,
                    None => 0,
                };
                let expires = match a.expires_at {
                    Some(t) => t,
                    None => 0,
                };
                list.insert(a.spender, created, expires);
                let tx = Transaction::approve_collection(now, caller.dup(), sp, a.expires_at, a.memo);
                Ok(self.log.append(tx))
            };
            rs.push(r);
            let ghost f2 = approve_collection_fold(list0, caller@, args0.take(k + 1), now, settings);
            proof {
                assert(f2.1 == f.1.push(o));
                assert forall|j: int| 0 <= j <= k implies #[trigger] f2.1.take(j) == f.1.take(j) by {
                    lemma_take_push(f.1, o, j);
                }
                assert(f2.1.take(k as int) == f.1);
                assert(self.log.0@.take(base) =~= old_self.log.0@) by {
                    assert(before.log.0@.take(base) == old_self.log.0@);
                    if o == Outcome::Done {
                        assert(self.log.0@.drop_last() == before.log.0@);
                    }
                }
                assert forall|j: int|
                    0 <= j < k + 1 && f2.1[j] == Outcome::Done implies ({
                    let t = #[trigger] self.log.0@[base + done_count(f2.1.take(j)) as int];
                    &&& t.op == Op::ApproveCollection
                    &&& t.ts == now
                    &&& who(t.from) == Some(caller@)
                    &&& who(t.spender) == Some(args0[j].spender@)
                }) by {
                    lemma_done_count_prefix(f2.1, j);
                    if j == k as int {
                        assert(self.log.0@[base + done_count(f.1) as int] == self.log.0@.last());
                    } else {
                        assert(f2.1[j] == f.1[j]);
                        lemma_done_count_prefix(f.1, j);
                        let i = base + done_count(f.1.take(j)) as int;
                        if o == Outcome::Done {
                            assert(self.log.0@.drop_last() == before.log.0@);
                            assert(self.log.0@[i] == before.log.0@[i]);
                        }
                    }
                }
                assert forall|j: int| 0 <= j < k + 1 implies approve_collection_result_matches(
                    #[trigger] rs@[j],
                    f2.1[j],
                    base + done_count(f2.1.take(j)) as int,
                    now,
                ) by {
                    if j < k {
                        assert(f2.1[j] == f.1[j]);
                    }
                }
            }
            k = k + 1;
        }
        proof {
            assert(args0.take(n as int) =~= args0);
        }
        put_holder(&mut self.collection_approvals, caller, list);
        Ok(rs)
    }
}

impl Ledger {
    /// Revokes collection-scoped approvals the caller granted, item by item.
    ///
    /// Aborts as `approve_collection` does, with the revoke batch size. An item
    /// without a spender clears every approval, expired or not; one with a
    /// spender fails where that spender has none.
    pub fn revoke_collection_approvals(&mut self, caller: &Principal, args: Vec<RevokeCollectionApprovalArg>, now: u64) -> (r: Result<
        Vec<Result<u64, RevokeCollectionApprovalError>>,
        String,
    >)
        requires
            old(self).wf(),
        ensures
            final(self).wf(),
            r is Err <==> batch_refused(
                *old(self),
                caller@,
                args@.len(),
                old(self).collection.settings.max_revoke_approvals,
            ),
            r is Err ==> *final(self) == *old(self),
            r matches Ok(rs) ==> ({
                let f = revoke_collection_fold(
                    holder_list(old(self).collection_approvals@, caller@),
                    args@,
                    now,
                    old(self).collection.settings,
                );
                let base = old(self).log.0@.len() as int;
                &&& only_collection_approvals(*old(self), *final(self), caller@)
                &&& holder_list(final(self).collection_approvals@, caller@) == f.0
                &&& rs@.len() == args@.len()
                &&& forall|k: int|
                    0 <= k < args@.len() ==> revoke_collection_result_matches(
                        #[trigger] rs@[k],
                        f.1[k],
                        base + done_count(f.1.take(k)) as int,
                        now,
                    )
                &&& final(self).log.0@.len() == base + done_count(f.1) as int
                &&& final(self).log.0@.take(base) == old(self).log.0@
                &&& forall|k: int|
                    0 <= k < args@.len() && f.1[k] == Outcome::Done ==> ({
                        let t = #[trigger] final(self).log.0@[base + done_count(f.1.take(k)) as int];
                        &&& t.op == Op::RevokeCollection
                        &&& t.ts == now
                        &&& who(t.from) == Some(caller@)
                        &&& who(t.spender) == who(args@[k].spender)
                    })
            }),
    {
        let settings = self.collection.settings;
        if args.len() == 0 {
            return Err("no args provided".to_string());
        }
        if args.len() > settings.max_revoke_approvals as usize {
            return Err("exceeds max batch size".to_string());
        }
        if caller.is_anonymous() {
            return Err("anonymous caller".to_string());
        }
        if (self.log.total() as u128) + (args.len() as u128) > (u64::MAX as u128) {
            return Err("transaction log is full".to_string());
        }
        let ghost args0 = args@;
        let ghost old_self = *self;
        let ghost base = self.log.0@.len() as int;
        let mut args = args;
        let mut list = take_holder(&mut self.collection_approvals, caller);
        let ghost list0 = list.0@;
        let mut rs: Vec<Result<u64, RevokeCollectionApprovalError>> = Vec::new();
        let n = args.len();
        let mut k: usize = 0;
        proof {
            assert(args0.take(0) =~= Seq::<RevokeCollectionApprovalArg>::empty());
            assert(args0.skip(0) =~= args0);
        }
        while k < n
            invariant
                k <= n,
                n == args0.len(),
                args@ == args0.skip(k as int),
                settings == old_self.collection.settings,
                base == old_self.log.0@.len(),
                base + n <= u64::MAX,
                old_self == *old(self),
                list0 == holder_list(old_self.collection_approvals@, caller@),
                list.wf(),
                self.wf(),
                self.tokens == old_self.tokens,
                self.owners == old_self.owners,
                self.owner_tokens == old_self.owner_tokens,
                self.token_approvals == old_self.token_approvals,
                self.collection == old_self.collection,
                self.assets == old_self.assets,
                self.secret == old_self.secret,
                forall|g: Seq<u8>| #[trigger]
                    holder_list(self.collection_approvals@, g) == if g == caller@ {
                        Seq::<Approval>::empty()
                    } else {
                        holder_list(old_self.collection_approvals@, g)
                    },
                rs@.len() == k,
                ({
                    let f = revoke_collection_fold(list0, args0.take(k as int), now, settings);
                    &&& list.0@ == f.0
                    &&& f.1.len() == k
                    &&& forall|j: int|
                        0 <= j < k ==> revoke_collection_result_matches(
                            #[trigger] rs@[j],
                            f.1[j],
                            base + done_count(f.1.take(j)) as int,
                            now,
                        )
                    &&& self.log.0@.len() == base + done_count(f.1) as int
                    &&& self.log.0@.take(base) == old_self.log.0@
                    &&& forall|j: int|
                        0 <= j < k && f.1[j] == Outcome::Done ==> ({
                            let t = #[trigger] self.log.0@[base + done_count(f.1.take(j)) as int];
                            &&& t.op == Op::RevokeCollection
                            &&& t.ts == now
                            &&& who(t.from) == Some(caller@)
                            &&& who(t.spender) == who(args0[j].spender)
                        })
                }),
            decreases n - k,
        {
            let ghost f = revoke_collection_fold(list0, args0.take(k as int), now, settings);
            let ghost before = *self;
            let ghost list_before = list.0@;
            proof {
                lemma_done_count_bound(f.1);
                lemma_take_step(args0, k as int);
                assert(args@[0] == args0[k as int]);
                assert(args@.remove(0) =~= args0.skip(k + 1));
            }
            let a = args.remove(0);
            let memo_len: usize = match &a.memo {
                Some(m) => m.len(),
                None => 0,
            };
            let c = check_item(&settings, now, a.created_at_time, memo_len);
            let ghost o = revoke_collection_outcome(list_before, a, now, settings);
            let r: Result<u64, RevokeCollectionApprovalError> = if c != ItemCheck::Valid {
                match c {
                    ItemCheck::TooOld => Err(RevokeCollectionApprovalError::TooOld),
                    ItemCheck::CreatedInFuture => Err(
                        RevokeCollectionApprovalError::CreatedInFuture { ledger_time: now },
                    ),
                    _ => Err(
                        RevokeCollectionApprovalError::GenericError {
                            error_code: 0,
                            message: "memo too long".to_string(),
                        },
                    ),
                }
            } else {
                let existed = match &a.spender {
                    Some(sp) => list.revoke(sp),
                    None => {
                        list.clear();
                        true
                    },
                };
                if existed {
                    let tx = Transaction::revoke_collection(now, caller.dup(), a.spender, a.memo);
                    Ok(self.log.append(tx))
                } else {
                    Err(RevokeCollectionApprovalError::ApprovalDoesNotExist)
                }
            };
            rs.push(r);
            let ghost f2 = revoke_collection_fold(list0, args0.take(k + 1), now, settings);
            proof {
                assert(f2.1 == f.1.push(o));
                assert forall|j: int| 0 <= j <= k implies #[trigger] f2.1.take(j) == f.1.take(j) by {
                    lemma_take_push(f.1, o, j);
                }
                assert(f2.1.take(k as int) == f.1);
                assert(self.log.0@.take(base) =~= old_self.log.0@) by {
                    assert(before.log.0@.take(base) == old_self.log.0@);
                    if o == Outcome::Done {
                        assert(self.log.0@.drop_last() == before.log.0@);
                    }
                }
                assert forall|j: int|
                    0 <= j < k + 1 && f2.1[j] == Outcome::Done implies ({
                    let t = #[trigger] self.log.0@[base + done_count(f2.1.take(j)) as int];
                    &&& t.op == Op::RevokeCollection
                    &&& t.ts == now
                    &&& who(t.from) == Some(caller@)
                    &&& who(t.spender) == who(args0[j].spender)
                }) by {
                    lemma_done_count_prefix(f2.1, j);
                    if j == k as int {
                        assert(self.log.0@[base + done_count(f.1) as int] == self.log.0@.last());
                    } else {
                        assert(f2.1[j] == f.1[j]);
                        lemma_done_count_prefix(f.1, j);
                        let i = base + done_count(f.1.take(j)) as int;
                        if o == Outcome::Done {
                            assert(self.log.0@.drop_last() == before.log.0@);
                            assert(self.log.0@[i] == before.log.0@[i]);
                        }
                    }
                }
                assert forall|j: int| 0 <= j < k + 1 implies revoke_collection_result_matches(
                    #[trigger] rs@[j],
                    f2.1[j],
                    base + done_count(f2.1.take(j)) as int,
                    now,
                ) by {
                    if j < k {
                        assert(f2.1[j] == f.1[j]);
                    }
                }
            }
            k = k + 1;
        }
        proof {
            assert(args0.take(n as int) =~= args0);
        }
        put_holder(&mut self.collection_approvals, caller, list);
        Ok(rs)
    }
}

impl Ledger {
    /// Grants token-scoped approvals on the caller's tokens, item by item.
    ///
    /// Aborts as `approve_collection` does. Every item fails as unauthorized
    /// where the caller holds no token; otherwise an item fails on its time
    /// window or memo, a spender that is the caller, a token the caller does
    /// not hold, or a full approval list for that token.
    pub fn approve_tokens(&mut self, caller: &Principal, args: Vec<ApproveTokenArg>, now: u64) -> (r: Result<
        Vec<Result<u64, ApproveTokenError>>,
        String,
    >)
        requires
            old(self).wf(),
        ensures
            final(self).wf(),
            r is Err <==> batch_refused(
                *old(self),
                caller@,
                args@.len(),
                old(self).collection.settings.max_update_batch_size,
            ),
            r is Err ==> *final(self) == *old(self),
            r matches Ok(rs) ==> ({
                let f = approve_token_fold(
                    old(self).holders(),
                    exists|x: u64| holds(old(self).owner_tokens@, caller@, x),
                    old(self).token_approvals@,
                    caller@,
                    args@,
                    now,
                    old(self).collection.settings,
                );
                let base = old(self).log.0@.len() as int;
                &&& only_token_approvals(*old(self), *final(self))
                &&& forall|y: u64| #[trigger]
                    token_list(final(self).token_approvals@, y) == lookup(
                        f.0,
                        old(self).token_approvals@,
                        y,
                    )
                &&& rs@.len() == args@.len()
                &&& forall|k: int|
                    0 <= k < args@.len() ==> approve_token_result_matches(
                        #[trigger] rs@[k],
                        f.1[k],
                        base + done_count(f.1.take(k)) as int,
                        now,
                    )
                &&& final(self).log.0@.len() == base + done_count(f.1) as int
                &&& final(self).log.0@.take(base) == old(self).log.0@
                &&& forall|k: int|
                    0 <= k < args@.len() && f.1[k] == Outcome::Done ==> ({
                        let t = #[trigger] final(self).log.0@[base + done_count(f.1.take(k)) as int];
                        &&& t.op == Op::Approve
                        &&& t.ts == now
                        &&& who(t.from) == Some(caller@)
                        &&& who(t.spender) == Some(args@[k].spender@)
                        &&& t.tid == args@[k].token_id
                    })
            }),
    {
        let settings = self.collection.settings;
        if args.len() == 0 {
            return Err("no args provided".to_string());
        }
        if args.len() > settings.max_update_batch_size as usize {
            return Err("exceeds max batch size".to_string());
        }
        if caller.is_anonymous() {
            return Err("anonymous caller".to_string());
        }
        if (self.log.total() as u128) + (args.len() as u128) > (u64::MAX as u128) {
            return Err("transaction log is full".to_string());
        }
        let ghost args0 = args@;
        let ghost old_self = *self;
        let ghost base = self.log.0@.len() as int;
        let mut args = args;
        let any = self.holds_any(caller);
        let ghost h0 = self.holders();
        let ghost ta0 = self.token_approvals@;
        let mut rs: Vec<Result<u64, ApproveTokenError>> = Vec::new();
        let n = args.len();
        let mut k: usize = 0;
        proof {
            assert(args0.take(0) =~= Seq::<ApproveTokenArg>::empty());
            assert(args0.skip(0) =~= args0);
        }
        while k < n
            invariant
                k <= n,
                n == args0.len(),
                args@ == args0.skip(k as int),
                settings == old_self.collection.settings,
                base == old_self.log.0@.len(),
                base + n <= u64::MAX,
                old_self == *old(self),
                h0 == old_self.holders(),
                ta0 == old_self.token_approvals@,
                any == exists|x: u64| holds(old_self.owner_tokens@, caller@, x),
                self.wf(),
                self.tokens == old_self.tokens,
                self.owners == old_self.owners,
                self.owner_tokens == old_self.owner_tokens,
                self.collection_approvals == old_self.collection_approvals,
                self.collection == old_self.collection,
                self.assets == old_self.assets,
                self.secret == old_self.secret,
                rs@.len() == k,
                ({
                    let f = approve_token_fold(h0, any, ta0, caller@, args0.take(k as int), now, settings);
                    &&& forall|y: u64| #[trigger]
                        token_list(self.token_approvals@, y) == lookup(f.0, ta0, y)
                    &&& f.1.len() == k
                    &&& forall|j: int|
                        0 <= j < k ==> approve_token_result_matches(
                            #[trigger] rs@[j],
                            f.1[j],
                            base + done_count(f.1.take(j)) as int,
                            now,
                        )
                    &&& self.log.0@.len() == base + done_count(f.1) as int
                    &&& self.log.0@.take(base) == old_self.log.0@
                    &&& forall|j: int|
                        0 <= j < k && f.1[j] == Outcome::Done ==> ({
                            let t = #[trigger] self.log.0@[base + done_count(f.1.take(j)) as int];
                            &&& t.op == Op::Approve
                            &&& t.ts == now
                            &&& who(t.from) == Some(caller@)
                            &&& who(t.spender) == Some(args0[j].spender@)
                            &&& t.tid == args0[j].token_id
                        })
                }),
            decreases n - k,
        {
            let ghost f = approve_token_fold(h0, any, ta0, caller@, args0.take(k as int), now, settings);
            let ghost before = *self;

            proof {
                lemma_done_count_bound(f.1);
                lemma_take_step(args0, k as int);
                assert(args@[0] == args0[k as int]);
                assert(args@.remove(0) =~= args0.skip(k + 1));
            }
            let a = args.remove(0);
            let memo_len: usize = match &a.memo {
                Some(m) => m.len(),
                None => 0,
            };
            let c = check_item(&settings, now, a.created_at_time, memo_len);
            let ghost o = approve_token_outcome(h0, any, lookup(f.0, ta0, a.token_id), caller@, a, now, settings);
            let r: Result<u64, ApproveTokenError> = if !any {
                Err(ApproveTokenError::Unauthorized)
            } else if c != ItemCheck::Valid {
                match c {
                    ItemCheck::TooOld => Err(ApproveTokenError::TooOld),
                    ItemCheck::CreatedInFuture => Err(
                        ApproveTokenError::CreatedInFuture { ledger_time: now },
                    ),
                    _ => Err(
                        ApproveTokenError::GenericError {
                            error_code: 0,
                            message: "memo too long".to_string(),
                        },
                    ),
                }
            } else if a.spender.same(caller) {
                Err(ApproveTokenError::InvalidSpender)
            } else if !self.is_holder_of(a.token_id, caller) {
                Err(ApproveTokenError::NonExistingTokenId)
            } else {
                let mut list = take_token(&mut self.token_approvals, a.token_id);
                if list.total() >= settings.max_approvals_per_token_or_collection as usize {
                    put_token(&mut self.token_approvals, a.token_id, list);
                    Err(
                        ApproveTokenError::GenericBatchError {
                            error_code: 0,
                            message: "exceeds the maximum number of approvals".to_string(),
                        },
                    )
                } else {
                    let sp = a.spender.dup();
                    let created = match a.created_at_time {
                        Some(t) => t,
                        None => 0,
                    };
                    let expires = match a.expires_at {
                        Some(t) => t,
                        None => 0,
                    };
                    list.insert(a.spender, created, expires);
                    put_token(&mut self.token_approvals, a.token_id, list);
                    let tx = Transaction::approve(now, a.token_id, caller.dup(), sp, a.expires_at, a.memo);
                    Ok(self.log.append(tx))
                }
            };
            rs.push(r);
            let ghost f2 = approve_token_fold(h0, any, ta0, caller@, args0.take(k + 1), now, settings);
            proof {
                assert(f2.1 == f.1.push(o));
                assert forall|y: u64| #[trigger]
                    token_list(self.token_approvals@, y) == lookup(f2.0, ta0, y) by {}
                assert forall|j: int| 0 <= j <= k implies #[trigger] f2.1.take(j) == f.1.take(j) by {
                    lemma_take_push(f.1, o, j);
                }
                assert(f2.1.take(k as int) == f.1);
                assert(self.log.0@.take(base) =~= old_self.log.0@) by {
                    assert(before.log.0@.take(base) == old_self.log.0@);
                    if o == Outcome::Done {
                        assert(self.log.0@.drop_last() == before.log.0@);
                    }
                }
                assert forall|j: int|
                    0 <= j < k + 1 && f2.1[j] == Outcome::Done implies ({
                    let t = #[trigger] self.log.0@[base + done_count(f2.1.take(j)) as int];
                    &&& t.op == Op::Approve
                    &&& t.ts == now
                    &&& who(t.from) == Some(caller@)
                    &&& who(t.spender) == Some(args0[j].spender@)
                    &&& t.tid == args0[j].token_id
                }) by {
                    lemma_done_count_prefix(f2.1, j);
                    if j == k as int {
                        assert(self.log.0@[base + done_count(f.1) as int] == self.log.0@.last());
                    } else {
                        assert(f2.1[j] == f.1[j]);
                        lemma_done_count_prefix(f.1, j);
                        let i = base + done_count(f.1.take(j)) as int;
                        if o == Outcome::Done {
                            assert(self.log.0@.drop_last() == before.log.0@);
                            assert(self.log.0@[i] == before.log.0@[i]);
                        }
                    }
                }
                assert forall|j: int| 0 <= j < k + 1 implies approve_token_result_matches(
                    #[trigger] rs@[j],
                    f2.1[j],
                    base + done_count(f2.1.take(j)) as int,
                    now,
                ) by {
                    if j < k {
                        assert(f2.1[j] == f.1[j]);
                    }
                }
            }
            k = k + 1;
        }
        proof {
            assert(args0.take(n as int) =~= args0);
        }
        Ok(rs)
    }
}

impl Ledger {
    /// Revokes token-scoped approvals on the caller's tokens, item by item.
    ///
    /// Aborts as `approve_collection` does, with the revoke batch size. An item
    /// without a spender clears every approval of its token, expired or not; one
    /// with a spender fails where that spender has none.
    pub fn revoke_token_approvals(&mut self, caller: &Principal, args: Vec<RevokeTokenApprovalArg>, now: u64) -> (r: Result<
        Vec<Result<u64, RevokeTokenApprovalError>>,
        String,
    >)
        requires
            old(self).wf(),
        ensures
            final(self).wf(),
            r is Err <==> batch_refused(
                *old(self),
                caller@,
                args@.len(),
                old(self).collection.settings.max_revoke_approvals,
            ),
            r is Err ==> *final(self) == *old(self),
            r matches Ok(rs) ==> ({
                let f = revoke_token_fold(
                    old(self).holders(),
                    exists|x: u64| holds(old(self).owner_tokens@, caller@, x),
                    old(self).token_approvals@,
                    caller@,
                    args@,
                    now,
                    old(self).collection.settings,
                );
                let base = old(self).log.0@.len() as int;
                &&& only_token_approvals(*old(self), *final(self))
                &&& forall|y: u64| #[trigger]
                    token_list(final(self).token_approvals@, y) == lookup(
                        f.0,
                        old(self).token_approvals@,
                        y,
                    )
                &&& rs@.len() == args@.len()
                &&& forall|k: int|
                    0 <= k < args@.len() ==> revoke_token_result_matches(
                        #[trigger] rs@[k],
                        f.1[k],
                        base + done_count(f.1.take(k)) as int,
                        now,
                    )
                &&& final(self).log.0@.len() == base + done_count(f.1) as int
                &&& final(self).log.0@.take(base) == old(self).log.0@
                &&& forall|k: int|
                    0 <= k < args@.len() && f.1[k] == Outcome::Done ==> ({
                        let t = #[trigger] final(self).log.0@[base + done_count(f.1.take(k)) as int];
                        &&& t.op == Op::Revoke
                        &&& t.ts == now
                        &&& who(t.from) == Some(caller@)
                        &&& who(t.spender) == who(args@[k].spender)
                        &&& t.tid == args@[k].token_id
                    })
            }),
    {
        let settings = self.collection.settings;
        if args.len() == 0 {
            return Err("no args provided".to_string());
        }
        if args.len() > settings.max_revoke_approvals as usize {
            return Err("exceeds max batch size".to_string());
        }
        if caller.is_anonymous() {
            return Err("anonymous caller".to_string());
        }
        if (self.log.total() as u128) + (args.len() as u128) > (u64::MAX as u128) {
            return Err("transaction log is full".to_string());
        }
        let ghost args0 = args@;
        let ghost old_self = *self;
        let ghost base = self.log.0@.len() as int;
        let mut args = args;
        let any = self.holds_any(caller);
        let ghost h0 = self.holders();
        let ghost ta0 = self.token_approvals@;
        let mut rs: Vec<Result<u64, RevokeTokenApprovalError>> = Vec::new();
        let n = args.len();
        let mut k: usize = 0;
        proof {
            assert(args0.take(0) =~= Seq::<RevokeTokenApprovalArg>::empty());
            assert(args0.skip(0) =~= args0);
        }
        while k < n
            invariant
                k <= n,
                n == args0.len(),
                args@ == args0.skip(k as int),
                settings == old_self.collection.settings,
                base == old_self.log.0@.len(),
                base + n <= u64::MAX,
                old_self == *old(self),
                h0 == old_self.holders(),
                ta0 == old_self.token_approvals@,
                any == exists|x: u64| holds(old_self.owner_tokens@, caller@, x),
                self.wf(),
                self.tokens == old_self.tokens,
                self.owners == old_self.owners,
                self.owner_tokens == old_self.owner_tokens,
                self.collection_approvals == old_self.collection_approvals,
                self.collection == old_self.collection,
                self.assets == old_self.assets,
                self.secret == old_self.secret,
                rs@.len() == k,
                ({
                    let f = revoke_token_fold(h0, any, ta0, caller@, args0.take(k as int), now, settings);
                    &&& forall|y: u64| #[trigger]
                        token_list(self.token_approvals@, y) == lookup(f.0, ta0, y)
                    &&& f.1.len() == k
                    &&& forall|j: int|
                        0 <= j < k ==> revoke_token_result_matches(
                            #[trigger] rs@[j],
                            f.1[j],
                            base + done_count(f.1.take(j)) as int,
                            now,
                        )
                    &&& self.log.0@.len() == base + done_count(f.1) as int
                    &&& self.log.0@.take(base) == old_self.log.0@
                    &&& forall|j: int|
                        0 <= j < k && f.1[j] == Outcome::Done ==> ({
                            let t = #[trigger] self.log.0@[base + done_count(f.1.take(j)) as int];
                            &&& t.op == Op::Revoke
                            &&& t.ts == now
                            &&& who(t.from) == Some(caller@)
                            &&& who(t.spender) == who(args0[j].spender)
                            &&& t.tid == args0[j].token_id
                        })
                }),
            decreases n - k,
        {
            let ghost f = revoke_token_fold(h0, any, ta0, caller@, args0.take(k as int), now, settings);
            let ghost before = *self;

            proof {
                lemma_done_count_bound(f.1);
                lemma_take_step(args0, k as int);
                assert(args@[0] == args0[k as int]);
                assert(args@.remove(0) =~= args0.skip(k + 1));
            }
            let a = args.remove(0);
            let memo_len: usize = match &a.memo {
                Some(m) => m.len(),
                None => 0,
            };
            let c = check_item(&settings, now, a.created_at_time, memo_len);
            let ghost o = revoke_token_outcome(h0, any, lookup(f.0, ta0, a.token_id), caller@, a, now, settings);
            let r: Result<u64, RevokeTokenApprovalError> = if !any {
                Err(RevokeTokenApprovalError::Unauthorized)
            } else if c != ItemCheck::Valid {
                match c {
                    ItemCheck::TooOld => Err(RevokeTokenApprovalError::TooOld),
                    ItemCheck::CreatedInFuture => Err(
                        RevokeTokenApprovalError::CreatedInFuture { ledger_time: now },
                    ),
                    _ => Err(
                        RevokeTokenApprovalError::GenericError {
                            error_code: 0,
                            message: "memo too long".to_string(),
                        },
                    ),
                }
            } else if !self.is_holder_of(a.token_id, caller) {
                Err(RevokeTokenApprovalError::NonExistingTokenId)
            } else {
                let mut list = take_token(&mut self.token_approvals, a.token_id);
                let existed = match &a.spender {
                    Some(sp) => list.revoke(sp),
                    None => {
                        list.clear();
                        true
                    },
                };
                put_token(&mut self.token_approvals, a.token_id, list);
                if existed {
                    let tx = Transaction::revoke(now, a.token_id, caller.dup(), a.spender, a.memo);
                    Ok(self.log.append(tx))
                } else {
                    Err(RevokeTokenApprovalError::ApprovalDoesNotExist)
                }
            };
            rs.push(r);
            let ghost f2 = revoke_token_fold(h0, any, ta0, caller@, args0.take(k + 1), now, settings);
            proof {
                assert(f2.1 == f.1.push(o));
                assert forall|y: u64| #[trigger]
                    token_list(self.token_approvals@, y) == lookup(f2.0, ta0, y) by {}
                assert forall|j: int| 0 <= j <= k implies #[trigger] f2.1.take(j) == f.1.take(j) by {
                    lemma_take_push(f.1, o, j);
                }
                assert(f2.1.take(k as int) == f.1);
                assert(self.log.0@.take(base) =~= old_self.log.0@) by {
                    assert(before.log.0@.take(base) == old_self.log.0@);
                    if o == Outcome::Done {
                        assert(self.log.0@.drop_last() == before.log.0@);
                    }
                }
                assert forall|j: int|
                    0 <= j < k + 1 && f2.1[j] == Outcome::Done implies ({
                    let t = #[trigger] self.log.0@[base + done_count(f2.1.take(j)) as int];
                    &&& t.op == Op::Revoke
                    &&& t.ts == now
                    &&& who(t.from) == Some(caller@)
                    &&& who(t.spender) == who(args0[j].spender)
                    &&& t.tid == args0[j].token_id
                }) by {
                    lemma_done_count_prefix(f2.1, j);
                    if j == k as int {
                        assert(self.log.0@[base + done_count(f.1) as int] == self.log.0@.last());
                    } else {
                        assert(f2.1[j] == f.1[j]);
                        lemma_done_count_prefix(f.1, j);
                        let i = base + done_count(f.1.take(j)) as int;
                        if o == Outcome::Done {
                            assert(self.log.0@.drop_last() == before.log.0@);
                            assert(self.log.0@[i] == before.log.0@[i]);
                        }
                    }
                }
                assert forall|j: int| 0 <= j < k + 1 implies revoke_token_result_matches(
                    #[trigger] rs@[j],
                    f2.1[j],
                    base + done_count(f2.1.take(j)) as int,
                    now,
                ) by {
                    if j < k {
                        assert(f2.1[j] == f.1[j]);
                    }
                }
            }
            k = k + 1;
        }
        proof {
            assert(args0.take(n as int) =~= args0);
        }
        Ok(rs)
    }
}

} // verus!
