use vstd::prelude::*;

use crate::approval_store::{holder_list, token_list, HolderApprovals, TokenApprovals};
use crate::approvals::{is_live, Approval};
use crate::ledger::Ledger;
use crate::principal::{anonymous_bytes, Principal};
use crate::settings::{check_item, check_spec, Settings};
use crate::token_id::TokenId;
use crate::transaction::{
    copy_memo, dup_index, log_views, memo_view, DupKey, Op, Transaction, TxView,
};
use crate::transfer::{
    check_outcome, done_count, duplicate_outcome, frame, lemma_done_count_bound, lemma_done_count_prefix,
    lemma_take_push, lemma_take_step, memo_len, Outcome,
};
use crate::types::{ItemCheck, TransferFromError};

verus! {

/// One item of a delegated transfer: the caller, as spender, moves `token_id`
/// from `from` to `to`.
#[derive(Clone, Debug)]
pub struct TransferFromArg {
    pub from: Principal,
    pub to: Principal,
    pub token_id: u64,
    pub memo: Option<Vec<u8>>,
    pub created_at_time: Option<u64>,
}

/// `spender` may move token `x` away from `from`: a live collection-scoped
/// approval from `from`, or a live token-scoped approval on `x` while `from`
/// holds it and it has not moved in this call (`moved`).
pub open spec fn spender_approved(
    h: Map<u64, Seq<u8>>,
    coll: Seq<HolderApprovals>,
    tokens: Seq<TokenApprovals>,
    moved: Set<u64>,
    from: Seq<u8>,
    spender: Seq<u8>,
    x: u64,
    now: u64,
) -> bool {
    ||| is_live(holder_list(coll, from), spender, now)
    ||| (h.contains_key(x) && h[x] == from && !moved.contains(x) && is_live(
        token_list(tokens, x),
        spender,
        now,
    ))
}

/// The key under which a delegated transfer item is logged.
pub open spec fn transfer_from_key(caller: Seq<u8>, a: TransferFromArg) -> DupKey {
    DupKey {
        op: Op::TransferFrom,
        tid: a.token_id,
        from: Some(a.from@),
        to: Some(a.to@),
        spender: Some(caller),
        memo: memo_view(a.memo),
        created_at: a.created_at_time,
    }
}

/// The record a done delegated transfer item logs.
pub open spec fn transfer_from_record(caller: Seq<u8>, a: TransferFromArg, now: u64) -> TxView {
    TxView {
        ts: now,
        op: Op::TransferFrom,
        tid: a.token_id,
        from: Some(a.from@),
        to: Some(a.to@),
        spender: Some(caller),
        exp: None,
        memo: memo_view(a.memo),
        created_at: a.created_at_time,
    }
}

/// The outcome of one delegated transfer item.
pub open spec fn transfer_from_outcome(
    h: Map<u64, Seq<u8>>,
    log: Seq<TxView>,
    coll: Seq<HolderApprovals>,
    tokens: Seq<TokenApprovals>,
    moved: Set<u64>,
    caller: Seq<u8>,
    a: TransferFromArg,
    now: u64,
    s: Settings,
) -> Outcome {
    let c = check_spec(s, now, a.created_at_time, memo_len(a.memo));
    if c != ItemCheck::Valid {
        check_outcome(c)
    } else if duplicate_outcome(log, a.created_at_time, transfer_from_key(caller, a)) is Some {
        duplicate_outcome(log, a.created_at_time, transfer_from_key(caller, a))->0
    } else if a.to@ == a.from@ {
        Outcome::InvalidRecipient
    } else if !spender_approved(h, coll, tokens, moved, a.from@, caller, a.token_id, now) {
        Outcome::Unauthorized
    } else if !h.contains_key(a.token_id) {
        Outcome::NonExistingTokenId
    } else if h[a.token_id] != a.from@ {
        Outcome::Unauthorized
    } else {
        Outcome::Done
    }
}

/// Items processed in order: ownership after them, their outcomes, and the
/// tokens that moved (whose token-scoped approvals are gone).
pub open spec fn transfer_from_fold(
    h: Map<u64, Seq<u8>>,
    log: Seq<TxView>,
    coll: Seq<HolderApprovals>,
    tokens: Seq<TokenApprovals>,
    caller: Seq<u8>,
    args: Seq<TransferFromArg>,
    now: u64,
    s: Settings,
) -> (Map<u64, Seq<u8>>, Seq<Outcome>, Set<u64>, Seq<TxView>)
    decreases args.len(),
{
    if args.len() == 0 {
        (h, Seq::empty(), Set::empty(), log)
    } else {
        let prev = transfer_from_fold(h, log, coll, tokens, caller, args.drop_last(), now, s);
        let a = args.last();
        let o = transfer_from_outcome(prev.0, prev.3, coll, tokens, prev.2, caller, a, now, s);
        if o == Outcome::Done {
            (
                prev.0.insert(a.token_id, a.to@),
                prev.1.push(o),
                prev.2.insert(a.token_id),
                prev.3.push(transfer_from_record(caller, a, now)),
            )
        } else {
            (prev.0, prev.1.push(o), prev.2, prev.3)
        }
    }
}

/// The returned result says what the outcome says; `idx` is the log position of
/// a done item.
pub open spec fn transfer_from_result_matches(
    r: Result<u64, TransferFromError>,
    o: Outcome,
    idx: int,
    now: u64,
) -> bool {
    match o {
        Outcome::Done => r == Ok::<u64, TransferFromError>(idx as u64),
        Outcome::TooOld => r == Err::<u64, TransferFromError>(TransferFromError::TooOld),
        Outcome::CreatedInFuture => r == Err::<u64, TransferFromError>(
            TransferFromError::CreatedInFuture { ledger_time: now },
        ),
        Outcome::MemoTooLong => r matches Err(TransferFromError::GenericError { message, .. }) && message@ == "memo too long"@,
        Outcome::InvalidRecipient => r == Err::<u64, TransferFromError>(TransferFromError::InvalidRecipient),
        Outcome::NonExistingTokenId => r == Err::<u64, TransferFromError>(
            TransferFromError::NonExistingTokenId,
        ),
        Outcome::Unauthorized => r == Err::<u64, TransferFromError>(TransferFromError::Unauthorized),
        Outcome::Duplicate(i) => r == Err::<u64, TransferFromError>(
            TransferFromError::Duplicate { duplicate_of: i },
        ),
        _ => false,
    }
}

/// A delegated transfer call that aborts as a whole, changing nothing.
pub open spec fn transfer_from_refused(
    l: Ledger,
    caller: Seq<u8>,
    args: Seq<TransferFromArg>,
    now: u64,
) -> bool {
    let s = l.collection.settings;
    ||| args.len() == 0
    ||| args.len() > s.max_update_batch_size
    ||| caller == anonymous_bytes()
    ||| l.log.0@.len() + args.len() > u64::MAX
    ||| (s.atomic_batch_transfers && args.len() > 1 && exists|k: int|
        0 <= k < args.len() && transfer_from_outcome(
            l.holders(),
            log_views(l.log.0@),
            l.collection_approvals@,
            l.token_approvals@,
            Set::empty(),
            caller,
            #[trigger] args[k],
            now,
            s,
        ) != Outcome::Done)
}

impl Ledger {
    fn from_outcome_error(o: Outcome, now: u64) -> (r: TransferFromError)
        requires
            o != Outcome::Done,
            o != Outcome::InvalidSpender,
            o != Outcome::TooManyApprovals,
            o != Outcome::ApprovalDoesNotExist,
        ensures
            transfer_from_result_matches(Err(r), o, 0, now),
    {
        match o {
            Outcome::TooOld => TransferFromError::TooOld,
            Outcome::CreatedInFuture => TransferFromError::CreatedInFuture { ledger_time: now },
            Outcome::InvalidRecipient => TransferFromError::InvalidRecipient,
            Outcome::NonExistingTokenId => TransferFromError::NonExistingTokenId,
            Outcome::Unauthorized => TransferFromError::Unauthorized,
            Outcome::Duplicate(i) => TransferFromError::Duplicate { duplicate_of: i },
            _ => TransferFromError::GenericError {
                error_code: 0,
                message: "memo too long".to_string(),
            },
        }
    }

    /// The outcome a delegated transfer item would have now; changes nothing.
    pub fn transfer_from_check(&self, caller: &Principal, arg: &TransferFromArg, now: u64) -> (r:
        Outcome)
        requires
            self.wf(),
        ensures
            r == transfer_from_outcome(
                self.holders(),
                log_views(self.log.0@),
                self.collection_approvals@,
                self.token_approvals@,
                Set::empty(),
                caller@,
                *arg,
                now,
                self.collection.settings,
            ),
    {
        let memo_len: usize = match &arg.memo {
            Some(m) => m.len(),
            None => 0,
        };
        let c = check_item(&self.collection.settings, now, arg.created_at_time, memo_len);
        if c != ItemCheck::Valid {
            return match c {
                ItemCheck::TooOld => Outcome::TooOld,
                ItemCheck::CreatedInFuture => Outcome::CreatedInFuture,
                _ => Outcome::MemoTooLong,
            };
        }
        if let Some(t) = arg.created_at_time {
            if let Some(i) = self.log.find_record(
                Op::TransferFrom,
                arg.token_id,
                &arg.from,
                &arg.to,
                Some(caller),
                &arg.memo,
                t,
            ) {
                return Outcome::Duplicate(i);
            }
        }
        if arg.to.same(&arg.from) {
            return Outcome::InvalidRecipient;
        }
        let held_by_from = match self.owner_of_key(arg.token_id) {
            None => false,
            Some(p) => p.same(&arg.from),
        };
        let approved = self.is_collection_approved(&arg.from, caller, now) || (held_by_from
            && self.is_token_approved(arg.token_id, caller, now));
        if !approved {
            return Outcome::Unauthorized;
        }
        match self.owner_of_key(arg.token_id) {
            None => Outcome::NonExistingTokenId,
            Some(p) => if p.same(&arg.from) {
                Outcome::Done
            } else {
                Outcome::Unauthorized
            },
        }
    }

    fn transfer_from_item(&mut self, caller: &Principal, arg: &TransferFromArg, now: u64) -> (r:
        Result<u64, TransferFromError>)
        requires
            old(self).wf(),
            old(self).log.0@.len() < u64::MAX,
        ensures
            final(self).wf(),
            frame(*old(self), *final(self)),
            ({
                let o = transfer_from_outcome(
                    old(self).holders(),
                    log_views(old(self).log.0@),
                    old(self).collection_approvals@,
                    old(self).token_approvals@,
                    Set::empty(),
                    caller@,
                    *arg,
                    now,
                    old(self).collection.settings,
                );
                &&& transfer_from_result_matches(r, o, old(self).log.0@.len() as int, now)
                &&& o != Outcome::Done ==> *final(self) == *old(self)
                &&& o == Outcome::Done ==> {
                    &&& final(self).holders() == old(self).holders().insert(arg.token_id, arg.to@)
                    &&& final(self).log.0@.len() == old(self).log.0@.len() + 1
                    &&& final(self).log.0@.drop_last() == old(self).log.0@
                    &&& log_views(final(self).log.0@) == log_views(old(self).log.0@).push(
                        transfer_from_record(caller@, *arg, now),
                    )
                    &&& forall|y: u64| #[trigger]
                        token_list(final(self).token_approvals@, y) == if y == arg.token_id {
                            Seq::<Approval>::empty()
                        } else {
                            token_list(old(self).token_approvals@, y)
                        }
                }
            }),
    {
        let o = self.transfer_from_check(caller, arg, now);
        if o != Outcome::Done {
            return Err(Self::from_outcome_error(o, now));
        }
        let id = TokenId::from_u64(arg.token_id);
        self.move_token(&arg.from, &arg.to, arg.token_id, id.0, id.1);
        let tx = Transaction::transfer_from(
            now,
            arg.token_id,
            arg.from.dup(),
            arg.to.dup(),
            caller.dup(),
            copy_memo(&arg.memo),
            arg.created_at_time,
        );
        Ok(self.log.append(tx))
    }
}


impl Ledger {
    /// As the spender, moves each item's token from its holder to its recipient;
    /// each item needs a live approval (see `spender_approved`).
    ///
    /// The call aborts, changing nothing, when the batch is empty or too large,
    /// the caller is anonymous, the log has no room, or (with atomic batches on
    /// and more than one item) any item would fail. Otherwise items apply in
    /// order, each against the state the earlier ones left; a failed item
    /// changes nothing and does not undo the others. An item that states its
    /// creation time and repeats a logged transfer is a duplicate. A done item's
    /// result is the log position of its record.
    pub fn transfer_from(
        &mut self,
        caller: &Principal,
        args: &Vec<TransferFromArg>,
        now: u64,
    ) -> (r: Result<
        Vec<Result<u64, TransferFromError>>,
        String,
    >)
        requires
            old(self).wf(),
        ensures
            final(self).wf(),
            frame(*old(self), *final(self)),
            r is Err <==> transfer_from_refused(*old(self), caller@, args@, now),
            r is Err ==> *final(self) == *old(self),
            r matches Ok(rs) ==> ({
                let f = transfer_from_fold(
                    old(self).holders(),
                    log_views(old(self).log.0@),
                    old(self).collection_approvals@,
                    old(self).token_approvals@,
                    caller@,
                    args@,
                    now,
                    old(self).collection.settings,
                );
                let base = old(self).log.0@.len() as int;
                &&& final(self).holders() == f.0
                &&& rs@.len() == args@.len()
                &&& forall|k: int|
                    0 <= k < args@.len() ==> transfer_from_result_matches(
                        #[trigger] rs@[k],
                        f.1[k],
                        base + done_count(f.1.take(k)) as int,
                        now,
                    )
                &&& final(self).log.0@.len() == base + done_count(f.1) as int
                &&& final(self).log.0@.take(base as int) == old(self).log.0@
                &&& log_views(final(self).log.0@) == f.3
                &&& forall|y: u64| #[trigger]
                    token_list(final(self).token_approvals@, y) == if f.2.contains(y) {
                        Seq::<Approval>::empty()
                    } else {
                        token_list(old(self).token_approvals@, y)
                    }
            }),
    {
        let settings = self.collection.settings;
        if args.len() == 0 {
            return Err("no transfer args provided".to_string());
        }
        if args.len() > settings.max_update_batch_size as usize {
            return Err("exceeds max update batch size".to_string());
        }
        if caller.is_anonymous() {
            return Err("anonymous caller".to_string());
        }
        if (self.log.total() as u128) + (args.len() as u128) > (u64::MAX as u128) {
            return Err("transaction log is full".to_string());
        }
        if settings.atomic_batch_transfers && args.len() > 1 {
            let mut k: usize = 0;
            while k < args.len()
                invariant
                    k <= args@.len(),
                    self.wf(),
                    *self == *old(self),
                    settings == self.collection.settings,
                    settings.atomic_batch_transfers,
                    args@.len() > 1,
                    forall|j: int|
                        0 <= j < k ==> transfer_from_outcome(
                            self.holders(),
                            log_views(self.log.0@),
                            self.collection_approvals@,
                            self.token_approvals@,
                            Set::empty(),
                            caller@,
                            #[trigger] args@[j],
                            now,
                            settings,
                        ) == Outcome::Done,
                decreases args@.len() - k,
            {
                if self.transfer_from_check(caller, &args[k], now) != Outcome::Done {
                    return Err("invalid transfer args".to_string());
                }
                k = k + 1;
            }
        }
        let ghost h0 = self.holders();
        let ghost lv0 = log_views(self.log.0@);
        let ghost base = self.log.0@.len() as int;
        let ghost old_log = self.log.0@;
        let ghost old_ta = self.token_approvals@;
        let ghost coll0 = self.collection_approvals@;
        let mut rs: Vec<Result<u64, TransferFromError>> = Vec::new();
        let mut k: usize = 0;
        proof {
            assert(args@.take(0) =~= Seq::<TransferFromArg>::empty());
        }
        while k < args.len()
            invariant
                k <= args@.len(),
                self.wf(),
                frame(*old(self), *self),
                settings == self.collection.settings,
                base == old(self).log.0@.len() as int,
                h0 == old(self).holders(),
                lv0 == log_views(old(self).log.0@),
                old_log == old(self).log.0@,
                old_ta == old(self).token_approvals@,
                coll0 == old(self).collection_approvals@,
                base + args@.len() <= u64::MAX,
                rs@.len() == k,
                ({
                    let f = transfer_from_fold(h0, lv0, coll0, old_ta, caller@, args@.take(k as int), now, settings);
                    &&& self.holders() == f.0
                    &&& f.1.len() == k
                    &&& forall|j: int|
                        0 <= j < k ==> transfer_from_result_matches(
                            #[trigger] rs@[j],
                            f.1[j],
                            base + done_count(f.1.take(j)) as int,
                            now,
                        )
                    &&& self.log.0@.len() == base + done_count(f.1) as int
                    &&& self.log.0@.take(base as int) == old_log
                    &&& log_views(self.log.0@) == f.3
                    &&& forall|y: u64| #[trigger]
                        token_list(self.token_approvals@, y) == if f.2.contains(y) {
                            Seq::<Approval>::empty()
                        } else {
                            token_list(old_ta, y)
                        }
                }),
            decreases args@.len() - k,
        {
            let ghost f = transfer_from_fold(h0, lv0, coll0, old_ta, caller@, args@.take(k as int), now, settings);
            let ghost before = *self;
            proof {
                lemma_done_count_bound(f.1);
                lemma_take_step(args@, k as int);
                assert forall|y: u64, sp: Seq<u8>| #[trigger]
                    is_live(token_list(self.token_approvals@, y), sp, now) == (!f.2.contains(y)
                        && is_live(token_list(old_ta, y), sp, now)) by {}
                assert(transfer_from_outcome(
                    self.holders(),
                    log_views(self.log.0@),
                    self.collection_approvals@,
                    self.token_approvals@,
                    Set::empty(),
                    caller@,
                    args@[k as int],
                    now,
                    settings,
                ) == transfer_from_outcome(
                    f.0,
                    f.3,
                    coll0,
                    old_ta,
                    f.2,
                    caller@,
                    args@[k as int],
                    now,
                    settings,
                ));
            }
            let r = self.transfer_from_item(caller, &args[k], now);
            rs.push(r);
            let ghost f2 = transfer_from_fold(h0, lv0, coll0, old_ta, caller@, args@.take(k + 1), now, settings);
            let ghost o = f2.1.last();
            proof {
                assert(f2.1 == f.1.push(o));
                assert forall|j: int| 0 <= j <= k implies #[trigger] f2.1.take(j) == f.1.take(j) by {
                    lemma_take_push(f.1, o, j);
                }
                assert(f2.1.take(k as int) == f.1);
                assert(self.log.0@.take(base as int) =~= old_log) by {
                    assert(before.log.0@.take(base as int) == old_log);
                    if o == Outcome::Done {
                        assert(self.log.0@.drop_last() == before.log.0@);
                    }
                }
                assert forall|j: int| 0 <= j < k + 1 implies transfer_from_result_matches(
                    #[trigger] rs@[j],
                    f2.1[j],
                    base + done_count(f2.1.take(j)) as int,
                    now,
                ) by {
                    if j < k {
                        assert(f2.1[j] == f.1[j]);
                    }
                }
            }
            k = k + 1;
        }
        proof {
            assert(args@.take(args@.len() as int) =~= args@);
        }
        Ok(rs)
    }
}

} // verus!
