use vstd::prelude::*;

use crate::approval_store::token_list;
use crate::approvals::Approval;
use crate::ledger::Ledger;
use crate::principal::{anonymous_bytes, Principal};
use crate::settings::{check_item, check_spec, Settings};
use crate::token_id::TokenId;
use crate::transaction::{
    copy_memo, dup_index, log_views, memo_view, DupKey, Op, Transaction, TxView,
};
use crate::types::{ItemCheck, TransferError};

verus! {

/// One item of a transfer batch: move `token_id` from the caller to `to`.
#[derive(Clone, Debug)]
pub struct TransferArg {
    pub to: Principal,
    pub token_id: u64,
    pub memo: Option<Vec<u8>>,
    pub created_at_time: Option<u64>,
}

/// What became of one batch item.
#[derive(Clone, Copy, Debug, PartialEq, Eq, Structural)]
pub enum Outcome {
    Done,
    TooOld,
    CreatedInFuture,
    MemoTooLong,
    Duplicate(u64),
    InvalidRecipient,
    NonExistingTokenId,
    Unauthorized,
    InvalidSpender,
    TooManyApprovals,
    ApprovalDoesNotExist,
}

pub open spec fn memo_len(m: Option<Vec<u8>>) -> nat {
    match m {
        Some(v) => v@.len(),
        None => 0,
    }
}

pub open spec fn check_outcome(c: ItemCheck) -> Outcome {
    match c {
        ItemCheck::TooOld => Outcome::TooOld,
        ItemCheck::CreatedInFuture => Outcome::CreatedInFuture,
        ItemCheck::MemoTooLong => Outcome::MemoTooLong,
        ItemCheck::Valid => Outcome::Done,
    }
}

/// The key under which a transfer item is logged.
pub open spec fn transfer_key(caller: Seq<u8>, a: TransferArg) -> DupKey {
    DupKey {
        op: Op::Transfer,
        tid: a.token_id,
        from: Some(caller),
        to: Some(a.to@),
        spender: None,
        memo: memo_view(a.memo),
        created_at: a.created_at_time,
    }
}

/// The record a done transfer item logs.
pub open spec fn transfer_record(caller: Seq<u8>, a: TransferArg, now: u64) -> TxView {
    TxView {
        ts: now,
        op: Op::Transfer,
        tid: a.token_id,
        from: Some(caller),
        to: Some(a.to@),
        spender: None,
        exp: None,
        memo: memo_view(a.memo),
        created_at: a.created_at_time,
    }
}

/// An item that states its creation time repeats a logged request.
pub open spec fn duplicate_outcome(log: Seq<TxView>, created_at: Option<u64>, k: DupKey) -> Option<Outcome> {
    if created_at is Some && dup_index(log, k) is Some {
        Some(Outcome::Duplicate(dup_index(log, k)->0 as u64))
    } else {
        None
    }
}

/// The outcome of one transfer item against the ownership map `h` and the log `log`.
pub open spec fn transfer_outcome(
    h: Map<u64, Seq<u8>>,
    log: Seq<TxView>,
    caller: Seq<u8>,
    a: TransferArg,
    now: u64,
    s: Settings,
) -> Outcome {
    let c = check_spec(s, now, a.created_at_time, memo_len(a.memo));
    if c != ItemCheck::Valid {
        check_outcome(c)
    } else if duplicate_outcome(log, a.created_at_time, transfer_key(caller, a)) is Some {
        duplicate_outcome(log, a.created_at_time, transfer_key(caller, a))->0
    } else if a.to@ == caller {
        Outcome::InvalidRecipient
    } else if !h.contains_key(a.token_id) {
        Outcome::NonExistingTokenId
    } else if h[a.token_id] != caller {
        Outcome::Unauthorized
    } else {
        Outcome::Done
    }
}

/// Items processed in order: the ownership map after them, their outcomes,
/// the set of tokens that moved, and the log.
pub open spec fn transfer_fold(
    h: Map<u64, Seq<u8>>,
    log: Seq<TxView>,
    caller: Seq<u8>,
    args: Seq<TransferArg>,
    now: u64,
    s: Settings,
) -> (Map<u64, Seq<u8>>, Seq<Outcome>, Set<u64>, Seq<TxView>)
    decreases args.len(),
{
    if args.len() == 0 {
        (h, Seq::empty(), Set::empty(), log)
    } else {
        let prev = transfer_fold(h, log, caller, args.drop_last(), now, s);
        let a = args.last();
        let o = transfer_outcome(prev.0, prev.3, caller, a, now, s);
        if o == Outcome::Done {
            (
                prev.0.insert(a.token_id, a.to@),
                prev.1.push(o),
                prev.2.insert(a.token_id),
                prev.3.push(transfer_record(caller, a, now)),
            )
        } else {
            (prev.0, prev.1.push(o), prev.2, prev.3)
        }
    }
}

/// How many outcomes are `Done`.
pub open spec fn done_count(os: Seq<Outcome>) -> nat
    decreases os.len(),
{
    if os.len() == 0 {
        0
    } else {
        done_count(os.drop_last()) + if os.last() == Outcome::Done {
            1nat
        } else {
            0nat
        }
    }
}

/// The returned result says what the outcome says; `idx` is the log position of
/// a done item.
pub open spec fn transfer_result_matches(
    r: Result<u64, TransferError>,
    o: Outcome,
    idx: int,
    now: u64,
) -> bool {
    match o {
        Outcome::Done => r == Ok::<u64, TransferError>(idx as u64),
        Outcome::TooOld => r == Err::<u64, TransferError>(TransferError::TooOld),
        Outcome::CreatedInFuture => r == Err::<u64, TransferError>(
            TransferError::CreatedInFuture { ledger_time: now },
        ),
        Outcome::MemoTooLong => r matches Err(TransferError::GenericError { message, .. }) && message@ == "memo too long"@,
        Outcome::InvalidRecipient => r == Err::<u64, TransferError>(TransferError::InvalidRecipient),
        Outcome::NonExistingTokenId => r == Err::<u64, TransferError>(
            TransferError::NonExistingTokenId,
        ),
        Outcome::Unauthorized => r == Err::<u64, TransferError>(TransferError::Unauthorized),
        Outcome::Duplicate(i) => r == Err::<u64, TransferError>(
            TransferError::Duplicate { duplicate_of: i },
        ),
        _ => false,
    }
}

/// A transfer call that aborts as a whole, changing nothing.
pub open spec fn transfer_refused(l: Ledger, caller: Seq<u8>, args: Seq<TransferArg>, now: u64) -> bool {
    let s = l.collection.settings;
    ||| args.len() == 0
    ||| args.len() > s.max_update_batch_size
    ||| caller == anonymous_bytes()
    ||| l.log.0@.len() + args.len() > u64::MAX
    ||| (s.atomic_batch_transfers && args.len() > 1 && exists|k: int|
        0 <= k < args.len() && transfer_outcome(
            l.holders(),
            log_views(l.log.0@),
            caller,
            #[trigger] args[k],
            now,
            s,
        ) != Outcome::Done)
}

/// Everything but ownership, token approvals and the log is unchanged.
pub open spec fn frame(a: Ledger, b: Ledger) -> bool {
    &&& a.tokens == b.tokens
    &&& a.collection == b.collection
    &&& a.collection_approvals == b.collection_approvals
    &&& a.assets == b.assets
    &&& a.secret == b.secret
}

pub(crate) proof fn lemma_take_step<A>(args: Seq<A>, k: int)
    requires
        0 <= k < args.len(),
    ensures
        args.take(k + 1).drop_last() == args.take(k),
        args.take(k + 1).last() == args[k],
{
    assert(args.take(k + 1).drop_last() =~= args.take(k));
}

pub(crate) proof fn lemma_done_count_bound(os: Seq<Outcome>)
    ensures
        done_count(os) <= os.len(),
    decreases os.len(),
{
    if os.len() > 0 {
        lemma_done_count_bound(os.drop_last());
    }
}

pub(crate) proof fn lemma_take_push<A>(s: Seq<A>, x: A, j: int)
    requires
        0 <= j <= s.len(),
    ensures
        s.push(x).take(j) == s.take(j),
{
    assert(s.push(x).take(j) =~= s.take(j));
}

impl Ledger {
    fn outcome_error(o: Outcome, now: u64) -> (r: TransferError)
        requires
            o != Outcome::Done,
            o != Outcome::InvalidSpender,
            o != Outcome::TooManyApprovals,
            o != Outcome::ApprovalDoesNotExist,
        ensures
            transfer_result_matches(Err(r), o, 0, now),
    {
        match o {
            Outcome::TooOld => TransferError::TooOld,
            Outcome::CreatedInFuture => TransferError::CreatedInFuture { ledger_time: now },
            Outcome::InvalidRecipient => TransferError::InvalidRecipient,
            Outcome::NonExistingTokenId => TransferError::NonExistingTokenId,
            Outcome::Unauthorized => TransferError::Unauthorized,
            Outcome::Duplicate(i) => TransferError::Duplicate { duplicate_of: i },
            _ => TransferError::GenericError { error_code: 0, message: "memo too long".to_string() },
        }
    }

    /// The outcome a transfer item would have against the current state; changes nothing.
    pub fn transfer_check(&self, caller: &Principal, arg: &TransferArg, now: u64) -> (r: Outcome)
        requires
            self.wf(),
        ensures
            r == transfer_outcome(
                self.holders(),
                log_views(self.log.0@),
                caller@,
                *arg,
                now,
                self.collection.settings,
            ),
    {
        let memo_len: usize = match &arg.memo {
            Some(m) => m.len(),
            None => 0,
        };
        let c = check_item(&self.collection.settings, now, arg.created_at_time, memo_len);
        if c != ItemCheck::Valid {
            return match c {
                ItemCheck::TooOld => Outcome::TooOld,
                ItemCheck::CreatedInFuture => Outcome::CreatedInFuture,
                _ => Outcome::MemoTooLong,
            };
        }
        if let Some(t) = arg.created_at_time {
            if let Some(i) = self.log.find_record(
                Op::Transfer,
                arg.token_id,
                caller,
                &arg.to,
                None,
                &arg.memo,
                t,
            ) {
                return Outcome::Duplicate(i);
            }
        }
        if arg.to.same(caller) {
            return Outcome::InvalidRecipient;
        }
        match self.owner_of_key(arg.token_id) {
            None => Outcome::NonExistingTokenId,
            Some(p) => if p.same(caller) {
                Outcome::Done
            } else {
                Outcome::Unauthorized
            },
        }
    }

    /// Looks up the holder of token key `x`.
    pub fn owner_of_key(&self, x: u64) -> (r: Option<&Principal>)
        requires
            self.wf(),
        ensures
            r is Some <==> self.holders().contains_key(x),
            r matches Some(p) ==> p@ == self.holders()[x],
    {
        let id = TokenId::from_u64(x);
        if id.0 >= 1 && (id.0 as usize) <= self.owners.len() {
            self.owners[(id.0 - 1) as usize].get(id.1)
        } else {
            None
        }
    }

    /// One transfer item, checked and applied against the current state.
    fn transfer_item(&mut self, caller: &Principal, arg: &TransferArg, now: u64) -> (r: Result<
        u64,
        TransferError,
    >)
        requires
            old(self).wf(),
            old(self).log.0@.len() < u64::MAX,
        ensures
            final(self).wf(),
            frame(*old(self), *final(self)),
            ({
                let o = transfer_outcome(
                    old(self).holders(),
                    log_views(old(self).log.0@),
                    caller@,
                    *arg,
                    now,
                    old(self).collection.settings,
                );
                &&& transfer_result_matches(r, o, old(self).log.0@.len() as int, now)
                &&& o != Outcome::Done ==> *final(self) == *old(self)
                &&& o == Outcome::Done ==> {
                    &&& final(self).holders() == old(self).holders().insert(arg.token_id, arg.to@)
                    &&& final(self).log.0@.len() == old(self).log.0@.len() + 1
                    &&& final(self).log.0@.drop_last() == old(self).log.0@
                    &&& log_views(final(self).log.0@) == log_views(old(self).log.0@).push(
                        transfer_record(caller@, *arg, now),
                    )
                    &&& forall|y: u64| #[trigger]
                        token_list(final(self).token_approvals@, y) == if y == arg.token_id {
                            Seq::<Approval>::empty()
                        } else {
                            token_list(old(self).token_approvals@, y)
                        }
                }
            }),
    {
        let o = self.transfer_check(caller, arg, now);
        if o != Outcome::Done {
            return Err(Self::outcome_error(o, now));
        }
        let id = TokenId::from_u64(arg.token_id);
        self.move_token(caller, &arg.to, arg.token_id, id.0, id.1);
        let tx = Transaction::transfer(
            now,
            arg.token_id,
            caller.dup(),
            arg.to.dup(),
            copy_memo(&arg.memo),
            arg.created_at_time,
        );
        Ok(self.log.append(tx))
    }
}

impl Ledger {
    /// Moves each item's token from the caller to its recipient.
    ///
    /// The call aborts, changing nothing, when the batch is empty or too large,
    /// the caller is anonymous, the log has no room, or (with atomic batches on
    /// and more than one item) any item would fail. Otherwise items apply in
    /// order, each against the state the earlier ones left; a failed item
    /// changes nothing and does not undo the others. An item that states its
    /// creation time and repeats a logged transfer is a duplicate. A done item's
    /// result is the log position of its record.
    pub fn transfer(&mut self, caller: &Principal, args: &Vec<TransferArg>, now: u64) -> (r: Result<
        Vec<Result<u64, TransferError>>,
        String,
    >)
        requires
            old(self).wf(),
        ensures
            final(self).wf(),
            frame(*old(self), *final(self)),
            r is Err <==> transfer_refused(*old(self), caller@, args@, now),
            r is Err ==> *final(self) == *old(self),
            r matches Ok(rs) ==> ({
                let f = transfer_fold(
                    old(self).holders(),
                    log_views(old(self).log.0@),
                    caller@,
                    args@,
                    now,
                    old(self).collection.settings,
                );
                let base = old(self).log.0@.len() as int;
                &&& final(self).holders() == f.0
                &&& rs@.len() == args@.len()
                &&& forall|k: int|
                    0 <= k < args@.len() ==> transfer_result_matches(
                        #[trigger] rs@[k],
                        f.1[k],
                        base + done_count(f.1.take(k)) as int,
                        now,
                    )
                &&& final(self).log.0@.len() == base + done_count(f.1) as int
                &&& final(self).log.0@.take(base as int) == old(self).log.0@
                &&& log_views(final(self).log.0@) == f.3
                &&& forall|y: u64| #[trigger]
                    token_list(final(self).token_approvals@, y) == if f.2.contains(y) {
                        Seq::<Approval>::empty()
                    } else {
                        token_list(old(self).token_approvals@, y)
                    }
            }),
    {
        let settings = self.collection.settings;
        if args.len() == 0 {
            return Err("no transfer args provided".to_string());
        }
        if args.len() > settings.max_update_batch_size as usize {
            return Err("exceeds max update batch size".to_string());
        }
        if caller.is_anonymous() {
            return Err("anonymous caller".to_string());
        }
        if (self.log.total() as u128) + (args.len() as u128) > (u64::MAX as u128) {
            return Err("transaction log is full".to_string());
        }
        if settings.atomic_batch_transfers && args.len() > 1 {
            let mut k: usize = 0;
            while k < args.len()
                invariant
                    k <= args@.len(),
                    self.wf(),
                    *self == *old(self),
                    settings == self.collection.settings,
                    settings.atomic_batch_transfers,
                    args@.len() > 1,
                    forall|j: int|
                        0 <= j < k ==> transfer_outcome(
                            self.holders(),
                            log_views(self.log.0@),
                            caller@,
                            #[trigger] args@[j],
                            now,
                            settings,
                        ) == Outcome::Done,
                decreases args@.len() - k,
            {
                if self.transfer_check(caller, &args[k], now) != Outcome::Done {
                    return Err("invalid transfer args".to_string());
                }
                k = k + 1;
            }
        }
        let ghost h0 = self.holders();
        let ghost lv0 = log_views(self.log.0@);
        let ghost base = self.log.0@.len() as int;
        let ghost old_log = self.log.0@;
        let ghost old_ta = self.token_approvals@;
        let mut rs: Vec<Result<u64, TransferError>> = Vec::new();
        let mut k: usize = 0;
        proof {
            assert(args@.take(0) =~= Seq::<TransferArg>::empty());
        }
        while k < args.len()
            invariant
                k <= args@.len(),
                self.wf(),
                frame(*old(self), *self),
                settings == self.collection.settings,
                base == old(self).log.0@.len() as int,
                h0 == old(self).holders(),
                lv0 == log_views(old(self).log.0@),
                old_log == old(self).log.0@,
                old_ta == old(self).token_approvals@,
                base + args@.len() <= u64::MAX,
                rs@.len() == k,
                ({
                    let f = transfer_fold(h0, lv0, caller@, args@.take(k as int), now, settings);
                    &&& self.holders() == f.0
                    &&& f.1.len() == k
                    &&& forall|j: int|
                        0 <= j < k ==> transfer_result_matches(
                            #[trigger] rs@[j],
                            f.1[j],
                            base + done_count(f.1.take(j)) as int,
                            now,
                        )
                    &&& self.log.0@.len() == base + done_count(f.1) as int
                    &&& self.log.0@.take(base as int) == old_log
                    &&& log_views(self.log.0@) == f.3
                    &&& forall|y: u64| #[trigger]
                        token_list(self.token_approvals@, y) == if f.2.contains(y) {
                            Seq::<Approval>::empty()
                        } else {
                            token_list(old_ta, y)
                        }
                }),
            decreases args@.len() - k,
        {
            let ghost f = transfer_fold(h0, lv0, caller@, args@.take(k as int), now, settings);
            let ghost before = *self;
            proof {
                lemma_done_count_bound(f.1);
                lemma_take_step(args@, k as int);
            }
            let r = self.transfer_item(caller, &args[k], now);
            rs.push(r);
            let ghost f2 = transfer_fold(h0, lv0, caller@, args@.take(k + 1), now, settings);
            let ghost o = f2.1.last();
            proof {
                assert(f2.1 == f.1.push(o));
                assert forall|j: int| 0 <= j <= k implies #[trigger] f2.1.take(j) == f.1.take(j) by {
                    lemma_take_push(f.1, o, j);
                }
                assert(f2.1.take(k as int) == f.1);
                assert(self.log.0@.take(base as int) =~= old_log) by {
                    assert(before.log.0@.take(base as int) == old_log);
                    if o == Outcome::Done {
                        assert(self.log.0@.drop_last() == before.log.0@);
                    }
                }
                assert forall|j: int| 0 <= j < k + 1 implies transfer_result_matches(
                    #[trigger] rs@[j],
                    f2.1[j],
                    base + done_count(f2.1.take(j)) as int,
                    now,
                ) by {
                    if j < k {
                        assert(f2.1[j] == f.1[j]);
                    }
                }
            }
            k = k + 1;
        }
        proof {
            assert(args@.take(args@.len() as int) =~= args@);
        }
        Ok(rs)
    }
}

/// A done item before position `j` adds one to the count.
pub(crate) proof fn lemma_done_count_prefix(os: Seq<Outcome>, j: int)
    requires
        0 <= j < os.len(),
        os[j] == Outcome::Done,
    ensures
        done_count(os.take(j)) < done_count(os),
    decreases os.len(),
{
    if j == os.len() - 1 {
        assert(os.drop_last() =~= os.take(j));
    } else {
        assert(os.drop_last().take(j) =~= os.take(j));
        lemma_done_count_prefix(os.drop_last(), j);
    }
}

} // verus!
