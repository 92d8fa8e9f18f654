use vstd::prelude::*;

use crate::approve::revoked;
use crate::approvals::{is_live, spenders_unique, Approval};
use crate::ledger::{supply_within_cap, Ledger};
use crate::owner_tokens::holds;
use crate::transaction::log_views;
use crate::transfer::{transfer_fold, transfer_outcome, transfer_refused, Outcome, TransferArg};
use crate::transfer_from::{transfer_from_fold, TransferFromArg};
use crate::approval_store::{HolderApprovals, TokenApprovals};
use crate::settings::Settings;
use crate::transaction::TxView;

verus! {

/// In every well-formed state each existing token has exactly one holder, the
/// reverse index lists the token under that holder, and the reverse index lists
/// nothing that the ownership records do not say.
pub proof fn lemma_single_holder(l: Ledger, x: u64, h: Seq<u8>)
    requires
        l.wf(),
    ensures
        l.holders().contains_key(x) ==> holds(l.owner_tokens@, l.holders()[x], x),
        holds(l.owner_tokens@, h, x) ==> l.holders().contains_key(x) && l.holders()[x] == h,
{
    if l.holders().contains_key(x) {
        assert(l.holder_of(x) is Some);
    }
    if holds(l.owner_tokens@, h, x) {
        assert(l.holder_of(x) == Some(h));
    }
}

/// In every well-formed state no class has more serials than its cap.
pub proof fn lemma_supply_cap_kept(l: Ledger, i: int)
    requires
        l.wf(),
        0 <= i < l.tokens@.len(),
    ensures
        l.tokens@[i].supply_cap matches Some(cap) ==> l.tokens@[i].total_supply <= cap,
{
    assert(supply_within_cap(l.tokens@[i]));
}

/// With atomic batches on, a transfer batch of two or more items in which one
/// item would fail is refused as a whole (and a refused call changes nothing).
pub proof fn lemma_atomic_all_or_nothing(l: Ledger, caller: Seq<u8>, args: Seq<TransferArg>, now: u64, k: int)
    requires
        l.collection.settings.atomic_batch_transfers,
        args.len() > 1,
        0 <= k < args.len(),
        transfer_outcome(
            l.holders(),
            log_views(l.log.0@),
            caller,
            args[k],
            now,
            l.collection.settings,
        ) != Outcome::Done,
    ensures
        transfer_refused(l, caller, args, now),
{
}

/// Whether an approval is live is a comparison of its expiry with the time:
/// one that expired at `now - 1` is not, one expiring at `now + 1` is.
pub proof fn lemma_expiry_is_comparison(s: Seq<Approval>, i: int, now: u64)
    requires
        spenders_unique(s),
        0 <= i < s.len(),
    ensures
        is_live(s, s[i].spender@, now) <==> s[i].expires_at > now,
        now >= 1 && s[i].expires_at == now - 1 ==> !is_live(s, s[i].spender@, now),
        now < u64::MAX && s[i].expires_at == now + 1 ==> is_live(s, s[i].spender@, now),
{
    if is_live(s, s[i].spender@, now) {
        let j = choose|j: int|
            0 <= j < s.len() && #[trigger] s[j].spender@ == s[i].spender@ && s[j].expires_at > now;
        assert(j == i);
    }
}

/// A revocation without a spender leaves no approval, live or expired.
pub proof fn lemma_revoke_all_clears(s: Seq<Approval>, spender: Seq<u8>, now: u64)
    ensures
        revoked(s, None).len() == 0,
        !is_live(revoked(s, None), spender, now),
{
}

proof fn lemma_transfer_fold_len(
    h: Map<u64, Seq<u8>>,
    log: Seq<TxView>,
    caller: Seq<u8>,
    args: Seq<TransferArg>,
    now: u64,
    s: Settings,
)
    ensures
        transfer_fold(h, log, caller, args, now, s).1.len() == args.len(),
    decreases args.len(),
{
    if args.len() > 0 {
        lemma_transfer_fold_len(h, log, caller, args.drop_last(), now, s);
    }
}

/// After a transfer batch, the token of each done item is held by that item's
/// recipient, unless a later done item of the batch moved the same token again.
/// (With the ledger's invariant, the reverse index then lists the token under the
/// recipient and under nobody else.)
pub proof fn lemma_transfer_done_item_lands(
    h: Map<u64, Seq<u8>>,
    log: Seq<TxView>,
    caller: Seq<u8>,
    args: Seq<TransferArg>,
    now: u64,
    s: Settings,
    k: int,
)
    requires
        0 <= k < args.len(),
        transfer_fold(h, log, caller, args, now, s).1[k] == Outcome::Done,
        forall|j: int|
            k < j < args.len() && transfer_fold(h, log, caller, args, now, s).1[j] == Outcome::Done
                ==> #[trigger] args[j].token_id != args[k].token_id,
    ensures
        transfer_fold(h, log, caller, args, now, s).0.contains_key(args[k].token_id),
        transfer_fold(h, log, caller, args, now, s).0[args[k].token_id] == args[k].to@,
    decreases args.len(),
{
    let n = args.len() - 1;
    let prev = transfer_fold(h, log, caller, args.drop_last(), now, s);
    lemma_transfer_fold_len(h, log, caller, args.drop_last(), now, s);
    if k < n {
        let f = transfer_fold(h, log, caller, args, now, s);
        assert(f.1[k] == prev.1[k]);
        assert forall|j: int|
            k < j < args.drop_last().len() && prev.1[j] == Outcome::Done implies #[trigger] args.drop_last()[j].token_id
            != args.drop_last()[k].token_id by {
            assert(f.1[j] == prev.1[j]);
            assert(args[j].token_id != args[k].token_id);
        }
        lemma_transfer_done_item_lands(h, log, caller, args.drop_last(), now, s, k);
        if f.1[n] == Outcome::Done {
            assert(args[n].token_id != args[k].token_id);
        }
    }
}

proof fn lemma_transfer_from_fold_len(
    h: Map<u64, Seq<u8>>,
    log: Seq<TxView>,
    coll: Seq<HolderApprovals>,
    tokens: Seq<TokenApprovals>,
    caller: Seq<u8>,
    args: Seq<TransferFromArg>,
    now: u64,
    s: Settings,
)
    ensures
        transfer_from_fold(h, log, coll, tokens, caller, args, now, s).1.len() == args.len(),
    decreases args.len(),
{
    if args.len() > 0 {
        lemma_transfer_from_fold_len(h, log, coll, tokens, caller, args.drop_last(), now, s);
    }
}

/// After a delegated transfer batch, the token of each done item is held by that
/// item's recipient, unless a later done item of the batch moved it again.
pub proof fn lemma_transfer_from_done_item_lands(
    h: Map<u64, Seq<u8>>,
    log: Seq<TxView>,
    coll: Seq<HolderApprovals>,
    tokens: Seq<TokenApprovals>,
    caller: Seq<u8>,
    args: Seq<TransferFromArg>,
    now: u64,
    s: Settings,
    k: int,
)
    requires
        0 <= k < args.len(),
        transfer_from_fold(h, log, coll, tokens, caller, args, now, s).1[k] == Outcome::Done,
        forall|j: int|
            k < j < args.len() && transfer_from_fold(h, log, coll, tokens, caller, args, now, s).1[j]
                == Outcome::Done ==> #[trigger] args[j].token_id != args[k].token_id,
    ensures
        transfer_from_fold(h, log, coll, tokens, caller, args, now, s).0.contains_key(args[k].token_id),
        transfer_from_fold(h, log, coll, tokens, caller, args, now, s).0[args[k].token_id] == args[k].to@,
    decreases args.len(),
{
    let n = args.len() - 1;
    let prev = transfer_from_fold(h, log, coll, tokens, caller, args.drop_last(), now, s);
    lemma_transfer_from_fold_len(h, log, coll, tokens, caller, args.drop_last(), now, s);
    if k < n {
        let f = transfer_from_fold(h, log, coll, tokens, caller, args, now, s);
        assert(f.1[k] == prev.1[k]);
        assert forall|j: int|
            k < j < args.drop_last().len() && prev.1[j] == Outcome::Done implies #[trigger] args.drop_last()[j].token_id
            != args.drop_last()[k].token_id by {
            assert(f.1[j] == prev.1[j]);
            assert(args[j].token_id != args[k].token_id);
        }
        lemma_transfer_from_done_item_lands(h, log, coll, tokens, caller, args.drop_last(), now, s, k);
        if f.1[n] == Outcome::Done {
            assert(args[n].token_id != args[k].token_id);
        }
    }
}

} // verus!
