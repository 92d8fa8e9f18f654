use vstd::prelude::*;

use crate::ledger::{supply_within_cap, Ledger, Token};
use crate::metadata::{meta_view, token_meta};
use crate::principal::{anonymous_bytes, Principal};
use crate::settings::member;
use crate::token_id::{decode, encode, TokenId};
use crate::transaction::{who, Op, Transaction};
use crate::types::MintError;

verus! {

/// Minting `n` more serials would pass the class's cap or the serial space.
pub open spec fn exceeds_supply(t: Token, n: nat) -> bool {
    ||| t.total_supply + n > u32::MAX
    ||| (t.supply_cap is Some && t.total_supply + n > t.supply_cap->0)
}

/// A mint call that aborts as a whole, changing nothing.
pub open spec fn mint_refused(l: Ledger, caller: Seq<u8>, n: nat) -> bool {
    ||| caller == anonymous_bytes()
    ||| !member(l.collection.minters@, caller)
    ||| n == 0
    ||| n > l.collection.settings.max_update_batch_size
    ||| l.log.0@.len() + n > u64::MAX
}

/// Ownership after minting serials `t0 + 1 ..` of class `c` to `hs`, in order.
pub open spec fn mint_map(h: Map<u64, Seq<u8>>, c: u32, t0: nat, hs: Seq<Principal>) -> Map<
    u64,
    Seq<u8>,
>
    decreases hs.len(),
{
    if hs.len() == 0 {
        h
    } else {
        mint_map(h, c, t0, hs.drop_last()).insert(
            encode(c, (t0 + hs.len()) as u32) as u64,
            hs.last()@,
        )
    }
}

impl Ledger {
    /// Mints one new serial of the class of `token_id` for each of `holders`,
    /// in order. Returns the log position of the last mint record.
    ///
    /// Aborts, changing nothing, unless the caller is a minter and the batch is
    /// non-empty and within the update batch size (and the log has room). Fails,
    /// changing nothing, where the class does not exist or the new serials would
    /// pass its supply cap.
    pub fn mint(&mut self, caller: &Principal, token_id: u64, holders: &Vec<Principal>, now: u64) -> (r:
        Result<Result<u64, MintError>, String>)
        requires
            old(self).wf(),
        ensures
            final(self).wf(),
            r is Err <==> mint_refused(*old(self), caller@, holders@.len()),
            !(r matches Ok(Ok(_))) ==> *final(self) == *old(self),
            ({
                let c = decode(token_id).0;
                let n = holders@.len();
                &&& !mint_refused(*old(self), caller@, n) ==> (r == Ok::<
                    Result<u64, MintError>,
                    String,
                >(Err(MintError::NonExistingTokenId)) <==> !(1 <= c <= old(self).tokens@.len()))
                &&& !mint_refused(*old(self), caller@, n) && 1 <= c <= old(self).tokens@.len() ==> (r
                    == Ok::<Result<u64, MintError>, String>(Err(MintError::SupplyCapReached))
                    <==> exceeds_supply(old(self).tokens@[c - 1], n))
                &&& (!mint_refused(*old(self), caller@, n) && 1 <= c <= old(self).tokens@.len()
                    && !exceeds_supply(old(self).tokens@[c - 1], n)) ==> (r matches Ok(Ok(_)))
                &&& r matches Ok(Ok(idx)) ==> {
                    let t0 = old(self).tokens@[c - 1].total_supply as nat;
                    let base = old(self).log.0@.len() as int;
                    &&& 1 <= c <= old(self).tokens@.len()
                    &&& idx == base + n - 1
                    &&& final(self).tokens@.len() == old(self).tokens@.len()
                    &&& final(self).tokens@[c - 1] == (Token {
                        total_supply: (t0 + n) as u32,
                        updated_at: now,
                        ..old(self).tokens@[c - 1]
                    })
                    &&& forall|i: int|
                        0 <= i < old(self).tokens@.len() && i != c - 1 ==> final(self).tokens@[i]
                            == old(self).tokens@[i]
                    &&& final(self).collection == old(self).collection
                    &&& final(self).token_approvals == old(self).token_approvals
                    &&& final(self).collection_approvals == old(self).collection_approvals
                    &&& final(self).assets == old(self).assets
                    &&& final(self).secret == old(self).secret
                    &&& supply_within_cap(final(self).tokens@[c - 1])
                    &&& final(self).holders() == mint_map(old(self).holders(), c, t0, holders@)
                    &&& final(self).log.0@.len() == base + n
                    &&& final(self).log.0@.take(base) == old(self).log.0@
                    &&& forall|k: int|
                        0 <= k < n ==> {
                            let t = #[trigger] final(self).log.0@[base + k];
                            &&& t.op == Op::Mint
                            &&& t.tid == encode(c, (t0 + k + 1) as u32)
                            &&& t.ts == now
                            &&& who(t.from) == Some(caller@)
                            &&& who(t.to) == Some(holders@[k]@)
                            &&& t.meta is Some && meta_view(t.meta->0) == token_meta(
                                old(self).tokens@[c - 1],
                            )
                        }
                }
            }),
    {
        if caller.is_anonymous() {
            return Err("anonymous caller".to_string());
        }
        if !self.collection.is_minter(caller) {
            return Err("caller is not a minter".to_string());
        }
        if holders.len() == 0 {
            return Err("no mint holders provided".to_string());
        }
        if holders.len() > self.collection.settings.max_update_batch_size as usize {
            return Err("exceeds max update batch size".to_string());
        }
        if (self.log.total() as u128) + (holders.len() as u128) > (u64::MAX as u128) {
            return Err("transaction log is full".to_string());
        }
        let id = TokenId::from_u64(token_id);
        let c = id.0;
        if c == 0 || c as usize > self.tokens.len() {
            return Ok(Err(MintError::NonExistingTokenId));
        }
        let i = (c - 1) as usize;
        let t0 = self.tokens[i].total_supply;
        let n = holders.len();
        if (t0 as u64) + (n as u64) > u32::MAX as u64 {
            return Ok(Err(MintError::SupplyCapReached));
        }
        if let Some(cap) = self.tokens[i].supply_cap {
            if (t0 as u64) + (n as u64) > cap as u64 {
                return Ok(Err(MintError::SupplyCapReached));
            }
        }
        let meta = self.tokens[i].metadata();
        let ghost h0 = self.holders();
        let ghost base = self.log.0@.len() as int;
        let ghost old_log = self.log.0@;
        let ghost tok0 = self.tokens@[i as int];
        let mut last: u64 = 0;
        let mut k: usize = 0;
        proof {
            assert(holders@.take(0) =~= Seq::<Principal>::empty());
        }
        while k < n
            invariant
                k <= n,
                n == holders@.len(),
                1 <= c <= self.tokens@.len(),
                i == c - 1,
                self.wf(),
                self.collection == old(self).collection,
                self.token_approvals == old(self).token_approvals,
                self.collection_approvals == old(self).collection_approvals,
                self.assets == old(self).assets,
                self.secret == old(self).secret,
                meta_view(meta) == token_meta(tok0),
                forall|j: int|
                    0 <= j < old(self).tokens@.len() && j != i ==> #[trigger] self.tokens@[j]
                        == old(self).tokens@[j],
                self.tokens@.len() == old(self).tokens@.len(),
                tok0 == old(self).tokens@[i as int],
                t0 == tok0.total_supply,
                t0 + n <= u32::MAX,
                tok0.supply_cap is Some ==> t0 + n <= tok0.supply_cap->0,
                self.tokens@[i as int] == (Token {
                    total_supply: (t0 + k) as u32,
                    updated_at: if k == 0 {
                        tok0.updated_at
                    } else {
                        now
                    },
                    ..tok0
                }),
                base == old(self).log.0@.len(),
                old_log == old(self).log.0@,
                base + n <= u64::MAX,
                self.log.0@.len() == base + k,
                self.log.0@.take(base) == old_log,
                k > 0 ==> last == base + k - 1,
                h0 == old(self).holders(),
                self.holders() == mint_map(h0, c, t0 as nat, holders@.take(k as int)),
                forall|j: int|
                    0 <= j < k ==> {
                        let t = #[trigger] self.log.0@[base + j];
                        &&& t.op == Op::Mint
                        &&& t.tid == encode(c, (t0 + j + 1) as u32)
                        &&& t.ts == now
                        &&& who(t.from) == Some(caller@)
                        &&& who(t.to) == Some(holders@[j]@)
                        &&& t.meta is Some && meta_view(t.meta->0) == token_meta(tok0)
                    },
            decreases n - k,
        {
            let ghost before = *self;
            let key = self.append_serial(c, &holders[k], now);
            let tx = Transaction::mint(now, key, Some(caller.dup()), holders[k].dup(), meta.copy());
            last = self.log.append(tx);
            proof {
                let hs = holders@.take(k + 1);
                assert(hs.drop_last() =~= holders@.take(k as int));
                assert(hs.last() == holders@[k as int]);
                assert(self.log.0@.take(base) =~= old_log) by {
                    assert(self.log.0@.drop_last() == before.log.0@);
                    assert(before.log.0@.take(base) == old_log);
                }
                assert forall|j: int| 0 <= j < k + 1 implies {
                    let t = #[trigger] self.log.0@[base + j];
                    &&& t.op == Op::Mint
                    &&& t.tid == encode(c, (t0 + j + 1) as u32)
                    &&& t.ts == now
                    &&& who(t.from) == Some(caller@)
                    &&& who(t.to) == Some(holders@[j]@)
                    &&& t.meta is Some && meta_view(t.meta->0) == token_meta(tok0)
                } by {
                    if j < k {
                        assert(self.log.0@.drop_last() == before.log.0@);
                        assert(self.log.0@[base + j] == before.log.0@[base + j]);
                    }
                }
            }
            k = k + 1;
        }
        proof {
            assert(holders@.take(n as int) =~= holders@);
        }
        Ok(Ok(last))
    }
}

} // verus!
