use vstd::prelude::*;

use crate::principal::Principal;
use crate::types::Metadata;

verus! {

/// The kind of an audit record.
#[derive(Clone, Copy, Debug, PartialEq, Eq, Structural)]
pub enum Op {
    Mint,
    Burn,
    Transfer,
    Update,
    Approve,
    ApproveCollection,
    Revoke,
    RevokeCollection,
    TransferFrom,
}

/// The short tag that names a kind in the log.
pub open spec fn op_tag(op: Op) -> Seq<char> {
    match op {
        Op::Mint => "7mint"@,
        Op::Burn => "7burn"@,
        Op::Transfer => "7xfer"@,
        Op::Update => "7update"@,
        Op::Approve => "37appr"@,
        Op::ApproveCollection => "37appr_coll"@,
        Op::Revoke => "37revoke"@,
        Op::RevokeCollection => "37revoke_coll"@,
        Op::TransferFrom => "37xfer"@,
    }
}

impl Op {
    /// The short tag that names the kind in the log.
    pub fn tag(&self) -> (r: String)
        ensures
            r@ == op_tag(*self),
    {
        match self {
            Op::Mint => "7mint".to_string(),
            Op::Burn => "7burn".to_string(),
            Op::Transfer => "7xfer".to_string(),
            Op::Update => "7update".to_string(),
            Op::Approve => "37appr".to_string(),
            Op::ApproveCollection => "37appr_coll".to_string(),
            Op::Revoke => "37revoke".to_string(),
            Op::RevokeCollection => "37revoke_coll".to_string(),
            Op::TransferFrom => "37xfer".to_string(),
        }
    }
}

/// An immutable audit record. `tid` is the 64-bit token key (0 where the record
/// concerns no single token); `ts` is in seconds.
#[derive(Clone, Debug)]
pub struct Transaction {
    pub ts: u64,
    pub op: Op,
    pub tid: u64,
    pub from: Option<Principal>,
    pub to: Option<Principal>,
    pub spender: Option<Principal>,
    pub exp: Option<u64>,
    pub meta: Option<Metadata>,
    pub memo: Option<Vec<u8>>,
    pub created_at: Option<u64>,
}

/// What a record says, identities and memo as plain sequences (its metadata aside).
pub struct TxView {
    pub ts: u64,
    pub op: Op,
    pub tid: u64,
    pub from: Option<Seq<u8>>,
    pub to: Option<Seq<u8>>,
    pub spender: Option<Seq<u8>>,
    pub exp: Option<u64>,
    pub memo: Option<Seq<u8>>,
    pub created_at: Option<u64>,
}

pub open spec fn memo_view(m: Option<Vec<u8>>) -> Option<Seq<u8>> {
    match m {
        Some(v) => Some(v@),
        None => None,
    }
}

pub open spec fn tx_view(t: Transaction) -> TxView {
    TxView {
        ts: t.ts,
        op: t.op,
        tid: t.tid,
        from: who(t.from),
        to: who(t.to),
        spender: who(t.spender),
        exp: t.exp,
        memo: memo_view(t.memo),
        created_at: t.created_at,
    }
}

/// The records of a log, as views.
pub open spec fn log_views(log: Seq<Transaction>) -> Seq<TxView> {
    log.map_values(|t: Transaction| tx_view(t))
}

/// The identity an optional field holds, as bytes.
pub open spec fn who(p: Option<Principal>) -> Option<Seq<u8>> {
    match p {
        Some(p) => Some(p@),
        None => None,
    }
}

impl Transaction {
    pub fn mint(now_sec: u64, tid: u64, from: Option<Principal>, to: Principal, meta: Metadata) -> (r:
        Transaction)
        ensures
            r.ts == now_sec && r.op == Op::Mint && r.tid == tid,
            who(r.from) == who(from) && who(r.to) == Some(to@) && r.spender is None,
            r.meta == Some(meta) && r.memo is None && r.exp is None && r.created_at is None,
    {
        Transaction {
            ts: now_sec,
            op: Op::Mint,
            tid,
            from,
            to: Some(to),
            spender: None,
            exp: None,
            meta: Some(meta),
            memo: None,
            created_at: None,
        }
    }

    pub fn burn(now_sec: u64, tid: u64, from: Principal, to: Option<Principal>, memo: Option<Vec<u8>>) -> (r:
        Transaction)
        ensures
            r.ts == now_sec && r.op == Op::Burn && r.tid == tid,
            who(r.from) == Some(from@) && who(r.to) == who(to) && r.spender is None,
            r.memo == memo && r.meta is None && r.exp is None && r.created_at is None,
    {
        Transaction {
            ts: now_sec,
            op: Op::Burn,
            tid,
            from: Some(from),
            to,
            spender: None,
            exp: None,
            meta: None,
            memo,
            created_at: None,
        }
    }

    pub fn transfer(
        now_sec: u64,
        tid: u64,
        from: Principal,
        to: Principal,
        memo: Option<Vec<u8>>,
        created_at: Option<u64>,
    ) -> (r: Transaction)
        ensures
            tx_view(r) == (TxView {
                ts: now_sec,
                op: Op::Transfer,
                tid,
                from: Some(from@),
                to: Some(to@),
                spender: None,
                exp: None,
                memo: memo_view(memo),
                created_at,
            }),
            r.meta is None,
    {
        Transaction {
            ts: now_sec,
            op: Op::Transfer,
            tid,
            from: Some(from),
            to: Some(to),
            spender: None,
            exp: None,
            meta: None,
            memo,
            created_at,
        }
    }

    pub fn update(now_sec: u64, tid: u64, from: Principal, meta: Metadata, memo: Option<Vec<u8>>) -> (r:
        Transaction)
        ensures
            r.ts == now_sec && r.op == Op::Update && r.tid == tid,
            who(r.from) == Some(from@) && r.to is None && r.spender is None,
            r.memo == memo && r.meta == Some(meta) && r.exp is None && r.created_at is None,
    {
        Transaction {
            ts: now_sec,
            op: Op::Update,
            tid,
            from: Some(from),
            to: None,
            spender: None,
            exp: None,
            meta: Some(meta),
            memo,
            created_at: None,
        }
    }

    pub fn approve(
        now_sec: u64,
        tid: u64,
        from: Principal,
        spender: Principal,
        exp_sec: Option<u64>,
        memo: Option<Vec<u8>>,
    ) -> (r: Transaction)
        ensures
            r.ts == now_sec && r.op == Op::Approve && r.tid == tid,
            who(r.from) == Some(from@) && r.to is None && who(r.spender) == Some(spender@),
            r.memo == memo && r.meta is None && r.exp == exp_sec && r.created_at is None,
    {
        Transaction {
            ts: now_sec,
            op: Op::Approve,
            tid,
            from: Some(from),
            to: None,
            spender: Some(spender),
            exp: exp_sec,
            meta: None,
            memo,
            created_at: None,
        }
    }

    pub fn approve_collection(
        now_sec: u64,
        from: Principal,
        spender: Principal,
        exp_sec: Option<u64>,
        memo: Option<Vec<u8>>,
    ) -> (r: Transaction)
        ensures
            r.ts == now_sec && r.op == Op::ApproveCollection && r.tid == 0,
            who(r.from) == Some(from@) && r.to is None && who(r.spender) == Some(spender@),
            r.memo == memo && r.meta is None && r.exp == exp_sec && r.created_at is None,
    {
        Transaction {
            ts: now_sec,
            op: Op::ApproveCollection,
            tid: 0,
            from: Some(from),
            to: None,
            spender: Some(spender),
            exp: exp_sec,
            meta: None,
            memo,
            created_at: None,
        }
    }

    pub fn revoke(now_sec: u64, tid: u64, from: Principal, spender: Option<Principal>, memo: Option<Vec<u8>>) -> (r:
        Transaction)
        ensures
            r.ts == now_sec && r.op == Op::Revoke && r.tid == tid,
            who(r.from) == Some(from@) && r.to is None && who(r.spender) == who(spender),
            r.memo == memo && r.meta is None && r.exp is None && r.created_at is None,
    {
        Transaction {
            ts: now_sec,
            op: Op::Revoke,
            tid,
            from: Some(from),
            to: None,
            spender,
            exp: None,
            meta: None,
            memo,
            created_at: None,
        }
    }

    pub fn revoke_collection(now_sec: u64, from: Principal, spender: Option<Principal>, memo: Option<Vec<u8>>) -> (r:
        Transaction)
        ensures
            r.ts == now_sec && r.op == Op::RevokeCollection && r.tid == 0,
            who(r.from) == Some(from@) && r.to is None && who(r.spender) == who(spender),
            r.memo == memo && r.meta is None && r.exp is None && r.created_at is None,
    {
        Transaction {
            ts: now_sec,
            op: Op::RevokeCollection,
            tid: 0,
            from: Some(from),
            to: None,
            spender,
            exp: None,
            meta: None,
            memo,
            created_at: None,
        }
    }

    pub fn transfer_from(
        now_sec: u64,
        tid: u64,
        from: Principal,
        to: Principal,
        spender: Principal,
        memo: Option<Vec<u8>>,
        created_at: Option<u64>,
    ) -> (r: Transaction)
        ensures
            tx_view(r) == (TxView {
                ts: now_sec,
                op: Op::TransferFrom,
                tid,
                from: Some(from@),
                to: Some(to@),
                spender: Some(spender@),
                exp: None,
                memo: memo_view(memo),
                created_at,
            }),
            r.meta is None,
    {
        Transaction {
            ts: now_sec,
            op: Op::TransferFrom,
            tid,
            from: Some(from),
            to: Some(to),
            spender: Some(spender),
            exp: None,
            meta: None,
            memo,
            created_at,
        }
    }
}

/// The fields that make two transfer records the same request.
pub struct DupKey {
    pub op: Op,
    pub tid: u64,
    pub from: Option<Seq<u8>>,
    pub to: Option<Seq<u8>>,
    pub spender: Option<Seq<u8>>,
    pub memo: Option<Seq<u8>>,
    pub created_at: Option<u64>,
}

pub open spec fn dup_key(t: TxView) -> DupKey {
    DupKey {
        op: t.op,
        tid: t.tid,
        from: t.from,
        to: t.to,
        spender: t.spender,
        memo: t.memo,
        created_at: t.created_at,
    }
}

/// The position of the first record of `log` with key `k`.
pub open spec fn dup_index(log: Seq<TxView>, k: DupKey) -> Option<int> {
    if exists|i: int| 0 <= i < log.len() && #[trigger] dup_key(log[i]) == k {
        Some(
            choose|i: int|
                0 <= i < log.len() && #[trigger] dup_key(log[i]) == k && forall|j: int|
                    0 <= j < i ==> dup_key(log[j]) != k,
        )
    } else {
        None
    }
}

pub open spec fn opt_view(p: Option<&Principal>) -> Option<Seq<u8>> {
    match p {
        Some(q) => Some(q@),
        None => None,
    }
}

/// A copy of a memo.
pub fn copy_memo(m: &Option<Vec<u8>>) -> (r: Option<Vec<u8>>)
    ensures
        memo_view(r) == memo_view(*m),
{
    match m {
        Some(v) => Some(crate::metadata::copy_bytes(v)),
        None => None,
    }
}

fn same_party(a: &Option<Principal>, b: Option<&Principal>) -> (r: bool)
    ensures
        r == (who(*a) == opt_view(b)),
{
    match (a, b) {
        (Some(x), Some(y)) => x.same(y),
        (None, None) => true,
        _ => false,
    }
}

fn same_memo(a: &Option<Vec<u8>>, b: &Option<Vec<u8>>) -> (r: bool)
    ensures
        r == (memo_view(*a) == memo_view(*b)),
{
    match (a, b) {
        (Some(x), Some(y)) => crate::challenge::bytes_eq(x.as_slice(), y.as_slice()),
        (None, None) => true,
        _ => false,
    }
}

/// Whether record `t` has the key of a transfer-like request with these fields.
fn record_has_key(
    t: &Transaction,
    op: Op,
    tid: u64,
    from: &Principal,
    to: &Principal,
    spender: Option<&Principal>,
    memo: &Option<Vec<u8>>,
    created_at: u64,
) -> (r: bool)
    ensures
        r == (dup_key(tx_view(*t)) == DupKey {
            op,
            tid,
            from: Some(from@),
            to: Some(to@),
            spender: opt_view(spender),
            memo: memo_view(*memo),
            created_at: Some(created_at),
        }),
{
    t.op == op && t.tid == tid && t.created_at == Some(created_at) && same_party(&t.from, Some(from))
        && same_party(&t.to, Some(to)) && same_party(&t.spender, spender) && same_memo(&t.memo, memo)
}

/// The append-only audit log. A record's position is the index returned to callers.
#[derive(Clone, Debug)]
pub struct TransactionLog(pub Vec<Transaction>);

impl TransactionLog {
    /// The number of records.
    pub fn total(&self) -> (r: u64)
        ensures
            r == self.0@.len(),
    {
        self.0.len() as u64
    }

    /// The position of the first record of a transfer-like request with these
    /// fields, if one was logged.
    pub fn find_record(
        &self,
        op: Op,
        tid: u64,
        from: &Principal,
        to: &Principal,
        spender: Option<&Principal>,
        memo: &Option<Vec<u8>>,
        created_at: u64,
    ) -> (r: Option<u64>)
        requires
            self.0@.len() <= u64::MAX,
        ensures
            ({
                let k = DupKey {
                    op,
                    tid,
                    from: Some(from@),
                    to: Some(to@),
                    spender: opt_view(spender),
                    memo: memo_view(*memo),
                    created_at: Some(created_at),
                };
                match r {
                    Some(i) => dup_index(log_views(self.0@), k) == Some(i as int),
                    None => dup_index(log_views(self.0@), k) is None,
                }
            }),
    {
        let ghost k = DupKey {
            op,
            tid,
            from: Some(from@),
            to: Some(to@),
            spender: opt_view(spender),
            memo: memo_view(*memo),
            created_at: Some(created_at),
        };
        let ghost lv = log_views(self.0@);
        let mut i: usize = 0;
        while i < self.0.len()
            invariant
                i <= self.0@.len() <= u64::MAX,
                lv == log_views(self.0@),
                k == (DupKey {
                    op,
                    tid,
                    from: Some(from@),
                    to: Some(to@),
                    spender: opt_view(spender),
                    memo: memo_view(*memo),
                    created_at: Some(created_at),
                }),
                forall|j: int| 0 <= j < i ==> dup_key(#[trigger] lv[j]) != k,
            decreases self.0@.len() - i,
        {
            assert(lv[i as int] == tx_view(self.0@[i as int]));
            if record_has_key(&self.0[i], op, tid, from, to, spender, memo, created_at) {
                proof {
                    let c = choose|c: int|
                        0 <= c < lv.len() && #[trigger] dup_key(lv[c]) == k && forall|j: int|
                            0 <= j < c ==> dup_key(lv[j]) != k;
                    if c > i as int {
                        assert(dup_key(lv[i as int]) == k);
                    }
                }
                return Some(i as u64);
            }
            i = i + 1;
        }
        None
    }

    /// Appends a record and returns its position.
    pub fn append(&mut self, tx: Transaction) -> (r: u64)
        requires
            old(self).0@.len() < u64::MAX,
        ensures
            r == old(self).0@.len(),
            final(self).0@ == old(self).0@.push(tx),
            log_views(final(self).0@) == log_views(old(self).0@).push(tx_view(tx)),
    {
        let r = self.0.len() as u64;
        let ghost t = tx;
        self.0.push(tx);
        assert(log_views(self.0@) =~= log_views(old(self).0@).push(tx_view(t)));
        r
    }
}

} // verus!
