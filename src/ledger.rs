use vstd::prelude::*;

use crate::approval_store::{
    clear_token, find_holder_approvals, find_token, holder_list, holder_store_wf, token_list, token_store_wf, HolderApprovals,
    TokenApprovals,
};
use crate::approvals::{is_live, Approval};
use crate::owner_tokens::{holds, index_insert, index_remove, index_wf, OwnerTokens};
use crate::assets::assets_wf;
use crate::owners::Owners;
use crate::principal::Principal;
use crate::settings::Collection;
use crate::token_id::{decode, encode, lemma_decode_encode, lemma_id_round_trip, TokenId};
use crate::transaction::TransactionLog;
use crate::types::Metadata;

verus! {

/// A token class: a named kind of collectible with numbered serials.
#[derive(Clone, Debug)]
pub struct Token {
    pub id: u32,
    pub name: String,
    pub description: Option<String>,
    pub asset_name: String,
    pub asset_content_type: String,
    pub asset_hash: Vec<u8>,
    pub metadata: Metadata,
    pub author: Principal,
    pub supply_cap: Option<u32>,
    pub total_supply: u32,
    pub created_at: u64,
    pub updated_at: u64,
}

/// A stored asset, keyed by the hash of its content.
#[derive(Clone, Debug)]
pub struct Asset {
    pub hash: Vec<u8>,
    pub content: Vec<u8>,
}

/// The whole ledger state, passed to every operation.
pub struct Ledger {
    pub collection: Collection,
    pub tokens: Vec<Token>,
    pub owners: Vec<Owners>,
    pub owner_tokens: Vec<OwnerTokens>,
    pub token_approvals: Vec<TokenApprovals>,
    pub collection_approvals: Vec<HolderApprovals>,
    pub assets: Vec<Asset>,
    pub log: TransactionLog,
    pub secret: Vec<u8>,
}

/// A class never has more serials than its cap allows.
pub open spec fn supply_within_cap(t: Token) -> bool {
    match t.supply_cap {
        Some(cap) => t.total_supply <= cap,
        None => true,
    }
}

/// The holder of the token with key `x` in the ownership records `owners`.
pub open spec fn holder_in(owners: Seq<Owners>, x: u64) -> Option<Seq<u8>> {
    let c = decode(x).0 as int;
    let s = decode(x).1 as int;
    if 1 <= c <= owners.len() && 1 <= s <= owners[c - 1].0@.len() {
        Some(owners[c - 1].0@[s - 1]@)
    } else {
        None
    }
}

impl Token {
    /// A token class with no content, used to move a class out of the catalog
    /// while it is updated.
    pub(crate) fn placeholder() -> (r: Token) {
        Token {
            id: 0,
            name: String::new(),
            description: None,
            asset_name: String::new(),
            asset_content_type: String::new(),
            asset_hash: Vec::new(),
            metadata: Metadata(Vec::new()),
            author: Principal(Vec::new()),
            supply_cap: None,
            total_supply: 0,
            created_at: 0,
            updated_at: 0,
        }
    }
}

impl Ledger {
    /// The holder of the token with key `x`, if it exists.
    pub open spec fn holder_of(&self, x: u64) -> Option<Seq<u8>> {
        holder_in(self.owners@, x)
    }

    /// Ownership as a map from token key to holder.
    pub open spec fn holders(&self) -> Map<u64, Seq<u8>> {
        Map::new(|x: u64| self.holder_of(x) is Some, |x: u64| self.holder_of(x)->0)
    }

    /// Each existing token has exactly one holder, the reverse index records
    /// that holder as holding it, and the reverse index records nothing else.
    pub open spec fn ownership_consistent(&self) -> bool {
        &&& index_wf(self.owner_tokens@)
        &&& forall|h: Seq<u8>, x: u64| #[trigger]
            holds(self.owner_tokens@, h, x) ==> holder_in(self.owners@, x) == Some(h)
        &&& forall|x: u64| #[trigger]
            holder_in(self.owners@, x) is Some ==> holds(
                self.owner_tokens@,
                holder_in(self.owners@, x)->0,
                x,
            )
    }

    pub open spec fn catalog_wf(&self) -> bool {
        &&& self.owners@.len() == self.tokens@.len()
        &&& self.tokens@.len() < u32::MAX
        &&& forall|i: int|
            0 <= i < self.tokens@.len() ==> (#[trigger] self.tokens@[i]).total_supply
                == self.owners@[i].0@.len() && self.tokens@[i].id == i + 1 && supply_within_cap(
                self.tokens@[i],
            )
    }

    pub open spec fn wf(&self) -> bool {
        &&& self.catalog_wf()
        &&& self.collection.total_supply == self.tokens@.len()
        &&& self.log.0@.len() <= u64::MAX
        &&& assets_wf(self.assets@)
        &&& self.ownership_consistent()
        &&& token_store_wf(self.token_approvals@)
        &&& holder_store_wf(self.collection_approvals@)
    }

    /// `spender` holds a live token-scoped approval for token `x`.
    pub open spec fn token_approved(&self, x: u64, spender: Seq<u8>, now: u64) -> bool {
        is_live(token_list(self.token_approvals@, x), spender, now)
    }

    /// `spender` holds a live collection-scoped approval from `holder`.
    pub open spec fn collection_approved(&self, holder: Seq<u8>, spender: Seq<u8>, now: u64) -> bool {
        is_live(holder_list(self.collection_approvals@, holder), spender, now)
    }

    /// Whether `spender` holds a live collection-scoped approval from `holder`.
    pub fn is_collection_approved(&self, holder: &Principal, spender: &Principal, now: u64) -> (r: bool)
        requires
            self.wf(),
        ensures
            r == self.collection_approved(holder@, spender@, now),
    {
        match find_holder_approvals(&self.collection_approvals, holder) {
            Some(i) => self.collection_approvals[i].approvals.is_approved(spender, now),
            None => false,
        }
    }

    /// Whether `spender` holds a live token-scoped approval for token `x`.
    pub fn is_token_approved(&self, x: u64, spender: &Principal, now: u64) -> (r: bool)
        requires
            self.wf(),
        ensures
            r == self.token_approved(x, spender@, now),
    {
        match find_token(&self.token_approvals, x) {
            Some(i) => self.token_approvals[i].approvals.is_approved(spender, now),
            None => false,
        }
    }

    /// Adds serial `total_supply + 1` to class `c`, held by `holder`; returns its key.
    pub(crate) fn append_serial(&mut self, c: u32, holder: &Principal, now: u64) -> (r: u64)
        requires
            old(self).wf(),
            1 <= c <= old(self).tokens@.len(),
            old(self).tokens@[c - 1].total_supply < u32::MAX,
            supply_within_cap(
                Token {
                    total_supply: (old(self).tokens@[c - 1].total_supply + 1) as u32,
                    ..old(self).tokens@[c - 1]
                },
            ),
        ensures
            final(self).wf(),
            r == encode(c, (old(self).tokens@[c - 1].total_supply + 1) as u32),
            final(self).holders() == old(self).holders().insert(r, holder@),
            final(self).tokens@.len() == old(self).tokens@.len(),
            final(self).tokens@[c - 1] == (Token {
                total_supply: (old(self).tokens@[c - 1].total_supply + 1) as u32,
                updated_at: now,
                ..old(self).tokens@[c - 1]
            }),
            forall|i: int|
                0 <= i < old(self).tokens@.len() && i != c - 1 ==> #[trigger] final(self).tokens@[i]
                    == old(self).tokens@[i],
            final(self).collection == old(self).collection,
            final(self).collection_approvals == old(self).collection_approvals,
            final(self).token_approvals == old(self).token_approvals,
            final(self).log == old(self).log,
            final(self).assets == old(self).assets,
            final(self).secret == old(self).secret,
    {
        let ghost old_self = *self;
        let i = (c - 1) as usize;
        let s = self.tokens[i].total_supply + 1;
        let key = TokenId(c, s).to_u64();
        proof {
            lemma_id_round_trip(c, s);
        }
        let mut o = Owners(Vec::new());
        self.owners.set_and_swap(i, &mut o);
        o.append(holder.dup());
        self.owners.set_and_swap(i, &mut o);
        let mut t = Token::placeholder();
        self.tokens.set_and_swap(i, &mut t);
        t.total_supply = s;
        t.updated_at = now;
        self.tokens.set_and_swap(i, &mut t);
        index_insert(&mut self.owner_tokens, holder, key);
        proof {
            assert forall|y: u64| #[trigger]
                holder_in(self.owners@, y) == if y == key {
                    Some(holder@)
                } else {
                    holder_in(old_self.owners@, y)
                } by {
                lemma_decode_encode(y);
            }
            assert(self.holders() =~= old_self.holders().insert(key, holder@));
            assert forall|h: Seq<u8>, y: u64| #[trigger]
                holds(self.owner_tokens@, h, y) implies holder_in(self.owners@, y) == Some(h) by {
                if !(h == holder@ && y == key) {
                    assert(holds(old_self.owner_tokens@, h, y));
                }
            }
            assert forall|y: u64| #[trigger]
                holder_in(self.owners@, y) is Some implies holds(
                self.owner_tokens@,
                holder_in(self.owners@, y)->0,
                y,
            ) by {
                if y != key {
                    assert(holder_in(old_self.owners@, y) is Some);
                    assert(holds(old_self.owner_tokens@, holder_in(old_self.owners@, y)->0, y));
                }
            }
            assert forall|j: int| 0 <= j < self.tokens@.len() implies (#[trigger] self.tokens@[j]).total_supply
                == self.owners@[j].0@.len() && self.tokens@[j].id == j + 1 && supply_within_cap(
                self.tokens@[j],
            ) by {
                if j != i as int {
                    assert(self.tokens@[j] == old_self.tokens@[j]);
                    assert(self.owners@[j] == old_self.owners@[j]);
                }
            }
        }
        key
    }

    /// Hands token `x` = (c, s), held by `from`, to `to`: the ownership record,
    /// both reverse-index entries and the token's approvals change together.
    pub(crate) fn move_token(&mut self, from: &Principal, to: &Principal, x: u64, c: u32, s: u32)
        requires
            old(self).wf(),
            encode(c, s) == x,
            old(self).holder_of(x) == Some(from@),
        ensures
            final(self).wf(),
            final(self).holders() == old(self).holders().insert(x, to@),
            forall|y: u64| #[trigger]
                token_list(final(self).token_approvals@, y) == if y == x {
                    Seq::<Approval>::empty()
                } else {
                    token_list(old(self).token_approvals@, y)
                },
            final(self).collection_approvals == old(self).collection_approvals,
            final(self).tokens == old(self).tokens,
            final(self).collection == old(self).collection,
            final(self).log == old(self).log,
            final(self).assets == old(self).assets,
            final(self).secret == old(self).secret,
            final(self).owners@.len() == old(self).owners@.len(),
            forall|i: int|
                0 <= i < old(self).owners@.len() ==> (#[trigger] final(self).owners@[i]).0@.len()
                    == old(self).owners@[i].0@.len(),
    {
        proof {
            lemma_id_round_trip(c, s);
        }
        let ghost old_self = *self;
        let mut o = Owners(Vec::new());
        self.owners.set_and_swap((c - 1) as usize, &mut o);
        o.set_holder(s, to.dup());
        self.owners.set_and_swap((c - 1) as usize, &mut o);
        index_remove(&mut self.owner_tokens, from, x);
        index_insert(&mut self.owner_tokens, to, x);
        clear_token(&mut self.token_approvals, x);
        proof {
            assert forall|y: u64| #[trigger]
                holder_in(self.owners@, y) == if y == x {
                    Some(to@)
                } else {
                    holder_in(old_self.owners@, y)
                } by {
                lemma_decode_encode(y);
            }
            assert(self.holders() =~= old_self.holders().insert(x, to@));
            assert forall|h: Seq<u8>, y: u64| #[trigger]
                holds(self.owner_tokens@, h, y) implies holder_in(self.owners@, y) == Some(h) by {
                if !(h == to@ && y == x) {
                    assert(holds(old_self.owner_tokens@, h, y));
                }
            }
            assert forall|y: u64| #[trigger]
                holder_in(self.owners@, y) is Some implies holds(
                self.owner_tokens@,
                holder_in(self.owners@, y)->0,
                y,
            ) by {
                if y != x {
                    assert(holder_in(old_self.owners@, y) is Some);
                    assert(holds(old_self.owner_tokens@, holder_in(old_self.owners@, y)->0, y));
                }
            }
        }
    }
}

} // verus!
