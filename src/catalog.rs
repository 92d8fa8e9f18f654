use vstd::prelude::*;

use crate::assets::{asset_of, find_asset, has_asset, put_asset, remove_asset};
use crate::challenge::{
    cbor_decoded_of, challenge_message, challenge_of, digest_bytes, verify_result, mac16, secret_payload, sha3_256, sha3_of, verifies, Secret,
    SecretArg,
};
use crate::ledger::{supply_within_cap, Ledger, Token};
use crate::owners::Owners;
use crate::principal::{anonymous_bytes, Principal};
use crate::settings::{member, Collection, UpdateCollectionArg};
use crate::token_id::{decode, TokenId};
use crate::types::Metadata;

verus! {

/// A request to create a token class with its asset.
#[derive(Clone, Debug)]
pub struct CreateTokenArg {
    pub name: String,
    pub description: Option<String>,
    pub asset_name: String,
    pub asset_content_type: String,
    pub asset_content: Vec<u8>,
    pub metadata: Metadata,
    pub supply_cap: Option<u32>,
    pub author: Principal,
    pub challenge: Option<Vec<u8>>,
}

/// A partial update of a token class: only the fields present change.
#[derive(Clone, Debug)]
pub struct UpdateTokenArg {
    pub id: u64,
    pub name: Option<String>,
    pub description: Option<String>,
    pub asset_name: Option<String>,
    pub asset_content_type: Option<String>,
    pub asset_content: Option<Vec<u8>>,
    pub metadata: Option<Metadata>,
    pub supply_cap: Option<u32>,
    pub author: Option<Principal>,
}

/// How long, in seconds, a challenge stays valid.
pub const CHALLENGE_TTL: u64 = 600;

/// The collection can take no more token classes.
pub open spec fn collection_full(c: Collection) -> bool {
    c.supply_cap is Some && c.total_supply >= c.supply_cap->0
}

/// The class's cap would rise, or fall below its supply.
pub open spec fn bad_cap(t: Token, requested: Option<u32>) -> bool {
    match requested {
        Some(n) => (t.supply_cap is Some && n > t.supply_cap->0) || n < t.total_supply,
        None => false,
    }
}

/// `t` after the update `a` at `now`, its asset hash aside.
pub open spec fn patched_token(t: Token, a: UpdateTokenArg, now: u64) -> Token {
    Token {
        name: match a.name {
            Some(v) => v,
            None => t.name,
        },
        description: match a.description {
            Some(v) => Some(v),
            None => t.description,
        },
        asset_name: match a.asset_name {
            Some(v) => v,
            None => t.asset_name,
        },
        asset_content_type: match a.asset_content_type {
            Some(v) => v,
            None => t.asset_content_type,
        },
        metadata: match a.metadata {
            Some(v) => v,
            None => t.metadata,
        },
        supply_cap: match a.supply_cap {
            Some(v) => Some(v),
            None => t.supply_cap,
        },
        author: match a.author {
            Some(v) => v,
            None => t.author,
        },
        updated_at: now,
        ..t
    }
}

/// The catalog changed only by one class appended for `args` with asset hash
/// `hash`, stored with its content.
pub open spec fn appended(old: Ledger, new: Ledger, args: CreateTokenArg, hash: Seq<u8>, now: u64) -> bool {
    let t = new.tokens@.last();
    &&& new.tokens@.len() == old.tokens@.len() + 1
    &&& new.tokens@.drop_last() == old.tokens@
    &&& t.id == old.tokens@.len() + 1
    &&& t.name == args.name
    &&& t.description == args.description
    &&& t.asset_name == args.asset_name
    &&& t.asset_content_type == args.asset_content_type
    &&& t.asset_hash@ == hash
    &&& t.metadata == args.metadata
    &&& t.author == args.author
    &&& t.supply_cap == args.supply_cap
    &&& t.total_supply == 0
    &&& t.created_at == now && t.updated_at == now
    &&& asset_of(new.assets@, hash) == Some(args.asset_content@)
    &&& forall|g: Seq<u8>| g != hash ==> #[trigger] asset_of(new.assets@, g) == asset_of(old.assets@, g)
    &&& forall|g: Seq<u8>| g != hash ==> #[trigger] has_asset(new.assets@, g) == has_asset(old.assets@, g)
    &&& new.holders() == old.holders()
    &&& new.collection == (Collection {
        total_supply: (old.collection.total_supply + 1) as u64,
        updated_at: now,
        ..old.collection
    })
    &&& new.owner_tokens == old.owner_tokens
    &&& new.token_approvals == old.token_approvals
    &&& new.collection_approvals == old.collection_approvals
    &&& new.log == old.log
    &&& new.secret == old.secret
}

impl Ledger {
    /// An empty ledger for `collection`, holding `secret` as the challenge key.
    pub fn new(collection: Collection, secret: Vec<u8>) -> (r: Ledger)
        ensures
            r.wf(),
            r.collection == (Collection { total_supply: 0, ..collection }),
            r.secret == secret,
            r.tokens@.len() == 0,
            r.log.0@.len() == 0,
            r.holders() == Map::<u64, Seq<u8>>::empty(),
    {
        let mut collection = collection;
        collection.total_supply = 0;
        let r = Ledger {
            collection,
            tokens: Vec::new(),
            owners: Vec::new(),
            owner_tokens: Vec::new(),
            token_approvals: Vec::new(),
            collection_approvals: Vec::new(),
            assets: Vec::new(),
            log: crate::transaction::TransactionLog(Vec::new()),
            secret,
        };
        assert(r.holders() =~= Map::<u64, Seq<u8>>::empty());
        r
    }

    /// Replaces the key challenges are issued with.
    pub fn set_secret(&mut self, secret: Vec<u8>)
        requires
            old(self).wf(),
        ensures
            final(self).wf(),
            final(self).secret == secret,
            *final(self) == (Ledger { secret, ..*old(self) }),
    {
        self.secret = secret;
    }

    /// The key challenges are issued with.
    pub fn with_secret(&self) -> (r: &[u8])
        ensures
            r@ == self.secret@,
    {
        self.secret.as_slice()
    }

    /// The number of audit records.
    pub fn total(&self) -> (r: u64)
        ensures
            r == self.log.0@.len(),
    {
        self.log.total()
    }

    /// Appends a class for `args` whose asset content hashes to `hash`. Fails,
    /// changing nothing, where an asset with that hash is already stored or the
    /// catalog is full.
    pub fn create_token_with_hash(&mut self, args: CreateTokenArg, hash: [u8; 32], now: u64) -> (r:
        Result<u32, String>)
        requires
            old(self).wf(),
        ensures
            final(self).wf(),
            r is Err <==> (has_asset(old(self).assets@, hash@) || old(self).tokens@.len() + 1
                >= u32::MAX),
            r is Err ==> *final(self) == *old(self),
            r matches Ok(id) ==> id == old(self).tokens@.len() + 1 && appended(
                *old(self),
                *final(self),
                args,
                hash@,
                now,
            ),
    {
        if find_asset(&self.assets, hash.as_slice()).is_some() {
            return Err("asset already exists".to_string());
        }
        if self.tokens.len() + 1 >= u32::MAX as usize {
            return Err("failed to create token: the catalog is full".to_string());
        }
        let ghost old_self = *self;
        let id = (self.tokens.len() + 1) as u32;
        let hash_vec = digest_bytes(&hash);
        put_asset(&mut self.assets, hash_vec, args.asset_content);
        let token = Token {
            id,
            name: args.name,
            description: args.description,
            asset_name: args.asset_name,
            asset_content_type: args.asset_content_type,
            asset_hash: digest_bytes(&hash),
            metadata: args.metadata,
            author: args.author,
            supply_cap: args.supply_cap,
            total_supply: 0,
            created_at: now,
            updated_at: now,
        };
        self.tokens.push(token);
        self.owners.push(Owners(Vec::new()));
        self.collection.total_supply = self.collection.total_supply + 1;
        self.collection.updated_at = now;
        proof {
            assert forall|y: u64| #[trigger]
                crate::ledger::holder_in(self.owners@, y) == crate::ledger::holder_in(
                    old_self.owners@,
                    y,
                ) by {
                let c = decode(y).0 as int;
                if 1 <= c <= old_self.owners@.len() {
                    assert(self.owners@[c - 1] == old_self.owners@[c - 1]);
                }
            }
            assert(self.holders() =~= old_self.holders());
            assert(self.tokens@.drop_last() =~= old_self.tokens@);
            assert forall|i: int| 0 <= i < self.tokens@.len() implies (#[trigger] self.tokens@[i]).total_supply
                == self.owners@[i].0@.len() && self.tokens@[i].id == i + 1 && supply_within_cap(
                self.tokens@[i],
            ) by {
                if i < old_self.tokens@.len() {
                    assert(self.tokens@[i] == old_self.tokens@[i]);
                    assert(self.owners@[i] == old_self.owners@[i]);
                }
            }
        }
        Ok(id)
    }

    /// A manager creates a token class. Aborts, changing nothing, for an
    /// anonymous or non-manager caller, or when the collection's cap on classes
    /// is reached; otherwise as `create_token_with_hash` with the SHA3-256 of the
    /// asset content.
    pub fn create_token(&mut self, caller: &Principal, args: CreateTokenArg, now: u64) -> (r: Result<
        u32,
        String,
    >)
        requires
            old(self).wf(),
        ensures
            final(self).wf(),
            r is Err <==> (caller@ == anonymous_bytes() || !member(
                old(self).collection.managers@,
                caller@,
            ) || collection_full(old(self).collection) || has_asset(
                old(self).assets@,
                sha3_of(args.asset_content@),
            ) || old(self).tokens@.len() + 1 >= u32::MAX),
            r is Err ==> *final(self) == *old(self),
            r matches Ok(id) ==> id == old(self).tokens@.len() + 1 && appended(
                *old(self),
                *final(self),
                args,
                sha3_of(args.asset_content@),
                now,
            ),
    {
        if caller.is_anonymous() {
            return Err("anonymous caller".to_string());
        }
        if !self.collection.is_manager(caller) {
            return Err("caller is not a manager".to_string());
        }
        if let Some(cap) = self.collection.supply_cap {
            if self.collection.total_supply >= cap {
                return Err("supply cap reached".to_string());
            }
        }
        let hash = sha3_256(args.asset_content.as_slice());
        self.create_token_with_hash(args, hash, now)
    }

    /// An author creates a token class with a challenge a manager issued for
    /// it. Aborts, changing nothing, unless the caller is the declared author
    /// (and not anonymous), a challenge is given, the collection's cap on
    /// classes is not reached, and the challenge verifies for the author and
    /// the hash of the asset content, issued no more than ten minutes ago.
    pub fn create_token_by_secret(&mut self, caller: &Principal, args: CreateTokenArg, now: u64) -> (r:
        Result<u32, String>)
        requires
            old(self).wf(),
        ensures
            final(self).wf(),
            r is Err ==> *final(self) == *old(self),
            (caller@ != anonymous_bytes() && caller@ == args.author@ && args.challenge is Some
                && !collection_full(old(self).collection)) ==> match verify_result(
                old(self).secret@,
                secret_payload(caller@, sha3_of(args.asset_content@)),
                if now >= CHALLENGE_TTL {
                    (now - CHALLENGE_TTL) as u64
                } else {
                    0
                },
                args.challenge->0@,
            ) {
                Err(e) => r matches Err(m) && m@ == challenge_message(e),
                Ok(_) => true,
            },
            r is Ok ==> caller@ == args.author@ && caller@ != anonymous_bytes() && !collection_full(
                old(self).collection,
            ) && args.challenge is Some && verifies(
                old(self).secret@,
                secret_payload(caller@, sha3_of(args.asset_content@)),
                if now >= CHALLENGE_TTL {
                    (now - CHALLENGE_TTL) as u64
                } else {
                    0
                },
                args.challenge->0@,
            ),
            r matches Ok(id) ==> id == old(self).tokens@.len() + 1 && appended(
                *old(self),
                *final(self),
                args,
                sha3_of(args.asset_content@),
                now,
            ),
            r is Err <==> (caller@ == anonymous_bytes() || caller@ != args.author@
                || args.challenge is None || collection_full(old(self).collection) || !verifies(
                old(self).secret@,
                secret_payload(caller@, sha3_of(args.asset_content@)),
                if now >= CHALLENGE_TTL {
                    (now - CHALLENGE_TTL) as u64
                } else {
                    0
                },
                args.challenge->0@,
            ) || has_asset(old(self).assets@, sha3_of(args.asset_content@))
                || old(self).tokens@.len() + 1 >= u32::MAX),
    {
        if caller.is_anonymous() {
            return Err("anonymous caller".to_string());
        }
        if !caller.same(&args.author) {
            return Err("caller is not the author".to_string());
        }
        if args.challenge.is_none() {
            return Err("challenge is required".to_string());
        }
        if let Some(cap) = self.collection.supply_cap {
            if self.collection.total_supply >= cap {
                return Err("supply cap reached".to_string());
            }
        }
        let expire_at = if now >= CHALLENGE_TTL {
            now - CHALLENGE_TTL
        } else {
            0
        };
        let hash = sha3_256(args.asset_content.as_slice());
        let request = SecretArg { author: caller.dup(), asset_hash: digest_bytes(&hash) };
        let checked = match &args.challenge {
            Some(c) => request.verify(self.secret.as_slice(), expire_at, c.as_slice()),
            None => Err(crate::challenge::ChallengeError::Malformed),
        };
        match checked {
            Err(e) => Err(e.message()),
            Ok(()) => self.create_token_with_hash(args, hash, now),
        }
    }

    /// Issues a manager a challenge for `args`, stamped `now`.
    pub fn secret(&self, caller: &Principal, args: &SecretArg, now: u64) -> (r: Result<Vec<u8>, String>)
        ensures
            r is Err <==> (caller@ == anonymous_bytes() || !member(self.collection.managers@, caller@)),
            r matches Ok(c) ==> c@ == challenge_of(
                self.secret@,
                secret_payload(args.author@, args.asset_hash@),
                now,
            ) && cbor_decoded_of(c@) == Some(
                (now, mac16(self.secret@, secret_payload(args.author@, args.asset_hash@), now)),
            ),
    {
        if caller.is_anonymous() {
            return Err("anonymous caller".to_string());
        }
        if !self.collection.is_manager(caller) {
            return Err("caller is not a manager".to_string());
        }
        Ok(args.secret(self.secret.as_slice(), now))
    }

    /// The class's author or a manager updates the fields of a token class that
    /// the request holds. Aborts, changing nothing, for an anonymous caller, an
    /// unknown class, a caller who is neither, or a cap that would rise or fall
    /// below the class's supply. New asset content is stored under its SHA3-256,
    /// and the content under the old hash is dropped.
    pub fn update_token(&mut self, caller: &Principal, args: UpdateTokenArg, now: u64) -> (r: Result<
        (),
        String,
    >)
        requires
            old(self).wf(),
        ensures
            final(self).wf(),
            ({
                let c = decode(args.id).0 as int;
                let t = old(self).tokens@[c - 1];
                &&& r is Err <==> (caller@ == anonymous_bytes() || !(1 <= c
                    <= old(self).tokens@.len()) || (!member(old(self).collection.managers@, caller@)
                    && t.author@ != caller@) || bad_cap(t, args.supply_cap))
                &&& r is Err ==> *final(self) == *old(self)
                &&& r is Ok ==> {
                    &&& final(self).tokens@ == old(self).tokens@.update(
                        c - 1,
                        Token {
                            asset_hash: final(self).tokens@[c - 1].asset_hash,
                            ..patched_token(t, args, now)
                        },
                    )
                    &&& final(self).tokens@[c - 1].asset_hash@ == match args.asset_content {
                        Some(content) => sha3_of(content@),
                        None => t.asset_hash@,
                    }
                    &&& args.asset_content matches Some(content) ==> {
                        &&& asset_of(final(self).assets@, sha3_of(content@)) == Some(content@)
                        &&& forall|g: Seq<u8>|
                            g != sha3_of(content@) && g != t.asset_hash@ ==> #[trigger] asset_of(
                                final(self).assets@,
                                g,
                            ) == asset_of(old(self).assets@, g)
                        &&& t.asset_hash@ != sha3_of(content@) ==> !has_asset(
                            final(self).assets@,
                            t.asset_hash@,
                        )
                    }
                    &&& args.asset_content is None ==> final(self).assets == old(self).assets
                    &&& final(self).owners == old(self).owners
                    &&& final(self).owner_tokens == old(self).owner_tokens
                    &&& final(self).token_approvals == old(self).token_approvals
                    &&& final(self).collection_approvals == old(self).collection_approvals
                    &&& final(self).collection == old(self).collection
                    &&& final(self).log == old(self).log
                    &&& final(self).secret == old(self).secret
                }
            }),
    {
        if caller.is_anonymous() {
            return Err("anonymous caller".to_string());
        }
        let id = TokenId::from_u64(args.id);
        if id.0 == 0 || id.0 as usize > self.tokens.len() {
            return Err("token not found".to_string());
        }
        let i = (id.0 - 1) as usize;
        if !self.collection.is_manager(caller) && !self.tokens[i].author.same(caller) {
            return Err("caller is not a manager or author".to_string());
        }
        if let Some(cap) = args.supply_cap {
            if let Some(current) = self.tokens[i].supply_cap {
                if cap > current {
                    return Err("supply cap can not be increased".to_string());
                }
            }
            if cap < self.tokens[i].total_supply {
                return Err("supply cap is below the supply".to_string());
            }
        }
        let ghost old_self = *self;
        let mut t = Token::placeholder();
        self.tokens.set_and_swap(i, &mut t);
        let ghost t0 = t;
        t.updated_at = now;
        if let Some(v) = args.name {
            t.name = v;
        }
        if let Some(v) = args.description {
            t.description = Some(v);
        }
        if let Some(v) = args.asset_name {
            t.asset_name = v;
        }
        if let Some(v) = args.asset_content_type {
            t.asset_content_type = v;
        }
        if let Some(content) = args.asset_content {
            let hash = sha3_256(content.as_slice());
            remove_asset(&mut self.assets, t.asset_hash.as_slice());
            put_asset(&mut self.assets, digest_bytes(&hash), content);
            t.asset_hash = digest_bytes(&hash);
        }
        if let Some(v) = args.metadata {
            t.metadata = v;
        }
        if let Some(v) = args.supply_cap {
            t.supply_cap = Some(v);
        }
        if let Some(v) = args.author {
            t.author = v;
        }
        self.tokens.set_and_swap(i, &mut t);
        proof {
            assert(self.tokens@ =~= old_self.tokens@.update(
                i as int,
                Token { asset_hash: self.tokens@[i as int].asset_hash, ..patched_token(t0, args, now) },
            ));
            assert forall|j: int| 0 <= j < self.tokens@.len() implies (#[trigger] self.tokens@[j]).total_supply
                == self.owners@[j].0@.len() && self.tokens@[j].id == j + 1 && supply_within_cap(
                self.tokens@[j],
            ) by {
                if j != i as int {
                    assert(self.tokens@[j] == old_self.tokens@[j]);
                }
            }
        }
        Ok(())
    }

    /// Replaces the minters.
    pub fn set_minters(&mut self, minters: Vec<Principal>, now: u64)
        requires
            old(self).wf(),
        ensures
            final(self).wf(),
            final(self).collection.minters == minters,
            final(self).collection.updated_at == now,
            *final(self) == (Ledger { collection: final(self).collection, ..*old(self) }),
    {
        self.collection.set_minters(minters, now);
    }

    /// Replaces the managers.
    pub fn set_managers(&mut self, managers: Vec<Principal>, now: u64)
        requires
            old(self).wf(),
        ensures
            final(self).wf(),
            final(self).collection.managers == managers,
            final(self).collection.updated_at == now,
            *final(self) == (Ledger { collection: final(self).collection, ..*old(self) }),
    {
        self.collection.set_managers(managers, now);
    }

    /// A manager's partial update of the collection; see `Collection::update_collection`.
    pub fn update_collection(&mut self, caller: &Principal, args: UpdateCollectionArg, now: u64) -> (r:
        Result<(), String>)
        requires
            old(self).wf(),
        ensures
            final(self).wf(),
            r is Err <==> (!member(old(self).collection.managers@, caller@)
                || crate::settings::raises_cap(old(self).collection.supply_cap, args.supply_cap)),
            r is Err ==> *final(self) == *old(self),
            *final(self) == (Ledger { collection: final(self).collection, ..*old(self) }),
            r is Ok ==> final(self).collection.settings == crate::settings::patched_settings(
                old(self).collection.settings,
                args,
            ),
    {
        self.collection.update_collection(caller, args, now)
    }
}

} // verus!
