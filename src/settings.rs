use vstd::prelude::*;

use crate::principal::Principal;
use crate::types::ItemCheck;

verus! {

/// Tunable limits, read by every batch operation.
#[derive(Clone, Copy, Debug, PartialEq, Eq, Structural)]
pub struct Settings {
    pub max_query_batch_size: u16,
    pub max_update_batch_size: u16,
    pub default_take_value: u16,
    pub max_take_value: u16,
    pub max_memo_size: u16,
    pub atomic_batch_transfers: bool,
    pub tx_window: u64,
    pub permitted_drift: u64,
    pub max_approvals_per_token_or_collection: u16,
    pub max_revoke_approvals: u16,
}

/// The page size a query uses: the default when none is asked for, else the
/// request capped at the maximum.
pub open spec fn take_spec(s: Settings, take: Option<u64>) -> u16 {
    match take {
        None => s.default_take_value,
        Some(t) => if t < s.max_take_value as u64 {
            t as u16
        } else {
            s.max_take_value
        },
    }
}

/// Clamps a requested page size.
pub fn take_value(settings: &Settings, take: Option<u64>) -> (r: u16)
    ensures
        r == take_spec(*settings, take),
{
    match take {
        None => settings.default_take_value,
        Some(t) => if t < settings.max_take_value as u64 {
            t as u16
        } else {
            settings.max_take_value
        },
    }
}

/// An item created at `created_at` is older than the window allows at `now`.
pub open spec fn too_old(s: Settings, now: u64, created_at: u64) -> bool {
    (created_at as int + s.tx_window as int + s.permitted_drift as int) < now as int
}

/// An item created at `created_at` lies further in the future than the drift allows.
pub open spec fn in_future(s: Settings, now: u64, created_at: u64) -> bool {
    created_at as int > now as int + s.permitted_drift as int
}

pub open spec fn check_spec(s: Settings, now: u64, created_at: Option<u64>, memo_len: nat) -> ItemCheck {
    if created_at is Some && too_old(s, now, created_at->0) {
        ItemCheck::TooOld
    } else if created_at is Some && in_future(s, now, created_at->0) {
        ItemCheck::CreatedInFuture
    } else if memo_len > s.max_memo_size as nat {
        ItemCheck::MemoTooLong
    } else {
        ItemCheck::Valid
    }
}

/// The time-window and memo checks applied to each batch item before it mutates anything.
pub fn check_item(settings: &Settings, now: u64, created_at: Option<u64>, memo_len: usize) -> (r:
    ItemCheck)
    ensures
        r == check_spec(*settings, now, created_at, memo_len as nat),
{
    if let Some(t) = created_at {
        if (t as u128) + (settings.tx_window as u128) + (settings.permitted_drift as u128) < (
        now as u128) {
            return ItemCheck::TooOld;
        }
        if (t as u128) > (now as u128) + (settings.permitted_drift as u128) {
            return ItemCheck::CreatedInFuture;
        }
    }
    if memo_len > settings.max_memo_size as usize {
        ItemCheck::MemoTooLong
    } else {
        ItemCheck::Valid
    }
}

/// Whether `p` is among `set`.
pub open spec fn member(set: Seq<Principal>, p: Seq<u8>) -> bool {
    exists|i: int| 0 <= i < set.len() && #[trigger] set[i]@ == p
}

/// Whether `p` is among `set`.
pub fn contains_principal(set: &Vec<Principal>, p: &Principal) -> (r: bool)
    ensures
        r == member(set@, p@),
{
    let mut i: usize = 0;
    while i < set.len()
        invariant
            i <= set@.len(),
            forall|k: int| 0 <= k < i ==> #[trigger] set@[k]@ != p@,
        decreases set@.len() - i,
    {
        if set[i].same(p) {
            return true;
        }
        i = i + 1;
    }
    false
}

/// The collection: a singleton holding its description, supply accounting,
/// privileged identities and settings.
#[derive(Clone, Debug)]
pub struct Collection {
    pub symbol: String,
    pub name: String,
    pub description: Option<String>,
    pub logo: Option<String>,
    pub assets_origin: Option<String>,
    pub total_supply: u64,
    pub supply_cap: Option<u64>,
    pub created_at: u64,
    pub updated_at: u64,
    pub minters: Vec<Principal>,
    pub managers: Vec<Principal>,
    pub settings: Settings,
}

/// A partial update of the collection: only the fields present change.
#[derive(Clone, Debug)]
pub struct UpdateCollectionArg {
    pub name: Option<String>,
    pub description: Option<String>,
    pub logo: Option<String>,
    pub assets_origin: Option<String>,
    pub supply_cap: Option<u64>,
    pub max_query_batch_size: Option<u16>,
    pub max_update_batch_size: Option<u16>,
    pub default_take_value: Option<u16>,
    pub max_take_value: Option<u16>,
    pub max_memo_size: Option<u16>,
    pub atomic_batch_transfers: Option<bool>,
    pub tx_window: Option<u64>,
    pub permitted_drift: Option<u64>,
    pub max_approvals_per_token_or_collection: Option<u16>,
    pub max_revoke_approvals: Option<u16>,
}

/// `new` replaces `old` where present.
pub open spec fn patch<T>(old: T, new: Option<T>) -> T {
    match new {
        Some(v) => v,
        None => old,
    }
}

/// A requested cap raises the current one.
pub open spec fn raises_cap(current: Option<u64>, requested: Option<u64>) -> bool {
    match (current, requested) {
        (Some(c), Some(r)) => r > c,
        _ => false,
    }
}

pub open spec fn patched_settings(s: Settings, a: UpdateCollectionArg) -> Settings {
    Settings {
        max_query_batch_size: patch(s.max_query_batch_size, a.max_query_batch_size),
        max_update_batch_size: patch(s.max_update_batch_size, a.max_update_batch_size),
        default_take_value: patch(s.default_take_value, a.default_take_value),
        max_take_value: patch(s.max_take_value, a.max_take_value),
        max_memo_size: patch(s.max_memo_size, a.max_memo_size),
        atomic_batch_transfers: patch(s.atomic_batch_transfers, a.atomic_batch_transfers),
        tx_window: patch(s.tx_window, a.tx_window),
        permitted_drift: patch(s.permitted_drift, a.permitted_drift),
        max_approvals_per_token_or_collection: patch(
            s.max_approvals_per_token_or_collection,
            a.max_approvals_per_token_or_collection,
        ),
        max_revoke_approvals: patch(s.max_revoke_approvals, a.max_revoke_approvals),
    }
}

/// The collection after a manager's update `a` at `now`.
pub open spec fn updated_collection(c: Collection, a: UpdateCollectionArg, now: u64) -> Collection {
    Collection {
        name: patch(c.name, a.name),
        description: match a.description {
            Some(d) => Some(d),
            None => c.description,
        },
        logo: match a.logo {
            Some(d) => Some(d),
            None => c.logo,
        },
        assets_origin: match a.assets_origin {
            Some(d) => Some(d),
            None => c.assets_origin,
        },
        supply_cap: match a.supply_cap {
            Some(d) => Some(d),
            None => c.supply_cap,
        },
        settings: patched_settings(c.settings, a),
        updated_at: now,
        ..c
    }
}

fn patch_u16(v: &mut u16, new: Option<u16>)
    ensures
        *final(v) == patch(*old(v), new),
{
    if let Some(x) = new {
        *v = x;
    }
}

fn patch_u64(v: &mut u64, new: Option<u64>)
    ensures
        *final(v) == patch(*old(v), new),
{
    if let Some(x) = new {
        *v = x;
    }
}

impl Collection {
    /// Whether `p` may manage the collection.
    pub fn is_manager(&self, p: &Principal) -> (r: bool)
        ensures
            r == member(self.managers@, p@),
    {
        contains_principal(&self.managers, p)
    }

    /// Whether `p` may mint.
    pub fn is_minter(&self, p: &Principal) -> (r: bool)
        ensures
            r == member(self.minters@, p@),
    {
        contains_principal(&self.minters, p)
    }

    /// Replaces the minters.
    pub fn set_minters(&mut self, minters: Vec<Principal>, now: u64)
        ensures
            *final(self) == (Collection { minters, updated_at: now, ..*old(self) }),
    {
        self.minters = minters;
        self.updated_at = now;
    }

    /// Replaces the managers.
    pub fn set_managers(&mut self, managers: Vec<Principal>, now: u64)
        ensures
            *final(self) == (Collection { managers, updated_at: now, ..*old(self) }),
    {
        self.managers = managers;
        self.updated_at = now;
    }

    /// Applies a manager's partial update. Fails, changing nothing, where the
    /// caller is no manager or the update would raise the supply cap.
    pub fn update_collection(&mut self, caller: &Principal, args: UpdateCollectionArg, now: u64) -> (r:
        Result<(), String>)
        ensures
            r is Err <==> (!member(old(self).managers@, caller@) || raises_cap(
                old(self).supply_cap,
                args.supply_cap,
            )),
            r is Err ==> *final(self) == *old(self),
            r is Ok ==> *final(self) == updated_collection(*old(self), args, now),
            r is Ok ==> {
                &&& final(self).updated_at == now
                &&& final(self).name == patch(old(self).name, args.name)
                &&& final(self).description == (match args.description {
                    Some(d) => Some(d),
                    None => old(self).description,
                })
                &&& final(self).logo == (match args.logo {
                    Some(d) => Some(d),
                    None => old(self).logo,
                })
                &&& final(self).assets_origin == (match args.assets_origin {
                    Some(d) => Some(d),
                    None => old(self).assets_origin,
                })
                &&& final(self).supply_cap == (match args.supply_cap {
                    Some(d) => Some(d),
                    None => old(self).supply_cap,
                })
                &&& final(self).settings == patched_settings(old(self).settings, args)
                &&& final(self).symbol == old(self).symbol
                &&& final(self).total_supply == old(self).total_supply
                &&& final(self).minters == old(self).minters
                &&& final(self).managers == old(self).managers
                &&& final(self).created_at == old(self).created_at
            },
    {
        if !self.is_manager(caller) {
            return Err("caller is not a manager".to_string());
        }
        if let Some(cap) = args.supply_cap {
            if let Some(current) = self.supply_cap {
                if cap > current {
                    return Err("supply cap can not be increased".to_string());
                }
            }
        }
        let ghost a = args;
        self.updated_at = now;
        if let Some(v) = args.name {
            self.name = v;
        }
        if let Some(v) = args.description {
            self.description = Some(v);
        }
        if let Some(v) = args.logo {
            self.logo = Some(v);
        }
        if let Some(v) = args.assets_origin {
            self.assets_origin = Some(v);
        }
        if let Some(v) = args.supply_cap {
            self.supply_cap = Some(v);
        }
        patch_u16(&mut self.settings.max_query_batch_size, args.max_query_batch_size);
        patch_u16(&mut self.settings.max_update_batch_size, args.max_update_batch_size);
        patch_u16(&mut self.settings.default_take_value, args.default_take_value);
        patch_u16(&mut self.settings.max_take_value, args.max_take_value);
        patch_u16(&mut self.settings.max_memo_size, args.max_memo_size);
        if let Some(v) = args.atomic_batch_transfers {
            self.settings.atomic_batch_transfers = v;
        }
        patch_u64(&mut self.settings.tx_window, args.tx_window);
        patch_u64(&mut self.settings.permitted_drift, args.permitted_drift);
        patch_u16(
            &mut self.settings.max_approvals_per_token_or_collection,
            args.max_approvals_per_token_or_collection,
        );
        patch_u16(&mut self.settings.max_revoke_approvals, args.max_revoke_approvals);
        Ok(())
    }
}

} // verus!
