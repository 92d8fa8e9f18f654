use vstd::prelude::*;

use crate::ledger::{Ledger, Token};
use crate::token_id::{decode, TokenId};
use crate::settings::Collection;
use crate::types::{Error, MetaValue, Metadata, Standard};

verus! {

/// What a metadata value holds.
pub enum MetaView {
    Text(Seq<char>),
    Nat(u64),
    Blob(Seq<u8>),
}

impl View for MetaValue {
    type V = MetaView;

    open spec fn view(&self) -> MetaView {
        match self {
            MetaValue::Text(s) => MetaView::Text(s@),
            MetaValue::Nat(n) => MetaView::Nat(*n),
            MetaValue::Blob(b) => MetaView::Blob(b@),
        }
    }
}

/// The entries of a metadata map, as keys and values.
pub open spec fn meta_view(m: Metadata) -> Seq<(Seq<char>, MetaView)> {
    m.0@.map_values(|e: (String, MetaValue)| (e.0@, e.1@))
}

/// An entry for an optional text field, present when the field is.
pub open spec fn text_entry(key: Seq<char>, v: Option<String>) -> Seq<(Seq<char>, MetaView)> {
    match v {
        Some(s) => seq![(key, MetaView::Text(s@))],
        None => Seq::empty(),
    }
}

/// The collection's metadata: symbol, name, description and logo where set,
/// total supply, and the supply cap where set.
pub open spec fn collection_meta(c: Collection) -> Seq<(Seq<char>, MetaView)> {
    seq![("icrc7:symbol"@, MetaView::Text(c.symbol@)), ("icrc7:name"@, MetaView::Text(c.name@))]
        + text_entry("icrc7:description"@, c.description) + text_entry("icrc7:logo"@, c.logo) + seq![
        ("icrc7:total_supply"@, MetaView::Nat(c.total_supply)),
    ] + match c.supply_cap {
        Some(v) => seq![("icrc7:supply_cap"@, MetaView::Nat(v))],
        None => Seq::empty(),
    }
}

/// The approval limits, each present when non-zero.
pub open spec fn icrc37_meta(c: Collection) -> Seq<(Seq<char>, MetaView)> {
    (if c.settings.max_approvals_per_token_or_collection > 0 {
        seq![
            (
                "icrc37:max_approvals_per_token_or_collection"@,
                MetaView::Nat(c.settings.max_approvals_per_token_or_collection as u64),
            ),
        ]
    } else {
        Seq::empty()
    }) + (if c.settings.max_revoke_approvals > 0 {
        seq![("icrc37:max_revoke_approvals"@, MetaView::Nat(c.settings.max_revoke_approvals as u64))]
    } else {
        Seq::empty()
    })
}

/// `m` with `key` set to `v`: the first entry of that key replaced, or one appended.
pub open spec fn meta_set(m: Seq<(Seq<char>, MetaView)>, key: Seq<char>, v: MetaView) -> Seq<(Seq<char>, MetaView)> {
    if exists|i: int| 0 <= i < m.len() && #[trigger] m[i].0 == key {
        let i = choose|i: int|
            0 <= i < m.len() && #[trigger] m[i].0 == key && forall|j: int| 0 <= j < i ==> m[j].0 != key;
        m.update(i, (key, v))
    } else {
        m.push((key, v))
    }
}

/// A class's metadata: its own entries, then name, description where set,
/// asset name, content type and asset hash, each replacing an entry of the
/// same key.
pub open spec fn token_meta(t: Token) -> Seq<(Seq<char>, MetaView)> {
    let m0 = meta_set(meta_view(t.metadata), "icrc7:name"@, MetaView::Text(t.name@));
    let m1 = match t.description {
        Some(d) => meta_set(m0, "icrc7:description"@, MetaView::Text(d@)),
        None => m0,
    };
    let m2 = meta_set(m1, "asset_name"@, MetaView::Text(t.asset_name@));
    let m3 = meta_set(m2, "asset_content_type"@, MetaView::Text(t.asset_content_type@));
    meta_set(m3, "asset_hash"@, MetaView::Blob(t.asset_hash@))
}

/// A copy of a byte string.
pub fn copy_bytes(b: &Vec<u8>) -> (r: Vec<u8>)
    ensures
        r@ == b@,
{
    let mut v: Vec<u8> = Vec::new();
    let mut i: usize = 0;
    while i < b.len()
        invariant
            i <= b@.len(),
            v@ == b@.take(i as int),
        decreases b@.len() - i,
    {
        v.push(b[i]);
        i = i + 1;
        assert(v@ =~= b@.take(i as int));
    }
    assert(b@.take(b@.len() as int) =~= b@);
    v
}

impl MetaValue {
    /// A copy of this value.
    pub fn copy(&self) -> (r: MetaValue)
        ensures
            r@ == self@,
    {
        match self {
            MetaValue::Text(s) => MetaValue::Text(s.clone()),
            MetaValue::Nat(n) => MetaValue::Nat(*n),
            MetaValue::Blob(b) => MetaValue::Blob(copy_bytes(b)),
        }
    }
}

fn push_entry(m: &mut Metadata, key: &str, v: MetaValue)
    ensures
        meta_view(*final(m)) == meta_view(*old(m)).push((key@, v@)),
{
    m.0.push((key.to_string(), v));
    assert(meta_view(*final(m)) =~= meta_view(*old(m)).push((key@, v@)));
}

impl Metadata {
    /// A copy of these entries.
    pub fn copy(&self) -> (r: Metadata)
        ensures
            meta_view(r) == meta_view(*self),
    {
        let mut v: Vec<(String, MetaValue)> = Vec::new();
        let mut i: usize = 0;
        while i < self.0.len()
            invariant
                i <= self.0@.len(),
                v@.len() == i,
                forall|k: int| 0 <= k < i ==> (#[trigger] v@[k]).0@ == self.0@[k].0@ && v@[k].1@ == self.0@[k].1@,
            decreases self.0@.len() - i,
        {
            let e = &self.0[i];
            v.push((e.0.clone(), e.1.copy()));
            i = i + 1;
        }
        let r = Metadata(v);
        assert(meta_view(r) =~= meta_view(*self));
        r
    }

    /// Sets `key` to `v`, replacing an entry of the same key.
    pub fn set(&mut self, key: &str, v: MetaValue)
        ensures
            meta_view(*final(self)) == meta_set(meta_view(*old(self)), key@, v@),
    {
        let ghost before = meta_view(*self);
        let mut i: usize = 0;
        while i < self.0.len()
            invariant
                i <= self.0@.len(),
                before == meta_view(*self),
                before == meta_view(*old(self)),
                forall|k: int| 0 <= k < i ==> self.0@[k].0@ != key@,
            decreases self.0@.len() - i,
        {
            if string_eq(&self.0[i].0, key) {
                proof {
                    assert(before[i as int].0 == key@);
                    let j = choose|j: int|
                        0 <= j < before.len() && #[trigger] before[j].0 == key@ && forall|l: int|
                            0 <= l < j ==> before[l].0 != key@;
                    if j < i as int {
                        assert(before[j].0 == self.0@[j].0@);
                    }
                    if j > i as int {
                        assert(before[i as int].0 != key@);
                    }
                    assert(j == i as int);
                }
                self.0.set(i, (key.to_string(), v));
                assert(meta_view(*self) =~= before.update(i as int, (key@, v@)));
                return;
            }
            i = i + 1;
        }
        assert forall|k: int| 0 <= k < before.len() implies #[trigger] before[k].0 != key@ by {
            assert(before[k].0 == self.0@[k].0@);
        }
        self.0.push((key.to_string(), v));
        assert(meta_view(*self) =~= before.push((key@, v@)));
    }
}

/// Whether a string equals a literal.
fn string_eq(a: &String, b: &str) -> (r: bool)
    ensures
        r == (a@ == b@),
{
    let k = b.to_string();
    *a == k
}

impl Collection {
    /// The collection's metadata entries.
    pub fn metadata(&self) -> (r: Metadata)
        ensures
            meta_view(r) == collection_meta(*self),
    {
        let mut r = Metadata(Vec::new());
        push_entry(&mut r, "icrc7:symbol", MetaValue::Text(self.symbol.clone()));
        push_entry(&mut r, "icrc7:name", MetaValue::Text(self.name.clone()));
        if let Some(d) = &self.description {
            push_entry(&mut r, "icrc7:description", MetaValue::Text(d.clone()));
        }
        if let Some(l) = &self.logo {
            push_entry(&mut r, "icrc7:logo", MetaValue::Text(l.clone()));
        }
        push_entry(&mut r, "icrc7:total_supply", MetaValue::Nat(self.total_supply));
        if let Some(cap) = self.supply_cap {
            push_entry(&mut r, "icrc7:supply_cap", MetaValue::Nat(cap));
        }
        assert(meta_view(r) =~= collection_meta(*self));
        r
    }

    /// The approval limits as metadata entries.
    pub fn icrc37_metadata(&self) -> (r: Metadata)
        ensures
            meta_view(r) == icrc37_meta(*self),
    {
        let mut r = Metadata(Vec::new());
        if self.settings.max_approvals_per_token_or_collection > 0 {
            push_entry(
                &mut r,
                "icrc37:max_approvals_per_token_or_collection",
                MetaValue::Nat(self.settings.max_approvals_per_token_or_collection as u64),
            );
        }
        if self.settings.max_revoke_approvals > 0 {
            push_entry(
                &mut r,
                "icrc37:max_revoke_approvals",
                MetaValue::Nat(self.settings.max_revoke_approvals as u64),
            );
        }
        assert(meta_view(r) =~= icrc37_meta(*self));
        r
    }
}

impl Token {
    /// The class's metadata entries.
    pub fn metadata(&self) -> (r: Metadata)
        ensures
            meta_view(r) == token_meta(*self),
    {
        let mut r = self.metadata.copy();
        r.set("icrc7:name", MetaValue::Text(self.name.clone()));
        if let Some(d) = &self.description {
            r.set("icrc7:description", MetaValue::Text(d.clone()));
        }
        r.set("asset_name", MetaValue::Text(self.asset_name.clone()));
        r.set("asset_content_type", MetaValue::Text(self.asset_content_type.clone()));
        r.set("asset_hash", MetaValue::Blob(copy_bytes(&self.asset_hash)));
        r
    }
}

impl Ledger {
    /// The metadata of the class of each id, where it exists. Aborts where more
    /// ids are asked for than the query batch size allows.
    pub fn token_metadata(&self, ids: &Vec<u64>) -> (r: Result<Vec<Option<Metadata>>, String>)
        ensures
            r is Err <==> ids@.len() > self.collection.settings.max_query_batch_size,
            r matches Ok(v) ==> v@.len() == ids@.len() && forall|k: int|
                0 <= k < ids@.len() ==> {
                    let c = decode(ids@[k]).0 as int;
                    match #[trigger] v@[k] {
                        Some(m) => 1 <= c <= self.tokens@.len() && meta_view(m) == token_meta(
                            self.tokens@[c - 1],
                        ),
                        None => !(1 <= c <= self.tokens@.len()),
                    }
                },
    {
        if ids.len() > self.collection.settings.max_query_batch_size as usize {
            return Err("exceeds max query batch size".to_string());
        }
        let mut v: Vec<Option<Metadata>> = Vec::new();
        let mut k: usize = 0;
        while k < ids.len()
            invariant
                k <= ids@.len(),
                v@.len() == k,
                forall|j: int|
                    0 <= j < k ==> {
                        let c = decode(ids@[j]).0 as int;
                        match #[trigger] v@[j] {
                            Some(m) => 1 <= c <= self.tokens@.len() && meta_view(m) == token_meta(
                                self.tokens@[c - 1],
                            ),
                            None => !(1 <= c <= self.tokens@.len()),
                        }
                    },
            decreases ids@.len() - k,
        {
            let c = TokenId::from_u64(ids[k]).0;
            if c >= 1 && (c as usize) <= self.tokens.len() {
                v.push(Some(self.tokens[(c - 1) as usize].metadata()));
            } else {
                v.push(None);
            }
            k = k + 1;
        }
        Ok(v)
    }
}

/// The standards the ledger implements.
pub open spec fn standards() -> Seq<(Seq<char>, Seq<char>)> {
    seq![
        ("ICRC-7"@, "https://github.com/dfinity/ICRC/tree/main/ICRCs/ICRC-7"@),
        ("ICRC-37"@, "https://github.com/dfinity/ICRC/tree/main/ICRCs/ICRC-37"@),
        ("ICRC-61"@, "https://github.com/dfinity/ICRC/tree/main/ICRCs/ICRC-61"@),
    ]
}

/// The supported standards, by name and address.
pub fn supported_standards() -> (r: Vec<Standard>)
    ensures
        r@.map_values(|s: Standard| (s.name@, s.url@)) == standards(),
{
    let mut r: Vec<Standard> = Vec::new();
    r.push(
        Standard {
            name: "ICRC-7".to_string(),
            url: "https://github.com/dfinity/ICRC/tree/main/ICRCs/ICRC-7".to_string(),
        },
    );
    r.push(
        Standard {
            name: "ICRC-37".to_string(),
            url: "https://github.com/dfinity/ICRC/tree/main/ICRCs/ICRC-37".to_string(),
        },
    );
    r.push(
        Standard {
            name: "ICRC-61".to_string(),
            url: "https://github.com/dfinity/ICRC/tree/main/ICRCs/ICRC-61".to_string(),
        },
    );
    assert(r@.map_values(|s: Standard| (s.name@, s.url@)) =~= standards());
    r
}

/// Reports the standards a ledger implements.
pub trait Icrc10Trait {
    fn supported_standards(&self) -> (r: Result<Vec<Standard>, Error>)
        ensures
            r matches Ok(v) ==> v@.map_values(|s: Standard| (s.name@, s.url@)) == standards(),
    ;
}

impl Icrc10Trait for Ledger {
    fn supported_standards(&self) -> (r: Result<Vec<Standard>, Error>) {
        Ok(supported_standards())
    }
}

} // verus!
