use vstd::prelude::*;

use crate::ledger::Asset;

verus! {

/// Whether an asset with content hash `h` is stored.
pub open spec fn has_asset(s: Seq<Asset>, h: Seq<u8>) -> bool {
    exists|i: int| 0 <= i < s.len() && #[trigger] s[i].hash@ == h
}

/// The content stored under hash `h`.
pub open spec fn asset_of(s: Seq<Asset>, h: Seq<u8>) -> Option<Seq<u8>> {
    if has_asset(s, h) {
        let i = choose|i: int| 0 <= i < s.len() && #[trigger] s[i].hash@ == h;
        Some(s[i].content@)
    } else {
        None
    }
}

proof fn lemma_asset_at(s: Seq<Asset>, i: int)
    requires
        assets_wf(s),
        0 <= i < s.len(),
    ensures
        asset_of(s, s[i].hash@) == Some(s[i].content@),
{
    let h = s[i].hash@;
    let j = choose|j: int| 0 <= j < s.len() && #[trigger] s[j].hash@ == h;
    assert(j == i);
}

/// No hash is stored twice.
pub open spec fn assets_wf(s: Seq<Asset>) -> bool {
    forall|i: int, j: int| 0 <= i < s.len() && 0 <= j < s.len() && i != j ==> s[i].hash@ != s[j].hash@
}

/// The number of stored assets.
pub fn total(s: &Vec<Asset>) -> (r: u64)
    ensures
        r == s@.len(),
{
    s.len() as u64
}

/// The position of the asset with hash `h`.
pub fn find_asset(s: &Vec<Asset>, h: &[u8]) -> (r: Option<usize>)
    ensures
        r is None <==> !has_asset(s@, h@),
        r matches Some(i) ==> i < s@.len() && s@[i as int].hash@ == h@,
{
    let mut i: usize = 0;
    while i < s.len()
        invariant
            i <= s@.len(),
            forall|k: int| 0 <= k < i ==> #[trigger] s@[k].hash@ != h@,
        decreases s@.len() - i,
    {
        if crate::challenge::bytes_eq(s[i].hash.as_slice(), h) {
            return Some(i);
        }
        i = i + 1;
    }
    None
}

/// Removes the asset with hash `h`, if stored.
pub fn remove_asset(s: &mut Vec<Asset>, h: &[u8])
    requires
        assets_wf(old(s)@),
    ensures
        assets_wf(final(s)@),
        !has_asset(final(s)@, h@),
        forall|g: Seq<u8>| g != h@ ==> #[trigger] has_asset(final(s)@, g) == has_asset(old(s)@, g),
        forall|g: Seq<u8>| g != h@ ==> #[trigger] asset_of(final(s)@, g) == asset_of(old(s)@, g),
{
    match find_asset(s, h) {
        None => {},
        Some(i) => {
            let ghost before = s@;
            s.remove(i);
            assert forall|g: Seq<u8>| #[trigger] has_asset(s@, g) == (has_asset(before, g) && g != h@) by {
                if has_asset(s@, g) {
                    let k = choose|k: int| 0 <= k < s@.len() && #[trigger] s@[k].hash@ == g;
                    let k0 = if k < i { k } else { k + 1 };
                    assert(s@[k] == before[k0]);
                }
                if has_asset(before, g) && g != h@ {
                    let k = choose|k: int| 0 <= k < before.len() && #[trigger] before[k].hash@ == g;
                    if k < i {
                        assert(s@[k] == before[k]);
                    } else {
                        assert(s@[k - 1] == before[k]);
                    }
                }
            }
            assert forall|g: Seq<u8>| g != h@ implies #[trigger] asset_of(s@, g) == asset_of(before, g) by {
                if has_asset(s@, g) {
                    let k = choose|k: int| 0 <= k < s@.len() && #[trigger] s@[k].hash@ == g;
                    let k0 = if k < i { k } else { k + 1 };
                    assert(s@[k] == before[k0]);
                    lemma_asset_at(s@, k);
                    lemma_asset_at(before, k0);
                }
            }
        },
    }
}

/// Stores `content` under hash `h`, replacing what was stored under it.
pub fn put_asset(s: &mut Vec<Asset>, h: Vec<u8>, content: Vec<u8>)
    requires
        assets_wf(old(s)@),
    ensures
        assets_wf(final(s)@),
        has_asset(final(s)@, h@),
        asset_of(final(s)@, h@) == Some(content@),
        forall|g: Seq<u8>| g != h@ ==> #[trigger] has_asset(final(s)@, g) == has_asset(old(s)@, g),
        forall|g: Seq<u8>| g != h@ ==> #[trigger] asset_of(final(s)@, g) == asset_of(old(s)@, g),
{
    let ghost hv = h@;
    let ghost cv = content@;
    match find_asset(s, h.as_slice()) {
        Some(i) => {
            let ghost before = s@;
            s.set(i, Asset { hash: h, content });
            assert(s@[i as int].hash@ == hv);
            proof {
                lemma_asset_at(s@, i as int);
                assert forall|g: Seq<u8>| g != hv implies #[trigger] asset_of(s@, g) == asset_of(before, g) by {
                    if has_asset(s@, g) {
                        let k = choose|k: int| 0 <= k < s@.len() && #[trigger] s@[k].hash@ == g;
                        assert(s@[k] == before[k]);
                        lemma_asset_at(s@, k);
                        lemma_asset_at(before, k);
                    } else if has_asset(before, g) {
                        let k = choose|k: int| 0 <= k < before.len() && #[trigger] before[k].hash@ == g;
                        assert(s@[k] == before[k]);
                    }
                }
            }
            assert forall|g: Seq<u8>| g != hv implies #[trigger] has_asset(s@, g) == has_asset(before, g) by {
                if has_asset(s@, g) {
                    let k = choose|k: int| 0 <= k < s@.len() && #[trigger] s@[k].hash@ == g;
                    assert(k != i);
                    assert(s@[k] == before[k]);
                }
                if has_asset(before, g) {
                    let k = choose|k: int| 0 <= k < before.len() && #[trigger] before[k].hash@ == g;
                    assert(s@[k] == before[k]);
                }
            }
        },
        None => {
            let ghost before = s@;
            s.push(Asset { hash: h, content });
            assert(s@[before.len() as int].hash@ == hv);
            proof {
                lemma_asset_at(s@, before.len() as int);
                assert forall|g: Seq<u8>| g != hv implies #[trigger] asset_of(s@, g) == asset_of(before, g) by {
                    if has_asset(s@, g) {
                        let k = choose|k: int| 0 <= k < s@.len() && #[trigger] s@[k].hash@ == g;
                        assert(s@[k] == before[k]);
                        lemma_asset_at(s@, k);
                        lemma_asset_at(before, k);
                    } else if has_asset(before, g) {
                        let k = choose|k: int| 0 <= k < before.len() && #[trigger] before[k].hash@ == g;
                        assert(s@[k] == before[k]);
                    }
                }
            }
            assert forall|g: Seq<u8>| g != hv implies #[trigger] has_asset(s@, g) == has_asset(before, g) by {
                if has_asset(s@, g) {
                    let k = choose|k: int| 0 <= k < s@.len() && #[trigger] s@[k].hash@ == g;
                    assert(s@[k] == before[k]);
                }
                if has_asset(before, g) {
                    let k = choose|k: int| 0 <= k < before.len() && #[trigger] before[k].hash@ == g;
                    assert(s@[k] == before[k]);
                }
            }
        },
    }
}

} // verus!
