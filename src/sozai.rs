//! The index of pre-recorded sound clips: each asset is played for any of its
//! names.

use vstd::prelude::*;

verus! {

/// One pre-recorded clip of the asset index.
pub struct Asset {
    pub hash: String,
    pub id: String,
    pub names: Vec<String>,
    pub namespaces: Vec<String>,
    pub path: String,
    pub url: String,
}

/// The (name, url) pairs that one asset contributes, in the order of its names.
pub open spec fn asset_pairs(a: Asset) -> Seq<(Seq<char>, Seq<char>)> {
    a.names@.map_values(|n: String| (n@, a.url@))
}

/// The (name, url) pairs of all assets, asset after asset.
pub open spec fn index_pairs(assets: Seq<Asset>) -> Seq<(Seq<char>, Seq<char>)>
    decreases assets.len(),
{
    if assets.len() == 0 {
        Seq::empty()
    } else {
        index_pairs(assets.drop_last()) + asset_pairs(assets.last())
    }
}

pub open spec fn pairs_view(v: Seq<(String, String)>) -> Seq<(Seq<char>, Seq<char>)> {
    v.map_values(|p: (String, String)| (p.0@, p.1@))
}

/// The name-to-url entries of the index, in the order in which they are to
/// be stored: a later entry for the same name replaces an earlier one.
pub fn index_entries(assets: &Vec<Asset>) -> (r: Vec<(String, String)>)
    ensures
        pairs_view(r@) == index_pairs(assets@),
{
    let mut r: Vec<(String, String)> = Vec::new();
    let mut i: usize = 0;
    while i < assets.len()
        invariant
            i <= assets@.len(),
            pairs_view(r@) == index_pairs(assets@.take(i as int)),
        decreases assets@.len() - i,
    {
        let a = &assets[i];
        let ghost base = r@;
        let mut k: usize = 0;
        while k < a.names.len()
            invariant
                i < assets@.len(),
                *a == assets@[i as int],
                k <= a.names@.len(),
                r@.len() == base.len() + k,
                r@.take(base.len() as int) == base,
                pairs_view(r@.skip(base.len() as int)) == asset_pairs(*a).take(k as int),
            decreases a.names@.len() - k,
        {
            let ghost before = r@;
            r.push((a.names[k].clone(), a.url.clone()));
            assert(r@.take(base.len() as int) =~= before.take(base.len() as int));
            assert(pairs_view(r@.skip(base.len() as int)) =~= asset_pairs(*a).take(k + 1)) by {
                assert(r@.skip(base.len() as int) =~= before.skip(base.len() as int).push(r@.last()));
            }
            k = k + 1;
        }
        proof {
            assert(assets@.take(i + 1).drop_last() =~= assets@.take(i as int));
            assert(assets@.take(i + 1).last() == assets@[i as int]);
            assert(asset_pairs(*a).take(k as int) =~= asset_pairs(*a));
            assert(r@ =~= base + r@.skip(base.len() as int));
            assert(pairs_view(r@) =~= pairs_view(base) + pairs_view(r@.skip(base.len() as int)));
        }
        i = i + 1;
    }
    assert(assets@.take(assets@.len() as int) =~= assets@);
    r
}

} // verus!
