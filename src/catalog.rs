//! Building the session catalog: candidates from priority-ordered source
//! locations, stamped with their source index, deduplicated first-seen-wins
//! and numbered in order of acceptance.

use vstd::prelude::*;
use crate::entry::{DesktopEntry, same_identity, with_offset};

verus! {

/// The entries of one source, each stamped with offset `offset`.
pub open spec fn stamped(src: Seq<DesktopEntry>, offset: u64) -> Seq<DesktopEntry> {
    Seq::new(src.len(), |i: int| with_offset(src[i], offset))
}

/// All candidates of the sources in priority order, each stamped with the
/// index of its source.
pub open spec fn flatten(sources: Seq<Vec<DesktopEntry>>) -> Seq<DesktopEntry>
    decreases sources.len(),
{
    if sources.len() == 0 {
        Seq::empty()
    } else {
        flatten(sources.drop_last()) + stamped(
            sources.last()@,
            (sources.len() - 1) as u64,
        )
    }
}

/// The candidates that no earlier candidate shares an identity with, in order.
pub open spec fn dedup(c: Seq<DesktopEntry>) -> Seq<DesktopEntry>
    decreases c.len(),
{
    if c.len() == 0 {
        Seq::empty()
    } else {
        let d = dedup(c.drop_last());
        if exists|k: int| 0 <= k < d.len() && same_identity(d[k], c.last()) {
            d
        } else {
            d.push(c.last())
        }
    }
}

/// The catalog built from `sources`: the surviving entries, numbered from 0.
pub open spec fn is_catalog_of(sources: Seq<Vec<DesktopEntry>>, cat: Seq<(DesktopEntry, u64)>) -> bool {
    let d = dedup(flatten(sources));
    &&& cat.len() == d.len()
    &&& forall|k: int| #![trigger cat[k]] 0 <= k < cat.len() ==> cat[k].0 == d[k] && cat[k].1 == k
}

/// Concatenates the sources in priority order, stamping each entry with the
/// index of its source as its offset.
pub fn flatten_sources(sources: Vec<Vec<DesktopEntry>>) -> (r: Vec<DesktopEntry>)
    requires
        sources.len() <= u64::MAX,
    ensures
        r@ == flatten(sources@),
{
    let ghost orig = sources@;
    let mut sources = sources;
    let mut flat: Vec<DesktopEntry> = Vec::new();
    let mut s: usize = 0;
    let n_sources = sources.len();
    while sources.len() > 0
        invariant
            s + sources.len() == orig.len(),
            orig.len() == n_sources,
            orig.len() <= u64::MAX,
            sources@ == orig.subrange(s as int, orig.len() as int),
            flat@ == flatten(orig.subrange(0, s as int)),
        decreases sources.len(),
    {
        let mut src = sources.remove(0);
        let ghost base = flat@;
        let mut e: usize = 0;
        let n_src = src.len();
        while src.len() > 0
            invariant
                s < orig.len(),
                orig[s as int]@.len() == n_src,
                orig.len() <= u64::MAX,
                e + src.len() == orig[s as int]@.len(),
                src@ == orig[s as int]@.subrange(e as int, orig[s as int]@.len() as int),
                flat@ == base + stamped(orig[s as int]@.subrange(0, e as int), s as u64),
            decreases src.len(),
        {
            let mut item = src.remove(0);
            item.offset = s as u64;
            flat.push(item);
            e = e + 1;
            assert(flat@ =~= base + stamped(orig[s as int]@.subrange(0, e as int), s as u64));
        }
        proof {
            let pre = orig.subrange(0, s as int + 1);
            assert(pre.drop_last() =~= orig.subrange(0, s as int));
            assert(orig[s as int]@.subrange(0, e as int) =~= orig[s as int]@);
        }
        s = s + 1;
    }
    assert(orig.subrange(0, s as int) =~= orig);
    flat
}

/// Keeps the first candidate of each identity (title and command), in order,
/// and numbers the survivors from 0 in order of acceptance.
pub fn dedup_entries(mut candidates: Vec<DesktopEntry>) -> (r: Vec<(DesktopEntry, u64)>)
    ensures
        r@.len() == dedup(candidates@).len(),
        forall|k: int|
            #![trigger r@[k]]
            0 <= k < r@.len() ==> r@[k].0 == dedup(candidates@)[k] && r@[k].1 == k,
{
    let ghost orig = candidates@;
    let mut kept: Vec<(DesktopEntry, u64)> = Vec::new();
    let mut i: usize = 0;
    let n_candidates = candidates.len();
    while candidates.len() > 0
        invariant
            i + candidates.len() == orig.len(),
            orig.len() == n_candidates,
            candidates@ == orig.subrange(i as int, orig.len() as int),
            kept@.len() == dedup(orig.subrange(0, i as int)).len(),
            forall|k: int|
                #![trigger kept@[k]]
                0 <= k < kept@.len() ==> kept@[k].0 == dedup(orig.subrange(0, i as int))[k]
                    && kept@[k].1 == k,
        decreases candidates.len(),
    {
        let item = candidates.remove(0);
        let ghost d = dedup(orig.subrange(0, i as int));
        let mut found = false;
        let mut k: usize = 0;
        while k < kept.len()
            invariant
                k <= kept@.len(),
                kept@.len() == d.len(),
                forall|j: int| 0 <= j < kept@.len() ==> kept@[j].0 == d[j],
                found <==> exists|j: int| 0 <= j < k && same_identity(d[j], item),
            decreases kept.len() - k,
        {
            if kept[k].0.name == item.name && kept[k].0.command == item.command {
                found = true;
            }
            proof {
                assert(kept@[k as int].0 == d[k as int]);
                if found {
                    let w = if same_identity(d[k as int], item) {
                        k as int
                    } else {
                        choose|j: int| 0 <= j < k && same_identity(d[j], item)
                    };
                    assert(0 <= w < k + 1 && same_identity(d[w], item));
                } else {
                    assert forall|j: int| 0 <= j < k + 1 implies !same_identity(d[j], item) by {}
                }
            }
            k = k + 1;
        }
        let ghost pre = orig.subrange(0, i as int + 1);
        assert(pre.drop_last() =~= orig.subrange(0, i as int));
        assert(pre.last() == item);
        assert(dedup(pre) == if found {
            d
        } else {
            d.push(item)
        });
        if !found {
            let n = kept.len();
            kept.push((item, n as u64));
        }
        i = i + 1;
    }
    assert(orig.subrange(0, i as int) =~= orig);
    assert forall|k: int| 0 <= k < kept@.len() implies kept@[k].0 == dedup(orig)[k] && kept@[k].1
        == k by {
        assert(kept@[k].0 == dedup(orig.subrange(0, i as int))[k]);
    }
    kept
}

/// Builds the catalog from candidate entries grouped by source location,
/// highest priority first: offsets are source indices, the first candidate of
/// each identity survives, and ids count up from 0 in catalog order.
pub fn build_catalog(sources: Vec<Vec<DesktopEntry>>) -> (r: Vec<(DesktopEntry, u64)>)
    requires
        sources.len() <= u64::MAX,
    ensures
        is_catalog_of(sources@, r@),
{
    let flat = flatten_sources(sources);
    dedup_entries(flat)
}

/// Offsets in the flattened candidates are source indices, in
/// non-decreasing order.
proof fn lemma_flatten_offsets(sources: Seq<Vec<DesktopEntry>>)
    requires
        sources.len() <= u64::MAX,
    ensures
        forall|p: int| 0 <= p < flatten(sources).len() ==> (flatten(sources)[p].offset as int) < sources.len(),
        forall|p: int, q: int|
            0 <= p < q < flatten(sources).len() ==> flatten(sources)[p].offset <= flatten(sources)[q].offset,
    decreases sources.len(),
{
    if sources.len() > 0 {
        lemma_flatten_offsets(sources.drop_last());
        let f0 = flatten(sources.drop_last());
        assert forall|p: int| 0 <= p < flatten(sources).len() implies (flatten(sources)[p].offset as int)
            < sources.len() by {
            if p >= f0.len() {
            }
        }
    }
}

/// The kept candidates share no identity with each other.
proof fn lemma_dedup_distinct(c: Seq<DesktopEntry>)
    ensures
        forall|a: int, b: int|
            0 <= a < b < dedup(c).len() ==> !same_identity(dedup(c)[a], dedup(c)[b]),
    decreases c.len(),
{
    if c.len() > 0 {
        let d = dedup(c.drop_last());
        lemma_dedup_distinct(c.drop_last());
        assert forall|a: int, b: int| 0 <= a < b < dedup(c).len() implies !same_identity(
            dedup(c)[a],
            dedup(c)[b],
        ) by {
            if b < d.len() {
                assert(dedup(c)[a] == d[a] && dedup(c)[b] == d[b]);
            } else {
                assert(dedup(c)[a] == d[a]);
                assert(dedup(c)[b] == c.last());
            }
        }
    }
}

/// Every candidate shares its identity with some kept candidate.
proof fn lemma_dedup_covers(c: Seq<DesktopEntry>, i: int)
    requires
        0 <= i < c.len(),
    ensures
        exists|k: int| 0 <= k < dedup(c).len() && same_identity(dedup(c)[k], c[i]),
    decreases c.len(),
{
    let d = dedup(c.drop_last());
    if i == c.len() - 1 {
        if exists|k: int| 0 <= k < d.len() && same_identity(d[k], c.last()) {
            let k = choose|k: int| 0 <= k < d.len() && same_identity(d[k], c.last());
            assert(dedup(c)[k] == d[k]);
            assert(same_identity(dedup(c)[k], c[i]));
        } else {
            assert(dedup(c)[d.len() as int] == c[i]);
            assert(same_identity(dedup(c)[d.len() as int], c[i]));
        }
    } else {
        lemma_dedup_covers(c.drop_last(), i);
        let k = choose|k: int| 0 <= k < d.len() && same_identity(d[k], c.drop_last()[i]);
        assert(dedup(c)[k] == d[k]);
        assert(same_identity(dedup(c)[k], c[i]));
    }
}

/// Every kept candidate is the first candidate of its identity.
proof fn lemma_dedup_first(c: Seq<DesktopEntry>, k: int)
    requires
        0 <= k < dedup(c).len(),
    ensures
        exists|m: int|
            0 <= m < c.len() && dedup(c)[k] == c[m] && forall|j: int|
                0 <= j < m ==> !same_identity(#[trigger] c[j], c[m]),
    decreases c.len(),
{
    let c0 = c.drop_last();
    let d = dedup(c0);
    if k < d.len() {
        lemma_dedup_first(c0, k);
        let m = choose|m: int|
            0 <= m < c0.len() && d[k] == c0[m] && forall|j: int|
                0 <= j < m ==> !same_identity(#[trigger] c0[j], c0[m]);
        assert forall|j: int| 0 <= j < m implies !same_identity(#[trigger] c[j], c[m]) by {
            assert(c[j] == c0[j]);
        }
    } else {
        let m = c.len() - 1;
        assert forall|j: int| 0 <= j < m implies !same_identity(#[trigger] c[j], c[m]) by {
            if same_identity(c[j], c[m]) {
                lemma_dedup_covers(c0, j);
                let k2 = choose|k2: int| 0 <= k2 < d.len() && same_identity(d[k2], c0[j]);
                assert(same_identity(d[k2], c.last()));
            }
        }
    }
}

/// Of two candidates that share a title and command but carry different
/// offsets, exactly one catalog entry has that identity: the first candidate
/// of the identity, whose offset is no greater than the lower of the two.
pub proof fn lemma_duplicate_keeps_lowest_offset(
    sources: Seq<Vec<DesktopEntry>>,
    cat: Seq<(DesktopEntry, u64)>,
    p: int,
    q: int,
)
    requires
        sources.len() <= u64::MAX,
        is_catalog_of(sources, cat),
        0 <= p < flatten(sources).len(),
        0 <= q < flatten(sources).len(),
        same_identity(flatten(sources)[p], flatten(sources)[q]),
        flatten(sources)[p].offset < flatten(sources)[q].offset,
    ensures
        exists|k: int, m: int|
            0 <= k < cat.len() && 0 <= m <= p && cat[k].0 == flatten(sources)[m] && same_identity(
                cat[k].0,
                flatten(sources)[p],
            ) && cat[k].0.offset <= flatten(sources)[p].offset,
        forall|k1: int, k2: int|
            0 <= k1 < cat.len() && 0 <= k2 < cat.len() && same_identity(cat[k1].0, flatten(sources)[p])
                && same_identity(cat[k2].0, flatten(sources)[p]) ==> k1 == k2,
{
    let c = flatten(sources);
    let d = dedup(c);
    lemma_flatten_offsets(sources);
    lemma_dedup_distinct(c);
    lemma_dedup_covers(c, p);
    let k = choose|k: int| 0 <= k < d.len() && same_identity(d[k], c[p]);
    lemma_dedup_first(c, k);
    let m = choose|m: int|
        0 <= m < c.len() && d[k] == c[m] && forall|j: int| 0 <= j < m ==> !same_identity(#[trigger] c[j], c[m]);
    if m > p {
        assert(!same_identity(c[p], c[m]));
    }
    assert(cat[k].0 == d[k]);
    assert forall|k1: int, k2: int|
        0 <= k1 < cat.len() && 0 <= k2 < cat.len() && same_identity(cat[k1].0, c[p]) && same_identity(
            cat[k2].0,
            c[p],
        ) implies k1 == k2 by {
        assert(cat[k1].0 == d[k1]);
        assert(cat[k2].0 == d[k2]);
        if k1 < k2 {
            assert(!same_identity(d[k1], d[k2]));
        } else if k2 < k1 {
            assert(!same_identity(d[k2], d[k1]));
        }
    }
}

} // verus!
