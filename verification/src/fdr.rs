//! The grouping behind family-wise Benjamini-Hochberg correction: each
//! family of hypotheses is corrected on its own, then the rejections are
//! pooled.

use vstd::prelude::*;

use crate::text::str_eq;

verus! {

/// Whether `groups` splits the indices `0..families.len()` by family: each
/// group is a non-empty, increasing run of indices of one family, groups of
/// different families, each index in some group, groups in order of their
/// first index.
pub open spec fn groups_by_family(groups: Seq<Seq<usize>>, families: Seq<Seq<char>>) -> bool {
    &&& forall|g: int| 0 <= g < groups.len() ==> (#[trigger] groups[g]).len() > 0
    &&& forall|g: int, a: int|
        0 <= g < groups.len() && 0 <= a < groups[g].len() ==> (#[trigger] groups[g][a])
            < families.len() && families[groups[g][a] as int] == families[groups[g][0] as int]
    &&& forall|g: int, a: int, b: int|
        0 <= g < groups.len() && 0 <= a < b < groups[g].len() ==> #[trigger] groups[g][a]
            < #[trigger] groups[g][b]
    &&& forall|g: int, h: int|
        0 <= g < h < groups.len() ==> families[(#[trigger] groups[g])[0] as int]
            != families[(#[trigger] groups[h])[0] as int] && groups[g][0] < groups[h][0]
    &&& forall|i: int| 0 <= i < families.len() ==> #[trigger] in_some_group(groups, i)
}

/// Whether index `i` is in one of the groups.
pub open spec fn in_some_group(groups: Seq<Seq<usize>>, i: int) -> bool {
    exists|g: int, a: int| 0 <= g < groups.len() && 0 <= a < groups[g].len() && #[trigger] groups[g][a] == i
}

/// The views of the groups.
pub open spec fn group_views(groups: Seq<Vec<usize>>) -> Seq<Seq<usize>> {
    groups.map_values(|v: Vec<usize>| v@)
}

/// The views of the family labels.
pub open spec fn label_views(families: Seq<String>) -> Seq<Seq<char>> {
    families.map_values(|s: String| s@)
}

/// Splits the hypotheses' indices by family label, families in order of
/// first appearance.
pub fn family_groups(families: &Vec<String>) -> (groups: Vec<Vec<usize>>)
    ensures
        groups_by_family(group_views(groups@), label_views(families@)),
{
    let ghost fam = label_views(families@);
    let mut groups: Vec<Vec<usize>> = Vec::new();
    let mut i: usize = 0;
    while i < families.len()
        invariant
            fam == label_views(families@),
            fam.len() == families.len(),
            i <= families.len(),
            groups_by_family(group_views(groups@), fam.subrange(0, i as int)),
            forall|g: int, a: int|
                0 <= g < groups@.len() && 0 <= a < groups@[g]@.len() ==> #[trigger] groups@[g]@[a]
                    < i,
        decreases families.len() - i,
    {
        let ghost gv = group_views(groups@);
        let ghost sub = fam.subrange(0, i as int);
        let ghost sub1 = fam.subrange(0, i + 1);
        let ghost old_groups = groups@;
        let mut g: usize = 0;
        loop
            invariant
                fam == label_views(families@),
                fam.len() == families.len(),
                i < families.len(),
                gv == group_views(groups@),
                groups_by_family(gv, sub),
                sub == fam.subrange(0, i as int),
                g <= groups.len(),
                forall|h: int| 0 <= h < g ==> fam[(#[trigger] gv[h])[0] as int] != fam[i as int],
            ensures
                g <= groups.len(),
                forall|h: int| 0 <= h < g ==> fam[(#[trigger] gv[h])[0] as int] != fam[i as int],
                g < groups.len() ==> fam[gv[g as int][0] as int] == fam[i as int],
            decreases groups.len() - g,
        {
            if g == groups.len() {
                break;
            }
            assert(gv[g as int] == groups@[g as int]@);
            assert(gv[g as int].len() > 0);
            assert(gv[g as int][0] < sub.len());
            if str_eq(families[groups[g][0]].as_str(), families[i].as_str()) {
                break;
            }
            g = g + 1;
        }
        if g < groups.len() {
            assert(fam[gv[g as int][0] as int] == fam[i as int]);
            let mut run = groups.remove(g);
            run.push(i);
            groups.insert(g, run);
            proof {
                let nv = group_views(groups@);
                assert(nv =~= gv.update(g as int, gv[g as int].push(i)));
                assert forall|h: int, a: int|
                    0 <= h < nv.len() && 0 <= a < nv[h].len() implies (#[trigger] nv[h][a])
                    < sub1.len() && sub1[nv[h][a] as int] == sub1[nv[h][0] as int] by {
                    if h == g && a == nv[h].len() - 1 {
                        assert(nv[h][a] == i);
                        assert(nv[h][0] == gv[h][0]);
                    } else {
                        assert(nv[h][a] == gv[h][a]);
                        assert(nv[h][0] == gv[h][0]);
                        assert(gv[h][a] < sub.len());
                    }
                }
                assert forall|h: int, a: int, b: int|
                    0 <= h < nv.len() && 0 <= a < b < nv[h].len() implies #[trigger] nv[h][a]
                    < #[trigger] nv[h][b] by {
                    if h == g && b == nv[h].len() - 1 {
                        assert(nv[h][a] == gv[h][a]);
                        assert(groups@[h]@[a] < i);
                    }
                }
                assert forall|h: int, k: int| 0 <= h < k < nv.len() implies sub1[(
                #[trigger] nv[h])[0] as int] != sub1[(#[trigger] nv[k])[0] as int] && nv[h][0]
                    < nv[k][0] by {
                    assert(nv[h][0] == gv[h][0] && nv[k][0] == gv[k][0]);
                }
                assert forall|j: int| 0 <= j < sub1.len() implies #[trigger] in_some_group(nv, j) by {
                    if j == i {
                        assert(nv[g as int][nv[g as int].len() - 1] == i);
                    } else {
                        assert(in_some_group(gv, j));
                        let (h, a) = choose|h: int, a: int|
                            0 <= h < gv.len() && 0 <= a < gv[h].len() && #[trigger] gv[h][a] == j;
                        assert(nv[h][a] == gv[h][a]);
                    }
                }
                assert forall|h: int, a: int|
                    0 <= h < groups@.len() && 0 <= a < groups@[h]@.len() implies #[trigger] groups@[h]@[a]
                    < i + 1 by {
                    assert(groups@[h]@ == nv[h]);
                    if !(h == g && a == nv[h].len() - 1) {
                        assert(nv[h][a] == gv[h][a]);
                        assert(gv[h] == old_groups[h]@);
                    }
                }
            }
        } else {
            let mut single: Vec<usize> = Vec::new();
            single.push(i);
            assert(single@ =~= seq![i]);
            groups.push(single);
            proof {
                let nv = group_views(groups@);
                assert(nv =~= gv.push(seq![i]));
                assert forall|h: int, a: int|
                    0 <= h < nv.len() && 0 <= a < nv[h].len() implies (#[trigger] nv[h][a])
                    < sub1.len() && sub1[nv[h][a] as int] == sub1[nv[h][0] as int] by {
                    if h < gv.len() {
                        assert(nv[h] == gv[h]);
                        assert(gv[h][a] < sub.len());
                    }
                }
                assert forall|h: int, k: int| 0 <= h < k < nv.len() implies sub1[(
                #[trigger] nv[h])[0] as int] != sub1[(#[trigger] nv[k])[0] as int] && nv[h][0]
                    < nv[k][0] by {
                    assert(nv[h] == gv[h]);
                    assert(gv[h][0] < sub.len());
                    if k < gv.len() {
                        assert(nv[k] == gv[k]);
                    } else {
                        assert(fam[gv[h][0] as int] != fam[i as int]);
                    }
                }
                assert forall|j: int| 0 <= j < sub1.len() implies #[trigger] in_some_group(nv, j) by {
                    if j == i {
                        assert(nv[gv.len() as int][0] == i);
                    } else {
                        assert(in_some_group(gv, j));
                        let (h, a) = choose|h: int, a: int|
                            0 <= h < gv.len() && 0 <= a < gv[h].len() && #[trigger] gv[h][a] == j;
                        assert(nv[h][a] == gv[h][a]);
                    }
                }
                assert forall|h: int, a: int|
                    0 <= h < groups@.len() && 0 <= a < groups@[h]@.len() implies #[trigger] groups@[h]@[a]
                    < i + 1 by {
                    assert(groups@[h]@ == nv[h]);
                    if h < gv.len() {
                        assert(gv[h] == old_groups[h]@);
                    }
                }
            }
        }
        i = i + 1;
    }
    assert(fam.subrange(0, fam.len() as int) =~= fam);
    groups
}


/// Whether no index appears twice in the groups.
pub open spec fn distinct_indices(groups: Seq<Seq<usize>>) -> bool {
    forall|g: int, a: int, h: int, b: int|
        0 <= g < groups.len() && 0 <= a < groups[g].len() && 0 <= h < groups.len() && 0 <= b
            < groups[h].len() && (g != h || a != b) ==> #[trigger] groups[g][a]
            != #[trigger] groups[h][b]
}

/// Groups split by family never share an index.
pub proof fn lemma_family_groups_are_disjoint(groups: Seq<Seq<usize>>, families: Seq<Seq<char>>)
    requires
        groups_by_family(groups, families),
    ensures
        distinct_indices(groups),
{
    assert forall|g: int, a: int, h: int, b: int|
        0 <= g < groups.len() && 0 <= a < groups[g].len() && 0 <= h < groups.len() && 0 <= b
            < groups[h].len() && (g != h || a != b) implies #[trigger] groups[g][a]
        != #[trigger] groups[h][b] by {
        if g == h {
            if a < b {
                assert(groups[g][a] < groups[g][b]);
            } else {
                assert(groups[g][b] < groups[g][a]);
            }
        } else {
            assert(families[groups[g][a] as int] == families[groups[g][0] as int]);
            assert(families[groups[h][b] as int] == families[groups[h][0] as int]);
            if g < h {
                assert(families[groups[g][0] as int] != families[groups[h][0] as int]);
            } else {
                assert(families[groups[h][0] as int] != families[groups[g][0] as int]);
            }
        }
    }
}

/// Pools per-group rejection masks into one mask over all `n` hypotheses:
/// hypothesis `groups[g][a]` gets `masks[g][a]`; a hypothesis in no group is
/// not rejected.
pub fn pool_group_masks(n: usize, groups: &Vec<Vec<usize>>, masks: &Vec<Vec<bool>>) -> (r: Vec<bool>)
    requires
        groups.len() == masks.len(),
        forall|g: int| 0 <= g < groups.len() ==> (#[trigger] masks@[g])@.len() == groups@[g]@.len(),
        forall|g: int, a: int|
            0 <= g < groups.len() && 0 <= a < groups@[g]@.len() ==> #[trigger] groups@[g]@[a] < n,
        distinct_indices(group_views(groups@)),
    ensures
        r@.len() == n,
        forall|g: int, a: int|
            0 <= g < groups.len() && 0 <= a < groups@[g]@.len() ==> r@[#[trigger] groups@[g]@[a] as int]
                == masks@[g]@[a],
        forall|i: int| 0 <= i < n && !in_some_group(group_views(groups@), i) ==> !r@[i],
{
    let ghost gv = group_views(groups@);
    let mut r: Vec<bool> = Vec::new();
    let mut k: usize = 0;
    while k < n
        invariant
            k <= n,
            r@.len() == k,
            forall|i: int| 0 <= i < k ==> !r@[i],
        decreases n - k,
    {
        r.push(false);
        k = k + 1;
    }
    let mut g: usize = 0;
    while g < groups.len()
        invariant
            gv == group_views(groups@),
            groups.len() == masks.len(),
            forall|h: int| 0 <= h < groups.len() ==> (#[trigger] masks@[h])@.len() == groups@[h]@.len(),
            forall|h: int, a: int|
                0 <= h < groups.len() && 0 <= a < groups@[h]@.len() ==> #[trigger] groups@[h]@[a] < n,
            distinct_indices(gv),
            g <= groups.len(),
            r@.len() == n,
            forall|h: int, a: int|
                0 <= h < g && 0 <= a < groups@[h]@.len() ==> r@[#[trigger] groups@[h]@[a] as int]
                    == masks@[h]@[a],
            forall|i: int|
                0 <= i < n && !(exists|h: int, a: int|
                    0 <= h < g && 0 <= a < groups@[h]@.len() && #[trigger] groups@[h]@[a] == i)
                    ==> !r@[i],
        decreases groups.len() - g,
    {
        let run = &groups[g];
        let mask = &masks[g];
        let mut a: usize = 0;
        while a < run.len()
            invariant
                gv == group_views(groups@),
                groups.len() == masks.len(),
                forall|h: int| 0 <= h < groups.len() ==> (#[trigger] masks@[h])@.len() == groups@[h]@.len(),
                forall|h: int, b: int|
                    0 <= h < groups.len() && 0 <= b < groups@[h]@.len() ==> #[trigger] groups@[h]@[b] < n,
                run@ == groups@[g as int]@,
                mask@ == masks@[g as int]@,
                mask@.len() == run@.len(),
                forall|b: int| 0 <= b < run@.len() ==> #[trigger] run@[b] < n,
                distinct_indices(gv),
                g < groups.len(),
                a <= run.len(),
                r@.len() == n,
                forall|h: int, b: int|
                    0 <= h < g && 0 <= b < groups@[h]@.len() ==> r@[#[trigger] groups@[h]@[b] as int]
                        == masks@[h]@[b],
                forall|b: int| 0 <= b < a ==> r@[#[trigger] run@[b] as int] == mask@[b],
                forall|i: int|
                    0 <= i < n && !(exists|h: int, b: int|
                        0 <= h < g && 0 <= b < groups@[h]@.len() && #[trigger] groups@[h]@[b] == i)
                        && !(exists|b: int| 0 <= b < a && #[trigger] run@[b] == i) ==> !r@[i],
            decreases run.len() - a,
        {
            let ghost before = r@;
            r.set(run[a], mask[a]);
            proof {
                assert forall|h: int, b: int|
                    0 <= h < g && 0 <= b < groups@[h]@.len() implies r@[#[trigger] groups@[h]@[b] as int]
                    == masks@[h]@[b] by {
                    assert(gv[h] == groups@[h]@ && gv[g as int] == groups@[g as int]@);
                    assert(gv[h][b] != gv[g as int][a as int]);
                    assert(r@[groups@[h]@[b] as int] == before[groups@[h]@[b] as int]);
                }
                assert forall|b: int| 0 <= b < a + 1 implies r@[#[trigger] run@[b] as int] == mask@[b] by {
                    if b < a {
                        assert(gv[g as int] == groups@[g as int]@);
                        assert(gv[g as int][b] != gv[g as int][a as int]);
                    }
                }
                assert forall|i: int|
                    0 <= i < n && !(exists|h: int, b: int|
                        0 <= h < g && 0 <= b < groups@[h]@.len() && #[trigger] groups@[h]@[b] == i)
                        && !(exists|b: int| 0 <= b < a + 1 && #[trigger] run@[b] == i) implies !r@[i] by {
                    assert(run@[a as int] != i);
                }
            }
            a = a + 1;
        }
        proof {
            assert forall|h: int, b: int|
                0 <= h < g + 1 && 0 <= b < groups@[h]@.len() implies r@[#[trigger] groups@[h]@[b] as int]
                == masks@[h]@[b] by {
                if h == g {
                    assert(run@[b] == groups@[h]@[b]);
                }
            }
            assert forall|i: int|
                0 <= i < n && !(exists|h: int, b: int|
                    0 <= h < g + 1 && 0 <= b < groups@[h]@.len() && #[trigger] groups@[h]@[b] == i)
                    implies !r@[i] by {
                if exists|b: int| 0 <= b < run@.len() && #[trigger] run@[b] == i {
                    let b = choose|b: int| 0 <= b < run@.len() && #[trigger] run@[b] == i;
                    assert(groups@[g as int]@[b] == i);
                }
            }
        }
        g = g + 1;
    }
    proof {
        assert forall|i: int| 0 <= i < n && !in_some_group(gv, i) implies !r@[i] by {
            if exists|h: int, a: int|
                0 <= h < groups.len() && 0 <= a < groups@[h]@.len() && #[trigger] groups@[h]@[a] == i {
                let (h, a) = choose|h: int, a: int|
                    0 <= h < groups.len() && 0 <= a < groups@[h]@.len() && #[trigger] groups@[h]@[a] == i;
                assert(gv[h] == groups@[h]@);
                assert(gv[h][a] == i);
            }
        }
    }
    r
}

} // verus!
