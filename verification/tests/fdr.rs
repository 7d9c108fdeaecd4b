use superstition::fdr::{family_groups, pool_group_masks};

fn labels(v: &[&str]) -> Vec<String> {
    v.iter().map(|s| s.to_string()).collect()
}

#[test]
fn families_are_grouped_in_order_of_appearance() {
    let fam = labels(&["temporal-cyclic", "value-distribution", "temporal-cyclic", "temporal-trend", "value-distribution"]);
    let groups = family_groups(&fam);
    assert_eq!(groups, vec![vec![0, 2], vec![1, 4], vec![3]]);
    assert!(family_groups(&vec![]).is_empty());
}

#[test]
fn group_masks_are_pooled_in_original_order() {
    let groups = vec![vec![0, 2], vec![1, 4], vec![3]];
    let masks = vec![vec![true, false], vec![false, true], vec![true]];
    assert_eq!(pool_group_masks(5, &groups, &masks), vec![true, false, false, true, true]);
    assert_eq!(pool_group_masks(3, &vec![vec![1]], &vec![vec![true]]), vec![false, true, false]);
}
