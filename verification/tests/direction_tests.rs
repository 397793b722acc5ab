use string_seeker::commands::{depth_within, is_upward, levels_for, resolve, DepthBounds, SearchDirection};

fn mk_chain(xs: &[&str]) -> Vec<String> {
    let mut v: Vec<String> = Vec::new();
    for x in xs {
        v.push(x.to_string());
    }
    v
}

#[test]
fn resolve_here_is_one_level() {
    let b = resolve(&SearchDirection::Here);
    assert_eq!(b, DepthBounds { min_depth: 1, max_depth: Some(1) });
}

#[test]
fn resolve_here_and_below_is_unbounded() {
    let b = resolve(&SearchDirection::HereAndBelow);
    assert_eq!(b, DepthBounds { min_depth: 1, max_depth: None });
}

#[test]
fn resolve_everywhere_under_root_skips_first_level() {
    let b = resolve(&SearchDirection::EverywhereUnderRoot);
    assert_eq!(b, DepthBounds { min_depth: 2, max_depth: None });
    assert!(!depth_within(&b, 0));
    assert!(!depth_within(&b, 1));
    assert!(depth_within(&b, 2));
    assert!(depth_within(&b, 9));
}

#[test]
fn resolve_upward_directions_scan_one_level_each() {
    assert_eq!(resolve(&SearchDirection::HereAndAbove), DepthBounds { min_depth: 1, max_depth: Some(1) });
    assert_eq!(
        resolve(&SearchDirection::HereAndAboveInclusive),
        DepthBounds { min_depth: 1, max_depth: Some(1) }
    );
}

#[test]
fn upward_predicate() {
    assert!(is_upward(&SearchDirection::HereAndAbove));
    assert!(is_upward(&SearchDirection::HereAndAboveInclusive));
    assert!(!is_upward(&SearchDirection::Here));
    assert!(!is_upward(&SearchDirection::HereAndBelow));
    assert!(!is_upward(&SearchDirection::EverywhereUnderRoot));
}

#[test]
fn here_keeps_only_direct_children() {
    let b = resolve(&SearchDirection::Here);
    assert!(!depth_within(&b, 0));
    assert!(depth_within(&b, 1));
    assert!(!depth_within(&b, 2));
}

#[test]
fn here_and_below_keeps_all_depths_below_root() {
    let b = resolve(&SearchDirection::HereAndBelow);
    assert!(!depth_within(&b, 0));
    assert!(depth_within(&b, 1));
    assert!(depth_within(&b, 2));
    assert!(depth_within(&b, 17));
}

#[test]
fn levels_for_inclusive_takes_whole_chain() {
    let chain = mk_chain(&["/a/b", "/a", "/"]);
    let levels = levels_for(&SearchDirection::HereAndAboveInclusive, &chain);
    assert_eq!(levels, mk_chain(&["/a/b", "/a", "/"]));
}

#[test]
fn levels_for_upward_skips_the_root() {
    let chain = mk_chain(&["/a/b", "/a", "/"]);
    let levels = levels_for(&SearchDirection::HereAndAbove, &chain);
    assert_eq!(levels, mk_chain(&["/a", "/"]));
}

#[test]
fn levels_for_downward_keeps_the_root_alone() {
    let chain = mk_chain(&["/a/b", "/a", "/"]);
    let levels = levels_for(&SearchDirection::HereAndBelow, &chain);
    assert_eq!(levels, mk_chain(&["/a/b"]));
}
