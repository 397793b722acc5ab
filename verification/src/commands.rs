use vstd::prelude::*;

use crate::matcher::clone_range;

verus! {

/// The options of one search, as the command line hands them over.
pub struct Cli {
    pub text: String,
    pub search_direction: SearchDirection,
    pub context_window_size: usize,
    pub no_highlight: bool,
    pub include_hidden_files: bool,
    pub output_file: bool,
}

/// A runnable command; the presentation layer implements it for the
/// commands it offers.
pub trait CommandTrait {
    fn execute(&self);
}

/// The logical traversal mode: which directories relative to the root are
/// scanned.
#[derive(Clone, Copy, Debug, PartialEq, Eq)]
pub enum SearchDirection {
    /// Only the root directory itself, without descending.
    Here,
    /// The root directory and everything below it.
    HereAndBelow,
    /// The ancestor directories of the root, one non-recursive scan per
    /// level, nearest ancestor first; the root itself is skipped.
    HereAndAbove,
    /// The root directory and its ancestors, one non-recursive scan per
    /// level, the root first, then the nearest ancestor, and so on upward.
    HereAndAboveInclusive,
    /// Everything strictly below the first level under the root.
    EverywhereUnderRoot,
}

/// The depth limits of one downward walk; the root itself is depth zero and
/// `None` means unbounded depth.
#[derive(Clone, Copy, Debug, PartialEq, Eq)]
pub struct DepthBounds {
    pub min_depth: usize,
    pub max_depth: Option<usize>,
}

/// The depth bounds that realize each direction as one walk per scanned
/// level: the upward directions scan each of their levels non-recursively.
pub open spec fn spec_resolve(direction: SearchDirection) -> DepthBounds {
    match direction {
        SearchDirection::Here => DepthBounds { min_depth: 1, max_depth: Some(1) },
        SearchDirection::HereAndBelow => DepthBounds { min_depth: 1, max_depth: None },
        SearchDirection::HereAndAbove => DepthBounds { min_depth: 1, max_depth: Some(1) },
        SearchDirection::HereAndAboveInclusive => DepthBounds { min_depth: 1, max_depth: Some(1) },
        SearchDirection::EverywhereUnderRoot => DepthBounds { min_depth: 2, max_depth: None },
    }
}

/// True of the directions that walk up the parent chain instead of down
/// into the tree.
pub open spec fn spec_is_upward(direction: SearchDirection) -> bool {
    match direction {
        SearchDirection::HereAndAbove => true,
        SearchDirection::HereAndAboveInclusive => true,
        _ => false,
    }
}

/// Maps a direction onto the depth bounds of the walks that realize it.
pub fn resolve(direction: &SearchDirection) -> (r: DepthBounds)
    ensures
        r == spec_resolve(*direction),
{
    match direction {
        SearchDirection::Here => DepthBounds { min_depth: 1, max_depth: Some(1) },
        SearchDirection::HereAndBelow => DepthBounds { min_depth: 1, max_depth: None },
        SearchDirection::HereAndAbove => DepthBounds { min_depth: 1, max_depth: Some(1) },
        SearchDirection::HereAndAboveInclusive => DepthBounds { min_depth: 1, max_depth: Some(1) },
        SearchDirection::EverywhereUnderRoot => DepthBounds { min_depth: 2, max_depth: None },
    }
}

/// A depth lies within the bounds: at least the minimum, and at most the
/// maximum where one is set.
pub open spec fn spec_depth_within(bounds: DepthBounds, depth: int) -> bool {
    &&& bounds.min_depth <= depth
    &&& match bounds.max_depth {
        Some(m) => depth <= m,
        None => true,
    }
}

/// Decides whether an entry at `depth` falls within the bounds of the walk:
/// entries outside the bounds take no part in matching.
pub fn depth_within(bounds: &DepthBounds, depth: usize) -> (r: bool)
    ensures
        r == spec_depth_within(*bounds, depth as int),
{
    if depth < bounds.min_depth {
        return false;
    }
    match bounds.max_depth {
        Some(m) => depth <= m,
        None => true,
    }
}

/// The depths that each downward direction admits: scanning here keeps
/// exactly the root's direct children; here-and-below keeps every depth
/// below the root; everywhere-under-root starts one level further down.
/// No direction ever admits depth zero, so the root directory itself is
/// never treated as a file to match.
pub proof fn lemma_direction_depths(depth: int)
    ensures
        spec_depth_within(spec_resolve(SearchDirection::Here), depth) <==> depth == 1,
        spec_depth_within(spec_resolve(SearchDirection::HereAndBelow), depth) <==> depth >= 1,
        spec_depth_within(spec_resolve(SearchDirection::EverywhereUnderRoot), depth) <==> depth
            >= 2,
        forall|direction: SearchDirection| !spec_depth_within(spec_resolve(direction), 0),
{
}

/// Whether the direction scans the parent chain of the root.
pub fn is_upward(direction: &SearchDirection) -> (r: bool)
    ensures
        r == spec_is_upward(*direction),
{
    match direction {
        SearchDirection::HereAndAbove => true,
        SearchDirection::HereAndAboveInclusive => true,
        _ => false,
    }
}

/// Selects the directories that a direction scans, one walk each, from the
/// parent chain of the root (the root first, then its parent, and so on):
/// the upward-inclusive direction scans the whole chain, the upward
/// direction skips the root, and every downward direction scans the root
/// alone, in one walk whose bounds `resolve` gives.
pub fn levels_for(direction: &SearchDirection, chain: &Vec<String>) -> (r: Vec<String>)
    requires
        chain@.len() >= 1,
    ensures
        spec_is_upward(*direction) ==> match *direction {
            SearchDirection::HereAndAboveInclusive => r.deep_view() == chain.deep_view(),
            _ => r.deep_view() == chain.deep_view().drop_first(),
        },
        !spec_is_upward(*direction) ==> r.deep_view() == seq![chain.deep_view()[0]],
{
    match direction {
        SearchDirection::HereAndAboveInclusive => {
            let r = clone_range(chain, 0, chain.len());
            proof {
                assert(chain.deep_view().subrange(0, chain@.len() as int) =~= chain.deep_view());
            }
            r
        },
        SearchDirection::HereAndAbove => {
            let r = clone_range(chain, 1, chain.len());
            proof {
                assert(chain.deep_view().subrange(1, chain@.len() as int)
                    =~= chain.deep_view().drop_first());
            }
            r
        },
        _ => {
            let r = clone_range(chain, 0, 1);
            proof {
                assert(chain.deep_view().subrange(0, 1) =~= seq![chain.deep_view()[0]]);
            }
            r
        },
    }
}

} // verus!
