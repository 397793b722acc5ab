use vstd::prelude::*;

use crate::commands::{depth_within, spec_depth_within, DepthBounds};
use crate::filter::{hidden_name, should_include_dir_entry};
use crate::matcher::{scan_model, search_file_lines};
use crate::results::{FileData, FileModel, FileSearchResult, ResultModel};

verus! {

#[verifier::external_type_specification]
#[verifier::external_body]
pub struct ExWalkDirIntoIter(walkdir::IntoIter);

#[verifier::external_type_specification]
#[verifier::external_body]
pub struct ExDirEntry(walkdir::DirEntry);

#[verifier::external_type_specification]
#[verifier::external_body]
pub struct ExWalkDirError(walkdir::Error);

/// Relies on walkdir::WalkDir: builds the iterator that enumerates the
/// filesystem entries under `root` whose depth lies between `min_depth` and
/// `max_depth` (the root itself is depth zero).  What it yields depends on
/// the state of the filesystem, so nothing is promised of it.
#[verifier::external_body]
fn walk_iter(root: &str, min_depth: usize, max_depth: usize) -> walkdir::IntoIter {
    walkdir::WalkDir::new(root).min_depth(min_depth).max_depth(max_depth).into_iter()
}

/// Relies on walkdir::IntoIter::next: yields the next filesystem entry, an
/// error for an entry that could not be read, or `None` at the end of the
/// walk.  The walk continues past an error, so an error is mapped to a unit
/// marker and the entry is skipped.
#[verifier::external_body]
fn walk_next(it: &mut walkdir::IntoIter) -> Option<Result<walkdir::DirEntry, ()>> {
    match it.next() {
        None => None,
        Some(Ok(entry)) => Some(Ok(entry)),
        Some(Err(_)) => Some(Err(())),
    }
}

/// Relies on walkdir::DirEntry::depth: how many levels below the root of
/// its walk the entry lies.
#[verifier::external_body]
fn entry_depth(entry: &walkdir::DirEntry) -> usize {
    entry.depth()
}

/// Relies on walkdir::DirEntry::file_type: whether the entry is a regular
/// file (directories and other kinds of entries are excluded from matching).
#[verifier::external_body]
fn entry_is_file(entry: &walkdir::DirEntry) -> bool {
    entry.file_type().is_file()
}

/// Relies on walkdir::DirEntry::file_name: the base name of the entry, or
/// `None` when the name is not valid Unicode.
#[verifier::external_body]
fn entry_file_name(entry: &walkdir::DirEntry) -> Option<String> {
    entry.file_name().to_str().map(|s| s.to_string())
}

/// Relies on walkdir::DirEntry::path: the full path of the entry, or `None`
/// when the path is not valid Unicode.
#[verifier::external_body]
fn entry_path(entry: &walkdir::DirEntry) -> Option<String> {
    entry.path().to_str().map(|s| s.to_string())
}

/// One file selected for scanning: its base name, its full path, and its
/// depth below the root of the walk that found it.
pub struct EntryInfo {
    pub file_name: String,
    pub file_path: String,
    pub depth: usize,
}

/// What `collect_files` guarantees of every entry it hands out: the depth
/// lies within the bounds, and a hidden file is kept only when hidden
/// entries were asked for.
pub open spec fn entry_admissible(
    name: Seq<char>,
    depth: int,
    bounds: DepthBounds,
    include_hidden_files: bool,
) -> bool {
    &&& spec_depth_within(bounds, depth)
    &&& include_hidden_files || !hidden_name(name)
}

/// Walks each root in turn and collects the regular files to scan, in
/// visitation order: for each root one depth-bounded walk, whose entries
/// pass the entry filter.  Entries that cannot be read are skipped and the
/// walk continues; an entry whose name or path is not valid Unicode keeps a
/// fixed placeholder.  Every entry handed out satisfies the depth bounds
/// and the hidden-file policy.  A single walk visits at most `usize::MAX`
/// entries.
pub fn collect_files(roots: &Vec<String>, bounds: &DepthBounds, include_hidden_files: bool) -> (r:
    Vec<EntryInfo>)
    ensures
        forall|k: int|
            0 <= k < r@.len() ==> entry_admissible(
                (#[trigger] r@[k]).file_name@,
                r@[k].depth as int,
                *bounds,
                include_hidden_files,
            ),
{
    let max_depth: usize = match bounds.max_depth {
        Some(m) => m,
        None => usize::MAX,
    };
    let mut out: Vec<EntryInfo> = Vec::new();
    let mut level: usize = 0;
    while level < roots.len()
        invariant
            forall|k: int|
                0 <= k < out@.len() ==> entry_admissible(
                    (#[trigger] out@[k]).file_name@,
                    out@[k].depth as int,
                    *bounds,
                    include_hidden_files,
                ),
            max_depth as int == match bounds.max_depth {
                Some(m) => m as int,
                None => usize::MAX as int,
            },
        decreases roots@.len() - level,
    {
        let mut it = walk_iter(roots[level].as_str(), bounds.min_depth, max_depth);
        let mut budget: usize = usize::MAX;
        while budget > 0
            invariant
                forall|k: int|
                    0 <= k < out@.len() ==> entry_admissible(
                        (#[trigger] out@[k]).file_name@,
                        out@[k].depth as int,
                        *bounds,
                        include_hidden_files,
                    ),
                max_depth as int == match bounds.max_depth {
                    Some(m) => m as int,
                    None => usize::MAX as int,
                },
            decreases budget,
        {
            budget -= 1;
            match walk_next(&mut it) {
                None => {
                    break ;
                },
                Some(Err(())) => {},
                Some(Ok(entry)) => {
                    let depth: usize = entry_depth(&entry);
                    let is_file: bool = entry_is_file(&entry);
                    let name: Option<String> = entry_file_name(&entry);
                    if should_include_dir_entry(is_file, &name, include_hidden_files)
                        && depth_within(bounds, depth) {
                        let file_name: String = match name {
                            Some(n) => n,
                            None => String::from_str("Unknown file."),
                        };
                        let file_path: String = match entry_path(&entry) {
                            Some(p) => p,
                            None => String::from_str("Unknown file path."),
                        };
                        proof {
                            reveal_strlit("Unknown file.");
                            assert(!hidden_name("Unknown file."@));
                        }
                        out.push(EntryInfo { file_name, file_path, depth });
                    }
                },
            }
        }
        level += 1;
    }
    out
}

/// The model of a whole walk's matching: the per-file scan models of the
/// files that contain the text, in the files' order.
pub open spec fn walk_model(files: Seq<FileModel>, text: Seq<char>, w: int) -> Seq<ResultModel>
    decreases files.len(),
{
    if files.len() == 0 {
        Seq::empty()
    } else {
        let prefix = walk_model(files.drop_last(), text, w);
        match scan_model(
            text,
            files.last().file_name,
            files.last().file_path,
            files.last().lines,
            w,
        ) {
            Some(r) => prefix.push(r),
            None => prefix,
        }
    }
}

/// Scans each file in order and aggregates the per-file results: exactly
/// the files with at least one matching line contribute a result, in the
/// order the files were handed in.
pub fn search_files(text: &str, context_window_size: usize, files: &Vec<FileData>) -> (r: Vec<
    FileSearchResult,
>)
    ensures
        r.deep_view() == walk_model(files.deep_view(), text@, context_window_size as int),
{
    let ghost all = files.deep_view();
    let ghost w = context_window_size as int;
    let mut out: Vec<FileSearchResult> = Vec::new();
    let mut i: usize = 0;
    proof {
        assert(all.take(0) =~= Seq::<FileModel>::empty());
    }
    while i < files.len()
        invariant
            i <= files@.len(),
            all == files.deep_view(),
            w == context_window_size as int,
            out.deep_view() =~= walk_model(all.take(i as int), text@, w),
        decreases files@.len() - i,
    {
        proof {
            assert(all.take(i + 1).drop_last() =~= all.take(i as int));
            assert(all.take(i + 1).last() == all[i as int]);
            assert(all[i as int] == files@[i as int]@);
        }
        let file_name: String = files[i].file_name.clone();
        let file_path: String = files[i].file_path.clone();
        let found = search_file_lines(
            text,
            context_window_size,
            file_name,
            file_path,
            &files[i].lines,
        );
        match found {
            Some(result) => {
                let ghost old_out = out@;
                let ghost old_dv = out.deep_view();
                out.push(result);
                proof {
                    assert forall|k: int| 0 <= k < out@.len() implies out.deep_view()[k]
                        == walk_model(all.take(i + 1), text@, w)[k] by {
                        assert(out.deep_view()[k] == out@[k].deep_view());
                        if k < old_out.len() {
                            assert(out@[k] == old_out[k]);
                            assert(old_dv[k] == old_out[k].deep_view());
                        } else {
                            assert(out@[k] == result);
                        }
                    }
                    assert(out.deep_view() =~= walk_model(all.take(i + 1), text@, w));
                }
            },
            None => {
                proof {
                    assert(out.deep_view() =~= walk_model(all.take(i + 1), text@, w));
                }
            },
        }
        i += 1;
    }
    proof {
        assert(all.take(files@.len() as int) =~= all);
    }
    out
}

/// No file without a matching line contributes a result: every result of a
/// walk records at least one occurrence.
pub proof fn lemma_results_positive(files: Seq<FileModel>, text: Seq<char>, w: int)
    ensures
        forall|j: int|
            0 <= j < walk_model(files, text, w).len() ==> (#[trigger] walk_model(
                files,
                text,
            w)[j]).number_of_occurrences >= 1,
    decreases files.len(),
{
    if files.len() > 0 {
        lemma_results_positive(files.drop_last(), text, w);
        crate::matcher::lemma_no_match_no_result(
            text,
            files.last().file_name,
            files.last().file_path,
            files.last().lines,
            w,
        );
        let prefix = walk_model(files.drop_last(), text, w);
        let whole = walk_model(files, text, w);
        assert forall|j: int| 0 <= j < whole.len() implies (
        #[trigger] whole[j]).number_of_occurrences >= 1 by {
            if j < prefix.len() {
                assert(whole[j] == prefix[j]);
            }
        }
    }
}

} // verus!
