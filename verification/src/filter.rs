use vstd::prelude::*;

verus! {

/// True iff `name` begins with the hidden-file marker character.
pub open spec fn hidden_name(name: Seq<char>) -> bool {
    name.len() > 0 && name[0] == '.'
}

/// The hidden test on an entry's base name, where the name may be missing
/// (a name that is not valid Unicode): a missing name counts as not hidden.
pub open spec fn opt_hidden(name: Option<String>) -> bool {
    match name {
        Some(n) => hidden_name(n@),
        None => false,
    }
}

/// Decides whether a file whose base name is `name` is hidden:
/// hidden files are those whose name starts with a dot.
pub fn is_hidden(name: &str) -> (r: bool)
    ensures
        r == hidden_name(name@),
{
    let n: usize = name.unicode_len();
    if n == 0 {
        false
    } else {
        let c: char = name.get_char(0);
        c == '.'
    }
}

/// Decides whether a traversed entry takes part in matching: it must be a
/// regular file, and hidden files are excluded unless hidden entries were
/// asked for.  Directories are never matched, only traversed into.
pub fn should_include_dir_entry(
    is_file: bool,
    file_name: &Option<String>,
    include_hidden_files: bool,
) -> (r: bool)
    ensures
        r == (is_file && (include_hidden_files || !opt_hidden(*file_name))),
{
    if !is_file {
        return false;
    }
    if include_hidden_files {
        return true;
    }
    match file_name {
        Some(n) => !is_hidden(n.as_str()),
        None => true,
    }
}

} // verus!
