use vstd::prelude::*;

use crate::results::{ContextWindow, FileSearchResult, ResultModel, WindowModel};

verus! {

/// The text occurs in `line` starting exactly at position `i`.
pub open spec fn contains_at(line: Seq<char>, text: Seq<char>, i: int) -> bool {
    &&& 0 <= i
    &&& i + text.len() <= line.len()
    &&& line.subrange(i, i + text.len() as int) == text
}

/// The line contains the text as a literal substring.
pub open spec fn line_contains(line: Seq<char>, text: Seq<char>) -> bool {
    exists|i: int| contains_at(line, text, i)
}

/// Checks whether `text` occurs in `line` starting at position `i`.
fn matches_at(line: &str, text: &str, i: usize) -> (r: bool)
    requires
        i + text@.len() <= line@.len(),
    ensures
        r == contains_at(line@, text@, i as int),
{
    let n: usize = line.unicode_len();
    let m: usize = text.unicode_len();
    let mut j: usize = 0;
    while j < m
        invariant
            j <= m,
            m == text@.len(),
            n == line@.len(),
            i + m <= line@.len(),
            forall|k: int| 0 <= k < j ==> line@[i + k] == text@[k],
        decreases m - j,
    {
        if line.get_char(i + j) != text.get_char(j) {
            proof {
                assert(contains_at(line@, text@, i as int) ==> line@.subrange(
                    i as int,
                    i + m as int,
                )[j as int] == text@[j as int]);
            }
            return false;
        }
        j += 1;
    }
    proof {
        assert(line@.subrange(i as int, i + m as int) =~= text@);
    }
    true
}

/// Decides literal substring containment, the match test applied to each
/// line of a scanned file.
pub fn contains_text(line: &str, text: &str) -> (r: bool)
    ensures
        r == line_contains(line@, text@),
{
    let n: usize = line.unicode_len();
    let m: usize = text.unicode_len();
    if m > n {
        proof {
            assert(forall|i: int| !contains_at(line@, text@, i));
        }
        return false;
    }
    if m == 0 {
        proof {
            assert(line@.subrange(0, 0) =~= text@);
            assert(contains_at(line@, text@, 0));
        }
        return true;
    }
    let mut i: usize = 0;
    while i <= n - m
        invariant
            1 <= m <= n,
            n == line@.len(),
            m == text@.len(),
            i <= n - m + 1,
            forall|j: int| 0 <= j < i ==> !contains_at(line@, text@, j),
        decreases n - m - i + 1,
    {
        if matches_at(line, text, i) {
            return true;
        }
        i += 1;
    }
    proof {
        assert(forall|j: int| contains_at(line@, text@, j) ==> 0 <= j <= n - m);
    }
    false
}

/// Splitting a character sequence on the newline character.  The split of an
/// empty sequence is one empty line, so the result is never empty; a final
/// newline contributes a trailing empty line.
pub open spec fn split_lines_spec(s: Seq<char>) -> Seq<Seq<char>>
    decreases s.len(),
{
    if s.len() == 0 {
        seq![Seq::<char>::empty()]
    } else if s[0] == '\n' {
        seq![Seq::<char>::empty()] + split_lines_spec(s.drop_first())
    } else {
        let rest = split_lines_spec(s.drop_first());
        seq![seq![s[0]] + rest[0]] + rest.drop_first()
    }
}

/// A split has at least one line, whatever the content.
pub proof fn lemma_split_lines_nonempty(s: Seq<char>)
    ensures
        split_lines_spec(s).len() >= 1,
    decreases s.len(),
{
    if s.len() != 0 {
        lemma_split_lines_nonempty(s.drop_first());
    }
}

/// Splits a file's content into its lines on the newline character,
/// preserving every character of every line.
pub fn split_lines(content: &str) -> (r: Vec<String>)
    ensures
        r.deep_view() == split_lines_spec(content@),
        r@.len() >= 1,
{
    let n: usize = content.unicode_len();
    let mut acc: Vec<String> = Vec::new();
    let mut start: usize = 0;
    let mut i: usize = 0;
    proof {
        lemma_split_lines_nonempty(content@);
        assert(content@.skip(0) =~= content@);
    }
    while i < n
        invariant
            start <= i <= n,
            n == content@.len(),
            split_lines_spec(content@.skip(i as int)).len() >= 1,
            split_lines_spec(content@) =~= acc.deep_view() + seq![
                content@.subrange(start as int, i as int) + split_lines_spec(
                    content@.skip(i as int),
                )[0],
            ] + split_lines_spec(content@.skip(i as int)).drop_first(),
        decreases n - i,
    {
        let c: char = content.get_char(i);
        proof {
            assert(content@.skip(i as int).drop_first() =~= content@.skip(i + 1));
            lemma_split_lines_nonempty(content@.skip(i + 1));
            assert(content@.skip(i as int)[0] == content@[i as int]);
        }
        if c == '\n' {
            let line: String = String::from_str(content.substring_char(start, i));
            let ghost old_acc = acc.deep_view();
            acc.push(line);
            proof {
                assert(acc.deep_view() =~= old_acc.push(
                    content@.subrange(start as int, i as int),
                ));
                let tail = split_lines_spec(content@.skip(i + 1));
                assert(split_lines_spec(content@) =~= acc.deep_view() + seq![
                    content@.subrange(i + 1, i + 1) + tail[0],
                ] + tail.drop_first());
            }
            start = i + 1;
        } else {
            proof {
                let tail = split_lines_spec(content@.skip(i + 1));
                assert(content@.subrange(start as int, i + 1) =~= content@.subrange(
                    start as int,
                    i as int,
                ) + seq![content@[i as int]]);
                assert(content@.subrange(start as int, i as int) + (seq![content@[i as int]]
                    + tail[0]) =~= content@.subrange(start as int, i + 1) + tail[0]);
            }
        }
        i += 1;
    }
    let line: String = String::from_str(content.substring_char(start, n));
    let ghost old_acc = acc.deep_view();
    acc.push(line);
    proof {
        assert(content@.skip(n as int) =~= Seq::<char>::empty());
        assert(acc.deep_view() =~= old_acc.push(content@.subrange(start as int, n as int)));
        assert(acc.deep_view() =~= split_lines_spec(content@));
    }
    acc
}

/// First line index of the context window around a match at line `i`:
/// `w` lines before the match, clamped at the start of the file.
pub open spec fn window_start(i: int, w: int) -> int {
    if i >= w {
        i - w
    } else {
        0
    }
}

/// One past the last line index of the context window around a match at
/// line `i` in a file of `n` lines: `w` lines after the match, clamped at
/// the end of the file.
pub open spec fn window_end(i: int, w: int, n: int) -> int {
    if i + w + 1 <= n {
        i + w + 1
    } else {
        n
    }
}

/// The lines of the context window around a match at line `i`: the half-open
/// slice `[window_start, window_end)` of the file's lines.
pub open spec fn window_of(lines: Seq<Seq<char>>, i: int, w: int) -> Seq<Seq<char>> {
    lines.subrange(window_start(i, w), window_end(i, w, lines.len() as int))
}

/// A context window always takes in the matching line itself: the window
/// spans `[window_start, window_end)`, the match lies inside that span, and
/// the line at the match's offset within the window is the matching line.
pub proof fn lemma_window_contains_match(lines: Seq<Seq<char>>, i: int, w: int)
    requires
        0 <= i < lines.len(),
        0 <= w,
    ensures
        window_start(i, w) <= i < window_end(i, w, lines.len() as int),
        window_of(lines, i, w)[i - window_start(i, w)] == lines[i],
{
}

/// The indices of the lines that contain the text, in increasing order.
pub open spec fn match_indices(lines: Seq<Seq<char>>, text: Seq<char>) -> Seq<int>
    decreases lines.len(),
{
    if lines.len() == 0 {
        Seq::empty()
    } else {
        let prefix = match_indices(lines.drop_last(), text);
        if line_contains(lines.last(), text) {
            prefix.push(lines.len() - 1)
        } else {
            prefix
        }
    }
}

/// The match indices of a file are within bounds, point at matching lines,
/// are strictly increasing, and are empty exactly when no line matches.
pub proof fn lemma_match_indices(lines: Seq<Seq<char>>, text: Seq<char>)
    ensures
        match_indices(lines, text).len() <= lines.len(),
        forall|k: int|
            0 <= k < match_indices(lines, text).len() ==> 0 <= #[trigger] match_indices(
                lines,
                text,
            )[k] < lines.len() && line_contains(lines[match_indices(lines, text)[k]], text),
        forall|k: int|
            0 < k < match_indices(lines, text).len() ==> match_indices(lines, text)[k - 1]
                < #[trigger] match_indices(lines, text)[k],
        (match_indices(lines, text).len() == 0) <==> (forall|i: int|
            0 <= i < lines.len() ==> !line_contains(#[trigger] lines[i], text)),
    decreases lines.len(),
{
    if lines.len() > 0 {
        let prefix = lines.drop_last();
        lemma_match_indices(prefix, text);
        let pm = match_indices(prefix, text);
        assert(forall|k: int|
            0 <= k < pm.len() ==> lines[#[trigger] pm[k]] == prefix[pm[k]]);
        if !line_contains(lines.last(), text) {
            if pm.len() == 0 {
                assert forall|i: int|
                    0 <= i < lines.len() implies !line_contains(#[trigger] lines[i], text) by {
                    if i < lines.len() - 1 {
                        assert(lines[i] == prefix[i]);
                        assert(!line_contains(prefix[i], text));
                    } else {
                        assert(lines[i] == lines.last());
                    }
                }
            }
        }
    }
}

/// The model of one file's scan: `None` when no line matches, otherwise a
/// result whose `k`-th context window carries occurrence number `k + 1` and
/// the window of lines around the `k`-th matching line.
pub open spec fn scan_model(
    text: Seq<char>,
    file_name: Seq<char>,
    file_path: Seq<char>,
    lines: Seq<Seq<char>>,
    w: int,
) -> Option<ResultModel> {
    let ms = match_indices(lines, text);
    if ms.len() == 0 {
        None
    } else {
        Some(
            ResultModel {
                found_text: text,
                file_name: file_name,
                file_path: file_path,
                number_of_occurrences: ms.len() as int,
                context_windows: Seq::new(
                    ms.len(),
                    |k: int|
                        WindowModel {
                            occurrence_number: k + 1,
                            window_contents: window_of(lines, ms[k], w),
                        },
                ),
            },
        )
    }
}

/// Copies the half-open slice `[start, end)` of a sequence of strings.
pub(crate) fn clone_range(lines: &Vec<String>, start: usize, end: usize) -> (r: Vec<String>)
    requires
        start <= end <= lines@.len(),
    ensures
        r.deep_view() == lines.deep_view().subrange(start as int, end as int),
{
    let mut out: Vec<String> = Vec::new();
    let mut j: usize = start;
    proof {
        assert(lines.deep_view().len() == lines@.len());
    }
    while j < end
        invariant
            start <= j <= end <= lines@.len(),
            lines.deep_view().len() == lines@.len(),
            out@.len() == j - start,
            out.deep_view() =~= lines.deep_view().subrange(start as int, j as int),
        decreases end - j,
    {
        let ghost old_out = out@;
        let ghost old_dv = out.deep_view();
        let s: String = lines[j].clone();
        out.push(s);
        proof {
            assert forall|q: int| 0 <= q < out@.len() implies out.deep_view()[q]
                == lines.deep_view().subrange(start as int, j + 1)[q] by {
                assert(out.deep_view()[q] == out@[q].deep_view());
                assert(lines.deep_view().subrange(start as int, j + 1)[q] == lines.deep_view()[start
                    + q]);
                assert(lines.deep_view()[start + q] == lines@[start + q].deep_view());
                if q < old_out.len() {
                    assert(out@[q] == old_out[q]);
                    assert(old_dv[q] == old_out[q].deep_view());
                    assert(old_dv[q] == lines.deep_view().subrange(start as int, j as int)[q]);
                } else {
                    assert(out@[q] == lines@[j as int]);
                }
            }
            assert(out.deep_view().len() == lines.deep_view().subrange(start as int, j + 1).len());
            assert(out.deep_view() =~= lines.deep_view().subrange(start as int, j + 1));
        }
        j += 1;
    }
    out
}

/// Scans the lines of one file for the text and builds the file's search
/// result: `None` when no line contains the text, otherwise the occurrence
/// count and one context window per matching line, in line order.
pub fn search_file_lines(
    text: &str,
    context_window_size: usize,
    file_name: String,
    file_path: String,
    lines: &Vec<String>,
) -> (r: Option<FileSearchResult>)
    ensures
        match r {
            Option::None => scan_model(
                text@,
                file_name@,
                file_path@,
                lines.deep_view(),
                context_window_size as int,
            ) is None,
            Option::Some(res) => Some(res@) == scan_model(
                text@,
                file_name@,
                file_path@,
                lines.deep_view(),
                context_window_size as int,
            ),
        },
{
    let ghost all = lines.deep_view();
    let ghost w = context_window_size as int;
    let n: usize = lines.len();
    let mut windows: Vec<ContextWindow> = Vec::new();
    let mut idx: usize = 0;
    proof {
        assert(all.take(0) =~= Seq::<Seq<char>>::empty());
    }
    while idx < n
        invariant
            idx <= n,
            n == lines@.len(),
            all == lines.deep_view(),
            w == context_window_size as int,
            windows@.len() == match_indices(all.take(idx as int), text@).len(),
            forall|k: int|
                0 <= k < windows@.len() ==> (#[trigger] windows.deep_view()[k]).occurrence_number
                    == k + 1 && windows.deep_view()[k].window_contents == window_of(
                    all,
                    match_indices(all.take(idx as int), text@)[k],
                    w,
                ),
        decreases n - idx,
    {
        let ghost ms = match_indices(all.take(idx as int), text@);
        proof {
            lemma_match_indices(all.take(idx as int), text@);
            assert(all.take(idx + 1).drop_last() =~= all.take(idx as int));
            assert(all.take(idx + 1).last() == all[idx as int]);
            assert(all[idx as int] == lines@[idx as int]@);
        }
        let is_match: bool = contains_text(lines[idx].as_str(), text);
        if is_match {
            let start: usize = if idx >= context_window_size {
                idx - context_window_size
            } else {
                0
            };
            let end: usize = if context_window_size <= n - 1 - idx {
                idx + context_window_size + 1
            } else {
                n
            };
            proof {
                assert(start as int == window_start(idx as int, w));
                assert(end as int == window_end(idx as int, w, n as int));
            }
            let contents: Vec<String> = clone_range(lines, start, end);
            let occurrence: u64 = (windows.len() as u64) + 1;
            let ghost old_windows = windows@;
            let ghost old_dv = windows.deep_view();
            let window = ContextWindow { occurrence_number: occurrence, window_contents: contents };
            let ghost new_model = window@;
            windows.push(window);
            proof {
                let ms2 = match_indices(all.take(idx + 1), text@);
                assert(ms2 =~= ms.push(idx as int));
                assert(new_model.window_contents == window_of(all, idx as int, w));
                assert forall|k: int|
                    0 <= k < windows@.len() implies (
                #[trigger] windows.deep_view()[k]).occurrence_number == k + 1
                    && windows.deep_view()[k].window_contents == window_of(all, ms2[k], w) by {
                    assert(windows.deep_view()[k] == windows@[k].deep_view());
                    if k < old_windows.len() {
                        assert(windows@[k] == old_windows[k]);
                        assert(old_dv[k] == old_windows[k].deep_view());
                        assert(ms2[k] == ms[k]);
                    } else {
                        assert(windows@[k] == window);
                        assert(ms2[k] == idx as int);
                    }
                }
            }
        } else {
            proof {
                assert(match_indices(all.take(idx + 1), text@) =~= ms);
            }
        }
        idx += 1;
    }
    proof {
        assert(all.take(n as int) =~= all);
    }
    if windows.len() > 0 {
        let count: u64 = windows.len() as u64;
        let result = FileSearchResult {
            found_text: String::from_str(text),
            file_name,
            file_path,
            number_of_occurrences: count,
            context_windows: windows,
        };
        proof {
            let model = scan_model(text@, result.file_name@, result.file_path@, all, w);
            assert(result@.context_windows =~= model->Some_0.context_windows);
            assert(result@ =~= model->Some_0);
        }
        Some(result)
    } else {
        None
    }
}

/// A file none of whose lines contains the text yields no result, and a
/// file that yields a result has at least one occurrence.
pub proof fn lemma_no_match_no_result(
    text: Seq<char>,
    file_name: Seq<char>,
    file_path: Seq<char>,
    lines: Seq<Seq<char>>,
    w: int,
)
    ensures
        (scan_model(text, file_name, file_path, lines, w) is None) <==> (forall|i: int|
            0 <= i < lines.len() ==> !line_contains(#[trigger] lines[i], text)),
        scan_model(text, file_name, file_path, lines, w) matches Some(r)
            ==> r.number_of_occurrences >= 1 && r.context_windows.len()
            == r.number_of_occurrences,
{
    lemma_match_indices(lines, text);
}

/// With a window size of zero, every context window consists of exactly the
/// matching line itself.
pub proof fn lemma_zero_window(
    text: Seq<char>,
    file_name: Seq<char>,
    file_path: Seq<char>,
    lines: Seq<Seq<char>>,
)
    ensures
        scan_model(text, file_name, file_path, lines, 0) matches Some(r) ==> forall|k: int|
            0 <= k < r.context_windows.len() ==> (#[trigger] r.context_windows[k]).window_contents
                =~= seq![lines[match_indices(lines, text)[k]]],
{
    lemma_match_indices(lines, text);
    let ms = match_indices(lines, text);
    if ms.len() > 0 {
        let r = scan_model(text, file_name, file_path, lines, 0)->Some_0;
        assert forall|k: int| 0 <= k < r.context_windows.len() implies (
        #[trigger] r.context_windows[k]).window_contents =~= seq![
            lines[match_indices(lines, text)[k]],
        ] by {
            let i = ms[k];
            assert(0 <= i < lines.len());
            assert(window_of(lines, i, 0) =~= seq![lines[i]]);
        }
    }
}

/// Occurrence numbers within one file's result start at one and go up by
/// one with each further matching line, so they are strictly increasing.
pub proof fn lemma_occurrence_numbers(
    text: Seq<char>,
    file_name: Seq<char>,
    file_path: Seq<char>,
    lines: Seq<Seq<char>>,
    w: int,
)
    ensures
        scan_model(text, file_name, file_path, lines, w) matches Some(r) ==> {
            &&& r.context_windows.len() >= 1
            &&& r.context_windows[0].occurrence_number == 1
            &&& forall|k: int|
                0 < k < r.context_windows.len() ==> (#[trigger] r.context_windows[k]).occurrence_number
                    == r.context_windows[k - 1].occurrence_number + 1
        },
{
}

} // verus!
