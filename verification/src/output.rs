use vstd::prelude::*;

use crate::results::{ContextWindow, FileSearchResult, ResultModel, WindowModel};

verus! {

/// The lines that the context windows contribute to the output file: the
/// windows' lines, window after window.
pub open spec fn render_windows(ws: Seq<WindowModel>) -> Seq<Seq<char>>
    decreases ws.len(),
{
    if ws.len() == 0 {
        Seq::empty()
    } else {
        render_windows(ws.drop_last()) + ws.last().window_contents
    }
}

/// The lines of the output file: for each result the searched text, the
/// file's base name and its full path, followed by the lines of each of its
/// context windows, in result order.
pub open spec fn render_results(rs: Seq<ResultModel>) -> Seq<Seq<char>>
    decreases rs.len(),
{
    if rs.len() == 0 {
        Seq::empty()
    } else {
        render_results(rs.drop_last()) + seq![
            rs.last().found_text,
            rs.last().file_name,
            rs.last().file_path,
        ] + render_windows(rs.last().context_windows)
    }
}

/// Appends a copy of one line.
fn push_clone(dst: &mut Vec<String>, s: &String)
    ensures
        final(dst).deep_view() == old(dst).deep_view().push(s@),
{
    let ghost old_vec = dst@;
    let ghost old_dv = dst.deep_view();
    let c: String = s.clone();
    dst.push(c);
    proof {
        assert forall|q: int| 0 <= q < dst@.len() implies dst.deep_view()[q] == old_dv.push(s@)[q]
            by {
            assert(dst.deep_view()[q] == dst@[q].deep_view());
            if q < old_vec.len() {
                assert(dst@[q] == old_vec[q]);
                assert(old_dv[q] == old_vec[q].deep_view());
            }
        }
        assert(dst.deep_view() =~= old_dv.push(s@));
    }
}

/// Appends a copy of every line of `src`.
fn extend_with_clones(dst: &mut Vec<String>, src: &Vec<String>)
    ensures
        final(dst).deep_view() == old(dst).deep_view() + src.deep_view(),
{
    let ghost base = dst.deep_view();
    let mut k: usize = 0;
    proof {
        assert(base + src.deep_view().take(0) =~= base);
    }
    while k < src.len()
        invariant
            k <= src@.len(),
            dst.deep_view() =~= base + src.deep_view().take(k as int),
        decreases src@.len() - k,
    {
        push_clone(dst, &src[k]);
        proof {
            assert(src.deep_view()[k as int] == src@[k as int]@);
            assert((base + src.deep_view().take(k as int)).push(src@[k as int]@) =~= base
                + src.deep_view().take(k + 1));
        }
        k += 1;
    }
    proof {
        assert(src.deep_view().take(src@.len() as int) =~= src.deep_view());
    }
}

/// Appends the lines that the context windows contribute.
fn render_windows_into(dst: &mut Vec<String>, windows: &Vec<ContextWindow>)
    ensures
        final(dst).deep_view() == old(dst).deep_view() + render_windows(windows.deep_view()),
{
    let ghost base = dst.deep_view();
    let mut j: usize = 0;
    proof {
        assert(base + render_windows(windows.deep_view().take(0)) =~= base);
    }
    while j < windows.len()
        invariant
            j <= windows@.len(),
            base == old(dst).deep_view(),
            dst.deep_view() =~= base + render_windows(windows.deep_view().take(j as int)),
        decreases windows@.len() - j,
    {
        proof {
            assert(windows.deep_view().take(j + 1).drop_last() =~= windows.deep_view().take(
                j as int,
            ));
            assert(windows.deep_view().take(j + 1).last() == windows.deep_view()[j as int]);
            assert(windows.deep_view()[j as int] == windows@[j as int]@);
        }
        extend_with_clones(dst, &windows[j].window_contents);
        proof {
            assert(base + render_windows(windows.deep_view().take(j as int)) + windows@[j as int]@.window_contents
                =~= base + render_windows(windows.deep_view().take(j + 1)));
        }
        j += 1;
    }
    proof {
        assert(windows.deep_view().take(windows@.len() as int) =~= windows.deep_view());
    }
}

/// Renders the results as the lines destined for the output file: for each
/// result the searched text, the file's base name and its full path,
/// followed by the lines of each of its context windows.  The caller owns
/// the writing of the lines.
pub fn output_to_file(search_results: &Vec<FileSearchResult>) -> (r: Vec<String>)
    ensures
        r.deep_view() == render_results(search_results.deep_view()),
{
    let ghost all = search_results.deep_view();
    let mut out: Vec<String> = Vec::new();
    let mut i: usize = 0;
    proof {
        assert(render_results(all.take(0)) =~= Seq::<Seq<char>>::empty());
        assert(out.deep_view() =~= render_results(all.take(0)));
    }
    while i < search_results.len()
        invariant
            i <= search_results@.len(),
            all == search_results.deep_view(),
            out.deep_view() =~= render_results(all.take(i as int)),
        decreases search_results@.len() - i,
    {
        proof {
            assert(all.take(i + 1).drop_last() =~= all.take(i as int));
            assert(all.take(i + 1).last() == all[i as int]);
            assert(all[i as int] == search_results@[i as int]@);
        }
        let ghost before = out.deep_view();
        push_clone(&mut out, &search_results[i].found_text);
        push_clone(&mut out, &search_results[i].file_name);
        push_clone(&mut out, &search_results[i].file_path);
        render_windows_into(&mut out, &search_results[i].context_windows);
        proof {
            let model = search_results@[i as int]@;
            assert(before.push(model.found_text).push(model.file_name).push(model.file_path)
                =~= before + seq![model.found_text, model.file_name, model.file_path]);
            assert(out.deep_view() =~= render_results(all.take(i + 1)));
        }
        i += 1;
    }
    proof {
        assert(all.take(search_results@.len() as int) =~= all);
    }
    out
}

} // verus!
