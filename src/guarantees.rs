//! What every selection guarantees, whatever the candidates and draws.

use crate::pattern::ci_pattern_matches;
use crate::scan::{in_scope, name_passes, selected, selection, FileCandidate};
use vstd::prelude::*;

verus! {

/// `path` is the path of a candidate that was selected with its draw.
pub open spec fn path_of_selected(
    pattern: Seq<char>,
    cands: Seq<FileCandidate>,
    recursive: bool,
    time_filter: bool,
    now: Option<u64>,
    draws: Seq<u64>,
    path: String,
) -> bool {
    exists|i: int|
        0 <= i < cands.len() && #[trigger] selected(pattern, cands[i], recursive, time_filter, now, draws[i])
            && cands[i].path == Some(path)
}

/// `path` is the path of a candidate whose base name the pattern matches.
pub open spec fn path_of_matching_name(pattern: Seq<char>, cands: Seq<FileCandidate>, path: String) -> bool {
    exists|i: int|
        0 <= i < cands.len() && (#[trigger] cands[i]).path == Some(path) && (cands[i].name matches Some(n)
            && ci_pattern_matches(pattern, n@))
}

/// `path` is the path of a candidate that is a regular file.
pub open spec fn path_of_file(cands: Seq<FileCandidate>, path: String) -> bool {
    exists|i: int| 0 <= i < cands.len() && (#[trigger] cands[i]).path == Some(path) && cands[i].is_file
}

/// `path` is the path of a candidate at most one level below the root.
pub open spec fn path_at_top(cands: Seq<FileCandidate>, path: String) -> bool {
    exists|i: int| 0 <= i < cands.len() && (#[trigger] cands[i]).path == Some(path) && cands[i].depth <= 1
}

/// Every selected path is the path of a candidate that was selected.
pub proof fn lemma_selection_provenance(
    pattern: Seq<char>,
    cands: Seq<FileCandidate>,
    recursive: bool,
    time_filter: bool,
    now: Option<u64>,
    draws: Seq<u64>,
)
    requires
        draws.len() == cands.len(),
    ensures
        forall|j: int|
            0 <= j < selection(pattern, cands, recursive, time_filter, now, draws).len()
                ==> path_of_selected(
                pattern,
                cands,
                recursive,
                time_filter,
                now,
                draws,
                #[trigger] selection(pattern, cands, recursive, time_filter, now, draws)[j],
            ),
    decreases cands.len(),
{
    if cands.len() > 0 {
        let k = cands.len() - 1;
        let front = cands.drop_last();
        let fd = draws.take(k);
        lemma_selection_provenance(pattern, front, recursive, time_filter, now, fd);
        let sel = selection(pattern, cands, recursive, time_filter, now, draws);
        let before = selection(pattern, front, recursive, time_filter, now, fd);
        assert forall|j: int| 0 <= j < sel.len() implies path_of_selected(
            pattern,
            cands,
            recursive,
            time_filter,
            now,
            draws,
            #[trigger] sel[j],
        ) by {
            if j < before.len() {
                assert(path_of_selected(pattern, front, recursive, time_filter, now, fd, before[j]));
                let i = choose|i: int|
                    0 <= i < front.len() && #[trigger] selected(pattern, front[i], recursive, time_filter, now, fd[i])
                        && front[i].path == Some(before[j]);
                assert(front[i] == cands[i] && fd[i] == draws[i]);
                assert(selected(pattern, cands[i], recursive, time_filter, now, draws[i]));
            } else {
                assert(selected(pattern, cands[k], recursive, time_filter, now, draws[k]));
            }
        }
    }
}

/// Every selected path belongs to a candidate whose base name the pattern
/// matches (case-insensitively).
pub proof fn lemma_selected_names_match(
    pattern: Seq<char>,
    cands: Seq<FileCandidate>,
    recursive: bool,
    time_filter: bool,
    now: Option<u64>,
    draws: Seq<u64>,
)
    requires
        draws.len() == cands.len(),
    ensures
        forall|j: int|
            0 <= j < selection(pattern, cands, recursive, time_filter, now, draws).len()
                ==> path_of_matching_name(
                pattern,
                cands,
                #[trigger] selection(pattern, cands, recursive, time_filter, now, draws)[j],
            ),
{
    lemma_selection_provenance(pattern, cands, recursive, time_filter, now, draws);
    let sel = selection(pattern, cands, recursive, time_filter, now, draws);
    assert forall|j: int| 0 <= j < sel.len() implies path_of_matching_name(pattern, cands, #[trigger] sel[j]) by {
        assert(path_of_selected(pattern, cands, recursive, time_filter, now, draws, sel[j]));
        let i = choose|i: int|
            0 <= i < cands.len() && #[trigger] selected(pattern, cands[i], recursive, time_filter, now, draws[i])
                && cands[i].path == Some(sel[j]);
        assert(name_passes(pattern, cands[i]));
    }
}

/// Every selected path belongs to a regular file: no directory is selected.
pub proof fn lemma_selected_are_files(
    pattern: Seq<char>,
    cands: Seq<FileCandidate>,
    recursive: bool,
    time_filter: bool,
    now: Option<u64>,
    draws: Seq<u64>,
)
    requires
        draws.len() == cands.len(),
    ensures
        forall|j: int|
            0 <= j < selection(pattern, cands, recursive, time_filter, now, draws).len() ==> path_of_file(
                cands,
                #[trigger] selection(pattern, cands, recursive, time_filter, now, draws)[j],
            ),
{
    lemma_selection_provenance(pattern, cands, recursive, time_filter, now, draws);
    let sel = selection(pattern, cands, recursive, time_filter, now, draws);
    assert forall|j: int| 0 <= j < sel.len() implies path_of_file(cands, #[trigger] sel[j]) by {
        assert(path_of_selected(pattern, cands, recursive, time_filter, now, draws, sel[j]));
        let i = choose|i: int|
            0 <= i < cands.len() && #[trigger] selected(pattern, cands[i], recursive, time_filter, now, draws[i])
                && cands[i].path == Some(sel[j]);
        assert(in_scope(cands[i], recursive));
    }
}

/// A flat scan selects no path from inside a subdirectory of the root: each
/// comes from an entry at most one level below it.
pub proof fn lemma_flat_scan_stays_at_top(
    pattern: Seq<char>,
    cands: Seq<FileCandidate>,
    time_filter: bool,
    now: Option<u64>,
    draws: Seq<u64>,
)
    requires
        draws.len() == cands.len(),
    ensures
        forall|j: int|
            0 <= j < selection(pattern, cands, false, time_filter, now, draws).len() ==> path_at_top(
                cands,
                #[trigger] selection(pattern, cands, false, time_filter, now, draws)[j],
            ),
{
    lemma_selection_provenance(pattern, cands, false, time_filter, now, draws);
    let sel = selection(pattern, cands, false, time_filter, now, draws);
    assert forall|j: int| 0 <= j < sel.len() implies path_at_top(cands, #[trigger] sel[j]) by {
        assert(path_of_selected(pattern, cands, false, time_filter, now, draws, sel[j]));
        let i = choose|i: int|
            0 <= i < cands.len() && #[trigger] selected(pattern, cands[i], false, time_filter, now, draws[i])
                && cands[i].path == Some(sel[j]);
        assert(in_scope(cands[i], false));
    }
}

/// A recursive scan without age bias selects every regular file whose name
/// matches and whose path is valid text, at whatever depth it lies.
pub proof fn lemma_recursive_scan_reaches_every_depth(
    pattern: Seq<char>,
    cands: Seq<FileCandidate>,
    now: Option<u64>,
    draws: Seq<u64>,
    i: int,
)
    requires
        draws.len() == cands.len(),
        0 <= i < cands.len(),
        cands[i].is_file,
        name_passes(pattern, cands[i]),
        cands[i].path is Some,
    ensures
        selection(pattern, cands, true, false, now, draws).contains(cands[i].path->Some_0),
    decreases cands.len(),
{
    let k = cands.len() - 1;
    let sel = selection(pattern, cands, true, false, now, draws);
    if i == k {
        assert(sel.last() == cands[i].path->Some_0);
    } else {
        let front = cands.drop_last();
        let fd = draws.take(k);
        assert(front[i] == cands[i]);
        lemma_recursive_scan_reaches_every_depth(pattern, front, now, fd, i);
        let before = selection(pattern, front, true, false, now, fd);
        let j = choose|j: int| 0 <= j < before.len() && before[j] == cands[i].path->Some_0;
        assert(sel[j] == before[j]);
    }
}

/// Without age bias the selection depends on neither the clock nor the
/// draws: only on names, paths and which entries are files.
pub proof fn lemma_unbiased_selection_ignores_chance(
    pattern: Seq<char>,
    cands: Seq<FileCandidate>,
    recursive: bool,
    now1: Option<u64>,
    draws1: Seq<u64>,
    now2: Option<u64>,
    draws2: Seq<u64>,
)
    requires
        draws1.len() == cands.len(),
        draws2.len() == cands.len(),
    ensures
        selection(pattern, cands, recursive, false, now1, draws1) == selection(
            pattern,
            cands,
            recursive,
            false,
            now2,
            draws2,
        ),
    decreases cands.len(),
{
    if cands.len() > 0 {
        let k = cands.len() - 1;
        lemma_unbiased_selection_ignores_chance(
            pattern,
            cands.drop_last(),
            recursive,
            now1,
            draws1.take(k),
            now2,
            draws2.take(k),
        );
    }
}

/// Where no entry is a regular file (an empty directory, say), nothing is
/// selected.
pub proof fn lemma_no_files_no_paths(
    pattern: Seq<char>,
    cands: Seq<FileCandidate>,
    recursive: bool,
    time_filter: bool,
    now: Option<u64>,
    draws: Seq<u64>,
)
    requires
        forall|i: int| 0 <= i < cands.len() ==> !(#[trigger] cands[i]).is_file,
    ensures
        selection(pattern, cands, recursive, time_filter, now, draws) == Seq::<String>::empty(),
    decreases cands.len(),
{
    if cands.len() > 0 {
        let k = cands.len() - 1;
        let front = cands.drop_last();
        assert forall|i: int| 0 <= i < front.len() implies !(#[trigger] front[i]).is_file by {
            assert(front[i] == cands[i]);
        }
        lemma_no_files_no_paths(pattern, front, recursive, time_filter, now, draws.take(k));
    }
}

} // verus!
