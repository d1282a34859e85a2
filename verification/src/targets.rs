//! Choosing the file an experiment tries to optimize: the longest candidate
//! that is still short enough for the model to rewrite.
use vstd::prelude::*;
use vstd::string::*;

verus! {

/// Files with this many lines or more are too long to propose a rewrite of.
pub const MAX_TARGET_LINES: usize = 250;

/// Why no target was chosen.
pub const NO_TARGET_MESSAGE: &'static str = "no suitable target found";

/// A candidate file and its number of lines, as plain values.
pub open spec fn scored_view(files: Seq<(String, usize)>) -> Seq<(Seq<char>, nat)> {
    files.map_values(|f: (String, usize)| (f.0@, f.1 as nat))
}

/// The best of the first files: scanning in order, a file replaces the best
/// so far when it has more lines than it and fewer than `MAX_TARGET_LINES`.
/// Before any file the best is the empty path with 0 lines.
pub open spec fn best_candidate(files: Seq<(Seq<char>, nat)>) -> (Seq<char>, nat)
    decreases files.len(),
{
    if files.len() == 0 {
        (Seq::empty(), 0)
    } else {
        let prev = best_candidate(files.drop_last());
        let last = files.last();
        if last.1 > prev.1 && last.1 < MAX_TARGET_LINES {
            last
        } else {
            prev
        }
    }
}

/// The target chosen among scored files, or the reason there is none.
pub open spec fn target_choice(files: Seq<(Seq<char>, nat)>) -> Result<Seq<char>, Seq<char>> {
    let best = best_candidate(files);
    if best.0.len() == 0 {
        Err(NO_TARGET_MESSAGE@)
    } else {
        Ok(best.0)
    }
}

/// The best candidate has the most lines among the files under the limit,
/// is itself one of them (unless no file has between 1 and the limit of
/// lines), and is the first file with that many lines.
pub proof fn lemma_best_candidate(files: Seq<(Seq<char>, nat)>)
    ensures
        best_candidate(files).1 < MAX_TARGET_LINES,
        forall|i: int|
            0 <= i < files.len() && #[trigger] files[i].1 < MAX_TARGET_LINES ==> files[i].1
                <= best_candidate(files).1,
        best_candidate(files).1 > 0 ==> exists|i: int|
            0 <= i < files.len() && #[trigger] files[i] == best_candidate(files) && (forall|j: int|
                0 <= j < i ==> files[j].1 < best_candidate(files).1 || files[j].1
                    >= MAX_TARGET_LINES),
        best_candidate(files).1 == 0 ==> best_candidate(files).0.len() == 0,
    decreases files.len(),
{
    if files.len() > 0 {
        let init = files.drop_last();
        lemma_best_candidate(init);
        let prev = best_candidate(init);
        let last = files.last();
        assert forall|i: int|
            0 <= i < files.len() && #[trigger] files[i].1 < MAX_TARGET_LINES implies files[i].1
                <= best_candidate(files).1 by {
            if i < files.len() - 1 {
                assert(files[i] == init[i]);
            }
        }
        if best_candidate(files).1 > 0 {
            if last.1 > prev.1 && last.1 < MAX_TARGET_LINES {
                let k = files.len() - 1;
                assert(files[k] == best_candidate(files));
                assert forall|j: int| 0 <= j < k implies files[j].1 < best_candidate(files).1
                    || files[j].1 >= MAX_TARGET_LINES by {
                    assert(files[j] == init[j]);
                }
            } else {
                let k = choose|i: int|
                    0 <= i < init.len() && #[trigger] init[i] == prev && (forall|j: int|
                        0 <= j < i ==> init[j].1 < prev.1 || init[j].1 >= MAX_TARGET_LINES);
                assert(files[k] == init[k]);
                assert forall|j: int| 0 <= j < k implies files[j].1 < best_candidate(files).1
                    || files[j].1 >= MAX_TARGET_LINES by {
                    assert(files[j] == init[j]);
                }
            }
        }
    }
}

/// Picks the target among `files` (each path with its number of lines):
/// the first file with the most lines below `MAX_TARGET_LINES`; an error
/// when no file has between 1 and `MAX_TARGET_LINES - 1` lines.
pub fn choose_target(files: &Vec<(String, usize)>) -> (r: Result<String, String>)
    ensures
        match r {
            Ok(t) => target_choice(scored_view(files@)) == Ok::<Seq<char>, Seq<char>>(t@),
            Err(e) => target_choice(scored_view(files@)) == Err::<Seq<char>, Seq<char>>(e@),
        },
{
    let ghost view = scored_view(files@);
    let mut best_path = String::new();
    let mut best_lines: usize = 0;
    let mut i: usize = 0;
    while i < files.len()
        invariant
            i <= files@.len(),
            view == scored_view(files@),
            best_candidate(view.take(i as int)) == (best_path@, best_lines as nat),
        decreases files@.len() - i,
    {
        let lines = files[i].1;
        proof {
            assert(view.take(i + 1).drop_last() =~= view.take(i as int));
            assert(view.take(i + 1).last() == view[i as int]);
        }
        if lines > best_lines && lines < MAX_TARGET_LINES {
            best_path = files[i].0.clone();
            best_lines = lines;
        }
        i = i + 1;
    }
    proof {
        assert(view.take(i as int) =~= view);
    }
    if best_path.as_str().is_empty() {
        Err(String::from_str(NO_TARGET_MESSAGE))
    } else {
        Ok(best_path)
    }
}

} // verus!
