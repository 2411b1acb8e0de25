//! The search executor: a line-oriented scan of transcript content against a
//! compiled pattern, all-or-nothing.

use crate::outcome::{ErrorKind, OutcomeView, SearchOutcome};
use crate::pattern::{regex_accepts, Pattern};
use crate::text::{
    from_chars, lemma_split_unlines, spec_lines, spec_unlines, split_lines, to_chars,
};
use vstd::prelude::*;

verus! {

/// Of `records`, those the pattern matches, in their original order.
pub open spec fn spec_matches_in(pattern: Seq<char>, records: Seq<Seq<char>>) -> Seq<Seq<char>>
    decreases records.len(),
{
    if records.len() == 0 {
        Seq::empty()
    } else {
        spec_matches_in(pattern, records.drop_last()) + (if regex_accepts(
            pattern,
            records.last(),
        ) {
            seq![records.last()]
        } else {
            Seq::<Seq<char>>::empty()
        })
    }
}

/// The lines of `text` that the pattern matches, in scan order.
pub open spec fn spec_matching_lines(pattern: Seq<char>, text: Seq<char>) -> Seq<Seq<char>> {
    spec_matches_in(pattern, spec_lines(text))
}

/// Scans `text` line by line and returns the matching lines in scan order.
pub fn matching_lines(pattern: &Pattern, text: &str) -> (r: Vec<String>)
    ensures
        r.deep_view() == spec_matching_lines(pattern@, text@),
{
    let chars = to_chars(text);
    let records = split_lines(&chars);
    let mut r: Vec<String> = Vec::new();
    let mut i: usize = 0;
    while i < records.len()
        invariant
            i <= records.len(),
            records.deep_view() == spec_lines(text@),
            r.deep_view() == spec_matches_in(pattern@, records.deep_view().take(i as int)),
        decreases records.len() - i,
    {
        let ghost pre = records.deep_view().take(i as int);
        let ghost post = records.deep_view().take(i + 1 as int);
        proof {
            assert(post.drop_last() =~= pre);
            assert(records@[i as int].deep_view() =~= records@[i as int]@);
            assert(post.last() == records@[i as int]@);
        }
        let line = from_chars(&records[i]);
        if pattern.is_match(line.as_str()) {
            let ghost prev = r.deep_view();
            r.push(line);
            proof {
                assert(r.deep_view() =~~= prev.push(records@[i as int]@));
                assert(prev.push(records@[i as int]@) =~= spec_matches_in(pattern@, post));
            }
        } else {
            proof {
                assert(r.deep_view() =~= spec_matches_in(pattern@, post));
            }
        }
        i = i + 1;
    }
    proof {
        assert(records.deep_view().take(records.len() as int) =~= records.deep_view());
    }
    r
}

/// Scanning content assembled from newline-terminated, newline-free records
/// yields exactly the records the pattern matches, in their original order.
pub proof fn lemma_search_roundtrip(pattern: Seq<char>, records: Seq<Seq<char>>)
    requires
        forall|i: int| 0 <= i < records.len() ==> !records[i].contains('\n'),
    ensures
        spec_matching_lines(pattern, spec_unlines(records)) == spec_matches_in(pattern, records),
{
    lemma_split_unlines(records);
    if records.len() == 0 {
        assert(spec_unlines(records) =~= Seq::<char>::empty());
    } else {
        assert(spec_unlines(records).last() == '\n');
        assert(spec_unlines(records).len() > 0);
        assert(spec_lines(spec_unlines(records)) =~= records);
    }
}

/// What the filesystem yielded for the transcript path. The read itself is
/// the caller's business; the scan is not.
pub enum ReadOutcome {
    /// The transcript's content.
    Content(String),
    /// The path does not exist or could not be opened.
    NotFound,
    /// The transcript could not be read to its end.
    ReadFailed,
}

/// Runs one search over what was read from the transcript: every matching
/// line in scan order on content, and the corresponding failure otherwise.
/// Partial reads yield no lines at all.
pub fn execute(pattern: &Pattern, read: ReadOutcome) -> (out: SearchOutcome)
    ensures
        (read matches ReadOutcome::Content(text) ==> out@ == OutcomeView::Success(
            spec_matching_lines(pattern@, text@),
        )),
        (read is NotFound ==> out@ == OutcomeView::Failure(ErrorKind::FileNotFound)),
        (read is ReadFailed ==> out@ == OutcomeView::Failure(ErrorKind::IoError)),
{
    match read {
        ReadOutcome::Content(text) => SearchOutcome::Success(
            matching_lines(pattern, text.as_str()),
        ),
        ReadOutcome::NotFound => SearchOutcome::Failure(ErrorKind::FileNotFound),
        ReadOutcome::ReadFailed => SearchOutcome::Failure(ErrorKind::IoError),
    }
}

} // verus!
