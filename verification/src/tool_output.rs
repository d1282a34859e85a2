//! Reading what external tools print: the test listing of `cargo test --
//! --list` and the file list of `find`.
use vstd::prelude::*;
use vstd::string::*;
use vstd::utf8::*;
use crate::text::{ends_with_str, contains_str, lines, split_first_line, split_lines, ends_with_bytes, contains_bytes, utf8_of, lemma_lines_concat, lemma_first_newline_at, NL, CR, strip_cr};

verus! {

broadcast use vstd::utf8::group_utf8_lib;

/// What `String::from_utf8_lossy` makes of a byte sequence: the text it
/// encodes, with each invalid sequence replaced by U+FFFD.
pub uninterp spec fn lossy_utf8(bytes: Seq<u8>) -> Seq<char>;

/// Decodes tool output with `String::from_utf8_lossy`. Stated: the result is
/// `lossy_utf8` of the bytes, and valid UTF-8 is decoded unchanged, as the
/// function's documentation says. How invalid sequences are replaced is
/// left to the name.
#[verifier::external_body]
fn decode_lossy(bytes: &[u8]) -> (s: String)
    ensures
        s@ == lossy_utf8(bytes@),
        valid_utf8(bytes@) ==> s@ == decode_utf8(bytes@),
{
    String::from_utf8_lossy(bytes).into_owned()
}

/// The lines of raw tool output, decoded as `String::from_utf8_lossy` does
/// (a `find` listing gives one path per line).
pub fn listed_paths(stdout: &[u8]) -> (r: Vec<String>)
    ensures
        r@.map_values(|s: String| utf8_of(s)) == lines(encode_utf8(lossy_utf8(stdout@))),
{
    let text = decode_lossy(stdout);
    split_lines(text.as_str())
}

// ---------------------------------------------------------------------------
// Test listing
// ---------------------------------------------------------------------------

/// How `cargo test -- --list` ends the line of each test.
pub const TEST_LINE_SUFFIX: &'static str = ": test";

/// A line of the test listing that names a test.
pub open spec fn is_test_line(l: Seq<u8>) -> bool {
    ends_with_bytes(l, encode_utf8(TEST_LINE_SUFFIX@))
}

/// Number of tests in a test listing.
pub open spec fn listed_tests(text: Seq<u8>) -> nat {
    lines(text).filter(|l: Seq<u8>| is_test_line(l)).len()
}

proof fn lemma_filter_cons(x: Seq<u8>, rest: Seq<Seq<u8>>, pred: spec_fn(Seq<u8>) -> bool)
    ensures
        (seq![x] + rest).filter(pred) == (if pred(x) {
            seq![x]
        } else {
            Seq::<Seq<u8>>::empty()
        }) + rest.filter(pred),
{
    Seq::filter_distributes_over_add(seq![x], rest, pred);
    reveal_with_fuel(Seq::filter, 2);
    assert(seq![x].drop_last() =~= Seq::<Seq<u8>>::empty());
}

/// Test listings add up: when one listing ends with a line feed, the
/// tests of it followed by another are the tests of each, added (as
/// `cargo test --workspace -- --list` prints one listing per binary).
pub proof fn lemma_listed_tests_additive(a: Seq<u8>, b: Seq<u8>)
    requires
        a.len() == 0 || a.last() == NL,
    ensures
        listed_tests(a + b) == listed_tests(a) + listed_tests(b),
{
    lemma_lines_concat(a, b);
    Seq::filter_distributes_over_add(lines(a), lines(b), |l: Seq<u8>| is_test_line(l));
}

/// A single line counts one test exactly when it ends with `": test"`.
pub proof fn lemma_listed_tests_one_line(l: Seq<u8>)
    requires
        forall|j: int| 0 <= j < l.len() ==> l[j] != NL,
        l.len() == 0 || l.last() != CR,
    ensures
        listed_tests(l.push(NL)) == (if ends_with_bytes(l, encode_utf8(TEST_LINE_SUFFIX@)) {
            1int
        } else {
            0int
        }),
        l.len() > 0 ==> listed_tests(l) == listed_tests(l.push(NL)),
{
    let t = l.push(NL);
    assert forall|j: int| 0 <= j < l.len() implies t[j] != NL by {
        assert(t[j] == l[j]);
    }
    lemma_first_newline_at(t, l.len() as int);
    assert(t.take(l.len() as int) =~= l);
    assert(strip_cr(l) == l);
    assert(t.skip(l.len() as int + 1) =~= Seq::<u8>::empty());
    assert(lines(Seq::<u8>::empty()) =~= Seq::<Seq<u8>>::empty());
    assert(lines(t) =~= seq![l]);
    reveal_with_fuel(Seq::filter, 2);
    assert(seq![l].drop_last() =~= Seq::<Seq<u8>>::empty());
    if l.len() > 0 {
        lemma_first_newline_at(l, l.len() as int);
        assert(lines(l) =~= seq![l]);
    }
}

/// Counts the lines of `text` that end with `": test"`.
pub fn count_listed_tests_in(text: &str) -> (n: usize)
    ensures
        n == listed_tests(text.spec_bytes()),
        n == lines(text.spec_bytes()).filter(|l: Seq<u8>| is_test_line(l)).len(),
{
    let ghost pred = |l: Seq<u8>| is_test_line(l);
    let total = text.as_bytes().len();
    let mut n: usize = 0;
    let mut rest: &str = text;
    while !rest.is_empty()
        invariant
            pred == (|l: Seq<u8>| is_test_line(l)),
            lines(text.spec_bytes()).filter(pred).len() == n + lines(rest.spec_bytes()).filter(
                pred,
            ).len(),
            n + rest.spec_bytes().len() <= total,
        decreases rest.spec_bytes().len(),
    {
        let (line, next) = split_first_line(rest);
        proof {
            lemma_filter_cons(line.spec_bytes(), lines(next.spec_bytes()), pred);
        }
        if ends_with_str(line, TEST_LINE_SUFFIX) {
            n = n + 1;
        }
        rest = next;
    }
    proof {
        assert(rest.spec_bytes() =~= Seq::<u8>::empty());
        assert(lines(rest.spec_bytes()) =~= Seq::<Seq<u8>>::empty());
        reveal_with_fuel(Seq::filter, 1);
    }
    n
}

/// Counts the tests in the raw output of `cargo test -- --list`, truncated
/// to 32 bits as the count is stored.
pub fn count_listed_tests(stdout: &[u8]) -> (n: u32)
    ensures
        n as int == listed_tests(encode_utf8(lossy_utf8(stdout@))) % 0x1_0000_0000,
{
    let text = decode_lossy(stdout);
    let count = count_listed_tests_in(text.as_str());
    let wide: u64 = count as u64;
    let r: u32 = #[verifier::truncate] (wide as u32);
    assert(r == wide % 0x1_0000_0000) by (bit_vector)
        requires
            r == #[verifier::truncate] (wide as u32),
    ;
    r
}

// ---------------------------------------------------------------------------
// Candidate files
// ---------------------------------------------------------------------------

/// Files listed after this many candidates are not considered.
pub const MAX_CANDIDATES: usize = 50;

/// A path that mentions tests is never an optimization target.
pub const TESTS_DIR_MARKER: &'static str = "/tests";

pub const TEST_MARKER: &'static str = "test";

/// A listed path that may be optimized: it is not under a tests directory
/// and does not mention tests.
pub open spec fn is_candidate(l: Seq<u8>) -> bool {
    !contains_bytes(l, encode_utf8(TESTS_DIR_MARKER@)) && !contains_bytes(
        l,
        encode_utf8(TEST_MARKER@),
    )
}

/// The candidate files of a `find` listing: the first `MAX_CANDIDATES`
/// lines that are candidates.
pub open spec fn candidate_lines(text: Seq<u8>) -> Seq<Seq<u8>> {
    let all = lines(text).filter(|l: Seq<u8>| is_candidate(l));
    if all.len() <= MAX_CANDIDATES {
        all
    } else {
        all.take(MAX_CANDIDATES as int)
    }
}

/// The candidates returned are the first candidate lines of the listing,
/// in order, and there are 50 of them whenever the listing has at least 50
/// candidate lines (all of them otherwise).
pub proof fn lemma_candidate_count(text: Seq<u8>)
    ensures
        candidate_lines(text).len() == (if lines(text).filter(|l: Seq<u8>| is_candidate(l)).len()
            <= 50 {
            lines(text).filter(|l: Seq<u8>| is_candidate(l)).len()
        } else {
            50
        }),
        forall|i: int|
            0 <= i < candidate_lines(text).len() ==> #[trigger] candidate_lines(text)[i] == lines(
                text,
            ).filter(|l: Seq<u8>| is_candidate(l))[i],
{
}

/// At most `MAX_CANDIDATES` files are considered, none of them mentions
/// tests, and they come in the order of the listing.
pub proof fn lemma_candidate_lines(text: Seq<u8>)
    ensures
        candidate_lines(text).len() <= MAX_CANDIDATES,
        forall|i: int|
            0 <= i < candidate_lines(text).len() ==> is_candidate(#[trigger] candidate_lines(text)[i]),
        forall|i: int|
            0 <= i < candidate_lines(text).len() ==> candidate_lines(text)[i] == lines(text).filter(
                |l: Seq<u8>| is_candidate(l),
            )[i],
{
    let pred = |l: Seq<u8>| is_candidate(l);
    let all = lines(text).filter(pred);
    assert forall|i: int| 0 <= i < candidate_lines(text).len() implies is_candidate(
        #[trigger] candidate_lines(text)[i],
    ) by {
        lines(text).lemma_filter_pred(pred, i);
        assert(candidate_lines(text)[i] == all[i]);
    }
}

/// The candidate files of `text`, a listing with one path per line.
pub fn candidate_files_in(text: &str) -> (r: Vec<String>)
    ensures
        r@.map_values(|s: String| utf8_of(s)) == candidate_lines(text.spec_bytes()),
        r@.len() == (if lines(text.spec_bytes()).filter(|l: Seq<u8>| is_candidate(l)).len() <= 50 {
            lines(text.spec_bytes()).filter(|l: Seq<u8>| is_candidate(l)).len()
        } else {
            50
        }),
        forall|i: int|
            0 <= i < r@.len() ==> utf8_of(#[trigger] r@[i]) == lines(text.spec_bytes()).filter(
                |l: Seq<u8>| is_candidate(l),
            )[i],
{
    let ghost pred = |l: Seq<u8>| is_candidate(l);
    let ghost all = lines(text.spec_bytes()).filter(pred);
    let mut out: Vec<String> = Vec::new();
    let mut rest: &str = text;
    while !rest.is_empty() && out.len() < MAX_CANDIDATES
        invariant
            pred == (|l: Seq<u8>| is_candidate(l)),
            all == lines(text.spec_bytes()).filter(pred),
            out@.len() <= MAX_CANDIDATES,
            all == out@.map_values(|s: String| utf8_of(s)) + lines(rest.spec_bytes()).filter(
                pred,
            ),
        decreases rest.spec_bytes().len(),
    {
        let (line, next) = split_first_line(rest);
        proof {
            lemma_filter_cons(line.spec_bytes(), lines(next.spec_bytes()), pred);
        }
        let ghost before = out@.map_values(|s: String| utf8_of(s));
        if !contains_str(line, TESTS_DIR_MARKER) && !contains_str(line, TEST_MARKER) {
            out.push(line.to_owned());
            proof {
                assert(out@.map_values(|s: String| utf8_of(s)) =~= before.push(
                    line.spec_bytes(),
                ));
                assert(all =~= out@.map_values(|s: String| utf8_of(s)) + lines(
                    next.spec_bytes(),
                ).filter(pred));
            }
        } else {
            proof {
                assert(all =~= out@.map_values(|s: String| utf8_of(s)) + lines(
                    next.spec_bytes(),
                ).filter(pred));
            }
        }
        rest = next;
    }
    proof {
        let got = out@.map_values(|s: String| utf8_of(s));
        if rest.is_empty() {
            assert(rest.spec_bytes() =~= Seq::<u8>::empty());
            assert(lines(rest.spec_bytes()) =~= Seq::<Seq<u8>>::empty());
            reveal_with_fuel(Seq::filter, 1);
            assert(all =~= got);
        } else {
            assert(out@.len() == MAX_CANDIDATES);
            assert(all.take(MAX_CANDIDATES as int) =~= got);
        }
    }
    out
}

/// The candidate files in the raw output of `find`.
pub fn candidate_files(find_stdout: &[u8]) -> (r: Vec<String>)
    ensures
        r@.map_values(|s: String| utf8_of(s)) == candidate_lines(
            encode_utf8(lossy_utf8(find_stdout@)),
        ),
{
    let text = decode_lossy(find_stdout);
    candidate_files_in(text.as_str())
}

} // verus!
