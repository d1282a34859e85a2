//! Byte-level text handling: UTF-8 safe truncation and line splitting.
//!
//! All specifications speak of the UTF-8 bytes of a string
//! (`s.spec_bytes()` for a `&str`, `encode_utf8(s@)` for a `String`),
//! which is how `str::len` and byte offsets are defined.
use vstd::prelude::*;
use vstd::utf8::*;
use vstd::string::*;

verus! {

broadcast use vstd::utf8::group_utf8_lib;

/// Line feed.
pub const NL: u8 = 10u8;

/// Carriage return.
pub const CR: u8 = 13u8;

/// The UTF-8 bytes of an owned string.
pub open spec fn utf8_of(s: String) -> Seq<u8> {
    encode_utf8(s@)
}

// ---------------------------------------------------------------------------
// Truncation
// ---------------------------------------------------------------------------

/// The number of bytes of `bytes` that `safe_truncate` keeps for a limit of
/// `max_len`: everything when it fits, and otherwise the greatest character
/// boundary that is not beyond the limit.
pub open spec fn truncation_point(bytes: Seq<u8>, max_len: int) -> int
    decreases max_len,
{
    if bytes.len() <= max_len {
        bytes.len() as int
    } else if max_len <= 0 {
        0
    } else if is_char_boundary(bytes, max_len) {
        max_len
    } else {
        truncation_point(bytes, max_len - 1)
    }
}

/// Characterisation of `truncation_point`: it is a character boundary, it
/// is within the limit, and no character boundary lies between it and the
/// limit.
pub proof fn lemma_truncation_point(bytes: Seq<u8>, max_len: int)
    requires
        valid_utf8(bytes),
        0 <= max_len,
    ensures
        0 <= truncation_point(bytes, max_len) <= bytes.len(),
        truncation_point(bytes, max_len) <= max_len,
        is_char_boundary(bytes, truncation_point(bytes, max_len)),
        bytes.len() <= max_len ==> truncation_point(bytes, max_len) == bytes.len(),
        bytes.len() > max_len ==> forall|j: int|
            truncation_point(bytes, max_len) < j <= max_len ==> !is_char_boundary(bytes, j),
    decreases max_len,
{
    is_char_boundary_start_end_of_seq(bytes);
    if bytes.len() <= max_len {
    } else if max_len <= 0 {
    } else if is_char_boundary(bytes, max_len) {
    } else {
        lemma_truncation_point(bytes, max_len - 1);
    }
}

/// Cuts `s` to at most `max_len` bytes without splitting a character:
/// the result is the longest prefix of `s` that ends on a character
/// boundary and is no longer than `max_len` bytes.
pub fn safe_truncate(s: &str, max_len: usize) -> (r: &str)
    ensures
        r.spec_bytes() == s.spec_bytes().subrange(
            0,
            truncation_point(s.spec_bytes(), max_len as int),
        ),
        r.spec_bytes().len() <= max_len,
        r@.is_prefix_of(s@),
        s.spec_bytes().len() <= max_len ==> r@ == s@,
{
    let ghost b = s.spec_bytes();
    proof {
        lemma_truncation_point(b, max_len as int);
    }
    let len = s.as_bytes().len();
    if len <= max_len {
        proof {
            assert(b.subrange(0, b.len() as int) =~= b);
            decode_utf8_encode_utf8(b);
        }
        return s;
    }
    let mut end: usize = max_len;
    while !s.is_char_boundary(end)
        invariant
            b == s.spec_bytes(),
            valid_utf8(b),
            end <= max_len < b.len(),
            truncation_point(b, end as int) == truncation_point(b, max_len as int),
        decreases end,
    {
        proof {
            is_char_boundary_start_end_of_seq(b);
        }
        end = end - 1;
    }
    let (head, _tail) = s.split_at(end);
    proof {
        decode_utf8_split(b, end as int);
        valid_utf8_split(b, end as int);
        decode_utf8_encode_utf8(head.spec_bytes());
        encode_utf8_decode_utf8(s@);
        assert(head@ =~= decode_utf8(b.subrange(0, end as int)));
    }
    head
}

/// UTF-8 encoding distributes over concatenation.
pub proof fn lemma_encode_concat(x: Seq<char>, y: Seq<char>)
    ensures
        encode_utf8(x + y) == encode_utf8(x) + encode_utf8(y),
    decreases x.len(),
{
    if x.len() == 0 {
        assert(x + y =~= y);
        assert(encode_utf8(x) =~= Seq::<u8>::empty());
        assert(encode_utf8(x) + encode_utf8(y) =~= encode_utf8(y));
    } else {
        let xy = x + y;
        assert(xy[0] == x[0]);
        assert(xy.drop_first() =~= x.drop_first() + y);
        lemma_encode_concat(x.drop_first(), y);
        assert(encode_utf8(xy) =~= encode_utf8(x) + encode_utf8(y));
    }
}

/// The end of the encoding of a prefix is a character boundary of the
/// encoding of the whole.
pub proof fn lemma_encode_prefix_boundary(x: Seq<char>, y: Seq<char>)
    ensures
        is_char_boundary(encode_utf8(x + y), encode_utf8(x).len() as int),
    decreases x.len(),
{
    if x.len() > 0 {
        let xy = x + y;
        let bytes = encode_utf8(xy);
        assert(xy[0] == x[0]);
        assert(xy.drop_first() =~= x.drop_first() + y);
        encode_utf8_first_scalar(xy);
        encode_utf8_valid_utf8(xy);
        let w = encode_scalar(x[0] as u32).len() as int;
        assert(pop_first_scalar(bytes) =~= encode_utf8(x.drop_first() + y));
        lemma_encode_prefix_boundary(x.drop_first(), y);
        assert(encode_utf8(x).len() == w + encode_utf8(x.drop_first()).len());
        assert(w > 0);
    }
}

// ---------------------------------------------------------------------------
// Lines
// ---------------------------------------------------------------------------

/// Index of the first line feed in `b`, or `b.len()` when there is none.
pub open spec fn first_newline(b: Seq<u8>) -> int
    decreases b.len(),
{
    if b.len() == 0 {
        0
    } else if b[0] == NL {
        0
    } else {
        1 + first_newline(b.drop_first())
    }
}

/// `first_newline` is the position of the first line feed (or the end).
pub proof fn lemma_first_newline(b: Seq<u8>)
    ensures
        0 <= first_newline(b) <= b.len(),
        forall|j: int| 0 <= j < first_newline(b) ==> b[j] != NL,
        first_newline(b) < b.len() ==> b[first_newline(b)] == NL,
    decreases b.len(),
{
    if b.len() > 0 && b[0] != NL {
        let t = b.drop_first();
        lemma_first_newline(t);
        assert forall|j: int| 0 <= j < first_newline(b) implies b[j] != NL by {
            if j > 0 {
                assert(b[j] == t[j - 1]);
            }
        }
    }
}

/// A line without the carriage return that ended it (`\r\n` endings).
pub open spec fn strip_cr(l: Seq<u8>) -> Seq<u8> {
    if l.len() > 0 && l.last() == CR {
        l.drop_last()
    } else {
        l
    }
}

/// The lines of `b`, as `str::lines` yields them: the pieces between line
/// feeds, a piece that a line feed ends loses one trailing carriage return,
/// and a final line feed does not start another (empty) line.
pub open spec fn lines(b: Seq<u8>) -> Seq<Seq<u8>>
    decreases b.len(),
{
    if b.len() == 0 {
        Seq::empty()
    } else {
        let k = first_newline(b);
        if k >= b.len() {
            seq![b]
        } else {
            proof {
                lemma_first_newline(b);
            }
            seq![strip_cr(b.take(k))] + lines(b.skip(k + 1))
        }
    }
}

/// The first line feed is at the only position that has no line feed
/// before it and a line feed (or the end) at it.
pub proof fn lemma_first_newline_at(b: Seq<u8>, k: int)
    requires
        0 <= k <= b.len(),
        forall|j: int| 0 <= j < k ==> b[j] != NL,
        k == b.len() || b[k] == NL,
    ensures
        first_newline(b) == k,
{
    lemma_first_newline(b);
    let f = first_newline(b);
    if k < f {
        assert(b[k] != NL);
    }
    if f < k {
        assert(b[f] != NL);
    }
}

/// Text that ends with a line feed (or is empty) keeps its lines when more
/// text follows: the lines of `a + b` are those of `a` followed by those of
/// `b`.
pub proof fn lemma_lines_concat(a: Seq<u8>, b: Seq<u8>)
    requires
        a.len() == 0 || a.last() == NL,
    ensures
        lines(a + b) == lines(a) + lines(b),
    decreases a.len(),
{
    if a.len() == 0 {
        assert(a + b =~= b);
        assert(lines(a) =~= Seq::<Seq<u8>>::empty());
        assert(lines(a) + lines(b) =~= lines(b));
    } else {
        let ab = a + b;
        lemma_first_newline(a);
        let k = first_newline(a);
        assert(k < a.len()) by {
            if k == a.len() {
                assert(a[a.len() - 1] != NL);
            }
        }
        assert forall|j: int| 0 <= j < k implies ab[j] != NL by {
            assert(ab[j] == a[j]);
        }
        assert(ab[k] == a[k]);
        lemma_first_newline_at(ab, k);
        let a2 = a.skip(k + 1);
        assert(ab.take(k) =~= a.take(k));
        assert(ab.skip(k + 1) =~= a2 + b);
        assert(a2.len() == 0 || a2.last() == NL) by {
            if a2.len() > 0 {
                assert(a2.last() == a.last());
            }
        }
        lemma_lines_concat(a2, b);
        assert(lines(ab) =~= lines(a) + lines(b));
    }
}

/// A line feed ends exactly one line, which loses a trailing carriage
/// return, and text without a line feed is one line as it is.
pub proof fn lemma_lines_one_line(l: Seq<u8>)
    requires
        forall|j: int| 0 <= j < l.len() ==> l[j] != NL,
    ensures
        lines(l.push(NL)) == seq![strip_cr(l)],
        l.len() > 0 ==> lines(l) == seq![l],
        lines(Seq::<u8>::empty()).len() == 0,
{
    let t = l.push(NL);
    assert forall|j: int| 0 <= j < l.len() implies t[j] != NL by {
        assert(t[j] == l[j]);
    }
    lemma_first_newline_at(t, l.len() as int);
    assert(t.take(l.len() as int) =~= l);
    assert(t.skip(l.len() as int + 1) =~= Seq::<u8>::empty());
    assert(lines(Seq::<u8>::empty()) =~= Seq::<Seq<u8>>::empty());
    assert(lines(t) =~= seq![strip_cr(l)]);
    if l.len() > 0 {
        lemma_first_newline_at(l, l.len() as int);
    }
}

/// Position of the first line feed in `bytes`, or its length.
fn find_newline(bytes: &[u8]) -> (k: usize)
    ensures
        k == first_newline(bytes@),
{
    let mut i: usize = 0;
    while i < bytes.len()
        invariant
            i <= bytes@.len(),
            forall|j: int| 0 <= j < i ==> bytes@[j] != NL,
        ensures
            i <= bytes@.len(),
            forall|j: int| 0 <= j < i ==> bytes@[j] != NL,
            i == bytes@.len() || bytes@[i as int] == NL,
        decreases bytes@.len() - i,
    {
        if bytes[i] == NL {
            break;
        }
        i = i + 1;
    }
    proof {
        let b = bytes@;
        lemma_first_newline(b);
        let f = first_newline(b);
        if (i as int) < f {
            assert(b[i as int] != NL);
        }
        if f < (i as int) {
            assert(b[f] != NL);
        }
    }
    i
}

/// One step of the line scan: splits off the first line of a non-empty
/// string and returns it with the text that follows its line feed.
pub(crate) fn split_first_line(rest: &str) -> (res: (&str, &str))
    requires
        rest.spec_bytes().len() > 0,
    ensures
        ({
            let b = rest.spec_bytes();
            let k = first_newline(b);
            &&& k < b.len() ==> res.0.spec_bytes() == strip_cr(b.take(k))
            &&& k < b.len() ==> res.1.spec_bytes() == b.skip(k + 1)
            &&& k >= b.len() ==> res.0.spec_bytes() == b
            &&& k >= b.len() ==> res.1.spec_bytes().len() == 0
            &&& lines(b) == seq![res.0.spec_bytes()] + lines(res.1.spec_bytes())
            &&& res.1.spec_bytes().len() < b.len()
        }),
{
    let ghost b = rest.spec_bytes();
    let bytes = rest.as_bytes();
    let k = find_newline(bytes);
    proof {
        lemma_first_newline(b);
        is_char_boundary_start_end_of_seq(b);
    }
    if k == bytes.len() {
        let (line, tail) = rest.split_at(k);
        proof {
            assert(line.spec_bytes() =~= b);
            assert(tail.spec_bytes().len() == 0);
            assert(lines(tail.spec_bytes()) =~= Seq::<Seq<u8>>::empty());
            assert(seq![line.spec_bytes()] + lines(tail.spec_bytes()) =~= seq![b]);
        }
        return (line, tail);
    }
    proof {
        is_char_boundary_iff_not_is_continuation_byte(b, k as int);
    }
    let (line, tail) = rest.split_at(k);
    let ghost tb = tail.spec_bytes();
    proof {
        assert(tb =~= b.subrange(k as int, b.len() as int));
        valid_utf8_split(b, k as int);
        assert(tb[0] == NL);
        assert(length_of_first_scalar(tb) == 1);
        reveal_with_fuel(is_char_boundary, 2);
        assert(is_char_boundary(tb, 1));
    }
    let (_nl, after) = tail.split_at(1);
    proof {
        assert(after.spec_bytes() =~= b.skip(k + 1));
    }
    let lb = line.as_bytes();
    let n = lb.len();
    if n > 0 && lb[n - 1] == CR {
        proof {
            let l = line.spec_bytes();
            valid_utf8_split(b, k as int);
            assert(l =~= b.subrange(0, k as int));
            is_char_boundary_iff_not_is_continuation_byte(l, n - 1);
        }
        let (content, _cr) = line.split_at(n - 1);
        proof {
            assert(content.spec_bytes() =~= strip_cr(b.take(k as int)));
        }
        (content, after)
    } else {
        proof {
            assert(line.spec_bytes() =~= strip_cr(b.take(k as int)));
        }
        (line, after)
    }
}

/// Splits `text` into its lines (see `lines`).
pub fn split_lines(text: &str) -> (r: Vec<String>)
    ensures
        r@.map_values(|s: String| utf8_of(s)) == lines(text.spec_bytes()),
{
    let mut out: Vec<String> = Vec::new();
    let mut rest: &str = text;
    while !rest.is_empty()
        invariant
            lines(text.spec_bytes()) == out@.map_values(|s: String| utf8_of(s)) + lines(
                rest.spec_bytes(),
            ),
        decreases rest.spec_bytes().len(),
    {
        let ghost before = out@.map_values(|s: String| utf8_of(s));
        let (line, next) = split_first_line(rest);
        let owned = line.to_owned();
        out.push(owned);
        proof {
            assert(out@.map_values(|s: String| utf8_of(s)) =~= before.push(line.spec_bytes()));
            assert(lines(text.spec_bytes()) =~= out@.map_values(|s: String| utf8_of(s)) + lines(
                next.spec_bytes(),
            ));
        }
        rest = next;
    }
    proof {
        assert(rest.spec_bytes() =~= Seq::<u8>::empty());
        assert(lines(rest.spec_bytes()) =~= Seq::<Seq<u8>>::empty());
        assert(lines(text.spec_bytes()) =~= out@.map_values(|s: String| utf8_of(s)));
    }
    out
}

/// Number of lines of `text`, as `str::lines().count()` gives it.
pub fn count_lines(text: &str) -> (n: usize)
    ensures
        n == lines(text.spec_bytes()).len(),
{
    let total = text.as_bytes().len();
    let mut n: usize = 0;
    let mut rest: &str = text;
    while !rest.is_empty()
        invariant
            lines(text.spec_bytes()).len() == n + lines(rest.spec_bytes()).len(),
            n + rest.spec_bytes().len() <= total,
        decreases rest.spec_bytes().len(),
    {
        let (_line, next) = split_first_line(rest);
        n = n + 1;
        rest = next;
    }
    proof {
        assert(rest.spec_bytes() =~= Seq::<u8>::empty());
    }
    n
}

// ---------------------------------------------------------------------------
// Substrings
// ---------------------------------------------------------------------------

/// `needle` occurs in `hay` starting at byte `i`.
pub open spec fn occurs_at(hay: Seq<u8>, needle: Seq<u8>, i: int) -> bool {
    0 <= i && i + needle.len() <= hay.len() && hay.subrange(i, i + needle.len()) == needle
}

/// `needle` occurs somewhere in `hay`.
pub open spec fn contains_bytes(hay: Seq<u8>, needle: Seq<u8>) -> bool {
    exists|i: int| occurs_at(hay, needle, i)
}

/// `hay` ends with `needle`.
pub open spec fn ends_with_bytes(hay: Seq<u8>, needle: Seq<u8>) -> bool {
    needle.len() <= hay.len() && hay.skip(hay.len() - needle.len()) == needle
}

fn matches_at(hay: &[u8], needle: &[u8], i: usize) -> (r: bool)
    requires
        i + needle@.len() <= hay@.len(),
    ensures
        r == occurs_at(hay@, needle@, i as int),
{
    let _hay_len = hay.len();
    let mut j: usize = 0;
    while j < needle.len()
        invariant
            hay@.len() <= usize::MAX,
            i + needle@.len() <= hay@.len(),
            j <= needle@.len(),
            forall|t: int| 0 <= t < j ==> hay@[i + t] == needle@[t],
        decreases needle@.len() - j,
    {
        if hay[i + j] != needle[j] {
            proof {
                assert(hay@.subrange(i as int, i + needle@.len())[j as int] != needle@[j as int]);
            }
            return false;
        }
        j = j + 1;
    }
    proof {
        assert(hay@.subrange(i as int, i + needle@.len()) =~= needle@);
    }
    true
}

/// Whether `needle` occurs in `hay` (byte-wise, as `str::contains` with a
/// string pattern).
pub fn contains_str(hay: &str, needle: &str) -> (r: bool)
    ensures
        r == contains_bytes(hay.spec_bytes(), needle.spec_bytes()),
{
    let h = hay.as_bytes();
    let nd = needle.as_bytes();
    let _hl = h.len();
    if nd.len() > h.len() {
        proof {
            assert forall|i: int| !occurs_at(h@, nd@, i) by {}
        }
        return false;
    }
    if nd.len() == 0 {
        proof {
            assert(h@.subrange(0, 0) =~= nd@);
            assert(occurs_at(h@, nd@, 0));
        }
        return true;
    }
    let last = h.len() - nd.len();
    let mut i: usize = 0;
    while i <= last
        invariant
            h@ == hay.spec_bytes(),
            nd@ == needle.spec_bytes(),
            h@.len() <= usize::MAX,
            nd@.len() >= 1,
            nd@.len() <= h@.len(),
            last == h@.len() - nd@.len(),
            i <= last + 1,
            forall|t: int| 0 <= t < i ==> !occurs_at(h@, nd@, t),
        decreases last + 1 - i,
    {
        if matches_at(h, nd, i) {
            proof {
                assert(occurs_at(h@, nd@, i as int));
            }
            return true;
        }
        i = i + 1;
    }
    proof {
        assert forall|t: int| !occurs_at(h@, nd@, t) by {
            if 0 <= t < i {
            }
        }
    }
    false
}

/// Whether `hay` ends with `needle` (byte-wise).
pub fn ends_with_str(hay: &str, needle: &str) -> (r: bool)
    ensures
        r == ends_with_bytes(hay.spec_bytes(), needle.spec_bytes()),
{
    let h = hay.as_bytes();
    let nd = needle.as_bytes();
    if nd.len() > h.len() {
        return false;
    }
    let start = h.len() - nd.len();
    let r = matches_at(h, nd, start);
    proof {
        assert(h@.subrange(start as int, start + nd@.len()) =~= h@.skip(start as int));
    }
    r
}

} // verus!
