//! Character-level text primitives: substring search, whitespace, and the
//! splitting of a text into lines.
use vstd::prelude::*;

verus! {

/// `pat` occurs in `s` as a contiguous run of characters.
pub open spec fn occurs_in(pat: Seq<char>, s: Seq<char>) -> bool {
    exists|i: int| 0 <= i && i + pat.len() <= s.len() && #[trigger] s.subrange(i, i + pat.len()) == pat
}

/// Unicode `White_Space` characters (the set that `char::is_whitespace` recognises).
pub open spec fn is_white_space(c: char) -> bool {
    let v = c as u32;
    ||| 0x09 <= v <= 0x0d
    ||| v == 0x20
    ||| v == 0x85
    ||| v == 0xa0
    ||| v == 0x1680
    ||| 0x2000 <= v <= 0x200a
    ||| v == 0x2028
    ||| v == 0x2029
    ||| v == 0x202f
    ||| v == 0x205f
    ||| v == 0x3000
}

/// Every character of `s` is whitespace: trimming `s` leaves nothing.
pub open spec fn is_blank(s: Seq<char>) -> bool {
    forall|i: int| 0 <= i < s.len() ==> is_white_space(#[trigger] s[i])
}

/// A line with its carriage return removed, when it ends in one.
pub open spec fn strip_cr(line: Seq<char>) -> Seq<char> {
    if line.len() > 0 && line.last() == '\r' {
        line.drop_last()
    } else {
        line
    }
}

/// Reading `s` from the front: the lines closed by a line feed so far, and the
/// characters of the line still open.
pub open spec fn scan_lines(s: Seq<char>) -> (Seq<Seq<char>>, Seq<char>)
    decreases s.len(),
{
    if s.len() == 0 {
        (Seq::empty(), Seq::empty())
    } else {
        let (done, cur) = scan_lines(s.drop_last());
        if s.last() == '\n' {
            (done.push(strip_cr(cur)), Seq::empty())
        } else {
            (done, cur.push(s.last()))
        }
    }
}

/// The lines of `s`: split at `\n` or `\r\n`, terminators dropped, and no
/// empty last line after a final terminator.
pub open spec fn lines_of(s: Seq<char>) -> Seq<Seq<char>> {
    let (done, cur) = scan_lines(s);
    if cur.len() == 0 {
        done
    } else {
        done.push(cur)
    }
}

/// The characters of `s`, in order.
pub fn chars_of(s: &str) -> (out: Vec<char>)
    ensures
        out@ == s@,
{
    let mut out: Vec<char> = Vec::new();
    for c in it: s.chars()
        invariant
            out@ == it.seq().take(it.index()),
    {
        out.push(c);
    }
    out
}

/// Whether `pat` stands in `s` at position `i`.
fn matches_at(s: &Vec<char>, i: usize, pat: &Vec<char>) -> (r: bool)
    requires
        i + pat.len() <= s.len(),
    ensures
        r == (s@.subrange(i as int, i + pat.len()) == pat@),
{
    let mut k: usize = 0;
    while k < pat.len()
        invariant
            k <= pat.len(),
            i + pat.len() <= s.len(),
            forall|j: int| 0 <= j < k ==> s@[i + j] == pat@[j],
        decreases pat.len() - k,
    {
        if s[i + k] != pat[k] {
            assert(s@.subrange(i as int, i + pat.len())[k as int] != pat@[k as int]);
            return false;
        }
        k += 1;
    }
    assert(s@.subrange(i as int, i + pat.len()) =~= pat@);
    true
}

proof fn lemma_subrange_of_subrange(s: Seq<char>, lo: int, hi: int, a: int, b: int)
    requires
        0 <= lo <= hi <= s.len(),
        0 <= a <= b <= hi - lo,
    ensures
        s.subrange(lo, hi).subrange(a, b) == s.subrange(lo + a, lo + b),
{
    assert(s.subrange(lo, hi).subrange(a, b) =~= s.subrange(lo + a, lo + b));
}

/// Whether `pat` occurs in the characters `s[lo..hi]`.
pub fn occurs_within(s: &Vec<char>, lo: usize, hi: usize, pat: &Vec<char>) -> (r: bool)
    requires
        lo <= hi <= s.len(),
    ensures
        r == occurs_in(pat@, s@.subrange(lo as int, hi as int)),
{
    let ghost sub = s@.subrange(lo as int, hi as int);
    if pat.len() == 0 {
        assert(sub.subrange(0, 0 + pat.len()) =~= pat@);
        return true;
    }
    if pat.len() > hi - lo {
        return false;
    }
    let last = hi - pat.len();
    let mut i = lo;
    while i <= last
        invariant
            lo <= i <= last + 1,
            last + pat.len() == hi,
            pat.len() > 0,
            hi <= s.len(),
            sub == s@.subrange(lo as int, hi as int),
            forall|j: int| lo <= j < i ==> #[trigger] s@.subrange(j, j + pat.len()) != pat@,
        decreases last + 1 - i,
    {
        if matches_at(s, i, pat) {
            proof {
                lemma_subrange_of_subrange(s@, lo as int, hi as int, i - lo, i - lo + pat.len());
                assert(sub.subrange(i - lo, i - lo + pat.len()) == pat@);
            }
            return true;
        }
        i += 1;
    }
    proof {
        assert forall|k: int| 0 <= k && k + pat.len() <= sub.len() implies #[trigger] sub.subrange(
            k,
            k + pat.len(),
        ) != pat@ by {
            lemma_subrange_of_subrange(s@, lo as int, hi as int, k, k + pat.len());
            assert(s@.subrange(lo + k, lo + k + pat.len()) != pat@);
        }
    }
    false
}

/// Whether `c` is whitespace in the sense of `char::is_whitespace`.
pub fn is_white_space_char(c: char) -> (r: bool)
    ensures
        r == is_white_space(c),
{
    let v = c as u32;
    (0x09 <= v && v <= 0x0d) || v == 0x20 || v == 0x85 || v == 0xa0 || v == 0x1680 || (0x2000 <= v
        && v <= 0x200a) || v == 0x2028 || v == 0x2029 || v == 0x202f || v == 0x205f || v == 0x3000
}

/// Whether every character of `s` is whitespace.
pub fn all_white_space(s: &Vec<char>) -> (r: bool)
    ensures
        r == is_blank(s@),
{
    let mut i: usize = 0;
    while i < s.len()
        invariant
            i <= s.len(),
            forall|j: int| 0 <= j < i ==> is_white_space(#[trigger] s@[j]),
        decreases s.len() - i,
    {
        if !is_white_space_char(s[i]) {
            return false;
        }
        i += 1;
    }
    true
}

/// Reading `s` from the front: the start and end of each line closed so far
/// (its terminator excluded), and where the open line starts.
pub open spec fn scan_bounds(s: Seq<char>) -> (Seq<(int, int)>, int)
    decreases s.len(),
{
    if s.len() == 0 {
        (Seq::empty(), 0)
    } else {
        let (done, start) = scan_bounds(s.drop_last());
        let i = s.len() - 1;
        if s.last() == '\n' {
            let end = if i > start && s[i - 1] == '\r' {
                i - 1
            } else {
                i
            };
            (done.push((start, end)), s.len() as int)
        } else {
            (done, start)
        }
    }
}

/// The start and end of each line of `s`, as [`lines_of`] splits it.
pub open spec fn line_bounds(s: Seq<char>) -> Seq<(int, int)> {
    let (done, start) = scan_bounds(s);
    if start < s.len() {
        done.push((start, s.len() as int))
    } else {
        done
    }
}

/// A list of spans read as pairs of integers.
pub open spec fn span_ints(spans: Seq<(usize, usize)>) -> Seq<(int, int)> {
    spans.map_values(|p: (usize, usize)| (p.0 as int, p.1 as int))
}

/// The texts that a list of spans cut out of `s`.
pub open spec fn span_texts(s: Seq<char>, spans: Seq<(usize, usize)>) -> Seq<Seq<char>> {
    spans.map_values(|p: (usize, usize)| s.subrange(p.0 as int, p.1 as int))
}

/// Every span lies inside `s` and is ordered.
pub open spec fn spans_within(s: Seq<char>, spans: Seq<(usize, usize)>) -> bool {
    forall|k: int| 0 <= k < spans.len() ==> #[trigger] spans[k].0 <= spans[k].1 <= s.len()
}

/// The position of each line of `s`, as start and end indices.
pub fn line_spans(s: &Vec<char>) -> (spans: Vec<(usize, usize)>)
    ensures
        spans_within(s@, spans@),
        span_texts(s@, spans@) == lines_of(s@),
        span_ints(spans@) == line_bounds(s@),
{
    let mut spans: Vec<(usize, usize)> = Vec::new();
    let mut start: usize = 0;
    let mut i: usize = 0;
    while i < s.len()
        invariant
            start <= i <= s.len(),
            spans_within(s@, spans@),
            scan_lines(s@.take(i as int)) == (span_texts(s@, spans@), s@.subrange(
                start as int,
                i as int,
            )),
            scan_bounds(s@.take(i as int)) == (span_ints(spans@), start as int),
        decreases s.len() - i,
    {
        assert(s@.take(i + 1).drop_last() =~= s@.take(i as int));
        assert(s@.take(i + 1).last() == s@[i as int]);
        assert(i > 0 ==> s@.take(i + 1)[i - 1] == s@[i - 1]);
        if s[i] == '\n' {
            let end = if i > start && s[i - 1] == '\r' {
                i - 1
            } else {
                i
            };
            assert(strip_cr(s@.subrange(start as int, i as int)) =~= s@.subrange(
                start as int,
                end as int,
            ));
            let ghost old_spans = spans@;
            spans.push((start, end));
            assert(span_texts(s@, spans@) =~= span_texts(s@, old_spans).push(
                s@.subrange(start as int, end as int),
            ));
            assert(span_ints(spans@) =~= span_ints(old_spans).push((start as int, end as int)));
            start = i + 1;
            assert(s@.subrange(start as int, i + 1) =~= Seq::<char>::empty());
        } else {
            assert(s@.subrange(start as int, i + 1) =~= s@.subrange(start as int, i as int).push(
                s@[i as int],
            ));
        }
        i += 1;
    }
    assert(s@.take(s.len() as int) =~= s@);
    if start < s.len() {
        let ghost old_spans = spans@;
        spans.push((start, s.len()));
        assert(span_texts(s@, spans@) =~= span_texts(s@, old_spans).push(
            s@.subrange(start as int, s.len() as int),
        ));
        assert(span_ints(spans@) =~= span_ints(old_spans).push((start as int, s.len() as int)));
    }
    spans
}

} // verus!
