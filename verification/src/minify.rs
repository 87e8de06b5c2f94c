//! XML minification: every line of the text is trimmed of leading and
//! trailing whitespace, empty lines disappear, and the remaining lines are
//! concatenated with no separator.  The transformation never fails and is
//! proved idempotent and token-preserving.
//!
//! Text is handled as UTF-8 bytes.  Whitespace here is the ASCII whitespace
//! set (space, tab, line feed, vertical tab, form feed, carriage return);
//! trimming those at line ends never splits a multi-byte UTF-8 sequence.
use vstd::prelude::*;

verus! {

/// ASCII whitespace: space, tab, line feed, vertical tab, form feed,
/// carriage return.
pub open spec fn is_space(b: u8) -> bool {
    b == 32 || b == 9 || b == 10 || b == 11 || b == 12 || b == 13
}

/// `l` without its leading whitespace.
pub open spec fn drop_leading(l: Seq<u8>) -> Seq<u8>
    decreases l.len(),
{
    if l.len() > 0 && is_space(l[0]) {
        drop_leading(l.drop_first())
    } else {
        l
    }
}

/// `l` without its trailing whitespace.
pub open spec fn drop_trailing(l: Seq<u8>) -> Seq<u8>
    decreases l.len(),
{
    if l.len() > 0 && is_space(l.last()) {
        drop_trailing(l.drop_last())
    } else {
        l
    }
}

/// `l` without leading and trailing whitespace.
pub open spec fn trim(l: Seq<u8>) -> Seq<u8> {
    drop_trailing(drop_leading(l))
}

/// Length of the first line of `s`: the index of the first line feed, or the
/// whole length if there is none.
pub open spec fn line_len(s: Seq<u8>) -> int
    decreases s.len(),
{
    if s.len() == 0 {
        0
    } else if s[0] == 10 {
        0
    } else {
        1 + line_len(s.drop_first())
    }
}

/// The minified text: each line trimmed, the results concatenated.  Lines
/// whose trim is empty contribute nothing, so dropping empty lines is already
/// part of this definition.
pub open spec fn minify(s: Seq<u8>) -> Seq<u8>
    decreases s.len(),
{
    if s.len() == 0 {
        Seq::empty()
    } else {
        let k = line_len(s);
        if 0 <= k < s.len() {
            trim(s.take(k)) + minify(s.skip(k + 1))
        } else {
            trim(s)
        }
    }
}

/// The non-whitespace bytes of `s`, in order.
pub open spec fn strip_spaces(s: Seq<u8>) -> Seq<u8>
    decreases s.len(),
{
    if s.len() == 0 {
        Seq::empty()
    } else if is_space(s[0]) {
        strip_spaces(s.drop_first())
    } else {
        seq![s[0]] + strip_spaces(s.drop_first())
    }
}

/// Empty, or beginning and ending with a non-whitespace byte.
pub open spec fn is_trimmed(x: Seq<u8>) -> bool {
    x.len() == 0 || (!is_space(x[0]) && !is_space(x.last()))
}

/// Relies on `core::str::from_utf8`: it accepts exactly the valid UTF-8
/// byte sequences.
#[verifier::external_body]
pub fn is_valid_utf8(data: &Vec<u8>) -> (r: bool)
    ensures
        r == vstd::utf8::valid_utf8(data@),
{
    core::str::from_utf8(data.as_slice()).is_ok()
}

fn is_space_byte(b: u8) -> (r: bool)
    ensures
        r == is_space(b),
{
    b == 32 || b == 9 || b == 10 || b == 11 || b == 12 || b == 13
}

proof fn lemma_line_len(s: Seq<u8>)
    ensures
        0 <= line_len(s) <= s.len(),
        line_len(s) < s.len() ==> s[line_len(s)] == 10,
        forall|t: int| 0 <= t < line_len(s) ==> s[t] != 10,
    decreases s.len(),
{
    if s.len() == 0 {
    } else if s[0] == 10 {
    } else {
        lemma_line_len(s.drop_first());
        assert forall|t: int| 0 <= t < line_len(s) implies s[t] != 10 by {
            if t > 0 {
                assert(s.drop_first()[t - 1] != 10);
            }
        }
    }
}

/// Where the leading whitespace of `l` ends: `drop_leading` keeps exactly the
/// suffix from that point.
proof fn lemma_drop_leading_skip(l: Seq<u8>) -> (p: int)
    ensures
        0 <= p <= l.len(),
        forall|t: int| 0 <= t < p ==> is_space(l[t]),
        p < l.len() ==> !is_space(l[p]),
        drop_leading(l) == l.skip(p),
    decreases l.len(),
{
    if l.len() > 0 && is_space(l[0]) {
        let p0 = lemma_drop_leading_skip(l.drop_first());
        assert(l.drop_first().skip(p0) =~= l.skip(p0 + 1));
        assert forall|t: int| 0 <= t < p0 + 1 implies is_space(l[t]) by {
            if t > 0 {
                assert(is_space(l.drop_first()[t - 1]));
            }
        }
        p0 + 1
    } else {
        assert(l.skip(0) =~= l);
        0
    }
}

/// Where the trailing whitespace of `l` begins: `drop_trailing` keeps exactly
/// the prefix up to that point.
proof fn lemma_drop_trailing_take(l: Seq<u8>) -> (q: int)
    ensures
        0 <= q <= l.len(),
        forall|t: int| q <= t < l.len() ==> is_space(l[t]),
        q > 0 ==> !is_space(l[q - 1]),
        drop_trailing(l) == l.take(q),
    decreases l.len(),
{
    if l.len() > 0 && is_space(l.last()) {
        let q0 = lemma_drop_trailing_take(l.drop_last());
        assert(l.drop_last().take(q0) =~= l.take(q0));
        assert forall|t: int| q0 <= t < l.len() implies is_space(l[t]) by {
            if t < l.len() - 1 {
                assert(is_space(l.drop_last()[t]));
            }
        }
        q0
    } else {
        assert(l.take(l.len() as int) =~= l);
        l.len() as int
    }
}

/// Strip insignificant whitespace from XML text: trim every line, drop empty
/// lines, join the rest with no separator.  Always succeeds; empty input
/// gives empty output.
#[verifier::loop_isolation(false)]
#[verifier::rlimit(60)]
pub fn optimize_xml(xml: &Vec<u8>) -> (r: Vec<u8>)
    ensures
        r@ == minify(xml@),
{
    let n = xml.len();
    let mut out: Vec<u8> = Vec::new();
    let mut i: usize = 0;
    proof {
        assert(xml@.skip(0) =~= xml@);
        assert(out@ + minify(xml@) =~= minify(xml@));
    }
    while i < n
        invariant
            0 <= i <= n,
            minify(xml@) == out@ + minify(xml@.skip(i as int)),
        decreases n - i,
    {
        let ghost rest = xml@.skip(i as int);
        // Find the end of the current line.
        let mut j: usize = i;
        while j < n && xml[j] != 10
            invariant
                i <= j <= n,
                forall|t: int| i <= t < j ==> xml@[t] != 10,
            decreases n - j,
        {
            j += 1;
        }
        // Trim the line in place: `a` passes leading whitespace, `b` backs
        // over trailing whitespace.
        let mut a: usize = i;
        while a < j && is_space_byte(xml[a])
            invariant
                i <= a <= j,
                forall|t: int| i <= t < a ==> is_space(xml@[t]),
            decreases j - a,
        {
            a += 1;
        }
        let mut b: usize = j;
        while b > a && is_space_byte(xml[b - 1])
            invariant
                a <= b <= j,
                forall|t: int| b <= t < j ==> is_space(xml@[t]),
            decreases b,
        {
            b -= 1;
        }
        // Append the trimmed line.
        let ghost out_before = out@;
        let mut t: usize = a;
        while t < b
            invariant
                a <= t <= b,
                out@ == out_before + xml@.subrange(a as int, t as int),
            decreases b - t,
        {
            let byte = xml[t];
            out.push(byte);
            assert(out@ =~= out_before + xml@.subrange(a as int, t + 1 as int));
            t += 1;
        }
        proof {
            let line = rest.take(j - i);
            assert(line =~= xml@.subrange(i as int, j as int));
            // The scan found exactly the first line of `rest`.
            lemma_line_len(rest);
            assert(rest.len() == n - i);
            assert(forall|u: int| 0 <= u < rest.len() ==> rest[u] == xml@[i as int + u]);
            let k = line_len(rest);
            if k < j - i {
                assert(rest[k] == 10);
                assert(xml@[i as int + k] != 10);
                assert(false);
            }
            if k > j - i {
                assert(j < n);
                assert(rest[j - i] != 10);
                assert(xml@[j as int] == 10);
                assert(false);
            }
            assert(line_len(rest) == j - i);
            // The trim of that line is the byte range `[a, b)`.
            assert(line.len() == j - i);
            assert(forall|u: int| 0 <= u < line.len() ==> line[u] == xml@[i as int + u]);
            let p = lemma_drop_leading_skip(line);
            if p < a - i {
                assert(!is_space(line[p]));
                assert(is_space(xml@[i as int + p]));
                assert(false);
            }
            if p > a - i {
                assert(a < j);
                assert(is_space(line[a - i]));
                assert(!is_space(xml@[a as int]));
                assert(false);
            }
            assert(p == a - i);
            let m = line.skip(p);
            assert(m.len() == j - a);
            assert(forall|u: int| 0 <= u < m.len() ==> m[u] == xml@[a as int + u]);
            let q = lemma_drop_trailing_take(m);
            if a < j && b == a {
                assert(!is_space(line[p]));
                assert(is_space(xml@[b as int]));
                assert(false);
            }
            if q < b - a {
                assert(!is_space(xml@[b - 1 as int]));
                assert(is_space(m[b - a - 1 as int]));
                assert(false);
            }
            if q > b - a {
                assert(!is_space(m[q - 1]));
                assert(is_space(xml@[a as int + q - 1]));
                assert(false);
            }
            assert(q == b - a);
            assert(trim(line) =~= xml@.subrange(a as int, b as int));
            // Fold one line into the invariant.
            if j < n {
                assert(rest.skip(j - i + 1) =~= xml@.skip(j + 1 as int));
                assert(minify(rest) == trim(line) + minify(xml@.skip(j + 1 as int)));
                assert(minify(xml@) =~= out@ + minify(xml@.skip(j + 1 as int)));
            } else {
                assert(line =~= rest);
                assert(minify(rest) == trim(rest));
                assert(xml@.skip(n as int) =~= Seq::<u8>::empty());
                assert(minify(xml@) =~= out@ + minify(xml@.skip(n as int)));
            }
        }
        i = if j < n {
            j + 1
        } else {
            n
        };
    }
    proof {
        assert(xml@.skip(n as int) =~= Seq::<u8>::empty());
        assert(minify(xml@) =~= out@);
    }
    out
}

/// Minified output never holds a line feed: the only line separator is
/// consumed between lines, and each trimmed line is free of it.
pub proof fn lemma_minify_no_newline(s: Seq<u8>)
    ensures
        forall|t: int| 0 <= t < minify(s).len() ==> minify(s)[t] != 10,
    decreases s.len(),
{
    if s.len() == 0 {
    } else {
        lemma_line_len(s);
        let k = line_len(s);
        if 0 <= k < s.len() {
            let line = s.take(k);
            let p = lemma_drop_leading_skip(line);
            let q = lemma_drop_trailing_take(line.skip(p));
            lemma_minify_no_newline(s.skip(k + 1));
            assert forall|t: int| 0 <= t < minify(s).len() implies minify(s)[t] != 10 by {
                if t < trim(line).len() {
                    assert(trim(line)[t] == line[p + t]);
                } else {
                    assert(minify(s)[t] == minify(s.skip(k + 1))[t - trim(line).len()]);
                }
            }
        } else {
            let p = lemma_drop_leading_skip(s);
            let q = lemma_drop_trailing_take(s.skip(p));
            assert forall|t: int| 0 <= t < minify(s).len() implies minify(s)[t] != 10 by {
                assert(trim(s)[t] == s[p + t]);
            }
        }
    }
}

/// Minification never grows the text: the output is at most as long as the
/// input.
pub proof fn lemma_minify_shrinks(s: Seq<u8>)
    ensures
        minify(s).len() <= s.len(),
    decreases s.len(),
{
    if s.len() == 0 {
    } else {
        lemma_line_len(s);
        let k = line_len(s);
        if 0 <= k < s.len() {
            let line = s.take(k);
            let p = lemma_drop_leading_skip(line);
            let q = lemma_drop_trailing_take(line.skip(p));
            lemma_minify_shrinks(s.skip(k + 1));
        } else {
            let p = lemma_drop_leading_skip(s);
            let q = lemma_drop_trailing_take(s.skip(p));
        }
    }
}

proof fn lemma_trim_trimmed(l: Seq<u8>)
    ensures
        is_trimmed(trim(l)),
{
    let p = lemma_drop_leading_skip(l);
    let m = l.skip(p);
    let q = lemma_drop_trailing_take(m);
    if q > 0 {
        assert(trim(l)[0] == m[0]);
        assert(trim(l).last() == m[q - 1]);
    }
}

proof fn lemma_trimmed_concat(x: Seq<u8>, y: Seq<u8>)
    requires
        is_trimmed(x),
        is_trimmed(y),
    ensures
        is_trimmed(x + y),
{
    if x.len() == 0 {
        assert(x + y =~= y);
    } else if y.len() == 0 {
        assert(x + y =~= x);
    } else {
        assert((x + y)[0] == x[0]);
        assert((x + y).last() == y.last());
    }
}

proof fn lemma_minify_trimmed(s: Seq<u8>)
    ensures
        is_trimmed(minify(s)),
    decreases s.len(),
{
    if s.len() == 0 {
    } else {
        let k = line_len(s);
        if 0 <= k < s.len() {
            lemma_trim_trimmed(s.take(k));
            lemma_minify_trimmed(s.skip(k + 1));
            lemma_trimmed_concat(trim(s.take(k)), minify(s.skip(k + 1)));
        } else {
            lemma_trim_trimmed(s);
        }
    }
}

proof fn lemma_trim_of_trimmed(x: Seq<u8>)
    requires
        is_trimmed(x),
    ensures
        trim(x) == x,
{
    assert(drop_leading(x) == x);
    assert(drop_trailing(x) == x);
}

/// Minification is idempotent: minifying already-minified text gives the
/// same text back, with no further shrinkage and no growth.
pub proof fn lemma_minify_idempotent(s: Seq<u8>)
    ensures
        minify(minify(s)) == minify(s),
{
    let m = minify(s);
    lemma_minify_no_newline(s);
    lemma_line_len(m);
    if line_len(m) < m.len() {
        assert(m[line_len(m)] == 10);
        assert(false);
    }
    if m.len() == 0 {
        assert(minify(m) == Seq::<u8>::empty());
    } else {
        assert(minify(m) == trim(m));
        lemma_minify_trimmed(s);
        lemma_trim_of_trimmed(m);
    }
}

proof fn lemma_strip_concat(x: Seq<u8>, y: Seq<u8>)
    ensures
        strip_spaces(x + y) == strip_spaces(x) + strip_spaces(y),
    decreases x.len(),
{
    if x.len() == 0 {
        assert(x + y =~= y);
        assert(strip_spaces(x) + strip_spaces(y) =~= strip_spaces(y));
    } else {
        assert((x + y).drop_first() =~= x.drop_first() + y);
        lemma_strip_concat(x.drop_first(), y);
        if is_space(x[0]) {
        } else {
            assert(seq![x[0]] + (strip_spaces(x.drop_first()) + strip_spaces(y)) =~= (seq![x[0]]
                + strip_spaces(x.drop_first())) + strip_spaces(y));
        }
    }
}

proof fn lemma_strip_all_spaces(s: Seq<u8>)
    requires
        forall|t: int| 0 <= t < s.len() ==> is_space(s[t]),
    ensures
        strip_spaces(s) == Seq::<u8>::empty(),
    decreases s.len(),
{
    if s.len() > 0 {
        lemma_strip_all_spaces(s.drop_first());
    }
}

proof fn lemma_strip_trim(l: Seq<u8>)
    ensures
        strip_spaces(trim(l)) == strip_spaces(l),
{
    let p = lemma_drop_leading_skip(l);
    let m = l.skip(p);
    let q = lemma_drop_trailing_take(m);
    let lead = l.take(p);
    let tail = m.skip(q);
    assert(l =~= lead + (trim(l) + tail));
    lemma_strip_concat(lead, trim(l) + tail);
    lemma_strip_concat(trim(l), tail);
    assert forall|t: int| 0 <= t < lead.len() implies is_space(lead[t]) by {
        assert(lead[t] == l[t]);
    }
    lemma_strip_all_spaces(lead);
    assert forall|t: int| 0 <= t < tail.len() implies is_space(tail[t]) by {
        assert(tail[t] == m[q + t]);
    }
    lemma_strip_all_spaces(tail);
    assert(strip_spaces(l) =~= strip_spaces(trim(l)));
}

/// Minification only removes whitespace: the non-whitespace bytes of the
/// output are exactly those of the input, in the same order.
pub proof fn lemma_minify_preserves_tokens(s: Seq<u8>)
    ensures
        strip_spaces(minify(s)) == strip_spaces(s),
    decreases s.len(),
{
    if s.len() == 0 {
    } else {
        lemma_line_len(s);
        let k = line_len(s);
        if 0 <= k < s.len() {
            let line = s.take(k);
            let rest = s.skip(k + 1);
            assert(s =~= line + (seq![s[k]] + rest));
            lemma_strip_concat(line, seq![s[k]] + rest);
            lemma_strip_concat(seq![s[k]], rest);
            lemma_strip_all_spaces(seq![s[k]]);
            lemma_strip_concat(trim(line), minify(rest));
            lemma_strip_trim(line);
            lemma_minify_preserves_tokens(rest);
            assert(strip_spaces(minify(s)) =~= strip_spaces(s));
        } else {
            lemma_strip_trim(s);
        }
    }
}

} // verus!
