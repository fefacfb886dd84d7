//! Byte-sequence primitives shared by the parser, the router and the
//! response builder: line splitting, whitespace tokenization, prefix
//! tests and NUL trimming, each with a spec-level definition and a
//! verified executable counterpart.

use vstd::prelude::*;
use vstd::slice::{slice_subrange, slice_to_vec};

verus! {

/// The bytes that Rust's whitespace splitting recognizes inside an
/// ASCII line: tab, vertical tab, form feed, carriage return, space.
/// Line feeds never occur here because lines are split on them first.
pub open spec fn is_ws(b: u8) -> bool {
    b == 32 || b == 9 || b == 11 || b == 12 || b == 13
}

pub fn is_ws_byte(b: u8) -> (r: bool)
    ensures
        r == is_ws(b),
{
    b == 32 || b == 9 || b == 11 || b == 12 || b == 13
}

/// ASCII lowercasing of a single byte.
pub open spec fn lower(b: u8) -> u8 {
    if 65 <= b && b <= 90 {
        (b + 32) as u8
    } else {
        b
    }
}

pub fn lower_byte(b: u8) -> (r: u8)
    ensures
        r == lower(b),
{
    if 65 <= b && b <= 90 {
        b + 32
    } else {
        b
    }
}

/// Index of the first line feed in `s`, or `s.len()` if there is none.
pub open spec fn find_nl(s: Seq<u8>) -> nat
    decreases s.len(),
{
    if s.len() == 0 {
        0
    } else if s[0] == 10 {
        0
    } else {
        (1 + find_nl(s.skip(1))) as nat
    }
}

pub proof fn lemma_find_nl_from(s: Seq<u8>, i: int)
    requires
        0 <= i <= s.len(),
        forall|k: int| 0 <= k < i ==> s[k] != 10,
        i == s.len() || s[i] == 10,
    ensures
        find_nl(s) == i,
    decreases s.len(),
{
    if i == 0 {
        if s.len() > 0 {
            assert(s[0] == 10);
        }
    } else {
        assert(s[0] != 10);
        let t = s.skip(1);
        assert forall|k: int| 0 <= k < i - 1 implies t[k] != 10 by {
            assert(t[k] == s[k + 1]);
        }
        if i - 1 < t.len() {
            assert(t[i - 1] == s[i]);
        }
        lemma_find_nl_from(t, i - 1);
    }
}

/// A line with a trailing carriage return loses it; any other line is
/// kept as it is.
pub open spec fn strip_cr(l: Seq<u8>) -> Seq<u8> {
    if l.len() > 0 && l[l.len() - 1] == 13 {
        l.drop_last()
    } else {
        l
    }
}

/// The lines of `s`, split on line feeds, each stripped of a carriage
/// return that stood before the line feed.  A final fragment without a
/// terminator is a line of its own; a trailing line feed adds no empty
/// line; the empty input has no lines.  This matches how the raw
/// request text is cut into lines.
pub open spec fn split_lines(s: Seq<u8>) -> Seq<Seq<u8>>
    decreases s.len(),
{
    if s.len() == 0 {
        seq![]
    } else {
        let i = find_nl(s);
        if i >= s.len() {
            seq![s]
        } else {
            seq![strip_cr(s.take(i as int))] + split_lines(s.skip(i + 1 as int))
        }
    }
}

/// `s` with its leading whitespace removed.
pub open spec fn skip_ws(s: Seq<u8>) -> Seq<u8>
    decreases s.len(),
{
    if s.len() > 0 && is_ws(s[0]) {
        skip_ws(s.skip(1))
    } else {
        s
    }
}

/// The maximal whitespace-free prefix of `s`.
pub open spec fn take_tok(s: Seq<u8>) -> Seq<u8>
    decreases s.len(),
{
    if s.len() > 0 && !is_ws(s[0]) {
        seq![s[0]] + take_tok(s.skip(1))
    } else {
        seq![]
    }
}

/// `s` with its maximal whitespace-free prefix removed.
pub open spec fn drop_tok(s: Seq<u8>) -> Seq<u8>
    decreases s.len(),
{
    if s.len() > 0 && !is_ws(s[0]) {
        drop_tok(s.skip(1))
    } else {
        s
    }
}

pub proof fn lemma_skip_ws_at(s: Seq<u8>, i: int)
    requires
        0 <= i <= s.len(),
        forall|k: int| 0 <= k < i ==> is_ws(s[k]),
        i == s.len() || !is_ws(s[i]),
    ensures
        skip_ws(s) == s.skip(i),
    decreases s.len(),
{
    if i == 0 {
        assert(s.skip(0) =~= s);
    } else {
        assert(is_ws(s[0]));
        let t = s.skip(1);
        assert forall|k: int| 0 <= k < i - 1 implies is_ws(t[k]) by {
            assert(t[k] == s[k + 1]);
        }
        if i - 1 < t.len() {
            assert(t[i - 1] == s[i]);
        }
        lemma_skip_ws_at(t, i - 1);
        assert(t.skip(i - 1) =~= s.skip(i));
    }
}

pub proof fn lemma_tok_at(s: Seq<u8>, j: int)
    requires
        0 <= j <= s.len(),
        forall|k: int| 0 <= k < j ==> !is_ws(s[k]),
        j == s.len() || is_ws(s[j]),
    ensures
        take_tok(s) == s.take(j),
        drop_tok(s) == s.skip(j),
    decreases s.len(),
{
    if j == 0 {
        assert(s.take(0) =~= Seq::<u8>::empty());
        assert(s.skip(0) =~= s);
    } else {
        assert(!is_ws(s[0]));
        let t = s.skip(1);
        assert forall|k: int| 0 <= k < j - 1 implies !is_ws(t[k]) by {
            assert(t[k] == s[k + 1]);
        }
        if j - 1 < t.len() {
            assert(t[j - 1] == s[j]);
        }
        lemma_tok_at(t, j - 1);
        assert(seq![s[0]] + t.take(j - 1) =~= s.take(j));
        assert(t.skip(j - 1) =~= s.skip(j));
    }
}

/// Whether `p` is a prefix of `s`.
pub open spec fn has_prefix(s: Seq<u8>, p: Seq<u8>) -> bool {
    s.len() >= p.len() && s.take(p.len() as int) == p
}

/// `s` without its trailing NUL bytes.
pub open spec fn trim_nul_end(s: Seq<u8>) -> Seq<u8>
    decreases s.len(),
{
    if s.len() > 0 && s[s.len() - 1] == 0 {
        trim_nul_end(s.drop_last())
    } else {
        s
    }
}

/// `s` without its leading NUL bytes.
pub open spec fn trim_nul_start(s: Seq<u8>) -> Seq<u8>
    decreases s.len(),
{
    if s.len() > 0 && s[0] == 0 {
        trim_nul_start(s.skip(1))
    } else {
        s
    }
}

/// `s` without NUL padding on either end, as a stored file body is
/// taken from the fixed-size read buffer.
pub open spec fn trim_nul(s: Seq<u8>) -> Seq<u8> {
    trim_nul_start(trim_nul_end(s))
}

/// A copy of `v[i..j]`.
pub fn subvec(v: &Vec<u8>, i: usize, j: usize) -> (out: Vec<u8>)
    requires
        i <= j <= v@.len(),
    ensures
        out@ == v@.subrange(i as int, j as int),
{
    slice_to_vec(slice_subrange(v.as_slice(), i, j))
}

/// Whether two byte vectors hold the same bytes.
pub fn bytes_eq(a: &Vec<u8>, b: &Vec<u8>) -> (r: bool)
    ensures
        r == (a@ == b@),
{
    if a.len() != b.len() {
        return false;
    }
    let n = a.len();
    let mut i: usize = 0;
    while i < n
        invariant
            i <= n,
            n == a@.len() == b@.len(),
            forall|k: int| 0 <= k < i ==> a@[k] == b@[k],
        decreases n - i,
    {
        if a[i] != b[i] {
            return false;
        }
        i += 1;
    }
    proof {
        assert(a@ =~= b@);
    }
    true
}

/// Whether the bytes of `p` stand at the front of `s`.
pub fn starts_with(s: &Vec<u8>, p: &Vec<u8>) -> (r: bool)
    ensures
        r == has_prefix(s@, p@),
{
    let m = p.len();
    if s.len() < m {
        return false;
    }
    let mut i: usize = 0;
    while i < m
        invariant
            i <= m,
            m == p@.len() <= s@.len(),
            forall|k: int| 0 <= k < i ==> s@[k] == p@[k],
        decreases m - i,
    {
        if s[i] != p[i] {
            proof {
                assert(s@.take(m as int)[i as int] != p@[i as int]);
            }
            return false;
        }
        i += 1;
    }
    proof {
        assert(s@.take(m as int) =~= p@);
    }
    true
}

/// Appends the bytes of `src` to `dst`.
pub fn push_all(dst: &mut Vec<u8>, src: &Vec<u8>)
    ensures
        final(dst)@ == old(dst)@ + src@,
{
    let n = src.len();
    let mut i: usize = 0;
    while i < n
        invariant
            i <= n,
            n == src@.len(),
            dst@ == old(dst)@ + src@.take(i as int),
        decreases n - i,
    {
        dst.push(src[i]);
        proof {
            assert(old(dst)@ + src@.take(i as int) + seq![src@[i as int]] =~= old(dst)@
                + src@.take(i + 1));
        }
        i += 1;
    }
    proof {
        assert(src@.take(n as int) =~= src@);
    }
}

/// Cuts `text` into lines exactly as `split_lines` describes.
pub fn split_lines_exec(text: &Vec<u8>) -> (lines: Vec<Vec<u8>>)
    ensures
        lines.deep_view() == split_lines(text@),
{
    let n = text.len();
    let mut lines: Vec<Vec<u8>> = Vec::new();
    let mut pos: usize = 0;
    proof {
        assert(lines.deep_view() =~~= Seq::<Seq<u8>>::empty());
        assert(text@.skip(0) =~= text@);
        assert(lines.deep_view() + split_lines(text@) =~~= split_lines(text@));
    }
    while pos < n
        invariant
            pos <= n,
            n == text@.len(),
            lines.deep_view() + split_lines(text@.skip(pos as int)) == split_lines(text@),
        decreases n - pos,
    {
        let ghost prev = lines.deep_view();
        let ghost rem = text@.skip(pos as int);
        let mut j: usize = pos;
        while j < n && text[j] != 10
            invariant
                pos <= j <= n,
                n == text@.len(),
                forall|k: int| pos <= k < j ==> text@[k] != 10,
            decreases n - j,
        {
            j += 1;
        }
        proof {
            assert forall|k: int| 0 <= k < j - pos implies rem[k] != 10 by {
                assert(rem[k] == text@[pos + k]);
            }
            if j < n {
                assert(rem[j - pos] == text@[j as int]);
            }
            lemma_find_nl_from(rem, j - pos);
        }
        if j == n {
            let line = subvec(text, pos, n);
            proof {
                assert(line@ =~= rem);
                assert(split_lines(rem) == seq![rem]);
            }
            lines.push(line);
            pos = n;
            proof {
                assert(text@.skip(n as int).len() == 0);
                assert(lines.deep_view() =~~= prev.push(rem));
                assert(prev.push(rem) + split_lines(text@.skip(pos as int)) =~~= prev
                    + split_lines(rem));
            }
        } else {
            let ghost i = j - pos;
            let line = if j > pos && text[j - 1] == 13 {
                subvec(text, pos, j - 1)
            } else {
                subvec(text, pos, j)
            };
            proof {
                assert(rem.take(i) =~= text@.subrange(pos as int, j as int));
                if j > pos && text@[j as int - 1] == 13 {
                    assert(rem.take(i)[i - 1] == 13);
                    assert(rem.take(i).drop_last() =~= text@.subrange(pos as int, j as int - 1));
                    assert(line@ == strip_cr(rem.take(i)));
                } else {
                    if i > 0 {
                        assert(rem.take(i)[i - 1] == text@[j as int - 1]);
                    }
                    assert(line@ == strip_cr(rem.take(i)));
                }
                assert(split_lines(rem) == seq![strip_cr(rem.take(i))] + split_lines(
                    rem.skip(i + 1),
                ));
                assert(rem.skip(i + 1) =~= text@.skip(j + 1));
            }
            lines.push(line);
            pos = j + 1;
            proof {
                assert(lines.deep_view() =~~= prev.push(line@));
                assert(prev.push(line@) + split_lines(text@.skip(pos as int)) =~~= prev + (seq![
                    strip_cr(rem.take(i)),
                ] + split_lines(rem.skip(i + 1))));
            }
        }
    }
    proof {
        assert(text@.skip(pos as int).len() == 0);
        assert(lines.deep_view() + split_lines(text@.skip(pos as int)) =~~= lines.deep_view());
    }
    lines
}

/// `s` with NUL padding removed from both ends, as `trim_nul`
/// describes.
pub fn trim_nul_exec(s: &Vec<u8>) -> (out: Vec<u8>)
    ensures
        out@ == trim_nul(s@),
{
    let n = s.len();
    let mut end: usize = n;
    proof {
        assert(s@.take(n as int) =~= s@);
    }
    while end > 0 && s[end - 1] == 0
        invariant
            end <= n,
            n == s@.len(),
            trim_nul_end(s@) == trim_nul_end(s@.take(end as int)),
        decreases end,
    {
        proof {
            let t = s@.take(end as int);
            assert(t[end - 1] == 0);
            assert(t.drop_last() =~= s@.take(end - 1));
        }
        end -= 1;
    }
    proof {
        let t = s@.take(end as int);
        if end > 0 {
            assert(t[end - 1] == s@[end - 1]);
        }
        assert(trim_nul_end(t) == t);
    }
    let mut start: usize = 0;
    proof {
        assert(s@.take(end as int).skip(0) =~= s@.take(end as int));
    }
    while start < end && s[start] == 0
        invariant
            start <= end <= n,
            n == s@.len(),
            trim_nul_start(s@.take(end as int)) == trim_nul_start(
                s@.take(end as int).skip(start as int),
            ),
        decreases end - start,
    {
        proof {
            let u = s@.take(end as int).skip(start as int);
            assert(u[0] == s@[start as int]);
            assert(u.skip(1) =~= s@.take(end as int).skip(start + 1));
        }
        start += 1;
    }
    proof {
        let u = s@.take(end as int).skip(start as int);
        if start < end {
            assert(u[0] == s@[start as int]);
        }
        assert(trim_nul_start(u) == u);
        assert(u =~= s@.subrange(start as int, end as int));
    }
    subvec(s, start, end)
}

} // verus!
