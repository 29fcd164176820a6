//! The renderer: min/max scan, quantization, and the two rendering modes.

use vstd::prelude::*;
use vstd::string::StringExecFns;

use crate::palette::blank;
use crate::palette::blank_str;
use crate::palette::glyph_str;
use crate::palette::palette;

verus! {

/// The least sample of a non-empty sequence.
pub open spec fn spec_min(s: Seq<i64>) -> int
    recommends
        s.len() > 0,
    decreases s.len(),
{
    if s.len() <= 1 {
        s[0] as int
    } else {
        let m = spec_min(s.drop_last());
        if (s.last() as int) < m {
            s.last() as int
        } else {
            m
        }
    }
}

/// The greatest sample of a non-empty sequence.
pub open spec fn spec_max(s: Seq<i64>) -> int
    recommends
        s.len() > 0,
    decreases s.len(),
{
    if s.len() <= 1 {
        s[0] as int
    } else {
        let m = spec_max(s.drop_last());
        if (s.last() as int) > m {
            s.last() as int
        } else {
            m
        }
    }
}

/// Every sample lies between the minimum and the maximum.
pub proof fn lemma_min_max_bounds(s: Seq<i64>, i: int)
    requires
        0 <= i < s.len(),
    ensures
        spec_min(s) <= s[i] as int <= spec_max(s),
    decreases s.len(),
{
    if s.len() > 1 && i < s.len() - 1 {
        lemma_min_max_bounds(s.drop_last(), i);
    }
}

/// The palette index assigned to a value `v` scaled linearly between
/// `lo` and `hi`: `floor((v - lo) * 7 / (hi - lo))`. When the range is
/// degenerate (`hi == lo`, the flat line) every value maps to index 0.
pub open spec fn bucket(v: int, lo: int, hi: int) -> int
    recommends
        lo <= v <= hi,
{
    if hi <= lo {
        0
    } else {
        (7 * (v - lo)) / (hi - lo)
    }
}

/// A bucket of a value within the scaling range is a valid palette index.
pub proof fn lemma_bucket_in_range(v: int, lo: int, hi: int)
    requires
        lo <= v <= hi,
    ensures
        0 <= bucket(v, lo, hi) < 8,
{
    if lo < hi {
        let d = hi - lo;
        vstd::arithmetic::div_mod::lemma_div_pos_is_pos(7 * (v - lo), d);
        vstd::arithmetic::div_mod::lemma_div_is_ordered(7 * (v - lo), 7 * d, d);
        vstd::arithmetic::div_mod::lemma_div_multiples_vanish(7, d);
    }
}

/// Quantization is monotone: a smaller value never gets a higher bucket.
pub proof fn lemma_bucket_monotone(a: int, b: int, lo: int, hi: int)
    requires
        a <= b,
    ensures
        bucket(a, lo, hi) <= bucket(b, lo, hi),
{
    if lo < hi {
        vstd::arithmetic::div_mod::lemma_div_is_ordered(7 * (a - lo), 7 * (b - lo), hi - lo);
    }
}

/// Computes the bucket of `v` for the range `lo..=hi` in exact integer
/// arithmetic; the intermediate products are taken at 128 bits, so no
/// sample value can overflow the computation.
fn bucket_exec(v: i64, lo: i64, hi: i64) -> (idx: usize)
    requires
        lo <= v <= hi,
    ensures
        idx as int == bucket(v as int, lo as int, hi as int),
        idx < 8,
{
    proof {
        lemma_bucket_in_range(v as int, lo as int, hi as int);
    }
    if hi <= lo {
        return 0;
    }
    let num: u128 = 7u128 * ((v as i128 - lo as i128) as u128);
    let den: u128 = (hi as i128 - lo as i128) as u128;
    let q: u128 = num / den;
    q as usize
}

/// Computes the least and the greatest sample in one pass.
fn min_max(values: &[i64]) -> (r: (i64, i64))
    requires
        values@.len() > 0,
    ensures
        r.0 as int == spec_min(values@),
        r.1 as int == spec_max(values@),
{
    let mut lo = values[0];
    let mut hi = values[0];
    let mut k: usize = 1;
    proof {
        assert(values@.take(1) =~= seq![values@[0]]);
    }
    while k < values.len()
        invariant
            1 <= k <= values@.len(),
            lo as int == spec_min(values@.take(k as int)),
            hi as int == spec_max(values@.take(k as int)),
        decreases values@.len() - k,
    {
        let v = values[k];
        proof {
            assert(values@.take(k + 1).drop_last() =~= values@.take(k as int));
            assert(values@.take(k + 1).last() == values@[k as int]);
        }
        if v < lo {
            lo = v;
        }
        if v > hi {
            hi = v;
        }
        k = k + 1;
    }
    proof {
        assert(values@.take(values@.len() as int) =~= values@);
    }
    (lo, hi)
}

/// The palette index assigned to sample `i` of a dense input.
pub open spec fn dense_index(s: Seq<i64>, i: int) -> int
    recommends
        0 <= i < s.len(),
{
    bucket(s[i] as int, spec_min(s), spec_max(s))
}

/// The glyphs a dense input renders to: one per sample, in input order,
/// each sample scaled between the minimum and the maximum of the input.
pub open spec fn dense_glyphs(s: Seq<i64>) -> Seq<char> {
    Seq::new(s.len(), |i: int| palette()[dense_index(s, i)])
}

/// Renders a dense sequence of samples as a sparkline: one glyph per
/// sample, chosen by linear min-max scaling onto the eight-glyph
/// palette. An empty input renders as the empty string; a flat line
/// (all samples equal) renders entirely as the lowest glyph.
pub fn render_dense(values: &[i64]) -> (out: String)
    ensures
        out@ == dense_glyphs(values@),
        out@.len() == values@.len(),
{
    let mut out = String::new();
    if values.len() == 0 {
        proof {
            assert(out@ =~= dense_glyphs(values@));
        }
        return out;
    }
    let (lo, hi) = min_max(values);
    let mut k: usize = 0;
    proof {
        assert(out@ =~= dense_glyphs(values@).take(0));
    }
    while k < values.len()
        invariant
            k <= values@.len(),
            values@.len() > 0,
            lo as int == spec_min(values@),
            hi as int == spec_max(values@),
            out@ == dense_glyphs(values@).take(k as int),
        decreases values@.len() - k,
    {
        let v = values[k];
        proof {
            lemma_min_max_bounds(values@, k as int);
        }
        let idx = bucket_exec(v, lo, hi);
        let g = glyph_str(idx);
        out.append(g);
        proof {
            assert(out@ =~= dense_glyphs(values@).take(k + 1));
        }
        k = k + 1;
    }
    proof {
        assert(dense_glyphs(values@).take(values@.len() as int) =~= dense_glyphs(values@));
    }
    out
}

/// The value an element contributes to the min/max scan in sparse mode:
/// an absent sample counts as zero there (and only there).
pub open spec fn sample_or_zero(o: Option<i64>) -> i64 {
    match o {
        Option::Some(v) => v,
        Option::None => 0i64,
    }
}

/// The sequence the sparse min/max scan runs over: the input with every
/// absent sample replaced by zero.
pub open spec fn sparse_values(s: Seq<Option<i64>>) -> Seq<i64> {
    Seq::new(s.len(), |i: int| sample_or_zero(s[i]))
}

/// The glyphs a sparse input renders to: absent samples become the
/// blank glyph; present samples are scaled between the minimum and the
/// maximum of the whole input taken with absences substituted as zero.
pub open spec fn sparse_glyphs(s: Seq<Option<i64>>) -> Seq<char> {
    Seq::new(
        s.len(),
        |i: int| match s[i] {
            Option::Some(v) => palette()[bucket(
                v as int,
                spec_min(sparse_values(s)),
                spec_max(sparse_values(s)),
            )],
            Option::None => blank(),
        },
    )
}

/// Renders a sequence of optional samples as a sparkline. Absent
/// samples render as a blank and are skipped by quantization, but they
/// still enter the min/max pass as the value zero, so a single absence
/// can shift the scale of every present sample.
pub fn render_sparse(values: &[Option<i64>]) -> (out: String)
    ensures
        out@ == sparse_glyphs(values@),
        out@.len() == values@.len(),
{
    let mut out = String::new();
    if values.len() == 0 {
        proof {
            assert(out@ =~= sparse_glyphs(values@));
        }
        return out;
    }
    let mut subst: Vec<i64> = Vec::new();
    let mut k: usize = 0;
    while k < values.len()
        invariant
            k <= values@.len(),
            subst@ == sparse_values(values@).take(k as int),
        decreases values@.len() - k,
    {
        let v = match values[k] {
            Option::Some(x) => x,
            Option::None => 0i64,
        };
        subst.push(v);
        proof {
            assert(subst@ =~= sparse_values(values@).take(k + 1));
        }
        k = k + 1;
    }
    proof {
        assert(sparse_values(values@).take(values@.len() as int) =~= sparse_values(values@));
    }
    let (lo, hi) = min_max(subst.as_slice());
    let mut k: usize = 0;
    proof {
        assert(out@ =~= sparse_glyphs(values@).take(0));
    }
    while k < values.len()
        invariant
            k <= values@.len(),
            values@.len() > 0,
            lo as int == spec_min(sparse_values(values@)),
            hi as int == spec_max(sparse_values(values@)),
            out@ == sparse_glyphs(values@).take(k as int),
        decreases values@.len() - k,
    {
        match values[k] {
            Option::Some(v) => {
                proof {
                    lemma_min_max_bounds(sparse_values(values@), k as int);
                    assert(sparse_values(values@)[k as int] == v);
                }
                let idx = bucket_exec(v, lo, hi);
                let g = glyph_str(idx);
                out.append(g);
            },
            Option::None => {
                let g = blank_str();
                out.append(g);
            },
        }
        proof {
            assert(out@ =~= sparse_glyphs(values@).take(k + 1));
        }
        k = k + 1;
    }
    proof {
        assert(sparse_glyphs(values@).take(values@.len() as int) =~= sparse_glyphs(values@));
    }
    out
}

/// On a sequence whose samples are all equal, the minimum and the
/// maximum are both that sample.
proof fn lemma_flat_min_max(s: Seq<i64>)
    requires
        s.len() > 0,
        forall|j: int| 0 <= j < s.len() ==> #[trigger] s[j] == s[0],
    ensures
        spec_min(s) == s[0] as int,
        spec_max(s) == s[0] as int,
    decreases s.len(),
{
    if s.len() > 1 {
        assert(forall|j: int| 0 <= j < s.drop_last().len() ==> #[trigger] s.drop_last()[j] == s.drop_last()[0]);
        lemma_flat_min_max(s.drop_last());
    }
}

/// The flat line: when every sample equals every other, every glyph of
/// the dense rendering is the lowest palette glyph.
pub proof fn lemma_flat_line(s: Seq<i64>)
    requires
        s.len() > 0,
        forall|j: int| 0 <= j < s.len() ==> #[trigger] s[j] == s[0],
    ensures
        forall|i: int| 0 <= i < s.len() ==> #[trigger] dense_glyphs(s)[i] == palette()[0],
{
    lemma_flat_min_max(s);
}

/// Monotonicity of dense rendering: a sample that is at most another
/// is assigned a palette index at most the other's.
pub proof fn lemma_dense_monotone(s: Seq<i64>, i: int, j: int)
    requires
        0 <= i < s.len(),
        0 <= j < s.len(),
        s[i] <= s[j],
    ensures
        dense_glyphs(s)[i] == palette()[dense_index(s, i)],
        dense_glyphs(s)[j] == palette()[dense_index(s, j)],
        dense_index(s, i) <= dense_index(s, j),
{
    lemma_bucket_monotone(s[i] as int, s[j] as int, spec_min(s), spec_max(s));
}

/// Dense rendering is deterministic: any two renderings of the same
/// input are equal.
pub proof fn lemma_dense_deterministic(s: Seq<i64>, a: Seq<char>, b: Seq<char>)
    requires
        a == dense_glyphs(s),
        b == dense_glyphs(s),
    ensures
        a == b,
{
}

/// Sparse rendering is deterministic: any two renderings of the same
/// input are equal.
pub proof fn lemma_sparse_deterministic(s: Seq<Option<i64>>, a: Seq<char>, b: Seq<char>)
    requires
        a == sparse_glyphs(s),
        b == sparse_glyphs(s),
    ensures
        a == b,
{
}

} // verus!
