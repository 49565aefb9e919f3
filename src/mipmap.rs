use crate::sample::Sample;
use vstd::arithmetic::power2::{lemma_pow2_unfold, lemma2_to64, pow2};
use vstd::prelude::*;

verus! {

/// One downsampling step: consecutive pairs, left to right, are replaced by
/// their average; a lone trailing element is kept as it is.
pub open spec fn downsampled<T: Sample>(s: Seq<T>) -> Seq<T> {
    Seq::new(
        ((s.len() + 1) / 2) as nat,
        |i: int|
            if 2 * i + 1 < s.len() {
                T::mean_spec(s[2 * i], s[2 * i + 1])
            } else {
                s[2 * i]
            },
    )
}

/// The levels built from `s`: `s` itself, then each downsampled level in
/// turn, up to the first one of length at most 1.
pub open spec fn pyramid<T: Sample>(s: Seq<T>) -> Seq<Seq<T>>
    decreases s.len(),
{
    if s.len() <= 1 {
        seq![s]
    } else {
        seq![s] + pyramid(downsampled(s))
    }
}

/// Creates several downsampled versions of a given vector.
/// All levels together take about twice the space of the original data.
pub struct MipMap1D<T> {
    data: Vec<Vec<T>>,
}

impl<T: Sample> View for MipMap1D<T> {
    type V = Seq<Seq<T>>;

    /// The levels, finest first.
    closed spec fn view(&self) -> Seq<Seq<T>> {
        self.data@.map_values(|v: Vec<T>| v@)
    }
}

impl<T: Sample> MipMap1D<T> {
    /// Builds every level from `source`: level 0 is `source`, and each
    /// further level is the downsampled previous one, until one of length
    /// at most 1 is reached.
    pub fn new(source: Vec<T>) -> (r: Self)
        ensures
            r@ == pyramid(source@),
    {
        let ghost s = source@;
        let mut data: Vec<Vec<T>> = Vec::new();
        data.push(source);
        proof {
            assert(data@.map_values(|v: Vec<T>| v@) =~= seq![s]);
        }
        while data[data.len() - 1].len() > 1
            invariant
                data.len() >= 1,
                data@.map_values(|v: Vec<T>| v@).take(data.len() - 1) + pyramid(
                    data[data.len() - 1]@,
                ) == pyramid(s),
            decreases data[data.len() - 1].len(),
        {
            let ghost before = data@.map_values(|v: Vec<T>| v@);
            let ghost cur = data[data.len() - 1]@;
            let next = Self::downsample(data[data.len() - 1].as_slice());
            data.push(next);
            proof {
                let after = data@.map_values(|v: Vec<T>| v@);
                assert(after.take(after.len() - 1) =~= before);
                assert(before =~= before.take(before.len() - 1) + seq![cur]);
            }
        }
        proof {
            let v = data@.map_values(|v: Vec<T>| v@);
            assert(v =~= v.take(v.len() - 1) + seq![data[data.len() - 1]@]);
        }
        Self { data }
    }

    /// Returns the total number of levels.
    pub fn num_levels(&self) -> (r: usize)
        ensures
            r == self@.len(),
    {
        self.data.len()
    }

    /// Returns the data on the given level: level 0 is the source data, and
    /// the higher the level, the coarser (shorter) the data. Returns `None`
    /// when the level is out of bounds.
    pub fn get_level(&self, level: usize) -> (r: Option<&Vec<T>>)
        ensures
            level < self@.len() ==> r.is_some() && r.unwrap()@ == self@[level as int],
            level >= self@.len() ==> r.is_none(),
    {
        if level >= self.num_levels() {
            return None;
        }
        Some(&self.data[level])
    }

    /// Returns all levels, finest first.
    pub fn levels(&self) -> (r: &Vec<Vec<T>>)
        ensures
            r@.map_values(|v: Vec<T>| v@) == self@,
    {
        &self.data
    }

    /// Downsamples a sequence to `ceil(len / 2)` elements by averaging each
    /// pair; a trailing odd element is kept unchanged.
    pub fn downsample(source: &[T]) -> (r: Vec<T>)
        ensures
            r@ == downsampled(source@),
    {
        let n = source.len();
        let m: usize = n / 2 + n % 2;
        let mut out: Vec<T> = Vec::new();
        let mut k: usize = 0;
        while k < m
            invariant
                n == source@.len(),
                m == (n + 1) / 2,
                k <= m,
                out@.len() == k,
                forall|j: int| 0 <= j < k ==> out@[j] == #[trigger] downsampled(source@)[j],
            decreases m - k,
        {
            let i: usize = 2 * k;
            if i + 1 < n {
                out.push(T::mean(source[i], source[i + 1]));
            } else {
                out.push(source[i]);
            }
            k = k + 1;
        }
        assert(out@ =~= downsampled(source@));
        out
    }
}

/// `k` is the base-2 logarithm of `n` rounded up: the least `k` with
/// `2^k >= n`.
pub open spec fn is_ceil_log2(k: nat, n: nat) -> bool {
    pow2(k) >= n && (k == 0 || pow2((k - 1) as nat) < n)
}

/// There is always at least one level, and level 0 is the input itself.
pub proof fn lemma_first_level_is_source<T: Sample>(s: Seq<T>)
    ensures
        pyramid(s).len() >= 1,
        pyramid(s)[0] == s,
    decreases s.len(),
{
    if s.len() > 1 {
        lemma_first_level_is_source(downsampled(s));
    }
}

/// For a non-empty input of length `n`, the number of levels is
/// `ceil(log2(n)) + 1`.
pub proof fn lemma_level_count<T: Sample>(s: Seq<T>)
    requires
        s.len() >= 1,
    ensures
        pyramid(s).len() >= 1,
        is_ceil_log2((pyramid(s).len() - 1) as nat, s.len()),
    decreases s.len(),
{
    lemma2_to64();
    if s.len() > 1 {
        let d = downsampled(s);
        lemma_level_count(d);
        let l = pyramid(d).len();
        assert(pyramid(s).len() == l + 1);
        lemma_pow2_unfold(l);
        if l >= 2 {
            lemma_pow2_unfold((l - 1) as nat);
        }
    }
}

/// For a non-empty input, the last level holds exactly one element.
pub proof fn lemma_last_level_is_single<T: Sample>(s: Seq<T>)
    requires
        s.len() >= 1,
    ensures
        pyramid(s).len() >= 1,
        pyramid(s).last().len() == 1,
    decreases s.len(),
{
    if s.len() > 1 {
        let d = downsampled(s);
        lemma_last_level_is_single(d);
        assert(pyramid(s).last() == pyramid(d).last());
    }
}

/// Each level after the first is the downsampled previous level, and so
/// has half its length, rounded up.
pub proof fn lemma_level_halves<T: Sample>(s: Seq<T>, k: int)
    requires
        1 <= k < pyramid(s).len(),
    ensures
        pyramid(s)[k] == downsampled(pyramid(s)[k - 1]),
        pyramid(s)[k].len() == (pyramid(s)[k - 1].len() + 1) / 2,
    decreases s.len(),
{
    let d = downsampled(s);
    assert(s.len() > 1);
    assert(pyramid(s)[k] == pyramid(d)[k - 1]);
    if k == 1 {
        lemma_first_level_is_source(d);
        lemma_first_level_is_source(s);
    } else {
        lemma_level_halves(d, k - 1);
        assert(pyramid(s)[k - 1] == pyramid(d)[k - 2]);
    }
}

/// Downsampling four elements averages the two pairs.
pub proof fn lemma_downsample_even<T: Sample>(a: T, b: T, c: T, d: T)
    ensures
        downsampled(seq![a, b, c, d]) == seq![T::mean_spec(a, b), T::mean_spec(c, d)],
{
    assert(downsampled(seq![a, b, c, d]) =~= seq![T::mean_spec(a, b), T::mean_spec(c, d)]);
}

/// Downsampling three elements averages the first pair and keeps the last
/// element unchanged.
pub proof fn lemma_downsample_odd<T: Sample>(a: T, b: T, c: T)
    ensures
        downsampled(seq![a, b, c]) == seq![T::mean_spec(a, b), c],
{
    assert(downsampled(seq![a, b, c]) =~= seq![T::mean_spec(a, b), c]);
}

/// Building from equal inputs gives equal levels.
pub proof fn lemma_build_deterministic<T: Sample>(s: Seq<T>, t: Seq<T>)
    requires
        s == t,
    ensures
        pyramid(s) == pyramid(t),
{
}

} // verus!
