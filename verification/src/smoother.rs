//! A rolling average over the latest samples of a value, used to damp an
//! agent's heading.
use vstd::prelude::*;
use crate::fixed::{trunc_div, div_toward_zero, lemma_trunc_div_bounds, magnitude};
use crate::vec2::Vec2;

verus! {

/// A value that can be averaged.
pub trait Sample: Copy {
    /// The mean of the samples, rounded toward zero.
    spec fn mean(samples: Seq<Self>) -> Self;

    /// Computes the mean of the samples.
    fn mean_of(samples: &Vec<Self>) -> (m: Self)
        requires
            1 <= samples@.len() <= i32::MAX,
        ensures
            m == Self::mean(samples@),
    ;

    /// The mean of equal samples is that sample.
    proof fn lemma_mean_of_constant(samples: Seq<Self>, v: Self)
        requires
            samples.len() >= 1,
            forall|i: int| 0 <= i < samples.len() ==> samples[i] == v,
        ensures
            Self::mean(samples) == v,
    ;
}

/// The sum of the first `n` values of `term`.
pub open spec fn total(n: int, term: spec_fn(int) -> int) -> int
    decreases n,
{
    if n <= 0 {
        0
    } else {
        total(n - 1, term) + term(n - 1)
    }
}

/// A sum of `n` equal terms is `n` times the term.
pub proof fn lemma_total_constant(n: int, term: spec_fn(int) -> int, v: int)
    requires
        n >= 0,
        forall|i: int| 0 <= i < n ==> #[trigger] term(i) == v,
    ensures
        total(n, term) == n * v,
    decreases n,
{
    if n > 0 {
        lemma_total_constant(n - 1, term, v);
        assert(n * v == (n - 1) * v + v) by (nonlinear_arith);
    } else {
        assert(n * v == 0) by (nonlinear_arith)
            requires
                n == 0,
        ;
    }
}

/// Dividing `n * v` by a positive `n`, rounding toward zero, gives `v` back.
pub proof fn lemma_trunc_div_multiple(n: int, v: int)
    requires
        n >= 1,
    ensures
        trunc_div(n * v, n) == v,
{
    if v >= 0 {
        assert(n * v >= 0) by (nonlinear_arith)
            requires
                n >= 1,
                v >= 0,
        ;
        assert(n * v == v * n + 0) by (nonlinear_arith);
        vstd::arithmetic::div_mod::lemma_fundamental_div_mod_converse(n * v, n, v, 0);
    } else {
        assert(n * v < 0) by (nonlinear_arith)
            requires
                n >= 1,
                v < 0,
        ;
        assert(-(n * v) == (-v) * n + 0) by (nonlinear_arith);
        vstd::arithmetic::div_mod::lemma_fundamental_div_mod_converse(-(n * v), n, -v, 0);
    }
}

/// The scalar samples as terms of a sum.
pub open spec fn scalar_terms(samples: Seq<i64>) -> spec_fn(int) -> int {
    |i: int| samples[i] as int
}

/// The x components of vector samples as terms of a sum.
pub open spec fn x_terms(samples: Seq<Vec2>) -> spec_fn(int) -> int {
    |i: int| samples[i].x as int
}

/// The y components of vector samples as terms of a sum.
pub open spec fn y_terms(samples: Seq<Vec2>) -> spec_fn(int) -> int {
    |i: int| samples[i].y as int
}

impl Sample for i64 {
    open spec fn mean(samples: Seq<i64>) -> i64 {
        trunc_div(total(samples.len() as int, scalar_terms(samples)), samples.len() as int) as i64
    }

    fn mean_of(samples: &Vec<i64>) -> (m: i64) {
        let n = samples.len();
        let ghost term = scalar_terms(samples@);
        let mut sum: i128 = 0;
        let mut i: usize = 0;
        while i < n
            invariant
                0 <= i <= n,
                n == samples@.len(),
                n <= i32::MAX,
                term == scalar_terms(samples@),
                sum == total(i as int, term),
                -(i * 0x8000_0000_0000_0000) <= sum <= i * 0x7FFF_FFFF_FFFF_FFFF,
            decreases n - i,
        {
            assert((i + 1) * 0x8000_0000_0000_0000 == i * 0x8000_0000_0000_0000
                + 0x8000_0000_0000_0000) by (nonlinear_arith);
            assert((i + 1) * 0x7FFF_FFFF_FFFF_FFFF == i * 0x7FFF_FFFF_FFFF_FFFF
                + 0x7FFF_FFFF_FFFF_FFFF) by (nonlinear_arith);
            assert(i * 0x8000_0000_0000_0000 <= 0x7FFF_FFFF * 0x8000_0000_0000_0000)
                by (nonlinear_arith)
                requires
                    i <= 0x7FFF_FFFF,
            ;
            sum = sum + (samples[i] as i128);
            i = i + 1;
        }
        proof {
            lemma_mean_fits(sum as int, n as int);
        }
        let m: i128 = div_toward_zero(sum, n as i128);
        m as i64
    }

    proof fn lemma_mean_of_constant(samples: Seq<i64>, v: i64) {
        let n = samples.len() as int;
        let term = scalar_terms(samples);
        assert forall|i: int| 0 <= i < n implies #[trigger] term(i) == v by {}
        lemma_total_constant(n, term, v as int);
        lemma_trunc_div_multiple(n, v as int);
    }
}

impl Sample for Vec2 {
    open spec fn mean(samples: Seq<Vec2>) -> Vec2 {
        Vec2 {
            x: trunc_div(total(samples.len() as int, x_terms(samples)), samples.len() as int) as i64,
            y: trunc_div(total(samples.len() as int, y_terms(samples)), samples.len() as int) as i64,
        }
    }

    fn mean_of(samples: &Vec<Vec2>) -> (m: Vec2) {
        let n = samples.len();
        let ghost tx = x_terms(samples@);
        let ghost ty = y_terms(samples@);
        let mut sum_x: i128 = 0;
        let mut sum_y: i128 = 0;
        let mut i: usize = 0;
        while i < n
            invariant
                0 <= i <= n,
                n == samples@.len(),
                n <= i32::MAX,
                tx == x_terms(samples@),
                ty == y_terms(samples@),
                sum_x == total(i as int, tx),
                sum_y == total(i as int, ty),
                -(i * 0x8000_0000_0000_0000) <= sum_x <= i * 0x7FFF_FFFF_FFFF_FFFF,
                -(i * 0x8000_0000_0000_0000) <= sum_y <= i * 0x7FFF_FFFF_FFFF_FFFF,
            decreases n - i,
        {
            assert((i + 1) * 0x8000_0000_0000_0000 == i * 0x8000_0000_0000_0000
                + 0x8000_0000_0000_0000) by (nonlinear_arith);
            assert((i + 1) * 0x7FFF_FFFF_FFFF_FFFF == i * 0x7FFF_FFFF_FFFF_FFFF
                + 0x7FFF_FFFF_FFFF_FFFF) by (nonlinear_arith);
            assert(i * 0x8000_0000_0000_0000 <= 0x7FFF_FFFF * 0x8000_0000_0000_0000)
                by (nonlinear_arith)
                requires
                    i <= 0x7FFF_FFFF,
            ;
            sum_x = sum_x + (samples[i].x as i128);
            sum_y = sum_y + (samples[i].y as i128);
            i = i + 1;
        }
        proof {
            lemma_mean_fits(sum_x as int, n as int);
            lemma_mean_fits(sum_y as int, n as int);
        }
        let x: i128 = div_toward_zero(sum_x, n as i128);
        let y: i128 = div_toward_zero(sum_y, n as i128);
        Vec2 { x: x as i64, y: y as i64 }
    }

    proof fn lemma_mean_of_constant(samples: Seq<Vec2>, v: Vec2) {
        let n = samples.len() as int;
        let tx = x_terms(samples);
        let ty = y_terms(samples);
        assert forall|i: int| 0 <= i < n implies #[trigger] tx(i) == v.x by {}
        assert forall|i: int| 0 <= i < n implies #[trigger] ty(i) == v.y by {}
        lemma_total_constant(n, tx, v.x as int);
        lemma_total_constant(n, ty, v.y as int);
        lemma_trunc_div_multiple(n, v.x as int);
        lemma_trunc_div_multiple(n, v.y as int);
    }
}

/// The history and write cursor of a smoother after `count` updates with `value`.
pub open spec fn fed<T>(history: Seq<T>, next: int, value: T, count: nat) -> (Seq<T>, int)
    decreases count,
{
    if count == 0 {
        (history, next)
    } else {
        let (h, n) = fed(history, next, value, (count - 1) as nat);
        (
            h.update(n, value),
            if n + 1 == h.len() {
                0
            } else {
                n + 1
            },
        )
    }
}

/// A rolling average over the latest `sample_size` values.
#[derive(Debug)]
pub struct Smoother<T> {
    /// The history of values, a circular buffer.
    pub m_History: Vec<T>,
    /// The slot that the next update overwrites.
    pub m_iNextUpdateSlot: usize,
    /// The value that the history starts from.
    pub m_ZeroValue: T,
}

impl<T: Sample> Smoother<T> {
    /// The history is not empty and the write cursor points into it.
    pub open spec fn wf(&self) -> bool {
        &&& 1 <= self.m_History@.len() <= i32::MAX
        &&& self.m_iNextUpdateSlot < self.m_History@.len()
    }

    /// Whether the smoother is well-formed.
    pub fn is_wf(&self) -> (ok: bool)
        ensures
            ok == self.wf(),
    {
        1 <= self.m_History.len() && self.m_History.len() <= 0x7FFF_FFFF && self.m_iNextUpdateSlot
            < self.m_History.len()
    }

    /// A smoother over `sample_size` samples, each of which starts as `zero_value`.
    pub fn new(sample_size: i32, zero_value: T) -> (s: Self)
        requires
            sample_size >= 1,
        ensures
            s.wf(),
            s.m_History@ == Seq::new(sample_size as nat, |i: int| zero_value),
            s.m_iNextUpdateSlot == 0,
            s.m_ZeroValue == zero_value,
    {
        let mut history: Vec<T> = Vec::with_capacity(sample_size as usize);
        let mut i: i32 = 0;
        while i < sample_size
            invariant
                0 <= i <= sample_size,
                history@.len() == i,
                forall|j: int| 0 <= j < i ==> history@[j] == zero_value,
            decreases sample_size - i,
        {
            history.push(zero_value);
            i = i + 1;
        }
        Smoother { m_History: history, m_iNextUpdateSlot: 0, m_ZeroValue: zero_value }
    }

    /// A smoother over `sample_size` samples, or nothing if `sample_size` is
    /// less than one: an average over no samples is rejected.
    pub fn try_new(sample_size: i32, zero_value: T) -> (s: Option<Self>)
        ensures
            s is Some <==> sample_size >= 1,
            s matches Some(smoother) ==> {
                &&& smoother.wf()
                &&& smoother.m_History@ == Seq::new(sample_size as nat, |i: int| zero_value)
                &&& smoother.m_iNextUpdateSlot == 0
                &&& smoother.m_ZeroValue == zero_value
            },
    {
        if sample_size >= 1 {
            Some(Self::new(sample_size, zero_value))
        } else {
            None
        }
    }

    /// Overwrites the oldest sample with `most_recent_value` and returns the
    /// mean of the samples now held.
    pub fn update(&mut self, most_recent_value: T) -> (average: T)
        requires
            old(self).wf(),
        ensures
            final(self).wf(),
            final(self).m_ZeroValue == old(self).m_ZeroValue,
            (final(self).m_History@, final(self).m_iNextUpdateSlot as int) == fed(
                old(self).m_History@,
                old(self).m_iNextUpdateSlot as int,
                most_recent_value,
                1,
            ),
            final(self).m_History@ == old(self).m_History@.update(
                old(self).m_iNextUpdateSlot as int,
                most_recent_value,
            ),
            average == T::mean(final(self).m_History@),
    {
        let slot = self.m_iNextUpdateSlot;
        self.m_History[slot] = most_recent_value;
        self.m_iNextUpdateSlot = self.m_iNextUpdateSlot + 1;
        if self.m_iNextUpdateSlot == self.m_History.len() {
            self.m_iNextUpdateSlot = 0;
        }
        proof {
            reveal_with_fuel(fed, 2);
        }
        T::mean_of(&self.m_History)
    }
}

/// Feeding one value into a fresh smoother as many times as it has slots
/// fills the history with that value, so that the average is the value itself.
pub proof fn lemma_constant_input_fills<T: Sample>(sample_size: nat, zero: T, value: T)
    requires
        sample_size >= 1,
    ensures
        fed(Seq::new(sample_size, |i: int| zero), 0, value, sample_size).0 == Seq::new(
            sample_size,
            |i: int| value,
        ),
        T::mean(fed(Seq::new(sample_size, |i: int| zero), 0, value, sample_size).0) == value,
{
    let start = Seq::new(sample_size, |i: int| zero);
    lemma_fed_prefix(start, value, sample_size);
    let end = fed(start, 0, value, sample_size).0;
    T::lemma_mean_of_constant(end, value);
}

/// After `count` updates of a smoother whose cursor started at zero, the
/// first `count` slots hold the value fed and the others are unchanged.
pub proof fn lemma_fed_prefix<T>(start: Seq<T>, value: T, count: nat)
    requires
        count <= start.len(),
        start.len() >= 1,
    ensures
        fed(start, 0, value, count).0.len() == start.len(),
        fed(start, 0, value, count).1 == (if count == start.len() {
            0
        } else {
            count as int
        }),
        forall|j: int| 0 <= j < count ==> fed(start, 0, value, count).0[j] == value,
        forall|j: int| count <= j < start.len() ==> fed(start, 0, value, count).0[j] == start[j],
    decreases count,
{
    if count > 0 {
        lemma_fed_prefix(start, value, (count - 1) as nat);
    }
}

/// The mean of `n` 64-bit values fits 64 bits.
pub proof fn lemma_mean_fits(sum: int, n: int)
    requires
        n >= 1,
        -(n * 0x8000_0000_0000_0000) <= sum <= n * 0x7FFF_FFFF_FFFF_FFFF,
    ensures
        i64::MIN <= trunc_div(sum, n) <= i64::MAX,
{
    lemma_trunc_div_bounds(sum, n);
    let q = magnitude(trunc_div(sum, n));
    if sum >= 0 {
        assert(q <= 0x7FFF_FFFF_FFFF_FFFF) by (nonlinear_arith)
            requires
                q * n <= sum,
                sum <= n * 0x7FFF_FFFF_FFFF_FFFF,
                n >= 1,
        ;
    } else {
        assert(q <= 0x8000_0000_0000_0000) by (nonlinear_arith)
            requires
                q * n <= -sum,
                -sum <= n * 0x8000_0000_0000_0000,
                n >= 1,
        ;
    }
}

} // verus!
