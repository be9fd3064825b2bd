//! What a benchmark hands back: throughput samples for one value of its parameter.

use crate::text::{parse_u32, unsigned_of, NumberError};
use vstd::prelude::*;

verus! {

/// How many times a measurement is repeated: at least once.
#[derive(Clone, Copy, Debug, PartialEq, Eq)]
pub struct SampleCount {
    count: u32,
}

impl View for SampleCount {
    type V = nat;

    closed spec fn view(&self) -> nat {
        self.count as nat
    }
}

impl SampleCount {
    #[verifier::type_invariant]
    spec fn positive(self) -> bool {
        self.count >= 1
    }

    /// The count that a text asks for: a decimal number of at most 32 bits that is not zero.
    pub open spec fn of_text(text: Seq<char>) -> Result<nat, NumberError> {
        match unsigned_of(text) {
            Ok(n) => if n == 0 {
                Err(NumberError::Zero)
            } else {
                Ok(n)
            },
            Err(e) => Err(e),
        }
    }

    /// A count of so many samples; none for zero.
    pub fn new(count: u32) -> (r: Option<SampleCount>)
        ensures
            match r {
                Some(samples) => samples@ == count && count >= 1,
                None => count == 0,
            },
    {
        if count == 0 {
            None
        } else {
            Some(SampleCount { count })
        }
    }

    /// A single sample.
    pub fn one() -> (samples: SampleCount)
        ensures
            samples@ == 1,
    {
        SampleCount { count: 1 }
    }

    /// The count as a number.
    pub fn get(self) -> (count: u32)
        ensures
            count == self@,
            count >= 1,
    {
        proof {
            use_type_invariant(&self);
        }
        self.count
    }

    /// Reads a count from its decimal text.
    pub fn parse(text: &str) -> (r: Result<SampleCount, NumberError>)
        ensures
            match r {
                Ok(samples) => Self::of_text(text@) == Ok::<nat, NumberError>(samples@),
                Err(e) => Self::of_text(text@) == Err::<nat, NumberError>(e),
            },
    {
        match parse_u32(text) {
            Ok(count) => {
                if count == 0 {
                    Err(NumberError::Zero)
                } else {
                    Ok(SampleCount { count })
                }
            },
            Err(e) => Err(e),
        }
    }
}

/// The sum of the samples.
pub open spec fn total_of(samples: Seq<u64>) -> nat
    decreases samples.len(),
{
    if samples.len() == 0 {
        0
    } else {
        total_of(samples.drop_last()) + samples.last() as nat
    }
}

/// The arithmetic mean of the samples, rounded down to a whole number.
pub open spec fn mean_of(samples: Seq<u64>) -> nat {
    total_of(samples) / samples.len()
}

/// The sum of the squares of the distances of the samples from a centre.
pub open spec fn spread_of(samples: Seq<u64>, centre: nat) -> nat
    decreases samples.len(),
{
    if samples.len() == 0 {
        0
    } else {
        spread_of(samples.drop_last(), centre) + ((samples.last() - centre) * (samples.last()
            - centre)) as nat
    }
}

/// The population variance of the samples about their rounded mean, rounded down.
pub open spec fn variance_of(samples: Seq<u64>) -> nat {
    spread_of(samples, mean_of(samples)) / samples.len()
}

/// Whether `root` is the square root of `n`, rounded down.
pub open spec fn is_floor_sqrt(root: nat, n: nat) -> bool {
    root * root <= n < (root + 1) * (root + 1)
}

/// The square root of a number, rounded down.
pub open spec fn root_of(n: nat) -> nat {
    choose|root: nat| is_floor_sqrt(root, n)
}

/// A number has one square root, rounded down.
pub proof fn lemma_root_is_unique(a: nat, b: nat, n: nat)
    requires
        is_floor_sqrt(a, n),
        is_floor_sqrt(b, n),
    ensures
        a == b,
        root_of(n) == a,
{
    assert(a == b) by (nonlinear_arith)
        requires
            a * a <= n < (a + 1) * (a + 1),
            b * b <= n < (b + 1) * (b + 1),
    ;
    let chosen = root_of(n);
    assert(chosen == a) by (nonlinear_arith)
        requires
            a * a <= n < (a + 1) * (a + 1),
            chosen * chosen <= n < (chosen + 1) * (chosen + 1),
    ;
}

/// The population standard deviation of the samples, rounded down: the root of their
/// variance. None where the sum of the squared distances does not fit in 128 bits.
pub open spec fn std_dev_of(samples: Seq<u64>) -> Option<nat> {
    if spread_of(samples, mean_of(samples)) > u128::MAX {
        None
    } else {
        Some(root_of(variance_of(samples)))
    }
}

/// The square root of a number, rounded down.
pub fn floor_sqrt(n: u128) -> (root: u64)
    ensures
        is_floor_sqrt(root as nat, n as nat),
        root == root_of(n as nat),
{
    let mut low: u128 = 0;
    let mut high: u128 = 0x1_0000_0000_0000_0000;
    assert(0x1_0000_0000_0000_0000 * 0x1_0000_0000_0000_0000 > u128::MAX) by (nonlinear_arith);
    while high - low > 1
        invariant
            low < high <= 0x1_0000_0000_0000_0000,
            low * low <= n < high * high,
        decreases high - low,
    {
        let middle: u128 = low + (high - low) / 2;
        assert(middle * middle <= u128::MAX) by (nonlinear_arith)
            requires
                middle < 0x1_0000_0000_0000_0000,
        ;
        if middle * middle <= n {
            low = middle;
        } else {
            high = middle;
        }
    }
    proof {
        lemma_root_is_unique(low as nat, low as nat, n as nat);
    }
    low as u64
}

/// The throughput of one benchmark at one value of its parameter: a sample for each
/// repetition, in whole messages per second.
#[derive(Debug, PartialEq, Eq)]
pub struct BenchResult {
    label: String,
    parameter: String,
    throughput: Vec<u64>,
}

/// A result as plain values.
pub struct BenchResultView {
    pub label: Seq<char>,
    pub parameter: Seq<char>,
    pub throughput: Seq<u64>,
}

impl View for BenchResult {
    type V = BenchResultView;

    closed spec fn view(&self) -> BenchResultView {
        BenchResultView {
            label: self.label@,
            parameter: self.parameter@,
            throughput: self.throughput@,
        }
    }
}

impl BenchResult {
    #[verifier::type_invariant]
    spec fn measured(self) -> bool {
        self.throughput@.len() >= 1
    }

    /// A result with the given label, parameter and samples. There is at least one sample.
    pub fn new(label: String, parameter: String, throughput: Vec<u64>) -> (result: BenchResult)
        requires
            throughput@.len() >= 1,
        ensures
            result@.label == label@,
            result@.parameter == parameter@,
            result@.throughput == throughput@,
    {
        BenchResult { label, parameter, throughput }
    }

    /// The name of the quantity that the parameter stands for.
    pub fn label(&self) -> (label: &str)
        ensures
            label@ == self@.label,
    {
        self.label.as_str()
    }

    /// The value of the parameter, as text.
    pub fn parameter(&self) -> (parameter: &str)
        ensures
            parameter@ == self@.parameter,
    {
        self.parameter.as_str()
    }

    /// The samples, in the order in which they were taken; never empty.
    pub fn throughput(&self) -> (samples: &Vec<u64>)
        ensures
            samples@ == self@.throughput,
            samples@.len() >= 1,
    {
        proof {
            use_type_invariant(self);
        }
        &self.throughput
    }

    /// The mean of the samples, rounded down.
    pub fn mean(&self) -> (mean: u64)
        ensures
            mean == mean_of(self@.throughput),
    {
        proof {
            use_type_invariant(self);
        }
        let samples = &self.throughput;
        let n = samples.len();
        let mut total: u128 = 0;
        let mut i: usize = 0;
        while i < n
            invariant
                n == samples@.len(),
                i <= n,
                total == total_of(samples@.subrange(0, i as int)),
                total <= i * u64::MAX,
            decreases n - i,
        {
            assert(samples@.subrange(0, i + 1).drop_last() == samples@.subrange(0, i as int));
            assert((i + 1) * u64::MAX == i * u64::MAX + u64::MAX) by (nonlinear_arith);
            assert(i * u64::MAX + u64::MAX <= u128::MAX) by (nonlinear_arith)
                requires
                    i < usize::MAX,
                    usize::MAX <= u64::MAX,
            ;
            total = total + samples[i] as u128;
            i = i + 1;
        }
        assert(samples@.subrange(0, n as int) == samples@);
        assert(total / (n as u128) <= u64::MAX) by (nonlinear_arith)
            requires
                total <= n * u64::MAX,
                n >= 1,
        ;
        (total / (n as u128)) as u64
    }

    /// The population standard deviation of the samples, rounded down: the root of their
    /// variance about the rounded mean. None where the sum of the squared distances does
    /// not fit in 128 bits.
    pub fn std_dev(&self) -> (deviation: Option<u64>)
        ensures
            match deviation {
                Some(d) => std_dev_of(self@.throughput) == Some(d as nat),
                None => std_dev_of(self@.throughput) is None,
            },
    {
        proof {
            use_type_invariant(self);
        }
        let mean = self.mean();
        let samples = &self.throughput;
        let n = samples.len();
        let mut spread: u128 = 0;
        let mut i: usize = 0;
        while i < n
            invariant
                n == samples@.len(),
                i <= n,
                samples@ == self@.throughput,
                mean == mean_of(samples@),
                spread == spread_of(samples@.subrange(0, i as int), mean as nat),
            decreases n - i,
        {
            let sample = samples[i];
            let distance: u128 = if sample >= mean {
                (sample - mean) as u128
            } else {
                (mean - sample) as u128
            };
            assert(distance * distance <= u128::MAX) by (nonlinear_arith)
                requires
                    distance <= u64::MAX,
            ;
            assert(distance * distance == (sample - mean) * (sample - mean)) by (nonlinear_arith)
                requires
                    distance == sample - mean || distance == mean - sample,
            ;
            let square: u128 = distance * distance;
            assert(samples@.subrange(0, i + 1).drop_last() == samples@.subrange(0, i as int));
            assert(spread_of(samples@.subrange(0, i + 1), mean as nat) == spread + square);
            match spread.checked_add(square) {
                Some(sum) => {
                    spread = sum;
                },
                None => {
                    proof {
                        lemma_spread_grows(samples@, mean as nat, i + 1);
                    }
                    return None;
                },
            }
            i = i + 1;
        }
        assert(samples@.subrange(0, n as int) == samples@);
        Some(floor_sqrt(spread / (n as u128)))
    }
}

/// The squared distances of the first samples sum to no more than those of all samples.
proof fn lemma_spread_grows(samples: Seq<u64>, centre: nat, cut: int)
    requires
        0 <= cut <= samples.len(),
    ensures
        spread_of(samples.subrange(0, cut), centre) <= spread_of(samples, centre),
    decreases samples.len() - cut,
{
    if cut == samples.len() {
        assert(samples.subrange(0, cut) == samples);
    } else {
        lemma_spread_grows(samples.drop_last(), centre, cut);
        assert(samples.drop_last().subrange(0, cut) == samples.subrange(0, cut));
    }
}

} // verus!
