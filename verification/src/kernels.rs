//! Small, repeatable computations used as workloads. Each one states exactly
//! what it returns, so a measurement can be checked against the value it
//! produced.

use vstd::prelude::*;

verus! {

/// `core::hint::black_box` hands its argument back unchanged; it only stops
/// the optimizer from reasoning about the value.
pub assume_specification<T>[ core::hint::black_box::<T> ](dummy: T) -> (r: T)
    ensures
        r == dummy,
;

/// Sum of the entries of `s` at positions `from`, `from + stride`,
/// `from + 2 * stride`, ... that lie below `s.len()`.
pub open spec fn stride_sum(s: Seq<int>, from: int, stride: int) -> int
    decreases
        (if from < s.len() {
            s.len() - from
        } else {
            0
        }),
    when from >= 0 && stride > 0
{
    if from >= s.len() {
        0
    } else {
        s[from] + stride_sum(s, from + stride, stride)
    }
}

/// The bytes of `s` as integers.
pub open spec fn byte_values(s: Seq<u8>) -> Seq<int> {
    Seq::new(s.len(), |i: int| s[i] as int)
}

/// The low two bits of every byte of `s`, as integers.
pub open spec fn low_bits(s: Seq<u8>) -> Seq<int> {
    Seq::new(s.len(), |i: int| (s[i] & 3) as int)
}

/// The bytes of `array` that `indices` point at, position by position; an
/// index outside `array` selects nothing and counts as zero.
pub open spec fn gathered(array: Seq<u8>, indices: Seq<usize>) -> Seq<int> {
    Seq::new(
        indices.len(),
        |i: int| if indices[i] < array.len() { array[indices[i] as int] as int } else { 0 },
    )
}

/// Every position that `bench_sum_array_indirect` visits holds an index into
/// an array of `len` bytes.
pub open spec fn sampled_in_bounds(indices: Seq<usize>, len: int) -> bool {
    forall|k: int| 0 <= k < indices.len() && k % 64 == 0 ==> #[trigger] indices[k] < len
}

/// A stride sum over entries between zero and `max` lies between zero and
/// `max` times the number of entries from `from` on.
pub proof fn lemma_stride_sum_bounds(s: Seq<int>, from: int, stride: int, max: int)
    requires
        from >= 0,
        stride > 0,
        forall|i: int| 0 <= i < s.len() ==> 0 <= #[trigger] s[i] <= max,
    ensures
        0 <= stride_sum(s, from, stride),
        from < s.len() ==> stride_sum(s, from, stride) <= max * (s.len() - from),
        from >= s.len() ==> stride_sum(s, from, stride) == 0,
    decreases
        (if from < s.len() {
            s.len() - from
        } else {
            0
        }),
{
    if from < s.len() {
        lemma_stride_sum_bounds(s, from + stride, stride, max);
        let rest = stride_sum(s, from + stride, stride);
        assert(0 <= s[from] <= max);
        assert(rest <= max * (s.len() - from - 1)) by (nonlinear_arith)
            requires
                max >= 0,
                stride >= 1,
                from < s.len(),
                from + stride < s.len() ==> rest <= max * (s.len() - from - stride),
                from + stride >= s.len() ==> rest == 0,
        ;
        assert(max + max * (s.len() - from - 1) == max * (s.len() - from)) by (nonlinear_arith);
    }
}

/// Adds 3 to an accumulator `N` times. The array only fixes the iteration
/// count; its contents are never read.
#[inline(never)]
pub fn bench_alu_ops<T, const N: usize>(_array: &[T; N]) -> (sum: u64)
    requires
        3 * N <= u64::MAX,
    ensures
        sum == 3 * N,
{
    let mut sum: u64 = 0;
    for i in 0..N
        invariant
            sum == 3 * i,
            3 * N <= u64::MAX,
    {
        sum += 3;
        sum = core::hint::black_box(sum);
    }
    sum
}

/// Four independent accumulators, each increased by 3 on every one of the `N`
/// iterations; returns their total.
#[inline(never)]
pub fn bench_alu_ops_unrolled<T, const N: usize>(_array: &[T; N]) -> (sum: u64)
    requires
        12 * N <= u64::MAX,
    ensures
        sum == 12 * N,
{
    let x: u64 = core::hint::black_box(3);
    let mut sum_1: u64 = 0;
    let mut sum_2: u64 = 0;
    let mut sum_3: u64 = 0;
    let mut sum_4: u64 = 0;
    for i in 0..N
        invariant
            x == 3,
            sum_1 == 3 * i,
            sum_2 == 3 * i,
            sum_3 == 3 * i,
            sum_4 == 3 * i,
            12 * N <= u64::MAX,
    {
        sum_1 += x;
        sum_2 += x;
        sum_3 += x;
        sum_4 += x;
        sum_1 = core::hint::black_box(sum_1);
        sum_2 = core::hint::black_box(sum_2);
        sum_3 = core::hint::black_box(sum_3);
        sum_4 = core::hint::black_box(sum_4);
    }
    sum_1 + sum_2 + sum_3 + sum_4
}

/// A dependent chain of `N` multiplications that starts from zero, so the
/// product stays zero.
#[inline(never)]
pub fn bench_mul_ops<T, const N: usize>(_array: &[T; N]) -> (product: u64)
    ensures
        product == 0,
{
    let x: u64 = core::hint::black_box(3);
    let mut product: u64 = core::hint::black_box(0);
    for _i in 0..N
        invariant
            x == 3,
            product == 0,
    {
        product *= x;
    }
    product
}

/// Sums every byte of `array`.
#[inline(never)]
pub fn bench_sum_of_array(array: &[u8]) -> (sum: u8)
    requires
        stride_sum(byte_values(array@), 0, 1) <= u8::MAX,
    ensures
        sum == stride_sum(byte_values(array@), 0, 1),
{
    let ghost values = byte_values(array@);
    let mut sum: u8 = 0;
    for i in 0..array.len()
        invariant
            values == byte_values(array@),
            sum + stride_sum(values, i as int, 1) == stride_sum(values, 0, 1),
            stride_sum(values, 0, 1) <= u8::MAX,
    {
        proof {
            lemma_stride_sum_bounds(values, i + 1, 1, 255);
        }
        sum += array[i];
        sum = core::hint::black_box(sum);
    }
    sum
}

/// Sums the low two bits of every byte of `array`, two bytes per iteration
/// into two accumulators.
#[inline(never)]
pub fn bench_sum_of_array_unrolled(array: &[u8]) -> (sum: u8)
    requires
        array@.len() % 2 == 0,
        stride_sum(low_bits(array@), 0, 1) <= u8::MAX,
    ensures
        sum == stride_sum(low_bits(array@), 0, 1),
{
    let x: u8 = core::hint::black_box(3);
    let ghost values = low_bits(array@);
    let mut sum_1: u8 = 0;
    let mut sum_2: u8 = 0;
    let mut i: usize = 0;
    while i < array.len()
        invariant
            x == 3,
            i <= array@.len(),
            i % 2 == 0,
            array@.len() % 2 == 0,
            values == low_bits(array@),
            sum_1 + sum_2 + stride_sum(values, i as int, 1) == stride_sum(values, 0, 1),
            stride_sum(values, 0, 1) <= u8::MAX,
        decreases array@.len() - i,
    {
        proof {
            lemma_stride_sum_bounds(values, i + 2, 1, 255);
            assert(stride_sum(values, i as int, 1) == values[i as int] + values[i + 1]
                + stride_sum(values, i + 2, 1)) by {
                reveal_with_fuel(stride_sum, 2);
            }
            assert(values[i as int] >= 0 && values[i + 1] >= 0);
        }
        sum_1 += array[i] & x;
        sum_2 += array[i + 1] & x;
        i += 2;
    }
    sum_1 + sum_2
}

/// Sums the low two bits of the bytes at positions `0`, `stride`,
/// `2 * stride`, ... of `array`.
#[inline(never)]
pub fn bench_sum_of_array_with_stride<const N: usize>(array: &[u8; N], stride: usize) -> (sum: u8)
    requires
        stride > 0,
        stride_sum(low_bits(array@), 0, stride as int) <= u8::MAX,
    ensures
        sum == stride_sum(low_bits(array@), 0, stride as int),
{
    let x: u8 = core::hint::black_box(3);
    let ghost values = low_bits(array@);
    let mut sum: u8 = 0;
    let mut i: usize = 0;
    while i < N
        invariant_except_break
            sum + stride_sum(values, i as int, stride as int) == stride_sum(
                values,
                0,
                stride as int,
            ),
        invariant
            x == 3,
            stride > 0,
            N == array@.len(),
            values == low_bits(array@),
            stride_sum(values, 0, stride as int) <= u8::MAX,
        ensures
            sum == stride_sum(values, 0, stride as int),
        decreases N - i,
    {
        proof {
            lemma_stride_sum_bounds(values, i + stride, stride as int, 255);
            assert(values[i as int] >= 0);
        }
        sum += array[i] & x;
        if stride >= N - i {
            break;
        }
        i += stride;
    }
    sum
}

/// Sums the bytes of `array` selected by every 64th entry of `indices`,
/// and returns the low eight bits of that sum.
#[inline(never)]
pub fn bench_sum_array_indirect<const N: usize, const M: usize>(
    array: &[u8; N],
    indices: &[usize; M],
) -> (sum: u8)
    requires
        sampled_in_bounds(indices@, N as int),
        stride_sum(gathered(array@, indices@), 0, 64) <= u64::MAX,
    ensures
        sum == stride_sum(gathered(array@, indices@), 0, 64) % 256,
{
    let ghost values = gathered(array@, indices@);
    let mut sum: u64 = 0;
    let mut i: usize = 0;
    while i < M
        invariant_except_break
            sum + stride_sum(values, i as int, 64) == stride_sum(values, 0, 64),
        invariant
            N == array@.len(),
            M == indices@.len(),
            i % 64 == 0,
            values == gathered(array@, indices@),
            sampled_in_bounds(indices@, N as int),
            stride_sum(values, 0, 64) <= u64::MAX,
        ensures
            sum == stride_sum(values, 0, 64),
        decreases M - i,
    {
        proof {
            lemma_stride_sum_bounds(values, i + 64, 64, 255);
            assert(indices@[i as int] < N);
        }
        sum += array[indices[i]] as u64;
        if M - i <= 64 {
            break;
        }
        i += 64;
    }
    (sum % 256) as u8
}

} // verus!
