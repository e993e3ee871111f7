use vstd::prelude::*;

verus! {

/// Two to the power `k`.
pub open spec fn two_to(k: nat) -> nat
    decreases k,
{
    if k == 0 {
        1
    } else {
        2 * two_to((k - 1) as nat)
    }
}

/// Whether `k` is the least exponent for which two to its power reaches
/// `n`.
pub open spec fn is_log_2(n: nat, k: nat) -> bool {
    two_to(k) >= n && (k == 0 || two_to((k - 1) as nat) < n)
}

/// How often a number can be halved before it is at most one.
pub open spec fn floor_log_2(n: nat) -> nat
    decreases n,
{
    if n <= 1 {
        0
    } else {
        1 + floor_log_2(n / 2)
    }
}

/// Whether a number is a power of two.
pub open spec fn is_power_of_two(n: nat) -> bool {
    n == two_to(floor_log_2(n))
}

/// Halving undoes one doubling.
pub proof fn lemma_floor_log_2_two_to(k: nat)
    ensures
        floor_log_2(two_to(k)) == k,
        is_log_2(two_to(k), k),
        two_to(k) >= 1,
    decreases k,
{
    if k > 0 {
        lemma_floor_log_2_two_to((k - 1) as nat);
        assert(two_to(k) / 2 == two_to((k - 1) as nat));
    }
}

/// Powers of two grow with the exponent.
pub proof fn lemma_two_to_grows(j: nat, k: nat)
    requires
        j <= k,
    ensures
        two_to(j) <= two_to(k),
        two_to(j) >= 1,
    decreases k,
{
    if j < k {
        lemma_two_to_grows(j, (k - 1) as nat);
    } else if k > 0 {
        lemma_two_to_grows((j - 1) as nat, (k - 1) as nat);
    }
}

/// A number has one logarithm only.
pub proof fn lemma_log_2_unique(n: nat, j: nat, k: nat)
    requires
        is_log_2(n, j),
        is_log_2(n, k),
    ensures
        j == k,
{
    if j < k {
        lemma_two_to_grows(j, (k - 1) as nat);
    } else if k < j {
        lemma_two_to_grows(k, (j - 1) as nat);
    }
}

/// Two to the power 64 is one more than the largest `u64`.
pub proof fn lemma_two_to_64()
    ensures
        two_to(64) == 0x1_0000_0000_0000_0000,
        two_to(63) == 0x8000_0000_0000_0000,
        two_to(32) == 0x1_0000_0000,
{
    reveal_with_fuel(two_to, 65);
}

/// Two to the power `k`.
pub fn pow2(k: usize) -> (r: usize)
    requires
        k < usize::BITS,
    ensures
        r == two_to(k as nat),
{
    let mut r: usize = 1;
    let mut i: usize = 0;
    while i < k
        invariant
            i <= k,
            k < usize::BITS,
            r == two_to(i as nat),
        decreases k - i,
    {
        proof {
            lemma_two_to_grows((i + 1) as nat, (usize::BITS - 1) as nat);
            lemma_two_to_64();
            lemma_two_to_grows((usize::BITS - 1) as nat, 63);
        }
        r = r * 2;
        i += 1;
    }
    r
}

/// The least exponent for which two to its power reaches `n`.
pub fn log_2(n: usize) -> (k: usize)
    ensures
        is_log_2(n as nat, k as nat),
        k <= usize::BITS,
{
    let mut k: usize = 0;
    let mut p: u128 = 1;
    while p < n as u128
        invariant
            p == two_to(k as nat),
            p >= 1,
            k == 0 || two_to((k - 1) as nat) < n,
            k <= usize::BITS,
        decreases
                (if p < n as u128 {
                    n as int - p as int
                } else {
                    0
                }),
    {
        proof {
            if k >= usize::BITS {
                lemma_two_to_64();
                lemma_two_to_grows(64, k as nat);
                lemma_two_to_grows(usize::BITS as nat, k as nat);
                lemma_two_to_grows(32, usize::BITS as nat);
                lemma_two_to_grows(usize::BITS as nat, 64);
            }
            lemma_two_to_64();
            lemma_two_to_grows(k as nat, 64);
        }
        p = p * 2;
        k += 1;
    }
    k
}

/// The product of two powers of two is the power of the sum of the
/// exponents.
pub proof fn lemma_two_to_adds(j: nat, k: nat)
    ensures
        two_to(j) * two_to(k) == two_to(j + k),
    decreases k,
{
    if k > 0 {
        lemma_two_to_adds(j, (k - 1) as nat);
        assert(two_to(j) * (2 * two_to((k - 1) as nat)) == 2 * (two_to(j) * two_to((k - 1) as nat)))
            by (nonlinear_arith);
        assert(two_to(j + k) == 2 * two_to((j + k - 1) as nat));
    } else {
        assert(two_to(j) * 1 == two_to(j));
    }
}

/// The exponent of a power of two, and nothing for another number.
pub fn exact_log_2(n: usize) -> (r: Option<usize>)
    ensures
        r is Some <==> is_power_of_two(n as nat),
        r is Some ==> r.unwrap() == floor_log_2(n as nat) && r.unwrap() < usize::BITS,
{
    let k = log_2(n);
    proof {
        lemma_floor_log_2_two_to(floor_log_2(n as nat));
        lemma_floor_log_2_two_to(k as nat);
        lemma_two_to_64();
        if is_power_of_two(n as nat) {
            lemma_log_2_unique(n as nat, k as nat, floor_log_2(n as nat));
            if k >= usize::BITS {
                lemma_two_to_grows(usize::BITS as nat, k as nat);
                lemma_two_to_grows(32, usize::BITS as nat);
                lemma_two_to_grows(usize::BITS as nat, 64);
            }
        }
    }
    if k >= usize::BITS as usize {
        return None;
    }
    if pow2(k) == n {
        Some(k)
    } else {
        None
    }
}

} // verus!
