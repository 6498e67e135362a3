use vstd::arithmetic::div_mod::lemma_add_mod_noop;
use vstd::prelude::*;

verus! {

/// The Fibonacci sequence as this program counts it: the first two
/// terms are both 1.
pub open spec fn fib(n: nat) -> nat
    decreases n,
{
    if n <= 1 {
        1
    } else {
        fib((n - 1) as nat) + fib((n - 2) as nat)
    }
}

/// `fib(n)` reduced to 32 bits: what a `u32` holds when every addition
/// wraps around.
pub open spec fn fib_u32(n: u8) -> u32 {
    (fib(n as nat) % 0x1_0000_0000) as u32
}

/// Computes `fib(n)` iteratively, with wrapping `u32` additions.
///
/// The value is exact as long as it fits in a `u32` (up to `n == 46`);
/// beyond that it is the true value modulo `2^32`.
pub fn fibonacci(n: u8) -> (r: u32)
    ensures
        r == fib_u32(n),
        fib(n as nat) <= u32::MAX ==> r as nat == fib(n as nat),
{
    if n <= 1 {
        return 1;
    }
    let mut prev: u32 = 1;
    let mut cur: u32 = 1;
    let mut i: u8 = 1;
    while i < n
        invariant
            1 <= i <= n,
            prev == fib_u32((i - 1) as u8),
            cur == fib_u32(i),
        decreases n - i,
    {
        let next = cur.wrapping_add(prev);
        proof {
            lemma_add_mod_noop(fib(i as nat) as int, fib((i - 1) as nat) as int, 0x1_0000_0000);
        }
        prev = cur;
        cur = next;
        i = i + 1;
    }
    cur
}

/// The sequence starts 1, 1, and every later term that fits in a `u32`
/// is the exact sum of the two terms before it, with no wrapping.
pub proof fn lemma_fibonacci_recurrence(n: u8)
    requires
        2 <= n,
        fib(n as nat) <= u32::MAX,
    ensures
        fib_u32(0) == 1,
        fib_u32(1) == 1,
        fib_u32(n) as nat == fib_u32((n - 1) as u8) as nat + fib_u32((n - 2) as u8) as nat,
{
    assert(fib(0) == 1);
    assert(fib(1) == 1);
    assert(fib(n as nat) == fib((n - 1) as nat) + fib((n - 2) as nat));
}

} // verus!
