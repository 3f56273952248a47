//! Small self-contained arithmetic helpers exposed alongside the engine.

use vstd::prelude::*;

verus! {

/// The Fibonacci numbers.
pub open spec fn fib_s(n: nat) -> nat
    decreases n,
{
    if n == 0 {
        0
    } else if n == 1 {
        1
    } else {
        fib_s((n - 2) as nat) + fib_s((n - 1) as nat)
    }
}

/// Fibonacci is monotone.
proof fn lemma_fib_mono(i: nat, j: nat)
    requires
        i <= j,
    ensures
        fib_s(i) <= fib_s(j),
    decreases j - i,
{
    if i < 2 && j >= 2 {
        lemma_fib_mono(2, j);
    } else if i < j {
        lemma_fib_mono(i, (j - 1) as nat);
    }
}

/// The sum of two numbers.
pub fn add(a: i32, b: i32) -> (r: i32)
    requires
        i32::MIN <= a + b <= i32::MAX,
    ensures
        r == a + b,
{
    a + b
}

/// The `n`-th Fibonacci number, by naive double recursion.
pub fn fibonacci(n: u32) -> (r: u32)
    requires
        fib_s(n as nat) <= u32::MAX,
    ensures
        r == fib_s(n as nat),
    decreases n,
{
    if n <= 1 {
        n
    } else {
        proof {
            lemma_fib_mono((n - 1) as nat, n as nat);
            lemma_fib_mono((n - 2) as nat, n as nat);
        }
        fibonacci(n - 1) + fibonacci(n - 2)
    }
}

} // verus!
