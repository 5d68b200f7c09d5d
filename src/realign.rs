//! Re-aligning a trace in time by rotating its x-values.
use vstd::prelude::*;

verus! {

/// Index whose x-value lands at position `j` when the x-values of `n`
/// samples are rotated `shift` places to the right.
pub open spec fn rotated_source(n: int, shift: int, j: int) -> int {
    (j - shift) % n
}

/// `shift` reduced into `[0, n)`.
fn reduced_shift(n: usize, shift: i32) -> (r: usize)
    requires
        n > 0,
    ensures
        r == shift as int % n as int,
        r < n,
{
    if shift >= 0 {
        (shift as usize) % n
    } else {
        let m = ((-(shift as i64)) as u64 as usize) % n;
        let r = if m == 0 {
            0
        } else {
            n - m
        };
        proof {
            let a = -(shift as int);
            assert(m == a % n as int);
            vstd::arithmetic::div_mod::lemma_fundamental_div_mod(a, n as int);
            vstd::arithmetic::div_mod::lemma_fundamental_div_mod(shift as int, n as int);
            let q = a / n as int;
            assert(shift as int == -(n as int * q) - m);
            if m == 0 {
                assert(shift as int == (-q) * n as int) by (nonlinear_arith)
                    requires
                        shift as int == -(n as int * q) - m,
                        m == 0,
                ;
                vstd::arithmetic::div_mod::lemma_mod_multiples_basic(-q, n as int);
            } else {
                assert(shift as int == (-q - 1) * n as int + (n - m)) by (nonlinear_arith)
                    requires
                        shift as int == -(n as int * q) - m,
                ;
                vstd::arithmetic::div_mod::lemma_mod_multiples_vanish(-q - 1, (n - m) as int, n as int);
                vstd::arithmetic::div_mod::lemma_small_mod((n - m) as nat, n as nat);
            }
        }
        r
    }
}

/// Rotates the x-values of `data` by `shift` places (to the right for a
/// positive shift, to the left for a negative one, wrapping around), keeping
/// every y-value in place.
pub fn shift_x_values<X: Copy, Y: Copy>(data: Vec<(X, Y)>, shift: i32) -> (r: Vec<(X, Y)>)
    ensures
        r.len() == data.len(),
        forall|j: int|
            0 <= j < data.len() ==> #[trigger] r@[j] == (
                data@[rotated_source(data.len() as int, shift as int, j)].0,
                data@[j].1,
            ),
{
    let n = data.len();
    let mut out: Vec<(X, Y)> = Vec::new();
    if n == 0 {
        return out;
    }
    let s = reduced_shift(n, shift);
    let mut j: usize = 0;
    while j < n
        invariant
            n == data.len(),
            n > 0,
            s == shift as int % n as int,
            s < n,
            j <= n,
            out.len() == j,
            forall|i: int|
                0 <= i < j ==> #[trigger] out@[i] == (
                    data@[rotated_source(n as int, shift as int, i)].0,
                    data@[i].1,
                ),
        decreases n - j,
    {
        let src = if j >= s {
            j - s
        } else {
            j + (n - s)
        };
        proof {
            vstd::arithmetic::div_mod::lemma_fundamental_div_mod(shift as int, n as int);
            let q = shift as int / n as int;
            if j >= s {
                assert(j as int - shift as int == (-q) * n as int + (j - s)) by (nonlinear_arith)
                    requires
                        shift as int == n as int * q + s,
                ;
                vstd::arithmetic::div_mod::lemma_mod_multiples_vanish(-q, (j - s) as int, n as int);
                vstd::arithmetic::div_mod::lemma_small_mod((j - s) as nat, n as nat);
            } else {
                assert(j as int - shift as int == (-q - 1) * n as int + (j + n - s)) by (nonlinear_arith)
                    requires
                        shift as int == n as int * q + s,
                ;
                vstd::arithmetic::div_mod::lemma_mod_multiples_vanish(-q - 1, (j + n - s) as int, n as int);
                vstd::arithmetic::div_mod::lemma_small_mod((j + n - s) as nat, n as nat);
            }
            assert(src == rotated_source(n as int, shift as int, j as int));
        }
        out.push((data[src].0, data[j].1));
        j += 1;
    }
    out
}

} // verus!
