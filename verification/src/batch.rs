//! How a run of rows falls into batches.

use vstd::prelude::*;
use vstd::arithmetic::div_mod::{lemma_fundamental_div_mod, lemma_fundamental_div_mod_converse, lemma_mod_bound};

verus! {

/// The number of batches of `size` rows that `n` rows fill, the last one
/// perhaps only in part.
pub open spec fn batch_count(n: nat, size: nat) -> nat {
    ((n + size - 1) / (size as int)) as nat
}

/// The `i`-th batch of `rows`: the `size` rows from position `i * size` on,
/// or those that are left where there are fewer.
pub open spec fn batch<T>(rows: Seq<T>, size: nat, i: int) -> Seq<T> {
    rows.subrange(
        i * size,
        if i * size + size <= rows.len() {
            i * size + size
        } else {
            rows.len() as int
        },
    )
}

/// `n` rows in `full` full batches and `rest` more rows, fewer than a
/// batch, make `full` batches, and one more where `rest` is not zero.
pub proof fn lemma_batch_count(n: nat, size: nat, full: nat, rest: nat)
    requires
        size > 0,
        rest < size,
        n == full * size + rest,
    ensures
        batch_count(n, size) == if rest == 0 {
            full
        } else {
            full + 1
        },
        full == n / size,
        rest == n % size,
{
    lemma_fundamental_div_mod_converse(n as int, size as int, full as int, rest as int);
    if rest == 0 {
        lemma_fundamental_div_mod_converse(
            n + size - 1,
            size as int,
            full as int,
            size - 1,
        );
    } else {
        assert((full + 1) * size == full * size + size) by (nonlinear_arith);
        lemma_fundamental_div_mod_converse(
            n + size - 1,
            size as int,
            (full + 1) as int,
            rest - 1,
        );
    }
}

/// Every batch but the last holds `size` rows; the last holds those that
/// are left over, or `size` where none is.
pub proof fn lemma_batch_len<T>(rows: Seq<T>, size: nat, i: int)
    requires
        size > 0,
        0 <= i < batch_count(rows.len(), size),
    ensures
        batch(rows, size, i).len() == if i + 1 < batch_count(rows.len(), size) || rows.len() % size
            == 0 {
            size
        } else {
            rows.len() % size
        },
{
    let n = rows.len();
    let full = n / size;
    let rest = n % size;
    lemma_fundamental_div_mod(n as int, size as int);
    lemma_mod_bound(n as int, size as int);
    assert(size * (n / size) == (n / size) * size) by (nonlinear_arith);
    assert(0 <= n / size) by (nonlinear_arith)
        requires
            n >= 0,
            size > 0,
    ;
    lemma_batch_count(n, size, full, rest);
    if i < full {
        assert(i * size + size <= full * size) by (nonlinear_arith)
            requires
                i + 1 <= full,
                size > 0,
        ;
        assert(0 <= i * size) by (nonlinear_arith)
            requires
                0 <= i,
                size > 0,
        ;
    } else {
        assert(i == full);
        assert(rest > 0);
    }
}

} // verus!
