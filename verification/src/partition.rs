//! Static partitioning of discovered files across workers: the file with
//! discovery index `j` goes to worker partition `j % n`.

use vstd::prelude::*;

use crate::round_robin::lemma_round_robin_covers;
use crate::round_robin::lemma_round_robin_step;
use crate::round_robin::round_robin_count;

verus! {

/// Splits `paths`, in discovery order, into `n` partitions by round robin:
/// partition `i` holds, in order, the paths with discovery indices `i`,
/// `i + n`, `i + 2n`, and so on. Together with the laws of
/// `crate::round_robin` this makes the assignment total and exclusive —
/// every path stands in exactly one partition — with partition sizes that
/// differ by at most one.
pub fn assign_partitions(paths: &Vec<String>, n: usize) -> (parts: Vec<Vec<String>>)
    requires
        n >= 1,
    ensures
        parts@.len() == n,
        forall|i: int|
            0 <= i < n ==> #[trigger] parts@[i]@.len() == round_robin_count(
                paths@.len() as nat,
                n as nat,
                i as nat,
            ),
        forall|i: int, p: int|
            0 <= i < n && 0 <= p < parts@[i]@.len() ==> parts@[i]@[p] == paths@[p * (n as int)
                + i],
{
    let m = paths.len();
    let mut parts: Vec<Vec<String>> = Vec::new();
    while parts.len() < n
        invariant
            parts@.len() <= n,
            forall|i: int| 0 <= i < parts@.len() ==> #[trigger] parts@[i]@.len() == 0,
        decreases n - parts.len(),
    {
        parts.push(Vec::new());
    }
    let mut j: usize = 0;
    while j < m
        invariant
            j <= m,
            m == paths@.len(),
            n >= 1,
            parts@.len() == n,
            forall|i: int|
                0 <= i < n ==> #[trigger] parts@[i]@.len() == round_robin_count(
                    j as nat,
                    n as nat,
                    i as nat,
                ),
            forall|i: int, p: int|
                0 <= i < n && 0 <= p < parts@[i]@.len() ==> parts@[i]@[p] == paths@[p * (n as int)
                    + i],
        decreases m - j,
    {
        let idx = j % n;
        proof {
            vstd::arithmetic::div_mod::lemma_mod_bound(j as int, n as int);
            vstd::arithmetic::div_mod::lemma_fundamental_div_mod(j as int, n as int);
            assert((j as int / n as int) * n as int == n as int * (j as int / n as int))
                by (nonlinear_arith);
        }
        let line = paths[j].clone();
        let slot = &mut parts[idx];
        slot.push(line);
        proof {
            assert forall|i: int| 0 <= i < n implies #[trigger] parts@[i]@.len()
                == round_robin_count((j + 1) as nat, n as nat, i as nat) by {
                lemma_round_robin_step(j as nat, n as nat, i as nat);
            }
        }
        j = j + 1;
    }
    parts
}

/// Every discovered path stands in exactly one partition: under the
/// partitioner's contract, the path with discovery index `j` is entry
/// `j / n` of partition `j % n` — and, slot and position determining the
/// index and the other way round, of no other entry anywhere.
pub proof fn lemma_partition_places(paths: Seq<String>, parts: Seq<Vec<String>>, n: nat, j: nat)
    requires
        n > 0,
        parts.len() == n,
        forall|i: int|
            0 <= i < n ==> #[trigger] parts[i]@.len() == round_robin_count(
                paths.len() as nat,
                n,
                i as nat,
            ),
        forall|i: int, p: int|
            0 <= i < n && 0 <= p < parts[i]@.len() ==> parts[i]@[p] == paths[p * (n as int) + i],
        j < paths.len(),
    ensures
        j % n < n,
        j / n < parts[(j % n) as int]@.len(),
        parts[(j % n) as int]@[(j / n) as int] == paths[j as int],
{
    vstd::arithmetic::div_mod::lemma_mod_bound(j as int, n as int);
    lemma_round_robin_covers(paths.len() as nat, n, j);
    assert(parts[(j % n) as int]@[(j / n) as int] == paths[
        ((j / n) as int) * (n as int) + ((j % n) as int)
    ]);
}

} // verus!
