//! Sums of sizes: the measures by which the walks over trees come to an end.

use vstd::prelude::*;

verus! {

/// The sum of the numbers from index `from` on.
pub open spec fn sum_from(numbers: Seq<nat>, from: int) -> nat
    decreases numbers.len() - from,
{
    if from < 0 || from >= numbers.len() {
        0
    } else {
        numbers[from] + sum_from(numbers, from + 1)
    }
}

/// Every number from `from` on is at most the sum from `from` on.
pub proof fn lemma_sum_from_bound(numbers: Seq<nat>, from: int, index: int)
    requires
        0 <= from <= index < numbers.len(),
    ensures
        numbers[index] <= sum_from(numbers, from),
    decreases index - from,
{
    if from < index {
        lemma_sum_from_bound(numbers, from + 1, index);
    }
}

/// Appending a number adds it to the sum.
pub proof fn lemma_sum_from_push(numbers: Seq<nat>, number: nat, from: int)
    requires
        0 <= from <= numbers.len(),
    ensures
        sum_from(numbers.push(number), from) == sum_from(numbers, from) + number,
    decreases numbers.len() - from,
{
    if from < numbers.len() {
        lemma_sum_from_push(numbers, number, from + 1);
    } else {
        assert(sum_from(numbers.push(number), from + 1) == 0);
    }
}

} // verus!
