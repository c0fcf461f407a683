//! Naming the work units of a batch and aggregating their outcomes.

use crate::text::{decimal_digits, lemma_decimal_digits_injective, push_decimal};
use vstd::prelude::*;
use vstd::string::StringExecFns;

verus! {

/// The file name of the unit with the given index, as a sequence of characters.
pub open spec fn unit_filename_spec(index: nat) -> Seq<char> {
    "mandelbrot_"@ + decimal_digits(index) + ".png"@
}

/// The file that the unit with the given index writes: `mandelbrot_`, the
/// index in decimal, `.png`.
pub fn unit_filename(index: usize) -> (name: String)
    ensures
        name@ == unit_filename_spec(index as nat),
{
    let mut name = String::from_str("mandelbrot_");
    push_decimal(&mut name, index);
    name.append(".png");
    name
}

/// Units with different indices never share a file: their names differ.
pub proof fn lemma_unit_filenames_distinct(i: nat, j: nat)
    requires
        i != j,
    ensures
        unit_filename_spec(i) != unit_filename_spec(j),
{
    let head = "mandelbrot_"@;
    let tail = ".png"@;
    let a = decimal_digits(i);
    let b = decimal_digits(j);
    if unit_filename_spec(i) == unit_filename_spec(j) {
        let whole_i = head + a + tail;
        let whole_j = head + b + tail;
        assert(whole_i.len() == head.len() + a.len() + tail.len());
        assert(whole_j.len() == head.len() + b.len() + tail.len());
        assert(a.len() == b.len());
        assert(a =~= b) by {
            assert forall|k: int| 0 <= k < a.len() implies a[k] == b[k] by {
                assert(whole_i[head.len() + k] == a[k]);
                assert(whole_j[head.len() + k] == b[k]);
            }
        }
        lemma_decimal_digits_injective(i, j);
    }
}

/// How one unit of a batch ended.
#[derive(Clone, Copy, Debug, PartialEq, Eq, Structural)]
pub enum UnitOutcome {
    /// The unit produced and padded its image.
    Completed,
    /// The unit stopped on a fatal error.
    Failed,
}

/// Why a batch as a whole failed.
#[derive(Clone, Copy, Debug, PartialEq, Eq, Structural)]
pub struct AggregateError {
    /// Position, in the order in which the outcomes were reported, of the
    /// first unit that failed.
    pub first_failed: usize,
    /// How many units failed.
    pub failed: usize,
}

/// Number of failed units among the outcomes.
pub open spec fn failures(outcomes: Seq<UnitOutcome>) -> nat
    decreases outcomes.len(),
{
    if outcomes.len() == 0 {
        0
    } else {
        failures(outcomes.drop_last()) + if outcomes.last() == UnitOutcome::Failed {
            1nat
        } else {
            0nat
        }
    }
}

/// Whether `k` is the position of the first failed unit.
pub open spec fn is_first_failure(outcomes: Seq<UnitOutcome>, k: int) -> bool {
    &&& 0 <= k < outcomes.len()
    &&& outcomes[k] == UnitOutcome::Failed
    &&& forall|i: int| 0 <= i < k ==> outcomes[i] == UnitOutcome::Completed
}

/// The result of a batch once every unit has reported: success when all units
/// completed; otherwise an error that names the first failed unit and counts
/// the failed ones. Every outcome is read before the result is given.
pub fn aggregate(outcomes: &Vec<UnitOutcome>) -> (result: Result<(), AggregateError>)
    ensures
        result is Ok <==> forall|i: int|
            0 <= i < outcomes@.len() ==> outcomes@[i] == UnitOutcome::Completed,
        result matches Err(e) ==> is_first_failure(outcomes@, e.first_failed as int)
            && e.failed == failures(outcomes@),
{
    let mut first: Option<usize> = None;
    let mut failed: usize = 0;
    let mut i: usize = 0;
    while i < outcomes.len()
        invariant
            i <= outcomes@.len(),
            failed == failures(outcomes@.take(i as int)),
            failed <= i,
            first is None <==> failed == 0,
            first is None ==> forall|k: int| 0 <= k < i ==> outcomes@[k] == UnitOutcome::Completed,
            first matches Some(f) ==> f < i && is_first_failure(outcomes@, f as int),
        decreases outcomes@.len() - i,
    {
        proof {
            assert(outcomes@.take(i + 1).drop_last() =~= outcomes@.take(i as int));
            assert(outcomes@.take(i + 1).last() == outcomes@[i as int]);
        }
        if outcomes[i] == UnitOutcome::Failed {
            if first.is_none() {
                first = Some(i);
            }
            failed = failed + 1;
        }
        i = i + 1;
    }
    proof {
        assert(outcomes@.take(i as int) =~= outcomes@);
    }
    match first {
        None => Ok(()),
        Some(f) => Err(AggregateError { first_failed: f, failed }),
    }
}

} // verus!
