//! The fixed generation table: each generation 1..=8 covers a contiguous,
//! inclusive range of 1-based catalog ids.

use crate::Error;
use vstd::prelude::*;

verus! {

/// The inclusive id range of a generation, or `None` outside 1..=8.
pub open spec fn spec_range_for(g: int) -> Option<(int, int)> {
    if g == 1 {
        Some((1, 151))
    } else if g == 2 {
        Some((152, 251))
    } else if g == 3 {
        Some((252, 386))
    } else if g == 4 {
        Some((387, 493))
    } else if g == 5 {
        Some((494, 649))
    } else if g == 6 {
        Some((650, 721))
    } else if g == 7 {
        Some((722, 809))
    } else if g == 8 {
        Some((810, 898))
    } else {
        None
    }
}

/// Looks a generation up in the fixed table.
///
/// Returns the inclusive (first_id, last_id) range of catalog ids for
/// generations 1 through 8, and `InvalidGeneration` for anything else.
pub fn range_for(generation: u8) -> (r: Result<(u32, u32), Error>)
    ensures
        match r {
            Ok((first, last)) => spec_range_for(generation as int) == Some((
                first as int,
                last as int,
            )),
            Err(e) => e == Error::InvalidGeneration && spec_range_for(generation as int) is None,
        },
{
    match generation {
        1 => Ok((1, 151)),
        2 => Ok((152, 251)),
        3 => Ok((252, 386)),
        4 => Ok((387, 493)),
        5 => Ok((494, 649)),
        6 => Ok((650, 721)),
        7 => Ok((722, 809)),
        8 => Ok((810, 898)),
        _ => Err(Error::InvalidGeneration),
    }
}

/// The generation ranges tile 1..=898 without gaps: generation 1 starts at
/// id 1, each later generation starts right after the previous one ends,
/// and generation 8 ends at id 898.
pub proof fn lemma_generation_ranges_contiguous(g: int)
    requires
        1 <= g <= 8,
    ensures
        spec_range_for(g) is Some,
        g == 1 ==> spec_range_for(g)->Some_0.0 == 1,
        g == 8 ==> spec_range_for(g)->Some_0.1 == 898,
        g > 1 ==> spec_range_for(g)->Some_0.0 == spec_range_for(g - 1)->Some_0.1 + 1,
{
}

/// Within each generation the range is non-empty, and the ranges grow with
/// the generation number: a lower generation's ids all precede a higher
/// generation's ids.
pub proof fn lemma_generation_ranges_ordered(a: int, b: int)
    requires
        1 <= a <= b <= 8,
    ensures
        spec_range_for(a)->Some_0.0 <= spec_range_for(a)->Some_0.1,
        spec_range_for(a)->Some_0.0 <= spec_range_for(b)->Some_0.0,
        spec_range_for(a)->Some_0.1 <= spec_range_for(b)->Some_0.1,
{
}

} // verus!
