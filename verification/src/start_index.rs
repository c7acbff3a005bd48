//! The offset resolver: map a count specification and a file's total item
//! count to the zero-based index of the first item to emit, or to "emit
//! nothing".

use vstd::prelude::*;

use crate::take_value::TakeValue;

verus! {

/// Where emission starts for specification `tv` against `total` items:
/// `None` means nothing is emitted, `Some(k)` means items `k..` are emitted
/// (zero-based).
///
/// - `PlusZero` emits the whole file unless it is empty;
/// - `TakeNum(0)` never emits;
/// - `TakeNum(n)` with `n > 0` starts at the `n`-th item (1-indexed), and
///   emits nothing when the file has fewer than `n` items;
/// - `TakeNum(n)` with `n < 0` starts `|n|` items before the end, clamped to
///   the start of the file when `|n|` exceeds the total.
pub open spec fn start_index(tv: TakeValue, total: int) -> Option<int> {
    match tv {
        TakeValue::PlusZero => if total == 0 {
            None
        } else {
            Some(0int)
        },
        TakeValue::TakeNum(n) => if n == 0 {
            None
        } else if n > 0 {
            if total < n {
                None
            } else {
                Some(n - 1)
            }
        } else {
            if total < -(n as int) {
                Some(0int)
            } else {
                Some(total + n)
            }
        },
    }
}

/// Resolve `take_val` against `total` items to the zero-based start index of
/// the portion to emit, or `None` when nothing is to be emitted.
pub fn get_start_index(take_val: &TakeValue, total: i64) -> (r: Option<u64>)
    requires
        0 <= total,
    ensures
        (match r {
            None => start_index(*take_val, total as int) is None,
            Some(k) => start_index(*take_val, total as int) == Some(k as int),
        }),
        *take_val == TakeValue::PlusZero ==> r == (if total == 0 {
            None::<u64>
        } else {
            Some(0u64)
        }),
        *take_val matches TakeValue::TakeNum(n) ==> r == (if n == 0 {
            None::<u64>
        } else if n > 0 {
            if total < n {
                None::<u64>
            } else {
                Some((n - 1) as u64)
            }
        } else if total < -(n as int) {
            Some(0u64)
        } else {
            Some((total + n) as u64)
        }),
{
    match take_val {
        TakeValue::PlusZero => {
            if total == 0 {
                None
            } else {
                Some(0)
            }
        },
        TakeValue::TakeNum(n) => {
            let n = *n;
            if n == 0 {
                None
            } else if n > 0 {
                if total < n {
                    None
                } else {
                    Some((n - 1) as u64)
                }
            } else if n == i64::MIN {
                // |n| is 2^63, which exceeds any non-negative i64 total.
                Some(0)
            } else {
                if total < -n {
                    Some(0)
                } else {
                    Some((total + n) as u64)
                }
            }
        },
    }
}

} // verus!
