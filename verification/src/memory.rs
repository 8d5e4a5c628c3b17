//! Memory in use, as the share that the memory gauge shows.

use vstd::prelude::*;
use crate::ratio::Ratio;

verus! {

/// The bytes of one mebibyte.
pub const MIB: u64 = 1_048_576;

/// The memory that is available and the memory in all, in whole mebibytes,
/// from the two sizes in bytes.
pub fn avail_mem_mib(total_bytes: u64, avail_bytes: u64) -> (r: (u64, u64))
    ensures
        r.0 == avail_bytes / MIB,
        r.1 == total_bytes / MIB,
{
    let total = total_bytes / MIB;
    let avail = avail_bytes / MIB;
    (avail, total)
}

/// The share of memory that is in use, where `avail` of `total` is
/// available: `(total - avail) / total`. There is no such share where there
/// is no memory at all, or more of it available than there is.
pub fn mem_used_ratio(avail: u64, total: u64) -> (r: Option<Ratio>)
    ensures
        r is Some <==> 0 < total && avail <= total,
        r matches Some(used) ==> used.wf() && used@ == ((total - avail) as nat, total as nat),
{
    if total == 0 || avail > total {
        None
    } else {
        Ratio::new(total - avail, total)
    }
}

} // verus!
