//! The up-case table: the table that maps UTF-16 code units to their upper
//! case, which a volume stores in its cluster heap.
//!
//! A volume is formatted with the default table of the format, which takes
//! 5836 bytes and has the checksum `0xE619D30D`. The formatter is handed the
//! table's bytes and checks both before it writes anything. It checks no
//! more than these two: other bytes of that length and with that checksum
//! pass for the table and are written as they are.

use crate::boot::checksum::checksum_fold;
use crate::entry::{DEFAULT_UPCASE_TABLE_CHECKSUM, DEFAULT_UPCASE_TABLE_LENGTH};
use vstd::prelude::*;

verus! {

/// Whether `table` has the length and the checksum of the default table.
/// The bytes themselves are not compared with the table's.
pub open spec fn spec_is_default_table(table: Seq<u8>) -> bool {
    table.len() == DEFAULT_UPCASE_TABLE_LENGTH && checksum_fold(0, table)
        == DEFAULT_UPCASE_TABLE_CHECKSUM
}

/// The checksum of an up-case table: over all of its bytes, the sum rotated
/// right by one bit plus the byte, in 32-bit arithmetic that wraps.
pub fn table_checksum(table: &[u8]) -> (r: u32)
    ensures
        r == checksum_fold(0, table@),
{
    let n: usize = table.len();
    let mut sum: u32 = 0;
    let mut i: usize = 0;
    assert(table@.take(0) =~= Seq::<u8>::empty());
    while i < n
        invariant
            i <= n,
            n == table@.len(),
            sum == checksum_fold(0, table@.take(i as int)),
        decreases n - i,
    {
        assert(table@.take(i + 1).drop_last() =~= table@.take(i as int));
        let rotated: u64 = (sum % 2) as u64 * 0x8000_0000 + (sum / 2) as u64;
        sum = ((rotated + table[i] as u64) % 0x1_0000_0000) as u32;
        i = i + 1;
    }
    assert(table@.take(n as int) =~= table@);
    sum
}

/// Whether `table` has the length and the checksum of the default table:
/// 5836 bytes whose checksum is `0xE619D30D`. Nothing else is looked at, so
/// the answer is also yes for other bytes with that length and checksum.
pub fn is_default_table(table: &[u8]) -> (r: bool)
    ensures
        r == spec_is_default_table(table@),
{
    table.len() as u64 == DEFAULT_UPCASE_TABLE_LENGTH && table_checksum(table)
        == DEFAULT_UPCASE_TABLE_CHECKSUM
}

} // verus!
