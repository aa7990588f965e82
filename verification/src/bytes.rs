//! Little-endian byte-buffer unpacking, used when seeding an engine from
//! external entropy.

use vstd::prelude::*;

verus! {

use vstd::bytes::spec_u32_from_le_bytes;
use vstd::bytes::spec_u64_from_le_bytes;
use vstd::bytes::u32_from_le_bytes;
use vstd::bytes::u64_from_le_bytes;

/// Decode consecutive little-endian 32-bit words from the front of `src`
/// into every slot of `dst`.  The buffer sizing is a caller obligation, not
/// a recoverable error.
pub fn read_u32_into(src: &[u8], dst: &mut [u32])
    requires
        src@.len() >= 4 * old(dst)@.len(),
    ensures
        final(dst)@.len() == old(dst)@.len(),
        forall|i: int|
            0 <= i < old(dst)@.len() ==> final(dst)@[i] == spec_u32_from_le_bytes(
                src@.subrange(4 * i, 4 * i + 4),
            ),
{
    let n = dst.len();
    let m = src.len();
    for k in 0..n
        invariant
            m == src@.len(),
            m >= 4 * n,
            dst@.len() == n,
            forall|i: int|
                0 <= i < k ==> dst@[i] == spec_u32_from_le_bytes(src@.subrange(4 * i, 4 * i + 4)),
    {
        assert(4 * k + 4 <= src@.len());
        let w = u32_from_le_bytes(&src[4 * k..4 * k + 4]);
        vstd::std_specs::core::index_set(dst, k, w);
    }
}

/// Decode consecutive little-endian 64-bit words from the front of `src`
/// into every slot of `dst`.  The buffer sizing is a caller obligation, not
/// a recoverable error.
pub fn read_u64_into(src: &[u8], dst: &mut [u64])
    requires
        src@.len() >= 8 * old(dst)@.len(),
    ensures
        final(dst)@.len() == old(dst)@.len(),
        forall|i: int|
            0 <= i < old(dst)@.len() ==> final(dst)@[i] == spec_u64_from_le_bytes(
                src@.subrange(8 * i, 8 * i + 8),
            ),
{
    let n = dst.len();
    let m = src.len();
    for k in 0..n
        invariant
            m == src@.len(),
            m >= 8 * n,
            dst@.len() == n,
            forall|i: int|
                0 <= i < k ==> dst@[i] == spec_u64_from_le_bytes(src@.subrange(8 * i, 8 * i + 8)),
    {
        assert(8 * k + 8 <= src@.len());
        let w = u64_from_le_bytes(&src[8 * k..8 * k + 8]);
        vstd::std_specs::core::index_set(dst, k, w);
    }
}

} // verus!
