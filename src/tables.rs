//! Reading round-constant and matrix tables from their binary form: field
//! elements as four little-endian 64-bit limbs each, 32 bytes per element.

use crate::bls::{all_wf, le_value, limbs_value, q, Scalar};
use dusk_bls12_381::BlsScalar;
use vstd::prelude::*;

verus! {

/// The number of bytes of one table entry.
pub const ENTRY_BYTES: usize = 32;

/// Reads the little-endian `u64` at byte `i` of `buf`.
pub fn u64_from_buffer(buf: &[u8], i: usize) -> (r: u64)
    requires
        i + 8 <= buf@.len(),
    ensures
        r as int == le_value(buf@.subrange(i as int, i + 8)),
{
    let len = buf.len();
    let mut r: u64 = 0;
    let mut k: usize = 8;
    while k > 0
        invariant
            0 <= k <= 8,
            len == buf@.len(),
            i + 8 <= buf@.len(),
            r as int == le_value(buf@.subrange(i + k, i + 8)),
            r < pow256(8 - k),
        decreases k,
    {
        let b = buf[i + k - 1];
        let ghost tail = buf@.subrange(i + k, i + 8);
        assert(buf@.subrange(i + k - 1, i + 8).drop_first() =~= tail);
        assert(r * 256 + b < pow256(9 - k)) by (nonlinear_arith)
            requires
                r < pow256(8 - k),
                b < 256,
                pow256(9 - k) == 256 * pow256(8 - k),
        ;
        assert(pow256(9 - k) <= 0x1_0000_0000_0000_0000) by {
            reveal_with_fuel(pow256, 9);
        }
        r = r * 256 + b as u64;
        k = k - 1;
    }
    r
}

/// `256^n`.
pub open spec fn pow256(n: int) -> int
    decreases n,
{
    if n <= 0 {
        1
    } else {
        256 * pow256(n - 1)
    }
}

/// Relies on `BlsScalar::from_raw`: the element congruent to the integer that
/// the little-endian limbs encode.
#[verifier::external_body]
pub fn fr_from_raw(limbs: [u64; 4]) -> (r: Scalar)
    ensures
        r.wf(),
        r.val() == limbs_value(limbs) as int % q(),
{
    Scalar { bytes: BlsScalar::from_raw(limbs).to_bytes() }
}

/// The entry whose 32 bytes start at byte `i`.
pub open spec fn entry_at(buf: Seq<u8>, i: int) -> int {
    limbs_value(
        [
            le_value(buf.subrange(i, i + 8)) as u64,
            le_value(buf.subrange(i + 8, i + 16)) as u64,
            le_value(buf.subrange(i + 16, i + 24)) as u64,
            le_value(buf.subrange(i + 24, i + 32)) as u64,
        ],
    ) as int % q()
}

/// Reads the entry whose 32 bytes start at byte `i`, reduced into the field.
pub fn scalar_from_buffer(buf: &[u8], i: usize) -> (r: Scalar)
    requires
        i + ENTRY_BYTES <= buf@.len(),
    ensures
        r.wf(),
        r.val() == entry_at(buf@, i as int),
{
    let _len = buf.len();
    let a = u64_from_buffer(buf, i);
    let b = u64_from_buffer(buf, i + 8);
    let c = u64_from_buffer(buf, i + 16);
    let d = u64_from_buffer(buf, i + 24);
    fr_from_raw([a, b, c, d])
}

/// Reads `count` consecutive entries from byte `start`, or `None` if the
/// buffer is too short.
pub fn scalars_from_buffer(buf: &[u8], start: usize, count: usize) -> (r: Option<Vec<Scalar>>)
    ensures
        r is Some <==> start as int + ENTRY_BYTES as int * count as int <= buf@.len(),
        r matches Some(v) ==> v@.len() == count && all_wf(v@) && forall|k: int|
            0 <= k < count ==> #[trigger] v@[k].val() == entry_at(buf@, start + ENTRY_BYTES * k),
{
    if count > (buf.len() / ENTRY_BYTES) || start > buf.len() - ENTRY_BYTES * count {
        proof {
            if count <= buf@.len() / 32 {
                assert(32 * count <= buf@.len()) by (nonlinear_arith)
                    requires
                        count <= buf@.len() / 32,
                ;
            } else {
                assert(32 * count > buf@.len()) by (nonlinear_arith)
                    requires
                        count > buf@.len() / 32,
                ;
            }
        }
        return None;
    }
    assert(32 * count <= buf@.len()) by (nonlinear_arith)
        requires
            count <= buf@.len() / 32,
    ;
    let len = buf.len();
    let mut v: Vec<Scalar> = Vec::new();
    let mut k: usize = 0;
    while k < count
        invariant
            0 <= k <= count,
            len == buf@.len(),
            start + 32 * count <= buf@.len(),
            v@.len() == k,
            all_wf(v@),
            forall|j: int| 0 <= j < k ==> #[trigger] v@[j].val() == entry_at(buf@, start + 32 * j),
        decreases count - k,
    {
        assert(start + 32 * k + 32 <= buf@.len()) by (nonlinear_arith)
            requires
                k < count,
                start + 32 * count <= buf@.len(),
        ;
        let e = scalar_from_buffer(buf, start + ENTRY_BYTES * k);
        v.push(e);
        k = k + 1;
    }
    Some(v)
}

} // verus!
