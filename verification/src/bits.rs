//! Word-aligned single-byte patching.
//!
//! The OS tracing facility reads and writes target memory one machine word
//! at a time. To plant or remove a one-byte trap instruction without
//! disturbing the seven bytes around it, the debugger reads the aligned
//! word, splices the byte in, and writes the word back. The splicing is
//! pure bit arithmetic and is verified exactly here.

use vstd::prelude::*;

verus! {

/// The single-byte trap instruction planted at a breakpoint address.
pub const TRAP_BYTE: u8 = 0xcc;

/// The byte at offset `k` (0 = least significant) of a little-endian word.
pub open spec fn spec_byte_of_word(w: u64, k: u64) -> u8
    recommends
        k < 8,
{
    ((w >> (8 * k)) & 0xff) as u8
}

/// Rounds an address down to the start of its containing machine word.
pub fn align_addr_to_word(addr: u64) -> (r: u64)
    ensures
        r == addr - addr % 8,
        r % 8 == 0,
        r <= addr,
        addr - r < 8,
{
    proof {
        assert((addr & 0xffff_ffff_ffff_fff8u64) == addr - addr % 8 && (addr
            & 0xffff_ffff_ffff_fff8u64) % 8 == 0 && (addr & 0xffff_ffff_ffff_fff8u64) <= addr
            && addr - (addr & 0xffff_ffff_ffff_fff8u64) < 8) by (bit_vector);
    }
    addr & 0xffff_ffff_ffff_fff8u64
}

/// The byte of `word` at byte offset `offset`.
pub fn extract_byte(word: u64, offset: u64) -> (b: u8)
    requires
        offset < 8,
    ensures
        b == spec_byte_of_word(word, offset),
{
    ((word >> (8 * offset)) & 0xff) as u8
}

/// Replaces the byte of `word` at byte offset `offset` with `val`,
/// leaving every other byte of the word unchanged.
pub fn patch_byte_in_word(word: u64, offset: u64, val: u8) -> (r: u64)
    requires
        offset < 8,
    ensures
        spec_byte_of_word(r, offset) == val,
        forall|k: u64| k < 8 && k != offset ==> spec_byte_of_word(r, k) == spec_byte_of_word(
            word,
            k,
        ),
{
    let shift: u64 = 8 * offset;
    let mask: u64 = 0xffu64 << shift;
    let r = (word & !mask) | ((val as u64) << shift);
    proof {
        assert(spec_byte_of_word((word & !(0xffu64 << (8 * offset))) | ((val as u64) << (8
            * offset)), offset) == val) by (bit_vector)
            requires
                offset < 8,
        ;
        assert forall|k: u64| k < 8 && k != offset implies spec_byte_of_word(r, k)
            == spec_byte_of_word(word, k) by {
            assert(spec_byte_of_word((word & !(0xffu64 << (8 * offset))) | ((val as u64) << (8
                * offset)), k) == spec_byte_of_word(word, k)) by (bit_vector)
                requires
                    offset < 8,
                    k < 8,
                    k != offset,
            ;
        }
    }
    r
}

} // verus!
