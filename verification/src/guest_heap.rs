//! The bump allocators of the bare-metal test guests: memory is handed out
//! from left to right, aligned, and never taken back.

use vstd::arithmetic::div_mod::{lemma_fundamental_div_mod, lemma_mod_multiples_basic};
use vstd::arithmetic::power2::{lemma2_to64, lemma2_to64_rest, lemma_pow2_strictly_increases, pow2};
use vstd::bits::{lemma_u64_low_bits_mask_is_mod, low_bits_mask};
use vstd::prelude::*;

verus! {

/// Whether `a` is a power of two, as every allocation's alignment is.
pub open spec fn is_power_of_two(a: u64) -> bool {
    exists|k: nat| k < 64 && pow2(k) == a
}

/// `x` rounded up to a multiple of `a`.
pub open spec fn align_up(x: int, a: int) -> int {
    if x % a == 0 {
        x
    } else {
        x + a - x % a
    }
}

/// Where the heap continues: the position kept, or the bottom of the heap
/// before the first allocation, which keeps none (`0`).
pub open spec fn heap_start(heap_pos: u64, bottom: u64) -> int {
    if heap_pos == 0 {
        bottom as int
    } else {
        heap_pos as int
    }
}

/// A power of two below 2^64 is at most 2^63.
proof fn lemma_power_of_two_bound(a: u64)
    requires
        is_power_of_two(a),
    ensures
        1 <= a <= 0x8000_0000_0000_0000,
{
    let k = choose|k: nat| k < 64 && pow2(k) == a;
    lemma2_to64();
    lemma2_to64_rest();
    if k < 63 {
        lemma_pow2_strictly_increases(k, 63);
    }
    if k > 0 {
        lemma_pow2_strictly_increases(0, k);
    }
}

/// `x` rounded up to a multiple of `a` is that multiple, at most `a - 1`
/// above `x`.
proof fn lemma_align_up(x: int, a: int)
    requires
        x >= 0,
        a > 0,
    ensures
        align_up(x, a) % a == 0,
        x <= align_up(x, a) < x + a,
{
    lemma_fundamental_div_mod(x, a);
    if x % a != 0 {
        assert(x + a - x % a == a * (x / a + 1)) by (nonlinear_arith)
            requires
                x == a * (x / a) + x % a,
        ;
        lemma_mod_multiples_basic(x / a + 1, a);
        assert(a * (x / a + 1) == (x / a + 1) * a) by (nonlinear_arith);
    }
}

/// `pos` rounded up to a multiple of the power of two `align`, by masking
/// off its low bits.
fn aligned_from(pos: u64, align: u64) -> (p: u64)
    requires
        is_power_of_two(align),
        pos + align <= u64::MAX,
    ensures
        p == align_up(pos as int, align as int),
{
    proof {
        lemma_power_of_two_bound(align);
    }
    let offset = pos & (align - 1);
    proof {
        let k = choose|k: nat| k < 64 && pow2(k) == align;
        lemma_u64_low_bits_mask_is_mod(pos, k);
        assert(low_bits_mask(k) == align - 1);
        assert(offset == pos % align);
    }
    if offset != 0 {
        pos + (align - offset)
    } else {
        pos
    }
}

/// Highest address an SP1 guest's memory reaches.
pub const SP1_MAXIMUM_MEMORY_SIZE: u64 = 0xffff_ffff_ffff;

/// The block an SP1 guest allocates for `bytes` bytes aligned to `align`, as
/// its start and where the heap continues, from heap position `heap_pos`
/// (`0` before the first allocation, which starts at the end of the program,
/// `end_symbol`); `None` when the block would pass the memory limit, where
/// the guest panics.
pub open spec fn spec_sp1_alloc(heap_pos: u64, end_symbol: u64, bytes: u64, align: u64) -> Option<
    (u64, u64),
> {
    let p = align_up(heap_start(heap_pos, end_symbol), align as int);
    if p + bytes > SP1_MAXIMUM_MEMORY_SIZE {
        None
    } else {
        Some((p as u64, (p + bytes) as u64))
    }
}

/// One allocation of an SP1 test guest: the block for `bytes` bytes aligned
/// to `align` and the heap position after it, or `None` when the memory limit
/// is exceeded.
pub fn sp1_alloc(heap_pos: u64, end_symbol: u64, bytes: u64, align: u64) -> (r: Option<(u64, u64)>)
    requires
        is_power_of_two(align),
        heap_start(heap_pos, end_symbol) <= SP1_MAXIMUM_MEMORY_SIZE,
    ensures
        r == spec_sp1_alloc(heap_pos, end_symbol, bytes, align),
        r matches Some((p, next)) ==> p % align == 0 && heap_start(heap_pos, end_symbol) <= p
            < heap_start(heap_pos, end_symbol) + align && next == p + bytes && next
            <= SP1_MAXIMUM_MEMORY_SIZE,
{
    let start = if heap_pos == 0 {
        end_symbol
    } else {
        heap_pos
    };
    proof {
        lemma_power_of_two_bound(align);
        lemma_align_up(start as int, align as int);
    }
    let p = aligned_from(start, align);
    match p.checked_add(bytes) {
        Some(next) => if next > SP1_MAXIMUM_MEMORY_SIZE {
            None
        } else {
            Some((p, next))
        },
        None => None,
    }
}

/// The block a ZisK test guest allocates for `bytes` bytes aligned to
/// `align`, as its start and where the heap continues, from heap position
/// `heap_pos` (`0` before the first allocation, which starts at the heap
/// bottom `heap_bottom`).
pub open spec fn spec_zisk_alloc(heap_pos: u64, heap_bottom: u64, bytes: u64, align: u64) -> (u64, u64) {
    let p = align_up(heap_start(heap_pos, heap_bottom), align as int);
    (p as u64, (p + bytes) as u64)
}

/// One allocation of a ZisK test guest: the block for `bytes` bytes aligned
/// to `align` and the heap position after it. The guest checks no limit, so
/// the block must fit the address space.
pub fn zisk_alloc(heap_pos: u64, heap_bottom: u64, bytes: u64, align: u64) -> (r: (u64, u64))
    requires
        is_power_of_two(align),
        heap_start(heap_pos, heap_bottom) + align <= u64::MAX,
        align_up(heap_start(heap_pos, heap_bottom), align as int) + bytes <= u64::MAX,
    ensures
        r == spec_zisk_alloc(heap_pos, heap_bottom, bytes, align),
        r.0 % align == 0,
        heap_start(heap_pos, heap_bottom) <= r.0 < heap_start(heap_pos, heap_bottom) + align,
        r.1 == r.0 + bytes,
{
    let start = if heap_pos == 0 {
        heap_bottom
    } else {
        heap_pos
    };
    proof {
        lemma_power_of_two_bound(align);
        lemma_align_up(start as int, align as int);
    }
    let p = aligned_from(start, align);
    (p, p + bytes)
}

/// The start of an allocated block, or `0` when there is none.
pub open spec fn block_start(r: Option<(u64, u64)>) -> u64 {
    match r {
        Some((p, _)) => p,
        None => 0,
    }
}

/// The heap position after an allocation, or `0` when there is none.
pub open spec fn block_next(r: Option<(u64, u64)>) -> u64 {
    match r {
        Some((_, next)) => next,
        None => 0,
    }
}

/// Blocks that an SP1 guest allocates one after the other do not overlap: the
/// second starts where the first ends or later, unless the first left the
/// heap position at `0`, which the guest reads as a heap not yet used.
pub proof fn lemma_sp1_blocks_disjoint(
    heap_pos: u64,
    end_symbol: u64,
    bytes1: u64,
    align1: u64,
    bytes2: u64,
    align2: u64,
)
    requires
        is_power_of_two(align1),
        is_power_of_two(align2),
        spec_sp1_alloc(heap_pos, end_symbol, bytes1, align1) is Some,
        block_next(spec_sp1_alloc(heap_pos, end_symbol, bytes1, align1)) != 0,
        spec_sp1_alloc(
            block_next(spec_sp1_alloc(heap_pos, end_symbol, bytes1, align1)),
            end_symbol,
            bytes2,
            align2,
        ) is Some,
    ensures
        ({
            let first = spec_sp1_alloc(heap_pos, end_symbol, bytes1, align1);
            let second = spec_sp1_alloc(block_next(first), end_symbol, bytes2, align2);
            block_start(first) + bytes1 <= block_start(second)
        }),
{
    let first = spec_sp1_alloc(heap_pos, end_symbol, bytes1, align1);
    lemma_power_of_two_bound(align1);
    lemma_power_of_two_bound(align2);
    lemma_align_up(heap_start(heap_pos, end_symbol), align1 as int);
    lemma_align_up(block_next(first) as int, align2 as int);
}

} // verus!
