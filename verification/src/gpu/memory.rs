//! Choosing memory types.
use crate::gpu::vk::{MEMORY_HOST_CACHED, MEMORY_HOST_COHERENT, MEMORY_HOST_VISIBLE};
use vstd::prelude::*;

verus! {

/// Whether `have` holds every bit of `want`.
pub open spec fn has_all(have: u32, want: u32) -> bool {
    have & want == want
}

/// Whether memory type `i` is among `bits` and has every property of `flags`. `types` lists the
/// properties of the device's memory types.
pub open spec fn suits(types: Seq<u32>, bits: u32, flags: u32, i: int) -> bool {
    &&& 0 <= i < types.len()
    &&& bits & (1u32 << (i as u32)) != 0
    &&& has_all(types[i], flags)
}

/// Whether any memory type suits.
pub open spec fn any_suits(types: Seq<u32>, bits: u32, flags: u32) -> bool {
    exists|i: int| suits(types, bits, flags, i)
}

/// Whether `i` is the first memory type that suits.
pub open spec fn first_suits(types: Seq<u32>, bits: u32, flags: u32, i: u32) -> bool {
    &&& suits(types, bits, flags, i as int)
    &&& forall|j: int| 0 <= j < i ==> !suits(types, bits, flags, j)
}

/// The first memory type that suits.
pub fn find_mem(types: &[u32], bits: u32, flags: u32) -> (r: Option<u32>)
    requires
        types@.len() <= 32,
    ensures
        r is Some <==> any_suits(types@, bits, flags),
        r is Some ==> first_suits(types@, bits, flags, r->0),
{
    let n: u32 = types.len() as u32;
    let mut i: u32 = 0;
    while i < n
        invariant
            i <= n,
            n == types@.len(),
            n <= 32,
            forall|j: int| 0 <= j < i ==> !suits(types@, bits, flags, j),
        decreases n - i,
    {
        if bits & (1u32 << i) != 0 && types[i as usize] & flags == flags {
            assert(suits(types@, bits, flags, i as int));
            return Some(i);
        }
        i = i + 1;
    }
    None
}

/// The properties of fast readback memory that needs no invalidation.
pub const READBACK_BEST: u32 = 14;

/// The properties of fast readback memory.
pub const READBACK_CACHED: u32 = 10;

/// The properties of readback memory that needs no invalidation.
pub const READBACK_COHERENT: u32 = 6;

/// The memory type for readback, and whether it is coherent: cached memory first, since the CPU
/// reads it much faster, and coherent cached memory before all.
pub fn find_readback_mem(types: &[u32], bits: u32) -> (r: Option<(u32, bool)>)
    requires
        types@.len() <= 32,
    ensures
        any_suits(types@, bits, READBACK_BEST) ==> r is Some && (r->0).1 && first_suits(
            types@,
            bits,
            READBACK_BEST,
            (r->0).0,
        ),
        !any_suits(types@, bits, READBACK_BEST) && any_suits(types@, bits, READBACK_CACHED) ==> r
            is Some && !(r->0).1 && first_suits(types@, bits, READBACK_CACHED, (r->0).0),
        !any_suits(types@, bits, READBACK_BEST) && !any_suits(types@, bits, READBACK_CACHED)
            && any_suits(types@, bits, READBACK_COHERENT) ==> r is Some && (r->0).1 && first_suits(
            types@,
            bits,
            READBACK_COHERENT,
            (r->0).0,
        ),
        r is None <==> !any_suits(types@, bits, READBACK_BEST) && !any_suits(
            types@,
            bits,
            READBACK_CACHED,
        ) && !any_suits(types@, bits, READBACK_COHERENT),
{
    if let Some(i) = find_mem(types, bits, READBACK_BEST) {
        return Some((i, true));
    }
    if let Some(i) = find_mem(types, bits, READBACK_CACHED) {
        return Some((i, false));
    }
    match find_mem(types, bits, READBACK_COHERENT) {
        Some(i) => Some((i, true)),
        None => None,
    }
}

/// The readback preferences, in terms of the single properties.
pub proof fn law_readback_preferences()
    ensures
        READBACK_BEST == MEMORY_HOST_VISIBLE | MEMORY_HOST_CACHED | MEMORY_HOST_COHERENT,
        READBACK_CACHED == MEMORY_HOST_VISIBLE | MEMORY_HOST_CACHED,
        READBACK_COHERENT == MEMORY_HOST_VISIBLE | MEMORY_HOST_COHERENT,
{
    assert(14u32 == 2u32 | 8u32 | 4u32) by (bit_vector);
    assert(10u32 == 2u32 | 8u32) by (bit_vector);
    assert(6u32 == 2u32 | 4u32) by (bit_vector);
}

/// Memory that is read back without invalidation is coherent, and memory that needs invalidation
/// is taken only where no coherent cached memory is to be had.
pub proof fn law_readback_is_readable(types: Seq<u32>, bits: u32, i: int)
    ensures
        suits(types, bits, READBACK_BEST, i) ==> suits(types, bits, READBACK_CACHED, i) && suits(
            types,
            bits,
            READBACK_COHERENT,
            i,
        ),
        suits(types, bits, READBACK_CACHED, i) ==> has_all(types[i], MEMORY_HOST_VISIBLE),
        suits(types, bits, READBACK_COHERENT, i) ==> has_all(types[i], MEMORY_HOST_VISIBLE),
{
    let t = types[i];
    assert(t & 14 == 14 ==> t & 10 == 10 && t & 6 == 6) by (bit_vector);
    assert(t & 10 == 10 ==> t & 2 == 2) by (bit_vector);
    assert(t & 6 == 6 ==> t & 2 == 2) by (bit_vector);
}

/// The shared memory that CPU-written buffers take.
pub const HOST_MEMORY: u32 = 6;

/// Whether a device that imports host pointers at this alignment can copy a frame straight into
/// guest memory: the guest's pages are checked in units of 4096 bytes, so a coarser alignment
/// could reach past what was checked.
pub fn zerocopy_alignment_ok(align: u64) -> (b: bool)
    ensures
        b == (0 < align <= 4096),
{
    align != 0 && align <= 4096
}

/// Why a host pointer cannot be imported.
#[derive(Debug, Clone, Copy, PartialEq, Eq, Structural)]
pub enum ImportError {
    /// The device does not import host pointers.
    Unsupported,
    /// The pointer is not a multiple of the device's alignment.
    Misaligned,
}

/// The size of the allocation behind an imported pointer: the size rounded up to the device's
/// alignment (an alignment of zero counts as one).
pub fn import_size(supported: bool, address: u64, size: u64, align: u64) -> (r: Result<
    u64,
    ImportError,
>)
    requires
        supported && address as int % crate::arith::larger(align as int, 1) == 0
            ==> crate::arith::ceil_div(size as int, crate::arith::larger(align as int, 1))
            * crate::arith::larger(align as int, 1) <= u64::MAX,
    ensures
        !supported <==> r == Err::<u64, ImportError>(ImportError::Unsupported),
        supported && address as int % crate::arith::larger(align as int, 1) != 0 <==> r == Err::<
            u64,
            ImportError,
        >(ImportError::Misaligned),
        supported && address as int % crate::arith::larger(align as int, 1) == 0 ==> r == Ok::<
            u64,
            ImportError,
        >(
            (crate::arith::ceil_div(size as int, crate::arith::larger(align as int, 1))
                * crate::arith::larger(align as int, 1)) as u64,
        ),
{
    if !supported {
        return Err(ImportError::Unsupported);
    }
    let a: u64 = crate::arith::max_u64(align, 1);
    if address % a != 0 {
        return Err(ImportError::Misaligned);
    }
    let units: u64 = div_up(size, a);
    Ok(units * a)
}

fn div_up(x: u64, y: u64) -> (r: u64)
    requires
        y > 0,
    ensures
        r == crate::arith::ceil_div(x as int, y as int),
{
    let q: u64 = x / y;
    proof {
        vstd::arithmetic::div_mod::lemma_fundamental_div_mod(x as int, y as int);
        let m = x as int % y as int;
        assert(q * y == y * q) by (nonlinear_arith);
        if m == 0 {
            vstd::arithmetic::div_mod::lemma_fundamental_div_mod_converse(
                x + y - 1,
                y as int,
                q as int,
                y - 1,
            );
        } else {
            assert(x + y - 1 == y * (q + 1) + (m - 1)) by (nonlinear_arith)
                requires
                    x == y * q + m,
            ;
            assert((q + 1) * y == y * (q + 1)) by (nonlinear_arith);
            vstd::arithmetic::div_mod::lemma_fundamental_div_mod_converse(
                x + y - 1,
                y as int,
                q + 1,
                m - 1,
            );
            assert(q < u64::MAX) by (nonlinear_arith)
                requires
                    x == y * q + m,
                    m > 0,
                    y >= 1,
                    x <= u64::MAX,
            ;
        }
    }
    if x % y == 0 {
        q
    } else {
        q + 1
    }
}

/// An import covers the whole buffer, and with an alignment that divides a page of 4096 bytes it
/// ends within the last page that the buffer touches.
pub proof fn law_import_stays_in_checked_pages(address: u64, size: u64, align: u64)
    requires
        align > 0,
        4096int % (align as int) == 0,
        address % 4096 == 0,
        size > 0,
    ensures
        size <= crate::arith::ceil_div(size as int, align as int) * align < size + align,
        (address + crate::arith::ceil_div(size as int, align as int) * align - 1) / 4096 == (address
            + size - 1) / 4096,
{
    let a = align as int;
    let n = size as int;
    let c = crate::arith::ceil_div(n, a);
    assert(n <= c * a < n + a) by (nonlinear_arith)
        requires
            c == (n + a - 1) / a,
            a > 0,
    ;
    let pages = (n + 4095) / 4096;
    let k = 4096int / a;
    vstd::arithmetic::div_mod::lemma_fundamental_div_mod(4096, a);
    let m = k * pages;
    assert(4096 * pages == a * m) by (nonlinear_arith)
        requires
            4096 == a * k,
            m == k * pages,
    ;
    assert(c <= m) by (nonlinear_arith)
        requires
            c * a < a * m + a,
            a > 0,
    ;
    assert(c * a <= a * m) by (nonlinear_arith)
        requires
            c <= m,
            a > 0,
    ;
}

/// The memory type that is taken is allowed and has all that is asked, and no earlier one does; and
/// where any does, one is taken.
pub proof fn law_memory_has_what_is_asked(
    types: &[u32],
    bits: u32,
    flags: u32,
    r: Option<u32>,
    j: int,
)
    requires
        types@.len() <= 32,
        call_ensures(find_mem, (types, bits, flags), r),
    ensures
        r is Some ==> {
            &&& r->0 < types@.len()
            &&& bits & (1u32 << r->0) != 0
            &&& types@[r->0 as int] & flags == flags
        },
        0 <= j < types@.len() && bits & (1u32 << (j as u32)) != 0 && types@[j] & flags == flags
            ==> r is Some && r->0 <= j,
{
    if 0 <= j < types@.len() && bits & (1u32 << (j as u32)) != 0 && types@[j] & flags == flags {
        assert(suits(types@, bits, flags, j));
        assert(any_suits(types@, bits, flags));
    }
}

/// Memory that is read back is visible to the CPU (Vulkan's 2), and is told to be coherent (4)
/// exactly where it is. Where any allowed type is cached too (8), so is the one that is taken, and
/// where one is all three, so is that.
pub proof fn law_readback_memory(types: &[u32], bits: u32, r: Option<(u32, bool)>, j: int)
    requires
        types@.len() <= 32,
        call_ensures(find_readback_mem, (types, bits), r),
    ensures
        r is Some ==> {
            let t = types@[(r->0).0 as int];
            &&& (r->0).0 < types@.len()
            &&& bits & (1u32 << (r->0).0) != 0
            &&& t & 2 == 2
            &&& (r->0).1 <==> t & 4 == 4
        },
        0 <= j < types@.len() && bits & (1u32 << (j as u32)) != 0 ==> {
            &&& types@[j] & 6 == 6 || types@[j] & 10 == 10 ==> r is Some
            &&& types@[j] & 10 == 10 ==> types@[(r->0).0 as int] & 8 == 8
            &&& types@[j] & 14 == 14 ==> types@[(r->0).0 as int] & 14 == 14
        },
{
    if 0 <= j < types@.len() && bits & (1u32 << (j as u32)) != 0 {
        if types@[j] & 14 == 14 {
            assert(suits(types@, bits, READBACK_BEST, j));
        }
        if types@[j] & 10 == 10 {
            assert(suits(types@, bits, READBACK_CACHED, j));
        }
        if types@[j] & 6 == 6 {
            assert(suits(types@, bits, READBACK_COHERENT, j));
        }
    }
    if r is Some {
        let i = (r->0).0;
        let t = types@[i as int];
        assert(t & 14 == 14 ==> t & 2 == 2 && t & 4 == 4 && t & 8 == 8) by (bit_vector);
        assert(t & 10 == 10 ==> t & 2 == 2 && t & 8 == 8) by (bit_vector);
        assert(t & 6 == 6 ==> t & 2 == 2 && t & 4 == 4) by (bit_vector);
        assert(t & 10 == 10 && t & 4 == 4 ==> t & 14 == 14) by (bit_vector);
        if any_suits(types@, bits, READBACK_BEST) {
        } else if any_suits(types@, bits, READBACK_CACHED) {
            assert(!suits(types@, bits, READBACK_BEST, i as int));
        }
    }
}

/// A pointer is imported where the device can and the pointer is aligned; what is imported is whole
/// units of the alignment, all of the buffer and less than a unit more. Frames go straight into
/// guest memory only where a unit is no more than a page of 4096 bytes.
pub proof fn law_import_is_rounded_up(
    supported: bool,
    address: u64,
    size: u64,
    align: u64,
    r: Result<u64, ImportError>,
    b: bool,
)
    requires
        align > 0,
        size + align <= u64::MAX,
        call_ensures(import_size, (supported, address, size, align), r),
        call_ensures(zerocopy_alignment_ok, (align,), b),
    ensures
        r is Ok <==> supported && address % align == 0,
        r == Err::<u64, ImportError>(ImportError::Unsupported) <==> !supported,
        r == Err::<u64, ImportError>(ImportError::Misaligned) <==> supported && address % align
            != 0,
        r is Ok ==> r->Ok_0 as int % align as int == 0 && size <= r->Ok_0 < size + align,
        b <==> align <= 4096,
{
    let n = size as int;
    let a = align as int;
    let c = crate::arith::ceil_div(n, a);
    assert(n <= c * a < n + a) by (nonlinear_arith)
        requires
            c == (n + a - 1) / a,
            a > 0,
    ;
    vstd::arithmetic::div_mod::lemma_mod_multiples_basic(c, a);
}

} // verus!
