//! A bump allocator over a fixed heap region. Offsets are relative to the
//! start of the region; nothing is ever given back.

use vstd::prelude::*;

verus! {

use vstd::arithmetic::power2::{pow2, lemma_pow2_pos, lemma_pow2_strictly_increases, lemma2_to64};
use vstd::arithmetic::div_mod::{lemma_fundamental_div_mod, lemma_fundamental_div_mod_converse, lemma_mod_bound};
use vstd::bits::lemma_usize_low_bits_mask_is_mod;
use vstd::bits::low_bits_mask;

/// Size of the heap region in bytes.
pub const HEAP_SIZE: usize = 1024 * 1024;

/// `n` is a power of two.
pub open spec fn is_power_of_two(n: int) -> bool {
    exists|k: nat| pow2(k) == n
}

/// The smallest multiple of `align` that is at least `addr`.
pub open spec fn spec_align_up(addr: int, align: int) -> int {
    (addr + align - 1) / align * align
}

/// Clearing the low bits of `x` below a power of two rounds `x` down to a
/// multiple of it.
proof fn lemma_mask_rounds_down(x: usize, align: usize)
    requires
        is_power_of_two(align as int),
    ensures
        align > 0,
        x & !((align - 1) as usize) == (x / align) * align,
{
    let k = choose|k: nat| pow2(k) == align as int;
    lemma2_to64();
    lemma_pow2_pos(k);
    if k >= usize::BITS {
        if k > usize::BITS {
            lemma_pow2_strictly_increases(usize::BITS as nat, k);
        }
        assert(false);
    }
    lemma_usize_low_bits_mask_is_mod(x, k);
    assert(low_bits_mask(k) == align - 1);
    let m = (align - 1) as usize;
    assert(x & !m == (x - (x & m)) as usize) by (bit_vector);
    assert(x & m <= x) by (bit_vector);
    lemma_fundamental_div_mod(x as int, align as int);
    assert(x as int == align * (x as int / align as int) + x as int % align as int);
    assert((x / align) * align == align * (x / align)) by (nonlinear_arith);
}

/// Rounds `addr` up to the next multiple of the power of two `align`.
pub fn align_up(addr: usize, align: usize) -> (r: usize)
    requires
        is_power_of_two(align as int),
        addr + align - 1 <= usize::MAX,
    ensures
        r == spec_align_up(addr as int, align as int),
        r % align == 0,
        addr <= r < addr + align,
{
    proof {
        lemma_mask_rounds_down(addr, align);
        lemma_mask_rounds_down((addr + (align - 1)) as usize, align);
        let y = (addr + align - 1) as int;
        lemma_fundamental_div_mod(y, align as int);
        assert((y / align as int) * align == align * (y / align as int)) by (nonlinear_arith);
        assert(((y / align as int) * align) % (align as int) == 0) by (nonlinear_arith)
            requires align > 0;
    }
    (addr + (align - 1)) & !(align - 1)
}


/// What one allocation does to a bump pointer at offset `next` of a heap
/// that starts at address `base`: the address it hands out (the first
/// multiple of `align` at or after `base + next`, if the request then fits
/// in the heap) and the bump pointer after it.
pub open spec fn alloc_step(base: int, next: int, size: int, align: int) -> (Option<int>, int) {
    let addr = spec_align_up(base + next, align);
    if addr - base + size <= HEAP_SIZE {
        (Some(addr), addr - base + size)
    } else {
        (None, next)
    }
}

/// The inputs a `core::alloc::Layout` admits: a power-of-two alignment and a
/// size that, rounded up to it, does not exceed `isize::MAX`.
pub open spec fn valid_layout(size: int, align: int) -> bool {
    &&& is_power_of_two(align)
    &&& size + align - 1 <= isize::MAX
}

/// Rounding up by adding the gap to the next multiple.
proof fn lemma_align_up_gap(x: int, align: int)
    requires
        0 <= x,
        align > 0,
    ensures
        spec_align_up(x, align) == if x % align == 0 { x } else { x + (align - x % align) },
        spec_align_up(x, align) % align == 0,
        x <= spec_align_up(x, align) < x + align,
{
    let q = x / align;
    let r = x % align;
    lemma_fundamental_div_mod(x, align);
    lemma_mod_bound(x, align);
    assert(x == q * align + r) by (nonlinear_arith) requires x == align * q + r;
    if r == 0 {
        lemma_fundamental_div_mod_converse(x + align - 1, align, q, align - 1);
    } else {
        assert((q + 1) * align == q * align + align) by (nonlinear_arith);
        lemma_fundamental_div_mod_converse(x + align - 1, align, q + 1, r - 1);
    }
    lemma_fundamental_div_mod_converse(spec_align_up(x, align), align, (x + align - 1) / align, 0);
}

/// Bump allocator: hands out `[start, start + size)` ranges of the heap in
/// increasing order and never reuses them.
pub struct BumpAllocator {
    next: usize,
}

impl View for BumpAllocator {
    type V = nat;

    /// Offset of the first byte not yet handed out.
    closed spec fn view(&self) -> nat {
        self.next as nat
    }
}

impl BumpAllocator {
    #[verifier::type_invariant]
    spec fn inv(&self) -> bool {
        self.next <= HEAP_SIZE
    }

    /// An allocator with the whole heap still free.
    pub fn new() -> (a: BumpAllocator)
        ensures
            a@ == 0,
    {
        BumpAllocator { next: 0 }
    }

    /// Offset of the first byte not yet handed out; never past the heap's end.
    pub fn next_offset(&self) -> (r: usize)
        ensures
            r == self@,
            r <= HEAP_SIZE,
    {
        proof {
            use_type_invariant(self);
        }
        self.next
    }

    /// Allocates `size` bytes aligned to `align` from the heap at address
    /// `base`; returns the block's address, which is a multiple of `align`,
    /// or `None` (a null pointer to the global allocator) when the rest of
    /// the heap is too small.
    pub fn allocate(&mut self, base: usize, size: usize, align: usize) -> (r: Option<usize>)
        requires
            valid_layout(size as int, align as int),
            base + HEAP_SIZE <= usize::MAX,
        ensures
            ({
                let (res, next) = alloc_step(base as int, old(self)@ as int, size as int, align as int);
                &&& final(self)@ == next
                &&& final(self)@ <= HEAP_SIZE
                &&& match r {
                    Some(addr) => res == Some(addr as int) && addr % align == 0,
                    None => res is None,
                }
            }),
    {
        proof {
            use_type_invariant(&*self);
            let k = choose|k: nat| pow2(k) == align as int;
            lemma_pow2_pos(k);
            lemma_align_up_gap(base + self.next, align as int);
        }
        let addr = base + self.next;
        let rem = addr % align;
        let gap = if rem == 0 { 0 } else { align - rem };
        if gap > HEAP_SIZE - self.next {
            return None;
        }
        let start = self.next + gap;
        if size > HEAP_SIZE - start {
            return None;
        }
        self.next = start + size;
        Some(base + start)
    }

    /// Freeing is a no-op for a bump allocator.
    pub fn dealloc(&mut self, _addr: usize, _size: usize, _align: usize)
        ensures
            final(self)@ == old(self)@,
    {
    }
}

/// One call on the allocator: an allocation request, or a free (which a
/// bump allocator ignores).
pub enum HeapOp {
    Alloc { size: int, align: int },
    Dealloc,
}

/// The results (`None` for a free or a refused request) of a sequence of
/// calls on the heap at `base` starting from bump pointer `next`, and the
/// bump pointer after them.
pub open spec fn heap_run(base: int, next: int, ops: Seq<HeapOp>) -> (Seq<Option<int>>, int)
    decreases ops.len(),
{
    if ops.len() == 0 {
        (Seq::empty(), next)
    } else {
        let (rs, n) = heap_run(base, next, ops.drop_last());
        match ops.last() {
            HeapOp::Alloc { size, align } => {
                let (r, n2) = alloc_step(base, n, size, align);
                (rs.push(r), n2)
            },
            HeapOp::Dealloc => (rs.push(None), n),
        }
    }
}

/// The requests are ones a `Layout` admits.
pub open spec fn valid_ops(ops: Seq<HeapOp>) -> bool {
    forall|i: int|
        0 <= i < ops.len() ==> match #[trigger] ops[i] {
            HeapOp::Alloc { size, align } => size >= 0 && is_power_of_two(align),
            HeapOp::Dealloc => true,
        }
}

pub open spec fn op_size(op: HeapOp) -> int {
    match op {
        HeapOp::Alloc { size, .. } => size,
        HeapOp::Dealloc => 0,
    }
}

pub open spec fn op_align(op: HeapOp) -> int {
    match op {
        HeapOp::Alloc { align, .. } => align,
        HeapOp::Dealloc => 1,
    }
}

/// Over any sequence of allocations and frees, every block handed out is
/// aligned and lies inside the heap, and blocks come at increasing
/// addresses and never overlap: each ends at or before the next one starts.
pub proof fn lemma_heap_run_blocks_disjoint(base: int, next: int, ops: Seq<HeapOp>)
    requires
        0 <= base,
        0 <= next <= HEAP_SIZE,
        valid_ops(ops),
    ensures
        ({
            let (rs, n) = heap_run(base, next, ops);
            &&& rs.len() == ops.len()
            &&& next <= n <= HEAP_SIZE
            &&& forall|i: int|
                0 <= i < rs.len() && #[trigger] rs[i] is Some ==> {
                    &&& ops[i] is Alloc
                    &&& rs[i]->0 % op_align(ops[i]) == 0
                    &&& base + next <= rs[i]->0
                    &&& rs[i]->0 + op_size(ops[i]) <= base + n
                }
            &&& forall|i: int, j: int|
                0 <= i < j < rs.len() && rs[i] is Some && rs[j] is Some
                    ==> #[trigger] rs[i]->0 + op_size(ops[i]) <= #[trigger] rs[j]->0
        }),
    decreases ops.len(),
{
    if ops.len() > 0 {
        let prefix = ops.drop_last();
        assert(valid_ops(prefix)) by {
            assert forall|i: int| 0 <= i < prefix.len() implies match #[trigger] prefix[i] {
                HeapOp::Alloc { size, align } => size >= 0 && is_power_of_two(align),
                HeapOp::Dealloc => true,
            } by {
                assert(prefix[i] == ops[i]);
            }
        }
        lemma_heap_run_blocks_disjoint(base, next, prefix);
        let (rs, n) = heap_run(base, next, prefix);
        let last = ops.len() - 1;
        assert(valid_ops(ops));
        let op = ops[last];
        match op {
            HeapOp::Alloc { size, align } => {
                let k = choose|k: nat| pow2(k) == align;
                lemma_pow2_pos(k);
                lemma_align_up_gap(base + n, align);
            },
            HeapOp::Dealloc => {},
        }
        let (rs2, n2) = heap_run(base, next, ops);
        assert forall|i: int| 0 <= i < last implies #[trigger] rs2[i] == rs[i] && ops[i] == prefix[i] by {}
    }
}


/// An allocation hands out the lowest address at or after the bump pointer
/// that is a multiple of the alignment, and moves the bump pointer to the
/// block's end; it is refused exactly when the block at that address would
/// run past the heap's end, and then nothing moves.
pub proof fn lemma_alloc_step_first_fit(base: int, next: int, size: int, align: int)
    requires
        0 <= base,
        0 <= next,
        is_power_of_two(align),
    ensures
        ({
            let (r, n) = alloc_step(base, next, size, align);
            &&& r matches Some(a) ==> {
                &&& a % align == 0
                &&& base + next <= a < base + next + align
                &&& a - base + size <= HEAP_SIZE
                &&& n == a - base + size
            }
            &&& r is None ==> n == next && forall|a: int|
                #![trigger a % align]
                a % align == 0 && base + next <= a < base + next + align ==> a - base + size > HEAP_SIZE
        }),
{
    let k = choose|k: nat| pow2(k) == align;
    lemma_pow2_pos(k);
    lemma_align_up_gap(base + next, align);
    let u = spec_align_up(base + next, align);
    assert forall|a: int|
        #![trigger a % align]
        a % align == 0 && base + next <= a < base + next + align implies a == u by {
        lemma_fundamental_div_mod(a, align);
        lemma_fundamental_div_mod(u, align);
        let qa = a / align;
        let qu = u / align;
        assert(a == align * qa);
        assert(u == align * qu);
        if qa < qu {
            assert(align * qa + align <= align * qu) by (nonlinear_arith) requires qa < qu, align > 0;
        } else if qa > qu {
            assert(align * qu + align <= align * qa) by (nonlinear_arith) requires qa > qu, align > 0;
        }
    }
}
} // verus!
