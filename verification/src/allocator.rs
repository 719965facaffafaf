//! A bin allocator over a region of addresses: memory is handed out in blocks
//! whose sizes are powers of two, and a block given back is kept in the bin
//! of its size for the next request of that size.
//!
//! The allocator does its bookkeeping on addresses alone. It never touches
//! the memory that they name.

use vstd::prelude::*;

verus! {

/// Number of bins. Bin `i` holds blocks of `2^(i + 3)` bytes: the smallest
/// block has 8 bytes and the largest 1 MiB.
pub const BINS: usize = 18;

/// Size in bytes of the largest block.
pub const MAX_BLOCK: usize = 0x10_0000;

/// The request cannot be met: memory is exhausted, or the size or alignment
/// asked for is not supported.
#[derive(Clone, Copy, Debug, PartialEq, Eq, Structural)]
pub struct AllocErr;

/// A simple allocator that allocates based on size classes.
pub struct Allocator {
    /// `buckets[i]` holds the free blocks of size `2^(i + 3)`, the one given
    /// back last at the end.
    buckets: Vec<Vec<usize>>,
    current: usize,
    end: usize,
}

/// The mathematical value of an `Allocator`.
pub ghost struct AllocatorView {
    /// The addresses of the free blocks of each bin, the one given back last
    /// at the end.
    pub buckets: Seq<Seq<usize>>,
    /// The first address that was never handed out.
    pub current: usize,
    /// The address at which the region ends.
    pub end: usize,
}

/// Size in bytes of the blocks of bin `bucket`.
pub open spec fn block_size(bucket: nat) -> nat
    decreases bucket,
{
    if bucket == 0 {
        8
    } else {
        2 * block_size((bucket - 1) as nat)
    }
}

/// Whether `bucket` is the bin for blocks of `size` bytes: the first bin
/// whose blocks are large enough.
pub open spec fn is_bucket_of(size: nat, bucket: nat) -> bool {
    &&& block_size(bucket) >= size
    &&& bucket > 0 ==> block_size((bucket - 1) as nat) < size
}

/// The bin for blocks of `size` bytes.
pub open spec fn spec_bucket(size: nat) -> nat {
    choose|bucket: nat| is_bucket_of(size, bucket)
}

/// Blocks of a higher bin are no smaller.
pub proof fn lemma_block_size_grows(a: nat, b: nat)
    requires
        a <= b,
    ensures
        block_size(a) <= block_size(b),
    decreases b,
{
    if a < b {
        lemma_block_size_grows(a, (b - 1) as nat);
    }
}

/// A size has one bin only.
pub proof fn lemma_bucket_is_unique(size: nat, bucket: nat)
    requires
        is_bucket_of(size, bucket),
    ensures
        spec_bucket(size) == bucket,
{
    let other = spec_bucket(size);
    if other < bucket {
        lemma_block_size_grows(other, (bucket - 1) as nat);
    } else if bucket < other {
        lemma_block_size_grows(bucket, (other - 1) as nat);
    }
}

/// The smallest multiple of `align` that is not below `addr`.
pub open spec fn spec_align_up(addr: int, align: int) -> int
    recommends
        addr >= 0,
        align > 0,
{
    (addr + align - 1) / align * align
}

/// Whether `addr` is a multiple of `align`.
pub open spec fn aligned(addr: usize, align: usize) -> bool {
    addr as int % align as int == 0
}

/// The place in `bucket` of the block given back last among those aligned to
/// `align`, if there is one.
pub open spec fn spec_pick(bucket: Seq<usize>, align: usize) -> Option<int> {
    if exists|i: int| 0 <= i < bucket.len() && aligned(#[trigger] bucket[i], align) {
        Some(
            choose|i: int|
                0 <= i < bucket.len() && aligned(#[trigger] bucket[i], align) && forall|j: int|
                    i < j < bucket.len() ==> !aligned(#[trigger] bucket[j], align),
        )
    } else {
        None
    }
}

/// If the block at place `i` of `bucket` is aligned and none after it is, it
/// is the one picked.
pub proof fn lemma_pick(bucket: Seq<usize>, align: usize, i: int)
    requires
        0 <= i < bucket.len(),
        aligned(bucket[i], align),
        forall|j: int| i < j < bucket.len() ==> !aligned(#[trigger] bucket[j], align),
    ensures
        spec_pick(bucket, align) == Some(i),
{
    let k = choose|k: int|
        0 <= k < bucket.len() && aligned(#[trigger] bucket[k], align) && forall|j: int|
            k < j < bucket.len() ==> !aligned(#[trigger] bucket[j], align);
    assert(k == i) by {
        if k < i {
            assert(!aligned(bucket[i], align));
        } else if i < k {
            assert(!aligned(bucket[k], align));
        }
    }
}

/// What a request for `size` bytes aligned to `align` gives in the state
/// `state`: the address handed out or the refusal, and the state left.
///
/// A request for more than `MAX_BLOCK` bytes or for alignment 0 is refused.
/// Otherwise the block given back last among the aligned blocks of the bin
/// is taken out of the bin and handed out. If the bin has none, a block is
/// cut from the part of the region never handed out, at the first aligned
/// address, if it ends before the end of the region; if not, the request is
/// refused. A refusal leaves the state as it was.
pub open spec fn spec_alloc(state: AllocatorView, size: usize, align: usize) -> (
    Result<usize, AllocErr>,
    AllocatorView,
) {
    let bucket = spec_bucket(size as nat);
    if size > MAX_BLOCK || align == 0 {
        (Err(AllocErr), state)
    } else {
        match spec_pick(state.buckets[bucket as int], align) {
            Some(i) => (
                Ok(state.buckets[bucket as int][i]),
                AllocatorView {
                    buckets: state.buckets.update(
                        bucket as int,
                        state.buckets[bucket as int].remove(i),
                    ),
                    ..state
                },
            ),
            None => {
                let start = spec_align_up(state.current as int, align as int);
                let end = start + block_size(bucket);
                if end >= state.end {
                    (Err(AllocErr), state)
                } else {
                    (Ok(start as usize), AllocatorView { current: end as usize, ..state })
                }
            },
        }
    }
}

/// The bin of a size that a block of the allocator can hold is one of its
/// eighteen bins, and its blocks are no larger than the largest block.
pub proof fn lemma_small_bucket(size: nat, bucket: nat)
    requires
        size <= MAX_BLOCK,
        is_bucket_of(size, bucket),
    ensures
        bucket < BINS,
        block_size(bucket) <= MAX_BLOCK,
{
    assert(block_size(17) == MAX_BLOCK) by {
        reveal_with_fuel(block_size, 18);
    }
    if bucket > 17 {
        lemma_block_size_grows(17, (bucket - 1) as nat);
    } else {
        lemma_block_size_grows(bucket, 17);
    }
}

/// The size class of `size` bytes and the size of its blocks: the first
/// class, counted from 0 for blocks of 8 bytes and doubling from class to
/// class, whose blocks hold `size` bytes.
///
/// `size` may be any number up to half the range of addresses, the largest
/// block size that is an address. The allocator has bins for the first
/// eighteen classes.
pub fn get_bucket(size: usize) -> (r: (usize, usize))
    requires
        size <= usize::MAX / 2 + 1,
    ensures
        r.0 == spec_bucket(size as nat),
        is_bucket_of(size as nat, r.0 as nat),
        r.1 == block_size(r.0 as nat),
        size <= MAX_BLOCK ==> r.0 < BINS && r.1 <= MAX_BLOCK,
{
    let mut bucket: usize = 0;
    let mut block: usize = 8;
    while block < size
        invariant
            block == block_size(bucket as nat),
            bucket > 0 ==> block_size((bucket - 1) as nat) < size,
            size <= usize::MAX / 2 + 1,
            bucket < block,
        decreases usize::MAX - block,
    {
        // The block is smaller than a size that is at most half the range,
        // so twice the block is in range.
        assert(block <= usize::MAX / 2);
        block = block * 2;
        bucket = bucket + 1;
    }
    proof {
        lemma_bucket_is_unique(size as nat, bucket as nat);
        if size <= MAX_BLOCK {
            lemma_small_bucket(size as nat, bucket as nat);
        }
    }
    (bucket, block)
}

impl View for Allocator {
    type V = AllocatorView;

    closed spec fn view(&self) -> AllocatorView {
        AllocatorView {
            buckets: Seq::new(self.buckets@.len(), |i: int| self.buckets@[i]@),
            current: self.current,
            end: self.end,
        }
    }
}

impl Allocator {
    /// The allocator has its eighteen bins.
    pub open spec fn wf(&self) -> bool {
        self@.buckets.len() == BINS
    }

    /// Creates a new bin allocator that will allocate memory from the region
    /// starting at address `start` and ending at address `end`.
    pub fn new(start: usize, end: usize) -> (allocator: Allocator)
        ensures
            allocator.wf(),
            allocator@ == (AllocatorView {
                buckets: Seq::new(BINS as nat, |i: int| Seq::<usize>::empty()),
                current: start,
                end,
            }),
    {
        let mut buckets: Vec<Vec<usize>> = Vec::new();
        let mut i: usize = 0;
        while i < BINS
            invariant
                i <= BINS,
                buckets@.len() == i,
                forall|j: int| 0 <= j < i ==> buckets@[j]@ == Seq::<usize>::empty(),
            decreases BINS - i,
        {
            buckets.push(Vec::new());
            i += 1;
        }
        let allocator = Allocator { buckets, current: start, end };
        assert(allocator@.buckets =~= Seq::new(BINS as nat, |i: int| Seq::<usize>::empty()));
        allocator
    }

    /// Allocates memory. Returns the address of a block of at least `size`
    /// bytes that is a multiple of `align`.
    ///
    /// # Errors
    ///
    /// Returning `Err` indicates that either memory is exhausted or `size`
    /// or `align` do not meet this allocator's constraints: at most
    /// `MAX_BLOCK` bytes, and an alignment other than 0.
    pub fn allocate(&mut self, size: usize, align: usize) -> (r: Result<usize, AllocErr>)
        requires
            old(self).wf(),
        ensures
            final(self).wf(),
            (r, final(self)@) == spec_alloc(old(self)@, size, align),
            r is Err ==> final(self)@ == old(self)@,
            r matches Ok(addr) ==> aligned(addr, align),
    {
        if size > MAX_BLOCK || align == 0 {
            return Err(AllocErr);
        }
        let (bucket, block) = get_bucket(size);
        let ghost before = self@;
        let ghost held = self.buckets@[bucket as int]@;
        assert(before.buckets[bucket as int] == held);
        let mut i: usize = self.buckets[bucket].len();
        while i > 0
            invariant
                i <= held.len(),
                bucket < BINS,
                align > 0,
                size <= MAX_BLOCK,
                bucket == spec_bucket(size as nat),
                self.wf(),
                self@ == before,
                before == old(self)@,
                self.buckets@[bucket as int]@ == held,
                before.buckets[bucket as int] == held,
                forall|j: int| i <= j < held.len() ==> !aligned(#[trigger] held[j], align),
            decreases i,
        {
            i -= 1;
            let val = self.buckets[bucket][i];
            if val % align == 0 {
                proof {
                    lemma_pick(held, align, i as int);
                }
                let mut taken: Vec<usize> = Vec::new();
                core::mem::swap(&mut taken, &mut self.buckets[bucket]);
                taken.remove(i);
                core::mem::swap(&mut taken, &mut self.buckets[bucket]);
                proof {
                    assert(self@.buckets =~= before.buckets.update(
                        bucket as int,
                        held.remove(i as int),
                    ));
                    assert(val == held[i as int]);
                    assert(self@ == (AllocatorView {
                        buckets: before.buckets.update(bucket as int, held.remove(i as int)),
                        ..before
                    }));
                    assert((Ok::<usize, AllocErr>(val), self@) == spec_alloc(before, size, align));
                }
                return Ok(val);
            }
        }
        proof {
            assert(spec_pick(held, align) is None);
        }
        let start = match align_up(self.current, align) {
            Some(start) => start,
            None => {
                proof {
                    assert(spec_align_up(self.current as int, align as int) + block_size(
                        bucket as nat,
                    ) >= self.end);
                }
                return Err(AllocErr);
            },
        };
        if start > usize::MAX - block {
            return Err(AllocErr);
        }
        let end = start + block;
        if end >= self.end {
            return Err(AllocErr);
        }
        self.current = end;
        proof {
            assert(self@.buckets =~= before.buckets);
            lemma_align_up(before.current as int, align as int);
        }
        Ok(start)
    }

    /// Deallocates the block at address `addr`: puts it into the bin for
    /// blocks of `size` bytes, for the next request of that size.
    ///
    /// `size` must be the size that the block was allocated with.
    pub fn dealloc(&mut self, addr: usize, size: usize)
        requires
            old(self).wf(),
            size <= MAX_BLOCK,
        ensures
            final(self).wf(),
            final(self)@ == (AllocatorView {
                buckets: old(self)@.buckets.update(
                    spec_bucket(size as nat) as int,
                    old(self)@.buckets[spec_bucket(size as nat) as int].push(addr),
                ),
                ..old(self)@
            }),
    {
        let (bucket, block) = get_bucket(size);
        let ghost before = self@;
        let mut taken: Vec<usize> = Vec::new();
        core::mem::swap(&mut taken, &mut self.buckets[bucket]);
        taken.push(addr);
        core::mem::swap(&mut taken, &mut self.buckets[bucket]);
        proof {
            assert(self@.buckets =~= before.buckets.update(
                bucket as int,
                before.buckets[bucket as int].push(addr),
            ));
        }
    }

    /// The first address that was never handed out.
    pub fn current(&self) -> (r: usize)
        ensures
            r == self@.current,
    {
        self.current
    }
}

/// The smallest multiple of `align` that is not below `addr`, or `None` if
/// it is no address.
pub fn align_up(addr: usize, align: usize) -> (r: Option<usize>)
    requires
        align > 0,
    ensures
        match r {
            Some(up) => up == spec_align_up(addr as int, align as int),
            None => spec_align_up(addr as int, align as int) > usize::MAX,
        },
{
    let rest = addr % align;
    proof {
        lemma_align_up(addr as int, align as int);
        assert(rest <= addr) by (nonlinear_arith)
            requires
                rest == addr as int % align as int,
                align > 0,
                addr >= 0,
        ;
    }
    if rest == 0 {
        Some(addr)
    } else if addr - rest > usize::MAX - align {
        None
    } else {
        Some(addr - rest + align)
    }
}

/// Rounding up gives `addr` itself where it is a multiple of `align`, and the
/// next multiple of `align` after it where it is not; either way a multiple
/// of `align` that is not below `addr`.
pub proof fn lemma_align_up(addr: int, align: int)
    requires
        addr >= 0,
        align > 0,
    ensures
        spec_align_up(addr, align) == (if addr % align == 0 {
            addr
        } else {
            addr - addr % align + align
        }),
        spec_align_up(addr, align) % align == 0,
        addr <= spec_align_up(addr, align) < addr + align,
{
    let q = addr / align;
    let r = addr % align;
    assert(addr == q * align + r && 0 <= r < align) by (nonlinear_arith)
        requires
            q == addr / align,
            r == addr % align,
            align > 0,
    ;
    if r == 0 {
        assert((addr + align - 1) / align == q) by (nonlinear_arith)
            requires
                addr == q * align,
                align > 0,
        ;
        assert((q * align) % align == 0) by (nonlinear_arith)
            requires
                align > 0,
        ;
    } else {
        assert((addr + align - 1) / align == q + 1) by (nonlinear_arith)
            requires
                addr == q * align + r,
                0 < r < align,
        ;
        assert((q + 1) * align == addr - r + align) by (nonlinear_arith)
            requires
                addr == q * align + r,
        ;
        assert(((q + 1) * align) % align == 0) by (nonlinear_arith)
            requires
                align > 0,
        ;
    }
}

} // verus!
