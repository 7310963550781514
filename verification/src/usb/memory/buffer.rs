//! Buffers for USB transfers: a DMA buffer taken from the allocator's pool, and a
//! scatter-gather list of such buffers that data is spread over in order.
use vstd::prelude::*;

use crate::usb::error::UsbDriverError;
use crate::usb::memory::{allocated, deallocated, UsbMemoryAllocator};
use crate::usb::memory::alignment::is_pow2;

verus! {

/// `data` overwritten from its start by as many bytes of `src` from `start` on as fit (none
/// where `src` ends before `start`).
pub open spec fn filled(data: Seq<u8>, src: Seq<u8>, start: int) -> Seq<u8> {
    if start >= src.len() {
        data
    } else {
        let n = if src.len() - start < data.len() { src.len() - start } else { data.len() as int };
        src.subrange(start, start + n) + data.skip(n)
    }
}

/// USB buffer: its bytes, the address they are reached at, and whether they came from the
/// DMA pool.
pub struct UsbBuffer {
    data: Vec<u8>,
    address: usize,
    is_dma: bool,
}

impl View for UsbBuffer {
    type V = Seq<u8>;

    closed spec fn view(&self) -> Seq<u8> {
        self.data@
    }
}

/// `n` zero bytes.
fn zeroed(n: usize) -> (r: Vec<u8>)
    ensures
        r@ == Seq::new(n as nat, |i: int| 0u8),
{
    let mut v: Vec<u8> = Vec::new();
    let mut i: usize = 0;
    while i < n
        invariant
            i <= n,
            v@ == Seq::new(i as nat, |k: int| 0u8),
        decreases n - i,
    {
        v.push(0);
        i = i + 1;
        proof {
            assert(v@ =~= Seq::new(i as nat, |k: int| 0u8));
        }
    }
    v
}

impl UsbBuffer {
    /// The address of the first byte.
    pub closed spec fn spec_address(&self) -> usize {
        self.address
    }

    /// Whether the bytes came from the DMA pool.
    pub closed spec fn spec_is_dma(&self) -> bool {
        self.is_dma
    }

    /// Create a new DMA buffer of `size` zeroed bytes at a 64-byte aligned address of the
    /// allocator's pool; refused as the pool refuses the allocation.
    pub fn new_dma(allocator: &mut UsbMemoryAllocator, size: usize) -> (r: Result<Self, UsbDriverError>)
        requires
            old(allocator).wf(),
            size + 128 <= usize::MAX,
            old(allocator).pool().base_addr() + old(allocator).pool().pool_size() + 64 <= usize::MAX,
        ensures
            final(allocator).wf(),
            final(allocator).heap_list() == old(allocator).heap_list(),
            allocated(
                old(allocator).pool(),
                size,
                64,
                match r {
                    Ok(b) => Ok::<usize, UsbDriverError>(b.spec_address()),
                    Err(e) => Err::<usize, UsbDriverError>(e),
                },
                final(allocator).pool(),
            ),
            r matches Ok(b) ==> b@ == Seq::new(size as nat, |i: int| 0u8) && b.spec_is_dma(),
    {
        proof {
            assert(64usize & 63usize == 0) by (bit_vector);
        }
        let address = match allocator.allocate_dma(size, 64) {
            Ok(a) => a,
            Err(e) => return Err(e),
        };
        Ok(Self { data: zeroed(size), address, is_dma: true })
    }

    /// Give the buffer back: DMA bytes return to the pool they came from.
    pub fn release(self, allocator: &mut UsbMemoryAllocator) -> (r: Result<(), UsbDriverError>)
        requires
            old(allocator).wf(),
            self.spec_is_dma() ==> self.spec_address() >= old(allocator).pool().base_addr(),
        ensures
            final(allocator).wf(),
            final(allocator).heap_list() == old(allocator).heap_list(),
            self.spec_is_dma() ==> deallocated(old(allocator).pool(), self.spec_address(), r, final(allocator).pool()),
            !self.spec_is_dma() ==> r is Ok && final(allocator).pool() == old(allocator).pool(),
    {
        if self.is_dma {
            allocator.deallocate_dma(self.address)
        } else {
            Ok(())
        }
    }

    /// Get buffer as slice
    pub fn as_slice(&self) -> (r: &[u8])
        ensures
            r@ == self@,
    {
        self.data.as_slice()
    }

    /// Get buffer as mutable slice
    pub fn as_mut_slice(&mut self) -> (r: &mut [u8])
        ensures
            r@ == old(self)@,
            final(self)@ == final(r)@,
            final(self).spec_address() == old(self).spec_address(),
            final(self).spec_is_dma() == old(self).spec_is_dma(),
    {
        self.data.as_mut_slice()
    }

    /// Get buffer size
    pub fn len(&self) -> (r: usize)
        ensures
            r == self@.len(),
    {
        self.data.len()
    }

    /// Check if buffer is empty
    pub fn is_empty(&self) -> (r: bool)
        ensures
            r == (self@.len() == 0),
    {
        self.data.len() == 0
    }

    /// Check if this is DMA-coherent memory
    pub fn is_dma(&self) -> (r: bool)
        ensures
            r == self.spec_is_dma(),
    {
        self.is_dma
    }

    /// The address the buffer is reached at
    pub fn physical_address(&self) -> (r: usize)
        ensures
            r == self.spec_address(),
    {
        self.address
    }

    /// Zero the buffer
    pub fn zero(&mut self)
        ensures
            final(self)@ == Seq::new(old(self)@.len(), |i: int| 0u8),
            final(self).spec_address() == old(self).spec_address(),
            final(self).spec_is_dma() == old(self).spec_is_dma(),
    {
        let mut i: usize = 0;
        while i < self.data.len()
            invariant
                i <= self.data@.len(),
                self.data@.len() == old(self).data@.len(),
                self.address == old(self).address,
                self.is_dma == old(self).is_dma,
                forall|k: int| 0 <= k < i ==> #[trigger] self.data@[k] == 0u8,
            decreases self.data@.len() - i,
        {
            self.data.set(i, 0);
            i = i + 1;
        }
        proof {
            assert(self.data@ =~= Seq::new(old(self)@.len(), |i: int| 0u8));
        }
    }

    /// Copy data into buffer, from its start: refused where it does not fit
    pub fn copy_from_slice(&mut self, src: &[u8]) -> (r: Result<(), UsbDriverError>)
        ensures
            src@.len() > old(self)@.len() ==> r == Err::<(), UsbDriverError>(UsbDriverError::BufferOverflow)
                && final(self)@ == old(self)@,
            src@.len() <= old(self)@.len() ==> r is Ok && final(self)@ == src@ + old(self)@.skip(src@.len() as int),
            final(self).spec_address() == old(self).spec_address(),
            final(self).spec_is_dma() == old(self).spec_is_dma(),
    {
        if src.len() > self.data.len() {
            return Err(UsbDriverError::BufferOverflow);
        }
        let mut i: usize = 0;
        while i < src.len()
            invariant
                i <= src@.len(),
                src@.len() <= self.data@.len(),
                self.data@.len() == old(self).data@.len(),
                self.address == old(self).address,
                self.is_dma == old(self).is_dma,
                forall|k: int| 0 <= k < i ==> #[trigger] self.data@[k] == src@[k],
                forall|k: int| i <= k < self.data@.len() ==> #[trigger] self.data@[k] == old(self).data@[k],
            decreases src@.len() - i,
        {
            self.data.set(i, src[i]);
            i = i + 1;
        }
        proof {
            assert(self.data@ =~= src@ + old(self)@.skip(src@.len() as int));
        }
        Ok(())
    }

    /// Copy data from buffer: as many bytes as both hold, the count returned
    pub fn copy_to_slice(&self, dst: &mut [u8]) -> (r: Result<usize, UsbDriverError>)
        ensures
            ({
                let n = if self@.len() < old(dst)@.len() { self@.len() } else { old(dst)@.len() };
                &&& r == Ok::<usize, UsbDriverError>(n as usize)
                &&& final(dst)@ == self@.take(n as int) + old(dst)@.skip(n as int)
            }),
    {
        let copy_len = if self.data.len() < dst.len() { self.data.len() } else { dst.len() };
        let mut i: usize = 0;
        while i < copy_len
            invariant
                i <= copy_len,
                copy_len <= self.data@.len(),
                copy_len <= dst@.len(),
                dst@.len() == old(dst)@.len(),
                copy_len == (if self@.len() < old(dst)@.len() { self@.len() } else { old(dst)@.len() }),
                forall|k: int| 0 <= k < i ==> #[trigger] dst@[k] == self.data@[k],
                forall|k: int| i <= k < dst@.len() ==> #[trigger] dst@[k] == old(dst)@[k],
            decreases copy_len - i,
        {
            dst[i] = self.data[i];
            i = i + 1;
        }
        proof {
            assert(dst@ =~= self@.take(copy_len as int) + old(dst)@.skip(copy_len as int));
        }
        Ok(copy_len)
    }
}

/// Total length of a list of byte strings.
pub open spec fn total_bytes(segs: Seq<Seq<u8>>) -> int
    decreases segs.len(),
{
    if segs.len() == 0 {
        0
    } else {
        total_bytes(segs.drop_last()) + segs.last().len()
    }
}

/// The first `i + 1` strings are the first `i` and then string `i`, so their total grows by
/// its length and their concatenation by its bytes.
proof fn lemma_prefix_step(segs: Seq<Seq<u8>>, i: int)
    requires
        0 <= i < segs.len(),
    ensures
        segs.take(i + 1) == segs.take(i).push(segs[i]),
        total_bytes(segs.take(i + 1)) == total_bytes(segs.take(i)) + segs[i].len(),
        segs.take(i + 1).flatten() == segs.take(i).flatten() + segs[i],
{
    assert(segs.take(i + 1) =~= segs.take(i).push(segs[i]));
    assert(segs.take(i + 1).drop_last() =~= segs.take(i));
    segs.take(i).lemma_flatten_push(segs[i]);
}

/// The concatenation is as long as the total.
proof fn lemma_flatten_len(segs: Seq<Seq<u8>>)
    ensures
        segs.flatten().len() == total_bytes(segs),
    decreases segs.len(),
{
    if segs.len() > 0 {
        let init = segs.drop_last();
        lemma_flatten_len(init);
        assert(init.push(segs.last()) =~= segs);
        init.lemma_flatten_push(segs.last());
    }
}

/// A total is never negative.
proof fn lemma_total_nonneg(segs: Seq<Seq<u8>>)
    ensures
        total_bytes(segs) >= 0,
    decreases segs.len(),
{
    if segs.len() > 0 {
        lemma_total_nonneg(segs.drop_last());
    }
}

/// Lists whose strings have the same lengths have the same total.
proof fn lemma_same_lengths(a: Seq<Seq<u8>>, b: Seq<Seq<u8>>)
    requires
        a.len() == b.len(),
        forall|k: int| 0 <= k < a.len() ==> (#[trigger] a[k]).len() == b[k].len(),
    ensures
        total_bytes(a) == total_bytes(b),
    decreases a.len(),
{
    if a.len() > 0 {
        lemma_same_lengths(a.drop_last(), b.drop_last());
    }
}

/// Scatter-gather list for large transfers
pub struct ScatterGatherList {
    /// List of buffer segments
    segments: Vec<UsbBuffer>,
    /// Total size
    total_size: usize,
}

impl ScatterGatherList {
    /// The bytes of each segment, in order.
    pub closed spec fn contents(&self) -> Seq<Seq<u8>> {
        self.segments@.map_values(|b: UsbBuffer| b@)
    }

    /// The total size recorded.
    pub closed spec fn spec_total(&self) -> usize {
        self.total_size
    }

    /// The recorded total is the sum of the segment sizes.
    pub closed spec fn wf(&self) -> bool {
        self.total_size == total_bytes(self.contents())
    }

    /// Create a new scatter-gather list
    pub fn new() -> (r: Self)
        ensures
            r.wf(),
            r.contents() == Seq::<Seq<u8>>::empty(),
    {
        let r = Self { segments: Vec::new(), total_size: 0 };
        proof {
            assert(r.contents() =~= Seq::<Seq<u8>>::empty());
        }
        r
    }

    /// Add a buffer segment at the end
    pub fn add_segment(&mut self, buffer: UsbBuffer)
        requires
            old(self).wf(),
            old(self).spec_total() + buffer@.len() <= usize::MAX,
        ensures
            final(self).wf(),
            final(self).contents() == old(self).contents().push(buffer@),
    {
        let ghost b = buffer@;
        self.total_size = self.total_size + buffer.len();
        self.segments.push(buffer);
        proof {
            assert(self.contents() =~= old(self).contents().push(b));
            assert(self.contents().drop_last() =~= old(self).contents());
        }
    }

    /// Get total size
    pub fn total_size(&self) -> (r: usize)
        requires
            self.wf(),
        ensures
            r == total_bytes(self.contents()),
    {
        self.total_size
    }

    /// Get number of segments
    pub fn segment_count(&self) -> (r: usize)
        ensures
            r == self.contents().len(),
    {
        self.segments.len()
    }

    /// Get segment by index
    pub fn segment(&self, index: usize) -> (r: Option<&UsbBuffer>)
        ensures
            index >= self.contents().len() ==> r is None,
            index < self.contents().len() ==> (r matches Some(b) && b@ == self.contents()[index as int]),
    {
        if index < self.segments.len() {
            Some(&self.segments[index])
        } else {
            None
        }
    }

    /// Get mutable segment by index. The recorded total is not updated: a segment replaced
    /// through the reference by one of another length leaves it stale.
    pub fn segment_mut(&mut self, index: usize) -> (r: Option<&mut UsbBuffer>)
        ensures
            index >= old(self).contents().len() ==> r is None && final(self).contents() == old(self).contents()
                && final(self).spec_total() == old(self).spec_total(),
            index < old(self).contents().len() ==> (r matches Some(b) && b@ == old(self).contents()[index as int]
                && final(self).contents() == old(self).contents().update(index as int, final(b)@)
                && final(self).spec_total() == old(self).spec_total()),
    {
        if index < self.segments.len() {
            Some(&mut self.segments[index])
        } else {
            None
        }
    }

    /// All segments, in order
    pub fn segments(&self) -> (r: &[UsbBuffer])
        ensures
            r@.map_values(|b: UsbBuffer| b@) == self.contents(),
    {
        self.segments.as_slice()
    }

    /// Copy data into the scatter-gather list: each segment in turn is filled from where the
    /// previous one stopped, until the data runs out; the number of bytes placed is returned.
    pub fn copy_from_slice(&mut self, src: &[u8]) -> (r: Result<usize, UsbDriverError>)
        requires
            old(self).wf(),
        ensures
            final(self).wf(),
            final(self).contents().len() == old(self).contents().len(),
            forall|k: int|
                0 <= k < old(self).contents().len() ==> #[trigger] final(self).contents()[k] == filled(
                    old(self).contents()[k],
                    src@,
                    total_bytes(old(self).contents().take(k)),
                ),
            r == Ok::<usize, UsbDriverError>(
                (if src@.len() < total_bytes(old(self).contents()) {
                    src@.len() as int
                } else {
                    total_bytes(old(self).contents())
                }) as usize,
            ),
    {
        let ghost before = self.contents();
        let mut copied: usize = 0;
        let mut i: usize = 0;
        while i < self.segments.len()
            invariant
                i <= self.segments@.len(),
                self.segments@.len() == before.len(),
                self.total_size == old(self).total_size,
                old(self).wf(),
                before == old(self).contents(),
                copied == (if src@.len() < total_bytes(before.take(i as int)) {
                    src@.len() as int
                } else {
                    total_bytes(before.take(i as int))
                }),
                self.contents().len() == before.len(),
                forall|k: int| 0 <= k < i ==> #[trigger] self.contents()[k] == filled(
                    before[k],
                    src@,
                    total_bytes(before.take(k)),
                ),
                forall|k: int| i <= k < before.len() ==> #[trigger] self.contents()[k] == before[k],
            decreases self.segments@.len() - i,
        {
            proof {
                lemma_prefix_step(before, i as int);
            }
            let remaining = src.len() - copied;
            let seg_len = self.segments[i].len();
            let to_copy = if remaining < seg_len { remaining } else { seg_len };
            let part = vstd::slice::slice_subrange(src, copied, copied + to_copy);
            let ghost segs_before = self.segments@;
            let ghost contents_before = self.contents();
            let mut seg = self.segments.remove(i);
            let ghost seg_before = seg@;
            let _ = seg.copy_from_slice(part);
            let ghost seg_after = seg@;
            self.segments.insert(i, seg);
            proof {
                assert(contents_before[i as int] == before[i as int]);
                assert(contents_before[i as int] == segs_before[i as int]@);
                assert(seg_before == before[i as int]);
                assert(self.segments@ =~= segs_before.update(i as int, seg));
                assert(self.contents() =~= contents_before.update(i as int, seg_after));
                let t = total_bytes(before.take(i as int));
                if t >= src@.len() {
                    assert(seg_after =~= seg_before);
                } else {
                    assert(seg_after =~= filled(before[i as int], src@, t));
                }
            }
            copied = copied + to_copy;
            i = i + 1;
        }
        proof {
            assert(before.take(before.len() as int) =~= before);
            assert forall|k: int| 0 <= k < before.len() implies (#[trigger] self.contents()[k]).len()
                == before[k].len() by {
                lemma_total_nonneg(before.take(k));
            }
            lemma_same_lengths(self.contents(), before);
        }
        Ok(copied)
    }

    /// Copy data from the scatter-gather list: the segments' bytes in order, as many as
    /// the destination holds; the number of bytes placed is returned.
    pub fn copy_to_slice(&self, dst: &mut [u8]) -> (r: Result<usize, UsbDriverError>)
        requires
            self.wf(),
        ensures
            ({
                let n = if old(dst)@.len() < total_bytes(self.contents()) {
                    old(dst)@.len() as int
                } else {
                    total_bytes(self.contents())
                };
                &&& r == Ok::<usize, UsbDriverError>(n as usize)
                &&& final(dst)@ == self.contents().flatten().take(n) + old(dst)@.skip(n)
            }),
    {
        let ghost segs = self.contents();
        let mut copied: usize = 0;
        let mut i: usize = 0;
        proof {
            assert(segs.take(0).flatten() =~= Seq::<u8>::empty());
            assert(dst@ =~= segs.take(0).flatten().take(0) + old(dst)@.skip(0));
        }
        while i < self.segments.len()
            invariant
                i <= self.segments@.len(),
                segs == self.contents(),
                segs.len() == self.segments@.len(),
                dst@.len() == old(dst)@.len(),
                copied == (if old(dst)@.len() < total_bytes(segs.take(i as int)) {
                    old(dst)@.len() as int
                } else {
                    total_bytes(segs.take(i as int))
                }),
                dst@ == segs.take(i as int).flatten().take(copied as int) + old(dst)@.skip(copied as int),
            decreases self.segments@.len() - i,
        {
            proof {
                lemma_prefix_step(segs, i as int);
                lemma_flatten_len(segs.take(i as int));
            }
            let seg = &self.segments[i];
            let ghost sv = seg@;
            assert(sv == segs[i as int]);
            let seg_len = seg.len();
            let room = dst.len() - copied;
            let to_copy = if room < seg_len { room } else { seg_len };
            let src = seg.as_slice();
            let ghost d0 = dst@;
            let end = copied + to_copy;
            let mut j: usize = 0;
            while j < to_copy
                invariant
                    j <= to_copy,
                    end == copied + to_copy,
                    to_copy <= sv.len(),
                    src@ == sv,
                    copied + to_copy <= dst@.len(),
                    dst@.len() == d0.len(),
                    forall|k: int| 0 <= k < copied ==> #[trigger] dst@[k] == d0[k],
                    forall|k: int| copied <= k < copied + j ==> #[trigger] dst@[k] == sv[k - copied],
                    forall|k: int| copied + j <= k < dst@.len() ==> #[trigger] dst@[k] == d0[k],
                decreases to_copy - j,
            {
                dst[copied + j] = src[j];
                j = j + 1;
            }
            let ghost old_copied = copied;
            copied = copied + to_copy;
            i = i + 1;
            proof {
                let flat = segs.take(i - 1).flatten();
                assert(segs.take(i as int).flatten() == flat + sv);
                assert(flat.len() == total_bytes(segs.take(i - 1)));
                assert(dst@ =~= segs.take(i as int).flatten().take(copied as int) + old(dst)@.skip(
                    copied as int,
                ));
            }
        }
        proof {
            assert(segs.take(segs.len() as int) =~= segs);
        }
        Ok(copied)
    }
}

} // verus!
