use vstd::prelude::*;
use super::trb::{LinkTrb, Trb, cyc};
use crate::bits::with_flag32;
use crate::usb::error::{Result, UsbError};

verus! {

/// Ring Segment containing TRBs
pub struct RingSegment {
    /// TRBs in this segment
    trbs: Vec<Trb>,
    /// Physical address of the segment
    physical_address: u64,
}

impl View for RingSegment {
    type V = Seq<Trb>;

    closed spec fn view(&self) -> Seq<Trb> {
        self.trbs@
    }
}

impl RingSegment {
    /// The physical address of the segment's first TRB.
    pub closed spec fn base(&self) -> u64 {
        self.physical_address
    }

    /// Create a new ring segment of `size` zeroed TRBs that lives at `physical_address`.
    pub fn new(size: usize, physical_address: u64) -> (r: Result<Self>)
        ensures
            size == 0 <==> r is Err,
            r is Err ==> r == Err::<Self, UsbError>(UsbError::InvalidRequest),
            r matches Ok(seg) ==> seg@.len() == size && seg.base() == physical_address
                && forall|i: int| 0 <= i < size ==> #[trigger] seg@[i] == zero_trb(),
    {
        if size == 0 {
            return Err(UsbError::InvalidRequest);
        }
        let mut trbs: Vec<Trb> = Vec::with_capacity(size);
        let mut i: usize = 0;
        while i < size
            invariant
                i <= size,
                trbs@.len() == i,
                forall|j: int| 0 <= j < i ==> #[trigger] trbs@[j] == zero_trb(),
            decreases size - i,
        {
            trbs.push(Trb::new());
            i = i + 1;
        }
        Ok(Self { trbs, physical_address })
    }

    /// Get the physical address of this segment
    pub fn physical_address(&self) -> (r: u64)
        ensures
            r == self.base(),
    {
        self.physical_address
    }

    /// Get the size of this segment in TRBs
    pub fn size(&self) -> (r: usize)
        ensures
            r == self@.len(),
    {
        self.trbs.len()
    }

    /// Set a TRB at the specified index
    pub fn set_trb(&mut self, index: usize, trb: Trb) -> (r: Result<()>)
        ensures
            index >= old(self)@.len() <==> r is Err,
            r is Err ==> r == Err::<(), UsbError>(UsbError::InvalidRequest),
            r is Ok ==> final(self)@ == old(self)@.update(index as int, trb),
            r is Err ==> final(self)@ == old(self)@,
            final(self).base() == old(self).base(),
    {
        if index >= self.trbs.len() {
            return Err(UsbError::InvalidRequest);
        }
        self.trbs.set(index, trb);
        Ok(())
    }

    /// Get a TRB at the specified index
    pub fn get_trb(&self, index: usize) -> (r: Result<Trb>)
        ensures
            index >= self@.len() <==> r is Err,
            r is Err ==> r == Err::<Trb, UsbError>(UsbError::InvalidRequest),
            r matches Ok(t) ==> t == self@[index as int],
    {
        if index >= self.trbs.len() {
            return Err(UsbError::InvalidRequest);
        }
        Ok(self.trbs[index])
    }

    /// Get TRBs as a slice
    pub fn trbs(&self) -> (r: &[Trb])
        ensures
            r@ == self@,
    {
        self.trbs.as_slice()
    }

    /// Get mutable TRBs as a slice
    pub fn trbs_mut(&mut self) -> (r: &mut [Trb])
        ensures
            r@ == old(self)@,
            final(r)@ == final(self)@,
            final(self).base() == old(self).base(),
    {
        self.trbs.as_mut_slice()
    }
}

} // verus!

verus! {

/// The state of a producer ring: the TRBs of each segment, the enqueue position and the
/// producer cycle state.
pub struct RingModel {
    pub segments: Seq<Seq<Trb>>,
    pub segment: int,
    pub trb: int,
    pub cycle: bool,
}

/// The position after one enqueue in a ring of `nsegs` segments with `usable` TRBs each.
pub open spec fn advance(m: RingModel, nsegs: int, usable: int) -> RingModel {
    if m.trb + 1 >= usable {
        if m.segment + 1 >= nsegs {
            RingModel { segment: 0, trb: 0, cycle: !m.cycle, ..m }
        } else {
            RingModel { segment: m.segment + 1, trb: 0, ..m }
        }
    } else {
        RingModel { trb: m.trb + 1, ..m }
    }
}

/// A TRB as the ring stores it: with the cycle bit replaced by the producer cycle state.
pub open spec fn stamped(t: Trb, cycle: bool) -> Trb {
    Trb { control: with_flag32(t.control, 1, cycle), ..t }
}

/// The ring after enqueueing `t` at its current position.
pub open spec fn enqueue_spec(m: RingModel, t: Trb, usable: int) -> RingModel {
    advance(
        RingModel {
            segments: m.segments.update(
                m.segment,
                m.segments[m.segment].update(m.trb, stamped(t, m.cycle)),
            ),
            ..m
        },
        m.segments.len() as int,
        usable,
    )
}

/// The ring after enqueueing every TRB of `ts` in order.
pub open spec fn enqueue_all(m: RingModel, ts: Seq<Trb>, usable: int) -> RingModel
    decreases ts.len(),
{
    if ts.len() == 0 {
        m
    } else {
        enqueue_all(enqueue_spec(m, ts[0], usable), ts.subrange(1, ts.len() as int), usable)
    }
}

/// The enqueue position counted in TRBs from the start of the ring.
pub open spec fn ring_index(m: RingModel, usable: int) -> int {
    m.segment * usable + m.trb
}

/// A position inside a ring of `usable` TRBs per segment.
pub open spec fn in_ring(m: RingModel, usable: int) -> bool {
    &&& usable >= 1
    &&& 0 <= m.segment < m.segments.len()
    &&& 0 <= m.trb < usable
}

/// One enqueue moves the position one TRB on, back to the start with the cycle toggled after
/// the last usable TRB of the last segment.
pub proof fn lemma_enqueue_step(m: RingModel, t: Trb, usable: int)
    requires
        in_ring(m, usable),
    ensures
        ({
            let e = enqueue_spec(m, t, usable);
            let total = m.segments.len() * usable;
            let idx = ring_index(m, usable);
            &&& e.segments.len() == m.segments.len()
            &&& in_ring(e, usable)
            &&& idx + 1 <= total
            &&& idx + 1 < total ==> ring_index(e, usable) == idx + 1 && e.cycle == m.cycle
            &&& idx + 1 == total ==> ring_index(e, usable) == 0 && e.cycle == !m.cycle
        }),
{
    let n = m.segments.len() as int;
    let s = m.segment;
    let u = usable;
    assert((s + 1) * u == s * u + u) by (nonlinear_arith);
    assert(s + 1 <= n ==> (s + 1) * u <= n * u) by (nonlinear_arith)
        requires
            u >= 1,
    ;
    assert(s + 1 < n ==> (s + 1) * u + u <= n * u) by (nonlinear_arith)
        requires
            u >= 1,
    ;
    assert(0 * u == 0) by (nonlinear_arith);
}

/// Enqueueing TRBs moves the position that many TRBs on around the ring: counted from the start
/// of the ring it lands at the sum modulo the ring's usable size, and the cycle state has
/// toggled once for each full round.
pub proof fn lemma_enqueue_all_position(m: RingModel, ts: Seq<Trb>, usable: int)
    requires
        in_ring(m, usable),
    ensures
        ({
            let e = enqueue_all(m, ts, usable);
            let total = m.segments.len() * usable;
            let k = ring_index(m, usable) + ts.len();
            &&& e.segments.len() == m.segments.len()
            &&& in_ring(e, usable)
            &&& ring_index(e, usable) == k % total
            &&& e.cycle == (m.cycle == ((k / total) % 2 == 0))
        }),
    decreases ts.len(),
{
    let total = m.segments.len() * usable;
    let idx = ring_index(m, usable);
    let k = idx + ts.len();
    assert(m.segments.len() * usable >= 1) by (nonlinear_arith)
        requires
            m.segments.len() >= 1,
            usable >= 1,
    ;
    assert(idx >= 0) by (nonlinear_arith)
        requires
            m.segment >= 0,
            usable >= 1,
            m.trb >= 0,
            idx == m.segment * usable + m.trb,
    ;
    lemma_enqueue_step(m, Trb { parameter: 0, status: 0, control: 0 }, usable);
    if ts.len() == 0 {
        vstd::arithmetic::div_mod::lemma_small_mod(idx as nat, total as nat);
        vstd::arithmetic::div_mod::lemma_basic_div(idx, total);
    } else {
        let m1 = enqueue_spec(m, ts[0], usable);
        let rest = ts.subrange(1, ts.len() as int);
        lemma_enqueue_step(m, ts[0], usable);
        lemma_enqueue_all_position(m1, rest, usable);
        let k1 = ring_index(m1, usable) + rest.len();
        if idx + 1 == total {
            assert(k1 == k - total);
            vstd::arithmetic::div_mod::lemma_mod_add_multiples_vanish(k - total, total);
            vstd::arithmetic::div_mod::lemma_div_plus_one(k - total, total);
            assert(k1 / total >= 0) by (nonlinear_arith)
                requires
                    k1 >= 0,
                    total >= 1,
            ;
        } else {
            assert(k1 == k);
        }
    }
}

/// Enqueueing a sequence and then one more TRB is enqueueing the longer sequence, so that `k`
/// single enqueues are `enqueue_all` of the `k` TRBs.
pub proof fn lemma_enqueue_all_push(m: RingModel, ts: Seq<Trb>, t: Trb, usable: int)
    ensures
        enqueue_all(m, ts.push(t), usable) == enqueue_spec(enqueue_all(m, ts, usable), t, usable),
    decreases ts.len(),
{
    let p = ts.push(t);
    if ts.len() == 0 {
        assert(p.subrange(1, 1) =~= Seq::<Trb>::empty());
        assert(p[0] == t);
        assert(enqueue_all(enqueue_spec(m, t, usable), Seq::<Trb>::empty(), usable) == enqueue_spec(m, t, usable));
        assert(enqueue_all(m, p, usable) == enqueue_all(enqueue_spec(m, t, usable), p.subrange(1, 1), usable));
    } else {
        let rest = ts.subrange(1, ts.len() as int);
        let m1 = enqueue_spec(m, ts[0], usable);
        lemma_enqueue_all_push(m1, rest, t, usable);
        assert(p.subrange(1, p.len() as int) =~= rest.push(t));
        assert(p[0] == ts[0]);
        assert(enqueue_all(m, p, usable) == enqueue_all(m1, p.subrange(1, p.len() as int), usable));
        assert(enqueue_all(m, ts, usable) == enqueue_all(m1, rest, usable));
    }
}

/// From the start of a ring of `n` segments with `usable` TRBs each, `k` enqueues leave the
/// position at TRB `k % usable` of segment `(k / usable) % n`, with the cycle state toggled
/// once for each `n * usable` enqueues.
pub proof fn lemma_enqueue_from_start(m: RingModel, ts: Seq<Trb>, usable: int)
    requires
        usable >= 1,
        m.segments.len() >= 1,
        m.segment == 0,
        m.trb == 0,
    ensures
        ({
            let e = enqueue_all(m, ts, usable);
            let n = m.segments.len() as int;
            let k = ts.len() as int;
            &&& e.trb == k % usable
            &&& e.segment == (k / usable) % n
            &&& e.cycle == (m.cycle == ((k / (n * usable)) % 2 == 0))
        }),
{
    let n = m.segments.len() as int;
    let k = ts.len() as int;
    assert(0 * usable + 0 == 0) by (nonlinear_arith);
    lemma_enqueue_all_position(m, ts, usable);
    let e = enqueue_all(m, ts, usable);
    assert(usable * n == n * usable) by (nonlinear_arith);
    vstd::arithmetic::div_mod::lemma_mod_breakdown(k, usable, n);
    let s1 = (k / usable) % n;
    let t1 = k % usable;
    vstd::arithmetic::div_mod::lemma_mod_pos_bound(k / usable, n);
    vstd::arithmetic::div_mod::lemma_mod_pos_bound(k, usable);
    assert(e.segment == s1 && e.trb == t1) by (nonlinear_arith)
        requires
            e.segment * usable + e.trb == usable * s1 + t1,
            0 <= e.trb < usable,
            0 <= t1 < usable,
            usable >= 1,
    ;
}

/// A TRB with every field 0.
pub open spec fn zero_trb() -> Trb {
    Trb { parameter: 0, status: 0, control: 0 }
}

/// The link TRB that ends a segment and points at the next one.
pub open spec fn link_trb(next: u64, toggle: bool) -> Trb {
    Trb {
        parameter: next & !0x0fu64,
        status: 0,
        control: 0x1800u32 | cyc(false) | (if toggle {
            2u32
        } else {
            0u32
        }),
    }
}

/// Transfer Ring for xHCI endpoints
pub struct TransferRing {
    /// Ring segments (each segment contains TRBs)
    segments: Vec<RingSegment>,
    /// Current segment index
    current_segment: usize,
    /// Current TRB index within segment
    current_trb: usize,
    /// Current cycle state
    cycle_state: bool,
    /// Number of TRBs per segment that carry transfers (the last one is the link)
    trbs_per_segment: usize,
}

/// Ring statistics for debugging
#[derive(Debug, Clone, Copy)]
pub struct RingStats {
    pub segments: usize,
    pub trbs_per_segment: usize,
    pub current_segment: usize,
    pub current_trb: usize,
    pub cycle_state: bool,
}

impl TransferRing {
    /// The ring's segments, enqueue position and cycle state.
    pub closed spec fn model(&self) -> RingModel {
        RingModel {
            segments: Seq::new(self.segments@.len(), |i: int| self.segments@[i]@),
            segment: self.current_segment as int,
            trb: self.current_trb as int,
            cycle: self.cycle_state,
        }
    }

    /// The number of TRBs per segment that transfers may use.
    pub closed spec fn usable(&self) -> nat {
        self.trbs_per_segment as nat
    }

    /// The physical address of each segment.
    pub closed spec fn bases(&self) -> Seq<u64> {
        Seq::new(self.segments@.len(), |i: int| self.segments@[i].base())
    }

    /// The ring's invariant: at least one segment, the position inside it, and every
    /// segment one TRB longer than its usable part (for the link TRB).
    pub closed spec fn wf(&self) -> bool {
        &&& self.segments@.len() > 0
        &&& self.current_segment < self.segments@.len()
        &&& (self.current_trb == 0 || self.current_trb < self.trbs_per_segment)
        &&& forall|i: int|
            0 <= i < self.segments@.len() ==> #[trigger] self.segments@[i]@.len()
                == self.trbs_per_segment + 1
        &&& self.segments@.len() * (self.trbs_per_segment + 1) <= usize::MAX
    }

    /// Create a new transfer ring with one segment at each of `segment_addresses`, each
    /// `trbs_per_segment` TRBs long; the last TRB of each segment links to the next
    /// segment, and the last segment links back to the first and toggles the cycle.
    pub fn new(segment_addresses: &[u64], trbs_per_segment: usize) -> (r: Result<Self>)
        requires
            segment_addresses@.len() * trbs_per_segment <= usize::MAX,
        ensures
            (segment_addresses@.len() == 0 || trbs_per_segment == 0) <==> r is Err,
            r is Err ==> r == Err::<Self, UsbError>(UsbError::InvalidRequest),
            r matches Ok(ring) ==> {
                let n = segment_addresses@.len() as int;
                &&& ring.wf()
                &&& ring.usable() == trbs_per_segment - 1
                &&& ring.bases() == segment_addresses@
                &&& ring.model().segment == 0 && ring.model().trb == 0 && ring.model().cycle
                &&& ring.model().segments.len() == n
                &&& forall|i: int|
                    0 <= i < n ==> #[trigger] ring.model().segments[i][trbs_per_segment - 1]
                        == link_trb(segment_addresses@[(i + 1) % n], i == n - 1)
                &&& forall|i: int, j: int|
                    0 <= i < n && 0 <= j < trbs_per_segment - 1 ==> #[trigger] ring.model().segments[i][j]
                        == zero_trb()
            },
    {
        let num_segments = segment_addresses.len();
        if num_segments == 0 || trbs_per_segment == 0 {
            return Err(UsbError::InvalidRequest);
        }
        let mut segments: Vec<RingSegment> = Vec::with_capacity(num_segments);
        let ghost n = num_segments as int;
        let mut i: usize = 0;
        while i < num_segments
            invariant
                i <= num_segments,
                num_segments == segment_addresses@.len(),
                n == num_segments,
                trbs_per_segment > 0,
                segments@.len() == i,
                forall|k: int|
                    #![trigger segments@[k]]
                    0 <= k < i ==> segments@[k]@.len() == trbs_per_segment
                        && segments@[k].base() == segment_addresses@[k]
                        && segments@[k]@[trbs_per_segment - 1] == link_trb(
                        segment_addresses@[(k + 1) % n],
                        k == n - 1,
                    ) && forall|j: int|
                        0 <= j < trbs_per_segment - 1 ==> #[trigger] segments@[k]@[j] == zero_trb(),
            decreases num_segments - i,
        {
            let mut segment = match RingSegment::new(trbs_per_segment, segment_addresses[i]) {
                Ok(s) => s,
                Err(e) => {
                    return Err(e);
                },
            };
            // Last segment links back to first segment and toggles the cycle
            let next_segment_index = if i == num_segments - 1 {
                0
            } else {
                i + 1
            };
            let toggle_cycle = i == num_segments - 1;
            let link = LinkTrb::new(segment_addresses[next_segment_index], false, toggle_cycle);
            let _ = segment.set_trb(trbs_per_segment - 1, link);
            proof {
                if i == num_segments - 1 {
                    vstd::arithmetic::div_mod::lemma_mod_self_0(n);
                } else {
                    vstd::arithmetic::div_mod::lemma_small_mod((i + 1) as nat, n as nat);
                }
                assert(next_segment_index as int == (i as int + 1) % n);
            }
            let ghost before = segments@;
            proof {
                assert(segment@[trbs_per_segment - 1] == link_trb(
                    segment_addresses@[(i + 1) % n],
                    i == n - 1,
                ));
                assert forall|j: int| 0 <= j < trbs_per_segment - 1 implies #[trigger] segment@[j]
                    == zero_trb() by {
                }
            }
            segments.push(segment);
            proof {
                assert forall|k: int|
                    #![trigger segments@[k]]
                    0 <= k < i + 1 implies segments@[k]@.len()
                    == trbs_per_segment && segments@[k].base() == segment_addresses@[k]
                    && segments@[k]@[trbs_per_segment - 1] == link_trb(
                    segment_addresses@[(k + 1) % n],
                    k == n - 1,
                ) && forall|j: int|
                    0 <= j < trbs_per_segment - 1 ==> #[trigger] segments@[k]@[j] == zero_trb() by {
                    if k < i {
                        assert(segments@[k] == before[k]);
                    } else {
                        assert(segments@[k] == segment);
                    }
                }
            }
            i = i + 1;
        }
        let ring = Self {
            segments,
            current_segment: 0,
            current_trb: 0,
            cycle_state: true,
            trbs_per_segment: trbs_per_segment - 1,  // Reserve last TRB for link
        };
        proof {
            assert(ring.bases() =~= segment_addresses@);
        }
        Ok(ring)
    }

    /// The address of the current enqueue position.
    pub closed spec fn enqueue_address(&self) -> int {
        self.segments@[self.current_segment as int].base() + self.current_trb * 16
    }

    /// A well-formed ring's enqueue position lies inside its segments.
    pub proof fn lemma_position(&self)
        requires
            self.wf(),
        ensures
            0 <= self.model().segment < self.bases().len(),
            self.model().trb == 0 || 0 <= self.model().trb < self.usable(),
            self.enqueue_address() == self.bases()[self.model().segment] + self.model().trb * 16,
            self.model().segments.len() == self.bases().len(),
            forall|i: int|
                0 <= i < self.model().segments.len() ==> #[trigger] self.model().segments[i].len()
                    == self.usable() + 1,
    {
    }

    /// Get the physical address of the current enqueue position
    pub fn enqueue_pointer(&self) -> (r: u64)
        requires
            self.wf(),
            self.enqueue_address() <= u64::MAX,
        ensures
            r == self.enqueue_address(),
            self.enqueue_address() == self.bases()[self.model().segment] + self.model().trb * 16,
    {
        self.segments[self.current_segment].physical_address() + (self.current_trb as u64) * 16
    }

    /// Add a TRB to the ring
    pub fn enqueue_trb(&mut self, trb: Trb) -> (r: Result<()>)
        requires
            old(self).wf(),
        ensures
            r is Ok,
            final(self).wf(),
            final(self).usable() == old(self).usable(),
            final(self).bases() == old(self).bases(),
            final(self).model() == enqueue_spec(old(self).model(), trb, old(self).usable() as int),
            old(self).usable() >= 1 ==> ({
                let u = old(self).usable() as int;
                let total = old(self).model().segments.len() * u;
                let idx = ring_index(old(self).model(), u);
                &&& ring_index(final(self).model(), u) == (idx + 1) % total
                &&& final(self).model().cycle == (if idx + 1 == total {
                    !old(self).model().cycle
                } else {
                    old(self).model().cycle
                })
            }),
    {
        proof {
            if self.trbs_per_segment >= 1 {
                let m = self.model();
                let u = self.trbs_per_segment as int;
                lemma_enqueue_step(m, trb, u);
                let total = m.segments.len() * u;
                let idx = ring_index(m, u);
                if idx + 1 < total {
                    vstd::arithmetic::div_mod::lemma_small_mod((idx + 1) as nat, total as nat);
                } else {
                    vstd::arithmetic::div_mod::lemma_mod_self_0(total);
                }
            }
        }
        let ghost orig = trb;
        let mut trb = trb;
        // Set the cycle bit
        trb.set_cycle_bit(self.cycle_state);

        // Add TRB to current position
        let seg = self.current_segment;
        let ghost old_model = self.model();
        let ghost old_bases = self.bases();
        let idx = self.current_trb;
        let _ = self.segments[seg].set_trb(idx, trb);
        proof {
            assert(trb == stamped(orig, old_model.cycle));
            let m = self.model();
            assert(m.segments =~= old_model.segments.update(
                old_model.segment,
                old_model.segments[old_model.segment].update(old_model.trb, stamped(orig, old_model.cycle)),
            ));
            assert(self.bases() =~= old_bases);
        }

        // Advance to next position
        self.advance_enqueue();
        Ok(())
    }

    /// Add multiple TRBs to the ring
    pub fn enqueue_trbs(&mut self, trbs: &[Trb]) -> (r: Result<()>)
        requires
            old(self).wf(),
        ensures
            r is Ok,
            final(self).wf(),
            final(self).usable() == old(self).usable(),
            final(self).bases() == old(self).bases(),
            final(self).model() == enqueue_all(old(self).model(), trbs@, old(self).usable() as int),
    {
        let mut i: usize = 0;
        let ghost start = self.model();
        let ghost u = self.usable() as int;
        proof {
            assert(trbs@.subrange(0, trbs@.len() as int) =~= trbs@);
        }
        while i < trbs.len()
            invariant
                i <= trbs@.len(),
                self.wf(),
                self.usable() == u,
                self.bases() == old(self).bases(),
                enqueue_all(start, trbs@, u) == enqueue_all(self.model(), trbs@.subrange(i as int, trbs@.len() as int), u),
            decreases trbs@.len() - i,
        {
            let ghost before = self.model();
            let _ = self.enqueue_trb(trbs[i]);
            proof {
                let rest = trbs@.subrange(i as int, trbs@.len() as int);
                assert(rest[0] == trbs@[i as int]);
                assert(rest.subrange(1, rest.len() as int) =~= trbs@.subrange(i + 1, trbs@.len() as int));
            }
            i = i + 1;
        }
        proof {
            assert(trbs@.subrange(trbs@.len() as int, trbs@.len() as int) =~= Seq::<Trb>::empty());
        }
        Ok(())
    }

    /// Get the current cycle state
    pub fn cycle_state(&self) -> (r: bool)
        ensures
            r == self.model().cycle,
    {
        self.cycle_state
    }

    /// Advance the enqueue pointer
    fn advance_enqueue(&mut self)
        requires
            old(self).segments@.len() > 0,
            old(self).current_segment < old(self).segments@.len(),
            old(self).current_trb == 0 || old(self).current_trb < old(self).trbs_per_segment,
            old(self).segments@.len() * (old(self).trbs_per_segment + 1) <= usize::MAX,
            forall|i: int|
                0 <= i < old(self).segments@.len() ==> #[trigger] old(self).segments@[i]@.len()
                    == old(self).trbs_per_segment + 1,
        ensures
            final(self).wf(),
            final(self).segments == old(self).segments,
            final(self).trbs_per_segment == old(self).trbs_per_segment,
            final(self).model() == advance(
                old(self).model(),
                old(self).segments@.len() as int,
                old(self).trbs_per_segment as int,
            ),
    {
        let nsegs = self.segments.len();
        self.current_trb = self.current_trb + 1;

        // Check if we've reached the end of the current segment
        if self.current_trb >= self.trbs_per_segment {
            self.current_trb = 0;
            self.current_segment = self.current_segment + 1;

            // Check if we've reached the end of all segments
            if self.current_segment >= nsegs {
                self.current_segment = 0;
                self.cycle_state = !self.cycle_state;  // Toggle cycle state
            }
        }
    }

    /// Get the number of free TRBs in the ring (estimated as half of its usable TRBs)
    pub fn free_trbs(&self) -> (r: usize)
        requires
            self.wf(),
        ensures
            r == (self.model().segments.len() * self.usable()) / 2,
    {
        proof {
            assert(self.segments@.len() * self.trbs_per_segment <= self.segments@.len() * (
            self.trbs_per_segment + 1)) by (nonlinear_arith);
        }
        (self.segments.len() * self.trbs_per_segment) / 2
    }

    /// Check if the ring has space for more TRBs
    pub fn has_space(&self, count: usize) -> (r: bool)
        requires
            self.wf(),
        ensures
            r == ((self.model().segments.len() * self.usable()) / 2 >= count),
    {
        self.free_trbs() >= count
    }

    /// Get ring statistics
    pub fn stats(&self) -> (r: RingStats)
        ensures
            r.segments == self.model().segments.len(),
            r.trbs_per_segment == self.usable(),
            r.current_segment == self.model().segment,
            r.current_trb == self.model().trb,
            r.cycle_state == self.model().cycle,
    {
        RingStats {
            segments: self.segments.len(),
            trbs_per_segment: self.trbs_per_segment,
            current_segment: self.current_segment,
            current_trb: self.current_trb,
            cycle_state: self.cycle_state,
        }
    }
}

} // verus!

verus! {

/// The enqueue position counted in TRBs from the start of the first segment.
pub open spec fn linear_position(m: RingModel, usable: int) -> int {
    m.segment * usable + m.trb
}

/// The position after `k` enqueues.
pub open spec fn advance_n(m: RingModel, k: nat, nsegs: int, usable: int) -> RingModel
    decreases k,
{
    if k == 0 {
        m
    } else {
        advance(advance_n(m, (k - 1) as nat, nsegs, usable), nsegs, usable)
    }
}

/// One enqueue moves the position one TRB forward through all segments in turn, wrapping
/// after the last usable TRB of the last segment; the cycle state flips exactly on that wrap.
pub proof fn lemma_advance_linear(m: RingModel, nsegs: int, usable: int)
    requires
        nsegs > 0,
        usable > 0,
        0 <= m.segment < nsegs,
        0 <= m.trb < usable,
    ensures
        0 <= advance(m, nsegs, usable).segment < nsegs,
        0 <= advance(m, nsegs, usable).trb < usable,
        linear_position(advance(m, nsegs, usable), usable) == if linear_position(m, usable) + 1
            == nsegs * usable {
            0
        } else {
            linear_position(m, usable) + 1
        },
        advance(m, nsegs, usable).cycle == (m.cycle != (linear_position(m, usable) + 1 == nsegs
            * usable)),
        advance(m, nsegs, usable).segments == m.segments,
{
    let l = linear_position(m, usable);
    assert(l + 1 <= nsegs * usable) by (nonlinear_arith)
        requires
            l == m.segment * usable + m.trb,
            0 <= m.segment < nsegs,
            0 <= m.trb < usable,
    ;
    if m.trb + 1 >= usable {
        if m.segment + 1 >= nsegs {
            assert(l + 1 == nsegs * usable) by (nonlinear_arith)
                requires
                    l == m.segment * usable + m.trb,
                    m.segment == nsegs - 1,
                    m.trb == usable - 1,
            ;
            assert(0 * usable == 0);
            assert(linear_position(advance(m, nsegs, usable), usable) == 0);
        } else {
            assert(l + 1 == (m.segment + 1) * usable) by (nonlinear_arith)
                requires
                    l == m.segment * usable + m.trb,
                    m.trb == usable - 1,
            ;
            assert((m.segment + 1) * usable < nsegs * usable) by (nonlinear_arith)
                requires
                    m.segment + 1 < nsegs,
                    usable > 0,
            ;
            assert(linear_position(advance(m, nsegs, usable), usable) == (m.segment + 1) * usable);
        }
    } else {
        assert(l + 1 < nsegs * usable) by (nonlinear_arith)
            requires
                l == m.segment * usable + m.trb,
                0 <= m.segment < nsegs,
                0 <= m.trb,
                m.trb + 1 < usable,
        ;
    }
}

/// After `k` enqueues from the start of the ring (fewer than one full pass), the position
/// is `k` TRBs in and the cycle state is unchanged.
pub proof fn lemma_advance_n_linear(m: RingModel, k: nat, nsegs: int, usable: int)
    requires
        nsegs > 0,
        usable > 0,
        m.segment == 0,
        m.trb == 0,
        k < nsegs * usable,
    ensures
        0 <= advance_n(m, k, nsegs, usable).segment < nsegs,
        0 <= advance_n(m, k, nsegs, usable).trb < usable,
        linear_position(advance_n(m, k, nsegs, usable), usable) == k,
        advance_n(m, k, nsegs, usable).cycle == m.cycle,
    decreases k,
{
    if k > 0 {
        lemma_advance_n_linear(m, (k - 1) as nat, nsegs, usable);
        lemma_advance_linear(advance_n(m, (k - 1) as nat, nsegs, usable), nsegs, usable);
    }
}

/// A full pass of the ring, one enqueue per usable TRB, brings the enqueue position back to
/// the start and flips the producer cycle state exactly once.
pub proof fn lemma_full_pass(m: RingModel, nsegs: int, usable: int)
    requires
        nsegs > 0,
        usable > 0,
        m.segment == 0,
        m.trb == 0,
    ensures
        advance_n(m, (nsegs * usable) as nat, nsegs, usable).segment == 0,
        advance_n(m, (nsegs * usable) as nat, nsegs, usable).trb == 0,
        advance_n(m, (nsegs * usable) as nat, nsegs, usable).cycle == !m.cycle,
{
    let total = nsegs * usable;
    assert(total > 0) by (nonlinear_arith)
        requires
            total == nsegs * usable,
            nsegs > 0,
            usable > 0,
    ;
    let prev = advance_n(m, (total - 1) as nat, nsegs, usable);
    lemma_advance_n_linear(m, (total - 1) as nat, nsegs, usable);
    lemma_advance_linear(prev, nsegs, usable);
    let last = advance(prev, nsegs, usable);
    assert(linear_position(last, usable) == 0);
    assert(last.segment == 0 && last.trb == 0) by (nonlinear_arith)
        requires
            last.segment * usable + last.trb == 0,
            0 <= last.segment,
            0 <= last.trb < usable,
    ;
}

} // verus!

verus! {

/// Event Ring Segment Table Entry
#[derive(Debug, Clone, Copy)]
pub struct EventRingSegmentTableEntry {
    /// Ring segment base address (64-bit aligned)
    pub ring_segment_base_address: u64,
    /// Ring segment size (number of TRBs)
    pub ring_segment_size: u16,
    /// Reserved
    pub reserved: u64,
}

/// The consumer position after one event in a ring whose segments hold `sizes` TRBs.
pub open spec fn event_advance(pos: (int, int, bool), sizes: Seq<u16>) -> (int, int, bool) {
    let (seg, trb, cycle) = pos;
    if trb + 1 >= sizes[seg] {
        if seg + 1 >= sizes.len() {
            (0, 0, !cycle)
        } else {
            (seg + 1, 0, cycle)
        }
    } else {
        (seg, trb + 1, cycle)
    }
}

/// The consumer position after `k` events.
pub open spec fn event_advance_n(pos: (int, int, bool), sizes: Seq<u16>, k: nat) -> (int, int, bool)
    decreases k,
{
    if k == 0 {
        pos
    } else {
        event_advance(event_advance_n(pos, sizes, (k - 1) as nat), sizes)
    }
}

/// Event Ring for xHCI events
pub struct EventRing {
    /// Event ring segment table
    segment_table: Vec<EventRingSegmentTableEntry>,
    /// Current segment being processed
    current_segment: usize,
    /// Current TRB being processed
    current_trb: usize,
    /// Current cycle state for consumer
    cycle_state: bool,
    /// Physical address of segment table
    segment_table_address: u64,
}

impl EventRing {
    /// The segment table.
    pub closed spec fn table(&self) -> Seq<EventRingSegmentTableEntry> {
        self.segment_table@
    }

    /// The size of each segment, as the table records it.
    pub open spec fn sizes(&self) -> Seq<u16> {
        Seq::new(self.table().len(), |i: int| self.table()[i].ring_segment_size)
    }

    /// The physical address of the segment table.
    pub closed spec fn table_address(&self) -> u64 {
        self.segment_table_address
    }

    /// The consumer position: segment, TRB and cycle state.
    pub closed spec fn position(&self) -> (int, int, bool) {
        (self.current_segment as int, self.current_trb as int, self.cycle_state)
    }

    /// The ring's invariant: a nonempty table and the position inside it.
    pub closed spec fn wf(&self) -> bool {
        &&& self.segment_table@.len() > 0
        &&& self.current_segment < self.segment_table@.len()
        &&& (self.current_trb == 0 || self.current_trb < self.segment_table@[self.current_segment as int].ring_segment_size)
    }

    /// Create a new event ring over `segments`
    pub fn new(segments: Vec<RingSegment>) -> (r: Result<Self>)
        ensures
            segments@.len() == 0 <==> r is Err,
            r is Err ==> r == Err::<Self, UsbError>(UsbError::InvalidRequest),
            r matches Ok(ring) ==> {
                &&& ring.wf()
                &&& ring.position() == (0int, 0int, true)
                &&& ring.table_address() == 0
                &&& ring.table().len() == segments@.len()
                &&& forall|i: int|
                    0 <= i < segments@.len() ==> #[trigger] ring.table()[i]
                        == (EventRingSegmentTableEntry {
                            ring_segment_base_address: segments@[i].base(),
                            ring_segment_size: segments@[i]@.len() as u16,
                            reserved: 0,
                        })
            },
    {
        if segments.len() == 0 {
            return Err(UsbError::InvalidRequest);
        }
        let mut segment_table: Vec<EventRingSegmentTableEntry> = Vec::with_capacity(segments.len());
        let mut i: usize = 0;
        while i < segments.len()
            invariant
                i <= segments@.len(),
                segment_table@.len() == i,
                forall|k: int|
                    0 <= k < i ==> #[trigger] segment_table@[k] == (EventRingSegmentTableEntry {
                        ring_segment_base_address: segments@[k].base(),
                        ring_segment_size: segments@[k]@.len() as u16,
                        reserved: 0,
                    }),
            decreases segments@.len() - i,
        {
            segment_table.push(
                EventRingSegmentTableEntry {
                    ring_segment_base_address: segments[i].physical_address(),
                    ring_segment_size: segments[i].size() as u16,
                    reserved: 0,
                },
            );
            i = i + 1;
        }

        // The segment table itself has no physical placement yet
        let segment_table_address: u64 = 0;

        Ok(Self {
            segment_table,
            current_segment: 0,
            current_trb: 0,
            cycle_state: true,
            segment_table_address,
        })
    }

    /// Get the next event TRB from the ring: none is read from hardware here.
    pub fn dequeue_event(&mut self) -> (r: Option<Trb>)
        ensures
            r.is_none(),
            *final(self) == *old(self),
    {
        None
    }

    /// The address of the current dequeue position.
    pub closed spec fn dequeue_address(&self) -> int {
        self.segment_table@[self.current_segment as int].ring_segment_base_address + self.current_trb
            * 16
    }

    /// A well-formed event ring's dequeue position lies inside its segments.
    pub proof fn lemma_position(&self)
        requires
            self.wf(),
        ensures
            0 <= self.position().0 < self.table().len(),
            self.position().1 == 0 || 0 <= self.position().1 < self.table()[self.position().0].ring_segment_size,
            self.dequeue_address() == self.table()[self.position().0].ring_segment_base_address
                + self.position().1 * 16,
    {
    }

    /// Get the dequeue pointer address
    pub fn dequeue_pointer(&self) -> (r: u64)
        requires
            self.wf(),
            self.dequeue_address() <= u64::MAX,
        ensures
            r == self.dequeue_address(),
            self.dequeue_address() == self.table()[self.position().0].ring_segment_base_address
                + self.position().1 * 16,
    {
        self.segment_table[self.current_segment].ring_segment_base_address + (self.current_trb as u64)
            * 16
    }

    /// Get the segment table address
    pub fn segment_table_address(&self) -> (r: u64)
        ensures
            r == self.table_address(),
    {
        self.segment_table_address
    }

    /// Get the number of segments (truncated to 16 bits)
    pub fn segment_count(&self) -> (r: u16)
        ensures
            r == self.table().len() as u16,
    {
        self.segment_table.len() as u16
    }

    /// Update the dequeue pointer after processing events
    pub fn update_dequeue_pointer(&mut self, processed_events: usize)
        requires
            old(self).wf(),
        ensures
            final(self).wf(),
            final(self).table() == old(self).table(),
            final(self).table_address() == old(self).table_address(),
            final(self).position() == event_advance_n(old(self).position(), old(self).sizes(), processed_events as nat),
    {
        let ghost start = self.position();
        let ghost sizes = self.sizes();
        let n = self.segment_table.len();
        let mut k: usize = 0;
        while k < processed_events
            invariant
                k <= processed_events,
                self.wf(),
                n == self.segment_table@.len(),
                self.table() == old(self).table(),
                self.table_address() == old(self).table_address(),
                self.sizes() == sizes,
                self.position() == event_advance_n(start, sizes, k as nat),
            decreases processed_events - k,
        {
            let size = self.segment_table[self.current_segment].ring_segment_size as usize;
            self.current_trb = self.current_trb + 1;

            // Check if we've reached the end of the current segment
            if self.current_trb >= size {
                self.current_trb = 0;
                self.current_segment = self.current_segment + 1;

                // Check if we've reached the end of all segments
                if self.current_segment >= n {
                    self.current_segment = 0;
                    self.cycle_state = !self.cycle_state;
                }
            }
            k = k + 1;
        }
    }
}

/// Command Ring for xHCI commands
pub struct CommandRing {
    /// Transfer ring for commands
    ring: TransferRing,
    /// Command completion events
    completion_queue: Vec<Trb>,
}

impl CommandRing {
    /// The ring the commands go to.
    pub closed spec fn ring(&self) -> TransferRing {
        self.ring
    }

    /// The completion events waiting to be taken, oldest first.
    pub closed spec fn completions(&self) -> Seq<Trb> {
        self.completion_queue@
    }

    /// Create a new command ring: one segment of 64 TRBs at `physical_address`
    pub fn new(physical_address: u64) -> (r: Result<Self>)
        ensures
            r matches Ok(c) ==> c.ring().wf() && c.ring().usable() == 63 && c.ring().bases() == seq![
                physical_address,
            ] && c.ring().model().segment == 0 && c.ring().model().trb == 0
                && c.ring().model().cycle && c.completions().len() == 0,
            r is Ok,
    {
        let addresses = [physical_address];
        let ring = match TransferRing::new(&addresses, 64) {
            Ok(ring) => ring,
            Err(e) => {
                return Err(e);
            },
        };  // Single segment with 64 TRBs
        Ok(Self { ring, completion_queue: Vec::new() })
    }

    /// Submit a command TRB
    pub fn submit_command(&mut self, command: Trb) -> (r: Result<()>)
        requires
            old(self).ring().wf(),
        ensures
            r is Ok,
            final(self).ring().wf(),
            final(self).ring().usable() == old(self).ring().usable(),
            final(self).ring().bases() == old(self).ring().bases(),
            final(self).ring().model() == enqueue_spec(
                old(self).ring().model(),
                command,
                old(self).ring().usable() as int,
            ),
            final(self).completions() == old(self).completions(),
    {
        self.ring.enqueue_trb(command)
    }

    /// Get the command ring's current enqueue address
    pub fn physical_address(&self) -> (r: u64)
        requires
            self.ring().wf(),
            self.ring().enqueue_address() <= u64::MAX,
        ensures
            r == self.ring().enqueue_address(),
    {
        self.ring.enqueue_pointer()
    }

    /// Get the current cycle state
    pub fn cycle_state(&self) -> (r: bool)
        ensures
            r == self.ring().model().cycle,
    {
        self.ring.cycle_state()
    }

    /// Wait for command completion: reports an empty (all-zero) event at once
    pub fn wait_for_completion(&mut self, _timeout_ms: u32) -> (r: Result<Trb>)
        ensures
            r matches Ok(t) && t == zero_trb(),
            final(self).ring() == old(self).ring(),
            final(self).completions() == old(self).completions(),
    {
        Ok(Trb::new())
    }

    /// Process command completion event
    pub fn process_completion(&mut self, event: Trb)
        ensures
            final(self).completions() == old(self).completions().push(event),
            final(self).ring() == old(self).ring(),
    {
        self.completion_queue.push(event);
    }

    /// Check if there are pending completions
    pub fn has_completions(&self) -> (r: bool)
        ensures
            r == (self.completions().len() > 0),
    {
        !self.completion_queue.is_empty()
    }

    /// Get the next completion event: the oldest one queued, as commands complete in order
    pub fn next_completion(&mut self) -> (r: Option<Trb>)
        ensures
            old(self).completions().len() == 0 ==> r.is_none() && final(self).completions()
                == old(self).completions(),
            old(self).completions().len() > 0 ==> r == Some(old(self).completions()[0])
                && final(self).completions() == old(self).completions().drop_first(),
            final(self).ring() == old(self).ring(),
    {
        if self.completion_queue.len() == 0 {
            return None;
        }
        let first = self.completion_queue.remove(0);
        proof {
            assert(self.completion_queue@ =~= old(self).completions().drop_first());
        }
        Some(first)
    }
}

} // verus!
