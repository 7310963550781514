use vstd::prelude::*;
use super::ring::{TransferRing, enqueue_all};
use super::trb::{DataStageTrb, NormalTrb, SetupStageTrb, StatusStageTrb, Trb, cyc, setup_parameter, setup_transfer_type};
use crate::usb::error::{Result, UsbError};
use crate::usb::types::{SetupPacket, UsbDirection, descriptor_value, lemma_descriptor_value};

verus! {

/// USB Transfer Types
#[derive(Debug, Clone, Copy, PartialEq, Eq, Structural)]
pub enum UsbTransferType {
    /// Control transfer (setup/data/status)
    Control,
    /// Bulk transfer (large data)
    Bulk,
    /// Interrupt transfer (periodic)
    Interrupt,
    /// Isochronous transfer (time-critical)
    Isochronous,
}

/// USB Transfer Status
#[derive(Debug, Clone, Copy, PartialEq, Eq, Structural)]
pub enum UsbTransferStatus {
    /// Transfer is pending
    Pending,
    /// Transfer is in progress
    InProgress,
    /// Transfer completed successfully
    Completed,
    /// Transfer failed with error
    Failed,
    /// Transfer was cancelled
    Cancelled,
}

/// USB Transfer Request
#[derive(Debug, Clone)]
pub struct UsbTransferRequest {
    /// Device address
    pub device_address: u8,
    /// Endpoint number
    pub endpoint: u8,
    /// Transfer direction
    pub direction: UsbDirection,
    /// Transfer type
    pub transfer_type: UsbTransferType,
    /// Data buffer
    pub data: Vec<u8>,
    /// Setup packet for control transfers
    pub setup_packet: Option<SetupPacket>,
    /// Transfer ID for tracking
    pub transfer_id: u32,
}

/// USB Transfer Result
#[derive(Debug)]
pub struct UsbTransferResult {
    /// Transfer ID
    pub transfer_id: u32,
    /// Transfer status
    pub status: UsbTransferStatus,
    /// Transferred data (for IN transfers)
    pub data: Vec<u8>,
    /// Actual transfer length
    pub actual_length: usize,
    /// Error code if failed
    pub error: Option<UsbError>,
}

/// Pending Transfer
struct PendingTransfer {
    /// Transfer request
    request: UsbTransferRequest,
    /// Transfer status
    status: UsbTransferStatus,
    /// Submitted TRBs
    submitted_trbs: Vec<Trb>,
    /// Result data
    result_data: Vec<u8>,
    /// Actual transfer length
    actual_length: usize,
}

/// What the manager records of one transfer.
pub struct TransferRecord {
    pub id: u32,
    pub device_address: u8,
    pub endpoint: u8,
    pub direction: UsbDirection,
    pub transfer_type: UsbTransferType,
    pub request_data: Seq<u8>,
    pub setup_packet: Option<SetupPacket>,
    pub status: UsbTransferStatus,
    pub trbs: Seq<Trb>,
    pub result_data: Seq<u8>,
    pub actual_length: usize,
}

impl PendingTransfer {
    spec fn record(&self) -> TransferRecord {
        TransferRecord {
            id: self.request.transfer_id,
            device_address: self.request.device_address,
            endpoint: self.request.endpoint,
            direction: self.request.direction,
            transfer_type: self.request.transfer_type,
            request_data: self.request.data@,
            setup_packet: self.request.setup_packet,
            status: self.status,
            trbs: self.submitted_trbs@,
            result_data: self.result_data@,
            actual_length: self.actual_length,
        }
    }
}

/// A status that `get_completed_transfers` hands out.
pub open spec fn is_finished(s: UsbTransferStatus) -> bool {
    s == UsbTransferStatus::Completed || s == UsbTransferStatus::Failed
        || s == UsbTransferStatus::Cancelled
}

/// The error that a finished transfer reports.
pub open spec fn finished_error(s: UsbTransferStatus) -> Option<UsbError> {
    match s {
        UsbTransferStatus::Failed => Some(UsbError::TransferFailed),
        UsbTransferStatus::Cancelled => Some(UsbError::TransferCancelled),
        _ => None,
    }
}

/// The index of the first record with transfer id `id`, if any.
pub open spec fn find_record(s: Seq<TransferRecord>, id: u32) -> Option<int> {
    if exists|i: int| 0 <= i < s.len() && s[i].id == id {
        Some(choose|i: int| 0 <= i < s.len() && s[i].id == id)
    } else {
        None
    }
}

/// Transfer ids in the list strictly increase and stay below `next`.
pub open spec fn ids_ordered(s: Seq<TransferRecord>, next: u32) -> bool {
    &&& forall|i: int, j: int| 0 <= i < j < s.len() ==> #[trigger] s[i].id < #[trigger] s[j].id
    &&& forall|i: int| 0 <= i < s.len() ==> #[trigger] s[i].id < next
}

/// The TRBs of a control transfer: setup, then data when there is data, then status.
pub open spec fn control_trbs(setup: SetupPacket, data_len: nat, data_address: u64, direction: UsbDirection) -> Seq<Trb> {
    let setup_trb = Trb {
        parameter: setup_parameter(setup),
        status: (data_len as u32) & 0x1ffff,
        control: 0x840u32 | cyc(true) | (setup_transfer_type(setup) << 16u32),
    };
    let status_dir = if data_len == 0 {
        UsbDirection::In
    } else if direction == UsbDirection::In {
        UsbDirection::Out
    } else {
        UsbDirection::In
    };
    let status_trb = Trb {
        parameter: 0,
        status: 0,
        control: 0x1020u32 | cyc(true) | (if status_dir == UsbDirection::In {
            0x10000u32
        } else {
            0u32
        }),
    };
    if data_len == 0 {
        seq![setup_trb, status_trb]
    } else {
        let data_trb = Trb {
            parameter: data_address,
            status: (data_len as u32) & 0x1ffff,
            control: 0xc00u32 | cyc(true) | (if direction == UsbDirection::In {
                0x10000u32
            } else {
                0u32
            }),
        };
        seq![setup_trb, data_trb, status_trb]
    }
}

/// A normal TRB over `len` bytes at `address`.
pub open spec fn normal_trb(address: u64, len: nat, ioc: bool) -> Trb {
    Trb {
        parameter: address,
        status: (len as u32) & 0x1ffff,
        control: 0x400u32 | cyc(true) | (if ioc {
            0x20u32
        } else {
            0u32
        }),
    }
}

/// The TRBs of a bulk transfer of `len` bytes: chunks of at most `max` bytes, interrupting
/// on the last.
pub open spec fn bulk_trbs(address: int, len: nat, max: nat) -> Seq<Trb>
    decreases len,
{
    if len == 0 || max == 0 {
        Seq::empty()
    } else {
        let chunk = if len < max { len } else { max };
        seq![normal_trb(address as u64, chunk, chunk == len)] + bulk_trbs(address + chunk, (len - chunk) as nat, max)
    }
}

/// The TRBs of an interrupt or isochronous transfer: one normal TRB when there is data.
pub open spec fn single_trb(address: u64, len: nat) -> Seq<Trb> {
    if len == 0 {
        Seq::empty()
    } else {
        seq![normal_trb(address, len, true)]
    }
}

/// USB Transfer Manager
pub struct UsbTransferManager {
    /// Pending transfers by transfer ID
    pending_transfers: Vec<PendingTransfer>,
    /// Next transfer ID
    next_transfer_id: u32,
    /// Maximum transfer size
    max_transfer_size: usize,
}

/// USB Transfer Statistics
#[derive(Debug, Default, Clone, Copy)]
pub struct UsbTransferStats {
    pub control_transfers: usize,
    pub bulk_transfers: usize,
    pub interrupt_transfers: usize,
    pub isochronous_transfers: usize,
    pub pending_transfers: usize,
    pub in_progress_transfers: usize,
    pub completed_transfers: usize,
    pub failed_transfers: usize,
    pub cancelled_transfers: usize,
}

/// The number of records that satisfy `p`.
pub open spec fn count_where(s: Seq<TransferRecord>, p: spec_fn(TransferRecord) -> bool) -> nat
    decreases s.len(),
{
    if s.len() == 0 {
        0
    } else {
        count_where(s.drop_last(), p) + if p(s.last()) { 1nat } else { 0nat }
    }
}

impl UsbTransferManager {
    /// The transfers the manager tracks, in submission order.
    pub closed spec fn records(&self) -> Seq<TransferRecord> {
        Seq::new(self.pending_transfers@.len(), |i: int| self.pending_transfers@[i].record())
    }

    /// The id the next submitted transfer gets.
    pub closed spec fn next_id(&self) -> u32 {
        self.next_transfer_id
    }

    /// The largest number of bytes one bulk TRB carries.
    pub closed spec fn max_size(&self) -> nat {
        self.max_transfer_size as nat
    }

    /// The manager's invariant: ids increase in submission order and stay below the next id.
    pub open spec fn wf(&self) -> bool {
        &&& ids_ordered(self.records(), self.next_id())
        &&& self.max_size() == 65536
    }

    /// Create a new transfer manager
    pub fn new() -> (r: Self)
        ensures
            r.wf(),
            r.records().len() == 0,
            r.next_id() == 1,
            r.max_size() == 65536,
    {
        Self {
            pending_transfers: Vec::new(),
            next_transfer_id: 1,
            max_transfer_size: 65536,  // 64KB max transfer
        }
    }

    /// Allocate a new transfer ID
    fn allocate_transfer_id(&mut self) -> (id: u32)
        requires
            old(self).next_transfer_id < u32::MAX,
        ensures
            id == old(self).next_transfer_id,
            final(self).next_transfer_id == old(self).next_transfer_id + 1,
            final(self).pending_transfers == old(self).pending_transfers,
            final(self).max_transfer_size == old(self).max_transfer_size,
    {
        let id = self.next_transfer_id;
        self.next_transfer_id = self.next_transfer_id + 1;
        id
    }

    /// Record a submitted transfer and keep the ids ordered.
    fn record_pending(&mut self, request: UsbTransferRequest, trbs: Vec<Trb>)
        requires
            old(self).wf(),
            request.transfer_id + 1 == old(self).next_transfer_id,
            forall|i: int| 0 <= i < old(self).records().len() ==> #[trigger] old(self).records()[i].id < request.transfer_id,
        ensures
            final(self).wf(),
            final(self).next_id() == old(self).next_id(),
            final(self).max_size() == old(self).max_size(),
            final(self).records() == old(self).records().push(
                TransferRecord {
                    id: request.transfer_id,
                    device_address: request.device_address,
                    endpoint: request.endpoint,
                    direction: request.direction,
                    transfer_type: request.transfer_type,
                    request_data: request.data@,
                    setup_packet: request.setup_packet,
                    status: UsbTransferStatus::InProgress,
                    trbs: trbs@,
                    result_data: Seq::empty(),
                    actual_length: 0,
                },
            ),
    {
        let pending = PendingTransfer {
            request,
            status: UsbTransferStatus::InProgress,
            submitted_trbs: trbs,
            result_data: Vec::new(),
            actual_length: 0,
        };
        self.pending_transfers.push(pending);
        proof {
            assert(self.records() =~= old(self).records().push(pending.record()));
        }
    }
}


impl UsbTransferManager {
    /// Build control transfer TRBs
    fn build_control_transfer_trbs(&self, request: &UsbTransferRequest, data_address: u64) -> (r: Result<Vec<Trb>>)
        ensures
            request.setup_packet.is_none() <==> r is Err,
            r is Err ==> r == Err::<Vec<Trb>, UsbError>(UsbError::InvalidRequest),
            r matches Ok(v) ==> v@ == control_trbs(
                request.setup_packet.unwrap(),
                request.data@.len(),
                data_address,
                request.direction,
            ),
    {
        let mut trbs: Vec<Trb> = Vec::new();

        let setup_packet = match &request.setup_packet {
            Some(p) => p,
            None => {
                return Err(UsbError::InvalidRequest);
            },
        };

        // Setup Stage TRB
        let setup_trb = SetupStageTrb::new(setup_packet, request.data.len() as u32, true);
        trbs.push(setup_trb);

        // Data Stage TRB (if there's data)
        if request.data.len() != 0 {
            let data_trb = DataStageTrb::new(
                data_address,
                request.data.len() as u32,
                request.direction,
                true,
            );
            trbs.push(data_trb);
        }

        // Status Stage TRB: the opposite direction of the data stage, IN when there is none
        let status_direction = if request.data.len() == 0 {
            UsbDirection::In
        } else {
            match request.direction {
                UsbDirection::In => UsbDirection::Out,
                UsbDirection::Out => UsbDirection::In,
            }
        };

        let status_trb = StatusStageTrb::new(status_direction, true);
        trbs.push(status_trb);
        proof {
            assert(trbs@ =~= control_trbs(
                request.setup_packet.unwrap(),
                request.data@.len(),
                data_address,
                request.direction,
            ));
        }

        Ok(trbs)
    }

    /// Build bulk transfer TRBs: split the data into chunks of at most the maximum
    /// transfer size
    fn build_bulk_transfer_trbs(&self, request: &UsbTransferRequest, data_address: u64) -> (r: Result<Vec<Trb>>)
        requires
            self.wf(),
            data_address + request.data@.len() <= u64::MAX,
        ensures
            r matches Ok(v) && v@ == bulk_trbs(data_address as int, request.data@.len(), self.max_size()),
    {
        let mut trbs: Vec<Trb> = Vec::new();

        if request.data.len() == 0 {
            return Ok(trbs);
        }

        // Split large transfers into multiple TRBs
        let mut remaining_data = request.data.len();
        let mut data_offset: usize = 0;
        let max = self.max_transfer_size;

        while remaining_data > 0
            invariant
                max == self.max_size(),
                max > 0,
                data_offset + remaining_data == request.data@.len(),
                request.data@.len() <= usize::MAX,
                data_address + request.data@.len() <= u64::MAX,
                trbs@ + bulk_trbs(data_address + data_offset, remaining_data as nat, max as nat)
                    == bulk_trbs(data_address as int, request.data@.len(), max as nat),
            decreases remaining_data,
        {
            let chunk_size = if remaining_data < max { remaining_data } else { max };
            let data_buffer_addr = data_address + data_offset as u64;

            let normal_trb = NormalTrb::new(
                data_buffer_addr,
                chunk_size as u32,
                true,  // cycle bit will be set later
                remaining_data == chunk_size,  // Interrupt on completion for last TRB
            );
            let ghost before = trbs@;
            trbs.push(normal_trb);
            proof {
                let rest = bulk_trbs(data_address + data_offset, remaining_data as nat, max as nat);
                assert(rest == seq![normal_trb] + bulk_trbs(data_address + data_offset + chunk_size, (remaining_data - chunk_size) as nat, max as nat));
                assert(before + rest =~= trbs@ + bulk_trbs(data_address + data_offset + chunk_size, (remaining_data - chunk_size) as nat, max as nat));
            }

            remaining_data = remaining_data - chunk_size;
            data_offset = data_offset + chunk_size;
        }
        proof {
            assert(trbs@ + Seq::<Trb>::empty() =~= trbs@);
        }

        Ok(trbs)
    }

    /// Build interrupt transfer TRBs: one normal TRB that always interrupts on completion
    fn build_interrupt_transfer_trbs(&self, request: &UsbTransferRequest, data_address: u64, _interval: u16) -> (r: Result<Vec<Trb>>)
        ensures
            r matches Ok(v) && v@ == single_trb(data_address, request.data@.len()),
    {
        let mut trbs: Vec<Trb> = Vec::new();

        if request.data.len() != 0 {
            let normal_trb = NormalTrb::new(data_address, request.data.len() as u32, true, true);
            trbs.push(normal_trb);
        }
        proof {
            assert(trbs@ =~= single_trb(data_address, request.data@.len()));
        }

        Ok(trbs)
    }

    /// Build isochronous transfer TRBs: a normal TRB stands in for the isochronous TRB
    fn build_isochronous_transfer_trbs(&self, request: &UsbTransferRequest, data_address: u64, _frame_number: u16) -> (r: Result<Vec<Trb>>)
        ensures
            r matches Ok(v) && v@ == single_trb(data_address, request.data@.len()),
    {
        let mut trbs: Vec<Trb> = Vec::new();

        if request.data.len() != 0 {
            let isoch_trb = NormalTrb::new(data_address, request.data.len() as u32, true, true);
            trbs.push(isoch_trb);
        }
        proof {
            assert(trbs@ =~= single_trb(data_address, request.data@.len()));
        }

        Ok(trbs)
    }
}

impl UsbTransferManager {
    /// Submit a control transfer; its data lies at `data_address`
    pub fn submit_control_transfer(
        &mut self,
        device_address: u8,
        endpoint: u8,
        setup_packet: SetupPacket,
        data: Vec<u8>,
        data_address: u64,
        direction: UsbDirection,
        ring: &mut TransferRing,
    ) -> (r: Result<u32>)
        requires
            old(self).wf(),
            old(self).next_id() < u32::MAX,
            old(ring).wf(),
        ensures
            r == Ok::<u32, UsbError>(old(self).next_id()),
            final(self).wf(),
            final(self).next_id() == old(self).next_id() + 1,
            final(self).max_size() == old(self).max_size(),
            final(self).records() == old(self).records().push(
                TransferRecord {
                    id: old(self).next_id(),
                    device_address,
                    endpoint,
                    direction,
                    transfer_type: UsbTransferType::Control,
                    request_data: data@,
                    setup_packet: Some(setup_packet),
                    status: UsbTransferStatus::InProgress,
                    trbs: control_trbs(setup_packet, data@.len(), data_address, direction),
                    result_data: Seq::empty(),
                    actual_length: 0,
                },
            ),
            final(ring).wf(),
            final(ring).usable() == old(ring).usable(),
            final(ring).bases() == old(ring).bases(),
            final(ring).model() == enqueue_all(old(ring).model(), control_trbs(setup_packet, data@.len(), data_address, direction), old(ring).usable() as int),
    {
        let transfer_id = self.allocate_transfer_id();

        let request = UsbTransferRequest {
            device_address,
            endpoint,
            direction,
            transfer_type: UsbTransferType::Control,
            data,
            setup_packet: Some(setup_packet),
            transfer_id,
        };

        let trbs = match self.build_control_transfer_trbs(&request, data_address) {
            Ok(t) => t,
            Err(e) => {
                return Err(e);
            },
        };

        // Submit TRBs to ring
        let _ = ring.enqueue_trbs(trbs.as_slice());

        // Add to pending transfers
        self.record_pending(request, trbs);

        Ok(transfer_id)
    }

    /// Submit a bulk transfer; its data lies at `data_address`
    pub fn submit_bulk_transfer(
        &mut self,
        device_address: u8,
        endpoint: u8,
        data: Vec<u8>,
        data_address: u64,
        direction: UsbDirection,
        ring: &mut TransferRing,
    ) -> (r: Result<u32>)
        requires
            old(self).wf(),
            old(self).next_id() < u32::MAX,
            old(ring).wf(),
            data_address + data@.len() <= u64::MAX,
        ensures
            r == Ok::<u32, UsbError>(old(self).next_id()),
            final(self).wf(),
            final(self).next_id() == old(self).next_id() + 1,
            final(self).max_size() == old(self).max_size(),
            final(self).records() == old(self).records().push(
                TransferRecord {
                    id: old(self).next_id(),
                    device_address,
                    endpoint,
                    direction,
                    transfer_type: UsbTransferType::Bulk,
                    request_data: data@,
                    setup_packet: None,
                    status: UsbTransferStatus::InProgress,
                    trbs: bulk_trbs(data_address as int, data@.len(), old(self).max_size()),
                    result_data: Seq::empty(),
                    actual_length: 0,
                },
            ),
            final(ring).wf(),
            final(ring).usable() == old(ring).usable(),
            final(ring).bases() == old(ring).bases(),
            final(ring).model() == enqueue_all(old(ring).model(), bulk_trbs(data_address as int, data@.len(), old(self).max_size()), old(ring).usable() as int),
    {
        let transfer_id = self.allocate_transfer_id();

        let request = UsbTransferRequest {
            device_address,
            endpoint,
            direction,
            transfer_type: UsbTransferType::Bulk,
            data,
            setup_packet: None,
            transfer_id,
        };

        let trbs = match self.build_bulk_transfer_trbs(&request, data_address) {
            Ok(t) => t,
            Err(e) => {
                return Err(e);
            },
        };

        // Submit TRBs to ring
        let _ = ring.enqueue_trbs(trbs.as_slice());

        // Add to pending transfers
        self.record_pending(request, trbs);

        Ok(transfer_id)
    }

    /// Submit a interrupt transfer; its data lies at `data_address`
    pub fn submit_interrupt_transfer(
        &mut self,
        device_address: u8,
        endpoint: u8,
        data: Vec<u8>,
        data_address: u64,
        direction: UsbDirection,
        interval: u16,
        ring: &mut TransferRing,
    ) -> (r: Result<u32>)
        requires
            old(self).wf(),
            old(self).next_id() < u32::MAX,
            old(ring).wf(),
        ensures
            r == Ok::<u32, UsbError>(old(self).next_id()),
            final(self).wf(),
            final(self).next_id() == old(self).next_id() + 1,
            final(self).max_size() == old(self).max_size(),
            final(self).records() == old(self).records().push(
                TransferRecord {
                    id: old(self).next_id(),
                    device_address,
                    endpoint,
                    direction,
                    transfer_type: UsbTransferType::Interrupt,
                    request_data: data@,
                    setup_packet: None,
                    status: UsbTransferStatus::InProgress,
                    trbs: single_trb(data_address, data@.len()),
                    result_data: Seq::empty(),
                    actual_length: 0,
                },
            ),
            final(ring).wf(),
            final(ring).usable() == old(ring).usable(),
            final(ring).bases() == old(ring).bases(),
            final(ring).model() == enqueue_all(old(ring).model(), single_trb(data_address, data@.len()), old(ring).usable() as int),
    {
        let transfer_id = self.allocate_transfer_id();

        let request = UsbTransferRequest {
            device_address,
            endpoint,
            direction,
            transfer_type: UsbTransferType::Interrupt,
            data,
            setup_packet: None,
            transfer_id,
        };

        let trbs = match self.build_interrupt_transfer_trbs(&request, data_address, interval) {
            Ok(t) => t,
            Err(e) => {
                return Err(e);
            },
        };

        // Submit TRBs to ring
        let _ = ring.enqueue_trbs(trbs.as_slice());

        // Add to pending transfers
        self.record_pending(request, trbs);

        Ok(transfer_id)
    }

    /// Submit a isochronous transfer; its data lies at `data_address`
    pub fn submit_isochronous_transfer(
        &mut self,
        device_address: u8,
        endpoint: u8,
        data: Vec<u8>,
        data_address: u64,
        direction: UsbDirection,
        frame_number: u16,
        ring: &mut TransferRing,
    ) -> (r: Result<u32>)
        requires
            old(self).wf(),
            old(self).next_id() < u32::MAX,
            old(ring).wf(),
        ensures
            r == Ok::<u32, UsbError>(old(self).next_id()),
            final(self).wf(),
            final(self).next_id() == old(self).next_id() + 1,
            final(self).max_size() == old(self).max_size(),
            final(self).records() == old(self).records().push(
                TransferRecord {
                    id: old(self).next_id(),
                    device_address,
                    endpoint,
                    direction,
                    transfer_type: UsbTransferType::Isochronous,
                    request_data: data@,
                    setup_packet: None,
                    status: UsbTransferStatus::InProgress,
                    trbs: single_trb(data_address, data@.len()),
                    result_data: Seq::empty(),
                    actual_length: 0,
                },
            ),
            final(ring).wf(),
            final(ring).usable() == old(ring).usable(),
            final(ring).bases() == old(ring).bases(),
            final(ring).model() == enqueue_all(old(ring).model(), single_trb(data_address, data@.len()), old(ring).usable() as int),
    {
        let transfer_id = self.allocate_transfer_id();

        let request = UsbTransferRequest {
            device_address,
            endpoint,
            direction,
            transfer_type: UsbTransferType::Isochronous,
            data,
            setup_packet: None,
            transfer_id,
        };

        let trbs = match self.build_isochronous_transfer_trbs(&request, data_address, frame_number) {
            Ok(t) => t,
            Err(e) => {
                return Err(e);
            },
        };

        // Submit TRBs to ring
        let _ = ring.enqueue_trbs(trbs.as_slice());

        // Add to pending transfers
        self.record_pending(request, trbs);

        Ok(transfer_id)
    }
}

/// The finished records of `s`, in order.
pub open spec fn finished_part(s: Seq<TransferRecord>) -> Seq<TransferRecord>
    decreases s.len(),
{
    if s.len() == 0 {
        s
    } else if is_finished(s.last().status) {
        finished_part(s.drop_last()).push(s.last())
    } else {
        finished_part(s.drop_last())
    }
}

/// The records of `s` that are not finished, in order.
pub open spec fn unfinished_part(s: Seq<TransferRecord>) -> Seq<TransferRecord>
    decreases s.len(),
{
    if s.len() == 0 {
        s
    } else if is_finished(s.last().status) {
        unfinished_part(s.drop_last())
    } else {
        unfinished_part(s.drop_last()).push(s.last())
    }
}

/// A result reports the record it was made from.
pub open spec fn reports(r: UsbTransferResult, t: TransferRecord) -> bool {
    &&& r.transfer_id == t.id
    &&& r.status == t.status
    &&& r.data@ == t.result_data
    &&& r.actual_length == t.actual_length
    &&& r.error == finished_error(t.status)
}

/// The unfinished records of a list keep their relative order.
pub proof fn lemma_unfinished_subsequence(s: Seq<TransferRecord>)
    ensures
        unfinished_part(s).len() <= s.len(),
        forall|i: int| 0 <= i < unfinished_part(s).len() ==> exists|j: int| 0 <= j < s.len() && #[trigger] unfinished_part(s)[i] == s[j],
    decreases s.len(),
{
    if s.len() > 0 {
        lemma_unfinished_subsequence(s.drop_last());
        let u = unfinished_part(s.drop_last());
        assert forall|i: int| 0 <= i < unfinished_part(s).len() implies exists|j: int| 0 <= j < s.len() && #[trigger] unfinished_part(s)[i] == s[j] by {
            if i < u.len() {
                let j = choose|j: int| 0 <= j < s.drop_last().len() && u[i] == s.drop_last()[j];
                assert(s[j] == s.drop_last()[j]);
            } else {
                assert(unfinished_part(s)[i] == s[s.len() - 1]);
            }
        }
    }
}

/// Dropping the finished records keeps the ids ordered.
pub proof fn lemma_unfinished_ordered(s: Seq<TransferRecord>, next: u32)
    requires
        ids_ordered(s, next),
    ensures
        ids_ordered(unfinished_part(s), next),
    decreases s.len(),
{
    if s.len() > 0 {
        let d = s.drop_last();
        assert(ids_ordered(d, next));
        lemma_unfinished_ordered(d, next);
        lemma_unfinished_subsequence(d);
        let u = unfinished_part(d);
        if !is_finished(s.last().status) {
            let w = u.push(s.last());
            assert forall|a: int| 0 <= a < u.len() implies #[trigger] u[a].id < s.last().id by {
                let j = choose|j: int| 0 <= j < d.len() && u[a] == d[j];
                assert(s[j].id < s[s.len() - 1].id);
            }
            assert forall|a: int, b: int| 0 <= a < b < w.len() implies #[trigger] w[a].id < #[trigger] w[b].id by {
                if b == w.len() - 1 {
                    assert(w[a] == u[a]);
                } else {
                    assert(w[a] == u[a] && w[b] == u[b]);
                }
            }
            assert forall|a: int| 0 <= a < w.len() implies #[trigger] w[a].id < next by {
                if a < u.len() {
                    assert(w[a] == u[a]);
                }
            }
        }
    }
}

impl UsbTransferManager {
    /// Complete a transfer: record its result status, data and length
    pub fn complete_transfer(&mut self, transfer_id: u32, result: UsbTransferResult) -> (r: Result<()>)
        requires
            old(self).wf(),
        ensures
            final(self).wf(),
            final(self).next_id() == old(self).next_id(),
            final(self).max_size() == old(self).max_size(),
            match find_record(old(self).records(), transfer_id) {
                None => r == Err::<(), UsbError>(UsbError::InvalidRequest) && final(self).records()
                    == old(self).records(),
                Some(i) => r == Ok::<(), UsbError>(()) && final(self).records() == old(self).records().update(
                    i,
                    TransferRecord {
                        status: result.status,
                        result_data: result.data@,
                        actual_length: result.actual_length,
                        ..old(self).records()[i]
                    },
                ),
            },
            forall|id: u32| #[trigger] find_record(final(self).records(), id) == find_record(old(self).records(), id),
            r is Ok ==> final(self).records()[find_record(final(self).records(), transfer_id)->0].status == result.status,
    {
        match self.find_index(transfer_id) {
            Some(i) => {
                let ghost before = self.records();
                self.pending_transfers[i].status = result.status;
                self.pending_transfers[i].result_data = result.data;
                self.pending_transfers[i].actual_length = result.actual_length;
                proof {
                    assert(self.records() =~= before.update(
                        i as int,
                        TransferRecord {
                            status: result.status,
                            result_data: result.data@,
                            actual_length: result.actual_length,
                            ..before[i as int]
                        },
                    ));
                    lemma_same_ids_same_lookup(before, self.records(), self.next_transfer_id);
                }
                Ok(())
            },
            None => Err(UsbError::InvalidRequest),
        }
    }

    /// Cancel a transfer
    pub fn cancel_transfer(&mut self, transfer_id: u32) -> (r: Result<()>)
        requires
            old(self).wf(),
        ensures
            final(self).wf(),
            final(self).next_id() == old(self).next_id(),
            final(self).max_size() == old(self).max_size(),
            match find_record(old(self).records(), transfer_id) {
                None => r == Err::<(), UsbError>(UsbError::InvalidRequest) && final(self).records()
                    == old(self).records(),
                Some(i) => r == Ok::<(), UsbError>(()) && final(self).records() == old(self).records().update(
                    i,
                    TransferRecord { status: UsbTransferStatus::Cancelled, ..old(self).records()[i] },
                ),
            },
    {
        match self.find_index(transfer_id) {
            Some(i) => {
                let ghost before = self.records();
                self.pending_transfers[i].status = UsbTransferStatus::Cancelled;
                proof {
                    assert(self.records() =~= before.update(
                        i as int,
                        TransferRecord { status: UsbTransferStatus::Cancelled, ..before[i as int] },
                    ));
                }
                Ok(())
            },
            None => Err(UsbError::InvalidRequest),
        }
    }

    /// Get transfer status
    pub fn get_transfer_status(&self, transfer_id: u32) -> (r: Option<UsbTransferStatus>)
        requires
            self.wf(),
        ensures
            match find_record(self.records(), transfer_id) {
                None => r.is_none(),
                Some(i) => r == Some(self.records()[i].status),
            },
    {
        match self.find_index(transfer_id) {
            Some(i) => Some(self.pending_transfers[i].status),
            None => None,
        }
    }

    /// The position of the transfer with id `transfer_id`.
    fn find_index(&self, transfer_id: u32) -> (r: Option<usize>)
        requires
            self.wf(),
        ensures
            match find_record(self.records(), transfer_id) {
                None => r.is_none(),
                Some(i) => r matches Some(k) && k as int == i,
            },
    {
        let ghost recs = self.records();
        let mut i: usize = 0;
        while i < self.pending_transfers.len()
            invariant
                i <= self.pending_transfers@.len(),
                recs == self.records(),
                self.wf(),
                forall|j: int| 0 <= j < i ==> #[trigger] recs[j].id != transfer_id,
            decreases self.pending_transfers@.len() - i,
        {
            if self.pending_transfers[i].request.transfer_id == transfer_id {
                proof {
                    assert(recs[i as int].id == transfer_id);
                    let c = choose|j: int| 0 <= j < recs.len() && recs[j].id == transfer_id;
                    if c != i {
                        if c < i {
                            assert(recs[c].id != transfer_id);
                        } else {
                            assert(recs[i as int].id < recs[c].id);
                        }
                    }
                }
                return Some(i);
            }
            i = i + 1;
        }
        None
    }

    /// Get completed transfers: hand out every finished transfer, in order, and keep the
    /// others
    pub fn get_completed_transfers(&mut self) -> (r: Vec<UsbTransferResult>)
        requires
            old(self).wf(),
        ensures
            final(self).wf(),
            final(self).next_id() == old(self).next_id(),
            final(self).max_size() == old(self).max_size(),
            final(self).records() == unfinished_part(old(self).records()),
            r@.len() == finished_part(old(self).records()).len(),
            forall|i: int| 0 <= i < r@.len() ==> reports(#[trigger] r@[i], finished_part(old(self).records())[i]),
    {
        let ghost orig = self.records();
        let mut completed: Vec<UsbTransferResult> = Vec::new();
        let mut i: usize = 0;
        let ghost mut k: int = 0;
        while i < self.pending_transfers.len()
            invariant
                0 <= k <= orig.len(),
                i <= self.pending_transfers@.len(),
                i == unfinished_part(orig.take(k)).len(),
                self.records() == unfinished_part(orig.take(k)) + orig.skip(k),
                completed@.len() == finished_part(orig.take(k)).len(),
                forall|j: int| 0 <= j < completed@.len() ==> reports(#[trigger] completed@[j], finished_part(orig.take(k))[j]),
                self.next_transfer_id == old(self).next_transfer_id,
                self.max_transfer_size == old(self).max_transfer_size,
                ids_ordered(orig, self.next_transfer_id),
            decreases orig.len() - k,
        {
            proof {
                assert(self.records()[i as int] == orig[k]);
                assert(orig.take(k + 1).drop_last() =~= orig.take(k));
                assert(orig.take(k + 1).last() == orig[k]);
            }
            let status = self.pending_transfers[i].status;
            match status {
                UsbTransferStatus::Completed | UsbTransferStatus::Failed | UsbTransferStatus::Cancelled => {
                    let ghost before = self.records();
                    let transfer = self.pending_transfers.remove(i);
                    let result = UsbTransferResult {
                        transfer_id: transfer.request.transfer_id,
                        status: transfer.status,
                        data: transfer.result_data,
                        actual_length: transfer.actual_length,
                        error: match transfer.status {
                            UsbTransferStatus::Failed => Some(UsbError::TransferFailed),
                            UsbTransferStatus::Cancelled => Some(UsbError::TransferCancelled),
                            _ => None,
                        },
                    };
                    completed.push(result);
                    proof {
                        assert(is_finished(orig[k].status));
                        assert(unfinished_part(orig.take(k + 1)) == unfinished_part(orig.take(k)));
                        assert(self.records() =~= before.remove(i as int));
                        assert(self.records() =~= unfinished_part(orig.take(k + 1)) + orig.skip(k + 1)) by {
                            assert(before =~= unfinished_part(orig.take(k)) + orig.skip(k));
                            assert(orig.skip(k) =~= seq![orig[k]] + orig.skip(k + 1));
                        }
                        assert(finished_part(orig.take(k + 1)) == finished_part(orig.take(k)).push(orig[k]));
                        k = k + 1;
                    }
                },
                _ => {
                    proof {
                        assert(self.records() =~= unfinished_part(orig.take(k + 1)) + orig.skip(k + 1)) by {
                            assert(orig.skip(k) =~= seq![orig[k]] + orig.skip(k + 1));
                        }
                        k = k + 1;
                    }
                    i = i + 1;
                },
            }
        }
        proof {
            assert(k == orig.len());
            assert(orig.take(k) =~= orig);
            assert(orig.skip(k) =~= Seq::<TransferRecord>::empty());
            assert(self.records() =~= unfinished_part(orig));
            lemma_unfinished_ordered(orig, self.next_transfer_id);
        }
        completed
    }

    /// Get pending transfer count
    pub fn pending_count(&self) -> (r: usize)
        ensures
            r == self.records().len(),
    {
        self.pending_transfers.len()
    }
}

/// Records of each transfer type and status.
pub open spec fn of_type(t: UsbTransferType) -> spec_fn(TransferRecord) -> bool {
    |r: TransferRecord| r.transfer_type == t
}

/// Records in a given status.
pub open spec fn in_status(s: UsbTransferStatus) -> spec_fn(TransferRecord) -> bool {
    |r: TransferRecord| r.status == s
}

impl UsbTransferManager {
    /// Get statistics: how many tracked transfers there are of each type and in each status
    pub fn get_stats(&self) -> (r: UsbTransferStats)
        ensures
            r.control_transfers == count_where(self.records(), of_type(UsbTransferType::Control)),
            r.bulk_transfers == count_where(self.records(), of_type(UsbTransferType::Bulk)),
            r.interrupt_transfers == count_where(self.records(), of_type(UsbTransferType::Interrupt)),
            r.isochronous_transfers == count_where(self.records(), of_type(UsbTransferType::Isochronous)),
            r.pending_transfers == count_where(self.records(), in_status(UsbTransferStatus::Pending)),
            r.in_progress_transfers == count_where(self.records(), in_status(UsbTransferStatus::InProgress)),
            r.completed_transfers == count_where(self.records(), in_status(UsbTransferStatus::Completed)),
            r.failed_transfers == count_where(self.records(), in_status(UsbTransferStatus::Failed)),
            r.cancelled_transfers == count_where(self.records(), in_status(UsbTransferStatus::Cancelled)),
    {
        let mut stats = UsbTransferStats {
            control_transfers: 0,
            bulk_transfers: 0,
            interrupt_transfers: 0,
            isochronous_transfers: 0,
            pending_transfers: 0,
            in_progress_transfers: 0,
            completed_transfers: 0,
            failed_transfers: 0,
            cancelled_transfers: 0,
        };
        let ghost recs = self.records();
        let mut i: usize = 0;
        while i < self.pending_transfers.len()
            invariant
                i <= self.pending_transfers@.len(),
                recs == self.records(),
                stats.control_transfers == count_where(recs.take(i as int), of_type(UsbTransferType::Control)),
                stats.bulk_transfers == count_where(recs.take(i as int), of_type(UsbTransferType::Bulk)),
                stats.interrupt_transfers == count_where(recs.take(i as int), of_type(UsbTransferType::Interrupt)),
                stats.isochronous_transfers == count_where(recs.take(i as int), of_type(UsbTransferType::Isochronous)),
                stats.pending_transfers == count_where(recs.take(i as int), in_status(UsbTransferStatus::Pending)),
                stats.in_progress_transfers == count_where(recs.take(i as int), in_status(UsbTransferStatus::InProgress)),
                stats.completed_transfers == count_where(recs.take(i as int), in_status(UsbTransferStatus::Completed)),
                stats.failed_transfers == count_where(recs.take(i as int), in_status(UsbTransferStatus::Failed)),
                stats.cancelled_transfers == count_where(recs.take(i as int), in_status(UsbTransferStatus::Cancelled)),
                stats.control_transfers + stats.bulk_transfers + stats.interrupt_transfers + stats.isochronous_transfers == i,
                stats.pending_transfers + stats.in_progress_transfers + stats.completed_transfers + stats.failed_transfers + stats.cancelled_transfers == i,
            decreases self.pending_transfers@.len() - i,
        {
            proof {
                assert(recs.take(i + 1).drop_last() =~= recs.take(i as int));
                assert(recs.take(i + 1).last() == recs[i as int]);
            }
            match self.pending_transfers[i].request.transfer_type {
                UsbTransferType::Control => stats.control_transfers = stats.control_transfers + 1,
                UsbTransferType::Bulk => stats.bulk_transfers = stats.bulk_transfers + 1,
                UsbTransferType::Interrupt => stats.interrupt_transfers = stats.interrupt_transfers + 1,
                UsbTransferType::Isochronous => stats.isochronous_transfers = stats.isochronous_transfers + 1,
            }

            match self.pending_transfers[i].status {
                UsbTransferStatus::Pending => stats.pending_transfers = stats.pending_transfers + 1,
                UsbTransferStatus::InProgress => stats.in_progress_transfers = stats.in_progress_transfers + 1,
                UsbTransferStatus::Completed => stats.completed_transfers = stats.completed_transfers + 1,
                UsbTransferStatus::Failed => stats.failed_transfers = stats.failed_transfers + 1,
                UsbTransferStatus::Cancelled => stats.cancelled_transfers = stats.cancelled_transfers + 1,
            }
            i = i + 1;
        }
        proof {
            assert(recs.take(recs.len() as int) =~= recs);
        }
        stats
    }
}

impl Default for UsbTransferManager {
    fn default() -> (r: Self)
        ensures
            r.wf() && r.records().len() == 0 && r.next_id() == 1,
    {
        Self::new()
    }
}

/// Control Transfer Helper
pub struct ControlTransfer;

impl ControlTransfer {
    /// Standard GET_DESCRIPTOR request, with a zeroed buffer of `length` bytes to read into
    pub fn get_descriptor(
        device_address: u8,
        descriptor_type: u8,
        descriptor_index: u8,
        language_id: u16,
        length: u16,
    ) -> (r: UsbTransferRequest)
        ensures
            r.device_address == device_address,
            r.endpoint == 0,
            r.direction == UsbDirection::In,
            r.transfer_type == UsbTransferType::Control,
            r.data@ == Seq::new(length as nat, |i: int| 0u8),
            r.transfer_id == 0,
            r.setup_packet matches Some(p) && p.request_type == 0x80 && p.request == 0x06
                && p.value == descriptor_value(descriptor_type, descriptor_index) && p.index
                == language_id && p.length == length,
    {
        proof {
            lemma_descriptor_value(descriptor_type, descriptor_index);
        }
        let setup_packet = SetupPacket {
            request_type: 0x80,  // Device to host, standard, device
            request: 0x06,  // GET_DESCRIPTOR
            value: ((descriptor_type as u16) << 8) | (descriptor_index as u16),
            index: language_id,
            length,
        };
        let data: Vec<u8> = vec![0u8; length as usize];
        proof {
            assert(data@ =~= Seq::new(length as nat, |i: int| 0u8));
        }

        UsbTransferRequest {
            device_address,
            endpoint: 0,  // Control endpoint
            direction: UsbDirection::In,
            transfer_type: UsbTransferType::Control,
            data,
            setup_packet: Some(setup_packet),
            transfer_id: 0,  // Will be set by transfer manager
        }
    }

    /// Standard SET_ADDRESS request
    pub fn set_address(device_address: u8, new_address: u8) -> (r: UsbTransferRequest)
        ensures
            r.device_address == device_address,
            r.endpoint == 0,
            r.direction == UsbDirection::Out,
            r.transfer_type == UsbTransferType::Control,
            r.data@.len() == 0,
            r.transfer_id == 0,
            r.setup_packet == Some(
                SetupPacket { request_type: 0x00, request: 0x05, value: new_address as u16, index: 0, length: 0 },
            ),
    {
        let setup_packet = SetupPacket {
            request_type: 0x00,  // Host to device, standard, device
            request: 0x05,  // SET_ADDRESS
            value: new_address as u16,
            index: 0,
            length: 0,
        };

        UsbTransferRequest {
            device_address,
            endpoint: 0,  // Control endpoint
            direction: UsbDirection::Out,
            transfer_type: UsbTransferType::Control,
            data: Vec::new(),
            setup_packet: Some(setup_packet),
            transfer_id: 0,  // Will be set by transfer manager
        }
    }

    /// Standard SET_CONFIGURATION request
    pub fn set_configuration(device_address: u8, configuration_value: u8) -> (r: UsbTransferRequest)
        ensures
            r.device_address == device_address,
            r.endpoint == 0,
            r.direction == UsbDirection::Out,
            r.transfer_type == UsbTransferType::Control,
            r.data@.len() == 0,
            r.transfer_id == 0,
            r.setup_packet == Some(
                SetupPacket {
                    request_type: 0x00,
                    request: 0x09,
                    value: configuration_value as u16,
                    index: 0,
                    length: 0,
                },
            ),
    {
        let setup_packet = SetupPacket {
            request_type: 0x00,  // Host to device, standard, device
            request: 0x09,  // SET_CONFIGURATION
            value: configuration_value as u16,
            index: 0,
            length: 0,
        };

        UsbTransferRequest {
            device_address,
            endpoint: 0,  // Control endpoint
            direction: UsbDirection::Out,
            transfer_type: UsbTransferType::Control,
            data: Vec::new(),
            setup_packet: Some(setup_packet),
            transfer_id: 0,  // Will be set by transfer manager
        }
    }
}

impl UsbTransferManager {
    /// A submission's id is larger than every id the manager tracks, so no tracked transfer has
    /// it; recorded after them, the new transfer is the one found by that id, and the ids stay
    /// ordered below the next id.
    pub proof fn lemma_new_id_unused(&self, rec: TransferRecord)
        requires
            self.wf(),
            rec.id == self.next_id(),
            self.next_id() < u32::MAX,
        ensures
            forall|i: int| 0 <= i < self.records().len() ==> #[trigger] self.records()[i].id < rec.id,
            find_record(self.records().push(rec), rec.id) == Some(self.records().len() as int),
            ids_ordered(self.records().push(rec), (self.next_id() + 1) as u32),
    {
        let s = self.records();
        let t = s.push(rec);
        assert(t[s.len() as int].id == rec.id);
        let c = choose|i: int| 0 <= i < t.len() && t[i].id == rec.id;
        if c < s.len() {
            assert(t[c] == s[c]);
        }
        assert forall|a: int, b: int| 0 <= a < b < t.len() implies #[trigger] t[a].id < #[trigger] t[b].id by {
            assert(t[a] == s[a]);
            if b < s.len() {
                assert(t[b] == s[b]);
            }
        }
        assert forall|a: int| 0 <= a < t.len() implies #[trigger] t[a].id < (self.next_id() + 1) as u32 by {
            if a < s.len() {
                assert(t[a] == s[a]);
            }
        }
    }
}

/// With ids in order, a record is the one a lookup by its id finds.
pub proof fn lemma_find_unique(s: Seq<TransferRecord>, next: u32, i: int)
    requires
        ids_ordered(s, next),
        0 <= i < s.len(),
    ensures
        find_record(s, s[i].id) == Some(i),
{
    let c = choose|j: int| 0 <= j < s.len() && s[j].id == s[i].id;
    if c < i {
        assert(s[c].id < s[i].id);
    } else if c > i {
        assert(s[i].id < s[c].id);
    }
}

/// Two ordered lists with the same id at every position find every id at the same place.
pub proof fn lemma_same_ids_same_lookup(s: Seq<TransferRecord>, t: Seq<TransferRecord>, next: u32)
    requires
        ids_ordered(s, next),
        s.len() == t.len(),
        forall|i: int| 0 <= i < s.len() ==> #[trigger] t[i].id == s[i].id,
    ensures
        forall|id: u32| #[trigger] find_record(t, id) == find_record(s, id),
{
    assert(ids_ordered(t, next)) by {
        assert forall|a: int, b: int| 0 <= a < b < t.len() implies #[trigger] t[a].id < #[trigger] t[b].id by {
            assert(s[a].id < s[b].id);
        }
        assert forall|a: int| 0 <= a < t.len() implies #[trigger] t[a].id < next by {
            assert(s[a].id < next);
        }
    }
    assert forall|id: u32| #[trigger] find_record(t, id) == find_record(s, id) by {
        if exists|i: int| 0 <= i < s.len() && s[i].id == id {
            let i = choose|i: int| 0 <= i < s.len() && s[i].id == id;
            lemma_find_unique(s, next, i);
            lemma_find_unique(t, next, i);
        } else {
            assert forall|i: int| 0 <= i < t.len() implies t[i].id != id by {
                assert(t[i].id == s[i].id);
            }
        }
    }
}

/// Collecting the finished transfers leaves none finished: a second collection right after
/// hands out nothing and keeps every record.
pub proof fn lemma_collect_twice(s: Seq<TransferRecord>)
    ensures
        finished_part(unfinished_part(s)).len() == 0,
        unfinished_part(unfinished_part(s)) == unfinished_part(s),
    decreases s.len(),
{
    if s.len() > 0 {
        lemma_collect_twice(s.drop_last());
        let u = unfinished_part(s.drop_last());
        if !is_finished(s.last().status) {
            let w = u.push(s.last());
            assert(w.drop_last() =~= u);
            assert(w.last() == s.last());
        }
    }
}

/// Every record has one of the four transfer types and one of the five statuses, so the counts
/// by type, and the counts by status, each add up to the number of records.
pub proof fn lemma_stats_sum(s: Seq<TransferRecord>)
    ensures
        count_where(s, of_type(UsbTransferType::Control)) + count_where(s, of_type(UsbTransferType::Bulk))
            + count_where(s, of_type(UsbTransferType::Interrupt)) + count_where(s, of_type(UsbTransferType::Isochronous))
            == s.len(),
        count_where(s, in_status(UsbTransferStatus::Pending)) + count_where(s, in_status(UsbTransferStatus::InProgress))
            + count_where(s, in_status(UsbTransferStatus::Completed)) + count_where(s, in_status(UsbTransferStatus::Failed))
            + count_where(s, in_status(UsbTransferStatus::Cancelled)) == s.len(),
    decreases s.len(),
{
    if s.len() > 0 {
        lemma_stats_sum(s.drop_last());
    }
}

/// The control, TRB-type and direction bits of the three control stages.
proof fn lemma_stage_bits(dir_in: bool, t: u32)
    by (bit_vector)
    requires
        t <= 3,
    ensures
        ((0x840u32 | 1u32 | (t << 16u32)) >> 10u32) & 0x3fu32 == 2,
        ((0x840u32 | 1u32 | (t << 16u32)) >> 16u32) & 3u32 == t,
        (0x840u32 | 1u32 | (t << 16u32)) & 0x40u32 != 0,
        (0x840u32 | 1u32 | (t << 16u32)) & 1u32 == 1,
        ((0xc00u32 | 1u32 | (if dir_in { 0x10000u32 } else { 0u32 })) >> 10u32) & 0x3fu32 == 3,
        ((0xc00u32 | 1u32 | (if dir_in { 0x10000u32 } else { 0u32 })) & 0x10000u32 != 0) == dir_in,
        (0xc00u32 | 1u32 | (if dir_in { 0x10000u32 } else { 0u32 })) & 1u32 == 1,
        ((0x1020u32 | 1u32 | (if dir_in { 0x10000u32 } else { 0u32 })) >> 10u32) & 0x3fu32 == 4,
        ((0x1020u32 | 1u32 | (if dir_in { 0x10000u32 } else { 0u32 })) & 0x10000u32 != 0) == dir_in,
        (0x1020u32 | 1u32 | (if dir_in { 0x10000u32 } else { 0u32 })) & 0x20u32 != 0,
        (0x1020u32 | 1u32 | (if dir_in { 0x10000u32 } else { 0u32 })) & 1u32 == 1,
{
}

/// The TRB type that a TRB's control word names (bits 10 to 15).
pub open spec fn trb_type_of(t: Trb) -> u32 {
    (t.control >> 10u32) & 0x3fu32
}

/// A control transfer of `len` data bytes is three TRBs with data, two without: first a Setup
/// Stage TRB (type 2) carrying the setup packet and the data length, with immediate data and
/// the transfer type the packet announces; then, with data, a Data Stage TRB (type 3) over the
/// buffer with the data length and the direction bit set exactly for IN; last a Status Stage
/// TRB (type 4) that interrupts on completion, with the direction bit set exactly when there is
/// no data or the data goes OUT. Every TRB has its cycle bit set.
pub proof fn lemma_control_trbs_shape(setup: SetupPacket, len: nat, address: u64, direction: UsbDirection)
    ensures
        ({
            let ts = control_trbs(setup, len, address, direction);
            let last = ts[ts.len() - 1];
            &&& ts.len() == if len > 0 { 3int } else { 2int }
            &&& trb_type_of(ts[0]) == 2 && ts[0].parameter == setup_parameter(setup)
            &&& ts[0].status == (len as u32) & 0x1ffff && ts[0].control & 0x40u32 != 0
            &&& (ts[0].control >> 16u32) & 3u32 == setup_transfer_type(setup)
            &&& ts[0].control & 1u32 == 1
            &&& len > 0 ==> {
                &&& trb_type_of(ts[1]) == 3 && ts[1].parameter == address
                &&& ts[1].status == (len as u32) & 0x1ffff
                &&& (ts[1].control & 0x10000u32 != 0) == (direction == UsbDirection::In)
                &&& ts[1].control & 1u32 == 1
            }
            &&& trb_type_of(last) == 4 && last.control & 0x20u32 != 0 && last.control & 1u32 == 1
            &&& (last.control & 0x10000u32 != 0) == (len == 0 || direction == UsbDirection::Out)
        }),
{
    let t = setup_transfer_type(setup);
    let status_in = len == 0 || direction == UsbDirection::Out;
    lemma_stage_bits(status_in, t);
    lemma_stage_bits(direction == UsbDirection::In, t);
}

/// The length of chunk `i` of a bulk transfer of `len` bytes cut into chunks of `max`.
pub open spec fn chunk_len(len: int, max: int, i: int) -> int {
    if len - max * i < max { len - max * i } else { max }
}

/// A bulk transfer of `len` bytes in chunks of at most `max` is `len / max` rounded up normal
/// TRBs; TRB `i` covers chunk `i` (`max` bytes, the last one the rest) at `address + max * i`,
/// and only the last interrupts on completion. The chunks add up to `len`.
pub proof fn lemma_bulk_trbs_shape(address: int, len: nat, max: nat)
    requires
        max > 0,
    ensures
        ({
            let ts = bulk_trbs(address, len, max);
            let count = (len + max - 1) / (max as int);
            &&& ts.len() == count
            &&& forall|i: int| 0 <= i < count ==> #[trigger] ts[i] == normal_trb(
                (address + max * i) as u64,
                chunk_len(len as int, max as int, i) as nat,
                i == count - 1,
            )
            &&& len > 0 ==> max * (count - 1) + chunk_len(len as int, max as int, count - 1) == len
        }),
    decreases len,
{
    let ts = bulk_trbs(address, len, max);
    let count = (len + max - 1) / (max as int);
    if len == 0 {
        assert(count == 0) by (nonlinear_arith)
            requires
                count == (len + max - 1) / (max as int),
                len == 0,
                max > 0,
        ;
    } else if len <= max {
        assert(count == 1) by (nonlinear_arith)
            requires
                count == (len + max - 1) / (max as int),
                0 < len <= max,
        ;
        assert(max * 0 == 0) by (nonlinear_arith);
        assert(bulk_trbs(address + len, 0, max) == Seq::<Trb>::empty());
        assert forall|i: int| 0 <= i < count implies #[trigger] ts[i] == normal_trb(
            (address + max * i) as u64,
            chunk_len(len as int, max as int, i) as nat,
            i == count - 1,
        ) by {
            assert(i == 0);
        }
    } else {
        let rest = bulk_trbs(address + max, (len - max) as nat, max);
        lemma_bulk_trbs_shape(address + max, (len - max) as nat, max);
        let rc = ((len - max) as nat + max - 1) / (max as int);
        vstd::arithmetic::div_mod::lemma_div_plus_one((len - 1) as int, max as int);
        assert(rc == (len - 1) / (max as int));
        assert(count == rc + 1);
        assert(rc >= 1) by (nonlinear_arith)
            requires
                rc == (len - 1) / (max as int),
                len > max,
                max > 0,
        ;
        assert(ts == seq![normal_trb(address as u64, max, false)] + rest);
        assert forall|i: int| 0 <= i < count implies #[trigger] ts[i] == normal_trb(
            (address + max * i) as u64,
            chunk_len(len as int, max as int, i) as nat,
            i == count - 1,
        ) by {
            if i == 0 {
                assert(max * 0 == 0) by (nonlinear_arith);
            } else {
                assert(ts[i] == rest[i - 1]);
                assert(max * i == max + max * (i - 1)) by (nonlinear_arith);
            }
        }
        assert(max * (count - 1) == max + max * (rc - 1)) by (nonlinear_arith)
            requires
                count == rc + 1,
        ;
    }
}
} // verus!
