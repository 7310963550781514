use vstd::prelude::*;

use crate::usb::endpoint::{direction_of, EndpointDirection};
use crate::usb::error::UsbDriverError;
use crate::usb::types::{descriptor_value, lemma_descriptor_value};

pub mod transfer_flags;

verus! {

/// USB Transfer Type
#[derive(Debug, Clone, Copy, PartialEq, Eq, Structural)]
pub enum TransferType {
    Control,
    Bulk,
    Interrupt,
    Isochronous,
}

/// USB Transfer Status
#[derive(Debug, Clone, Copy, PartialEq, Eq, Structural)]
pub enum TransferStatus {
    Pending,
    Completed,
    Error,
    Cancelled,
    Stalled,
    Timeout,
    Overflow,
    Underflow,
}

/// USB Setup Packet for control transfers
#[derive(Debug, Clone, Copy, PartialEq, Eq, Structural)]
pub struct SetupPacket {
    /// Request type and direction
    pub request_type: u8,
    /// Specific request
    pub request: u8,
    /// Request-specific parameter
    pub value: u16,
    /// Request-specific parameter
    pub index: u16,
    /// Number of bytes to transfer in data stage
    pub length: u16,
}

/// The three fields of a bmRequestType byte: direction (bit 7), type (bits 5..6) and
/// recipient (bits 0..4).
pub proof fn lemma_request_type_fields(rt: u8)
    by (bit_vector)
    ensures
        (rt >> 7u8) & 1u8 == rt / 128,
        (rt >> 5u8) & 3u8 == (rt / 32) % 4,
        rt & 0x1fu8 == rt % 32,
        (rt & 0x80u8 != 0) == (rt >= 128),
{
}

impl SetupPacket {
    /// Create a new setup packet
    pub fn new(request_type: u8, request: u8, value: u16, index: u16, length: u16) -> (r: Self)
        ensures
            r == (SetupPacket { request_type, request, value, index, length }),
    {
        Self { request_type, request, value, index, length }
    }

    /// Create a GET_DESCRIPTOR request
    pub fn get_descriptor(descriptor_type: u8, descriptor_index: u8, language_id: u16, length: u16) -> (r: Self)
        ensures
            r.request_type == 0x80,
            r.request == 0x06,
            r.value == descriptor_value(descriptor_type, descriptor_index),
            r.index == language_id,
            r.length == length,
    {
        proof {
            lemma_descriptor_value(descriptor_type, descriptor_index);
        }
        Self::new(
            0x80,  // Device to host, standard, device
            0x06,  // GET_DESCRIPTOR
            ((descriptor_type as u16) << 8) | (descriptor_index as u16),
            language_id,
            length,
        )
    }

    /// Create a SET_ADDRESS request
    pub fn set_address(address: u8) -> (r: Self)
        ensures
            r == (SetupPacket { request_type: 0x00, request: 0x05, value: address as u16, index: 0, length: 0 }),
    {
        Self::new(0x00, 0x05, address as u16, 0, 0)
    }

    /// Create a SET_CONFIGURATION request
    pub fn set_configuration(config: u8) -> (r: Self)
        ensures
            r == (SetupPacket { request_type: 0x00, request: 0x09, value: config as u16, index: 0, length: 0 }),
    {
        Self::new(0x00, 0x09, config as u16, 0, 0)
    }

    /// Create a CLEAR_FEATURE request
    pub fn clear_feature(feature: u16, index: u16) -> (r: Self)
        ensures
            r == (SetupPacket { request_type: 0x02, request: 0x01, value: feature, index, length: 0 }),
    {
        Self::new(0x02, 0x01, feature, index, 0)
    }

    /// Check if this is a device-to-host transfer
    pub fn is_device_to_host(&self) -> (r: bool)
        ensures
            r == (self.request_type >= 128),
    {
        proof {
            lemma_request_type_fields(self.request_type);
        }
        (self.request_type & 0x80) != 0
    }

    /// Get request type bits: (direction, type, recipient)
    pub fn request_type_bits(&self) -> (r: (u8, u8, u8))
        ensures
            r.0 == self.request_type / 128,
            r.1 == (self.request_type / 32) % 4,
            r.2 == self.request_type % 32,
    {
        proof {
            lemma_request_type_fields(self.request_type);
        }
        let direction = (self.request_type >> 7) & 1;
        let req_type = (self.request_type >> 5) & 3;
        let recipient = self.request_type & 0x1F;
        (direction, req_type, recipient)
    }
}

/// Total length of a list of buffers.
pub open spec fn total_len(buffers: Seq<Vec<u8>>) -> int
    decreases buffers.len(),
{
    if buffers.len() == 0 {
        0
    } else {
        total_len(buffers.drop_last()) + buffers.last()@.len()
    }
}

/// USB Transfer Buffer
pub enum TransferBuffer {
    /// Buffer for single transfer
    Single(Vec<u8>),
    /// Scatter-gather list for large transfers
    ScatterGather(Vec<Vec<u8>>),
    /// External buffer (not owned by transfer): its address and length
    External(usize, usize),
}

impl TransferBuffer {
    /// Number of bytes the buffer spans.
    pub open spec fn spec_len(&self) -> int {
        match self {
            TransferBuffer::Single(buf) => buf@.len() as int,
            TransferBuffer::ScatterGather(buffers) => total_len(buffers@),
            TransferBuffer::External(_, len) => *len as int,
        }
    }

    /// Create a new single buffer
    pub fn new(size: usize) -> (r: Self)
        ensures
            r matches TransferBuffer::Single(buf) && buf@ == Seq::new(size as nat, |i: int| 0u8),
    {
        let mut v: Vec<u8> = Vec::new();
        let mut i: usize = 0;
        while i < size
            invariant
                i <= size,
                v@ == Seq::new(i as nat, |k: int| 0u8),
            decreases size - i,
        {
            v.push(0);
            i = i + 1;
            proof {
                assert(v@ =~= Seq::new(i as nat, |k: int| 0u8));
            }
        }
        TransferBuffer::Single(v)
    }

    /// Create from existing data
    pub fn from_data(data: Vec<u8>) -> (r: Self)
        ensures
            r == TransferBuffer::Single(data),
    {
        TransferBuffer::Single(data)
    }

    /// Create scatter-gather buffer
    pub fn scatter_gather(buffers: Vec<Vec<u8>>) -> (r: Self)
        ensures
            r == TransferBuffer::ScatterGather(buffers),
    {
        TransferBuffer::ScatterGather(buffers)
    }

    /// Create external buffer reference
    pub fn external(address: usize, len: usize) -> (r: Self)
        ensures
            r == TransferBuffer::External(address, len),
    {
        TransferBuffer::External(address, len)
    }

    /// Get total length of buffer
    pub fn len(&self) -> (r: usize)
        requires
            self.spec_len() <= usize::MAX,
        ensures
            r == self.spec_len(),
    {
        match self {
            TransferBuffer::Single(buf) => buf.len(),
            TransferBuffer::ScatterGather(buffers) => {
                let mut sum: usize = 0;
                let mut i: usize = 0;
                while i < buffers.len()
                    invariant
                        i <= buffers@.len(),
                        sum == total_len(buffers@.take(i as int)),
                        total_len(buffers@) <= usize::MAX,
                    decreases buffers.len() - i,
                {
                    proof {
                        assert(buffers@.take(i + 1).drop_last() =~= buffers@.take(i as int));
                        lemma_total_len_prefix(buffers@, i + 1);
                    }
                    sum = sum + buffers[i].len();
                    i = i + 1;
                }
                proof {
                    assert(buffers@.take(buffers@.len() as int) =~= buffers@);
                }
                sum
            },
            TransferBuffer::External(_, len) => *len,
        }
    }

    /// Check if buffer is empty
    pub fn is_empty(&self) -> (r: bool)
        requires
            self.spec_len() <= usize::MAX,
        ensures
            r == (self.spec_len() == 0),
    {
        self.len() == 0
    }

    /// Get mutable slice for single buffer
    pub fn as_mut_slice(&mut self) -> (r: Option<&mut [u8]>)
        ensures
            match *old(self) {
                TransferBuffer::Single(buf) => r matches Some(s) && s@ == buf@ && (
                *final(self) matches TransferBuffer::Single(b2) && b2@ == final(s)@),
                _ => r is None && *final(self) == *old(self),
            },
    {
        match self {
            TransferBuffer::Single(buf) => Some(buf.as_mut_slice()),
            _ => None,
        }
    }

    /// Get slice for single buffer
    pub fn as_slice(&self) -> (r: Option<&[u8]>)
        ensures
            match self {
                TransferBuffer::Single(buf) => r matches Some(s) && s@ == buf@,
                _ => r is None,
            },
    {
        match self {
            TransferBuffer::Single(buf) => Some(buf.as_slice()),
            _ => None,
        }
    }
}

/// A prefix of buffers is no longer than all of them.
pub proof fn lemma_total_len_prefix(buffers: Seq<Vec<u8>>, k: int)
    requires
        0 <= k <= buffers.len(),
    ensures
        0 <= total_len(buffers.take(k)) <= total_len(buffers),
    decreases buffers.len(),
{
    if k == buffers.len() {
        assert(buffers.take(k) =~= buffers);
        lemma_total_len_nonneg(buffers);
    } else {
        lemma_total_len_prefix(buffers.drop_last(), k);
        assert(buffers.drop_last().take(k) =~= buffers.take(k));
    }
}

/// Lengths are never negative.
pub proof fn lemma_total_len_nonneg(buffers: Seq<Vec<u8>>)
    ensures
        total_len(buffers) >= 0,
    decreases buffers.len(),
{
    if buffers.len() > 0 {
        lemma_total_len_nonneg(buffers.drop_last());
    }
}

/// Source of transfer IDs: each call hands out the next number, starting at 1 and wrapping.
pub struct TransferIds {
    next: u32,
}

impl TransferIds {
    /// The number the next call hands out.
    pub closed spec fn peek(&self) -> u32 {
        self.next
    }

    /// A counter whose first ID is 1.
    pub fn new() -> (r: Self)
        ensures
            r.peek() == 1,
    {
        TransferIds { next: 1 }
    }

    /// Hand out an ID.
    pub fn next_id(&mut self) -> (r: u32)
        ensures
            r == old(self).peek(),
            final(self).peek() == (if old(self).peek() == u32::MAX {
                0
            } else {
                old(self).peek() + 1
            }),
    {
        let id = self.next;
        self.next = self.next.wrapping_add(1);
        id
    }
}

/// What a transfer records, apart from its buffer.
pub struct TransferView {
    pub id: u32,
    pub device_address: u8,
    pub endpoint_address: u8,
    pub transfer_type: TransferType,
    pub setup_packet: Option<SetupPacket>,
    pub status: TransferStatus,
    pub bytes_transferred: u32,
    pub timeout_ms: u32,
    pub flags: u32,
}

/// USB Transfer
pub struct Transfer {
    /// Unique transfer ID
    id: u32,
    /// Device address
    device_address: u8,
    /// Endpoint address
    endpoint_address: u8,
    /// Transfer type
    transfer_type: TransferType,
    /// Transfer buffer
    buffer: TransferBuffer,
    /// Setup packet for control transfers
    setup_packet: Option<SetupPacket>,
    /// Transfer status
    status: TransferStatus,
    /// Bytes transferred
    bytes_transferred: u32,
    /// Transfer timeout in milliseconds
    timeout_ms: u32,
    /// Transfer flags
    flags: u32,
}

/// The result a finished transfer reports: the byte count once completed, an error for each
/// other end state, nothing while it is pending.
pub open spec fn status_outcome(status: TransferStatus, bytes: u32) -> Option<Result<usize, UsbDriverError>> {
    match status {
        TransferStatus::Pending => None,
        TransferStatus::Completed => Some(Ok(bytes as usize)),
        TransferStatus::Error => Some(Err(UsbDriverError::TransferFailed)),
        TransferStatus::Cancelled => Some(Err(UsbDriverError::TransferFailed)),
        TransferStatus::Stalled => Some(Err(UsbDriverError::EndpointError)),
        TransferStatus::Timeout => Some(Err(UsbDriverError::TransferTimeout)),
        TransferStatus::Overflow => Some(Err(UsbDriverError::BufferOverflow)),
        TransferStatus::Underflow => Some(Err(UsbDriverError::TransferFailed)),
    }
}

impl View for Transfer {
    type V = TransferView;

    closed spec fn view(&self) -> TransferView {
        TransferView {
            id: self.id,
            device_address: self.device_address,
            endpoint_address: self.endpoint_address,
            transfer_type: self.transfer_type,
            setup_packet: self.setup_packet,
            status: self.status,
            bytes_transferred: self.bytes_transferred,
            timeout_ms: self.timeout_ms,
            flags: self.flags,
        }
    }
}

impl Transfer {
    /// The transfer's buffer.
    pub closed spec fn spec_buffer(&self) -> TransferBuffer {
        self.buffer
    }

    /// Create a new transfer: pending, nothing transferred, a 5 s timeout and no flags.
    pub fn new(
        id: u32,
        device_address: u8,
        endpoint_address: u8,
        transfer_type: TransferType,
        buffer: TransferBuffer,
    ) -> (r: Self)
        ensures
            r@ == (TransferView {
                id,
                device_address,
                endpoint_address,
                transfer_type,
                setup_packet: None,
                status: TransferStatus::Pending,
                bytes_transferred: 0,
                timeout_ms: 5000,
                flags: transfer_flags::NONE,
            }),
            r.spec_buffer() == buffer,
    {
        Self {
            id,
            device_address,
            endpoint_address,
            transfer_type,
            buffer,
            setup_packet: None,
            status: TransferStatus::Pending,
            bytes_transferred: 0,
            timeout_ms: 5000,  // 5 second default timeout
            flags: transfer_flags::NONE,
        }
    }

    /// Create a control transfer
    pub fn control(id: u32, device_address: u8, setup_packet: SetupPacket, buffer: TransferBuffer) -> (r: Self)
        ensures
            r@ == (TransferView {
                id,
                device_address,
                endpoint_address: 0,
                transfer_type: TransferType::Control,
                setup_packet: Some(setup_packet),
                status: TransferStatus::Pending,
                bytes_transferred: 0,
                timeout_ms: 5000,
                flags: transfer_flags::NONE,
            }),
            r.spec_buffer() == buffer,
    {
        let mut transfer = Self::new(id, device_address, 0, TransferType::Control, buffer);
        transfer.setup_packet = Some(setup_packet);
        transfer
    }

    /// Create a bulk transfer
    pub fn bulk(id: u32, device_address: u8, endpoint_address: u8, buffer: TransferBuffer) -> (r: Self)
        ensures
            r@ == (TransferView {
                id,
                device_address,
                endpoint_address,
                transfer_type: TransferType::Bulk,
                setup_packet: None,
                status: TransferStatus::Pending,
                bytes_transferred: 0,
                timeout_ms: 5000,
                flags: transfer_flags::NONE,
            }),
            r.spec_buffer() == buffer,
    {
        Self::new(id, device_address, endpoint_address, TransferType::Bulk, buffer)
    }

    /// Create an interrupt transfer
    pub fn interrupt(id: u32, device_address: u8, endpoint_address: u8, buffer: TransferBuffer) -> (r: Self)
        ensures
            r@ == (TransferView {
                id,
                device_address,
                endpoint_address,
                transfer_type: TransferType::Interrupt,
                setup_packet: None,
                status: TransferStatus::Pending,
                bytes_transferred: 0,
                timeout_ms: 5000,
                flags: transfer_flags::NONE,
            }),
            r.spec_buffer() == buffer,
    {
        Self::new(id, device_address, endpoint_address, TransferType::Interrupt, buffer)
    }

    /// Create an isochronous transfer
    pub fn isochronous(id: u32, device_address: u8, endpoint_address: u8, buffer: TransferBuffer) -> (r: Self)
        ensures
            r@ == (TransferView {
                id,
                device_address,
                endpoint_address,
                transfer_type: TransferType::Isochronous,
                setup_packet: None,
                status: TransferStatus::Pending,
                bytes_transferred: 0,
                timeout_ms: 5000,
                flags: transfer_flags::NONE,
            }),
            r.spec_buffer() == buffer,
    {
        Self::new(id, device_address, endpoint_address, TransferType::Isochronous, buffer)
    }

    /// Get transfer ID
    pub fn id(&self) -> (r: u32)
        ensures
            r == self@.id,
    {
        self.id
    }

    /// Get device address
    pub fn device_address(&self) -> (r: u8)
        ensures
            r == self@.device_address,
    {
        self.device_address
    }

    /// Get endpoint address
    pub fn endpoint_address(&self) -> (r: u8)
        ensures
            r == self@.endpoint_address,
    {
        self.endpoint_address
    }

    /// Get transfer type
    pub fn transfer_type(&self) -> (r: TransferType)
        ensures
            r == self@.transfer_type,
    {
        self.transfer_type
    }

    /// Get buffer reference
    pub fn buffer(&self) -> (r: &TransferBuffer)
        ensures
            *r == self.spec_buffer(),
    {
        &self.buffer
    }

    /// Get mutable buffer reference
    pub fn buffer_mut(&mut self) -> (r: &mut TransferBuffer)
        ensures
            *r == old(self).spec_buffer(),
            final(self).spec_buffer() == *final(r),
            final(self)@ == old(self)@,
    {
        &mut self.buffer
    }

    /// Get setup packet
    pub fn setup_packet(&self) -> (r: Option<&SetupPacket>)
        ensures
            match self@.setup_packet {
                Some(p) => r matches Some(q) && *q == p,
                None => r is None,
            },
    {
        match &self.setup_packet {
            Some(p) => Some(p),
            None => None,
        }
    }

    /// Get transfer status
    pub fn status(&self) -> (r: TransferStatus)
        ensures
            r == self@.status,
    {
        self.status
    }

    /// Set transfer status
    pub fn set_status(&mut self, status: TransferStatus)
        ensures
            final(self)@ == (TransferView { status, ..old(self)@ }),
            final(self).spec_buffer() == old(self).spec_buffer(),
    {
        self.status = status;
    }

    /// Get bytes transferred
    pub fn bytes_transferred(&self) -> (r: u32)
        ensures
            r == self@.bytes_transferred,
    {
        self.bytes_transferred
    }

    /// Set bytes transferred
    pub fn set_bytes_transferred(&mut self, bytes: u32)
        ensures
            final(self)@ == (TransferView { bytes_transferred: bytes, ..old(self)@ }),
            final(self).spec_buffer() == old(self).spec_buffer(),
    {
        self.bytes_transferred = bytes;
    }

    /// Set timeout
    pub fn set_timeout(&mut self, timeout_ms: u32)
        ensures
            final(self)@ == (TransferView { timeout_ms, ..old(self)@ }),
            final(self).spec_buffer() == old(self).spec_buffer(),
    {
        self.timeout_ms = timeout_ms;
    }

    /// Get timeout
    pub fn timeout(&self) -> (r: u32)
        ensures
            r == self@.timeout_ms,
    {
        self.timeout_ms
    }

    /// Set flags
    pub fn set_flags(&mut self, flags: u32)
        ensures
            final(self)@ == (TransferView { flags, ..old(self)@ }),
            final(self).spec_buffer() == old(self).spec_buffer(),
    {
        self.flags = flags;
    }

    /// Get flags
    pub fn flags(&self) -> (r: u32)
        ensures
            r == self@.flags,
    {
        self.flags
    }

    /// Check if transfer is complete
    pub fn is_complete(&self) -> (r: bool)
        ensures
            r == (self@.status != TransferStatus::Pending),
    {
        match self.status {
            TransferStatus::Pending => false,
            _ => true,
        }
    }

    /// Cancel the transfer
    pub fn cancel(&mut self)
        ensures
            final(self)@ == (TransferView { status: TransferStatus::Cancelled, ..old(self)@ }),
            final(self).spec_buffer() == old(self).spec_buffer(),
    {
        self.set_status(TransferStatus::Cancelled);
    }

    /// Get endpoint direction
    pub fn direction(&self) -> (r: EndpointDirection)
        ensures
            r == direction_of(self@.endpoint_address),
    {
        if self.endpoint_address & 0x80 != 0 {
            EndpointDirection::In
        } else {
            EndpointDirection::Out
        }
    }

    /// Check if this is an IN transfer
    pub fn is_in(&self) -> (r: bool)
        ensures
            r == (direction_of(self@.endpoint_address) == EndpointDirection::In),
    {
        match self.direction() {
            EndpointDirection::In => true,
            EndpointDirection::Out => false,
        }
    }

    /// Check if this is an OUT transfer
    pub fn is_out(&self) -> (r: bool)
        ensures
            r == (direction_of(self@.endpoint_address) == EndpointDirection::Out),
    {
        match self.direction() {
            EndpointDirection::In => false,
            EndpointDirection::Out => true,
        }
    }

    /// What waiting on the transfer yields now: nothing while it is pending, otherwise the
    /// byte count or the error its status stands for.
    pub fn poll_outcome(&self) -> (r: Option<Result<usize, UsbDriverError>>)
        ensures
            r == status_outcome(self@.status, self@.bytes_transferred),
    {
        match self.status {
            TransferStatus::Pending => None,
            TransferStatus::Completed => Some(Ok(self.bytes_transferred as usize)),
            TransferStatus::Error => Some(Err(UsbDriverError::TransferFailed)),
            TransferStatus::Cancelled => Some(Err(UsbDriverError::TransferFailed)),
            TransferStatus::Stalled => Some(Err(UsbDriverError::EndpointError)),
            TransferStatus::Timeout => Some(Err(UsbDriverError::TransferTimeout)),
            TransferStatus::Overflow => Some(Err(UsbDriverError::BufferOverflow)),
            TransferStatus::Underflow => Some(Err(UsbDriverError::TransferFailed)),
        }
    }
}

/// Transfer builder for easier construction
pub struct TransferBuilder {
    pub device_address: u8,
    pub endpoint_address: u8,
    pub transfer_type: TransferType,
    pub buffer_size: Option<usize>,
    pub buffer_data: Option<Vec<u8>>,
    pub setup_packet: Option<SetupPacket>,
    pub timeout_ms: u32,
    pub flags: u32,
}

impl TransferBuilder {
    /// Create a new transfer builder
    pub fn new(device_address: u8, endpoint_address: u8, transfer_type: TransferType) -> (r: Self)
        ensures
            r == (TransferBuilder {
                device_address,
                endpoint_address,
                transfer_type,
                buffer_size: None,
                buffer_data: None,
                setup_packet: None,
                timeout_ms: 5000,
                flags: transfer_flags::NONE,
            }),
    {
        Self {
            device_address,
            endpoint_address,
            transfer_type,
            buffer_size: None,
            buffer_data: None,
            setup_packet: None,
            timeout_ms: 5000,
            flags: transfer_flags::NONE,
        }
    }

    /// Set buffer size (creates empty buffer)
    pub fn buffer_size(self, size: usize) -> (r: Self)
        ensures
            r == (TransferBuilder { buffer_size: Some(size), ..self }),
    {
        TransferBuilder { buffer_size: Some(size), ..self }
    }

    /// Set buffer data
    pub fn buffer_data(self, data: Vec<u8>) -> (r: Self)
        ensures
            r == (TransferBuilder { buffer_data: Some(data), ..self }),
    {
        TransferBuilder { buffer_data: Some(data), ..self }
    }

    /// Set setup packet (for control transfers)
    pub fn setup_packet(self, packet: SetupPacket) -> (r: Self)
        ensures
            r == (TransferBuilder { setup_packet: Some(packet), ..self }),
    {
        TransferBuilder { setup_packet: Some(packet), ..self }
    }

    /// Set timeout
    pub fn timeout(self, timeout_ms: u32) -> (r: Self)
        ensures
            r == (TransferBuilder { timeout_ms, ..self }),
    {
        TransferBuilder { timeout_ms, ..self }
    }

    /// Set flags
    pub fn flags(self, flags: u32) -> (r: Self)
        ensures
            r == (TransferBuilder { flags, ..self }),
    {
        TransferBuilder { flags, ..self }
    }

    /// Build the transfer: the data given, else a zeroed buffer of the size given, else an
    /// empty one.
    pub fn build(self, id: u32) -> (r: Transfer)
        ensures
            r@ == (TransferView {
                id,
                device_address: self.device_address,
                endpoint_address: self.endpoint_address,
                transfer_type: self.transfer_type,
                setup_packet: self.setup_packet,
                status: TransferStatus::Pending,
                bytes_transferred: 0,
                timeout_ms: self.timeout_ms,
                flags: self.flags,
            }),
            match self.buffer_data {
                Some(data) => r.spec_buffer() == TransferBuffer::Single(data),
                None => r.spec_buffer() matches TransferBuffer::Single(buf) && buf@ == Seq::new(
                    match self.buffer_size {
                        Some(n) => n as nat,
                        None => 0nat,
                    },
                    |i: int| 0u8,
                ),
            },
    {
        let buffer = match self.buffer_data {
            Some(data) => TransferBuffer::from_data(data),
            None => match self.buffer_size {
                Some(size) => TransferBuffer::new(size),
                None => TransferBuffer::new(0),
            },
        };
        let mut transfer = Transfer::new(id, self.device_address, self.endpoint_address, self.transfer_type, buffer);
        transfer.setup_packet = self.setup_packet;
        transfer.timeout_ms = self.timeout_ms;
        transfer.flags = self.flags;
        transfer
    }
}

} // verus!
