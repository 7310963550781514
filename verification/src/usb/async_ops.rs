//! Asynchronous USB operations: the completion state of a transfer that is awaited, control
//! request builders, bulk and interrupt helpers, timeouts and an event queue.
//!
//! Waking a waiting task is the executor's business; here a transfer records how it ended
//! and says what waiting on it yields.
use vstd::prelude::*;

use crate::usb::device::{config_index, DeviceState, UsbDevice, UsbDeviceView};
use crate::usb::error::UsbDriverError;
use crate::usb::transfer::{
    transfer_flags, SetupPacket, Transfer, TransferBuffer, TransferStatus, TransferType, TransferView,
};
use crate::usb::types::{descriptor_value, lemma_descriptor_value};
use std::collections::VecDeque;

verus! {

/// What waiting on an asynchronous transfer yields in a given state: nothing while it is
/// pending, the byte count once completed, and otherwise the error the state stands for (for
/// an error or a cancellation the recorded error, failing that a transfer failure).
pub open spec fn async_outcome(
    status: TransferStatus,
    bytes: usize,
    error: Option<UsbDriverError>,
) -> Option<Result<usize, UsbDriverError>> {
    match status {
        TransferStatus::Pending => None,
        TransferStatus::Completed => Some(Ok(bytes)),
        TransferStatus::Error | TransferStatus::Cancelled => Some(
            Err(
                match error {
                    Some(e) => e,
                    None => UsbDriverError::TransferFailed,
                },
            ),
        ),
        TransferStatus::Timeout => Some(Err(UsbDriverError::TransferTimeout)),
        TransferStatus::Stalled => Some(Err(UsbDriverError::EndpointError)),
        TransferStatus::Overflow => Some(Err(UsbDriverError::BufferOverflow)),
        TransferStatus::Underflow => Some(Err(UsbDriverError::TransferFailed)),
    }
}

/// Async USB transfer operation
pub struct AsyncTransfer {
    /// Inner transfer
    transfer: Transfer,
    /// Transfer status
    status: TransferStatus,
    /// Bytes transferred
    bytes_transferred: usize,
    /// Error if transfer failed
    error: Option<UsbDriverError>,
}

/// The completion state of an asynchronous transfer.
pub struct AsyncTransferView {
    pub transfer: TransferView,
    pub status: TransferStatus,
    pub bytes_transferred: usize,
    pub error: Option<UsbDriverError>,
}

impl View for AsyncTransfer {
    type V = AsyncTransferView;

    closed spec fn view(&self) -> AsyncTransferView {
        AsyncTransferView {
            transfer: self.transfer@,
            status: self.status,
            bytes_transferred: self.bytes_transferred,
            error: self.error,
        }
    }
}

impl AsyncTransfer {
    /// The buffer of the inner transfer.
    pub closed spec fn spec_buffer(&self) -> TransferBuffer {
        self.transfer.spec_buffer()
    }

    /// Create a new async transfer: pending, nothing transferred, no error.
    pub fn new(transfer: Transfer) -> (r: Self)
        ensures
            r@ == (AsyncTransferView {
                transfer: transfer@,
                status: TransferStatus::Pending,
                bytes_transferred: 0,
                error: None,
            }),
            r.spec_buffer() == transfer.spec_buffer(),
    {
        Self { transfer, status: TransferStatus::Pending, bytes_transferred: 0, error: None }
    }

    /// Get transfer ID
    pub fn id(&self) -> (r: u32)
        ensures
            r == self@.transfer.id,
    {
        self.transfer.id()
    }

    /// Get the inner transfer
    pub fn transfer(&self) -> (r: &Transfer)
        ensures
            r@ == self@.transfer,
            r.spec_buffer() == self.spec_buffer(),
    {
        &self.transfer
    }

    /// Check if transfer is complete
    pub fn is_complete(&self) -> (r: bool)
        ensures
            r == (self@.status != TransferStatus::Pending),
    {
        match self.status {
            TransferStatus::Pending => false,
            _ => true,
        }
    }

    /// Complete the transfer (called by controller)
    pub fn complete(&mut self, status: TransferStatus, bytes_transferred: usize, error: Option<UsbDriverError>)
        ensures
            final(self)@ == (AsyncTransferView { status, bytes_transferred, error, ..old(self)@ }),
            final(self).spec_buffer() == old(self).spec_buffer(),
    {
        self.status = status;
        self.bytes_transferred = bytes_transferred;
        self.error = error;
    }

    /// Cancel the transfer: it ends as cancelled with a transfer failure.
    pub fn cancel(&mut self)
        ensures
            final(self)@ == (AsyncTransferView {
                status: TransferStatus::Cancelled,
                error: Some(UsbDriverError::TransferFailed),
                ..old(self)@
            }),
            final(self).spec_buffer() == old(self).spec_buffer(),
    {
        self.status = TransferStatus::Cancelled;
        self.error = Some(UsbDriverError::TransferFailed);
    }

    /// What waiting on the transfer yields now (`None`: still pending). Reporting an error or
    /// a cancellation hands the recorded error out, so it is cleared.
    pub fn poll(&mut self) -> (r: Option<Result<usize, UsbDriverError>>)
        ensures
            r == async_outcome(old(self)@.status, old(self)@.bytes_transferred, old(self)@.error),
            final(self)@ == (if old(self)@.status == TransferStatus::Error || old(self)@.status
                == TransferStatus::Cancelled {
                AsyncTransferView { error: None, ..old(self)@ }
            } else {
                old(self)@
            }),
            final(self).spec_buffer() == old(self).spec_buffer(),
    {
        match self.status {
            TransferStatus::Pending => None,
            TransferStatus::Completed => Some(Ok(self.bytes_transferred)),
            TransferStatus::Error | TransferStatus::Cancelled => {
                let error = match self.error {
                    Some(e) => e,
                    None => UsbDriverError::TransferFailed,
                };
                self.error = None;
                Some(Err(error))
            },
            TransferStatus::Timeout => Some(Err(UsbDriverError::TransferTimeout)),
            TransferStatus::Stalled => Some(Err(UsbDriverError::EndpointError)),
            TransferStatus::Overflow => Some(Err(UsbDriverError::BufferOverflow)),
            TransferStatus::Underflow => Some(Err(UsbDriverError::TransferFailed)),
        }
    }
}

/// A transfer completed with a byte count yields that count; a cancelled one yields a
/// transfer failure; a pending one yields nothing yet.
pub proof fn lemma_async_outcomes(bytes: usize, error: Option<UsbDriverError>)
    ensures
        async_outcome(TransferStatus::Completed, bytes, error) == Some(Ok::<usize, UsbDriverError>(bytes)),
        async_outcome(TransferStatus::Cancelled, bytes, Some(UsbDriverError::TransferFailed))
            == Some(Err::<usize, UsbDriverError>(UsbDriverError::TransferFailed)),
        async_outcome(TransferStatus::Pending, bytes, error) is None,
{
}

/// The fields of a control request under construction.
pub struct ControlRequestView {
    pub device_address: u8,
    pub request_type: u8,
    pub request: u8,
    pub value: u16,
    pub index: u16,
    pub data: Option<Seq<u8>>,
    pub timeout_ms: u64,
}

/// USB Control Transfer Builder
pub struct ControlTransferBuilder {
    device_address: u8,
    request_type: u8,
    request: u8,
    value: u16,
    index: u16,
    data: Option<Vec<u8>>,
    /// Timeout in milliseconds
    timeout_ms: u64,
}

impl View for ControlTransferBuilder {
    type V = ControlRequestView;

    closed spec fn view(&self) -> ControlRequestView {
        ControlRequestView {
            device_address: self.device_address,
            request_type: self.request_type,
            request: self.request,
            value: self.value,
            index: self.index,
            data: match self.data {
                Some(d) => Some(d@),
                None => None,
            },
            timeout_ms: self.timeout_ms,
        }
    }
}

/// A request addressed to a device with everything else as given and a 5 s timeout.
pub open spec fn control_request(
    device_address: u8,
    request_type: u8,
    request: u8,
    value: u16,
    index: u16,
    data: Option<Seq<u8>>,
) -> ControlRequestView {
    ControlRequestView { device_address, request_type, request, value, index, data, timeout_ms: 5000 }
}

/// `n` zero bytes.
fn zeros(n: usize) -> (r: Vec<u8>)
    ensures
        r@ == Seq::new(n as nat, |i: int| 0u8),
{
    let mut v: Vec<u8> = Vec::new();
    let mut i: usize = 0;
    while i < n
        invariant
            i <= n,
            v@ == Seq::new(i as nat, |k: int| 0u8),
        decreases n - i,
    {
        v.push(0);
        i = i + 1;
        proof {
            assert(v@ =~= Seq::new(i as nat, |k: int| 0u8));
        }
    }
    v
}

impl ControlTransferBuilder {
    /// Create a new control transfer builder: all fields zero, no data, a 5 s timeout.
    pub fn new(device_address: u8) -> (r: Self)
        ensures
            r@ == control_request(device_address, 0, 0, 0, 0, None),
    {
        Self { device_address, request_type: 0, request: 0, value: 0, index: 0, data: None, timeout_ms: 5000 }
    }

    /// Set request type
    pub fn request_type(self, request_type: u8) -> (r: Self)
        ensures
            r@ == (ControlRequestView { request_type, ..self@ }),
    {
        let mut s = self;
        s.request_type = request_type;
        s
    }

    /// Set request
    pub fn request(self, request: u8) -> (r: Self)
        ensures
            r@ == (ControlRequestView { request, ..self@ }),
    {
        let mut s = self;
        s.request = request;
        s
    }

    /// Set value
    pub fn value(self, value: u16) -> (r: Self)
        ensures
            r@ == (ControlRequestView { value, ..self@ }),
    {
        let mut s = self;
        s.value = value;
        s
    }

    /// Set index
    pub fn index(self, index: u16) -> (r: Self)
        ensures
            r@ == (ControlRequestView { index, ..self@ }),
    {
        let mut s = self;
        s.index = index;
        s
    }

    /// Set data for data stage
    pub fn data(self, data: Vec<u8>) -> (r: Self)
        ensures
            r@ == (ControlRequestView { data: Some(data@), ..self@ }),
    {
        let mut s = self;
        s.data = Some(data);
        s
    }

    /// Set timeout, in milliseconds
    pub fn timeout(self, timeout_ms: u64) -> (r: Self)
        ensures
            r@ == (ControlRequestView { timeout_ms, ..self@ }),
    {
        let mut s = self;
        s.timeout_ms = timeout_ms;
        s
    }

    /// Build the control transfer with the given ID: its setup packet carries the request
    /// and the data length (cut to 16 bits), its buffer the data (empty when there is none),
    /// and its timeout the builder's (cut to 32 bits).
    pub fn build(self, id: u32) -> (r: AsyncTransfer)
        ensures
            ({
                let len: usize = match self@.data {
                    Some(d) => d.len() as usize,
                    None => 0usize,
                };
                r@ == AsyncTransferView {
                    transfer: TransferView {
                        id,
                        device_address: self@.device_address,
                        endpoint_address: 0,
                        transfer_type: TransferType::Control,
                        setup_packet: Some(
                            SetupPacket {
                                request_type: self@.request_type,
                                request: self@.request,
                                value: self@.value,
                                index: self@.index,
                                length: len as u16,
                            },
                        ),
                        status: TransferStatus::Pending,
                        bytes_transferred: 0,
                        timeout_ms: self@.timeout_ms as u32,
                        flags: transfer_flags::NONE,
                    },
                    status: TransferStatus::Pending,
                    bytes_transferred: 0,
                    error: None,
                }
            }),
            r.spec_buffer() matches TransferBuffer::Single(b) && b@ == match self@.data {
                Some(d) => d,
                None => Seq::<u8>::empty(),
            },
    {
        let data_length: usize = match &self.data {
            Some(d) => d.len(),
            None => 0,
        };
        let setup_packet = SetupPacket::new(
            self.request_type,
            self.request,
            self.value,
            self.index,
            data_length as u16,
        );
        let buffer = match self.data {
            Some(data) => TransferBuffer::from_data(data),
            None => TransferBuffer::new(0),
        };
        let mut transfer = Transfer::control(id, self.device_address, setup_packet, buffer);
        transfer.set_timeout(self.timeout_ms as u32);
        AsyncTransfer::new(transfer)
    }

    /// Create GET_DESCRIPTOR request, with a zeroed data stage of the length asked for
    pub fn get_descriptor(device_address: u8, desc_type: u8, desc_index: u8, length: u16) -> (r: Self)
        ensures
            r@ == control_request(
                device_address,
                0x80,
                0x06,
                descriptor_value(desc_type, desc_index) as u16,
                0,
                Some(Seq::new(length as nat, |i: int| 0u8)),
            ),
    {
        proof {
            lemma_descriptor_value(desc_type, desc_index);
        }
        Self::new(device_address)
            .request_type(0x80)  // Device to host, standard, device
            .request(0x06)  // GET_DESCRIPTOR
            .value(((desc_type as u16) << 8) | (desc_index as u16))
            .index(0)
            .data(zeros(length as usize))
    }

    /// Create SET_ADDRESS request
    pub fn set_address(device_address: u8, new_address: u8) -> (r: Self)
        ensures
            r@ == control_request(device_address, 0x00, 0x05, new_address as u16, 0, None),
    {
        Self::new(device_address)
            .request_type(0x00)  // Host to device, standard, device
            .request(0x05)  // SET_ADDRESS
            .value(new_address as u16)
            .index(0)
    }

    /// Create SET_CONFIGURATION request
    pub fn set_configuration(device_address: u8, config_value: u8) -> (r: Self)
        ensures
            r@ == control_request(device_address, 0x00, 0x09, config_value as u16, 0, None),
    {
        Self::new(device_address)
            .request_type(0x00)  // Host to device, standard, device
            .request(0x09)  // SET_CONFIGURATION
            .value(config_value as u16)
            .index(0)
    }

    /// Create GET_STATUS request, with a two-byte zeroed data stage
    pub fn get_status(device_address: u8, recipient: u8, index: u16) -> (r: Self)
        ensures
            r@ == control_request(device_address, 0x80u8 | recipient, 0x00, 0, index, Some(seq![0u8, 0u8])),
    {
        let r = Self::new(device_address)
            .request_type(0x80 | recipient)  // Device to host, standard
            .request(0x00)  // GET_STATUS
            .value(0)
            .index(index)
            .data(zeros(2));
        proof {
            assert(Seq::new(2nat, |i: int| 0u8) =~= seq![0u8, 0u8]);
        }
        r
    }

    /// Create CLEAR_FEATURE request
    pub fn clear_feature(device_address: u8, recipient: u8, feature: u16, index: u16) -> (r: Self)
        ensures
            r@ == control_request(device_address, 0x00u8 | recipient, 0x01, feature, index, None),
    {
        Self::new(device_address)
            .request_type(0x00 | recipient)  // Host to device, standard
            .request(0x01)  // CLEAR_FEATURE
            .value(feature)
            .index(index)
    }

    /// Create SET_FEATURE request
    pub fn set_feature(device_address: u8, recipient: u8, feature: u16, index: u16) -> (r: Self)
        ensures
            r@ == control_request(device_address, 0x00u8 | recipient, 0x03, feature, index, None),
    {
        Self::new(device_address)
            .request_type(0x00 | recipient)  // Host to device, standard
            .request(0x03)  // SET_FEATURE
            .value(feature)
            .index(index)
    }
}

/// A fresh asynchronous transfer of the given kind, endpoint and buffer, with the usual
/// defaults of a new transfer.
pub open spec fn fresh_transfer(
    id: u32,
    device_address: u8,
    endpoint_address: u8,
    transfer_type: TransferType,
) -> AsyncTransferView {
    AsyncTransferView {
        transfer: TransferView {
            id,
            device_address,
            endpoint_address,
            transfer_type,
            setup_packet: None,
            status: TransferStatus::Pending,
            bytes_transferred: 0,
            timeout_ms: 5000,
            flags: transfer_flags::NONE,
        },
        status: TransferStatus::Pending,
        bytes_transferred: 0,
        error: None,
    }
}

/// Async bulk transfer helper
pub struct BulkTransfer;

impl BulkTransfer {
    /// Create async bulk IN transfer: the endpoint gets its IN bit, the buffer `length` zeros
    pub fn read(id: u32, device_address: u8, endpoint: u8, length: usize) -> (r: AsyncTransfer)
        ensures
            r@ == fresh_transfer(id, device_address, endpoint | 0x80u8, TransferType::Bulk),
            r.spec_buffer() matches TransferBuffer::Single(b) && b@ == Seq::new(length as nat, |i: int| 0u8),
    {
        let buffer = TransferBuffer::new(length);
        let transfer = Transfer::bulk(id, device_address, endpoint | 0x80, buffer);
        AsyncTransfer::new(transfer)
    }

    /// Create async bulk OUT transfer carrying `data`
    pub fn write(id: u32, device_address: u8, endpoint: u8, data: Vec<u8>) -> (r: AsyncTransfer)
        ensures
            r@ == fresh_transfer(id, device_address, endpoint, TransferType::Bulk),
            r.spec_buffer() == TransferBuffer::Single(data),
    {
        let buffer = TransferBuffer::from_data(data);
        let transfer = Transfer::bulk(id, device_address, endpoint, buffer);
        AsyncTransfer::new(transfer)
    }
}

/// Async interrupt transfer helper
pub struct InterruptTransfer;

impl InterruptTransfer {
    /// Create async interrupt IN transfer: the endpoint gets its IN bit, the buffer `length`
    /// zeros
    pub fn read(id: u32, device_address: u8, endpoint: u8, length: usize) -> (r: AsyncTransfer)
        ensures
            r@ == fresh_transfer(id, device_address, endpoint | 0x80u8, TransferType::Interrupt),
            r.spec_buffer() matches TransferBuffer::Single(b) && b@ == Seq::new(length as nat, |i: int| 0u8),
    {
        let buffer = TransferBuffer::new(length);
        let transfer = Transfer::interrupt(id, device_address, endpoint | 0x80, buffer);
        AsyncTransfer::new(transfer)
    }

    /// Create async interrupt OUT transfer carrying `data`
    pub fn write(id: u32, device_address: u8, endpoint: u8, data: Vec<u8>) -> (r: AsyncTransfer)
        ensures
            r@ == fresh_transfer(id, device_address, endpoint, TransferType::Interrupt),
            r.spec_buffer() == TransferBuffer::Single(data),
    {
        let buffer = TransferBuffer::from_data(data);
        let transfer = Transfer::interrupt(id, device_address, endpoint, buffer);
        AsyncTransfer::new(transfer)
    }
}

/// The steps of enumerating a device, in order.
#[derive(Debug, Clone, Copy, PartialEq, Eq, Structural)]
pub enum EnumerationStep {
    /// Read the first 8 bytes of the device descriptor (for the control packet size)
    ReadDescriptorHead,
    /// Give the device its address
    AssignAddress,
    /// Read the whole device descriptor
    ReadDeviceDescriptor,
    /// Read the configuration descriptor
    ReadConfigurationDescriptor,
    /// Select configuration 1
    SelectConfiguration,
    /// Enumeration is done
    Finished,
}

/// The address a device is given during enumeration.
pub const ENUMERATED_ADDRESS: u8 = 1;

/// USB Device Enumerator: walks a device through the enumeration requests. Each request is
/// issued and awaited by the caller, which hands the outcome back.
pub struct DeviceEnumerator {
    step: EnumerationStep,
}

impl DeviceEnumerator {
    /// The step the enumeration is at.
    pub closed spec fn spec_step(&self) -> EnumerationStep {
        self.step
    }

    /// Create a new device enumerator, at the first step
    pub fn new() -> (r: Self)
        ensures
            r.spec_step() == EnumerationStep::ReadDescriptorHead,
    {
        Self { step: EnumerationStep::ReadDescriptorHead }
    }

    /// The step the enumeration is at
    pub fn step(&self) -> (r: EnumerationStep)
        ensures
            r == self.spec_step(),
    {
        self.step
    }

    /// The control request of the current step (none once finished): the descriptor head
    /// and SET_ADDRESS go to the device's current address, the rest to the new address.
    pub fn request(&self, device: &UsbDevice) -> (r: Option<ControlTransferBuilder>)
        ensures
            self.spec_step() == EnumerationStep::ReadDescriptorHead ==> (r matches Some(b) && b@ == control_request(
                device@.address,
                0x80,
                0x06,
                0x0100,
                0,
                Some(Seq::new(8, |i: int| 0u8)),
            )),
            self.spec_step() == EnumerationStep::AssignAddress ==> (r matches Some(b) && b@ == control_request(
                device@.address,
                0x00,
                0x05,
                ENUMERATED_ADDRESS as u16,
                0,
                None,
            )),
            self.spec_step() == EnumerationStep::ReadDeviceDescriptor ==> (r matches Some(b) && b@
                == control_request(ENUMERATED_ADDRESS, 0x80, 0x06, 0x0100, 0, Some(Seq::new(18, |i: int| 0u8)))),
            self.spec_step() == EnumerationStep::ReadConfigurationDescriptor ==> (r matches Some(b) && b@
                == control_request(ENUMERATED_ADDRESS, 0x80, 0x06, 0x0200, 0, Some(Seq::new(9, |i: int| 0u8)))),
            self.spec_step() == EnumerationStep::SelectConfiguration ==> (r matches Some(b) && b@ == control_request(
                ENUMERATED_ADDRESS,
                0x00,
                0x09,
                1,
                0,
                None,
            )),
            self.spec_step() == EnumerationStep::Finished ==> r is None,
    {
        proof {
            assert(descriptor_value(1, 0) == 0x0100);
            assert(descriptor_value(2, 0) == 0x0200);
        }
        match self.step {
            EnumerationStep::ReadDescriptorHead => Some(ControlTransferBuilder::get_descriptor(device.address(), 0x01, 0, 8)),
            EnumerationStep::AssignAddress => Some(ControlTransferBuilder::set_address(device.address(), ENUMERATED_ADDRESS)),
            EnumerationStep::ReadDeviceDescriptor => Some(ControlTransferBuilder::get_descriptor(ENUMERATED_ADDRESS, 0x01, 0, 18)),
            EnumerationStep::ReadConfigurationDescriptor => Some(ControlTransferBuilder::get_descriptor(ENUMERATED_ADDRESS, 0x02, 0, 9)),
            EnumerationStep::SelectConfiguration => Some(ControlTransferBuilder::set_configuration(ENUMERATED_ADDRESS, 1)),
            EnumerationStep::Finished => None,
        }
    }

    /// Record the outcome of the current step's request: a failed request ends the
    /// enumeration with its error; once SET_ADDRESS went through the device takes the new
    /// address, and once SET_CONFIGURATION did it takes configuration 1 (refused where it has
    /// none of that value). Returns whether the enumeration is finished.
    pub fn complete(&mut self, device: &mut UsbDevice, outcome: Result<usize, UsbDriverError>) -> (r: Result<
        bool,
        UsbDriverError,
    >)
        requires
            old(self).spec_step() != EnumerationStep::Finished,
        ensures
            final(device).configs() == old(device).configs(),
            final(device).strings() == old(device).strings(),
            final(device).descriptor() == old(device).descriptor(),
            outcome matches Err(e) ==> r == Err::<bool, UsbDriverError>(e) && final(self).spec_step() == old(self).spec_step() && final(device)@ == old(device)@,
            outcome is Ok ==> match old(self).spec_step() {
                EnumerationStep::ReadDescriptorHead => r == Ok::<bool, UsbDriverError>(false)
                    && final(self).spec_step() == EnumerationStep::AssignAddress && final(device)@ == old(device)@,
                EnumerationStep::AssignAddress => r == Ok::<bool, UsbDriverError>(false) && final(self).spec_step()
                    == EnumerationStep::ReadDeviceDescriptor && final(device)@ == (UsbDeviceView {
                    address: ENUMERATED_ADDRESS,
                    state: DeviceState::Address,
                    ..old(device)@
                }),
                EnumerationStep::ReadDeviceDescriptor => r == Ok::<bool, UsbDriverError>(false) && final(self).spec_step() == EnumerationStep::ReadConfigurationDescriptor && final(device)@ == old(device)@,
                EnumerationStep::ReadConfigurationDescriptor => r == Ok::<bool, UsbDriverError>(false) && final(self).spec_step() == EnumerationStep::SelectConfiguration && final(device)@ == old(device)@,
                _ => if config_index(old(device).configs(), 1, 0) >= 0 {
                    r == Ok::<bool, UsbDriverError>(true) && final(self).spec_step() == EnumerationStep::Finished
                        && final(device)@ == (UsbDeviceView {
                        current_configuration: 1,
                        state: DeviceState::Configured,
                        ..old(device)@
                    })
                } else {
                    r == Err::<bool, UsbDriverError>(UsbDriverError::InvalidConfiguration) && final(self).spec_step()
                        == old(self).spec_step() && final(device)@ == old(device)@
                },
            },
    {
        match outcome {
            Err(e) => return Err(e),
            Ok(_) => {},
        }
        match self.step {
            EnumerationStep::ReadDescriptorHead => {
                self.step = EnumerationStep::AssignAddress;
                Ok(false)
            },
            EnumerationStep::AssignAddress => {
                device.set_address(ENUMERATED_ADDRESS);
                self.step = EnumerationStep::ReadDeviceDescriptor;
                Ok(false)
            },
            EnumerationStep::ReadDeviceDescriptor => {
                self.step = EnumerationStep::ReadConfigurationDescriptor;
                Ok(false)
            },
            EnumerationStep::ReadConfigurationDescriptor => {
                self.step = EnumerationStep::SelectConfiguration;
                Ok(false)
            },
            _ => {
                match device.set_configuration(1) {
                    Ok(()) => {},
                    Err(e) => return Err(e),
                }
                self.step = EnumerationStep::Finished;
                Ok(true)
            },
        }
    }
}

/// Wait for device to reach specific state: the state is not polled, and the wait succeeds
pub fn wait_for_device_state(device: &UsbDevice, target_state: DeviceState, timeout_ms: u64) -> (r: Result<
    (),
    UsbDriverError,
>)
    ensures
        r is Ok,
{
    Ok(())
}

/// One round of retrying an operation `max_retries` times (attempts counted from 0): a
/// success is returned, and so is the error of the last attempt; any other error means
/// another attempt (`None`).
pub fn retry_step<T>(attempt: usize, max_retries: usize, outcome: Result<T, UsbDriverError>) -> (r: Option<
    Result<T, UsbDriverError>,
>)
    requires
        attempt < max_retries,
    ensures
        outcome is Ok ==> r == Some(outcome),
        outcome is Err && attempt == max_retries - 1 ==> r == Some(outcome),
        outcome is Err && attempt < max_retries - 1 ==> r is None,
{
    match outcome {
        Ok(v) => Some(Ok(v)),
        Err(e) => if attempt == max_retries - 1 {
            Some(Err(e))
        } else {
            None
        },
    }
}

/// The delay before the next attempt: twice the last one.
pub fn next_retry_delay(delay_ms: u64) -> (r: u64)
    requires
        delay_ms * 2 <= u64::MAX,
    ensures
        r == delay_ms * 2,
{
    delay_ms * 2
}

/// What retrying gives when no attempt is allowed at all.
pub fn retries_exhausted<T>() -> (r: Result<T, UsbDriverError>)
    ensures
        r == Err::<T, UsbDriverError>(UsbDriverError::TransferFailed),
{
    Err(UsbDriverError::TransferFailed)
}

/// Select the first completed transfer: its position and what it yielded; when none has
/// completed yet, a timeout.
pub fn select_first(transfers: &mut Vec<AsyncTransfer>) -> (r: Result<(usize, usize), UsbDriverError>)
    ensures
        final(transfers)@.len() == old(transfers)@.len(),
        (forall|i: int| 0 <= i < old(transfers)@.len() ==> (#[trigger] old(transfers)@[i])@.status
            == TransferStatus::Pending) ==> r == Err::<(usize, usize), UsbDriverError>(UsbDriverError::TransferTimeout),
        forall|i: int|
            0 <= i < old(transfers)@.len() && (#[trigger] old(transfers)@[i])@.status != TransferStatus::Pending
                && (forall|j: int| 0 <= j < i ==> (#[trigger] old(transfers)@[j])@.status == TransferStatus::Pending)
                ==> r == match async_outcome(
                old(transfers)@[i]@.status,
                old(transfers)@[i]@.bytes_transferred,
                old(transfers)@[i]@.error,
            ) {
                Some(Ok(b)) => Ok::<(usize, usize), UsbDriverError>((i as usize, b)),
                Some(Err(e)) => Err::<(usize, usize), UsbDriverError>(e),
                None => Err::<(usize, usize), UsbDriverError>(UsbDriverError::TransferTimeout),
            },
{
    let mut index: usize = 0;
    while index < transfers.len()
        invariant
            index <= transfers@.len(),
            transfers@ == old(transfers)@,
            forall|j: int| 0 <= j < index ==> (#[trigger] transfers@[j])@.status == TransferStatus::Pending,
        decreases transfers@.len() - index,
    {
        if transfers[index].is_complete() {
            let mut t = transfers.remove(index);
            let outcome = t.poll();
            transfers.insert(index, t);
            return match outcome {
                Some(Ok(bytes)) => Ok((index, bytes)),
                Some(Err(e)) => Err(e),
                None => Err(UsbDriverError::TransferTimeout),
            };
        }
        index = index + 1;
    }
    Err(UsbDriverError::TransferTimeout)
}

/// Join several transfers: they are awaited in order; the first error is the result,
/// otherwise every byte count in order.
pub struct JoinTransfers {
    transfers: Vec<AsyncTransfer>,
    results: Vec<usize>,
}

impl JoinTransfers {
    /// The transfers not yet finished with, in order.
    pub closed spec fn pending(&self) -> Seq<AsyncTransferView> {
        self.transfers@.skip(self.results@.len() as int).map_values(|t: AsyncTransfer| t@)
    }

    /// The byte counts of the transfers finished with.
    pub closed spec fn spec_results(&self) -> Seq<usize> {
        self.results@
    }

    /// Well-formed: no more results than transfers.
    pub closed spec fn wf(&self) -> bool {
        self.results@.len() <= self.transfers@.len()
    }

    /// Start joining the transfers
    pub fn new(transfers: Vec<AsyncTransfer>) -> (r: Self)
        ensures
            r.wf(),
            r.pending() == transfers@.map_values(|t: AsyncTransfer| t@),
            r.spec_results() == Seq::<usize>::empty(),
    {
        let r = Self { transfers, results: Vec::new() };
        proof {
            assert(r.transfers@.skip(0) =~= r.transfers@);
        }
        r
    }

    /// Poll the join: the transfers are waited on in order from where the last poll stopped;
    /// a pending one makes the join pending (`None`), an error ends it with that error, and
    /// when all have completed their byte counts are handed out in order.
    pub fn poll(&mut self) -> (r: Option<Result<Vec<usize>, UsbDriverError>>)
        requires
            old(self).wf(),
        ensures
            final(self).wf(),
            r matches Some(Ok(v)) ==> v@.len() == old(self).spec_results().len() + old(self).pending().len()
                && v@.take(old(self).spec_results().len() as int) == old(self).spec_results()
                && forall|k: int|
                0 <= k < old(self).pending().len() ==> Some(Ok::<usize, UsbDriverError>(
                    #[trigger] v@[old(self).spec_results().len() + k],
                )) == async_outcome(
                    old(self).pending()[k].status,
                    old(self).pending()[k].bytes_transferred,
                    old(self).pending()[k].error,
                ),
            r is None ==> final(self).pending().len() > 0 && final(self).pending()[0].status == TransferStatus::Pending,
    {
        let ghost results0 = self.results@;
        let ghost pending0 = self.pending();
        while self.results.len() < self.transfers.len()
            invariant
                self.results@.len() <= self.transfers@.len(),
                self.transfers@.len() == old(self).transfers@.len(),
                results0 == old(self).spec_results(),
                pending0 == old(self).pending(),
                self.results@.len() >= results0.len(),
                self.results@.take(results0.len() as int) == results0,
                self.pending() == pending0.skip(self.results@.len() - results0.len()),
                forall|k: int|
                    0 <= k < self.results@.len() - results0.len() ==> Some(Ok::<usize, UsbDriverError>(
                        #[trigger] self.results@[results0.len() + k],
                    )) == async_outcome(pending0[k].status, pending0[k].bytes_transferred, pending0[k].error),
            decreases self.transfers@.len() - self.results@.len(),
        {
            let index = self.results.len();
            let ghost before_transfers = self.transfers@;
            let ghost before_results = self.results@;
            let ghost done = (index - results0.len()) as int;
            proof {
                assert(self.pending() == before_transfers.skip(index as int).map_values(|x: AsyncTransfer| x@));
                assert(self.pending()[0] == before_transfers[index as int]@);
                assert(pending0.skip(done)[0] == pending0[done]);
            }
            let mut t = self.transfers.remove(index);
            let ghost t0 = t@;
            let outcome = t.poll();
            self.transfers.insert(index, t);
            proof {
                assert(self.transfers@ =~= before_transfers.update(index as int, t));
                assert(t0 == pending0[done]);
            }
            match outcome {
                None => {
                    proof {
                        assert(self.pending()[0] == t@);
                    }
                    return None;
                },
                Some(Err(e)) => {
                    return Some(Err(e));
                },
                Some(Ok(bytes)) => {
                    self.results.push(bytes);
                    proof {
                        assert(self.results@.take(results0.len() as int) =~= before_results.take(results0.len() as int));
                        let pb = before_transfers.skip(index as int).map_values(|x: AsyncTransfer| x@);
                        assert(pb == pending0.skip(done));
                        assert(self.transfers@.skip(index + 1) =~= before_transfers.skip(index + 1));
                        assert(self.pending() =~= pb.skip(1));
                        assert(pb.skip(1) =~= pending0.skip(done + 1));
                        assert(self.pending() =~= pending0.skip(self.results@.len() - results0.len()));
                        assert(self.results@[results0.len() + done] == bytes);
                    }
                },
            }
        }
        let mut done: Vec<usize> = Vec::new();
        core::mem::swap(&mut done, &mut self.results);
        Some(Ok(done))
    }
}

/// Timeout around a pending operation. No clock is read: the first poll marks the start
/// at time zero and the operation's own result is passed on.
pub struct Timeout<F> {
    future: F,
    /// Timeout in milliseconds
    timeout_ms: u64,
    start_time: Option<u64>,
}

impl<F> Timeout<F> {
    /// The wrapped operation.
    pub closed spec fn spec_future(&self) -> F {
        self.future
    }

    /// The timeout in milliseconds.
    pub closed spec fn spec_timeout(&self) -> u64 {
        self.timeout_ms
    }

    /// When the first poll happened, if one did.
    pub closed spec fn spec_start(&self) -> Option<u64> {
        self.start_time
    }

    /// Create a new timeout future
    pub fn new(future: F, timeout_ms: u64) -> (r: Self)
        ensures
            r.spec_future() == future,
            r.spec_timeout() == timeout_ms,
            r.spec_start() is None,
    {
        Self { future, timeout_ms, start_time: None }
    }

    /// Get the timeout, in milliseconds
    pub fn timeout(&self) -> (r: u64)
        ensures
            r == self.spec_timeout(),
    {
        self.timeout_ms
    }

    /// Get the wrapped operation, for polling it
    pub fn future_mut(&mut self) -> (r: &mut F)
        ensures
            *r == old(self).spec_future(),
            final(self).spec_future() == *final(r),
            final(self).spec_timeout() == old(self).spec_timeout(),
            final(self).spec_start() == old(self).spec_start(),
    {
        &mut self.future
    }

    /// One poll, given what polling the wrapped operation gave (`None`: pending): the start
    /// is marked at the first poll, and a ready result is passed on as a success.
    pub fn on_poll<T>(&mut self, inner: Option<T>) -> (r: Option<Result<T, UsbDriverError>>)
        ensures
            final(self).spec_start() == (match old(self).spec_start() {
                Some(t) => Some(t),
                None => Some(0u64),
            }),
            final(self).spec_future() == old(self).spec_future(),
            final(self).spec_timeout() == old(self).spec_timeout(),
            r == match inner {
                Some(v) => Some(Ok::<T, UsbDriverError>(v)),
                None => None,
            },
    {
        if self.start_time.is_none() {
            self.start_time = Some(0);
        }
        match inner {
            Some(v) => Some(Ok(v)),
            None => None,
        }
    }
}

/// Extension trait for adding timeout to futures
pub trait TimeoutExt: core::future::Future + Sized {
    /// Add timeout to this future, in milliseconds
    fn timeout(self, timeout_ms: u64) -> (r: Timeout<Self>)
        ensures
            r.spec_future() == self,
            r.spec_timeout() == timeout_ms,
            r.spec_start() is None,
    {
        Timeout::new(self, timeout_ms)
    }
}

impl<F: core::future::Future> TimeoutExt for F {

}

/// USB events
#[derive(Debug, Clone, Copy, PartialEq, Eq, Structural)]
pub enum UsbEvent {
    DeviceConnected { address: u8 },
    DeviceDisconnected { address: u8 },
    TransferComplete { transfer_id: u32, status: TransferStatus },
    Error { error: UsbDriverError },
}

/// USB event stream: events come out in the order they went in.
pub struct UsbEventStream {
    events: VecDeque<UsbEvent>,
}

impl View for UsbEventStream {
    type V = Seq<UsbEvent>;

    closed spec fn view(&self) -> Seq<UsbEvent> {
        self.events@
    }
}

impl UsbEventStream {
    /// Create a new event stream
    pub fn new() -> (r: Self)
        ensures
            r@ == Seq::<UsbEvent>::empty(),
    {
        Self { events: VecDeque::new() }
    }

    /// Push an event
    pub fn push_event(&mut self, event: UsbEvent)
        ensures
            final(self)@ == old(self)@.push(event),
    {
        self.events.push_back(event);
    }

    /// Try to get next event (non-blocking): the oldest one
    pub fn try_next(&mut self) -> (r: Option<UsbEvent>)
        ensures
            old(self)@.len() == 0 ==> r is None && final(self)@ == old(self)@,
            old(self)@.len() > 0 ==> r == Some(old(self)@[0]) && final(self)@ == old(self)@.drop_first(),
    {
        self.events.pop_front()
    }
}

/// Events are handed out first in, first out: pushing onto an empty stream and taking gives
/// the event back and leaves the stream empty; taking from a stream that holds events gives
/// the oldest whatever is pushed after it.
pub proof fn lemma_event_fifo(s: Seq<UsbEvent>, e: UsbEvent)
    ensures
        s.len() == 0 ==> s.push(e)[0] == e && s.push(e).drop_first() =~= s,
        s.len() > 0 ==> s.push(e)[0] == s[0] && s.push(e).drop_first() =~= s.drop_first().push(e),
{
}

} // verus!
