use vstd::prelude::*;

use crate::ide::consts::{
    ATA_CMD_CACHE_FLUSH, ATA_CMD_READ_PIO, ATA_CMD_WRITE_PIO, ATA_REG_COMMAND, ATA_REG_HDDEVSEL,
    ATA_REG_LBA0, ATA_REG_LBA1, ATA_REG_LBA2, ATA_REG_SECCOUNT0, ATA_SR_BSY, ATA_SR_DF, ATA_SR_DRQ,
    ATA_SR_ERR, IDE_ATA, IDE_ATAPI,
};
use crate::ide::types::{empty_device, IDEChannelRegistors, IdeDevice};

pub mod consts;
pub mod types;

verus! {

/// IDE Error types for no-std environment
#[derive(Debug, Clone, Copy, PartialEq, Eq, Structural)]
pub enum IdeError {
    /// Drive not found or not present
    DriveNotFound,
    /// Drive fault detected
    DriveFault,
    /// Error bit set in status register
    StatusError,
    /// Data request not ready
    DataNotReady,
    /// LBA out of supported range
    LbaOutOfRange,
    /// Timeout waiting for drive
    Timeout,
    /// Invalid parameter
    InvalidParameter,
    /// Buffer size insufficient
    BufferTooSmall,
}

/// Result type for IDE operations
pub type IdeResult<T> = core::result::Result<T, IdeError>;

/// Polls of the status register before giving up
pub const POLL_TIMEOUT: u32 = 100000;

/// What one read of the status register means while waiting: nothing yet while busy;
/// otherwise done, or (with the full check) the error, fault or missing data request it shows.
pub open spec fn poll_outcome(status: u8, advanced_check: bool) -> Option<IdeResult<()>> {
    if status & ATA_SR_BSY != 0 {
        None
    } else if !advanced_check {
        Some(Ok(()))
    } else if status & ATA_SR_ERR != 0 {
        Some(Err(IdeError::StatusError))
    } else if status & ATA_SR_DF != 0 {
        Some(Err(IdeError::DriveFault))
    } else if status & ATA_SR_DRQ == 0 {
        Some(Err(IdeError::DataNotReady))
    } else {
        Some(Ok(()))
    }
}

/// Where a wait on the status register stands after one more read.
#[derive(Debug, Clone, Copy)]
pub enum PollStep {
    /// The wait is over, with this outcome
    Finished(IdeResult<()>),
    /// Still busy: read again, this many busy reads counted so far
    Again(u32),
}

/// Where a wait stands after one more status read, `polls` busy reads counted before it (see
/// `IdeState::poll_step`).
pub open spec fn poll_step_spec(status: u8, advanced_check: bool, polls: u32) -> PollStep {
    match poll_outcome(status, advanced_check) {
        Some(outcome) => PollStep::Finished(outcome),
        None => if polls >= POLL_TIMEOUT {
            PollStep::Finished(Err(IdeError::Timeout))
        } else {
            PollStep::Again((polls + 1) as u32)
        },
    }
}

/// How a wait that reads the statuses `reads` in turn, `polls` busy reads counted before the
/// first, ends: its outcome and how many reads it took; none while the reads run out first.
pub open spec fn wait_result(reads: Seq<u8>, advanced_check: bool, polls: u32) -> Option<(IdeResult<()>, nat)>
    decreases reads.len(),
{
    if reads.len() == 0 {
        None
    } else {
        match poll_step_spec(reads[0], advanced_check, polls) {
            PollStep::Finished(outcome) => Some((outcome, 1nat)),
            PollStep::Again(n) => match wait_result(reads.drop_first(), advanced_check, n) {
                Some((outcome, k)) => Some((outcome, k + 1)),
                None => None,
            },
        }
    }
}

/// A wait from `polls` counted busy reads ends at the first read that is not busy, with what
/// that read shows, if it comes within the limit; if instead every read up to the limit is busy,
/// it ends at the first read past the limit with a time-out. From a fresh wait (no reads
/// counted) that is read `POLL_TIMEOUT + 1`.
pub proof fn lemma_wait_result(reads: Seq<u8>, advanced_check: bool, polls: u32)
    requires
        polls <= POLL_TIMEOUT,
    ensures
        forall|j: int|
            0 <= j < reads.len() && j <= POLL_TIMEOUT - polls && reads[j] & ATA_SR_BSY == 0 && (forall|i: int|
                0 <= i < j ==> #[trigger] reads[i] & ATA_SR_BSY != 0) ==> wait_result(reads, advanced_check, polls)
                == Some((poll_outcome(reads[j], advanced_check)->0, (j + 1) as nat)),
        reads.len() > POLL_TIMEOUT - polls && (forall|i: int|
            0 <= i <= POLL_TIMEOUT - polls ==> #[trigger] reads[i] & ATA_SR_BSY != 0) ==> wait_result(
            reads,
            advanced_check,
            polls,
        ) == Some((Err::<(), IdeError>(IdeError::Timeout), (POLL_TIMEOUT - polls + 1) as nat)),
    decreases reads.len(),
{
    if reads.len() > 0 {
        let rest = reads.drop_first();
        if polls < POLL_TIMEOUT {
            lemma_wait_result(rest, advanced_check, (polls + 1) as u32);
        }
        assert forall|j: int|
            0 <= j < reads.len() && j <= POLL_TIMEOUT - polls && reads[j] & ATA_SR_BSY == 0 && (forall|i: int|
                0 <= i < j ==> #[trigger] reads[i] & ATA_SR_BSY != 0) implies wait_result(reads, advanced_check, polls)
                == Some((poll_outcome(reads[j], advanced_check)->0, (j + 1) as nat)) by {
            if j > 0 {
                assert(reads[0] & ATA_SR_BSY != 0);
                assert(rest[j - 1] == reads[j]);
                assert forall|i: int| 0 <= i < j - 1 implies #[trigger] rest[i] & ATA_SR_BSY != 0 by {
                    assert(rest[i] == reads[i + 1]);
                }
            }
        }
        if reads.len() > POLL_TIMEOUT - polls && (forall|i: int|
            0 <= i <= POLL_TIMEOUT - polls ==> #[trigger] reads[i] & ATA_SR_BSY != 0) {
            assert(reads[0] & ATA_SR_BSY != 0);
            if polls < POLL_TIMEOUT {
                assert forall|i: int| 0 <= i <= POLL_TIMEOUT - (polls + 1) implies #[trigger] rest[i] & ATA_SR_BSY != 0 by {
                    assert(rest[i] == reads[i + 1]);
                }
            }
        }
    }
}

/// Word `i` of IDENTIFY data, little-endian.
pub open spec fn ident_word(data: Seq<u8>, i: int) -> u16 {
    (data[2 * i] + data[2 * i + 1] * 256) as u16
}

fn read_word(data: &[u8], i: usize) -> (r: u16)
    requires
        2 * i + 1 < data@.len(),
    ensures
        r == ident_word(data@, i as int),
{
    assert(data@.len() == data.len());
    data[2 * i] as u16 + (data[2 * i + 1] as u16) * 256
}

/// The device entry that IDENTIFY data describes: for an ATA device its signature,
/// capabilities, command sets and size (the 48-bit count, cut to 32 bits, where the device has
/// 48-bit addressing and the 28-bit count is saturated), for an ATAPI device no size; the model
/// string in both, each word's bytes swapped, then a zero.
pub open spec fn identified(channel: u8, drive: u8, drive_type: u8, data: Seq<u8>, d: IdeDevice) -> bool {
    let sets = (ident_word(data, 82) + ident_word(data, 83) * 65536) as u32;
    let small = (ident_word(data, 60) + ident_word(data, 61) * 65536) as u32;
    let big = (ident_word(data, 100) + ident_word(data, 101) * 65536) as u32;
    &&& d.reserved == 1
    &&& d.channel == channel
    &&& d.drive == drive
    &&& d.drive_type == drive_type as u16
    &&& d.model@.len() == 41
    &&& d.model@[40] == 0
    &&& drive_type == IDE_ATA || drive_type == IDE_ATAPI ==> {
        &&& d.signature == ident_word(data, 0)
        &&& d.capabilities == ident_word(data, 49)
        &&& forall|k: int| 0 <= k < 40 ==> #[trigger] d.model@[k] == if k % 2 == 0 { data[55 + k] } else { data[53 + k] }
    }
    &&& drive_type == IDE_ATA ==> {
        &&& d.command_sets == sets
        &&& d.size == if sets & 0x0400_0000 != 0 && small == 0xFFFF_FFFF { big } else { small }
    }
    &&& drive_type != IDE_ATA ==> d.command_sets == 0 && d.size == 0
    &&& drive_type != IDE_ATA && drive_type != IDE_ATAPI ==> d.signature == 0 && d.capabilities == 0
        && (forall|i: int| 0 <= i < 40 ==> #[trigger] d.model@[i] == 0)
}

/// A prepared sector transfer: the channel and data port, the register writes that start it
/// (register, value), and the number of 16-bit words to move.
pub struct SectorCommand {
    pub channel: u8,
    pub bus: u16,
    pub registers: Vec<(u8, u8)>,
    pub words: u32,
}

/// The drive/head register value: LBA mode, the drive bit, and the top LBA bits.
pub open spec fn drive_select(slavebit: u8, head: u8) -> u8 {
    0xE0u8 | (slavebit << 4u8) | head
}

/// The register writes that start a PIO transfer of `numsects` sectors at `lba`.
pub open spec fn transfer_registers(slavebit: u8, head: u8, numsects: u8, lba: u32, command: u8) -> Seq<(u8, u8)> {
    seq![
        (ATA_REG_HDDEVSEL, drive_select(slavebit, head)),
        (ATA_REG_SECCOUNT0, numsects),
        (ATA_REG_LBA0, (lba % 256) as u8),
        (ATA_REG_LBA1, ((lba / 256) % 256) as u8),
        (ATA_REG_LBA2, ((lba / 0x1_0000) % 256) as u8),
        (ATA_REG_COMMAND, command),
    ]
}

/// The IDE channels and the four drives on them.
pub struct IdeState {
    channels: [IDEChannelRegistors; 2],
    devices: [IdeDevice; 4],
}

impl IdeState {
    /// The two channels.
    pub closed spec fn channel_list(&self) -> Seq<IDEChannelRegistors> {
        self.channels@
    }

    /// The four drive entries: primary master, primary slave, secondary master, secondary slave.
    pub closed spec fn device_list(&self) -> Seq<IdeDevice> {
        self.devices@
    }

    /// The channels sit at the legacy ports, and every drive entry names one of them.
    pub closed spec fn wf(&self) -> bool {
        &&& self.channels@[0].base == 0x1F0 && self.channels@[0].ctrl == 0x3F6
        &&& self.channels@[1].base == 0x170 && self.channels@[1].ctrl == 0x376
        &&& forall|i: int| 0 <= i < 4 ==> (#[trigger] self.devices@[i]).channel < 2
    }

    /// A well-formed state has four drive entries, each on channel 0 or 1.
    pub proof fn lemma_wf_devices(&self)
        requires
            self.wf(),
        ensures
            self.device_list().len() == 4,
            forall|i: int| 0 <= i < 4 ==> (#[trigger] self.device_list()[i]).channel < 2,
    {
    }

    /// The legacy channels with interrupts as they come, and no drives.
    pub fn new() -> (r: Self)
        ensures
            r.wf(),
            r.channel_list()[0] == (IDEChannelRegistors { base: 0x1F0, ctrl: 0x3F6, bmide: 0, n_ien: 0 }),
            r.channel_list()[1] == (IDEChannelRegistors { base: 0x170, ctrl: 0x376, bmide: 0, n_ien: 0 }),
            r.device_list().len() == 4,
            forall|i: int| 0 <= i < 4 ==> empty_device(#[trigger] r.device_list()[i]),
    {
        let d = IdeDevice::new();
        IdeState {
            channels: [
                IDEChannelRegistors { base: 0x1F0, ctrl: 0x3F6, bmide: 0, n_ien: 0 },
                IDEChannelRegistors { base: 0x170, ctrl: 0x376, bmide: 0, n_ien: 0 },
            ],
            devices: [d, d, d, d],
        }
    }

    /// The first steps of initialization: interrupts off on both channels, every drive entry
    /// emptied.
    pub fn reset_devices(&mut self)
        requires
            old(self).wf(),
        ensures
            final(self).wf(),
            forall|c: int| 0 <= c < 2 ==> #[trigger] final(self).channel_list()[c] == (IDEChannelRegistors {
                n_ien: 0x02,
                ..old(self).channel_list()[c]
            }),
            final(self).device_list().len() == 4,
            forall|i: int| 0 <= i < 4 ==> empty_device(#[trigger] final(self).device_list()[i]),
    {
        let c0 = IDEChannelRegistors { n_ien: 0x02, ..self.channels[0] };
        let c1 = IDEChannelRegistors { n_ien: 0x02, ..self.channels[1] };
        self.channels = [c0, c1];
        let d = IdeDevice::new();
        self.devices = [d, d, d, d];
    }

    /// The I/O port of register `reg` of a channel: task-file registers from the base, control
    /// registers (8 and up) from the control port.
    pub fn register_port(&self, channel: u8, reg: u8) -> (r: u16)
        requires
            self.wf(),
            channel < 2,
        ensures
            r == if reg < 8 {
                self.channel_list()[channel as int].base + reg
            } else {
                self.channel_list()[channel as int].ctrl + (reg - 8)
            },
    {
        let ch = self.channels[channel as usize];
        if reg < 0x08 {
            ch.base + reg as u16
        } else {
            ch.ctrl + (reg - 0x08) as u16
        }
    }

    /// What one read of the status register means while waiting: nothing yet while busy;
    /// otherwise done, or (with the full check) the error, fault or missing data request it
    /// shows.
    pub fn poll_status(status: u8, advanced_check: bool) -> (r: Option<IdeResult<()>>)
        ensures
            r == poll_outcome(status, advanced_check),
            status & ATA_SR_BSY != 0 ==> r is None,
            status & ATA_SR_BSY == 0 && !advanced_check ==> r == Some(Ok::<(), IdeError>(())),
            status & ATA_SR_BSY == 0 && advanced_check ==> r == Some(
                if status & ATA_SR_ERR != 0 {
                    Err::<(), IdeError>(IdeError::StatusError)
                } else if status & ATA_SR_DF != 0 {
                    Err::<(), IdeError>(IdeError::DriveFault)
                } else if status & ATA_SR_DRQ == 0 {
                    Err::<(), IdeError>(IdeError::DataNotReady)
                } else {
                    Ok::<(), IdeError>(())
                },
            ),
    {
        if (status & ATA_SR_BSY) != 0 {
            return None;
        }
        if advanced_check {
            if (status & ATA_SR_ERR) != 0 {
                return Some(Err(IdeError::StatusError));
            }
            if (status & ATA_SR_DF) != 0 {
                return Some(Err(IdeError::DriveFault));
            }
            if (status & ATA_SR_DRQ) == 0 {
                return Some(Err(IdeError::DataNotReady));
            }
        }
        Some(Ok(()))
    }

    /// One read of the status register in a wait, after `polls` busy reads: the outcome once
    /// the drive is no longer busy; a time-out when this busy read is the one past the limit
    /// (busy on reads 1 to `POLL_TIMEOUT + 1`); else read again. Without the full check this
    /// is the wait for BSY to clear.
    pub fn poll_step(status: u8, advanced_check: bool, polls: u32) -> (r: PollStep)
        ensures
            r == poll_step_spec(status, advanced_check, polls),
    {
        match Self::poll_status(status, advanced_check) {
            Some(outcome) => PollStep::Finished(outcome),
            None => if polls >= POLL_TIMEOUT {
                PollStep::Finished(Err(IdeError::Timeout))
            } else {
                PollStep::Again(polls + 1)
            },
        }
    }

    /// The drive/head value that selects a drive for IDENTIFY.
    pub fn identify_select(drive: u8) -> (r: u8)
        ensures
            r == 0xA0u8 | (drive << 4u8),
    {
        0xA0 | (drive << 4)
    }

    /// The device type that the error register shows after IDENTIFY: a non-zero value marks
    /// an ATAPI device.
    pub fn identify_type(err: u8) -> (r: u8)
        ensures
            r == if err != 0 { IDE_ATAPI } else { IDE_ATA },
    {
        if err != 0 {
            IDE_ATAPI
        } else {
            IDE_ATA
        }
    }

    /// A drive did not answer IDENTIFY: its entry is marked empty.
    pub fn identify_absent(&mut self, channel: u8, drive: u8) -> (r: IdeResult<()>)
        requires
            old(self).wf(),
            channel < 2,
            drive < 2,
        ensures
            final(self).wf(),
            r == Err::<(), IdeError>(IdeError::DriveNotFound),
            final(self).channel_list() == old(self).channel_list(),
            final(self).device_list().len() == 4,
            final(self).device_list()[channel * 2 + drive].reserved == 0,
            final(self).device_list() == old(self).device_list().update(
                channel * 2 + drive,
                IdeDevice { reserved: 0, ..old(self).device_list()[channel * 2 + drive] },
            ),
    {
        let idx = (channel as usize) * 2 + drive as usize;
        let d = IdeDevice { reserved: 0, ..self.devices[idx] };
        self.devices[idx] = d;
        Err(IdeError::DriveNotFound)
    }

    /// Record what IDENTIFY returned for a drive (at least 512 bytes of data).
    pub fn record_identify(&mut self, channel: u8, drive: u8, drive_type: u8, data: &[u8])
        requires
            old(self).wf(),
            channel < 2,
            drive < 2,
            data@.len() >= 512,
        ensures
            final(self).wf(),
            final(self).channel_list() == old(self).channel_list(),
            final(self).device_list().len() == 4,
            forall|i: int| 0 <= i < 4 && i != channel * 2 + drive ==> #[trigger] final(self).device_list()[i]
                == old(self).device_list()[i],
            identified(channel, drive, drive_type, data@, final(self).device_list()[channel * 2 + drive]),
    {
        let idx = (channel as usize) * 2 + drive as usize;
        let mut dev = IdeDevice::new();
        dev.reserved = 1;
        dev.channel = channel;
        dev.drive = drive;
        dev.drive_type = drive_type as u16;
        if drive_type == IDE_ATA || drive_type == IDE_ATAPI {
            dev.signature = read_word(data, 0);
            dev.capabilities = read_word(data, 49);
            if drive_type == IDE_ATA {
                let cmd_set_low = read_word(data, 82) as u32;
                let cmd_set_high = read_word(data, 83) as u32;
                dev.command_sets = cmd_set_low + cmd_set_high * 65536;
                let size_low = read_word(data, 60) as u32;
                let size_high = read_word(data, 61) as u32;
                let sectors_28bit = size_low + size_high * 65536;
                let supports_48bit = (dev.command_sets & 0x0400_0000) != 0;
                if supports_48bit && sectors_28bit == 0xFFFF_FFFF {
                    let lba48_0 = read_word(data, 100) as u32;
                    let lba48_1 = read_word(data, 101) as u32;
                    dev.size = lba48_0 + lba48_1 * 65536;
                } else {
                    dev.size = sectors_28bit;
                }
            }
            let mut model = dev.model;
            let mut i: usize = 0;
            while i < 20
                invariant
                    i <= 20,
                    data@.len() >= 512,
                    model@.len() == 41,
                    forall|k: int| 0 <= k < 2 * i ==> #[trigger] model@[k] == if k % 2 == 0 { data@[55 + k] } else { data@[53 + k] },
                    forall|k: int| 2 * i <= k <= 40 ==> #[trigger] model@[k] == 0,
                decreases 20 - i,
            {
                let word = read_word(data, 27 + i);
                model[i * 2] = (word / 256) as u8;
                model[i * 2 + 1] = (word % 256) as u8;
                i = i + 1;
            }
            model[40] = 0;
            dev.model = model;
        }
        self.devices[idx] = dev;
    }

    /// Prepare reading `numsects` sectors at `lba` from a drive into a buffer of `buf_len`
    /// bytes: refused for a drive number past 3, an empty drive, a buffer too small, and an LBA
    /// from 2^28 on, which 28-bit addressing cannot reach.
    pub fn read_sectors_setup(&self, drive: u8, numsects: u8, lba: u32, buf_len: usize) -> (r: IdeResult<SectorCommand>)
        requires
            self.wf(),
        ensures
            drive > 3 ==> r == Err::<SectorCommand, IdeError>(IdeError::InvalidParameter),
            drive <= 3 && self.device_list()[drive as int].reserved == 0 ==> r == Err::<SectorCommand, IdeError>(IdeError::DriveNotFound),
            drive <= 3 && self.device_list()[drive as int].reserved != 0 && buf_len < numsects * 512
                ==> r == Err::<SectorCommand, IdeError>(IdeError::BufferTooSmall),
            drive <= 3 && self.device_list()[drive as int].reserved != 0 && buf_len >= numsects * 512
                && lba >= 0x1000_0000 ==> r == Err::<SectorCommand, IdeError>(IdeError::LbaOutOfRange),
            r is Ok <==> drive <= 3 && self.device_list()[drive as int].reserved != 0 && buf_len >= numsects * 512
                && lba < 0x1000_0000,
            r matches Ok(c) ==> ({
                let d = self.device_list()[drive as int];
                &&& c.channel == d.channel
                &&& c.bus == self.channel_list()[d.channel as int].base
                &&& c.registers@ == transfer_registers(d.drive, ((lba / 0x100_0000) % 16) as u8, numsects, lba, ATA_CMD_READ_PIO)
                &&& c.words == numsects * 256
            }),
    {
        if drive > 3 {
            return Err(IdeError::InvalidParameter);
        }
        let device = self.devices[drive as usize];
        if device.reserved == 0 {
            return Err(IdeError::DriveNotFound);
        }
        let required_size = numsects as usize * 512;
        if buf_len < required_size {
            return Err(IdeError::BufferTooSmall);
        }
        if lba >= 0x1000_0000 {
            return Err(IdeError::LbaOutOfRange);
        }
        assert(self.device_list()[drive as int].channel < 2);
        let head = ((lba / 0x100_0000) % 16) as u8;
        Ok(Self::transfer_command(self.channels[device.channel as usize].base, device, head, numsects, lba, ATA_CMD_READ_PIO))
    }

    /// Prepare writing `numsects` sectors at `lba` to a drive from a buffer of `buf_len` bytes:
    /// refused as for reads, and for LBAs from 2^28 on.
    pub fn write_sectors_setup(&self, drive: u8, numsects: u8, lba: u32, buf_len: usize) -> (r: IdeResult<SectorCommand>)
        requires
            self.wf(),
        ensures
            drive > 3 ==> r == Err::<SectorCommand, IdeError>(IdeError::InvalidParameter),
            drive <= 3 && self.device_list()[drive as int].reserved == 0 ==> r == Err::<SectorCommand, IdeError>(IdeError::DriveNotFound),
            drive <= 3 && self.device_list()[drive as int].reserved != 0 && buf_len < numsects * 512
                ==> r == Err::<SectorCommand, IdeError>(IdeError::BufferTooSmall),
            drive <= 3 && self.device_list()[drive as int].reserved != 0 && buf_len >= numsects * 512
                && lba >= 0x1000_0000 ==> r == Err::<SectorCommand, IdeError>(IdeError::LbaOutOfRange),
            r is Ok <==> drive <= 3 && self.device_list()[drive as int].reserved != 0 && buf_len >= numsects * 512
                && lba < 0x1000_0000,
            r matches Ok(c) ==> ({
                let d = self.device_list()[drive as int];
                &&& c.channel == d.channel
                &&& c.bus == self.channel_list()[d.channel as int].base
                &&& c.registers@ == transfer_registers(d.drive, ((lba / 0x100_0000) % 16) as u8, numsects, lba, ATA_CMD_WRITE_PIO)
                &&& c.words == numsects * 256
            }),
    {
        if drive > 3 {
            return Err(IdeError::InvalidParameter);
        }
        let device = self.devices[drive as usize];
        if device.reserved == 0 {
            return Err(IdeError::DriveNotFound);
        }
        let required_size = numsects as usize * 512;
        if buf_len < required_size {
            return Err(IdeError::BufferTooSmall);
        }
        if lba >= 0x1000_0000 {
            return Err(IdeError::LbaOutOfRange);
        }
        assert(self.device_list()[drive as int].channel < 2);
        let head = ((lba / 0x100_0000) % 16) as u8;
        Ok(Self::transfer_command(self.channels[device.channel as usize].base, device, head, numsects, lba, ATA_CMD_WRITE_PIO))
    }

    /// The command that flushes the drive's write cache after a write.
    pub fn cache_flush_register() -> (r: (u8, u8))
        ensures
            r == (ATA_REG_COMMAND, ATA_CMD_CACHE_FLUSH),
    {
        (ATA_REG_COMMAND, ATA_CMD_CACHE_FLUSH)
    }

    fn transfer_command(bus: u16, device: IdeDevice, head: u8, numsects: u8, lba: u32, command: u8) -> (r: SectorCommand)
        ensures
            r.channel == device.channel,
            r.bus == bus,
            r.registers@ == transfer_registers(device.drive, head, numsects, lba, command),
            r.words == numsects * 256,
    {
        let mut registers: Vec<(u8, u8)> = Vec::new();
        registers.push((ATA_REG_HDDEVSEL, 0xE0 | (device.drive << 4) | head));
        registers.push((ATA_REG_SECCOUNT0, numsects));
        registers.push((ATA_REG_LBA0, (lba % 256) as u8));
        registers.push((ATA_REG_LBA1, ((lba / 256) % 256) as u8));
        registers.push((ATA_REG_LBA2, ((lba / 0x1_0000) % 256) as u8));
        registers.push((ATA_REG_COMMAND, command));
        proof {
            assert(registers@ =~= transfer_registers(device.drive, head, numsects, lba, command));
        }
        SectorCommand { channel: device.channel, bus, registers, words: (numsects as u32) * 256 }
    }

    /// Fast drive size retrieval: sectors times 512 for an ATA drive, 0 for another type.
    pub fn return_drive_size_bytes(&self, drive: u8) -> (r: IdeResult<u64>)
        ensures
            drive > 3 || self.device_list()[drive as int].reserved == 0 ==> r == Err::<u64, IdeError>(IdeError::DriveNotFound),
            drive <= 3 && self.device_list()[drive as int].reserved != 0 ==> r == Ok::<u64, IdeError>(
                if self.device_list()[drive as int].drive_type as u8 == IDE_ATA {
                    (self.device_list()[drive as int].size * 512) as u64
                } else {
                    0
                },
            ),
    {
        if drive > 3 || self.devices[drive as usize].reserved == 0 {
            return Err(IdeError::DriveNotFound);
        }
        let device = self.devices[drive as usize];
        if device.drive_type as u8 == IDE_ATA {
            Ok(device.size as u64 * 512)
        } else {
            Ok(0)
        }
    }
}

} // verus!
