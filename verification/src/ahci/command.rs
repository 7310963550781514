use vstd::prelude::*;

use crate::ahci::consts::{
    ATA_CMD_IDENTIFY, ATA_CMD_READ_DMA, ATA_CMD_READ_DMA_EXT, ATA_CMD_WRITE_DMA, ATA_CMD_WRITE_DMA_EXT,
    FIS_TYPE_REG_H2D, FisRegH2D, HbaPrdtEntry, HBA_CMD_SLOT_MAX, PRDT_MAX_BYTES,
};
use crate::ahci::error::{AhciError, AhciResult};

verus! {

/// A DMA buffer, named by the number the memory manager gave it.
#[derive(Debug, Clone, Copy, PartialEq, Eq, Structural)]
pub struct BufferId(pub u64);

/// ATA command representation
///
/// Encapsulates all information needed to execute an ATA command
/// including the command code, parameters, and associated data buffers.
#[derive(Debug, Clone, Copy, PartialEq, Eq, Structural)]
pub struct AtaCommand {
    /// ATA command code
    pub command: u8,
    /// Features register (low 8 bits)
    pub features: u8,
    /// Features register (high 8 bits, for 48-bit commands)
    pub features_ext: u8,
    /// Sector count (low 8 bits)
    pub count: u8,
    /// Sector count (high 8 bits, for 48-bit commands)
    pub count_ext: u8,
    /// LBA address (48-bit)
    pub lba: u64,
    /// Device register
    pub device: u8,
    /// Command type
    pub command_type: CommandType,
    /// Associated DMA buffer for data transfer
    pub buffer: Option<BufferId>,
    /// Transfer direction
    pub direction: TransferDirection,
    /// Expected transfer size in bytes
    pub transfer_size: u32,
    /// Command timeout in milliseconds
    pub timeout_ms: u32,
}

/// Command type classification
#[derive(Debug, Clone, Copy, PartialEq, Eq, Structural)]
pub enum CommandType {
    /// Non-data command (no data transfer)
    NonData,
    /// PIO data command (CPU-driven data transfer)
    PioData,
    /// DMA data command (DMA-driven data transfer)
    DmaData,
    /// ATAPI packet command
    Packet,
}

/// Data transfer direction
#[derive(Debug, Clone, Copy, PartialEq, Eq, Structural)]
pub enum TransferDirection {
    /// No data transfer
    NoTransfer,
    /// Data transfer from device to host
    DeviceToHost,
    /// Data transfer from host to device
    HostToDevice,
}

/// Command execution result
#[derive(Debug, Clone, Copy, PartialEq, Eq, Structural)]
pub enum CommandResult {
    /// Command completed successfully
    Success,
    /// Command failed with error code
    Error(u8),
    /// Command timed out
    Timeout,
    /// Command was aborted
    Aborted,
}

impl CommandResult {
    /// Check if command was successful
    pub fn is_success(&self) -> (r: bool)
        ensures
            r == (*self == CommandResult::Success),
    {
        match self {
            CommandResult::Success => true,
            _ => false,
        }
    }

    /// Get error code if available
    pub fn error_code(&self) -> (r: Option<u8>)
        ensures
            r == match *self {
                CommandResult::Error(code) => Some(code),
                _ => None,
            },
    {
        match self {
            CommandResult::Error(code) => Some(*code),
            _ => None,
        }
    }
}

/// Byte `k` (0 = lowest) of a 48-bit LBA.
pub open spec fn lba_byte(lba: u64, k: int) -> u8 {
    if k == 0 {
        (lba % 0x100) as u8
    } else if k == 1 {
        ((lba / 0x100) % 0x100) as u8
    } else if k == 2 {
        ((lba / 0x1_0000) % 0x100) as u8
    } else if k == 3 {
        ((lba / 0x100_0000) % 0x100) as u8
    } else if k == 4 {
        ((lba / 0x1_0000_0000) % 0x100) as u8
    } else {
        ((lba / 0x100_0000_0000) % 0x100) as u8
    }
}

/// The device register of a 28-bit command: LBA mode, master, and LBA bits 24..27.
pub open spec fn device_28(lba: u32) -> u8 {
    (0xE0 + (lba / 0x100_0000) % 16) as u8
}

/// The shift-and-mask forms used in the code compute the same bytes as division.
pub proof fn lemma_command_bits(lba: u32)
    by (bit_vector)
    ensures
        0xE0u8 | (((lba >> 24u32) & 0x0Fu32) as u8) == 0xE0 + (lba / 0x100_0000) % 16,
        0x80u8 | 0x80u8 == 0x80u8,
{
}

/// A command with every register at its resting value and the given parts.
pub open spec fn ata_command(
    command: u8,
    features: u8,
    count: u8,
    count_ext: u8,
    lba: u64,
    device: u8,
    command_type: CommandType,
    buffer: Option<BufferId>,
    direction: TransferDirection,
    transfer_size: u32,
    timeout_ms: u32,
) -> AtaCommand {
    AtaCommand {
        command,
        features,
        features_ext: 0,
        count,
        count_ext,
        lba,
        device,
        command_type,
        buffer,
        direction,
        transfer_size,
        timeout_ms,
    }
}

impl AtaCommand {
    /// The IDENTIFY DEVICE command (see `identify`).
    pub open spec fn identify_spec(buffer: BufferId) -> AtaCommand {
        ata_command(ATA_CMD_IDENTIFY, 0, 0, 0, 0, 0xE0, CommandType::PioData, Some(buffer),
            TransferDirection::DeviceToHost, 512, 3000)
    }

    /// The FLUSH CACHE command (see `flush_cache`).
    pub open spec fn flush_cache_spec() -> AtaCommand {
        ata_command(0xE7, 0, 0, 0, 0, 0xE0, CommandType::NonData, None, TransferDirection::NoTransfer, 0, 30000)
    }

    /// The READ DMA command for a range (see `read_dma`).
    pub open spec fn read_dma_spec(lba: u32, sectors: u8, buffer: BufferId) -> AtaCommand {
        ata_command(ATA_CMD_READ_DMA, 0, sectors, 0, lba as u64, device_28(lba), CommandType::DmaData,
            Some(buffer), TransferDirection::DeviceToHost, (sectors * 512) as u32, 10000)
    }

    /// The WRITE DMA command for a range (see `write_dma`).
    pub open spec fn write_dma_spec(lba: u32, sectors: u8, buffer: BufferId) -> AtaCommand {
        ata_command(ATA_CMD_WRITE_DMA, 0, sectors, 0, lba as u64, device_28(lba), CommandType::DmaData,
            Some(buffer), TransferDirection::HostToDevice, (sectors * 512) as u32, 10000)
    }

    /// The READ DMA EXT command for a range (see `read_dma_ext`).
    pub open spec fn read_dma_ext_spec(lba: u64, sectors: u32, buffer: BufferId) -> AtaCommand {
        let n = if sectors > 65535 { 65535 } else { sectors };
        ata_command(ATA_CMD_READ_DMA_EXT, 0, (n % 256) as u8, (n / 256) as u8, lba, 0x40,
            CommandType::DmaData, Some(buffer), TransferDirection::DeviceToHost, (n * 512) as u32, 15000)
    }

    /// The WRITE DMA EXT command for a range (see `write_dma_ext`).
    pub open spec fn write_dma_ext_spec(lba: u64, sectors: u32, buffer: BufferId) -> AtaCommand {
        let n = if sectors > 65535 { 65535 } else { sectors };
        ata_command(ATA_CMD_WRITE_DMA_EXT, 0, (n % 256) as u8, (n / 256) as u8, lba, 0x40,
            CommandType::DmaData, Some(buffer), TransferDirection::HostToDevice, (n * 512) as u32, 15000)
    }

    /// Create a new ATA command
    pub fn new(command: u8) -> (r: Self)
        ensures
            r == ata_command(command, 0, 0, 0, 0, 0xE0, CommandType::NonData, None, TransferDirection::NoTransfer, 0, 5000),
    {
        Self {
            command,
            features: 0,
            features_ext: 0,
            count: 0,
            count_ext: 0,
            lba: 0,
            device: 0xE0,  // LBA mode, master drive
            command_type: CommandType::NonData,
            buffer: None,
            direction: TransferDirection::NoTransfer,
            transfer_size: 0,
            timeout_ms: 5000,  // 5 second default timeout
        }
    }

    /// Create IDENTIFY DEVICE command
    pub fn identify(buffer: BufferId) -> (r: Self)
        ensures
            r == ata_command(ATA_CMD_IDENTIFY, 0, 0, 0, 0, 0xE0, CommandType::PioData, Some(buffer),
                TransferDirection::DeviceToHost, 512, 3000),
    {
        Self {
            command: ATA_CMD_IDENTIFY,
            features: 0,
            features_ext: 0,
            count: 0,
            count_ext: 0,
            lba: 0,
            device: 0xE0,
            command_type: CommandType::PioData,
            buffer: Some(buffer),
            direction: TransferDirection::DeviceToHost,
            transfer_size: 512,
            timeout_ms: 3000,
        }
    }

    /// Create READ DMA command (28-bit LBA)
    pub fn read_dma(lba: u32, sectors: u8, buffer: BufferId) -> (r: Self)
        ensures
            r == ata_command(ATA_CMD_READ_DMA, 0, sectors, 0, lba as u64, device_28(lba),
                CommandType::DmaData, Some(buffer), TransferDirection::DeviceToHost, (sectors * 512) as u32, 10000),
    {
        proof {
            lemma_command_bits(lba);
        }
        Self {
            command: ATA_CMD_READ_DMA,
            features: 0,
            features_ext: 0,
            count: sectors,
            count_ext: 0,
            lba: lba as u64,
            device: 0xE0 | ((lba >> 24) & 0x0F) as u8,
            command_type: CommandType::DmaData,
            buffer: Some(buffer),
            direction: TransferDirection::DeviceToHost,
            transfer_size: sectors as u32 * 512,
            timeout_ms: 10000,
        }
    }

    /// Create READ DMA EXT command (48-bit LBA); at most 65535 sectors are asked for.
    pub fn read_dma_ext(lba: u64, sectors: u32, buffer: BufferId) -> (r: Self)
        ensures
            ({
                let n = if sectors > 65535 { 65535 } else { sectors };
                r == ata_command(ATA_CMD_READ_DMA_EXT, 0, (n % 256) as u8, (n / 256) as u8, lba, 0x40,
                    CommandType::DmaData, Some(buffer), TransferDirection::DeviceToHost, (n * 512) as u32, 15000)
            }),
    {
        let sector_count = if sectors > 65535 { 65535 } else { sectors };
        Self {
            command: ATA_CMD_READ_DMA_EXT,
            features: 0,
            features_ext: 0,
            count: (sector_count % 256) as u8,
            count_ext: ((sector_count / 256) % 256) as u8,
            lba,
            device: 0x40,  // LBA48 mode
            command_type: CommandType::DmaData,
            buffer: Some(buffer),
            direction: TransferDirection::DeviceToHost,
            transfer_size: sector_count * 512,
            timeout_ms: 15000,
        }
    }

    /// Create WRITE DMA command (28-bit LBA)
    pub fn write_dma(lba: u32, sectors: u8, buffer: BufferId) -> (r: Self)
        ensures
            r == ata_command(ATA_CMD_WRITE_DMA, 0, sectors, 0, lba as u64, device_28(lba),
                CommandType::DmaData, Some(buffer), TransferDirection::HostToDevice, (sectors * 512) as u32, 10000),
    {
        proof {
            lemma_command_bits(lba);
        }
        Self {
            command: ATA_CMD_WRITE_DMA,
            features: 0,
            features_ext: 0,
            count: sectors,
            count_ext: 0,
            lba: lba as u64,
            device: 0xE0 | ((lba >> 24) & 0x0F) as u8,
            command_type: CommandType::DmaData,
            buffer: Some(buffer),
            direction: TransferDirection::HostToDevice,
            transfer_size: sectors as u32 * 512,
            timeout_ms: 10000,
        }
    }

    /// Create WRITE DMA EXT command (48-bit LBA); at most 65535 sectors are asked for.
    pub fn write_dma_ext(lba: u64, sectors: u32, buffer: BufferId) -> (r: Self)
        ensures
            ({
                let n = if sectors > 65535 { 65535 } else { sectors };
                r == ata_command(ATA_CMD_WRITE_DMA_EXT, 0, (n % 256) as u8, (n / 256) as u8, lba, 0x40,
                    CommandType::DmaData, Some(buffer), TransferDirection::HostToDevice, (n * 512) as u32, 15000)
            }),
    {
        let sector_count = if sectors > 65535 { 65535 } else { sectors };
        Self {
            command: ATA_CMD_WRITE_DMA_EXT,
            features: 0,
            features_ext: 0,
            count: (sector_count % 256) as u8,
            count_ext: ((sector_count / 256) % 256) as u8,
            lba,
            device: 0x40,  // LBA48 mode
            command_type: CommandType::DmaData,
            buffer: Some(buffer),
            direction: TransferDirection::HostToDevice,
            transfer_size: sector_count * 512,
            timeout_ms: 15000,
        }
    }

    /// Create FLUSH CACHE command
    pub fn flush_cache() -> (r: Self)
        ensures
            r == ata_command(0xE7, 0, 0, 0, 0, 0xE0, CommandType::NonData, None, TransferDirection::NoTransfer, 0, 30000),
    {
        Self {
            command: 0xE7,  // FLUSH CACHE
            features: 0,
            features_ext: 0,
            count: 0,
            count_ext: 0,
            lba: 0,
            device: 0xE0,
            command_type: CommandType::NonData,
            buffer: None,
            direction: TransferDirection::NoTransfer,
            transfer_size: 0,
            timeout_ms: 30000,  // Flush can take a while
        }
    }

    /// Create FLUSH CACHE EXT command
    pub fn flush_cache_ext() -> (r: Self)
        ensures
            r == ata_command(0xEA, 0, 0, 0, 0, 0x40, CommandType::NonData, None, TransferDirection::NoTransfer, 0, 30000),
    {
        Self {
            command: 0xEA,  // FLUSH CACHE EXT
            features: 0,
            features_ext: 0,
            count: 0,
            count_ext: 0,
            lba: 0,
            device: 0x40,
            command_type: CommandType::NonData,
            buffer: None,
            direction: TransferDirection::NoTransfer,
            transfer_size: 0,
            timeout_ms: 30000,
        }
    }

    /// Create STANDBY IMMEDIATE command
    pub fn standby_immediate() -> (r: Self)
        ensures
            r == ata_command(0xE0, 0, 0, 0, 0, 0xE0, CommandType::NonData, None, TransferDirection::NoTransfer, 0, 5000),
    {
        Self {
            command: 0xE0,  // STANDBY IMMEDIATE
            features: 0,
            features_ext: 0,
            count: 0,
            count_ext: 0,
            lba: 0,
            device: 0xE0,
            command_type: CommandType::NonData,
            buffer: None,
            direction: TransferDirection::NoTransfer,
            transfer_size: 0,
            timeout_ms: 5000,
        }
    }

    /// Create SET FEATURES command
    pub fn set_features(feature: u8, count: u8) -> (r: Self)
        ensures
            r == ata_command(0xEF, feature, count, 0, 0, 0xE0, CommandType::NonData, None, TransferDirection::NoTransfer, 0, 5000),
    {
        Self {
            command: 0xEF,  // SET FEATURES
            features: feature,
            features_ext: 0,
            count,
            count_ext: 0,
            lba: 0,
            device: 0xE0,
            command_type: CommandType::NonData,
            buffer: None,
            direction: TransferDirection::NoTransfer,
            transfer_size: 0,
            timeout_ms: 5000,
        }
    }

    /// Get the number of PRDT entries needed for this command: one per 64 KiB started, none
    /// for a command without data.
    pub fn get_prdt_count(&self) -> (r: usize)
        requires
            self.transfer_size + 65535 <= u32::MAX,
        ensures
            r == (self.transfer_size + 65535) / 65536,
    {
        if self.transfer_size == 0 {
            return 0;
        }
        let entries = (self.transfer_size + 65535) / 65536;
        if entries as usize > 1 {
            entries as usize
        } else {
            1
        }
    }

    /// Check if this is a 48-bit LBA command
    pub fn is_lba48(&self) -> (r: bool)
        ensures
            r == (self.command == ATA_CMD_READ_DMA_EXT || self.command == ATA_CMD_WRITE_DMA_EXT
                || self.command == 0xEA),
    {
        self.command == ATA_CMD_READ_DMA_EXT || self.command == ATA_CMD_WRITE_DMA_EXT || self.command == 0xEA
    }

    /// Build Command FIS (Frame Information Structure)
    pub fn build_fis(&self) -> (r: FisRegH2D)
        ensures
            r.fis_type == FIS_TYPE_REG_H2D,
            r.pmport_c == 0x80,
            r.command == self.command,
            r.featurel == self.features,
            r.lba0 == lba_byte(self.lba, 0),
            r.lba1 == lba_byte(self.lba, 1),
            r.lba2 == lba_byte(self.lba, 2),
            r.device == self.device,
            r.lba3 == lba_byte(self.lba, 3),
            r.lba4 == lba_byte(self.lba, 4),
            r.lba5 == lba_byte(self.lba, 5),
            r.featureh == self.features_ext,
            r.countl == self.count,
            r.counth == self.count_ext,
            r.icc == 0,
            r.control == 0,
            r.rsv@ == seq![0u8, 0u8, 0u8, 0u8],
    {
        let mut fis = FisRegH2D {
            fis_type: FIS_TYPE_REG_H2D,
            pmport_c: 0x80,  // Command bit set
            command: self.command,
            featurel: self.features,
            lba0: (self.lba % 0x100) as u8,
            lba1: ((self.lba / 0x100) % 0x100) as u8,
            lba2: ((self.lba / 0x1_0000) % 0x100) as u8,
            device: self.device,
            lba3: ((self.lba / 0x100_0000) % 0x100) as u8,
            lba4: ((self.lba / 0x1_0000_0000) % 0x100) as u8,
            lba5: ((self.lba / 0x100_0000_0000) % 0x100) as u8,
            featureh: self.features_ext,
            countl: self.count,
            counth: self.count_ext,
            icc: 0,
            control: 0,
            rsv: [0, 0, 0, 0],
        };
        proof {
            lemma_command_bits(0);
        }
        fis.set_cmd();
        proof {
            assert(fis.rsv@ =~= seq![0u8, 0u8, 0u8, 0u8]);
        }
        fis
    }

    /// Set command timeout
    pub fn with_timeout(self, timeout_ms: u32) -> (r: Self)
        ensures
            r == (AtaCommand { timeout_ms, ..self }),
    {
        AtaCommand { timeout_ms, ..self }
    }

    /// Set device register
    pub fn with_device(self, device: u8) -> (r: Self)
        ensures
            r == (AtaCommand { device, ..self }),
    {
        AtaCommand { device, ..self }
    }

    /// Set features register
    pub fn with_features(self, features: u8, features_ext: u8) -> (r: Self)
        ensures
            r == (AtaCommand { features, features_ext, ..self }),
    {
        AtaCommand { features, features_ext, ..self }
    }
}

/// Slot `i` is free in the mask: its bit is set.
pub open spec fn slot_free(mask: u32, i: int) -> bool {
    (mask >> (i as u32)) & 1u32 == 1u32
}

/// Number of free slots among the first `n`.
pub open spec fn count_free(mask: u32, n: int) -> int
    decreases n,
{
    if n <= 0 {
        0
    } else {
        count_free(mask, n - 1) + if slot_free(mask, n - 1) {
            1int
        } else {
            0int
        }
    }
}

/// How testing, clearing and setting the bit of slot `s` acts on the bit of slot `i`.
pub proof fn lemma_slot_bits(m: u32, s: u32, i: u32)
    by (bit_vector)
    requires
        s < 32,
        i < 32,
    ensures
        ((m & (1u32 << s)) != 0) == ((m >> s) & 1u32 == 1u32),
        ((m & !(1u32 << s)) >> i) & 1u32 == (if i == s { 0u32 } else { (m >> i) & 1u32 }),
        ((m | (1u32 << s)) >> i) & 1u32 == (if i == s { 1u32 } else { (m >> i) & 1u32 }),
        (m >> s) & 1u32 == 1u32 ==> (m & !(1u32 << s)) | (1u32 << s) == m,
        (0xFFFF_FFFFu32 >> i) & 1u32 == 1u32,
{
}

/// Clearing the bit of a free slot frees one slot fewer; clearing it where it is already clear
/// changes nothing; setting it is the other way round.
pub proof fn lemma_count_edit(m: u32, s: u32, n: int)
    requires
        s < 32,
        0 <= n <= 32,
    ensures
        count_free(m & !(1u32 << s), n) == count_free(m, n) - if s < n && slot_free(m, s as int) {
            1int
        } else {
            0int
        },
        count_free(m | (1u32 << s), n) == count_free(m, n) + if s < n && !slot_free(m, s as int) {
            1int
        } else {
            0int
        },
    decreases n,
{
    if n > 0 {
        lemma_count_edit(m, s, n - 1);
        lemma_slot_bits(m, s, (n - 1) as u32);
    }
}

/// No slot among the first `n` is free exactly when none is counted.
pub proof fn lemma_count_zero(m: u32, n: int)
    requires
        0 <= n <= 32,
    ensures
        0 <= count_free(m, n) <= n,
        (count_free(m, n) == 0) == (forall|j: int| 0 <= j < n ==> !#[trigger] slot_free(m, j)),
    decreases n,
{
    if n > 0 {
        lemma_count_zero(m, n - 1);
        if count_free(m, n) == 0 {
            assert forall|j: int| 0 <= j < n implies !#[trigger] slot_free(m, j) by {
                if j < n - 1 {
                }
            }
        }
    }
}

/// An issued command and when it was issued.
#[derive(Debug, Clone, Copy)]
pub struct ActiveCommand {
    /// The command being executed
    pub command: AtaCommand,
    /// Timestamp when command was issued
    pub start_time: u64,
}

/// The command in a slot has run longer than its timeout at time `now`.
pub open spec fn expired(a: Option<ActiveCommand>, now: u64) -> bool {
    match a {
        Some(c) => (if now >= c.start_time { now - c.start_time } else { 0 }) > c.command.timeout_ms,
        None => false,
    }
}

/// The slots among the first `n` whose command has expired at `now`, in increasing order.
pub open spec fn timed_out(active: Seq<Option<ActiveCommand>>, now: u64, n: int) -> Seq<u8>
    decreases n,
{
    if n <= 0 {
        Seq::empty()
    } else if expired(active[n - 1], now) {
        timed_out(active, now, n - 1).push((n - 1) as u8)
    } else {
        timed_out(active, now, n - 1)
    }
}

/// The number of slots among the first `n` that hold a command.
pub open spec fn count_active(active: Seq<Option<ActiveCommand>>, n: int) -> int
    decreases n,
{
    if n <= 0 {
        0
    } else {
        count_active(active, n - 1) + if active[n - 1] is Some {
            1int
        } else {
            0int
        }
    }
}

/// The slot mask after releasing each slot of `list` below 32.
pub open spec fn release_all(mask: u32, list: Seq<(u8, CommandResult)>) -> u32
    decreases list.len(),
{
    if list.len() == 0 {
        mask
    } else {
        let m = release_all(mask, list.drop_last());
        if (list.last().0 as int) < 32 {
            m | (1u32 << list.last().0 as u32)
        } else {
            m
        }
    }
}

/// The slot table after releasing each slot of `list` below 32.
pub open spec fn clear_all(active: Seq<Option<ActiveCommand>>, list: Seq<(u8, CommandResult)>) -> Seq<Option<ActiveCommand>>
    decreases list.len(),
{
    if list.len() == 0 {
        active
    } else {
        let a = clear_all(active, list.drop_last());
        if (list.last().0 as int) < a.len() {
            a.update(list.last().0 as int, None)
        } else {
            a
        }
    }
}

/// Command queue for managing multiple concurrent commands
///
/// AHCI supports up to 32 concurrent commands per port.
/// This structure manages command slot allocation and tracking.
pub struct CommandQueue {
    /// Active commands by slot
    active_commands: Vec<Option<ActiveCommand>>,
    /// Available slot mask
    available_slots: u32,
    /// Commands completed but not yet processed
    completed_commands: Vec<(u8, CommandResult)>,
}

impl CommandQueue {
    /// The available-slot mask: bit `i` set means slot `i` is free.
    pub closed spec fn mask(&self) -> u32 {
        self.available_slots
    }

    /// The command held in each of the 32 slots.
    pub closed spec fn active(&self) -> Seq<Option<ActiveCommand>> {
        self.active_commands@
    }

    /// Completions not yet processed, oldest first.
    pub closed spec fn completed(&self) -> Seq<(u8, CommandResult)> {
        self.completed_commands@
    }

    /// There is one entry per slot: 32 of them.
    pub open spec fn wf(&self) -> bool {
        self.active().len() == HBA_CMD_SLOT_MAX
    }

    /// Create a new command queue
    pub fn new() -> (r: Self)
        ensures
            r.wf(),
            r.mask() == 0xFFFF_FFFFu32,
            forall|i: int| 0 <= i < 32 ==> #[trigger] r.active()[i] is None,
            r.completed().len() == 0,
    {
        let mut active_commands: Vec<Option<ActiveCommand>> = Vec::new();
        let mut i: usize = 0;
        while i < HBA_CMD_SLOT_MAX
            invariant
                i <= HBA_CMD_SLOT_MAX,
                active_commands@.len() == i,
                forall|j: int| 0 <= j < i ==> #[trigger] active_commands@[j] is None,
            decreases HBA_CMD_SLOT_MAX - i,
        {
            active_commands.push(None);
            i = i + 1;
        }
        Self { active_commands, available_slots: 0xFFFF_FFFF, completed_commands: Vec::new() }
    }

    /// Allocate a command slot: the lowest free one, which then is no longer free.
    pub fn allocate_slot(&mut self) -> (r: Option<u8>)
        ensures
            final(self).active() == old(self).active(),
            final(self).completed() == old(self).completed(),
            final(self).wf() == old(self).wf(),
            match r {
                Some(s) => s < 32 && slot_free(old(self).mask(), s as int) && (forall|j: int|
                    0 <= j < s ==> !#[trigger] slot_free(old(self).mask(), j)) && final(self).mask()
                    == old(self).mask() & !(1u32 << s as u32) && count_free(final(self).mask(), 32)
                    == count_free(old(self).mask(), 32) - 1,
                None => (forall|j: int| 0 <= j < 32 ==> !#[trigger] slot_free(old(self).mask(), j))
                    && final(self).mask() == old(self).mask(),
            },
    {
        let mut slot: u32 = 0;
        while slot < 32
            invariant
                slot <= 32,
                self.available_slots == old(self).available_slots,
                self.active_commands == old(self).active_commands,
                self.completed_commands == old(self).completed_commands,
                forall|j: int| 0 <= j < slot ==> !#[trigger] slot_free(self.available_slots, j),
            decreases 32 - slot,
        {
            proof {
                lemma_slot_bits(self.available_slots, slot, slot);
            }
            if (self.available_slots & (1u32 << slot)) != 0 {
                proof {
                    lemma_count_edit(self.available_slots, slot, 32);
                }
                self.available_slots = self.available_slots & !(1u32 << slot);
                return Some(slot as u8);
            }
            slot = slot + 1;
        }
        None
    }

    /// Release a command slot: it is free again and holds no command; a number of 32 or more
    /// is ignored.
    pub fn release_slot(&mut self, slot: u8)
        requires
            old(self).wf(),
        ensures
            final(self).wf(),
            final(self).completed() == old(self).completed(),
            slot < 32 ==> final(self).mask() == old(self).mask() | (1u32 << slot as u32)
                && final(self).active() == old(self).active().update(slot as int, None),
            slot >= 32 ==> final(self).mask() == old(self).mask() && final(self).active() == old(self).active(),
    {
        if (slot as usize) < HBA_CMD_SLOT_MAX {
            self.available_slots = self.available_slots | (1u32 << slot as u32);
            self.active_commands.set(slot as usize, None);
        }
    }

    /// Submit a command to a slot
    pub fn submit_command(&mut self, slot: u8, command: AtaCommand, start_time: u64) -> (r: AhciResult<()>)
        requires
            old(self).wf(),
        ensures
            final(self).wf(),
            final(self).mask() == old(self).mask(),
            final(self).completed() == old(self).completed(),
            slot >= 32 ==> r == Err::<(), AhciError>(AhciError::InvalidParameters),
            slot < 32 && old(self).active()[slot as int] is Some ==> r == Err::<(), AhciError>(AhciError::Busy),
            r is Err ==> final(self).active() == old(self).active(),
            slot < 32 && old(self).active()[slot as int] is None ==> r is Ok && final(self).active()
                == old(self).active().update(slot as int, Some(ActiveCommand { command, start_time })),
            r is Ok ==> count_active(final(self).active(), 32) == count_active(old(self).active(), 32) + 1,
    {
        let slot_idx = slot as usize;
        if slot_idx >= HBA_CMD_SLOT_MAX {
            return Err(AhciError::InvalidParameters);
        }
        if self.active_commands[slot_idx].is_some() {
            return Err(AhciError::Busy);
        }
        self.active_commands.set(slot_idx, Some(ActiveCommand { command, start_time }));
        proof {
            lemma_active_count_law(old(self).active(), slot as int, ActiveCommand { command, start_time });
        }
        Ok(())
    }

    /// Mark command as completed
    pub fn complete_command(&mut self, slot: u8, result: CommandResult)
        ensures
            final(self).mask() == old(self).mask(),
            final(self).active() == old(self).active(),
            final(self).wf() == old(self).wf(),
            final(self).completed() == old(self).completed().push((slot, result)),
    {
        self.completed_commands.push((slot, result));
    }

    /// Process completed commands: hand them out, oldest first, and release their slots.
    pub fn process_completions(&mut self) -> (r: Vec<(u8, CommandResult)>)
        requires
            old(self).wf(),
        ensures
            final(self).wf(),
            r@ == old(self).completed(),
            final(self).completed().len() == 0,
            final(self).mask() == release_all(old(self).mask(), old(self).completed()),
            final(self).active() == clear_all(old(self).active(), old(self).completed()),
            forall|i: int|
                0 <= i < 32 ==> (#[trigger] slot_free(final(self).mask(), i) <==> slot_free(old(self).mask(), i)
                    || names_slot(old(self).completed(), i)),
            forall|i: int|
                0 <= i < 32 ==> #[trigger] final(self).active()[i] == (if names_slot(old(self).completed(), i) {
                    None
                } else {
                    old(self).active()[i]
                }),
    {
        let mut completed: Vec<(u8, CommandResult)> = Vec::new();
        core::mem::swap(&mut completed, &mut self.completed_commands);
        let ghost m0 = self.available_slots;
        let ghost a0 = self.active_commands@;
        let mut i: usize = 0;
        while i < completed.len()
            invariant
                i <= completed@.len(),
                self.wf(),
                self.completed_commands@.len() == 0,
                self.available_slots == release_all(m0, completed@.take(i as int)),
                self.active_commands@ == clear_all(a0, completed@.take(i as int)),
                clear_all(a0, completed@.take(i as int)).len() == 32,
            decreases completed.len() - i,
        {
            let (slot, _) = completed[i];
            proof {
                assert(completed@.take(i + 1).drop_last() =~= completed@.take(i as int));
            }
            self.release_slot(slot);
            i = i + 1;
        }
        proof {
            assert(completed@.take(completed@.len() as int) =~= completed@);
            lemma_completions_free(m0, a0, completed@);
        }
        completed
    }

    /// Check for timed out commands: each slot whose command has run past its timeout is
    /// reported, in increasing order, and recorded as completed with a timeout.
    pub fn check_timeouts(&mut self, current_time: u64) -> (r: Vec<u8>)
        requires
            old(self).wf(),
        ensures
            final(self).wf(),
            final(self).mask() == old(self).mask(),
            final(self).active() == old(self).active(),
            r@ == timed_out(old(self).active(), current_time, 32),
            final(self).completed() == old(self).completed() + r@.map_values(
                |s: u8| (s, CommandResult::Timeout),
            ),
    {
        let mut timed_out_slots: Vec<u8> = Vec::new();
        let mut slot: usize = 0;
        while slot < HBA_CMD_SLOT_MAX
            invariant
                slot <= HBA_CMD_SLOT_MAX,
                self.wf(),
                self.active_commands == old(self).active_commands,
                self.available_slots == old(self).available_slots,
                self.completed_commands == old(self).completed_commands,
                timed_out_slots@ == timed_out(self.active_commands@, current_time, slot as int),
            decreases HBA_CMD_SLOT_MAX - slot,
        {
            match self.active_commands[slot] {
                Some(cmd) => {
                    let elapsed_ms = current_time.saturating_sub(cmd.start_time);
                    if elapsed_ms > cmd.command.timeout_ms as u64 {
                        timed_out_slots.push(slot as u8);
                    }
                },
                None => {},
            }
            slot = slot + 1;
        }
        let ghost c0 = self.completed_commands@;
        let mut k: usize = 0;
        while k < timed_out_slots.len()
            invariant
                k <= timed_out_slots@.len(),
                self.wf(),
                self.active_commands@ == old(self).active_commands@,
                self.available_slots == old(self).available_slots,
                self.completed_commands@ == c0 + timed_out_slots@.take(k as int).map_values(
                    |s: u8| (s, CommandResult::Timeout),
                ),
            decreases timed_out_slots.len() - k,
        {
            let s = timed_out_slots[k];
            self.complete_command(s, CommandResult::Timeout);
            proof {
                assert(timed_out_slots@.take(k + 1).map_values(|s: u8| (s, CommandResult::Timeout))
                    =~= timed_out_slots@.take(k as int).map_values(|s: u8| (s, CommandResult::Timeout)).push((s, CommandResult::Timeout)));
            }
            k = k + 1;
        }
        proof {
            assert(timed_out_slots@.take(timed_out_slots@.len() as int) =~= timed_out_slots@);
        }
        timed_out_slots
    }

    /// Get active command count
    pub fn active_count(&self) -> (r: usize)
        requires
            self.wf(),
        ensures
            r == count_active(self.active(), 32),
    {
        let mut count: usize = 0;
        let mut i: usize = 0;
        while i < HBA_CMD_SLOT_MAX
            invariant
                i <= HBA_CMD_SLOT_MAX,
                self.wf(),
                count == count_active(self.active_commands@, i as int),
                count <= i,
            decreases HBA_CMD_SLOT_MAX - i,
        {
            if self.active_commands[i].is_some() {
                count = count + 1;
            }
            i = i + 1;
        }
        count
    }

    /// Get available slot count
    pub fn available_count(&self) -> (r: usize)
        ensures
            r == count_free(self.mask(), 32),
    {
        let mut count: usize = 0;
        let mut i: u32 = 0;
        while i < 32
            invariant
                i <= 32,
                count == count_free(self.available_slots, i as int),
            decreases 32 - i,
        {
            proof {
                lemma_count_zero(self.available_slots, i as int);
            }
            if (self.available_slots >> i) & 1 == 1 {
                count = count + 1;
            }
            i = i + 1;
        }
        count
    }

    /// Check if queue is empty
    pub fn is_empty(&self) -> (r: bool)
        requires
            self.wf(),
        ensures
            r == (count_active(self.active(), 32) == 0),
    {
        self.active_count() == 0
    }

    /// Check if queue is full: no slot is free.
    pub fn is_full(&self) -> (r: bool)
        ensures
            r == (count_free(self.mask(), 32) == 0),
            r == (forall|j: int| 0 <= j < 32 ==> !#[trigger] slot_free(self.mask(), j)),
    {
        proof {
            lemma_count_zero(self.available_slots, 32);
        }
        self.available_count() == 0
    }
}

impl Default for CommandQueue {
    fn default() -> (r: Self)
        ensures
            r.wf(),
            r.mask() == 0xFFFF_FFFFu32,
            forall|i: int| 0 <= i < 32 ==> #[trigger] r.active()[i] is None,
            r.completed().len() == 0,
    {
        Self::new()
    }
}

/// Putting `x` into slot `s` changes the count of occupied slots among the first `n` by what
/// the slot held before and after.
pub proof fn lemma_count_active_edit(a: Seq<Option<ActiveCommand>>, s: int, x: Option<ActiveCommand>, n: int)
    requires
        0 <= s < a.len(),
        0 <= n <= a.len(),
    ensures
        count_active(a.update(s, x), n) == count_active(a, n) + (if s < n {
            (if x is Some { 1int } else { 0int }) - (if a[s] is Some { 1int } else { 0int })
        } else {
            0int
        }),
    decreases n,
{
    if n > 0 {
        lemma_count_active_edit(a, s, x, n - 1);
    }
}

/// A command submitted to a free slot makes one more active command; releasing an occupied
/// slot makes one fewer.
pub proof fn lemma_active_count_law(a: Seq<Option<ActiveCommand>>, s: int, c: ActiveCommand)
    requires
        a.len() == 32,
        0 <= s < 32,
    ensures
        a[s] is None ==> count_active(a.update(s, Some(c)), 32) == count_active(a, 32) + 1,
        a[s] is Some ==> count_active(a.update(s, None), 32) == count_active(a, 32) - 1,
{
    lemma_count_active_edit(a, s, Some(c), 32);
    lemma_count_active_edit(a, s, None, 32);
}

/// Some completion of the list names slot `i`.
pub open spec fn names_slot(list: Seq<(u8, CommandResult)>, i: int) -> bool {
    exists|k: int| 0 <= k < list.len() && (#[trigger] list[k]).0 as int == i
}

/// Processing completions frees exactly the slots they name: afterwards a slot is free when it
/// was free or a completion names it, and it holds its command unless a completion names it.
pub proof fn lemma_completions_free(mask: u32, active: Seq<Option<ActiveCommand>>, list: Seq<(u8, CommandResult)>)
    requires
        active.len() == 32,
    ensures
        clear_all(active, list).len() == 32,
        forall|i: int|
            0 <= i < 32 ==> (#[trigger] slot_free(release_all(mask, list), i) <==> slot_free(mask, i)
                || names_slot(list, i)),
        forall|i: int|
            0 <= i < 32 ==> #[trigger] clear_all(active, list)[i] == (if names_slot(list, i) {
                None
            } else {
                active[i]
            }),
    decreases list.len(),
{
    if list.len() > 0 {
        let d = list.drop_last();
        let l = list.last();
        lemma_completions_free(mask, active, d);
        let m = release_all(mask, d);
        assert forall|i: int| 0 <= i < 32 implies (names_slot(list, i) <==> names_slot(d, i) || l.0 as int == i) by {
            if names_slot(list, i) {
                let k = choose|k: int| 0 <= k < list.len() && (#[trigger] list[k]).0 as int == i;
                if k < d.len() {
                    assert(d[k] == list[k]);
                }
            }
            if names_slot(d, i) {
                let k = choose|k: int| 0 <= k < d.len() && (#[trigger] d[k]).0 as int == i;
                assert(list[k] == d[k]);
            }
            if l.0 as int == i {
                assert(list[list.len() - 1] == l);
            }
        }
        assert forall|i: int| 0 <= i < 32 implies (#[trigger] slot_free(release_all(mask, list), i) <==> slot_free(mask, i)
            || names_slot(list, i)) by {
            assert(slot_free(m, i) <==> slot_free(mask, i) || names_slot(d, i));
            assert(names_slot(list, i) <==> names_slot(d, i) || l.0 as int == i);
            if (l.0 as int) < 32 {
                lemma_slot_bits(m, l.0 as u32, i as u32);
                assert(release_all(mask, list) == m | (1u32 << l.0 as u32));
            } else {
                assert(release_all(mask, list) == m);
            }
        }
    }
}

/// Releasing the slot that an allocation just took gives back the mask from before.
pub proof fn lemma_release_undoes_allocate(mask: u32, s: u8)
    requires
        s < 32,
        slot_free(mask, s as int),
    ensures
        (mask & !(1u32 << s as u32)) | (1u32 << s as u32) == mask,
{
    lemma_slot_bits(mask, s as u32, s as u32);
}

/// The PRDT entry for `count` bytes at `addr`, with the interrupt bit when asked.
pub open spec fn prdt_entry(addr: u64, count: u32, ioc: bool) -> HbaPrdtEntry {
    HbaPrdtEntry {
        dba: (addr % 0x1_0000_0000) as u32,
        dbau: (addr / 0x1_0000_0000) as u32,
        rsv: 0,
        dbc: if ioc {
            ((count - 1) as u32) | 0x8000_0000u32
        } else {
            (count - 1) as u32
        },
    }
}

/// A region can be added: it has at least one byte, at most what an entry describes, and the
/// table has room.
pub open spec fn region_ok(len: int, count: u32) -> bool {
    count != 0 && count <= PRDT_MAX_BYTES && len < 65535
}

/// The regions that adding a buffer tries, page by page from page `i` with `remaining` bytes
/// left: a page each (the last one partial), the interrupt asked for on the final one.
pub open spec fn buffer_plan(pages: Seq<u64>, remaining: int, ioc: bool, i: int) -> Seq<(u64, u32, bool)>
    decreases pages.len() - i,
{
    if i < 0 || i >= pages.len() {
        Seq::empty()
    } else {
        let size = if remaining < 4096 { remaining } else { 4096 };
        let last = i == pages.len() - 1 || remaining <= 4096;
        let item = (pages[i], size as u32, ioc && last);
        if remaining <= 4096 {
            seq![item]
        } else {
            seq![item] + buffer_plan(pages, remaining - 4096, ioc, i + 1)
        }
    }
}

/// Total bytes of planned regions.
pub open spec fn plan_sum(plan: Seq<(u64, u32, bool)>) -> int
    decreases plan.len(),
{
    if plan.len() == 0 {
        0
    } else {
        plan[0].1 + plan_sum(plan.drop_first())
    }
}

/// Planned sizes are never negative.
pub proof fn lemma_plan_sum_nonneg(plan: Seq<(u64, u32, bool)>)
    ensures
        plan_sum(plan) >= 0,
    decreases plan.len(),
{
    if plan.len() > 0 {
        lemma_plan_sum_nonneg(plan.drop_first());
    }
}

/// Adding planned regions one after another: the entries and total reached, and whether all
/// were accepted (adding stops at the first refused one).
pub open spec fn apply_regions(
    entries: Seq<HbaPrdtEntry>,
    total: int,
    plan: Seq<(u64, u32, bool)>,
) -> (Seq<HbaPrdtEntry>, int, bool)
    decreases plan.len(),
{
    if plan.len() == 0 {
        (entries, total, true)
    } else if !region_ok(entries.len() as int, plan[0].1) {
        (entries, total, false)
    } else {
        apply_regions(
            entries.push(prdt_entry(plan[0].0, plan[0].1, plan[0].2)),
            total + plan[0].1,
            plan.drop_first(),
        )
    }
}

/// PRDT (Physical Region Descriptor Table) builder
///
/// Helps construct scatter-gather lists for DMA transfers.
pub struct PrdtBuilder {
    entries: Vec<HbaPrdtEntry>,
    total_bytes: u32,
}

impl PrdtBuilder {
    /// The entries so far.
    pub closed spec fn entries(&self) -> Seq<HbaPrdtEntry> {
        self.entries@
    }

    /// The bytes described so far.
    pub closed spec fn total(&self) -> u32 {
        self.total_bytes
    }

    /// Create a new PRDT builder
    pub fn new() -> (r: Self)
        ensures
            r.entries().len() == 0,
            r.total() == 0,
    {
        Self { entries: Vec::new(), total_bytes: 0 }
    }

    /// Add a memory region to the PRDT
    pub fn add_region(&mut self, phys_addr: u64, byte_count: u32, interrupt_on_completion: bool) -> (r: AhciResult<()>)
        requires
            region_ok(old(self).entries().len() as int, byte_count) ==> old(self).total() + byte_count <= u32::MAX,
        ensures
            region_ok(old(self).entries().len() as int, byte_count) <==> r is Ok,
            r is Err ==> r == Err::<(), AhciError>(AhciError::InvalidParameters) && final(self).entries()
                == old(self).entries() && final(self).total() == old(self).total(),
            r is Ok ==> final(self).entries() == old(self).entries().push(
                prdt_entry(phys_addr, byte_count, interrupt_on_completion),
            ) && final(self).total() == old(self).total() + byte_count,
    {
        if byte_count == 0 || byte_count > PRDT_MAX_BYTES {
            return Err(AhciError::InvalidParameters);
        }
        if self.entries.len() >= 65535 {
            return Err(AhciError::InvalidParameters);  // Too many entries
        }
        let mut dbc = byte_count - 1;  // Hardware expects count - 1
        if interrupt_on_completion {
            dbc = dbc | 0x8000_0000;  // Set interrupt bit
        }
        let entry = HbaPrdtEntry {
            dba: (phys_addr % 0x1_0000_0000) as u32,
            dbau: (phys_addr / 0x1_0000_0000) as u32,
            rsv: 0,
            dbc,
        };
        self.entries.push(entry);
        self.total_bytes = self.total_bytes + byte_count;
        Ok(())
    }

    /// Add a DMA buffer to the PRDT: one region per physical page, the last one partial, the
    /// interrupt (when asked) on the final region only.
    pub fn add_buffer(&mut self, pages: &[u64], buffer_size: usize, interrupt_on_completion: bool) -> (r: AhciResult<()>)
        requires
            old(self).total() + plan_sum(buffer_plan(pages@, buffer_size as int, interrupt_on_completion, 0)) <= u32::MAX,
        ensures
            ({
                let (e, t, ok) = apply_regions(
                    old(self).entries(),
                    old(self).total() as int,
                    buffer_plan(pages@, buffer_size as int, interrupt_on_completion, 0),
                );
                &&& final(self).entries() == e
                &&& final(self).total() == t
                &&& r is Ok <==> ok
                &&& r is Err ==> r == Err::<(), AhciError>(AhciError::InvalidParameters)
            }),
    {
        let ghost plan0 = buffer_plan(pages@, buffer_size as int, interrupt_on_completion, 0);
        let ghost goal = apply_regions(self.entries@, self.total_bytes as int, plan0);
        let mut remaining = buffer_size;
        let mut i: usize = 0;
        while i < pages.len()
            invariant
                i <= pages@.len(),
                goal == apply_regions(
                    old(self).entries(),
                    old(self).total() as int,
                    buffer_plan(pages@, buffer_size as int, interrupt_on_completion, 0),
                ),
                goal == apply_regions(
                    self.entries@,
                    self.total_bytes as int,
                    buffer_plan(pages@, remaining as int, interrupt_on_completion, i as int),
                ),
                self.total_bytes + plan_sum(buffer_plan(pages@, remaining as int, interrupt_on_completion, i as int)) <= u32::MAX,
            decreases pages.len() - i,
        {
            let page_addr = pages[i];
            let page_size = if remaining < 4096 { remaining } else { 4096 };
            let is_last = (i == pages.len() - 1) || (remaining <= 4096);
            let interrupt = interrupt_on_completion && is_last;
            let ghost plan = buffer_plan(pages@, remaining as int, interrupt_on_completion, i as int);
            proof {
                lemma_plan_sum_nonneg(plan.drop_first());
                assert(plan.len() > 0 && plan[0] == (page_addr, page_size as u32, interrupt));
            }
            match self.add_region(page_addr, page_size as u32, interrupt) {
                Ok(()) => {},
                Err(e) => {
                    return Err(e);
                },
            }
            if remaining <= 4096 {
                proof {
                    assert(plan.drop_first() =~= Seq::<(u64, u32, bool)>::empty());
                }
                i = pages.len();
            } else {
                remaining = remaining - 4096;
                proof {
                    assert(plan.drop_first() =~= buffer_plan(pages@, remaining as int, interrupt_on_completion, i + 1));
                }
                i = i + 1;
            }
        }
        Ok(())
    }

    /// Build the final PRDT
    pub fn build(self) -> (r: (Vec<HbaPrdtEntry>, u32))
        ensures
            r.0@ == self.entries(),
            r.1 == self.total(),
    {
        (self.entries, self.total_bytes)
    }

    /// Get entry count
    pub fn entry_count(&self) -> (r: usize)
        ensures
            r == self.entries().len(),
    {
        self.entries.len()
    }

    /// Get total transfer size
    pub fn total_size(&self) -> (r: u32)
        ensures
            r == self.total(),
    {
        self.total_bytes
    }
}

impl Default for PrdtBuilder {
    fn default() -> (r: Self)
        ensures
            r.entries().len() == 0,
            r.total() == 0,
    {
        Self::new()
    }
}

} // verus!
