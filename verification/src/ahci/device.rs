use vstd::prelude::*;

use crate::ahci::command::{AtaCommand, BufferId, CommandResult};
use crate::ahci::consts::{SATA_SIG_ATA, SATA_SIG_ATAPI, SATA_SIG_PM, SATA_SIG_SEMB};
use crate::ahci::error::{AhciError, AhciResult};

verus! {

/// Device type enumeration
#[derive(Debug, Clone, Copy, PartialEq, Eq, Structural)]
pub enum DeviceType {
    /// Standard SATA hard drive or SSD
    Ata,
    /// ATAPI device (CD/DVD/BD drives)
    Atapi,
    /// Enclosure management bridge
    Semb,
    /// Port multiplier
    PortMultiplier,
    /// Unknown device type
    Unknown(u32),
}

/// The device type a port signature names.
pub open spec fn type_of_signature(sig: u32) -> DeviceType {
    if sig == SATA_SIG_ATA {
        DeviceType::Ata
    } else if sig == SATA_SIG_ATAPI {
        DeviceType::Atapi
    } else if sig == SATA_SIG_SEMB {
        DeviceType::Semb
    } else if sig == SATA_SIG_PM {
        DeviceType::PortMultiplier
    } else {
        DeviceType::Unknown(sig)
    }
}

impl DeviceType {
    /// Create device type from signature
    pub fn from_signature(sig: u32) -> (r: Self)
        ensures
            r == type_of_signature(sig),
    {
        if sig == SATA_SIG_ATA {
            DeviceType::Ata
        } else if sig == SATA_SIG_ATAPI {
            DeviceType::Atapi
        } else if sig == SATA_SIG_SEMB {
            DeviceType::Semb
        } else if sig == SATA_SIG_PM {
            DeviceType::PortMultiplier
        } else {
            DeviceType::Unknown(sig)
        }
    }

    /// Check if device supports standard ATA commands
    pub fn supports_ata_commands(&self) -> (r: bool)
        ensures
            r == (*self == DeviceType::Ata),
    {
        match self {
            DeviceType::Ata => true,
            _ => false,
        }
    }

    /// Check if device supports ATAPI commands
    pub fn supports_atapi_commands(&self) -> (r: bool)
        ensures
            r == (*self == DeviceType::Atapi),
    {
        match self {
            DeviceType::Atapi => true,
            _ => false,
        }
    }
}

/// Device capability flags
#[derive(Debug, Clone, Copy, PartialEq, Eq, Structural)]
pub struct DeviceCapabilities {
    /// Supports 48-bit LBA addressing
    pub lba48: bool,
    /// Supports Native Command Queuing
    pub ncq: bool,
    /// Maximum queue depth for NCQ
    pub max_queue_depth: u8,
    /// Supports TRIM/UNMAP command
    pub trim_support: bool,
    /// Supports SMART monitoring
    pub smart_support: bool,
    /// Supports write cache
    pub write_cache: bool,
    /// Supports read look-ahead
    pub read_lookahead: bool,
    /// Device is removable
    pub removable: bool,
    /// Support for Advanced Power Management
    pub apm_support: bool,
}

/// Capabilities before identification: nothing but a queue depth of one.
pub open spec fn default_capabilities() -> DeviceCapabilities {
    DeviceCapabilities {
        lba48: false,
        ncq: false,
        max_queue_depth: 1,
        trim_support: false,
        smart_support: false,
        write_cache: false,
        read_lookahead: false,
        removable: false,
        apm_support: false,
    }
}

impl Default for DeviceCapabilities {
    fn default() -> (r: Self)
        ensures
            r == default_capabilities(),
    {
        Self {
            lba48: false,
            ncq: false,
            max_queue_depth: 1,
            trim_support: false,
            smart_support: false,
            write_cache: false,
            read_lookahead: false,
            removable: false,
            apm_support: false,
        }
    }
}

/// Device geometry and identification information
#[derive(Debug, Clone)]
pub struct DeviceInfo {
    /// Device type
    pub device_type: DeviceType,
    /// Device model string
    pub model: String,
    /// Device serial number
    pub serial: String,
    /// Firmware revision
    pub firmware: String,
    /// Total sectors (LBA mode)
    pub total_sectors: u64,
    /// Sector size in bytes
    pub sector_size: u32,
    /// Physical sector size (for 4K native drives)
    pub physical_sector_size: u32,
    /// Device capabilities
    pub capabilities: DeviceCapabilities,
    /// Is device currently present and ready
    pub present: bool,
}

impl DeviceInfo {
    /// Information of a device not yet identified, of the given type.
    pub fn unidentified(device_type: DeviceType) -> (r: Self)
        ensures
            r.device_type == device_type,
            r.model@.len() == 0,
            r.serial@.len() == 0,
            r.firmware@.len() == 0,
            r.total_sectors == 0,
            r.sector_size == 512,
            r.physical_sector_size == 512,
            r.capabilities == default_capabilities(),
            !r.present,
    {
        Self {
            device_type,
            model: String::new(),
            serial: String::new(),
            firmware: String::new(),
            total_sectors: 0,
            sector_size: 512,
            physical_sector_size: 512,
            capabilities: DeviceCapabilities::default(),
            present: false,
        }
    }
}

impl Default for DeviceInfo {
    fn default() -> (r: Self)
        ensures
            r.device_type == DeviceType::Unknown(0),
            r.model@.len() == 0,
            r.serial@.len() == 0,
            r.firmware@.len() == 0,
            r.total_sectors == 0,
            r.sector_size == 512,
            r.physical_sector_size == 512,
            r.capabilities == default_capabilities(),
            !r.present,
    {
        Self::unidentified(DeviceType::Unknown(0))
    }
}

/// Device health status
#[derive(Debug, Clone, Copy, PartialEq, Eq, Structural)]
pub enum DeviceHealth {
    /// Device is operating normally
    Good,
    /// Device has some errors but is functional
    Degraded,
    /// Device has many errors and may fail soon
    Poor,
    /// Device is not responding
    Offline,
}

/// Health by error count: up to 5 errors is good, up to 20 degraded, more is poor.
pub open spec fn health_of(online: bool, errors: u32) -> DeviceHealth {
    if !online {
        DeviceHealth::Offline
    } else if errors <= 5 {
        DeviceHealth::Good
    } else if errors <= 20 {
        DeviceHealth::Degraded
    } else {
        DeviceHealth::Poor
    }
}

impl DeviceHealth {
    /// Get health as a percentage (0-100)
    pub fn as_percentage(&self) -> (r: u8)
        ensures
            r == match *self {
                DeviceHealth::Good => 100u8,
                DeviceHealth::Degraded => 60u8,
                DeviceHealth::Poor => 20u8,
                DeviceHealth::Offline => 0u8,
            },
    {
        match self {
            DeviceHealth::Good => 100,
            DeviceHealth::Degraded => 60,
            DeviceHealth::Poor => 20,
            DeviceHealth::Offline => 0,
        }
    }

    /// Check if device health is acceptable for normal operations
    pub fn is_acceptable(&self) -> (r: bool)
        ensures
            r == (*self == DeviceHealth::Good || *self == DeviceHealth::Degraded),
    {
        match self {
            DeviceHealth::Good | DeviceHealth::Degraded => true,
            _ => false,
        }
    }
}

/// The read or write command for a range: the 48-bit form where the device has it and the
/// range needs it (an LBA past 28 bits or more than 255 sectors), else the 28-bit form.
pub open spec fn needs_lba48(lba48: bool, lba: u64, sectors: u32) -> bool {
    lba48 && (lba > 0xFFF_FFFF || sectors > 255)
}

/// The most sectors one command carries: 65535 in the 48-bit form, 255 in the 28-bit form.
pub open spec fn max_command_sectors(lba48: bool) -> int {
    if lba48 { 65535 } else { 255 }
}

/// The first sector past what the device's addressing reaches: 2^48 with 48-bit addressing,
/// 2^28 without.
pub open spec fn address_limit(lba48: bool) -> int {
    if lba48 { 0x1_0000_0000_0000 } else { 0x1000_0000 }
}

/// One piece of a transfer: its command and where its data starts in the buffer, in bytes.
#[derive(Debug, Clone, Copy, PartialEq, Eq, Structural)]
pub struct TransferPart {
    pub command: AtaCommand,
    pub buffer_offset: u64,
}

/// The read or write command for `sectors` sectors at `lba` (see `needs_lba48`).
pub open spec fn range_command(lba48: bool, lba: u64, sectors: u32, buffer: BufferId, write: bool) -> AtaCommand {
    if needs_lba48(lba48, lba, sectors) {
        if write {
            AtaCommand::write_dma_ext_spec(lba, sectors, buffer)
        } else {
            AtaCommand::read_dma_ext_spec(lba, sectors, buffer)
        }
    } else if write {
        AtaCommand::write_dma_spec(lba as u32, sectors as u8, buffer)
    } else {
        AtaCommand::read_dma_spec(lba as u32, sectors as u8, buffer)
    }
}

/// The sectors of a transfer from sector `done` on, in pieces of as many sectors as one
/// command carries (the last piece the rest); each piece's data sits `512 * done` bytes into
/// the buffer.
pub open spec fn transfer_parts(lba48: bool, lba: int, sectors: int, done: int, buffer: BufferId, write: bool) -> Seq<TransferPart>
    decreases sectors - done,
{
    if done < 0 || done >= sectors {
        Seq::empty()
    } else {
        let n = if sectors - done < max_command_sectors(lba48) { sectors - done } else { max_command_sectors(lba48) };
        seq![TransferPart {
            command: range_command(lba48, (lba + done) as u64, n as u32, buffer, write),
            buffer_offset: (done * 512) as u64,
        }] + transfer_parts(lba48, lba, sectors, done + n, buffer, write)
    }
}

/// The number of sectors a read or write command asks for.
pub open spec fn command_sectors(c: AtaCommand) -> int {
    c.count + c.count_ext * 256
}

/// The transfer's pieces cover exactly its sectors, in order: piece `k` starts at the sector
/// where the pieces before it end, asks for at least one and at most one command's worth of
/// sectors, and the pieces' sectors add up to all of them.
pub proof fn lemma_transfer_parts(lba48: bool, lba: int, sectors: int, done: int, buffer: BufferId, write: bool)
    requires
        0 <= done <= sectors,
        0 <= lba,
        lba + sectors < address_limit(lba48),
        sectors <= u32::MAX,
    ensures
        ({
            let parts = transfer_parts(lba48, lba, sectors, done, buffer, write);
            &&& parts_cover(parts, lba, done, sectors)
        }),
    decreases sectors - done,
{
    if done < sectors {
        let n = if sectors - done < max_command_sectors(lba48) { sectors - done } else { max_command_sectors(lba48) };
        lemma_transfer_parts(lba48, lba, sectors, done + n, buffer, write);
        let c = range_command(lba48, (lba + done) as u64, n as u32, buffer, write);
        assert(command_sectors(c) == n) by {
            assert((n as u32) as int == n);
            if !needs_lba48(lba48, (lba + done) as u64, n as u32) {
                assert(n <= 255);
            }
        }
        assert(c.lba == lba + done) by {
            if !needs_lba48(lba48, (lba + done) as u64, n as u32) {
                assert(lba + done < 0x1_0000_0000);
            }
        }
        let parts = transfer_parts(lba48, lba, sectors, done, buffer, write);
        let rest = transfer_parts(lba48, lba, sectors, done + n, buffer, write);
        assert(parts[0].command == c);
        assert(parts.drop_first() =~= rest);
    }
}

/// Pieces that, from sector `done` of a transfer of `sectors` sectors at `lba`, each start
/// where the one before ends, at the matching buffer offset, ask for a nonempty part, and
/// together end at the last sector.
pub open spec fn parts_cover(parts: Seq<TransferPart>, lba: int, done: int, sectors: int) -> bool
    decreases parts.len(),
{
    if parts.len() == 0 {
        done == sectors
    } else {
        let c = parts[0].command;
        &&& c.lba == lba + done
        &&& parts[0].buffer_offset == done * 512
        &&& command_sectors(c) > 0
        &&& parts_cover(parts.drop_first(), lba, done + command_sectors(c), sectors)
    }
}

/// AHCI storage device
///
/// Holds what is known of a device on a port; the port itself carries out the commands that
/// the device asks for and reports their results back.
pub struct AhciDevice {
    /// Device information and capabilities
    info: DeviceInfo,
    /// Device is currently accessible
    online: bool,
    /// Error count for health monitoring
    error_count: u32,
    /// Last successful operation timestamp
    last_activity: u64,
}

impl AhciDevice {
    /// What is known of the device.
    pub closed spec fn spec_info(&self) -> DeviceInfo {
        self.info
    }

    /// The device is accessible.
    pub closed spec fn spec_online(&self) -> bool {
        self.online
    }

    /// Errors counted so far.
    pub closed spec fn spec_errors(&self) -> u32 {
        self.error_count
    }

    /// Time of the last successful transfer.
    pub closed spec fn spec_last_activity(&self) -> u64 {
        self.last_activity
    }

    /// A device with the given port signature, not yet identified and not yet online.
    pub fn new(signature: u32) -> (r: Self)
        ensures
            r.spec_info().device_type == type_of_signature(signature),
            r.spec_info().total_sectors == 0,
            r.spec_info().capabilities == default_capabilities(),
            !r.spec_info().present,
            !r.spec_online(),
            r.spec_errors() == 0,
            r.spec_last_activity() == 0,
    {
        Self {
            info: DeviceInfo::unidentified(DeviceType::from_signature(signature)),
            online: false,
            error_count: 0,
            last_activity: 0,
        }
    }

    /// The IDENTIFY command to issue: only ATA devices take it.
    pub fn identify_command(&self, buffer: BufferId) -> (r: Option<AtaCommand>)
        ensures
            self.spec_info().device_type == DeviceType::Ata ==> (r matches Some(c) && c == AtaCommand::identify_spec(buffer)),
            self.spec_info().device_type != DeviceType::Ata ==> r is None,
    {
        if !self.info.device_type.supports_ata_commands() {
            return None;
        }
        Some(AtaCommand::identify(buffer))
    }

    /// Record the outcome of IDENTIFY: a failed command leaves the device not ready; a
    /// successful one fills in the identification data.
    pub fn complete_identify(&mut self, result: CommandResult) -> (r: AhciResult<()>)
        ensures
            r is Ok <==> result == CommandResult::Success,
            r is Err ==> r == Err::<(), AhciError>(AhciError::DeviceNotReady) && final(self).spec_info().total_sectors
                == old(self).spec_info().total_sectors && final(self).spec_info().present == old(self).spec_info().present,
            r is Ok ==> final(self).spec_info().total_sectors == 1024 * 1024 && final(self).spec_info().sector_size == 512
                && final(self).spec_info().physical_sector_size == 512 && final(self).spec_info().capabilities.lba48
                && !final(self).spec_info().capabilities.ncq && final(self).spec_info().capabilities.max_queue_depth == 1
                && final(self).spec_info().capabilities.smart_support && final(self).spec_info().present,
            final(self).spec_info().device_type == old(self).spec_info().device_type,
            final(self).spec_online() == old(self).spec_online(),
            final(self).spec_errors() == old(self).spec_errors(),
            final(self).spec_last_activity() == old(self).spec_last_activity(),
    {
        if !result.is_success() {
            return Err(AhciError::DeviceNotReady);
        }
        self.parse_identify_data();
        Ok(())
    }

    /// Fill in the identification data.
    fn parse_identify_data(&mut self)
        ensures
            final(self).spec_info().total_sectors == 1024 * 1024,
            final(self).spec_info().sector_size == 512,
            final(self).spec_info().physical_sector_size == 512,
            final(self).spec_info().capabilities == (DeviceCapabilities {
                lba48: true,
                ncq: false,
                max_queue_depth: 1,
                smart_support: true,
                ..old(self).spec_info().capabilities
            }),
            final(self).spec_info().present,
            final(self).spec_info().device_type == old(self).spec_info().device_type,
            final(self).online == old(self).online,
            final(self).error_count == old(self).error_count,
            final(self).last_activity == old(self).last_activity,
    {
        self.info.model = String::from_str("AHCI Storage Device");
        self.info.serial = String::from_str("DEV001");
        self.info.firmware = String::from_str("1.0");
        self.info.total_sectors = 1024 * 1024;  // 512MB default
        self.info.sector_size = 512;
        self.info.physical_sector_size = 512;
        self.info.capabilities.lba48 = true;
        self.info.capabilities.ncq = false;
        self.info.capabilities.max_queue_depth = 1;
        self.info.capabilities.smart_support = true;
        self.info.present = true;
    }

    /// Mark the device accessible once it has been identified.
    pub fn set_online(&mut self)
        ensures
            final(self).spec_online(),
            final(self).spec_info() == old(self).spec_info(),
            final(self).spec_errors() == old(self).spec_errors(),
            final(self).spec_last_activity() == old(self).spec_last_activity(),
    {
        self.online = true;
    }

    /// What a read of `sectors` sectors at `lba` into `buffer` amounts to: refused while
    /// offline, for a device without ATA commands, past the end of the device, for no sectors,
    /// and past what the device's addressing reaches; otherwise every sector asked for, in
    /// pieces of as many as one command carries.
    pub open spec fn read_spec(&self, lba: u64, sectors: u32, buffer: BufferId) -> AhciResult<Seq<TransferPart>> {
        let lba48 = self.spec_info().capabilities.lba48;
        if !self.spec_online() {
            Err(AhciError::DeviceNotReady)
        } else if self.spec_info().device_type != DeviceType::Ata {
            Err(AhciError::UnsupportedDevice)
        } else if lba + sectors > self.spec_info().total_sectors || sectors == 0 {
            Err(AhciError::InvalidParameters)
        } else if lba + sectors > address_limit(lba48) {
            Err(AhciError::InvalidParameters)
        } else {
            Ok(transfer_parts(lba48, lba as int, sectors as int, 0, buffer, false))
        }
    }

    /// What a write of `sectors` sectors at `lba` from `buffer` amounts to, refused and cut
    /// into pieces as reads are.
    pub open spec fn write_spec(&self, lba: u64, sectors: u32, buffer: BufferId) -> AhciResult<Seq<TransferPart>> {
        let lba48 = self.spec_info().capabilities.lba48;
        if !self.spec_online() {
            Err(AhciError::DeviceNotReady)
        } else if self.spec_info().device_type != DeviceType::Ata {
            Err(AhciError::UnsupportedDevice)
        } else if lba + sectors > self.spec_info().total_sectors || sectors == 0 {
            Err(AhciError::InvalidParameters)
        } else if lba + sectors > address_limit(lba48) {
            Err(AhciError::InvalidParameters)
        } else {
            Ok(transfer_parts(lba48, lba as int, sectors as int, 0, buffer, true))
        }
    }

    /// The read or write command for one piece.
    fn range_command(lba48: bool, lba: u64, sectors: u32, buffer: BufferId, write: bool) -> (r: AtaCommand)
        ensures
            r == range_command(lba48, lba, sectors, buffer, write),
    {
        if lba48 && (lba > 0xFFFFFFF || sectors > 255) {
            if write {
                AtaCommand::write_dma_ext(lba, sectors, buffer)
            } else {
                AtaCommand::read_dma_ext(lba, sectors, buffer)
            }
        } else if write {
            AtaCommand::write_dma(lba as u32, sectors as u8, buffer)
        } else {
            AtaCommand::read_dma(lba as u32, sectors as u8, buffer)
        }
    }

    /// The pieces of a transfer of `sectors` sectors at `lba`.
    fn transfer_parts(lba48: bool, lba: u64, sectors: u32, buffer: BufferId, write: bool) -> (r: Vec<TransferPart>)
        requires
            lba + sectors <= u64::MAX,
        ensures
            r@ == transfer_parts(lba48, lba as int, sectors as int, 0, buffer, write),
    {
        let max: u32 = if lba48 { 65535 } else { 255 };
        let mut parts: Vec<TransferPart> = Vec::new();
        let mut done: u32 = 0;
        while done < sectors
            invariant
                done <= sectors,
                lba + sectors <= u64::MAX,
                max == max_command_sectors(lba48),
                parts@ + transfer_parts(lba48, lba as int, sectors as int, done as int, buffer, write)
                    == transfer_parts(lba48, lba as int, sectors as int, 0, buffer, write),
            decreases sectors - done,
        {
            let n = if sectors - done < max { sectors - done } else { max };
            let command = Self::range_command(lba48, lba + done as u64, n, buffer, write);
            let part = TransferPart { command, buffer_offset: done as u64 * 512 };
            let ghost before = parts@;
            parts.push(part);
            proof {
                let rest = transfer_parts(lba48, lba as int, sectors as int, done + n, buffer, write);
                assert(transfer_parts(lba48, lba as int, sectors as int, done as int, buffer, write) == seq![part] + rest);
                assert(before + (seq![part] + rest) =~= parts@ + rest);
            }
            done = done + n;
        }
        proof {
            assert(parts@ + Seq::<TransferPart>::empty() =~= parts@);
        }
        parts
    }

    /// Plan a transfer: the refusals of `read_spec`, else its pieces.
    fn plan_transfer(&self, lba: u64, sectors: u32, buffer: BufferId, write: bool) -> (r: AhciResult<Vec<TransferPart>>)
        requires
            lba + sectors <= u64::MAX,
        ensures
            match (if write { self.write_spec(lba, sectors, buffer) } else { self.read_spec(lba, sectors, buffer) }) {
                Ok(parts) => r matches Ok(v) && v@ == parts,
                Err(e) => r == Err::<Vec<TransferPart>, AhciError>(e),
            },
    {
        if !self.online {
            return Err(AhciError::DeviceNotReady);
        }
        if !self.info.device_type.supports_ata_commands() {
            return Err(AhciError::UnsupportedDevice);
        }
        if lba + sectors as u64 > self.info.total_sectors {
            return Err(AhciError::InvalidParameters);
        }
        if sectors == 0 {
            return Err(AhciError::InvalidParameters);
        }
        let lba48 = self.info.capabilities.lba48;
        let limit: u64 = if lba48 { 0x1_0000_0000_0000 } else { 0x1000_0000 };
        if lba + sectors as u64 > limit {
            return Err(AhciError::InvalidParameters);
        }
        Ok(Self::transfer_parts(lba48, lba, sectors, buffer, write))
    }

    /// The commands that read `sectors` sectors at `lba` into `buffer`, each with where its
    /// data goes in the buffer: refused while offline, for a device without ATA commands, past
    /// the end of the device, for no sectors, and past what the device's addressing reaches;
    /// otherwise every sector asked for, in as many commands as it takes.
    pub fn read_parts(&self, lba: u64, sectors: u32, buffer: BufferId) -> (r: AhciResult<Vec<TransferPart>>)
        requires
            lba + sectors <= u64::MAX,
        ensures
            match self.read_spec(lba, sectors, buffer) {
                Ok(parts) => r matches Ok(v) && v@ == parts,
                Err(e) => r == Err::<Vec<TransferPart>, AhciError>(e),
            },
    {
        self.plan_transfer(lba, sectors, buffer, false)
    }

    /// The commands that write `sectors` sectors at `lba` from `buffer`, refused and cut into
    /// pieces as for reads.
    pub fn write_parts(&self, lba: u64, sectors: u32, buffer: BufferId) -> (r: AhciResult<Vec<TransferPart>>)
        requires
            lba + sectors <= u64::MAX,
        ensures
            match self.write_spec(lba, sectors, buffer) {
                Ok(parts) => r matches Ok(v) && v@ == parts,
                Err(e) => r == Err::<Vec<TransferPart>, AhciError>(e),
            },
    {
        self.plan_transfer(lba, sectors, buffer, true)
    }

    /// Record the result of a read or write issued at time `now`: success updates the time of
    /// last activity, failure counts an error.
    pub fn complete_transfer(&mut self, result: CommandResult, now: u64) -> (r: AhciResult<()>)
        requires
            old(self).spec_errors() < u32::MAX,
        ensures
            r is Ok <==> result == CommandResult::Success,
            r is Ok ==> final(self).spec_last_activity() == now && final(self).spec_errors() == old(self).spec_errors(),
            r is Err ==> r == Err::<(), AhciError>(AhciError::HardwareError) && final(self).spec_errors()
                == old(self).spec_errors() + 1 && final(self).spec_last_activity() == old(self).spec_last_activity(),
            final(self).spec_info() == old(self).spec_info(),
            final(self).spec_online() == old(self).spec_online(),
    {
        if result.is_success() {
            self.last_activity = now;
            Ok(())
        } else {
            self.error_count = self.error_count + 1;
            Err(AhciError::HardwareError)
        }
    }

    /// The command that flushes the write cache: refused while offline, none needed without a
    /// write cache.
    pub fn flush_command(&self) -> (r: AhciResult<Option<AtaCommand>>)
        ensures
            !self.spec_online() ==> r == Err::<Option<AtaCommand>, AhciError>(AhciError::DeviceNotReady),
            self.spec_online() && !self.spec_info().capabilities.write_cache ==> r == Ok::<
                Option<AtaCommand>,
                AhciError,
            >(None),
            self.spec_online() && self.spec_info().capabilities.write_cache ==> (r matches Ok(Some(c)) && c
                == AtaCommand::flush_cache_spec()),
    {
        if !self.online {
            return Err(AhciError::DeviceNotReady);
        }
        if !self.info.capabilities.write_cache {
            return Ok(None);
        }
        Ok(Some(AtaCommand::flush_cache()))
    }

    /// Record the result of a flush: failure counts an error.
    pub fn complete_flush(&mut self, result: CommandResult) -> (r: AhciResult<()>)
        requires
            old(self).spec_errors() < u32::MAX,
        ensures
            r is Ok <==> result == CommandResult::Success,
            r is Ok ==> final(self).spec_errors() == old(self).spec_errors(),
            r is Err ==> r == Err::<(), AhciError>(AhciError::HardwareError) && final(self).spec_errors()
                == old(self).spec_errors() + 1,
            final(self).spec_info() == old(self).spec_info(),
            final(self).spec_online() == old(self).spec_online(),
            final(self).spec_last_activity() == old(self).spec_last_activity(),
    {
        if result.is_success() {
            Ok(())
        } else {
            self.error_count = self.error_count + 1;
            Err(AhciError::HardwareError)
        }
    }

    /// Get device information
    pub fn get_info(&self) -> (r: DeviceInfo)
        ensures
            r.device_type == self.spec_info().device_type,
            r.model@ == self.spec_info().model@,
            r.serial@ == self.spec_info().serial@,
            r.firmware@ == self.spec_info().firmware@,
            r.total_sectors == self.spec_info().total_sectors,
            r.sector_size == self.spec_info().sector_size,
            r.physical_sector_size == self.spec_info().physical_sector_size,
            r.capabilities == self.spec_info().capabilities,
            r.present == self.spec_info().present,
    {
        DeviceInfo {
            device_type: self.info.device_type,
            model: self.info.model.clone(),
            serial: self.info.serial.clone(),
            firmware: self.info.firmware.clone(),
            total_sectors: self.info.total_sectors,
            sector_size: self.info.sector_size,
            physical_sector_size: self.info.physical_sector_size,
            capabilities: self.info.capabilities,
            present: self.info.present,
        }
    }

    /// Check if device is online and ready
    pub fn is_online(&self) -> (r: bool)
        ensures
            r == self.spec_online(),
    {
        self.online
    }

    /// Get device error count
    pub fn error_count(&self) -> (r: u32)
        ensures
            r == self.spec_errors(),
    {
        self.error_count
    }

    /// Reset error count
    pub fn reset_error_count(&mut self)
        ensures
            final(self).spec_errors() == 0,
            final(self).spec_info() == old(self).spec_info(),
            final(self).spec_online() == old(self).spec_online(),
            final(self).spec_last_activity() == old(self).spec_last_activity(),
    {
        self.error_count = 0;
    }

    /// Perform device health check
    pub fn health_check(&self) -> (r: AhciResult<DeviceHealth>)
        ensures
            r == Ok::<DeviceHealth, AhciError>(health_of(self.spec_online(), self.spec_errors())),
    {
        if !self.online {
            return Ok(DeviceHealth::Offline);
        }
        let health = if self.error_count <= 5 {
            DeviceHealth::Good
        } else if self.error_count <= 20 {
            DeviceHealth::Degraded
        } else {
            DeviceHealth::Poor
        };
        Ok(health)
    }

    /// Handle device hotplug events. `identified` is the outcome of identifying the device
    /// again, which the port does when a device comes back while this one is offline.
    pub fn handle_hotplug(&mut self, connected: bool, identified: AhciResult<()>) -> (r: AhciResult<()>)
        ensures
            connected && !old(self).spec_online() ==> r == identified,
            connected && !old(self).spec_online() && identified is Ok ==> final(self).spec_online()
                && final(self).spec_errors() == 0,
            connected && !old(self).spec_online() && identified is Err ==> final(self).spec_online()
                == old(self).spec_online() && final(self).spec_errors() == old(self).spec_errors(),
            !connected && old(self).spec_online() ==> r is Ok && !final(self).spec_online()
                && !final(self).spec_info().present && final(self).spec_errors() == old(self).spec_errors(),
            connected == old(self).spec_online() ==> r is Ok && final(self).spec_online() == old(self).spec_online()
                && final(self).spec_info() == old(self).spec_info() && final(self).spec_errors() == old(self).spec_errors(),
            final(self).spec_info().device_type == old(self).spec_info().device_type,
            final(self).spec_last_activity() == old(self).spec_last_activity(),
    {
        if connected && !self.online {
            match identified {
                Ok(u) => {
                    assert(identified == Ok::<(), AhciError>(u));
                },
                Err(e) => return Err(e),
            }
            self.online = true;
            self.error_count = 0;
        } else if !connected && self.online {
            self.online = false;
            self.info.present = false;
        }
        Ok(())
    }
}

} // verus!
