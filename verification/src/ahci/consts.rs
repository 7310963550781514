use vstd::prelude::*;

verus! {

/// Ports per HBA
pub const HBA_MAX_PORTS: usize = 32;

/// Command slots per port
pub const HBA_CMD_SLOT_MAX: usize = 32;

/// Bytes per command header
pub const HBA_CMD_HEADER_SIZE: usize = 32;

/// Bytes of the received-FIS area
pub const HBA_FIS_SIZE: usize = 256;

/// Bytes of a command table before its PRDT
pub const HBA_CMD_TBL_HEADER: usize = 128;

/// Bytes per PRDT entry
pub const HBA_PRDT_ENTRY_SIZE: usize = 16;

/// Most bytes one PRDT entry can describe (4 MiB)
pub const PRDT_MAX_BYTES: u32 = 0x40_0000;

/// IDENTIFY DEVICE
pub const ATA_CMD_IDENTIFY: u8 = 0xEC;

/// READ DMA (28-bit LBA)
pub const ATA_CMD_READ_DMA: u8 = 0xC8;

/// READ DMA EXT (48-bit LBA)
pub const ATA_CMD_READ_DMA_EXT: u8 = 0x25;

/// WRITE DMA (28-bit LBA)
pub const ATA_CMD_WRITE_DMA: u8 = 0xCA;

/// WRITE DMA EXT (48-bit LBA)
pub const ATA_CMD_WRITE_DMA_EXT: u8 = 0x35;

/// Register FIS, host to device
pub const FIS_TYPE_REG_H2D: u8 = 0x27;

/// Signature of a SATA drive
pub const SATA_SIG_ATA: u32 = 0x0000_0101;

/// Signature of a SATAPI drive
pub const SATA_SIG_ATAPI: u32 = 0xEB14_0101;

/// Signature of an enclosure management bridge
pub const SATA_SIG_SEMB: u32 = 0xC33C_0101;

/// Signature of a port multiplier
pub const SATA_SIG_PM: u32 = 0x9669_0101;

/// Device detection field of SSTS
pub const SSTS_DET_MASK: u32 = 0x0F;

/// Device present and communication established
pub const SSTS_DET_PRESENT: u32 = 0x03;

/// Interface power management field of SSTS
pub const SSTS_IPM_MASK: u32 = 0xF00;

/// Interface in active state
pub const SSTS_IPM_ACTIVE: u32 = 0x100;

/// Start (PxCMD.ST)
pub const PORT_CMD_ST: u32 = 0x0001;

/// Command list override (PxCMD.CLO)
pub const PORT_CMD_CLO: u32 = 0x0008;

/// FIS receive enable (PxCMD.FRE)
pub const PORT_CMD_FRE: u32 = 0x0010;

/// FIS receive running (PxCMD.FR)
pub const PORT_CMD_FR: u32 = 0x4000;

/// Command list running (PxCMD.CR)
pub const PORT_CMD_CR: u32 = 0x8000;

/// Task file error status (PxIS.TFES)
pub const PORT_IS_TFES: u32 = 0x4000_0000;

/// Host bus fatal error status (PxIS.HBFS)
pub const PORT_IS_HBFS: u32 = 0x2000_0000;

/// Host bus data error status (PxIS.HBDS)
pub const PORT_IS_HBDS: u32 = 0x1000_0000;

/// Interface fatal error status (PxIS.IFS)
pub const PORT_IS_IFS: u32 = 0x0800_0000;

/// HBA reset (GHC.HR)
pub const HBA_GHC_HR: u32 = 0x0000_0001;

/// Interrupt enable (GHC.IE)
pub const HBA_GHC_IE: u32 = 0x0000_0002;

/// AHCI enable (GHC.AE)
pub const HBA_GHC_AE: u32 = 0x8000_0000;

/// Register FIS, host to device
#[derive(Debug, Clone, Copy)]
pub struct FisRegH2D {
    pub fis_type: u8,
    /// Port multiplier (bits 0..3) and command bit (bit 7)
    pub pmport_c: u8,
    pub command: u8,
    pub featurel: u8,
    pub lba0: u8,
    pub lba1: u8,
    pub lba2: u8,
    pub device: u8,
    pub lba3: u8,
    pub lba4: u8,
    pub lba5: u8,
    pub featureh: u8,
    pub countl: u8,
    pub counth: u8,
    pub icc: u8,
    pub control: u8,
    pub rsv: [u8; 4],
}

impl FisRegH2D {
    /// Mark the FIS as a command (not a control) update.
    pub fn set_cmd(&mut self)
        ensures
            *final(self) == (FisRegH2D { pmport_c: old(self).pmport_c | 0x80, ..*old(self) }),
    {
        self.pmport_c = self.pmport_c | 0x80;
    }
}

/// Physical region descriptor table entry
#[derive(Debug, Clone, Copy, PartialEq, Eq, Structural)]
pub struct HbaPrdtEntry {
    /// Data base address, low 32 bits
    pub dba: u32,
    /// Data base address, high 32 bits
    pub dbau: u32,
    pub rsv: u32,
    /// Byte count minus one (bits 0..21) and interrupt on completion (bit 31)
    pub dbc: u32,
}

} // verus!
