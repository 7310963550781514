use vstd::prelude::*;

verus! {

/// IDE channel register structure containing port addresses
#[derive(Clone, Copy)]
pub struct IDEChannelRegistors {
    /// IO Base port address
    pub base: u16,
    /// Control port address
    pub ctrl: u16,
    /// Bus Master IDE port address
    pub bmide: u16,
    /// nIEN bit (No Interrupt Enable)
    pub n_ien: u8,
}

/// IDE device structure containing device information
#[derive(Clone, Copy)]
pub struct IdeDevice {
    /// 0 = Empty, 1 = Device present
    pub reserved: u8,
    /// Primary (0) or Secondary (1) channel
    pub channel: u8,
    /// Master (0) or Slave (1) drive
    pub drive: u8,
    /// IDE_ATA or IDE_ATAPI
    pub drive_type: u16,
    /// Drive signature from identification
    pub signature: u16,
    /// Device capabilities
    pub capabilities: u16,
    /// Supported command sets
    pub command_sets: u32,
    /// Size in sectors (for ATA) or capacity (for ATAPI)
    pub size: u32,
    /// Device model string (40 chars + null terminator)
    pub model: [u8; 41],
}

/// An empty device entry: every field zero.
pub open spec fn empty_device(d: IdeDevice) -> bool {
    &&& d.reserved == 0
    &&& d.channel == 0
    &&& d.drive == 0
    &&& d.drive_type == 0
    &&& d.signature == 0
    &&& d.capabilities == 0
    &&& d.command_sets == 0
    &&& d.size == 0
    &&& d.model@ == Seq::new(41, |i: int| 0u8)
}

impl IdeDevice {
    /// Create a new empty IDE device structure
    pub fn new() -> (r: Self)
        ensures
            empty_device(r),
    {
        let r = IdeDevice {
            reserved: 0,
            channel: 0,
            drive: 0,
            drive_type: 0,
            signature: 0,
            capabilities: 0,
            command_sets: 0,
            size: 0,
            model: [0; 41],
        };
        proof {
            assert(r.model@ =~= Seq::new(41, |i: int| 0u8));
        }
        r
    }
}

} // verus!
