//! AHCI driver level: recognizing controllers among PCI functions, setting a controller up
//! from its PCI data, walking its implemented ports, and the registry of devices found.
//!
//! Configuration space and controller registers are read and written by the caller.
use vstd::prelude::*;

use crate::ahci::command::{AtaCommand, BufferId, CommandResult};
use crate::ahci::consts::{HBA_GHC_AE, HBA_GHC_HR, HBA_GHC_IE, HBA_MAX_PORTS};
use crate::ahci::device::{AhciDevice, DeviceInfo, TransferPart};
use crate::ahci::error::{AhciError, AhciResult};
use crate::ahci::port::AhciPort;

verus! {

/// Size of the mapped HBA register block
pub const HBA_SIZE: usize = 4096;

/// Offset of the first port's registers in the HBA block
pub const PORT_REGISTERS_OFFSET: u64 = 0x100;

/// Size of one port's registers
pub const PORT_REGISTERS_SIZE: u64 = 0x80;

/// Whether a PCI function is an AHCI controller: mass storage class (0x01), SATA subclass
/// (0x06), AHCI programming interface (0x01).
pub fn is_ahci_controller(class_code: u8, subclass: u8, prog_if: u8) -> (r: bool)
    ensures
        r == (class_code == 0x01 && subclass == 0x06 && prog_if == 0x01),
{
    class_code == 0x01 && subclass == 0x06 && prog_if == 0x01
}

/// PCI device information for AHCI controller
#[derive(Debug, Clone, Copy, PartialEq, Eq, Structural)]
pub struct PciDeviceInfo {
    pub bus: u8,
    pub device: u8,
    pub function: u8,
    pub vendor_id: u16,
    pub device_id: u16,
    /// Physical address of the HBA registers (BAR5)
    pub abar: u64,
}

/// The HBA register block: where it lies and how large it is
#[derive(Debug, Clone, Copy, PartialEq, Eq, Structural)]
pub struct AhciHba {
    /// Address the registers are reached at
    pub base_addr: u64,
    /// Physical address of HBA memory (ABAR)
    pub phys_addr: u64,
    /// Size of mapped region
    pub size: usize,
}

impl AhciHba {
    /// Create new HBA mapping: the registers are reached at their physical address
    pub fn new(phys_addr: u64) -> (r: AhciResult<Self>)
        ensures
            r == Ok::<AhciHba, AhciError>(AhciHba { base_addr: phys_addr, phys_addr, size: HBA_SIZE }),
    {
        Ok(Self { base_addr: phys_addr, phys_addr, size: HBA_SIZE })
    }

    /// Address of a port's registers: refused for a port past the last one
    pub fn get_port_registers(&self, port: u8) -> (r: AhciResult<u64>)
        requires
            self.base_addr + PORT_REGISTERS_OFFSET + HBA_MAX_PORTS * PORT_REGISTERS_SIZE <= u64::MAX,
        ensures
            port >= HBA_MAX_PORTS ==> r == Err::<u64, AhciError>(AhciError::InvalidPort),
            port < HBA_MAX_PORTS ==> r == Ok::<u64, AhciError>(
                (self.base_addr + PORT_REGISTERS_OFFSET + port * PORT_REGISTERS_SIZE) as u64,
            ),
    {
        if port as usize >= HBA_MAX_PORTS {
            return Err(AhciError::InvalidPort);
        }
        Ok(self.base_addr + PORT_REGISTERS_OFFSET + (port as u64) * PORT_REGISTERS_SIZE)
    }

    /// Global control with AHCI mode enabled
    pub fn ahci_enabled(ghc: u32) -> (r: u32)
        ensures
            r == ghc | HBA_GHC_AE,
    {
        ghc | HBA_GHC_AE
    }

    /// Global control with the HBA reset bit set
    pub fn reset_requested(ghc: u32) -> (r: u32)
        ensures
            r == ghc | HBA_GHC_HR,
    {
        ghc | HBA_GHC_HR
    }

    /// Whether the HBA reset has finished: the reset bit reads back clear
    pub fn reset_done(ghc: u32) -> (r: bool)
        ensures
            r == (ghc & HBA_GHC_HR == 0),
    {
        ghc & HBA_GHC_HR == 0
    }

    /// Global control with interrupts enabled
    pub fn interrupts_enabled(ghc: u32) -> (r: u32)
        ensures
            r == ghc | HBA_GHC_IE,
    {
        ghc | HBA_GHC_IE
    }

    /// Global control with interrupts disabled
    pub fn interrupts_disabled(ghc: u32) -> (r: u32)
        ensures
            r == ghc & !HBA_GHC_IE,
    {
        ghc & !HBA_GHC_IE
    }
}

/// AHCI Controller representation
pub struct AhciController {
    /// PCI device information
    pci_info: PciDeviceInfo,
    /// HBA registers
    hba: AhciHba,
    /// Ports with a device on this controller
    ports: Vec<Option<AhciPort>>,
    /// Interrupt vector for this controller
    interrupt_vector: Option<u8>,
}

impl AhciController {
    /// The controller's PCI data.
    pub closed spec fn spec_pci_info(&self) -> PciDeviceInfo {
        self.pci_info
    }

    /// The controller's register block.
    pub closed spec fn spec_hba(&self) -> AhciHba {
        self.hba
    }

    /// For each port, its number where a device was recorded on it.
    pub closed spec fn spec_ports(&self) -> Seq<Option<u8>> {
        self.ports@.map_values(|p: Option<AhciPort>| match p {
            Some(q) => Some(q.spec_number()),
            None => None,
        })
    }

    /// Well-formed: one entry per port.
    pub closed spec fn wf(&self) -> bool {
        self.ports@.len() == HBA_MAX_PORTS
    }

    /// The controller's PCI data
    pub fn pci_info(&self) -> (r: PciDeviceInfo)
        ensures
            r == self.spec_pci_info(),
    {
        self.pci_info
    }

    /// The controller's register block
    pub fn hba(&self) -> (r: AhciHba)
        ensures
            r == self.spec_hba(),
    {
        self.hba
    }

    /// Check the capabilities the driver needs: at least one command slot and one port,
    /// which the capability word always encodes (both fields count from one).
    pub fn check_capabilities(&self, cap: u32) -> (r: AhciResult<()>)
        ensures
            r is Ok,
    {
        assert((cap >> 8u32) & 0x1F <= 0x1F && cap & 0x1F <= 0x1F) by (bit_vector);
        let max_cmd_slots: u32 = ((cap >> 8) & 0x1F) + 1;
        let max_ports: u32 = (cap & 0x1F) + 1;
        if max_cmd_slots == 0 || max_ports == 0 {
            return Err(AhciError::UnsupportedCapability);
        }
        Ok(())
    }

    /// A new port to initialize: refused for a port past the last one
    pub fn init_port(&self, port_num: usize) -> (r: AhciResult<AhciPort>)
        ensures
            port_num >= HBA_MAX_PORTS ==> r == Err::<AhciPort, AhciError>(AhciError::InvalidPort),
            port_num < HBA_MAX_PORTS ==> (r matches Ok(p) && p.spec_number() == port_num && p.mask() == u32::MAX),
    {
        if port_num >= HBA_MAX_PORTS {
            return Err(AhciError::InvalidPort);
        }
        Ok(AhciPort::new(port_num as u8))
    }

    /// Record the port a device was found on
    pub fn set_port(&mut self, port_num: usize, port: AhciPort)
        requires
            old(self).wf(),
            port_num < HBA_MAX_PORTS,
        ensures
            final(self).wf(),
            final(self).spec_ports() == old(self).spec_ports().update(port_num as int, Some(port.spec_number())),
            final(self).spec_pci_info() == old(self).spec_pci_info(),
            final(self).spec_hba() == old(self).spec_hba(),
    {
        let ghost n = port.spec_number();
        self.ports.set(port_num, Some(port));
        proof {
            assert(self.spec_ports() =~= old(self).spec_ports().update(port_num as int, Some(n)));
        }
    }
}

/// Create AHCI controller from PCI data: `abar` is the address of BAR5 where that BAR is a
/// memory BAR. Refused where it is not, or where the address is zero.
pub fn create_controller(
    bus: u8,
    device: u8,
    function: u8,
    vendor_id: u16,
    device_id: u16,
    abar: Option<u64>,
) -> (r: AhciResult<AhciController>)
    ensures
        abar is None || abar == Some(0u64) ==> r matches Err(AhciError::InvalidBar),
        abar matches Some(a) ==> (a != 0 ==> (r matches Ok(c) && c.wf() && c.spec_pci_info() == (PciDeviceInfo {
            bus,
            device,
            function,
            vendor_id,
            device_id,
            abar: a,
        }) && c.spec_hba() == (AhciHba { base_addr: a, phys_addr: a, size: HBA_SIZE }) && c.spec_ports()
            == Seq::new(32, |i: int| None::<u8>))),
{
    let abar = match abar {
        Some(a) => a,
        None => return Err(AhciError::InvalidBar),
    };
    if abar == 0 {
        return Err(AhciError::InvalidBar);
    }
    let pci_info = PciDeviceInfo { bus, device, function, vendor_id, device_id, abar };
    let hba = match AhciHba::new(abar) {
        Ok(h) => h,
        Err(e) => return Err(e),
    };
    let mut ports: Vec<Option<AhciPort>> = Vec::new();
    let mut i: usize = 0;
    while i < HBA_MAX_PORTS
        invariant
            i <= HBA_MAX_PORTS,
            ports@.len() == i,
            forall|k: int| 0 <= k < i ==> (#[trigger] ports@[k]) is None,
        decreases HBA_MAX_PORTS - i,
    {
        ports.push(None);
        i = i + 1;
    }
    let c = AhciController { pci_info, hba, ports, interrupt_vector: None };
    proof {
        assert(c.spec_ports() =~= Seq::new(32, |i: int| None::<u8>));
    }
    Ok(c)
}

/// Whether a port's bit is set in the implemented-ports word.
pub open spec fn port_implemented(pi: u32, port: int) -> bool {
    0 <= port < 32 && (pi >> (port as u32)) & 1 == 1
}

/// The implemented ports, in increasing order.
pub fn implemented_ports(pi: u32) -> (r: Vec<u8>)
    ensures
        forall|i: int, j: int| 0 <= i < j < r@.len() ==> r@[i] < r@[j],
        forall|p: int| 0 <= p < 32 ==> (port_implemented(pi, p) <==> r@.contains(p as u8)),
        forall|i: int| 0 <= i < r@.len() ==> r@[i] < 32,
{
    let mut r: Vec<u8> = Vec::new();
    let mut p: u8 = 0;
    while p < 32
        invariant
            p <= 32,
            forall|i: int, j: int| 0 <= i < j < r@.len() ==> r@[i] < r@[j],
            forall|i: int| 0 <= i < r@.len() ==> r@[i] < p,
            forall|q: int| 0 <= q < p ==> (port_implemented(pi, q) <==> r@.contains(q as u8)),
        decreases 32 - p,
    {
        let ghost before = r@;
        if (pi >> p as u32) & 1 == 1 {
            r.push(p);
            proof {
                assert(r@[r@.len() - 1] == p);
                assert forall|q: int| 0 <= q < p + 1 implies (port_implemented(pi, q) <==> r@.contains(
                    q as u8,
                )) by {
                    if q < p {
                        if before.contains(q as u8) {
                            let k = choose|k: int| 0 <= k < before.len() && before[k] == q as u8;
                            assert(r@[k] == q as u8);
                        }
                        if r@.contains(q as u8) {
                            let k = choose|k: int| 0 <= k < r@.len() && r@[k] == q as u8;
                            if k == r@.len() - 1 {
                                assert(false);
                            } else {
                                assert(before[k] == q as u8);
                            }
                        }
                    } else {
                        assert(r@[r@.len() - 1] == q as u8);
                    }
                }
            }
        } else {
            proof {
                assert forall|q: int| 0 <= q < p + 1 implies (port_implemented(pi, q) <==> r@.contains(
                    q as u8,
                )) by {
                    if q == p {
                        if r@.contains(q as u8) {
                            let k = choose|k: int| 0 <= k < r@.len() && r@[k] == q as u8;
                            assert(r@[k] < p);
                        }
                    }
                }
            }
        }
        p = p + 1;
    }
    r
}

/// Two device descriptions agree in every field.
pub open spec fn same_info(a: DeviceInfo, b: DeviceInfo) -> bool {
    &&& a.device_type == b.device_type
    &&& a.model@ == b.model@
    &&& a.serial@ == b.serial@
    &&& a.firmware@ == b.firmware@
    &&& a.total_sectors == b.total_sectors
    &&& a.sector_size == b.sector_size
    &&& a.physical_sector_size == b.physical_sector_size
    &&& a.capabilities == b.capabilities
    &&& a.present == b.present
}

/// Main AHCI driver structure: the controllers found and the devices on them, a device's
/// ID being its position in the order found.
pub struct AhciDriver {
    /// AHCI controllers discovered via PCI
    controllers: Vec<AhciController>,
    /// Device registry
    devices: Vec<AhciDevice>,
}

impl AhciDriver {
    /// The devices, in the order they were found.
    pub closed spec fn spec_devices(&self) -> Seq<AhciDevice> {
        self.devices@
    }

    /// The controllers, in the order they were found.
    pub closed spec fn spec_controllers(&self) -> Seq<AhciController> {
        self.controllers@
    }

    /// A driver with no controller and no device
    pub fn new() -> (r: Self)
        ensures
            r.spec_devices() == Seq::<AhciDevice>::empty(),
            r.spec_controllers() == Seq::<AhciController>::empty(),
    {
        AhciDriver { controllers: Vec::new(), devices: Vec::new() }
    }

    /// Record a controller found on the PCI bus
    pub fn add_controller(&mut self, controller: AhciController)
        ensures
            final(self).spec_controllers() == old(self).spec_controllers().push(controller),
            final(self).spec_devices() == old(self).spec_devices(),
    {
        self.controllers.push(controller);
    }

    /// Record a device found on a port; it gets the next device ID
    pub fn add_device(&mut self, device: AhciDevice) -> (r: u32)
        requires
            old(self).spec_devices().len() < u32::MAX,
        ensures
            r == old(self).spec_devices().len(),
            final(self).spec_devices() == old(self).spec_devices().push(device),
            final(self).spec_controllers() == old(self).spec_controllers(),
    {
        let id = self.devices.len() as u32;
        self.devices.push(device);
        id
    }

    /// The outcome of the scan of the PCI bus: at least one controller must have been found
    pub fn finish_scan(&self) -> (r: AhciResult<()>)
        ensures
            r is Ok <==> self.spec_controllers().len() > 0,
            r is Err ==> r == Err::<(), AhciError>(AhciError::NoControllersFound),
    {
        if self.controllers.len() == 0 {
            return Err(AhciError::NoControllersFound);
        }
        Ok(())
    }

    /// Number of controllers
    pub fn controller_count(&self) -> (r: usize)
        ensures
            r == self.spec_controllers().len(),
    {
        self.controllers.len()
    }

    /// Number of devices
    pub fn device_count(&self) -> (r: usize)
        ensures
            r == self.spec_devices().len(),
    {
        self.devices.len()
    }

    /// The commands that reads from a device, by device ID, each with where its data sits in the
    /// buffer: refused for an unknown ID, and otherwise as the device refuses or cuts up the
    /// read
    pub fn read(&self, device_id: u32, lba: u64, sectors: u32, buffer: BufferId) -> (r: AhciResult<Vec<TransferPart>>)
        requires
            lba + sectors <= u64::MAX,
        ensures
            device_id >= self.spec_devices().len() ==> r == Err::<Vec<TransferPart>, AhciError>(AhciError::DeviceNotFound),
            device_id < self.spec_devices().len() ==> match self.spec_devices()[device_id as int].read_spec(lba, sectors, buffer) {
                Ok(parts) => r matches Ok(v) && v@ == parts,
                Err(e) => r == Err::<Vec<TransferPart>, AhciError>(e),
            },
    {
        if device_id as usize >= self.devices.len() {
            return Err(AhciError::DeviceNotFound);
        }
        self.devices[device_id as usize].read_parts(lba, sectors, buffer)
    }

    /// The commands that writes to a device, by device ID, each with where its data sits in the
    /// buffer: refused for an unknown ID, and otherwise as the device refuses or cuts up the
    /// write
    pub fn write(&self, device_id: u32, lba: u64, sectors: u32, buffer: BufferId) -> (r: AhciResult<Vec<TransferPart>>)
        requires
            lba + sectors <= u64::MAX,
        ensures
            device_id >= self.spec_devices().len() ==> r == Err::<Vec<TransferPart>, AhciError>(AhciError::DeviceNotFound),
            device_id < self.spec_devices().len() ==> match self.spec_devices()[device_id as int].write_spec(lba, sectors, buffer) {
                Ok(parts) => r matches Ok(v) && v@ == parts,
                Err(e) => r == Err::<Vec<TransferPart>, AhciError>(e),
            },
    {
        if device_id as usize >= self.devices.len() {
            return Err(AhciError::DeviceNotFound);
        }
        self.devices[device_id as usize].write_parts(lba, sectors, buffer)
    }

    /// The number of errors a device has had, by device ID
    pub fn device_error_count(&self, device_id: u32) -> (r: Option<u32>)
        ensures
            device_id >= self.spec_devices().len() ==> r is None,
            device_id < self.spec_devices().len() ==> r == Some(self.spec_devices()[device_id as int].spec_errors()),
    {
        if device_id as usize >= self.devices.len() {
            return None;
        }
        Some(self.devices[device_id as usize].error_count())
    }

    /// Record the result of a read or write issued at time `now` on a device, by device ID:
    /// refused for an unknown ID, otherwise as the device records it
    pub fn complete_transfer(&mut self, device_id: u32, result: CommandResult, now: u64) -> (r: AhciResult<()>)
        requires
            device_id < old(self).spec_devices().len() ==> old(self).spec_devices()[device_id as int].spec_errors()
                < u32::MAX,
        ensures
            final(self).spec_controllers() == old(self).spec_controllers(),
            final(self).spec_devices().len() == old(self).spec_devices().len(),
            forall|j: int|
                0 <= j < old(self).spec_devices().len() && j != device_id ==> #[trigger] final(self).spec_devices()[j]
                    == old(self).spec_devices()[j],
            device_id >= old(self).spec_devices().len() ==> r == Err::<(), AhciError>(AhciError::DeviceNotFound),
            device_id < old(self).spec_devices().len() ==> {
                let d = old(self).spec_devices()[device_id as int];
                let e = final(self).spec_devices()[device_id as int];
                &&& (r is Ok <==> result == CommandResult::Success)
                &&& r is Ok ==> e.spec_last_activity() == now && e.spec_errors() == d.spec_errors()
                &&& r is Err ==> r == Err::<(), AhciError>(AhciError::HardwareError) && e.spec_errors()
                    == d.spec_errors() + 1 && e.spec_last_activity() == d.spec_last_activity()
                &&& e.spec_info() == d.spec_info()
                &&& e.spec_online() == d.spec_online()
            },
    {
        if device_id as usize >= self.devices.len() {
            return Err(AhciError::DeviceNotFound);
        }
        let idx = device_id as usize;
        let mut device = self.devices.remove(idx);
        let r = device.complete_transfer(result, now);
        self.devices.insert(idx, device);
        r
    }

    /// Get device information, by device ID
    pub fn get_device_info(&self, device_id: u32) -> (r: Option<DeviceInfo>)
        ensures
            device_id >= self.spec_devices().len() ==> r is None,
            device_id < self.spec_devices().len() ==> (r matches Some(info) && same_info(
                info,
                self.spec_devices()[device_id as int].spec_info(),
            )),
    {
        if device_id as usize >= self.devices.len() {
            return None;
        }
        Some(self.devices[device_id as usize].get_info())
    }

    /// List all available devices with their IDs, in ID order
    pub fn list_devices(&self) -> (r: Vec<(u32, DeviceInfo)>)
        requires
            self.spec_devices().len() <= u32::MAX + 1,
        ensures
            r@.len() == self.spec_devices().len(),
            forall|i: int|
                0 <= i < r@.len() ==> (#[trigger] r@[i]).0 == i && same_info(r@[i].1, self.spec_devices()[i].spec_info()),
    {
        let mut r: Vec<(u32, DeviceInfo)> = Vec::new();
        let mut i: usize = 0;
        while i < self.devices.len()
            invariant
                i <= self.devices@.len(),
                self.devices@.len() <= u32::MAX + 1,
                r@.len() == i,
                forall|k: int|
                    0 <= k < i ==> (#[trigger] r@[k]).0 == k && same_info(r@[k].1, self.devices@[k].spec_info()),
            decreases self.devices@.len() - i,
        {
            let info = self.devices[i].get_info();
            r.push((i as u32, info));
            i = i + 1;
        }
        r
    }
}

} // verus!
