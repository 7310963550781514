//! What the PCI scan reports of each function: vendor and device names from the PCI ID
//! database, and the kind of bus interface its capabilities show.
use vstd::prelude::*;

verus! {

/// The name the compiled-in PCI ID database gives a vendor, where it lists the vendor.
pub uninterp spec fn pci_vendor_name(vendor_id: u16) -> Option<Seq<char>>;

/// The name the compiled-in PCI ID database gives a device of a vendor, where it lists it.
pub uninterp spec fn pci_device_name(vendor_id: u16, device_id: u16) -> Option<Seq<char>>;

/// Looks the vendor up with `ids_rs::PciDatabase::find_vendor` in the database that
/// `ids_rs::PciDatabase::get` returns, and gives the vendor's name. The database is compiled
/// into the crate, so the answer depends on the ID alone; what it contains is not stated.
#[verifier::external_body]
fn database_vendor_name(vendor_id: u16) -> (r: Option<&'static str>)
    ensures
        match r {
            Some(name) => pci_vendor_name(vendor_id) == Some(name@),
            None => pci_vendor_name(vendor_id) is None,
        },
{
    match ids_rs::PciDatabase::get().find_vendor(ids_rs::VendorId::new(vendor_id)) {
        Some(vendor) => Some(vendor.name),
        None => None,
    }
}

/// Looks the device up with `ids_rs::PciDatabase::find_device` (the vendor, then the device
/// among the vendor's) in the database that `ids_rs::PciDatabase::get` returns, and gives the
/// device's name. The database is compiled into the crate; what it contains is not stated.
#[verifier::external_body]
fn database_device_name(vendor_id: u16, device_id: u16) -> (r: Option<&'static str>)
    ensures
        match r {
            Some(name) => pci_device_name(vendor_id, device_id) == Some(name@),
            None => pci_device_name(vendor_id, device_id) is None,
        },
{
    match ids_rs::PciDatabase::get().find_device(
        ids_rs::VendorId::new(vendor_id),
        ids_rs::DeviceId::new(device_id),
    ) {
        Some(device) => Some(device.name),
        None => None,
    }
}

/// The vendor's name, or "Unknown Vendor" where the database does not list it.
pub fn vendor_name(vendor_id: u16) -> (r: &'static str)
    ensures
        r@ == match pci_vendor_name(vendor_id) {
            Some(name) => name,
            None => "Unknown Vendor"@,
        },
{
    match database_vendor_name(vendor_id) {
        Some(name) => name,
        None => "Unknown Vendor",
    }
}

/// The device's name, or "Unknown Device" where the database does not list it.
pub fn device_name(vendor_id: u16, device_id: u16) -> (r: &'static str)
    ensures
        r@ == match pci_device_name(vendor_id, device_id) {
            Some(name) => name,
            None => "Unknown Device"@,
        },
{
    match database_device_name(vendor_id, device_id) {
        Some(name) => name,
        None => "Unknown Device",
    }
}

/// Capability ID of PCI Express
pub const CAP_ID_PCI_EXPRESS: u8 = 0x10;

/// The kind of interface a function has, from the IDs of its capabilities (`None` where its
/// capability list cannot be read): PCI Express where one capability is the PCI Express
/// one, plain PCI where it has any capability, otherwise legacy.
pub fn pci_type(capability_ids: Option<&[u8]>) -> (r: &'static str)
    ensures
        r@ == match capability_ids {
            Some(ids) => if ids@.contains(CAP_ID_PCI_EXPRESS) {
                "PCI Express"@
            } else if ids@.len() > 0 {
                "PCI"@
            } else {
                "Legacy/Non-PCI"@
            },
            None => "Legacy/Non-PCI"@,
        },
{
    let mut is_pcie = false;
    let mut has_capabilities = false;
    match capability_ids {
        Some(ids) => {
            let mut i: usize = 0;
            while i < ids.len()
                invariant
                    i <= ids@.len(),
                    has_capabilities == (i > 0),
                    is_pcie == ids@.take(i as int).contains(CAP_ID_PCI_EXPRESS),
                decreases ids@.len() - i,
            {
                proof {
                    let t = ids@.take(i as int);
                    let x = ids@[i as int];
                    assert(ids@.take(i + 1) =~= t.push(x));
                    if t.contains(CAP_ID_PCI_EXPRESS) {
                        let k = choose|k: int| 0 <= k < t.len() && t[k] == CAP_ID_PCI_EXPRESS;
                        assert(t.push(x)[k] == CAP_ID_PCI_EXPRESS);
                    }
                    if x == CAP_ID_PCI_EXPRESS {
                        assert(t.push(x)[t.len() as int] == CAP_ID_PCI_EXPRESS);
                    }
                    if t.push(x).contains(CAP_ID_PCI_EXPRESS) {
                        let k = choose|k: int| 0 <= k < t.len() + 1 && t.push(x)[k] == CAP_ID_PCI_EXPRESS;
                        if k < t.len() {
                            assert(t[k] == CAP_ID_PCI_EXPRESS);
                        }
                    }
                }
                has_capabilities = true;
                if ids[i] == CAP_ID_PCI_EXPRESS {
                    is_pcie = true;
                }
                i = i + 1;
            }
            proof {
                assert(ids@.take(ids@.len() as int) =~= ids@);
            }
        },
        None => {},
    }
    if is_pcie {
        "PCI Express"
    } else if has_capabilities {
        "PCI"
    } else {
        "Legacy/Non-PCI"
    }
}

} // verus!
