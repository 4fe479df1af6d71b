//! Choosing the USB host controller and handing ports over to it.
use vstd::prelude::*;

verus! {

use crate::pci::{Config, Device, device_in_range, read_conf_reg, read_regs, write_conf_reg, spec_addr};

/// Whether the device is an xHCI controller (class 0c.03.30).
pub open spec fn is_xhc(d: Device) -> bool {
    d.class_code.base == 0x0c && d.class_code.sub == 0x03 && d.class_code.interface == 0x30
}

/// Whether the device is an Intel EHCI controller (class 0c.03.20, vendor 8086).
pub open spec fn is_intel_ehc(d: Device) -> bool {
    d.class_code.base == 0x0c && d.class_code.sub == 0x03 && d.class_code.interface == 0x20
        && d.vendor_id == 0x8086
}

/// The xHC to use: the first Intel one, else the last one found.
pub fn find_xhc(devices: &[Device]) -> (r: Option<Device>)
    ensures
        match r {
            Some(d) => exists|i: int|
                0 <= i < devices@.len() && devices@[i] == d && is_xhc(d) && (d.vendor_id == 0x8086
                    ==> forall|j: int| 0 <= j < i ==> !(#[trigger] is_xhc(devices@[j]) && devices@[j].vendor_id == 0x8086))
                    && (d.vendor_id != 0x8086 ==> forall|j: int|
                    0 <= j < devices@.len() && j != i ==> !(#[trigger] is_xhc(devices@[j]) && (j > i
                        || devices@[j].vendor_id == 0x8086))),
            None => forall|j: int| 0 <= j < devices@.len() ==> !#[trigger] is_xhc(devices@[j]),
        },
{
    let mut xhc_dev: Option<Device> = None;
    let ghost mut xhc_idx: int = -1;
    let mut i: usize = 0;
    while i < devices.len()
        invariant
            i <= devices@.len(),
            xhc_dev is None <==> xhc_idx == -1,
            xhc_dev is None ==> forall|j: int| 0 <= j < i ==> !#[trigger] is_xhc(devices@[j]),
            xhc_dev matches Some(d) ==> 0 <= xhc_idx < i && devices@[xhc_idx] == d && is_xhc(d)
                && d.vendor_id != 0x8086,
            xhc_dev is Some ==> forall|j: int|
                0 <= j < i && j != xhc_idx ==> !(#[trigger] is_xhc(devices@[j]) && (j > xhc_idx
                    || devices@[j].vendor_id == 0x8086)),
            forall|j: int| 0 <= j < i ==> !(#[trigger] is_xhc(devices@[j]) && devices@[j].vendor_id == 0x8086),
        decreases devices@.len() - i,
    {
        let dev = devices[i];
        // is the device is xHC?
        if dev.class_code.test3(0x0c, 0x03, 0x30) {
            xhc_dev = Some(dev);
            proof {
                xhc_idx = i as int;
            }
            if dev.vendor_id == 0x8086 {
                // prefer Intel's xHC
                return xhc_dev;
            }
        }
        i = i + 1;
    }
    xhc_dev
}

/// Hands the USB ports over from an Intel EHCI controller to the xHC: when
/// the list has one, copies the superspeed port mask (register 0xdc) to
/// 0xf8 and then the EHCI-to-xHCI port mask (0xd4) to 0xd0.
pub fn switch_ehci_to_xhci(config: &mut Config, devices: &[Device], xhc_dev: &Device)
    requires
        device_in_range(*xhc_dev),
    ensures
        ({
            let a = |reg: u8| spec_addr(xhc_dev.bus, xhc_dev.device, xhc_dev.function, reg);
            let v1 = read_regs(old(config).regs(), a(0xdc));
            let v2 = read_regs(old(config).regs().push((a(0xf8), v1)), a(0xd4));
            if exists|i: int| 0 <= i < devices@.len() && #[trigger] is_intel_ehc(devices@[i]) {
                &&& final(config).writes() == old(config).writes() + seq![(a(0xf8), v1), (a(0xd0), v2)]
                &&& final(config).regs() == old(config).regs() + seq![(a(0xf8), v1), (a(0xd0), v2)]
            } else {
                *final(config) == *old(config)
            }
        }),
{
    let mut intel_ehc_exists = false;
    let mut i: usize = 0;
    while i < devices.len()
        invariant
            i <= devices@.len(),
            intel_ehc_exists == exists|j: int| 0 <= j < i && #[trigger] is_intel_ehc(devices@[j]),
        decreases devices@.len() - i,
    {
        let dev = devices[i];
        if dev.class_code.test3(0x0c, 0x03, 0x20) && dev.vendor_id == 0x8086 {
            intel_ehc_exists = true;
            assert(is_intel_ehc(devices@[i as int]));
        }
        i = i + 1;
    }
    if !intel_ehc_exists {
        return;
    }
    assert(0xdcu8 & 3 == 0 && 0xf8u8 & 3 == 0 && 0xd4u8 & 3 == 0 && 0xd0u8 & 3 == 0) by (bit_vector);
    let ghost w0 = config.writes();
    let ghost r0 = config.regs();
    let superspeed_ports = read_conf_reg(config, xhc_dev, 0xdc);  // USB3PRM
    write_conf_reg(config, xhc_dev, 0xf8, superspeed_ports);  // USB3_PSSEN
    let ehci2xhci_ports = read_conf_reg(config, xhc_dev, 0xd4);  // XUSB2PRM
    write_conf_reg(config, xhc_dev, 0xd0, ehci2xhci_ports);  // XUSB2PR
    assert(config.writes() == w0 + seq![
        (spec_addr(xhc_dev.bus, xhc_dev.device, xhc_dev.function, 0xf8), superspeed_ports),
        (spec_addr(xhc_dev.bus, xhc_dev.device, xhc_dev.function, 0xd0), ehci2xhci_ports),
    ]);
    assert(config.regs() == r0 + seq![
        (spec_addr(xhc_dev.bus, xhc_dev.device, xhc_dev.function, 0xf8), superspeed_ports),
        (spec_addr(xhc_dev.bus, xhc_dev.device, xhc_dev.function, 0xd0), ehci2xhci_ports),
    ]);
}

/// The base of the controller's memory-mapped registers: BAR0 with its four
/// low flag bits cleared.
pub fn xhc_mmio_base(bar: u64) -> (r: u64)
    ensures
        r == bar - bar % 16,
        r % 16 == 0,
{
    let r = bar & !0xfu64;
    assert(bar & !0xfu64 == bar - bar % 16) by (bit_vector);
    assert((bar - bar % 16) as u64 % 16 == 0) by (bit_vector);
    r
}

/// What handing the ports over from EHCI does to the configuration space
/// (see `switch_ehci_to_xhci`): with an Intel EHCI controller in `devices`,
/// the two port masks are copied; otherwise nothing is written.
pub open spec fn ports_handed_over(before: &Config, after: &Config, devices: Seq<Device>, xhc_dev: Device) -> bool {
    let a = |reg: u8| spec_addr(xhc_dev.bus, xhc_dev.device, xhc_dev.function, reg);
    let v1 = read_regs(before.regs(), a(0xdc));
    let v2 = read_regs(before.regs().push((a(0xf8), v1)), a(0xd4));
    if exists|i: int| 0 <= i < devices.len() && #[trigger] is_intel_ehc(devices[i]) {
        &&& after.writes() == before.writes() + seq![(a(0xf8), v1), (a(0xd0), v2)]
        &&& after.regs() == before.regs() + seq![(a(0xf8), v1), (a(0xd0), v2)]
    } else {
        *after == *before
    }
}

/// Hands the USB ports over from EHCI to the chosen xHC when that xHC is
/// Intel's (vendor 8086); leaves the configuration space alone otherwise.
pub fn hand_over_ports(config: &mut Config, devices: &[Device], xhc_dev: &Device)
    requires
        device_in_range(*xhc_dev),
    ensures
        xhc_dev.vendor_id == 0x8086 ==> ports_handed_over(old(config), final(config), devices@, *xhc_dev),
        xhc_dev.vendor_id != 0x8086 ==> *final(config) == *old(config),
{
    if xhc_dev.vendor_id == 0x8086 {
        switch_ehci_to_xhci(config, devices, xhc_dev);
    }
}

} // verus!
