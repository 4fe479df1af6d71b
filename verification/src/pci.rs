//! PCI configuration space: device discovery, base address registers and MSI
//! set-up.
use vstd::prelude::*;

verus! {

use crate::bits::{
    get_bit_u16,
    get_bits_u16,
    set_bit_u16,
    set_bit_u32,
    set_bits_u16,
    set_bits_u32,
    spec_set_bit_u16,
    spec_set_bits_u16,
};
use crate::error::{Error, ErrorKind, Result};

/// Vendor identifier read from a function that does not exist.
pub const INVALID_VENDOR_ID: u16 = 0xffff;

/// The configuration address of register `reg_addr` of a function.
pub open spec fn spec_addr(bus: u8, device: u8, function: u8, reg_addr: u8) -> u32 {
    0x8000_0000u32 | ((bus as u32) << 16u32) | ((device as u32) << 11u32) | ((function as u32)
        << 8u32) | (reg_addr as u32)
}

/// A configuration space address: enable bit, bus, device, function and
/// register.
#[derive(Debug, Clone, Copy, PartialEq, Eq, Structural)]
pub struct Addr(pub u32);

impl Addr {
    /// The address of register `reg_addr` (a multiple of 4) of function
    /// `function` of device `device` on bus `bus`.
    pub fn new(bus: u8, device: u8, function: u8, reg_addr: u8) -> (r: Addr)
        requires
            reg_addr & 3 == 0,
            device < 32,
            function < 8,
        ensures
            r.0 == spec_addr(bus, device, function, reg_addr),
    {
        let reg = reg_addr as u32;
        let fun = function as u32;
        let dev = device as u32;
        let b = bus as u32;
        assert((reg << 24u32) >> 24u32 == reg) by (bit_vector)
            requires
                reg < 256,
        ;
        let v1 = set_bits_u32(0, 0, 8, reg);
        assert(v1 == reg) by (bit_vector)
            requires
                v1 == (0u32 & !(((!0u32 << 24u32) >> 24u32) >> 0u32 << 0u32)) | (reg << 0u32),
        ;
        assert((fun << 29u32) >> 29u32 == fun) by (bit_vector)
            requires
                fun < 8,
        ;
        let v2 = set_bits_u32(v1, 8, 11, fun);
        assert(v2 == reg | (fun << 8u32)) by (bit_vector)
            requires
                v2 == (v1 & !(((!0u32 << 21u32) >> 21u32) >> 8u32 << 8u32)) | (fun << 8u32),
                v1 == reg,
                reg < 256,
        ;
        assert((dev << 27u32) >> 27u32 == dev) by (bit_vector)
            requires
                dev < 32,
        ;
        let v3 = set_bits_u32(v2, 11, 16, dev);
        assert(v3 == reg | (fun << 8u32) | (dev << 11u32)) by (bit_vector)
            requires
                v3 == (v2 & !(((!0u32 << 16u32) >> 16u32) >> 11u32 << 11u32)) | (dev << 11u32),
                v2 == reg | (fun << 8u32),
                reg < 256,
                fun < 8,
        ;
        assert((b << 24u32) >> 24u32 == b) by (bit_vector)
            requires
                b < 256,
        ;
        let v4 = set_bits_u32(v3, 16, 24, b);
        assert(v4 == reg | (fun << 8u32) | (dev << 11u32) | (b << 16u32)) by (bit_vector)
            requires
                v4 == (v3 & !(((!0u32 << 8u32) >> 8u32) >> 16u32 << 16u32)) | (b << 16u32),
                v3 == reg | (fun << 8u32) | (dev << 11u32),
                reg < 256,
                fun < 8,
                dev < 32,
        ;
        assert((0u32 << 25u32) >> 25u32 == 0u32) by (bit_vector);
        let v5 = set_bits_u32(v4, 24, 31, 0);
        assert(v5 == v4) by (bit_vector)
            requires
                v5 == (v4 & !(((!0u32 << 1u32) >> 1u32) >> 24u32 << 24u32)) | (0u32 << 24u32),
                v4 == reg | (fun << 8u32) | (dev << 11u32) | (b << 16u32),
                reg < 256,
                fun < 8,
                dev < 32,
                b < 256,
        ;
        let v6 = set_bit_u32(v5, 31, true);
        assert(v6 == 0x8000_0000u32 | (b << 16u32) | (dev << 11u32) | (fun << 8u32) | reg)
            by (bit_vector)
            requires
                v6 == v5 | (1u32 << 31u32),
                v5 == reg | (fun << 8u32) | (dev << 11u32) | (b << 16u32),
        ;
        Addr(v6)
    }
}

proof fn lemma_masks(v: u32)
    ensures
        v & 0xffff <= 0xffff,
        (v >> 16) & 0xff <= 0xff,
        (v >> 24) & 0xff <= 0xff,
        (v >> 8) & 0xff <= 0xff,
        0x00u8 & 3 == 0,
        0x08u8 & 3 == 0,
        0x0cu8 & 3 == 0,
        0x18u8 & 3 == 0,
        0x34u8 & 3 == 0,
{
    assert(v & 0xffff <= 0xffff) by (bit_vector);
    assert((v >> 16) & 0xff <= 0xff) by (bit_vector);
    assert((v >> 24) & 0xff <= 0xff) by (bit_vector);
    assert((v >> 8) & 0xff <= 0xff) by (bit_vector);
    assert(0x00u8 & 3 == 0) by (bit_vector);
    assert(0x08u8 & 3 == 0) by (bit_vector);
    assert(0x0cu8 & 3 == 0) by (bit_vector);
    assert(0x18u8 & 3 == 0) by (bit_vector);
    assert(0x34u8 & 3 == 0) by (bit_vector);
}

/// The value register `addr` holds in `regs`, where a later entry overrides an
/// earlier one; `None` when no entry names it.
pub open spec fn lookup(regs: Seq<(u32, u32)>, addr: u32) -> Option<u32>
    decreases regs.len(),
{
    if regs.len() == 0 {
        None
    } else if regs.last().0 == addr {
        Some(regs.last().1)
    } else {
        lookup(regs.drop_last(), addr)
    }
}

/// What reading `addr` gives when the registers are `regs`: the register's
/// value, or all ones where no function answers.
pub open spec fn read_regs(regs: Seq<(u32, u32)>, addr: u32) -> u32 {
    match lookup(regs, addr) {
        Some(v) => v,
        None => 0xffff_ffffu32,
    }
}

/// A view of the PCI configuration space: the registers' values, and the
/// writes made to it in order.
#[derive(Debug)]
pub struct Config {
    regs: Vec<(u32, u32)>,
    writes: Vec<(u32, u32)>,
}

impl Config {
    /// The register entries.
    pub closed spec fn regs(&self) -> Seq<(u32, u32)> {
        self.regs@
    }

    /// The writes made so far, in order.
    pub closed spec fn writes(&self) -> Seq<(u32, u32)> {
        self.writes@
    }

    /// What reading configuration address `addr` gives: the register's value,
    /// or all ones where no function answers.
    pub open spec fn spec_read(&self, addr: u32) -> u32 {
        read_regs(self.regs(), addr)
    }

    /// A configuration space where no function answers.
    pub fn new() -> (r: Config)
        ensures
            r.regs() == Seq::<(u32, u32)>::empty(),
            r.writes() == Seq::<(u32, u32)>::empty(),
    {
        Config { regs: Vec::new(), writes: Vec::new() }
    }

    /// Records that register `addr` holds `value` (not counted as a write).
    pub fn set(&mut self, addr: Addr, value: u32)
        ensures
            final(self).regs() == old(self).regs().push((addr.0, value)),
            final(self).writes() == old(self).writes(),
    {
        self.regs.push((addr.0, value));
    }

    /// Reads the register at `addr`.
    pub fn read(&self, addr: Addr) -> (r: u32)
        ensures
            r == self.spec_read(addr.0),
    {
        let mut i = self.regs.len();
        assert(self.regs@.subrange(0, i as int) == self.regs@);
        while i > 0
            invariant
                i <= self.regs@.len(),
                lookup(self.regs@, addr.0) == lookup(self.regs@.subrange(0, i as int), addr.0),
            decreases i,
        {
            let (a, v) = self.regs[i - 1];
            let ghost pre = self.regs@.subrange(0, i as int);
            assert(pre.drop_last() == self.regs@.subrange(0, i - 1));
            if a == addr.0 {
                return v;
            }
            i = i - 1;
        }
        0xffff_ffff
    }

    /// Writes `data` to the register at `addr`.
    pub fn write(&mut self, addr: Addr, data: u32)
        ensures
            final(self).regs() == old(self).regs().push((addr.0, data)),
            final(self).writes() == old(self).writes().push((addr.0, data)),
    {
        self.regs.push((addr.0, data));
        self.writes.push((addr.0, data));
    }

    /// The writes made so far, in order.
    pub fn write_log(&self) -> (r: &Vec<(u32, u32)>)
        ensures
            r@ == self.writes(),
    {
        &self.writes
    }
}

/// Reads the vendor identifier of a function.
pub fn read_vendor_id(config: &Config, bus: u8, device: u8, function: u8) -> (r: u16)
    requires
        device < 32,
        function < 8,
    ensures
        r == config.spec_read(spec_addr(bus, device, function, 0x00)) & 0xffff,
{
    proof {
        lemma_masks(0);
    }
    let addr = Addr::new(bus, device, function, 0x00);
    let v = config.read(addr);
    proof {
        lemma_masks(v);
    }
    (v & 0xffff) as u16
}

/// Reads the header type of a function.
pub fn read_header_type(config: &Config, bus: u8, device: u8, function: u8) -> (r: u8)
    requires
        device < 32,
        function < 8,
    ensures
        r == (config.spec_read(spec_addr(bus, device, function, 0x0c)) >> 16) & 0xff,
{
    proof {
        lemma_masks(0);
    }
    let addr = Addr::new(bus, device, function, 0x0c);
    let v = config.read(addr);
    proof {
        lemma_masks(v);
    }
    ((v >> 16) & 0xff) as u8
}

/// A function's class code: base class, subclass and programming interface.
#[derive(Debug, Clone, Copy, PartialEq, Eq, Structural)]
pub struct ClassCode {
    pub base: u8,
    pub sub: u8,
    pub interface: u8,
}

/// The class code a class register holds.
pub open spec fn spec_class_code(reg: u32) -> ClassCode {
    ClassCode {
        base: ((reg >> 24) & 0xff) as u8,
        sub: ((reg >> 16) & 0xff) as u8,
        interface: ((reg >> 8) & 0xff) as u8,
    }
}

/// Reads the class code of a function.
pub fn read_class_code(config: &Config, bus: u8, device: u8, function: u8) -> (r: ClassCode)
    requires
        device < 32,
        function < 8,
    ensures
        r == spec_class_code(config.spec_read(spec_addr(bus, device, function, 0x08))),
{
    proof {
        lemma_masks(0);
    }
    let addr = Addr::new(bus, device, function, 0x08);
    let reg = config.read(addr);
    proof {
        lemma_masks(reg);
    }
    ClassCode {
        base: ((reg >> 24) & 0xff) as u8,
        sub: ((reg >> 16) & 0xff) as u8,
        interface: ((reg >> 8) & 0xff) as u8,
    }
}

/// Reads the bus number register of a PCI-PCI bridge.
pub fn read_bus_number(config: &Config, bus: u8, device: u8, function: u8) -> (r: u32)
    requires
        device < 32,
        function < 8,
    ensures
        r == config.spec_read(spec_addr(bus, device, function, 0x18)),
{
    proof {
        lemma_masks(0);
    }
    let addr = Addr::new(bus, device, function, 0x18);
    config.read(addr)
}

/// Whether a header type marks a single-function device.
pub fn is_single_function_device(header_type: u8) -> (r: bool)
    ensures
        r == (header_type & 0x80 == 0),
{
    (header_type & 0x80) == 0
}

impl ClassCode {
    /// Whether the class code is `base`, `sub`, `interface`.
    pub fn test3(&self, base: u8, sub: u8, interface: u8) -> (r: bool)
        ensures
            r == (self.base == base && self.sub == sub && self.interface == interface),
    {
        self.interface == interface && self.test2(base, sub)
    }

    /// Whether the class code has base class `base` and subclass `sub`.
    pub fn test2(&self, base: u8, sub: u8) -> (r: bool)
        ensures
            r == (self.base == base && self.sub == sub),
    {
        self.sub == sub && self.test1(base)
    }

    /// Whether the class code has base class `base`.
    pub fn test1(&self, base: u8) -> (r: bool)
        ensures
            r == (self.base == base),
    {
        self.base == base
    }
}

/// A PCI function found by scanning.
#[derive(Debug, Clone, Copy, PartialEq, Eq, Structural)]
pub struct Device {
    pub bus: u8,
    pub device: u8,
    pub function: u8,
    pub vendor_id: u16,
    pub class_code: ClassCode,
    pub header_type: u8,
}

/// Whether the device's location is a valid one.
pub open spec fn device_in_range(d: Device) -> bool {
    d.device < 32 && d.function < 8
}

impl Device {
    /// The configuration address of register `reg_addr` of this function.
    pub fn addr(&self, reg_addr: u8) -> (r: Addr)
        requires
            device_in_range(*self),
            reg_addr & 3 == 0,
        ensures
            r.0 == spec_addr(self.bus, self.device, self.function, reg_addr),
    {
        Addr::new(self.bus, self.device, self.function, reg_addr)
    }
}

/// Reads register `reg_addr` of the function `dev`.
pub fn read_conf_reg(config: &Config, dev: &Device, reg_addr: u8) -> (r: u32)
    requires
        device_in_range(*dev),
        reg_addr & 3 == 0,
    ensures
        r == config.spec_read(spec_addr(dev.bus, dev.device, dev.function, reg_addr)),
{
    config.read(dev.addr(reg_addr))
}

/// Writes `value` to register `reg_addr` of the function `dev`.
pub fn write_conf_reg(config: &mut Config, dev: &Device, reg_addr: u8, value: u32)
    requires
        device_in_range(*dev),
        reg_addr & 3 == 0,
    ensures
        final(config).regs() == old(config).regs().push(
            (spec_addr(dev.bus, dev.device, dev.function, reg_addr), value),
        ),
        final(config).writes() == old(config).writes().push(
            (spec_addr(dev.bus, dev.device, dev.function, reg_addr), value),
        ),
{
    config.write(dev.addr(reg_addr), value)
}

/// Register offset of base address register `bar_index`.
pub fn calc_bar_addr(bar_index: u8) -> (r: u8)
    requires
        bar_index < 60,
    ensures
        r == 0x10 + 4 * bar_index,
        r & 3 == 0,
{
    let r = 0x10 + 4 * bar_index;
    assert(r & 3 == 0) by (bit_vector)
        requires
            r == 0x10u8 + 4u8 * bar_index,
            bar_index < 60,
    ;
    r
}

/// Reads base address register `bar_index` (0 to 5) of the function `dev`; a
/// 64-bit register takes the following one as its upper half.
pub fn read_bar(config: &Config, dev: &Device, bar_index: u8) -> (r: Result<u64>)
    requires
        device_in_range(*dev),
    ensures
        ({
            let reg = 0x10 + 4 * bar_index;
            let bar = config.spec_read(spec_addr(dev.bus, dev.device, dev.function, reg as u8));
            let upper = config.spec_read(
                spec_addr(dev.bus, dev.device, dev.function, (reg + 4) as u8),
            );
            if bar_index >= 6 {
                r == Err::<u64, Error>(Error { kind: ErrorKind::IndexOutOfRange })
            } else if bar & 4 == 0 {
                r == Ok::<u64, Error>(bar as u64)
            } else if bar_index >= 5 {
                r == Err::<u64, Error>(Error { kind: ErrorKind::IndexOutOfRange })
            } else {
                r == Ok::<u64, Error>((bar as u64) | ((upper as u64) << 32u64))
            }
        }),
{
    if bar_index >= 6 {
        return Err(Error::new(ErrorKind::IndexOutOfRange));
    }
    let addr = calc_bar_addr(bar_index);
    let bar = read_conf_reg(config, dev, addr);
    // 32 bit address
    if (bar & 4) == 0 {
        return Ok(bar as u64);
    }
    // 64 bit address
    if bar_index >= 5 {
        return Err(Error::new(ErrorKind::IndexOutOfRange));
    }
    assert(((addr + 4) as u8) & 3 == 0) by (bit_vector)
        requires
            addr & 3 == 0,
            addr < 0x28,
    ;
    let bar_upper = read_conf_reg(config, dev, addr + 4);
    Ok((bar as u64) | ((bar_upper as u64) << 32u64))
}

#[verifier::external_type_specification]
#[verifier::external_body]
#[verifier::reject_recursive_types(T)]
pub struct ExArrayVec<T, const CAP: usize>(arrayvec::ArrayVec<T, CAP>);

/// Up to 32 devices found by a scan.
pub type Devices = arrayvec::ArrayVec<Device, 32>;

/// The devices an `arrayvec::ArrayVec` of devices holds, in order.
pub uninterp spec fn device_items(v: arrayvec::ArrayVec<Device, 32>) -> Seq<Device>;

/// Calls `arrayvec::ArrayVec::new`: an empty vector.
#[verifier::external_body]
pub(crate) fn devices_new() -> (r: Devices)
    ensures
        device_items(r) == Seq::<Device>::empty(),
{
    arrayvec::ArrayVec::new()
}

/// Calls `arrayvec::ArrayVec::len`; the crate never holds more than its
/// capacity.
#[verifier::external_body]
pub(crate) fn devices_len(v: &Devices) -> (r: usize)
    ensures
        r == device_items(*v).len(),
        r <= 32,
{
    v.len()
}

/// Indexes an `arrayvec::ArrayVec` through its slice.
#[verifier::external_body]
pub(crate) fn devices_get(v: &Devices, i: usize) -> (r: Device)
    requires
        i < device_items(*v).len(),
    ensures
        r == device_items(*v)[i as int],
{
    v[i]
}

/// Calls `arrayvec::ArrayVec::try_push`: appends `d` unless the vector is
/// full; `false` when it was full (the crate's `CapacityError`).
#[verifier::external_body]
pub(crate) fn devices_try_push(v: &mut Devices, d: Device) -> (r: bool)
    ensures
        r == (device_items(*old(v)).len() < 32),
        r ==> device_items(*final(v)) == device_items(*old(v)).push(d),
        !r ==> device_items(*final(v)) == device_items(*old(v)),
{
    v.try_push(d).is_ok()
}

/// Whether `d` describes a function as the configuration space reports it.
pub open spec fn device_read(config: &Config, d: Device) -> bool {
    &&& device_in_range(d)
    &&& d.vendor_id == config.spec_read(spec_addr(d.bus, d.device, d.function, 0x00)) & 0xffff
    &&& d.class_code == spec_class_code(config.spec_read(spec_addr(d.bus, d.device, d.function, 0x08)))
    &&& d.header_type == (config.spec_read(spec_addr(d.bus, d.device, d.function, 0x0c)) >> 16) & 0xff
}

/// Whether `new` extends `old` by devices that each describe a function as
/// the configuration space reports it.
pub open spec fn scan_extends(config: &Config, old: Seq<Device>, new: Seq<Device>) -> bool {
    &&& old.len() <= new.len()
    &&& new.subrange(0, old.len() as int) == old
    &&& forall|i: int| old.len() <= i < new.len() ==> #[trigger] device_read(config, new[i])
}

/// Whether `devs` holds function `function` of device `device` on bus `bus`.
pub open spec fn holds_function(devs: Seq<Device>, bus: u8, device: u8, function: u8) -> bool {
    exists|i: int|
        0 <= i < devs.len() && (#[trigger] devs[i]).bus == bus && devs[i].device == device
            && devs[i].function == function
}

proof fn lemma_scan_extends_trans(config: &Config, a: Seq<Device>, b: Seq<Device>, c: Seq<Device>)
    requires
        scan_extends(config, a, b),
        scan_extends(config, b, c),
    ensures
        scan_extends(config, a, c),
{
    assert(c.subrange(0, a.len() as int) == b.subrange(0, a.len() as int));
    assert forall|i: int| a.len() <= i < c.len() implies #[trigger] device_read(config, c[i]) by {
        if i < b.len() {
            assert(c[i] == b[i]);
        }
    }
}

proof fn lemma_holds_kept(devs: Seq<Device>, more: Seq<Device>, bus: u8, device: u8, function: u8)
    requires
        holds_function(devs, bus, device, function),
        devs.len() <= more.len(),
        more.subrange(0, devs.len() as int) == devs,
    ensures
        holds_function(more, bus, device, function),
{
    let i = choose|i: int|
        0 <= i < devs.len() && (#[trigger] devs[i]).bus == bus && devs[i].device == device
            && devs[i].function == function;
    assert(more[i] == devs[i]);
}

/// The function `function` of device `device` on bus `bus` as the
/// configuration space describes it.
pub open spec fn spec_device(config: &Config, bus: u8, device: u8, function: u8) -> Device {
    Device {
        bus,
        device,
        function,
        vendor_id: read_vendor_id_spec(config, bus, device, function),
        class_code: spec_class_code(config.spec_read(spec_addr(bus, device, function, 0x08))),
        header_type: spec_header_type(config, bus, device, function),
    }
}

/// The header type register's byte for a function.
pub open spec fn spec_header_type(config: &Config, bus: u8, device: u8, function: u8) -> u8 {
    ((config.spec_read(spec_addr(bus, device, function, 0x0c)) >> 16) & 0xff) as u8
}

/// The secondary bus number of a PCI-PCI bridge.
pub open spec fn spec_secondary_bus(config: &Config, bus: u8, device: u8, function: u8) -> u8 {
    ((config.spec_read(spec_addr(bus, device, function, 0x18)) >> 8) & 0xff) as u8
}

/// What scanning function `function` of device `device` on bus `bus` makes
/// of the devices `devs` found so far: the function is added (`None` when
/// the list is full), and for a PCI-PCI bridge its secondary bus is scanned.
pub open spec fn scan_function_spec(
    config: &Config,
    devs: Seq<Device>,
    bus: u8,
    device: u8,
    function: u8,
) -> Option<Seq<Device>>
    decreases 32 - devs.len(), 0int, 0int,
{
    if devs.len() >= 32 {
        None
    } else {
        let d = spec_device(config, bus, device, function);
        if d.class_code.base == 0x06 && d.class_code.sub == 0x04 {
            scan_bus_spec(config, devs.push(d), spec_secondary_bus(config, bus, device, function), 0)
        } else {
            Some(devs.push(d))
        }
    }
}

/// What scanning the devices of bus `bus` from `device` on makes of `devs`:
/// each device whose function 0 answers is scanned in turn.
pub open spec fn scan_bus_spec(config: &Config, devs: Seq<Device>, bus: u8, device: int) -> Option<
    Seq<Device>,
>
    decreases 32 - devs.len(), 2int, 32 - device,
{
    if devs.len() > 32 || device < 0 {
        None
    } else if device >= 32 {
        Some(devs)
    } else if read_vendor_id_spec(config, bus, device as u8, 0) == INVALID_VENDOR_ID {
        scan_bus_spec(config, devs, bus, device + 1)
    } else {
        match scan_device_spec(config, devs, bus, device as u8) {
            None => None,
            Some(d2) => if d2.len() <= devs.len() || d2.len() > 32 {
                None
            } else {
                scan_bus_spec(config, d2, bus, device + 1)
            },
        }
    }
}

/// What scanning device `device` on bus `bus` makes of `devs`: function 0,
/// and the other functions that answer when the device has several.
pub open spec fn scan_device_spec(config: &Config, devs: Seq<Device>, bus: u8, device: u8) -> Option<
    Seq<Device>,
>
    decreases 32 - devs.len(), 1int, 9int,
{
    if devs.len() > 32 {
        None
    } else {
        match scan_function_spec(config, devs, bus, device, 0) {
            None => None,
            Some(d2) => if d2.len() <= devs.len() || d2.len() > 32 {
                None
            } else if spec_header_type(config, bus, device, 0) & 0x80 == 0 {
                Some(d2)
            } else {
                scan_functions_spec(config, d2, bus, device, 1)
            },
        }
    }
}

/// What scanning the functions of device `device` on bus `bus` from
/// `function` on makes of `devs`: each one that answers is scanned.
pub open spec fn scan_functions_spec(
    config: &Config,
    devs: Seq<Device>,
    bus: u8,
    device: u8,
    function: int,
) -> Option<Seq<Device>>
    decreases 32 - devs.len(), 1int, 8 - function,
{
    if devs.len() > 32 || function < 0 {
        None
    } else if function >= 8 {
        Some(devs)
    } else if read_vendor_id_spec(config, bus, device, function as u8) == INVALID_VENDOR_ID {
        scan_functions_spec(config, devs, bus, device, function + 1)
    } else {
        match scan_function_spec(config, devs, bus, device, function as u8) {
            None => None,
            Some(d2) => if d2.len() <= devs.len() || d2.len() > 32 {
                None
            } else {
                scan_functions_spec(config, d2, bus, device, function + 1)
            },
        }
    }
}

/// What scanning the buses of the host bridge's functions from `function` on
/// makes of `devs`: the bus of each function that answers is scanned.
pub open spec fn scan_hosts_spec(config: &Config, devs: Seq<Device>, function: int) -> Option<
    Seq<Device>,
>
    decreases 8 - function,
{
    if function >= 8 || function < 0 {
        Some(devs)
    } else if read_vendor_id_spec(config, 0, 0, function as u8) == INVALID_VENDOR_ID {
        scan_hosts_spec(config, devs, function + 1)
    } else {
        match scan_bus_spec(config, devs, function as u8, 0) {
            None => None,
            Some(d2) => scan_hosts_spec(config, d2, function + 1),
        }
    }
}

/// The devices a scan of every bus finds, in the order found; `None` when
/// there are more than 32.
pub open spec fn scan_all_spec(config: &Config) -> Option<Seq<Device>> {
    if spec_header_type(config, 0, 0, 0) & 0x80 == 0 {
        scan_bus_spec(config, Seq::empty(), 0, 0)
    } else {
        scan_hosts_spec(config, Seq::empty(), 0)
    }
}

/// Scans every bus: bus 0 alone when the host bridge is a single-function
/// device, otherwise the bus of each host bridge function that answers.
pub fn scan_all_bus(config: &Config) -> (r: Result<Devices>)
    ensures
        match r {
            Ok(devs) => scan_extends(config, Seq::empty(), device_items(devs)),
            Err(e) => e.kind == ErrorKind::Full,
        },
        match scan_all_spec(config) {
            Some(ds) => r matches Ok(devs) && device_items(devs) == ds,
            None => r is Err,
        },
{
    let mut devices = devices_new();
    let header_type = read_header_type(config, 0, 0, 0);
    if is_single_function_device(header_type) {
        let ghost before = device_items(devices);
        assert(before.subrange(0, 0) == Seq::<Device>::empty());
        match scan_bus(config, &mut devices, 0) {
            Ok(()) => {},
            Err(e) => return Err(e),
        }
        return Ok(devices);
    }
    let mut bus: u8 = 0;
    assert(device_items(devices).subrange(0, 0) == Seq::<Device>::empty());
    while bus < 8
        invariant
            scan_extends(config, Seq::empty(), device_items(devices)),
            bus <= 8,
            scan_all_spec(config) == scan_hosts_spec(config, device_items(devices), bus as int),
            spec_header_type(config, 0, 0, 0) & 0x80 != 0,
        decreases 8 - bus,
    {
        if read_vendor_id(config, 0, 0, bus) != INVALID_VENDOR_ID {
            let ghost before = device_items(devices);
            match scan_bus(config, &mut devices, bus) {
                Ok(()) => {},
                Err(e) => return Err(e),
            }
            proof {
                lemma_scan_extends_trans(config, Seq::empty(), before, device_items(devices));
            }
        }
        bus = bus + 1;
    }
    Ok(devices)
}

/// Scans the 32 devices of bus `bus`, adding each function found; every device
/// whose function 0 answers is scanned.
pub fn scan_bus(config: &Config, devices: &mut Devices, bus: u8) -> (r: Result<()>)
    ensures
        scan_extends(config, device_items(*old(devices)), device_items(*final(devices))),
        match scan_bus_spec(config, device_items(*old(devices)), bus, 0) {
            Some(ds) => r is Ok && device_items(*final(devices)) == ds,
            None => r is Err,
        },
        match r {
            Ok(()) => forall|device: u8|
                device < 32 && read_vendor_id_spec(config, bus, device, 0) != INVALID_VENDOR_ID
                    ==> holds_function(device_items(*final(devices)), bus, device, 0),
            Err(e) => e.kind == ErrorKind::Full,
        },
    decreases 32 - device_items(*old(devices)).len(), 2int,
{
    let ghost start = device_items(*devices);
    let _ = devices_len(devices);
    assert(start.subrange(0, start.len() as int) == start);
    let mut device: u8 = 0;
    while device < 32
        invariant
            device <= 32,
            scan_extends(config, start, device_items(*devices)),
            start == device_items(*old(devices)),
            start.len() <= 32,
            device_items(*devices).len() <= 32,
            scan_bus_spec(config, start, bus, 0) == scan_bus_spec(
                config,
                device_items(*devices),
                bus,
                device as int,
            ),
            forall|d: u8|
                d < device && read_vendor_id_spec(config, bus, d, 0) != INVALID_VENDOR_ID
                    ==> holds_function(device_items(*devices), bus, d, 0),
        decreases 32 - device,
    {
        if read_vendor_id(config, bus, device, 0) != INVALID_VENDOR_ID {
            let ghost before = device_items(*devices);
            let _ = devices_len(devices);
            let res = scan_device(config, devices, bus, device);
            let _ = devices_len(devices);
            proof {
                lemma_scan_extends_trans(config, start, before, device_items(*devices));
            }
            if let Err(e) = res {
                return Err(e);
            }
            proof {
                assert forall|d: u8|
                    d < device + 1 && read_vendor_id_spec(config, bus, d, 0) != INVALID_VENDOR_ID
                        implies holds_function(device_items(*devices), bus, d, 0) by {
                    if d < device {
                        lemma_holds_kept(before, device_items(*devices), bus, d, 0);
                    }
                }
            }
        }
        device = device + 1;
    }
    assert(scan_bus_spec(config, device_items(*devices), bus, 32) == Some(device_items(*devices)));
    Ok(())
}

/// The vendor identifier register's low half for a function.
pub open spec fn read_vendor_id_spec(config: &Config, bus: u8, device: u8, function: u8) -> u16 {
    (config.spec_read(spec_addr(bus, device, function, 0x00)) & 0xffff) as u16
}

/// Scans the functions of device `device` on bus `bus`: function 0, and the
/// others that answer when the device has several.
pub fn scan_device(config: &Config, devices: &mut Devices, bus: u8, device: u8) -> (r: Result<()>)
    requires
        device < 32,
    ensures
        scan_extends(config, device_items(*old(devices)), device_items(*final(devices))),
        r is Ok ==> device_items(*old(devices)).len() < device_items(*final(devices)).len(),
        match scan_device_spec(config, device_items(*old(devices)), bus, device) {
            Some(ds) => r is Ok && device_items(*final(devices)) == ds,
            None => r is Err,
        },
        match r {
            Ok(()) => {
                &&& holds_function(device_items(*final(devices)), bus, device, 0)
                &&& !(((config.spec_read(spec_addr(bus, device, 0, 0x0c)) >> 16) & 0xff) & 0x80 == 0)
                    ==> forall|f: u8|
                    0 < f < 8 && read_vendor_id_spec(config, bus, device, f) != INVALID_VENDOR_ID
                        ==> holds_function(device_items(*final(devices)), bus, device, f)
            },
            Err(e) => e.kind == ErrorKind::Full,
        },
    decreases 32 - device_items(*old(devices)).len(), 1int,
{
    let ghost start = device_items(*devices);
    let _ = devices_len(devices);
    match scan_function(config, devices, bus, device, 0) {
        Ok(()) => {},
        Err(e) => return Err(e),
    }
    let _ = devices_len(devices);
    if is_single_function_device(read_header_type(config, bus, device, 0)) {
        return Ok(());
    }
    let mut function: u8 = 1;
    while function < 8
        invariant
            1 <= function <= 8,
            device < 32,
            scan_extends(config, start, device_items(*devices)),
            start == device_items(*old(devices)),
            start.len() < device_items(*devices).len() <= 32,
            scan_device_spec(config, start, bus, device) == scan_functions_spec(
                config,
                device_items(*devices),
                bus,
                device,
                function as int,
            ),
            holds_function(device_items(*devices), bus, device, 0),
            forall|f: u8|
                0 < f < function && read_vendor_id_spec(config, bus, device, f) != INVALID_VENDOR_ID
                    ==> holds_function(device_items(*devices), bus, device, f),
        decreases 8 - function,
    {
        if read_vendor_id(config, bus, device, function) != INVALID_VENDOR_ID {
            let ghost before = device_items(*devices);
            let _ = devices_len(devices);
            let res = scan_function(config, devices, bus, device, function);
            let _ = devices_len(devices);
            proof {
                lemma_scan_extends_trans(config, start, before, device_items(*devices));
            }
            if let Err(e) = res {
                return Err(e);
            }
            proof {
                lemma_holds_kept(before, device_items(*devices), bus, device, 0);
                assert forall|f: u8|
                    0 < f < function + 1 && read_vendor_id_spec(config, bus, device, f) != INVALID_VENDOR_ID
                        implies holds_function(device_items(*devices), bus, device, f) by {
                    if f < function {
                        lemma_holds_kept(before, device_items(*devices), bus, device, f);
                    }
                }
            }
        }
        function = function + 1;
    }
    assert(scan_functions_spec(config, device_items(*devices), bus, device, 8) == Some(
        device_items(*devices),
    ));
    Ok(())
}

/// Adds function `function` of device `device` on bus `bus`; for a PCI-PCI
/// bridge, scans its secondary bus too.
pub fn scan_function(
    config: &Config,
    devices: &mut Devices,
    bus: u8,
    device: u8,
    function: u8,
) -> (r: Result<()>)
    requires
        device < 32,
        function < 8,
    ensures
        scan_extends(config, device_items(*old(devices)), device_items(*final(devices))),
        match r {
            Ok(()) => holds_function(device_items(*final(devices)), bus, device, function),
            Err(e) => e.kind == ErrorKind::Full,
        },
        r is Ok ==> device_items(*old(devices)).len() < device_items(*final(devices)).len(),
        match scan_function_spec(config, device_items(*old(devices)), bus, device, function) {
            Some(ds) => r is Ok && device_items(*final(devices)) == ds,
            None => r is Err,
        },
    decreases 32 - device_items(*old(devices)).len(), 0int,
{
    let vendor_id = read_vendor_id(config, bus, device, function);
    let class_code = read_class_code(config, bus, device, function);
    let header_type = read_header_type(config, bus, device, function);
    let dev = Device { bus, device, function, vendor_id, class_code, header_type };
    let ghost start = device_items(*devices);
    let _ = devices_len(devices);
    if !devices_try_push(devices, dev) {
        proof {
            assert(device_items(*devices).subrange(0, start.len() as int) == start);
        }
        return Err(Error::new(ErrorKind::Full));
    }
    proof {
        assert(device_items(*devices).subrange(0, start.len() as int) == start);
        assert(device_items(*devices)[start.len() as int] == dev);
        assert(holds_function(device_items(*devices), bus, device, function));
    }
    if class_code.base == 0x06 && class_code.sub == 0x04 {
        // standard PCI-PCI bridge
        let bus_numbers = read_bus_number(config, bus, device, function);
        proof {
            lemma_masks(bus_numbers);
        }
        let secondary_bus = ((bus_numbers >> 8) & 0xff) as u8;
        let ghost before = device_items(*devices);
        let res = scan_bus(config, devices, secondary_bus);
        proof {
            lemma_scan_extends_trans(config, start, before, device_items(*devices));
            lemma_holds_kept(before, device_items(*devices), bus, device, function);
        }
        if let Err(e) = res {
            return Err(e);
        }
    }
    Ok(())
}

/// Interrupt vectors the kernel uses.
#[derive(Debug, Clone, Copy, PartialEq, Eq, Structural)]
pub enum InterruptIndex {
    Xhci,
}

/// Vector number of an interrupt.
pub open spec fn spec_interrupt_vector(i: InterruptIndex) -> u8 {
    match i {
        InterruptIndex::Xhci => 0x40,
    }
}

impl InterruptIndex {
    /// The vector number.
    pub fn as_u8(self) -> (r: u8)
        ensures
            r == spec_interrupt_vector(self),
    {
        match self {
            InterruptIndex::Xhci => 0x40,
        }
    }

    /// The vector number as a `u32`.
    pub fn as_u32(self) -> (r: u32)
        ensures
            r == spec_interrupt_vector(self),
    {
        self.as_u8() as u32
    }

    /// The vector number as a `usize`.
    pub fn as_usize(self) -> (r: usize)
        ensures
            r == spec_interrupt_vector(self),
    {
        self.as_u8() as usize
    }
}

/// Trigger mode of a message signalled interrupt.
#[derive(Debug, Clone, Copy, PartialEq, Eq, Structural)]
pub enum MsiTriggerMode {
    Edge,
    Level,
}

/// Delivery mode of a message signalled interrupt.
#[derive(Debug, Clone, Copy, PartialEq, Eq, Structural)]
pub enum MsiDeliveryMode {
    Fixed,
    LowestPriority,
    Smi,
    Nmi,
    Init,
    ExtInt,
}

/// The 3-bit code of a delivery mode.
pub open spec fn spec_delivery_mode(m: MsiDeliveryMode) -> u8 {
    match m {
        MsiDeliveryMode::Fixed => 0b000,
        MsiDeliveryMode::LowestPriority => 0b001,
        MsiDeliveryMode::Smi => 0b010,
        MsiDeliveryMode::Nmi => 0b100,
        MsiDeliveryMode::Init => 0b101,
        MsiDeliveryMode::ExtInt => 0b111,
    }
}

impl MsiDeliveryMode {
    /// The 3-bit code.
    pub fn as_u8(self) -> (r: u8)
        ensures
            r == spec_delivery_mode(self),
    {
        match self {
            MsiDeliveryMode::Fixed => 0b000,
            MsiDeliveryMode::LowestPriority => 0b001,
            MsiDeliveryMode::Smi => 0b010,
            MsiDeliveryMode::Nmi => 0b100,
            MsiDeliveryMode::Init => 0b101,
            MsiDeliveryMode::ExtInt => 0b111,
        }
    }

    /// The 3-bit code as a `u32`.
    pub fn as_u32(self) -> (r: u32)
        ensures
            r == spec_delivery_mode(self),
    {
        self.as_u8() as u32
    }
}

/// Capability identifier of MSI.
pub const CAPABILITY_MSI: u8 = 0x05;
/// Capability identifier of MSI-X.
pub const CAPABILITY_MSIX: u8 = 0x11;

/// The header of a capability: identifier, pointer to the next one, and the
/// capability's own 16 bits.
#[derive(Debug, Clone, Copy, PartialEq, Eq, Structural)]
pub struct CapabilityHeader {
    pub cap_id: u8,
    pub next_ptr: u8,
    pub cap: u16,
}

/// The header a register holds (identifier in the low byte).
pub open spec fn spec_capability_header(value: u32) -> CapabilityHeader {
    CapabilityHeader {
        cap_id: (value & 0xff) as u8,
        next_ptr: ((value >> 8) & 0xff) as u8,
        cap: (value >> 16) as u16,
    }
}

/// The register value of a header.
pub open spec fn spec_capability_word(h: CapabilityHeader) -> u32 {
    (h.cap_id as u32) | ((h.next_ptr as u32) << 8u32) | ((h.cap as u32) << 16u32)
}

impl CapabilityHeader {
    /// The header a register holds.
    pub fn from(value: u32) -> (r: CapabilityHeader)
        ensures
            r == spec_capability_header(value),
    {
        assert(value & 0xff <= 0xff && (value >> 8) & 0xff <= 0xff && value >> 16 <= 0xffff)
            by (bit_vector);
        CapabilityHeader {
            cap_id: (value & 0xff) as u8,
            next_ptr: ((value >> 8) & 0xff) as u8,
            cap: (value >> 16) as u16,
        }
    }

    /// The register value of the header.
    pub fn as_u32(self) -> (r: u32)
        ensures
            r == spec_capability_word(self),
    {
        (self.cap_id as u32) | ((self.next_ptr as u32) << 8u32) | ((self.cap as u32) << 16u32)
    }

    /// Sets the MSI enable bit (bit 0).
    pub fn set_msi_enable(&mut self, value: bool)
        ensures
            *final(self) == (CapabilityHeader { cap: spec_set_bit_u16(old(self).cap, 0, value), ..*old(self) }),
    {
        self.cap = set_bit_u16(self.cap, 0, value);
    }

    /// The multiple message capable field (bits 1 to 3).
    pub fn multi_msg_capable(self) -> (r: u8)
        ensures
            r == crate::bits::spec_get_bits_u16(self.cap, 1, 4),
            r < 8,
    {
        let v = get_bits_u16(self.cap, 1, 4);
        let c = self.cap;
        assert(((c << 12u16) >> 12u16) >> 1u16 < 8) by (bit_vector);
        v as u8
    }

    /// Sets the multiple message enable field (bits 4 to 6).
    pub fn set_multi_msg_enable(&mut self, value: u8)
        requires
            value < 8,
        ensures
            *final(self) == (CapabilityHeader {
                cap: spec_set_bits_u16(old(self).cap, 4, 7, value as u16),
                ..*old(self)
            }),
    {
        let v = value as u16;
        assert((v << 13u16) >> 13u16 == v) by (bit_vector)
            requires
                v < 8,
        ;
        self.cap = set_bits_u16(self.cap, 4, 7, v);
    }

    /// Whether the function can take 64-bit message addresses (bit 7).
    pub fn addr_64_capable(self) -> (r: bool)
        ensures
            r == (self.cap & (1u16 << 7u16) != 0),
    {
        get_bit_u16(self.cap, 7)
    }

    /// Whether the function can mask single vectors (bit 8).
    pub fn per_vector_mask_capable(self) -> (r: bool)
        ensures
            r == (self.cap & (1u16 << 8u16) != 0),
    {
        get_bit_u16(self.cap, 8)
    }
}

/// A register reads back what was last written to it, and writing one
/// register leaves what the others read.
pub proof fn law_write_then_read(config: Config, addr: Addr, data: u32, other: u32)
    ensures
        read_regs(config.regs().push((addr.0, data)), addr.0) == data,
        other != addr.0 ==> read_regs(config.regs().push((addr.0, data)), other) == config.spec_read(
            other,
        ),
{
    let regs = config.regs().push((addr.0, data));
    assert(regs.drop_last() == config.regs());
}

/// Reading a header back from its register value gives the header.
pub proof fn law_capability_header_roundtrip(h: CapabilityHeader)
    ensures
        spec_capability_header(spec_capability_word(h)) == h,
{
    let a = h.cap_id as u32;
    let b = h.next_ptr as u32;
    let c = h.cap as u32;
    assert(((a | (b << 8u32) | (c << 16u32)) & 0xff) == a && (((a | (b << 8u32) | (c << 16u32))
        >> 8u32) & 0xff) == b && ((a | (b << 8u32) | (c << 16u32)) >> 16u32) == c) by (bit_vector)
        requires
            a < 256,
            b < 256,
            c < 65536,
    ;
}

/// The MSI capability structure.
#[derive(Debug, Clone, Copy, PartialEq, Eq, Structural)]
pub struct MsiCapability {
    pub header: CapabilityHeader,
    pub msg_addr: u32,
    pub msg_upper_addr: u32,
    pub msg_data: u32,
    pub mask_bits: u32,
    pub pending_bits: u32,
}

/// Reads the capability header at `cap_addr` of the function `dev`.
pub fn read_capability_header(config: &Config, dev: &Device, cap_addr: u8) -> (r: CapabilityHeader)
    requires
        device_in_range(*dev),
        cap_addr & 3 == 0,
    ensures
        r == spec_capability_header(
            config.spec_read(spec_addr(dev.bus, dev.device, dev.function, cap_addr)),
        ),
{
    CapabilityHeader::from(read_conf_reg(config, dev, cap_addr))
}

/// Register offset of the message data field of an MSI capability at `cap_addr`.
pub open spec fn msi_data_addr(h: CapabilityHeader, cap_addr: u8) -> u8 {
    if h.cap & (1u16 << 7u16) != 0 {
        (cap_addr + 12) as u8
    } else {
        (cap_addr + 8) as u8
    }
}

/// Register offset of the last register of an MSI capability at `cap_addr`
/// whose header is `h`: the message data, or the pending bits where the
/// function can mask single vectors.
pub open spec fn msi_last_reg(h: CapabilityHeader, cap_addr: u8) -> int {
    cap_addr + (if h.cap & (1u16 << 7u16) != 0 {
        12int
    } else {
        8int
    }) + (if h.cap & (1u16 << 8u16) != 0 {
        8int
    } else {
        0int
    })
}

/// Whether an MSI capability at `cap_addr` with header `h` starts at a
/// multiple of 4 and has all its registers at offsets that fit a `u8`.
pub open spec fn msi_fits(h: CapabilityHeader, cap_addr: u8) -> bool {
    cap_addr & 3 == 0 && msi_last_reg(h, cap_addr) <= 255
}

proof fn lemma_aligned_steps(a: u8)
    requires
        a & 3 == 0,
    ensures
        a + 4 <= 255 ==> ((a + 4) as u8) & 3 == 0,
        a + 8 <= 255 ==> ((a + 8) as u8) & 3 == 0,
        a + 12 <= 255 ==> ((a + 12) as u8) & 3 == 0,
        a + 16 <= 255 ==> ((a + 16) as u8) & 3 == 0,
        a + 20 <= 255 ==> ((a + 20) as u8) & 3 == 0,
{
    assert((a + 4 <= 255 ==> ((a + 4) as u8) & 3 == 0) && (a + 8 <= 255 ==> ((a + 8) as u8) & 3 == 0)
        && (a + 12 <= 255 ==> ((a + 12) as u8) & 3 == 0) && (a + 16 <= 255 ==> ((a + 16) as u8) & 3 == 0)
        && (a + 20 <= 255 ==> ((a + 20) as u8) & 3 == 0)) by (bit_vector)
        requires
            a & 3 == 0,
    ;
}

/// The MSI capability at `cap_addr` of the function `dev` as the
/// configuration space holds it; the fields the function does not have are 0.
pub open spec fn spec_read_msi(config: &Config, dev: Device, cap_addr: u8) -> MsiCapability {
    let rd = |reg: u8| config.spec_read(spec_addr(dev.bus, dev.device, dev.function, reg));
    let h = spec_capability_header(rd(cap_addr));
    let data_addr = msi_data_addr(h, cap_addr);
    MsiCapability {
        header: h,
        msg_addr: rd((cap_addr + 4) as u8),
        msg_upper_addr: if h.cap & (1u16 << 7u16) != 0 {
            rd((cap_addr + 8) as u8)
        } else {
            0
        },
        msg_data: rd(data_addr),
        mask_bits: if h.cap & (1u16 << 8u16) != 0 {
            rd((data_addr + 4) as u8)
        } else {
            0
        },
        pending_bits: if h.cap & (1u16 << 8u16) != 0 {
            rd((data_addr + 8) as u8)
        } else {
            0
        },
    }
}

/// Reads the MSI capability at `cap_addr` of the function `dev`; the fields
/// the function does not have read as 0.
pub fn read_msi_capability(config: &Config, dev: &Device, cap_addr: u8) -> (r: MsiCapability)
    requires
        device_in_range(*dev),
        msi_fits(
            spec_capability_header(config.spec_read(spec_addr(dev.bus, dev.device, dev.function, cap_addr))),
            cap_addr,
        ),
    ensures
        ({
            let rd = |reg: u8| config.spec_read(spec_addr(dev.bus, dev.device, dev.function, reg));
            let h = spec_capability_header(rd(cap_addr));
            let data_addr = msi_data_addr(h, cap_addr);
            &&& r.header == h
            &&& r.msg_addr == rd((cap_addr + 4) as u8)
            &&& r.msg_upper_addr == if h.cap & (1u16 << 7u16) != 0 {
                rd((cap_addr + 8) as u8)
            } else {
                0
            }
            &&& r.msg_data == rd(data_addr)
            &&& r.mask_bits == if h.cap & (1u16 << 8u16) != 0 {
                rd((data_addr + 4) as u8)
            } else {
                0
            }
            &&& r.pending_bits == if h.cap & (1u16 << 8u16) != 0 {
                rd((data_addr + 8) as u8)
            } else {
                0
            }
        }),
{
    proof {
        lemma_aligned_steps(cap_addr);
    }
    let header = read_capability_header(config, dev, cap_addr);
    let msg_addr = read_conf_reg(config, dev, cap_addr + 4);
    let msg_upper_addr;
    let msg_data_addr;
    if header.addr_64_capable() {
        msg_upper_addr = read_conf_reg(config, dev, cap_addr + 8);
        msg_data_addr = cap_addr + 12;
    } else {
        msg_upper_addr = 0;
        msg_data_addr = cap_addr + 8;
    }
    let msg_data = read_conf_reg(config, dev, msg_data_addr);
    let mask_bits;
    let pending_bits;
    if header.per_vector_mask_capable() {
        mask_bits = read_conf_reg(config, dev, msg_data_addr + 4);
        pending_bits = read_conf_reg(config, dev, msg_data_addr + 8);
    } else {
        mask_bits = 0;
        pending_bits = 0;
    }
    let r = MsiCapability { header, msg_addr, msg_upper_addr, msg_data, mask_bits, pending_bits };
    assert(r == spec_read_msi(config, *dev, cap_addr));
    r
}

/// The register writes that store `c` as the MSI capability at `cap_addr`.
pub open spec fn msi_writes(dev: Device, cap_addr: u8, c: MsiCapability) -> Seq<(u32, u32)> {
    let a = |reg: u8| spec_addr(dev.bus, dev.device, dev.function, reg);
    let data_addr = msi_data_addr(c.header, cap_addr);
    let head = seq![(a(cap_addr), spec_capability_word(c.header)), (a((cap_addr + 4) as u8), c.msg_addr)];
    let upper = if c.header.cap & (1u16 << 7u16) != 0 {
        seq![(a((cap_addr + 8) as u8), c.msg_upper_addr)]
    } else {
        Seq::empty()
    };
    let data = seq![(a(data_addr), c.msg_data)];
    let masks = if c.header.cap & (1u16 << 8u16) != 0 {
        seq![(a((data_addr + 4) as u8), c.mask_bits), (a((data_addr + 8) as u8), c.pending_bits)]
    } else {
        Seq::empty()
    };
    head + upper + data + masks
}

/// Writes `msi_cap` as the MSI capability at `cap_addr` of the function `dev`.
pub fn write_msi_capability(config: &mut Config, dev: &Device, cap_addr: u8, msi_cap: MsiCapability)
    requires
        device_in_range(*dev),
        msi_fits(msi_cap.header, cap_addr),
    ensures
        final(config).writes() == old(config).writes() + msi_writes(*dev, cap_addr, msi_cap),
        final(config).regs() == old(config).regs() + msi_writes(*dev, cap_addr, msi_cap),
{
    proof {
        lemma_aligned_steps(cap_addr);
    }
    let ghost w0 = config.writes();
    let ghost r0 = config.regs();
    write_conf_reg(config, dev, cap_addr, msi_cap.header.as_u32());
    write_conf_reg(config, dev, cap_addr + 4, msi_cap.msg_addr);
    let msg_data_addr;
    if msi_cap.header.addr_64_capable() {
        write_conf_reg(config, dev, cap_addr + 8, msi_cap.msg_upper_addr);
        msg_data_addr = cap_addr + 12;
    } else {
        msg_data_addr = cap_addr + 8;
    }
    write_conf_reg(config, dev, msg_data_addr, msi_cap.msg_data);
    if msi_cap.header.per_vector_mask_capable() {
        write_conf_reg(config, dev, msg_data_addr + 4, msi_cap.mask_bits);
        write_conf_reg(config, dev, msg_data_addr + 8, msi_cap.pending_bits);
    }
    assert(config.writes() == w0 + msi_writes(*dev, cap_addr, msi_cap));
    assert(config.regs() == r0 + msi_writes(*dev, cap_addr, msi_cap));
}

/// The last entry naming `addr` decides what `lookup` finds.
proof fn lemma_lookup_last(s: Seq<(u32, u32)>, addr: u32, i: int)
    requires
        0 <= i < s.len(),
        s[i].0 == addr,
        forall|j: int| i < j < s.len() ==> (#[trigger] s[j]).0 != addr,
    ensures
        lookup(s, addr) == Some(s[i].1),
    decreases s.len(),
{
    if i < s.len() - 1 {
        let t = s.drop_last();
        assert(s.last() == s[s.len() - 1]);
        assert(t[i] == s[i]);
        assert forall|j: int| i < j < t.len() implies (#[trigger] t[j]).0 != addr by {
            assert(t[j] == s[j]);
        }
        lemma_lookup_last(t, addr, i);
    }
}

/// The register offset is the low byte of a configuration address.
proof fn lemma_addr_low(bus: u8, device: u8, function: u8, reg_addr: u8)
    ensures
        spec_addr(bus, device, function, reg_addr) & 0xff == reg_addr as u32,
{
    let b = bus as u32;
    let d = device as u32;
    let f = function as u32;
    let r = reg_addr as u32;
    assert((0x8000_0000u32 | (b << 16u32) | (d << 11u32) | (f << 8u32) | r) & 0xff == r) by (bit_vector)
        requires
            r < 256,
    ;
}

/// The MSI capability that reading gives right after `m` was written: `m`,
/// with 0 for the fields its header says the function lacks.
pub open spec fn msi_read_back(m: MsiCapability) -> MsiCapability {
    MsiCapability {
        msg_upper_addr: if m.header.cap & (1u16 << 7u16) != 0 {
            m.msg_upper_addr
        } else {
            0
        },
        mask_bits: if m.header.cap & (1u16 << 8u16) != 0 {
            m.mask_bits
        } else {
            0
        },
        pending_bits: if m.header.cap & (1u16 << 8u16) != 0 {
            m.pending_bits
        } else {
            0
        },
        ..m
    }
}

/// Reading an MSI capability right after writing `m` there gives `m` back,
/// with 0 for the fields its header says the function lacks.
pub proof fn law_msi_write_then_read(config: Config, dev: Device, cap_addr: u8, m: MsiCapability, after: Config)
    requires
        msi_fits(m.header, cap_addr),
        after.regs() == config.regs() + msi_writes(dev, cap_addr, m),
    ensures
        spec_read_msi(&after, dev, cap_addr) == msi_read_back(m),
{
    let c = cap_addr;
    let a = |reg: u8| spec_addr(dev.bus, dev.device, dev.function, reg);
    let w = msi_writes(dev, c, m);
    let s = after.regs();
    let n = config.regs().len() as int;
    let is64 = m.header.cap & (1u16 << 7u16) != 0;
    let mask = m.header.cap & (1u16 << 8u16) != 0;
    let d = msi_data_addr(m.header, c);
    lemma_addr_low(dev.bus, dev.device, dev.function, c);
    lemma_addr_low(dev.bus, dev.device, dev.function, (c + 4) as u8);
    lemma_addr_low(dev.bus, dev.device, dev.function, (c + 8) as u8);
    lemma_addr_low(dev.bus, dev.device, dev.function, d);
    lemma_addr_low(dev.bus, dev.device, dev.function, (d + 4) as u8);
    lemma_addr_low(dev.bus, dev.device, dev.function, (d + 8) as u8);
    law_capability_header_roundtrip(m.header);
    let head = seq![(a(c), spec_capability_word(m.header)), (a((c + 4) as u8), m.msg_addr)];
    let upper = if is64 {
        seq![(a((c + 8) as u8), m.msg_upper_addr)]
    } else {
        Seq::empty()
    };
    let data = seq![(a(d), m.msg_data)];
    let masks = if mask {
        seq![(a((d + 4) as u8), m.mask_bits), (a((d + 8) as u8), m.pending_bits)]
    } else {
        Seq::empty()
    };
    assert(w == head + upper + data + masks);
    let u = upper.len() as int;
    let k = masks.len() as int;
    assert(w.len() == 3 + u + k);
    assert(s[n] == (a(c), spec_capability_word(m.header)));
    assert(s[n + 1] == (a((c + 4) as u8), m.msg_addr));
    if is64 {
        assert(s[n + 2] == (a((c + 8) as u8), m.msg_upper_addr));
    }
    assert(s[n + 2 + u] == (a(d), m.msg_data));
    if mask {
        assert(s[n + 3 + u] == (a((d + 4) as u8), m.mask_bits));
        assert(s[n + 4 + u] == (a((d + 8) as u8), m.pending_bits));
    }
    assert forall|j: int| n < j < s.len() implies (#[trigger] s[j]).0 != a(c) by {
        if j == n + 1 {
        } else if is64 && j == n + 2 {
        } else if j == n + 2 + u {
        } else if mask && j == n + 3 + u {
        } else {
            assert(mask && j == n + 4 + u);
        }
    }
    lemma_lookup_last(s, a(c), n);
    assert forall|j: int| n + 1 < j < s.len() implies (#[trigger] s[j]).0 != a((c + 4) as u8) by {
        if is64 && j == n + 2 {
        } else if j == n + 2 + u {
        } else if mask && j == n + 3 + u {
        } else {
            assert(mask && j == n + 4 + u);
        }
    }
    lemma_lookup_last(s, a((c + 4) as u8), n + 1);
    if is64 {
        assert forall|j: int| n + 2 < j < s.len() implies (#[trigger] s[j]).0 != a((c + 8) as u8) by {
            if j == n + 2 + u {
            } else if mask && j == n + 3 + u {
            } else {
                assert(mask && j == n + 4 + u);
            }
        }
        lemma_lookup_last(s, a((c + 8) as u8), n + 2);
    }
    assert forall|j: int| n + 2 + u < j < s.len() implies (#[trigger] s[j]).0 != a(d) by {
        if mask && j == n + 3 + u {
        } else {
            assert(mask && j == n + 4 + u);
        }
    }
    lemma_lookup_last(s, a(d), n + 2 + u);
    if mask {
        assert forall|j: int| n + 3 + u < j < s.len() implies (#[trigger] s[j]).0 != a((d + 4) as u8) by {
            assert(j == n + 4 + u);
        }
        lemma_lookup_last(s, a((d + 4) as u8), n + 3 + u);
        lemma_lookup_last(s, a((d + 8) as u8), n + 4 + u);
    }
}

/// Most capability headers a walk reads: more than fit in configuration space,
/// so only a list that loops reaches it.
pub const MAX_CAPABILITIES: u32 = 64;

/// The MSI capability after enabling it with `min(capable, exponent)` vectors,
/// message address `msg_addr` and data `msg_data`.
pub open spec fn configured_msi(c: MsiCapability, msg_addr: u32, msg_data: u32, exponent: u8) -> MsiCapability {
    let capable = crate::bits::spec_get_bits_u16(c.header.cap, 1, 4);
    let enable = if capable < exponent {
        capable
    } else {
        exponent as u16
    };
    let cap1 = spec_set_bits_u16(c.header.cap, 4, 7, enable);
    let cap2 = spec_set_bit_u16(cap1, 0, true);
    MsiCapability {
        header: CapabilityHeader { cap: cap2, ..c.header },
        msg_addr,
        msg_data,
        ..c
    }
}

/// Setting the multiple message enable field and the enable bit keeps the
/// bits that decide the layout of an MSI capability (7 and 8).
proof fn lemma_configure_keeps_layout(cap: u16, enable: u16)
    requires
        enable < 8,
    ensures
        spec_set_bit_u16(spec_set_bits_u16(cap, 4, 7, enable), 0, true) & (1u16 << 7u16) == cap & (1u16 << 7u16),
        spec_set_bit_u16(spec_set_bits_u16(cap, 4, 7, enable), 0, true) & (1u16 << 8u16) == cap & (1u16 << 8u16),
{
    assert((((cap & !(((!0u16 << 9u16) >> 9u16) >> 4u16 << 4u16)) | (enable << 4u16)) | (1u16 << 0u16)) & (1u16 << 7u16)
        == cap & (1u16 << 7u16) && (((cap & !(((!0u16 << 9u16) >> 9u16) >> 4u16 << 4u16)) | (enable << 4u16))
        | (1u16 << 0u16)) & (1u16 << 8u16) == cap & (1u16 << 8u16)) by (bit_vector)
        requires
            enable < 8,
    ;
}

/// Enables MSI at the capability `cap_addr` of `dev` with up to
/// `2^num_vector_exponent` vectors (as many as the function can), the given
/// message address and data.
pub fn configure_msi_register(
    config: &mut Config,
    dev: &Device,
    cap_addr: u8,
    msg_addr: u32,
    msg_data: u32,
    num_vector_exponent: u8,
) -> (r: Result<()>)
    requires
        device_in_range(*dev),
        msi_fits(
            spec_capability_header(old(config).spec_read(spec_addr(dev.bus, dev.device, dev.function, cap_addr))),
            cap_addr,
        ),
    ensures
        r is Ok,
        final(config).writes() == old(config).writes() + msi_writes(
            *dev,
            cap_addr,
            configured_msi(spec_read_msi(old(config), *dev, cap_addr), msg_addr, msg_data, num_vector_exponent),
        ),
        final(config).regs() == old(config).regs() + msi_writes(
            *dev,
            cap_addr,
            configured_msi(spec_read_msi(old(config), *dev, cap_addr), msg_addr, msg_data, num_vector_exponent),
        ),
        spec_read_msi(final(config), *dev, cap_addr) == msi_read_back(
            configured_msi(spec_read_msi(old(config), *dev, cap_addr), msg_addr, msg_data, num_vector_exponent),
        ),
{
    let mut msi_cap = read_msi_capability(config, dev, cap_addr);
    let capable = msi_cap.header.multi_msg_capable();
    let multi_msg_enable = if capable < num_vector_exponent {
        capable
    } else {
        num_vector_exponent
    };
    let ghost cap0 = msi_cap.header.cap;
    msi_cap.header.set_multi_msg_enable(multi_msg_enable);
    msi_cap.header.set_msi_enable(true);
    proof {
        lemma_configure_keeps_layout(cap0, multi_msg_enable as u16);
    }
    msi_cap.msg_addr = msg_addr;
    msi_cap.msg_data = msg_data;
    let ghost before = *config;
    write_msi_capability(config, dev, cap_addr, msi_cap);
    proof {
        law_msi_write_then_read(before, *dev, cap_addr, msi_cap, *config);
    }
    Ok(())
}

/// Enabling MSI-X is not implemented.
pub fn configure_msix_register(
    _config: &mut Config,
    _dev: &Device,
    _cap_addr: u8,
    _msg_addr: u32,
    _msg_data: u32,
    _num_vector_exponent: u8,
) -> (r: Result<()>)
    ensures
        r == Err::<(), Error>(Error { kind: ErrorKind::NotImplemented }),
        *final(_config) == *old(_config),
{
    Err(Error::new(ErrorKind::NotImplemented))
}

/// The last MSI and MSI-X capabilities of the list from `addr`, following at
/// most `fuel` headers.
pub open spec fn cap_walk(
    config: &Config,
    dev: Device,
    addr: u8,
    fuel: nat,
    msi: Option<u8>,
    msix: Option<u8>,
) -> (Option<u8>, Option<u8>)
    decreases fuel,
{
    if addr == 0 || fuel == 0 {
        (msi, msix)
    } else {
        let h = spec_capability_header(config.spec_read(spec_addr(dev.bus, dev.device, dev.function, addr)));
        cap_walk(
            config,
            dev,
            h.next_ptr,
            (fuel - 1) as nat,
            if h.cap_id == CAPABILITY_MSI {
                Some(addr)
            } else {
                msi
            },
            if h.cap_id == CAPABILITY_MSIX {
                Some(addr)
            } else {
                msix
            },
        )
    }
}

/// Whether each header the walk from `addr` reads sits at a multiple of 4.
pub open spec fn cap_walk_aligned(config: &Config, dev: Device, addr: u8, fuel: nat) -> bool
    decreases fuel,
{
    if addr == 0 || fuel == 0 {
        true
    } else {
        let h = spec_capability_header(config.spec_read(spec_addr(dev.bus, dev.device, dev.function, addr)));
        addr & 3 == 0 && cap_walk_aligned(config, dev, h.next_ptr, (fuel - 1) as nat)
    }
}

/// The capability list pointer of a function.
pub open spec fn first_capability(config: &Config, dev: Device) -> u8 {
    (config.spec_read(spec_addr(dev.bus, dev.device, dev.function, 0x34)) & 0xff) as u8
}

/// Configures message signalled interrupts of `dev`: through its (last) MSI
/// capability, else fails with `NotImplemented` when it has MSI-X, else with
/// `NoPciMsi`.
pub fn configure_msi(
    config: &mut Config,
    dev: &Device,
    msg_addr: u32,
    msg_data: u32,
    num_vector_exponent: u8,
) -> (r: Result<()>)
    requires
        device_in_range(*dev),
        cap_walk_aligned(old(config), *dev, first_capability(old(config), *dev), MAX_CAPABILITIES as nat),
        cap_walk(old(config), *dev, first_capability(old(config), *dev), MAX_CAPABILITIES as nat, None, None).0 matches Some(a) ==> msi_fits(
            spec_capability_header(old(config).spec_read(spec_addr(dev.bus, dev.device, dev.function, a))),
            a,
        ),
    ensures
        ({
            let found = cap_walk(old(config), *dev, first_capability(old(config), *dev), MAX_CAPABILITIES as nat, None, None);
            match found.0 {
                Some(a) => {
                    &&& r is Ok
                    &&& final(config).writes() == old(config).writes() + msi_writes(
                        *dev,
                        a,
                        configured_msi(spec_read_msi(old(config), *dev, a), msg_addr, msg_data, num_vector_exponent),
                    )
                    &&& final(config).regs() == old(config).regs() + msi_writes(
                        *dev,
                        a,
                        configured_msi(spec_read_msi(old(config), *dev, a), msg_addr, msg_data, num_vector_exponent),
                    )
                    &&& spec_read_msi(final(config), *dev, a) == msi_read_back(
                        configured_msi(spec_read_msi(old(config), *dev, a), msg_addr, msg_data, num_vector_exponent),
                    )
                },
                None => {
                    &&& *final(config) == *old(config)
                    &&& found.1 is Some ==> r == Err::<(), Error>(Error { kind: ErrorKind::NotImplemented })
                    &&& found.1 is None ==> r == Err::<(), Error>(Error { kind: ErrorKind::NoPciMsi })
                },
            }
        }),
{
    proof {
        lemma_masks(0);
    }
    let first = read_conf_reg(config, dev, 0x34);
    proof {
        lemma_masks(first);
    }
    let mut cap_addr = (first & 0xff) as u8;
    let mut msi_cap_addr: Option<u8> = None;
    let mut msix_cap_addr: Option<u8> = None;
    let mut fuel: u32 = MAX_CAPABILITIES;
    let ghost start = cap_addr;
    while cap_addr != 0 && fuel > 0
        invariant
            device_in_range(*dev),
            msi_cap_addr matches Some(a) ==> a & 3 == 0,
            cap_walk_aligned(config, *dev, cap_addr, fuel as nat),
            cap_walk(config, *dev, cap_addr, fuel as nat, msi_cap_addr, msix_cap_addr) == cap_walk(
                config,
                *dev,
                start,
                MAX_CAPABILITIES as nat,
                None,
                None,
            ),
        decreases fuel,
    {
        let header = read_capability_header(config, dev, cap_addr);
        if header.cap_id == CAPABILITY_MSI {
            msi_cap_addr = Some(cap_addr);
        } else if header.cap_id == CAPABILITY_MSIX {
            msix_cap_addr = Some(cap_addr);
        }
        cap_addr = header.next_ptr;
        fuel = fuel - 1;
    }
    if let Some(cap_addr) = msi_cap_addr {
        return configure_msi_register(config, dev, cap_addr, msg_addr, msg_data, num_vector_exponent);
    }
    if let Some(cap_addr) = msix_cap_addr {
        return configure_msix_register(config, dev, cap_addr, msg_addr, msg_data, num_vector_exponent);
    }
    Err(Error::new(ErrorKind::NoPciMsi))
}

/// The MSI message address that targets the local APIC `apic_id`.
pub open spec fn msi_message_addr(apic_id: u32) -> u32 {
    0xfee0_0000u32 | (apic_id << 12u32)
}

/// The MSI message data of a vector, delivery and trigger mode.
pub open spec fn msi_message_data(trigger_mode: MsiTriggerMode, delivery_mode: MsiDeliveryMode, vector: InterruptIndex) -> u32 {
    let data = ((spec_delivery_mode(delivery_mode) as u32) << 8u32) | (spec_interrupt_vector(vector) as u32);
    if trigger_mode == MsiTriggerMode::Level {
        data | 0xc000u32
    } else {
        data
    }
}

/// Configures `dev` to signal `vector` to the local APIC `apic_id` with the
/// given trigger and delivery modes (see `configure_msi`).
pub fn configure_msi_fixed_destination(
    config: &mut Config,
    dev: &Device,
    apic_id: u32,
    trigger_mode: MsiTriggerMode,
    delivery_mode: MsiDeliveryMode,
    vector: InterruptIndex,
    num_vector_exponent: u8,
) -> (r: Result<()>)
    requires
        device_in_range(*dev),
        cap_walk_aligned(old(config), *dev, first_capability(old(config), *dev), MAX_CAPABILITIES as nat),
        cap_walk(old(config), *dev, first_capability(old(config), *dev), MAX_CAPABILITIES as nat, None, None).0 matches Some(a) ==> msi_fits(
            spec_capability_header(old(config).spec_read(spec_addr(dev.bus, dev.device, dev.function, a))),
            a,
        ),
    ensures
        ({
            let found = cap_walk(old(config), *dev, first_capability(old(config), *dev), MAX_CAPABILITIES as nat, None, None);
            let msg_addr = msi_message_addr(apic_id);
            let msg_data = msi_message_data(trigger_mode, delivery_mode, vector);
            match found.0 {
                Some(a) => {
                    &&& r is Ok
                    &&& final(config).writes() == old(config).writes() + msi_writes(
                        *dev,
                        a,
                        configured_msi(spec_read_msi(old(config), *dev, a), msg_addr, msg_data, num_vector_exponent),
                    )
                    &&& final(config).regs() == old(config).regs() + msi_writes(
                        *dev,
                        a,
                        configured_msi(spec_read_msi(old(config), *dev, a), msg_addr, msg_data, num_vector_exponent),
                    )
                    &&& spec_read_msi(final(config), *dev, a) == msi_read_back(
                        configured_msi(spec_read_msi(old(config), *dev, a), msg_addr, msg_data, num_vector_exponent),
                    )
                },
                None => {
                    &&& *final(config) == *old(config)
                    &&& found.1 is Some ==> r == Err::<(), Error>(Error { kind: ErrorKind::NotImplemented })
                    &&& found.1 is None ==> r == Err::<(), Error>(Error { kind: ErrorKind::NoPciMsi })
                },
            }
        }),
{
    let msg_addr = 0xfee0_0000u32 | (apic_id << 12u32);
    let mut msg_data = (delivery_mode.as_u32() << 8u32) | vector.as_u32();
    if trigger_mode == MsiTriggerMode::Level {
        msg_data = msg_data | 0xc000u32;
    }
    configure_msi(config, dev, msg_addr, msg_data, num_vector_exponent)
}

} // verus!
