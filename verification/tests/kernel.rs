use sabios::acpi::{check_rsdp, sum_bytes, Rsdp, RSDP_SIGNATURE};
use sabios::allocator::{list_index, AllocSource, BlockLists, Layout};
use sabios::error::{Error, ErrorKind};
use sabios::log::{Level, LogLevels};
use sabios::memory::{gib, kib, mib, BitmapMemoryManager, FrameRange, MemoryRegion, MemoryRegionKind, MergedMemoryRegion};
use sabios::pci::{
    calc_bar_addr, configure_msi, configure_msi_fixed_destination, is_single_function_device, read_bar,
    read_capability_header, read_msi_capability, scan_all_bus, write_msi_capability, MsiCapability, Addr, CapabilityHeader, ClassCode, Config, Device, InterruptIndex,
    MsiDeliveryMode, MsiTriggerMode,
};
use sabios::task::{self, IdGenerator, Task, TaskId, TaskManager};
use sabios::timer::{elapsed, init, start, stop, LapicTimer, TimerManager, COUNT_MAX};
use sabios::triple_buffer::{state_new, state_to_index, TripleBuffer};
use sabios::usb::{convert_res, error_from_cxx, CxxError};
use sabios::keyboard::{task_command, TaskCommand};
use sabios::xhc::{find_xhc, hand_over_ports, switch_ehci_to_xhci, xhc_mmio_base};

#[test]
fn block_size_choice() {
    assert_eq!(list_index(&Layout { size: 1, align: 1 }), Some(0));
    assert_eq!(list_index(&Layout { size: 8, align: 8 }), Some(0));
    assert_eq!(list_index(&Layout { size: 9, align: 1 }), Some(1));
    assert_eq!(list_index(&Layout { size: 4, align: 64 }), Some(3));
    assert_eq!(list_index(&Layout { size: 2048, align: 8 }), Some(8));
    assert_eq!(list_index(&Layout { size: 2049, align: 8 }), None);
}

#[test]
fn freed_block_is_reused() {
    let mut lists = BlockLists::new();
    let small = Layout { size: 24, align: 8 };
    assert_eq!(lists.allocate(small), AllocSource::Fallback(Layout { size: 32, align: 32 }));
    assert!(lists.dealloc(0x1000, small));
    assert!(lists.dealloc(0x2000, Layout { size: 32, align: 4 }));
    assert_eq!(lists.allocate(small), AllocSource::Block(0x2000));
    assert_eq!(lists.allocate(small), AllocSource::Block(0x1000));
    assert_eq!(lists.allocate(small), AllocSource::Fallback(Layout { size: 32, align: 32 }));
    let big = Layout { size: 4096, align: 4096 };
    assert!(!lists.dealloc(0x3000, big));
    assert_eq!(lists.allocate(big), AllocSource::Fallback(big));
}

#[test]
fn timer_registers() {
    let mut t = LapicTimer { lvt_timer: 0, initial_count: 5, current_count: 100, divide_config: 0 };
    init(&mut t, 0x41);
    assert_eq!(t.divide_config, 0b1011);
    assert_eq!(t.lvt_timer, 0x0002_0041);
    assert_eq!(t.initial_count, 0x100_0000);
    start(&mut t);
    assert_eq!(t.initial_count, COUNT_MAX);
    t.current_count = COUNT_MAX - 1234;
    assert_eq!(elapsed(&t), 1234);
    stop(&mut t);
    assert_eq!(t.initial_count, 0);
}

#[test]
fn tick_counter_wraps() {
    let mut m = TimerManager::new();
    assert_eq!(m.current_tick(), 0);
    m.tick(5);
    m.tick(7);
    assert_eq!(m.current_tick(), 12);
    m.tick(u64::MAX);
    assert_eq!(m.current_tick(), 11);
}

fn rsdp_bytes() -> Vec<u8> {
    let mut b = vec![0u8; 36];
    b[..8].copy_from_slice(&RSDP_SIGNATURE);
    b[15] = 2;
    let s20 = b[..20].iter().fold(0u8, |a, x| a.wrapping_add(*x));
    b[8] = 0u8.wrapping_sub(s20);
    let s36 = b.iter().fold(0u8, |a, x| a.wrapping_add(*x));
    b[32] = 0u8.wrapping_sub(s36);
    b
}

#[test]
fn valid_rsdp_is_accepted() {
    let b = rsdp_bytes();
    assert_eq!(sum_bytes(&b, 20), 0);
    assert_eq!(sum_bytes(&b, 36), 0);
    let r = Rsdp::from_bytes(&b).unwrap();
    assert!(r.is_valid());
    assert!(check_rsdp(r).is_ok());
}

#[test]
fn invalid_rsdp_is_rejected() {
    assert!(Rsdp::from_bytes(&[0u8; 35]).is_none());
    let mut bad_sig = rsdp_bytes();
    bad_sig[0] = b'X';
    bad_sig[8] = bad_sig[8].wrapping_sub(b'X' - b'R');
    assert_eq!(check_rsdp(Rsdp::from_bytes(&bad_sig).unwrap()).err().unwrap().kind, ErrorKind::InvalidRsdp);
    let mut bad_rev = rsdp_bytes();
    bad_rev[15] = 1;
    assert!(!Rsdp::from_bytes(&bad_rev).unwrap().is_valid());
    let mut bad_sum = rsdp_bytes();
    bad_sum[33] = 1;
    assert!(!Rsdp::from_bytes(&bad_sum).unwrap().is_valid());
}

#[test]
fn log_targets() {
    let mut l = LogLevels::new();
    assert_eq!(l.targets(Level::Warn), (true, true));
    assert_eq!(l.targets(Level::Info), (true, false));
    assert_eq!(l.targets(Level::Debug), (false, false));
    l.set_level(Level::Trace, Level::Error);
    assert_eq!(l.targets(Level::Warn), (false, true));
    assert_eq!(l.targets(Level::Error), (true, true));
    assert_eq!(Level::Debug.name(), "DEBUG");
    assert_eq!(Level::Trace.rank(), 4);
    assert!(Level::Error.le(Level::Info));
    assert!(!Level::Info.le(Level::Warn));
}

#[test]
fn usb_error_codes() {
    assert_eq!(convert_res(0), Ok(()));
    assert_eq!(convert_res(7), Err(CxxError(7)));
    assert_eq!(error_from_cxx(CxxError(1)), Error::new(ErrorKind::NoEnoughMemory));
    assert_eq!(error_from_cxx(CxxError(15)).kind, ErrorKind::EndpointNotInCharge);
    assert_eq!(error_from_cxx(CxxError(99)).kind, ErrorKind::Unknown);
    assert_eq!(error_from_cxx(CxxError(-1)).kind, ErrorKind::Unknown);
}

fn dev(bus: u8, device: u8, vendor_id: u16, base: u8, sub: u8, interface: u8) -> Device {
    Device {
        bus,
        device,
        function: 0,
        vendor_id,
        class_code: ClassCode { base, sub, interface },
        header_type: 0,
    }
}

#[test]
fn xhc_choice_prefers_intel() {
    let other = dev(0, 1, 0x1033, 0x0c, 0x03, 0x30);
    let other2 = dev(0, 2, 0x1b21, 0x0c, 0x03, 0x30);
    let intel = dev(0, 3, 0x8086, 0x0c, 0x03, 0x30);
    let ehci = dev(0, 4, 0x8086, 0x0c, 0x03, 0x20);
    assert_eq!(find_xhc(&[other, intel, other2]), Some(intel));
    assert_eq!(find_xhc(&[other, other2, ehci]), Some(other2));
    assert_eq!(find_xhc(&[ehci]), None);
}

#[test]
fn ehci_ports_switched_when_intel_ehci_present() {
    let xhc = dev(0, 3, 0x8086, 0x0c, 0x03, 0x30);
    let ehci = dev(0, 4, 0x8086, 0x0c, 0x03, 0x20);
    let mut config = Config::new();
    config.set(Addr::new(0, 3, 0, 0xdc), 0xf);
    config.set(Addr::new(0, 3, 0, 0xd4), 0x3);
    switch_ehci_to_xhci(&mut config, &[xhc], &xhc);
    assert!(config.write_log().is_empty());
    switch_ehci_to_xhci(&mut config, &[xhc, ehci], &xhc);
    assert_eq!(
        config.write_log(),
        &vec![(Addr::new(0, 3, 0, 0xf8).0, 0xf), (Addr::new(0, 3, 0, 0xd0).0, 0x3)]
    );
}

#[test]
fn pci_addresses_and_registers() {
    assert_eq!(Addr::new(1, 2, 3, 0x10).0, 0x8001_1310);
    assert_eq!(calc_bar_addr(0), 0x10);
    assert_eq!(calc_bar_addr(5), 0x24);
    assert!(is_single_function_device(0x00));
    assert!(!is_single_function_device(0x80));
    let h = CapabilityHeader::from(0x0083_5005);
    assert_eq!(h, CapabilityHeader { cap_id: 0x05, next_ptr: 0x50, cap: 0x0083 });
    assert_eq!(h.as_u32(), 0x0083_5005);
    assert_eq!(h.multi_msg_capable(), 1);
    assert!(h.addr_64_capable());
    assert!(!h.per_vector_mask_capable());
    let mut h2 = h;
    h2.set_msi_enable(false);
    assert_eq!(h2.cap, 0x0082);
    h2.set_multi_msg_enable(1);
    assert_eq!(h2.cap, 0x0092);
    assert_eq!(InterruptIndex::Xhci.as_u8(), 0x40);
    assert_eq!(MsiDeliveryMode::Nmi.as_u32(), 0b100);
}

#[test]
fn bar_reads() {
    let d = dev(0, 5, 0x1234, 0x0c, 0x03, 0x30);
    let mut config = Config::new();
    config.set(Addr::new(0, 5, 0, 0x10), 0xfebf_0004);
    config.set(Addr::new(0, 5, 0, 0x14), 0x0000_0001);
    config.set(Addr::new(0, 5, 0, 0x18), 0xe000_0000);
    config.set(Addr::new(0, 5, 0, 0x24), 0x0000_0004);
    assert_eq!(read_bar(&config, &d, 0).unwrap(), 0x1_febf_0004);
    assert_eq!(read_bar(&config, &d, 2).unwrap(), 0xe000_0000);
    assert_eq!(read_bar(&config, &d, 5).err().unwrap().kind, ErrorKind::IndexOutOfRange);
    assert_eq!(read_bar(&config, &d, 6).err().unwrap().kind, ErrorKind::IndexOutOfRange);
}

#[test]
fn pci_bus_scan_follows_bridges() {
    let mut config = Config::new();
    // Host bridge, single function.
    config.set(Addr::new(0, 0, 0, 0x00), 0x1237_8086);
    config.set(Addr::new(0, 0, 0, 0x0c), 0x0000_0000);
    config.set(Addr::new(0, 0, 0, 0x08), 0x0600_0000);
    // PCI-PCI bridge at 0:1.0 with secondary bus 2.
    config.set(Addr::new(0, 1, 0, 0x00), 0x0001_8086);
    config.set(Addr::new(0, 1, 0, 0x08), 0x0604_0000);
    config.set(Addr::new(0, 1, 0, 0x18), 0x0000_0200);
    // A device behind the bridge, with two functions.
    config.set(Addr::new(2, 0, 0, 0x00), 0x0002_1af4);
    config.set(Addr::new(2, 0, 0, 0x0c), 0x0080_0000);
    config.set(Addr::new(2, 0, 1, 0x00), 0x0003_1af4);
    let devices = scan_all_bus(&config).unwrap();
    let found: Vec<(u8, u8, u8)> = devices.iter().map(|d| (d.bus, d.device, d.function)).collect();
    assert_eq!(found, vec![(0, 0, 0), (0, 1, 0), (2, 0, 0), (2, 0, 1)]);
    assert_eq!(devices[1].class_code, ClassCode { base: 6, sub: 4, interface: 0 });
    assert_eq!(devices[2].header_type, 0x80);
    assert_eq!(devices[3].vendor_id, 0x1af4);
}

#[test]
fn pci_scan_overflow_is_full() {
    let mut config = Config::new();
    config.set(Addr::new(0, 0, 0, 0x0c), 0x0080_0000);
    for bus in 0..2u8 {
        config.set(Addr::new(0, 0, bus, 0x00), 0x0000_8086);
        for d in 0..32u8 {
            config.set(Addr::new(bus, d, 0, 0x00), 0x0000_8086);
        }
    }
    assert_eq!(scan_all_bus(&config).err().unwrap().kind, ErrorKind::Full);
}

#[test]
fn msi_configuration() {
    let d = dev(0, 4, 0x1234, 0x0c, 0x03, 0x30);
    let mut config = Config::new();
    config.set(Addr::new(0, 4, 0, 0x34), 0x50);
    config.set(Addr::new(0, 4, 0, 0x50), 0x0080_0005);
    let h = read_capability_header(&config, &d, 0x50);
    assert_eq!(h.cap_id, 0x05);
    assert!(configure_msi_fixed_destination(
        &mut config,
        &d,
        1,
        MsiTriggerMode::Level,
        MsiDeliveryMode::Fixed,
        InterruptIndex::Xhci,
        0
    )
    .is_ok());
    let writes = config.write_log().clone();
    assert_eq!(writes[0], (Addr::new(0, 4, 0, 0x50).0, 0x0081_0005));
    assert_eq!(writes[1], (Addr::new(0, 4, 0, 0x54).0, 0xfee0_1000));
    assert!(writes.contains(&(Addr::new(0, 4, 0, 0x5c).0, 0xc040)));

    let mut no_caps = Config::new();
    assert_eq!(configure_msi(&mut no_caps, &d, 0, 0, 0).err().unwrap().kind, ErrorKind::NoPciMsi);
    let mut msix = Config::new();
    msix.set(Addr::new(0, 4, 0, 0x34), 0x40);
    msix.set(Addr::new(0, 4, 0, 0x40), 0x0000_0011);
    assert_eq!(configure_msi(&mut msix, &d, 0, 0, 0).err().unwrap().kind, ErrorKind::NotImplemented);
    assert!(msix.write_log().is_empty());
}

#[test]
fn size_units() {
    assert_eq!(kib(4), 4096);
    assert_eq!(mib(2), 2 * 1024 * 1024);
    assert_eq!(gib(1), 1 << 30);
}

fn region(start: u64, end: u64, kind: MemoryRegionKind) -> MemoryRegion {
    MemoryRegion { start, end, kind }
}

#[test]
fn memory_map_regions_merge() {
    let regions = [
        region(0x0000, 0x1000, MemoryRegionKind::Bootloader),
        region(0x1000, 0x3000, MemoryRegionKind::Usable),
        region(0x3000, 0x5000, MemoryRegionKind::Usable),
        region(0x6000, 0x7000, MemoryRegionKind::Usable),
    ];
    let mut it = MergedMemoryRegion::new(&regions);
    assert_eq!(it.next(), Some(region(0x0000, 0x1000, MemoryRegionKind::Bootloader)));
    assert_eq!(it.next(), Some(region(0x1000, 0x5000, MemoryRegionKind::Usable)));
    assert_eq!(it.next(), Some(region(0x6000, 0x7000, MemoryRegionKind::Usable)));
    assert_eq!(it.next(), None);
    assert_eq!(it.next(), None);
}

#[test]
fn frame_allocation_after_init() {
    let regions = [
        region(0x0000, 0x1000, MemoryRegionKind::Bootloader),
        region(0x1000, 0x4000, MemoryRegionKind::Usable),
        region(0x5000, 0x9000, MemoryRegionKind::Usable),
    ];
    let mut m = BitmapMemoryManager::new();
    assert!(m.init(&regions).is_ok());
    assert!(m.get_bit(0));
    assert!(!m.get_bit(1));
    assert!(m.get_bit(4));
    assert!(!m.get_bit(8));
    assert_eq!(m.allocate(2).unwrap(), FrameRange::new(1, 3));
    assert_eq!(m.allocate(2).unwrap(), FrameRange::new(5, 7));
    assert_eq!(m.allocate_frame(), Some(3));
    assert_eq!(m.allocate(3).err().unwrap().kind, ErrorKind::NoEnoughMemory);
    assert_eq!(m.allocate(2).unwrap(), FrameRange::new(7, 9));
    assert_eq!(m.allocate_frame(), None);
    m.set_bit(5, false);
    assert!(!m.get_bit(5));
    m.mark_allocated(FrameRange::new(5, 6));
    assert!(m.get_bit(5));
}

fn task_at(ids: &mut IdGenerator, level: usize) -> Task {
    let mut t = Task::new(ids);
    t.set_level(level);
    t
}

#[test]
fn tasks_run_by_level() {
    let mut ids = IdGenerator::new();
    let main = Task::new_main(&mut ids);
    assert_eq!(main.id(), TaskId(0));
    assert_eq!(main.level(), 1);
    let mut m = TaskManager::new(main);
    let low = task_at(&mut ids, 0);
    let high = task_at(&mut ids, 3);
    let same = task_at(&mut ids, 1);
    let (low_id, high_id, same_id) = (low.id(), high.id(), same.id());
    assert_eq!(task::spawn(&mut m, low), low_id);
    m.spawn(high);
    m.spawn(same);
    m.wake(same_id);
    m.wake(low_id);
    m.wake(low_id);
    // Only tasks at the running level or above may preempt it.
    let sw = m.switch_context(false).unwrap();
    assert_eq!(sw.next_task.id(), same_id);
    assert_eq!(sw.current_task.id(), TaskId(0));
    assert_eq!(task::current(&m).id(), same_id);
    task::wake(&mut m, high_id);
    let sw = task::on_interrupt(&mut m).unwrap();
    assert_eq!(sw.next_task.id(), high_id);
    assert_eq!(sw.current_task.id(), same_id);
    // Going to sleep hands over to any level; the sleeper is not queued.
    let sw = m.sleep(high_id).unwrap();
    assert_eq!(sw.next_task.id(), TaskId(0));
    let sw = m.switch_context(true).unwrap();
    assert_eq!(sw.next_task.id(), same_id);
    let sw = m.switch_context(true).unwrap();
    assert_eq!(sw.next_task.id(), low_id);
    assert!(m.switch_context(true).is_none());
    assert_eq!(m.current_task().id(), low_id);
}

#[test]
fn pop_next_task_takes_highest_level() {
    let mut ids = IdGenerator::new();
    let mut m = TaskManager::new(Task::new_main(&mut ids));
    let a = task_at(&mut ids, 0);
    let b = task_at(&mut ids, 2);
    let (a_id, b_id) = (a.id(), b.id());
    m.spawn(a);
    m.spawn(b);
    m.wake(a_id);
    m.wake(b_id);
    assert_eq!(m.pop_next_task(3).map(|t| t.id()), None);
    assert_eq!(m.pop_next_task(0).map(|t| t.id()), Some(b_id));
    assert_eq!(m.pop_next_task(0).map(|t| t.id()), Some(a_id));
    assert_eq!(m.pop_next_task(0).map(|t| t.id()), None);
    m.wake(TaskId(99));
    assert_eq!(m.pop_next_task(0).map(|t| t.id()), None);
}

#[test]
fn sleeping_other_task_unqueues_it() {
    let mut ids = IdGenerator::new();
    let mut m = TaskManager::new(Task::new_main(&mut ids));
    let a = task_at(&mut ids, 1);
    let a_id = a.id();
    m.spawn(a);
    m.wake(a_id);
    assert!(m.sleep(a_id).is_none());
    assert!(m.switch_context(true).is_none());
    assert_eq!(m.current_task().id(), TaskId(0));
}

#[test]
fn triple_buffer_state_words() {
    assert_eq!(state_new(2, 5), 0b10110);
    assert_eq!(state_to_index(0b10110), 2);
}

fn check_epoch<T>(b: &TripleBuffer<T>, present: u64, ready: u64, in_progress: u64) {
    assert_eq!(b.consumer_epoch(), present);
    assert_eq!(b.ready_epoch(), ready);
    assert_eq!(b.producer_epoch(), in_progress);
}

#[test]
fn basic() {
    let mut b = TripleBuffer::new(vec![1, 2, 3]);
    check_epoch(&b, 0, 0, 1);
    b.load();
    assert_eq!(b.consumer_buffer(), &vec![1, 2, 3]);
    check_epoch(&b, 0, 0, 1);
    b.set_producer_buffer(vec![4, 5, 6]);
    b.store();
    check_epoch(&b, 0, 1, 2);
    b.load();
    assert_eq!(b.consumer_buffer(), &vec![4, 5, 6]);
    check_epoch(&b, 1, 0, 2);
}

#[test]
fn faster_consumer() {
    let mut b = TripleBuffer::new(vec![1, 2, 3]);
    b.set_producer_buffer(vec![4, 5, 6]);
    b.store();
    check_epoch(&b, 0, 1, 2);
    b.load();
    assert_eq!(b.consumer_buffer(), &vec![4, 5, 6]);
    check_epoch(&b, 1, 0, 2);
    b.load();
    assert_eq!(b.consumer_buffer(), &vec![4, 5, 6]);
    check_epoch(&b, 1, 0, 2);
    b.set_producer_buffer(vec![7, 8, 9]);
    b.store();
    check_epoch(&b, 1, 2, 3);
    b.load();
    assert_eq!(b.consumer_buffer(), &vec![7, 8, 9]);
    check_epoch(&b, 2, 1, 3);
    b.load();
    assert_eq!(b.consumer_buffer(), &vec![7, 8, 9]);
    check_epoch(&b, 2, 1, 3);
    b.load();
    assert_eq!(b.consumer_buffer(), &vec![7, 8, 9]);
    check_epoch(&b, 2, 1, 3);
}

#[test]
fn faster_producer() {
    let mut b = TripleBuffer::new(vec![1, 2, 3]);
    b.set_producer_buffer(vec![4, 5, 6]);
    b.store();
    check_epoch(&b, 0, 1, 2);
    b.set_producer_buffer(vec![7, 8, 9]);
    b.store();
    check_epoch(&b, 0, 2, 3);
    b.load();
    assert_eq!(b.consumer_buffer(), &vec![7, 8, 9]);
    check_epoch(&b, 2, 0, 3);
    b.set_producer_buffer(vec![13, 14, 15]);
    b.store();
    check_epoch(&b, 2, 3, 4);
    b.set_producer_buffer(vec![16, 17, 18]);
    b.store();
    check_epoch(&b, 2, 4, 5);
    b.set_producer_buffer(vec![19, 20, 21]);
    b.store();
    check_epoch(&b, 2, 5, 6);
    b.load();
    assert_eq!(b.consumer_buffer(), &vec![19, 20, 21]);
    check_epoch(&b, 5, 2, 6);
}

#[test]
fn log_lines_by_target() {
    let levels = LogLevels::new();
    let (serial, console) = levels.log_texts(Level::Warn, "disk full", "src/fat.rs", 42, false, true);
    assert_eq!(serial.unwrap().iter().collect::<String>(), "[WARN] src/fat.rs:42 disk full\n");
    assert_eq!(console.unwrap().iter().collect::<String>(), "[WARN] disk full\n");
    let (serial, console) = levels.log_texts(Level::Info, "more", "m.rs", 7, true, false);
    assert_eq!(serial.unwrap().iter().collect::<String>(), "more");
    assert!(console.is_none());
    let (serial, console) = levels.log_texts(Level::Trace, "x", "m.rs", 1, false, true);
    assert!(serial.is_none());
    assert!(console.is_none());
    assert_eq!(
        sabios::log::format_log(Level::Error, "boom", None, false, false).iter().collect::<String>(),
        "[ERROR] boom"
    );
}

#[test]
fn key_commands_for_sleeping_task() {
    assert_eq!(task_command('s'), Some(TaskCommand::Sleep));
    assert_eq!(task_command('w'), Some(TaskCommand::Wake));
    assert_eq!(task_command('S'), None);
    assert_eq!(task_command('a'), None);
    assert_eq!(task_command('\0'), None);
}

#[test]
fn xhc_mmio_base_clears_flag_bits() {
    assert_eq!(xhc_mmio_base(0xfebf_0004), 0xfebf_0000);
    assert_eq!(xhc_mmio_base(0x1_2345_678f), 0x1_2345_6780);
    assert_eq!(xhc_mmio_base(0xf), 0);
    assert_eq!(xhc_mmio_base(0x10), 0x10);
}

#[test]
fn error_kind_messages() {
    assert_eq!(ErrorKind::Full.message(), "buffer full");
    assert_eq!(ErrorKind::UnsupportedPixelFormat.message(), "unsupported pixel format");
    assert_eq!(ErrorKind::XhcNotFound.message(), "XhcNotFound");
    assert_eq!(ErrorKind::NoPciMsi.message(), "NoPciMsi");
}

#[test]
fn msi_capability_high_in_config_space() {
    // A 32-bit capability without masks at 0xf0 ends with its data at 0xf8.
    let d = dev(0, 4, 0x1234, 0x0c, 0x03, 0x30);
    let mut config = Config::new();
    config.set(Addr::new(0, 4, 0, 0x34), 0xf0);
    config.set(Addr::new(0, 4, 0, 0xf0), 0x0000_0005);
    assert!(configure_msi(&mut config, &d, 0xfee0_0000, 0x41, 0).is_ok());
    let writes = config.write_log().clone();
    assert_eq!(writes.len(), 3);
    assert_eq!(writes[0], (Addr::new(0, 4, 0, 0xf0).0, 0x0001_0005));
    assert_eq!(writes[1], (Addr::new(0, 4, 0, 0xf4).0, 0xfee0_0000));
    assert_eq!(writes[2], (Addr::new(0, 4, 0, 0xf8).0, 0x41));
}

#[test]
fn msi_capability_reads_back_what_was_written() {
    let d = dev(0, 4, 0x1234, 0x0c, 0x03, 0x30);
    let mut config = Config::new();
    let full = MsiCapability {
        header: CapabilityHeader { cap_id: 0x05, next_ptr: 0, cap: 0x0181 },
        msg_addr: 1,
        msg_upper_addr: 2,
        msg_data: 3,
        mask_bits: 4,
        pending_bits: 5,
    };
    write_msi_capability(&mut config, &d, 0x50, full);
    assert_eq!(read_msi_capability(&config, &d, 0x50), full);
    let short = MsiCapability { header: CapabilityHeader { cap_id: 0x05, next_ptr: 0, cap: 0x0001 }, ..full };
    write_msi_capability(&mut config, &d, 0x70, short);
    assert_eq!(
        read_msi_capability(&config, &d, 0x70),
        MsiCapability { msg_upper_addr: 0, mask_bits: 0, pending_bits: 0, ..short }
    );
}

#[test]
fn ports_handed_over_only_to_intel_xhc() {
    let other = dev(0, 2, 0x1b21, 0x0c, 0x03, 0x30);
    let intel = dev(0, 3, 0x8086, 0x0c, 0x03, 0x30);
    let ehci = dev(0, 4, 0x8086, 0x0c, 0x03, 0x20);
    let mut config = Config::new();
    config.set(Addr::new(0, 2, 0, 0xdc), 0xf);
    config.set(Addr::new(0, 3, 0, 0xdc), 0x7);
    config.set(Addr::new(0, 3, 0, 0xd4), 0x1);
    hand_over_ports(&mut config, &[other, ehci], &other);
    assert!(config.write_log().is_empty());
    hand_over_ports(&mut config, &[intel, ehci], &intel);
    assert_eq!(
        config.write_log(),
        &vec![(Addr::new(0, 3, 0, 0xf8).0, 0x7), (Addr::new(0, 3, 0, 0xd0).0, 0x1)]
    );
}

#[test]
fn tasks_above_the_highest_level_are_kept() {
    let mut ids = IdGenerator::new();
    let main = task_at(&mut ids, 5);
    let main_id = main.id();
    let mut m = TaskManager::new(main);
    assert_eq!(m.current_task().id(), main_id);
    m.spawn(task_at(&mut ids, 7));
    let near = task_at(&mut ids, 0);
    let near_id = near.id();
    m.spawn(near);
    m.wake(near_id);
    // The running task may sleep: the next one comes from the lowest level up.
    let switch = m.sleep(main_id).unwrap();
    assert_eq!(switch.next_task.id(), near_id);
    assert_eq!(switch.current_task.id(), main_id);
    assert_eq!(m.current_task().id(), near_id);
}

#[test]
fn msi_capability_read_after_configuring() {
    let d = dev(0, 4, 0x1234, 0x0c, 0x03, 0x30);
    let mut config = Config::new();
    config.set(Addr::new(0, 4, 0, 0x34), 0x50);
    // 64-bit capable, masks, four vectors capable (exponent 2).
    config.set(Addr::new(0, 4, 0, 0x50), 0x0184_0005);
    config.set(Addr::new(0, 4, 0, 0x58), 0x1234);
    config.set(Addr::new(0, 4, 0, 0x60), 0x0f);
    assert!(configure_msi(&mut config, &d, 0xfee0_0000, 0x41, 5).is_ok());
    let m = read_msi_capability(&config, &d, 0x50);
    assert_eq!(m.header.cap, 0x01a5);
    assert_eq!(m.msg_addr, 0xfee0_0000);
    assert_eq!(m.msg_upper_addr, 0x1234);
    assert_eq!(m.msg_data, 0x41);
    assert_eq!(m.mask_bits, 0x0f);
    assert_eq!(m.pending_bits, 0xffff_ffff);
}
