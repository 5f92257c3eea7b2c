use cfs_sched::drivers::{
    read_epoch, DeviceType, Driver, DriverError, MiniUART, RtcDriver, SerialDriver,
};
use std::sync::Mutex;
use cfs_sched::file::{split_path, OpenOptions, SeekFrom};
use cfs_sched::memory::{
    as_lower_range, as_upper_range, handle_page_fault, ioremap, phys_to_virt, virt_to_phys,
    GlobalFrameAlloc, Linear, MemInitOpts, Page, VmError, KERNEL_OFFSET, MEMORY_OFFSET, PAGE_SIZE,
    PHYSICAL_MEMORY_OFFSET,
};

#[test]
fn physical_memory_window() {
    assert_eq!(phys_to_virt(0), PHYSICAL_MEMORY_OFFSET);
    assert_eq!(phys_to_virt(0x4008_0000), 0xffff_8000_4008_0000);
    assert_eq!(virt_to_phys(0xffff_8000_4008_0000), 0x4008_0000);
    assert_eq!(virt_to_phys(PHYSICAL_MEMORY_OFFSET), 0);
    assert_eq!(phys_to_virt(0x7fff_ffff_ffff), u64::MAX);
    for addr in [0u64, 1, 0x1000, 0x4000_0000, 0x7fff_ffff_ffff] {
        assert_eq!(virt_to_phys(phys_to_virt(addr)), addr);
    }
}

#[test]
fn halves_of_the_address_space() {
    assert_eq!(as_lower_range(0xffff_0000_4008_0000), 0x4008_0000);
    assert_eq!(as_lower_range(0x4008_0000), 0x4008_0000);
    assert_eq!(as_lower_range(u64::MAX), 0xffff_ffff_ffff);
    assert_eq!(as_upper_range(0x4008_0000), 0xffff_0000_4008_0000);
    assert_eq!(as_upper_range(0xffff_0000_4008_0000), 0xffff_0000_4008_0000);
    assert_eq!(as_upper_range(0), KERNEL_OFFSET);
    assert_eq!(as_lower_range(as_upper_range(0x1234_5678)), 0x1234_5678);
}

#[test]
fn kernel_page_faults_are_not_handled() {
    assert!(!handle_page_fault(0));
    assert!(!handle_page_fault(0xffff_0000_0000_1000));
}

#[test]
fn frames_and_addresses() {
    let frames = GlobalFrameAlloc;
    assert_eq!(frames.frame_addr(0), MEMORY_OFFSET);
    assert_eq!(frames.frame_addr(3), MEMORY_OFFSET + 3 * PAGE_SIZE);
    assert_eq!(frames.frame_index(0x4000_3000), 0x40003);
    assert_eq!(frames.frame_index(0x4000_3fff), 0x40003);
    assert_eq!(frames.frame_index(0), 0);
}

#[test]
fn linear_mapping_target() {
    let kernel = Linear::new(-(KERNEL_OFFSET as i64));
    assert_eq!(kernel.offset(), 0x1_0000_0000_0000);
    assert_eq!(kernel.target(0xffff_0000_4008_0000), 0x4008_0000);
    let plain = Linear::new(0);
    assert_eq!(plain.target(0x0900_0000), 0x0900_0000);
    assert_eq!(plain.target(u64::MAX), u64::MAX);
    assert_eq!(Linear::new(-0x1000).target(0x800), 0xffff_ffff_ffff_f800);
    assert_eq!(Linear::new(8), Linear::new(8));
}

#[test]
fn vm_error_is_one_kind() {
    let failed: Result<u8, VmError> = Err(VmError::InvalidPtr);
    assert_eq!(failed, Err(VmError::InvalidPtr));
}

#[test]
fn device_descriptions() {
    assert_eq!(DeviceType::Net.description(), "Net");
    assert_eq!(DeviceType::Gpu.description(), "GPU");
    assert_eq!(DeviceType::Input.description(), "Input");
    assert_eq!(DeviceType::Block.description(), "Block");
    assert_eq!(DeviceType::Rtc.description(), "RTC");
    assert_eq!(DeviceType::Serial.description(), "Serial");
    assert_eq!(DeviceType::Intc.description(), "Interrupt Controller");
    assert_eq!(DeviceType::Timer.description(), "Timer");
}

struct FixedClock(u64);

impl Driver for FixedClock {
    fn compatible(&self) -> &'static str {
        "fixed,clock"
    }

    fn device_type(&self) -> DeviceType {
        DeviceType::Rtc
    }
}

impl RtcDriver for FixedClock {
    fn read_epoch(&self) -> u64 {
        self.0
    }
}

#[test]
fn epoch_comes_from_the_clock() {
    let clock = FixedClock(1_600_000_000);
    assert_eq!(read_epoch(Some(&clock)), 1_600_000_000);
    assert_eq!(read_epoch::<FixedClock>(None), 0);
    assert_eq!(clock.init(), Ok(()));
    clock.handle_interrupt();
    assert_eq!(clock.device_type(), DeviceType::Rtc);
    assert_eq!(clock.compatible(), "fixed,clock");
    assert_eq!(DriverError {}, DriverError {});
}

#[test]
fn mini_uart_address() {
    assert_eq!(MiniUART::new(0x1000).addr(), 0x1000);
    assert_eq!(MiniUART::default().addr(), 0x0900_0000);
    assert_eq!(MiniUART::default(), MiniUART::new(0x0900_0000));
}

#[test]
fn seek_targets() {
    assert_eq!(SeekFrom::Start(42).target(7, 100), 42);
    assert_eq!(SeekFrom::End(0).target(7, 100), 100);
    assert_eq!(SeekFrom::End(-10).target(7, 100), 90);
    assert_eq!(SeekFrom::End(5).target(7, 100), 105);
    assert_eq!(SeekFrom::Current(0).target(7, 100), 7);
    assert_eq!(SeekFrom::Current(3).target(7, 100), 10);
    assert_eq!(SeekFrom::Current(-7).target(7, 100), 0);
    // Before the start, the offset wraps as the sum does.
    assert_eq!(SeekFrom::Current(-8).target(7, 100), u64::MAX);
}

#[test]
fn open_options_fields() {
    let options = OpenOptions { read: true, write: false, append: false };
    assert!(options.read && !options.write && !options.append);
    assert_eq!(options, options.clone());
}

#[test]
fn frame_range_of_physical_memory() {
    let opts = MemInitOpts::new(0x4000_0000..0x4800_0000);
    assert_eq!(opts.frame_range(0x4010_0000), 0x100..0x8000);
    assert_eq!(opts.frame_range(0x4000_0000), 0..0x8000);
    assert_eq!(MemInitOpts::new(0..1).frame_range(0), 0..1);
    assert_eq!(MemInitOpts::new(0..0x1001).frame_range(0xfff), 0..2);
}

#[test]
fn device_window() {
    assert_eq!(ioremap(0x0900_0000, 0x1000), 0xffff_0000_0900_0000..0xffff_0000_0900_1000);
    assert_eq!(ioremap(0, 0), KERNEL_OFFSET..KERNEL_OFFSET);
    // Above the lower 48 bits the address wraps round.
    assert_eq!(ioremap(0x1_0000_0000_0000, 8), 0..8);
}

#[test]
fn pages_of_addresses() {
    assert_eq!(Page::of_addr(0).start_address(), 0);
    assert_eq!(Page::of_addr(0xfff).start_address(), 0);
    assert_eq!(Page::of_addr(0x1000).start_address(), 0x1000);
    assert_eq!(Page::of_addr(0x1234_5678).start_address(), 0x1234_5000);
    assert_eq!(Page::of_addr(0x1000).plus(3), Page::of_addr(0x4000));
    assert_eq!(Page::of_addr(u64::MAX).start_address(), 0xffff_ffff_ffff_f000);
}

#[test]
fn page_range_covers_the_addresses() {
    let mut range = Page::range_of(0x1800, 0x4000);
    assert_eq!(range.next(), Some(Page::of_addr(0x1000)));
    assert_eq!(range.next(), Some(Page::of_addr(0x2000)));
    assert_eq!(range.next(), Some(Page::of_addr(0x3000)));
    assert_eq!(range.next(), None);
    assert_eq!(range.next(), None);
    let mut one = Page::range_of(0x2000, 0x2001);
    assert_eq!(one.next(), Some(Page::of_addr(0x2000)));
    assert_eq!(one.next(), None);
    let mut none = Page::range_of(0x3000, 0x2000);
    assert_eq!(none.next(), None);
    let mut same = Page::range_of(0x2800, 0x2800);
    assert_eq!(same.next(), Some(Page::of_addr(0x2000)));
    assert_eq!(same.next(), None);
}

fn split(path: &str) -> (String, String) {
    let (dir, file) = split_path(path.as_bytes());
    (String::from_utf8(dir).unwrap(), String::from_utf8(file).unwrap())
}

fn split_by_the_book(path: &str) -> (String, String) {
    let mut split = path.trim_end_matches('/').rsplitn(2, '/');
    let file_name = split.next().unwrap();
    let mut dir_path = split.next().unwrap_or(".");
    if dir_path == "" {
        dir_path = "/";
    }
    (dir_path.to_string(), file_name.to_string())
}

#[test]
fn split_path_examples() {
    assert_eq!(split("/usr/bin/ls"), ("/usr/bin".to_string(), "ls".to_string()));
    assert_eq!(split("/usr/bin/"), ("/usr".to_string(), "bin".to_string()));
    assert_eq!(split("/etc"), ("/".to_string(), "etc".to_string()));
    assert_eq!(split("file"), (".".to_string(), "file".to_string()));
    assert_eq!(split("dir/file"), ("dir".to_string(), "file".to_string()));
    assert_eq!(split("a//b"), ("a/".to_string(), "b".to_string()));
    assert_eq!(split("/"), (".".to_string(), "".to_string()));
    assert_eq!(split(""), (".".to_string(), "".to_string()));
    assert_eq!(split("///"), (".".to_string(), "".to_string()));
    assert_eq!(split("//a"), ("/".to_string(), "a".to_string()));
}

#[test]
fn split_path_agrees_with_the_string_functions() {
    let parts = ["", "/", "a", "bc", "//", "a/", "/a", "."];
    for first in parts {
        for second in parts {
            for third in parts {
                let path = format!("{}{}{}", first, second, third);
                assert_eq!(split(&path), split_by_the_book(&path), "path {:?}", path);
            }
        }
    }
}

struct Recorder {
    written: Mutex<String>,
}

impl Driver for Recorder {
    fn compatible(&self) -> &'static str {
        "test,recorder"
    }

    fn device_type(&self) -> DeviceType {
        DeviceType::Serial
    }
}

impl SerialDriver for Recorder {
    fn write_char(&self, c: char) {
        self.written.lock().unwrap().push(c);
    }

    fn flush(&self) {
    }

    fn clear_rx(&self) {
    }
}

#[test]
fn serial_line_writes_a_string_by_characters() {
    let line = Recorder { written: Mutex::new(String::new()) };
    line.write_str("Kernel running.");
    line.write_str("");
    line.write_str(" \u{e9}\u{4e2d}!");
    line.flush();
    line.clear_rx();
    assert_eq!(*line.written.lock().unwrap(), "Kernel running. \u{e9}\u{4e2d}!");
    assert_eq!(line.read_char(), ' ');
    assert_eq!(line.init(), Ok(()));
}
