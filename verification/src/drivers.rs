//! What the kernel asks of a device driver.

use vstd::prelude::*;
use vstd::string::StrSliceExecFns;

verus! {

/// A driver failed.
#[derive(Clone, Copy, Debug, PartialEq, Eq, Structural)]
pub struct DriverError {}

/// The kind of a device.
#[derive(Clone, Copy, Debug, PartialEq, Eq, Structural)]
pub enum DeviceType {
    /// A network interface.
    Net,
    /// A graphics processor.
    Gpu,
    /// An input device.
    Input,
    /// A block device.
    Block,
    /// A real-time clock.
    Rtc,
    /// A serial line.
    Serial,
    /// An interrupt controller.
    Intc,
    /// A timer.
    Timer,
}

impl DeviceType {
    /// The name of the kind.
    pub open spec fn spec_description(self) -> Seq<char> {
        match self {
            DeviceType::Net => "Net"@,
            DeviceType::Gpu => "GPU"@,
            DeviceType::Input => "Input"@,
            DeviceType::Block => "Block"@,
            DeviceType::Rtc => "RTC"@,
            DeviceType::Serial => "Serial"@,
            DeviceType::Intc => "Interrupt Controller"@,
            DeviceType::Timer => "Timer"@,
        }
    }

    /// The name of the kind.
    pub fn description(&self) -> (description: &'static str)
        ensures
            description@ == self.spec_description(),
    {
        match self {
            DeviceType::Net => "Net",
            DeviceType::Gpu => "GPU",
            DeviceType::Input => "Input",
            DeviceType::Block => "Block",
            DeviceType::Rtc => "RTC",
            DeviceType::Serial => "Serial",
            DeviceType::Intc => "Interrupt Controller",
            DeviceType::Timer => "Timer",
        }
    }
}

/// A device driver.
pub trait Driver: Send + Sync {
    /// The string by which the device tree names the devices of the driver.
    fn compatible(&self) -> &'static str;

    /// Brings the device up. A driver that says nothing else has nothing
    /// to do.
    fn init(&self) -> (brought_up: Result<(), DriverError>)
        default_ensures
            brought_up == Ok::<(), DriverError>(()),
    {
        Ok(())
    }

    /// Handles an interrupt of the device.
    fn handle_interrupt(&self) {
    }

    /// The kind of the device.
    fn device_type(&self) -> DeviceType;
}

/// The driver of a real-time clock.
pub trait RtcDriver: Driver {
    /// The seconds since the beginning of 1970.
    fn read_epoch(&self) -> u64;
}

/// The driver of a serial line.
pub trait SerialDriver: Driver {
    /// Writes a character.
    fn write_char(&self, c: char);

    /// Writes a string, character by character.
    fn write_str(&self, str: &str) {
        let len: usize = str.unicode_len();
        let mut i: usize = 0;
        while i < len
            invariant
                i <= len,
                len == str@.len(),
            decreases len - i,
        {
            self.write_char(str.get_char(i));
            i = i + 1;
        }
    }

    /// Waits until the last character has left.
    fn flush(&self);

    /// Reads a character. A line that cannot be read gives a space.
    fn read_char(&self) -> (c: char)
        default_ensures
            c == ' ',
    {
        ' '
    }

    /// Drops what was received and not read.
    fn clear_rx(&self);
}

/// What manages the interrupts of the machine.
pub trait IrqManager: Driver {
    /// Registers the driver for a local interrupt, and enables the
    /// interrupt.
    fn register_and_enable_local_irq(
        &self,
        irq_num: usize,
        driver: std::sync::Arc<dyn Driver>,
    ) -> Result<(), DriverError>;

    /// Hands the pending interrupts to their drivers.
    fn handle_pending_irqs(&self);
}

/// The seconds since the beginning of 1970 by the clock `rtc`, or 0 where
/// there is no clock.
pub fn read_epoch<R: RtcDriver>(rtc: Option<&R>) -> (seconds: u64)
    ensures
        match rtc {
            Some(clock) => call_ensures(R::read_epoch, (clock,), seconds),
            None => seconds == 0,
        },
{
    match rtc {
        Some(rtc) => rtc.read_epoch(),
        None => 0,
    }
}

/// A memory-mapped serial port that is written a byte at a time.
#[derive(Clone, Copy, Debug, PartialEq, Eq, Structural)]
pub struct MiniUART {
    addr: usize,
}

impl View for MiniUART {
    type V = usize;

    closed spec fn view(&self) -> usize {
        self.addr
    }
}

impl MiniUART {
    /// The port at the given address.
    pub fn new(addr: usize) -> (uart: MiniUART)
        ensures
            uart@ == addr,
    {
        MiniUART { addr }
    }

    /// The address of the port.
    pub fn addr(&self) -> (addr: usize)
        ensures
            addr == self@,
    {
        self.addr
    }
}

impl Default for MiniUART {
    fn default() -> (uart: MiniUART)
        ensures
            uart@ == 0x0900_0000,
    {
        MiniUART::new(0x0900_0000)
    }
}

} // verus!
