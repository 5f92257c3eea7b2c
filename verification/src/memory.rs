//! Addresses: the kernel's window onto physical memory, the two halves of
//! the address space, page frames, and linear mappings.

use crate::num::{add_signed, signed64, wrap64};
use core::ops::Range;
use vstd::prelude::*;

verus! {

/// A physical address.
pub type PhysAddr = u64;

/// A virtual address.
pub type VirtAddr = u64;

/// Where physical memory begins.
pub const MEMORY_OFFSET: u64 = 0x4000_0000;

/// The bits that mark an address of the upper, kernel half.
pub const KERNEL_OFFSET: u64 = 0xffff_0000_0000_0000;

/// Where the kernel's window onto physical memory begins.
pub const PHYSICAL_MEMORY_OFFSET: u64 = 0xffff_8000_0000_0000;

/// The size of the kernel heap, in bytes.
pub const KERNEL_HEAP_SIZE: u64 = 0x400_0000;

/// The size of a page, in bytes.
pub const PAGE_SIZE: u64 = 0x1000;

/// Why an access to user memory failed.
#[derive(Clone, Copy, Debug, PartialEq, Eq, Structural)]
pub enum VmError {
    /// The pointer does not point into mapped memory.
    InvalidPtr,
}

/// The outcome of an access to user memory.
pub type VmResult<T> = Result<T, VmError>;

/// The virtual address under which the kernel sees a physical address.
pub fn phys_to_virt(addr: PhysAddr) -> (virt: VirtAddr)
    requires
        addr + PHYSICAL_MEMORY_OFFSET <= u64::MAX,
    ensures
        virt == addr + PHYSICAL_MEMORY_OFFSET,
{
    addr + PHYSICAL_MEMORY_OFFSET
}

/// The physical address that the kernel sees under a virtual address of its
/// window.
pub fn virt_to_phys(addr: VirtAddr) -> (phys: PhysAddr)
    requires
        addr >= PHYSICAL_MEMORY_OFFSET,
    ensures
        phys == addr - PHYSICAL_MEMORY_OFFSET,
{
    addr - PHYSICAL_MEMORY_OFFSET
}

/// The address with the bits of the kernel half cleared: its lower 48 bits.
pub fn as_lower_range(addr: VirtAddr) -> (lower: VirtAddr)
    ensures
        lower == addr & !KERNEL_OFFSET,
        lower == addr % 0x1_0000_0000_0000,
{
    assert(addr & !0xffff_0000_0000_0000u64 == addr % 0x1_0000_0000_0000) by (bit_vector);
    addr & !KERNEL_OFFSET
}

/// The address with the bits of the kernel half set: its lower 48 bits,
/// in the upper half.
pub fn as_upper_range(addr: VirtAddr) -> (upper: VirtAddr)
    ensures
        upper == addr | KERNEL_OFFSET,
        upper == addr % 0x1_0000_0000_0000 + KERNEL_OFFSET,
{
    assert(addr | 0xffff_0000_0000_0000u64 == addr % 0x1_0000_0000_0000 + 0xffff_0000_0000_0000u64)
        by (bit_vector);
    addr | KERNEL_OFFSET
}

/// The window onto physical memory is read back as it was written: mapping
/// and unmapping an address gives the address.
pub proof fn lemma_window_round_trip(addr: PhysAddr)
    requires
        addr + PHYSICAL_MEMORY_OFFSET <= u64::MAX,
    ensures
        (addr + PHYSICAL_MEMORY_OFFSET) as u64 >= PHYSICAL_MEMORY_OFFSET,
        (addr + PHYSICAL_MEMORY_OFFSET) - PHYSICAL_MEMORY_OFFSET == addr,
{
}

/// Handles a page fault of the kernel at `addr`. Returns whether the kernel
/// can go on; it cannot: the kernel does not recover from its own faults.
pub fn handle_page_fault(addr: u64) -> (handled: bool)
    ensures
        !handled,
{
    false
}

/// The allocator of page frames, as far as it computes: how the number of a
/// frame and its address go together.
#[derive(Clone, Copy, Debug)]
pub struct GlobalFrameAlloc;

impl GlobalFrameAlloc {
    /// The address of the frame with the given number.
    pub fn frame_addr(&self, id: u64) -> (frame: PhysAddr)
        requires
            id * PAGE_SIZE + MEMORY_OFFSET <= u64::MAX,
        ensures
            frame == id * PAGE_SIZE + MEMORY_OFFSET,
    {
        id * PAGE_SIZE + MEMORY_OFFSET
    }

    /// The number under which the frame at `target` is given back.
    pub fn frame_index(&self, target: PhysAddr) -> (id: u64)
        ensures
            id == target / PAGE_SIZE,
    {
        target / PAGE_SIZE
    }
}

/// A mapping that puts every virtual address at a fixed distance from its
/// physical address.
#[derive(Clone, Copy, Debug, PartialEq, Eq, Structural)]
pub struct Linear {
    offset: i64,
}

impl View for Linear {
    type V = int;

    closed spec fn view(&self) -> int {
        self.offset as int
    }
}

impl Linear {
    /// The mapping with the given distance from virtual to physical
    /// addresses.
    pub fn new(offset: i64) -> (linear: Linear)
        ensures
            linear@ == offset,
    {
        Linear { offset }
    }

    /// The distance from virtual to physical addresses.
    pub fn offset(&self) -> (offset: i64)
        ensures
            offset == self@,
    {
        self.offset
    }

    /// The physical address to which the mapping sends `addr`: the address,
    /// read as a signed number, plus the distance.
    pub fn target(&self, addr: VirtAddr) -> (target: PhysAddr)
        requires
            -0x8000_0000_0000_0000 <= signed64(addr as int) + self@ < 0x8000_0000_0000_0000,
        ensures
            target == wrap64(signed64(addr as int) + self@),
            signed64(addr as int) + self@ >= 0 ==> target == signed64(addr as int) + self@,
    {
        add_signed(addr, self.offset)
    }
}

/// What the kernel is told of physical memory when it starts.
#[derive(Debug)]
pub struct MemInitOpts {
    phys_mem_range: Range<u64>,
}

impl MemInitOpts {
    /// The range of addresses of physical memory.
    pub closed spec fn spec_range(self) -> Range<u64> {
        self.phys_mem_range
    }

    /// Physical memory in the given range of addresses.
    pub fn new(phys_mem_range: Range<u64>) -> (opts: MemInitOpts)
        ensures
            opts.spec_range() == phys_mem_range,
    {
        MemInitOpts { phys_mem_range }
    }

    /// The page frames that the frame allocator is given: from the first
    /// frame after the kernel, which ends at the address `kernel_end` of the
    /// lower half, up to the last frame of physical memory, both counted
    /// from the start of physical memory.
    pub fn frame_range(&self, kernel_end: u64) -> (frames: Range<u64>)
        requires
            self.spec_range().start <= kernel_end,
            self.spec_range().start < self.spec_range().end,
        ensures
            frames.start == (kernel_end - self.spec_range().start) / PAGE_SIZE as int,
            frames.end == (self.spec_range().end - self.spec_range().start - 1) / PAGE_SIZE as int
                + 1,
    {
        let page_start: u64 = (kernel_end - self.phys_mem_range.start) / PAGE_SIZE;
        let page_end: u64 = (self.phys_mem_range.end - self.phys_mem_range.start - 1) / PAGE_SIZE
            + 1;
        page_start..page_end
    }
}

/// The window of the upper half through which a device at the physical
/// address `paddr`, `len` bytes long, is reached: where it begins, and where
/// it ends.
pub fn ioremap(paddr: PhysAddr, len: u64) -> (window: Range<VirtAddr>)
    requires
        wrap64(paddr + KERNEL_OFFSET) + len <= u64::MAX,
    ensures
        window.start == wrap64(paddr + KERNEL_OFFSET),
        window.end == window.start + len,
{
    let vaddr: u64 = paddr.wrapping_add(KERNEL_OFFSET);
    assert(vaddr == wrap64(paddr + KERNEL_OFFSET)) by {
        if paddr + KERNEL_OFFSET <= u64::MAX {
            assert((paddr + KERNEL_OFFSET) % 0x1_0000_0000_0000_0000 == paddr + KERNEL_OFFSET);
        } else {
            assert((paddr + KERNEL_OFFSET) % 0x1_0000_0000_0000_0000 == paddr + KERNEL_OFFSET
                - 0x1_0000_0000_0000_0000);
        }
    }
    vaddr..(vaddr + len)
}

/// A page of virtual memory, by its number.
#[derive(Clone, Copy, Debug, PartialEq, Eq, Structural)]
pub struct Page {
    number: u64,
}

impl View for Page {
    type V = nat;

    closed spec fn view(&self) -> nat {
        self.number as nat
    }
}

impl Page {
    /// The page of the given number.
    pub closed spec fn of_number(number: u64) -> Page {
        Page { number }
    }

    /// The page has the number that it was made of.
    pub proof fn lemma_of_number(number: u64)
        ensures
            Self::of_number(number)@ == number,
    {
    }

    /// The address at which the page begins.
    pub fn start_address(&self) -> (addr: VirtAddr)
        requires
            self@ * PAGE_SIZE <= u64::MAX,
        ensures
            addr == self@ * PAGE_SIZE,
    {
        self.number * PAGE_SIZE
    }

    /// The page that holds the given address.
    pub fn of_addr(addr: VirtAddr) -> (page: Page)
        ensures
            page == Self::of_number((addr / PAGE_SIZE) as u64),
            page@ == addr / PAGE_SIZE,
    {
        Page { number: addr / PAGE_SIZE }
    }

    /// The page `rhs` pages after this one.
    pub fn plus(self, rhs: u64) -> (page: Page)
        requires
            self@ + rhs <= u64::MAX,
        ensures
            page == Self::of_number((self@ + rhs) as u64),
            page@ == self@ + rhs,
    {
        Page { number: self.number + rhs }
    }

    /// The pages that hold the addresses from `begin` up to, and without,
    /// `end`.
    pub fn range_of(begin: VirtAddr, end: VirtAddr) -> (range: PageRange)
        requires
            end >= 1,
        ensures
            range@ == PageRange::pages_from(
                (begin / PAGE_SIZE) as int,
                (end - 1) / (PAGE_SIZE as int),
            ),
            range.wf(),
    {
        PageRange { start: Page::of_addr(begin), end: Page::of_addr(end - 1) }
    }
}

/// A range of pages, from a first to a last.
#[derive(Clone, Copy, Debug, PartialEq, Eq, Structural)]
pub struct PageRange {
    start: Page,
    end: Page,
}

impl View for PageRange {
    type V = Seq<nat>;

    /// The numbers of the pages that are left, in order.
    closed spec fn view(&self) -> Seq<nat> {
        Self::pages_from(self.start.number as int, self.end.number as int)
    }
}

impl PageRange {
    /// The numbers from `first` up to `last`, in order: none where `first`
    /// is after `last`.
    pub open spec fn pages_from(first: int, last: int) -> Seq<nat> {
        if first <= last && 0 <= first {
            Seq::new((last - first + 1) as nat, |i: int| (first + i) as nat)
        } else {
            Seq::empty()
        }
    }

    /// The last page has a page after it.
    pub closed spec fn wf(&self) -> bool {
        self.end.number < u64::MAX
    }

    /// Takes the first page off the range and returns it, or returns `None`
    /// where no page is left.
    pub fn next(&mut self) -> (page: Option<Page>)
        requires
            old(self).wf(),
        ensures
            final(self).wf(),
            old(self)@.len() == 0 ==> page is None && final(self)@ == old(self)@,
            old(self)@.len() > 0 ==> (page matches Some(first) && first@ == old(self)@[0]
                && final(self)@ == old(self)@.drop_first()),
    {
        if self.start.number <= self.end.number {
            let page: Page = self.start;
            self.start = self.start.plus(1);
            proof {
                let first = old(self).start.number as int;
                let last = old(self).end.number as int;
                assert(Self::pages_from(first + 1, last) =~= Self::pages_from(
                    first,
                    last,
                ).drop_first());
            }
            Some(page)
        } else {
            None
        }
    }
}

} // verus!
