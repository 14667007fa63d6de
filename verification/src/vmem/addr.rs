//! Virtual addresses and pages.

use core::marker::PhantomData;

use vstd::arithmetic::div_mod::lemma_mod_add_multiples_vanish;
use vstd::arithmetic::power2::{lemma2_to64, lemma2_to64_rest, pow2};
use vstd::bits::{lemma_u64_low_bits_mask_is_mod, low_bits_mask};
use vstd::prelude::*;

use crate::vmem::segment::Segment;

verus! {

/// `align` is `2` to some power.
pub open spec fn is_power_of_two(align: u64) -> bool {
    exists|k: nat| k < 64 && align == #[trigger] pow2(k)
}

/// Clearing the bits below a power of two rounds down to a multiple of it.
pub proof fn lemma_mask_rounds_down(value: u64, align: u64)
    requires
        is_power_of_two(align),
    ensures
        align > 0,
        value & !((align - 1) as u64) == value - value % align,
        value & ((align - 1) as u64) == value % align,
{
    let k = choose|k: nat| k < 64 && align == #[trigger] pow2(k);
    lemma2_to64();
    lemma2_to64_rest();
    lemma_u64_low_bits_mask_is_mod(value, k);
    let mask = low_bits_mask(k) as u64;
    assert(mask == align - 1);
    assert(value & !mask == value - (value & mask)) by (bit_vector);
}

/// A virtual address.
#[derive(Debug, Clone, Copy, PartialEq, Eq, PartialOrd, Ord, Hash, Structural)]
pub struct VirtAddr(pub u64);

impl VirtAddr {
    pub fn new(addr: u64) -> (result: Self)
        ensures
            result.0 == addr,
    {
        VirtAddr(addr)
    }

    /// Every number is an address; canonical form depends on the translation
    /// set-up and is not checked.
    pub fn try_new(addr: u64) -> (result: Result<Self, ()>)
        ensures
            result == Ok::<VirtAddr, ()>(VirtAddr(addr)),
    {
        Ok(Self::new(addr))
    }

    pub fn as_u64(self) -> (addr: u64)
        ensures
            addr == self.0,
    {
        self.0
    }

    pub fn is_aligned(self, align: u64) -> (aligned: bool)
        requires
            align > 0,
        ensures
            aligned == (self.0 % align == 0),
    {
        self.0 % align == 0
    }

    /// Clear the bits of `align - 1`. For a power of two this is the multiple of
    /// it at or below the address.
    pub fn align_down(self, align: u64) -> (result: Self)
        requires
            align > 0,
        ensures
            result.0 == self.0 & !((align - 1) as u64),
            is_power_of_two(align) ==> result.0 == self.0 - self.0 % align,
    {
        proof {
            if is_power_of_two(align) {
                lemma_mask_rounds_down(self.0, align);
            }
        }
        VirtAddr(self.0 & !(align - 1))
    }

    /// Round up. For a power of two this is the multiple of it at or above the
    /// address.
    pub fn align_up(self, align: u64) -> (result: Self)
        requires
            align > 0,
            self.0 + align - 1 <= u64::MAX,
        ensures
            result.0 == ((self.0 + align - 1) as u64) & !((align - 1) as u64),
            is_power_of_two(align) ==> {
                &&& result.0 % align == 0
                &&& self.0 <= result.0 < self.0 + align
            },
    {
        proof {
            if is_power_of_two(align) {
                let raised = (self.0 + align - 1) as u64;
                lemma_mask_rounds_down(raised, align);
                let down = raised - raised % align;
                assert(0 <= raised as int % align as int <= align - 1) by (nonlinear_arith)
                    requires
                        align > 0,
                ;
                assert(down as int % align as int == 0) by (nonlinear_arith)
                    requires
                        down == raised as int - raised as int % align as int,
                        align > 0,
                        0 <= raised,
                ;
            }
        }
        VirtAddr((self.0 + (align - 1)) & !(align - 1))
    }

    /// The address as a machine word, on machines whose word holds it.
    pub fn as_usize(self) -> (addr: usize)
        requires
            self.0 <= usize::MAX,
        ensures
            addr == self.0,
    {
        self.0 as usize
    }
}

impl vstd::std_specs::ops::AddSpecImpl<u64> for VirtAddr {
    open spec fn obeys_add_spec() -> bool {
        true
    }

    open spec fn add_req(self, rhs: u64) -> bool {
        self.0 + rhs <= u64::MAX
    }

    open spec fn add_spec(self, rhs: u64) -> VirtAddr {
        VirtAddr((self.0 + rhs) as u64)
    }
}

impl core::ops::Add<u64> for VirtAddr {
    type Output = VirtAddr;

    fn add(self, rhs: u64) -> VirtAddr {
        VirtAddr(self.0 + rhs)
    }
}

impl vstd::std_specs::ops::SubSpecImpl<u64> for VirtAddr {
    open spec fn obeys_sub_spec() -> bool {
        true
    }

    open spec fn sub_req(self, rhs: u64) -> bool {
        rhs <= self.0
    }

    open spec fn sub_spec(self, rhs: u64) -> VirtAddr {
        VirtAddr((self.0 - rhs) as u64)
    }
}

impl core::ops::Sub<u64> for VirtAddr {
    type Output = VirtAddr;

    fn sub(self, rhs: u64) -> VirtAddr {
        VirtAddr(self.0 - rhs)
    }
}

impl vstd::std_specs::ops::SubSpecImpl<VirtAddr> for VirtAddr {
    open spec fn obeys_sub_spec() -> bool {
        true
    }

    open spec fn sub_req(self, rhs: VirtAddr) -> bool {
        rhs.0 <= self.0
    }

    open spec fn sub_spec(self, rhs: VirtAddr) -> u64 {
        (self.0 - rhs.0) as u64
    }
}

impl core::ops::Sub<VirtAddr> for VirtAddr {
    type Output = u64;

    fn sub(self, rhs: VirtAddr) -> u64 {
        self.0 - rhs.0
    }
}

/// A page size: a power of two.
pub trait PageSize {
    spec fn page_bytes() -> u64;

    /// The size in bytes.
    fn bytes() -> (size: u64)
        ensures
            size == Self::page_bytes(),
            is_power_of_two(size),
    ;
}

#[derive(Debug, Clone, Copy, PartialEq, Eq, PartialOrd, Ord)]
pub struct Size4KiB;

#[derive(Debug, Clone, Copy, PartialEq, Eq, PartialOrd, Ord)]
pub struct Size2MiB;

#[derive(Debug, Clone, Copy, PartialEq, Eq, PartialOrd, Ord)]
pub struct Size1GiB;

impl PageSize for Size4KiB {
    open spec fn page_bytes() -> u64 {
        0x1000
    }

    fn bytes() -> (size: u64) {
        proof {
            lemma2_to64();
            assert(pow2(12) == 0x1000);
        }
        0x1000
    }
}

impl PageSize for Size2MiB {
    open spec fn page_bytes() -> u64 {
        0x20_0000
    }

    fn bytes() -> (size: u64) {
        proof {
            lemma2_to64();
            assert(pow2(21) == 0x20_0000);
        }
        0x20_0000
    }
}

impl PageSize for Size1GiB {
    open spec fn page_bytes() -> u64 {
        0x4000_0000
    }

    fn bytes() -> (size: u64) {
        proof {
            lemma2_to64();
            assert(pow2(30) == 0x4000_0000);
        }
        0x4000_0000
    }
}

/// A page, known by its first address.
#[derive(Debug, PartialEq, Eq, PartialOrd, Ord)]
pub struct Page<S: PageSize> {
    pub start_address: VirtAddr,
    pub size: PhantomData<S>,
}

impl<S: PageSize> Clone for Page<S> {
    fn clone(&self) -> (page: Self)
        ensures
            page == *self,
    {
        Page { start_address: self.start_address, size: PhantomData }
    }
}

impl<S: PageSize> Copy for Page<S> {

}

impl<S: PageSize> Page<S> {
    /// The page that holds `address`.
    pub fn containing_address(address: VirtAddr) -> (page: Self)
        ensures
            page.start_address.0 == address.0 - address.0 % S::page_bytes(),
    {
        let size: u64 = S::bytes();
        proof {
            lemma_mask_rounds_down(0, size);
        }
        Page { start_address: address.align_down(size), size: PhantomData }
    }

    /// The page that starts at `address`, if one does.
    pub fn from_start_address(address: VirtAddr) -> (result: Result<Self, ()>)
        ensures
            address.0 % S::page_bytes() == 0 ==> result is Ok && result->Ok_0.start_address
                == address,
            address.0 % S::page_bytes() != 0 ==> result is Err,
    {
        let size: u64 = S::bytes();
        proof {
            lemma_mask_rounds_down(address.0, size);
        }
        if address.0 & (size - 1) != 0 {
            return Err(());
        }
        Ok(Page { start_address: address, size: PhantomData })
    }

    pub fn start_address(self) -> (address: VirtAddr)
        ensures
            address == self.start_address,
    {
        self.start_address
    }

    pub fn size(self) -> (size: u64)
        ensures
            size == S::page_bytes(),
    {
        S::bytes()
    }
}

/// The pages from `start` to `end`, both included.
#[derive(Debug, PartialEq, Eq)]
pub struct PageRangeInclusive<S: PageSize> {
    pub start: Page<S>,
    pub end: Page<S>,
}

impl<S: PageSize> Clone for PageRangeInclusive<S> {
    fn clone(&self) -> (pages: Self)
        ensures
            pages == *self,
    {
        PageRangeInclusive { start: self.start, end: self.end }
    }
}

impl<S: PageSize> Copy for PageRangeInclusive<S> {

}

impl<S: PageSize> PageRangeInclusive<S> {
    /// The pages from that of the segment's start to that of the address before
    /// its end: for a segment that is not empty, the pages that it touches. An
    /// empty segment at address 0 has no such range.
    pub fn from(segment: &Segment) -> (pages: Self)
        requires
            1 <= segment.end() <= u64::MAX + 1,
        ensures
            pages.start.start_address.0 == segment.start.0 - segment.start.0 % S::page_bytes(),
            ({
                let last = segment.end() - 1;
                pages.end.start_address.0 == last - last % (S::page_bytes() as int)
            }),
    {
        let last: u64 = if segment.len == 0 {
            segment.start.0 - 1
        } else {
            segment.start.0 + (segment.len - 1)
        };
        PageRangeInclusive {
            start: Page::containing_address(segment.start),
            end: Page::containing_address(VirtAddr::new(last)),
        }
    }

    /// The next page, until all are handed out. The one after it starts at a
    /// multiple of the page size.
    pub fn next(&mut self) -> (page: Option<Page<S>>)
        requires
            old(self).start.start_address.0 <= old(self).end.start_address.0 ==> old(
                self,
            ).start.start_address.0 + S::page_bytes() <= u64::MAX,
        ensures
            final(self).end == old(self).end,
            old(self).start.start_address.0 > old(self).end.start_address.0 ==> {
                &&& page is None
                &&& final(self).start == old(self).start
            },
            old(self).start.start_address.0 <= old(self).end.start_address.0 ==> {
                let start = old(self).start.start_address.0 as int;
                let size = S::page_bytes() as int;
                &&& page == Some(old(self).start)
                &&& final(self).start.start_address.0 == start + size - start % size
            },
    {
        if self.start.start_address.0 > self.end.start_address.0 {
            return None;
        }
        let page = self.start;
        let size: u64 = S::bytes();
        proof {
            lemma_mask_rounds_down(0, size);
            let here = self.start.start_address.0 as int;
            lemma_mod_add_multiples_vanish(here, size as int);
        }
        self.start = Page::containing_address(VirtAddr::new(self.start.start_address.0 + size));
        Some(page)
    }
}

/// Law: the three page sizes are 4 KiB, 512 times that, and 512 times that again.
pub proof fn law_page_sizes()
    ensures
        Size4KiB::page_bytes() == 4096,
        Size2MiB::page_bytes() == 512 * Size4KiB::page_bytes(),
        Size1GiB::page_bytes() == 512 * Size2MiB::page_bytes(),
{
}

/// Law: what is added to an address is the distance to it, and taking it away leads back.
pub proof fn law_addresses_and_distances(addr: VirtAddr, distance: u64)
    requires
        addr.0 + distance <= u64::MAX,
    ensures
        ({
            let far = vstd::std_specs::ops::AddSpec::add_spec(addr, distance);
            &&& vstd::std_specs::ops::AddSpec::add_req(addr, distance)
            &&& far.0 == addr.0 + distance
            &&& vstd::std_specs::ops::SubSpec::<VirtAddr>::sub_spec(far, addr) == distance
            &&& vstd::std_specs::ops::SubSpec::<u64>::sub_spec(far, distance) == addr
        }),
{
}

/// Law: the page of an address starts at a multiple of the page size and holds the address;
/// a page starts exactly at the addresses whose own page does.
pub proof fn law_page_holds_its_address<S: PageSize>(
    address: VirtAddr,
    page: Page<S>,
    exact: Result<Page<S>, ()>,
)
    requires
        S::page_bytes() > 0,
        call_ensures(Page::<S>::containing_address, (address,), page),
        call_ensures(Page::<S>::from_start_address, (address,), exact),
    ensures
        page.start_address.0 as int % S::page_bytes() as int == 0,
        page.start_address.0 <= address.0 < page.start_address.0 + S::page_bytes(),
        exact is Ok <==> page.start_address == address,
        exact is Ok ==> exact->Ok_0.start_address == address,
{
    let size = S::page_bytes() as int;
    let at = address.0 as int;
    vstd::arithmetic::div_mod::lemma_fundamental_div_mod(at, size);
    vstd::arithmetic::div_mod::lemma_mod_bound(at, size);
    assert((size * (at / size)) % size == 0) by (nonlinear_arith)
        requires
            size > 0,
    ;
}

/// Law: rounding to a power of two gives its nearest multiples below and above.
pub proof fn law_rounding(addr: VirtAddr, align: u64, down: VirtAddr, up: VirtAddr, aligned: bool)
    requires
        is_power_of_two(align),
        align > 0,
        addr.0 + align - 1 <= u64::MAX,
        call_ensures(VirtAddr::align_down, (addr, align), down),
        call_ensures(VirtAddr::align_up, (addr, align), up),
        call_ensures(VirtAddr::is_aligned, (addr, align), aligned),
    ensures
        down.0 <= addr.0 < down.0 + align,
        addr.0 <= up.0 < addr.0 + align,
        down.0 as int % align as int == 0,
        up.0 as int % align as int == 0,
        aligned <==> down == addr,
{
    let size = align as int;
    let at = addr.0 as int;
    vstd::arithmetic::div_mod::lemma_fundamental_div_mod(at, size);
    vstd::arithmetic::div_mod::lemma_mod_bound(at, size);
    assert((size * (at / size)) % size == 0) by (nonlinear_arith)
        requires
            size > 0,
    ;
}

/// Law: the pages of a segment run from the page of its first address to the page of its last
/// one.
pub proof fn law_pages_of_a_segment<S: PageSize>(segment: Segment, pages: PageRangeInclusive<S>)
    requires
        S::page_bytes() > 0,
        segment.len > 0,
        segment.start.0 + segment.len <= 0x1_0000_0000_0000_0000,
        call_ensures(PageRangeInclusive::<S>::from, (&segment,), pages),
    ensures
        ({
            let size = S::page_bytes() as int;
            let first = pages.start.start_address.0;
            let last = pages.end.start_address.0;
            &&& first <= segment.start.0 < first + size
            &&& last < segment.start.0 + segment.len <= last + size
            &&& first as int % size == 0
            &&& last as int % size == 0
        }),
{
    let size = S::page_bytes() as int;
    let at = segment.start.0 as int;
    let end = at + segment.len - 1;
    vstd::arithmetic::div_mod::lemma_fundamental_div_mod(at, size);
    vstd::arithmetic::div_mod::lemma_mod_bound(at, size);
    vstd::arithmetic::div_mod::lemma_fundamental_div_mod(end, size);
    vstd::arithmetic::div_mod::lemma_mod_bound(end, size);
    assert((size * (at / size)) % size == 0 && (size * (end / size)) % size == 0)
        by (nonlinear_arith)
        requires
            size > 0,
    ;
}

} // verus!
