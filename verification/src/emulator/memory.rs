//! The console memory the RAM tools can inspect.

use vstd::prelude::*;
use vstd::slice::slice_subrange;

verus! {

/// A contiguous block of console memory the RAM tools can inspect.
///
/// Addresses are the ones the core's `read_ram` and `write_ram` accept (the address space
/// Poke-A-Byte, the REST API and replay `WriteMemory` packets use), so an address shown by the
/// tools means the same thing everywhere.
#[derive(Copy, Clone, Debug, PartialEq, Eq)]
pub struct MemoryRegionInfo {
    /// Human-readable name ("EWRAM", "Main RAM", ...).
    pub name: &'static str,
    /// Short name used in `SHORT:offset` address syntax. Unique per core, no spaces or colons.
    pub short_name: &'static str,
    /// First address of the region.
    pub base_address: u32,
    /// Size of the region in bytes.
    ///
    /// The core may hand out fewer bytes than this when the backing store is smaller right now (a
    /// Game Boy Advance cartridge whose save type has not been detected yet); the bytes past its
    /// end are unmapped.
    pub len: u32,
    /// Whether games on this console conventionally store multi-byte values big-endian.
    pub default_big_endian: bool,
    /// Whether the tools may write to this region. Raw writes to some regions (I/O registers)
    /// would bypass hardware side effects, so those are read-only.
    pub writable: bool,
}

impl MemoryRegionInfo {
    /// Whether `[address, address + len)` lies entirely inside the region.
    pub open spec fn holds(self, address: u32, len: int) -> bool {
        self.base_address <= address && address + len <= self.base_address + self.len
    }

    /// One past the last address of the region.
    pub fn end_address(&self) -> (r: u64)
        ensures
            r == self.base_address + self.len,
    {
        self.base_address as u64 + self.len as u64
    }

    /// Offset of `address` into this region if `[address, address + len)` lies entirely inside it.
    pub fn offset_of(&self, address: u32, len: usize) -> (r: Option<usize>)
        ensures
            r == (if self.holds(address, len as int) {
                Some((address - self.base_address) as usize)
            } else {
                None
            }),
    {
        if address < self.base_address {
            return None;
        }
        let offset: u64 = (address - self.base_address) as u64;
        if len as u64 > self.len as u64 || offset > self.len as u64 - len as u64 {
            return None;
        }
        Some(offset as usize)
    }
}

/// The first region at or after index `from` that holds all of `[address, address + len)`, as its
/// index and the offset of `address` into it.
pub open spec fn located_from(
    regions: Seq<MemoryRegionInfo>,
    from: nat,
    address: u32,
    len: int,
) -> Option<(nat, nat)>
    decreases regions.len() - from,
{
    if from >= regions.len() {
        None
    } else if regions[from as int].holds(address, len) {
        Some((from, (address - regions[from as int].base_address) as nat))
    } else {
        located_from(regions, from + 1, address, len)
    }
}

/// The first region that holds all of `[address, address + len)`, as its index and the offset of
/// `address` into it.
pub open spec fn located(regions: Seq<MemoryRegionInfo>, address: u32, len: int) -> Option<
    (nat, nat),
> {
    located_from(regions, 0, address, len)
}

/// What is located lies in the region it was found in.
pub proof fn lemma_located(regions: Seq<MemoryRegionInfo>, from: nat, address: u32, len: int)
    ensures
        located_from(regions, from, address, len) matches Some((index, offset)) ==> index
            < regions.len() && regions[index as int].holds(address, len) && offset == address
            - regions[index as int].base_address,
    decreases regions.len() - from,
{
    if from < regions.len() && !regions[from as int].holds(address, len) {
        lemma_located(regions, from + 1, address, len);
    }
}

/// Find the region containing all of `[address, address + len)`, returning its index and the
/// offset of `address` into it.
pub fn locate_memory(regions: &[MemoryRegionInfo], address: u32, len: usize) -> (r: Option<
    (usize, usize),
>)
    ensures
        match located(regions@, address, len as int) {
            Some((index, offset)) => r matches Some((i, o)) && i == index && o == offset && index
                < regions@.len() && regions@[index as int].holds(address, len as int),
            None => r is None,
        },
{
    let mut i: usize = 0;
    while i < regions.len()
        invariant
            i <= regions@.len(),
            located(regions@, address, len as int) == located_from(
                regions@,
                i as nat,
                address,
                len as int,
            ),
        decreases regions@.len() - i,
    {
        if let Some(offset) = regions[i].offset_of(address, len) {
            return Some((i, offset));
        }
        i = i + 1;
    }
    None
}

/// A console's memory at one moment: its regions and the bytes behind each, if there are any.
#[verifier::ext_equal]
pub ghost struct MemoryImage {
    pub regions: Seq<MemoryRegionInfo>,
    pub data: Seq<Option<Seq<u8>>>,
}

impl MemoryImage {
    /// The bytes behind region `index`, if there is one and it has any.
    pub open spec fn region_data(self, index: int) -> Option<Seq<u8>> {
        if 0 <= index < self.data.len() {
            self.data[index]
        } else {
            None
        }
    }

    /// The bytes at `[address, address + len)`, if one region holds them all and has them.
    pub open spec fn mapped(self, address: u32, len: int) -> Option<Seq<u8>> {
        match located(self.regions, address, len) {
            Some((index, offset)) => match self.region_data(index as int) {
                Some(data) => if offset + len <= data.len() {
                    Some(data.subrange(offset as int, offset + len))
                } else {
                    None
                },
                None => None,
            },
            None => None,
        }
    }
}

/// Bytes read at an address are the bytes of one region, each at its address's distance from the
/// region's start, and there are as many as were asked for. No region listed earlier has the
/// whole range.
pub proof fn law_memory_is_read_at_its_address(image: MemoryImage, address: u32, len: int)
    requires
        len >= 0,
    ensures
        image.mapped(address, len) matches Some(read) ==> read.len() == len && exists|r: int|
            #![trigger image.regions[r]]
            0 <= r < image.regions.len() && r < image.data.len() && image.data[r] is Some
                && image.regions[r].base_address <= address && address + len
                <= image.regions[r].base_address + image.regions[r].len && (forall|k: int|
                0 <= k < len ==> #[trigger] read[k] == image.data[r]->0[address + k
                    - image.regions[r].base_address]) && (forall|earlier: int|
                0 <= earlier < r ==> !((#[trigger] image.regions[earlier]).base_address <= address
                    && address + len <= image.regions[earlier].base_address
                    + image.regions[earlier].len)),
{
    lemma_located(image.regions, 0, address, len);
    lemma_first_located(image.regions, 0, address, len);
    if let Some(read) = image.mapped(address, len) {
        let (r, offset) = located(image.regions, address, len)->0;
        assert(image.regions[r as int].holds(address, len));
    }
}

/// Memory that a region has can be read: where one region's bytes cover the range and no region
/// listed earlier has the range, reading succeeds.
pub proof fn law_memory_there_is_can_be_read(image: MemoryImage, r: int, address: u32, len: int)
    requires
        len >= 0,
        0 <= r < image.regions.len(),
        r < image.data.len(),
        image.data[r] is Some,
        image.regions[r].base_address <= address,
        address + len <= image.regions[r].base_address + image.regions[r].len,
        address + len <= image.regions[r].base_address + image.data[r]->0.len(),
        forall|earlier: int|
            0 <= earlier < r ==> !((#[trigger] image.regions[earlier]).base_address <= address
                && address + len <= image.regions[earlier].base_address
                + image.regions[earlier].len),
    ensures
        image.mapped(address, len) is Some,
{
    lemma_located(image.regions, 0, address, len);
    lemma_first_located(image.regions, 0, address, len);
    lemma_located_at(image.regions, 0, r as nat, address, len);
}

proof fn lemma_first_located(regions: Seq<MemoryRegionInfo>, from: nat, address: u32, len: int)
    ensures
        located_from(regions, from, address, len) matches Some((index, _)) ==> from <= index && (
        forall|e: int| from <= e < index ==> !(#[trigger] regions[e]).holds(address, len)),
    decreases regions.len() - from,
{
    if from < regions.len() && !regions[from as int].holds(address, len) {
        lemma_first_located(regions, from + 1, address, len);
    }
}

proof fn lemma_located_at(
    regions: Seq<MemoryRegionInfo>,
    from: nat,
    r: nat,
    address: u32,
    len: int,
)
    requires
        from <= r < regions.len(),
        regions[r as int].holds(address, len),
        forall|e: int| from <= e < r ==> !(#[trigger] regions[e]).holds(address, len),
    ensures
        located_from(regions, from, address, len) matches Some((index, _)) && index == r,
    decreases regions.len() - from,
{
    if from < r {
        lemma_located_at(regions, from + 1, r, address, len);
    }
}

/// A console's memory, as far as reading it goes.
pub trait ConsoleMemory {
    /// The memory as it is now.
    closed spec fn image(&self) -> MemoryImage {
        arbitrary()
    }

    /// Memory regions the RAM tools may inspect, in the order they are listed. The list does not
    /// change for the life of the core.
    fn memory_regions(&self) -> (r: &[MemoryRegionInfo])
        ensures
            r@ == self.image().regions,
    ;

    /// Direct, read-only view of region `index` (same order as `memory_regions`). Must not copy.
    /// May be shorter than the region's `len` (see [`MemoryRegionInfo::len`]).
    fn memory_region_data(&self, index: usize) -> (r: Option<&[u8]>)
        ensures
            match self.image().region_data(index as int) {
                Some(data) => r matches Some(bytes) && bytes@ == data,
                None => r is None,
            },
    ;
}

/// The bytes at `[address, address + len)` if they are mapped, read straight out of the core's
/// region data (no copy).
pub fn memory_slice<M: ConsoleMemory>(memory: &M, address: u32, len: usize) -> (r: Option<&[u8]>)
    ensures
        match memory.image().mapped(address, len as int) {
            Some(bytes) => r matches Some(read) && read@ == bytes,
            None => r is None,
        },
{
    let (index, offset): (usize, usize) = locate_memory(memory.memory_regions(), address, len)?;
    let data: &[u8] = memory.memory_region_data(index)?;
    if len > data.len() || offset > data.len() - len {
        return None;
    }
    Some(slice_subrange(data, offset, offset + len))
}

/// Why memory could not be read or written.
pub open spec fn unknown_address() -> Seq<char> {
    "unknown address or range"@
}

/// Reads `[address, address + into.len())` for cores whose address space is exactly their memory
/// regions. Nothing is read on an error.
pub fn read_ram_from_regions<M: ConsoleMemory>(memory: &M, address: u32, into: &mut Vec<u8>) -> (r:
    Result<(), &'static str>)
    ensures
        final(into)@.len() == old(into)@.len(),
        ({
            let len = old(into)@.len() as int;
            match located(memory.image().regions, address, len) {
                None => r matches Err(e) && e@ == unknown_address() && final(into)@ == old(into)@,
                Some((index, offset)) => match memory.image().region_data(index as int) {
                    None => r matches Err(e) && e@ == "region unavailable"@ && final(into)@
                        == old(into)@,
                    Some(data) => if offset + len <= data.len() {
                        r is Ok && final(into)@ == data.subrange(offset as int, offset + len)
                    } else {
                        r matches Err(e) && e@ == "invalid range (went outside of the region)"@
                            && final(into)@ == old(into)@
                    },
                },
            }
        }),
{
    let len: usize = into.len();
    let (index, offset): (usize, usize) = match locate_memory(
        memory.memory_regions(),
        address,
        len,
    ) {
        Some(found) => found,
        None => return Err("unknown address or range"),
    };
    let data: &[u8] = match memory.memory_region_data(index) {
        Some(data) => data,
        None => return Err("region unavailable"),
    };
    if len > data.len() || offset > data.len() - len {
        return Err("invalid range (went outside of the region)");
    }
    into.clear();
    into.extend_from_slice(slice_subrange(data, offset, offset + len));
    assert(into@ =~= data@.subrange(offset as int, offset + len));
    Ok(())
}

/// The first region at or after index `from` that holds `address`.
pub open spec fn region_at_from(regions: Seq<MemoryRegionInfo>, from: nat, address: u32) -> Option<
    nat,
>
    decreases regions.len() - from,
{
    if from >= regions.len() {
        None
    } else if regions[from as int].base_address <= address < regions[from as int].base_address
        + regions[from as int].len {
        Some(from)
    } else {
        region_at_from(regions, from + 1, address)
    }
}

/// How many of the bytes from `address` on are mapped, `wanted` at most: what is left of the first
/// region that holds `address`.
pub open spec fn mapped_prefix(image: MemoryImage, address: u32, wanted: int) -> Seq<u8> {
    match region_at_from(image.regions, 0, address) {
        None => Seq::empty(),
        Some(index) => {
            let region = image.regions[index as int];
            let offset = address - region.base_address;
            match image.region_data(index as int) {
                None => Seq::empty(),
                Some(data) => {
                    let end: int = if data.len() < region.len {
                        data.len() as int
                    } else {
                        region.len as int
                    };
                    let n: int = if end <= offset {
                        0
                    } else if end - offset < wanted {
                        end - offset
                    } else {
                        wanted
                    };
                    if n <= 0 {
                        Seq::empty()
                    } else {
                        data.subrange(offset, offset + n)
                    }
                },
            }
        },
    }
}

/// The mapped bytes at the start of `[address, address + wanted)`, followed by zeros up to
/// `wanted` bytes, and how many were mapped.
pub fn copy_mapped_prefix<M: ConsoleMemory>(memory: &M, address: u32, wanted: u32) -> (r: (
    Vec<u8>,
    u32,
))
    ensures
        r.1 == mapped_prefix(memory.image(), address, wanted as int).len(),
        r.0@.len() == wanted,
        r.1 <= wanted,
        r.0@.take(r.1 as int) == mapped_prefix(memory.image(), address, wanted as int),
        forall|i: int| r.1 <= i < wanted ==> r.0@[i] == 0,
{
    let mut out: Vec<u8> = Vec::new();
    let regions: &[MemoryRegionInfo] = memory.memory_regions();
    let mut i: usize = 0;
    let ghost image = memory.image();
    let ghost prefix = mapped_prefix(image, address, wanted as int);
    while i < regions.len()
        invariant_except_break
            out@.len() == 0,
            region_at_from(image.regions, 0, address) == region_at_from(
                image.regions,
                i as nat,
                address,
            ),
        invariant
            i <= regions@.len(),
            regions@ == image.regions,
            image == memory.image(),
            prefix == mapped_prefix(image, address, wanted as int),
        ensures
            out@ == prefix,
            out@.len() <= wanted,
        decreases regions@.len() - i,
    {
        let region: MemoryRegionInfo = regions[i];
        if region.base_address <= address && (address as u64) < region.end_address() {
            let offset: usize = (address - region.base_address) as usize;
            if let Some(data) = memory.memory_region_data(i) {
                let end: usize = if data.len() < region.len as usize {
                    data.len()
                } else {
                    region.len as usize
                };
                if end > offset {
                    let n: usize = if end - offset < wanted as usize {
                        end - offset
                    } else {
                        wanted as usize
                    };
                    out.extend_from_slice(slice_subrange(data, offset, offset + n));
                    assert(out@ =~= data@.subrange(offset as int, offset + n));
                }
            }
            assert(out@ =~= prefix);
            break ;
        }
        i = i + 1;
    }
    let valid: u32 = out.len() as u32;
    while out.len() < wanted as usize
        invariant
            valid <= out@.len() <= wanted,
            valid == prefix.len(),
            out@.take(valid as int) == prefix,
            forall|k: int| valid <= k < out@.len() ==> out@[k] == 0,
        decreases wanted - out@.len(),
    {
        out.push(0);
        assert(out@.take(valid as int) =~= prefix);
    }
    (out, valid)
}

/// What can be shown of a range is its beginning, as far as the region at its address goes: every
/// byte is the region's byte at that address, and fewer bytes than asked for are shown only where
/// the region or its data ends.
pub proof fn law_a_shown_range_is_its_regions(
    image: MemoryImage,
    r: int,
    address: u32,
    wanted: int,
)
    requires
        wanted >= 0,
        0 <= r < image.regions.len(),
        r < image.data.len(),
        image.data[r] is Some,
        image.regions[r].base_address <= address < image.regions[r].base_address
            + image.regions[r].len,
        forall|earlier: int|
            0 <= earlier < r ==> !((#[trigger] image.regions[earlier]).base_address <= address
                < image.regions[earlier].base_address + image.regions[earlier].len),
    ensures
        ({
            let shown = mapped_prefix(image, address, wanted);
            let offset = address - image.regions[r].base_address;
            &&& shown.len() <= wanted
            &&& forall|k: int|
                0 <= k < shown.len() ==> #[trigger] shown[k] == image.data[r]->0[offset + k]
            &&& shown.len() < wanted ==> offset + shown.len() >= image.regions[r].len || offset
                + shown.len() >= image.data[r]->0.len()
            &&& offset + shown.len() <= image.regions[r].len
        }),
{
    lemma_region_at(image.regions, 0, r as nat, address);
}

/// Nothing is shown of an address that no region has.
pub proof fn law_nothing_is_shown_outside_the_regions(
    image: MemoryImage,
    address: u32,
    wanted: int,
)
    requires
        forall|r: int|
            0 <= r < image.regions.len() ==> !((#[trigger] image.regions[r]).base_address <= address
                < image.regions[r].base_address + image.regions[r].len),
    ensures
        mapped_prefix(image, address, wanted).len() == 0,
{
    lemma_region_nowhere(image.regions, 0, address);
}

/// No more is shown than was asked for.
pub proof fn law_no_more_is_shown_than_asked_for(image: MemoryImage, address: u32, wanted: int)
    requires
        wanted >= 0,
    ensures
        mapped_prefix(image, address, wanted).len() <= wanted,
{
    lemma_region_found(image.regions, 0, address);
}

proof fn lemma_region_found(regions: Seq<MemoryRegionInfo>, from: nat, address: u32)
    ensures
        region_at_from(regions, from, address) matches Some(r) ==> from <= r < regions.len()
            && regions[r as int].base_address <= address,
    decreases regions.len() - from,
{
    if from < regions.len() {
        lemma_region_found(regions, from + 1, address);
    }
}

proof fn lemma_region_at(regions: Seq<MemoryRegionInfo>, from: nat, r: nat, address: u32)
    requires
        from <= r < regions.len(),
        regions[r as int].base_address <= address < regions[r as int].base_address
            + regions[r as int].len,
        forall|e: int|
            from <= e < r ==> !((#[trigger] regions[e]).base_address <= address
                < regions[e].base_address + regions[e].len),
    ensures
        region_at_from(regions, from, address) == Some(r),
    decreases regions.len() - from,
{
    if from < r {
        lemma_region_at(regions, from + 1, r, address);
    }
}

proof fn lemma_region_nowhere(regions: Seq<MemoryRegionInfo>, from: nat, address: u32)
    requires
        forall|r: int|
            0 <= r < regions.len() ==> !((#[trigger] regions[r]).base_address <= address
                < regions[r].base_address + regions[r].len),
    ensures
        region_at_from(regions, from, address) is None,
    decreases regions.len() - from,
{
    if from < regions.len() {
        lemma_region_nowhere(regions, from + 1, address);
    }
}

} // verus!
