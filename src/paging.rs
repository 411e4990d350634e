//! A four-level page table reached through the offset at which the boot
//! loader maps all physical memory. Tables are read and written only through
//! `phys_to_virt`; memory that no table was ever written to reads as zeros,
//! that is, as entries that are not present.
use vstd::prelude::*;
use std::collections::HashMap;
use crate::frame_alloc::BootInfoFrameAllocator;

verus! {

broadcast use vstd::std_specs::hash::group_hash_axioms;

/// Entries in one table.
pub const ENTRY_COUNT: usize = 512;

/// One slot of a page table.
#[derive(Clone, Copy, Debug, PartialEq, Eq, Structural)]
pub struct PageTableEntry {
    pub present: bool,
    pub writable: bool,
    pub huge: bool,
    pub addr: u64,
}

/// Flags of a new leaf mapping.
#[derive(Clone, Copy, Debug, PartialEq, Eq, Structural)]
pub struct PageTableFlags {
    pub writable: bool,
}

/// Why a mapping could not be made.
#[derive(Clone, Copy, Debug, PartialEq, Eq, Structural)]
pub enum MapToError {
    /// No frame was left for a new intermediate table.
    FrameAllocationFailed,
    /// An entry on the way down maps a huge page, which is not supported.
    ParentEntryHugePage,
    /// The page already has a leaf entry.
    PageAlreadyMapped,
}

pub open spec fn zero_entry() -> PageTableEntry {
    PageTableEntry { present: false, writable: false, huge: false, addr: 0 }
}

/// Bytes of virtual address space covered by one entry of a table at
/// `level` (1 is the leaf level, 4 the top).
pub open spec fn level_span(level: int) -> int {
    if level == 1 {
        4096
    } else if level == 2 {
        0x20_0000
    } else if level == 3 {
        0x4000_0000
    } else {
        0x80_0000_0000
    }
}

/// The index into the table at `level` that the address selects.
pub open spec fn table_index(va: u64, level: int) -> int {
    (va as int / level_span(level)) % 512
}

pub fn index_of(va: u64, level: u64) -> (i: usize)
    requires
        1 <= level <= 4,
    ensures
        i == table_index(va, level as int),
        i < 512,
{
    let span: u64 = if level == 1 {
        4096
    } else if level == 2 {
        0x20_0000
    } else if level == 3 {
        0x4000_0000
    } else {
        0x80_0000_0000
    };
    ((va / span) % 512) as usize
}

/// Start of the page that holds `va`.
pub fn containing_page(va: u64) -> (p: u64)
    ensures
        p == va - va % 4096,
        p % 4096 == 0,
        p <= va < p + 4096,
{
    va - va % 4096
}

/// The page table: the offset of the linear mapping of physical memory, the
/// frame of the top-level table, and the tables as seen at their virtual
/// addresses.
pub struct OffsetPageTable {
    physical_memory_offset: u64,
    level_4_frame: u64,
    memory: HashMap<u64, Vec<PageTableEntry>>,
}

impl OffsetPageTable {
    pub closed spec fn offset(&self) -> u64 {
        self.physical_memory_offset
    }

    pub closed spec fn root(&self) -> u64 {
        self.level_4_frame
    }

    /// The frame at `p` can be reached through the offset mapping.
    pub open spec fn accessible(&self, p: u64) -> bool {
        p % 4096 == 0 && p + self.offset() + 4096 <= u64::MAX
    }

    /// Entry `i` of the table in frame `t`.
    pub closed spec fn entry_at(&self, t: u64, i: int) -> PageTableEntry {
        let key = t + self.physical_memory_offset;
        if key <= u64::MAX && self.memory@.contains_key(key as u64) && 0 <= i
            < self.memory@[key as u64]@.len() {
            self.memory@[key as u64]@[i]
        } else {
            zero_entry()
        }
    }

    pub closed spec fn wf(&self) -> bool {
        &&& self.accessible(self.level_4_frame)
        &&& forall|k: u64| #[trigger]
            self.memory@.contains_key(k) ==> self.memory@[k]@.len() == 512
        &&& forall|t: u64, i: int| #[trigger]
            self.entry_at(t, i).present ==> self.accessible(self.entry_at(t, i).addr)
    }

    /// The frame that the page holding `va` maps to: `None` where an entry
    /// on the way down is not present, or maps a huge page.
    pub open spec fn walk(&self, va: u64) -> Option<u64> {
        let e4 = self.entry_at(self.root(), table_index(va, 4));
        let e3 = self.entry_at(e4.addr, table_index(va, 3));
        let e2 = self.entry_at(e3.addr, table_index(va, 2));
        let e1 = self.entry_at(e2.addr, table_index(va, 1));
        if !e4.present || e4.huge || !e3.present || e3.huge || !e2.present || e2.huge
            || !e1.present {
            None
        } else {
            Some(e1.addr)
        }
    }

    /// The frame of the leaf table on the way down to `va`.
    pub open spec fn walk_table(&self, va: u64) -> u64 {
        let e4 = self.entry_at(self.root(), table_index(va, 4));
        let e3 = self.entry_at(e4.addr, table_index(va, 3));
        self.entry_at(e3.addr, table_index(va, 2)).addr
    }

    /// The physical address that `va` translates to.
    pub open spec fn translation(&self, va: u64) -> Option<int> {
        match self.walk(va) {
            Some(f) => Some(f + va % 4096),
            None => None,
        }
    }

    /// A present entry on the way down to `va` maps a huge page.
    pub open spec fn huge_on_path(&self, va: u64) -> bool {
        let e4 = self.entry_at(self.root(), table_index(va, 4));
        let e3 = self.entry_at(e4.addr, table_index(va, 3));
        let e2 = self.entry_at(e3.addr, table_index(va, 2));
        (e4.present && e4.huge) || (e4.present && e3.present && e3.huge) || (e4.present
            && e3.present && e2.present && e2.huge)
    }

    /// The tables on the way down to `va` that exist already, and the
    /// frames that the allocator would hand out next, are all different
    /// frames: a new table never lands on one in use.
    pub open spec fn fresh_path(&self, alloc: &BootInfoFrameAllocator, va: u64) -> bool {
        let e4 = self.entry_at(self.root(), table_index(va, 4));
        let e3 = self.entry_at(e4.addr, table_index(va, 3));
        let e2 = self.entry_at(e3.addr, table_index(va, 2));
        let n = alloc.handed();
        let fs = alloc.frames();
        let used = |p: u64|
            p == self.root() || (e4.present && p == e4.addr) || (e4.present && e3.present && p
                == e3.addr) || (e4.present && e3.present && e2.present && p == e2.addr);
        &&& (e4.present ==> e4.addr != self.root())
        &&& (e4.present && e3.present ==> e3.addr != self.root() && e3.addr != e4.addr)
        &&& (e4.present && e3.present && e2.present ==> e2.addr != self.root() && e2.addr
            != e4.addr && e2.addr != e3.addr)
        &&& forall|k: int| n <= k < n + 3 && k < fs.len() ==> !used(#[trigger] fs[k])
        &&& forall|j: int, k: int|
            n <= j < k < n + 3 && k < fs.len() ==> #[trigger] fs[j] != #[trigger] fs[k]
        &&& forall|k: int| n <= k < fs.len() ==> self.accessible(#[trigger] fs[k])
    }

    /// A table set with nothing mapped, whose top level lies in frame
    /// `level_4_frame`.
    pub fn new(physical_memory_offset: u64, level_4_frame: u64) -> (r: Self)
        requires
            level_4_frame % 4096 == 0,
            level_4_frame + physical_memory_offset + 4096 <= u64::MAX,
        ensures
            r.wf(),
            r.offset() == physical_memory_offset,
            r.root() == level_4_frame,
            forall|va: u64| #[trigger] r.walk(va).is_none(),
    {
        OffsetPageTable { physical_memory_offset, level_4_frame, memory: HashMap::new() }
    }

    /// The one place where a physical address becomes one that can be
    /// dereferenced: the address plus the offset of the linear mapping.
    pub fn phys_to_virt(&self, p: u64) -> (v: u64)
        requires
            self.accessible(p),
        ensures
            v == p + self.offset(),
    {
        p + self.physical_memory_offset
    }

    fn read_entry(&self, t: u64, i: usize) -> (e: PageTableEntry)
        requires
            self.wf(),
            self.accessible(t),
            i < 512,
        ensures
            e == self.entry_at(t, i as int),
    {
        let key = self.phys_to_virt(t);
        match self.memory.get(&key) {
            Some(table) => table[i],
            None => PageTableEntry { present: false, writable: false, huge: false, addr: 0 },
        }
    }

    fn write_entry(&mut self, t: u64, i: usize, e: PageTableEntry)
        requires
            old(self).wf(),
            old(self).accessible(t),
            i < 512,
            e.present ==> old(self).accessible(e.addr),
        ensures
            final(self).wf(),
            final(self).offset() == old(self).offset(),
            final(self).root() == old(self).root(),
            forall|t2: u64, i2: int|
                0 <= i2 < 512 ==> #[trigger] final(self).entry_at(t2, i2) == if t2 == t && i2
                    == i {
                    e
                } else {
                    old(self).entry_at(t2, i2)
                },
    {
        let key = self.phys_to_virt(t);
        let mut table = match self.memory.get(&key) {
            Some(table) => table.clone(),
            None => zeroed_table(),
        };
        assert(table@.len() == 512);
        assert forall|j: int| 0 <= j < 512 && j != i implies #[trigger] table@[j] == old(
            self,
        ).entry_at(t, j) by {}
        table.set(i, e);
        self.memory.insert(key, table);
        assert forall|t2: u64, i2: int| #[trigger] self.entry_at(t2, i2).present implies self.accessible(
            self.entry_at(t2, i2).addr,
        ) by {
            if t2 == t {
                if 0 <= i2 < 512 && i2 != i {
                    assert(self.entry_at(t2, i2) == old(self).entry_at(t2, i2));
                }
            } else {
                assert(t2 + self.physical_memory_offset != t + self.physical_memory_offset);
                assert(self.entry_at(t2, i2) == old(self).entry_at(t2, i2));
            }
        }
    }


    /// The physical address that `va` translates to, or `None` where the
    /// page holding it is not mapped.
    pub fn translate(&self, va: u64) -> (r: Option<u64>)
        requires
            self.wf(),
        ensures
            r.is_some() == self.translation(va).is_some(),
            r.is_some() ==> r.unwrap() as int == self.translation(va).unwrap(),
    {
        let e4 = self.read_entry(self.level_4_frame, index_of(va, 4));
        if !e4.present || e4.huge {
            return None;
        }
        let e3 = self.read_entry(e4.addr, index_of(va, 3));
        if !e3.present || e3.huge {
            return None;
        }
        let e2 = self.read_entry(e3.addr, index_of(va, 2));
        if !e2.present || e2.huge {
            return None;
        }
        let e1 = self.read_entry(e2.addr, index_of(va, 1));
        if !e1.present {
            return None;
        }
        Some(e1.addr + va % 4096)
    }

    /// Follows entry `i` of table `t` one level down, first building a
    /// zeroed table from a new frame where the entry is not present.
    fn next_table(&mut self, t: u64, i: usize, alloc: &mut BootInfoFrameAllocator) -> (r: Result<
        u64,
        MapToError,
    >)
        requires
            old(self).wf(),
            old(self).accessible(t),
            i < 512,
            old(alloc).wf(),
            forall|k: int|
                old(alloc).handed() <= k < old(alloc).frames().len() ==> old(self).accessible(
                    #[trigger] old(alloc).frames()[k],
                ),
        ensures
            final(self).wf(),
            final(alloc).wf(),
            final(self).offset() == old(self).offset(),
            final(self).root() == old(self).root(),
            final(alloc).regions() == old(alloc).regions(),
            ({
                let e = old(self).entry_at(t, i as int);
                let n = old(alloc).handed();
                let f = old(alloc).frames()[n as int];
                &&& e.present && e.huge ==> r == Err::<u64, MapToError>(
                    MapToError::ParentEntryHugePage,
                ) && *final(self) == *old(self) && *final(alloc) == *old(alloc)
                &&& e.present && !e.huge ==> r == Ok::<u64, MapToError>(e.addr) && *final(self)
                    == *old(self) && *final(alloc) == *old(alloc)
                &&& !e.present && n >= old(alloc).frames().len() ==> r == Err::<u64, MapToError>(
                    MapToError::FrameAllocationFailed,
                ) && *final(self) == *old(self) && final(alloc).handed() == n && n
                    == old(alloc).frames().len()
                &&& !e.present && n < old(alloc).frames().len() ==> r == Ok::<u64, MapToError>(f)
                    && final(alloc).handed() == n + 1 && forall|t2: u64, i2: int|
                    0 <= i2 < 512 ==> #[trigger] final(self).entry_at(t2, i2) == if t2 == t && i2
                        == i {
                        PageTableEntry { present: true, writable: true, huge: false, addr: f }
                    } else if t2 == f {
                        zero_entry()
                    } else {
                        old(self).entry_at(t2, i2)
                    }
            }),
            r is Ok ==> final(self).accessible(r->Ok_0),
    {
        let e = self.read_entry(t, i);
        if e.present {
            if e.huge {
                return Err(MapToError::ParentEntryHugePage);
            }
            return Ok(e.addr);
        }
        proof {
            alloc.lemma_handed_bound();
        }
        match alloc.allocate() {
            None => Err(MapToError::FrameAllocationFailed),
            Some(f) => {
                self.zero_table(f);
                self.write_entry(
                    t,
                    i,
                    PageTableEntry { present: true, writable: true, huge: false, addr: f },
                );
                Ok(f)
            },
        }
    }


    /// Maps the page starting at `page` to the frame at `frame`, building
    /// the intermediate tables that are missing from frames of `alloc`.
    pub fn map_to(
        &mut self,
        page: u64,
        frame: u64,
        flags: PageTableFlags,
        alloc: &mut BootInfoFrameAllocator,
    ) -> (r: Result<(), MapToError>)
        requires
            old(self).wf(),
            old(alloc).wf(),
            page % 4096 == 0,
            old(self).accessible(frame),
            old(self).fresh_path(old(alloc), page),
        ensures
            final(self).wf(),
            final(alloc).wf(),
            final(self).offset() == old(self).offset(),
            final(self).root() == old(self).root(),
            final(alloc).regions() == old(alloc).regions(),
            old(alloc).handed() <= final(alloc).handed() <= old(alloc).handed() + 3,
            r is Ok ==> final(self).walk(page) == Some(frame),
            r is Ok ==> final(self).entry_at(
                final(self).walk_table(page),
                table_index(page, 1),
            ).writable == flags.writable,
            old(self).huge_on_path(page) <==> r == Err::<(), MapToError>(
                MapToError::ParentEntryHugePage,
            ),
            !old(self).huge_on_path(page) && old(self).walk(page).is_some() <==> r == Err::<
                (),
                MapToError,
            >(MapToError::PageAlreadyMapped),
            r == Err::<(), MapToError>(MapToError::FrameAllocationFailed)
                ==> final(alloc).handed() == old(alloc).frames().len(),
            !old(self).huge_on_path(page) && old(self).walk(page).is_none()
                && old(alloc).handed() + 3 <= old(alloc).frames().len() ==> r is Ok,
    {
        let t3 = match self.next_table(self.level_4_frame, index_of(page, 4), alloc) {
            Ok(t) => t,
            Err(e) => {
                return Err(e);
            },
        };
        let t2 = match self.next_table(t3, index_of(page, 3), alloc) {
            Ok(t) => t,
            Err(e) => {
                return Err(e);
            },
        };
        let t1 = match self.next_table(t2, index_of(page, 2), alloc) {
            Ok(t) => t,
            Err(e) => {
                return Err(e);
            },
        };
        let i1 = index_of(page, 1);
        let e = self.read_entry(t1, i1);
        if e.present {
            return Err(MapToError::PageAlreadyMapped);
        }
        self.write_entry(
            t1,
            i1,
            PageTableEntry { present: true, writable: flags.writable, huge: false, addr: frame },
        );
        Ok(())
    }

    /// Clears the table in frame `t`: every entry becomes not present.
    fn zero_table(&mut self, t: u64)
        requires
            old(self).wf(),
            old(self).accessible(t),
        ensures
            final(self).wf(),
            final(self).offset() == old(self).offset(),
            final(self).root() == old(self).root(),
            forall|t2: u64, i2: int|
                0 <= i2 < 512 ==> #[trigger] final(self).entry_at(t2, i2) == if t2 == t {
                    zero_entry()
                } else {
                    old(self).entry_at(t2, i2)
                },
    {
        let key = self.phys_to_virt(t);
        self.memory.insert(key, zeroed_table());
        assert forall|t2: u64, i2: int| #[trigger] self.entry_at(t2, i2).present implies self.accessible(
            self.entry_at(t2, i2).addr,
        ) by {
            if t2 != t {
                assert(t2 + self.physical_memory_offset != t + self.physical_memory_offset);
                assert(self.entry_at(t2, i2) == old(self).entry_at(t2, i2));
            }
        }
    }
}

fn zeroed_table() -> (t: Vec<PageTableEntry>)
    ensures
        t@.len() == 512,
        forall|i: int| 0 <= i < 512 ==> #[trigger] t@[i] == zero_entry(),
{
    let mut t: Vec<PageTableEntry> = Vec::new();
    let mut i: usize = 0;
    while i < ENTRY_COUNT
        invariant
            i <= 512,
            t@.len() == i,
            forall|j: int| 0 <= j < i ==> #[trigger] t@[j] == zero_entry(),
        decreases 512 - i,
    {
        t.push(PageTableEntry { present: false, writable: false, huge: false, addr: 0 });
        i = i + 1;
    }
    t
}

/// Frame of the text-mode buffer.
pub const VGA_BUFFER_FRAME: u64 = 0xb8000;

/// Maps `page` to the frame of the text-mode buffer, writable, so that
/// writes through the page show on the screen.
pub fn create_example_mapping(
    page: u64,
    mapper: &mut OffsetPageTable,
    frame_allocator: &mut BootInfoFrameAllocator,
) -> (r: Result<(), MapToError>)
    requires
        old(mapper).wf(),
        old(frame_allocator).wf(),
        page % 4096 == 0,
        old(mapper).accessible(VGA_BUFFER_FRAME),
        old(mapper).fresh_path(old(frame_allocator), page),
    ensures
        final(mapper).wf(),
        final(frame_allocator).wf(),
        r is Ok ==> final(mapper).walk(page) == Some(VGA_BUFFER_FRAME),
        old(mapper).huge_on_path(page) <==> r == Err::<(), MapToError>(
            MapToError::ParentEntryHugePage,
        ),
        !old(mapper).huge_on_path(page) && old(mapper).walk(page).is_some() <==> r == Err::<
            (),
            MapToError,
        >(MapToError::PageAlreadyMapped),
        !old(mapper).huge_on_path(page) && old(mapper).walk(page).is_none()
            && old(frame_allocator).handed() + 3 <= old(frame_allocator).frames().len() ==> r is Ok,
{
    mapper.map_to(page, VGA_BUFFER_FRAME, PageTableFlags { writable: true }, frame_allocator)
}

/// Addresses inside one page select the same entry at every level.
proof fn lemma_same_page_index(page: u64, off: u64, level: int)
    requires
        page % 4096 == 0,
        off < 4096,
        page + off <= u64::MAX,
        1 <= level <= 4,
    ensures
        table_index((page + off) as u64, level) == table_index(page, level),
{
    let s = level_span(level);
    let p = page as int;
    let o = off as int;
    let m = s / 4096;
    assert(s == m * 4096 && m >= 1);
    let q = p / s;
    let r = p % s;
    assert(p == q * s + r && 0 <= r < s) by (nonlinear_arith)
        requires
            s > 0,
            q == p / s,
            r == p % s,
    ;
    let a = p / 4096;
    assert(p == a * 4096) by (nonlinear_arith)
        requires
            p % 4096 == 0,
            a == p / 4096,
    ;
    assert(r == (a - q * m) * 4096) by (nonlinear_arith)
        requires
            p == q * s + r,
            s == m * 4096,
            p == a * 4096,
    ;
    vstd::arithmetic::div_mod::lemma_mod_multiples_basic(a - q * m, 4096);
    assert(r + o < s) by (nonlinear_arith)
        requires
            r % 4096 == 0,
            0 <= r < s,
            s == m * 4096,
            0 <= o < 4096,
    ;
    assert((p + o) / s == q) by (nonlinear_arith)
        requires
            p + o == q * s + (r + o),
            0 <= r + o < s,
            s > 0,
    ;
}

/// Once a page maps to a frame, every address inside the page translates
/// to the same offset inside the frame.
pub proof fn lemma_translate_mapped_page(pt: &OffsetPageTable, page: u64, frame: u64, off: u64)
    requires
        page % 4096 == 0,
        off < 4096,
        page + off <= u64::MAX,
        pt.walk(page) == Some(frame),
    ensures
        pt.translation((page + off) as u64) == Some(frame + off),
{
    lemma_same_page_index(page, off, 1);
    lemma_same_page_index(page, off, 2);
    lemma_same_page_index(page, off, 3);
    lemma_same_page_index(page, off, 4);
    assert(pt.walk((page + off) as u64) == pt.walk(page));
    assert((page + off) as u64 % 4096 == off as int) by (nonlinear_arith)
        requires
            page % 4096 == 0,
            off < 4096,
            page + off <= u64::MAX,
    ;
}

/// Where any entry on the way down to `va` is not present, `va` translates
/// to nothing, whatever the other entries hold.
pub proof fn lemma_unmapped_translation(pt: &OffsetPageTable, va: u64)
    requires
        ({
            let e4 = pt.entry_at(pt.root(), table_index(va, 4));
            let e3 = pt.entry_at(e4.addr, table_index(va, 3));
            let e2 = pt.entry_at(e3.addr, table_index(va, 2));
            let e1 = pt.entry_at(e2.addr, table_index(va, 1));
            !e4.present || !e3.present || !e2.present || !e1.present
        }),
    ensures
        pt.translation(va).is_none(),
{
}

} // verus!
