//! Bump allocation of physical frames from the usable regions of the boot
//! memory map.
use vstd::prelude::*;

verus! {

/// Size in bytes of one physical frame or virtual page.
pub const FRAME_SIZE: u64 = 4096;

/// What the boot loader says a memory region holds.
#[derive(Clone, Copy, Debug, PartialEq, Eq, Structural)]
pub enum RegionKind {
    Usable,
    Reserved,
    BootloaderOwned,
    KernelImage,
}

/// One entry of the boot memory map: `len` bytes starting at `start`.
#[derive(Clone, Copy, Debug, PartialEq, Eq, Structural)]
pub struct MemoryRegion {
    pub start: u64,
    pub len: u64,
    pub kind: RegionKind,
}

/// The smallest frame boundary at or above `a`.
pub open spec fn align_up(a: int) -> int {
    if a % 4096 == 0 {
        a
    } else {
        a + (4096 - a % 4096)
    }
}

/// The region ends at an address that a `u64` can hold.
pub open spec fn region_fits(r: MemoryRegion) -> bool {
    r.start + r.len <= u64::MAX
}

pub open spec fn regions_fit(rs: Seq<MemoryRegion>) -> bool {
    forall|i: int| 0 <= i < rs.len() ==> region_fits(#[trigger] rs[i])
}

/// Address of the first whole frame inside the region.
pub open spec fn first_frame(r: MemoryRegion) -> int {
    align_up(r.start as int)
}

/// Number of whole frames inside the region that may be handed out: none
/// unless the region is usable.
pub open spec fn frame_count(r: MemoryRegion) -> nat {
    if r.kind == RegionKind::Usable && first_frame(r) + 4096 <= r.start + r.len {
        ((r.start + r.len - first_frame(r)) / 4096) as nat
    } else {
        0
    }
}

/// The frames of one region, in ascending order.
pub open spec fn region_frames(r: MemoryRegion) -> Seq<u64> {
    Seq::new(frame_count(r), |k: int| (first_frame(r) + k * 4096) as u64)
}

/// Every frame that the memory map offers, region after region, in the
/// order in which the regions are listed.
pub open spec fn all_frames(rs: Seq<MemoryRegion>) -> Seq<u64>
    decreases rs.len(),
{
    if rs.len() == 0 {
        Seq::empty()
    } else {
        all_frames(rs.drop_last()) + region_frames(rs.last())
    }
}

/// Regions listed in ascending order of address, none overlapping the next.
pub open spec fn regions_ordered(rs: Seq<MemoryRegion>) -> bool {
    forall|i: int, j: int|
        0 <= i < j < rs.len() ==> #[trigger] rs[i].start + rs[i].len <= #[trigger] rs[j].start
}

/// A bump allocator: a cursor made of the current region and the number of
/// frames already taken from it. Frames are never given back.
pub struct BootInfoFrameAllocator {
    regions: Vec<MemoryRegion>,
    region: usize,
    used: u64,
}

impl BootInfoFrameAllocator {
    /// The memory map that the allocator was built from.
    pub closed spec fn regions(&self) -> Seq<MemoryRegion> {
        self.regions@
    }

    /// Every frame the allocator can ever hand out, in order.
    pub open spec fn frames(&self) -> Seq<u64> {
        all_frames(self.regions())
    }

    /// How many frames have been handed out so far.
    pub closed spec fn handed(&self) -> nat {
        all_frames(self.regions@.take(self.region as int)).len() + self.used as nat
    }

    pub closed spec fn wf(&self) -> bool {
        &&& regions_fit(self.regions@)
        &&& self.region <= self.regions@.len()
        &&& self.region < self.regions@.len() ==> self.used <= frame_count(
            self.regions@[self.region as int],
        )
        &&& self.region == self.regions@.len() ==> self.used == 0
    }

    /// No more frames are handed out than the memory map offers.
    pub proof fn lemma_handed_bound(&self)
        requires
            self.wf(),
        ensures
            self.handed() <= self.frames().len(),
    {
        lemma_handed_le(self.regions@, self.region as int, self.used as nat);
    }

    /// Builds the allocator from the boot memory map, which it copies.
    pub fn init(memory_map: &Vec<MemoryRegion>) -> (r: Self)
        requires
            regions_fit(memory_map@),
        ensures
            r.wf(),
            r.regions() == memory_map@,
            r.handed() == 0,
    {
        let r = BootInfoFrameAllocator { regions: memory_map.clone(), region: 0, used: 0 };
        assert(r.regions@ =~= memory_map@);
        assert(r.regions@.take(0) =~= Seq::<MemoryRegion>::empty());
        r
    }

    /// Hands out the next unused frame (its start address), or `None` once
    /// every usable frame has been handed out.
    pub fn allocate(&mut self) -> (r: Option<u64>)
        requires
            old(self).wf(),
        ensures
            final(self).wf(),
            final(self).regions() == old(self).regions(),
            old(self).handed() < old(self).frames().len() ==> r == Some(
                old(self).frames()[old(self).handed() as int],
            ) && final(self).handed() == old(self).handed() + 1,
            old(self).handed() >= old(self).frames().len() ==> r.is_none()
                && final(self).handed() == old(self).handed(),
    {
        proof {
            lemma_handed_le(self.regions@, self.region as int, self.used as nat);
        }
        while self.region < self.regions.len()
            invariant
                self.wf(),
                self.regions@ == old(self).regions@,
                self.handed() == old(self).handed(),
            decreases self.regions@.len() - self.region,
        {
            let r = self.regions[self.region];
            let count = region_frame_count(&r);
            if self.used < count {
                let first = region_first_frame(&r);
                proof {
                    assert(self.used * 4096 + 4096 <= count * 4096) by (nonlinear_arith)
                        requires
                            self.used < count,
                    ;
                    assert((r.start + r.len - first) / 4096 * 4096 <= r.start + r.len - first)
                        by (nonlinear_arith)
                        requires
                            r.start + r.len - first >= 0,
                    ;
                }
                let frame = first + self.used * FRAME_SIZE;
                proof {
                    lemma_frame_at(self.regions@, self.region as int, self.used as int);
                    lemma_take_step(self.regions@, self.region as int);
                }
                self.used = self.used + 1;
                return Some(frame);
            }
            proof {
                lemma_take_step(self.regions@, self.region as int);
            }
            self.region = self.region + 1;
            self.used = 0;
        }
        proof {
            assert(self.regions@.take(self.regions@.len() as int) =~= self.regions@);
        }
        None
    }
}

/// Address of the first whole frame of a region that fits in a `u64`
/// together with at least one frame.
fn region_first_frame(r: &MemoryRegion) -> (f: u64)
    requires
        region_fits(*r),
        frame_count(*r) > 0,
    ensures
        f == first_frame(*r),
{
    let rem = r.start % FRAME_SIZE;
    if rem == 0 {
        r.start
    } else {
        r.start + (FRAME_SIZE - rem)
    }
}

/// Number of frames that the region offers.
fn region_frame_count(r: &MemoryRegion) -> (n: u64)
    requires
        region_fits(*r),
    ensures
        n == frame_count(*r),
{
    if r.kind != RegionKind::Usable {
        return 0;
    }
    let rem = r.start % FRAME_SIZE;
    let gap: u64 = if rem == 0 {
        0
    } else {
        FRAME_SIZE - rem
    };
    if r.len < FRAME_SIZE || r.len - FRAME_SIZE < gap {
        0
    } else {
        (r.len - gap) / FRAME_SIZE
    }
}

proof fn lemma_take_step(rs: Seq<MemoryRegion>, i: int)
    requires
        0 <= i < rs.len(),
    ensures
        all_frames(rs.take(i + 1)) == all_frames(rs.take(i)) + region_frames(rs[i]),
{
    assert(rs.take(i + 1).drop_last() =~= rs.take(i));
}

/// The frames of the first `i` regions are a prefix of all the frames.
proof fn lemma_prefix(rs: Seq<MemoryRegion>, i: int)
    requires
        0 <= i <= rs.len(),
    ensures
        all_frames(rs.take(i)).len() <= all_frames(rs).len(),
        forall|k: int|
            0 <= k < all_frames(rs.take(i)).len() ==> #[trigger] all_frames(rs.take(i))[k]
                == all_frames(rs)[k],
    decreases rs.len(),
{
    if i == rs.len() {
        assert(rs.take(i) =~= rs);
    } else {
        assert(rs.drop_last().take(i) =~= rs.take(i));
        lemma_prefix(rs.drop_last(), i);
    }
}

proof fn lemma_handed_le(rs: Seq<MemoryRegion>, i: int, used: nat)
    requires
        0 <= i <= rs.len(),
        i < rs.len() ==> used <= frame_count(rs[i]),
        i == rs.len() ==> used == 0,
    ensures
        all_frames(rs.take(i)).len() + used <= all_frames(rs).len(),
{
    if i < rs.len() {
        lemma_take_step(rs, i);
        lemma_prefix(rs, i + 1);
    } else {
        lemma_prefix(rs, i);
    }
}

proof fn lemma_frame_at(rs: Seq<MemoryRegion>, i: int, k: int)
    requires
        0 <= i < rs.len(),
        0 <= k < frame_count(rs[i]),
    ensures
        all_frames(rs)[all_frames(rs.take(i)).len() + k] == region_frames(rs[i])[k],
        all_frames(rs.take(i)).len() + k < all_frames(rs).len(),
{
    lemma_take_step(rs, i);
    lemma_prefix(rs, i + 1);
    let p = all_frames(rs.take(i));
    assert(all_frames(rs.take(i + 1))[p.len() + k] == region_frames(rs[i])[k]);
}

/// Every frame that the allocator can hand out is frame-aligned. Where the
/// regions are listed in ascending order without overlap, the frames come
/// out strictly increasing, so no frame is ever handed out twice, and each
/// ends no later than the last region.
pub proof fn lemma_frames_aligned_increasing(rs: Seq<MemoryRegion>)
    requires
        regions_fit(rs),
    ensures
        forall|k: int| 0 <= k < all_frames(rs).len() ==> #[trigger] all_frames(rs)[k] % 4096 == 0,
        regions_ordered(rs) ==> forall|i: int, j: int|
            0 <= i < j < all_frames(rs).len() ==> #[trigger] all_frames(rs)[i]
                < #[trigger] all_frames(rs)[j],
        regions_ordered(rs) && rs.len() > 0 ==> forall|k: int|
            0 <= k < all_frames(rs).len() ==> #[trigger] all_frames(rs)[k] + 4096 <= rs.last().start
                + rs.last().len,
    decreases rs.len(),
{
    if rs.len() > 0 {
        let pre = rs.drop_last();
        let last = rs.last();
        assert(regions_fit(pre));
        lemma_frames_aligned_increasing(pre);
        let a = all_frames(pre);
        let b = region_frames(last);
        assert(all_frames(rs) == a + b);
        assert(first_frame(last) % 4096 == 0);
        assert(first_frame(last) >= last.start);
        assert forall|k: int| 0 <= k < b.len() implies b[k] % 4096 == 0 && last.start <= b[k]
            && b[k] + 4096 <= last.start + last.len by {
            let n = frame_count(last) as int;
            assert(k * 4096 + 4096 <= n * 4096) by (nonlinear_arith)
                requires
                    k < n,
            ;
            assert((last.start + last.len - first_frame(last)) / 4096 * 4096 <= last.start
                + last.len - first_frame(last)) by (nonlinear_arith)
                requires
                    last.start + last.len - first_frame(last) >= 0,
            ;
            assert((first_frame(last) + k * 4096) % 4096 == 0) by (nonlinear_arith)
                requires
                    first_frame(last) % 4096 == 0,
            ;
        }
        if regions_ordered(rs) {
            assert(regions_ordered(pre));
            if pre.len() > 0 {
                assert(pre.last() == rs[rs.len() - 2]);
                assert(rs[rs.len() - 2].start + rs[rs.len() - 2].len <= rs[rs.len() - 1].start);
            }
            assert forall|i: int, j: int|
                0 <= i < j < all_frames(rs).len() implies #[trigger] all_frames(rs)[i]
                < #[trigger] all_frames(rs)[j] by {
                if j < a.len() {
                } else if i >= a.len() {
                    assert((i - a.len()) * 4096 < (j - a.len()) * 4096) by (nonlinear_arith)
                        requires
                            i < j,
                    ;
                } else {
                    assert(a[i] + 4096 <= last.start);
                    assert(b[j - a.len()] >= last.start);
                }
            }
            assert forall|k: int| 0 <= k < all_frames(rs).len() implies #[trigger] all_frames(
                rs,
            )[k] + 4096 <= rs.last().start + rs.last().len by {
                if k < a.len() {
                    assert(a[k] + 4096 <= last.start);
                } else {
                    assert(b[k - a.len()] + 4096 <= last.start + last.len);
                }
            }
        }
        assert forall|k: int| 0 <= k < all_frames(rs).len() implies #[trigger] all_frames(rs)[k]
            % 4096 == 0 by {
            if k < a.len() {
                assert(a[k] % 4096 == 0);
            } else {
                assert(b[k - a.len()] % 4096 == 0);
            }
        }
    }
}

} // verus!
