//! Safe counterparts of the string-handle primitives of the automation layer.
//!
//! A string handle points at a length-prefixed UTF-16 buffer: four bytes of
//! length, then the code units, then a two-byte terminator, with the handle
//! itself addressing the first code unit.  The buffer lives on a dedicated
//! foreign allocator.  This module models that allocator as an explicit value,
//! [`BstrHeap`], so that every primitive — allocate, reallocate, length, free —
//! is an ordinary verified function whose contract states exactly which handles
//! are live, what they contain, and when each error is returned.
//!
//! The model allocates from a bump region of a fixed byte capacity and never
//! reuses freed addresses, which keeps every handle value unique for the whole
//! life of the heap.

use vstd::prelude::*;

verus! {

use crate::utf16::decode16;
use crate::utf16::encode16;
use crate::utf16::lemma_encode16_zero_free;
use crate::utf16::lemma_utf16_round_trip;

/// The errors of the string-handle primitives.
#[derive(Clone, Copy, Debug, PartialEq, Eq, Structural)]
pub enum SysAllocError {
    /// The allocator could not provide the requested buffer.
    BStrAllocationError,
    /// The handle is null, or its buffer overlaps the source buffer.
    InvalidPointerError,
    /// The source buffer carries no terminator code unit.
    NullTerminatedStringRequiredError,
    /// The source is longer than the 32-bit length prefix can record.
    SourceStringTooLongError,
}

/// A caller-side UTF-16 source buffer: its code units together with the byte
/// address where the caller keeps them.  The address only matters to the
/// reallocation primitives, which must refuse a source that overlaps the
/// buffer being reallocated.
pub struct Utf16Src {
    /// Byte address of the first code unit.
    pub base: usize,
    /// The code units.
    pub units: Vec<u16>,
}

impl Utf16Src {
    /// The source occupies a byte range that fits the address space.
    pub open spec fn fits(self) -> bool {
        self.units@.len() == 0 || self.base + 2 * self.units@.len() - 1 <= usize::MAX
    }

    /// A source for callers that do not care about the address: the buffer is
    /// placed at address zero.  The allocation primitives never read the
    /// address; hand a reallocation primitive a source with its real address
    /// instead, so the overlap test means something.
    pub fn of_units(units: Vec<u16>) -> (r: Utf16Src)
        ensures
            r.units@ == units@,
            r.base == 0,
    {
        Utf16Src { base: 0, units }
    }
}

/// One allocation of the modeled heap.
struct BstrBuf {
    /// Byte address of the first code unit; the length prefix sits at `base - 4`.
    base: usize,
    /// The code units the buffer holds.
    units: Vec<u16>,
    /// Whether the allocation is still live.
    live: bool,
}

/// The byte address one past the end of a buffer's extent, terminator included.
spec fn buf_end(b: BstrBuf) -> int {
    b.base + 2 * b.units@.len() + 2
}

/// The modeled string-handle allocator.  Handles are the byte addresses of
/// their buffers; the null handle is 0.
pub struct BstrHeap {
    /// All allocations ever made, in address order.
    bufs: Vec<BstrBuf>,
    /// First byte address never yet allocated.
    next_free: usize,
    /// Total byte capacity of the allocator.
    cap: usize,
}

/// The number of live allocations among the given buffers.
spec fn count_live(bufs: Seq<BstrBuf>) -> nat
    decreases bufs.len(),
{
    if bufs.len() == 0 {
        0nat
    } else {
        count_live(bufs.drop_last()) + if bufs.last().live {
            1nat
        } else {
            0nat
        }
    }
}

impl BstrHeap {
    /// The heap's internal invariant: buffers sit in strictly ascending,
    /// disjoint extents below the bump pointer, each leaving room for its
    /// four-byte length prefix, and no buffer outgrows the 32-bit length limit.
    pub closed spec fn wf(self) -> bool {
        &&& self.next_free <= self.cap
        &&& forall|i: int|
            0 <= i < self.bufs@.len() ==> {
                &&& 4 <= (#[trigger] self.bufs@[i]).base
                &&& buf_end(self.bufs@[i]) <= self.next_free
                &&& self.bufs@[i].units@.len() <= 0xFFFF_FFFF
            }
        &&& forall|i: int, j: int|
            0 <= i < j < self.bufs@.len() ==> buf_end(#[trigger] self.bufs@[i]) <= (
            #[trigger] self.bufs@[j]).base - 4
    }

    /// The handle is a live allocation.
    pub closed spec fn is_live(self, h: usize) -> bool {
        exists|i: int|
            0 <= i < self.bufs@.len() && (#[trigger] self.bufs@[i]).live && self.bufs@[i].base == h
    }

    /// The index of the live allocation a handle names.
    spec fn live_idx(self, h: usize) -> int {
        choose|i: int|
            0 <= i < self.bufs@.len() && (#[trigger] self.bufs@[i]).live && self.bufs@[i].base == h
    }

    /// The code units a live handle holds.
    pub closed spec fn contents(self, h: usize) -> Seq<u16> {
        self.bufs@[self.live_idx(h)].units@
    }

    /// Bytes already taken from the bump region.
    pub closed spec fn used(self) -> nat {
        self.next_free as nat
    }

    /// Total byte capacity of the allocator.
    pub closed spec fn capacity(self) -> nat {
        self.cap as nat
    }

    /// The number of live handles.
    pub closed spec fn live_handles(self) -> nat {
        count_live(self.bufs@)
    }

    /// Room for an allocation of the given number of code units: four prefix
    /// bytes, two bytes per unit, and the two-byte terminator.
    pub open spec fn can_alloc(self, len: nat) -> bool {
        self.used() + 6 + 2 * len <= self.capacity()
    }

    /// A fresh heap with the given byte capacity and no live handles.
    pub fn new(cap: usize) -> (r: BstrHeap)
        ensures
            r.wf(),
            r.used() == 0,
            r.capacity() == cap as nat,
            r.live_handles() == 0,
            forall|h: usize| !r.is_live(h),
    {
        BstrHeap { bufs: Vec::new(), next_free: 0, cap }
    }

    /// The null handle is never live.
    pub proof fn lemma_null_not_live(self)
        requires
            self.wf(),
        ensures
            !self.is_live(0),
    {
        if self.is_live(0) {
            let i = self.live_idx(0);
            assert(4 <= self.bufs@[i].base);
        }
    }

    /// Within one well-formed heap, a live buffer is the only one with its base
    /// address.
    proof fn lemma_live_idx(self, i: int)
        requires
            self.wf(),
            0 <= i < self.bufs@.len(),
            self.bufs@[i].live,
        ensures
            self.is_live(self.bufs@[i].base),
            self.live_idx(self.bufs@[i].base) == i,
    {
        let h = self.bufs@[i].base;
        assert(self.is_live(h));
        let j = self.live_idx(h);
        if j < i {
            assert(buf_end(self.bufs@[j]) <= self.bufs@[i].base - 4);
            assert(self.bufs@[j].base < buf_end(self.bufs@[j]));
        } else if i < j {
            assert(buf_end(self.bufs@[i]) <= self.bufs@[j].base - 4);
            assert(self.bufs@[i].base < buf_end(self.bufs@[i]));
        }
    }

    /// Finds the allocation a live handle names.
    fn find(&self, h: usize) -> (r: Option<usize>)
        requires
            self.wf(),
        ensures
            match r {
                Some(i) => {
                    &&& i < self.bufs@.len()
                    &&& self.bufs@[i as int].live
                    &&& self.bufs@[i as int].base == h
                    &&& self.is_live(h)
                    &&& self.live_idx(h) == i
                    &&& self.contents(h) == self.bufs@[i as int].units@
                },
                None => !self.is_live(h),
            },
    {
        let n = self.bufs.len();
        let mut i: usize = 0;
        while i < n
            invariant
                i <= n,
                n == self.bufs@.len(),
                self.wf(),
                forall|k: int|
                    0 <= k < i ==> !((#[trigger] self.bufs@[k]).live && self.bufs@[k].base == h),
            decreases n - i,
        {
            if self.bufs[i].live && self.bufs[i].base == h {
                proof {
                    self.lemma_live_idx(i as int);
                }
                return Some(i);
            }
            i = i + 1;
        }
        return None;
    }

    /// Copies out the code units a live handle holds.
    pub fn units_of(&self, h: usize) -> (r: Vec<u16>)
        requires
            self.wf(),
            self.is_live(h),
        ensures
            r@ == self.contents(h),
    {
        let i = match self.find(h) {
            Some(i) => i,
            None => {
                proof {
                    assert(false);
                }
                0
            },
        };
        let src = &self.bufs[i];
        let m = src.units.len();
        let mut out: Vec<u16> = Vec::new();
        let mut k: usize = 0;
        while k < m
            invariant
                k <= m,
                m == src.units@.len(),
                out@ == src.units@.take(k as int),
            decreases m - k,
        {
            out.push(src.units[k]);
            proof {
                assert(src.units@.take(k + 1) =~= src.units@.take(k as int).push(
                    src.units@[k as int],
                ));
            }
            k = k + 1;
        }
        proof {
            assert(src.units@.take(m as int) =~= src.units@);
        }
        out
    }

    /// Whether a handle is currently live; the null handle never is.
    pub fn handle_is_live(&self, h: usize) -> (r: bool)
        requires
            self.wf(),
        ensures
            r == self.is_live(h),
    {
        self.find(h).is_some()
    }

    /// The number of live handles, for leak accounting.
    pub fn live_count(&self) -> (r: usize)
        ensures
            r == self.live_handles(),
    {
        let n = self.bufs.len();
        let mut count: usize = 0;
        let mut i: usize = 0;
        while i < n
            invariant
                i <= n,
                n == self.bufs@.len(),
                count == count_live(self.bufs@.take(i as int)),
                count <= i,
            decreases n - i,
        {
            if self.bufs[i].live {
                count = count + 1;
            }
            proof {
                assert(self.bufs@.take(i + 1).drop_last() =~= self.bufs@.take(i as int));
                assert(self.bufs@.take(i + 1).last() == self.bufs@[i as int]);
            }
            i = i + 1;
        }
        proof {
            assert(self.bufs@.take(n as int) =~= self.bufs@);
        }
        count
    }

    /// Allocates a buffer holding the first `count` units of `src`.
    fn alloc_copy(&mut self, src: &Vec<u16>, count: usize) -> (r: Result<usize, SysAllocError>)
        requires
            old(self).wf(),
            count <= src@.len(),
            count <= 0xFFFF_FFFF,
        ensures
            final(self).wf(),
            final(self).capacity() == old(self).capacity(),
            if old(self).can_alloc(count as nat) {
                &&& r matches Ok(h) && h != 0 && !old(self).is_live(h) && final(self).is_live(h)
                    && final(self).contents(h) == src@.take(count as int)
                &&& final(self).used() == old(self).used() + 6 + 2 * count
                &&& final(self).live_handles() == old(self).live_handles() + 1
                &&& forall|h2: usize|
                    h2 != r->Ok_0 ==> (final(self).is_live(h2) == old(self).is_live(h2)) && (old(
                        self,
                    ).is_live(h2) ==> final(self).contents(h2) == old(self).contents(h2))
            } else {
                r == Err::<usize, SysAllocError>(SysAllocError::BStrAllocationError) && *final(self)
                    == *old(self)
            },
    {
        let avail = self.cap - self.next_free;
        let needed: u64 = 6 + 2 * (count as u64);
        if (avail as u64) < needed {
            return Err(SysAllocError::BStrAllocationError);
        }
        let base = self.next_free + 4;
        let mut units: Vec<u16> = Vec::new();
        let mut k: usize = 0;
        while k < count
            invariant
                k <= count,
                count <= src@.len(),
                units@ == src@.take(k as int),
            decreases count - k,
        {
            units.push(src[k]);
            proof {
                assert(src@.take(k + 1) =~= src@.take(k as int).push(src@[k as int]));
            }
            k = k + 1;
        }
        let ghost old_bufs = self.bufs@;
        let ghost old_self = *self;
        self.next_free = base + 2 * count + 2;
        self.bufs.push(BstrBuf { base, units, live: true });
        proof {
            let n = self.bufs@.len() - 1;
            assert(self.bufs@[n].base == base && self.bufs@[n].live);
            assert(forall|i: int| 0 <= i < n ==> self.bufs@[i] == old_bufs[i]);
            assert(self.wf());
            self.lemma_live_idx(n);
            assert(self.contents(base) == src@.take(count as int));
            assert(!old_self.is_live(base)) by {
                if old_self.is_live(base) {
                    let i = old_self.live_idx(base);
                    assert(old_bufs[i].base < buf_end(old_bufs[i]));
                }
            }
            assert(forall|h2: usize|
                h2 != base && old_self.is_live(h2) ==> #[trigger] self.is_live(h2) && self.contents(
                    h2,
                ) == old_self.contents(h2)) by {
                assert forall|h2: usize|
                    h2 != base && old_self.is_live(h2) implies #[trigger] self.is_live(h2)
                    && self.contents(h2) == old_self.contents(h2) by {
                    let i = old_self.live_idx(h2);
                    assert(self.bufs@[i].live && self.bufs@[i].base == h2);
                    self.lemma_live_idx(i);
                }
            }
            assert(forall|h2: usize| h2 != base && #[trigger] self.is_live(h2) ==> old_self.is_live(h2))
                by {
                assert forall|h2: usize| h2 != base && #[trigger] self.is_live(h2) implies old_self.is_live(
                    h2,
                ) by {
                    let i = self.live_idx(h2);
                    assert(i < n);
                    assert(old_bufs[i].live && old_bufs[i].base == h2);
                }
            }
            assert(count_live(self.bufs@) == count_live(old_bufs) + 1) by {
                assert(self.bufs@.drop_last() =~= old_bufs);
            }
        }
        Ok(base)
    }

    /// Marks a live handle dead.
    fn kill(&mut self, h: usize)
        requires
            old(self).wf(),
            old(self).is_live(h),
        ensures
            final(self).wf(),
            final(self).capacity() == old(self).capacity(),
            final(self).used() == old(self).used(),
            !final(self).is_live(h),
            final(self).live_handles() + 1 == old(self).live_handles(),
            forall|h2: usize|
                h2 != h ==> (final(self).is_live(h2) == old(self).is_live(h2)) && (old(
                    self,
                ).is_live(h2) ==> final(self).contents(h2) == old(self).contents(h2)),
    {
        let i = match self.find(h) {
            Some(i) => i,
            None => {
                proof {
                    assert(false);
                }
                0
            },
        };
        let ghost old_self = *self;
        self.bufs[i].live = false;
        proof {
            let n = self.bufs@.len();
            assert(forall|k: int|
                0 <= k < n && k != i ==> self.bufs@[k] == old_self.bufs@[k]);
            assert(self.bufs@[i as int].base == old_self.bufs@[i as int].base);
            assert(self.bufs@[i as int].units@ == old_self.bufs@[i as int].units@);
            assert(self.wf());
            assert(!self.is_live(h)) by {
                if self.is_live(h) {
                    let j = self.live_idx(h);
                    assert(self.bufs@[j].live && self.bufs@[j].base == h);
                    assert(j != i);
                    assert(old_self.bufs@[j].live && old_self.bufs@[j].base == h);
                    old_self.lemma_live_idx(j);
                }
            }
            assert(forall|h2: usize|
                h2 != h && old_self.is_live(h2) ==> #[trigger] self.is_live(h2) && self.contents(h2)
                    == old_self.contents(h2)) by {
                assert forall|h2: usize|
                    h2 != h && old_self.is_live(h2) implies #[trigger] self.is_live(h2)
                    && self.contents(h2) == old_self.contents(h2) by {
                    let k = old_self.live_idx(h2);
                    assert(k != i);
                    assert(self.bufs@[k].live && self.bufs@[k].base == h2);
                    self.lemma_live_idx(k);
                }
            }
            assert(forall|h2: usize| h2 != h && #[trigger] self.is_live(h2) ==> old_self.is_live(h2))
                by {
                assert forall|h2: usize| h2 != h && #[trigger] self.is_live(h2) implies old_self.is_live(
                    h2,
                ) by {
                    let k = self.live_idx(h2);
                    assert(k != i);
                    assert(old_self.bufs@[k].live && old_self.bufs@[k].base == h2);
                }
            }
            lemma_count_live_update(old_self.bufs@, i as int);
        }
    }
}

/// Turning one live buffer dead lowers the live count by one.
proof fn lemma_count_live_update(bufs: Seq<BstrBuf>, i: int)
    requires
        0 <= i < bufs.len(),
        bufs[i].live,
    ensures
        count_live(
            bufs.update(i, BstrBuf { live: false, ..bufs[i] }),
        ) + 1 == count_live(bufs),
    decreases bufs.len(),
{
    let updated = bufs.update(i, BstrBuf { live: false, ..bufs[i] });
    if i == bufs.len() - 1 {
        assert(updated.drop_last() =~= bufs.drop_last());
        assert(updated.last() == BstrBuf { live: false, ..bufs[i] });
    } else {
        lemma_count_live_update(bufs.drop_last(), i);
        assert(updated.drop_last() =~= bufs.drop_last().update(
            i,
            BstrBuf { live: false, ..bufs[i] },
        ));
        assert(updated.last() == bufs.last());
    }
}

/// Index of the first zero unit of a sequence (its length when none occurs).
pub open spec fn first_zero(s: Seq<u16>) -> int
    decreases s.len(),
{
    if s.len() == 0 {
        0
    } else if s[0] == 0 {
        0
    } else {
        1 + first_zero(s.drop_first())
    }
}

/// When a sequence contains a zero unit, `first_zero` names the least index
/// holding one.
pub proof fn lemma_first_zero(s: Seq<u16>)
    requires
        s.contains(0u16),
    ensures
        0 <= first_zero(s) < s.len(),
        s[first_zero(s)] == 0,
        forall|k: int| 0 <= k < first_zero(s) ==> s[k] != 0,
    decreases s.len(),
{
    if s[0] == 0 {
    } else {
        assert(s.drop_first().contains(0u16)) by {
            let w = choose|w: int| 0 <= w < s.len() && s[w] == 0;
            assert(s.drop_first()[w - 1] == 0);
        }
        lemma_first_zero(s.drop_first());
        assert(forall|k: int| 0 <= k < first_zero(s) - 1 ==> s.drop_first()[k] != 0);
        assert(forall|k: int| 1 <= k < first_zero(s) ==> s[k] == s.drop_first()[k - 1]);
    }
}

/// `first_zero` is the only index that is zero with no zero before it.
pub proof fn lemma_first_zero_unique(s: Seq<u16>, j: int)
    requires
        0 <= j < s.len(),
        s[j] == 0,
        forall|k: int| 0 <= k < j ==> s[k] != 0,
    ensures
        first_zero(s) == j,
    decreases j,
{
    if j == 0 {
    } else {
        assert(s[0] != 0);
        assert(forall|k: int| 0 <= k < j - 1 ==> s.drop_first()[k] == s[k + 1]);
        assert(s.drop_first()[j - 1] == 0);
        lemma_first_zero_unique(s.drop_first(), j - 1);
    }
}

/// Scans for a terminator: the index of the first zero unit, when there is one.
fn scan_terminator(units: &Vec<u16>) -> (r: Option<usize>)
    ensures
        match r {
            Some(i) => {
                &&& units@.contains(0u16)
                &&& i == first_zero(units@)
            },
            None => !units@.contains(0u16),
        },
{
    let n = units.len();
    let mut i: usize = 0;
    while i < n
        invariant
            i <= n,
            n == units@.len(),
            forall|k: int| 0 <= k < i ==> units@[k] != 0,
        decreases n - i,
    {
        if units[i] == 0 {
            proof {
                lemma_first_zero_unique(units@, i as int);
            }
            return Some(i);
        }
        i = i + 1;
    }
    proof {
        if units@.contains(0u16) {
            let w = choose|w: int| 0 <= w < units@.len() && units@[w] == 0;
            assert(units@[w] != 0);
        }
    }
    return None;
}

/// What a successful allocation guarantees: a fresh non-null live handle whose
/// contents are exactly `units`, one more live handle, six plus two bytes per
/// unit taken from the bump region, and every other handle untouched.
pub open spec fn alloc_post(
    old_heap: BstrHeap,
    new_heap: BstrHeap,
    r: Result<usize, SysAllocError>,
    units: Seq<u16>,
) -> bool {
    &&& r matches Ok(h) && h != 0 && !old_heap.is_live(h) && new_heap.is_live(h)
        && new_heap.contents(h) == units
    &&& new_heap.capacity() == old_heap.capacity()
    &&& new_heap.used() == old_heap.used() + 6 + 2 * units.len()
    &&& new_heap.live_handles() == old_heap.live_handles() + 1
    &&& forall|h2: usize|
        h2 != r->Ok_0 ==> (new_heap.is_live(h2) == old_heap.is_live(h2)) && (old_heap.is_live(h2)
            ==> new_heap.contents(h2) == old_heap.contents(h2))
}

/// What a successful reallocation guarantees: the allocation guarantees for the
/// new handle, the old handle dead, and every handle other than those two
/// untouched.
pub open spec fn realloc_post(
    old_heap: BstrHeap,
    new_heap: BstrHeap,
    r: Result<usize, SysAllocError>,
    bstr: usize,
    units: Seq<u16>,
) -> bool {
    &&& r matches Ok(h) && h != 0 && h != bstr && !old_heap.is_live(h) && new_heap.is_live(h)
        && new_heap.contents(h) == units
    &&& !new_heap.is_live(bstr)
    &&& new_heap.capacity() == old_heap.capacity()
    &&& new_heap.used() == old_heap.used() + 6 + 2 * units.len()
    &&& new_heap.live_handles() == old_heap.live_handles()
    &&& forall|h2: usize|
        h2 != r->Ok_0 && h2 != bstr ==> (new_heap.is_live(h2) == old_heap.is_live(h2)) && (
        old_heap.is_live(h2) ==> new_heap.contents(h2) == old_heap.contents(h2))
}

/// The byte extent of a live handle's buffer — length prefix and terminator
/// included — touches the byte range of the source.
pub open spec fn handle_overlaps_src(heap: BstrHeap, bstr: usize, src: Utf16Src) -> bool {
    let bs = bstr - 4;
    let be = bstr + 2 * heap.contents(bstr).len() + 1;
    let ss = src.base;
    let se = src.base + 2 * src.units@.len() - 1;
    &&& src.units@.len() > 0
    &&& src.units@.len() <= 0xFFFF_FFFF
    &&& bstr != 0
    &&& ((bs <= ss && ss <= be) || (ss <= bs && bs <= se))
}

/// Decides whether a source buffer touches a handle's backing buffer, the
/// four-byte length prefix and the two-byte terminator of the handle counted
/// in.  An empty or over-long source, or the null handle, never overlaps.
pub fn bstr_src_intersection(heap: &BstrHeap, bstr: usize, src: &Utf16Src) -> (r: bool)
    requires
        heap.wf(),
        bstr == 0 || heap.is_live(bstr),
        src.fits(),
    ensures
        r == handle_overlaps_src(*heap, bstr, *src),
{
    let len = src.units.len();
    if len == 0 || (len as u64) > 0xFFFF_FFFFu64 || bstr == 0 {
        return false;
    }
    let i = match heap.find(bstr) {
        Some(i) => i,
        None => {
            proof {
                assert(false);
            }
            0
        },
    };
    let l = heap.bufs[i].units.len();
    proof {
        assert(4 <= heap.bufs@[i as int].base && buf_end(heap.bufs@[i as int])
            <= heap.next_free);
    }
    let bs: u64 = (bstr as u64) - 4;
    let be: u64 = (bstr as u64) + 2 * (l as u64) + 1;
    let ss: u64 = src.base as u64;
    let se: u64 = ss + (2 * (len as u64) - 1);
    (bs <= ss && ss <= be) || (ss <= bs && bs <= se)
}

/// Allocates a new string handle from a terminated UTF-16 source, copying the
/// units before the first terminator.  A source with no terminator is refused;
/// a source starting with the terminator yields a zero-length handle.
#[allow(non_snake_case)]
pub fn SysAllocString(heap: &mut BstrHeap, src: &Utf16Src) -> (r: Result<usize, SysAllocError>)
    requires
        old(heap).wf(),
    ensures
        final(heap).wf(),
        final(heap).capacity() == old(heap).capacity(),
        !src.units@.contains(0u16) ==> r == Err::<usize, SysAllocError>(
            SysAllocError::NullTerminatedStringRequiredError,
        ) && *final(heap) == *old(heap),
        src.units@.contains(0u16) && !(first_zero(src.units@) <= 0xFFFF_FFFF && old(heap).can_alloc(first_zero(src.units@) as nat)) ==> r == Err::<usize, SysAllocError>(
            SysAllocError::BStrAllocationError,
        ) && *final(heap) == *old(heap),
        src.units@.contains(0u16) && first_zero(src.units@) <= 0xFFFF_FFFF && old(heap).can_alloc(first_zero(src.units@) as nat) ==> alloc_post(*old(heap), *final(heap), r, src.units@.take(first_zero(src.units@))),
{
    let fz = match scan_terminator(&src.units) {
        Some(i) => i,
        None => {
            return Err(SysAllocError::NullTerminatedStringRequiredError);
        },
    };
    proof {
        lemma_first_zero(src.units@);
    }
    if (fz as u64) > 0xFFFF_FFFFu64 {
        return Err(SysAllocError::BStrAllocationError);
    }
    heap.alloc_copy(&src.units, fz)
}

/// Allocates a new string handle copying every unit of the source, embedded
/// terminators included; the source may be empty and need not be terminated.
#[allow(non_snake_case)]
pub fn SysAllocStringLen(heap: &mut BstrHeap, src: &Utf16Src) -> (r: Result<usize, SysAllocError>)
    requires
        old(heap).wf(),
    ensures
        final(heap).wf(),
        final(heap).capacity() == old(heap).capacity(),
        src.units@.len() > 0xFFFF_FFFF ==> r == Err::<usize, SysAllocError>(
            SysAllocError::SourceStringTooLongError,
        ) && *final(heap) == *old(heap),
        src.units@.len() <= 0xFFFF_FFFF && !old(heap).can_alloc(src.units@.len()) ==> r == Err::<
            usize,
            SysAllocError,
        >(SysAllocError::BStrAllocationError) && *final(heap) == *old(heap),
        src.units@.len() <= 0xFFFF_FFFF && old(heap).can_alloc(src.units@.len()) ==> alloc_post(
            *old(heap),
            *final(heap),
            r,
            src.units@,
        ),
{
    let len = src.units.len();
    if (len as u64) > 0xFFFF_FFFFu64 {
        return Err(SysAllocError::SourceStringTooLongError);
    }
    let r = heap.alloc_copy(&src.units, len);
    proof {
        assert(src.units@.take(len as int) =~= src.units@);
    }
    r
}

/// Reallocates a live handle from a terminated UTF-16 source: on success the
/// returned handle holds the units before the first terminator and the old
/// handle is gone.  The null handle and a source overlapping the handle's
/// buffer are refused before anything is touched.
#[allow(non_snake_case)]
pub fn SysReAllocString(heap: &mut BstrHeap, bstr: usize, src: &Utf16Src) -> (r: Result<
    usize,
    SysAllocError,
>)
    requires
        old(heap).wf(),
        bstr == 0 || old(heap).is_live(bstr),
        src.fits(),
    ensures
        final(heap).wf(),
        final(heap).capacity() == old(heap).capacity(),
        bstr == 0 ==> r == Err::<usize, SysAllocError>(SysAllocError::InvalidPointerError) && *final(heap) == *old(heap),
        bstr != 0 && !src.units@.contains(0u16) ==> r == Err::<usize, SysAllocError>(
            SysAllocError::NullTerminatedStringRequiredError,
        ) && *final(heap) == *old(heap),
        bstr != 0 && src.units@.contains(0u16) && handle_overlaps_src(*old(heap), bstr, *src) ==> r
            == Err::<usize, SysAllocError>(SysAllocError::InvalidPointerError) && *final(heap)
            == *old(heap),
        bstr != 0 && src.units@.contains(0u16) && !handle_overlaps_src(*old(heap), bstr, *src) && !(
        first_zero(src.units@) <= 0xFFFF_FFFF && old(heap).can_alloc(first_zero(src.units@) as nat)) ==> r == Err::<usize, SysAllocError>(SysAllocError::BStrAllocationError) && *final(heap)
            == *old(heap),
        bstr != 0 && src.units@.contains(0u16) && !handle_overlaps_src(*old(heap), bstr, *src)
            && first_zero(src.units@) <= 0xFFFF_FFFF && old(heap).can_alloc(first_zero(src.units@) as nat) ==> realloc_post(
            *old(heap),
            *final(heap),
            r,
            bstr,
            src.units@.take(first_zero(src.units@)),
        ),
{
    if bstr == 0 {
        return Err(SysAllocError::InvalidPointerError);
    }
    let fz = match scan_terminator(&src.units) {
        Some(i) => i,
        None => {
            return Err(SysAllocError::NullTerminatedStringRequiredError);
        },
    };
    proof {
        lemma_first_zero(src.units@);
    }
    if bstr_src_intersection(heap, bstr, src) {
        return Err(SysAllocError::InvalidPointerError);
    }
    if (fz as u64) > 0xFFFF_FFFFu64 {
        return Err(SysAllocError::BStrAllocationError);
    }
    let new_h = match heap.alloc_copy(&src.units, fz) {
        Ok(h) => h,
        Err(e) => {
            return Err(e);
        },
    };
    heap.kill(bstr);
    Ok(new_h)
}

/// Reallocates a live handle copying every unit of the source, embedded
/// terminators included; an empty source yields a zero-length handle.  The
/// null handle and a source overlapping the handle's buffer are refused.
#[allow(non_snake_case)]
pub fn SysReAllocStringLen(heap: &mut BstrHeap, bstr: usize, src: &Utf16Src) -> (r: Result<
    usize,
    SysAllocError,
>)
    requires
        old(heap).wf(),
        bstr == 0 || old(heap).is_live(bstr),
        src.fits(),
    ensures
        final(heap).wf(),
        final(heap).capacity() == old(heap).capacity(),
        src.units@.len() > 0xFFFF_FFFF ==> r == Err::<usize, SysAllocError>(
            SysAllocError::SourceStringTooLongError,
        ) && *final(heap) == *old(heap),
        src.units@.len() <= 0xFFFF_FFFF && bstr == 0 ==> r == Err::<usize, SysAllocError>(
            SysAllocError::InvalidPointerError,
        ) && *final(heap) == *old(heap),
        src.units@.len() <= 0xFFFF_FFFF && bstr != 0 && handle_overlaps_src(*old(heap), bstr, *src)
            ==> r == Err::<usize, SysAllocError>(SysAllocError::InvalidPointerError) && *final(heap)
            == *old(heap),
        src.units@.len() <= 0xFFFF_FFFF && bstr != 0 && !handle_overlaps_src(
            *old(heap),
            bstr,
            *src,
        ) && !old(heap).can_alloc(src.units@.len()) ==> r == Err::<usize, SysAllocError>(
            SysAllocError::BStrAllocationError,
        ) && *final(heap) == *old(heap),
        src.units@.len() <= 0xFFFF_FFFF && bstr != 0 && !handle_overlaps_src(
            *old(heap),
            bstr,
            *src,
        ) && old(heap).can_alloc(src.units@.len()) ==> realloc_post(
            *old(heap),
            *final(heap),
            r,
            bstr,
            src.units@,
        ),
{
    let len = src.units.len();
    if (len as u64) > 0xFFFF_FFFFu64 {
        return Err(SysAllocError::SourceStringTooLongError);
    }
    if bstr == 0 {
        return Err(SysAllocError::InvalidPointerError);
    }
    if bstr_src_intersection(heap, bstr, src) {
        return Err(SysAllocError::InvalidPointerError);
    }
    let new_h = match heap.alloc_copy(&src.units, len) {
        Ok(h) => h,
        Err(e) => {
            return Err(e);
        },
    };
    heap.kill(bstr);
    proof {
        assert(src.units@.take(len as int) =~= src.units@);
    }
    Ok(new_h)
}

/// The length of a handle in code units, embedded terminators counted; the
/// null handle has length zero.
#[allow(non_snake_case)]
pub fn SysStringLen(heap: &BstrHeap, bstr: usize) -> (r: u32)
    requires
        heap.wf(),
        bstr == 0 || heap.is_live(bstr),
    ensures
        bstr == 0 ==> r == 0,
        bstr != 0 ==> r as nat == heap.contents(bstr).len(),
{
    if bstr == 0 {
        return 0;
    }
    let i = match heap.find(bstr) {
        Some(i) => i,
        None => {
            proof {
                assert(false);
            }
            0
        },
    };
    proof {
        assert(heap.bufs@[i as int].units@.len() <= 0xFFFF_FFFF);
    }
    units_len_u32(&heap.bufs[i].units)
}

/// The length of a unit buffer as the 32-bit length prefix records it.
fn units_len_u32(units: &Vec<u16>) -> (r: u32)
    requires
        units@.len() <= 0xFFFF_FFFF,
    ensures
        r as nat == units@.len(),
{
    units.len() as u32
}

/// Frees a live handle; the null handle is accepted and nothing happens.
#[allow(non_snake_case)]
pub fn SysFreeString(heap: &mut BstrHeap, bstr: usize)
    requires
        old(heap).wf(),
        bstr == 0 || old(heap).is_live(bstr),
    ensures
        final(heap).wf(),
        final(heap).capacity() == old(heap).capacity(),
        final(heap).used() == old(heap).used(),
        bstr == 0 ==> *final(heap) == *old(heap),
        bstr != 0 ==> !final(heap).is_live(bstr) && final(heap).live_handles() + 1 == old(heap).live_handles() && forall|h2: usize|
            h2 != bstr ==> (final(heap).is_live(h2) == old(heap).is_live(h2)) && (old(heap).is_live(h2) ==> final(heap).contents(h2) == old(heap).contents(h2)),
{
    if bstr != 0 {
        heap.kill(bstr);
    }
}

/// Allocating from a source that is the encoding of a terminator-free text,
/// then a terminator, then anything, keeps exactly that text: the handle's
/// length is the terminator's position and decoding the kept units gives the
/// text back unchanged.
pub proof fn lemma_alloc_string_prefix(t: Seq<char>, rest: Seq<u16>)
    requires
        !t.contains('\u{0000}'),
    ensures
        ({
            let s = encode16(t) + seq![0u16] + rest;
            &&& s.contains(0u16)
            &&& first_zero(s) == encode16(t).len()
            &&& s.take(first_zero(s)) == encode16(t)
            &&& decode16(s.take(first_zero(s))) == t
        }),
{
    let e = encode16(t);
    let s = e + seq![0u16] + rest;
    lemma_encode16_zero_free(t);
    assert(s[e.len() as int] == 0);
    assert(s.contains(0u16));
    assert(forall|k: int| 0 <= k < e.len() ==> s[k] == e[k]);
    lemma_first_zero_unique(s, e.len() as int);
    assert(s.take(e.len() as int) =~= e);
    lemma_utf16_round_trip(t);
}

} // verus!
