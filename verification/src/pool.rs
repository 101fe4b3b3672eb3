//! Buffer slot pool: partitions a resizable backing region into reusable
//! byte-range slots, matches or reshapes slots to requested frame dimensions,
//! and tracks which slots the presentation layer still holds.

use vstd::prelude::*;

use crate::dims::{spec_byte_len, spec_stride, size_fits, Dimensions};

verus! {

/// Mathematical model of one slot: a byte range of the backing region,
/// the frame shape it currently holds, whether the presentation layer
/// still owns it (`busy`), and whether a presentation-side buffer object
/// is currently bound to it (`bound`).
pub struct SlotView {
    pub offset: nat,
    pub len: nat,
    pub width: nat,
    pub height: nat,
    pub busy: bool,
    pub bound: bool,
}

/// Mathematical model of the pool: the slot sequence in allocation order,
/// the number of bytes handed out to slots, and the backing bytes
/// (whose length is the region's capacity).
#[verifier::ext_equal]
pub struct PoolView {
    pub slots: Seq<SlotView>,
    pub used: nat,
    pub bytes: Seq<u8>,
}

/// Total byte length of the first `n` slots.
pub open spec fn sum_lens(slots: Seq<SlotView>, n: int) -> nat
    decreases n,
{
    if n <= 0 {
        0
    } else {
        sum_lens(slots, n - 1) + slots[n - 1].len
    }
}

/// One slot is internally consistent: a real frame shape whose byte
/// length is the slot's byte length.
pub open spec fn slot_wf(s: SlotView) -> bool {
    &&& s.width >= 1
    &&& s.height >= 1
    &&& size_fits(s.width, s.height)
    &&& s.len == spec_byte_len(s.width, s.height)
}

/// Pool invariant: slots are laid out back to back from offset zero, so
/// their byte ranges are pairwise disjoint; the handed-out length is the
/// sum of all slot lengths and never exceeds the region's capacity.
pub open spec fn pool_wf(p: PoolView) -> bool {
    &&& p.used <= p.bytes.len() <= usize::MAX
    &&& forall|i: int| 0 <= i < p.slots.len() ==> slot_wf(#[trigger] p.slots[i])
    &&& forall|i: int|
        0 <= i < p.slots.len() ==> (#[trigger] p.slots[i]).offset == sum_lens(p.slots, i)
    &&& p.used == sum_lens(p.slots, p.slots.len() as int)
}

/// A pool stays well formed under any change that keeps every slot's
/// byte range, the handed-out length, and the capacity.
proof fn lemma_wf_ranges_kept(pre: PoolView, post: PoolView)
    requires
        pool_wf(pre),
        post.slots.len() == pre.slots.len(),
        forall|k: int|
            0 <= k < pre.slots.len() ==> (#[trigger] post.slots[k]).len == pre.slots[k].len
                && post.slots[k].offset == pre.slots[k].offset && slot_wf(post.slots[k]),
        post.used == pre.used,
        post.bytes.len() == pre.bytes.len(),
    ensures
        pool_wf(post),
{
    assert forall|k: int|
        0 <= k < post.slots.len() implies (#[trigger] post.slots[k]).offset == sum_lens(
        post.slots,
        k,
    ) by {
        lemma_sum_lens_agree(pre.slots, post.slots, k);
    }
    lemma_sum_lens_agree(pre.slots, post.slots, pre.slots.len() as int);
}

proof fn lemma_sum_lens_agree(s1: Seq<SlotView>, s2: Seq<SlotView>, n: int)
    requires
        0 <= n <= s1.len(),
        n <= s2.len(),
        forall|i: int| 0 <= i < n ==> (#[trigger] s1[i]).len == s2[i].len,
    ensures
        sum_lens(s1, n) == sum_lens(s2, n),
    decreases n,
{
    if n > 0 {
        lemma_sum_lens_agree(s1, s2, n - 1);
    }
}

proof fn lemma_sum_lens_mono(s: Seq<SlotView>, a: int, b: int)
    requires
        0 <= a <= b,
    ensures
        sum_lens(s, a) <= sum_lens(s, b),
    decreases b,
{
    if a < b {
        lemma_sum_lens_mono(s, a, b - 1);
    }
}

/// Every slot's byte range lies inside the handed-out prefix of the region.
pub proof fn lemma_slot_in_bounds(p: PoolView, i: int)
    requires
        pool_wf(p),
        0 <= i < p.slots.len(),
    ensures
        p.slots[i].offset + p.slots[i].len <= p.used,
{
    lemma_sum_lens_mono(p.slots, i + 1, p.slots.len() as int);
}

/// Two byte ranges that do not overlap.
pub open spec fn ranges_disjoint(a: SlotView, b: SlotView) -> bool {
    a.offset + a.len <= b.offset || b.offset + b.len <= a.offset
}

/// Disjointness invariant: in a well-formed pool the byte ranges of any
/// two distinct slots never overlap, whatever sequence of acquire and
/// release operations produced the pool.
pub proof fn lemma_slots_disjoint(p: PoolView)
    requires
        pool_wf(p),
    ensures
        forall|i: int, j: int|
            0 <= i < p.slots.len() && 0 <= j < p.slots.len() && i != j ==> ranges_disjoint(
                #[trigger] p.slots[i],
                #[trigger] p.slots[j],
            ),
{
    assert forall|i: int, j: int|
        0 <= i < p.slots.len() && 0 <= j < p.slots.len() && i != j implies ranges_disjoint(
        #[trigger] p.slots[i],
        #[trigger] p.slots[j],
    ) by {
        if i < j {
            lemma_sum_lens_mono(p.slots, i + 1, j);
        } else {
            lemma_sum_lens_mono(p.slots, j + 1, i);
        }
    }
}

/// A free slot already holding exactly the requested frame shape.
pub open spec fn avail_dims(s: SlotView, w: nat, h: nat) -> bool {
    !s.busy && s.width == w && s.height == h
}

/// A free slot whose byte range is exactly as long as the requested
/// frame, so it can be reshaped in place.
pub open spec fn avail_len(s: SlotView, w: nat, h: nat) -> bool {
    !s.busy && s.len == spec_byte_len(w, h)
}

/// No slot can be reused as it stands for the requested shape.
pub open spec fn no_dims_match(slots: Seq<SlotView>, w: nat, h: nat) -> bool {
    forall|j: int| 0 <= j < slots.len() ==> !avail_dims(#[trigger] slots[j], w, h)
}

/// No slot can be reshaped in place for the requested shape.
pub open spec fn no_len_match(slots: Seq<SlotView>, w: nat, h: nat) -> bool {
    forall|j: int| 0 <= j < slots.len() ==> !avail_len(#[trigger] slots[j], w, h)
}

/// `post` is `pre` with the byte range `[off, off + len)` zeroed and every
/// other byte untouched.
pub open spec fn zero_filled(pre: Seq<u8>, post: Seq<u8>, off: nat, len: nat) -> bool {
    &&& post.len() == pre.len()
    &&& forall|i: int| off <= i < off + len ==> #[trigger] post[i] == 0
    &&& forall|i: int| 0 <= i < pre.len() && !(off <= i < off + len) ==> #[trigger] post[i]
        == pre[i]
}

/// Capacity after making room for `needed` bytes: unchanged while
/// sufficient, otherwise at least doubled (geometric growth), saturating
/// at the largest representable size.
pub open spec fn grow_cap(cap: nat, needed: nat) -> nat {
    if needed <= cap {
        cap
    } else {
        let doubled: nat = if cap > usize::MAX as nat / 2 {
            usize::MAX as nat
        } else {
            2 * cap
        };
        if doubled >= needed {
            doubled
        } else {
            needed
        }
    }
}

/// Acquisition reused the first free slot whose shape already matches:
/// nothing is laid out anew, the slot's byte range is zeroed.
pub open spec fn reuse_case(pre: PoolView, post: PoolView, r: int, w: nat, h: nat) -> bool {
    &&& 0 <= r < pre.slots.len()
    &&& avail_dims(pre.slots[r], w, h)
    &&& forall|j: int| 0 <= j < r ==> !avail_dims(#[trigger] pre.slots[j], w, h)
    &&& post.slots == pre.slots.update(r, SlotView { bound: true, ..pre.slots[r] })
    &&& post.used == pre.used
    &&& zero_filled(pre.bytes, post.bytes, pre.slots[r].offset, pre.slots[r].len)
}

/// Acquisition reshaped the first free slot of equal byte length: its byte
/// range and offset are kept, its reported shape changes, the buffer
/// object bound to the old shape is dropped and a fresh one is bound.
pub open spec fn reshape_case(pre: PoolView, post: PoolView, r: int, w: nat, h: nat) -> bool {
    &&& no_dims_match(pre.slots, w, h)
    &&& 0 <= r < pre.slots.len()
    &&& avail_len(pre.slots[r], w, h)
    &&& forall|j: int| 0 <= j < r ==> !avail_len(#[trigger] pre.slots[j], w, h)
    &&& post.slots == pre.slots.update(
        r,
        SlotView { width: w, height: h, bound: true, ..pre.slots[r] },
    )
    &&& post.used == pre.used
    &&& zero_filled(pre.bytes, post.bytes, pre.slots[r].offset, pre.slots[r].len)
}

/// Acquisition appended a new slot at the end of the handed-out prefix,
/// growing the backing region if needed; existing slots and their bytes
/// are untouched, existing offsets in particular are preserved.
pub open spec fn append_case(pre: PoolView, post: PoolView, r: int, w: nat, h: nat) -> bool {
    let l = spec_byte_len(w, h);
    &&& no_dims_match(pre.slots, w, h)
    &&& no_len_match(pre.slots, w, h)
    &&& pre.used + l <= usize::MAX
    &&& r == pre.slots.len()
    &&& post.slots == pre.slots.push(
        SlotView { offset: pre.used, len: l, width: w, height: h, busy: false, bound: true },
    )
    &&& post.used == pre.used + l
    &&& post.bytes.len() == grow_cap(pre.bytes.len(), pre.used + l)
    &&& forall|i: int| 0 <= i < pre.used ==> #[trigger] post.bytes[i] == pre.bytes[i]
    &&& forall|i: int| pre.used <= i < pre.used + l ==> #[trigger] post.bytes[i] == 0
    &&& forall|i: int|
        pre.used + l <= i < post.bytes.len() ==> #[trigger] post.bytes[i] == (if i
            < pre.bytes.len() {
            pre.bytes[i]
        } else {
            0
        })
}

/// What a successful acquisition does: exactly one of reuse, in-place
/// reshape, or append, tried in that order.
pub open spec fn acquire_ok(pre: PoolView, post: PoolView, r: int, w: nat, h: nat) -> bool {
    ||| reuse_case(pre, post, r, w, h)
    ||| reshape_case(pre, post, r, w, h)
    ||| append_case(pre, post, r, w, h)
}

/// When acquisition must fail: the frame itself cannot be laid out in
/// memory, or no slot can serve it and appending one would overflow the
/// addressable region.
pub open spec fn acquire_fails(pre: PoolView, w: nat, h: nat) -> bool {
    ||| !size_fits(w, h)
    ||| (no_dims_match(pre.slots, w, h) && no_len_match(pre.slots, w, h) && pre.used
        + spec_byte_len(w, h) > usize::MAX)
}

/// Fatal conditions of the pool; none of them is recoverable.
#[derive(Clone, Copy, Debug, PartialEq, Eq, Structural)]
pub enum PoolError {
    /// Arithmetic overflow while sizing a buffer: real display dimensions
    /// never reach this, so it indicates a programming error in the caller.
    SizeOverflow,
}

/// One slot of the pool. The byte range `[offset, offset + len)` is stable
/// for the slot's whole lifetime; only its frame shape, its `busy` flag and
/// its binding to a presentation-side buffer object ever change.
#[derive(Clone, Copy, Debug)]
pub struct BufferSlot {
    offset: usize,
    len: usize,
    dimensions: Dimensions,
    busy: bool,
    bound: bool,
}

impl View for BufferSlot {
    type V = SlotView;

    closed spec fn view(&self) -> SlotView {
        SlotView {
            offset: self.offset as nat,
            len: self.len as nat,
            width: self.dimensions.width as nat,
            height: self.dimensions.height as nat,
            busy: self.busy,
            bound: self.bound,
        }
    }
}

impl BufferSlot {
    fn new(offset: usize, dimensions: Dimensions) -> (r: BufferSlot)
        requires
            size_fits(dimensions.width as nat, dimensions.height as nat),
        ensures
            r@ == (SlotView {
                offset: offset as nat,
                len: spec_byte_len(dimensions.width as nat, dimensions.height as nat),
                width: dimensions.width as nat,
                height: dimensions.height as nat,
                busy: false,
                bound: false,
            }),
    {
        BufferSlot { offset, len: dimensions.len(), dimensions, busy: false, bound: false }
    }

    /// Height in pixels of the frame this slot currently holds.
    pub fn height(&self) -> (r: u32)
        ensures
            r == self@.height,
    {
        self.dimensions.height
    }

    /// Width in pixels of the frame this slot currently holds.
    pub fn width(&self) -> (r: u32)
        ensures
            r == self@.width,
    {
        self.dimensions.width
    }

    /// Bytes per row of the frame this slot currently holds.
    pub fn stride(&self) -> (r: u32)
        requires
            spec_stride(self@.width) <= u32::MAX,
        ensures
            r == spec_stride(self@.width),
    {
        self.dimensions.stride()
    }

    /// Start of this slot's byte range within the backing region.
    pub fn offset(&self) -> (r: usize)
        ensures
            r == self@.offset,
    {
        self.offset
    }

    /// Length in bytes of this slot's byte range.
    pub fn byte_len(&self) -> (r: usize)
        ensures
            r == self@.len,
    {
        self.len
    }

    /// Whether the presentation layer still owns this slot.
    pub fn is_busy(&self) -> (r: bool)
        ensures
            r == self@.busy,
    {
        self.busy
    }

    /// Whether a presentation-side buffer object is bound to this slot.
    pub fn is_bound(&self) -> (r: bool)
        ensures
            r == self@.bound,
    {
        self.bound
    }

    /// Ensures a presentation-side buffer object exists for this slot's
    /// current shape; creating one is the presentation layer's job, the
    /// pool only records that it is in place.
    fn init_buffer(&mut self)
        ensures
            final(self)@ == (SlotView { bound: true, ..old(self)@ }),
    {
        self.bound = true;
    }

    /// Reshapes a free slot of equal byte length to a new frame shape,
    /// dropping the buffer object bound to the old shape; a busy slot or a
    /// slot of a different byte length is left untouched.
    fn transform(&mut self, dimensions: Dimensions) -> (changed: bool)
        requires
            size_fits(dimensions.width as nat, dimensions.height as nat),
        ensures
            changed == (!old(self)@.busy && old(self)@.len == spec_byte_len(
                dimensions.width as nat,
                dimensions.height as nat,
            )),
            changed ==> final(self)@ == (SlotView {
                width: dimensions.width as nat,
                height: dimensions.height as nat,
                bound: false,
                ..old(self)@
            }),
            !changed ==> final(self)@ == old(self)@,
    {
        if !self.busy && dimensions.len() == self.len {
            self.bound = false;
            self.dimensions = dimensions;
            true
        } else {
            false
        }
    }
}

/// The slot pool: a backing byte region (the shared memory, modelled here
/// as the bytes it holds) carved into slots in allocation order.
pub struct BufferSlotPool {
    len: usize,
    region: Vec<u8>,
    buffers: Vec<BufferSlot>,
}

impl View for BufferSlotPool {
    type V = PoolView;

    closed spec fn view(&self) -> PoolView {
        PoolView {
            slots: self.buffers@.map_values(|b: BufferSlot| b@),
            used: self.len as nat,
            bytes: self.region@,
        }
    }
}

/// Appends zero bytes until the vector reaches `new_len`.
fn extend_zeroed(v: &mut Vec<u8>, new_len: usize)
    requires
        old(v)@.len() <= new_len,
    ensures
        final(v)@.len() == new_len,
        forall|i: int| 0 <= i < old(v)@.len() ==> final(v)@[i] == old(v)@[i],
        forall|i: int| old(v)@.len() <= i < new_len ==> final(v)@[i] == 0,
{
    while v.len() < new_len
        invariant
            old(v)@.len() <= v@.len() <= new_len,
            forall|i: int| 0 <= i < old(v)@.len() ==> v@[i] == old(v)@[i],
            forall|i: int| old(v)@.len() <= i < v@.len() ==> v@[i] == 0,
        decreases new_len - v@.len(),
    {
        v.push(0u8);
    }
}

/// Overwrites the byte range `[off, off + len)` with zeroes.
fn zero_range(v: &mut Vec<u8>, off: usize, len: usize)
    requires
        off + len <= old(v)@.len(),
    ensures
        final(v)@.len() == old(v)@.len(),
        forall|i: int| off <= i < off + len ==> final(v)@[i] == 0,
        forall|i: int|
            0 <= i < old(v)@.len() && !(off <= i < off + len) ==> final(v)@[i] == old(v)@[i],
{
    let n = v.len();
    let mut k: usize = 0;
    while k < len
        invariant
            k <= len,
            off + len <= n,
            n == v@.len(),
            v@.len() == old(v)@.len(),
            forall|i: int| off <= i < off + k ==> v@[i] == 0,
            forall|i: int| 0 <= i < v@.len() && !(off <= i < off + k) ==> v@[i] == old(v)@[i],
        decreases len - k,
    {
        v.set(off + k, 0u8);
        k = k + 1;
    }
}

impl BufferSlotPool {
    /// Creates a pool over a fresh zero-filled backing region of `len` bytes,
    /// with no slots carved out yet.
    pub fn create(len: usize) -> (r: BufferSlotPool)
        ensures
            pool_wf(r@),
            r@.slots.len() == 0,
            r@.used == 0,
            r@.bytes.len() == len,
            forall|i: int| 0 <= i < len ==> r@.bytes[i] == 0,
    {
        let mut region: Vec<u8> = Vec::new();
        extend_zeroed(&mut region, len);
        let r = BufferSlotPool { len: 0, region, buffers: Vec::new() };
        proof {
            assert(r@.slots =~= Seq::<SlotView>::empty());
        }
        r
    }

    /// Bytes of the region handed out to slots so far.
    pub fn len(&self) -> (r: usize)
        ensures
            r == self@.used,
    {
        self.len
    }

    /// Current capacity of the backing region.
    pub fn capacity(&self) -> (r: usize)
        ensures
            r == self@.bytes.len(),
    {
        self.region.len()
    }

    /// Number of slots carved out of the region.
    pub fn slot_count(&self) -> (r: usize)
        ensures
            r == self@.slots.len(),
    {
        self.buffers.len()
    }

    /// The slot at index `i`.
    pub fn slot(&self, i: usize) -> (r: &BufferSlot)
        requires
            i < self@.slots.len(),
        ensures
            r@ == self@.slots[i as int],
    {
        &self.buffers[i]
    }

    /// First free slot whose frame shape equals the requested one.
    fn find_dims_match(&self, dims: Dimensions) -> (r: Option<usize>)
        ensures
            match r {
                Some(i) => i < self@.slots.len() && avail_dims(
                    self@.slots[i as int],
                    dims.width as nat,
                    dims.height as nat,
                ) && forall|j: int|
                    0 <= j < i ==> !avail_dims(
                        #[trigger] self@.slots[j],
                        dims.width as nat,
                        dims.height as nat,
                    ),
                None => no_dims_match(self@.slots, dims.width as nat, dims.height as nat),
            },
    {
        let n = self.buffers.len();
        let mut k: usize = 0;
        while k < n
            invariant
                k <= n,
                n == self@.slots.len(),
                forall|j: int|
                    0 <= j < k ==> !avail_dims(
                        #[trigger] self@.slots[j],
                        dims.width as nat,
                        dims.height as nat,
                    ),
            decreases n - k,
        {
            let b = &self.buffers[k];
            if !b.busy && b.dimensions.width == dims.width && b.dimensions.height == dims.height {
                return Some(k);
            }
            k = k + 1;
        }
        None
    }

    /// First free slot whose byte length equals `target`, the byte length
    /// of the requested frame shape.
    fn find_len_match(&self, dims: Dimensions, target: usize) -> (r: Option<usize>)
        requires
            target == spec_byte_len(dims.width as nat, dims.height as nat),
        ensures
            match r {
                Some(i) => i < self@.slots.len() && avail_len(
                    self@.slots[i as int],
                    dims.width as nat,
                    dims.height as nat,
                ) && forall|j: int|
                    0 <= j < i ==> !avail_len(
                        #[trigger] self@.slots[j],
                        dims.width as nat,
                        dims.height as nat,
                    ),
                None => no_len_match(self@.slots, dims.width as nat, dims.height as nat),
            },
    {
        let n = self.buffers.len();
        let mut k: usize = 0;
        while k < n
            invariant
                k <= n,
                n == self@.slots.len(),
                target == spec_byte_len(dims.width as nat, dims.height as nat),
                forall|j: int|
                    0 <= j < k ==> !avail_len(
                        #[trigger] self@.slots[j],
                        dims.width as nat,
                        dims.height as nat,
                    ),
            decreases n - k,
        {
            let b = &self.buffers[k];
            if !b.busy && b.len == target {
                return Some(k);
            }
            k = k + 1;
        }
        None
    }

    /// Appends a new slot at the end of the handed-out prefix, growing the
    /// backing region geometrically when it is too small. The new slot is
    /// not yet bound to a presentation buffer and its bytes are not yet
    /// cleared; `get_next_buffer` does both.
    fn push(&mut self, dimensions: Dimensions) -> (r: Result<usize, PoolError>)
        requires
            pool_wf(old(self)@),
            dimensions.width >= 1,
            dimensions.height >= 1,
            size_fits(dimensions.width as nat, dimensions.height as nat),
        ensures
            pool_wf(final(self)@),
            match r {
                Ok(i) => {
                    let l = spec_byte_len(dimensions.width as nat, dimensions.height as nat);
                    &&& old(self)@.used + l <= usize::MAX
                    &&& i == old(self)@.slots.len()
                    &&& final(self)@.slots == old(self)@.slots.push(
                        SlotView {
                            offset: old(self)@.used,
                            len: l,
                            width: dimensions.width as nat,
                            height: dimensions.height as nat,
                            busy: false,
                            bound: false,
                        },
                    )
                    &&& final(self)@.used == old(self)@.used + l
                    &&& final(self)@.bytes.len() == grow_cap(
                        old(self)@.bytes.len(),
                        old(self)@.used + l,
                    )
                    &&& forall|b: int|
                        0 <= b < old(self)@.bytes.len() ==> #[trigger] final(self)@.bytes[b]
                            == old(self)@.bytes[b]
                    &&& forall|b: int|
                        old(self)@.bytes.len() <= b < final(self)@.bytes.len()
                            ==> #[trigger] final(self)@.bytes[b] == 0
                },
                Err(e) => {
                    &&& *final(self) == *old(self)
                    &&& e == PoolError::SizeOverflow
                    &&& old(self)@.used + spec_byte_len(
                        dimensions.width as nat,
                        dimensions.height as nat,
                    ) > usize::MAX
                },
            },
    {
        let l = dimensions.len();
        let needed = match self.len.checked_add(l) {
            None => {
                return Err(PoolError::SizeOverflow);
            },
            Some(n) => n,
        };
        if needed > self.region.len() {
            let cap = self.region.len();
            let doubled = if cap > usize::MAX / 2 {
                usize::MAX
            } else {
                cap * 2
            };
            let new_cap = if doubled >= needed {
                doubled
            } else {
                needed
            };
            extend_zeroed(&mut self.region, new_cap);
        }
        let slot = BufferSlot::new(self.len, dimensions);
        let idx = self.buffers.len();
        self.len = needed;
        self.buffers.push(slot);
        proof {
            let ghost pre = old(self)@;
            let ghost post = self@;
            let ghost sv = slot@;
            assert(post.slots =~= pre.slots.push(sv));
            assert forall|k: int| 0 <= k < post.slots.len() implies slot_wf(
                #[trigger] post.slots[k],
            ) by {
                if k < pre.slots.len() {
                    assert(post.slots[k] == pre.slots[k]);
                }
            }
            assert forall|k: int|
                0 <= k < post.slots.len() implies (#[trigger] post.slots[k]).offset == sum_lens(
                post.slots,
                k,
            ) by {
                lemma_sum_lens_agree(pre.slots, post.slots, k);
            }
            lemma_sum_lens_agree(pre.slots, post.slots, pre.slots.len() as int);
        }
        Ok(idx)
    }

    /// Hands out a buffer of the requested frame shape: reuses a free slot
    /// of the same shape, else reshapes a free slot of the same byte
    /// length, else appends a new slot, growing the region as needed. The
    /// chosen slot's bytes are zeroed so no stale pixels leak across
    /// reuse, and a presentation buffer object is bound to it. The caller
    /// must reject zero-sized frames before asking.
    #[verifier::rlimit(100)]
    pub fn get_next_buffer(&mut self, width: u32, height: u32) -> (r: Result<usize, PoolError>)
        requires
            pool_wf(old(self)@),
            width >= 1,
            height >= 1,
        ensures
            pool_wf(final(self)@),
            match r {
                Ok(i) => acquire_ok(old(self)@, final(self)@, i as int, width as nat, height as nat)
                    && !acquire_fails(old(self)@, width as nat, height as nat),
                Err(e) => *final(self) == *old(self) && e == PoolError::SizeOverflow
                    && acquire_fails(old(self)@, width as nat, height as nat),
            },
    {
        let dims = Dimensions { width, height };
        let l = match dims.checked_len() {
            None => {
                return Err(PoolError::SizeOverflow);
            },
            Some(l) => l,
        };
        if let Some(i) = self.find_dims_match(dims) {
            proof {
                lemma_slot_in_bounds(self@, i as int);
            }
            let off = self.buffers[i].offset;
            let slen = self.buffers[i].len;
            let mut b = self.buffers[i];
            b.init_buffer();
            self.buffers.set(i, b);
            zero_range(&mut self.region, off, slen);
            proof {
                let ghost pre = old(self)@;
                let ghost post = self@;
                assert(post.slots =~= pre.slots.update(
                    i as int,
                    SlotView { bound: true, ..pre.slots[i as int] },
                ));
                lemma_wf_ranges_kept(pre, post);
            }
            return Ok(i);
        }
        if let Some(i) = self.find_len_match(dims, l) {
            proof {
                lemma_slot_in_bounds(self@, i as int);
            }
            let off = self.buffers[i].offset;
            let slen = self.buffers[i].len;
            let mut b = self.buffers[i];
            let changed = b.transform(dims);
            proof {
                assert(changed);
            }
            b.init_buffer();
            self.buffers.set(i, b);
            zero_range(&mut self.region, off, slen);
            proof {
                let ghost pre = old(self)@;
                let ghost post = self@;
                assert(post.slots =~= pre.slots.update(
                    i as int,
                    SlotView {
                        width: width as nat,
                        height: height as nat,
                        bound: true,
                        ..pre.slots[i as int]
                    },
                ));
                lemma_wf_ranges_kept(pre, post);
            }
            return Ok(i);
        }
        let i = match self.push(dims) {
            Err(e) => {
                return Err(e);
            },
            Ok(i) => i,
        };
        let ghost mid = self@;
        proof {
            lemma_slot_in_bounds(self@, i as int);
        }
        let off = self.buffers[i].offset;
        let slen = self.buffers[i].len;
        let mut b = self.buffers[i];
        b.init_buffer();
        self.buffers.set(i, b);
        zero_range(&mut self.region, off, slen);
        proof {
            let ghost pre = old(self)@;
            let ghost post = self@;
            assert(post.slots =~= mid.slots.update(
                i as int,
                SlotView { bound: true, ..mid.slots[i as int] },
            ));
            assert(post.slots =~= pre.slots.push(
                SlotView {
                    offset: pre.used,
                    len: spec_byte_len(width as nat, height as nat),
                    width: width as nat,
                    height: height as nat,
                    busy: false,
                    bound: true,
                },
            ));
            assert forall|k: int| 0 <= k < post.slots.len() implies slot_wf(
                #[trigger] post.slots[k],
            ) by {}
            assert forall|k: int|
                0 <= k < post.slots.len() implies (#[trigger] post.slots[k]).offset == sum_lens(
                post.slots,
                k,
            ) by {
                lemma_sum_lens_agree(pre.slots, post.slots, k);
            }
            lemma_sum_lens_agree(pre.slots, post.slots, pre.slots.len() as int);
            assert(append_case(pre, post, i as int, width as nat, height as nat));
        }
        Ok(i)
    }

    /// Hand-off to the presentation layer: marks the slot busy, so it will
    /// not be reused or reshaped until the presentation layer releases it.
    /// The slot must already have a presentation buffer bound to it.
    pub fn attach_to_surface(&mut self, i: usize)
        requires
            pool_wf(old(self)@),
            i < old(self)@.slots.len(),
            old(self)@.slots[i as int].bound,
        ensures
            pool_wf(final(self)@),
            final(self)@.slots == old(self)@.slots.update(
                i as int,
                SlotView { busy: true, ..old(self)@.slots[i as int] },
            ),
            final(self)@.used == old(self)@.used,
            final(self)@.bytes == old(self)@.bytes,
    {
        let mut b = self.buffers[i];
        b.busy = true;
        self.buffers.set(i, b);
        proof {
            let ghost pre = old(self)@;
            let ghost post = self@;
            assert(post.slots =~= pre.slots.update(
                i as int,
                SlotView { busy: true, ..pre.slots[i as int] },
            ));
            lemma_wf_ranges_kept(pre, post);
        }
    }

    /// Release notification from the presentation layer: the slot is free
    /// to be reused. A notification for a slot that is already free is a
    /// harmless no-op.
    pub fn release(&mut self, i: usize)
        requires
            pool_wf(old(self)@),
            i < old(self)@.slots.len(),
        ensures
            pool_wf(final(self)@),
            final(self)@.slots == old(self)@.slots.update(
                i as int,
                SlotView { busy: false, ..old(self)@.slots[i as int] },
            ),
            final(self)@.used == old(self)@.used,
            final(self)@.bytes == old(self)@.bytes,
    {
        let mut b = self.buffers[i];
        b.busy = false;
        self.buffers.set(i, b);
        proof {
            let ghost pre = old(self)@;
            let ghost post = self@;
            assert(post.slots =~= pre.slots.update(
                i as int,
                SlotView { busy: false, ..pre.slots[i as int] },
            ));
            lemma_wf_ranges_kept(pre, post);
        }
    }

    /// Writes one byte at offset `off` inside slot `i`'s byte range. Only
    /// slots not owned by the presentation layer may be written.
    pub fn write_byte(&mut self, i: usize, off: usize, b: u8)
        requires
            pool_wf(old(self)@),
            i < old(self)@.slots.len(),
            off < old(self)@.slots[i as int].len,
            !old(self)@.slots[i as int].busy,
        ensures
            pool_wf(final(self)@),
            final(self)@.slots == old(self)@.slots,
            final(self)@.used == old(self)@.used,
            final(self)@.bytes == old(self)@.bytes.update(
                old(self)@.slots[i as int].offset + off,
                b,
            ),
    {
        proof {
            lemma_slot_in_bounds(self@, i as int);
        }
        let pos = self.buffers[i].offset + off;
        self.region.set(pos, b);
    }

    /// Reads one byte at offset `off` inside slot `i`'s byte range.
    pub fn read_byte(&self, i: usize, off: usize) -> (r: u8)
        requires
            pool_wf(self@),
            i < self@.slots.len(),
            off < self@.slots[i as int].len,
        ensures
            r == self@.bytes[self@.slots[i as int].offset + off],
    {
        proof {
            lemma_slot_in_bounds(self@, i as int);
        }
        let pos = self.buffers[i].offset + off;
        self.region[pos]
    }
}

/// What any acquisition guarantees about the slot it returns: it holds the
/// requested shape, its byte length is exactly the frame's, it is free, a
/// presentation buffer is bound to it, and its whole byte range is zeroed.
pub proof fn lemma_acquired_slot(pre: PoolView, post: PoolView, r: int, w: nat, h: nat)
    requires
        pool_wf(pre),
        acquire_ok(pre, post, r, w, h),
    ensures
        0 <= r < post.slots.len(),
        post.slots[r].width == w,
        post.slots[r].height == h,
        post.slots[r].len == spec_byte_len(w, h),
        !post.slots[r].busy,
        post.slots[r].bound,
        forall|k: int|
            post.slots[r].offset <= k < post.slots[r].offset + post.slots[r].len
                ==> #[trigger] post.bytes[k] == 0,
{
}

/// Acquisition never moves a slot: every byte range handed out earlier
/// keeps its offset and its length, also across growth of the region.
pub proof fn lemma_offsets_stable(pre: PoolView, post: PoolView, r: int, w: nat, h: nat)
    requires
        acquire_ok(pre, post, r, w, h),
    ensures
        post.slots.len() >= pre.slots.len(),
        forall|i: int|
            0 <= i < pre.slots.len() && i != r ==> #[trigger] post.slots[i]
                == pre.slots[i],
        forall|i: int|
            0 <= i < pre.slots.len() ==> (#[trigger] post.slots[i]).offset
                == pre.slots[i].offset && post.slots[i].len == pre.slots[i].len,
{
}

/// Growth property: an acquisition that no existing slot can serve, and
/// whose bytes exceed the region's capacity, at least doubles the capacity
/// (as far as the address space allows) while leaving every existing slot's
/// offset unchanged.
pub proof fn lemma_growth(pre: PoolView, post: PoolView, r: int, w: nat, h: nat)
    requires
        pool_wf(pre),
        acquire_ok(pre, post, r, w, h),
        no_dims_match(pre.slots, w, h),
        no_len_match(pre.slots, w, h),
        pre.used + spec_byte_len(w, h) > pre.bytes.len(),
        2 * pre.bytes.len() <= usize::MAX,
    ensures
        post.bytes.len() >= 2 * pre.bytes.len(),
        post.used <= post.bytes.len(),
        forall|i: int|
            0 <= i < pre.slots.len() ==> (#[trigger] post.slots[i]).offset
                == pre.slots[i].offset,
{
    assert(!reuse_case(pre, post, r, w, h));
    assert(!reshape_case(pre, post, r, w, h));
    assert(append_case(pre, post, r, w, h));
    let cap = pre.bytes.len();
    let needed = pre.used + spec_byte_len(w, h);
    assert(cap <= usize::MAX as nat / 2);
    assert(grow_cap(cap, needed) >= 2 * cap);
}

/// Reuse property: a slot just acquired for a shape and then released is
/// exactly the slot a second acquisition of the same shape returns — same
/// index, same offset — and its bytes are zero-filled again. Hand-off and
/// release only toggle the slot's `busy` flag, so `mid` covers any pool
/// whose slots are back to the state right after the first acquisition,
/// whatever the renderer wrote into the bytes in between.
pub proof fn lemma_reuse_after_release(
    pre: PoolView,
    p1: PoolView,
    i1: int,
    mid: PoolView,
    p2: PoolView,
    i2: int,
    w: nat,
    h: nat,
)
    requires
        acquire_ok(pre, p1, i1, w, h),
        mid.slots == p1.slots,
        acquire_ok(mid, p2, i2, w, h),
    ensures
        i2 == i1,
        p2.slots[i1].offset == p1.slots[i1].offset,
        forall|k: int|
            p2.slots[i1].offset <= k < p2.slots[i1].offset + p2.slots[i1].len
                ==> #[trigger] p2.bytes[k] == 0,
{
    assert(avail_dims(p1.slots[i1], w, h));
    assert(forall|j: int| 0 <= j < i1 ==> !avail_dims(#[trigger] p1.slots[j], w, h)) by {
        if reuse_case(pre, p1, i1, w, h) {
        } else if reshape_case(pre, p1, i1, w, h) {
        } else {
            assert(append_case(pre, p1, i1, w, h));
        }
    }
    assert(!no_dims_match(mid.slots, w, h));
    assert(reuse_case(mid, p2, i2, w, h));
    if i2 < i1 {
        assert(!avail_dims(p1.slots[i2], w, h));
    }
    if i1 < i2 {
        assert(!avail_dims(mid.slots[i1], w, h));
    }
}

/// Reshape property: after acquiring a shape no existing slot could serve
/// and releasing it, acquiring a different shape of equal byte length
/// reuses the same slot's memory — same index, same offset, same byte
/// length — while its reported dimensions change to the new shape.
pub proof fn lemma_reshape_after_release(
    pre: PoolView,
    p1: PoolView,
    i1: int,
    mid: PoolView,
    p2: PoolView,
    i2: int,
    w1: nat,
    h1: nat,
    w2: nat,
    h2: nat,
)
    requires
        pool_wf(pre),
        spec_byte_len(w1, h1) == spec_byte_len(w2, h2),
        w1 != w2 || h1 != h2,
        no_len_match(pre.slots, w1, h1),
        acquire_ok(pre, p1, i1, w1, h1),
        mid.slots == p1.slots,
        acquire_ok(mid, p2, i2, w2, h2),
    ensures
        i2 == i1,
        p2.slots[i2].offset == p1.slots[i1].offset,
        p2.slots[i2].len == p1.slots[i1].len,
        p2.slots[i2].width == w2,
        p2.slots[i2].height == h2,
{
    assert forall|j: int| 0 <= j < pre.slots.len() implies !avail_dims(
        #[trigger] pre.slots[j],
        w1,
        h1,
    ) by {
        if avail_dims(pre.slots[j], w1, h1) {
            assert(avail_len(pre.slots[j], w1, h1));
        }
    }
    assert(append_case(pre, p1, i1, w1, h1));
    assert forall|j: int| 0 <= j < p1.slots.len() implies !avail_dims(
        #[trigger] p1.slots[j],
        w2,
        h2,
    ) by {
        if j < pre.slots.len() {
            if avail_dims(p1.slots[j], w2, h2) {
                assert(p1.slots[j] == pre.slots[j]);
                assert(avail_len(pre.slots[j], w1, h1));
            }
        }
    }
    assert(!reuse_case(mid, p2, i2, w2, h2));
    assert(avail_len(mid.slots[i1 as int], w2, h2));
    assert(!append_case(mid, p2, i2, w2, h2));
    assert(reshape_case(mid, p2, i2, w2, h2));
    if i2 < i1 {
        assert(mid.slots[i2] == pre.slots[i2]);
        assert(!avail_len(pre.slots[i2], w1, h1));
    }
    if i1 < i2 {
        assert(!avail_len(mid.slots[i1], w2, h2));
    }
}

} // verus!
