use std::ops::Range;
use std::sync::Arc;
use vstd::prelude::*;

use crate::device::{Device, DeviceMemory};

verus! {

broadcast use vstd::seq_lib::group_seq_properties;

/// The smallest block the pool asks the device for: 8 MiB.
pub const MIN_BLOCK_SIZE: u64 = 8388608;

/// `val` rounded up to a multiple of `al`, as the pool writes it: `al * (1 + (val - 1) / al)`.
pub open spec fn align_up(val: int, al: int) -> int {
    al * (1 + (val - 1) / al)
}

/// The ranges recorded for one block: each is non-empty and ends inside the block,
/// and they come in increasing order without overlapping.
pub open spec fn entries_wf(entries: Seq<Range<u64>>, block_size: u64) -> bool {
    &&& forall|i: int|
        0 <= i < entries.len() ==> #[trigger] entries[i].start < entries[i].end <= block_size
    &&& forall|i: int, j: int|
        0 <= i < j < entries.len() ==> #[trigger] entries[i].end <= #[trigger] entries[j].start
}

/// Where a new range starts when it is put at position `k` of `entries`: right after
/// entry `k - 1`, rounded up to the alignment, or at 0 in front of everything.
pub open spec fn offset_at(entries: Seq<Range<u64>>, k: int, al: u64) -> int {
    if k == 0 {
        0
    } else {
        align_up(entries[k - 1].end as int, al as int)
    }
}

/// `size` bytes fit at position `k`: in the gap between entries `k - 1` and `k`, or
/// after the last entry (`k == entries.len()`) inside the block. The space in front of
/// the first entry is used only when the block has no entry at all.
pub open spec fn fits_at(
    entries: Seq<Range<u64>>,
    block_size: u64,
    size: u64,
    al: u64,
    k: int,
) -> bool {
    if 1 <= k < entries.len() {
        offset_at(entries, k, al) + size <= entries[k].start
    } else {
        k == entries.len() && offset_at(entries, k, al) + size <= block_size
    }
}

/// Some position of the block can take `size` bytes.
pub open spec fn has_room(entries: Seq<Range<u64>>, block_size: u64, size: u64, al: u64) -> bool {
    exists|k: int| fits_at(entries, block_size, size, al, k)
}

/// `k` is the first position of the block that can take `size` bytes.
pub open spec fn is_first_fit(
    entries: Seq<Range<u64>>,
    block_size: u64,
    size: u64,
    al: u64,
    k: int,
) -> bool {
    &&& fits_at(entries, block_size, size, al, k)
    &&& forall|j: int| 0 <= j < k ==> !#[trigger] fits_at(entries, block_size, size, al, j)
}

/// The position at which the pool places `size` bytes in a block that has room.
pub open spec fn first_fit(entries: Seq<Range<u64>>, block_size: u64, size: u64, al: u64) -> int {
    choose|k: int| is_first_fit(entries, block_size, size, al, k)
}

/// The ranges of a block after `size` bytes were placed at its first fitting position.
pub open spec fn alloc_in_block(
    entries: Seq<Range<u64>>,
    block_size: u64,
    size: u64,
    al: u64,
) -> Seq<Range<u64>> {
    let k = first_fit(entries, block_size, size, al);
    let start = offset_at(entries, k, al);
    entries.insert(k, Range { start: start as u64, end: (start + size) as u64 })
}

/// The ranges of a block after every range starting at `offset` was dropped.
pub open spec fn free_in_block(entries: Seq<Range<u64>>, offset: u64) -> Seq<Range<u64>> {
    entries.filter(starts_elsewhere(offset))
}

/// Holds of the ranges that do not start at `offset`.
pub open spec fn starts_elsewhere(offset: u64) -> spec_fn(Range<u64>) -> bool {
    |e: Range<u64>| e.start != offset
}

/// `n` is a power of two.
pub open spec fn is_power_of_two(n: int) -> bool
    decreases n,
{
    if n <= 0 {
        false
    } else if n == 1 {
        true
    } else {
        n % 2 == 0 && is_power_of_two(n / 2)
    }
}

/// `p` is the smallest power of two that is not below `x`.
pub open spec fn is_next_power_of_two(x: int, p: int) -> bool {
    &&& is_power_of_two(p)
    &&& x <= p
    &&& (p == 1 || p / 2 < x)
}

// ----------------------------------------------------------------------------------------
// Arithmetic facts.
proof fn lemma_align_up(val: int, al: int)
    requires
        val >= 1,
        al >= 1,
    ensures
        align_up(val, al) >= val,
        align_up(val, al) % al == 0,
        align_up(val, al) >= al,
        align_up(val, al) < val + al,
{
    let q = (val - 1) / al;
    vstd::arithmetic::div_mod::lemma_fundamental_div_mod(val - 1, al);
    assert(0 <= (val - 1) % al < al) by {
        vstd::arithmetic::div_mod::lemma_mod_bound(val - 1, al);
    }
    assert(q >= 0) by {
        vstd::arithmetic::div_mod::lemma_div_pos_is_pos(val - 1, al);
    }
    assert(al * (1 + q) == al + al * q) by (nonlinear_arith);
    vstd::arithmetic::div_mod::lemma_mod_multiples_basic(1 + q, al);
    assert(al * (1 + q) == (1 + q) * al) by (nonlinear_arith);
    assert(al * q >= 0) by (nonlinear_arith)
        requires
            al >= 1,
            q >= 0,
    ;
}

/// Rounding up to the alignment gives the smallest multiple of the alignment that is not
/// below the value: an end that is already aligned stays where it is, and any other end
/// moves up by less than one alignment unit.
pub proof fn lemma_align_up_least_multiple(val: int, al: int)
    requires
        val >= 1,
        al >= 1,
    ensures
        align_up(val, al) % al == 0,
        val <= align_up(val, al) < val + al,
        val % al == 0 ==> align_up(val, al) == val,
        forall|m: int| #![trigger m % al] m % al == 0 && m >= val ==> m >= align_up(val, al),
{
    lemma_align_up(val, al);
    let x = align_up(val, al);
    assert forall|m: int| #![trigger m % al] m % al == 0 && m >= val implies m >= x by {
        vstd::arithmetic::div_mod::lemma_fundamental_div_mod(m, al);
        vstd::arithmetic::div_mod::lemma_fundamental_div_mod(x, al);
        let a = m / al;
        let b = x / al;
        assert(m == al * a);
        assert(x == al * b);
        assert(al * a > al * b - al);
        assert(a >= b) by (nonlinear_arith)
            requires
                al >= 1,
                al * a > al * b - al,
        ;
        assert(al * a >= al * b) by (nonlinear_arith)
            requires
                al >= 1,
                a >= b,
        ;
    }
    if val % al == 0 {
        assert(val >= x);
    }
}

/// The first fitting position is unique, so `first_fit` names the one found.
proof fn lemma_first_fit_unique(
    entries: Seq<Range<u64>>,
    block_size: u64,
    size: u64,
    al: u64,
    k: int,
)
    requires
        is_first_fit(entries, block_size, size, al, k),
    ensures
        first_fit(entries, block_size, size, al) == k,
        has_room(entries, block_size, size, al),
{
    let c = first_fit(entries, block_size, size, al);
    assert(is_first_fit(entries, block_size, size, al, c));
    if c < k {
        assert(!fits_at(entries, block_size, size, al, c));
    } else if c > k {
        assert(!fits_at(entries, block_size, size, al, k));
    }
}

/// Placing a range at a fitting position keeps the block's ranges ordered and disjoint;
/// the new range starts at an aligned offset.
pub proof fn lemma_insert_keeps_wf(
    entries: Seq<Range<u64>>,
    block_size: u64,
    size: u64,
    al: u64,
    k: int,
)
    requires
        entries_wf(entries, block_size),
        size > 0,
        al > 0,
        fits_at(entries, block_size, size, al, k),
    ensures
        ({
            let start = offset_at(entries, k, al);
            &&& entries_wf(
                entries.insert(k, Range { start: start as u64, end: (start + size) as u64 }),
                block_size,
            )
            &&& 0 <= start
            &&& start + size <= block_size
            &&& start % (al as int) == 0
        }),
{
    let start = offset_at(entries, k, al);
    let r = Range { start: start as u64, end: (start + size) as u64 };
    let n = entries.insert(k, r);
    entries.insert_ensures(k, r);
    if k > 0 {
        assert(entries[k - 1].start < entries[k - 1].end);
        lemma_align_up(entries[k - 1].end as int, al as int);
    }
    assert(start + size <= block_size) by {
        if k < entries.len() {
            assert(entries[k].start < entries[k].end <= block_size);
        }
    }
    assert(r.start == start && r.end == start + size);
    assert forall|i: int| 0 <= i < n.len() implies #[trigger] n[i].start < n[i].end
        <= block_size by {
        if i < k {
            assert(n[i] == entries[i]);
        } else if i > k {
            assert(n[i] == entries[i - 1]);
        }
    }
    // every old entry before position k ends no later than the new range starts
    assert forall|i: int| 0 <= i < k implies #[trigger] entries[i].end <= r.start by {
        if i < k - 1 {
            assert(entries[i].end <= entries[k - 1].start);
            assert(entries[k - 1].start < entries[k - 1].end);
        }
    }
    // every old entry from position k on starts no earlier than the new range ends
    assert forall|j: int| k <= j < entries.len() implies r.end <= #[trigger] entries[j].start by {
        assert(r.end <= entries[k].start);
        if k < j {
            assert(entries[k].end <= entries[j].start);
            assert(entries[k].start < entries[k].end);
        }
    }
    assert forall|i: int, j: int| 0 <= i < j < n.len() implies #[trigger] n[i].end
        <= #[trigger] n[j].start by {
        if j < k {
            assert(n[i] == entries[i] && n[j] == entries[j]);
        } else if j == k {
            assert(n[i] == entries[i]);
        } else if i < k {
            assert(n[i] == entries[i] && n[j] == entries[j - 1]);
            assert(entries[i].end <= r.start);
            assert(r.start <= r.end);
            assert(r.end <= entries[j - 1].start);
        } else if i == k {
            assert(n[j] == entries[j - 1]);
        } else {
            assert(n[i] == entries[i - 1] && n[j] == entries[j - 1]);
        }
    }
}

/// Dropping ranges keeps the block's ranges ordered and disjoint.
proof fn lemma_filter_keeps_wf(entries: Seq<Range<u64>>, block_size: u64, offset: u64)
    requires
        entries_wf(entries, block_size),
    ensures
        entries_wf(free_in_block(entries, offset), block_size),
    decreases entries.len(),
{
    let pred = starts_elsewhere(offset);
    reveal(Seq::filter);
    if entries.len() > 0 {
        let init = entries.drop_last();
        assert(entries_wf(init, block_size)) by {
            assert forall|i: int| 0 <= i < init.len() implies #[trigger] init[i].start
                < init[i].end <= block_size by {
                assert(init[i] == entries[i]);
            }
            assert forall|i: int, j: int| 0 <= i < j < init.len() implies #[trigger] init[i].end
                <= #[trigger] init[j].start by {
                assert(init[i] == entries[i]);
                assert(init[j] == entries[j]);
            }
        }
        lemma_filter_keeps_wf(init, block_size, offset);
        let sub = init.filter(pred);
        assert(free_in_block(init, offset) == sub);
        if pred(entries.last()) {
            let out = sub.push(entries.last());
            assert(free_in_block(entries, offset) == out);
            // everything kept from the prefix ends before the last entry starts
            assert forall|i: int| 0 <= i < sub.len() implies sub[i].end <= entries.last().start by {
                assert(sub.contains(sub[i]));
                init.lemma_filter_contains_rev(pred, sub[i]);
                let w = choose|w: int| 0 <= w < init.len() && init[w] == sub[i];
                assert(init[w] == entries[w]);
            }
            assert forall|i: int| 0 <= i < out.len() implies #[trigger] out[i].start < out[i].end
                <= block_size by {
                if i < sub.len() {
                    assert(out[i] == sub[i]);
                } else {
                    assert(out[i] == entries[entries.len() - 1]);
                }
            }
            assert forall|i: int, j: int| 0 <= i < j < out.len() implies #[trigger] out[i].end
                <= #[trigger] out[j].start by {
                assert(out[i] == sub[i]);
                if j < sub.len() {
                    assert(out[j] == sub[j]);
                }
            }
        } else {
            assert(free_in_block(entries, offset) == sub);
        }
    }
}

// ----------------------------------------------------------------------------------------
/// A pool that sub-allocates ranges of device-memory blocks of one memory type.
///
/// Each block keeps the list of ranges handed out from it, ordered by offset. A request
/// goes to the first gap (or the end) of the first block where it fits.
#[derive(Debug)]
pub struct StandardNonHostVisibleMemoryTypePool {
    device: Arc<Device>,
    memory_type_index: u32,
    occupied: Vec<(DeviceMemory, Vec<Range<u64>>)>,
}

/// A range handed out by `StandardNonHostVisibleMemoryTypePool`.
#[derive(Debug)]
pub struct StandardNonHostVisibleMemoryTypePoolAlloc {
    block: usize,
    memory: DeviceMemory,
    offset: u64,
    size: u64,
}

impl StandardNonHostVisibleMemoryTypePoolAlloc {
    pub closed spec fn spec_block(&self) -> usize {
        self.block
    }

    pub closed spec fn spec_memory(&self) -> DeviceMemory {
        self.memory
    }

    pub closed spec fn spec_offset(&self) -> u64 {
        self.offset
    }

    pub closed spec fn spec_size(&self) -> u64 {
        self.size
    }

    /// The position of the block in the pool that this range belongs to.
    #[verifier::when_used_as_spec(spec_block)]
    pub fn block_index(&self) -> (r: usize)
        ensures
            r == self.spec_block(),
    {
        self.block
    }

    /// The block this range lies in.
    pub fn memory(&self) -> (r: &DeviceMemory)
        ensures
            *r == self.spec_memory(),
    {
        &self.memory
    }

    /// The offset of the range inside its block.
    #[verifier::when_used_as_spec(spec_offset)]
    pub fn offset(&self) -> (r: u64)
        ensures
            r == self.spec_offset(),
    {
        self.offset
    }

    /// The size of the range in bytes.
    #[verifier::when_used_as_spec(spec_size)]
    pub fn size(&self) -> (r: u64)
        ensures
            r == self.spec_size(),
    {
        self.size
    }
}

impl StandardNonHostVisibleMemoryTypePool {
    /// The blocks of the pool, each with the ranges handed out from it.
    pub closed spec fn blocks(&self) -> Seq<(DeviceMemory, Seq<Range<u64>>)> {
        self.occupied@.map_values(|p: (DeviceMemory, Vec<Range<u64>>)| (p.0, p.1@))
    }

    pub closed spec fn spec_memory_type_index(&self) -> u32 {
        self.memory_type_index
    }

    pub closed spec fn spec_device(&self) -> Device {
        *self.device
    }

    /// Every block's ranges are ordered, disjoint and inside the block.
    pub closed spec fn wf(&self) -> bool {
        forall|b: int|
            0 <= b < self.occupied@.len() ==> {
                &&& entries_wf(
                    #[trigger] self.occupied@[b].1@,
                    self.occupied@[b].0.allocation_size(),
                )
                &&& self.occupied@[b].0.memory_type_index() == self.memory_type_index
            }
    }

    /// `allocation` is still handed out: its block is one of the pool's, and the block
    /// records exactly its range.
    pub open spec fn spec_is_live(&self, allocation: &StandardNonHostVisibleMemoryTypePoolAlloc) -> bool {
        let b = allocation.block_index() as int;
        &&& 0 <= b < self.blocks().len()
        &&& self.blocks()[b].0 == allocation.spec_memory()
        &&& exists|i: int|
            0 <= i < self.blocks()[b].1.len() && #[trigger] self.blocks()[b].1[i].start
                == allocation.offset() && self.blocks()[b].1[i].end == allocation.offset()
                + allocation.size()
    }

    /// In a well-formed pool, the ranges of every block are ordered, disjoint and inside the
    /// block: ranges handed out never overlap. Every block is memory of the pool's type.
    pub proof fn lemma_blocks_disjoint(&self, b: int)
        requires
            self.wf(),
            0 <= b < self.blocks().len(),
        ensures
            entries_wf(self.blocks()[b].1, self.blocks()[b].0.allocation_size()),
            self.blocks()[b].0.memory_type_index() == self.memory_type_index(),
    {
        self.lemma_wf_blocks(b);
    }

    proof fn lemma_wf_blocks(&self, b: int)
        requires
            self.wf(),
            0 <= b < self.blocks().len(),
        ensures
            entries_wf(self.blocks()[b].1, self.blocks()[b].0.allocation_size()),
            self.blocks()[b].0.memory_type_index() == self.memory_type_index,
            self.blocks()[b].0 == self.occupied@[b].0,
            self.blocks()[b].1 == self.occupied@[b].1@,
            self.blocks().len() == self.occupied@.len(),
    {
    }

    /// Creates a pool for the memory type `memory_type_index` of `device`.
    pub fn new(device: Arc<Device>, memory_type_index: u32) -> (r: Self)
        requires
            memory_type_index < device.memory_type_count(),
        ensures
            r.wf(),
            r.blocks() == Seq::<(DeviceMemory, Seq<Range<u64>>)>::empty(),
            r.memory_type_index() == memory_type_index,
            r.spec_device() == *device,
    {
        let r = StandardNonHostVisibleMemoryTypePool {
            device,
            memory_type_index,
            occupied: Vec::new(),
        };
        assert(r.blocks() =~= Seq::<(DeviceMemory, Seq<Range<u64>>)>::empty());
        r
    }

    /// The memory type this pool allocates from.
    #[verifier::when_used_as_spec(spec_memory_type_index)]
    pub fn memory_type_index(&self) -> (r: u32)
        ensures
            r == self.spec_memory_type_index(),
    {
        self.memory_type_index
    }

    /// The device of the pool.
    pub fn device(&self) -> (r: &Arc<Device>)
        ensures
            **r == self.spec_device(),
    {
        &self.device
    }
}

/// `al * (1 + (val - 1) / al)`, or `None` where that does not fit in a `u64`.
fn align(val: u64, al: u64) -> (r: Option<u64>)
    requires
        val >= 1,
        al >= 1,
    ensures
        match r {
            Some(x) => x == align_up(val as int, al as int) && x % al == 0 && val <= x
                < val + al,
            None => align_up(val as int, al as int) > u64::MAX,
        },
{
    proof {
        lemma_align_up_least_multiple(val as int, al as int);
    }
    let q = (val - 1) / al;
    al.checked_mul(1 + q)
}

/// Looks for the first position of a block where `size` bytes fit, and the offset
/// they would start at.
fn find_slot(entries: &Vec<Range<u64>>, block_size: u64, size: u64, al: u64) -> (r: Option<
    (usize, u64),
>)
    requires
        entries_wf(entries@, block_size),
        size > 0,
        al > 0,
    ensures
        match r {
            Some((k, off)) => {
                &&& is_first_fit(entries@, block_size, size, al, k as int)
                &&& off == offset_at(entries@, k as int, al)
            },
            None => !has_room(entries@, block_size, size, al),
        },
{
    let len = entries.len();
    let mut i: usize = 0;
    while i + 1 < len
        invariant
            len == entries@.len(),
            entries_wf(entries@, block_size),
            size > 0,
            al > 0,
            i < len || i == 0,
            forall|j: int|
                0 <= j <= i && j < len ==> !#[trigger] fits_at(entries@, block_size, size, al, j),
        decreases len - i,
    {
        let end = entries[i].end;
        assert(entries@[i as int].start < end);
        match align(end, al) {
            Some(start) => {
                if let Some(stop) = start.checked_add(size) {
                    if stop <= entries[i + 1].start {
                        assert(is_first_fit(entries@, block_size, size, al, i + 1));
                        return Some((i + 1, start));
                    }
                }
            },
            None => {},
        }
        assert(!fits_at(entries@, block_size, size, al, i + 1));
        i += 1;
    }
    // every gap between two ranges was too small; try after the last range
    let start = if len == 0 {
        0
    } else {
        let end = entries[len - 1].end;
        assert(entries@[len - 1].start < end);
        match align(end, al) {
            Some(start) => start,
            None => {
                assert forall|j: int| !fits_at(entries@, block_size, size, al, j) by {
                    if 0 <= j < len {
                    }
                }
                return None;
            },
        }
    };
    assert(start == offset_at(entries@, len as int, al));
    match start.checked_add(size) {
        Some(stop) => {
            if stop <= block_size {
                assert(is_first_fit(entries@, block_size, size, al, len as int));
                return Some((len, start));
            }
        },
        None => {},
    }
    assert forall|j: int| !fits_at(entries@, block_size, size, al, j) by {
        if 0 <= j < len {
        }
    }
    None
}


/// The smallest power of two that is not below `x`.
pub open spec fn next_power_of_two_of(x: int) -> int {
    choose|p: int| is_next_power_of_two(x, p)
}

/// The size of the block the pool asks for when a request of `size` bytes finds no room:
/// the next power of two of `size`, but at least `MIN_BLOCK_SIZE`.
pub open spec fn new_block_size_of(size: u64) -> int {
    let p = next_power_of_two_of(size as int);
    if p < MIN_BLOCK_SIZE {
        MIN_BLOCK_SIZE as int
    } else {
        p
    }
}

/// Of two powers of two, the smaller one is at most half the larger.
proof fn lemma_power_of_two_gap(p: int, q: int)
    requires
        is_power_of_two(p),
        is_power_of_two(q),
        p < q,
    ensures
        2 * p <= q,
    decreases p,
{
    assert(q > 1);
    if p > 1 {
        lemma_power_of_two_gap(p / 2, q / 2);
    }
}

/// There is exactly one smallest power of two above `x`.
proof fn lemma_next_power_of_two_unique(x: int, p: int)
    requires
        is_next_power_of_two(x, p),
    ensures
        next_power_of_two_of(x) == p,
{
    let c = next_power_of_two_of(x);
    assert(is_next_power_of_two(x, c));
    if c < p {
        lemma_power_of_two_gap(c, p);
    } else if p < c {
        lemma_power_of_two_gap(p, c);
    }
}

/// The smallest power of two greater than or equal to `x`, as `u64::next_power_of_two`
/// gives it. Above `2^63` there is none in a `u64`.
fn next_power_of_two(x: u64) -> (r: u64)
    requires
        x <= 0x8000_0000_0000_0000,
    ensures
        is_next_power_of_two(x as int, r as int),
{
    let mut p: u64 = 1;
    while p < x
        invariant
            x <= 0x8000_0000_0000_0000,
            1 <= p,
            is_power_of_two(p as int),
            p == 1 || p / 2 < x,
        decreases 0x1_0000_0000_0000_0000 - p,
    {
        assert(is_power_of_two(2 * p as int)) by {
            assert((2 * p as int) / 2 == p);
        }
        p = p * 2;
    }
    p
}

/// The size of the block to allocate for a request of `size` bytes that no existing
/// block could take.
pub fn new_block_size(size: u64) -> (r: u64)
    requires
        size <= 0x8000_0000_0000_0000,
    ensures
        r == new_block_size_of(size),
        r >= size,
        r >= MIN_BLOCK_SIZE,
{
    let p = next_power_of_two(size);
    proof {
        lemma_next_power_of_two_unique(size as int, p as int);
    }
    if MIN_BLOCK_SIZE > p {
        MIN_BLOCK_SIZE
    } else {
        p
    }
}

/// Of the positions where `size` bytes fit, there is a first one.
proof fn lemma_first_fit_exists(
    entries: Seq<Range<u64>>,
    block_size: u64,
    size: u64,
    al: u64,
    k: int,
)
    requires
        fits_at(entries, block_size, size, al, k),
    ensures
        is_first_fit(entries, block_size, size, al, first_fit(entries, block_size, size, al)),
    decreases k,
{
    if exists|j: int| 0 <= j < k && fits_at(entries, block_size, size, al, j) {
        let j = choose|j: int| 0 <= j < k && fits_at(entries, block_size, size, al, j);
        lemma_first_fit_exists(entries, block_size, size, al, j);
    } else {
        assert(is_first_fit(entries, block_size, size, al, k));
    }
}

/// Keeping only the ranges that do not start at `offset` keeps everything when none does.
proof fn lemma_filter_keeps_all(entries: Seq<Range<u64>>, offset: u64)
    requires
        forall|i: int| 0 <= i < entries.len() ==> #[trigger] entries[i].start != offset,
    ensures
        free_in_block(entries, offset) == entries,
    decreases entries.len(),
{
    reveal(Seq::filter);
    if entries.len() > 0 {
        let init = entries.drop_last();
        assert forall|i: int| 0 <= i < init.len() implies #[trigger] init[i].start != offset by {
            assert(init[i] == entries[i]);
        }
        lemma_filter_keeps_all(init, offset);
        assert(init.push(entries.last()) =~= entries);
    }
}

/// A block that has room gets its new range at an aligned offset inside the block, and
/// its ranges stay ordered and disjoint.
pub proof fn lemma_alloc_in_block(entries: Seq<Range<u64>>, block_size: u64, size: u64, al: u64)
    requires
        entries_wf(entries, block_size),
        size > 0,
        al > 0,
        has_room(entries, block_size, size, al),
    ensures
        ({
            let k = first_fit(entries, block_size, size, al);
            let start = offset_at(entries, k, al);
            &&& is_first_fit(entries, block_size, size, al, k)
            &&& entries_wf(alloc_in_block(entries, block_size, size, al), block_size)
            &&& 0 <= start
            &&& start + size <= block_size
            &&& start % (al as int) == 0
        }),
{
    let k0 = choose|k: int| fits_at(entries, block_size, size, al, k);
    lemma_first_fit_exists(entries, block_size, size, al, k0);
    let k = first_fit(entries, block_size, size, al);
    lemma_insert_keeps_wf(entries, block_size, size, al, k);
}

/// A block that holds no range takes any request that is not larger than the block, at
/// its start; a request larger than the block never fits in it.
pub proof fn lemma_empty_block_has_room(block_size: u64, size: u64, al: u64)
    requires
        al > 0,
    ensures
        has_room(Seq::<Range<u64>>::empty(), block_size, size, al) <==> size <= block_size,
        size <= block_size ==> first_fit(Seq::<Range<u64>>::empty(), block_size, size, al) == 0,
        size <= block_size ==> offset_at(
            Seq::<Range<u64>>::empty(),
            first_fit(Seq::<Range<u64>>::empty(), block_size, size, al),
            al,
        ) == 0,
        size <= block_size ==> alloc_in_block(Seq::<Range<u64>>::empty(), block_size, size, al)
            == seq![Range { start: 0u64, end: size }],
{
    let e = Seq::<Range<u64>>::empty();
    if size <= block_size {
        assert(fits_at(e, block_size, size, al, 0));
        assert(is_first_fit(e, block_size, size, al, 0));
        lemma_first_fit_unique(e, block_size, size, al, 0);
        assert(alloc_in_block(e, block_size, size, al) =~= seq![Range { start: 0u64, end: size }]);
    } else {
        assert forall|k: int| !fits_at(e, block_size, size, al, k) by {}
    }
}

/// A range handed out from a block overlaps none of the ranges the block already had.
pub proof fn lemma_alloc_range_disjoint(
    entries: Seq<Range<u64>>,
    block_size: u64,
    size: u64,
    al: u64,
    i: int,
)
    requires
        entries_wf(entries, block_size),
        size > 0,
        al > 0,
        has_room(entries, block_size, size, al),
        0 <= i < entries.len(),
    ensures
        ({
            let start = offset_at(entries, first_fit(entries, block_size, size, al), al);
            entries[i].end <= start || start + size <= entries[i].start
        }),
{
    lemma_alloc_in_block(entries, block_size, size, al);
    let k = first_fit(entries, block_size, size, al);
    let start = offset_at(entries, k, al);
    let r = Range { start: start as u64, end: (start + size) as u64 };
    let n = alloc_in_block(entries, block_size, size, al);
    entries.insert_ensures(k, r);
    if i < k {
        assert(n[i] == entries[i]);
        assert(n[i].end <= n[k].start);
    } else {
        assert(n[i + 1] == entries[i]);
        assert(n[k].end <= n[i + 1].start);
    }
}

/// Giving back a range undoes handing it out: after a request of `size` bytes went to a
/// block, dropping the range at the offset it got leaves the block as it was.
pub proof fn lemma_free_undoes_alloc(entries: Seq<Range<u64>>, block_size: u64, size: u64, al: u64)
    requires
        entries_wf(entries, block_size),
        size > 0,
        al > 0,
        has_room(entries, block_size, size, al),
    ensures
        free_in_block(
            alloc_in_block(entries, block_size, size, al),
            offset_at(entries, first_fit(entries, block_size, size, al), al) as u64,
        ) == entries,
{
    lemma_alloc_in_block(entries, block_size, size, al);
    let k = first_fit(entries, block_size, size, al);
    let start = offset_at(entries, k, al);
    let off = start as u64;
    let r = Range { start: off, end: (start + size) as u64 };
    let pred = starts_elsewhere(off);
    if k > 0 {
        assert(entries[k - 1].start < entries[k - 1].end);
        lemma_align_up(entries[k - 1].end as int, al as int);
    }
    // every old range starts before or after the new one, never at its offset
    assert forall|i: int| 0 <= i < entries.len() implies #[trigger] entries[i].start != off by {
        if i < k {
            assert(entries[i].start < entries[i].end);
            if i < k - 1 {
                assert(entries[i].end <= entries[k - 1].start);
                assert(entries[k - 1].start < entries[k - 1].end);
            }
        } else {
            assert(off + size <= entries[k].start);
            if i > k {
                assert(entries[k].end <= entries[i].start);
                assert(entries[k].start < entries[k].end);
            }
        }
    }
    let front = entries.subrange(0, k);
    let back = entries.subrange(k, entries.len() as int);
    assert forall|i: int| 0 <= i < front.len() implies #[trigger] front[i].start != off by {
        assert(front[i] == entries[i]);
    }
    assert forall|i: int| 0 <= i < back.len() implies #[trigger] back[i].start != off by {
        assert(back[i] == entries[i + k]);
    }
    lemma_filter_keeps_all(front, off);
    lemma_filter_keeps_all(back, off);
    Seq::filter_distributes_over_add(front.push(r), back, pred);
    front.lemma_filter_push(r, pred);
    assert(front + back =~= entries);
}

/// The same law over a whole pool: handing out a range from block `b` and giving it back
/// leaves every block as it was.
pub proof fn lemma_pool_free_undoes_alloc(
    blocks: Seq<(DeviceMemory, Seq<Range<u64>>)>,
    b: int,
    size: u64,
    al: u64,
)
    requires
        0 <= b < blocks.len(),
        entries_wf(blocks[b].1, blocks[b].0.allocation_size()),
        size > 0,
        al > 0,
        has_room(blocks[b].1, blocks[b].0.allocation_size(), size, al),
    ensures
        ({
            let (mem, entries) = blocks[b];
            let bs = mem.allocation_size();
            let after = blocks.update(b, (mem, alloc_in_block(entries, bs, size, al)));
            let off = offset_at(entries, first_fit(entries, bs, size, al), al) as u64;
            after.update(b, (mem, free_in_block(after[b].1, off))) == blocks
        }),
{
    let (mem, entries) = blocks[b];
    lemma_free_undoes_alloc(entries, mem.allocation_size(), size, al);
    let bs = mem.allocation_size();
    let after = blocks.update(b, (mem, alloc_in_block(entries, bs, size, al)));
    let off = offset_at(entries, first_fit(entries, bs, size, al), al) as u64;
    assert(after.update(b, (mem, free_in_block(after[b].1, off))) =~= blocks);
}

impl StandardNonHostVisibleMemoryTypePool {
    /// Looks for room for `size` bytes aligned to `alignment` in the blocks the pool
    /// already has: the first gap between two ranges, or else the end, of the first block
    /// where they fit. `None` when no block has room; then a new block is needed
    /// (`new_block_size`, `add_block`).
    pub fn allocate(&mut self, size: u64, alignment: u64) -> (r: Option<
        StandardNonHostVisibleMemoryTypePoolAlloc,
    >)
        requires
            old(self).wf(),
            size != 0,
            alignment != 0,
        ensures
            final(self).wf(),
            final(self).memory_type_index() == old(self).memory_type_index(),
            final(self).spec_device() == old(self).spec_device(),
            match r {
                None => {
                    &&& final(self).blocks() == old(self).blocks()
                    &&& forall|c: int|
                        0 <= c < old(self).blocks().len() ==> !has_room(
                            #[trigger] old(self).blocks()[c].1,
                            old(self).blocks()[c].0.allocation_size(),
                            size,
                            alignment,
                        )
                },
                Some(a) => {
                    let b = a.block_index() as int;
                    let mem = old(self).blocks()[b].0;
                    let entries = old(self).blocks()[b].1;
                    let k = first_fit(entries, mem.allocation_size(), size, alignment);
                    &&& 0 <= b < old(self).blocks().len()
                    &&& has_room(entries, mem.allocation_size(), size, alignment)
                    &&& forall|c: int|
                        0 <= c < b ==> !has_room(
                            #[trigger] old(self).blocks()[c].1,
                            old(self).blocks()[c].0.allocation_size(),
                            size,
                            alignment,
                        )
                    &&& a.spec_memory() == mem
                    &&& a.offset() == offset_at(entries, k, alignment)
                    &&& a.size() == size
                    &&& a.offset() % alignment == 0
                    &&& a.offset() + size <= mem.allocation_size()
                    &&& mem.memory_type_index() == old(self).memory_type_index()
                    &&& final(self).spec_is_live(&a)
                    &&& final(self).blocks() == old(self).blocks().update(
                        b,
                        (mem, alloc_in_block(entries, mem.allocation_size(), size, alignment)),
                    )
                },
            },
    {
        let n = self.occupied.len();
        let mut b: usize = 0;
        while b < n
            invariant
                n == self.occupied@.len(),
                *self == *old(self),
                self.wf(),
                size != 0,
                alignment != 0,
                b <= n,
                forall|c: int|
                    0 <= c < b ==> !has_room(
                        #[trigger] old(self).blocks()[c].1,
                        old(self).blocks()[c].0.allocation_size(),
                        size,
                        alignment,
                    ),
            decreases n - b,
        {
            proof {
                self.lemma_wf_blocks(b as int);
            }
            let block_size = self.occupied[b].0.allocation_size();
            let found = find_slot(&self.occupied[b].1, block_size, size, alignment);
            match found {
                Some((k, start)) => {
                    let ghost entries = self.occupied@[b as int].1@;
                    proof {
                        lemma_first_fit_unique(entries, block_size, size, alignment, k as int);
                        lemma_insert_keeps_wf(entries, block_size, size, alignment, k as int);
                    }
                    let memory = self.occupied[b].0;
                    self.occupied[b].1.insert(k, start..start + size);
                    let a = StandardNonHostVisibleMemoryTypePoolAlloc {
                        block: b,
                        memory,
                        offset: start,
                        size,
                    };
                    proof {
                        entries.insert_ensures(k as int, Range { start, end: (start + size) as u64 });
                        assert(self.blocks()[b as int].1[k as int].start == a.offset());
                        assert(self.spec_is_live(&a));
                        assert(self.occupied@ == old(self).occupied@.update(
                            b as int,
                            (memory, self.occupied@[b as int].1),
                        ));
                        assert(self.blocks() =~= old(self).blocks().update(
                            b as int,
                            (memory, alloc_in_block(entries, block_size, size, alignment)),
                        ));
                        assert forall|c: int| 0 <= c < self.occupied@.len() implies entries_wf(
                            #[trigger] self.occupied@[c].1@,
                            self.occupied@[c].0.allocation_size(),
                        ) by {
                            if c != b {
                                assert(self.occupied@[c] == old(self).occupied@[c]);
                            }
                        }
                    }
                    return Some(a);
                },
                None => {},
            }
            b += 1;
        }
        None
    }

    /// Records a new block of device memory, obtained for a request of `size` bytes that no
    /// existing block had room for, and hands out its first `size` bytes.
    pub fn add_block(&mut self, memory: DeviceMemory, size: u64) -> (r:
        StandardNonHostVisibleMemoryTypePoolAlloc)
        requires
            old(self).wf(),
            0 < size <= memory.allocation_size(),
            memory.memory_type_index() == old(self).memory_type_index(),
        ensures
            final(self).wf(),
            final(self).memory_type_index() == old(self).memory_type_index(),
            final(self).spec_device() == old(self).spec_device(),
            final(self).blocks() == old(self).blocks().push(
                (memory, seq![Range { start: 0u64, end: size }]),
            ),
            r.block_index() == old(self).blocks().len(),
            r.spec_memory() == memory,
            r.offset() == 0,
            r.size() == size,
            final(self).spec_is_live(&r),
    {
        let block = self.occupied.len();
        let mut entries: Vec<Range<u64>> = Vec::new();
        entries.push(0..size);
        self.occupied.push((memory, entries));
        proof {
            assert(entries@ =~= seq![Range { start: 0u64, end: size }]);
            assert(self.blocks() =~= old(self).blocks().push(
                (memory, seq![Range { start: 0u64, end: size }]),
            ));
            assert forall|c: int| 0 <= c < self.occupied@.len() implies entries_wf(
                #[trigger] self.occupied@[c].1@,
                self.occupied@[c].0.allocation_size(),
            ) by {
                if c < block {
                    assert(self.occupied@[c] == old(self).occupied@[c]);
                }
            }
        }
        let r = StandardNonHostVisibleMemoryTypePoolAlloc { block, memory, offset: 0, size };
        proof {
            assert(self.blocks()[block as int].1[0].start == r.offset());
        }
        r
    }

    /// Whether `allocation` is still handed out: its block is one of the pool's and still
    /// records its range.
    pub fn is_live(&self, allocation: &StandardNonHostVisibleMemoryTypePoolAlloc) -> (r: bool)
        ensures
            r == self.spec_is_live(allocation),
    {
        let b = allocation.block;
        if b >= self.occupied.len() {
            return false;
        }
        if self.occupied[b].0 != allocation.memory {
            return false;
        }
        let ghost entries = self.occupied@[b as int].1@;
        proof {
            assert(entries == self.blocks()[b as int].1);
            assert(self.blocks()[b as int].0 == self.occupied@[b as int].0);
            assert(self.blocks()[b as int].0 == allocation.spec_memory());
        }
        let n = self.occupied[b].1.len();
        let mut i: usize = 0;
        while i < n
            invariant
                b < self.occupied@.len(),
                b == allocation.block_index(),
                entries == self.occupied@[b as int].1@,
                entries == self.blocks()[b as int].1,
                self.blocks()[b as int].0 == allocation.spec_memory(),
                n == entries.len(),
                i <= n,
                forall|j: int|
                    0 <= j < i ==> !(#[trigger] entries[j].start == allocation.offset
                        && entries[j].end == allocation.offset + allocation.size),
            decreases n - i,
        {
            let e = &self.occupied[b].1[i];
            if e.start == allocation.offset && e.end >= e.start && e.end - e.start
                == allocation.size {
                proof {
                    assert(self.blocks()[b as int].0 == allocation.spec_memory());
                    assert(self.blocks()[b as int].1[i as int].start == allocation.offset());
                }
                return true;
            }
            i += 1;
        }
        false
    }

    /// Gives back a range: drops from its block every range that starts at its offset.
    pub fn free(&mut self, allocation: &StandardNonHostVisibleMemoryTypePoolAlloc)
        requires
            old(self).wf(),
            old(self).spec_is_live(allocation),
        ensures
            final(self).wf(),
            !final(self).spec_is_live(allocation),
            final(self).memory_type_index() == old(self).memory_type_index(),
            final(self).spec_device() == old(self).spec_device(),
            final(self).blocks() == old(self).blocks().update(
                allocation.block_index() as int,
                (
                    old(self).blocks()[allocation.block_index() as int].0,
                    free_in_block(old(self).blocks()[allocation.block_index() as int].1, allocation.offset()),
                ),
            ),
    {
        let b = allocation.block;
        let offset = allocation.offset;
        let ghost entries = self.occupied@[b as int].1@;
        let ghost pred = starts_elsewhere(offset);
        let mut kept: Vec<Range<u64>> = Vec::new();
        let n = self.occupied[b].1.len();
        let mut i: usize = 0;
        while i < n
            invariant
                *self == *old(self),
                b < self.occupied@.len(),
                entries == self.occupied@[b as int].1@,
                n == entries.len(),
                i <= n,
                pred == starts_elsewhere(offset),
                kept@ == entries.take(i as int).filter(pred),
            decreases n - i,
        {
            let e = Range { start: self.occupied[b].1[i].start, end: self.occupied[b].1[i].end };
            proof {
                assert(entries.take(i as int + 1) =~= entries.take(i as int).push(entries[i as int]));
                entries.take(i as int).lemma_filter_push(entries[i as int], pred);
            }
            if e.start != offset {
                kept.push(e);
            }
            i += 1;
        }
        proof {
            assert(entries.take(n as int) =~= entries);
            self.lemma_wf_blocks(b as int);
            lemma_filter_keeps_wf(entries, self.occupied@[b as int].0.allocation_size(), offset);
        }
        let ghost memory = self.occupied@[b as int].0;
        core::mem::swap(&mut self.occupied[b].1, &mut kept);
        proof {
            assert(self.occupied@ == old(self).occupied@.update(
                b as int,
                (memory, self.occupied@[b as int].1),
            ));
            assert(self.blocks() =~= old(self).blocks().update(
                b as int,
                (memory, free_in_block(entries, offset)),
            ));
            assert forall|c: int| 0 <= c < self.occupied@.len() implies entries_wf(
                #[trigger] self.occupied@[c].1@,
                self.occupied@[c].0.allocation_size(),
            ) by {
                if c != b {
                    assert(self.occupied@[c] == old(self).occupied@[c]);
                }
            }
        }
    }
}

} // verus!
