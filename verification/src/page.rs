//! The slotted page: a fixed-size unit of storage that packs variable-length
//! tuples behind a directory of 256 slots.
//!
//! On disk and in memory a page occupies exactly [`PAGE_SIZE`] bytes:
//! an 8-byte page id, a 4-byte header (`free_space`, `total_free_slots`),
//! 256 slot entries of 6 bytes each, and the data region holding, for every
//! used slot, a 32-byte [`TupleHeader`] followed by the tuple's payload.
//! All integers are little-endian.

use vstd::bytes::*;
use vstd::prelude::*;
use vstd::slice::slice_subrange;
use vstd::slice::slice_to_vec;

verus! {

/// Size of a page on disk and in memory, in bytes.
pub const PAGE_SIZE: usize = 8192;

/// Number of entries in a page's slot directory.
pub const MAX_SLOTS: usize = 256;

/// Serialized size of the per-page header (`free_space` + `total_free_slots`).
pub const PAGE_HEADER_SIZE: usize = 4;

/// Serialized size of one slot directory entry.
pub const SLOT_SIZE: usize = 6;

/// Serialized size of the metadata stored in front of every tuple's payload.
pub const TUPLE_HEADER_SIZE: usize = 32;

/// Byte offset of the data region inside a serialized page: the page id,
/// the page header and the whole slot directory come first.
pub const DATA_OFFSET: usize = 8 + 4 + 6 * 256;

/// Capacity of a page's data region: whatever remains of the fixed page
/// size once the id, the header and the slot directory are accounted for.
pub const DATA_SIZE: usize = 8192 - (8 + 4 + 6 * 256);

/// Bookkeeping carried by every page: how many data-region bytes are not
/// yet claimed by any slot, and how many slot entries are still unused.
#[derive(Clone, Copy, Debug, PartialEq, Eq, Structural)]
pub struct PageHeader {
    pub free_space: u16,
    pub total_free_slots: u16,
}

/// One entry of the slot directory.  A used slot (`is_used != 0`) owns the
/// byte range `[offset, offset + length)` of the page's data region.
#[derive(Clone, Copy, Debug, PartialEq, Eq, Structural)]
pub struct Slot {
    pub offset: u16,
    pub length: u16,
    pub is_used: u8,
}

/// Per-tuple metadata stored at the start of the tuple's byte range:
/// the transaction that created this version (`xmin`), the transaction that
/// superseded it (`xmax`, `0` while it is current), and a back-reference to
/// the tuple's own physical location.
#[derive(Clone, Copy, Debug, PartialEq, Eq, Structural)]
pub struct TupleHeader {
    pub xmin: u64,
    pub xmax: u64,
    pub page_no: u64,
    pub slot_no: u16,
}

/// Why a page operation was refused.
#[derive(Clone, Copy, Debug, PartialEq, Eq, Structural)]
pub enum PageError {
    /// The aggregate free-space counter is too small for the tuple.
    NotEnoughFreeSpace,
    /// All 256 slot directory entries are in use.
    NoFreeSlots,
    /// No contiguous byte range of the required length is free.
    NoFreeDataSpace,
    /// A fitted placement would overrun the data region (defensive re-check).
    NotEnoughContiguousSpace,
    /// A page decode was attempted on a buffer that is not exactly
    /// [`PAGE_SIZE`] bytes.
    InvalidPageSize,
}

/// An in-memory page: id, header, slot directory and data region.
#[derive(Debug)]
pub struct Page {
    pub id: u64,
    pub header: PageHeader,
    pub slots: Vec<Slot>,
    pub data: Vec<u8>,
}

impl TupleHeader {
    /// The snapshot visibility predicate: a tuple version is visible to
    /// `txid` iff it was created no later than `txid` and not yet superseded
    /// at `txid`.
    pub open spec fn spec_is_visible(self, txid: u64) -> bool {
        self.xmin <= txid && (self.xmax == 0 || txid < self.xmax)
    }

    /// Decides whether this tuple version is visible to the reader `txid`.
    pub fn is_visible(&self, txid: u64) -> (r: bool)
        ensures
            r == self.spec_is_visible(txid),
    {
        self.xmin <= txid && (self.xmax == 0 || txid < self.xmax)
    }
}

/// Slot `i` of the directory is marked used.
pub open spec fn slot_used(slots: Seq<Slot>, i: int) -> bool {
    slots[i].is_used != 0
}

/// The byte range owned by slot `i` lies inside the data region.
pub open spec fn slot_in_bounds(slots: Seq<Slot>, i: int) -> bool {
    slots[i].offset + slots[i].length <= DATA_SIZE
}

/// The byte ranges of two distinct used slots never overlap.
pub open spec fn slots_disjoint(slots: Seq<Slot>) -> bool {
    forall|i: int, j: int|
        0 <= i < slots.len() && 0 <= j < slots.len() && i != j && slot_used(slots, i) && slot_used(
            slots,
            j,
        ) ==> ranges_disjoint(
            slots[i].offset as int,
            slots[i].length as int,
            slots[j].offset as int,
            slots[j].length as int,
        )
}

/// Total number of data-region bytes claimed by the first `n` slots.
pub open spec fn used_bytes(slots: Seq<Slot>, n: int) -> int
    decreases n,
{
    if n <= 0 {
        0
    } else {
        used_bytes(slots, n - 1) + if slot_used(slots, n - 1) {
            slots[n - 1].length as int
        } else {
            0
        }
    }
}

/// Number of used entries among the first `n` slots.
pub open spec fn used_count(slots: Seq<Slot>, n: int) -> int
    decreases n,
{
    if n <= 0 {
        0
    } else {
        used_count(slots, n - 1) + if slot_used(slots, n - 1) {
            1int
        } else {
            0int
        }
    }
}

impl Page {
    /// The slot directory and the data region have their fixed sizes.
    pub open spec fn has_page_dims(self) -> bool {
        &&& self.slots@.len() == MAX_SLOTS
        &&& self.data@.len() == DATA_SIZE
    }

    /// Slot `i` of this page's directory is marked used.
    pub open spec fn slot_used(self, i: int) -> bool {
        slot_used(self.slots@, i)
    }

    /// Well-formedness of a page: the directory and data region have their
    /// fixed sizes, every used slot owns an in-bounds byte range, distinct
    /// used slots never overlap, and the cached header counters agree with
    /// the directory.
    pub open spec fn wf(self) -> bool {
        &&& self.has_page_dims()
        &&& forall|i: int|
            0 <= i < MAX_SLOTS && slot_used(self.slots@, i) ==> slot_in_bounds(self.slots@, i)
        &&& slots_disjoint(self.slots@)
        &&& self.header.free_space == DATA_SIZE - used_bytes(self.slots@, MAX_SLOTS as int)
        &&& self.header.total_free_slots == MAX_SLOTS - used_count(self.slots@, MAX_SLOTS as int)
    }

    /// Allocates a fresh page: the given id, an all-unused slot directory,
    /// a zeroed data region, and header counters at their maxima.
    pub fn new(id: u64) -> (p: Page)
        ensures
            p.id == id,
            p.header.free_space == DATA_SIZE,
            p.header.total_free_slots == MAX_SLOTS,
            forall|i: int| 0 <= i < MAX_SLOTS ==> p.slots@[i] == (Slot {
                offset: 0,
                length: 0,
                is_used: 0,
            }),
            forall|j: int| 0 <= j < DATA_SIZE ==> p.data@[j] == 0u8,
            p.wf(),
    {
        let mut slots: Vec<Slot> = Vec::new();
        let mut i: usize = 0;
        while i < MAX_SLOTS
            invariant
                i <= MAX_SLOTS,
                slots@.len() == i,
                forall|k: int| 0 <= k < i ==> slots@[k] == (Slot {
                    offset: 0,
                    length: 0,
                    is_used: 0,
                }),
            decreases MAX_SLOTS - i,
        {
            slots.push(Slot { offset: 0, length: 0, is_used: 0 });
            i = i + 1;
        }
        let mut data: Vec<u8> = Vec::new();
        let mut j: usize = 0;
        while j < DATA_SIZE
            invariant
                j <= DATA_SIZE,
                data@.len() == j,
                forall|k: int| 0 <= k < j ==> data@[k] == 0u8,
            decreases DATA_SIZE - j,
        {
            data.push(0u8);
            j = j + 1;
        }
        let p = Page {
            id,
            header: PageHeader {
                free_space: DATA_SIZE as u16,
                total_free_slots: MAX_SLOTS as u16,
            },
            slots,
            data,
        };
        proof {
            lemma_all_unused_counters(p.slots@, MAX_SLOTS as int);
        }
        p
    }
}

/// In a directory whose first `n` slots are all unused, no bytes and no
/// slots are claimed.
proof fn lemma_all_unused_counters(slots: Seq<Slot>, n: int)
    requires
        forall|i: int| 0 <= i < n ==> !slot_used(slots, i),
    ensures
        used_bytes(slots, n) == 0,
        used_count(slots, n) == 0,
    decreases n,
{
    if n > 0 {
        lemma_all_unused_counters(slots, n - 1);
    }
}

/// Two half-open ranges `[o1, o1 + l1)` and `[o2, o2 + l2)` have no byte in
/// common.
pub open spec fn ranges_disjoint(o1: int, l1: int, o2: int, l2: int) -> bool {
    o1 + l1 <= o2 || o2 + l2 <= o1
}

/// A tuple of `len` bytes can be placed at offset `o`: the range lies inside
/// the data region and overlaps no used slot's byte range.
pub open spec fn fits_at(slots: Seq<Slot>, o: int, len: int) -> bool {
    &&& 0 <= o
    &&& o + len <= DATA_SIZE
    &&& forall|i: int|
        0 <= i < slots.len() && slot_used(slots, i) ==> ranges_disjoint(
            o,
            len,
            slots[i].offset as int,
            slots[i].length as int,
        )
}

/// Offset `o` is the first-fit placement for `len` bytes: it fits, and no
/// smaller offset does.
pub open spec fn is_first_fit(slots: Seq<Slot>, o: int, len: int) -> bool {
    &&& fits_at(slots, o, len)
    &&& forall|o2: int| 0 <= o2 < o ==> !fits_at(slots, o2, len)
}

/// The used-byte counter never goes negative, and the used-slot counter
/// stays between `0` and `n`.
proof fn lemma_counters_bounds(slots: Seq<Slot>, n: int)
    ensures
        0 <= used_bytes(slots, n),
        0 <= used_count(slots, n) <= if n <= 0 {
            0int
        } else {
            n
        },
    decreases n,
{
    if n > 0 {
        lemma_counters_bounds(slots, n - 1);
    }
}

/// An unused slot below `n` leaves the used-slot counter strictly under `n`.
proof fn lemma_used_count_with_free_slot(slots: Seq<Slot>, n: int, i: int)
    requires
        0 <= i < n,
        !slot_used(slots, i),
    ensures
        used_count(slots, n) < n,
    decreases n,
{
    lemma_counters_bounds(slots, n - 1);
    if i < n - 1 {
        lemma_used_count_with_free_slot(slots, n - 1, i);
    }
}

/// Marking one previously unused slot as used raises the counters by that
/// slot's length and by one.
proof fn lemma_counters_after_update(slots: Seq<Slot>, idx: int, s: Slot, n: int)
    requires
        0 <= idx < slots.len(),
        n <= slots.len(),
        !slot_used(slots, idx),
        s.is_used != 0,
    ensures
        used_bytes(slots.update(idx, s), n) == used_bytes(slots, n) + if idx < n {
            s.length as int
        } else {
            0
        },
        used_count(slots.update(idx, s), n) == used_count(slots, n) + if idx < n {
            1int
        } else {
            0int
        },
    decreases n,
{
    if n > 0 {
        lemma_counters_after_update(slots, idx, s, n - 1);
    }
}

/// Serialized form of one slot directory entry: offset, length, the used
/// marker, and one padding byte.
pub open spec fn spec_slot_bytes(s: Slot) -> Seq<u8> {
    spec_u16_to_le_bytes(s.offset) + spec_u16_to_le_bytes(s.length) + seq![s.is_used, 0u8]
}

/// Serialized form of the first `n` entries of a slot directory.
pub open spec fn spec_slots_bytes(slots: Seq<Slot>, n: int) -> Seq<u8>
    decreases n,
{
    if n <= 0 {
        Seq::empty()
    } else {
        spec_slots_bytes(slots, n - 1) + spec_slot_bytes(slots[n - 1])
    }
}

/// Serialized form of a tuple header: xmin, xmax, page number, slot number,
/// and six padding bytes, 32 bytes in all.
pub open spec fn spec_tuple_header_bytes(h: TupleHeader) -> Seq<u8> {
    spec_u64_to_le_bytes(h.xmin) + spec_u64_to_le_bytes(h.xmax) + spec_u64_to_le_bytes(h.page_no)
        + spec_u16_to_le_bytes(h.slot_no) + seq![0u8, 0u8, 0u8, 0u8, 0u8, 0u8]
}

/// The tuple header stored at the start of the byte sequence `b`.
pub open spec fn spec_tuple_header_of_bytes(b: Seq<u8>) -> TupleHeader
    recommends
        b.len() >= TUPLE_HEADER_SIZE,
{
    TupleHeader {
        xmin: spec_u64_from_le_bytes(b.subrange(0, 8)),
        xmax: spec_u64_from_le_bytes(b.subrange(8, 16)),
        page_no: spec_u64_from_le_bytes(b.subrange(16, 24)),
        slot_no: spec_u16_from_le_bytes(b.subrange(24, 26)),
    }
}

/// Slot `i` as recorded in the serialized page `b`.
pub open spec fn spec_slot_of_bytes(b: Seq<u8>, i: int) -> Slot
    recommends
        b.len() == PAGE_SIZE,
        0 <= i < MAX_SLOTS,
{
    Slot {
        offset: spec_u16_from_le_bytes(b.subrange(12 + 6 * i, 12 + 6 * i + 2)),
        length: spec_u16_from_le_bytes(b.subrange(12 + 6 * i + 2, 12 + 6 * i + 4)),
        is_used: b[12 + 6 * i + 4],
    }
}

/// The page `p` is what the serialized page `b` records: the id, both
/// header fields, all 256 slots and the whole data region, each read back
/// from its fixed position.
pub open spec fn page_decodes_to(b: Seq<u8>, p: Page) -> bool
    recommends
        b.len() == PAGE_SIZE,
{
    &&& p.id == spec_u64_from_le_bytes(b.subrange(0, 8))
    &&& p.header.free_space == spec_u16_from_le_bytes(b.subrange(8, 10))
    &&& p.header.total_free_slots == spec_u16_from_le_bytes(b.subrange(10, 12))
    &&& p.slots@.len() == MAX_SLOTS
    &&& forall|i: int| 0 <= i < MAX_SLOTS ==> p.slots@[i] == spec_slot_of_bytes(b, i)
    &&& p.data@ == b.subrange(DATA_OFFSET as int, PAGE_SIZE as int)
}

/// The serialized slot directory is six bytes per entry.
proof fn lemma_slots_bytes_len(slots: Seq<Slot>, n: int)
    requires
        n >= 0,
    ensures
        spec_slots_bytes(slots, n).len() == 6 * n,
    decreases n,
{
    lemma_auto_spec_u16_to_from_le_bytes();
    if n > 0 {
        lemma_slots_bytes_len(slots, n - 1);
    }
}

/// Entry `i` occupies bytes `6 * i .. 6 * i + 6` of the serialized slot
/// directory.
proof fn lemma_slots_bytes_entry(slots: Seq<Slot>, n: int, i: int)
    requires
        0 <= i < n,
    ensures
        spec_slots_bytes(slots, n).subrange(6 * i, 6 * i + 6) == spec_slot_bytes(slots[i]),
    decreases n,
{
    lemma_auto_spec_u16_to_from_le_bytes();
    lemma_slots_bytes_len(slots, n - 1);
    if i == n - 1 {
        assert(spec_slots_bytes(slots, n).subrange(6 * i, 6 * i + 6) =~= spec_slot_bytes(
            slots[i],
        ));
    } else {
        lemma_slots_bytes_entry(slots, n - 1, i);
        assert(spec_slots_bytes(slots, n).subrange(6 * i, 6 * i + 6) =~= spec_slots_bytes(
            slots,
            n - 1,
        ).subrange(6 * i, 6 * i + 6));
    }
}

impl TupleHeader {
    /// Serializes this header into its fixed 32-byte form.
    pub fn to_bytes(&self) -> (r: Vec<u8>)
        ensures
            r@ == spec_tuple_header_bytes(*self),
            r@.len() == TUPLE_HEADER_SIZE,
    {
        let mut buf = u64_to_le_bytes(self.xmin);
        let mut part = u64_to_le_bytes(self.xmax);
        buf.append(&mut part);
        let mut part = u64_to_le_bytes(self.page_no);
        buf.append(&mut part);
        let mut part = u16_to_le_bytes(self.slot_no);
        buf.append(&mut part);
        let mut k: usize = 0;
        while k < 6
            invariant
                k <= 6,
                buf@ == spec_u64_to_le_bytes(self.xmin) + spec_u64_to_le_bytes(self.xmax)
                    + spec_u64_to_le_bytes(self.page_no) + spec_u16_to_le_bytes(self.slot_no)
                    + Seq::new(k as nat, |j: int| 0u8),
            decreases 6 - k,
        {
            buf.push(0u8);
            proof {
                assert(Seq::new(k as nat, |j: int| 0u8).push(0u8) =~= Seq::new(
                    (k + 1) as nat,
                    |j: int| 0u8,
                ));
            }
            k = k + 1;
        }
        proof {
            lemma_auto_spec_u64_to_from_le_bytes();
            lemma_auto_spec_u16_to_from_le_bytes();
            assert(Seq::new(6, |j: int| 0u8) =~= seq![0u8, 0u8, 0u8, 0u8, 0u8, 0u8]);
            assert(buf@ =~= spec_tuple_header_bytes(*self));
        }
        buf
    }

    /// Reads a tuple header back from the first 32 bytes of `bytes`;
    /// refuses a buffer shorter than that.
    pub fn from_bytes(bytes: &[u8]) -> (r: Option<TupleHeader>)
        ensures
            match r {
                Some(h) => bytes@.len() >= TUPLE_HEADER_SIZE && h == spec_tuple_header_of_bytes(
                    bytes@,
                ),
                None => bytes@.len() < TUPLE_HEADER_SIZE,
            },
    {
        if bytes.len() < TUPLE_HEADER_SIZE {
            return None;
        }
        let xmin = u64_from_le_bytes(slice_subrange(bytes, 0, 8));
        let xmax = u64_from_le_bytes(slice_subrange(bytes, 8, 16));
        let page_no = u64_from_le_bytes(slice_subrange(bytes, 16, 24));
        let slot_no = u16_from_le_bytes(slice_subrange(bytes, 24, 26));
        Some(TupleHeader { xmin, xmax, page_no, slot_no })
    }
}

impl Page {
    /// Serialized form of the whole page: id, header, slot directory, data
    /// region — exactly [`PAGE_SIZE`] bytes for a well-dimensioned page.
    pub open spec fn spec_bytes(self) -> Seq<u8> {
        spec_u64_to_le_bytes(self.id) + spec_u16_to_le_bytes(self.header.free_space)
            + spec_u16_to_le_bytes(self.header.total_free_slots) + spec_slots_bytes(
            self.slots@,
            MAX_SLOTS as int,
        ) + self.data@
    }

    /// Serializes the page into its on-disk form.
    pub fn to_bytes(&self) -> (r: Vec<u8>)
        requires
            self.has_page_dims(),
        ensures
            r@ == self.spec_bytes(),
            r@.len() == PAGE_SIZE,
    {
        proof {
            lemma_auto_spec_u64_to_from_le_bytes();
            lemma_auto_spec_u16_to_from_le_bytes();
        }
        let mut buf = u64_to_le_bytes(self.id);
        let mut part = u16_to_le_bytes(self.header.free_space);
        buf.append(&mut part);
        let mut part = u16_to_le_bytes(self.header.total_free_slots);
        buf.append(&mut part);
        let ghost head: Seq<u8> = spec_u64_to_le_bytes(self.id) + spec_u16_to_le_bytes(
            self.header.free_space,
        ) + spec_u16_to_le_bytes(self.header.total_free_slots);
        let mut i: usize = 0;
        while i < MAX_SLOTS
            invariant
                i <= MAX_SLOTS,
                self.has_page_dims(),
                buf@ == head + spec_slots_bytes(self.slots@, i as int),
                head == spec_u64_to_le_bytes(self.id) + spec_u16_to_le_bytes(
                    self.header.free_space,
                ) + spec_u16_to_le_bytes(self.header.total_free_slots),
            decreases MAX_SLOTS - i,
        {
            let s = self.slots[i];
            let mut part = u16_to_le_bytes(s.offset);
            buf.append(&mut part);
            let mut part = u16_to_le_bytes(s.length);
            buf.append(&mut part);
            buf.push(s.is_used);
            buf.push(0u8);
            proof {
                lemma_auto_spec_u16_to_from_le_bytes();
                assert(buf@ =~= head + spec_slots_bytes(self.slots@, i + 1));
            }
            i = i + 1;
        }
        let mut region = slice_to_vec(self.data.as_slice());
        buf.append(&mut region);
        proof {
            lemma_slots_bytes_len(self.slots@, MAX_SLOTS as int);
            assert(buf@ =~= self.spec_bytes());
        }
        buf
    }

    /// Reads a page back from its serialized form; refuses a buffer that is
    /// not exactly [`PAGE_SIZE`] bytes.
    pub fn from_bytes(buf: &[u8]) -> (r: Result<Page, PageError>)
        ensures
            match r {
                Ok(p) => buf@.len() == PAGE_SIZE && page_decodes_to(buf@, p),
                Err(e) => e == PageError::InvalidPageSize && buf@.len() != PAGE_SIZE,
            },
    {
        if buf.len() != PAGE_SIZE {
            return Err(PageError::InvalidPageSize);
        }
        let id = u64_from_le_bytes(slice_subrange(buf, 0, 8));
        let free_space = u16_from_le_bytes(slice_subrange(buf, 8, 10));
        let total_free_slots = u16_from_le_bytes(slice_subrange(buf, 10, 12));
        let mut slots: Vec<Slot> = Vec::new();
        let mut i: usize = 0;
        while i < MAX_SLOTS
            invariant
                i <= MAX_SLOTS,
                buf@.len() == PAGE_SIZE,
                slots@.len() == i,
                forall|k: int| 0 <= k < i ==> slots@[k] == spec_slot_of_bytes(buf@, k),
            decreases MAX_SLOTS - i,
        {
            let base = 12 + 6 * i;
            let offset = u16_from_le_bytes(slice_subrange(buf, base, base + 2));
            let length = u16_from_le_bytes(slice_subrange(buf, base + 2, base + 4));
            let is_used = *slice_subrange(buf, base + 4, base + 5).first().unwrap();
            slots.push(Slot { offset, length, is_used });
            i = i + 1;
        }
        let data = slice_to_vec(slice_subrange(buf, DATA_OFFSET, PAGE_SIZE));
        Ok(Page { id, header: PageHeader { free_space, total_free_slots }, slots, data })
    }
}

/// Decoding what [`Page::to_bytes`] produced reads back exactly the fields
/// that were written.
proof fn lemma_encode_decodes_to_self(p: Page)
    requires
        p.has_page_dims(),
    ensures
        p.spec_bytes().len() == PAGE_SIZE,
        page_decodes_to(p.spec_bytes(), p),
{
    lemma_auto_spec_u64_to_from_le_bytes();
    lemma_auto_spec_u16_to_from_le_bytes();
    lemma_slots_bytes_len(p.slots@, MAX_SLOTS as int);
    let b = p.spec_bytes();
    let slots_part = spec_slots_bytes(p.slots@, MAX_SLOTS as int);
    assert(b.subrange(0, 8) =~= spec_u64_to_le_bytes(p.id));
    assert(b.subrange(8, 10) =~= spec_u16_to_le_bytes(p.header.free_space));
    assert(b.subrange(10, 12) =~= spec_u16_to_le_bytes(p.header.total_free_slots));
    assert(b.subrange(DATA_OFFSET as int, PAGE_SIZE as int) =~= p.data@);
    assert forall|i: int| 0 <= i < MAX_SLOTS implies p.slots@[i] == spec_slot_of_bytes(b, i) by {
        lemma_slots_bytes_entry(p.slots@, MAX_SLOTS as int, i);
        let entry = spec_slot_bytes(p.slots@[i]);
        assert(b.subrange(12 + 6 * i, 12 + 6 * i + 6) =~= slots_part.subrange(6 * i, 6 * i + 6));
        assert(b.subrange(12 + 6 * i, 12 + 6 * i + 2) =~= entry.subrange(0, 2));
        assert(b.subrange(12 + 6 * i + 2, 12 + 6 * i + 4) =~= entry.subrange(2, 4));
        assert(entry.subrange(0, 2) =~= spec_u16_to_le_bytes(p.slots@[i].offset));
        assert(entry.subrange(2, 4) =~= spec_u16_to_le_bytes(p.slots@[i].length));
        assert(b[12 + 6 * i + 4] == entry[4]);
        assert(entry[4] == p.slots@[i].is_used);
    }
}

/// Overwrites `dst[at .. at + src.len()]` with the bytes of `src`, leaving
/// every other byte in place.
pub fn write_bytes_at(dst: &mut Vec<u8>, at: usize, src: &[u8])
    requires
        at + src@.len() <= old(dst)@.len(),
    ensures
        final(dst)@ == old(dst)@.subrange(0, at as int) + src@ + old(dst)@.subrange(
            at + src@.len(),
            old(dst)@.len() as int,
        ),
{
    let n = src.len();
    let dst_len = dst.len();
    assert(at + n <= dst_len);
    let mut k: usize = 0;
    while k < n
        invariant
            k <= n,
            n == src@.len(),
            at + n <= usize::MAX,
            at + n <= dst@.len(),
            dst@.len() == old(dst)@.len(),
            forall|j: int| 0 <= j < at ==> dst@[j] == old(dst)@[j],
            forall|j: int| at <= j < at + k ==> dst@[j] == src@[j - at],
            forall|j: int| at + k <= j < dst@.len() ==> dst@[j] == old(dst)@[j],
        decreases n - k,
    {
        dst.set(at + k, src[k]);
        k = k + 1;
    }
    proof {
        assert(dst@ =~= old(dst)@.subrange(0, at as int) + src@ + old(dst)@.subrange(
            at + src@.len(),
            old(dst)@.len() as int,
        ));
    }
}

impl Page {
    /// Some entry of the slot directory is still unused.
    pub open spec fn spec_has_free_slot(self) -> bool {
        exists|i: int| 0 <= i < MAX_SLOTS && !slot_used(self.slots@, i)
    }

    /// Some offset of the data region can hold `len` contiguous bytes.
    pub open spec fn spec_can_place(self, len: int) -> bool {
        exists|o: int| fits_at(self.slots@, o, len)
    }

    /// Finds the lowest-numbered unused slot of the directory.
    fn find_free_slot(&self) -> (r: Option<usize>)
        requires
            self.slots@.len() == MAX_SLOTS,
        ensures
            match r {
                Some(i) => i < MAX_SLOTS && !slot_used(self.slots@, i as int) && forall|j: int|
                    0 <= j < i ==> slot_used(self.slots@, j),
                None => forall|j: int| 0 <= j < MAX_SLOTS ==> slot_used(self.slots@, j),
            },
    {
        let mut i: usize = 0;
        while i < MAX_SLOTS
            invariant
                i <= MAX_SLOTS,
                self.slots@.len() == MAX_SLOTS,
                forall|j: int| 0 <= j < i ==> slot_used(self.slots@, j),
            decreases MAX_SLOTS - i,
        {
            if self.slots[i].is_used == 0 {
                return Some(i);
            }
            i = i + 1;
        }
        None
    }

    /// Looks for a used slot whose byte range overlaps `[start, start + len)`
    /// and reports the end of that slot's range.
    fn find_blocking_end(&self, start: usize, len: usize) -> (r: Option<usize>)
        requires
            self.wf(),
            start + len <= DATA_SIZE,
            len > 0,
        ensures
            match r {
                Some(e) => start < e <= DATA_SIZE && forall|o: int|
                    start <= o < e ==> !fits_at(self.slots@, o, len as int),
                None => fits_at(self.slots@, start as int, len as int),
            },
    {
        let mut i: usize = 0;
        while i < MAX_SLOTS
            invariant
                i <= MAX_SLOTS,
                self.wf(),
                start + len <= DATA_SIZE,
                len > 0,
                forall|j: int|
                    0 <= j < i && slot_used(self.slots@, j) ==> ranges_disjoint(
                        start as int,
                        len as int,
                        self.slots@[j].offset as int,
                        self.slots@[j].length as int,
                    ),
            decreases MAX_SLOTS - i,
        {
            let s = self.slots[i];
            if s.is_used != 0 && start < s.offset as usize + s.length as usize && (s.offset
                as usize) < start + len {
                let e = s.offset as usize + s.length as usize;
                proof {
                    assert(slot_used(self.slots@, i as int));
                    assert(slot_in_bounds(self.slots@, i as int));
                    assert forall|o: int| start <= o < e implies !fits_at(
                        self.slots@,
                        o,
                        len as int,
                    ) by {
                        assert(slot_used(self.slots@, i as int));
                        assert(!ranges_disjoint(
                            o,
                            len as int,
                            self.slots@[i as int].offset as int,
                            self.slots@[i as int].length as int,
                        ));
                    }
                }
                return Some(e);
            }
            i = i + 1;
        }
        None
    }

    /// First-fit search for a free byte range of length `len`: the lowest
    /// offset at which the range overlaps no used slot.  Walking the used
    /// ranges in offset order and taking the first sufficient gap would land
    /// on the same offset, since a gap's start is the lowest offset inside
    /// it that could fit anything.
    fn find_free_space_offset(&self, len: usize) -> (r: Option<u16>)
        requires
            self.wf(),
            0 < len <= DATA_SIZE,
        ensures
            match r {
                Some(o) => is_first_fit(self.slots@, o as int, len as int),
                None => forall|o: int| !fits_at(self.slots@, o, len as int),
            },
    {
        let mut cursor: usize = 0;
        loop
            invariant
                self.wf(),
                0 < len <= DATA_SIZE,
                cursor <= DATA_SIZE,
                forall|o: int| 0 <= o < cursor ==> !fits_at(self.slots@, o, len as int),
            decreases DATA_SIZE - cursor,
        {
            if cursor + len > DATA_SIZE {
                proof {
                    assert forall|o: int| !fits_at(self.slots@, o, len as int) by {
                        if o >= cursor {
                            assert(o + len > DATA_SIZE);
                        }
                    }
                }
                return None;
            }
            match self.find_blocking_end(cursor, len) {
                None => {
                    return Some(cursor as u16);
                },
                Some(e) => {
                    cursor = e;
                },
            }
        }
    }
}

impl Page {
    /// Inserts one tuple: a 32-byte header built from `xmin`, `xmax`,
    /// `page_no` and the chosen slot number, followed by the payload
    /// `tuple_data`, placed first-fit into the data region and recorded in
    /// the lowest-numbered free slot.  All checks precede any write, so a
    /// refused insert leaves the page untouched.
    pub fn insert_tuple(
        &mut self,
        xmin: u64,
        xmax: u64,
        page_no: u64,
        tuple_data: &[u8],
    ) -> (r: Result<usize, PageError>)
        requires
            old(self).wf(),
        ensures
            final(self).wf(),
            final(self).id == old(self).id,
            match r {
                Ok(idx) => {
                    let total = TUPLE_HEADER_SIZE + tuple_data@.len();
                    let s = final(self).slots@[idx as int];
                    &&& 0 <= idx < MAX_SLOTS
                    &&& total <= old(self).header.free_space
                    &&& !slot_used(old(self).slots@, idx as int)
                    &&& forall|j: int| 0 <= j < idx ==> slot_used(old(self).slots@, j)
                    &&& s.is_used == 1
                    &&& s.length == total
                    &&& is_first_fit(old(self).slots@, s.offset as int, total as int)
                    &&& final(self).slots@ == old(self).slots@.update(idx as int, s)
                    &&& final(self).data@ == old(self).data@.subrange(0, s.offset as int)
                        + spec_tuple_header_bytes(
                        TupleHeader { xmin, xmax, page_no, slot_no: idx as u16 },
                    ) + tuple_data@ + old(self).data@.subrange(
                        s.offset + total,
                        DATA_SIZE as int,
                    )
                    &&& final(self).header.free_space == old(self).header.free_space - total
                    &&& final(self).header.total_free_slots == old(
                        self,
                    ).header.total_free_slots - 1
                },
                Err(e) => {
                    let total = TUPLE_HEADER_SIZE + tuple_data@.len();
                    &&& final(self).header == old(self).header
                    &&& final(self).slots@ == old(self).slots@
                    &&& final(self).data@ == old(self).data@
                    &&& match e {
                        PageError::NotEnoughFreeSpace => total > old(self).header.free_space,
                        PageError::NoFreeSlots => total <= old(self).header.free_space && !old(
                            self,
                        ).spec_has_free_slot(),
                        PageError::NoFreeDataSpace => total <= old(self).header.free_space && old(
                            self,
                        ).spec_has_free_slot() && !old(self).spec_can_place(total as int),
                        _ => false,
                    }
                },
            },
    {
        proof {
            lemma_counters_bounds(self.slots@, MAX_SLOTS as int);
        }
        if tuple_data.len() > DATA_SIZE - TUPLE_HEADER_SIZE {
            return Err(PageError::NotEnoughFreeSpace);
        }
        let total_len = TUPLE_HEADER_SIZE + tuple_data.len();
        if total_len > self.header.free_space as usize {
            return Err(PageError::NotEnoughFreeSpace);
        }
        let slot_index = match self.find_free_slot() {
            Some(i) => i,
            None => {
                return Err(PageError::NoFreeSlots);
            },
        };
        let offset = match self.find_free_space_offset(total_len) {
            Some(o) => o,
            None => {
                return Err(PageError::NoFreeDataSpace);
            },
        };
        if offset as usize + total_len > DATA_SIZE {
            return Err(PageError::NotEnoughContiguousSpace);
        }
        let tuple_header = TupleHeader { xmin, xmax, page_no, slot_no: slot_index as u16 };
        let header_bytes = tuple_header.to_bytes();
        write_bytes_at(&mut self.data, offset as usize, header_bytes.as_slice());
        write_bytes_at(&mut self.data, offset as usize + TUPLE_HEADER_SIZE, tuple_data);
        let new_slot = Slot { offset, length: total_len as u16, is_used: 1 };
        self.slots.set(slot_index, new_slot);
        proof {
            lemma_used_count_with_free_slot(old(self).slots@, MAX_SLOTS as int, slot_index as int);
            lemma_counters_after_update(
                old(self).slots@,
                slot_index as int,
                new_slot,
                MAX_SLOTS as int,
            );
        }
        self.header.free_space = self.header.free_space - total_len as u16;
        self.header.total_free_slots = self.header.total_free_slots - 1;
        proof {
            let os = old(self).slots@;
            let ns = self.slots@;
            assert(fits_at(os, offset as int, total_len as int));
            assert(ns == os.update(slot_index as int, new_slot));
            assert(ns[slot_index as int] == new_slot);
            assert forall|i: int|
                0 <= i < MAX_SLOTS && slot_used(ns, i) implies slot_in_bounds(ns, i) by {
                if i != slot_index {
                    assert(ns[i] == os[i]);
                    assert(slot_used(os, i));
                    assert(slot_in_bounds(os, i));
                } else {
                    assert(ns[i].offset == offset && ns[i].length == total_len);
                }
            }
            assert forall|i: int, j: int|
                0 <= i < ns.len() && 0 <= j < ns.len() && i != j && slot_used(ns, i) && slot_used(
                    ns,
                    j,
                ) implies ranges_disjoint(
                ns[i].offset as int,
                ns[i].length as int,
                ns[j].offset as int,
                ns[j].length as int,
            ) by {
                if i != slot_index && j != slot_index {
                    assert(ns[i] == os[i] && ns[j] == os[j]);
                    assert(slot_used(os, i) && slot_used(os, j));
                } else if i == slot_index {
                    assert(ns[j] == os[j]);
                    assert(slot_used(os, j));
                    assert(ranges_disjoint(
                        offset as int,
                        total_len as int,
                        os[j].offset as int,
                        os[j].length as int,
                    ));
                } else {
                    assert(ns[i] == os[i]);
                    assert(slot_used(os, i));
                    assert(ranges_disjoint(
                        offset as int,
                        total_len as int,
                        os[i].offset as int,
                        os[i].length as int,
                    ));
                }
            }
            assert(self.data@ =~= old(self).data@.subrange(0, offset as int)
                + spec_tuple_header_bytes(tuple_header) + tuple_data@ + old(self).data@.subrange(
                offset + total_len,
                DATA_SIZE as int,
            ));
        }
        Ok(slot_index)
    }
}

impl Page {
    /// The byte range of slot `i` holds a decodable tuple: the slot is used,
    /// at least one tuple header long, and within the data region.
    pub open spec fn spec_slot_readable(self, i: int) -> bool {
        &&& 0 <= i < MAX_SLOTS
        &&& slot_used(self.slots@, i)
        &&& self.slots@[i].length >= TUPLE_HEADER_SIZE
        &&& self.slots@[i].offset + self.slots@[i].length <= DATA_SIZE
    }

    /// The tuple header stored at the start of slot `i`'s byte range.
    pub open spec fn spec_header_at(self, i: int) -> TupleHeader {
        spec_tuple_header_of_bytes(
            self.data@.subrange(
                self.slots@[i].offset as int,
                self.slots@[i].offset + TUPLE_HEADER_SIZE,
            ),
        )
    }

    /// The payload stored after the tuple header in slot `i`'s byte range.
    pub open spec fn spec_payload_at(self, i: int) -> Seq<u8> {
        self.data@.subrange(
            self.slots@[i].offset + TUPLE_HEADER_SIZE,
            self.slots@[i].offset + self.slots@[i].length,
        )
    }

    /// Everything [`Page::scan_page`] hands back for reader `txid` once the
    /// first `n` slots have been examined: the header and payload of every
    /// readable, visible tuple, in slot order.
    pub open spec fn spec_scan(self, txid: u64, n: int) -> Seq<(TupleHeader, Seq<u8>)>
        decreases n,
    {
        if n <= 0 {
            Seq::empty()
        } else {
            let rest = self.spec_scan(txid, n - 1);
            if self.spec_slot_readable(n - 1) && self.spec_header_at(n - 1).spec_is_visible(
                txid,
            ) {
                rest.push((self.spec_header_at(n - 1), self.spec_payload_at(n - 1)))
            } else {
                rest
            }
        }
    }

    /// Everything [`Page::read_all_slots`] hands back once the first `n`
    /// slots have been examined: slot number, header and payload of every
    /// readable tuple, visible or not, in slot order.
    pub open spec fn spec_all_slots(self, n: int) -> Seq<(int, TupleHeader, Seq<u8>)>
        decreases n,
    {
        if n <= 0 {
            Seq::empty()
        } else {
            let rest = self.spec_all_slots(n - 1);
            if self.spec_slot_readable(n - 1) {
                rest.push((n - 1, self.spec_header_at(n - 1), self.spec_payload_at(n - 1)))
            } else {
                rest
            }
        }
    }

    /// Reads the tuple stored in slot `index`: its header and its payload.
    /// Yields nothing for an unused slot, or for one whose recorded byte
    /// range could not hold a well-formed tuple.
    pub fn read_slot(&self, index: usize) -> (r: Option<(TupleHeader, Vec<u8>)>)
        requires
            self.has_page_dims(),
        ensures
            match r {
                Some(entry) => self.spec_slot_readable(index as int) && entry.0
                    == self.spec_header_at(index as int) && entry.1@ == self.spec_payload_at(
                    index as int,
                ),
                None => !self.spec_slot_readable(index as int),
            },
    {
        if index >= MAX_SLOTS {
            return None;
        }
        let slot = self.slots[index];
        if slot.is_used == 0 || (slot.length as usize) < TUPLE_HEADER_SIZE {
            return None;
        }
        let offset = slot.offset as usize;
        let end = offset + slot.length as usize;
        if end > DATA_SIZE {
            return None;
        }
        let header_slice = slice_subrange(self.data.as_slice(), offset, offset + TUPLE_HEADER_SIZE);
        let header = match TupleHeader::from_bytes(header_slice) {
            Some(h) => h,
            None => {
                return None;
            },
        };
        let payload = slice_to_vec(
            slice_subrange(self.data.as_slice(), offset + TUPLE_HEADER_SIZE, end),
        );
        Some((header, payload))
    }

    /// Walks the slot directory in index order and returns the header and
    /// payload of every stored tuple that is visible to the reader `txid`.
    pub fn scan_page(&self, txid: u64) -> (r: Vec<(TupleHeader, Vec<u8>)>)
        requires
            self.has_page_dims(),
        ensures
            r@.len() == self.spec_scan(txid, MAX_SLOTS as int).len(),
            forall|k: int|
                0 <= k < r@.len() ==> r@[k].0 == self.spec_scan(txid, MAX_SLOTS as int)[k].0
                    && r@[k].1@ == self.spec_scan(txid, MAX_SLOTS as int)[k].1,
    {
        let mut result: Vec<(TupleHeader, Vec<u8>)> = Vec::new();
        let mut i: usize = 0;
        while i < MAX_SLOTS
            invariant
                i <= MAX_SLOTS,
                self.has_page_dims(),
                result@.len() == self.spec_scan(txid, i as int).len(),
                forall|k: int|
                    0 <= k < result@.len() ==> result@[k].0 == self.spec_scan(txid, i as int)[k].0
                        && result@[k].1@ == self.spec_scan(txid, i as int)[k].1,
            decreases MAX_SLOTS - i,
        {
            match self.read_slot(i) {
                Some(entry) => {
                    if entry.0.is_visible(txid) {
                        result.push(entry);
                    }
                },
                None => {},
            }
            i = i + 1;
        }
        result
    }

    /// Walks the slot directory in index order and returns the slot number,
    /// header and payload of every stored tuple, regardless of visibility.
    pub fn read_all_slots(&self) -> (r: Vec<(usize, TupleHeader, Vec<u8>)>)
        requires
            self.has_page_dims(),
        ensures
            r@.len() == self.spec_all_slots(MAX_SLOTS as int).len(),
            forall|k: int|
                0 <= k < r@.len() ==> r@[k].0 == self.spec_all_slots(MAX_SLOTS as int)[k].0
                    && r@[k].1 == self.spec_all_slots(MAX_SLOTS as int)[k].1 && r@[k].2@
                    == self.spec_all_slots(MAX_SLOTS as int)[k].2,
    {
        let mut result: Vec<(usize, TupleHeader, Vec<u8>)> = Vec::new();
        let mut i: usize = 0;
        while i < MAX_SLOTS
            invariant
                i <= MAX_SLOTS,
                self.has_page_dims(),
                result@.len() == self.spec_all_slots(i as int).len(),
                forall|k: int|
                    0 <= k < result@.len() ==> result@[k].0 == self.spec_all_slots(i as int)[k].0
                        && result@[k].1 == self.spec_all_slots(i as int)[k].1 && result@[k].2@
                        == self.spec_all_slots(i as int)[k].2,
            decreases MAX_SLOTS - i,
        {
            match self.read_slot(i) {
                Some(entry) => {
                    result.push((i, entry.0, entry.1));
                },
                None => {},
            }
            i = i + 1;
        }
        result
    }
}

/// Round trip for tuple metadata: the header read back from the 32 bytes
/// that [`TupleHeader::to_bytes`] writes is the header that was written.
pub proof fn lemma_tuple_header_round_trip(h: TupleHeader)
    ensures
        spec_tuple_header_bytes(h).len() == TUPLE_HEADER_SIZE,
        spec_tuple_header_of_bytes(spec_tuple_header_bytes(h)) == h,
{
    lemma_auto_spec_u64_to_from_le_bytes();
    lemma_auto_spec_u16_to_from_le_bytes();
    let b = spec_tuple_header_bytes(h);
    assert(b.subrange(0, 8) =~= spec_u64_to_le_bytes(h.xmin));
    assert(b.subrange(8, 16) =~= spec_u64_to_le_bytes(h.xmax));
    assert(b.subrange(16, 24) =~= spec_u64_to_le_bytes(h.page_no));
    assert(b.subrange(24, 26) =~= spec_u16_to_le_bytes(h.slot_no));
}

/// Slots that contribute nothing to a scan — unused, unreadable, or holding
/// a tuple invisible to `txid` — leave the scan's result unchanged.
pub proof fn lemma_scan_skips_slots(p: Page, txid: u64, a: int, b: int)
    requires
        0 <= a <= b,
        forall|i: int|
            a <= i < b ==> !(p.spec_slot_readable(i) && p.spec_header_at(i).spec_is_visible(txid)),
    ensures
        p.spec_scan(txid, b) == p.spec_scan(txid, a),
    decreases b - a,
{
    if a < b {
        lemma_scan_skips_slots(p, txid, a, b - 1);
    }
}

/// Space accounting: on a well-formed page the cached header counters are
/// exactly what the slot directory says — the free-space counter is the data
/// region's capacity minus every used slot's length, and the free-slot
/// counter is the directory's capacity minus the number of used slots.
/// Since every successful insert claims one slot of length
/// `TUPLE_HEADER_SIZE + payload` and preserves well-formedness, the counters
/// always account for every insert since the page was created empty.
pub proof fn lemma_space_accounting(p: Page)
    requires
        p.wf(),
    ensures
        p.header.free_space == DATA_SIZE - used_bytes(p.slots@, MAX_SLOTS as int),
        p.header.total_free_slots == MAX_SLOTS - used_count(p.slots@, MAX_SLOTS as int),
{
}

/// No overlap: on a well-formed page the byte ranges of any two distinct
/// used slots are disjoint.
pub proof fn lemma_used_slot_ranges_disjoint(p: Page, i: int, j: int)
    requires
        p.wf(),
        0 <= i < MAX_SLOTS,
        0 <= j < MAX_SLOTS,
        i != j,
        slot_used(p.slots@, i),
        slot_used(p.slots@, j),
    ensures
        ranges_disjoint(
            p.slots@[i].offset as int,
            p.slots@[i].length as int,
            p.slots@[j].offset as int,
            p.slots@[j].length as int,
        ),
{
}

/// Round trip: serializing a well-dimensioned page and decoding the result
/// reproduces the page's id, its header, every slot and every data byte.
pub proof fn lemma_round_trip(p: Page, q: Page)
    requires
        p.has_page_dims(),
        page_decodes_to(p.spec_bytes(), q),
    ensures
        q.id == p.id,
        q.header == p.header,
        q.slots@ == p.slots@,
        q.data@ == p.data@,
        q.has_page_dims(),
        p.wf() ==> q.wf(),
{
    lemma_encode_decodes_to_self(p);
    let b = p.spec_bytes();
    assert forall|i: int| 0 <= i < MAX_SLOTS implies q.slots@[i] == p.slots@[i] by {
        assert(q.slots@[i] == spec_slot_of_bytes(b, i));
        assert(p.slots@[i] == spec_slot_of_bytes(b, i));
    }
    assert(q.slots@ =~= p.slots@);
}

} // verus!
