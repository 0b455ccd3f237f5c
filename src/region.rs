//! Decoding of `.mca` region files: a location table of 1024 entries
//! followed by sector runs that hold one compressed chunk each.
use vstd::prelude::*;

verus! {

/// Size in bytes of one sector of a region file.
pub const SECTOR_BYTES: u64 = 4096;

/// Chunks along each side of a region.
pub const REGION_SIDE: usize = 32;

/// Number of chunk slots in a region.
pub const SLOT_COUNT: usize = 1024;

/// Compression scheme byte that marks a zlib stream.
pub const SCHEME_ZLIB: u8 = 2;

/// What one slot of the location table leads to.
pub enum ChunkRead {
    /// The slot's sector count is zero.
    Absent,
    /// The slot points outside the file or its length field is malformed.
    Unreadable,
    /// The chunk uses a compression scheme other than zlib.
    Unsupported(u8),
    /// The zlib-compressed chunk payload.
    Zlib(Vec<u8>),
}

/// One slot of a region, at chunk-local coordinates `x` and `z`.
pub struct RegionChunk {
    pub x: u32,
    pub z: u32,
    pub read: ChunkRead,
}

/// Big-endian integer in the three bytes starting at `at`.
pub open spec fn be24(data: Seq<u8>, at: int) -> int {
    data[at] as int * 65536 + data[at + 1] as int * 256 + data[at + 2] as int
}

/// Big-endian integer in the four bytes starting at `at`.
pub open spec fn be32(data: Seq<u8>, at: int) -> int {
    data[at] as int * 16777216 + be24(data, at + 1)
}

/// Byte offset of the location-table entry of slot `slot`.
pub open spec fn entry_at(slot: int) -> int {
    4 * slot
}

/// Byte offset at which the chunk of slot `slot` starts.
pub open spec fn chunk_start(data: Seq<u8>, slot: int) -> int {
    be24(data, entry_at(slot)) * SECTOR_BYTES
}

/// What reading slot `slot` of the region `data` yields.
pub open spec fn read_matches(r: ChunkRead, data: Seq<u8>, slot: int) -> bool {
    let e = entry_at(slot);
    let start = chunk_start(data, slot);
    if data.len() < e + 4 {
        r is Unreadable
    } else if data[e + 3] == 0 {
        r is Absent
    } else if data.len() < start + 5 {
        r is Unreadable
    } else if data[start + 4] != SCHEME_ZLIB {
        r == ChunkRead::Unsupported(data[start + 4])
    } else if be32(data, start) == 0 || data.len() < start + 4 + be32(data, start) {
        r is Unreadable
    } else {
        &&& r is Zlib
        &&& r->Zlib_0@ == data.subrange(start + 5, start + 4 + be32(data, start))
    }
}

/// Slot index of the chunk at chunk-local coordinates `x`, `z`.
pub open spec fn slot_of(x: int, z: int) -> int {
    x + 32 * z
}

/// Copies `data[from..to]` into a new vector.
fn copy_range(data: &Vec<u8>, from: usize, to: usize) -> (r: Vec<u8>)
    requires
        from <= to <= data@.len(),
    ensures
        r@ == data@.subrange(from as int, to as int),
{
    let mut r: Vec<u8> = Vec::with_capacity(to - from);
    let mut i: usize = from;
    while i < to
        invariant
            from <= i <= to <= data@.len(),
            r@ == data@.subrange(from as int, i as int),
        decreases to - i,
    {
        r.push(data[i]);
        i = i + 1;
        assert(r@ =~= data@.subrange(from as int, i as int));
    }
    r
}

/// Reads the slot `slot` of the region held in `data`.
pub fn read_slot(data: &Vec<u8>, slot: usize) -> (r: ChunkRead)
    requires
        slot < SLOT_COUNT,
    ensures
        read_matches(r, data@, slot as int),
{
    let len = data.len() as u64;
    let e = 4 * slot as u64;
    if len < e + 4 {
        return ChunkRead::Unreadable;
    }
    let e = e as usize;
    if data[e + 3] == 0 {
        return ChunkRead::Absent;
    }
    let sectors = data[e] as u64 * 65536 + data[e + 1] as u64 * 256 + data[e + 2] as u64;
    let start = sectors * SECTOR_BYTES;
    if len < start + 5 {
        return ChunkRead::Unreadable;
    }
    let s = start as usize;
    let scheme = data[s + 4];
    if scheme != SCHEME_ZLIB {
        return ChunkRead::Unsupported(scheme);
    }
    let stored = data[s] as u64 * 16777216 + data[s + 1] as u64 * 65536 + data[s + 2] as u64 * 256
        + data[s + 3] as u64;
    if stored == 0 || len < start + 4 + stored {
        return ChunkRead::Unreadable;
    }
    let payload = copy_range(data, s + 5, (start + 4 + stored) as usize);
    ChunkRead::Zlib(payload)
}

/// Reads every slot of a region file, `x` in the outer and `z` in the inner
/// order. An empty file holds no slots.
pub fn region_chunks(data: &Vec<u8>) -> (r: Vec<RegionChunk>)
    ensures
        data@.len() == 0 ==> r@.len() == 0,
        data@.len() > 0 ==> r@.len() == SLOT_COUNT,
        forall|k: int|
            0 <= k < r@.len() ==> {
                &&& #[trigger] r@[k].x == k / 32
                &&& r@[k].z == k % 32
                &&& read_matches(r@[k].read, data@, slot_of(k / 32, k % 32))
            },
{
    let mut r: Vec<RegionChunk> = Vec::new();
    if data.len() == 0 {
        return r;
    }
    let mut x: u32 = 0;
    while x < 32
        invariant
            x <= 32,
            r@.len() == 32 * x,
            forall|k: int|
                0 <= k < r@.len() ==> {
                    &&& #[trigger] r@[k].x == k / 32
                    &&& r@[k].z == k % 32
                    &&& read_matches(r@[k].read, data@, slot_of(k / 32, k % 32))
                },
        decreases 32 - x,
    {
        let mut z: u32 = 0;
        while z < 32
            invariant
                x < 32,
                z <= 32,
                r@.len() == 32 * x + z,
                forall|k: int|
                    0 <= k < r@.len() ==> {
                        &&& #[trigger] r@[k].x == k / 32
                        &&& r@[k].z == k % 32
                        &&& read_matches(r@[k].read, data@, slot_of(k / 32, k % 32))
                    },
            decreases 32 - z,
        {
            let slot = (x + 32 * z) as usize;
            let read = read_slot(data, slot);
            proof {
                let k = 32 * x + z;
                assert(k / 32 == x && k % 32 == z) by (nonlinear_arith)
                    requires k == 32 * x + z, z < 32;
            }
            r.push(RegionChunk { x, z, read });
            z = z + 1;
        }
        x = x + 1;
    }
    r
}

/// In a region whose location table is all zero every slot is absent, so
/// it yields no chunk and no error.
pub proof fn lemma_zero_table_all_absent(data: Seq<u8>, slot: int, r: ChunkRead)
    requires
        data.len() >= SECTOR_BYTES,
        forall|i: int| 0 <= i < SECTOR_BYTES ==> #[trigger] data[i] == 0,
        0 <= slot < SLOT_COUNT,
        read_matches(r, data, slot),
    ensures
        r is Absent,
{
    assert(data[entry_at(slot) + 3] == 0);
}

} // verus!
