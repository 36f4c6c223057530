//! Where a block replica lives on a worker node: which storage slot, and which
//! two-level bucket directory inside that slot.
use vstd::prelude::*;

verus! {

/// Storage slot of the replica of `block_id` held by worker `worker_index`.
pub open spec fn slot_of(block_id: u32, worker_index: u16, num_storage_slots: u16) -> int
    recommends
        num_storage_slots > 0,
{
    (block_id as int * (worker_index as int + 1) * 29) % (num_storage_slots as int)
}

/// The two bucket levels under which a block's files are stored.
pub open spec fn subdirs_of(block_id: u32) -> (int, int) {
    ((block_id as int / 65536) % 256, (block_id as int / 256) % 256)
}

/// Index of the storage slot that holds a replica of `block_id` on worker
/// `worker_index`: a fixed multiplicative hash taken modulo the slot count.
pub fn storage_slot_index(block_id: u32, worker_index: u16, num_storage_slots: u16) -> (r: u16)
    requires
        num_storage_slots > 0,
    ensures
        r as int == slot_of(block_id, worker_index, num_storage_slots),
        r < num_storage_slots,
{
    let w: u64 = worker_index as u64 + 1;
    assert((block_id as u64) * w <= 0xffff_ffff_u64 * 65536) by (nonlinear_arith)
        requires
            w <= 65536,
    ;
    let h: u64 = (block_id as u64) * w * 29;
    (h % (num_storage_slots as u64)) as u16
}

/// The two bucket directory levels of a block: bits 16..24 and bits 8..16 of
/// its id.
pub fn subdirectory_path(block_id: u32) -> (r: (u8, u8))
    ensures
        r.0 as int == subdirs_of(block_id).0,
        r.1 as int == subdirs_of(block_id).1,
{
    let a: u32 = (block_id >> 16u32) & 0xffu32;
    let b: u32 = (block_id >> 8u32) & 0xffu32;
    assert(a == (block_id / 65536) % 256) by (bit_vector)
        requires
            a == (block_id >> 16u32) & 0xffu32,
    ;
    assert(b == (block_id / 256) % 256) by (bit_vector)
        requires
            b == (block_id >> 8u32) & 0xffu32,
    ;
    (a as u8, b as u8)
}

} // verus!
