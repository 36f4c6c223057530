//! What the materializer writes: for every replica of every block, a data
//! file and a metadata file in the planned storage slot and bucket, split
//! among worker threads by inode id.
use crate::image::FSImage;
use crate::inode::Block;
use crate::inode::BlockView;
use crate::inode::INode;
use crate::inode::INodeView;
use crate::layout::slot_of;
use crate::layout::storage_slot_index;
use crate::layout::subdirectory_path;
use crate::layout::subdirs_of;
use crate::storage::slot_area_path;
use crate::storage::slot_area_path_of;
use crate::storage::SlotArea;
use crate::text::decimal;
use crate::text::push_decimal;
use vstd::prelude::*;
use vstd::string::StringExecFns;

verus! {

/// One replica to write: the block, the worker that holds it and the storage
/// slot it goes to.
#[derive(Clone, Copy, Debug, PartialEq, Eq, Structural)]
pub struct BlockReplica {
    pub block_id: u32,
    pub genstamp: u32,
    pub datanode: u16,
    pub storage: u16,
}

/// The replica of block `b` held by worker `d`, placed by the layout plan.
pub open spec fn replica_of(b: BlockView, d: u16, slots: u16) -> BlockReplica {
    BlockReplica { block_id: b.id, genstamp: b.genstamp, datanode: d, storage: slot_of(b.id, d, slots) as u16 }
}

/// The replicas of one block, in the order of its holders.
pub open spec fn block_replicas(b: BlockView, slots: u16) -> Seq<BlockReplica> {
    b.datanodes.map_values(|d: u16| replica_of(b, d, slots))
}

/// The replicas of a sequence of blocks, one block after the other.
pub open spec fn blocks_replicas(bs: Seq<BlockView>, slots: u16) -> Seq<BlockReplica>
    decreases bs.len(),
{
    if bs.len() == 0 {
        Seq::empty()
    } else {
        blocks_replicas(bs.drop_last(), slots) + block_replicas(bs.last(), slots)
    }
}

/// The replicas that the thread `t` of `threads` writes for the inodes `ns`:
/// those of the files whose id is `t` modulo `threads`, in inode order.
pub open spec fn thread_plan(ns: Seq<INodeView>, slots: u16, t: int, threads: int) -> Seq<BlockReplica>
    decreases ns.len(),
{
    if ns.len() == 0 {
        Seq::empty()
    } else {
        let x = ns.last();
        thread_plan(ns.drop_last(), slots, t, threads) + if !x.is_dir && x.id as int % threads == t {
            blocks_replicas(x.blocks, slots)
        } else {
            Seq::empty()
        }
    }
}

/// The replicas of all files of `ns`, in inode order.
pub open spec fn all_replicas(ns: Seq<INodeView>, slots: u16) -> Seq<BlockReplica>
    decreases ns.len(),
{
    if ns.len() == 0 {
        Seq::empty()
    } else {
        let x = ns.last();
        all_replicas(ns.drop_last(), slots) + if !x.is_dir {
            blocks_replicas(x.blocks, slots)
        } else {
            Seq::empty()
        }
    }
}

/// The number of files among `ns`.
pub open spec fn file_count(ns: Seq<INodeView>) -> nat
    decreases ns.len(),
{
    if ns.len() == 0 {
        0
    } else {
        file_count(ns.drop_last()) + if ns.last().is_dir {
            0nat
        } else {
            1nat
        }
    }
}

/// The directory, relative to the output root, that holds the files of a
/// replica: the finalized area of its storage slot, two bucket levels down.
pub open spec fn replica_dir_of(r: BlockReplica) -> Seq<char> {
    slot_area_path_of(r.datanode, r.storage, SlotArea::Finalized) + "/subdir"@ + decimal(
        subdirs_of(r.block_id).0 as nat,
    ) + "/subdir"@ + decimal(subdirs_of(r.block_id).1 as nat)
}

/// The data file of a replica, relative to the output root.
pub open spec fn data_file_of(r: BlockReplica) -> Seq<char> {
    replica_dir_of(r) + "/blk_"@ + decimal(r.block_id as nat) + "_"@ + decimal(r.genstamp as nat)
}

/// The metadata file of a replica: its data file's path with `.meta` added.
pub open spec fn meta_file_of(r: BlockReplica) -> Seq<char> {
    data_file_of(r) + ".meta"@
}

/// The fixed header written into every metadata file.
pub open spec fn meta_header_bytes() -> Seq<u8> {
    seq![0x00u8, 0x01u8, 0x02u8, 0x00u8, 0x00u8, 0x02u8, 0x00u8, 0x96u8, 0x26u8, 0x34u8, 0x7bu8]
}

proof fn lemma_blocks_replicas_step(bs: Seq<BlockView>, slots: u16, i: int)
    requires
        0 <= i < bs.len(),
    ensures
        blocks_replicas(bs.subrange(0, i + 1), slots) == blocks_replicas(bs.subrange(0, i), slots)
            + block_replicas(bs[i], slots),
{
    assert(bs.subrange(0, i + 1).drop_last() =~= bs.subrange(0, i));
}

proof fn lemma_thread_plan_step(ns: Seq<INodeView>, slots: u16, t: int, threads: int, i: int)
    requires
        0 <= i < ns.len(),
    ensures
        thread_plan(ns.subrange(0, i + 1), slots, t, threads) == thread_plan(ns.subrange(0, i), slots, t, threads)
            + if !ns[i].is_dir && ns[i].id as int % threads == t {
            blocks_replicas(ns[i].blocks, slots)
        } else {
            Seq::empty()
        },
{
    assert(ns.subrange(0, i + 1).drop_last() =~= ns.subrange(0, i));
}

impl Block {
    /// The replicas of this block, one per holder, each in the storage slot
    /// that the layout plan gives.
    pub fn replica_locations(&self, num_storage_dirs_per_dn: u16) -> (r: Vec<BlockReplica>)
        requires
            num_storage_dirs_per_dn > 0,
        ensures
            r@ == block_replicas(self@, num_storage_dirs_per_dn),
    {
        let mut ret: Vec<BlockReplica> = Vec::new();
        let mut i: usize = 0;
        while i < self.datanodes.len()
            invariant
                i <= self.datanodes.len(),
                num_storage_dirs_per_dn > 0,
                ret@ =~= self.datanodes@.subrange(0, i as int).map_values(
                    |d: u16| replica_of(self@, d, num_storage_dirs_per_dn),
                ),
            decreases self.datanodes.len() - i,
        {
            let d = self.datanodes[i];
            let storage = storage_slot_index(self.id, d, num_storage_dirs_per_dn);
            ret.push(BlockReplica { block_id: self.id, genstamp: self.genstamp, datanode: d, storage });
            i = i + 1;
            assert(ret@ =~= self.datanodes@.subrange(0, i as int).map_values(
                |d: u16| replica_of(self@, d, num_storage_dirs_per_dn),
            ));
        }
        assert(self.datanodes@.subrange(0, i as int) =~= self.datanodes@);
        ret
    }
}

/// Appends the replicas of every block of `n` to `out`.
fn push_inode_replicas(out: &mut Vec<BlockReplica>, n: &INode, slots: u16)
    requires
        slots > 0,
    ensures
        final(out)@ == old(out)@ + blocks_replicas(n@.blocks, slots),
{
    let ghost bs = n@.blocks;
    let ghost start = out@;
    let mut i: usize = 0;
    while i < n.blocks.len()
        invariant
            i <= n.blocks.len() == bs.len(),
            bs == n@.blocks,
            slots > 0,
            out@ == start + blocks_replicas(bs.subrange(0, i as int), slots),
        decreases n.blocks.len() - i,
    {
        proof {
            lemma_blocks_replicas_step(bs, slots, i as int);
        }
        let rs = n.blocks[i].replica_locations(slots);
        let mut j: usize = 0;
        let ghost mid = out@;
        while j < rs.len()
            invariant
                j <= rs.len(),
                out@ == mid + rs@.subrange(0, j as int),
            decreases rs.len() - j,
        {
            out.push(rs[j]);
            j = j + 1;
            assert(out@ =~= mid + rs@.subrange(0, j as int));
        }
        assert(rs@.subrange(0, j as int) =~= rs@);
        i = i + 1;
        assert(out@ =~= start + blocks_replicas(bs.subrange(0, i as int), slots));
    }
    assert(bs.subrange(0, i as int) =~= bs);
}

impl FSImage {
    /// The replicas that worker thread `thread_idx` of `num_threads` writes:
    /// those of the files whose inode id is `thread_idx` modulo
    /// `num_threads`, in inode order.
    pub fn replicas_for_thread(&self, thread_idx: u32, num_threads: u32) -> (r: Vec<BlockReplica>)
        requires
            self.wf(),
            num_threads > 0,
            self.config().num_storage_dirs_per_dn > 0,
        ensures
            r@ == thread_plan(
                self.state().inodes,
                self.config().num_storage_dirs_per_dn,
                thread_idx as int,
                num_threads as int,
            ),
    {
        let slots = self.get_config().num_storage_dirs_per_dn;
        let inodes = self.inodes();
        let ghost ns = self.state().inodes;
        let mut ret: Vec<BlockReplica> = Vec::new();
        let mut i: usize = 0;
        while i < inodes.len()
            invariant
                i <= inodes@.len(),
                ns == inodes@.map_values(|x: INode| x@),
                slots > 0,
                num_threads > 0,
                ret@ == thread_plan(ns.subrange(0, i as int), slots, thread_idx as int, num_threads as int),
            decreases inodes.len() - i,
        {
            proof {
                lemma_thread_plan_step(ns, slots, thread_idx as int, num_threads as int, i as int);
            }
            let n = &inodes[i];
            if !n.is_dir && n.id % num_threads == thread_idx {
                push_inode_replicas(&mut ret, n, slots);
            }
            i = i + 1;
            assert(ret@ =~= thread_plan(ns.subrange(0, i as int), slots, thread_idx as int, num_threads as int));
        }
        assert(ns.subrange(0, i as int) =~= ns);
        ret
    }
}

impl BlockReplica {
    /// The directory that holds this replica's files, relative to the output
    /// root.
    pub fn dir_path(&self) -> (r: String)
        ensures
            r@ == replica_dir_of(*self),
    {
        let mut ret = slot_area_path(self.datanode, self.storage, SlotArea::Finalized);
        ret.append("/subdir");
        let (a, b) = subdirectory_path(self.block_id);
        push_decimal(&mut ret, a as u64);
        ret.append("/subdir");
        push_decimal(&mut ret, b as u64);
        assert(ret@ =~= replica_dir_of(*self));
        ret
    }

    /// The data file of this replica, relative to the output root.
    pub fn data_file_path(&self) -> (r: String)
        ensures
            r@ == data_file_of(*self),
    {
        let mut ret = self.dir_path();
        ret.append("/blk_");
        push_decimal(&mut ret, self.block_id as u64);
        ret.append("_");
        push_decimal(&mut ret, self.genstamp as u64);
        assert(ret@ =~= data_file_of(*self));
        ret
    }

    /// The metadata file of this replica, beside its data file.
    pub fn meta_file_path(&self) -> (r: String)
        ensures
            r@ == meta_file_of(*self),
    {
        let mut ret = self.data_file_path();
        ret.append(".meta");
        ret
    }
}

/// The header of every metadata file: a fixed 11-byte checksum header.
pub fn meta_file_header() -> (r: Vec<u8>)
    ensures
        r@ == meta_header_bytes(),
{
    let r: Vec<u8> = vec![0x00u8, 0x01u8, 0x02u8, 0x00u8, 0x00u8, 0x02u8, 0x00u8, 0x96u8, 0x26u8, 0x34u8, 0x7bu8];
    assert(r@ =~= meta_header_bytes());
    r
}

/// What an attempt to create a directory, with its parents, came to.
#[derive(Clone, Copy, Debug, PartialEq, Eq, Structural)]
pub enum DirCreation {
    Created,
    /// Some directory on the path already existed: another thread may have
    /// just created it.
    AlreadyExists,
    Failed,
}

/// What to do after an attempt to create a directory.
#[derive(Clone, Copy, Debug, PartialEq, Eq, Structural)]
pub enum DirStep {
    Done,
    Retry,
    Fail,
}

/// Ensures a directory exists while other threads create the same paths: an
/// "already exists" outcome is retried until the attempt succeeds or fails
/// otherwise.
pub fn next_dir_step(outcome: DirCreation) -> (r: DirStep)
    ensures
        outcome == DirCreation::Created ==> r == DirStep::Done,
        outcome == DirCreation::AlreadyExists ==> r == DirStep::Retry,
        outcome == DirCreation::Failed ==> r == DirStep::Fail,
{
    match outcome {
        DirCreation::Created => DirStep::Done,
        DirCreation::AlreadyExists => DirStep::Retry,
        DirCreation::Failed => DirStep::Fail,
    }
}

/// Whether the count of files processed so far calls for a progress line.
pub fn should_report_progress(processed: u64) -> (r: bool)
    ensures
        r == (processed != 0 && processed % 10000 == 0),
{
    processed != 0 && processed % 10000 == 0
}

} // verus!
