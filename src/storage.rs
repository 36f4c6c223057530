//! The small fixed-format files of the image: version stamps of the
//! coordinator, of each worker storage slot and of the block pool, the
//! last-seen transaction marker, and the edit-log header; and the relative
//! paths of the worker directories.
use crate::config::CLUSTER_CTIME;
use crate::config::NAMESPACE_ID;
use crate::image::FSImage;
use crate::text::decimal;
use crate::text::decimal_string;
use crate::text::push_decimal;
use crate::text::push_signed_decimal;
use crate::text::push_two_digits;
use crate::text::signed_decimal;
use crate::text::two_digits;
use vstd::prelude::*;
use vstd::string::StrSliceExecFns;
use vstd::string::StringExecFns;

verus! {

/// The cluster id shared by the coordinator and every worker.
pub open spec fn cluster_id() -> Seq<char> {
    "CID-4d05b066-8649-49c7-80cf-49ed7eac011c"@
}

/// The id of the one block pool.
pub open spec fn block_pool_id() -> Seq<char> {
    "BP-113955101-127.0.0.1-1455743472614"@
}

/// The comment line that opens every version file.
pub open spec fn stamp_line() -> Seq<char> {
    "#Thu Feb 18 11:20:35 PST 2016\n"@
}

/// The cluster id, as a string.
pub fn cluster_id_str() -> (r: &'static str)
    ensures
        r@ == cluster_id(),
{
    "CID-4d05b066-8649-49c7-80cf-49ed7eac011c"
}

/// The block pool id, as a string.
pub fn block_pool_id_str() -> (r: &'static str)
    ensures
        r@ == block_pool_id(),
{
    "BP-113955101-127.0.0.1-1455743472614"
}

/// The coordinator's version file.
pub open spec fn namenode_version_text_of(nn_layout_version: i32) -> Seq<char> {
    stamp_line() + "namespaceID="@ + decimal(NAMESPACE_ID as nat) + "\nclusterID="@ + cluster_id() + "\ncTime="@
        + decimal(CLUSTER_CTIME as nat) + "\nstorageType=NAME_NODE\nblockpoolID="@ + block_pool_id()
        + "\nlayoutVersion="@ + signed_decimal(nn_layout_version as int) + "\n"@
}

/// The version file of one worker storage slot.
pub open spec fn datanode_version_text_of(
    storage_id: Seq<char>,
    datanode_uuid: Seq<char>,
    dn_layout_version: i32,
) -> Seq<char> {
    stamp_line() + "storageID="@ + storage_id + "\nclusterID="@ + cluster_id() + "\ncTime="@ + decimal(
        CLUSTER_CTIME as nat,
    ) + "\ndatanodeUuid="@ + datanode_uuid + "\nstorageType=DATA_NODE\nlayoutVersion="@
        + signed_decimal(dn_layout_version as int) + "\n"@
}

/// The block pool's version file.
pub open spec fn blockpool_version_text_of(dn_layout_version: i32) -> Seq<char> {
    stamp_line() + "namespaceID="@ + decimal(NAMESPACE_ID as nat) + "\ncTime="@ + decimal(CLUSTER_CTIME as nat)
        + "\nblockpoolID="@ + block_pool_id() + "\nlayoutVersion="@ + signed_decimal(dn_layout_version as int)
        + "\n"@
}

/// The four big-endian bytes of a signed 32-bit value.
pub open spec fn be32(v: i32) -> Seq<u8> {
    let u = (if v < 0 { v + 0x1_0000_0000 } else { v as int }) as nat;
    seq![(u / 0x100_0000) as u8, ((u / 0x1_0000) % 256) as u8, ((u / 256) % 256) as u8, (u % 256) as u8]
}

/// The relative path of the `current` directory of a worker's storage slot;
/// both indices are 0-based and written 1-based, two digits at least.
pub open spec fn storage_current_dir_of(datanode_idx: u16, storage_idx: u16) -> Seq<char> {
    "datanode"@ + two_digits(datanode_idx as nat + 1) + "/storage"@ + two_digits(storage_idx as nat + 1)
        + "/current"@
}

/// The block pool directory of a storage slot.
pub open spec fn block_pool_dir_of(datanode_idx: u16, storage_idx: u16) -> Seq<char> {
    storage_current_dir_of(datanode_idx, storage_idx) + "/"@ + block_pool_id()
}

/// A file or directory of a storage slot's skeleton.
#[derive(Clone, Copy, Debug, PartialEq, Eq, Structural)]
pub enum SlotArea {
    /// The slot's own version file.
    StorageVersion,
    /// The block pool's version file.
    BlockPoolVersion,
    /// Temporary blocks.
    Tmp,
    /// The block pool's `current` directory.
    Current,
    /// Replicas being written.
    Rbw,
    /// Finalized replicas.
    Finalized,
}

/// The path, relative to the output root, of an area of a storage slot.
pub open spec fn slot_area_path_of(datanode_idx: u16, storage_idx: u16, area: SlotArea) -> Seq<char> {
    match area {
        SlotArea::StorageVersion => storage_current_dir_of(datanode_idx, storage_idx) + "/VERSION"@,
        SlotArea::BlockPoolVersion => block_pool_dir_of(datanode_idx, storage_idx) + "/VERSION"@,
        SlotArea::Tmp => block_pool_dir_of(datanode_idx, storage_idx) + "/tmp"@,
        SlotArea::Current => block_pool_dir_of(datanode_idx, storage_idx) + "/current"@,
        SlotArea::Rbw => block_pool_dir_of(datanode_idx, storage_idx) + "/current/rbw"@,
        SlotArea::Finalized => block_pool_dir_of(datanode_idx, storage_idx) + "/current/finalized"@,
    }
}

/// The decimal rendering of `n`, zero-padded to `width` digits.
pub open spec fn zero_padded(n: nat, width: nat) -> Seq<char> {
    if decimal(n).len() < width {
        Seq::new((width - decimal(n).len()) as nat, |i: int| '0') + decimal(n)
    } else {
        decimal(n)
    }
}

/// The coordinator's `current` directory, relative to the output root.
pub open spec fn name_current_dir_of() -> Seq<char> {
    "name/current"@
}

/// The file name of the edit log in progress from transaction `txid`.
pub open spec fn edits_file_name_of(txid: u64) -> Seq<char> {
    "edits_inprogress_"@ + zero_padded(txid as nat, 20)
}

/// The file name of the manifest as of transaction `txid`.
pub open spec fn fsimage_file_name_of(txid: u64) -> Seq<char> {
    "fsimage_"@ + zero_padded(txid as nat, 20) + ".xml"@
}

/// The last-seen transaction marker: the id in decimal and a newline.
pub fn seen_txid_text(seen_txid: u64) -> (r: String)
    ensures
        r@ == decimal(seen_txid as nat) + "\n"@,
{
    let mut ret = String::new();
    push_decimal(&mut ret, seen_txid);
    ret.append("\n");
    assert(ret@ =~= decimal(seen_txid as nat) + "\n"@);
    ret
}

/// The edit-log header: the layout version as four big-endian bytes, then
/// four zero bytes of feature flags.
pub fn edits_header(nn_layout_version: i32) -> (r: Vec<u8>)
    ensures
        r@ == be32(nn_layout_version) + seq![0u8, 0u8, 0u8, 0u8],
{
    let u: u32 = if nn_layout_version < 0 {
        (nn_layout_version as i64 + 0x1_0000_0000i64) as u32
    } else {
        nn_layout_version as u32
    };
    let mut r: Vec<u8> = Vec::new();
    r.push((u / 0x100_0000) as u8);
    r.push((u / 0x1_0000 % 256) as u8);
    r.push((u / 256 % 256) as u8);
    r.push((u % 256) as u8);
    r.push(0u8);
    r.push(0u8);
    r.push(0u8);
    r.push(0u8);
    assert(r@ =~= be32(nn_layout_version) + seq![0u8, 0u8, 0u8, 0u8]);
    r
}

/// The relative path of the `current` directory of storage slot
/// `storage_idx` of worker `datanode_idx`.
pub fn storage_current_dir(datanode_idx: u16, storage_idx: u16) -> (r: String)
    ensures
        r@ == storage_current_dir_of(datanode_idx, storage_idx),
{
    let mut ret = String::from_str("datanode");
    push_two_digits(&mut ret, datanode_idx as u64 + 1);
    ret.append("/storage");
    push_two_digits(&mut ret, storage_idx as u64 + 1);
    ret.append("/current");
    assert(ret@ =~= storage_current_dir_of(datanode_idx, storage_idx));
    ret
}

/// The block pool directory of storage slot `storage_idx` of worker
/// `datanode_idx`, relative to the output root.
pub fn block_pool_dir(datanode_idx: u16, storage_idx: u16) -> (r: String)
    ensures
        r@ == block_pool_dir_of(datanode_idx, storage_idx),
{
    let mut ret = storage_current_dir(datanode_idx, storage_idx);
    ret.append("/");
    ret.append(block_pool_id_str());
    ret
}

/// The path of an area of storage slot `storage_idx` of worker
/// `datanode_idx`, relative to the output root.
pub fn slot_area_path(datanode_idx: u16, storage_idx: u16, area: SlotArea) -> (r: String)
    ensures
        r@ == slot_area_path_of(datanode_idx, storage_idx, area),
{
    match area {
        SlotArea::StorageVersion => {
            let mut ret = storage_current_dir(datanode_idx, storage_idx);
            ret.append("/VERSION");
            ret
        },
        SlotArea::BlockPoolVersion => {
            let mut ret = block_pool_dir(datanode_idx, storage_idx);
            ret.append("/VERSION");
            ret
        },
        SlotArea::Tmp => {
            let mut ret = block_pool_dir(datanode_idx, storage_idx);
            ret.append("/tmp");
            ret
        },
        SlotArea::Current => {
            let mut ret = block_pool_dir(datanode_idx, storage_idx);
            ret.append("/current");
            ret
        },
        SlotArea::Rbw => {
            let mut ret = block_pool_dir(datanode_idx, storage_idx);
            ret.append("/current/rbw");
            ret
        },
        SlotArea::Finalized => {
            let mut ret = block_pool_dir(datanode_idx, storage_idx);
            ret.append("/current/finalized");
            ret
        },
    }
}

/// Appends the decimal rendering of `n`, zero-padded to `width` digits.
pub fn push_zero_padded(s: &mut String, n: u64, width: usize)
    ensures
        final(s)@ == old(s)@ + zero_padded(n as nat, width as nat),
{
    let digits = decimal_string(n);
    let len = digits.as_str().unicode_len();
    let ghost start = s@;
    if len < width {
        let mut i: usize = 0;
        while i < width - len
            invariant
                i <= width - len,
                s@ == start + Seq::new(i as nat, |k: int| '0'),
            decreases width - len - i,
        {
            s.append("0");
            proof {
                reveal_strlit("0");
            }
            i = i + 1;
            assert(s@ =~= start + Seq::new(i as nat, |k: int| '0'));
        }
    }
    s.append(digits.as_str());
    assert(final(s)@ =~= old(s)@ + zero_padded(n as nat, width as nat));
}

/// The coordinator's `current` directory, relative to the output root.
pub fn name_current_dir() -> (r: &'static str)
    ensures
        r@ == name_current_dir_of(),
{
    "name/current"
}

/// The coordinator's version file, relative to the output root.
pub fn name_version_file() -> (r: &'static str)
    ensures
        r@ == name_current_dir_of() + "/VERSION"@,
{
    proof {
        reveal_strlit("name/current/VERSION");
        reveal_strlit("name/current");
        reveal_strlit("/VERSION");
    }
    let r = "name/current/VERSION";
    assert(r@ =~= name_current_dir_of() + "/VERSION"@);
    r
}

/// The coordinator's last-seen transaction marker, relative to the output
/// root.
pub fn seen_txid_file() -> (r: &'static str)
    ensures
        r@ == name_current_dir_of() + "/seen_txid"@,
{
    proof {
        reveal_strlit("name/current/seen_txid");
        reveal_strlit("name/current");
        reveal_strlit("/seen_txid");
    }
    let r = "name/current/seen_txid";
    assert(r@ =~= name_current_dir_of() + "/seen_txid"@);
    r
}

/// The file name of the edit log in progress from transaction `txid`.
pub fn edits_file_name(txid: u64) -> (r: String)
    ensures
        r@ == edits_file_name_of(txid),
{
    let mut ret = String::from_str("edits_inprogress_");
    push_zero_padded(&mut ret, txid, 20);
    ret
}

/// The file name of the manifest as of transaction `txid`.
pub fn fsimage_file_name(txid: u64) -> (r: String)
    ensures
        r@ == fsimage_file_name_of(txid),
{
    let mut ret = String::from_str("fsimage_");
    push_zero_padded(&mut ret, txid, 20);
    ret.append(".xml");
    ret
}

impl FSImage {
    /// The coordinator's version file.
    pub fn namenode_version_text(&self) -> (r: String)
        ensures
            r@ == namenode_version_text_of(self.config().nn_layout_version),
    {
        let mut ret = String::from_str("#Thu Feb 18 11:20:35 PST 2016\n");
        ret.append("namespaceID=");
        push_decimal(&mut ret, NAMESPACE_ID);
        ret.append("\nclusterID=");
        ret.append(cluster_id_str());
        ret.append("\ncTime=");
        push_decimal(&mut ret, CLUSTER_CTIME);
        ret.append("\nstorageType=NAME_NODE\nblockpoolID=");
        ret.append(block_pool_id_str());
        ret.append("\nlayoutVersion=");
        push_signed_decimal(&mut ret, self.get_config().nn_layout_version as i64);
        ret.append("\n");
        assert(ret@ =~= namenode_version_text_of(self.config().nn_layout_version));
        ret
    }

    /// The version file of storage slot `storage_idx` of worker
    /// `datanode_idx`: its storage id, the cluster, the worker's uuid and the
    /// worker layout version.
    pub fn datanode_version_text(&self, datanode_idx: u16, storage_idx: u16) -> (r: String)
        requires
            self.wf(),
            datanode_idx < self.config().num_datanodes,
            storage_idx < self.config().num_storage_dirs_per_dn,
        ensures
            r@ == datanode_version_text_of(
                self.datanodes()[datanode_idx as int].storage_ids@[storage_idx as int]@,
                self.datanodes()[datanode_idx as int].datanode_uuid@,
                self.config().dn_layout_version,
            ),
    {
        proof {
            self.lemma_wf();
        }
        let info = self.datanode_info();
        let dn = &info[datanode_idx as usize];
        let mut ret = String::from_str("#Thu Feb 18 11:20:35 PST 2016\n");
        ret.append("storageID=");
        ret.append(dn.storage_ids[storage_idx as usize].as_str());
        ret.append("\nclusterID=");
        ret.append(cluster_id_str());
        ret.append("\ncTime=");
        push_decimal(&mut ret, CLUSTER_CTIME);
        ret.append("\ndatanodeUuid=");
        ret.append(dn.datanode_uuid.as_str());
        ret.append("\nstorageType=DATA_NODE\nlayoutVersion=");
        push_signed_decimal(&mut ret, self.get_config().dn_layout_version as i64);
        ret.append("\n");
        assert(ret@ =~= datanode_version_text_of(
            self.datanodes()[datanode_idx as int].storage_ids@[storage_idx as int]@,
            self.datanodes()[datanode_idx as int].datanode_uuid@,
            self.config().dn_layout_version,
        ));
        ret
    }

    /// The block pool's version file, the same in every storage slot.
    pub fn blockpool_version_text(&self) -> (r: String)
        ensures
            r@ == blockpool_version_text_of(self.config().dn_layout_version),
    {
        let mut ret = String::from_str("#Thu Feb 18 11:20:35 PST 2016\n");
        ret.append("namespaceID=");
        push_decimal(&mut ret, NAMESPACE_ID);
        ret.append("\ncTime=");
        push_decimal(&mut ret, CLUSTER_CTIME);
        ret.append("\nblockpoolID=");
        ret.append(block_pool_id_str());
        ret.append("\nlayoutVersion=");
        push_signed_decimal(&mut ret, self.get_config().dn_layout_version as i64);
        ret.append("\n");
        assert(ret@ =~= blockpool_version_text_of(self.config().dn_layout_version));
        ret
    }
}

} // verus!
