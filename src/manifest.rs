//! The namespace manifest: one XML document with a record per inode and per
//! directory, between fixed sections.
use crate::config::LAST_TXID;
use crate::config::NAMESPACE_ID;
use crate::config::ROOT_INODE_ID;
use crate::image::FSImage;
use crate::inode::inode_xml;
use crate::inode::INode;
use crate::inode::INodeView;
use crate::namespace::GenState;
use crate::text::decimal;
use crate::text::push_decimal;
use crate::text::push_signed_decimal;
use crate::text::signed_decimal;
use vstd::prelude::*;
use vstd::string::StringExecFns;

verus! {

/// The records of a sequence of inodes, one after the other.
pub open spec fn inodes_xml(ns: Seq<INodeView>) -> Seq<char>
    decreases ns.len(),
{
    if ns.len() == 0 {
        Seq::empty()
    } else {
        inodes_xml(ns.drop_last()) + inode_xml(ns.last())
    }
}

/// The child entries of one directory record.
pub open spec fn child_list_xml(cs: Seq<u32>) -> Seq<char>
    decreases cs.len(),
{
    if cs.len() == 0 {
        Seq::empty()
    } else {
        child_list_xml(cs.drop_last()) + "<child>"@ + decimal(cs.last() as nat) + "</child>"@
    }
}

/// The record of one directory and its children.
pub open spec fn directory_xml(id: u32, cs: Seq<u32>) -> Seq<char> {
    "<directory><parent>"@ + decimal(id as nat) + "</parent>"@ + child_list_xml(cs) + "</directory>"@
}

/// The directory records of the first `k` inodes; files have none.
pub open spec fn directories_xml(s: GenState, k: int) -> Seq<char>
    decreases k,
{
    if k <= 0 {
        Seq::empty()
    } else if s.inodes[k - 1].is_dir {
        directories_xml(s, k - 1) + directory_xml(s.inodes[k - 1].id, s.children[k - 1])
    } else {
        directories_xml(s, k - 1)
    }
}

/// The version section: the coordinator layout version and fixed format
/// stamps.
pub open spec fn version_section_xml(nn_layout_version: i32) -> Seq<char> {
    "<version><layoutVersion>"@ + signed_decimal(nn_layout_version as int)
        + "</layoutVersion><onDiskVersion>1</onDiskVersion><oivRevision>545bbef596c06af1c3c8dca1ce29096a64608478</oivRevision></version>\n"@
}

/// The name section: namespace id, generation stamp and block id counters,
/// and the last transaction id.
pub open spec fn name_section_xml(s: GenState) -> Seq<char> {
    "<NameSection><namespaceId>"@ + decimal(NAMESPACE_ID as nat) + "</namespaceId><genstampV1>1000</genstampV1><genstampV2>"@
        + decimal(s.next_genstamp as nat) + "</genstampV2><genstampV1Limit>0</genstampV1Limit><lastAllocatedBlockId>"@
        + decimal((s.next_block_id - 1) as nat) + "</lastAllocatedBlockId><txid>"@ + decimal(LAST_TXID as nat)
        + "</txid></NameSection>\n"@
}

/// The inode section: the last inode id, the inode count, and every
/// inode's record in id order.
pub open spec fn inode_section_xml(s: GenState) -> Seq<char> {
    "<INodeSection><lastInodeId>"@ + decimal((ROOT_INODE_ID + s.inodes.len() - 1) as nat)
        + "</lastInodeId><numInodes>"@ + decimal(s.inodes.len()) + "</numInodes>"@ + inodes_xml(s.inodes)
        + "</INodeSection>\n"@
}

/// The directory section: one record per directory.
pub open spec fn directory_section_xml(s: GenState) -> Seq<char> {
    "<INodeDirectorySection>"@ + directories_xml(s, s.inodes.len() as int) + "</INodeDirectorySection>\n"@
}

/// The snapshot-diff section: one placeholder entry for the root.
pub open spec fn snapshot_diff_section_xml() -> Seq<char> {
    "<SnapshotDiffSection><dirDiffEntry><inodeId>"@ + decimal(ROOT_INODE_ID as nat)
        + "</inodeId><count>0</count></dirDiffEntry></SnapshotDiffSection>\n"@
}

/// The whole manifest of a namespace state.
pub open spec fn manifest_xml(s: GenState, nn_layout_version: i32) -> Seq<char> {
    "<?xml version=\"1.0\"?><fsimage>"@ + version_section_xml(nn_layout_version) + name_section_xml(s)
        + inode_section_xml(s) + "<INodeReferenceSection></INodeReferenceSection>"@
        + "<SnapshotSection><snapshotCounter>0</snapshotCounter><numSnapshots>0</numSnapshots></SnapshotSection>\n"@
        + directory_section_xml(s) + "<FileUnderConstructionSection></FileUnderConstructionSection>"@
        + snapshot_diff_section_xml()
        + "<SecretManagerSection><currentId>2</currentId><tokenSequenceNumber>1</tokenSequenceNumber><numDelegationKeys>0</numDelegationKeys><numTokens>0</numTokens></SecretManagerSection>\n"@
        + "<CacheManagerSection><nextDirectiveId>1</nextDirectiveId><numDirectives>0</numDirectives><numPools>0</numPools></CacheManagerSection>\n"@
        + "</fsimage>"@
}

proof fn lemma_inodes_xml_step(ns: Seq<INodeView>, i: int)
    requires
        0 <= i < ns.len(),
    ensures
        inodes_xml(ns.subrange(0, i + 1)) == inodes_xml(ns.subrange(0, i)) + inode_xml(ns[i]),
{
    assert(ns.subrange(0, i + 1).drop_last() =~= ns.subrange(0, i));
}

proof fn lemma_child_list_step(cs: Seq<u32>, i: int)
    requires
        0 <= i < cs.len(),
    ensures
        child_list_xml(cs.subrange(0, i + 1)) == child_list_xml(cs.subrange(0, i)) + "<child>"@ + decimal(
            cs[i] as nat,
        ) + "</child>"@,
{
    assert(cs.subrange(0, i + 1).drop_last() =~= cs.subrange(0, i));
}

/// The record of a directory with id `id` and children `cs`.
pub fn directory_record(id: u32, cs: &Vec<u32>) -> (r: String)
    ensures
        r@ == directory_xml(id, cs@),
{
    let mut ret = String::from_str("<directory><parent>");
    push_decimal(&mut ret, id as u64);
    ret.append("</parent>");
    let ghost start = ret@;
    let mut i: usize = 0;
    while i < cs.len()
        invariant
            i <= cs.len(),
            ret@ == start + child_list_xml(cs@.subrange(0, i as int)),
        decreases cs.len() - i,
    {
        proof {
            lemma_child_list_step(cs@, i as int);
        }
        ret.append("<child>");
        push_decimal(&mut ret, cs[i] as u64);
        ret.append("</child>");
        i = i + 1;
        assert(ret@ =~= start + child_list_xml(cs@.subrange(0, i as int)));
    }
    assert(cs@.subrange(0, i as int) =~= cs@);
    ret.append("</directory>");
    assert(ret@ =~= directory_xml(id, cs@));
    ret
}

impl FSImage {
    /// The version section: the coordinator layout version and fixed format
    /// stamps.
    pub fn version_section(&self) -> (r: String)
        ensures
            r@ == version_section_xml(self.config().nn_layout_version),
    {
        let mut ret = String::from_str("<version><layoutVersion>");
        push_signed_decimal(&mut ret, self.get_config().nn_layout_version as i64);
        ret.append(
            "</layoutVersion><onDiskVersion>1</onDiskVersion><oivRevision>545bbef596c06af1c3c8dca1ce29096a64608478</oivRevision></version>\n",
        );
        assert(ret@ =~= version_section_xml(self.config().nn_layout_version));
        ret
    }

    /// The name section: namespace id, the generation stamp and block id
    /// counters, and the last transaction id.
    pub fn name_section(&self) -> (r: String)
        requires
            self.wf(),
        ensures
            r@ == name_section_xml(self.state()),
    {
        proof {
            self.lemma_wf();
        }
        let mut ret = String::from_str("<NameSection><namespaceId>");
        push_decimal(&mut ret, NAMESPACE_ID);
        ret.append("</namespaceId><genstampV1>1000</genstampV1><genstampV2>");
        push_decimal(&mut ret, self.next_genstamp() as u64);
        ret.append("</genstampV2><genstampV1Limit>0</genstampV1Limit><lastAllocatedBlockId>");
        push_decimal(&mut ret, (self.next_block_id() - 1) as u64);
        ret.append("</lastAllocatedBlockId><txid>");
        push_decimal(&mut ret, LAST_TXID);
        ret.append("</txid></NameSection>\n");
        assert(ret@ =~= name_section_xml(self.state()));
        ret
    }

    /// The inode section: the last id, the count, and every inode's record.
    pub fn inode_section(&self) -> (r: String)
        requires
            self.wf(),
        ensures
            r@ == inode_section_xml(self.state()),
    {
        proof {
            self.lemma_wf();
        }
        let inodes = self.inodes();
        let ghost ns = self.state().inodes;
        let n = inodes.len();
        let mut ret = String::from_str("<INodeSection><lastInodeId>");
        push_decimal(&mut ret, (ROOT_INODE_ID as u64) + (n as u64) - 1);
        ret.append("</lastInodeId><numInodes>");
        push_decimal(&mut ret, n as u64);
        ret.append("</numInodes>");
        let ghost start = ret@;
        let mut i: usize = 0;
        while i < n
            invariant
                i <= n == inodes@.len() == ns.len(),
                ns == inodes@.map_values(|x: INode| x@),
                ret@ == start + inodes_xml(ns.subrange(0, i as int)),
            decreases n - i,
        {
            proof {
                lemma_inodes_xml_step(ns, i as int);
            }
            let rec = inodes[i].to_xml();
            ret.append(rec.as_str());
            i = i + 1;
            assert(ret@ =~= start + inodes_xml(ns.subrange(0, i as int)));
        }
        assert(ns.subrange(0, i as int) =~= ns);
        ret.append("</INodeSection>\n");
        assert(ret@ =~= inode_section_xml(self.state()));
        ret
    }

    /// The directory section: one record per directory, listing its
    /// children in creation order.
    pub fn inode_directory_section(&self) -> (r: String)
        requires
            self.wf(),
        ensures
            r@ == directory_section_xml(self.state()),
    {
        proof {
            self.lemma_wf();
        }
        let inodes = self.inodes();
        let children = self.children();
        let ghost s = self.state();
        let n = inodes.len();
        let mut ret = String::from_str("<INodeDirectorySection>");
        let ghost start = ret@;
        let mut i: usize = 0;
        while i < n
            invariant
                i <= n == inodes@.len() == s.inodes.len() == children@.len(),
                s.inodes == inodes@.map_values(|x: INode| x@),
                s.children == children@.map_values(|c: Vec<u32>| c@),
                ret@ == start + directories_xml(s, i as int),
            decreases n - i,
        {
            if inodes[i].is_dir {
                let rec = directory_record(inodes[i].id, &children[i]);
                ret.append(rec.as_str());
            }
            i = i + 1;
            assert(ret@ =~= start + directories_xml(s, i as int));
        }
        ret.append("</INodeDirectorySection>\n");
        assert(ret@ =~= directory_section_xml(s));
        ret
    }

    /// The snapshot-diff section: a single placeholder entry for the root.
    pub fn snapshot_diff_section(&self) -> (r: String)
        ensures
            r@ == snapshot_diff_section_xml(),
    {
        let mut ret = String::from_str("<SnapshotDiffSection><dirDiffEntry><inodeId>");
        push_decimal(&mut ret, ROOT_INODE_ID as u64);
        ret.append("</inodeId><count>0</count></dirDiffEntry></SnapshotDiffSection>\n");
        assert(ret@ =~= snapshot_diff_section_xml());
        ret
    }

    /// The whole manifest.
    pub fn to_xml(&self) -> (r: String)
        requires
            self.wf(),
        ensures
            r@ == manifest_xml(self.state(), self.config().nn_layout_version),
    {
        let mut ret = String::from_str("<?xml version=\"1.0\"?><fsimage>");
        let v = self.version_section();
        ret.append(v.as_str());
        let n = self.name_section();
        ret.append(n.as_str());
        let i = self.inode_section();
        ret.append(i.as_str());
        ret.append("<INodeReferenceSection></INodeReferenceSection>");
        ret.append(
            "<SnapshotSection><snapshotCounter>0</snapshotCounter><numSnapshots>0</numSnapshots></SnapshotSection>\n",
        );
        let d = self.inode_directory_section();
        ret.append(d.as_str());
        ret.append("<FileUnderConstructionSection></FileUnderConstructionSection>");
        let sd = self.snapshot_diff_section();
        ret.append(sd.as_str());
        ret.append(
            "<SecretManagerSection><currentId>2</currentId><tokenSequenceNumber>1</tokenSequenceNumber><numDelegationKeys>0</numDelegationKeys><numTokens>0</numTokens></SecretManagerSection>\n",
        );
        ret.append(
            "<CacheManagerSection><nextDirectiveId>1</nextDirectiveId><numDirectives>0</numDirectives><numPools>0</numPools></CacheManagerSection>\n",
        );
        ret.append("</fsimage>");
        assert(ret@ =~= manifest_xml(self.state(), self.config().nn_layout_version));
        ret
    }
}

} // verus!
