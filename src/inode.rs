//! Inodes and blocks of the namespace, and their records in the manifest.
use crate::text::decimal;
use crate::text::push_decimal;
use vstd::prelude::*;
use vstd::string::StringExecFns;

verus! {

/// The preferred block size recorded for every file.
pub const PREFERRED_BLOCK_SIZE: u32 = 134217728;

/// A block of file data: its id, its generation stamp, and the worker nodes
/// that hold a replica of it, in the order they were chosen.
pub struct Block {
    pub id: u32,
    pub genstamp: u32,
    pub datanodes: Vec<u16>,
}

/// A block as a mathematical value.
pub struct BlockView {
    pub id: u32,
    pub genstamp: u32,
    pub datanodes: Seq<u16>,
}

impl View for Block {
    type V = BlockView;

    open spec fn view(&self) -> BlockView {
        BlockView { id: self.id, genstamp: self.genstamp, datanodes: self.datanodes@ }
    }
}

/// A file or directory of the namespace. Directories have no blocks.
pub struct INode {
    pub id: u32,
    pub name: String,
    pub is_dir: bool,
    pub blocks: Vec<Block>,
}

/// An inode as a mathematical value.
pub struct INodeView {
    pub id: u32,
    pub name: Seq<char>,
    pub is_dir: bool,
    pub blocks: Seq<BlockView>,
}

impl View for INode {
    type V = INodeView;

    open spec fn view(&self) -> INodeView {
        INodeView {
            id: self.id,
            name: self.name@,
            is_dir: self.is_dir,
            blocks: self.blocks@.map_values(|b: Block| b@),
        }
    }
}

/// The manifest record of one block.
pub open spec fn block_xml(b: BlockView) -> Seq<char> {
    "<block><id>"@ + decimal(b.id as nat) + "</id><genstamp>"@ + decimal(b.genstamp as nat)
        + "</genstamp><numBytes>0</numBytes></block>"@
}

/// The records of a sequence of blocks, one after the other.
pub open spec fn blocks_xml(bs: Seq<BlockView>) -> Seq<char>
    decreases bs.len(),
{
    if bs.len() == 0 {
        Seq::empty()
    } else {
        blocks_xml(bs.drop_last()) + block_xml(bs.last())
    }
}

/// The type word of an inode record.
pub open spec fn kind_word(is_dir: bool) -> Seq<char> {
    if is_dir {
        "DIRECTORY"@
    } else {
        "FILE"@
    }
}

/// The replication count of a file: the number of replicas of its blocks.
pub open spec fn replication_of(n: INodeView) -> nat {
    if n.blocks.len() > 0 {
        n.blocks[0].datanodes.len()
    } else {
        0
    }
}

/// The part of an inode record that depends on its kind.
pub open spec fn kind_xml(n: INodeView) -> Seq<char> {
    if n.is_dir {
        "<dsquota>-1</dsquota><nsquota>-1</nsquota>"@
    } else {
        "<atime>0</atime><replication>"@ + decimal(replication_of(n))
            + "</replication><preferredBlockSize>"@ + decimal(PREFERRED_BLOCK_SIZE as nat)
            + "</preferredBlockSize>"@
    }
}

/// The block list of an inode record; directories have none.
pub open spec fn block_list_xml(n: INodeView) -> Seq<char> {
    if n.is_dir {
        Seq::empty()
    } else {
        "<blocks>"@ + blocks_xml(n.blocks) + "</blocks>"@
    }
}

/// The manifest record of one inode.
pub open spec fn inode_xml(n: INodeView) -> Seq<char> {
    "<inode><id>"@ + decimal(n.id as nat) + "</id><type>"@ + kind_word(n.is_dir) + "</type><name>"@
        + n.name + "</name><mtime>0</mtime>"@ + kind_xml(n)
        + "<permission>cmccabe:supergroup:0644</permission>"@ + block_list_xml(n) + "</inode>"@
}

proof fn lemma_blocks_xml_step(bs: Seq<BlockView>, i: int)
    requires
        0 <= i < bs.len(),
    ensures
        blocks_xml(bs.subrange(0, i + 1)) == blocks_xml(bs.subrange(0, i)) + block_xml(bs[i]),
{
    assert(bs.subrange(0, i + 1).drop_last() =~= bs.subrange(0, i));
}

impl Block {
    /// The manifest record of this block.
    pub fn to_xml(&self) -> (r: String)
        ensures
            r@ == block_xml(self@),
    {
        let mut ret = String::from_str("<block><id>");
        push_decimal(&mut ret, self.id as u64);
        ret.append("</id><genstamp>");
        push_decimal(&mut ret, self.genstamp as u64);
        ret.append("</genstamp><numBytes>0</numBytes></block>");
        assert(ret@ =~= block_xml(self@));
        ret
    }
}

impl INode {
    /// The type word of this inode's record.
    pub fn get_type_name(&self) -> (r: &'static str)
        ensures
            r@ == kind_word(self.is_dir),
    {
        if self.is_dir {
            "DIRECTORY"
        } else {
            "FILE"
        }
    }

    /// The manifest record of this inode.
    pub fn to_xml(&self) -> (r: String)
        ensures
            r@ == inode_xml(self@),
    {
        let ghost v = self@;
        let mut ret = String::from_str("<inode><id>");
        push_decimal(&mut ret, self.id as u64);
        ret.append("</id><type>");
        ret.append(self.get_type_name());
        ret.append("</type><name>");
        ret.append(self.name.as_str());
        ret.append("</name><mtime>0</mtime>");
        let ghost head = ret@;
        if self.is_dir {
            ret.append("<dsquota>-1</dsquota><nsquota>-1</nsquota>");
        } else {
            ret.append("<atime>0</atime><replication>");
            let replication: usize = if self.blocks.len() > 0 {
                self.blocks[0].datanodes.len()
            } else {
                0
            };
            push_decimal(&mut ret, replication as u64);
            ret.append("</replication><preferredBlockSize>");
            push_decimal(&mut ret, PREFERRED_BLOCK_SIZE as u64);
            ret.append("</preferredBlockSize>");
        }
        assert(ret@ =~= head + kind_xml(v));
        ret.append("<permission>cmccabe:supergroup:0644</permission>");
        let ghost mid = ret@;
        if !self.is_dir {
            ret.append("<blocks>");
            let ghost start = ret@;
            let mut i: usize = 0;
            while i < self.blocks.len()
                invariant
                    i <= self.blocks.len(),
                    v == self@,
                    ret@ == start + blocks_xml(v.blocks.subrange(0, i as int)),
                decreases self.blocks.len() - i,
            {
                proof {
                    lemma_blocks_xml_step(v.blocks, i as int);
                }
                let b = self.blocks[i].to_xml();
                ret.append(b.as_str());
                i = i + 1;
                assert(ret@ =~= start + blocks_xml(v.blocks.subrange(0, i as int)));
            }
            assert(v.blocks.subrange(0, i as int) =~= v.blocks);
            ret.append("</blocks>");
        }
        assert(ret@ =~= mid + block_list_xml(v));
        ret.append("</inode>");
        assert(ret@ =~= inode_xml(v));
        ret
    }
}

} // verus!
