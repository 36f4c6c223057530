//! What holds of every generated image, stated over the models that the
//! functions' contracts use.
use crate::config::Config;
use crate::config::ROOT_INODE_ID;
use crate::image::FSImage;
use crate::inode::BlockView;
use crate::inode::INodeView;
use crate::layout::slot_of;
use crate::layout::subdirs_of;
use crate::manifest::directories_xml;
use crate::manifest::manifest_xml;
use crate::materialize::all_replicas;
use crate::materialize::block_replicas;
use crate::materialize::blocks_replicas;
use crate::materialize::file_count;
use crate::materialize::replica_of;
use crate::materialize::thread_plan;
use crate::namespace::block_ok;
use crate::namespace::created_ids;
use crate::namespace::flatten_children;
use crate::namespace::generated;
use crate::namespace::lemma_gen_lengths;
use crate::namespace::lemma_shape_independent_of_words;
use crate::namespace::same_content;
use crate::namespace::tree_complete;
use crate::namespace::GenState;
use crate::random::chacha_word;
use vstd::prelude::*;

verus! {

proof fn lemma_directories_same(a: GenState, b: GenState, k: int)
    requires
        a.inodes == b.inodes,
        a.children == b.children,
    ensures
        directories_xml(a, k) == directories_xml(b, k),
    decreases k,
{
    if k > 0 {
        lemma_directories_same(a, b, k - 1);
    }
}

/// Generation is deterministic: two images built for the same
/// configuration and fan-out from streams of the same seed, read from the
/// same position (a fresh stream starts at 0), consumed the same words and
/// have the same inodes, edges and counters, the same manifest, and the same
/// replicas to write for every thread.
pub proof fn lemma_deterministic(a: &FSImage, b: &FSImage)
    requires
        a.wf(),
        b.wf(),
        a.config() == b.config(),
        a.fan() == b.fan(),
        a.stream_seed() == b.stream_seed(),
        a.stream_start() == b.stream_start(),
    ensures
        a.words() == b.words(),
        same_content(a.state(), b.state()),
        manifest_xml(a.state(), a.config().nn_layout_version) == manifest_xml(
            b.state(),
            b.config().nn_layout_version,
        ),
        forall|t: int, threads: int|
            thread_plan(a.state().inodes, a.config().num_storage_dirs_per_dn, t, threads) == thread_plan(
                b.state().inodes,
                b.config().num_storage_dirs_per_dn,
                t,
                threads,
            ),
{
    a.lemma_wf();
    b.lemma_wf();
    let wa = a.words();
    let wb = b.words();
    lemma_shape_independent_of_words(
        a.config(),
        b.config(),
        a.fan(),
        wa,
        wb,
        a.config().num_inodes as nat,
    );
    assert(wa.len() == wb.len());
    assert forall|i: int| 0 <= i < wa.len() implies wa[i] == wb[i] by {
        assert(wa[i] == chacha_word(a.stream_seed(), a.stream_start() + i));
        assert(wb[i] == chacha_word(b.stream_seed(), b.stream_start() + i));
    }
    assert(wa =~= wb);
    lemma_directories_same(a.state(), b.state(), a.state().inodes.len() as int);
}

/// Inode ids are unique and strictly increase in creation order: the root
/// has the root id and the first other inode the next one.
pub proof fn lemma_ids_increase(img: &FSImage)
    requires
        img.wf(),
    ensures
        img.state().inodes[0].id == ROOT_INODE_ID,
        img.state().inodes.len() > 1 ==> img.state().inodes[1].id == ROOT_INODE_ID + 1,
        forall|i: int, j: int|
            0 <= i < j < img.state().inodes.len() ==> img.state().inodes[i].id < img.state().inodes[j].id,
{
    img.lemma_wf();
    let s = img.state();
    assert(s.inodes[0].id == ROOT_INODE_ID + 0);
    if s.inodes.len() > 1 {
        assert(s.inodes[1].id == ROOT_INODE_ID + 1);
    }
    assert forall|i: int, j: int| 0 <= i < j < s.inodes.len() implies s.inodes[i].id < s.inodes[j].id by {
        assert(s.inodes[i].id == ROOT_INODE_ID + i);
        assert(s.inodes[j].id == ROOT_INODE_ID + j);
    }
}

/// Children are listed in creation order: concatenating the child lists in
/// parent-id order (files list none) gives the ids `ROOT_INODE_ID + 1`,
/// `ROOT_INODE_ID + 2`, ... up to the last id, each once, so directories are
/// filled one after the other, lowest id first.
pub proof fn lemma_children_in_creation_order(img: &FSImage)
    requires
        img.wf(),
    ensures
        flatten_children(img.state().children) == created_ids(img.state().inodes.len() as int),
{
    img.lemma_wf();
}

/// The edges form a tree over all inodes: every listed child exists and has
/// a larger id than its parent (so there is no cycle), files have no
/// children, and every inode but the root is listed exactly once.
pub proof fn lemma_tree_complete(img: &FSImage)
    requires
        img.wf(),
    ensures
        tree_complete(img.state()),
        forall|p: int, j: int|
            0 <= p < img.state().children.len() && 0 <= j < img.state().children[p].len() ==> {
                let c = #[trigger] img.state().children[p][j] - ROOT_INODE_ID;
                &&& p < c < img.state().inodes.len()
                &&& img.state().inodes[c].id == img.state().children[p][j]
                &&& img.state().inodes[p].is_dir
                &&& img.state().children[p][j] != ROOT_INODE_ID
            },
        forall|c: int|
            1 <= c < img.state().inodes.len() ==> exists|p: int, j: int|
                0 <= p < img.state().children.len() && 0 <= j < img.state().children[p].len()
                    && img.state().children[p][j] == (#[trigger] img.state().inodes[c]).id,
{
    img.lemma_wf();
    let s = img.state();
    assert forall|p: int, j: int| 0 <= p < s.children.len() && 0 <= j < s.children[p].len() implies {
        let c = #[trigger] s.children[p][j] - ROOT_INODE_ID;
        &&& p < c < s.inodes.len()
        &&& s.inodes[c].id == s.children[p][j]
        &&& s.inodes[p].is_dir
        &&& s.children[p][j] != ROOT_INODE_ID
    } by {
        let c = s.children[p][j] - ROOT_INODE_ID;
        assert(crate::namespace::is_edge(s, p, j));
        assert(s.inodes[c].id == ROOT_INODE_ID + c);
        if !s.inodes[p].is_dir {
            assert(s.children[p].len() == 0);
        }
    }
    assert forall|c: int| 1 <= c < s.inodes.len() implies exists|p: int, j: int|
        0 <= p < s.children.len() && 0 <= j < s.children[p].len() && s.children[p][j]
            == (#[trigger] s.inodes[c]).id by {
        assert(crate::namespace::listed_as_child(s, c));
        assert(s.inodes[c].id == ROOT_INODE_ID + c);
    }
}

/// Every file has one block with exactly `repl` holders, each a valid
/// worker index; with at most two replicas no holder appears twice.
pub proof fn lemma_replicas_valid(img: &FSImage)
    requires
        img.wf(),
    ensures
        forall|k: int|
            0 <= k < img.state().inodes.len() && !(#[trigger] img.state().inodes[k]).is_dir ==> {
                &&& img.state().inodes[k].blocks.len() == 1
                &&& block_ok(img.state().inodes[k].blocks[0], img.config())
            },
        forall|k: int|
            0 <= k < img.state().inodes.len() && (#[trigger] img.state().inodes[k]).is_dir
                ==> img.state().inodes[k].blocks.len() == 0,
{
    img.lemma_wf();
}

/// The storage slot and buckets that the materializer uses for a replica are
/// those of the layout plan, the slot within the slot count and each bucket
/// a byte.
pub proof fn lemma_layout_agreement(b: BlockView, worker_index: u16, num_storage_slots: u16)
    requires
        num_storage_slots > 0,
    ensures
        replica_of(b, worker_index, num_storage_slots).storage as int == slot_of(
            b.id,
            worker_index,
            num_storage_slots,
        ),
        0 <= slot_of(b.id, worker_index, num_storage_slots) < num_storage_slots,
        0 <= subdirs_of(b.id).0 < 256,
        0 <= subdirs_of(b.id).1 < 256,
{
}

/// The number of replicas that all threads together write.
pub open spec fn plans_total(ns: Seq<INodeView>, slots: u16, threads: int, upto: int) -> int
    decreases upto,
{
    if upto <= 0 {
        0
    } else {
        plans_total(ns, slots, threads, upto - 1) + thread_plan(ns, slots, upto - 1, threads).len()
    }
}

proof fn lemma_plans_total_step(ns: Seq<INodeView>, slots: u16, threads: int, upto: int)
    requires
        ns.len() > 0,
        threads > 0,
        0 <= upto <= threads,
    ensures
        plans_total(ns, slots, threads, upto) == plans_total(ns.drop_last(), slots, threads, upto) + if !ns.last().is_dir
            && ns.last().id as int % threads < upto {
            blocks_replicas(ns.last().blocks, slots).len() as int
        } else {
            0
        },
    decreases upto,
{
    if upto > 0 {
        lemma_plans_total_step(ns, slots, threads, upto - 1);
    }
}

/// The threads' plans together cover every file's replicas, each once.
pub proof fn lemma_plans_partition(ns: Seq<INodeView>, slots: u16, threads: int)
    requires
        threads > 0,
    ensures
        plans_total(ns, slots, threads, threads) == all_replicas(ns, slots).len(),
    decreases ns.len(),
{
    if ns.len() == 0 {
        lemma_plans_empty(ns, slots, threads, threads);
    } else {
        lemma_plans_partition(ns.drop_last(), slots, threads);
        lemma_plans_total_step(ns, slots, threads, threads);
    }
}

proof fn lemma_plans_empty(ns: Seq<INodeView>, slots: u16, threads: int, upto: int)
    requires
        ns.len() == 0,
    ensures
        plans_total(ns, slots, threads, upto) == 0,
    decreases upto,
{
    if upto > 0 {
        lemma_plans_empty(ns, slots, threads, upto - 1);
    }
}

proof fn lemma_replica_count(ns: Seq<INodeView>, slots: u16, cfg: Config)
    requires
        forall|k: int|
            0 <= k < ns.len() && !(#[trigger] ns[k]).is_dir ==> ns[k].blocks.len() == 1 && block_ok(
                ns[k].blocks[0],
                cfg,
            ),
    ensures
        all_replicas(ns, slots).len() == file_count(ns) * cfg.repl,
    decreases ns.len(),
{
    if ns.len() > 0 {
        let x = ns.last();
        assert forall|k: int|
            0 <= k < ns.drop_last().len() && !(#[trigger] ns.drop_last()[k]).is_dir implies ns.drop_last()[k].blocks.len()
            == 1 && block_ok(ns.drop_last()[k].blocks[0], cfg) by {
            assert(ns.drop_last()[k] == ns[k]);
        }
        lemma_replica_count(ns.drop_last(), slots, cfg);
        if !x.is_dir {
            assert(ns[ns.len() - 1] == x);
            assert(x.blocks.drop_last().len() == 0);
            assert(blocks_replicas(x.blocks.drop_last(), slots).len() == 0);
            assert(x.blocks.last() == x.blocks[0]);
            assert(blocks_replicas(x.blocks, slots).len() == block_replicas(x.blocks[0], slots).len());
            assert(block_replicas(x.blocks[0], slots).len() == cfg.repl);
        }
        let fc = file_count(ns.drop_last()) as int;
        let r = cfg.repl as int;
        assert((fc + 1) * r == fc * r + r) by (nonlinear_arith);
        assert(all_replicas(ns, slots).len() == file_count(ns) * r);
    } else {
        assert(all_replicas(ns, slots).len() == 0);
        assert(file_count(ns) == 0);
        assert(0 * (cfg.repl as int) == 0);
    }
}

/// The materializer writes one data file and one metadata file per replica:
/// as many replicas as the replication factor for each file, split among the
/// threads so that together they write each exactly once.
pub proof fn lemma_materialization_count(img: &FSImage, threads: int)
    requires
        img.wf(),
        threads > 0,
    ensures
        all_replicas(img.state().inodes, img.config().num_storage_dirs_per_dn).len() == file_count(
            img.state().inodes,
        ) * img.config().repl,
        plans_total(img.state().inodes, img.config().num_storage_dirs_per_dn, threads, threads)
            == all_replicas(img.state().inodes, img.config().num_storage_dirs_per_dn).len(),
{
    img.lemma_wf();
    lemma_replica_count(img.state().inodes, img.config().num_storage_dirs_per_dn, img.config());
    lemma_plans_partition(img.state().inodes, img.config().num_storage_dirs_per_dn, threads);
}

/// Runs that differ in their random words (different seeds) but agree on the
/// target count, the replication factor and the fan-out build trees of the
/// same shape: the same inode count, ids, kinds, block ids and generation
/// stamps, and edges.
pub proof fn lemma_shape_independent_of_seed(a: &FSImage, b: &FSImage)
    requires
        a.wf(),
        b.wf(),
        a.fan() == b.fan(),
        a.config().num_inodes == b.config().num_inodes,
        a.config().repl == b.config().repl,
    ensures
        a.state().inodes.len() == b.state().inodes.len(),
        forall|k: int|
            0 <= k < a.state().inodes.len() ==> (#[trigger] a.state().inodes[k]).id == b.state().inodes[k].id
                && a.state().inodes[k].is_dir == b.state().inodes[k].is_dir
                && a.state().inodes[k].blocks.len() == b.state().inodes[k].blocks.len(),
        forall|k: int, i: int|
            0 <= k < a.state().inodes.len() && 0 <= i < a.state().inodes[k].blocks.len() ==> (
            #[trigger] a.state().inodes[k].blocks[i]).id == b.state().inodes[k].blocks[i].id
                && a.state().inodes[k].blocks[i].genstamp == b.state().inodes[k].blocks[i].genstamp,
        a.state().children == b.state().children,
{
    a.lemma_wf();
    b.lemma_wf();
    lemma_shape_independent_of_words(
        a.config(),
        b.config(),
        a.fan(),
        a.words(),
        b.words(),
        a.config().num_inodes as nat,
    );
    let ga = generated(a.config(), a.fan(), a.words());
    let gb = generated(b.config(), b.fan(), b.words());
    assert forall|k: int| 0 <= k < a.state().inodes.len() implies (#[trigger] a.state().inodes[k]).id
        == b.state().inodes[k].id && a.state().inodes[k].is_dir == b.state().inodes[k].is_dir
        && a.state().inodes[k].blocks.len() == b.state().inodes[k].blocks.len() by {
        assert(ga.inodes[k].id == gb.inodes[k].id);
    }
    assert forall|k: int, i: int|
        0 <= k < a.state().inodes.len() && 0 <= i < a.state().inodes[k].blocks.len() implies (
        #[trigger] a.state().inodes[k].blocks[i]).id == b.state().inodes[k].blocks[i].id
            && a.state().inodes[k].blocks[i].genstamp == b.state().inodes[k].blocks[i].genstamp by {
        assert(ga.inodes[k].blocks[i].id == gb.inodes[k].blocks[i].id);
    }
}

} // verus!
