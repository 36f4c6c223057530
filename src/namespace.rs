//! The namespace tree as it grows, one inode at a time: the state after each
//! step, the step itself, and what holds of every state that generation
//! reaches.
use crate::config::generatable;
use crate::config::Config;
use crate::config::FanOut;
use crate::config::FIRST_BLOCK_ID;
use crate::config::FIRST_GENSTAMP;
use crate::config::NAME_SUFFIX_LEN;
use crate::config::ROOT_INODE_ID;
use crate::inode::BlockView;
use crate::inode::INodeView;
use crate::placement::holders_from;
use crate::placement::lemma_holders_in_range;
use crate::placement::lemma_two_holders_distinct;
use crate::text::letter_chars;
use vstd::prelude::*;

verus! {

/// The namespace under construction. Inode `k` has id `ROOT_INODE_ID + k`;
/// `children[k]` lists the ids of its children in creation order (empty for
/// files); `cursor` is the index from which the next parent is sought; `used`
/// counts the random words consumed.
pub struct GenState {
    pub inodes: Seq<INodeView>,
    pub children: Seq<Seq<u32>>,
    pub cursor: int,
    pub next_block_id: int,
    pub next_genstamp: int,
    pub used: int,
}

/// The state before any child exists: the root alone.
pub open spec fn initial_state() -> GenState {
    GenState {
        inodes: seq![INodeView { id: ROOT_INODE_ID, name: Seq::empty(), is_dir: true, blocks: Seq::empty() }],
        children: seq![Seq::empty()],
        cursor: 0,
        next_block_id: FIRST_BLOCK_ID as int,
        next_genstamp: FIRST_GENSTAMP as int,
        used: 0,
    }
}

/// Inode `d` is a directory that can take another child.
pub open spec fn incomplete(s: GenState, fan: FanOut, d: int) -> bool {
    &&& 0 <= d < s.inodes.len()
    &&& s.inodes[d].is_dir
    &&& s.children[d].len() < fan.entries_per_dir
}

/// The lowest index from `c` on that holds a directory able to take another
/// child.
pub open spec fn shallowest_from(s: GenState, fan: FanOut, c: int) -> int
    decreases s.inodes.len() - c,
{
    if c < 0 || c >= s.inodes.len() || incomplete(s, fan, c) {
        c
    } else {
        shallowest_from(s, fan, c + 1)
    }
}

/// Letters `a`.. `z` chosen by words, one letter per word.
pub open spec fn letters_of(ws: Seq<u32>) -> Seq<char> {
    Seq::new(ws.len(), |i: int| letter_chars()[(ws[i] % 26) as int])
}

/// The name of the child at position `pos` of its parent, whose suffix is
/// chosen by the words `ws`.
pub open spec fn name_for(pos: int, ws: Seq<u32>) -> Seq<char> {
    seq![letter_chars()[pos]] + letters_of(ws)
}

/// One step: the lowest directory that can take a child gets one more. The
/// first `dirs_per_dir` children of a directory are directories; the others
/// are files, each with one fresh block whose holders are chosen next.
pub open spec fn grow(s: GenState, cfg: Config, fan: FanOut, words: Seq<u32>) -> GenState {
    let p = shallowest_from(s, fan, s.cursor);
    let pos = s.children[p].len() as int;
    let id = (ROOT_INODE_ID + s.inodes.len()) as u32;
    let name = name_for(pos, words.subrange(s.used, s.used + NAME_SUFFIX_LEN));
    let children = s.children.update(p, s.children[p].push(id)).push(Seq::empty());
    if pos < fan.dirs_per_dir {
        GenState {
            inodes: s.inodes.push(INodeView { id, name, is_dir: true, blocks: Seq::empty() }),
            children,
            cursor: p,
            next_block_id: s.next_block_id,
            next_genstamp: s.next_genstamp,
            used: s.used + NAME_SUFFIX_LEN,
        }
    } else {
        let start = s.used + NAME_SUFFIX_LEN;
        let block = BlockView {
            id: s.next_block_id as u32,
            genstamp: s.next_genstamp as u32,
            datanodes: holders_from(words.subrange(start, start + cfg.repl), cfg.num_datanodes as nat),
        };
        GenState {
            inodes: s.inodes.push(INodeView { id, name, is_dir: false, blocks: seq![block] }),
            children,
            cursor: p,
            next_block_id: s.next_block_id + 1,
            next_genstamp: s.next_genstamp + 1,
            used: start + cfg.repl,
        }
    }
}

/// The state after `n` children have been added, drawing on `words`.
pub open spec fn gen_state(cfg: Config, fan: FanOut, words: Seq<u32>, n: nat) -> GenState
    decreases n,
{
    if n == 0 {
        initial_state()
    } else {
        grow(gen_state(cfg, fan, words, (n - 1) as nat), cfg, fan, words)
    }
}

/// The finished namespace: the root and `cfg.num_inodes` more inodes.
pub open spec fn generated(cfg: Config, fan: FanOut, words: Seq<u32>) -> GenState {
    gen_state(cfg, fan, words, cfg.num_inodes as nat)
}

/// Two states with the same inodes, edges and counters (the cursor aside).
pub open spec fn same_content(a: GenState, b: GenState) -> bool {
    &&& a.inodes == b.inodes
    &&& a.children == b.children
    &&& a.next_block_id == b.next_block_id
    &&& a.next_genstamp == b.next_genstamp
    &&& a.used == b.used
}

/// Two states with the same tree: the same inode ids and kinds, the same
/// block ids and stamps, the same edges and the same cursor; names and
/// replica holders may differ.
pub open spec fn same_shape(a: GenState, b: GenState) -> bool {
    &&& a.inodes.len() == b.inodes.len()
    &&& forall|k: int|
        0 <= k < a.inodes.len() ==> (#[trigger] a.inodes[k]).id == b.inodes[k].id
            && a.inodes[k].is_dir == b.inodes[k].is_dir
            && a.inodes[k].blocks.len() == b.inodes[k].blocks.len()
    &&& forall|k: int, i: int|
        0 <= k < a.inodes.len() && 0 <= i < a.inodes[k].blocks.len() ==> (#[trigger] a.inodes[k].blocks[i]).id
            == b.inodes[k].blocks[i].id && a.inodes[k].blocks[i].genstamp == b.inodes[k].blocks[i].genstamp
    &&& a.children == b.children
    &&& a.cursor == b.cursor
    &&& a.next_block_id == b.next_block_id
    &&& a.next_genstamp == b.next_genstamp
    &&& a.used == b.used
}

/// Inode ids are the root id plus the index: unique and increasing.
pub open spec fn ids_consecutive(s: GenState) -> bool {
    forall|k: int| 0 <= k < s.inodes.len() ==> (#[trigger] s.inodes[k]).id == ROOT_INODE_ID + k
}

/// `children[p][j]` is a valid edge entry.
pub open spec fn is_edge(s: GenState, p: int, j: int) -> bool {
    0 <= p < s.children.len() && 0 <= j < s.children[p].len()
}

/// The inode at index `c` is listed among the children of some inode.
pub open spec fn listed_as_child(s: GenState, c: int) -> bool {
    exists|p: int, j: int| is_edge(s, p, j) && #[trigger] s.children[p][j] == ROOT_INODE_ID + c
}

/// Every edge leads from a directory to an inode with a larger id (so the
/// tree has no cycle), no id is listed twice, files have no children, and
/// every inode but the root is listed as a child.
pub open spec fn tree_complete(s: GenState) -> bool {
    &&& s.children.len() == s.inodes.len()
    &&& forall|p: int, j: int|
        is_edge(s, p, j) ==> ROOT_INODE_ID + p < #[trigger] s.children[p][j] < ROOT_INODE_ID
            + s.inodes.len()
    &&& forall|pa: int, ja: int, pb: int, jb: int|
        is_edge(s, pa, ja) && is_edge(s, pb, jb) && #[trigger] s.children[pa][ja]
            == #[trigger] s.children[pb][jb] ==> pa == pb && ja == jb
    &&& forall|k: int|
        0 <= k < s.inodes.len() && !(#[trigger] s.inodes[k]).is_dir ==> s.children[k].len() == 0
    &&& forall|c: int| 1 <= c < s.inodes.len() ==> #[trigger] listed_as_child(s, c)
}

/// A block as every file's block must be: `repl` holders, each a valid worker
/// index, and no holder twice when there are at most two.
pub open spec fn block_ok(b: BlockView, cfg: Config) -> bool {
    &&& b.datanodes.len() == cfg.repl
    &&& forall|i: int| 0 <= i < b.datanodes.len() ==> #[trigger] b.datanodes[i] < cfg.num_datanodes
    &&& cfg.repl <= 2 ==> forall|i: int, j: int|
        0 <= i < j < b.datanodes.len() ==> #[trigger] b.datanodes[i] != #[trigger] b.datanodes[j]
}

/// Directories have no blocks; files have exactly one, valid.
pub open spec fn blocks_valid(s: GenState, cfg: Config) -> bool {
    forall|k: int|
        0 <= k < s.inodes.len() ==> if (#[trigger] s.inodes[k]).is_dir {
            s.inodes[k].blocks.len() == 0
        } else {
            s.inodes[k].blocks.len() == 1 && block_ok(s.inodes[k].blocks[0], cfg)
        }
}

/// What the cursor guarantees: every directory before it is full, and a
/// directory that can take a child lies at or after it.
pub open spec fn cursor_ok(s: GenState, fan: FanOut) -> bool {
    &&& 0 <= s.cursor < s.inodes.len()
    &&& forall|d: int|
        0 <= d < s.cursor && s.inodes[d].is_dir ==> #[trigger] s.children[d].len()
            == fan.entries_per_dir
    &&& exists|d: int| s.cursor <= d && incomplete(s, fan, d)
}

/// The child lists one after the other, in the order of their parents.
pub open spec fn flatten_children(cs: Seq<Seq<u32>>) -> Seq<u32>
    decreases cs.len(),
{
    if cs.len() == 0 {
        Seq::empty()
    } else {
        flatten_children(cs.drop_last()) + cs.last()
    }
}

/// The ids of the non-root inodes of a tree with `n` inodes, in creation
/// order.
pub open spec fn created_ids(n: int) -> Seq<u32> {
    Seq::new((n - 1) as nat, |i: int| (ROOT_INODE_ID + 1 + i) as u32)
}

/// Appending to the last non-empty list appends to the concatenation.
proof fn lemma_flatten_push(cs: Seq<Seq<u32>>, p: int, x: u32)
    requires
        0 <= p < cs.len(),
        forall|q: int| p < q < cs.len() ==> #[trigger] cs[q].len() == 0,
    ensures
        flatten_children(cs.update(p, cs[p].push(x))) == flatten_children(cs).push(x),
    decreases cs.len(),
{
    let u = cs.update(p, cs[p].push(x));
    if p == cs.len() - 1 {
        assert(u.drop_last() =~= cs.drop_last());
        assert(flatten_children(u) =~= flatten_children(cs).push(x));
    } else {
        let d = cs.drop_last();
        assert(u.drop_last() =~= d.update(p, d[p].push(x)));
        lemma_flatten_push(d, p, x);
        assert(cs.last().len() == 0);
        assert(u.last() =~= cs.last());
        assert(flatten_children(u) =~= flatten_children(cs).push(x));
    }
}

/// An empty list at the end adds nothing.
proof fn lemma_flatten_push_empty(cs: Seq<Seq<u32>>)
    ensures
        flatten_children(cs.push(Seq::empty())) == flatten_children(cs),
{
    assert(cs.push(Seq::empty()).drop_last() =~= cs);
    assert(flatten_children(cs.push(Seq::empty())) =~= flatten_children(cs));
}

/// Everything that holds of each state that generation reaches.
pub open spec fn gen_inv(s: GenState, cfg: Config, fan: FanOut) -> bool {
    let n = s.inodes.len();
    &&& 1 <= n
    &&& s.inodes[0].is_dir
    &&& s.inodes[0].name.len() == 0
    &&& ids_consecutive(s)
    &&& tree_complete(s)
    &&& blocks_valid(s, cfg)
    &&& forall|d: int| 0 <= d < n ==> #[trigger] s.children[d].len() <= fan.entries_per_dir
    &&& cursor_ok(s, fan)
    &&& fan.dirs_per_dir >= 1 ==> exists|m: int|
        0 <= m < n && s.inodes[m].is_dir && #[trigger] s.children[m].len() == 0
    &&& fan.dirs_per_dir == 0 ==> s.children[0].len() == n - 1
    &&& fan.dirs_per_dir == 0 ==> forall|k: int| 1 <= k < n ==> !(#[trigger] s.inodes[k]).is_dir
    &&& forall|q: int| s.cursor < q < n ==> #[trigger] s.children[q].len() == 0
    &&& flatten_children(s.children) == created_ids(n as int)
    &&& FIRST_BLOCK_ID <= s.next_block_id <= FIRST_BLOCK_ID + n - 1
    &&& FIRST_GENSTAMP <= s.next_genstamp <= FIRST_GENSTAMP + n - 1
    &&& s.used >= 0
}

/// From `c` on, the search stops at the first directory that can take a child.
pub proof fn lemma_shallowest(s: GenState, fan: FanOut, c: int, d: int)
    requires
        0 <= c <= d,
        incomplete(s, fan, d),
    ensures
        c <= shallowest_from(s, fan, c) <= d,
        incomplete(s, fan, shallowest_from(s, fan, c)),
        forall|x: int| c <= x < shallowest_from(s, fan, c) ==> !incomplete(s, fan, x),
    decreases s.inodes.len() - c,
{
    if !incomplete(s, fan, c) {
        lemma_shallowest(s, fan, c + 1, d);
    }
}

/// The search depends only on the kinds of the inodes and the edges.
proof fn lemma_shallowest_shape(a: GenState, b: GenState, fan: FanOut, c: int)
    requires
        same_shape(a, b),
    ensures
        shallowest_from(a, fan, c) == shallowest_from(b, fan, c),
    decreases a.inodes.len() - c,
{
    if 0 <= c < a.inodes.len() {
        assert(a.inodes[c].is_dir == b.inodes[c].is_dir);
        if !incomplete(a, fan, c) {
            lemma_shallowest_shape(a, b, fan, c + 1);
        }
    }
}

/// One step keeps every part of the invariant.
pub proof fn lemma_grow_inv(s: GenState, cfg: Config, fan: FanOut, words: Seq<u32>)
    requires
        generatable(cfg, fan),
        gen_inv(s, cfg, fan),
        s.inodes.len() <= cfg.num_inodes,
        words.len() >= grow(s, cfg, fan, words).used,
    ensures
        gen_inv(grow(s, cfg, fan, words), cfg, fan),
        grow(s, cfg, fan, words).inodes.len() == s.inodes.len() + 1,
        grow(s, cfg, fan, words).used >= s.used,
{
    let n = s.inodes.len() as int;
    let e = fan.entries_per_dir as int;
    let d0 = choose|d: int| s.cursor <= d && incomplete(s, fan, d);
    lemma_shallowest(s, fan, s.cursor, d0);
    let p = shallowest_from(s, fan, s.cursor);
    let pos = s.children[p].len() as int;
    let id = (ROOT_INODE_ID + n) as u32;
    let t = grow(s, cfg, fan, words);
    assert(t.inodes.len() == n + 1);
    assert(t.children.len() == n + 1);
    assert(t.cursor == p);
    // ids
    assert forall|k: int| 0 <= k < t.inodes.len() implies (#[trigger] t.inodes[k]).id
        == ROOT_INODE_ID + k by {
        if k < n {
            assert(t.inodes[k] == s.inodes[k]);
        }
    }
    // edges
    assert forall|q: int, j: int| is_edge(t, q, j) implies ROOT_INODE_ID + q
        < #[trigger] t.children[q][j] < ROOT_INODE_ID + t.inodes.len() by {
        if q == p && j == pos {
        } else if q < n {
            assert(is_edge(s, q, j));
        }
    }
    assert forall|pa: int, ja: int, pb: int, jb: int|
        is_edge(t, pa, ja) && is_edge(t, pb, jb) && #[trigger] t.children[pa][ja]
            == #[trigger] t.children[pb][jb] implies pa == pb && ja == jb by {
        let new_a = pa == p && ja == pos;
        let new_b = pb == p && jb == pos;
        if !new_a && !new_b {
            assert(pa < n && pb < n);
            assert(is_edge(s, pa, ja) && is_edge(s, pb, jb));
            assert(t.children[pa][ja] == s.children[pa][ja]);
            assert(t.children[pb][jb] == s.children[pb][jb]);
        } else if new_a && !new_b {
            assert(pb < n);
            assert(is_edge(s, pb, jb));
            assert(t.children[pb][jb] == s.children[pb][jb]);
        } else if !new_a && new_b {
            assert(pa < n);
            assert(is_edge(s, pa, ja));
            assert(t.children[pa][ja] == s.children[pa][ja]);
        }
    }
    assert forall|k: int|
        0 <= k < t.inodes.len() && !(#[trigger] t.inodes[k]).is_dir implies t.children[k].len()
        == 0 by {
        if k < n {
            assert(t.inodes[k] == s.inodes[k]);
        }
    }
    assert forall|c: int| 1 <= c < t.inodes.len() implies #[trigger] listed_as_child(t, c) by {
        if c == n {
            assert(is_edge(t, p, pos) && t.children[p][pos] == ROOT_INODE_ID + c);
        } else {
            assert(listed_as_child(s, c));
            let (q, j) = choose|q: int, j: int|
                is_edge(s, q, j) && #[trigger] s.children[q][j] == ROOT_INODE_ID + c;
            assert(is_edge(t, q, j) && t.children[q][j] == ROOT_INODE_ID + c);
        }
    }
    assert(tree_complete(t));
    // blocks
    if pos >= fan.dirs_per_dir {
        let start = s.used + NAME_SUFFIX_LEN;
        lemma_holders_in_range(words.subrange(start, start + cfg.repl), cfg.num_datanodes as nat);
        if cfg.repl <= 2 {
            lemma_two_holders_distinct(words.subrange(start, start + cfg.repl), cfg.num_datanodes as nat);
        }
        let b = t.inodes[n].blocks[0];
        assert(b.datanodes == holders_from(words.subrange(start, start + cfg.repl), cfg.num_datanodes as nat));
        assert(block_ok(b, cfg));
    }
    assert forall|k: int| 0 <= k < t.inodes.len() implies if (#[trigger] t.inodes[k]).is_dir {
        t.inodes[k].blocks.len() == 0
    } else {
        t.inodes[k].blocks.len() == 1 && block_ok(t.inodes[k].blocks[0], cfg)
    } by {
        if k < n {
            assert(t.inodes[k] == s.inodes[k]);
        }
    }
    assert forall|d: int| 0 <= d < n + 1 implies #[trigger] t.children[d].len() <= e by {
        if d < n && d != p {
            assert(t.children[d] == s.children[d]);
        }
    }
    // cursor
    assert forall|d: int| 0 <= d < t.cursor && t.inodes[d].is_dir implies #[trigger] t.children[d].len()
        == e by {
        assert(t.children[d] == s.children[d]);
        assert(t.inodes[d] == s.inodes[d]);
        if d >= s.cursor {
            assert(!incomplete(s, fan, d));
        }
    }
    assert forall|q: int| t.cursor < q < n + 1 implies #[trigger] t.children[q].len() == 0 by {
        if q < n {
            assert(t.children[q] == s.children[q]);
        }
    }
    assert forall|q: int| p < q < s.children.len() implies #[trigger] s.children[q].len() == 0 by {}
    lemma_flatten_push(s.children, p, id);
    lemma_flatten_push_empty(s.children.update(p, s.children[p].push(id)));
    assert(created_ids(n + 1) =~= created_ids(n).push(id));
    if fan.dirs_per_dir >= 1 {
        let m = choose|m: int| 0 <= m < n && s.inodes[m].is_dir && #[trigger] s.children[m].len() == 0;
        let m2 = if pos < fan.dirs_per_dir { n } else { m };
        if pos >= fan.dirs_per_dir {
            assert(m != p);
            assert(t.children[m] == s.children[m]);
            assert(t.inodes[m] == s.inodes[m]);
        }
        assert(0 <= m2 < n + 1 && t.inodes[m2].is_dir && t.children[m2].len() == 0);
        if m2 < p {
            assert(t.children[m2] == s.children[m2]);
            assert(t.inodes[m2] == s.inodes[m2]);
            if m2 >= s.cursor {
                assert(!incomplete(s, fan, m2));
            }
            assert(false);
        }
        assert(p <= m2 && incomplete(t, fan, m2));
    } else {
        assert(p == 0) by {
            if p != 0 {
                assert(!s.inodes[p].is_dir);
            }
        }
        assert forall|k: int| 1 <= k < n + 1 implies !(#[trigger] t.inodes[k]).is_dir by {
            if k < n {
                assert(t.inodes[k] == s.inodes[k]);
            }
        }
        assert(t.children[0].len() == n);
        assert(incomplete(t, fan, 0));
    }
}

/// Generation steps add one inode each and never give words back.
pub proof fn lemma_gen_lengths(cfg: Config, fan: FanOut, words: Seq<u32>, n: nat)
    ensures
        gen_state(cfg, fan, words, n).inodes.len() == n + 1,
        gen_state(cfg, fan, words, n).used >= 0,
        n > 0 ==> gen_state(cfg, fan, words, (n - 1) as nat).used <= gen_state(cfg, fan, words, n).used,
    decreases n,
{
    if n > 0 {
        lemma_gen_lengths(cfg, fan, words, (n - 1) as nat);
    }
}

/// Every state that generation reaches, up to the target, satisfies the
/// invariant.
pub proof fn lemma_gen_inv(cfg: Config, fan: FanOut, words: Seq<u32>, n: nat)
    requires
        generatable(cfg, fan),
        n <= cfg.num_inodes,
        words.len() >= gen_state(cfg, fan, words, n).used,
    ensures
        gen_inv(gen_state(cfg, fan, words, n), cfg, fan),
    decreases n,
{
    lemma_gen_lengths(cfg, fan, words, n);
    if n == 0 {
        let s = initial_state();
        assert(incomplete(s, fan, 0));
        assert(s.children.drop_last() =~= Seq::<Seq<u32>>::empty());
        assert(flatten_children(s.children.drop_last()) == Seq::<u32>::empty());
        assert(s.children.last() == Seq::<u32>::empty());
        assert(flatten_children(s.children) =~= created_ids(1));
        if fan.dirs_per_dir >= 1 {
            assert(s.children[0].len() == 0);
        }
    } else {
        let prev = gen_state(cfg, fan, words, (n - 1) as nat);
        lemma_gen_lengths(cfg, fan, words, (n - 1) as nat);
        lemma_gen_inv(cfg, fan, words, (n - 1) as nat);
        lemma_grow_inv(prev, cfg, fan, words);
    }
}

/// A state depends only on the words it has consumed: more words after them
/// change nothing.
pub proof fn lemma_words_prefix(cfg: Config, fan: FanOut, w1: Seq<u32>, w2: Seq<u32>, n: nat)
    requires
        w1.len() <= w2.len(),
        w1 == w2.subrange(0, w1.len() as int),
        gen_state(cfg, fan, w1, n).used <= w1.len(),
    ensures
        gen_state(cfg, fan, w2, n) == gen_state(cfg, fan, w1, n),
    decreases n,
{
    if n > 0 {
        lemma_gen_lengths(cfg, fan, w1, n);
        let m = (n - 1) as nat;
        lemma_words_prefix(cfg, fan, w1, w2, m);
        lemma_gen_lengths(cfg, fan, w1, m);
        let s = gen_state(cfg, fan, w1, m);
        let t = grow(s, cfg, fan, w1);
        assert(t.used <= w1.len());
        let a = s.used;
        let b = s.used + NAME_SUFFIX_LEN;
        assert(0 <= a <= b <= t.used);
        assert(w1.subrange(a, b) =~= w2.subrange(a, b));
        let p = shallowest_from(s, fan, s.cursor);
        if s.children[p].len() >= fan.dirs_per_dir {
            assert(b + cfg.repl <= w1.len());
            assert(w1.subrange(b, b + cfg.repl) =~= w2.subrange(b, b + cfg.repl));
        }
        assert(grow(s, cfg, fan, w1) == grow(s, cfg, fan, w2));
    }
}

/// Growing two states of the same shape gives states of the same shape.
proof fn lemma_grow_shape(
    a: GenState,
    b: GenState,
    ca: Config,
    cb: Config,
    fan: FanOut,
    wa: Seq<u32>,
    wb: Seq<u32>,
)
    requires
        same_shape(a, b),
        ca.repl == cb.repl,
    ensures
        same_shape(grow(a, ca, fan, wa), grow(b, cb, fan, wb)),
{
    lemma_shallowest_shape(a, b, fan, a.cursor);
    let ga = grow(a, ca, fan, wa);
    let gb = grow(b, cb, fan, wb);
    assert forall|k: int| 0 <= k < ga.inodes.len() implies (#[trigger] ga.inodes[k]).id == gb.inodes[k].id
        && ga.inodes[k].is_dir == gb.inodes[k].is_dir
        && ga.inodes[k].blocks.len() == gb.inodes[k].blocks.len() by {
        if k < a.inodes.len() {
            assert(ga.inodes[k] == a.inodes[k]);
            assert(gb.inodes[k] == b.inodes[k]);
        }
    }
    assert forall|k: int, i: int|
        0 <= k < ga.inodes.len() && 0 <= i < ga.inodes[k].blocks.len() implies (#[trigger] ga.inodes[k].blocks[i]).id
        == gb.inodes[k].blocks[i].id && ga.inodes[k].blocks[i].genstamp == gb.inodes[k].blocks[i].genstamp by {
        if k < a.inodes.len() {
            assert(ga.inodes[k] == a.inodes[k]);
            assert(gb.inodes[k] == b.inodes[k]);
        }
    }
}

/// The tree's shape does not depend on the random words, nor on anything of
/// the configuration but the replication factor: two streams give the same
/// inode count, kinds and edges, with only names and replica holders free to
/// differ.
pub proof fn lemma_shape_independent_of_words(
    c1: Config,
    c2: Config,
    fan: FanOut,
    w1: Seq<u32>,
    w2: Seq<u32>,
    n: nat,
)
    requires
        c1.repl == c2.repl,
    ensures
        same_shape(gen_state(c1, fan, w1, n), gen_state(c2, fan, w2, n)),
    decreases n,
{
    if n > 0 {
        let m = (n - 1) as nat;
        lemma_shape_independent_of_words(c1, c2, fan, w1, w2, m);
        lemma_grow_shape(gen_state(c1, fan, w1, m), gen_state(c2, fan, w2, m), c1, c2, fan, w1, w2);
    }
}

/// Moving the cursor to the directory that the search finds keeps the
/// invariant.
pub proof fn lemma_advance_cursor(s: GenState, cfg: Config, fan: FanOut)
    requires
        gen_inv(s, cfg, fan),
    ensures
        gen_inv(GenState { cursor: shallowest_from(s, fan, s.cursor), ..s }, cfg, fan),
{
    let d0 = choose|d: int| s.cursor <= d && incomplete(s, fan, d);
    lemma_shallowest(s, fan, s.cursor, d0);
    let p = shallowest_from(s, fan, s.cursor);
    let t = GenState { cursor: p, ..s };
    assert(incomplete(t, fan, p));
    assert(t.cursor <= p && incomplete(t, fan, p));
    assert forall|c: int| 1 <= c < t.inodes.len() implies #[trigger] listed_as_child(t, c) by {
        assert(listed_as_child(s, c));
        let (q, j) = choose|q: int, j: int|
            is_edge(s, q, j) && #[trigger] s.children[q][j] == ROOT_INODE_ID + c;
        assert(is_edge(t, q, j));
    }
    assert forall|pa: int, ja: int, pb: int, jb: int|
        is_edge(t, pa, ja) && is_edge(t, pb, jb) && #[trigger] t.children[pa][ja]
            == #[trigger] t.children[pb][jb] implies pa == pb && ja == jb by {
        assert(is_edge(s, pa, ja) && is_edge(s, pb, jb));
    }
    assert forall|q: int, j: int| is_edge(t, q, j) implies ROOT_INODE_ID + q
        < #[trigger] t.children[q][j] < ROOT_INODE_ID + t.inodes.len() by {
        assert(is_edge(s, q, j));
    }
    assert(tree_complete(t));
    assert forall|d: int| 0 <= d < t.cursor && t.inodes[d].is_dir implies #[trigger] t.children[d].len()
        == fan.entries_per_dir by {
        if d >= s.cursor {
            assert(!incomplete(s, fan, d));
        }
    }
    assert(cursor_ok(t, fan));
    assert forall|q: int| t.cursor < q < t.inodes.len() implies #[trigger] t.children[q].len() == 0 by {
        assert(s.cursor < q);
    }
    if fan.dirs_per_dir >= 1 {
        let m = choose|m: int| 0 <= m < s.inodes.len() && s.inodes[m].is_dir && #[trigger] s.children[m].len() == 0;
        assert(t.children[m].len() == 0);
    }
}

/// The counters of a state that generation reaches leave room for one more
/// inode and block while the target is not reached.
pub proof fn lemma_gen_inv_bounds(s: GenState, cfg: Config, fan: FanOut)
    requires
        generatable(cfg, fan),
        gen_inv(s, cfg, fan),
        s.inodes.len() <= cfg.num_inodes,
    ensures
        s.next_block_id < u32::MAX,
        s.next_genstamp < u32::MAX,
        ROOT_INODE_ID + s.inodes.len() < u32::MAX,
{
}

} // verus!
