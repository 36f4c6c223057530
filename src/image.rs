//! The generated image: the namespace tree with its blocks, built from a
//! random stream, and the identities of the worker nodes.
use crate::config::generatable;
use crate::config::Config;
use crate::config::FanOut;
use crate::config::NAME_SUFFIX_LEN;
use crate::config::FIRST_BLOCK_ID;
use crate::config::FIRST_GENSTAMP;
use crate::config::ROOT_INODE_ID;
use crate::inode::Block;
use crate::inode::BlockView;
use crate::inode::INode;
use crate::namespace::gen_inv;
use crate::namespace::gen_state;
use crate::namespace::generated;
use crate::namespace::grow;
use crate::namespace::same_content;
use crate::namespace::incomplete;
use crate::namespace::initial_state;
use crate::namespace::lemma_advance_cursor;
use crate::namespace::lemma_gen_inv;
use crate::namespace::lemma_gen_inv_bounds;
use crate::namespace::lemma_gen_lengths;
use crate::namespace::lemma_shallowest;
use crate::namespace::lemma_words_prefix;
use crate::namespace::letters_of;
use crate::namespace::name_for;
use crate::namespace::shallowest_from;
use crate::namespace::GenState;
use crate::placement::holders_from;
use crate::placement::pick_replica_holders;
use crate::random::chacha_word;
use crate::random::lemma_stream_extends_refl;
use crate::random::lemma_stream_extends_trans;
use crate::random::stream_extends;
use crate::random::RandomSource;
use crate::text::letter_str;
use vstd::prelude::*;
use vstd::string::StringExecFns;

verus! {

/// Draws `len` words and turns each into a lowercase letter.
pub fn random_str(rng: &mut RandomSource, len: u32) -> (r: String)
    ensures
        final(rng).drawn().len() == old(rng).drawn().len() + len,
        final(rng).drawn().subrange(0, old(rng).drawn().len() as int) == old(rng).drawn(),
        stream_extends(*old(rng), *final(rng)),
        r@ == letters_of(
            final(rng).drawn().subrange(old(rng).drawn().len() as int, final(rng).drawn().len() as int),
        ),
{
    let ghost start = old(rng).drawn().len() as int;
    proof {
        lemma_stream_extends_refl(*rng);
    }
    let mut ret = String::new();
    let mut i: u32 = 0;
    while i < len
        invariant
            stream_extends(*old(rng), *rng),
            i <= len,
            start == old(rng).drawn().len(),
            rng.drawn().len() == start + i,
            rng.drawn().subrange(0, start) == old(rng).drawn(),
            ret@ == letters_of(rng.drawn().subrange(start, start + i)),
        decreases len - i,
    {
        let ghost before = rng.drawn();
        let ghost src_before = *rng;
        let w = rng.next_u32();
        proof {
            lemma_stream_extends_trans(*old(rng), src_before, *rng);
        }
        ret.append(letter_str(w % 26));
        i = i + 1;
        proof {
            assert(rng.drawn().subrange(0, start) =~= before.subrange(0, start));
            assert(rng.drawn().subrange(start, start + i) =~= before.subrange(start, start + i - 1).push(w));
            assert(ret@ =~= letters_of(rng.drawn().subrange(start, start + i)));
        }
    }
    ret
}

/// The identity of one worker node and of each of its storage slots.
pub struct DatanodeInfo {
    pub datanode_uuid: String,
    pub storage_ids: Vec<String>,
}

/// A lowercase hexadecimal digit.
pub open spec fn is_lower_hex(c: char) -> bool {
    ('0' <= c && c <= '9') || ('a' <= c && c <= 'f')
}

/// The hyphenated form of a random (version 4, RFC variant) UUID: 36
/// characters, hyphens at 8, 13, 18 and 23, lowercase hex digits elsewhere,
/// the version digit `4` at 14 and a variant digit `8`..`b` at 19.
pub open spec fn is_hyphenated_uuid(s: Seq<char>) -> bool {
    &&& s.len() == 36
    &&& forall|i: int|
        0 <= i < 36 ==> if i == 8 || i == 13 || i == 18 || i == 23 {
            #[trigger] s[i] == '-'
        } else {
            is_lower_hex(s[i])
        }
    &&& s[14] == '4'
    &&& (s[19] == '8' || s[19] == '9' || s[19] == 'a' || s[19] == 'b')
}

/// Relies on uuid's `Uuid::new_v4`, which sets the version and variant bits
/// of a random value, and on its `Display`, which writes the lowercase
/// hyphenated form. The value itself is random.
#[verifier::external_body]
fn random_uuid_string() -> (r: String)
    ensures
        is_hyphenated_uuid(r@),
{
    uuid::Uuid::new_v4().to_string()
}

/// A storage slot id: `DS-` followed by a random UUID.
pub open spec fn is_storage_id(s: Seq<char>) -> bool {
    &&& s.len() == 39
    &&& s.subrange(0, 3) == "DS-"@
    &&& is_hyphenated_uuid(s.subrange(3, 39))
}

/// Fresh random identities for each worker node and each of its storage
/// slots.
pub fn generate_dn_info(config: &Config) -> (r: Vec<DatanodeInfo>)
    ensures
        r@.len() == config.num_datanodes,
        forall|i: int|
            0 <= i < r@.len() ==> (#[trigger] r@[i]).storage_ids@.len() == config.num_storage_dirs_per_dn
                && is_hyphenated_uuid(r@[i].datanode_uuid@)
                && forall|j: int| 0 <= j < r@[i].storage_ids@.len() ==> is_storage_id(#[trigger] r@[i].storage_ids@[j]@),
{
    let mut datanodes: Vec<DatanodeInfo> = Vec::new();
    let mut n: u16 = 0;
    while n < config.num_datanodes
        invariant
            n <= config.num_datanodes,
            datanodes@.len() == n,
            forall|i: int|
                0 <= i < datanodes@.len() ==> (#[trigger] datanodes@[i]).storage_ids@.len()
                    == config.num_storage_dirs_per_dn && is_hyphenated_uuid(datanodes@[i].datanode_uuid@)
                    && forall|j: int|
                    0 <= j < datanodes@[i].storage_ids@.len() ==> is_storage_id(
                        #[trigger] datanodes@[i].storage_ids@[j]@,
                    ),
        decreases config.num_datanodes - n,
    {
        let mut storage_ids: Vec<String> = Vec::new();
        let mut k: u16 = 0;
        while k < config.num_storage_dirs_per_dn
            invariant
                k <= config.num_storage_dirs_per_dn,
                storage_ids@.len() == k,
                forall|j: int| 0 <= j < storage_ids@.len() ==> is_storage_id(#[trigger] storage_ids@[j]@),
            decreases config.num_storage_dirs_per_dn - k,
        {
            let mut id = String::from_str("DS-");
            let u = random_uuid_string();
            id.append(u.as_str());
            proof {
                reveal_strlit("DS-");
                assert(id@.subrange(0, 3) =~= "DS-"@);
                assert(id@.subrange(3, 39) =~= u@);
            }
            storage_ids.push(id);
            k = k + 1;
        }
        let datanode = DatanodeInfo { datanode_uuid: random_uuid_string(), storage_ids };
        datanodes.push(datanode);
        n = n + 1;
    }
    datanodes
}

/// The namespace tree, its blocks, and the worker nodes, as generated for one
/// configuration.
pub struct FSImage {
    config: Config,
    fan: FanOut,
    inodes: Vec<INode>,
    children: Vec<Vec<u32>>,
    next_inode_id: u32,
    next_possible_empty_dir_id: u32,
    num_inodes: u32,
    next_genstamp: u32,
    next_block_id: u32,
    datanode_info: Vec<DatanodeInfo>,
    words: Ghost<Seq<u32>>,
    seed: Ghost<u64>,
    start: Ghost<int>,
}

impl FSImage {
    /// The tree, its edges and its counters.
    pub closed spec fn state(&self) -> GenState {
        GenState {
            inodes: self.inodes@.map_values(|n: INode| n@),
            children: self.children@.map_values(|c: Vec<u32>| c@),
            cursor: self.next_possible_empty_dir_id - ROOT_INODE_ID,
            next_block_id: self.next_block_id as int,
            next_genstamp: self.next_genstamp as int,
            used: self.words@.len() as int,
        }
    }

    /// The configuration the image was generated for.
    pub closed spec fn config(&self) -> Config {
        self.config
    }

    /// The fan-out the image was generated with.
    pub closed spec fn fan(&self) -> FanOut {
        self.fan
    }

    /// The random words the tree was generated from, in the order drawn.
    pub closed spec fn words(&self) -> Seq<u32> {
        self.words@
    }

    /// The seed of the stream the words were drawn from.
    pub closed spec fn stream_seed(&self) -> u64 {
        self.seed@
    }

    /// The position in that stream of the first word drawn.
    pub closed spec fn stream_start(&self) -> int {
        self.start@
    }

    /// The worker nodes described.
    pub closed spec fn datanodes(&self) -> Seq<DatanodeInfo> {
        self.datanode_info@
    }

    /// The number of worker nodes described.
    pub closed spec fn datanode_count(&self) -> nat {
        self.datanode_info@.len()
    }

    /// The number of storage slots described for worker node `i`.
    pub closed spec fn storage_count(&self, i: int) -> nat {
        self.datanode_info@[i].storage_ids@.len()
    }

    /// The counters that mirror the tree agree with it.
    pub closed spec fn counters_agree(&self) -> bool {
        &&& self.inodes@.len() == self.children@.len()
        &&& 1 <= self.inodes@.len() <= self.config.num_inodes as int + 1
        &&& self.num_inodes as int == self.inodes@.len()
        &&& self.next_inode_id as int == ROOT_INODE_ID + self.inodes@.len()
        &&& ROOT_INODE_ID <= self.next_possible_empty_dir_id
    }

    /// A finished image: the tree is exactly what generation gives for the
    /// configuration and the recorded words (the search cursor aside), and the
    /// worker nodes are described in full.
    pub closed spec fn wf(&self) -> bool {
        &&& generatable(self.config, self.fan)
        &&& self.counters_agree()
        &&& gen_inv(self.state(), self.config, self.fan)
        &&& self.inodes@.len() == self.config.num_inodes as int + 1
        &&& {
            let g = generated(self.config, self.fan, self.words@);
            &&& self.state().inodes == g.inodes
            &&& self.state().children == g.children
            &&& self.state().next_block_id == g.next_block_id
            &&& self.state().next_genstamp == g.next_genstamp
            &&& self.state().used == g.used
        }
        &&& forall|i: int|
            0 <= i < self.words@.len() ==> #[trigger] self.words@[i] == chacha_word(self.seed@, self.start@ + i)
        &&& self.datanode_info@.len() == self.config.num_datanodes
        &&& forall|i: int|
            0 <= i < self.datanode_info@.len() ==> (#[trigger] self.datanode_info@[i]).storage_ids@.len()
                == self.config.num_storage_dirs_per_dn
    }

    /// What a finished image guarantees, in terms of its state.
    pub proof fn lemma_wf(&self)
        requires
            self.wf(),
        ensures
            generatable(self.config(), self.fan()),
            gen_inv(self.state(), self.config(), self.fan()),
            self.state().inodes.len() == self.config().num_inodes as int + 1,
            same_content(self.state(), generated(self.config(), self.fan(), self.words())),
            self.state().used == self.words().len(),
            forall|i: int|
                0 <= i < self.words().len() ==> #[trigger] self.words()[i] == chacha_word(
                    self.stream_seed(),
                    self.stream_start() + i,
                ),
            self.datanode_count() == self.config().num_datanodes,
            forall|i: int|
                0 <= i < self.datanode_count() ==> #[trigger] self.storage_count(i)
                    == self.config().num_storage_dirs_per_dn,
    {
    }

    /// The next generation stamp to be handed out.
    pub fn next_genstamp(&self) -> (r: u32)
        ensures
            r == self.state().next_genstamp,
    {
        self.next_genstamp
    }

    /// The next block id to be handed out.
    pub fn next_block_id(&self) -> (r: u32)
        ensures
            r == self.state().next_block_id,
    {
        self.next_block_id
    }

    /// The inodes, in id order: inode `k` has id `ROOT_INODE_ID + k`.
    pub fn inodes(&self) -> (r: &Vec<INode>)
        ensures
            r@.map_values(|n: INode| n@) == self.state().inodes,
    {
        &self.inodes
    }

    /// The child ids of each inode, in creation order; empty for files.
    pub fn children(&self) -> (r: &Vec<Vec<u32>>)
        ensures
            r@.map_values(|c: Vec<u32>| c@) == self.state().children,
    {
        &self.children
    }

    /// The worker nodes' identities.
    pub fn datanode_info(&self) -> (r: &Vec<DatanodeInfo>)
        ensures
            r@ == self.datanodes(),
            r@.len() == self.datanode_count(),
            forall|i: int| 0 <= i < r@.len() ==> #[trigger] r@[i].storage_ids@.len() == self.storage_count(i),
    {
        &self.datanode_info
    }

    /// The configuration the image was generated for.
    pub fn get_config(&self) -> (r: Config)
        ensures
            r == self.config(),
    {
        self.config
    }

    /// The number of inodes, the root included.
    pub fn num_inodes(&self) -> (r: u32)
        requires
            self.wf(),
        ensures
            r == self.state().inodes.len(),
    {
        self.num_inodes
    }

    /// The id of the lowest-id directory that can still take a child. The
    /// search starts at the cursor, which only moves forward, and stops there.
    pub fn find_shallowest_incomplete_dir(&mut self) -> (r: u32)
        requires
            old(self).counters_agree(),
            gen_inv(old(self).state(), old(self).config(), old(self).fan()),
        ensures
            r as int == ROOT_INODE_ID + shallowest_from(
                old(self).state(),
                old(self).fan(),
                old(self).state().cursor,
            ),
            incomplete(old(self).state(), old(self).fan(), r as int - ROOT_INODE_ID),
            forall|x: int|
                0 <= x < r as int - ROOT_INODE_ID ==> !incomplete(old(self).state(), old(self).fan(), x),
            final(self).state() == (GenState { cursor: r as int - ROOT_INODE_ID, ..old(self).state() }),
            final(self).config() == old(self).config(),
            final(self).fan() == old(self).fan(),
            final(self).words() == old(self).words(),
            final(self).counters_agree(),
            gen_inv(final(self).state(), final(self).config(), final(self).fan()),
            final(self).datanodes() == old(self).datanodes(),
            final(self).stream_seed() == old(self).stream_seed(),
            final(self).stream_start() == old(self).stream_start(),
    {
        let ghost s = self.state();
        let ghost fan = self.fan;
        let ghost d0 = choose|d: int| s.cursor <= d && incomplete(s, fan, d);
        proof {
            lemma_shallowest(s, fan, s.cursor, d0);
        }
        loop
            invariant
                self.inodes == old(self).inodes,
                self.children == old(self).children,
                self.config == old(self).config,
                self.fan == fan,
                self.next_inode_id == old(self).next_inode_id,
                self.num_inodes == old(self).num_inodes,
                self.next_genstamp == old(self).next_genstamp,
                self.next_block_id == old(self).next_block_id,
                self.words == old(self).words,
                self.seed == old(self).seed,
                self.start == old(self).start,
                self.datanode_info == old(self).datanode_info,
                s == old(self).state(),
                fan == old(self).fan,
                gen_inv(s, self.config, fan),
                self.counters_agree(),
                s.cursor <= self.state().cursor <= shallowest_from(s, fan, s.cursor),
                shallowest_from(s, fan, s.cursor) <= d0 < s.inodes.len(),
                incomplete(s, fan, shallowest_from(s, fan, s.cursor)),
                forall|x: int| s.cursor <= x < shallowest_from(s, fan, s.cursor) ==> !incomplete(s, fan, x),
                ROOT_INODE_ID + s.inodes.len() == self.next_inode_id,
            decreases s.inodes.len() - self.state().cursor,
        {
            let id = self.next_possible_empty_dir_id;
            let k: usize = (id - ROOT_INODE_ID) as usize;
            assert(s.inodes[k as int] == self.inodes@[k as int]@);
            assert(s.children[k as int] == self.children@[k as int]@);
            if self.inodes[k].is_dir && self.children[k].len() < self.fan.entries_per_dir as usize {
                assert(incomplete(s, fan, k as int));
                assert(self.state().cursor == k as int);
                assert(k as int == shallowest_from(s, fan, s.cursor));
                assert forall|x: int| 0 <= x < k as int implies !incomplete(s, fan, x) by {
                    if x < s.cursor && s.inodes[x].is_dir {
                        assert(s.children[x].len() == fan.entries_per_dir);
                    }
                }
                proof {
                    lemma_advance_cursor(s, self.config, fan);
                    assert(self.state() == (GenState { cursor: k as int, ..s }));
                }
                return id;
            }
            assert(!incomplete(s, fan, k as int));
            self.next_possible_empty_dir_id = id + 1;
        }
    }

    /// Allocates the next block and chooses its replica holders.
    fn generate_random_block(&mut self, rng: &mut RandomSource) -> (b: Block)
        requires
            old(self).next_block_id < u32::MAX,
            old(self).next_genstamp < u32::MAX,
            old(self).config.repl <= old(self).config.num_datanodes,
        ensures
            b.id == old(self).next_block_id,
            b.genstamp == old(self).next_genstamp,
            final(rng).drawn().len() == old(rng).drawn().len() + old(self).config.repl,
            final(rng).drawn().subrange(0, old(rng).drawn().len() as int) == old(rng).drawn(),
            stream_extends(*old(rng), *final(rng)),
            b.datanodes@ == holders_from(
                final(rng).drawn().subrange(old(rng).drawn().len() as int, final(rng).drawn().len() as int),
                old(self).config.num_datanodes as nat,
            ),
            *final(self) == (FSImage {
                next_block_id: (old(self).next_block_id + 1) as u32,
                next_genstamp: (old(self).next_genstamp + 1) as u32,
                ..*old(self)
            }),
    {
        let datanodes = pick_replica_holders(rng, self.config.repl, self.config.num_datanodes);
        let id = self.next_block_id;
        self.next_block_id = self.next_block_id + 1;
        let genstamp = self.next_genstamp;
        self.next_genstamp = self.next_genstamp + 1;
        Block { id, genstamp, datanodes }
    }

    /// Adds one child to the directory at the cursor: a directory for the
    /// first `dirs_per_dir` positions, else a file with a fresh block.
    fn add_child(&mut self, parent: u32, rng: &mut RandomSource)
        requires
            generatable(old(self).config, old(self).fan),
            old(self).counters_agree(),
            gen_inv(old(self).state(), old(self).config, old(self).fan),
            old(self).inodes@.len() <= old(self).config.num_inodes,
            parent as int == ROOT_INODE_ID + old(self).state().cursor,
            incomplete(old(self).state(), old(self).fan, old(self).state().cursor),
        ensures
            final(self).config == old(self).config,
            final(self).fan == old(self).fan,
            final(self).datanode_info == old(self).datanode_info,
            final(self).seed == old(self).seed,
            final(self).start == old(self).start,
            final(self).counters_agree(),
            final(self).inodes@.len() == old(self).inodes@.len() + 1,
            final(rng).drawn().len() >= old(rng).drawn().len(),
            final(rng).drawn().subrange(0, old(rng).drawn().len() as int) == old(rng).drawn(),
            stream_extends(*old(rng), *final(rng)),
            final(self).words@ == old(self).words@ + final(rng).drawn().subrange(
                old(rng).drawn().len() as int,
                final(rng).drawn().len() as int,
            ),
            final(self).state() == grow(old(self).state(), old(self).config, old(self).fan, final(self).words@),
    {
        let ghost s = self.state();
        let ghost w0 = self.words@;
        let ghost r0 = rng.drawn();
        let ghost cfg = self.config;
        let ghost fan = self.fan;
        assert(shallowest_from(s, fan, s.cursor) == s.cursor);
        let p: usize = (parent - ROOT_INODE_ID) as usize;
        assert(s.children[p as int] == self.children@[p as int]@);
        let pos: usize = self.children[p].len();
        let id: u32 = self.next_inode_id;
        let kids = pushed(&self.children[p], id);
        self.children.set(p, kids);
        let mut name = String::from_str(letter_str(pos as u32));
        let suffix = random_str(rng, NAME_SUFFIX_LEN);
        name.append(suffix.as_str());
        let ghost r1 = rng.drawn();
        let ghost src1 = *rng;
        let ghost nm = name@;
        assert(nm == name_for(pos as int, r1.subrange(r0.len() as int, r1.len() as int)));
        proof {
            lemma_gen_inv_bounds(s, cfg, fan);
        }
        if (pos as u32) < self.fan.dirs_per_dir {
            let node = INode { id, name, is_dir: true, blocks: Vec::new() };
            self.inodes.push(node);
        } else {
            let block = self.generate_random_block(rng);
            proof {
                lemma_stream_extends_trans(*old(rng), src1, *rng);
            }
            let mut blocks: Vec<Block> = Vec::new();
            blocks.push(block);
            let node = INode { id, name, is_dir: false, blocks };
            self.inodes.push(node);
        }
        self.children.push(Vec::new());
        self.next_inode_id = id + 1;
        self.num_inodes = self.num_inodes + 1;
        self.words = Ghost(w0 + rng.drawn().subrange(r0.len() as int, rng.drawn().len() as int));
        proof {
            let w = self.words@;
            let t = grow(s, cfg, fan, w);
            let fresh = rng.drawn().subrange(r0.len() as int, rng.drawn().len() as int);
            assert(rng.drawn().subrange(0, r0.len() as int) =~= r0);
            assert(w.subrange(s.used, s.used + NAME_SUFFIX_LEN) =~= r1.subrange(
                r0.len() as int,
                r1.len() as int,
            ));
            if (pos as u32) >= fan.dirs_per_dir {
                let a = s.used + NAME_SUFFIX_LEN;
                assert(w.subrange(a, a + cfg.repl) =~= rng.drawn().subrange(
                    r1.len() as int,
                    rng.drawn().len() as int,
                ));
                assert(self.inodes@[s.inodes.len() as int]@.blocks =~= t.inodes[s.inodes.len() as int].blocks);
            } else {
                assert(self.inodes@[s.inodes.len() as int]@.blocks =~= t.inodes[s.inodes.len() as int].blocks);
            }
            assert(self.inodes@[s.inodes.len() as int]@.name == t.inodes[s.inodes.len() as int].name);
            assert(self.inodes@[s.inodes.len() as int]@ == t.inodes[s.inodes.len() as int]);
            assert(self.state().inodes =~= t.inodes);
            assert(self.state().children =~= t.children);
        }
    }

    /// Generates the image for `config`: the worker identities first, then
    /// the namespace tree, drawing on `rng`.
    pub fn new(config: &Config, fan: &FanOut, rng: &mut RandomSource) -> (r: FSImage)
        requires
            generatable(*config, *fan),
        ensures
            r.wf(),
            r.config() == *config,
            r.fan() == *fan,
            r.stream_seed() == old(rng).seed(),
            r.stream_start() == old(rng).drawn().len(),
            final(rng).drawn() == old(rng).drawn() + r.words(),
            stream_extends(*old(rng), *final(rng)),
    {
        let datanode_info = generate_dn_info(config);
        let mut fs_image = FSImage {
            config: *config,
            fan: *fan,
            inodes: Vec::new(),
            children: Vec::new(),
            next_inode_id: ROOT_INODE_ID + 1,
            next_possible_empty_dir_id: ROOT_INODE_ID,
            num_inodes: 0,
            next_genstamp: FIRST_GENSTAMP,
            next_block_id: FIRST_BLOCK_ID,
            datanode_info,
            words: Ghost(Seq::empty()),
            seed: Ghost(rng.seed()),
            start: Ghost(rng.drawn().len() as int),
        };
        fs_image.generate(rng);
        proof {
            let w = fs_image.words@;
            let n0 = old(rng).drawn().len() as int;
            assert forall|i: int| 0 <= i < w.len() implies #[trigger] w[i] == chacha_word(
                fs_image.seed@,
                fs_image.start@ + i,
            ) by {
                assert(rng.drawn()[n0 + i] == w[i]);
            }
        }
        fs_image
    }

    /// Grows the tree from the root until it holds the target number of
    /// inodes besides the root.
    fn generate(&mut self, rng: &mut RandomSource)
        requires
            generatable(old(self).config, old(self).fan),
            old(self).inodes@.len() == 0,
            old(self).children@.len() == 0,
            old(self).words@ == Seq::<u32>::empty(),
            old(self).next_possible_empty_dir_id == ROOT_INODE_ID,
            old(self).next_genstamp == FIRST_GENSTAMP,
            old(self).next_block_id == FIRST_BLOCK_ID,
        ensures
            final(self).config == old(self).config,
            final(self).fan == old(self).fan,
            final(self).datanode_info@ == old(self).datanode_info@,
            final(self).counters_agree(),
            gen_inv(final(self).state(), final(self).config, final(self).fan),
            final(self).inodes@.len() == final(self).config.num_inodes as int + 1,
            final(self).state() == generated(final(self).config, final(self).fan, final(self).words@),
            final(rng).drawn() == old(rng).drawn() + final(self).words@,
            stream_extends(*old(rng), *final(rng)),
            final(self).seed == old(self).seed,
            final(self).start == old(self).start,
    {
        let ghost cfg = self.config;
        let ghost fan = self.fan;
        let ghost r0 = rng.drawn();
        let root_inode = INode { id: ROOT_INODE_ID, name: String::new(), is_dir: true, blocks: Vec::new() };
        self.inodes.push(root_inode);
        self.children.push(Vec::new());
        self.next_inode_id = ROOT_INODE_ID + 1;
        self.num_inodes = 1;
        proof {
            assert(self.inodes@[0]@.blocks =~= Seq::<BlockView>::empty());
            assert(self.inodes@[0]@ == initial_state().inodes[0]);
            assert(self.state().inodes =~= initial_state().inodes);
            assert(self.state().children =~= initial_state().children);
            assert(self.state() == gen_state(cfg, fan, self.words@, 0));
            assert(rng.drawn() =~= r0 + self.words@);
            lemma_gen_inv(cfg, fan, self.words@, 0);
            lemma_stream_extends_refl(*rng);
        }
        while self.num_inodes <= self.config.num_inodes
            invariant
                stream_extends(*old(rng), *rng),
                self.seed == old(self).seed,
                self.start == old(self).start,
                self.config == cfg,
                self.fan == fan,
                self.datanode_info@ == old(self).datanode_info@,
                generatable(cfg, fan),
                self.counters_agree(),
                self.state() == gen_state(cfg, fan, self.words@, (self.inodes@.len() - 1) as nat),
                gen_inv(self.state(), cfg, fan),
                rng.drawn() == r0 + self.words@,
            decreases cfg.num_inodes + 1 - self.inodes@.len(),
        {
            let ghost n = (self.inodes@.len() - 1) as nat;
            let ghost s0 = self.state();
            let ghost w0 = self.words@;
            let ghost rb = rng.drawn();
            let parent = self.find_shallowest_incomplete_dir();
            let ghost s1 = self.state();
            let ghost src_b = *rng;
            self.add_child(parent, rng);
            proof {
                lemma_stream_extends_trans(*old(rng), src_b, *rng);
                let w1 = self.words@;
                assert(incomplete(s1, fan, s1.cursor));
                assert(shallowest_from(s1, fan, s1.cursor) == s1.cursor);
                assert(grow(s1, cfg, fan, w1) == grow(s0, cfg, fan, w1));
                lemma_gen_lengths(cfg, fan, w0, n);
                assert(w0 =~= w1.subrange(0, w0.len() as int));
                lemma_words_prefix(cfg, fan, w0, w1, n);
                assert(self.state() == gen_state(cfg, fan, w1, n + 1));
                assert(rng.drawn() =~= r0 + w1) by {
                    assert(rng.drawn() =~= rb + rng.drawn().subrange(rb.len() as int, rng.drawn().len() as int));
                }
                lemma_gen_inv(cfg, fan, w1, n + 1);
            }
        }
    }
}

/// A copy of `v` with `x` appended.
fn pushed(v: &Vec<u32>, x: u32) -> (r: Vec<u32>)
    ensures
        r@ == v@.push(x),
{
    let mut r: Vec<u32> = Vec::new();
    let mut i: usize = 0;
    while i < v.len()
        invariant
            i <= v.len(),
            r@ == v@.subrange(0, i as int),
        decreases v.len() - i,
    {
        r.push(v[i]);
        i = i + 1;
        assert(r@ =~= v@.subrange(0, i as int));
    }
    r.push(x);
    assert(r@ =~= v@.push(x));
    r
}

} // verus!
