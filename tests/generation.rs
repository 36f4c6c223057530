use fsgen::config::Config;
use fsgen::config::ConfigError;
use fsgen::config::FanOut;
use fsgen::config::DEFAULT_DATANODE_LAYOUT_VERSION;
use fsgen::config::DEFAULT_NAMENODE_LAYOUT_VERSION;
use fsgen::config::FIRST_BLOCK_ID;
use fsgen::config::FIRST_GENSTAMP;
use fsgen::config::ROOT_INODE_ID;
use fsgen::image::FSImage;
use fsgen::materialize::BlockReplica;
use fsgen::random::RandomSource;

fn config(num_datanodes: u16, num_inodes: u32, repl: u16, storage: u16, seed: u64) -> Config {
    Config {
        num_datanodes,
        num_inodes,
        repl,
        num_storage_dirs_per_dn: storage,
        seed,
        num_threads: 4,
        dn_layout_version: DEFAULT_DATANODE_LAYOUT_VERSION,
        nn_layout_version: DEFAULT_NAMENODE_LAYOUT_VERSION,
    }
}

fn build(cfg: &Config, fan: &FanOut) -> FSImage {
    assert!(cfg.validate(fan).is_ok());
    let mut rng = RandomSource::from_seed(cfg.seed);
    FSImage::new(cfg, fan, &mut rng)
}

fn all_replicas(img: &FSImage, threads: u32) -> Vec<BlockReplica> {
    let mut all = Vec::new();
    for t in 0..threads {
        all.extend(img.replicas_for_thread(t, threads));
    }
    all
}

#[test]
fn single_file_with_one_replica() {
    let cfg = config(1, 1, 1, 1, 0xdeadbeef);
    let fan = FanOut { entries_per_dir: 6, dirs_per_dir: 0 };
    let img = build(&cfg, &fan);
    let inodes = img.inodes();
    assert_eq!(inodes.len(), 2);
    assert_eq!(inodes[0].id, ROOT_INODE_ID);
    assert!(inodes[0].is_dir);
    assert_eq!(inodes[0].name, "");
    assert!(!inodes[1].is_dir);
    assert_eq!(inodes[1].blocks.len(), 1);
    assert_eq!(inodes[1].blocks[0].id, FIRST_BLOCK_ID);
    assert_eq!(inodes[1].blocks[0].genstamp, FIRST_GENSTAMP);
    assert_eq!(inodes[1].blocks[0].datanodes, vec![0u16]);
    assert_eq!(img.children()[0], vec![ROOT_INODE_ID + 1]);
    let replicas = all_replicas(&img, 1);
    assert_eq!(replicas.len(), 1);
    let data = replicas[0].data_file_path();
    assert_eq!(
        data,
        "datanode01/storage01/current/BP-113955101-127.0.0.1-1455743472614/current/finalized/subdir0/subdir0/blk_1073741825_1001"
    );
    assert_eq!(replicas[0].meta_file_path(), format!("{}.meta", data));
}

#[test]
fn single_child_with_standard_fan_out_is_a_directory() {
    let cfg = config(1, 1, 1, 1, 7);
    let img = build(&cfg, &FanOut::standard());
    let inodes = img.inodes();
    assert_eq!(inodes.len(), 2);
    assert!(inodes[1].is_dir);
    assert!(inodes[1].name.starts_with('a'));
    assert_eq!(inodes[1].name.len(), 4);
    assert!(all_replicas(&img, 1).is_empty());
}

#[test]
fn replication_above_node_count_is_refused() {
    let cfg = config(2, 10, 3, 1, 1);
    assert_eq!(cfg.validate(&FanOut::standard()), Err(ConfigError::ReplicationExceedsDatanodes));
}

#[test]
fn each_config_error_has_its_input() {
    let fan = FanOut::standard();
    let mut c = config(4, 10, 3, 2, 1);
    assert_eq!(c.validate(&fan), Ok(()));
    c.dn_layout_version = 0;
    assert_eq!(c.validate(&fan), Err(ConfigError::DatanodeLayoutVersion));
    c.dn_layout_version = -1;
    c.nn_layout_version = 5;
    assert_eq!(c.validate(&fan), Err(ConfigError::NamenodeLayoutVersion));
    c.nn_layout_version = -1;
    c.num_inodes = 3221225471;
    assert_eq!(c.validate(&fan), Err(ConfigError::TooManyInodes));
    c.num_inodes = 10;
    assert_eq!(c.validate(&FanOut { entries_per_dir: 0, dirs_per_dir: 3 }), Err(ConfigError::FanOut));
    assert_eq!(c.validate(&FanOut { entries_per_dir: 27, dirs_per_dir: 3 }), Err(ConfigError::FanOut));
    assert_eq!(c.validate(&FanOut { entries_per_dir: 6, dirs_per_dir: 0 }), Err(ConfigError::FanOut));
    assert_eq!(c.validate(&FanOut { entries_per_dir: 11, dirs_per_dir: 0 }), Ok(()));
}

#[test]
fn same_seed_gives_identical_image() {
    let cfg = config(5, 200, 3, 4, 42);
    let fan = FanOut::standard();
    let a = build(&cfg, &fan);
    let b = build(&cfg, &fan);
    assert_eq!(a.to_xml(), b.to_xml());
    for t in 0..3 {
        let pa: Vec<String> = a.replicas_for_thread(t, 3).iter().map(|r| r.data_file_path()).collect();
        let pb: Vec<String> = b.replicas_for_thread(t, 3).iter().map(|r| r.data_file_path()).collect();
        assert_eq!(pa, pb);
    }
}

#[test]
fn other_seed_gives_same_shape_other_names() {
    let fan = FanOut::standard();
    let a = build(&config(5, 300, 3, 4, 1), &fan);
    let b = build(&config(5, 300, 3, 4, 2), &fan);
    assert_eq!(a.inodes().len(), b.inodes().len());
    for (x, y) in a.inodes().iter().zip(b.inodes().iter()) {
        assert_eq!(x.id, y.id);
        assert_eq!(x.is_dir, y.is_dir);
        assert_eq!(x.name.chars().next(), y.name.chars().next());
    }
    assert_eq!(a.children(), b.children());
    let names_a: Vec<&String> = a.inodes().iter().map(|n| &n.name).collect();
    let names_b: Vec<&String> = b.inodes().iter().map(|n| &n.name).collect();
    assert_ne!(names_a, names_b);
    let holders_a: Vec<Vec<u16>> = a.inodes().iter().flat_map(|n| n.blocks.iter().map(|b| b.datanodes.clone())).collect();
    let holders_b: Vec<Vec<u16>> = b.inodes().iter().flat_map(|n| n.blocks.iter().map(|b| b.datanodes.clone())).collect();
    assert_ne!(holders_a, holders_b);
    let blocks_a: Vec<(u32, u32)> = a.inodes().iter().flat_map(|n| n.blocks.iter().map(|b| (b.id, b.genstamp))).collect();
    let blocks_b: Vec<(u32, u32)> = b.inodes().iter().flat_map(|n| n.blocks.iter().map(|b| (b.id, b.genstamp))).collect();
    assert_eq!(blocks_a, blocks_b);
}

#[test]
fn ids_increase_from_root() {
    let img = build(&config(3, 100, 2, 2, 9), &FanOut::standard());
    let inodes = img.inodes();
    assert_eq!(inodes.len(), 101);
    assert_eq!(img.num_inodes(), 101);
    for (k, n) in inodes.iter().enumerate() {
        assert_eq!(n.id, ROOT_INODE_ID + k as u32);
    }
}

#[test]
fn tree_lists_every_inode_once() {
    let img = build(&config(3, 250, 2, 2, 11), &FanOut::standard());
    let inodes = img.inodes();
    let children = img.children();
    let mut seen = vec![0u32; inodes.len()];
    for (p, kids) in children.iter().enumerate() {
        if !inodes[p].is_dir {
            assert!(kids.is_empty());
        }
        assert!(kids.len() <= 6);
        for (pos, c) in kids.iter().enumerate() {
            let k = (c - ROOT_INODE_ID) as usize;
            assert!(k > p && k < inodes.len());
            seen[k] += 1;
            assert_eq!(inodes[k].is_dir, pos < 3);
            assert_eq!(inodes[k].name.chars().next(), Some((b'a' + pos as u8) as char));
        }
    }
    assert_eq!(seen[0], 0);
    assert!(seen[1..].iter().all(|&n| n == 1));
}

#[test]
fn directories_fill_lowest_first() {
    let img = build(&config(3, 20, 1, 1, 3), &FanOut::standard());
    let children = img.children();
    let base = ROOT_INODE_ID;
    assert_eq!(children[0], vec![base + 1, base + 2, base + 3, base + 4, base + 5, base + 6]);
    assert_eq!(children[1], vec![base + 7, base + 8, base + 9, base + 10, base + 11, base + 12]);
    assert_eq!(children[2], vec![base + 13, base + 14, base + 15, base + 16, base + 17, base + 18]);
    assert_eq!(children[3], vec![base + 19, base + 20]);
}

#[test]
fn blocks_have_valid_holders() {
    let cfg = config(5, 400, 3, 4, 5);
    let img = build(&cfg, &FanOut::standard());
    let mut next_id = FIRST_BLOCK_ID;
    for n in img.inodes().iter() {
        if n.is_dir {
            assert!(n.blocks.is_empty());
        } else {
            assert_eq!(n.blocks.len(), 1);
            let b = &n.blocks[0];
            assert_eq!(b.id, next_id);
            assert_eq!(b.genstamp, FIRST_GENSTAMP + (next_id - FIRST_BLOCK_ID));
            next_id += 1;
            assert_eq!(b.datanodes.len(), 3);
            assert!(b.datanodes.iter().all(|&d| d < 5));
        }
    }
}

#[test]
fn two_replicas_are_distinct() {
    let img = build(&config(3, 400, 2, 4, 8), &FanOut::standard());
    for n in img.inodes().iter().filter(|n| !n.is_dir) {
        let d = &n.blocks[0].datanodes;
        assert_ne!(d[0], d[1]);
    }
}

#[test]
fn all_nodes_hold_every_block_when_replication_equals_node_count() {
    let img = build(&config(1, 50, 1, 1, 8), &FanOut::standard());
    for n in img.inodes().iter().filter(|n| !n.is_dir) {
        assert_eq!(n.blocks[0].datanodes, vec![0u16]);
    }
}

#[test]
fn threads_split_all_replicas() {
    let cfg = config(4, 500, 2, 3, 13);
    let img = build(&cfg, &FanOut::standard());
    let files = img.inodes().iter().filter(|n| !n.is_dir).count();
    let total = all_replicas(&img, 7).len();
    assert_eq!(total, files * 2);
    assert_eq!(all_replicas(&img, 1).len(), total);
    for t in 0..7u32 {
        for r in img.replicas_for_thread(t, 7) {
            let owner = img
                .inodes()
                .iter()
                .find(|n| n.blocks.iter().any(|b| b.id == r.block_id))
                .unwrap();
            assert_eq!(owner.id % 7, t);
            assert!(r.storage < 3);
            assert!(r.meta_file_path().ends_with(".meta"));
        }
    }
}

#[test]
fn random_stream_is_reproducible() {
    let mut a = RandomSource::from_seed(5);
    let mut b = RandomSource::from_seed(5);
    let mut c = RandomSource::from_seed(6);
    let xs: Vec<u32> = (0..8).map(|_| a.next_u32()).collect();
    let ys: Vec<u32> = (0..8).map(|_| b.next_u32()).collect();
    let zs: Vec<u32> = (0..8).map(|_| c.next_u32()).collect();
    assert_eq!(xs, ys);
    assert_ne!(xs, zs);
    assert!(xs.iter().any(|&x| x != xs[0]));
}
