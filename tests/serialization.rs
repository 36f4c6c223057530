use fsgen::config::Config;
use fsgen::config::FanOut;
use fsgen::image::generate_dn_info;
use fsgen::image::random_str;
use fsgen::image::FSImage;
use fsgen::inode::Block;
use fsgen::inode::INode;
use fsgen::layout::storage_slot_index;
use fsgen::layout::subdirectory_path;
use fsgen::manifest::directory_record;
use fsgen::materialize::meta_file_header;
use fsgen::materialize::next_dir_step;
use fsgen::materialize::should_report_progress;
use fsgen::materialize::BlockReplica;
use fsgen::materialize::DirCreation;
use fsgen::materialize::DirStep;
use fsgen::output::OutputDir;
use fsgen::random::RandomSource;
use fsgen::storage::block_pool_dir;
use fsgen::storage::edits_file_name;
use fsgen::storage::edits_header;
use fsgen::storage::fsimage_file_name;
use fsgen::storage::name_current_dir;
use fsgen::storage::name_version_file;
use fsgen::storage::seen_txid_file;
use fsgen::storage::slot_area_path;
use fsgen::storage::SlotArea;
use fsgen::storage::seen_txid_text;
use fsgen::storage::storage_current_dir;
use fsgen::text::decimal_string;
use fsgen::text::letter_str;

fn small_config() -> Config {
    Config {
        num_datanodes: 2,
        num_inodes: 3,
        repl: 2,
        num_storage_dirs_per_dn: 2,
        seed: 1,
        num_threads: 2,
        dn_layout_version: -56,
        nn_layout_version: -60,
    }
}

#[test]
fn decimal_renderings() {
    assert_eq!(decimal_string(0), "0");
    assert_eq!(decimal_string(7), "7");
    assert_eq!(decimal_string(1073741825), "1073741825");
    assert_eq!(decimal_string(u64::MAX), "18446744073709551615");
    assert_eq!(letter_str(0), "a");
    assert_eq!(letter_str(25), "z");
}

#[test]
fn storage_slot_is_multiplicative_hash() {
    assert_eq!(storage_slot_index(1073741825, 0, 20), 5);
    assert_eq!(storage_slot_index(1073741826, 1, 20), 8);
    assert_eq!(storage_slot_index(u32::MAX, u16::MAX, 7), ((u32::MAX as u64 * 65536 * 29) % 7) as u16);
    assert_eq!(storage_slot_index(12345, 3, 1), 0);
}

#[test]
fn subdirectories_are_id_bytes() {
    assert_eq!(subdirectory_path(0x00AB_CD12), (171, 205));
    assert_eq!(subdirectory_path(1073741825), (0, 0));
    assert_eq!(subdirectory_path(0xFFFF_FFFF), (255, 255));
}

#[test]
fn layout_agrees_for_random_triples() {
    let mut rng = RandomSource::from_seed(77);
    for _ in 0..200 {
        let id = rng.next_u32();
        let w = (rng.next_u32() % 65536) as u16;
        let n = (rng.next_u32() % 65535) as u16 + 1;
        let a = storage_slot_index(id, w, n);
        let b = storage_slot_index(id, w, n);
        assert_eq!(a, b);
        assert_eq!(a as u64, (id as u64 * (w as u64 + 1) * 29) % n as u64);
        assert_eq!(subdirectory_path(id), (((id >> 16) & 0xff) as u8, ((id >> 8) & 0xff) as u8));
        let block = Block { id, genstamp: 1, datanodes: vec![w] };
        let r = block.replica_locations(n);
        assert_eq!(r[0].storage, a);
    }
}

#[test]
fn block_record() {
    let b = Block { id: 1073741825, genstamp: 1001, datanodes: vec![0, 2] };
    assert_eq!(b.to_xml(), "<block><id>1073741825</id><genstamp>1001</genstamp><numBytes>0</numBytes></block>");
}

#[test]
fn file_record() {
    let n = INode {
        id: 16390,
        name: "dxyz".to_string(),
        is_dir: false,
        blocks: vec![Block { id: 1073741825, genstamp: 1001, datanodes: vec![1, 0, 2] }],
    };
    assert_eq!(n.get_type_name(), "FILE");
    assert_eq!(
        n.to_xml(),
        "<inode><id>16390</id><type>FILE</type><name>dxyz</name><mtime>0</mtime><atime>0</atime>\
<replication>3</replication><preferredBlockSize>134217728</preferredBlockSize>\
<permission>cmccabe:supergroup:0644</permission><blocks><block><id>1073741825</id>\
<genstamp>1001</genstamp><numBytes>0</numBytes></block></blocks></inode>"
    );
}

#[test]
fn directory_inode_record() {
    let n = INode { id: 16385, name: String::new(), is_dir: true, blocks: vec![] };
    assert_eq!(n.get_type_name(), "DIRECTORY");
    assert_eq!(
        n.to_xml(),
        "<inode><id>16385</id><type>DIRECTORY</type><name></name><mtime>0</mtime>\
<dsquota>-1</dsquota><nsquota>-1</nsquota><permission>cmccabe:supergroup:0644</permission></inode>"
    );
}

#[test]
fn directory_edges_record() {
    assert_eq!(
        directory_record(16385, &vec![16386, 16387]),
        "<directory><parent>16385</parent><child>16386</child><child>16387</child></directory>"
    );
    assert_eq!(directory_record(16390, &vec![]), "<directory><parent>16390</parent></directory>");
}

#[test]
fn manifest_of_small_image() {
    let cfg = small_config();
    let mut rng = RandomSource::from_seed(cfg.seed);
    let img = FSImage::new(&cfg, &FanOut::standard(), &mut rng);
    let xml = img.to_xml();
    assert!(xml.starts_with("<?xml version=\"1.0\"?><fsimage><version><layoutVersion>-60</layoutVersion>"));
    assert!(xml.ends_with("</CacheManagerSection>\n</fsimage>"));
    assert!(xml.contains("<INodeSection><lastInodeId>16388</lastInodeId><numInodes>4</numInodes>"));
    assert!(xml.contains("<genstampV2>1001</genstampV2>"));
    assert!(xml.contains("<lastAllocatedBlockId>1073741824</lastAllocatedBlockId>"));
    assert!(xml.contains(
        "<INodeDirectorySection><directory><parent>16385</parent><child>16386</child><child>16387</child>\
<child>16388</child></directory><directory><parent>16386</parent></directory>"
    ));
    assert!(xml.contains("<SnapshotDiffSection><dirDiffEntry><inodeId>16385</inodeId>"));
    assert_eq!(xml.matches("<inode>").count(), 4);
    assert_eq!(xml.matches("<directory>").count(), 4);
}

#[test]
fn manifest_counts_files_and_blocks() {
    let cfg = Config { num_inodes: 10, ..small_config() };
    let mut rng = RandomSource::from_seed(3);
    let img = FSImage::new(&cfg, &FanOut::standard(), &mut rng);
    let xml = img.to_xml();
    assert!(xml.contains("<genstampV2>1005</genstampV2>"));
    assert!(xml.contains("<lastAllocatedBlockId>1073741828</lastAllocatedBlockId>"));
    assert_eq!(xml.matches("<type>FILE</type>").count(), 4);
    assert_eq!(xml.matches("<replication>2</replication>").count(), 4);
    assert_eq!(img.next_block_id(), 1073741829);
    assert_eq!(img.next_genstamp(), 1005);
}

#[test]
fn version_files() {
    let cfg = small_config();
    let mut rng = RandomSource::from_seed(cfg.seed);
    let img = FSImage::new(&cfg, &FanOut::standard(), &mut rng);
    assert_eq!(
        img.namenode_version_text(),
        "#Thu Feb 18 11:20:35 PST 2016\nnamespaceID=397694258\nclusterID=CID-4d05b066-8649-49c7-80cf-49ed7eac011c\n\
cTime=1455743472614\nstorageType=NAME_NODE\nblockpoolID=BP-113955101-127.0.0.1-1455743472614\nlayoutVersion=-60\n"
    );
    assert_eq!(
        img.blockpool_version_text(),
        "#Thu Feb 18 11:20:35 PST 2016\nnamespaceID=397694258\ncTime=1455743472614\n\
blockpoolID=BP-113955101-127.0.0.1-1455743472614\nlayoutVersion=-56\n"
    );
    let info = &img.datanode_info()[1];
    let expected = format!(
        "#Thu Feb 18 11:20:35 PST 2016\nstorageID={}\nclusterID=CID-4d05b066-8649-49c7-80cf-49ed7eac011c\n\
cTime=1455743472614\ndatanodeUuid={}\nstorageType=DATA_NODE\nlayoutVersion=-56\n",
        info.storage_ids[0], info.datanode_uuid
    );
    assert_eq!(img.datanode_version_text(1, 0), expected);
}

#[test]
fn worker_identities_are_fresh_uuids() {
    let cfg = small_config();
    let info = generate_dn_info(&cfg);
    assert_eq!(info.len(), 2);
    let mut all = Vec::new();
    for dn in &info {
        assert!(is_hyphenated_uuid(&dn.datanode_uuid));
        assert_eq!(dn.storage_ids.len(), 2);
        for s in &dn.storage_ids {
            assert!(s.starts_with("DS-"));
            assert_eq!(s.len(), 39);
            assert!(is_hyphenated_uuid(&s[3..]));
            all.push(s.clone());
        }
        all.push(dn.datanode_uuid.clone());
    }
    let n = all.len();
    all.sort();
    all.dedup();
    assert_eq!(all.len(), n);
}

#[test]
fn small_fixed_files() {
    assert_eq!(seen_txid_text(1), "1\n");
    assert_eq!(seen_txid_text(1234567), "1234567\n");
    assert_eq!(edits_header(-60), vec![0xff, 0xff, 0xff, 0xc4, 0, 0, 0, 0]);
    assert_eq!(edits_header(-64), vec![0xff, 0xff, 0xff, 0xc0, 0, 0, 0, 0]);
    assert_eq!(edits_header(i32::MIN), vec![0x80, 0, 0, 0, 0, 0, 0, 0]);
    assert_eq!(meta_file_header(), vec![0x00, 0x01, 0x02, 0x00, 0x00, 0x02, 0x00, 0x96, 0x26, 0x34, 0x7b]);
}

#[test]
fn worker_paths() {
    assert_eq!(storage_current_dir(0, 0), "datanode01/storage01/current");
    assert_eq!(storage_current_dir(9, 10), "datanode10/storage11/current");
    assert_eq!(storage_current_dir(99, 199), "datanode100/storage200/current");
    let r = BlockReplica { block_id: 0x00AB_CD12, genstamp: 1002, datanode: 3, storage: 4 };
    assert_eq!(
        r.dir_path(),
        "datanode04/storage05/current/BP-113955101-127.0.0.1-1455743472614/current/finalized/subdir171/subdir205"
    );
    assert_eq!(r.data_file_path(), format!("{}/blk_11259154_1002", r.dir_path()));
    assert_eq!(r.meta_file_path(), format!("{}/blk_11259154_1002.meta", r.dir_path()));
}

#[test]
fn directory_creation_steps() {
    assert_eq!(next_dir_step(DirCreation::Created), DirStep::Done);
    assert_eq!(next_dir_step(DirCreation::AlreadyExists), DirStep::Retry);
    assert_eq!(next_dir_step(DirCreation::Failed), DirStep::Fail);
}

#[test]
fn progress_lines() {
    assert!(!should_report_progress(0));
    assert!(!should_report_progress(9999));
    assert!(should_report_progress(10000));
    assert!(should_report_progress(30000));
    assert!(!should_report_progress(30001));
}

#[test]
fn random_letters() {
    let mut rng = RandomSource::from_seed(10);
    let s = random_str(&mut rng, 12);
    assert_eq!(s.len(), 12);
    assert!(s.chars().all(|c| c.is_ascii_lowercase()));
    let mut again = RandomSource::from_seed(10);
    assert_eq!(random_str(&mut again, 12), s);
}

#[test]
fn output_dir_keeps_path() {
    assert_eq!(OutputDir::new("/tmp/out").path, "/tmp/out");
}

fn is_hyphenated_uuid(s: &str) -> bool {
    let b: Vec<char> = s.chars().collect();
    b.len() == 36
        && b.iter().enumerate().all(|(i, &c)| {
            if i == 8 || i == 13 || i == 18 || i == 23 {
                c == '-'
            } else {
                c.is_ascii_digit() || ('a'..='f').contains(&c)
            }
        })
        && b[14] == '4'
        && matches!(b[19], '8' | '9' | 'a' | 'b')
}

#[test]
fn storage_slot_skeleton_paths() {
    let bp = "datanode02/storage03/current/BP-113955101-127.0.0.1-1455743472614";
    assert_eq!(block_pool_dir(1, 2), bp);
    assert_eq!(slot_area_path(1, 2, SlotArea::StorageVersion), "datanode02/storage03/current/VERSION");
    assert_eq!(slot_area_path(1, 2, SlotArea::BlockPoolVersion), format!("{}/VERSION", bp));
    assert_eq!(slot_area_path(1, 2, SlotArea::Tmp), format!("{}/tmp", bp));
    assert_eq!(slot_area_path(1, 2, SlotArea::Current), format!("{}/current", bp));
    assert_eq!(slot_area_path(1, 2, SlotArea::Rbw), format!("{}/current/rbw", bp));
    assert_eq!(slot_area_path(1, 2, SlotArea::Finalized), format!("{}/current/finalized", bp));
}

#[test]
fn coordinator_file_paths() {
    assert_eq!(name_current_dir(), "name/current");
    assert_eq!(name_version_file(), "name/current/VERSION");
    assert_eq!(seen_txid_file(), "name/current/seen_txid");
    assert_eq!(edits_file_name(1), "edits_inprogress_00000000000000000001");
    assert_eq!(fsimage_file_name(1), "fsimage_00000000000000000001.xml");
    assert_eq!(fsimage_file_name(u64::MAX), "fsimage_18446744073709551615.xml");
}
