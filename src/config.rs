//! Run parameters, the fixed identities of the generated cluster, and the
//! checks made on the parameters before anything is generated.
use vstd::prelude::*;

verus! {

/// Namespace id of the generated image.
pub const NAMESPACE_ID: u64 = 397694258;

/// Creation time of the cluster; the same on the coordinator and the workers.
pub const CLUSTER_CTIME: u64 = 1455743472614;

/// Worker layout version used when none is given.
pub const DEFAULT_DATANODE_LAYOUT_VERSION: i32 = -56;

/// Coordinator layout version used when none is given.
pub const DEFAULT_NAMENODE_LAYOUT_VERSION: i32 = -60;

/// Generation stamp of the first block.
pub const FIRST_GENSTAMP: u32 = 1001;

/// Id of the first block; the ids below it are reserved.
pub const FIRST_BLOCK_ID: u32 = 1073741825;

/// Id of the root inode; every other inode id is larger.
pub const ROOT_INODE_ID: u32 = 16385;

/// The last transaction id recorded by the coordinator.
pub const LAST_TXID: u64 = 1;

/// Number of random letters after the prefix letter of each name.
pub const NAME_SUFFIX_LEN: u32 = 3;

/// The largest target inode count for which every id and stamp fits in 32 bits.
pub const MAX_TARGET_INODES: u32 = 3221225470;

/// How directories are filled: each gets `entries_per_dir` children, of which
/// the first `dirs_per_dir` are directories and the rest files.
#[derive(Clone, Copy, Debug, PartialEq, Eq, Structural)]
pub struct FanOut {
    pub entries_per_dir: u32,
    pub dirs_per_dir: u32,
}

impl FanOut {
    /// Six entries per directory, three of them directories.
    pub fn standard() -> (r: FanOut)
        ensures
            r.entries_per_dir == 6,
            r.dirs_per_dir == 3,
    {
        FanOut { entries_per_dir: 6, dirs_per_dir: 3 }
    }
}

/// The parameters of one run.
#[derive(Clone, Copy, Debug, PartialEq, Eq, Structural)]
pub struct Config {
    pub num_datanodes: u16,
    pub num_inodes: u32,
    pub repl: u16,
    pub num_storage_dirs_per_dn: u16,
    pub seed: u64,
    pub num_threads: u32,
    pub dn_layout_version: i32,
    pub nn_layout_version: i32,
}

/// Why a configuration is refused.
#[derive(Clone, Copy, Debug, PartialEq, Eq, Structural)]
pub enum ConfigError {
    /// The worker layout version is not negative.
    DatanodeLayoutVersion,
    /// The coordinator layout version is not negative.
    NamenodeLayoutVersion,
    /// More replicas are asked for than there are worker nodes.
    ReplicationExceedsDatanodes,
    /// The target inode count would run ids or stamps out of 32 bits.
    TooManyInodes,
    /// Directories would take no entries, or more than there are prefix
    /// letters, or the tree would need a second directory and none is made.
    FanOut,
}

/// The parameters from which a namespace can be generated.
pub open spec fn generatable(cfg: Config, fan: FanOut) -> bool {
    &&& cfg.repl <= cfg.num_datanodes
    &&& cfg.num_inodes <= MAX_TARGET_INODES
    &&& 1 <= fan.entries_per_dir <= 26
    &&& (fan.dirs_per_dir >= 1 || cfg.num_inodes < fan.entries_per_dir)
}

/// The first refusal that applies to a configuration, if any.
pub open spec fn config_error(cfg: Config, fan: FanOut) -> Option<ConfigError> {
    if cfg.dn_layout_version >= 0 {
        Some(ConfigError::DatanodeLayoutVersion)
    } else if cfg.nn_layout_version >= 0 {
        Some(ConfigError::NamenodeLayoutVersion)
    } else if cfg.num_datanodes < cfg.repl {
        Some(ConfigError::ReplicationExceedsDatanodes)
    } else if cfg.num_inodes > MAX_TARGET_INODES {
        Some(ConfigError::TooManyInodes)
    } else if !(1 <= fan.entries_per_dir <= 26 && (fan.dirs_per_dir >= 1 || cfg.num_inodes
        < fan.entries_per_dir)) {
        Some(ConfigError::FanOut)
    } else {
        None
    }
}

impl Config {
    /// Checks the configuration before any work: both layout versions must be
    /// negative, the replication factor at most the number of worker nodes,
    /// and the tree must be one that ids and the fan-out can describe.
    pub fn validate(&self, fan: &FanOut) -> (r: Result<(), ConfigError>)
        ensures
            r.is_ok() <==> config_error(*self, *fan).is_none(),
            r.is_err() ==> Some(r.unwrap_err()) == config_error(*self, *fan),
            r.is_ok() ==> generatable(*self, *fan),
    {
        if self.dn_layout_version >= 0 {
            Err(ConfigError::DatanodeLayoutVersion)
        } else if self.nn_layout_version >= 0 {
            Err(ConfigError::NamenodeLayoutVersion)
        } else if self.num_datanodes < self.repl {
            Err(ConfigError::ReplicationExceedsDatanodes)
        } else if self.num_inodes > MAX_TARGET_INODES {
            Err(ConfigError::TooManyInodes)
        } else if !(1 <= fan.entries_per_dir && fan.entries_per_dir <= 26 && (fan.dirs_per_dir
            >= 1 || self.num_inodes < fan.entries_per_dir)) {
            Err(ConfigError::FanOut)
        } else {
            Ok(())
        }
    }
}

} // verus!
