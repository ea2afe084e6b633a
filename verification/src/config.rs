//! Configuration of the filesystem.
//!
//! Sizes are byte counts, paths are strings and periods are `Duration`s.
//! Reading a configuration file and the environment is left to the program
//! that mounts the filesystem; it hands the settings found in the
//! environment to `merge_overrides`.

use std::time::Duration;
use vstd::prelude::*;

use crate::fs::platform::{current_gid, current_uid};
use crate::utils::clock::{duration_from_millis, duration_from_secs, duration_nanos};
use crate::utils::error::ObsFuseError;
use crate::utils::text::{chars_of, parse_octal, string_of, parse_octal_spec, push_char, trim_start_at, trim_start_matches};

verus! {

/// Main configuration structure
#[derive(Debug, Clone)]
pub struct Config {
    /// OBS connection settings
    pub obs: ObsConfig,
    /// Cache settings
    pub cache: CacheConfig,
    /// Performance tuning
    pub performance: PerformanceConfig,
    /// FUSE mount options
    pub fuse: FuseConfig,
    /// Permission settings
    pub permission: PermissionConfig,
    /// Logging settings
    pub logging: LoggingConfig,
}

/// OBS connection configuration
#[derive(Debug, Clone)]
pub struct ObsConfig {
    /// OBS endpoint host
    pub endpoint: String,
    /// Bucket name
    pub bucket: String,
    /// Region
    pub region: String,
    /// Access key
    pub access_key: Option<String>,
    /// Secret key
    pub secret_key: Option<String>,
    /// Prefix path within the bucket (optional)
    pub prefix: Option<String>,
    /// Maximum concurrent connections
    pub max_connections: usize,
    /// Request timeout
    pub request_timeout: Duration,
    /// Maximum retry attempts
    pub max_retries: u32,
    /// Retry delay
    pub retry_delay: Duration,
}

/// Cache configuration
#[derive(Debug, Clone)]
pub struct CacheConfig {
    /// Memory cache size limit in bytes
    pub memory_limit: u64,
    /// Disk cache size limit in bytes
    pub disk_limit: u64,
    /// Cache directory
    pub cache_dir: Option<String>,
    /// Block size of the data cache in bytes
    pub block_size: u64,
    /// Metadata cache settings
    pub metadata: MetadataCacheConfig,
}

/// Metadata cache configuration
#[derive(Debug, Clone, Copy)]
pub struct MetadataCacheConfig {
    /// Attribute cache TTL
    pub attr_ttl: Duration,
    /// Directory listing cache TTL
    pub dir_ttl: Duration,
    /// Negative cache TTL (for non-existent paths)
    pub negative_ttl: Duration,
    /// Maximum number of cached entries
    pub max_entries: usize,
}

/// Performance tuning configuration
#[derive(Debug, Clone, Copy)]
pub struct PerformanceConfig {
    /// Enable read-ahead
    pub read_ahead: bool,
    /// Read-ahead window size in bytes
    pub read_ahead_window: u64,
    /// Read concurrency (parallel downloads)
    pub read_concurrency: usize,
    /// Write buffer size per file in bytes
    pub write_buffer_size: u64,
    /// Threshold for multipart upload in bytes
    pub multipart_threshold: u64,
    /// Part size for multipart upload in bytes
    pub multipart_part_size: u64,
    /// Concurrency for multipart upload
    pub multipart_concurrency: usize,
    /// Flush interval for write buffer
    pub flush_interval: Duration,
}

/// FUSE mount configuration
#[derive(Debug, Clone)]
pub struct FuseConfig {
    /// Maximum read size in bytes
    pub max_read: u64,
    /// Maximum write size in bytes
    pub max_write: u64,
    /// Allow root access
    pub allow_root: bool,
    /// Allow other users access
    pub allow_other: bool,
    /// Mount as read-only
    pub read_only: bool,
    /// Enable direct I/O (bypass page cache)
    pub direct_io: bool,
    /// Filesystem name
    pub fs_name: String,
}

/// Permission configuration
#[derive(Debug, Clone, Copy, PartialEq, Eq, Structural)]
pub struct PermissionConfig {
    /// Permission mode: fixed or preserved
    pub mode: PermissionMode,
    /// Fixed mode settings
    pub fixed: FixedPermission,
}

/// Permission mode
#[derive(Debug, Clone, Copy, PartialEq, Eq, Structural)]
pub enum PermissionMode {
    /// Fixed permissions for all files
    Fixed,
    /// Preserve permissions in object metadata
    Preserved,
}

/// Fixed permission settings
#[derive(Debug, Clone, Copy, PartialEq, Eq, Structural)]
pub struct FixedPermission {
    /// User ID
    pub uid: u32,
    /// Group ID
    pub gid: u32,
    /// File mode (e.g., 0o644)
    pub file_mode: u32,
    /// Directory mode (e.g., 0o755)
    pub dir_mode: u32,
}

/// Logging configuration
#[derive(Debug, Clone)]
pub struct LoggingConfig {
    /// Log level
    pub level: String,
    /// Log file path (optional)
    pub file: Option<String>,
    /// Enable JSON format
    pub json: bool,
}

/// One megabyte: sizes in the configuration use decimal units.
pub const MB: u64 = 1_000_000;

/// One gigabyte (decimal).
pub const GB: u64 = 1_000_000_000;

impl Default for ObsConfig {
    fn default() -> (r: Self)
        ensures
            r.endpoint@ == "obs.cn-north-1.myhuaweicloud.com"@,
            r.bucket@ == Seq::<char>::empty(),
            r.region@ == "cn-north-1"@,
            r.access_key.is_none(),
            r.secret_key.is_none(),
            r.prefix.is_none(),
            r.max_connections == 64,
            duration_nanos(r.request_timeout) == 30_000_000_000,
            r.max_retries == 3,
            duration_nanos(r.retry_delay) == 500_000_000,
    {
        ObsConfig {
            endpoint: "obs.cn-north-1.myhuaweicloud.com".to_owned(),
            bucket: String::new(),
            region: "cn-north-1".to_owned(),
            access_key: None,
            secret_key: None,
            prefix: None,
            max_connections: 64,
            request_timeout: duration_from_secs(30),
            max_retries: 3,
            retry_delay: duration_from_millis(500),
        }
    }
}

impl Default for MetadataCacheConfig {
    fn default() -> (r: Self)
        ensures
            duration_nanos(r.attr_ttl) == 3_000_000_000,
            duration_nanos(r.dir_ttl) == 5_000_000_000,
            duration_nanos(r.negative_ttl) == 1_000_000_000,
            r.max_entries == 100_000,
    {
        MetadataCacheConfig {
            attr_ttl: duration_from_secs(3),
            dir_ttl: duration_from_secs(5),
            negative_ttl: duration_from_secs(1),
            max_entries: 100_000,
        }
    }
}

impl Default for CacheConfig {
    fn default() -> (r: Self)
        ensures
            r.memory_limit == 512 * MB,
            r.disk_limit == 10 * GB,
            r.cache_dir.is_none(),
            r.block_size == 4 * MB,
            duration_nanos(r.metadata.attr_ttl) == 3_000_000_000,
            duration_nanos(r.metadata.dir_ttl) == 5_000_000_000,
            duration_nanos(r.metadata.negative_ttl) == 1_000_000_000,
            r.metadata.max_entries == 100_000,
    {
        CacheConfig {
            memory_limit: 512 * MB,
            disk_limit: 10 * GB,
            cache_dir: None,
            block_size: 4 * MB,
            metadata: MetadataCacheConfig::default(),
        }
    }
}

impl Default for PerformanceConfig {
    fn default() -> (r: Self)
        ensures
            r.read_ahead,
            r.read_ahead_window == 16 * MB,
            r.read_concurrency == 4,
            r.write_buffer_size == 64 * MB,
            r.multipart_threshold == 100 * MB,
            r.multipart_part_size == 8 * MB,
            r.multipart_concurrency == 5,
            duration_nanos(r.flush_interval) == 30_000_000_000,
    {
        PerformanceConfig {
            read_ahead: true,
            read_ahead_window: 16 * MB,
            read_concurrency: 4,
            write_buffer_size: 64 * MB,
            multipart_threshold: 100 * MB,
            multipart_part_size: 8 * MB,
            multipart_concurrency: 5,
            flush_interval: duration_from_secs(30),
        }
    }
}

impl Default for FuseConfig {
    fn default() -> (r: Self)
        ensures
            r.max_read == 4 * MB,
            r.max_write == 4 * MB,
            !r.allow_root,
            !r.allow_other,
            !r.read_only,
            !r.direct_io,
            r.fs_name@ == "obsfuse"@,
    {
        FuseConfig {
            max_read: 4 * MB,
            max_write: 4 * MB,
            allow_root: false,
            allow_other: false,
            read_only: false,
            direct_io: false,
            fs_name: "obsfuse".to_owned(),
        }
    }
}

impl Default for PermissionMode {
    fn default() -> (r: Self)
        ensures
            r == PermissionMode::Fixed,
    {
        PermissionMode::Fixed
    }
}

impl Default for FixedPermission {
    /// The process's own user and group, files 0o644 and directories 0o755.
    fn default() -> (r: Self)
        ensures
            r.file_mode == 0o644,
            r.dir_mode == 0o755,
    {
        FixedPermission { uid: current_uid(), gid: current_gid(), file_mode: 0o644, dir_mode: 0o755 }
    }
}

impl Default for PermissionConfig {
    fn default() -> (r: Self)
        ensures
            r.mode == PermissionMode::Fixed,
            r.fixed.file_mode == 0o644,
            r.fixed.dir_mode == 0o755,
    {
        PermissionConfig { mode: PermissionMode::Fixed, fixed: FixedPermission::default() }
    }
}

impl Default for LoggingConfig {
    fn default() -> (r: Self)
        ensures
            r.level@ == "info"@,
            r.file.is_none(),
            !r.json,
    {
        LoggingConfig { level: "info".to_owned(), file: None, json: false }
    }
}

impl Default for Config {
    fn default() -> (r: Self)
        ensures
            r.obs.bucket@ == Seq::<char>::empty(),
            r.obs.access_key.is_none(),
            r.obs.secret_key.is_none(),
            r.cache.memory_limit == 512 * MB,
            r.cache.block_size == 4 * MB,
            r.performance.read_ahead,
            r.permission.mode == PermissionMode::Fixed,
    {
        Config {
            obs: ObsConfig::default(),
            cache: CacheConfig::default(),
            performance: PerformanceConfig::default(),
            fuse: FuseConfig::default(),
            permission: PermissionConfig::default(),
            logging: LoggingConfig::default(),
        }
    }
}

/// Which check a configuration fails first, if any.
pub enum ConfigProblem {
    MissingBucket,
    MissingAccessKey,
    MissingSecretKey,
    ZeroBlockSize,
}

impl Config {
    /// The first check, in order, that this configuration fails: a bucket is
    /// named, both keys are given, and the block size is positive.
    pub open spec fn problem(&self) -> Option<ConfigProblem> {
        if self.obs.bucket@.len() == 0 {
            Some(ConfigProblem::MissingBucket)
        } else if self.obs.access_key.is_none() {
            Some(ConfigProblem::MissingAccessKey)
        } else if self.obs.secret_key.is_none() {
            Some(ConfigProblem::MissingSecretKey)
        } else if self.cache.block_size == 0 {
            Some(ConfigProblem::ZeroBlockSize)
        } else {
            None
        }
    }

    /// Validates the configuration: fails with a configuration error naming the
    /// first missing or invalid setting.
    pub fn validate(&self) -> (r: Result<(), ObsFuseError>)
        ensures
            r.is_ok() <==> self.problem().is_none(),
            r.is_err() ==> r->Err_0 is Config,
            self.problem() == Some(ConfigProblem::MissingBucket) ==> r->Err_0->Config_0@
                == "Bucket name is required"@,
            self.problem() == Some(ConfigProblem::MissingAccessKey) ==> r->Err_0->Config_0@
                == "Access key is required (set OBS_ACCESS_KEY environment variable)"@,
            self.problem() == Some(ConfigProblem::MissingSecretKey) ==> r->Err_0->Config_0@
                == "Secret key is required (set OBS_SECRET_KEY environment variable)"@,
            self.problem() == Some(ConfigProblem::ZeroBlockSize) ==> r->Err_0->Config_0@
                == "Block size must be greater than 0"@,
    {
        if self.obs.bucket.as_str().is_empty() {
            return Err(ObsFuseError::Config("Bucket name is required".to_owned()));
        }
        if self.obs.access_key.is_none() {
            return Err(
                ObsFuseError::Config(
                    "Access key is required (set OBS_ACCESS_KEY environment variable)".to_owned(),
                ),
            );
        }
        if self.obs.secret_key.is_none() {
            return Err(
                ObsFuseError::Config(
                    "Secret key is required (set OBS_SECRET_KEY environment variable)".to_owned(),
                ),
            );
        }
        if self.cache.block_size == 0 {
            return Err(ObsFuseError::Config("Block size must be greater than 0".to_owned()));
        }
        Ok(())
    }
}

/// Settings found in the environment (`OBS_ACCESS_KEY`, `OBS_SECRET_KEY`,
/// `OBS_ENDPOINT`, `OBS_BUCKET`, `OBS_REGION`), each when set.
pub struct EnvOverrides {
    pub access_key: Option<String>,
    pub secret_key: Option<String>,
    pub endpoint: Option<String>,
    pub bucket: Option<String>,
    pub region: Option<String>,
}

/// `dirs::home_dir`: the user's home directory, when one is known. Nothing
/// is stated of the value, which depends on the environment.
#[verifier::external_body]
fn home_dir() -> Option<String> {
    dirs::home_dir().map(|p| p.to_string_lossy().into_owned())
}

/// `dirs::cache_dir`: the user's cache directory, when one is known. Nothing
/// is stated of the value, which depends on the environment.
#[verifier::external_body]
fn cache_dir() -> Option<String> {
    dirs::cache_dir().map(|p| p.to_string_lossy().into_owned())
}

/// `name` below directory `base`, as a path join gives it: the name alone
/// below an empty base, else the base and the name with one `/` between.
pub open spec fn joined_path(base: Seq<char>, name: Seq<char>) -> Seq<char> {
    if base.len() == 0 {
        name
    } else if base.last() == '/' {
        base + name
    } else {
        base.push('/') + name
    }
}

/// Computes `name` below directory `base` (see `joined_path`).
pub fn join_dir(base: &str, name: &str) -> (r: String)
    ensures
        r@ == joined_path(base@, name@),
{
    let v = chars_of(base);
    let mut r = base.to_owned();
    if v.len() > 0 && v[v.len() - 1] != '/' {
        push_char(&mut r, '/');
    }
    r.append(name);
    r
}

impl Config {
    /// The configuration file below home directory `home` (or the current
    /// directory when there is none): `.obsfuse/config.toml`.
    pub fn config_path_in(home: Option<String>) -> (r: String)
        ensures
            r@ == joined_path(
                joined_path(
                    match home {
                        Some(h) => h@,
                        None => seq!['.'],
                    },
                    ".obsfuse"@,
                ),
                "config.toml"@,
            ),
    {
        let base = match home {
            Some(h) => h,
            None => {
                let d = ".".to_owned();
                proof {
                    reveal_strlit(".");
                    assert(d@ =~= seq!['.']);
                }
                d
            },
        };
        let dir = join_dir(base.as_str(), ".obsfuse");
        join_dir(dir.as_str(), "config.toml")
    }

    /// Get default configuration file path: `.obsfuse/config.toml` below
    /// the home directory.
    pub fn default_config_path() -> (r: String)
        ensures
            exists|base: Seq<char>|
                r@ == joined_path(#[trigger] joined_path(base, ".obsfuse"@), "config.toml"@),
    {
        let home = home_dir();
        let ghost base = match &home {
            Some(h) => h@,
            None => seq!['.'],
        };
        let r = Self::config_path_in(home);
        assert(r@ == joined_path(joined_path(base, ".obsfuse"@), "config.toml"@));
        r
    }

    /// The cache directory below `cache` (or `/tmp` when there is none):
    /// `obsfuse`.
    pub fn cache_dir_in(cache: Option<String>) -> (r: String)
        ensures
            r@ == joined_path(
                match cache {
                    Some(c) => c@,
                    None => "/tmp"@,
                },
                "obsfuse"@,
            ),
    {
        let base = match cache {
            Some(c) => c,
            None => "/tmp".to_owned(),
        };
        join_dir(base.as_str(), "obsfuse")
    }

    /// Get default cache directory: `obsfuse` below the user's cache
    /// directory.
    pub fn default_cache_dir() -> (r: String)
        ensures
            exists|base: Seq<char>| r@ == #[trigger] joined_path(base, "obsfuse"@),
    {
        let cache = cache_dir();
        let ghost base = match &cache {
            Some(c) => c@,
            None => "/tmp"@,
        };
        let r = Self::cache_dir_in(cache);
        assert(r@ == joined_path(base, "obsfuse"@));
        r
    }

    /// Get effective cache directory: the configured one, else the default.
    pub fn effective_cache_dir(&self) -> (r: String)
        ensures
            self.cache.cache_dir is Some ==> r@ == self.cache.cache_dir->0@,
    {
        match &self.cache.cache_dir {
            Some(d) => d.clone(),
            None => Self::default_cache_dir(),
        }
    }

    /// Merge with settings from the environment: each one set replaces the
    /// configured value.
    pub fn merge_overrides(&mut self, env: EnvOverrides)
        ensures
            final(self).obs.access_key == (match env.access_key {
                Some(v) => Some(v),
                None => old(self).obs.access_key,
            }),
            final(self).obs.secret_key == (match env.secret_key {
                Some(v) => Some(v),
                None => old(self).obs.secret_key,
            }),
            final(self).obs.endpoint == (match env.endpoint {
                Some(v) => v,
                None => old(self).obs.endpoint,
            }),
            final(self).obs.bucket == (match env.bucket {
                Some(v) => v,
                None => old(self).obs.bucket,
            }),
            final(self).obs.region == (match env.region {
                Some(v) => v,
                None => old(self).obs.region,
            }),
            final(self).obs.prefix == old(self).obs.prefix,
            final(self).cache == old(self).cache,
            final(self).performance == old(self).performance,
            final(self).fuse == old(self).fuse,
            final(self).permission == old(self).permission,
            final(self).logging == old(self).logging,
    {
        if let Some(ak) = env.access_key {
            self.obs.access_key = Some(ak);
        }
        if let Some(sk) = env.secret_key {
            self.obs.secret_key = Some(sk);
        }
        if let Some(endpoint) = env.endpoint {
            self.obs.endpoint = endpoint;
        }
        if let Some(bucket) = env.bucket {
            self.obs.bucket = bucket;
        }
        if let Some(region) = env.region {
            self.obs.region = region;
        }
    }
}


/// The number a permission mode written as `s` stands for: octal digits,
/// after any leading `0o` and then any leading `0` are taken off (so that
/// `0644`, `644` and `0o644` agree, and a mode of zeros alone is refused).
pub open spec fn mode_value(s: Seq<char>) -> Option<u32> {
    parse_octal_spec(trim_start_matches(trim_start_matches(s, "0o"@), "0"@))
}

/// Parse permission mode string (e.g., "0644" or "644")
pub fn parse_mode(s: &str) -> (r: Option<u32>)
    ensures
        r == mode_value(s@),
{
    let v = chars_of(s);
    let p1 = chars_of("0o");
    let p2 = chars_of("0");
    proof {
        reveal_strlit("0o");
        reveal_strlit("0");
        assert(v@.skip(0) =~= v@);
    }
    let a = trim_start_at(&v, 0, &p1);
    let b = trim_start_at(&v, a, &p2);
    let rest = string_of(&v, b, v.len());
    proof {
        assert(v@.subrange(b as int, v@.len() as int) =~= v@.skip(b as int));
    }
    parse_octal(rest.as_str())
}

/// The size that `ByteSize`'s `FromStr` reads in `s`, when it reads one.
pub uninterp spec fn byte_size_value(s: Seq<char>) -> Option<u64>;

/// `ByteSize`'s `FromStr` (bytesize): a size such as `512MB`, `4 MiB` or
/// `1.5K`, in bytes. The contract names what it reads and claims only that
/// it depends on the text alone; the message of a refusal is not stated.
#[verifier::external_body]
fn parse_byte_size(s: &str) -> (r: Result<u64, String>)
    ensures
        match r {
            Ok(n) => byte_size_value(s@) == Some(n),
            Err(_) => byte_size_value(s@) is None,
        },
{
    s.parse::<bytesize::ByteSize>().map(|b| b.0)
}

/// The endpoint of the object storage service in `region`.
pub open spec fn region_endpoint(region: Seq<char>) -> Seq<char> {
    "obs."@ + region + ".myhuaweicloud.com"@
}

/// Derive the endpoint host from a region name.
pub fn endpoint_for_region(region: &str) -> (r: String)
    ensures
        r@ == region_endpoint(region@),
{
    let mut r = "obs.".to_owned();
    r.append(region);
    r.append(".myhuaweicloud.com");
    r
}

/// Settings given on the command line when mounting. Sizes and modes are
/// text still to be read.
pub struct MountArgs {
    pub bucket: String,
    pub endpoint: Option<String>,
    pub access_key: Option<String>,
    pub secret_key: Option<String>,
    pub region: String,
    pub prefix: Option<String>,
    pub cache_dir: Option<String>,
    pub memory_cache_size: Option<String>,
    pub disk_cache_size: Option<String>,
    pub metadata_ttl: Option<u64>,
    pub read_ahead: Option<bool>,
    pub write_buffer_size: Option<String>,
    pub allow_root: bool,
    pub allow_other: bool,
    pub read_only: bool,
    pub uid: Option<u32>,
    pub gid: Option<u32>,
    pub file_mode: Option<String>,
    pub dir_mode: Option<String>,
}

/// `parsed` is what `ByteSize`'s parser made of the size `text`, where one
/// was given.
pub open spec fn size_read(text: Option<String>, parsed: Option<Result<u64, String>>) -> bool {
    match text {
        None => parsed is None,
        Some(t) => match parsed {
            Some(Ok(n)) => byte_size_value(t@) == Some(n),
            Some(Err(_)) => byte_size_value(t@) is None,
            None => false,
        },
    }
}

/// A size that was given and could not be read.
pub open spec fn size_refused(parsed: Option<Result<u64, String>>) -> bool {
    parsed matches Some(Err(_))
}

/// A mode that was given and could not be read.
pub open spec fn mode_refused(text: Option<String>) -> bool {
    text matches Some(t) && mode_value(t@) is None
}

/// `value` where a size was read, else `current`.
pub open spec fn size_or(parsed: Option<Result<u64, String>>, current: u64) -> u64 {
    match parsed {
        Some(Ok(n)) => n,
        _ => current,
    }
}

/// The mode read from `text` where one was given, else `current`.
pub open spec fn mode_or(text: Option<String>, current: u32) -> u32 {
    match text {
        Some(t) => match mode_value(t@) {
            Some(m) => m,
            None => current,
        },
        None => current,
    }
}

/// `v` where given, else `current`.
pub open spec fn given_or<T>(v: Option<T>, current: T) -> T {
    match v {
        Some(x) => x,
        None => current,
    }
}

/// What applying the mount command's settings did (see
/// `Config::apply_mount_settings`), the sizes read as `memory`, `disk` and
/// `write_buffer`, with result `r`.
pub open spec fn settings_applied(
    before: Config,
    after: Config,
    args: MountArgs,
    memory: Option<Result<u64, String>>,
    disk: Option<Result<u64, String>>,
    write_buffer: Option<Result<u64, String>>,
    r: Result<(), ObsFuseError>,
) -> bool {
    &&& (r is Err <==> size_refused(memory) || size_refused(disk) || size_refused(write_buffer)
        || mode_refused(args.file_mode) || mode_refused(args.dir_mode))
    &&& (memory matches Some(Err(e)) ==> r == Err::<(), ObsFuseError>(ObsFuseError::Config(e)))
    &&& (!size_refused(memory) ==> (disk matches Some(Err(e)) ==> r == Err::<(), ObsFuseError>(
        ObsFuseError::Config(e),
    )))
    &&& (!size_refused(memory) && !size_refused(disk) ==> (write_buffer matches Some(Err(e)) ==> r == Err::<
        (),
        ObsFuseError,
    >(ObsFuseError::Config(e))))
    &&& (!size_refused(memory) && !size_refused(disk) && !size_refused(write_buffer) && (mode_refused(
        args.file_mode,
    ) || mode_refused(args.dir_mode)) ==> (r matches Err(ObsFuseError::Config(m)) && m@
        == "Invalid permission mode"@))
    &&& (r is Ok ==> {
            &&& after.obs.bucket == args.bucket
            &&& after.obs.region == args.region
            &&& after.obs.endpoint@ == match args.endpoint {
                Some(e) => e@,
                None => region_endpoint(args.region@),
            }
            &&& after.obs.access_key == given_or(
                match args.access_key {
                    Some(k) => Some(Some(k)),
                    None => None,
                },
                before.obs.access_key,
            )
            &&& after.obs.secret_key == given_or(
                match args.secret_key {
                    Some(k) => Some(Some(k)),
                    None => None,
                },
                before.obs.secret_key,
            )
            &&& after.obs.prefix == args.prefix
            &&& after.obs.max_connections == before.obs.max_connections
            &&& after.obs.request_timeout == before.obs.request_timeout
            &&& after.obs.max_retries == before.obs.max_retries
            &&& after.obs.retry_delay == before.obs.retry_delay
            &&& after.cache.cache_dir == given_or(
                match args.cache_dir {
                    Some(d) => Some(Some(d)),
                    None => None,
                },
                before.cache.cache_dir,
            )
            &&& after.cache.memory_limit == size_or(memory, before.cache.memory_limit)
            &&& after.cache.disk_limit == size_or(disk, before.cache.disk_limit)
            &&& after.cache.block_size == before.cache.block_size
            &&& after.cache.metadata.dir_ttl == before.cache.metadata.dir_ttl
            &&& after.cache.metadata.negative_ttl == before.cache.metadata.negative_ttl
            &&& after.cache.metadata.max_entries == before.cache.metadata.max_entries
            &&& match args.metadata_ttl {
                Some(t) => duration_nanos(after.cache.metadata.attr_ttl) == t * 1_000_000_000,
                None => after.cache.metadata.attr_ttl == before.cache.metadata.attr_ttl,
            }
            &&& after.performance == PerformanceConfig {
                read_ahead: given_or(args.read_ahead, before.performance.read_ahead),
                write_buffer_size: size_or(write_buffer, before.performance.write_buffer_size),
                ..before.performance
            }
            &&& after.fuse == FuseConfig {
                allow_root: args.allow_root,
                allow_other: args.allow_other,
                read_only: args.read_only,
                ..before.fuse
            }
            &&& after.permission == PermissionConfig {
                fixed: FixedPermission {
                    uid: given_or(args.uid, before.permission.fixed.uid),
                    gid: given_or(args.gid, before.permission.fixed.gid),
                    file_mode: mode_or(args.file_mode, before.permission.fixed.file_mode),
                    dir_mode: mode_or(args.dir_mode, before.permission.fixed.dir_mode),
                },
                ..before.permission
            }
            &&& after.logging == before.logging
        })
}

impl Config {
    /// Apply the mount command's settings, the sizes already read
    /// (`memory`, `disk` and `write_buffer`, each where one was given). The
    /// bucket, region, prefix and the three access switches are taken as
    /// given; the endpoint is the one given or else the region's; the keys,
    /// cache directory, sizes, attribute lifetime (in seconds), read-ahead,
    /// owner, group and modes replace the configured ones where given. The
    /// first size that could not be read, in the order memory, disk, write
    /// buffer, fails with its message; then a file or directory mode that
    /// cannot be read fails.
    pub fn apply_mount_settings(
        &mut self,
        args: MountArgs,
        memory: Option<Result<u64, String>>,
        disk: Option<Result<u64, String>>,
        write_buffer: Option<Result<u64, String>>,
    ) -> (r: Result<(), ObsFuseError>)
        ensures
            settings_applied(*old(self), *final(self), args, memory, disk, write_buffer, r),
    {
        let file_mode = match &args.file_mode {
            Some(t) => Some(parse_mode(t.as_str())),
            None => None,
        };
        let dir_mode = match &args.dir_mode {
            Some(t) => Some(parse_mode(t.as_str())),
            None => None,
        };
        let m = match memory {
            Some(Ok(n)) => Some(n),
            Some(Err(e)) => return Err(ObsFuseError::Config(e)),
            None => None,
        };
        let d = match disk {
            Some(Ok(n)) => Some(n),
            Some(Err(e)) => return Err(ObsFuseError::Config(e)),
            None => None,
        };
        let w = match write_buffer {
            Some(Ok(n)) => Some(n),
            Some(Err(e)) => return Err(ObsFuseError::Config(e)),
            None => None,
        };
        let fm = match file_mode {
            Some(Some(x)) => Some(x),
            Some(None) => return Err(ObsFuseError::Config("Invalid permission mode".to_owned())),
            None => None,
        };
        let dm = match dir_mode {
            Some(Some(x)) => Some(x),
            Some(None) => return Err(ObsFuseError::Config("Invalid permission mode".to_owned())),
            None => None,
        };
        self.assign_mount_settings(args, m, d, w, fm, dm);
        Ok(())
    }

    /// Set what the mount command gives, every size and mode already read.
    fn assign_mount_settings(
        &mut self,
        args: MountArgs,
        memory: Option<u64>,
        disk: Option<u64>,
        write_buffer: Option<u64>,
        file_mode: Option<u32>,
        dir_mode: Option<u32>,
    )
        ensures
            ({
                let before = *old(self);
                let after = *final(self);
                &&& after.obs.bucket == args.bucket
                &&& after.obs.region == args.region
                &&& after.obs.endpoint@ == match args.endpoint {
                    Some(e) => e@,
                    None => region_endpoint(args.region@),
                }
                &&& after.obs.access_key == given_or(
                    match args.access_key {
                        Some(k) => Some(Some(k)),
                        None => None,
                    },
                    before.obs.access_key,
                )
                &&& after.obs.secret_key == given_or(
                    match args.secret_key {
                        Some(k) => Some(Some(k)),
                        None => None,
                    },
                    before.obs.secret_key,
                )
                &&& after.obs.prefix == args.prefix
                &&& after.obs.max_connections == before.obs.max_connections
                &&& after.obs.request_timeout == before.obs.request_timeout
                &&& after.obs.max_retries == before.obs.max_retries
                &&& after.obs.retry_delay == before.obs.retry_delay
                &&& after.cache.cache_dir == given_or(
                    match args.cache_dir {
                        Some(d) => Some(Some(d)),
                        None => None,
                    },
                    before.cache.cache_dir,
                )
                &&& after.cache.memory_limit == given_or(memory, before.cache.memory_limit)
                &&& after.cache.disk_limit == given_or(disk, before.cache.disk_limit)
                &&& after.cache.block_size == before.cache.block_size
                &&& after.cache.metadata.dir_ttl == before.cache.metadata.dir_ttl
                &&& after.cache.metadata.negative_ttl == before.cache.metadata.negative_ttl
                &&& after.cache.metadata.max_entries == before.cache.metadata.max_entries
                &&& match args.metadata_ttl {
                    Some(t) => duration_nanos(after.cache.metadata.attr_ttl) == t * 1_000_000_000,
                    None => after.cache.metadata.attr_ttl == before.cache.metadata.attr_ttl,
                }
                &&& after.performance == PerformanceConfig {
                    read_ahead: given_or(args.read_ahead, before.performance.read_ahead),
                    write_buffer_size: given_or(write_buffer, before.performance.write_buffer_size),
                    ..before.performance
                }
                &&& after.fuse == FuseConfig {
                    allow_root: args.allow_root,
                    allow_other: args.allow_other,
                    read_only: args.read_only,
                    ..before.fuse
                }
                &&& after.permission == PermissionConfig {
                    fixed: FixedPermission {
                        uid: given_or(args.uid, before.permission.fixed.uid),
                        gid: given_or(args.gid, before.permission.fixed.gid),
                        file_mode: given_or(file_mode, before.permission.fixed.file_mode),
                        dir_mode: given_or(dir_mode, before.permission.fixed.dir_mode),
                    },
                    ..before.permission
                }
                &&& after.logging == before.logging
            }),
    {
        let endpoint = match args.endpoint {
            Some(ep) => ep,
            None => endpoint_for_region(args.region.as_str()),
        };
        self.obs.endpoint = endpoint;
        self.obs.bucket = args.bucket;
        self.obs.region = args.region;
        self.obs.access_key = match args.access_key {
            Some(ak) => Some(ak),
            None => self.obs.access_key.clone(),
        };
        self.obs.secret_key = match args.secret_key {
            Some(sk) => Some(sk),
            None => self.obs.secret_key.clone(),
        };
        self.obs.prefix = args.prefix;
        self.cache.cache_dir = match args.cache_dir {
            Some(dir) => Some(dir),
            None => self.cache.cache_dir.clone(),
        };
        self.cache.memory_limit = match memory {
            Some(n) => n,
            None => self.cache.memory_limit,
        };
        self.cache.disk_limit = match disk {
            Some(n) => n,
            None => self.cache.disk_limit,
        };
        self.cache.metadata.attr_ttl = match args.metadata_ttl {
            Some(ttl) => duration_from_secs(ttl),
            None => self.cache.metadata.attr_ttl,
        };
        self.performance.read_ahead = match args.read_ahead {
            Some(ra) => ra,
            None => self.performance.read_ahead,
        };
        self.performance.write_buffer_size = match write_buffer {
            Some(n) => n,
            None => self.performance.write_buffer_size,
        };
        self.fuse.allow_root = args.allow_root;
        self.fuse.allow_other = args.allow_other;
        self.fuse.read_only = args.read_only;
        self.permission.fixed.uid = match args.uid {
            Some(u) => u,
            None => self.permission.fixed.uid,
        };
        self.permission.fixed.gid = match args.gid {
            Some(g) => g,
            None => self.permission.fixed.gid,
        };
        self.permission.fixed.file_mode = match file_mode {
            Some(m) => m,
            None => self.permission.fixed.file_mode,
        };
        self.permission.fixed.dir_mode = match dir_mode {
            Some(m) => m,
            None => self.permission.fixed.dir_mode,
        };
    }

    /// Apply the mount command's settings (see `apply_mount_settings`),
    /// reading each size given with `ByteSize`'s parser.
    pub fn apply_mount_args(&mut self, args: MountArgs) -> (r: Result<(), ObsFuseError>)
        ensures
            exists|
                memory: Option<Result<u64, String>>,
                disk: Option<Result<u64, String>>,
                write_buffer: Option<Result<u64, String>>,
            |
                #![trigger settings_applied(*old(self), *final(self), args, memory, disk, write_buffer, r)]
                size_read(args.memory_cache_size, memory) && size_read(args.disk_cache_size, disk) && size_read(
                    args.write_buffer_size,
                    write_buffer,
                ) && settings_applied(*old(self), *final(self), args, memory, disk, write_buffer, r),
    {
        let memory = match &args.memory_cache_size {
            Some(s) => Some(parse_byte_size(s.as_str())),
            None => None,
        };
        let disk = match &args.disk_cache_size {
            Some(s) => Some(parse_byte_size(s.as_str())),
            None => None,
        };
        let write_buffer = match &args.write_buffer_size {
            Some(s) => Some(parse_byte_size(s.as_str())),
            None => None,
        };
        self.apply_mount_settings(args, memory, disk, write_buffer)
    }
}

} // verus!
