//! Tests of the configuration: defaults, validation, paths and overrides.

use std::time::Duration;

use bytesize::ByteSize;

use obsfuse::config::{
    CacheConfig, Config, EnvOverrides, FixedPermission, FuseConfig, LoggingConfig, MetadataCacheConfig, ObsConfig,
    PerformanceConfig, PermissionConfig, PermissionMode,
};
use obsfuse::config::{endpoint_for_region, parse_mode, MountArgs};
use obsfuse::fs::platform::is_stale_mount_error;
use obsfuse::utils::ObsFuseError;

#[test]
fn test_config_default() {
    let config = Config::default();

    assert!(!config.obs.endpoint.is_empty());
    assert!(config.cache.memory_limit > 0);
    assert!(config.performance.read_ahead);
}

#[test]
fn test_obs_config_default() {
    let config = ObsConfig::default();

    assert_eq!(config.endpoint, "obs.cn-north-1.myhuaweicloud.com");
    assert_eq!(config.region, "cn-north-1");
    assert!(config.bucket.is_empty());
    assert!(config.access_key.is_none());
    assert!(config.secret_key.is_none());
    assert_eq!(config.max_connections, 64);
    assert_eq!(config.request_timeout, Duration::from_secs(30));
    assert_eq!(config.max_retries, 3);
}

#[test]
fn test_cache_config_default() {
    let config = CacheConfig::default();

    assert_eq!(config.memory_limit, ByteSize::mb(512).as_u64());
    assert_eq!(config.disk_limit, ByteSize::gb(10).as_u64());
    assert_eq!(config.block_size, ByteSize::mb(4).as_u64());
    assert!(config.cache_dir.is_none());
}

#[test]
fn test_metadata_cache_config_default() {
    let config = MetadataCacheConfig::default();

    assert_eq!(config.attr_ttl, Duration::from_secs(3));
    assert_eq!(config.dir_ttl, Duration::from_secs(5));
    assert_eq!(config.negative_ttl, Duration::from_secs(1));
    assert_eq!(config.max_entries, 100_000);
}

#[test]
fn test_performance_config_default() {
    let config = PerformanceConfig::default();

    assert!(config.read_ahead);
    assert_eq!(config.read_ahead_window, ByteSize::mb(16).as_u64());
    assert_eq!(config.read_concurrency, 4);
    assert_eq!(config.write_buffer_size, ByteSize::mb(64).as_u64());
    assert_eq!(config.multipart_threshold, ByteSize::mb(100).as_u64());
    assert_eq!(config.multipart_part_size, ByteSize::mb(8).as_u64());
    assert_eq!(config.multipart_concurrency, 5);
    assert_eq!(config.flush_interval, Duration::from_secs(30));
}

#[test]
fn test_fuse_config_default() {
    let config = FuseConfig::default();

    assert_eq!(config.max_read, ByteSize::mb(4).as_u64());
    assert_eq!(config.max_write, ByteSize::mb(4).as_u64());
    assert!(!config.allow_root);
    assert!(!config.allow_other);
    assert!(!config.read_only);
    assert!(!config.direct_io);
    assert_eq!(config.fs_name, "obsfuse");
}

#[test]
fn test_permission_config_default() {
    let config = PermissionConfig::default();

    assert_eq!(config.mode, PermissionMode::Fixed);
}

#[test]
fn test_fixed_permission_default() {
    let perm = FixedPermission::default();

    // UID/GID should be current user
    assert!(perm.uid > 0 || perm.uid == 0); // root is valid
    assert!(perm.gid > 0 || perm.gid == 0);
    assert_eq!(perm.file_mode, 0o644);
    assert_eq!(perm.dir_mode, 0o755);
}

#[test]
fn test_logging_config_default() {
    let config = LoggingConfig::default();

    assert_eq!(config.level, "info");
    assert!(config.file.is_none());
    assert!(!config.json);
}

#[test]
fn test_config_test_config_validation_missing_bucket() {
    let config = Config::default();
    let result = config.validate();

    assert!(result.is_err());
    assert!(result.unwrap_err().to_string().contains("Bucket"));
}

#[test]
fn test_config_validation_missing_access_key() {
    let mut config = Config::default();
    config.obs.bucket = "test-bucket".to_string();

    let result = config.validate();

    assert!(result.is_err());
    assert!(result.unwrap_err().to_string().contains("Access key"));
}

#[test]
fn test_config_validation_missing_secret_key() {
    let mut config = Config::default();
    config.obs.bucket = "test-bucket".to_string();
    config.obs.access_key = Some("ak".to_string());

    let result = config.validate();

    assert!(result.is_err());
    assert!(result.unwrap_err().to_string().contains("Secret key"));
}

#[test]
fn test_config_validation_success() {
    let mut config = Config::default();
    config.obs.bucket = "test-bucket".to_string();
    config.obs.access_key = Some("ak".to_string());
    config.obs.secret_key = Some("sk".to_string());

    let result = config.validate();
    assert!(result.is_ok());
}

#[test]
fn test_config_validation_zero_block_size() {
    let mut config = Config::default();
    config.obs.bucket = "test-bucket".to_string();
    config.obs.access_key = Some("ak".to_string());
    config.obs.secret_key = Some("sk".to_string());
    config.cache.block_size = ByteSize::b(0).as_u64();

    let result = config.validate();
    assert!(result.is_err());
}

#[test]
fn test_merge_env() {
    // The values the environment holds
    let env = EnvOverrides {
        access_key: Some("env_ak".to_string()),
        secret_key: Some("env_sk".to_string()),
        endpoint: Some("env.endpoint.com".to_string()),
        bucket: Some("env-bucket".to_string()),
        region: Some("env-region".to_string()),
    };

    let mut config = Config::default();
    config.merge_overrides(env);

    assert_eq!(config.obs.access_key, Some("env_ak".to_string()));
    assert_eq!(config.obs.secret_key, Some("env_sk".to_string()));
    assert_eq!(config.obs.endpoint, "env.endpoint.com");
    assert_eq!(config.obs.bucket, "env-bucket");
    assert_eq!(config.obs.region, "env-region");
}

#[test]
fn test_merge_env_keeps_unset_values() {
    let env = EnvOverrides { access_key: None, secret_key: None, endpoint: None, bucket: Some("b".to_string()), region: None };
    let mut config = Config::default();
    config.merge_overrides(env);
    assert_eq!(config.obs.bucket, "b");
    assert_eq!(config.obs.endpoint, "obs.cn-north-1.myhuaweicloud.com");
    assert!(config.obs.access_key.is_none());
}

#[test]
fn test_effective_cache_dir_custom() {
    let mut config = Config::default();
    config.cache.cache_dir = Some("/custom/cache".into());

    let dir = config.effective_cache_dir();
    assert_eq!(dir.as_str(), "/custom/cache");
}

#[test]
fn test_effective_cache_dir_default() {
    let config = Config::default();

    let dir = config.effective_cache_dir();
    assert!(dir.as_str().contains("obsfuse"));
}

#[test]
fn test_permission_mode_fixed() {
    let mode = PermissionMode::Fixed;
    assert_eq!(mode, PermissionMode::default());
}

#[test]
fn test_permission_mode_preserved() {
    let mode = PermissionMode::Preserved;
    assert_ne!(mode, PermissionMode::Fixed);
}

#[test]
fn test_permission_config_with_fixed() {
    let config = PermissionConfig {
        mode: PermissionMode::Fixed,
        fixed: FixedPermission { uid: 1000, gid: 1000, file_mode: 0o644, dir_mode: 0o755 },
    };

    assert_eq!(config.mode, PermissionMode::Fixed);
    assert_eq!(config.fixed.uid, 1000);
    assert_eq!(config.fixed.gid, 1000);
    assert_eq!(config.fixed.file_mode, 0o644);
    assert_eq!(config.fixed.dir_mode, 0o755);
}

#[test]
fn test_default_config_path() {
    let path = Config::default_config_path();

    assert!(path.as_str().contains(".obsfuse"));
    assert!(path.as_str().contains("config.toml"));
}

#[test]
fn test_default_cache_dir() {
    let dir = Config::default_cache_dir();

    assert!(dir.as_str().contains("obsfuse"));
}

#[test]
fn test_config_path_in_home() {
    assert_eq!(Config::config_path_in(Some("/home/u".to_string())), "/home/u/.obsfuse/config.toml");
    assert_eq!(Config::config_path_in(None), "./.obsfuse/config.toml");
    assert_eq!(Config::cache_dir_in(Some("/var/cache/".to_string())), "/var/cache/obsfuse");
    assert_eq!(Config::cache_dir_in(None), "/tmp/obsfuse");
}

fn mount_args() -> MountArgs {
    MountArgs {
        bucket: "photos".to_string(),
        endpoint: None,
        access_key: Some("ak".to_string()),
        secret_key: None,
        region: "cn-south-1".to_string(),
        prefix: Some("base".to_string()),
        cache_dir: None,
        memory_cache_size: Some("256MB".to_string()),
        disk_cache_size: None,
        metadata_ttl: Some(5),
        read_ahead: Some(false),
        write_buffer_size: Some("1 MiB".to_string()),
        allow_root: false,
        allow_other: true,
        read_only: true,
        uid: Some(42),
        gid: None,
        file_mode: Some("0600".to_string()),
        dir_mode: Some("0o700".to_string()),
    }
}

#[test]
fn test_parse_mode_forms() {
    assert_eq!(parse_mode("0644"), Some(0o644));
    assert_eq!(parse_mode("644"), Some(0o644));
    assert_eq!(parse_mode("0o755"), Some(0o755));
    assert_eq!(parse_mode("0o0o00750"), Some(0o750));
    assert_eq!(parse_mode("+7"), Some(7));
    assert_eq!(parse_mode("0"), None);
    assert_eq!(parse_mode("0o"), None);
    assert_eq!(parse_mode("8"), None);
    assert_eq!(parse_mode("rwx"), None);
    assert_eq!(parse_mode("77777777777"), None);
}

#[test]
fn test_endpoint_for_region() {
    assert_eq!(endpoint_for_region("cn-north-4"), "obs.cn-north-4.myhuaweicloud.com");
}

#[test]
fn test_apply_mount_args_sets_everything() {
    let mut config = Config::default();
    config.obs.secret_key = Some("sk".to_string());
    config.apply_mount_args(mount_args()).unwrap();
    assert_eq!(config.obs.bucket, "photos");
    assert_eq!(config.obs.endpoint, "obs.cn-south-1.myhuaweicloud.com");
    assert_eq!(config.obs.access_key, Some("ak".to_string()));
    assert_eq!(config.obs.secret_key, Some("sk".to_string()));
    assert_eq!(config.obs.prefix, Some("base".to_string()));
    assert_eq!(config.cache.memory_limit, 256_000_000);
    assert_eq!(config.cache.disk_limit, CacheConfig::default().disk_limit);
    assert_eq!(config.cache.metadata.attr_ttl, Duration::from_secs(5));
    assert!(!config.performance.read_ahead);
    assert_eq!(config.performance.write_buffer_size, 1024 * 1024);
    assert!(config.fuse.allow_other);
    assert!(config.fuse.read_only);
    assert!(!config.fuse.allow_root);
    assert_eq!(config.permission.fixed.uid, 42);
    assert_eq!(config.permission.fixed.file_mode, 0o600);
    assert_eq!(config.permission.fixed.dir_mode, 0o700);
}

#[test]
fn test_apply_mount_args_explicit_endpoint() {
    let mut config = Config::default();
    let mut args = mount_args();
    args.endpoint = Some("obs.example.test".to_string());
    config.apply_mount_args(args).unwrap();
    assert_eq!(config.obs.endpoint, "obs.example.test");
}

#[test]
fn test_apply_mount_args_bad_size() {
    let mut config = Config::default();
    let mut args = mount_args();
    args.memory_cache_size = Some("lots".to_string());
    args.file_mode = Some("9".to_string());
    match config.apply_mount_args(args) {
        Err(ObsFuseError::Config(m)) => assert!(m.contains("lots")),
        other => panic!("unexpected {:?}", other.is_ok()),
    }
}

#[test]
fn test_apply_mount_args_bad_mode() {
    let mut config = Config::default();
    let mut args = mount_args();
    args.dir_mode = Some("0".to_string());
    match config.apply_mount_args(args) {
        Err(ObsFuseError::Config(m)) => assert_eq!(m, "Invalid permission mode"),
        other => panic!("unexpected {:?}", other.is_ok()),
    }
}

#[test]
fn test_apply_mount_settings_takes_read_sizes() {
    let mut config = Config::default();
    let mut args = mount_args();
    args.memory_cache_size = None;
    args.write_buffer_size = None;
    let r = config.apply_mount_settings(args, Some(Ok(7)), Some(Ok(9)), Some(Err("no".to_string())));
    match r {
        Err(ObsFuseError::Config(m)) => assert_eq!(m, "no"),
        other => panic!("unexpected {:?}", other.is_ok()),
    }
    let mut config = Config::default();
    assert!(config.apply_mount_settings(mount_args(), Some(Ok(7)), Some(Ok(9)), None).is_ok());
    assert_eq!(config.cache.memory_limit, 7);
    assert_eq!(config.cache.disk_limit, 9);
}

#[test]
fn test_stale_mount_errors() {
    assert!(is_stale_mount_error(Some(libc::ENXIO)));
    assert!(is_stale_mount_error(Some(libc::EIO)));
    assert!(is_stale_mount_error(Some(libc::ENOTCONN)));
    assert!(!is_stale_mount_error(Some(libc::ENOENT)));
    assert!(!is_stale_mount_error(None));
}
