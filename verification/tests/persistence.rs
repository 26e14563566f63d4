use aegnt_27::error::ErrorKind;
use aegnt_27::persistence::{
    backup_file_name, calculate_directory_size, checked_directory_size, config_file_name,
    key_file_name, profile_file_name, storage_directories, BackupEntry, KeyAction,
    PersistenceManager, StorageConfig,
};
use aegnt_27::platform::CivilTime;

fn config(max_file_size: u64, compression_level: u32, enable_encryption: bool) -> StorageConfig {
    StorageConfig {
        base_dir: String::from("/tmp/store"),
        enable_encryption,
        max_file_size,
        compression_level,
        enable_backups: true,
        backup_retention_days: 30,
    }
}

const USER: u128 = 0x550e8400_e29b_41d4_a716_446655440000;

#[test]
fn default_storage_config() {
    let config = StorageConfig::default();
    assert!(config.base_dir.ends_with("aegnt-27"));
    assert!(config.base_dir.len() > "aegnt-27".len());
    assert!(config.enable_encryption);
    assert_eq!(config.max_file_size, 104_857_600);
    assert_eq!(config.compression_level, 6);
    assert!(config.enable_backups);
    assert_eq!(config.backup_retention_days, 30);
}

#[test]
fn new_manager_has_no_key() {
    let manager = PersistenceManager::new(config(100, 0, true));
    assert!(!manager.has_key());
    assert!(manager.wants_key());
    assert!(!PersistenceManager::new(config(100, 0, false)).wants_key());
    assert_eq!(manager.config().max_file_size, 100);
    assert_eq!(manager.config().base_dir, "/tmp/store");
}

#[test]
fn file_and_directory_names() {
    assert_eq!(profile_file_name(USER), "550e8400-e29b-41d4-a716-446655440000.json");
    assert_eq!(profile_file_name(0), "00000000-0000-0000-0000-000000000000.json");
    assert_eq!(
        profile_file_name(0x0123_4567_89ab_cdef_fedc_ba98_7654_3210),
        "01234567-89ab-cdef-fedc-ba9876543210.json"
    );
    assert_eq!(profile_file_name(u128::MAX), "ffffffff-ffff-ffff-ffff-ffffffffffff.json");
    assert_eq!(profile_file_name(1), "00000000-0000-0000-0000-000000000001.json");
    assert_eq!(config_file_name(), "config.json");
    assert_eq!(key_file_name(), "encryption.key");
    assert_eq!(storage_directories(), vec!["profiles", "cache", "logs", "backups", "temp"]);
}

#[test]
fn payload_over_the_limit_is_rejected() {
    let manager = PersistenceManager::new(config(10, 0, false));
    let error = manager.save_profile(USER, b"12345678901").unwrap_err();
    assert_eq!(error.kind(), ErrorKind::Storage);
    assert_eq!(error.message(), "Storage error: File size 11 exceeds limit 10");
    let error = manager.save_config(b"{\"target_score\": 0.95}").unwrap_err();
    assert_eq!(error.kind(), ErrorKind::Storage);
    assert!(manager.write_file(b"12345678901").is_err());
}

#[test]
fn payload_at_the_limit_is_accepted() {
    let manager = PersistenceManager::new(config(10, 0, false));
    let file = manager.save_profile(USER, b"1234567890").unwrap();
    assert_eq!(file.file_name, "550e8400-e29b-41d4-a716-446655440000.json");
    assert_eq!(file.bytes, b"1234567890");
    let file = manager.save_config(b"{}").unwrap();
    assert_eq!(file.file_name, "config.json");
    assert_eq!(file.bytes, b"{}");
}

#[test]
fn saved_profile_reads_back_unchanged() {
    let payload = b"{\"learning_data\": {\"x\": 0.4}}".to_vec();
    for (level, encryption) in [(0, false), (6, false), (0, true), (9, true)] {
        let mut manager = PersistenceManager::new(config(1 << 20, level, encryption));
        if encryption {
            manager.initialize_encryption(None).unwrap();
        }
        let file = manager.save_profile(USER, &payload).unwrap();
        let loaded = manager.load_profile(Some(&file.bytes)).unwrap();
        assert_eq!(loaded, Some(payload.clone()));
        assert_eq!(manager.read_file(&manager.write_file(&payload).unwrap()).unwrap(), payload);
    }
}

#[test]
fn absent_files_load_as_nothing() {
    let manager = PersistenceManager::new(config(100, 0, false));
    assert_eq!(manager.load_profile(None).unwrap(), None);
    assert_eq!(manager.load_config(None).unwrap(), None);
    assert_eq!(manager.load_config(Some(b"{}")).unwrap(), Some(b"{}".to_vec()));
}

#[test]
fn transforms_preserve_the_bytes() {
    let manager = PersistenceManager::new(config(100, 6, true));
    let data = vec![0u8, 1, 2, 255];
    assert_eq!(manager.compress_data(&data).unwrap(), data);
    assert_eq!(manager.decompress_data(&data).unwrap(), data);
    assert_eq!(manager.encrypt_data(&data).unwrap(), data);
    assert_eq!(manager.decrypt_data(&data).unwrap(), data);
}

#[test]
fn listing_passes_over_foreign_files() {
    let manager = PersistenceManager::new(config(100, 0, false));
    let saved = manager.save_profile(USER, b"{}").unwrap();
    let stem = saved.file_name.strip_suffix(".json").unwrap().to_string();
    let stems = vec![
        String::from("notes"),
        stem.clone(),
        String::from(""),
        String::from("00000000-0000-0000-0000-000000000001"),
    ];
    assert_eq!(manager.list_profiles(&stems), vec![USER, 1]);
    assert!(manager.list_profiles(&stems).contains(&USER));
    // After the file of the user is gone, the user is no longer listed.
    let remaining: Vec<String> = stems.into_iter().filter(|s| *s != stem).collect();
    assert!(!manager.list_profiles(&remaining).contains(&USER));
    assert!(manager.list_profiles(&Vec::new()).is_empty());
}

#[test]
fn existing_key_must_be_thirty_two_bytes() {
    let mut manager = PersistenceManager::new(config(100, 0, true));
    let error = manager.initialize_encryption(Some(&[7u8; 31])).unwrap_err();
    assert_eq!(error.kind(), ErrorKind::Storage);
    assert_eq!(error.message(), "Storage error: Invalid encryption key length");
    assert!(!manager.has_key());
    assert!(manager.initialize_encryption(Some(&[7u8; 33])).is_err());
    assert!(manager.initialize_encryption(Some(&[])).is_err());
    let action = manager.initialize_encryption(Some(&[7u8; 32])).unwrap();
    assert!(matches!(action, KeyAction::Loaded));
    assert!(manager.has_key());
}

#[test]
fn missing_key_is_generated_for_persisting() {
    let mut first = PersistenceManager::new(config(100, 0, true));
    let mut second = PersistenceManager::new(config(100, 0, true));
    let a = match first.initialize_encryption(None).unwrap() {
        KeyAction::Persist(key) => key,
        KeyAction::Loaded => panic!("a key was to be generated"),
    };
    let b = match second.initialize_encryption(None).unwrap() {
        KeyAction::Persist(key) => key,
        KeyAction::Loaded => panic!("a key was to be generated"),
    };
    assert!(first.has_key());
    assert_ne!(a, b);
}

#[test]
fn backup_names_carry_the_instant() {
    let at = CivilTime { year: 2024, month: 3, day: 5, hour: 7, minute: 8, second: 9 };
    assert_eq!(backup_file_name(&at), "aegnt27_backup_20240305_070809.tar.gz");
    let late = CivilTime { year: 1999, month: 12, day: 31, hour: 23, minute: 59, second: 59 };
    assert_eq!(backup_file_name(&late), "aegnt27_backup_19991231_235959.tar.gz");
    let early = CivilTime { year: 33, month: 1, day: 1, hour: 0, minute: 0, second: 0 };
    assert_eq!(backup_file_name(&early), "aegnt27_backup_00330101_000000.tar.gz");
    let manager = PersistenceManager::new(config(100, 0, false));
    assert_eq!(
        manager.create_backup_at(&at).unwrap(),
        "aegnt27_backup_20240305_070809.tar.gz"
    );
}

#[test]
fn backup_now_is_named_by_the_clock() {
    let manager = PersistenceManager::new(config(100, 0, false));
    let name = manager.create_backup().unwrap();
    assert_eq!(name.len(), 37);
    assert!(name.starts_with("aegnt27_backup_20"));
    assert!(name.ends_with(".tar.gz"));
    assert_eq!(&name[23..24], "_");
    assert!(name[15..23].chars().all(|c| c.is_ascii_digit()));
    assert!(name[24..30].chars().all(|c| c.is_ascii_digit()));
}

#[test]
fn disabled_backups_fail() {
    let mut settings = config(100, 0, false);
    settings.enable_backups = false;
    let manager = PersistenceManager::new(settings);
    let error = manager.create_backup().unwrap_err();
    assert_eq!(error.kind(), ErrorKind::Storage);
    assert_eq!(error.message(), "Storage error: Backups are disabled");
    assert!(manager
        .create_backup_at(&CivilTime { year: 2024, month: 1, day: 1, hour: 0, minute: 0, second: 0 })
        .is_err());
}

#[test]
fn restoring_needs_the_backup_file() {
    let manager = PersistenceManager::new(config(100, 0, false));
    assert!(manager.restore_backup(true).is_ok());
    let error = manager.restore_backup(false).unwrap_err();
    assert_eq!(error.kind(), ErrorKind::Storage);
    assert_eq!(error.message(), "Storage error: Backup file not found");
}

#[test]
fn old_backups_are_the_ones_before_the_retention_period() {
    let manager = PersistenceManager::new(config(100, 0, false));
    let day: i64 = 86_400_000;
    let now: i64 = 100 * day;
    let entry = |name: &str, created: Option<i64>| BackupEntry { name: String::from(name), created };
    let entries = vec![
        entry("ancient", Some(0)),
        entry("edge", Some(70 * day)),
        entry("just_before", Some(70 * day - 1)),
        entry("fresh", Some(99 * day)),
        entry("unknown", None),
        entry("future", Some(200 * day)),
    ];
    assert_eq!(manager.clean_old_backups(&entries, now), vec!["ancient", "just_before"]);
    assert!(manager.clean_old_backups(&Vec::new(), now).is_empty());
    assert!(manager.clean_old_backups(&entries, i64::MIN).is_empty());
}

#[test]
fn directory_sizes_add_up() {
    assert_eq!(calculate_directory_size(&vec![]), 0);
    assert_eq!(calculate_directory_size(&vec![10, 20, 12]), 42);
    assert_eq!(checked_directory_size(&vec![10, 20, 12]), Some(42));
    assert_eq!(checked_directory_size(&vec![u64::MAX, 1]), None);
    assert_eq!(checked_directory_size(&vec![u64::MAX, 0]), Some(u64::MAX));
}

#[test]
fn storage_statistics_are_assembled_per_directory() {
    let manager = PersistenceManager::new(config(100, 0, false));
    let stems = vec![
        String::from("550e8400-e29b-41d4-a716-446655440000"),
        String::from("README"),
    ];
    let stats = manager.get_storage_stats(
        &vec![32, 100, 7, 1, 2, 3],
        &stems,
        &vec![100, 7],
        &vec![1],
        &vec![2],
        &vec![3],
    );
    assert_eq!(stats.total_size, 145);
    assert_eq!(stats.profiles_count, 1);
    assert_eq!(stats.profiles_size, 107);
    assert_eq!(stats.cache_size, 1);
    assert_eq!(stats.logs_size, 2);
    assert_eq!(stats.backups_size, 3);
}

#[test]
fn every_saved_profile_is_listed_under_its_own_name() {
    let manager = PersistenceManager::new(config(100, 0, false));
    let users = [
        0u128,
        1,
        USER,
        0x0123_4567_89ab_cdef_fedc_ba98_7654_3210,
        u128::MAX,
    ];
    let mut stems = Vec::new();
    for user in users {
        let saved = manager.save_profile(user, b"{}").unwrap();
        stems.push(saved.file_name.strip_suffix(".json").unwrap().to_string());
    }
    assert_eq!(manager.list_profiles(&stems), users.to_vec());
    stems.remove(2);
    let listed = manager.list_profiles(&stems);
    assert!(!listed.contains(&USER));
    assert_eq!(listed, vec![0, 1, 0x0123_4567_89ab_cdef_fedc_ba98_7654_3210, u128::MAX]);
}
