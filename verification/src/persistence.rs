//! The rules of the durable profile store: what is written under which
//! name, the write and read pipelines, key handling, backup naming and
//! retention, and storage accounting. The store decides; its caller moves
//! the bytes.

use vstd::prelude::*;
use vstd::string::*;
use vstd::slice::slice_to_vec;
use crate::error::{AegntError, ErrorKind};
use crate::platform::{
    data_dir,
    ends_with,
    identifier_text,
    is_plain_name,
    join_path,
    parse_identifier,
    random_key,
    utc_now_civil,
    uuid_hyphenated,
    uuid_parsed,
    CivilTime,
};
use crate::text::{decimal, decimal_digits, zero_padded, zero_padded_digits};

verus! {

/// The length of an encryption key, in bytes.
pub const KEY_LENGTH: usize = 32;

/// The milliseconds of one day.
pub const MILLIS_PER_DAY: i64 = 86_400_000;

/// The settings of a profile store.
#[derive(Debug)]
pub struct StorageConfig {
    /// The directory under which everything is stored.
    pub base_dir: String,
    /// Whether stored files are encrypted.
    pub enable_encryption: bool,
    /// The largest payload a file may hold, in bytes.
    pub max_file_size: u64,
    /// The compression level, from 0 (none) to 9.
    pub compression_level: u32,
    /// Whether backups may be created.
    pub enable_backups: bool,
    /// For how many days a backup is kept.
    pub backup_retention_days: u32,
}

impl Default for StorageConfig {
    /// The default settings: a folder of this library under the platform's
    /// data directory, or under the current directory where the platform
    /// names none.
    fn default() -> (config: Self)
        ensures
            ends_with(config.base_dir@, "aegnt-27"@),
            config.enable_encryption,
            config.max_file_size == 100 * 1024 * 1024,
            config.compression_level == 6,
            config.enable_backups,
            config.backup_retention_days == 30,
    {
        let parent: String = match data_dir() {
            Some(dir) => dir,
            None => String::from_str("."),
        };
        proof {
            reveal_strlit("aegnt-27");
            assert(is_plain_name("aegnt-27"@));
        }
        StorageConfig {
            base_dir: join_path(parent.as_str(), "aegnt-27"),
            enable_encryption: true,
            max_file_size: 100 * 1024 * 1024,
            compression_level: 6,
            enable_backups: true,
            backup_retention_days: 30,
        }
    }
}

/// The compressed form of a payload. The default transform preserves it.
pub open spec fn compressed(data: Seq<u8>) -> Seq<u8> {
    data
}

/// The payload of a compressed form: the inverse of `compressed`.
pub open spec fn decompressed(data: Seq<u8>) -> Seq<u8> {
    data
}

/// The encrypted form of a payload. The default transform preserves it.
pub open spec fn encrypted(data: Seq<u8>) -> Seq<u8> {
    data
}

/// The payload of an encrypted form: the inverse of `encrypted`.
pub open spec fn decrypted(data: Seq<u8>) -> Seq<u8> {
    data
}

/// What the write pipeline puts on disk for a payload: compressed where a
/// compression level is set, then encrypted where encryption is enabled
/// and a key is present.
pub open spec fn written_form(compress: bool, encrypt: bool, data: Seq<u8>) -> Seq<u8> {
    let packed = if compress {
        compressed(data)
    } else {
        data
    };
    if encrypt {
        encrypted(packed)
    } else {
        packed
    }
}

/// What the read pipeline gives back for stored bytes: decrypted where
/// encryption is enabled and a key is present, then decompressed where a
/// compression level is set.
pub open spec fn read_form(compress: bool, encrypt: bool, stored: Seq<u8>) -> Seq<u8> {
    let opened = if encrypt {
        decrypted(stored)
    } else {
        stored
    };
    if compress {
        decompressed(opened)
    } else {
        opened
    }
}

/// Reading what was written gives the payload back, under every setting of
/// compression and encryption.
pub proof fn lemma_read_inverts_write(compress: bool, encrypt: bool, data: Seq<u8>)
    ensures
        read_form(compress, encrypt, written_form(compress, encrypt, data)) == data,
{
}

/// With compression and encryption off, the stored bytes are the payload
/// itself.
pub proof fn lemma_plain_store_keeps_bytes(data: Seq<u8>)
    ensures
        written_form(false, false, data) == data,
        read_form(false, false, data) == data,
{
}

/// The message of the error for a payload over the size limit.
pub open spec fn size_limit_message(size: nat, limit: nat) -> Seq<char> {
    "File size "@ + decimal_digits(size) + " exceeds limit "@ + decimal_digits(limit)
}

/// The stem of the name of the file that holds the profile of a user: the
/// hyphenated rendering of the identifier.
pub open spec fn profile_stem_spec(user_id: u128) -> Seq<char> {
    uuid_hyphenated(user_id)
}

/// The name of the file that holds the profile of a user.
pub open spec fn profile_file_name_spec(user_id: u128) -> Seq<char> {
    profile_stem_spec(user_id) + ".json"@
}

/// Whether the stems hold the stem of the profile file of a user.
pub open spec fn holds_profile_of(stems: Seq<String>, user_id: u128) -> bool {
    exists|i: int| 0 <= i < stems.len() && (#[trigger] stems[i])@ == profile_stem_spec(user_id)
}

/// The name of the file that holds the profile of a user: the hyphenated
/// identifier with the extension `.json`.
pub fn profile_file_name(user_id: u128) -> (name: String)
    ensures
        name@ == profile_file_name_spec(user_id),
        uuid_parsed(profile_stem_spec(user_id)) == Some(user_id),
{
    let mut name = identifier_text(user_id);
    name.append(".json");
    name
}

/// The name of the file that holds the saved configuration.
pub fn config_file_name() -> (name: &'static str)
    ensures
        name@ == "config.json"@,
{
    "config.json"
}

/// The name of the file that holds the encryption key.
pub fn key_file_name() -> (name: &'static str)
    ensures
        name@ == "encryption.key"@,
{
    "encryption.key"
}

/// The name of the directory that holds the profiles.
pub fn profiles_directory() -> (name: &'static str)
    ensures
        name@ == "profiles"@,
{
    "profiles"
}

/// The name of the directory that holds the backups.
pub fn backups_directory() -> (name: &'static str)
    ensures
        name@ == "backups"@,
{
    "backups"
}

/// The directories a store keeps under its base directory, in the order in
/// which they are created.
pub fn storage_directories() -> (names: Vec<&'static str>)
    ensures
        names@.len() == 5,
        names@[0]@ == "profiles"@,
        names@[1]@ == "cache"@,
        names@[2]@ == "logs"@,
        names@[3]@ == "backups"@,
        names@[4]@ == "temp"@,
{
    let mut names: Vec<&'static str> = Vec::new();
    names.push("profiles");
    names.push("cache");
    names.push("logs");
    names.push("backups");
    names.push("temp");
    names
}

/// A file to write: its name and the bytes to put in it.
#[derive(Debug)]
pub struct StoredFile {
    /// The name of the file, without its directory.
    pub file_name: String,
    /// The bytes of the file.
    pub bytes: Vec<u8>,
}

/// What initialising the encryption asks of the caller.
#[derive(Debug)]
pub enum KeyAction {
    /// The existing key was loaded; nothing is to be written.
    Loaded,
    /// A new key was generated and is to be written to the key file.
    Persist([u8; 32]),
}

/// The persistent storage manager.
pub struct PersistenceManager {
    config: StorageConfig,
    encryption_key: Option<[u8; 32]>,
}

impl PersistenceManager {
    /// The settings of the store.
    pub closed spec fn spec_config(&self) -> StorageConfig {
        self.config
    }

    /// The encryption key, once loaded or generated.
    pub closed spec fn spec_key(&self) -> Option<[u8; 32]> {
        self.encryption_key
    }

    /// Whether the pipelines compress.
    pub open spec fn compresses(&self) -> bool {
        self.spec_config().compression_level > 0
    }

    /// Whether the pipelines encrypt.
    pub open spec fn encrypts(&self) -> bool {
        self.spec_config().enable_encryption && self.spec_key() is Some
    }

    /// Create a store with the given settings and no key.
    pub fn new(config: StorageConfig) -> (manager: Self)
        ensures
            manager.spec_config() == config,
            manager.spec_key() is None,
    {
        PersistenceManager { config, encryption_key: None }
    }

    /// The settings of the store.
    pub fn config(&self) -> (config: &StorageConfig)
        ensures
            *config == self.spec_config(),
    {
        &self.config
    }

    /// Whether initialising the store takes an encryption key into use:
    /// where encryption is enabled.
    pub fn wants_key(&self) -> (wanted: bool)
        ensures
            wanted == self.spec_config().enable_encryption,
    {
        self.config.enable_encryption
    }

    /// Whether a key has been loaded or generated.
    pub fn has_key(&self) -> (present: bool)
        ensures
            present == (self.spec_key() is Some),
    {
        self.encryption_key.is_some()
    }

    /// Compress a payload. The default transform preserves the bytes.
    pub fn compress_data(&self, data: &[u8]) -> (result: Result<Vec<u8>, AegntError>)
        ensures
            result is Ok,
            result->Ok_0@ == compressed(data@),
    {
        Ok(slice_to_vec(data))
    }

    /// Decompress stored bytes. The default transform preserves the bytes.
    pub fn decompress_data(&self, data: &[u8]) -> (result: Result<Vec<u8>, AegntError>)
        ensures
            result is Ok,
            result->Ok_0@ == decompressed(data@),
    {
        Ok(slice_to_vec(data))
    }

    /// Encrypt a payload. The default transform preserves the bytes.
    pub fn encrypt_data(&self, data: &[u8]) -> (result: Result<Vec<u8>, AegntError>)
        ensures
            result is Ok,
            result->Ok_0@ == encrypted(data@),
    {
        Ok(slice_to_vec(data))
    }

    /// Decrypt stored bytes. The default transform preserves the bytes.
    pub fn decrypt_data(&self, data: &[u8]) -> (result: Result<Vec<u8>, AegntError>)
        ensures
            result is Ok,
            result->Ok_0@ == decrypted(data@),
    {
        Ok(slice_to_vec(data))
    }

    /// The write pipeline: reject a payload over the size limit, else
    /// compress, then encrypt, as the settings say. Returns the bytes to
    /// put on disk.
    pub fn write_file(&self, data: &[u8]) -> (result: Result<Vec<u8>, AegntError>)
        ensures
            data@.len() > self.spec_config().max_file_size ==> result is Err
                && result->Err_0.spec_kind() == ErrorKind::Storage && result->Err_0.detail()
                == size_limit_message(data@.len(), self.spec_config().max_file_size as nat),
            data@.len() <= self.spec_config().max_file_size ==> result is Ok && result->Ok_0@
                == written_form(self.compresses(), self.encrypts(), data@),
    {
        if data.len() as u64 > self.config.max_file_size {
            let mut message = String::from_str("File size ");
            message.append(decimal(data.len() as u64).as_str());
            message.append(" exceeds limit ");
            message.append(decimal(self.config.max_file_size).as_str());
            return Err(AegntError::storage(message.as_str()));
        }
        let mut file_data: Vec<u8> = slice_to_vec(data);
        if self.config.compression_level > 0 {
            file_data = match self.compress_data(file_data.as_slice()) {
                Ok(packed) => packed,
                Err(error) => {
                    return Err(error);
                },
            };
        }
        if self.config.enable_encryption && self.encryption_key.is_some() {
            file_data = match self.encrypt_data(file_data.as_slice()) {
                Ok(sealed) => sealed,
                Err(error) => {
                    return Err(error);
                },
            };
        }
        Ok(file_data)
    }

    /// The read pipeline: decrypt, then decompress, as the settings say.
    /// Returns the payload.
    pub fn read_file(&self, stored: &[u8]) -> (result: Result<Vec<u8>, AegntError>)
        ensures
            result is Ok,
            result->Ok_0@ == read_form(self.compresses(), self.encrypts(), stored@),
    {
        let mut file_data: Vec<u8> = slice_to_vec(stored);
        if self.config.enable_encryption && self.encryption_key.is_some() {
            file_data = match self.decrypt_data(file_data.as_slice()) {
                Ok(opened) => opened,
                Err(error) => {
                    return Err(error);
                },
            };
        }
        if self.config.compression_level > 0 {
            file_data = match self.decompress_data(file_data.as_slice()) {
                Ok(unpacked) => unpacked,
                Err(error) => {
                    return Err(error);
                },
            };
        }
        Ok(file_data)
    }
}

/// The identifiers that a list of file stems names: each stem that parses
/// as an identifier gives one, in order; the others are passed over.
pub open spec fn parsed_identifiers(stems: Seq<String>) -> Seq<u128>
    decreases stems.len(),
{
    if stems.len() == 0 {
        Seq::<u128>::empty()
    } else {
        let earlier = parsed_identifiers(stems.drop_last());
        match uuid_parsed(stems.last()@) {
            Some(id) => earlier.push(id),
            None => earlier,
        }
    }
}

/// An identifier is listed exactly where some stem parses to it.
pub proof fn lemma_listed_iff_parsed(stems: Seq<String>, id: u128)
    ensures
        parsed_identifiers(stems).contains(id) <==> exists|i: int|
            0 <= i < stems.len() && uuid_parsed(#[trigger] stems[i]@) == Some(id),
    decreases stems.len(),
{
    if stems.len() > 0 {
        let head = stems.drop_last();
        let earlier = parsed_identifiers(head);
        let listed = parsed_identifiers(stems);
        lemma_listed_iff_parsed(head, id);
        if listed.contains(id) {
            let at = choose|k: int| 0 <= k < listed.len() && listed[k] == id;
            if at < earlier.len() {
                assert(earlier[at] == id);
                assert(earlier.contains(id));
                let i = choose|i: int| 0 <= i < head.len() && uuid_parsed(#[trigger] head[i]@) == Some(id);
                assert(stems[i] == head[i]);
            } else {
                assert(uuid_parsed(stems[stems.len() - 1]@) == Some(id));
            }
        }
        if exists|i: int| 0 <= i < stems.len() && uuid_parsed(#[trigger] stems[i]@) == Some(id) {
            let i = choose|i: int| 0 <= i < stems.len() && uuid_parsed(#[trigger] stems[i]@) == Some(id);
            if i < head.len() {
                assert(head[i] == stems[i]);
                assert(earlier.contains(id));
                let k = choose|k: int| 0 <= k < earlier.len() && earlier[k] == id;
                assert(listed[k] == id);
            } else {
                assert(listed[listed.len() - 1] == id);
            }
        }
    }
}

/// Where the stem of a user's profile file is among the stems, and the
/// stem parses back to the user, the user is listed.
pub proof fn lemma_saved_profile_is_listed(stems: Seq<String>, user_id: u128)
    requires
        holds_profile_of(stems, user_id),
    ensures
        uuid_parsed(profile_stem_spec(user_id)) == Some(user_id) ==> parsed_identifiers(
            stems,
        ).contains(user_id),
{
    if uuid_parsed(profile_stem_spec(user_id)) == Some(user_id) {
        let i = choose|i: int|
            0 <= i < stems.len() && (#[trigger] stems[i])@ == profile_stem_spec(user_id);
        assert(uuid_parsed(stems[i]@) == Some(user_id));
        lemma_listed_iff_parsed(stems, user_id);
    }
}

/// Whether the stem at `at` is the only one that parses to `user_id`.
pub open spec fn only_stem_of(stems: Seq<String>, at: int, user_id: u128) -> bool {
    &&& uuid_parsed(stems[at]@) == Some(user_id)
    &&& forall|i: int|
        0 <= i < stems.len() && i != at ==> uuid_parsed(#[trigger] stems[i]@) != Some(user_id)
}

/// Taking away the only stem of a user unlists that user and leaves every
/// other listed user listed.
pub proof fn lemma_deleted_profile_is_unlisted(stems: Seq<String>, at: int, user_id: u128)
    requires
        0 <= at < stems.len(),
    ensures
        only_stem_of(stems, at, user_id) ==> !parsed_identifiers(stems.remove(at)).contains(
            user_id,
        ),
        only_stem_of(stems, at, user_id) ==> forall|other: u128|
            other != user_id && parsed_identifiers(stems).contains(other)
                ==> #[trigger] parsed_identifiers(stems.remove(at)).contains(other),
{
    if only_stem_of(stems, at, user_id) {
        let left = stems.remove(at);
        lemma_listed_iff_parsed(left, user_id);
        if parsed_identifiers(left).contains(user_id) {
            let i = choose|i: int|
                0 <= i < left.len() && uuid_parsed(#[trigger] left[i]@) == Some(user_id);
            if i < at {
                assert(left[i] == stems[i]);
            } else {
                assert(left[i] == stems[i + 1]);
            }
        }
        assert forall|other: u128|
            other != user_id && parsed_identifiers(stems).contains(other) implies #[trigger]
            parsed_identifiers(left).contains(other) by {
            lemma_listed_iff_parsed(stems, other);
            lemma_listed_iff_parsed(left, other);
            let i = choose|i: int|
                0 <= i < stems.len() && uuid_parsed(#[trigger] stems[i]@) == Some(other);
            if i < at {
                assert(left[i] == stems[i]);
            } else {
                assert(left[i - 1] == stems[i]);
            }
        }
    }
}

/// The calendar year as a backup name shows it: four digits for the years
/// 0 to 9999, else a sign and at least four digits.
pub open spec fn year_digits(year: int) -> Seq<char> {
    if 0 <= year <= 9999 {
        zero_padded_digits(year as nat, 4)
    } else if year < 0 {
        "-"@ + zero_padded_digits((-year) as nat, 4)
    } else {
        "+"@ + zero_padded_digits(year as nat, 4)
    }
}

/// The name of the backup made at the given instant:
/// `aegnt27_backup_YYYYMMDD_HHMMSS.tar.gz`.
pub open spec fn backup_file_name_spec(at: CivilTime) -> Seq<char> {
    "aegnt27_backup_"@ + year_digits(at.year as int) + zero_padded_digits(at.month as nat, 2)
        + zero_padded_digits(at.day as nat, 2) + "_"@ + zero_padded_digits(at.hour as nat, 2)
        + zero_padded_digits(at.minute as nat, 2) + zero_padded_digits(at.second as nat, 2)
        + ".tar.gz"@
}

/// The name of the backup made at the given instant.
pub fn backup_file_name(at: &CivilTime) -> (name: String)
    ensures
        name@ == backup_file_name_spec(*at),
{
    let mut name = String::from_str("aegnt27_backup_");
    if at.year < 0 {
        name.append("-");
        name.append(zero_padded((0 - (at.year as i64)) as u64, 4).as_str());
    } else if at.year > 9999 {
        name.append("+");
        name.append(zero_padded(at.year as u64, 4).as_str());
    } else {
        name.append(zero_padded(at.year as u64, 4).as_str());
    }
    name.append(zero_padded(at.month as u64, 2).as_str());
    name.append(zero_padded(at.day as u64, 2).as_str());
    name.append("_");
    name.append(zero_padded(at.hour as u64, 2).as_str());
    name.append(zero_padded(at.minute as u64, 2).as_str());
    name.append(zero_padded(at.second as u64, 2).as_str());
    name.append(".tar.gz");
    assert(name@ =~= backup_file_name_spec(*at));
    name
}

/// One entry of the backups directory.
#[derive(Debug)]
pub struct BackupEntry {
    /// The name of the entry.
    pub name: String,
    /// When the entry was created, in milliseconds since the Unix epoch,
    /// where the file system tells.
    pub created: Option<i64>,
}

/// Whether an entry created at `created` is older than the retention
/// allows at the instant `now`.
pub open spec fn is_expired(created: Option<i64>, now: i64, retention_days: u32) -> bool {
    match created {
        Some(at) => at < now - retention_days * MILLIS_PER_DAY,
        None => false,
    }
}

/// The names of the expired entries, in order.
pub open spec fn expired_names(entries: Seq<BackupEntry>, now: i64, retention_days: u32) -> Seq<
    Seq<char>,
>
    decreases entries.len(),
{
    if entries.len() == 0 {
        Seq::<Seq<char>>::empty()
    } else {
        let earlier = expired_names(entries.drop_last(), now, retention_days);
        if is_expired(entries.last().created, now, retention_days) {
            earlier.push(entries.last().name@)
        } else {
            earlier
        }
    }
}

/// The views of a list of names.
pub open spec fn name_views(names: Seq<String>) -> Seq<Seq<char>> {
    names.map_values(|name: String| name@)
}

/// The sum of a list of sizes.
pub open spec fn size_sum(sizes: Seq<u64>) -> int
    decreases sizes.len(),
{
    if sizes.len() == 0 {
        0
    } else {
        size_sum(sizes.drop_last()) + sizes.last()
    }
}

/// The sizes of a prefix sum to no more than the sizes of the whole.
pub proof fn lemma_size_sum_prefix(sizes: Seq<u64>, n: int)
    requires
        0 <= n <= sizes.len(),
    ensures
        0 <= size_sum(sizes.take(n)) <= size_sum(sizes),
    decreases sizes.len() - n,
{
    if n == sizes.len() {
        assert(sizes.take(n) =~= sizes);
        lemma_size_sum_nonnegative(sizes);
    } else {
        lemma_size_sum_prefix(sizes, n + 1);
        assert(sizes.take(n + 1).drop_last() =~= sizes.take(n));
        lemma_size_sum_nonnegative(sizes.take(n));
    }
}

/// A sum of sizes is not negative.
pub proof fn lemma_size_sum_nonnegative(sizes: Seq<u64>)
    ensures
        size_sum(sizes) >= 0,
    decreases sizes.len(),
{
    if sizes.len() > 0 {
        lemma_size_sum_nonnegative(sizes.drop_last());
    }
}

/// The size of a directory: the sum of the sizes of the files under it.
pub fn calculate_directory_size(file_sizes: &Vec<u64>) -> (total: u64)
    requires
        size_sum(file_sizes@) <= u64::MAX,
    ensures
        total as int == size_sum(file_sizes@),
{
    let mut total: u64 = 0;
    let mut i: usize = 0;
    while i < file_sizes.len()
        invariant
            i <= file_sizes.len(),
            size_sum(file_sizes@) <= u64::MAX,
            total as int == size_sum(file_sizes@.take(i as int)),
        decreases file_sizes.len() - i,
    {
        proof {
            lemma_size_sum_prefix(file_sizes@, i + 1);
            assert(file_sizes@.take(i + 1).drop_last() =~= file_sizes@.take(i as int));
        }
        total = total + file_sizes[i];
        i += 1;
    }
    proof {
        assert(file_sizes@.take(i as int) =~= file_sizes@);
    }
    total
}

/// The size of a directory where the sum fits, else `None`.
pub fn checked_directory_size(file_sizes: &Vec<u64>) -> (total: Option<u64>)
    ensures
        size_sum(file_sizes@) <= u64::MAX ==> total == Some(size_sum(file_sizes@) as u64),
        size_sum(file_sizes@) > u64::MAX ==> total is None,
{
    let mut total: u64 = 0;
    let mut i: usize = 0;
    while i < file_sizes.len()
        invariant
            i <= file_sizes.len(),
            total as int == size_sum(file_sizes@.take(i as int)),
        decreases file_sizes.len() - i,
    {
        proof {
            lemma_size_sum_prefix(file_sizes@, i + 1);
            assert(file_sizes@.take(i + 1).drop_last() =~= file_sizes@.take(i as int));
        }
        if file_sizes[i] > u64::MAX - total {
            return None;
        }
        total = total + file_sizes[i];
        i += 1;
    }
    proof {
        assert(file_sizes@.take(i as int) =~= file_sizes@);
    }
    Some(total)
}

/// The storage usage of a store.
#[derive(Debug, Clone, Copy, PartialEq, Eq, Structural)]
pub struct StorageStats {
    /// The size of everything under the base directory.
    pub total_size: u64,
    /// The number of stored profiles.
    pub profiles_count: u64,
    /// The size of the profiles directory.
    pub profiles_size: u64,
    /// The size of the cache directory.
    pub cache_size: u64,
    /// The size of the logs directory.
    pub logs_size: u64,
    /// The size of the backups directory.
    pub backups_size: u64,
}

impl PersistenceManager {
    /// Take the encryption key into use. With the bytes of an existing key
    /// file, the key is loaded, and rejected unless it is exactly 32 bytes
    /// long. With none, a new key is generated, which the caller is to
    /// write to the key file.
    pub fn initialize_encryption(&mut self, existing: Option<&[u8]>) -> (result: Result<
        KeyAction,
        AegntError,
    >)
        ensures
            final(self).spec_config() == old(self).spec_config(),
            match existing {
                Some(key_data) => if key_data@.len() == KEY_LENGTH {
                    &&& result == Ok::<KeyAction, AegntError>(KeyAction::Loaded)
                    &&& final(self).spec_key() is Some
                    &&& final(self).spec_key()->Some_0@ == key_data@
                } else {
                    &&& result is Err
                    &&& result->Err_0.spec_kind() == ErrorKind::Storage
                    &&& result->Err_0.detail() == "Invalid encryption key length"@
                    &&& final(self).spec_key() == old(self).spec_key()
                },
                None => {
                    &&& result is Ok
                    &&& result->Ok_0 is Persist
                    &&& final(self).spec_key() == Some(result->Ok_0->Persist_0)
                },
            },
    {
        match existing {
            Some(key_data) => {
                if key_data.len() != KEY_LENGTH {
                    return Err(AegntError::storage("Invalid encryption key length"));
                }
                let mut key: [u8; 32] = [0u8; 32];
                let mut i: usize = 0;
                while i < KEY_LENGTH
                    invariant
                        i <= KEY_LENGTH,
                        key_data@.len() == KEY_LENGTH,
                        forall|k: int| 0 <= k < i ==> key@[k] == key_data@[k],
                    decreases KEY_LENGTH - i,
                {
                    key[i] = key_data[i];
                    i += 1;
                }
                assert(key@ =~= key_data@);
                self.encryption_key = Some(key);
                Ok(KeyAction::Loaded)
            },
            None => {
                let key: [u8; 32] = random_key();
                self.encryption_key = Some(key);
                Ok(KeyAction::Persist(key))
            },
        }
    }

    /// What saving a profile writes: the file named after the user, with
    /// the serialized profile passed through the write pipeline. Fails,
    /// and names no file, where the payload is over the size limit.
    pub fn save_profile(&self, user_id: u128, payload: &[u8]) -> (result: Result<
        StoredFile,
        AegntError,
    >)
        ensures
            payload@.len() > self.spec_config().max_file_size ==> result is Err
                && result->Err_0.spec_kind() == ErrorKind::Storage && result->Err_0.detail()
                == size_limit_message(payload@.len(), self.spec_config().max_file_size as nat),
            payload@.len() <= self.spec_config().max_file_size ==> result is Ok
                && result->Ok_0.file_name@ == profile_file_name_spec(user_id)
                && result->Ok_0.bytes@ == written_form(
                self.compresses(),
                self.encrypts(),
                payload@,
            ),
            result is Ok ==> forall|stems: Seq<String>| #[trigger]
                holds_profile_of(stems, user_id) ==> parsed_identifiers(stems).contains(user_id),
    {
        match self.write_file(payload) {
            Ok(bytes) => {
                let file_name = profile_file_name(user_id);
                proof {
                    assert forall|stems: Seq<String>| #[trigger]
                        holds_profile_of(stems, user_id) implies parsed_identifiers(
                        stems,
                    ).contains(user_id) by {
                        lemma_saved_profile_is_listed(stems, user_id);
                    }
                }
                Ok(StoredFile { file_name, bytes })
            },
            Err(error) => Err(error),
        }
    }

    /// What loading a profile yields from the stored bytes of its file:
    /// nothing where the file is absent, else the serialized profile that
    /// the read pipeline recovers.
    pub fn load_profile(&self, stored: Option<&[u8]>) -> (result: Result<Option<Vec<u8>>, AegntError>)
        ensures
            result is Ok,
            stored is None ==> result->Ok_0 is None,
            stored is Some ==> result->Ok_0 is Some && result->Ok_0->Some_0@ == read_form(
                self.compresses(),
                self.encrypts(),
                stored->Some_0@,
            ),
    {
        match stored {
            None => Ok(None),
            Some(bytes) => match self.read_file(bytes) {
                Ok(payload) => Ok(Some(payload)),
                Err(error) => Err(error),
            },
        }
    }

    /// The users whose profiles are stored, from the stems of the file
    /// names in the profiles directory. Stems that are no identifiers are
    /// passed over.
    pub fn list_profiles(&self, file_stems: &Vec<String>) -> (users: Vec<u128>)
        ensures
            users@ == parsed_identifiers(file_stems@),
    {
        let mut users: Vec<u128> = Vec::new();
        let mut i: usize = 0;
        while i < file_stems.len()
            invariant
                i <= file_stems.len(),
                users@ == parsed_identifiers(file_stems@.take(i as int)),
            decreases file_stems.len() - i,
        {
            proof {
                assert(file_stems@.take(i + 1).drop_last() =~= file_stems@.take(i as int));
            }
            match parse_identifier(file_stems[i].as_str()) {
                Some(id) => {
                    users.push(id);
                },
                None => {},
            }
            i += 1;
        }
        proof {
            assert(file_stems@.take(i as int) =~= file_stems@);
        }
        users
    }

    /// What saving the configuration writes: the configuration file, with
    /// the serialized configuration passed through the write pipeline.
    pub fn save_config(&self, payload: &[u8]) -> (result: Result<StoredFile, AegntError>)
        ensures
            payload@.len() > self.spec_config().max_file_size ==> result is Err
                && result->Err_0.spec_kind() == ErrorKind::Storage && result->Err_0.detail()
                == size_limit_message(payload@.len(), self.spec_config().max_file_size as nat),
            payload@.len() <= self.spec_config().max_file_size ==> result is Ok
                && result->Ok_0.file_name@ == "config.json"@ && result->Ok_0.bytes@
                == written_form(self.compresses(), self.encrypts(), payload@),
    {
        match self.write_file(payload) {
            Ok(bytes) => Ok(StoredFile { file_name: String::from_str(config_file_name()), bytes }),
            Err(error) => Err(error),
        }
    }

    /// What loading the configuration yields from the stored bytes of its
    /// file: nothing where the file is absent, else the serialized
    /// configuration that the read pipeline recovers.
    pub fn load_config(&self, stored: Option<&[u8]>) -> (result: Result<Option<Vec<u8>>, AegntError>)
        ensures
            result is Ok,
            stored is None ==> result->Ok_0 is None,
            stored is Some ==> result->Ok_0 is Some && result->Ok_0->Some_0@ == read_form(
                self.compresses(),
                self.encrypts(),
                stored->Some_0@,
            ),
    {
        self.load_profile(stored)
    }

    /// The name of the backup to create at the given instant. Fails where
    /// backups are disabled.
    pub fn create_backup_at(&self, at: &CivilTime) -> (result: Result<String, AegntError>)
        ensures
            !self.spec_config().enable_backups ==> result is Err && result->Err_0.spec_kind()
                == ErrorKind::Storage && result->Err_0.detail() == "Backups are disabled"@,
            self.spec_config().enable_backups ==> result is Ok && result->Ok_0@
                == backup_file_name_spec(*at),
    {
        if !self.config.enable_backups {
            return Err(AegntError::storage("Backups are disabled"));
        }
        Ok(backup_file_name(at))
    }

    /// The name of the backup to create now. Fails where backups are
    /// disabled.
    pub fn create_backup(&self) -> (result: Result<String, AegntError>)
        ensures
            !self.spec_config().enable_backups ==> result is Err && result->Err_0.spec_kind()
                == ErrorKind::Storage && result->Err_0.detail() == "Backups are disabled"@,
            self.spec_config().enable_backups ==> result is Ok && exists|at: CivilTime|
                at.in_range() && result->Ok_0@ == #[trigger] backup_file_name_spec(at),
    {
        if !self.config.enable_backups {
            return Err(AegntError::storage("Backups are disabled"));
        }
        let now: CivilTime = utc_now_civil();
        self.create_backup_at(&now)
    }

    /// Whether a backup can be restored: fails where the backup file does
    /// not exist.
    pub fn restore_backup(&self, backup_exists: bool) -> (result: Result<(), AegntError>)
        ensures
            backup_exists ==> result is Ok,
            !backup_exists ==> result is Err && result->Err_0.spec_kind() == ErrorKind::Storage
                && result->Err_0.detail() == "Backup file not found"@,
    {
        if !backup_exists {
            return Err(AegntError::storage("Backup file not found"));
        }
        Ok(())
    }

    /// The entries of the backups directory to delete at the instant
    /// `now`: those created before the retention period began. Entries
    /// without a creation time are kept.
    pub fn clean_old_backups(&self, entries: &Vec<BackupEntry>, now: i64) -> (doomed: Vec<String>)
        ensures
            name_views(doomed@) == expired_names(
                entries@,
                now,
                self.spec_config().backup_retention_days,
            ),
    {
        let retention: i128 = (self.config.backup_retention_days as i128) * (MILLIS_PER_DAY as i128);
        let cutoff: i128 = (now as i128) - retention;
        let ghost days = self.spec_config().backup_retention_days;
        let mut doomed: Vec<String> = Vec::new();
        let mut i: usize = 0;
        while i < entries.len()
            invariant
                i <= entries.len(),
                cutoff == now - days * MILLIS_PER_DAY,
                name_views(doomed@) == expired_names(entries@.take(i as int), now, days),
            decreases entries.len() - i,
        {
            proof {
                assert(entries@.take(i + 1).drop_last() =~= entries@.take(i as int));
            }
            let ghost before = doomed@;
            let expired: bool = match entries[i].created {
                Some(at) => (at as i128) < cutoff,
                None => false,
            };
            if expired {
                doomed.push(entries[i].name.clone());
                assert(name_views(doomed@) =~= name_views(before).push(entries@[i as int].name@));
            }
            i += 1;
        }
        proof {
            assert(entries@.take(i as int) =~= entries@);
        }
        doomed
    }

    /// Assemble the storage statistics from the sizes of the files under
    /// each directory and the stems of the profile file names.
    pub fn get_storage_stats(
        &self,
        all_files: &Vec<u64>,
        profile_stems: &Vec<String>,
        profile_files: &Vec<u64>,
        cache_files: &Vec<u64>,
        log_files: &Vec<u64>,
        backup_files: &Vec<u64>,
    ) -> (stats: StorageStats)
        requires
            size_sum(all_files@) <= u64::MAX,
            size_sum(profile_files@) <= u64::MAX,
            size_sum(cache_files@) <= u64::MAX,
            size_sum(log_files@) <= u64::MAX,
            size_sum(backup_files@) <= u64::MAX,
        ensures
            stats.total_size == size_sum(all_files@),
            stats.profiles_count == parsed_identifiers(profile_stems@).len(),
            stats.profiles_size == size_sum(profile_files@),
            stats.cache_size == size_sum(cache_files@),
            stats.logs_size == size_sum(log_files@),
            stats.backups_size == size_sum(backup_files@),
    {
        StorageStats {
            total_size: calculate_directory_size(all_files),
            profiles_count: self.list_profiles(profile_stems).len() as u64,
            profiles_size: calculate_directory_size(profile_files),
            cache_size: calculate_directory_size(cache_files),
            logs_size: calculate_directory_size(log_files),
            backups_size: calculate_directory_size(backup_files),
        }
    }
}

} // verus!
