//! The settings of the replicator and of the clients of the object store.
use std::sync::Arc;
use vstd::prelude::*;

verus! {

/// How the replicated data is compressed.
#[derive(Debug, Clone, Copy, PartialEq, Eq, Structural)]
pub enum CompressionKind {
    /// Not at all.
    Uncompressed,
    /// With gzip.
    Gzip,
    /// With Zstandard.
    Zstd,
}

/// How data is encrypted.
#[derive(Debug, PartialEq, Eq)]
pub struct EncryptionConfig {
    /// The name of the cipher.
    pub cipher: String,
    /// The key, which all copies share.
    pub encryption_key: Arc<Vec<u8>>,
}

impl Clone for EncryptionConfig {
    /// The same settings.
    fn clone(&self) -> (config: Self)
        ensures
            config == *self,
    {
        EncryptionConfig {
            cipher: self.cipher.clone(),
            encryption_key: self.encryption_key.clone(),
        }
    }
}

/// The region of the mock object store.
pub const REGION: &'static str = "us-east-1";

/// The access key of the mock object store.
pub const ACCESS_KEY: &'static str = "bar";

/// The secret key of the mock object store.
pub const SECRET_KEY: &'static str = "foo";

/// The access key and the secret key of a client whose requests never get an answer.
pub const PROBE_KEY: &'static str = "test";

/// The bucket that such a client asks for.
pub const PROBE_BUCKET: &'static str = "test-bucket";

/// How patient a client of the object store is.
#[derive(Debug, Clone, Copy, PartialEq, Eq, Structural)]
pub struct Patience {
    /// How often a request is tried again.
    pub max_retries: u32,
    /// How long to wait for an answer, in seconds.
    pub read_timeout_secs: u64,
    /// How long to wait for a connection, in seconds.
    pub connect_timeout_secs: u64,
}

/// The settings of the replicator.
#[derive(Debug, PartialEq, Eq)]
pub struct Options {
    /// The name under which the database is stored.
    pub db_id: Option<String>,
    /// Whether to create the bucket if it is not there.
    pub create_bucket_if_not_exists: bool,
    /// Whether to verify the checksums of the frames.
    pub verify_crc: bool,
    /// How the data is compressed.
    pub use_compression: CompressionKind,
    /// How the data is encrypted, if it is.
    pub encryption_config: Option<EncryptionConfig>,
    /// The address of the object store.
    pub aws_endpoint: Option<String>,
    /// The access key of the object store.
    pub access_key_id: Option<String>,
    /// The secret key of the object store.
    pub secret_access_key: Option<String>,
    /// The session token of the object store.
    pub session_token: Option<String>,
    /// The region of the object store.
    pub region: Option<String>,
    /// The bucket that holds the data.
    pub bucket_name: String,
    /// How many frames are sent together at most.
    pub max_frames_per_batch: usize,
    /// How long frames are held back to be sent together, in milliseconds.
    pub max_batch_interval_millis: u64,
    /// How many requests run at the same time.
    pub s3_max_parallelism: usize,
    /// How often a request is tried again.
    pub s3_max_retries: u32,
    /// How long to wait for an answer, in seconds.
    pub s3_read_timeout_secs: u64,
    /// How long to wait for a connection, in seconds.
    pub s3_connect_timeout_secs: u64,
    /// Whether to leave out snapshots.
    pub skip_snapshot: bool,
    /// Whether to leave out what was not sent yet when the server shuts down.
    pub skip_shutdown_upload: bool,
}

/// A copy of an optional text.
fn clone_text(text: &Option<String>) -> (r: Option<String>)
    ensures
        r == *text,
{
    match text {
        Some(s) => Some(s.clone()),
        None => None,
    }
}

impl Clone for Options {
    /// The same settings.
    fn clone(&self) -> (options: Self)
        ensures
            options == *self,
    {
        Options {
            db_id: clone_text(&self.db_id),
            create_bucket_if_not_exists: self.create_bucket_if_not_exists,
            verify_crc: self.verify_crc,
            use_compression: self.use_compression,
            encryption_config: match &self.encryption_config {
                Some(config) => Some(config.clone()),
                None => None,
            },
            aws_endpoint: clone_text(&self.aws_endpoint),
            access_key_id: clone_text(&self.access_key_id),
            secret_access_key: clone_text(&self.secret_access_key),
            session_token: clone_text(&self.session_token),
            region: clone_text(&self.region),
            bucket_name: self.bucket_name.clone(),
            max_frames_per_batch: self.max_frames_per_batch,
            max_batch_interval_millis: self.max_batch_interval_millis,
            s3_max_parallelism: self.s3_max_parallelism,
            s3_max_retries: self.s3_max_retries,
            s3_read_timeout_secs: self.s3_read_timeout_secs,
            s3_connect_timeout_secs: self.s3_connect_timeout_secs,
            skip_snapshot: self.skip_snapshot,
            skip_shutdown_upload: self.skip_shutdown_upload,
        }
    }
}

/// Whether `text` holds `s`.
pub open spec fn holds(text: Option<String>, s: Seq<char>) -> bool {
    text matches Some(t) && t@ == s
}

impl Options {
    /// The settings that are the same in every test.
    pub open spec fn has_common_settings(self) -> bool {
        &&& self.create_bucket_if_not_exists
        &&& self.verify_crc
        &&& self.use_compression == CompressionKind::Gzip
        &&& self.encryption_config is None
        &&& self.session_token is None
        &&& holds(self.region, REGION@)
        &&& self.max_frames_per_batch == 10000
        &&& self.max_batch_interval_millis == 250
        &&& self.s3_max_parallelism == 32
        &&& !self.skip_snapshot
    }

    /// The patience that the settings ask of the client of the object store.
    pub open spec fn patience(self) -> Patience {
        Patience {
            max_retries: self.s3_max_retries,
            read_timeout_secs: self.s3_read_timeout_secs,
            connect_timeout_secs: self.s3_connect_timeout_secs,
        }
    }

    /// Settings with the given database, keys and bucket at the object store `endpoint`.
    fn with(
        db_id: Option<String>,
        endpoint: &str,
        access_key: &str,
        secret_key: &str,
        bucket: &str,
        patience: Patience,
    ) -> (options: Self)
        ensures
            options.has_common_settings(),
            options.db_id == db_id,
            holds(options.aws_endpoint, endpoint@),
            holds(options.access_key_id, access_key@),
            holds(options.secret_access_key, secret_key@),
            options.bucket_name@ == bucket@,
            options.patience() == patience,
            !options.skip_shutdown_upload,
    {
        Options {
            db_id,
            create_bucket_if_not_exists: true,
            verify_crc: true,
            use_compression: CompressionKind::Gzip,
            encryption_config: None,
            aws_endpoint: Some(endpoint.to_owned()),
            access_key_id: Some(access_key.to_owned()),
            secret_access_key: Some(secret_key.to_owned()),
            session_token: None,
            region: Some(REGION.to_owned()),
            bucket_name: bucket.to_owned(),
            max_frames_per_batch: 10000,
            max_batch_interval_millis: 250,
            s3_max_parallelism: 32,
            s3_max_retries: patience.max_retries,
            s3_read_timeout_secs: patience.read_timeout_secs,
            s3_connect_timeout_secs: patience.connect_timeout_secs,
            skip_snapshot: false,
            skip_shutdown_upload: false,
        }
    }

    /// The settings for a database that is backed up to the mock object store.
    pub fn for_backup(db_id: &str, bucket: &str, endpoint: &str, patience: Patience) -> (options:
        Self)
        ensures
            options.has_common_settings(),
            holds(options.db_id, db_id@),
            holds(options.aws_endpoint, endpoint@),
            holds(options.access_key_id, ACCESS_KEY@),
            holds(options.secret_access_key, SECRET_KEY@),
            options.bucket_name@ == bucket@,
            options.patience() == patience,
            !options.skip_shutdown_upload,
    {
        Options::with(Some(db_id.to_owned()), endpoint, ACCESS_KEY, SECRET_KEY, bucket, patience)
    }

    /// The same settings, but what was not sent when the server shuts down stays unsent.
    pub fn without_shutdown_upload(self) -> (options: Self)
        ensures
            options == (Options { skip_shutdown_upload: true, ..self }),
    {
        Options { skip_shutdown_upload: true, ..self }
    }

    /// The settings of a client whose requests to `endpoint` never get an answer.
    pub fn for_probe(endpoint: &str, patience: Patience) -> (options: Self)
        ensures
            options.has_common_settings(),
            options.db_id is None,
            holds(options.aws_endpoint, endpoint@),
            holds(options.access_key_id, PROBE_KEY@),
            holds(options.secret_access_key, PROBE_KEY@),
            options.bucket_name@ == PROBE_BUCKET@,
            options.patience() == patience,
            !options.skip_shutdown_upload,
    {
        Options::with(None, endpoint, PROBE_KEY, PROBE_KEY, PROBE_BUCKET, patience)
    }
}

/// What settings hold is whole: a text that is there is the text itself, and the patience that
/// they ask for is what they say of retries and of both timeouts.
pub proof fn law_settings_are_whole(options: Options, text: Option<String>, s: Seq<char>)
    ensures
        holds(text, s) <==> text is Some && text->0@ == s,
        options.patience().max_retries == options.s3_max_retries,
        options.patience().read_timeout_secs == options.s3_read_timeout_secs,
        options.patience().connect_timeout_secs == options.s3_connect_timeout_secs,
{
}

/// How to reach the mock object store with a client of one's own.
#[derive(Debug, PartialEq, Eq)]
pub struct StoreSettings {
    /// The address of the store.
    pub endpoint: String,
    /// Whether the bucket is part of the path, and not of the host name.
    pub force_path_style: bool,
    /// The region of the store.
    pub region: String,
    /// The access key.
    pub access_key_id: String,
    /// The secret key.
    pub secret_access_key: String,
    /// The session token.
    pub session_token: Option<String>,
    /// Where the keys come from.
    pub provider: &'static str,
}

/// The settings of a client of the mock object store at `endpoint`.
pub fn s3_settings(endpoint: &str) -> (settings: StoreSettings)
    ensures
        settings.endpoint@ == endpoint@,
        settings.force_path_style,
        settings.region@ == REGION@,
        settings.access_key_id@ == ACCESS_KEY@,
        settings.secret_access_key@ == SECRET_KEY@,
        settings.session_token is None,
        settings.provider@ == "Static"@,
{
    StoreSettings {
        endpoint: endpoint.to_owned(),
        force_path_style: true,
        region: REGION.to_owned(),
        access_key_id: ACCESS_KEY.to_owned(),
        secret_access_key: SECRET_KEY.to_owned(),
        session_token: None,
        provider: "Static",
    }
}

} // verus!
