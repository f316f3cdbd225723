//! Settings of the cold tier.

use vstd::prelude::*;
use crate::duration::Duration;
use crate::env;
use crate::env::EnvVars;
use crate::text;
use crate::text::{same_text, to_ascii_lowercase};

verus! {

/// Size of the cold-read cache where none is given: 256 MiB.
pub const DEFAULT_COLD_CACHE_BYTES: usize = 268_435_456;

/// Block size of the cold-read cache where none is given: 1 MiB.
pub const DEFAULT_COLD_CACHE_BLOCK_BYTES: usize = 1_048_576;

/// How many blocks are read ahead where no number is given.
pub const DEFAULT_COLD_CACHE_READAHEAD_BLOCKS: usize = 4;

/// Milliseconds that one storage operation may take where none are given.
pub const DEFAULT_S3_OP_TIMEOUT_MS: u64 = 10_000;

/// How often a storage operation is retried where no number is given.
pub const DEFAULT_S3_MAX_RETRIES: usize = 3;

/// Which store holds the cold objects.
#[derive(Debug, Clone, Copy, PartialEq, Eq, Structural)]
pub enum ColdStorageBackend {
    Disabled,
    Memory,
    S3,
}

/// The store that a lower-case name selects.
pub open spec fn named_backend(name: Seq<char>) -> Option<ColdStorageBackend> {
    if name == "none"@ || name == "disabled"@ || name == "off"@ {
        Some(ColdStorageBackend::Disabled)
    } else if name == "memory"@ || name == "mem"@ || name == "inmem"@ {
        Some(ColdStorageBackend::Memory)
    } else if name == "s3"@ {
        Some(ColdStorageBackend::S3)
    } else {
        None
    }
}

/// The store that a lower-case name selects, if it is a known name.
pub fn parse_backend(name: &str) -> (r: Option<ColdStorageBackend>)
    ensures
        r == named_backend(name@),
        r == Some(ColdStorageBackend::S3) <==> name@ == "s3"@,
        r == Some(ColdStorageBackend::Memory) <==> name@ == "memory"@ || name@ == "mem"@ || name@
            == "inmem"@,
        r == Some(ColdStorageBackend::Disabled) <==> name@ == "none"@ || name@ == "disabled"@
            || name@ == "off"@,
{
    proof {
        reveal_strlit("s3");
        reveal_strlit("memory");
        reveal_strlit("mem");
        reveal_strlit("inmem");
        reveal_strlit("none");
        reveal_strlit("disabled");
        reveal_strlit("off");
        assert("mem"@[0] != "off"@[0]);
        assert("memory"@.len() == 6 && "mem"@.len() == 3 && "inmem"@.len() == 5);
        assert("none"@.len() == 4 && "disabled"@.len() == 8 && "off"@.len() == 3);
        assert("s3"@.len() == 2);
    }
    if same_text(name, "none") || same_text(name, "disabled") || same_text(name, "off") {
        Some(ColdStorageBackend::Disabled)
    } else if same_text(name, "memory") || same_text(name, "mem") || same_text(name, "inmem") {
        Some(ColdStorageBackend::Memory)
    } else if same_text(name, "s3") {
        Some(ColdStorageBackend::S3)
    } else {
        None
    }
}

/// The lower-case name of the store that the settings ask for.
pub open spec fn backend_name(vars: Map<Seq<char>, Seq<char>>) -> Seq<char> {
    match env::value_of(vars, "URSULA_COLD_BACKEND"@) {
        Some(name) => name.map_values(|c: char| text::ascii_lower(c)),
        None => "none"@.map_values(|c: char| text::ascii_lower(c)),
    }
}

/// Settings of the cold tier as a whole.
#[derive(Debug)]
pub struct ColdConfig {
    pub storage: ColdStorageConfig,
    pub cache: Option<ColdCacheConfig>,
    pub worker: ColdWorkerConfig,
}

/// Settings of the object store.
#[derive(Debug)]
pub struct ColdStorageConfig {
    pub backend: ColdStorageBackend,
    pub s3_bucket: Option<String>,
    pub s3_root: Option<String>,
    pub s3_region: Option<String>,
    pub s3_endpoint: Option<String>,
    pub s3_access_key_id: Option<String>,
    pub s3_secret_access_key: Option<String>,
    pub s3_session_token: Option<String>,
    pub s3_timeout: Duration,
    pub s3_max_retries: usize,
}

/// Settings of the cold-read cache.
#[derive(Debug, Clone, Copy, PartialEq, Eq, Structural)]
pub struct ColdCacheConfig {
    pub max_bytes: usize,
    pub block_bytes: usize,
    pub max_readahead_blocks: usize,
}

/// Settings of the workers that flush to and collect from the cold tier.
#[derive(Debug, Clone, Copy, PartialEq, Eq, Structural)]
pub struct ColdWorkerConfig {
    pub flush_interval_ms: usize,
    pub flush_min_hot_bytes: usize,
    pub flush_max_bytes: usize,
    pub flush_max_concurrency: usize,
    pub gc_interval_ms: usize,
    pub gc_max_entries: usize,
}

impl Default for ColdStorageConfig {
    fn default() -> (r: Self)
        ensures
            r.backend == ColdStorageBackend::Disabled,
            r.s3_bucket is None,
            r.s3_root is None,
            r.s3_region is None,
            r.s3_endpoint is None,
            r.s3_access_key_id is None,
            r.s3_secret_access_key is None,
            r.s3_session_token is None,
            r.s3_timeout.wf(),
            r.s3_timeout.total_nanos() == DEFAULT_S3_OP_TIMEOUT_MS * 1_000_000,
            r.s3_max_retries == DEFAULT_S3_MAX_RETRIES,
    {
        ColdStorageConfig {
            backend: ColdStorageBackend::Disabled,
            s3_bucket: None,
            s3_root: None,
            s3_region: None,
            s3_endpoint: None,
            s3_access_key_id: None,
            s3_secret_access_key: None,
            s3_session_token: None,
            s3_timeout: Duration::from_millis(DEFAULT_S3_OP_TIMEOUT_MS),
            s3_max_retries: DEFAULT_S3_MAX_RETRIES,
        }
    }
}

impl Default for ColdWorkerConfig {
    fn default() -> (r: Self)
        ensures
            r == (ColdWorkerConfig {
                flush_interval_ms: 1_000,
                flush_min_hot_bytes: 8_388_608,
                flush_max_bytes: 8_388_608,
                flush_max_concurrency: 4,
                gc_interval_ms: 5_000,
                gc_max_entries: 256,
            }),
    {
        ColdWorkerConfig {
            flush_interval_ms: 1_000,
            flush_min_hot_bytes: 8_388_608,
            flush_max_bytes: 8_388_608,
            flush_max_concurrency: 4,
            gc_interval_ms: 5_000,
            gc_max_entries: 256,
        }
    }
}

/// Whether storage settings are the ones that the variables give.
pub open spec fn storage_from(
    storage: ColdStorageConfig,
    vars: Map<Seq<char>, Seq<char>>,
) -> bool {
    &&& storage.backend == match named_backend(backend_name(vars)) {
        Some(backend) => backend,
        None => ColdStorageBackend::Disabled,
    }
    &&& env::optional_text(storage.s3_bucket) == env::value_of(vars, "URSULA_COLD_S3_BUCKET"@)
    &&& env::optional_text(storage.s3_root) == env::value_of(vars, "URSULA_COLD_ROOT"@)
    &&& env::optional_text(storage.s3_region) == env::value_of(vars, "URSULA_COLD_S3_REGION"@)
    &&& env::optional_text(storage.s3_endpoint) == env::value_of(vars, "URSULA_COLD_S3_ENDPOINT"@)
    &&& env::optional_text(storage.s3_access_key_id) == env::value_of(
        vars,
        "URSULA_COLD_S3_ACCESS_KEY_ID"@,
    )
    &&& env::optional_text(storage.s3_secret_access_key) == env::value_of(
        vars,
        "URSULA_COLD_S3_SECRET_ACCESS_KEY"@,
    )
    &&& env::optional_text(storage.s3_session_token) == env::value_of(
        vars,
        "URSULA_COLD_S3_SESSION_TOKEN"@,
    )
    &&& storage.s3_timeout.wf()
    &&& storage.s3_timeout.total_nanos() == 1_000_000 * (match env::number_of(
        vars,
        "URSULA_S3_TIMEOUT_MS"@,
    ) {
        Some(millis) => millis as int,
        None => DEFAULT_S3_OP_TIMEOUT_MS as int,
    })
    &&& storage.s3_max_retries == env::number_or(
        vars,
        "URSULA_S3_MAX_RETRIES"@,
        DEFAULT_S3_MAX_RETRIES,
    )
}

/// The cache settings that the variables give: none where the size is unset or
/// zero.
pub open spec fn cache_from(vars: Map<Seq<char>, Seq<char>>) -> Option<ColdCacheConfig> {
    let max_bytes = env::number_or(vars, "URSULA_COLD_CACHE_BYTES"@, DEFAULT_COLD_CACHE_BYTES);
    if env::value_of(vars, "URSULA_COLD_CACHE_BYTES"@) is None || max_bytes == 0 {
        None
    } else {
        Some(
            ColdCacheConfig {
                max_bytes: max_bytes as usize,
                block_bytes: env::number_or(
                    vars,
                    "URSULA_COLD_CACHE_BLOCK_BYTES"@,
                    DEFAULT_COLD_CACHE_BLOCK_BYTES,
                ) as usize,
                max_readahead_blocks: env::number_or(
                    vars,
                    "URSULA_COLD_CACHE_READAHEAD_BLOCKS"@,
                    DEFAULT_COLD_CACHE_READAHEAD_BLOCKS,
                ) as usize,
            },
        )
    }
}

/// The worker settings that the variables give.
pub open spec fn worker_from(vars: Map<Seq<char>, Seq<char>>) -> ColdWorkerConfig {
    ColdWorkerConfig {
        flush_interval_ms: env::number_or(vars, "URSULA_COLD_FLUSH_INTERVAL_MS"@, 1_000) as usize,
        flush_min_hot_bytes: env::number_or(
            vars,
            "URSULA_COLD_FLUSH_MIN_HOT_BYTES"@,
            8_388_608,
        ) as usize,
        flush_max_bytes: env::number_or(vars, "URSULA_COLD_FLUSH_MAX_BYTES"@, 8_388_608) as usize,
        flush_max_concurrency: env::number_or(
            vars,
            "URSULA_COLD_FLUSH_MAX_CONCURRENCY"@,
            4,
        ) as usize,
        gc_interval_ms: env::number_or(vars, "URSULA_COLD_GC_INTERVAL_MS"@, 5_000) as usize,
        gc_max_entries: env::number_or(
            vars,
            "URSULA_COLD_GC_MAX_ENTRIES_PER_GROUP"@,
            256,
        ) as usize,
    }
}

impl ColdConfig {
    /// The settings that the variables give.
    pub fn from_env(vars: &EnvVars) -> (r: Self)
        requires
            vars.wf(),
        ensures
            storage_from(r.storage, vars@),
            r.cache == cache_from(vars@),
            r.worker == worker_from(vars@),
    {
        ColdConfig {
            storage: ColdStorageConfig::from_env(vars),
            cache: ColdCacheConfig::from_env(vars),
            worker: ColdWorkerConfig::from_env(vars),
        }
    }

    /// Whether there is a store for cold objects.
    pub fn is_enabled(&self) -> (r: bool)
        ensures
            r == (self.storage.backend != ColdStorageBackend::Disabled),
    {
        self.storage.backend != ColdStorageBackend::Disabled
    }
}

/// The lower-case name of the store that the variables ask for.
pub fn cold_backend_name(vars: &EnvVars) -> (r: String)
    requires
        vars.wf(),
    ensures
        r@ == backend_name(vars@),
{
    match vars.get("URSULA_COLD_BACKEND") {
        Some(name) => to_ascii_lowercase(name.as_str()),
        None => to_ascii_lowercase("none"),
    }
}

impl ColdStorageConfig {
    /// The settings that the variables give. An unknown store means none.
    pub fn from_env(vars: &EnvVars) -> (r: Self)
        requires
            vars.wf(),
        ensures
            storage_from(r, vars@),
    {
        let backend = match parse_backend(cold_backend_name(vars).as_str()) {
            Some(backend) => backend,
            None => ColdStorageBackend::Disabled,
        };
        let timeout_ms: u64 = match vars.env_optional_usize("URSULA_S3_TIMEOUT_MS") {
            Some(millis) => millis as u64,
            None => DEFAULT_S3_OP_TIMEOUT_MS,
        };
        ColdStorageConfig {
            backend,
            s3_bucket: vars.get("URSULA_COLD_S3_BUCKET"),
            s3_root: vars.get("URSULA_COLD_ROOT"),
            s3_region: vars.get("URSULA_COLD_S3_REGION"),
            s3_endpoint: vars.get("URSULA_COLD_S3_ENDPOINT"),
            s3_access_key_id: vars.get("URSULA_COLD_S3_ACCESS_KEY_ID"),
            s3_secret_access_key: vars.get("URSULA_COLD_S3_SECRET_ACCESS_KEY"),
            s3_session_token: vars.get("URSULA_COLD_S3_SESSION_TOKEN"),
            s3_timeout: Duration::from_millis(timeout_ms),
            s3_max_retries: vars.env_usize("URSULA_S3_MAX_RETRIES", DEFAULT_S3_MAX_RETRIES),
        }
    }
}

impl ColdCacheConfig {
    /// The settings that the variables give; none where the size is unset or
    /// zero.
    pub fn from_env(vars: &EnvVars) -> (r: Option<Self>)
        requires
            vars.wf(),
        ensures
            r == cache_from(vars@),
    {
        if vars.get("URSULA_COLD_CACHE_BYTES").is_none() {
            return None;
        }
        let max_bytes: usize = vars.env_usize("URSULA_COLD_CACHE_BYTES", DEFAULT_COLD_CACHE_BYTES);
        if max_bytes == 0 {
            return None;
        }
        Some(
            ColdCacheConfig {
                max_bytes,
                block_bytes: vars.env_usize(
                    "URSULA_COLD_CACHE_BLOCK_BYTES",
                    DEFAULT_COLD_CACHE_BLOCK_BYTES,
                ),
                max_readahead_blocks: vars.env_usize(
                    "URSULA_COLD_CACHE_READAHEAD_BLOCKS",
                    DEFAULT_COLD_CACHE_READAHEAD_BLOCKS,
                ),
            },
        )
    }
}

impl ColdWorkerConfig {
    /// The settings that the variables give.
    pub fn from_env(vars: &EnvVars) -> (r: Self)
        requires
            vars.wf(),
        ensures
            r == worker_from(vars@),
    {
        ColdWorkerConfig {
            flush_interval_ms: vars.env_usize("URSULA_COLD_FLUSH_INTERVAL_MS", 1_000),
            flush_min_hot_bytes: vars.env_usize("URSULA_COLD_FLUSH_MIN_HOT_BYTES", 8_388_608),
            flush_max_bytes: vars.env_usize("URSULA_COLD_FLUSH_MAX_BYTES", 8_388_608),
            flush_max_concurrency: vars.env_usize("URSULA_COLD_FLUSH_MAX_CONCURRENCY", 4),
            gc_interval_ms: vars.env_usize("URSULA_COLD_GC_INTERVAL_MS", 5_000),
            gc_max_entries: vars.env_usize("URSULA_COLD_GC_MAX_ENTRIES_PER_GROUP", 256),
        }
    }
}

/// Without settings there is no store, no cache, and the workers run by their
/// defaults.
pub proof fn law_defaults(vars: Map<Seq<char>, Seq<char>>, storage: ColdStorageConfig)
    requires
        vars == Map::<Seq<char>, Seq<char>>::empty(),
        storage_from(storage, vars),
    ensures
        storage.backend == ColdStorageBackend::Disabled,
        cache_from(vars) is None,
        worker_from(vars).flush_interval_ms == 1_000,
        worker_from(vars).flush_max_concurrency == 4,
        worker_from(vars).gc_interval_ms == 5_000,
        worker_from(vars).gc_max_entries == 256,
{
    reveal_strlit("none");
    let lower = "none"@.map_values(|c: char| text::ascii_lower(c));
    assert(lower =~= "none"@);
}

/// A worker is set by the variable that bears its name: a number there is the setting.
pub proof fn law_worker_settings_are_read(vars: Map<Seq<char>, Seq<char>>, value: nat)
    requires
        value <= usize::MAX,
    ensures
        worker_from(
            vars.insert("URSULA_COLD_FLUSH_INTERVAL_MS"@, text::decimal(value)),
        ).flush_interval_ms == value,
        worker_from(
            vars.insert("URSULA_COLD_FLUSH_MIN_HOT_BYTES"@, text::decimal(value)),
        ).flush_min_hot_bytes == value,
        worker_from(
            vars.insert("URSULA_COLD_FLUSH_MAX_BYTES"@, text::decimal(value)),
        ).flush_max_bytes == value,
        worker_from(
            vars.insert("URSULA_COLD_FLUSH_MAX_CONCURRENCY"@, text::decimal(value)),
        ).flush_max_concurrency == value,
        worker_from(
            vars.insert("URSULA_COLD_GC_INTERVAL_MS"@, text::decimal(value)),
        ).gc_interval_ms == value,
        worker_from(
            vars.insert("URSULA_COLD_GC_MAX_ENTRIES_PER_GROUP"@, text::decimal(value)),
        ).gc_max_entries == value,
{
    text::law_written_number_is_read_back(value, usize::MAX as nat);
}

/// The cache has the size that its variable gives, and none without one; its blocks and
/// what is read ahead are set by variables of their own.
pub proof fn law_cache_settings_are_read(
    vars: Map<Seq<char>, Seq<char>>,
    size: nat,
    block: nat,
    ahead: nat,
)
    requires
        size <= usize::MAX,
        block <= usize::MAX,
        ahead <= usize::MAX,
        vars == Map::<Seq<char>, Seq<char>>::empty().insert(
            "URSULA_COLD_CACHE_BYTES"@,
            text::decimal(size),
        ).insert("URSULA_COLD_CACHE_BLOCK_BYTES"@, text::decimal(block)).insert(
            "URSULA_COLD_CACHE_READAHEAD_BLOCKS"@,
            text::decimal(ahead),
        ),
    ensures
        size == 0 ==> cache_from(vars) is None,
        size > 0 ==> (cache_from(vars) matches Some(cache) && cache.max_bytes == size
            && cache.block_bytes == block && cache.max_readahead_blocks == ahead),
{
    reveal_strlit("URSULA_COLD_CACHE_BYTES");
    reveal_strlit("URSULA_COLD_CACHE_BLOCK_BYTES");
    reveal_strlit("URSULA_COLD_CACHE_READAHEAD_BLOCKS");
    assert("URSULA_COLD_CACHE_BYTES"@.len() == 23);
    assert("URSULA_COLD_CACHE_BLOCK_BYTES"@.len() == 29);
    assert("URSULA_COLD_CACHE_READAHEAD_BLOCKS"@.len() == 34);
    text::law_written_number_is_read_back(size, usize::MAX as nat);
    text::law_written_number_is_read_back(block, usize::MAX as nat);
    text::law_written_number_is_read_back(ahead, usize::MAX as nat);
}

/// Each part of the storage settings is what its own variable holds, and is absent where
/// the variable is.
pub proof fn law_storage_settings_are_read(
    vars: Map<Seq<char>, Seq<char>>,
    storage: ColdStorageConfig,
)
    requires
        storage_from(storage, vars),
    ensures
        match storage.s3_bucket {
            Some(text) => vars.contains_key("URSULA_COLD_S3_BUCKET"@) && text@ == vars["URSULA_COLD_S3_BUCKET"@],
            None => !vars.contains_key("URSULA_COLD_S3_BUCKET"@),
        },
        match storage.s3_root {
            Some(text) => vars.contains_key("URSULA_COLD_ROOT"@) && text@ == vars["URSULA_COLD_ROOT"@],
            None => !vars.contains_key("URSULA_COLD_ROOT"@),
        },
        match storage.s3_region {
            Some(text) => vars.contains_key("URSULA_COLD_S3_REGION"@) && text@ == vars["URSULA_COLD_S3_REGION"@],
            None => !vars.contains_key("URSULA_COLD_S3_REGION"@),
        },
        match storage.s3_endpoint {
            Some(text) => vars.contains_key("URSULA_COLD_S3_ENDPOINT"@) && text@ == vars["URSULA_COLD_S3_ENDPOINT"@],
            None => !vars.contains_key("URSULA_COLD_S3_ENDPOINT"@),
        },
        match storage.s3_access_key_id {
            Some(text) => vars.contains_key("URSULA_COLD_S3_ACCESS_KEY_ID"@) && text@ == vars["URSULA_COLD_S3_ACCESS_KEY_ID"@],
            None => !vars.contains_key("URSULA_COLD_S3_ACCESS_KEY_ID"@),
        },
        match storage.s3_secret_access_key {
            Some(text) => vars.contains_key("URSULA_COLD_S3_SECRET_ACCESS_KEY"@) && text@ == vars["URSULA_COLD_S3_SECRET_ACCESS_KEY"@],
            None => !vars.contains_key("URSULA_COLD_S3_SECRET_ACCESS_KEY"@),
        },
        match storage.s3_session_token {
            Some(text) => vars.contains_key("URSULA_COLD_S3_SESSION_TOKEN"@) && text@ == vars["URSULA_COLD_S3_SESSION_TOKEN"@],
            None => !vars.contains_key("URSULA_COLD_S3_SESSION_TOKEN"@),
        },
{
}

} // verus!
