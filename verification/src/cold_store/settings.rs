//! Which store the environment selects, and how to reach it.

use vstd::prelude::*;
use crate::cold_config;
use crate::cold_config::{
    cold_backend_name, parse_backend, ColdStorageBackend, DEFAULT_S3_MAX_RETRIES,
    DEFAULT_S3_OP_TIMEOUT_MS,
};
use crate::cold_store::{ColdStoreError, ColdStoreInfo};
use crate::env;
use crate::env::EnvVars;
use crate::text;
use crate::text::{is_blank, parse_u64};

verus! {

/// The store that a lower-case name selects.
pub fn from_backend(name: &str) -> (r: Result<ColdStorageBackend, ColdStoreError>)
    ensures
        match cold_config::named_backend(name@) {
            Some(backend) => r == Ok::<ColdStorageBackend, ColdStoreError>(backend),
            None => r is Err && (r->Err_0 matches ColdStoreError::UnsupportedBackend { name: refused }
                && refused@ == name@),
        },
{
    match parse_backend(name) {
        Some(backend) => Ok(backend),
        None => Err(ColdStoreError::UnsupportedBackend { name: name.to_owned() }),
    }
}

/// The store that the environment selects.
pub fn backend_from_env(vars: &EnvVars) -> (r: Result<ColdStorageBackend, ColdStoreError>)
    requires
        vars.wf(),
    ensures
        match cold_config::named_backend(cold_config::backend_name(vars@)) {
            Some(backend) => r == Ok::<ColdStorageBackend, ColdStoreError>(backend),
            None => r is Err && (r->Err_0 matches ColdStoreError::UnsupportedBackend { name }
                && name@ == cold_config::backend_name(vars@)),
        },
{
    from_backend(cold_backend_name(vars).as_str())
}

/// The value of a variable, unless it is blank.
pub open spec fn filled(vars: Map<Seq<char>, Seq<char>>, name: Seq<char>) -> Option<Seq<char>> {
    match env::value_of(vars, name) {
        Some(value) => if text::is_blank_text(value) {
            None
        } else {
            Some(value)
        },
        None => None,
    }
}

fn get_filled(vars: &EnvVars, name: &str) -> (r: Option<String>)
    requires
        vars.wf(),
    ensures
        env::optional_text(r) == filled(vars@, name@),
{
    match vars.get(name) {
        Some(value) => if is_blank(value.as_str()) {
            None
        } else {
            Some(value)
        },
        None => None,
    }
}

/// How to reach an S3 store.
#[derive(Debug)]
pub struct S3Settings {
    pub bucket: String,
    pub root: Option<String>,
    pub region: Option<String>,
    pub endpoint: Option<String>,
    pub access_key_id: Option<String>,
    pub secret_access_key: Option<String>,
    pub session_token: Option<String>,
}

/// The root of the store: an override wins over the environment even where it
/// is blank, and a blank root is none.
pub open spec fn chosen_root(
    vars: Map<Seq<char>, Seq<char>>,
    root_override: Option<Seq<char>>,
) -> Option<Seq<char>> {
    match root_override {
        Some(root) => if text::is_blank_text(root) {
            None
        } else {
            Some(root)
        },
        None => filled(vars, "URSULA_COLD_ROOT"@),
    }
}

/// How the environment says to reach an S3 store.
pub fn s3_from_env_with_root(vars: &EnvVars, root_override: Option<&str>) -> (r: Result<
    S3Settings,
    ColdStoreError,
>)
    requires
        vars.wf(),
    ensures
        match env::value_of(vars@, "URSULA_COLD_S3_BUCKET"@) {
            None => r == Err::<S3Settings, ColdStoreError>(ColdStoreError::MissingBucket),
            Some(bucket) => if text::is_blank_text(bucket) {
                r == Err::<S3Settings, ColdStoreError>(ColdStoreError::BlankBucket)
            } else {
                &&& r is Ok
                &&& r->Ok_0.bucket@ == bucket
                &&& env::optional_text(r->Ok_0.root) == chosen_root(
                    vars@,
                    match root_override {
                        Some(root) => Some(root@),
                        None => None,
                    },
                )
                &&& env::optional_text(r->Ok_0.region) == filled(vars@, "URSULA_COLD_S3_REGION"@)
                &&& env::optional_text(r->Ok_0.endpoint) == filled(
                    vars@,
                    "URSULA_COLD_S3_ENDPOINT"@,
                )
                &&& env::optional_text(r->Ok_0.access_key_id) == filled(
                    vars@,
                    "URSULA_COLD_S3_ACCESS_KEY_ID"@,
                )
                &&& env::optional_text(r->Ok_0.secret_access_key) == filled(
                    vars@,
                    "URSULA_COLD_S3_SECRET_ACCESS_KEY"@,
                )
                &&& env::optional_text(r->Ok_0.session_token) == filled(
                    vars@,
                    "URSULA_COLD_S3_SESSION_TOKEN"@,
                )
            },
        },
{
    let bucket = match vars.get("URSULA_COLD_S3_BUCKET") {
        Some(bucket) => bucket,
        None => {
            return Err(ColdStoreError::MissingBucket);
        },
    };
    if is_blank(bucket.as_str()) {
        return Err(ColdStoreError::BlankBucket);
    }
    let root = match root_override {
        Some(root) => if is_blank(root) {
            None
        } else {
            Some(root.to_owned())
        },
        None => get_filled(vars, "URSULA_COLD_ROOT"),
    };
    Ok(
        S3Settings {
            bucket,
            root,
            region: get_filled(vars, "URSULA_COLD_S3_REGION"),
            endpoint: get_filled(vars, "URSULA_COLD_S3_ENDPOINT"),
            access_key_id: get_filled(vars, "URSULA_COLD_S3_ACCESS_KEY_ID"),
            secret_access_key: get_filled(vars, "URSULA_COLD_S3_SECRET_ACCESS_KEY"),
            session_token: get_filled(vars, "URSULA_COLD_S3_SESSION_TOKEN"),
        },
    )
}

fn copy_text(value: &Option<String>) -> (r: Option<String>)
    ensures
        r == *value,
{
    match value {
        Some(value) => Some(value.clone()),
        None => None,
    }
}

impl S3Settings {
    /// What is said of the store.
    pub fn info(&self) -> (r: ColdStoreInfo)
        ensures
            r.backend@ == "s3"@,
            r.root == self.root,
            r.bucket == Some(self.bucket),
            r.region == self.region,
            r.endpoint == self.endpoint,
    {
        ColdStoreInfo {
            backend: "s3",
            root: copy_text(&self.root),
            bucket: Some(self.bucket.clone()),
            region: copy_text(&self.region),
            endpoint: copy_text(&self.endpoint),
        }
    }
}

/// What is said of a store in memory.
pub fn memory_info() -> (r: ColdStoreInfo)
    ensures
        r.backend@ == "memory"@,
        r.root is None,
        r.bucket is None,
        r.region is None,
        r.endpoint is None,
{
    ColdStoreInfo { backend: "memory", root: None, bucket: None, region: None, endpoint: None }
}

/// How long one attempt may take, in milliseconds, and how often it is retried.
#[derive(Debug, Clone, Copy, PartialEq, Eq, Structural)]
pub struct S3Resilience {
    pub timeout_ms: u64,
    pub max_retries: usize,
}

/// The milliseconds that one attempt may take: a positive number, or the
/// default.
pub open spec fn attempt_millis(vars: Map<Seq<char>, Seq<char>>) -> nat {
    match env::value_of(vars, "URSULA_S3_TIMEOUT_MS"@) {
        Some(value) => match text::parsed_number(value, u64::MAX as nat) {
            Some(millis) => if millis > 0 {
                millis
            } else {
                DEFAULT_S3_OP_TIMEOUT_MS as nat
            },
            None => DEFAULT_S3_OP_TIMEOUT_MS as nat,
        },
        None => DEFAULT_S3_OP_TIMEOUT_MS as nat,
    }
}

/// How each call to an S3 store is bounded. Every attempt ends in time.
pub fn with_s3_resilience(vars: &EnvVars) -> (r: S3Resilience)
    requires
        vars.wf(),
    ensures
        r.timeout_ms == attempt_millis(vars@),
        r.timeout_ms > 0,
        vars@.contains_key("URSULA_S3_TIMEOUT_MS"@) ==> match text::parsed_number(
            vars@["URSULA_S3_TIMEOUT_MS"@],
            u64::MAX as nat,
        ) {
            Some(millis) => {
                &&& millis > 0 ==> r.timeout_ms == millis
                &&& millis == 0 ==> r.timeout_ms == DEFAULT_S3_OP_TIMEOUT_MS
            },
            None => r.timeout_ms == DEFAULT_S3_OP_TIMEOUT_MS,
        },
        !vars@.contains_key("URSULA_S3_TIMEOUT_MS"@) ==> r.timeout_ms == DEFAULT_S3_OP_TIMEOUT_MS,
        r.max_retries == env::number_or(vars@, "URSULA_S3_MAX_RETRIES"@, DEFAULT_S3_MAX_RETRIES),
{
    let timeout_ms: u64 = match vars.get("URSULA_S3_TIMEOUT_MS") {
        Some(value) => match parse_u64(value.as_str()) {
            Some(millis) => if millis > 0 {
                millis
            } else {
                DEFAULT_S3_OP_TIMEOUT_MS
            },
            None => DEFAULT_S3_OP_TIMEOUT_MS,
        },
        None => DEFAULT_S3_OP_TIMEOUT_MS,
    };
    S3Resilience {
        timeout_ms,
        max_retries: vars.env_usize("URSULA_S3_MAX_RETRIES", DEFAULT_S3_MAX_RETRIES),
    }
}

/// The root that is given wins over the environment; a root of nothing but white space is
/// none, from wherever it comes.
pub proof fn law_given_root_wins(
    vars: Map<Seq<char>, Seq<char>>,
    given: Option<Seq<char>>,
)
    ensures
        match given {
            Some(root) => chosen_root(vars, given) == if text::is_blank_text(root) {
                None::<Seq<char>>
            } else {
                Some(root)
            },
            None => chosen_root(vars, given) == if vars.contains_key("URSULA_COLD_ROOT"@)
                && !text::is_blank_text(vars["URSULA_COLD_ROOT"@]) {
                Some(vars["URSULA_COLD_ROOT"@])
            } else {
                None::<Seq<char>>
            },
        },
{
}

} // verus!
