//! Runtime configuration: defaults, required values and their parsing.

use vstd::prelude::*;

use crate::domain::cache_entry::{copy_string, opt_string_view};
use crate::error::ConfigError;
use crate::text::{blank, chars_of, is_blank, parse_unsigned, string_from_chars, unsigned_literal};

verus! {

pub const DEFAULT_PORT: u16 = 3000;

pub const DEFAULT_S3_ENDPOINT: &'static str = "https://ams3.digitaloceanspaces.com";

pub const DEFAULT_S3_REGION: &'static str = "ams3";

pub const DEFAULT_QUALITY: u8 = 80;

pub const DEFAULT_FORMAT: &'static str = "webp";

pub const DEFAULT_CACHE_DELETE_CRON: &'static str = "0 1 * * 1";

pub const DEFAULT_CACHED_TIME: u64 = 604_800;

/// Connection details for the backing S3-compatible object store.
#[derive(Debug, Clone)]
pub struct S3Config {
    pub endpoint: String,
    pub region: String,
    pub access_key: String,
    pub secret_key: String,
    pub bucket: String,
}

/// Fully resolved application configuration. The server listens on
/// `0.0.0.0:port`.
#[derive(Debug, Clone)]
pub struct Config {
    pub port: u16,
    pub s3: S3Config,
    pub redis_url: String,
    pub default_quality: u8,
    pub default_format: String,
    /// Cron expression driving the cache cleanup job.
    pub cache_delete_cron: String,
    /// `max-age` (in seconds) advertised on served images.
    pub cached_time: u64,
}

/// The environment variables the service reads, each `None` when unset.
pub struct EnvVars {
    pub port: Option<String>,
    pub s3_endpoint: Option<String>,
    pub s3_region: Option<String>,
    pub s3_access_key: Option<String>,
    pub s3_secret_key: Option<String>,
    pub s3_bucket: Option<String>,
    pub redis_url: Option<String>,
    pub default_quality: Option<String>,
    pub default_format: Option<String>,
    pub cache_delete_cron: Option<String>,
    pub cached_time: Option<String>,
}

/// Why a configuration cannot be built.
pub enum ConfigFailure {
    Missing { key: Seq<char> },
    Invalid { key: Seq<char>, value: Seq<char> },
}

/// A variable counts as set only when it holds something besides whitespace.
pub open spec fn present(v: Option<String>) -> Option<Seq<char>> {
    match v {
        Some(s) => if is_blank(s@) {
            None
        } else {
            Some(s@)
        },
        None => None,
    }
}

/// An optional unsigned variable whose type holds at most `max`: `Err` with
/// the raw value when it is set but not such a number.
pub open spec fn numeric(v: Option<String>, max: nat) -> Result<Option<nat>, Seq<char>> {
    match present(v) {
        None => Ok(None),
        Some(s) => match unsigned_literal(s) {
            Some(n) => if n <= max {
                Ok(Some(n))
            } else {
                Err(s)
            },
            None => Err(s),
        },
    }
}

/// The first reason, in reading order, why `e` gives no configuration.
pub open spec fn config_failure(e: EnvVars) -> Option<ConfigFailure> {
    if numeric(e.port, u16::MAX as nat) is Err {
        Some(ConfigFailure::Invalid { key: "PORT"@, value: numeric(e.port, u16::MAX as nat)->Err_0 })
    } else if present(e.s3_access_key) is None {
        Some(ConfigFailure::Missing { key: "S3_ACCESS_KEY"@ })
    } else if present(e.s3_secret_key) is None {
        Some(ConfigFailure::Missing { key: "S3_SECRET_KEY"@ })
    } else if present(e.s3_bucket) is None {
        Some(ConfigFailure::Missing { key: "S3_BUCKET"@ })
    } else if numeric(e.default_quality, u8::MAX as nat) is Err {
        Some(
            ConfigFailure::Invalid {
                key: "DEFAULT_QUALITY"@,
                value: numeric(e.default_quality, u8::MAX as nat)->Err_0,
            },
        )
    } else if numeric(e.cached_time, u64::MAX as nat) is Err {
        Some(
            ConfigFailure::Invalid { key: "CACHED_TIME"@, value: numeric(e.cached_time, u64::MAX as nat)->Err_0 },
        )
    } else if present(e.redis_url) is None {
        Some(ConfigFailure::Missing { key: "REDIS_URL"@ })
    } else {
        None
    }
}

/// Whether the exec error `r` is the failure `f`.
pub open spec fn failure_matches(r: ConfigError, f: ConfigFailure) -> bool {
    match (r, f) {
        (ConfigError::MissingVar(k), ConfigFailure::Missing { key }) => k@ == key,
        (ConfigError::InvalidValue { key: k, value: v }, ConfigFailure::Invalid { key, value }) => k@ == key && v@
            == value,
        _ => false,
    }
}

/// A set variable, or the default.
pub open spec fn text_or(v: Option<String>, default: Seq<char>) -> Seq<char> {
    match present(v) {
        Some(s) => s,
        None => default,
    }
}

/// A numeric variable, or the default.
pub open spec fn number_or(v: Option<String>, max: nat, default: nat) -> nat {
    match numeric(v, max) {
        Ok(Some(n)) => n,
        _ => default,
    }
}

/// The configured default quality: a set value counts only within `1..=100`.
pub open spec fn quality_or_default(v: Option<String>) -> nat {
    match numeric(v, u8::MAX as nat) {
        Ok(Some(n)) => if 1 <= n <= 100 {
            n
        } else {
            DEFAULT_QUALITY as nat
        },
        _ => DEFAULT_QUALITY as nat,
    }
}

/// A set variable's text.
fn optional_var(v: &Option<String>) -> (r: Option<String>)
    ensures
        opt_string_view(r) == present(*v),
{
    match v {
        Some(s) => {
            let chars = chars_of(s.as_str());
            if blank(chars.as_slice()) {
                None
            } else {
                Some(copy_string(s))
            }
        },
        None => None,
    }
}

/// Reads an optional unsigned variable whose type holds at most `max`.
fn parse_optional(v: &Option<String>, max: u64) -> (r: Result<Option<u64>, String>)
    ensures
        match numeric(*v, max as nat) {
            Ok(None) => r matches Ok(None),
            Ok(Some(n)) => r matches Ok(Some(m)) && m == n,
            Err(s) => r matches Err(e) && e@ == s,
        },
{
    match optional_var(v) {
        None => Ok(None),
        Some(s) => {
            let chars = chars_of(s.as_str());
            match parse_unsigned(chars.as_slice(), max) {
                Some(n) => Ok(Some(n)),
                None => Err(s),
            }
        },
    }
}

/// A required variable's text, or the error naming it.
fn required_var(v: &Option<String>, key: &'static str) -> (r: Result<String, ConfigError>)
    ensures
        match present(*v) {
            Some(s) => r matches Ok(x) && x@ == s,
            None => r matches Err(ConfigError::MissingVar(k)) && k == key,
        },
{
    match optional_var(v) {
        Some(s) => Ok(s),
        None => Err(ConfigError::MissingVar(key)),
    }
}

/// A set variable, or the default.
fn value_or(v: &Option<String>, default: &str) -> (r: String)
    ensures
        r@ == text_or(*v, default@),
{
    match optional_var(v) {
        Some(s) => s,
        None => {
            let chars = chars_of(default);
            string_from_chars(chars.as_slice())
        },
    }
}

impl Config {
    /// Builds a [`Config`] from the values of the environment variables.
    ///
    /// Returns [`ConfigError`] when a required variable is missing or a
    /// provided value cannot be parsed; an out-of-range default quality
    /// falls back to the default.
    pub fn from_vars(vars: &EnvVars) -> (r: Result<Self, ConfigError>)
        ensures
            match config_failure(*vars) {
                Some(f) => r matches Err(e) && failure_matches(e, f),
                None => r matches Ok(c) && {
                    &&& c.port as nat == number_or(vars.port, u16::MAX as nat, DEFAULT_PORT as nat)
                    &&& c.s3.endpoint@ == text_or(vars.s3_endpoint, DEFAULT_S3_ENDPOINT@)
                    &&& c.s3.region@ == text_or(vars.s3_region, DEFAULT_S3_REGION@)
                    &&& Some(c.s3.access_key@) == present(vars.s3_access_key)
                    &&& Some(c.s3.secret_key@) == present(vars.s3_secret_key)
                    &&& Some(c.s3.bucket@) == present(vars.s3_bucket)
                    &&& Some(c.redis_url@) == present(vars.redis_url)
                    &&& c.default_quality as nat == quality_or_default(vars.default_quality)
                    &&& c.default_format@ == text_or(vars.default_format, DEFAULT_FORMAT@)
                    &&& c.cache_delete_cron@ == text_or(vars.cache_delete_cron, DEFAULT_CACHE_DELETE_CRON@)
                    &&& c.cached_time as nat == number_or(vars.cached_time, u64::MAX as nat, DEFAULT_CACHED_TIME as nat)
                },
            },
    {
        let port = match parse_optional(&vars.port, 65535) {
            Ok(Some(p)) => p as u16,
            Ok(None) => DEFAULT_PORT,
            Err(value) => return Err(ConfigError::InvalidValue { key: "PORT", value }),
        };
        let endpoint = value_or(&vars.s3_endpoint, DEFAULT_S3_ENDPOINT);
        let region = value_or(&vars.s3_region, DEFAULT_S3_REGION);
        let access_key = match required_var(&vars.s3_access_key, "S3_ACCESS_KEY") {
            Ok(v) => v,
            Err(e) => return Err(e),
        };
        let secret_key = match required_var(&vars.s3_secret_key, "S3_SECRET_KEY") {
            Ok(v) => v,
            Err(e) => return Err(e),
        };
        let bucket = match required_var(&vars.s3_bucket, "S3_BUCKET") {
            Ok(v) => v,
            Err(e) => return Err(e),
        };
        let default_quality = match parse_optional(&vars.default_quality, 255) {
            Ok(Some(q)) => {
                if 1 <= q && q <= 100 {
                    q as u8
                } else {
                    DEFAULT_QUALITY
                }
            },
            Ok(None) => DEFAULT_QUALITY,
            Err(value) => return Err(ConfigError::InvalidValue { key: "DEFAULT_QUALITY", value }),
        };
        let default_format = value_or(&vars.default_format, DEFAULT_FORMAT);
        let cache_delete_cron = value_or(&vars.cache_delete_cron, DEFAULT_CACHE_DELETE_CRON);
        let cached_time = match parse_optional(&vars.cached_time, u64::MAX) {
            Ok(Some(t)) => t,
            Ok(None) => DEFAULT_CACHED_TIME,
            Err(value) => return Err(ConfigError::InvalidValue { key: "CACHED_TIME", value }),
        };
        let redis_url = match required_var(&vars.redis_url, "REDIS_URL") {
            Ok(v) => v,
            Err(e) => return Err(e),
        };
        Ok(Config {
            port,
            s3: S3Config { endpoint, region, access_key, secret_key, bucket },
            redis_url,
            default_quality,
            default_format,
            cache_delete_cron,
            cached_time,
        })
    }
}

} // verus!
