//! The settings that the collector runs with, and how they are read from
//! the values of environment variables.

use crate::text::{parse_usize, parse_usize_seq, split_on, split_seq, views_of};
use std::collections::HashMap;
use vstd::prelude::*;
use vstd::string::*;

verus! {

/// The collector's configuration.
#[derive(Clone, Debug)]
pub struct Config {
    pub env: EnvConfig,
}

/// The settings taken from the environment.
#[derive(Clone, Debug)]
pub struct EnvConfig {
    pub moesif_application_id: String,
    pub user_id_header: Option<String>,
    pub company_id_header: Option<String>,
    /// The largest number of events in one upload, and the buffer length at
    /// which a push makes the buffer flush.
    pub batch_max_size: usize,
    /// Milliseconds between two periodic flushes.
    pub batch_max_wait: usize,
    pub upstream: String,
    pub base_uri: String,
    pub debug: bool,
    pub connection_timeout: usize,
    pub rust_log: Option<String>,
}

impl Default for EnvConfig {
    fn default() -> (c: Self)
        ensures
            c.moesif_application_id@.len() == 0,
            c.user_id_header is None,
            c.company_id_header is None,
            c.batch_max_size == 0,
            c.batch_max_wait == 0,
            c.upstream@.len() == 0,
            c.base_uri@.len() == 0,
            !c.debug,
            c.connection_timeout == 0,
            c.rust_log is None,
    {
        EnvConfig {
            moesif_application_id: String::new(),
            user_id_header: None,
            company_id_header: None,
            batch_max_size: 0,
            batch_max_wait: 0,
            upstream: String::new(),
            base_uri: String::new(),
            debug: false,
            connection_timeout: 0,
            rust_log: None,
        }
    }
}

impl Default for Config {
    fn default() -> (c: Self)
        ensures
            c.env.batch_max_size == 0,
            c.env.moesif_application_id@.len() == 0,
            c.env.base_uri@.len() == 0,
    {
        Config { env: EnvConfig::default() }
    }
}

/// The batch size used when none is configured.
pub fn default_batch_max_size() -> (n: usize)
    ensures
        n == 100,
{
    100
}

/// The flush period in milliseconds used when none is configured.
pub fn default_batch_max_wait() -> (n: usize)
    ensures
        n == 2000,
{
    2000
}

/// The upstream cluster used when none is configured.
pub fn default_upstream() -> (s: String)
    ensures
        s@ == "outbound|443||api.moesif.net"@,
{
    "outbound|443||api.moesif.net".to_owned()
}

/// Whether debugging is on when nothing is configured.
pub fn default_debug() -> (b: bool)
    ensures
        !b,
{
    false
}

/// The connection timeout in milliseconds used when none is configured.
pub fn connection_timeout() -> (n: usize)
    ensures
        n == 5000,
{
    5000
}

/// The remote configuration that the analytics service hands out.
#[derive(Default, Debug)]
pub struct AppConfigResponse {
    pub org_id: String,
    pub app_id: String,
    pub sample_rate: i32,
    pub block_bot_traffic: bool,
    pub user_sample_rate: HashMap<String, i32>,
    pub company_sample_rate: HashMap<String, i32>,
    pub user_rules: HashMap<String, Vec<EntityRuleValues>>,
    pub company_rules: HashMap<String, Vec<EntityRuleValues>>,
    pub ip_addresses_blocked_by_name: HashMap<String, String>,
    pub regex_config: Vec<RegexRule>,
    pub billing_config_jsons: HashMap<String, String>,
    pub e_tag: Option<String>,
}

/// The rules that apply to one user or company, with their values.
#[derive(Debug, Default)]
pub struct EntityRuleValues {
    pub rules: String,
    pub values: Option<HashMap<String, String>>,
}

/// A sampling rule that holds where all its conditions match.
#[derive(Debug, Default)]
pub struct RegexRule {
    pub conditions: Vec<RegexCondition>,
    pub sample_rate: i32,
}

/// One condition of a sampling rule: a field path and the pattern for it.
#[derive(Debug, Default)]
pub struct RegexCondition {
    pub path: String,
    pub value: String,
}

/// What the environment holds under each name that the collector reads;
/// `None` where a variable is not set.
#[derive(Debug)]
pub struct EnvVars {
    pub moesif_application_id: Option<String>,
    pub user_id_header: Option<String>,
    pub company_id_header: Option<String>,
    pub batch_max_size: Option<String>,
    pub batch_max_wait: Option<String>,
    pub upstream: Option<String>,
    pub debug: Option<String>,
    pub rust_log: Option<String>,
    pub connection_timeout: Option<String>,
}

/// Why the environment gives no configuration.
#[derive(Debug, Clone, Copy, PartialEq, Eq)]
pub enum ConfigError {
    /// The upstream is not made of four parts separated by `|`.
    MalformedUpstream,
}

/// The number that a variable gives: what it denotes in decimal, else the
/// default.
pub open spec fn number_or(value: Option<String>, default: usize) -> usize {
    match value {
        Some(v) => match parse_usize_seq(v@) {
            Some(n) => n,
            None => default,
        },
        None => default,
    }
}

/// The upstream cluster that the variables name.
pub open spec fn upstream_of(vars: EnvVars) -> Seq<char> {
    match vars.upstream {
        Some(u) => u@,
        None => "outbound|443||api.moesif.net"@,
    }
}

/// The base address that an upstream cluster name stands for: `https://`
/// and the cluster's fourth part, when it has exactly four.
pub open spec fn base_uri_of(upstream: Seq<char>) -> Option<Seq<char>> {
    let parts = split_seq(upstream, '|');
    if parts.len() == 4 {
        Some("https://"@ + parts[3])
    } else {
        None
    }
}

/// Reads the number that a variable gives.
fn number_from(value: &Option<String>, default: usize) -> (n: usize)
    ensures
        n == number_or(*value, default),
{
    match value {
        Some(v) => match parse_usize(v.as_str()) {
            Some(n) => n,
            None => default,
        },
        None => default,
    }
}

impl EnvConfig {
    /// Derives the base address from an upstream cluster name such as
    /// `outbound|443||api.moesif.net`.
    pub fn parse_upstream_url(upstream: &str) -> (r: Result<String, ()>)
        ensures
            match base_uri_of(upstream@) {
                Some(uri) => r is Ok && r->Ok_0@ == uri,
                None => r is Err,
            },
    {
        let parts = split_on(upstream, '|');
        if parts.len() == 4 {
            assert(views_of(parts@)[3] == parts@[3]@);
            Ok(String::from_str("https://").concat(parts[3].as_str()))
        } else {
            Err(())
        }
    }

    /// Builds the settings from the values of the environment variables.
    /// Numbers that are missing or not decimal take their defaults;
    /// debugging is on only for the value `true`.
    pub fn from_vars(vars: EnvVars) -> (r: Result<EnvConfig, ConfigError>)
        ensures
            match base_uri_of(upstream_of(vars)) {
                None => r == Err::<EnvConfig, ConfigError>(ConfigError::MalformedUpstream),
                Some(uri) => {
                    &&& r is Ok
                    &&& r->Ok_0.base_uri@ == uri
                    &&& r->Ok_0.upstream@ == upstream_of(vars)
                    &&& r->Ok_0.moesif_application_id@ == match vars.moesif_application_id {
                        Some(id) => id@,
                        None => Seq::<char>::empty(),
                    }
                    &&& r->Ok_0.user_id_header == vars.user_id_header
                    &&& r->Ok_0.company_id_header == vars.company_id_header
                    &&& r->Ok_0.batch_max_size == number_or(vars.batch_max_size, 100)
                    &&& r->Ok_0.batch_max_wait == number_or(vars.batch_max_wait, 2000)
                    &&& r->Ok_0.connection_timeout == number_or(vars.connection_timeout, 5000)
                    &&& r->Ok_0.debug == (vars.debug is Some && vars.debug->0@ == "true"@)
                    &&& r->Ok_0.rust_log == vars.rust_log
                },
            },
    {
        let batch_max_size = number_from(&vars.batch_max_size, default_batch_max_size());
        let batch_max_wait = number_from(&vars.batch_max_wait, default_batch_max_wait());
        let connection_timeout = number_from(&vars.connection_timeout, connection_timeout());
        let debug = match &vars.debug {
            Some(v) => *v == "true".to_owned(),
            None => default_debug(),
        };
        let upstream = match vars.upstream {
            Some(u) => u,
            None => default_upstream(),
        };
        let base_uri = match EnvConfig::parse_upstream_url(upstream.as_str()) {
            Ok(uri) => uri,
            Err(_) => {
                return Err(ConfigError::MalformedUpstream);
            },
        };
        let moesif_application_id = match vars.moesif_application_id {
            Some(id) => id,
            None => String::new(),
        };
        Ok(
            EnvConfig {
                moesif_application_id,
                user_id_header: vars.user_id_header,
                company_id_header: vars.company_id_header,
                batch_max_size,
                batch_max_wait,
                upstream,
                base_uri,
                debug,
                connection_timeout,
                rust_log: vars.rust_log,
            },
        )
    }
}

} // verus!
