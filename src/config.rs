//! Limits and links that the library's callers configure.
use vstd::prelude::*;
use vstd::string::StringExecFns;

verus! {

pub fn default_shard_count() -> (r: u64)
    ensures
        r == 1,
{
    1
}

pub fn default_max_messages_per_user() -> (r: u32)
    ensures
        r == 25,
{
    25
}

/// One megabyte.
pub fn default_max_messages_size() -> (r: usize)
    ensures
        r == 1_000_000,
{
    1_000_000
}

/// The quotas on saved message templates.
#[derive(Clone, Copy, Debug)]
pub struct LimitConfig {
    pub max_messages_per_user: u32,
    pub max_message_size: usize,
}

impl Default for LimitConfig {
    fn default() -> (r: LimitConfig)
        ensures
            r.max_messages_per_user == 25,
            r.max_message_size == 1_000_000,
    {
        LimitConfig {
            max_message_size: default_max_messages_size(),
            max_messages_per_user: default_max_messages_per_user(),
        }
    }
}

pub fn default_source_link() -> (r: String)
    ensures
        r@ == "https://github.com/merlinfuchs/embed-generator"@,
{
    String::from_str("https://github.com/merlinfuchs/embed-generator")
}

pub fn default_host() -> (r: String)
    ensures
        r@ == "127.0.0.1"@,
{
    String::from_str("127.0.0.1")
}

pub fn default_port() -> (r: u16)
    ensures
        r == 8080,
{
    8080
}

pub fn default_mongo_url() -> (r: String)
    ensures
        r@ == "mongodb://127.0.0.1"@,
{
    String::from_str("mongodb://127.0.0.1")
}

pub fn default_redis_url() -> (r: String)
    ensures
        r@ == "redis://127.0.0.1"@,
{
    String::from_str("redis://127.0.0.1")
}

/// The links that the bot hands out.
#[derive(Clone, Debug)]
pub struct LinkConfig {
    pub discord_invite: String,
    pub source: String,
}

impl LinkConfig {
    /// Links with the default source link.
    pub fn new(discord_invite: String) -> (r: LinkConfig)
        ensures
            r.discord_invite == discord_invite,
            r.source@ == "https://github.com/merlinfuchs/embed-generator"@,
    {
        LinkConfig { discord_invite, source: default_source_link() }
    }
}

} // verus!
