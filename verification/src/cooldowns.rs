//! How long a command rests after it ran, per bucket.

use vstd::prelude::*;
use std::time::Duration;

verus! {

/// Who asked, and where: the buckets a cooldown is kept in.
#[derive(Debug, Clone, Copy, Eq, PartialEq, Hash, Structural)]
pub struct CooldownContext {
    pub user_id: u64,
    pub guild_id: Option<u64>,
    pub channel_id: u64,
}

/// The cooldown of each bucket, where it has one.
#[derive(Clone, Copy, PartialEq, Eq, Debug, Hash)]
pub struct CooldownConfig {
    pub global: Option<Duration>,
    pub user: Option<Duration>,
    pub guild: Option<Duration>,
    pub channel: Option<Duration>,
    pub member: Option<Duration>,
}

impl Default for CooldownConfig {
    fn default() -> (r: CooldownConfig)
        ensures
            r.global.is_none(),
            r.user.is_none(),
            r.guild.is_none(),
            r.channel.is_none(),
            r.member.is_none(),
    {
        CooldownConfig { global: None, user: None, guild: None, channel: None, member: None }
    }
}

} // verus!
