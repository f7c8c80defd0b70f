//! Settings that cascade from the global scope down to a member, and the
//! strategies that pick between two of them.

use vstd::prelude::*;
use vstd::string::*;
use core::cmp::Ordering;
use vstd::std_specs::cmp::PartialOrdSpec;
use crate::text::{decimal, push_decimal};

verus! {

/// The scope a setting was found at.
#[derive(Debug, Clone, Copy, Eq, PartialEq, Hash, Structural)]
pub enum SettingsScopeKind {
    Global,
    Guild(u64),
    Channel(u64),
    Member(u64, u64),
}

impl SettingsScopeKind {
    /// How the scope is named in a message.
    pub open spec fn text(self) -> Seq<char> {
        match self {
            SettingsScopeKind::Global => "Global"@,
            SettingsScopeKind::Guild(_) => "this server"@,
            SettingsScopeKind::Channel(id) => "<#"@ + decimal(id as nat) + ">"@,
            SettingsScopeKind::Member(_, id) => "<@"@ + decimal(id as nat) + ">"@ + " in this server"@,
        }
    }

    pub fn describe(&self) -> (s: String)
        ensures
            s@ == self.text(),
    {
        match self {
            SettingsScopeKind::Global => "Global".to_string(),
            SettingsScopeKind::Guild(_) => "this server".to_string(),
            SettingsScopeKind::Channel(id) => {
                let mut s = "<#".to_string();
                push_decimal(&mut s, *id);
                s.append(">");
                s
            },
            SettingsScopeKind::Member(_, id) => {
                let mut s = "<@".to_string();
                push_decimal(&mut s, *id);
                s.append(">");
                s.append(" in this server");
                s
            },
        }
    }
}

/// A setting as found at one scope, or its absence there.
#[derive(Debug)]
pub struct SettingsValue<T> {
    scope: SettingsScopeKind,
    value: Option<T>,
}

impl<T> SettingsValue<T> {
    pub closed spec fn spec_value(self) -> Option<T> {
        self.value
    }

    pub closed spec fn spec_scope(self) -> SettingsScopeKind {
        self.scope
    }

    /// The setting with this value at this scope.
    pub closed spec fn made(value: Option<T>, scope: SettingsScopeKind) -> SettingsValue<T> {
        SettingsValue { scope, value }
    }

    pub fn new(value: Option<T>, scope: SettingsScopeKind) -> (r: SettingsValue<T>)
        ensures
            r == SettingsValue::made(value, scope),
            r.spec_value() == value,
            r.spec_scope() == scope,
    {
        SettingsValue { value, scope }
    }

    pub fn value(&self) -> (r: &Option<T>)
        ensures
            *r == self.spec_value(),
    {
        &self.value
    }

    pub fn scope(&self) -> (r: &SettingsScopeKind)
        ensures
            *r == self.spec_scope(),
    {
        &self.scope
    }
}

/// Where a setting is asked for.
#[derive(Debug)]
pub struct SettingsContext {
    pub guild_id: Option<u64>,
    pub channel_id: Option<u64>,
    pub user_id: Option<u64>,
}

/// Which of two values a merge keeps.
#[derive(Debug, Clone, Copy, Eq, PartialEq, Hash, Structural)]
pub enum MergeDecision {
    Left,
    Right,
}

/// A strategy that picks between the value of a wider scope (`lhs`) and
/// that of a narrower one (`rhs`).
pub trait MergeFn<V> {
    /// The decisions the strategy may take on two values.
    spec fn decides(&self, lhs: &V, rhs: &V, decision: MergeDecision) -> bool;

    fn merge(&self, lhs: &V, rhs: &V) -> (r: MergeDecision)
        ensures
            self.decides(lhs, rhs, r),
    ;
}

/// Always the right-hand value: the sources come from widest to narrowest.
#[derive(Debug, Clone, Copy, Eq, PartialEq, Hash, Structural)]
pub struct MostSpecific;

impl<V> MergeFn<V> for MostSpecific {
    open spec fn decides(&self, lhs: &V, rhs: &V, decision: MergeDecision) -> bool {
        decision == MergeDecision::Right
    }

    fn merge(&self, _lhs: &V, _rhs: &V) -> (r: MergeDecision) {
        MergeDecision::Right
    }
}

/// The right-hand value exactly when it compares greater than the left.
/// Nothing is said for a type whose comparison follows no stated order.
pub open spec fn right_if_greater<V: PartialOrd>(lhs: &V, rhs: &V, decision: MergeDecision) -> bool {
    V::obeys_partial_cmp_spec() ==> (decision == MergeDecision::Right <==> rhs.partial_cmp_spec(lhs)
        == Some(Ordering::Greater))
}

/// Takes the right-hand value where it compares greater than the left.
#[derive(Debug, Clone, Copy, Eq, PartialEq, Hash, Structural)]
pub struct Smallest;

impl<V: PartialOrd> MergeFn<V> for Smallest {
    open spec fn decides(&self, lhs: &V, rhs: &V, decision: MergeDecision) -> bool {
        right_if_greater(lhs, rhs, decision)
    }

    fn merge(&self, lhs: &V, rhs: &V) -> (r: MergeDecision) {
        if rhs > lhs {
            MergeDecision::Right
        } else {
            MergeDecision::Left
        }
    }
}

/// Takes the right-hand value where it compares greater than the left.
#[derive(Debug, Clone, Copy, Eq, PartialEq, Hash, Structural)]
pub struct Largest;

impl<V: PartialOrd> MergeFn<V> for Largest {
    open spec fn decides(&self, lhs: &V, rhs: &V, decision: MergeDecision) -> bool {
        right_if_greater(lhs, rhs, decision)
    }

    fn merge(&self, lhs: &V, rhs: &V) -> (r: MergeDecision) {
        if rhs > lhs {
            MergeDecision::Right
        } else {
            MergeDecision::Left
        }
    }
}

/// `r` is a merge of `lhs` with `rhs`: a value beats an absent one, and
/// of two values the strategy picks.
pub open spec fn merged<T, M: MergeFn<T>>(
    merge: &M,
    lhs: SettingsValue<T>,
    rhs: SettingsValue<T>,
    r: SettingsValue<T>,
) -> bool {
    match (lhs.spec_value(), rhs.spec_value()) {
        (None, Some(_)) => r == rhs,
        (Some(l), Some(v)) => (r == lhs && merge.decides(&l, &v, MergeDecision::Left)) || (r == rhs
            && merge.decides(&l, &v, MergeDecision::Right)),
        _ => r == lhs,
    }
}

/// Merges the setting of a wider scope with that of a narrower one.
pub fn merge_values<T, M: MergeFn<T>>(merge: &M, lhs: SettingsValue<T>, rhs: SettingsValue<T>) -> (r:
    SettingsValue<T>)
    ensures
        merged(merge, lhs, rhs, r),
{
    match (&lhs.value, &rhs.value) {
        (None, Some(_)) => rhs,
        (Some(lhs_val), Some(rhs_val)) => match merge.merge(lhs_val, rhs_val) {
            MergeDecision::Left => lhs,
            MergeDecision::Right => rhs,
        },
        _ => lhs,
    }
}

/// `r` is `lhs` merged with the setting of a narrower scope, where the
/// context names that scope; else `r` is `lhs`.
pub open spec fn merged_where<T, M: MergeFn<T>>(
    merge: &M,
    lhs: SettingsValue<T>,
    scope: Option<SettingsScopeKind>,
    value: Option<T>,
    r: SettingsValue<T>,
) -> bool {
    match scope {
        Some(s) => merged(merge, lhs, SettingsValue::made(value, s), r),
        None => r == lhs,
    }
}

/// The guild scope of a context.
pub open spec fn guild_scope(ctx: SettingsContext) -> Option<SettingsScopeKind> {
    match ctx.guild_id {
        Some(g) => Some(SettingsScopeKind::Guild(g)),
        None => None,
    }
}

/// The channel scope of a context.
pub open spec fn channel_scope(ctx: SettingsContext) -> Option<SettingsScopeKind> {
    match ctx.channel_id {
        Some(c) => Some(SettingsScopeKind::Channel(c)),
        None => None,
    }
}

/// The member scope of a context: it takes a guild and a user.
pub open spec fn member_scope(ctx: SettingsContext) -> Option<SettingsScopeKind> {
    match (ctx.guild_id, ctx.user_id) {
        (Some(g), Some(u)) => Some(SettingsScopeKind::Member(g, u)),
        _ => None,
    }
}

/// The setting that holds in a context: the global value merged in turn
/// with the guild's, the channel's and the member's, each only where the
/// context names that scope.
pub fn cascade<T, M: MergeFn<T>>(
    merge: &M,
    ctx: &SettingsContext,
    global: Option<T>,
    guild: Option<T>,
    channel: Option<T>,
    member: Option<T>,
) -> (r: SettingsValue<T>)
    ensures
        exists|a: SettingsValue<T>, b: SettingsValue<T>|
            merged_where(
                merge,
                SettingsValue::made(global, SettingsScopeKind::Global),
                guild_scope(*ctx),
                guild,
                a,
            ) && merged_where(merge, a, channel_scope(*ctx), channel, b) && merged_where(
                merge,
                b,
                member_scope(*ctx),
                member,
                r,
            ),
{
    let mut value = SettingsValue::new(global, SettingsScopeKind::Global);
    if let Some(guild_id) = ctx.guild_id {
        let guild_val = SettingsValue::new(guild, SettingsScopeKind::Guild(guild_id));
        value = merge_values(merge, value, guild_val);
    }
    let ghost a = value;
    if let Some(channel_id) = ctx.channel_id {
        let channel_val = SettingsValue::new(channel, SettingsScopeKind::Channel(channel_id));
        value = merge_values(merge, value, channel_val);
    }
    let ghost b = value;
    if let Some(guild_id) = ctx.guild_id {
        if let Some(user_id) = ctx.user_id {
            let member_val = SettingsValue::new(member, SettingsScopeKind::Member(guild_id, user_id));
            value = merge_values(merge, value, member_val);
        }
    }
    proof {
        assert(merged_where(
            merge,
            SettingsValue::made(global, SettingsScopeKind::Global),
            guild_scope(*ctx),
            guild,
            a,
        ) && merged_where(merge, a, channel_scope(*ctx), channel, b) && merged_where(
            merge,
            b,
            member_scope(*ctx),
            member,
            value,
        ));
    }
    value
}

} // verus!
