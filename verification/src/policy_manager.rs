//! The four policy tables, the writes that keep them, and the resolver
//! that folds what they hold into one effective policy.

use vstd::prelude::*;
use crate::policy::{
    combine, combine_is_clean, merge_choice, role_tie, views, AmbiguousPolicyError, MergeChoice,
    Policy, PolicyContext, PolicyView, Principle,
};
use crate::roles::RoleOrder;
use crate::store::{remove_rows, select, unique_keys, upsert_rows, PolicyTable};
use crate::time::Timestamp;

verus! {

/// The kinds of scope that hold stored policies.
#[derive(Debug, Copy, Clone, Eq, PartialEq, Hash, Structural)]
pub enum ScopeKind {
    Guild,
    Channel,
    Role,
    Member,
}

/// The table a principle's policies are stored in; `Global` has none.
pub open spec fn scope_kind(principle: Principle) -> Option<ScopeKind> {
    match principle {
        Principle::Global => None,
        Principle::Guild(_) => Some(ScopeKind::Guild),
        Principle::Channel(_) => Some(ScopeKind::Channel),
        Principle::Role(_) => Some(ScopeKind::Role),
        Principle::Member(_, _) => Some(ScopeKind::Member),
    }
}

/// Every row sits on a principle of the given kind.
pub open spec fn all_of_kind(rows: Seq<PolicyView>, kind: ScopeKind) -> bool {
    forall|i: int| 0 <= i < rows.len() ==> scope_kind((#[trigger] rows[i]).principle) == Some(kind)
}

/// The attempt to write or clear a policy on the global scope, which is
/// not stored.
#[derive(Debug, Copy, Clone, Eq, PartialEq, Hash, Structural)]
pub struct InvalidScopeError;

impl InvalidScopeError {
    /// The message shown to the person who asked.
    pub fn message(&self) -> (s: String)
        ensures
            s@ == "Changing global bot permissions not currently supported"@,
    {
        "Changing global bot permissions not currently supported".to_string()
    }
}

/// The role candidates of a context: for each role in turn, its matching
/// rows.
pub open spec fn role_candidates(rows: Seq<PolicyView>, roles: Seq<u64>, action: Seq<char>) -> Seq<
    PolicyView,
>
    decreases roles.len(),
{
    if roles.len() == 0 {
        Seq::empty()
    } else {
        role_candidates(rows, roles.drop_last(), action) + select(
            rows,
            Principle::Role(roles.last()),
            action,
        )
    }
}

/// The channel candidates of a context: none without a channel.
pub open spec fn channel_candidates(rows: Seq<PolicyView>, channel_id: Option<u64>, action: Seq<char>) -> Seq<
    PolicyView,
> {
    match channel_id {
        Some(c) => select(rows, Principle::Channel(c), action),
        None => Seq::empty(),
    }
}

/// The guild candidates of a context: none without a guild.
pub open spec fn guild_candidates(rows: Seq<PolicyView>, guild_id: Option<u64>, action: Seq<char>) -> Seq<
    PolicyView,
> {
    match guild_id {
        Some(g) => select(rows, Principle::Guild(g), action),
        None => Seq::empty(),
    }
}

/// The member candidates of a context: none unless guild and user are
/// both given.
pub open spec fn member_candidates(
    rows: Seq<PolicyView>,
    guild_id: Option<u64>,
    user_id: Option<u64>,
    action: Seq<char>,
) -> Seq<PolicyView> {
    match (guild_id, user_id) {
        (Some(g), Some(u)) => select(rows, Principle::Member(g, u), action),
        _ => Seq::empty(),
    }
}

/// The role scopes of a list of roles, in order.
pub open spec fn role_scopes(roles: Seq<u64>) -> Seq<Principle> {
    Seq::new(roles.len(), |i: int| Principle::Role(roles[i]))
}

/// The scopes a query reads, in the order their candidates are folded:
/// the channel, the guild, the member, then each role.
pub open spec fn scopes_of(ctx: PolicyContext) -> Seq<Principle> {
    (match ctx.channel_id {
        Some(c) => seq![Principle::Channel(c)],
        None => Seq::empty(),
    }) + (match ctx.guild_id {
        Some(g) => seq![Principle::Guild(g)],
        None => Seq::empty(),
    }) + (match (ctx.guild_id, ctx.user_id) {
        (Some(g), Some(u)) => seq![Principle::Member(g, u)],
        _ => Seq::empty(),
    }) + role_scopes(ctx.roles@)
}

/// The lists one after the other.
pub open spec fn flattened(lists: Seq<Seq<PolicyView>>) -> Seq<PolicyView>
    decreases lists.len(),
{
    if lists.len() == 0 {
        Seq::empty()
    } else {
        flattened(lists.drop_last()) + lists.last()
    }
}

/// The views of lists of policies.
pub open spec fn list_views(lists: Seq<Vec<Policy>>) -> Seq<Seq<PolicyView>> {
    Seq::new(lists.len(), |i: int| views(lists[i]@))
}

impl PolicyContext {
    /// The scopes to read for a query from this context, in order.
    pub fn scopes(&self) -> (r: Vec<Principle>)
        ensures
            r@ == scopes_of(*self),
    {
        let mut out: Vec<Principle> = Vec::new();
        if let Some(channel_id) = self.channel_id {
            out.push(Principle::Channel(channel_id));
        }
        if let Some(guild_id) = self.guild_id {
            out.push(Principle::Guild(guild_id));
            if let Some(user_id) = self.user_id {
                out.push(Principle::Member(guild_id, user_id));
            }
        }
        let ghost fixed = out@;
        assert(fixed =~= (match self.channel_id {
            Some(c) => seq![Principle::Channel(c)],
            None => Seq::empty(),
        }) + (match self.guild_id {
            Some(g) => seq![Principle::Guild(g)],
            None => Seq::empty(),
        }) + (match (self.guild_id, self.user_id) {
            (Some(g), Some(u)) => seq![Principle::Member(g, u)],
            _ => Seq::empty(),
        }));
        let mut i: usize = 0;
        while i < self.roles.len()
            invariant
                i <= self.roles.len(),
                out@ =~= fixed + role_scopes(self.roles@.take(i as int)),
            decreases self.roles.len() - i,
        {
            out.push(Principle::Role(self.roles[i]));
            i += 1;
        }
        assert(self.roles@.take(i as int) =~= self.roles@);
        out
    }
}

impl Policy {
    /// The candidate list of a query from what was read for each of its
    /// scopes: the default policy first, then the lists in order.
    pub fn candidates_of(found: Vec<Vec<Policy>>) -> (r: Vec<Policy>)
        ensures
            views(r@) == seq![Policy::default_view()] + flattened(list_views(found@)),
    {
        let mut out: Vec<Policy> = Vec::new();
        out.push(Policy::default());
        let mut i: usize = 0;
        assert(list_views(found@).take(0) =~= Seq::<Seq<PolicyView>>::empty());
        assert(views(out@) =~= seq![Policy::default_view()] + flattened(list_views(found@).take(0)));
        while i < found.len()
            invariant
                i <= found.len(),
                views(out@) == seq![Policy::default_view()] + flattened(
                    list_views(found@).take(i as int),
                ),
            decreases found.len() - i,
        {
            let list = &found[i];
            let ghost before = out@;
            let mut j: usize = 0;
            while j < list.len()
                invariant
                    j <= list.len(),
                    views(out@) == views(before) + views(list@).take(j as int),
                decreases list.len() - j,
            {
                let ghost prior = out@;
                out.push(list[j].clone());
                assert(views(out@) =~= views(prior).push(list@[j as int]@));
                assert(views(list@).take(j as int + 1) =~= views(list@).take(j as int).push(
                    list@[j as int]@,
                ));
                j += 1;
            }
            proof {
                let upto = list_views(found@).take(i as int + 1);
                assert(views(list@).take(j as int) =~= views(list@));
                assert(upto.last() == views(list@));
                assert(upto.drop_last() =~= list_views(found@).take(i as int));
                assert(views(out@) =~= seq![Policy::default_view()] + flattened(upto));
            }
            i += 1;
        }
        assert(list_views(found@).take(i as int) =~= list_views(found@));
        out
    }
}

/// The policy manager: one table per kind of scope.
#[derive(Debug)]
pub struct PolicyManager {
    guild: PolicyTable,
    channel: PolicyTable,
    role: PolicyTable,
    member: PolicyTable,
}

impl PolicyManager {
    /// The rows stored for one kind of scope, in stored order.
    pub closed spec fn rows(&self, kind: ScopeKind) -> Seq<PolicyView> {
        match kind {
            ScopeKind::Guild => self.guild@,
            ScopeKind::Channel => self.channel@,
            ScopeKind::Role => self.role@,
            ScopeKind::Member => self.member@,
        }
    }

    /// Each table keeps one row per scope and action, and only rows of its
    /// own kind.
    pub open spec fn wf(&self) -> bool {
        forall|kind: ScopeKind|
            unique_keys(#[trigger] self.rows(kind)) && all_of_kind(self.rows(kind), kind)
    }

    /// The full candidate list of a query, in the order it is folded: the
    /// default policy, then channel, guild, member and role candidates.
    pub open spec fn candidates(&self, ctx: PolicyContext, action: Seq<char>) -> Seq<PolicyView> {
        seq![Policy::default_view()] + channel_candidates(
            self.rows(ScopeKind::Channel),
            ctx.channel_id,
            action,
        ) + guild_candidates(self.rows(ScopeKind::Guild), ctx.guild_id, action)
            + member_candidates(self.rows(ScopeKind::Member), ctx.guild_id, ctx.user_id, action)
            + role_candidates(self.rows(ScopeKind::Role), ctx.roles@, action)
    }

    /// The table that holds the policies of a principle. The global scope
    /// has none and is refused.
    pub fn table_of(principle: &Principle) -> (r: Result<ScopeKind, InvalidScopeError>)
        ensures
            match scope_kind(*principle) {
                Some(kind) => r == Ok::<ScopeKind, InvalidScopeError>(kind),
                None => r.is_err(),
            },
    {
        match principle {
            Principle::Global => Err(InvalidScopeError),
            Principle::Guild(_) => Ok(ScopeKind::Guild),
            Principle::Channel(_) => Ok(ScopeKind::Channel),
            Principle::Role(_) => Ok(ScopeKind::Role),
            Principle::Member(_, _) => Ok(ScopeKind::Member),
        }
    }

    /// A manager with nothing stored.
    pub fn new() -> (m: PolicyManager)
        ensures
            m.wf(),
            forall|kind: ScopeKind| #[trigger] m.rows(kind) == Seq::<PolicyView>::empty(),
    {
        PolicyManager {
            guild: PolicyTable::new(),
            channel: PolicyTable::new(),
            role: PolicyTable::new(),
            member: PolicyTable::new(),
        }
    }

    /// Stores `policy`, replacing what was stored for its scope and action.
    /// A policy on the global scope is refused and nothing is written.
    pub fn save_policy(&mut self, policy: &Policy) -> (r: Result<(), InvalidScopeError>)
        requires
            old(self).wf(),
        ensures
            final(self).wf(),
            r.is_err() <==> policy.principle == Principle::Global,
            forall|kind: ScopeKind| #[trigger]
                final(self).rows(kind) == if scope_kind(policy.principle) == Some(kind) {
                    upsert_rows(old(self).rows(kind), policy@)
                } else {
                    old(self).rows(kind)
                },
    {
        proof {
            assert(unique_keys(self.rows(ScopeKind::Guild)));
            assert(unique_keys(self.rows(ScopeKind::Channel)));
            assert(unique_keys(self.rows(ScopeKind::Role)));
            assert(unique_keys(self.rows(ScopeKind::Member)));
            lemma_upsert_kind(self.rows(ScopeKind::Guild), policy@, ScopeKind::Guild);
            lemma_upsert_kind(self.rows(ScopeKind::Channel), policy@, ScopeKind::Channel);
            lemma_upsert_kind(self.rows(ScopeKind::Role), policy@, ScopeKind::Role);
            lemma_upsert_kind(self.rows(ScopeKind::Member), policy@, ScopeKind::Member);
        }
        match PolicyManager::table_of(&policy.principle) {
            Err(e) => {
                return Err(e);
            },
            Ok(ScopeKind::Guild) => self.guild.upsert(policy.clone()),
            Ok(ScopeKind::Channel) => self.channel.upsert(policy.clone()),
            Ok(ScopeKind::Role) => self.role.upsert(policy.clone()),
            Ok(ScopeKind::Member) => self.member.upsert(policy.clone()),
        }
        Ok(())
    }

    /// Clears what is stored for `principle` and `action`. Clearing what is
    /// not there succeeds and changes nothing; the global scope is refused.
    pub fn clear_policy(&mut self, principle: Principle, action: String) -> (r: Result<
        (),
        InvalidScopeError,
    >)
        requires
            old(self).wf(),
        ensures
            final(self).wf(),
            r.is_err() <==> principle == Principle::Global,
            forall|kind: ScopeKind| #[trigger]
                final(self).rows(kind) == if scope_kind(principle) == Some(kind) {
                    remove_rows(old(self).rows(kind), principle, action@)
                } else {
                    old(self).rows(kind)
                },
    {
        proof {
            assert(unique_keys(self.rows(ScopeKind::Guild)));
            assert(unique_keys(self.rows(ScopeKind::Channel)));
            assert(unique_keys(self.rows(ScopeKind::Role)));
            assert(unique_keys(self.rows(ScopeKind::Member)));
            lemma_remove_kind(self.rows(ScopeKind::Guild), principle, action@, ScopeKind::Guild);
            lemma_remove_kind(self.rows(ScopeKind::Channel), principle, action@, ScopeKind::Channel);
            lemma_remove_kind(self.rows(ScopeKind::Role), principle, action@, ScopeKind::Role);
            lemma_remove_kind(self.rows(ScopeKind::Member), principle, action@, ScopeKind::Member);
        }
        match PolicyManager::table_of(&principle) {
            Err(e) => {
                return Err(e);
            },
            Ok(ScopeKind::Guild) => self.guild.delete(principle, action.as_str()),
            Ok(ScopeKind::Channel) => self.channel.delete(principle, action.as_str()),
            Ok(ScopeKind::Role) => self.role.delete(principle, action.as_str()),
            Ok(ScopeKind::Member) => self.member.delete(principle, action.as_str()),
        }
        Ok(())
    }

    /// The stored policies of a guild that match `action`.
    pub fn guild_policies(&self, guild_id: u64, action: &str) -> (r: Vec<Policy>)
        ensures
            views(r@) == select(self.rows(ScopeKind::Guild), Principle::Guild(guild_id), action@),
    {
        self.guild.lookup_candidates(Principle::Guild(guild_id), action)
    }

    /// The stored policies of a channel that match `action`.
    pub fn channel_policies(&self, channel_id: u64, action: &str) -> (r: Vec<Policy>)
        ensures
            views(r@) == select(
                self.rows(ScopeKind::Channel),
                Principle::Channel(channel_id),
                action@,
            ),
    {
        self.channel.lookup_candidates(Principle::Channel(channel_id), action)
    }

    /// The stored policies of a role that match `action`.
    pub fn role_policies(&self, role_id: u64, action: &str) -> (r: Vec<Policy>)
        ensures
            views(r@) == select(self.rows(ScopeKind::Role), Principle::Role(role_id), action@),
    {
        self.role.lookup_candidates(Principle::Role(role_id), action)
    }

    /// The stored policies of a member of a guild that match `action`.
    pub fn member_policies(&self, guild_id: u64, user_id: u64, action: &str) -> (r: Vec<Policy>)
        ensures
            views(r@) == select(
                self.rows(ScopeKind::Member),
                Principle::Member(guild_id, user_id),
                action@,
            ),
    {
        self.member.lookup_candidates(Principle::Member(guild_id, user_id), action)
    }

    /// What a query for `action` reads at one scope.
    pub open spec fn found(&self, scope: Principle, action: Seq<char>) -> Seq<PolicyView> {
        match scope_kind(scope) {
            Some(kind) => select(self.rows(kind), scope, action),
            None => Seq::empty(),
        }
    }

    /// What a query for `action` reads at each of the scopes, in order.
    pub open spec fn found_all(&self, scopes: Seq<Principle>, action: Seq<char>) -> Seq<
        Seq<PolicyView>,
    > {
        Seq::new(scopes.len(), |i: int| self.found(scopes[i], action))
    }

    /// Every stored row of `scope` whose action is a prefix of `action`;
    /// nothing for the global scope, which stores none.
    pub fn lookup_candidates(&self, scope: Principle, action: &str) -> (r: Vec<Policy>)
        ensures
            views(r@) == self.found(scope, action@),
    {
        match PolicyManager::table_of(&scope) {
            Err(_) => {
                let r: Vec<Policy> = Vec::new();
                assert(views(r@) =~= Seq::<PolicyView>::empty());
                r
            },
            Ok(ScopeKind::Guild) => self.guild.lookup_candidates(scope, action),
            Ok(ScopeKind::Channel) => self.channel.lookup_candidates(scope, action),
            Ok(ScopeKind::Role) => self.role.lookup_candidates(scope, action),
            Ok(ScopeKind::Member) => self.member.lookup_candidates(scope, action),
        }
    }

    /// Gathers the candidates of a query in the order they are folded:
    /// reads each scope of the context in turn and puts the default policy
    /// in front.
    pub fn gather(&self, ctx: &PolicyContext, action: &str) -> (r: Vec<Policy>)
        ensures
            views(r@) == self.candidates(*ctx, action@),
    {
        let scopes = ctx.scopes();
        let mut found: Vec<Vec<Policy>> = Vec::new();
        let mut i: usize = 0;
        while i < scopes.len()
            invariant
                i <= scopes.len(),
                found@.len() == i,
                list_views(found@) =~= self.found_all(scopes@.take(i as int), action@),
            decreases scopes.len() - i,
        {
            let ghost before = found@;
            let list = self.lookup_candidates(scopes[i], action);
            found.push(list);
            proof {
                let upto = scopes@.take(i as int + 1);
                assert(upto[i as int] == scopes@[i as int]);
                assert forall|k: int| 0 <= k < found@.len() implies list_views(found@)[k]
                    == self.found_all(upto, action@)[k] by {
                    if k < i {
                        assert(found@[k] == before[k]);
                        assert(list_views(before)[k] == self.found_all(
                            scopes@.take(i as int),
                            action@,
                        )[k]);
                        assert(scopes@.take(i as int)[k] == upto[k]);
                    }
                }
            }
            i += 1;
        }
        proof {
            assert(scopes@.take(i as int) =~= scopes@);
            law_candidates_are_read_scope_by_scope(*self, *ctx, action@);
        }
        Policy::candidates_of(found)
    }
}

impl PolicyManager {
    /// The effective policy of a query at the instant `now`: the fold of
    /// its candidates, which starts from the default policy. The result is
    /// always a policy in force; with no candidate stored it is the
    /// default, which denies.
    pub fn effective_policy_at<O: RoleOrder>(
        &self,
        ctx: &PolicyContext,
        action: &str,
        now: Timestamp,
        order: &O,
    ) -> (r: Policy)
        ensures
            r@ == combine(self.candidates(*ctx, action@), now, order),
            r@.valid_at(now),
    {
        let policies = self.gather(ctx, action);
        proof {
            crate::laws::law_resolution_defaults_to_deny(*self, *ctx, action@, now, order);
        }
        Policy::resolve_at(policies, now, order)
    }

    /// The effective policy of a query at the instant `now`, or the first
    /// conflict among its candidates that nothing ranks. `effective_policy_at`
    /// settles such a conflict in favour of the policy that denies.
    pub fn try_effective_policy_at<O: RoleOrder>(
        &self,
        ctx: &PolicyContext,
        action: &str,
        now: Timestamp,
        order: &O,
    ) -> (r: Result<Policy, AmbiguousPolicyError>)
        ensures
            r.is_ok() == combine_is_clean(self.candidates(*ctx, action@), now, order),
            r matches Ok(p) ==> p@ == combine(self.candidates(*ctx, action@), now, order)
                && p@.valid_at(now),
            r matches Err(e) ==> merge_choice(
                e.current@,
                e.candidate@,
                now,
                role_tie(order, e.current.principle, e.candidate.principle),
            ) == MergeChoice::Ambiguous,
    {
        let policies = self.gather(ctx, action);
        proof {
            crate::laws::law_resolution_defaults_to_deny(*self, *ctx, action@, now, order);
        }
        Policy::try_combined_at(policies, now, order)
    }

    /// The effective policy of a query at the clock's current instant.
    pub fn effective_policy<O: RoleOrder>(&self, ctx: &PolicyContext, action: &str, order: &O) -> (r:
        Policy)
        ensures
            exists|now: Timestamp|
                r@ == combine(self.candidates(*ctx, action@), now, order) && r@.valid_at(now),
    {
        let now = Timestamp::now();
        self.effective_policy_at(ctx, action, now, order)
    }
}

/// Lists put one after the other, flattened, are the two flattened halves
/// one after the other.
pub proof fn lemma_flattened_concat(a: Seq<Seq<PolicyView>>, b: Seq<Seq<PolicyView>>)
    ensures
        flattened(a + b) == flattened(a) + flattened(b),
    decreases b.len(),
{
    if b.len() == 0 {
        assert(a + b =~= a);
        assert(flattened(a) + flattened(b) =~= flattened(a));
    } else {
        lemma_flattened_concat(a, b.drop_last());
        assert((a + b).drop_last() =~= a + b.drop_last());
        assert((a + b).last() == b.last());
        assert(flattened(a + b) =~= flattened(a) + flattened(b));
    }
}

/// One list, flattened, is that list.
pub proof fn lemma_flattened_one(lists: Seq<Seq<PolicyView>>)
    requires
        lists.len() == 1,
    ensures
        flattened(lists) == lists[0],
{
    assert(lists.drop_last() =~= Seq::<Seq<PolicyView>>::empty());
    assert(flattened(lists.drop_last()) =~= Seq::<PolicyView>::empty());
    assert(flattened(lists) =~= lists[0]);
}

/// What is read for the role scopes, flattened, is the role candidates.
pub proof fn lemma_roles_read_in_order(manager: PolicyManager, roles: Seq<u64>, action: Seq<char>)
    ensures
        flattened(manager.found_all(role_scopes(roles), action)) == role_candidates(
            manager.rows(ScopeKind::Role),
            roles,
            action,
        ),
    decreases roles.len(),
{
    let lists = manager.found_all(role_scopes(roles), action);
    if roles.len() > 0 {
        lemma_roles_read_in_order(manager, roles.drop_last(), action);
        assert(lists.drop_last() =~= manager.found_all(role_scopes(roles.drop_last()), action));
        assert(lists.last() == select(
            manager.rows(ScopeKind::Role),
            Principle::Role(roles.last()),
            action,
        ));
    }
}

/// The candidates of a query are the default policy followed by what is
/// read at each scope of its context, scope by scope in order.
pub proof fn law_candidates_are_read_scope_by_scope(
    manager: PolicyManager,
    ctx: PolicyContext,
    action: Seq<char>,
)
    ensures
        manager.candidates(ctx, action) == seq![Policy::default_view()] + flattened(
            manager.found_all(scopes_of(ctx), action),
        ),
{
    let c: Seq<Principle> = match ctx.channel_id {
        Some(c) => seq![Principle::Channel(c)],
        None => Seq::empty(),
    };
    let g: Seq<Principle> = match ctx.guild_id {
        Some(g) => seq![Principle::Guild(g)],
        None => Seq::empty(),
    };
    let m: Seq<Principle> = match (ctx.guild_id, ctx.user_id) {
        (Some(g), Some(u)) => seq![Principle::Member(g, u)],
        _ => Seq::empty(),
    };
    let r = role_scopes(ctx.roles@);
    let fc = manager.found_all(c, action);
    let fg = manager.found_all(g, action);
    let fm = manager.found_all(m, action);
    let fr = manager.found_all(r, action);
    assert(manager.found_all(scopes_of(ctx), action) =~= fc + fg + fm + fr);
    lemma_flattened_concat(fc + fg + fm, fr);
    lemma_flattened_concat(fc + fg, fm);
    lemma_flattened_concat(fc, fg);
    lemma_roles_read_in_order(manager, ctx.roles@, action);
    assert(flattened(fc) =~= channel_candidates(
        manager.rows(ScopeKind::Channel),
        ctx.channel_id,
        action,
    )) by {
        if ctx.channel_id.is_some() {
            lemma_flattened_one(fc);
        }
    }
    assert(flattened(fg) =~= guild_candidates(manager.rows(ScopeKind::Guild), ctx.guild_id, action))
        by {
        if ctx.guild_id.is_some() {
            lemma_flattened_one(fg);
        }
    }
    assert(flattened(fm) =~= member_candidates(
        manager.rows(ScopeKind::Member),
        ctx.guild_id,
        ctx.user_id,
        action,
    )) by {
        if ctx.guild_id.is_some() && ctx.user_id.is_some() {
            lemma_flattened_one(fm);
        }
    }
    assert(manager.candidates(ctx, action) =~= seq![Policy::default_view()] + flattened(
        manager.found_all(scopes_of(ctx), action),
    ));
}

/// Writing a policy into the table of its own kind keeps the table's rows
/// of that kind.
pub proof fn lemma_upsert_kind(rows: Seq<PolicyView>, policy: PolicyView, kind: ScopeKind)
    requires
        all_of_kind(rows, kind),
    ensures
        scope_kind(policy.principle) == Some(kind) ==> all_of_kind(upsert_rows(rows, policy), kind),
{
}

/// Clearing a row keeps the table's rows of its kind.
pub proof fn lemma_remove_kind(
    rows: Seq<PolicyView>,
    principle: Principle,
    action: Seq<char>,
    kind: ScopeKind,
)
    requires
        all_of_kind(rows, kind),
    ensures
        all_of_kind(remove_rows(rows, principle, action), kind),
{
}

} // verus!
