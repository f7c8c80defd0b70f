//! Policies, the scopes they attach to, and the rule that picks the most
//! specific of two.

use vstd::prelude::*;
use crate::time::Timestamp;
use crate::roles::{RoleOrder, RoleOrdering};

verus! {

/// The scope a policy is attached to. Identifiers are the platform's
/// numeric ids.
#[derive(Debug, Copy, Clone, Eq, PartialEq, Hash, Structural)]
pub enum Principle {
    Global,
    Guild(u64),
    Channel(u64),
    Role(u64),
    Member(u64, u64),
}

impl Principle {
    /// Position of the scope's kind in `Global < Guild < Channel < Role < Member`.
    pub open spec fn kind_rank(self) -> nat {
        match self {
            Principle::Global => 0,
            Principle::Guild(_) => 1,
            Principle::Channel(_) => 2,
            Principle::Role(_) => 3,
            Principle::Member(_, _) => 4,
        }
    }

    pub fn rank(&self) -> (r: u8)
        ensures
            r as nat == self.kind_rank(),
    {
        match self {
            Principle::Global => 0,
            Principle::Guild(_) => 1,
            Principle::Channel(_) => 2,
            Principle::Role(_) => 3,
            Principle::Member(_, _) => 4,
        }
    }
}

#[derive(Debug, Copy, Clone, Eq, PartialEq, Hash, Structural)]
pub enum Effect {
    Allow,
    Deny,
}

/// One stored rule.
#[derive(Debug)]
pub struct Policy {
    pub principle: Principle,
    pub action: String,
    pub effect: Effect,
    pub until: Option<Timestamp>,
}

/// What a policy says, with the action as its characters.
pub struct PolicyView {
    pub principle: Principle,
    pub action: Seq<char>,
    pub effect: Effect,
    pub until: Option<Timestamp>,
}

impl View for Policy {
    type V = PolicyView;

    open spec fn view(&self) -> PolicyView {
        PolicyView {
            principle: self.principle,
            action: self.action@,
            effect: self.effect,
            until: self.until,
        }
    }
}

impl PolicyView {
    /// The action's length in bytes of UTF-8.
    pub open spec fn action_len(self) -> nat {
        vstd::utf8::encode_utf8(self.action).len()
    }

    /// Not expired at `now`: no expiry, or one strictly later than `now`.
    pub open spec fn valid_at(self, now: Timestamp) -> bool {
        match self.until {
            Some(until) => until.after(now),
            None => true,
        }
    }
}

/// The input of a query: where it comes from and on whose behalf.
#[derive(Debug)]
pub struct PolicyContext {
    pub guild_id: Option<u64>,
    pub channel_id: Option<u64>,
    pub roles: Vec<u64>,
    pub user_id: Option<u64>,
}

/// What the merge of a current policy with a candidate comes to.
#[derive(Debug, Copy, Clone, Eq, PartialEq, Hash, Structural)]
pub enum MergeChoice {
    KeepCurrent,
    TakeCandidate,
    Ambiguous,
}

/// `a` is strictly more specific than `b`: a longer action, or an equally
/// long one on a scope of a higher kind.
pub open spec fn outranks(a: PolicyView, b: PolicyView) -> bool {
    a.action_len() > b.action_len() || (a.action_len() == b.action_len()
        && a.principle.kind_rank() > b.principle.kind_rank())
}

/// Neither policy outranks the other.
pub open spec fn same_rank(a: PolicyView, b: PolicyView) -> bool {
    a.action_len() == b.action_len() && a.principle.kind_rank() == b.principle.kind_rank()
}

/// Both policies sit on roles, and on different ones.
pub open spec fn distinct_roles(a: Principle, b: Principle) -> bool {
    match (a, b) {
        (Principle::Role(x), Principle::Role(y)) => x != y,
        _ => false,
    }
}

/// The hierarchy's verdict on the roles of two principles; `Equal` where
/// either is no role.
pub open spec fn role_tie<O: RoleOrder>(order: &O, a: Principle, b: Principle) -> RoleOrdering {
    match (a, b) {
        (Principle::Role(x), Principle::Role(y)) => order.order(x, y),
        _ => RoleOrdering::Equal,
    }
}

/// The merge rule, given that the candidate has not expired. `tie` is the
/// hierarchy's verdict on (current role, candidate role) and is read only
/// where both policies sit on different roles at the same rank.
pub open spec fn choice_when_valid(
    current: PolicyView,
    candidate: PolicyView,
    tie: RoleOrdering,
) -> MergeChoice {
    if outranks(candidate, current) {
        MergeChoice::TakeCandidate
    } else if outranks(current, candidate) {
        MergeChoice::KeepCurrent
    } else if distinct_roles(current.principle, candidate.principle) {
        if tie == RoleOrdering::Less {
            MergeChoice::TakeCandidate
        } else {
            MergeChoice::KeepCurrent
        }
    } else if current.effect == candidate.effect {
        MergeChoice::KeepCurrent
    } else {
        MergeChoice::Ambiguous
    }
}

/// The merge rule at the instant `now`: an expired candidate is dropped.
pub open spec fn merge_choice(
    current: PolicyView,
    candidate: PolicyView,
    now: Timestamp,
    tie: RoleOrdering,
) -> MergeChoice {
    if !candidate.valid_at(now) {
        MergeChoice::KeepCurrent
    } else {
        choice_when_valid(current, candidate, tie)
    }
}

/// The outcome of merging two policies: the one that stands, or both where
/// they conflict at the same specificity (current first, then candidate).
#[derive(Debug)]
pub enum Merged {
    Resolved(Policy),
    Ambiguous(Policy, Policy),
}

/// The outcome that `choice` selects from `current` and `candidate`.
pub open spec fn merged_of(choice: MergeChoice, current: Policy, candidate: Policy) -> Merged {
    match choice {
        MergeChoice::KeepCurrent => Merged::Resolved(current),
        MergeChoice::TakeCandidate => Merged::Resolved(candidate),
        MergeChoice::Ambiguous => Merged::Ambiguous(current, candidate),
    }
}

/// The policy that stands after a merge once a conflict is settled: of two
/// policies that conflict, the one that denies.
pub open spec fn settled(choice: MergeChoice, current: PolicyView, candidate: PolicyView) -> PolicyView {
    match choice {
        MergeChoice::KeepCurrent => current,
        MergeChoice::TakeCandidate => candidate,
        MergeChoice::Ambiguous => if current.effect == Effect::Deny {
            current
        } else {
            candidate
        },
    }
}

/// One step of the fold: the current policy merged with one candidate.
pub open spec fn step<O: RoleOrder>(
    current: PolicyView,
    candidate: PolicyView,
    now: Timestamp,
    order: &O,
) -> PolicyView {
    settled(
        merge_choice(current, candidate, now, role_tie(order, current.principle, candidate.principle)),
        current,
        candidate,
    )
}

/// The fold, left to right, of `rest` into `current`.
pub open spec fn fold<O: RoleOrder>(
    current: PolicyView,
    rest: Seq<PolicyView>,
    now: Timestamp,
    order: &O,
) -> PolicyView
    decreases rest.len(),
{
    if rest.len() == 0 {
        current
    } else {
        fold(step(current, rest[0], now, order), rest.drop_first(), now, order)
    }
}

/// The fold of a whole list, seeded with its first policy; the default
/// policy for an empty list.
pub open spec fn combine<O: RoleOrder>(all: Seq<PolicyView>, now: Timestamp, order: &O) -> PolicyView {
    if all.len() == 0 {
        Policy::default_view()
    } else {
        fold(all[0], all.drop_first(), now, order)
    }
}

/// No step of the fold meets a conflict it cannot rank.
pub open spec fn fold_is_clean<O: RoleOrder>(
    current: PolicyView,
    rest: Seq<PolicyView>,
    now: Timestamp,
    order: &O,
) -> bool
    decreases rest.len(),
{
    rest.len() == 0 || (merge_choice(
        current,
        rest[0],
        now,
        role_tie(order, current.principle, rest[0].principle),
    ) != MergeChoice::Ambiguous && fold_is_clean(
        step(current, rest[0], now, order),
        rest.drop_first(),
        now,
        order,
    ))
}

/// The fold of a whole list meets no conflict.
pub open spec fn combine_is_clean<O: RoleOrder>(all: Seq<PolicyView>, now: Timestamp, order: &O) -> bool {
    all.len() == 0 || fold_is_clean(all[0], all.drop_first(), now, order)
}

/// Two policies in force of the same specificity that disagree and that
/// nothing ranks: the policy that stood, and the candidate that met it.
#[derive(Debug)]
pub struct AmbiguousPolicyError {
    pub current: Policy,
    pub candidate: Policy,
}

/// The policy a list of candidates resolves to: what the fold returns,
/// or the default policy should that not be in force.
pub open spec fn resolve<O: RoleOrder>(all: Seq<PolicyView>, now: Timestamp, order: &O) -> PolicyView {
    if combine(all, now, order).valid_at(now) {
        combine(all, now, order)
    } else {
        Policy::default_view()
    }
}

/// The views of a list of policies, in order.
pub open spec fn views(policies: Seq<Policy>) -> Seq<PolicyView> {
    Seq::new(policies.len(), |i: int| policies[i]@)
}

impl Merged {
    /// The single policy of an outcome: a conflict is settled in favour of
    /// the policy that denies.
    pub fn settle(self) -> (p: Policy)
        ensures
            p == match self {
                Merged::Resolved(q) => q,
                Merged::Ambiguous(a, b) => if a.effect == Effect::Deny {
                    a
                } else {
                    b
                },
            },
    {
        match self {
            Merged::Resolved(q) => q,
            Merged::Ambiguous(a, b) => {
                if a.effect == Effect::Deny {
                    a
                } else {
                    b
                }
            },
        }
    }

    /// Whether the merge met two policies it could not rank.
    pub fn is_ambiguous(&self) -> (r: bool)
        ensures
            r == (*self is Ambiguous),
    {
        match self {
            Merged::Resolved(_) => false,
            Merged::Ambiguous(_, _) => true,
        }
    }
}

impl Policy {
    /// The synthetic default: deny everything, everywhere, forever.
    pub open spec fn default_view() -> PolicyView {
        PolicyView {
            principle: Principle::Global,
            action: Seq::<char>::empty(),
            effect: Effect::Deny,
            until: None,
        }
    }

    /// The action's length in bytes.
    pub fn action_len(&self) -> (n: usize)
        ensures
            n as nat == self@.action_len(),
    {
        self.action.as_str().as_bytes().len()
    }

    /// Whether the policy is in force at `now`.
    pub fn is_valid_at(&self, now: Timestamp) -> (r: bool)
        ensures
            r == self@.valid_at(now),
    {
        match self.until {
            Some(until) => until.is_after(&now),
            None => true,
        }
    }

    /// Whether the policy is in force at the clock's current instant. A
    /// policy without expiry always is.
    pub fn is_valid(&self) -> (r: bool)
        ensures
            self.until.is_none() ==> r,
            exists|now: Timestamp| r == self@.valid_at(now),
    {
        let now = Timestamp::now();
        self.is_valid_at(now)
    }

    /// Merges `self`, the current policy, with the candidate `other` at the
    /// instant `now`, keeping the more specific: the longer action, then
    /// the higher kind of scope, then for two different roles the one that
    /// `order` places higher. An expired candidate is dropped. Two policies
    /// of the same specificity that disagree, and are not told apart by
    /// roles, come back together as `Ambiguous`.
    pub fn merge_at<O: RoleOrder>(self, other: Policy, now: Timestamp, order: &O) -> (r: Merged)
        ensures
            r == merged_of(
                merge_choice(self@, other@, now, role_tie(order, self.principle, other.principle)),
                self,
                other,
            ),
    {
        if !other.is_valid_at(now) {
            return Merged::Resolved(self);
        }
        self.merge_valid(other, order)
    }

    /// The merge of `self` with a candidate known to be in force.
    pub fn merge_valid<O: RoleOrder>(self, other: Policy, order: &O) -> (r: Merged)
        ensures
            r == merged_of(
                choice_when_valid(self@, other@, role_tie(order, self.principle, other.principle)),
                self,
                other,
            ),
    {
        let self_len = self.action_len();
        let other_len = other.action_len();
        let self_rank = self.principle.rank();
        let other_rank = other.principle.rank();
        if other_len > self_len || (other_len == self_len && other_rank > self_rank) {
            Merged::Resolved(other)
        } else if self_len > other_len || (self_len == other_len && self_rank > other_rank) {
            Merged::Resolved(self)
        } else {
            match (self.principle, other.principle) {
                (Principle::Role(self_role), Principle::Role(other_role)) if self_role
                    != other_role => {
                    match order.compare(self_role, other_role) {
                        RoleOrdering::Less => Merged::Resolved(other),
                        _ => Merged::Resolved(self),
                    }
                },
                _ => {
                    if self.effect == other.effect {
                        Merged::Resolved(self)
                    } else {
                        Merged::Ambiguous(self, other)
                    }
                },
            }
        }
    }

    /// Merges at the clock's current instant. Whatever the clock says, the
    /// outcome is either the current policy kept or the merge with a
    /// candidate in force; a candidate without expiry is always in force.
    pub fn merge_with<O: RoleOrder>(self, other: Policy, order: &O) -> (r: Merged)
        ensures
            exists|now: Timestamp|
                r == merged_of(
                    merge_choice(
                        self@,
                        other@,
                        now,
                        role_tie(order, self.principle, other.principle),
                    ),
                    self,
                    other,
                ),
            r == Merged::Resolved(self) || r == merged_of(
                choice_when_valid(self@, other@, role_tie(order, self.principle, other.principle)),
                self,
                other,
            ),
            other.until.is_none() ==> r == merged_of(
                choice_when_valid(self@, other@, role_tie(order, self.principle, other.principle)),
                self,
                other,
            ),
    {
        let now = Timestamp::now();
        self.merge_at(other, now, order)
    }
}

impl Policy {
    /// Folds `policies`, left to right from the first, into the one that
    /// stands at `now`. An empty list gives the default policy.
    pub fn combined_at<O: RoleOrder>(policies: Vec<Policy>, now: Timestamp, order: &O) -> (r: Policy)
        ensures
            r@ == combine(views(policies@), now, order),
    {
        if policies.len() == 0 {
            return Policy::default();
        }
        let mut acc = policies[0].clone();
        let mut i: usize = 1;
        proof {
            assert(views(policies@).drop_first() =~= views(policies@).skip(1));
        }
        while i < policies.len()
            invariant
                1 <= i <= policies.len(),
                fold(acc@, views(policies@).skip(i as int), now, order) == combine(
                    views(policies@),
                    now,
                    order,
                ),
            decreases policies.len() - i,
        {
            let candidate = policies[i].clone();
            proof {
                let rest = views(policies@).skip(i as int);
                assert(rest[0] == candidate@);
                assert(rest.drop_first() =~= views(policies@).skip(i as int + 1));
            }
            acc = acc.merge_at(candidate, now, order).settle();
            i += 1;
        }
        acc
    }

    /// Folds `policies` as `combined_at` does, but stops at the first
    /// conflict it cannot rank and hands the two policies back.
    pub fn try_combined_at<O: RoleOrder>(policies: Vec<Policy>, now: Timestamp, order: &O) -> (r:
        Result<Policy, AmbiguousPolicyError>)
        ensures
            r.is_ok() == combine_is_clean(views(policies@), now, order),
            r matches Ok(p) ==> p@ == combine(views(policies@), now, order),
            r matches Err(e) ==> merge_choice(
                e.current@,
                e.candidate@,
                now,
                role_tie(order, e.current.principle, e.candidate.principle),
            ) == MergeChoice::Ambiguous && policies@.contains(e.candidate),
    {
        if policies.len() == 0 {
            return Ok(Policy::default());
        }
        let mut acc = policies[0].clone();
        let mut i: usize = 1;
        proof {
            assert(views(policies@).drop_first() =~= views(policies@).skip(1));
        }
        while i < policies.len()
            invariant
                1 <= i <= policies.len(),
                fold(acc@, views(policies@).skip(i as int), now, order) == combine(
                    views(policies@),
                    now,
                    order,
                ),
                fold_is_clean(acc@, views(policies@).skip(i as int), now, order)
                    == combine_is_clean(views(policies@), now, order),
            decreases policies.len() - i,
        {
            let candidate = policies[i].clone();
            proof {
                let rest = views(policies@).skip(i as int);
                assert(rest[0] == candidate@);
                assert(rest.drop_first() =~= views(policies@).skip(i as int + 1));
            }
            match acc.merge_at(candidate, now, order) {
                Merged::Resolved(p) => {
                    acc = p;
                },
                Merged::Ambiguous(current, candidate) => {
                    assert(policies@[i as int] == candidate);
                    return Err(AmbiguousPolicyError { current, candidate });
                },
            }
            i += 1;
        }
        Ok(acc)
    }

    /// Folds `policies` and guards the result: a folded policy that is not
    /// in force gives way to the default policy. The fold drops expired
    /// candidates, so this can only happen where the first policy of the
    /// list has itself expired.
    pub fn resolve_at<O: RoleOrder>(policies: Vec<Policy>, now: Timestamp, order: &O) -> (r: Policy)
        ensures
            r@ == resolve(views(policies@), now, order),
            r@.valid_at(now),
    {
        let combined = Policy::combined_at(policies, now, order);
        if !combined.is_valid_at(now) {
            return Policy::default();
        }
        combined
    }

    /// Folds `policies` at the clock's current instant.
    pub fn combined<O: RoleOrder>(policies: Vec<Policy>, order: &O) -> (r: Policy)
        ensures
            exists|now: Timestamp| r@ == combine(views(policies@), now, order),
    {
        let now = Timestamp::now();
        Policy::combined_at(policies, now, order)
    }
}

impl Clone for Policy {
    fn clone(&self) -> (p: Policy)
        ensures
            p == *self,
    {
        Policy {
            principle: self.principle,
            action: self.action.clone(),
            effect: self.effect,
            until: self.until,
        }
    }
}

impl Default for Policy {
    fn default() -> (p: Policy)
        ensures
            p@ == Policy::default_view(),
    {
        Policy { principle: Principle::Global, action: String::new(), effect: Effect::Deny, until: None }
    }
}

} // verus!
