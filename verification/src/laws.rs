//! What holds of the merge rule, the fold and the tables, whatever the
//! policies at hand.

use vstd::prelude::*;
use crate::policy::{
    combine, distinct_roles, fold, merge_choice, outranks, role_tie, same_rank, step, Effect,
    MergeChoice, Policy, PolicyContext, PolicyView, Principle,
};
use crate::policy_manager::{PolicyManager, ScopeKind};
use crate::roles::{hierarchy_order, RoleEntry, RoleOrder, RoleOrdering};
use crate::store::{
    has_key, is_candidate, key_index, remove_rows, same_key, select, unique_keys, upsert_rows,
};
use crate::time::Timestamp;

verus! {

/// The default policy never expires.
pub proof fn law_default_is_valid(now: Timestamp)
    ensures
        Policy::default_view().valid_at(now),
        Policy::default_view().effect == Effect::Deny,
        Policy::default_view().principle == Principle::Global,
{
}

/// Merging the default policy with a policy in force on any scope but the
/// global one yields that policy, whichever of the two is the current one
/// and whatever the role hierarchy says.
pub proof fn law_default_yields(p: PolicyView, now: Timestamp, tie: RoleOrdering)
    requires
        p.valid_at(now),
        p.principle != Principle::Global,
    ensures
        merge_choice(Policy::default_view(), p, now, tie) == MergeChoice::TakeCandidate,
        merge_choice(p, Policy::default_view(), now, tie) == MergeChoice::KeepCurrent,
{
    let d = Policy::default_view();
    assert(d.action =~= Seq::<char>::empty());
    assert(d.action_len() == 0) by {
        reveal_with_fuel(vstd::utf8::encode_utf8, 1);
    }
    assert(p.principle.kind_rank() > 0);
}

/// The same in terms of the fold: of the default policy and a policy in
/// force on a narrower scope, in either order, the fold keeps the latter.
pub proof fn law_default_yields_either_order<O: RoleOrder>(p: PolicyView, now: Timestamp, order: &O)
    requires
        p.valid_at(now),
        p.principle != Principle::Global,
    ensures
        combine(seq![Policy::default_view(), p], now, order) == p,
        combine(seq![p, Policy::default_view()], now, order) == p,
{
    let d = Policy::default_view();
    law_default_yields(p, now, RoleOrdering::Equal);
    let a = seq![d, p];
    let b = seq![p, d];
    assert(a.drop_first() =~= seq![p]);
    assert(b.drop_first() =~= seq![d]);
    assert(seq![p].drop_first() =~= Seq::<PolicyView>::empty());
    assert(seq![d].drop_first() =~= Seq::<PolicyView>::empty());
    assert(step(d, p, now, order) == p);
    assert(step(p, d, now, order) == p);
    assert(fold(p, Seq::<PolicyView>::empty(), now, order) == p);
    assert(fold(d, seq![p], now, order) == fold(step(d, seq![p][0], now, order), seq![p].drop_first(), now, order));
    assert(fold(p, seq![d], now, order) == fold(step(p, seq![d][0], now, order), seq![d].drop_first(), now, order));
}

/// An expired candidate never replaces the current policy.
pub proof fn law_expired_candidate_is_dropped<O: RoleOrder>(
    current: PolicyView,
    candidate: PolicyView,
    now: Timestamp,
    order: &O,
)
    requires
        !candidate.valid_at(now),
    ensures
        step(current, candidate, now, order) == current,
{
}

/// The verdict with the two roles taken the other way round.
pub open spec fn reversed(verdict: RoleOrdering) -> RoleOrdering {
    match verdict {
        RoleOrdering::Less => RoleOrdering::Greater,
        RoleOrdering::Equal => RoleOrdering::Equal,
        RoleOrdering::Greater => RoleOrdering::Less,
    }
}

/// A hierarchy of known positions gives opposite verdicts on a pair of
/// roles and on the same pair the other way round.
pub proof fn law_hierarchy_antisymmetric(roles: Seq<RoleEntry>, lhs: u64, rhs: u64)
    ensures
        hierarchy_order(roles, lhs, rhs) == reversed(hierarchy_order(roles, rhs, lhs)),
{
}

/// The merge does not depend on which of two policies in force is the
/// current one: both ways round it decides the same effect, and it keeps
/// the very same policy wherever one outranks the other, the two sit on
/// different roles, or they disagree. This is asked of the hierarchy: on
/// two different roles at the same rank its verdicts are opposite, and not
/// `Equal`.
pub proof fn law_merge_commutes<O: RoleOrder>(a: PolicyView, b: PolicyView, now: Timestamp, order: &O)
    requires
        a.valid_at(now),
        b.valid_at(now),
        distinct_roles(a.principle, b.principle) && same_rank(a, b) ==> role_tie(
            order,
            a.principle,
            b.principle,
        ) != RoleOrdering::Equal && role_tie(order, b.principle, a.principle) == reversed(
            role_tie(order, a.principle, b.principle),
        ),
    ensures
        step(a, b, now, order).effect == step(b, a, now, order).effect,
        outranks(a, b) || outranks(b, a) || distinct_roles(a.principle, b.principle) || a.effect
            != b.effect ==> step(a, b, now, order) == step(b, a, now, order),
{
}

/// A step keeps the current policy or takes the candidate, and takes only
/// a candidate in force.
pub proof fn law_step_selects<O: RoleOrder>(
    current: PolicyView,
    candidate: PolicyView,
    now: Timestamp,
    order: &O,
)
    ensures
        step(current, candidate, now, order) == current || (step(current, candidate, now, order)
            == candidate && candidate.valid_at(now)),
        !outranks(current, step(current, candidate, now, order)),
        candidate.valid_at(now) ==> !outranks(candidate, step(current, candidate, now, order)),
{
}

/// Folding candidates into a policy in force gives a policy in force.
pub proof fn law_fold_stays_valid<O: RoleOrder>(
    current: PolicyView,
    rest: Seq<PolicyView>,
    now: Timestamp,
    order: &O,
)
    requires
        current.valid_at(now),
    ensures
        fold(current, rest, now, order).valid_at(now),
    decreases rest.len(),
{
    if rest.len() > 0 {
        law_step_selects(current, rest[0], now, order);
        law_fold_stays_valid(step(current, rest[0], now, order), rest.drop_first(), now, order);
    }
}

/// The fold returns the policy it started from or one of the candidates,
/// and a candidate only if it is in force.
pub proof fn law_fold_selects<O: RoleOrder>(
    current: PolicyView,
    rest: Seq<PolicyView>,
    now: Timestamp,
    order: &O,
)
    ensures
        fold(current, rest, now, order) == current || exists|i: int|
            0 <= i < rest.len() && #[trigger] rest[i] == fold(current, rest, now, order)
                && rest[i].valid_at(now),
    decreases rest.len(),
{
    if rest.len() > 0 {
        let next = step(current, rest[0], now, order);
        let tail = rest.drop_first();
        let result = fold(current, rest, now, order);
        law_step_selects(current, rest[0], now, order);
        law_fold_selects(next, tail, now, order);
        if result == next {
            if next != current {
                assert(rest[0] == result && rest[0].valid_at(now));
            }
        } else {
            let i = choose|i: int|
                0 <= i < tail.len() && #[trigger] tail[i] == result && tail[i].valid_at(now);
            assert(rest[i + 1] == tail[i]);
        }
    }
}

/// The most specific policy wins: no candidate in force, and not the
/// starting policy either, outranks what the fold returns.
pub proof fn law_fold_most_specific<O: RoleOrder>(
    current: PolicyView,
    rest: Seq<PolicyView>,
    now: Timestamp,
    order: &O,
)
    ensures
        !outranks(current, fold(current, rest, now, order)),
        forall|i: int|
            0 <= i < rest.len() && (#[trigger] rest[i]).valid_at(now) ==> !outranks(
                rest[i],
                fold(current, rest, now, order),
            ),
    decreases rest.len(),
{
    if rest.len() > 0 {
        let next = step(current, rest[0], now, order);
        let tail = rest.drop_first();
        let result = fold(current, rest, now, order);
        law_step_selects(current, rest[0], now, order);
        law_fold_most_specific(next, tail, now, order);
        assert forall|i: int| 0 <= i < rest.len() && (#[trigger] rest[i]).valid_at(now) implies !outranks(
            rest[i],
            result,
        ) by {
            if i > 0 {
                assert(rest[i] == tail[i - 1]);
            }
        }
    }
}

/// `x` is taken over `y` whichever of the two is the current one: it
/// outranks `y`, or both sit at one rank on different roles and the
/// hierarchy places the role of `x` above that of `y` both ways round.
pub open spec fn tops<O: RoleOrder>(x: PolicyView, y: PolicyView, order: &O) -> bool {
    outranks(x, y) || (same_rank(x, y) && distinct_roles(x.principle, y.principle) && role_tie(
        order,
        y.principle,
        x.principle,
    ) == RoleOrdering::Less && role_tie(order, x.principle, y.principle) != RoleOrdering::Less)
}

/// The policies of `all` that are in force are strictly ranked: of any
/// two that differ one tops the other, never both, and topping carries
/// over from one pair to the next.
pub open spec fn strictly_ranked<O: RoleOrder>(all: Seq<PolicyView>, now: Timestamp, order: &O) -> bool {
    &&& forall|x: PolicyView, y: PolicyView|
        #![trigger all.contains(x), all.contains(y)]
        all.contains(x) && all.contains(y) && x.valid_at(now) && y.valid_at(now) ==> x == y
            || tops(x, y, order) || tops(y, x, order)
    &&& forall|x: PolicyView, y: PolicyView|
        #![trigger all.contains(x), all.contains(y)]
        all.contains(x) && all.contains(y) ==> !(tops(x, y, order) && tops(y, x, order))
    &&& forall|x: PolicyView, y: PolicyView, z: PolicyView|
        #![trigger all.contains(x), all.contains(y), all.contains(z)]
        all.contains(x) && all.contains(y) && all.contains(z) && tops(x, y, order) && tops(
            y,
            z,
            order,
        ) ==> tops(x, z, order)
}

/// Among strictly ranked policies the fold returns the top one: what it
/// returns is the starting policy or tops it, and is each candidate in
/// force or tops it.
pub proof fn law_fold_picks_the_top<O: RoleOrder>(
    current: PolicyView,
    rest: Seq<PolicyView>,
    now: Timestamp,
    order: &O,
)
    requires
        current.valid_at(now),
        strictly_ranked(seq![current] + rest, now, order),
    ensures
        fold(current, rest, now, order) == current || tops(
            fold(current, rest, now, order),
            current,
            order,
        ),
        forall|i: int|
            0 <= i < rest.len() && (#[trigger] rest[i]).valid_at(now) ==> fold(
                current,
                rest,
                now,
                order,
            ) == rest[i] || tops(fold(current, rest, now, order), rest[i], order),
    decreases rest.len(),
{
    if rest.len() > 0 {
        let all = seq![current] + rest;
        let head = rest[0];
        let next = step(current, head, now, order);
        let tail = rest.drop_first();
        let after = seq![next] + tail;
        let result = fold(current, rest, now, order);
        assert(all[0] == current);
        assert(all[1] == head);
        assert(all.contains(current));
        assert(all.contains(head));
        law_step_selects(current, head, now, order);
        assert(all.contains(next));
        assert forall|x: PolicyView| #[trigger] after.contains(x) implies all.contains(x) by {
            let j = choose|j: int| 0 <= j < after.len() && after[j] == x;
            if j > 0 {
                assert(after[j] == tail[j - 1]);
                assert(all[j + 1] == x);
            }
        }
        assert(strictly_ranked(after, now, order));
        law_fold_picks_the_top(next, tail, now, order);
        law_fold_selects(next, tail, now, order);
        assert(all.contains(result)) by {
            if result != next {
                let i = choose|i: int|
                    0 <= i < tail.len() && #[trigger] tail[i] == result && tail[i].valid_at(now);
                assert(after[i + 1] == tail[i]);
                assert(after.contains(result));
            }
        }
        // the step itself picks the top of the two
        assert(next == current || tops(next, current, order));
        assert(head.valid_at(now) ==> next == head || tops(next, head, order));
        assert forall|i: int| 0 <= i < rest.len() && (#[trigger] rest[i]).valid_at(now) implies result
            == rest[i] || tops(result, rest[i], order) by {
            assert(all[i + 1] == rest[i]);
            assert(all.contains(rest[i]));
            if i > 0 {
                assert(tail[i - 1] == rest[i]);
            }
        }
    }
}

/// With strictly ranked policies the order of the candidates does not
/// matter: two lists that hold the same candidates fold to the same
/// policy.
pub proof fn law_fold_order_insensitive<O: RoleOrder>(
    current: PolicyView,
    one: Seq<PolicyView>,
    other: Seq<PolicyView>,
    now: Timestamp,
    order: &O,
)
    requires
        current.valid_at(now),
        strictly_ranked(seq![current] + one, now, order),
        forall|x: PolicyView| one.contains(x) <==> other.contains(x),
    ensures
        fold(current, one, now, order) == fold(current, other, now, order),
{
    let a = seq![current] + one;
    let b = seq![current] + other;
    let r1 = fold(current, one, now, order);
    let r2 = fold(current, other, now, order);
    assert(a[0] == current && b[0] == current);
    assert forall|x: PolicyView| #[trigger] b.contains(x) implies a.contains(x) by {
        let j = choose|j: int| 0 <= j < b.len() && b[j] == x;
        if j > 0 {
            assert(other[j - 1] == x);
            assert(other.contains(x));
            let k = choose|k: int| 0 <= k < one.len() && one[k] == x;
            assert(a[k + 1] == x);
        }
    }
    assert(strictly_ranked(b, now, order));
    law_fold_picks_the_top(current, one, now, order);
    law_fold_picks_the_top(current, other, now, order);
    law_fold_selects(current, one, now, order);
    law_fold_selects(current, other, now, order);
    law_fold_stays_valid(current, one, now, order);
    law_fold_stays_valid(current, other, now, order);
    assert(a.contains(current));
    if r1 != r2 {
        // each result is the start or a candidate of both lists
        assert(r1 == current || one.contains(r1));
        assert(r2 == current || other.contains(r2));
        assert(r1 == current || other.contains(r1));
        assert(r2 == current || one.contains(r2));
        assert(a.contains(r1)) by {
            if r1 != current {
                let k = choose|k: int| 0 <= k < one.len() && one[k] == r1;
                assert(a[k + 1] == r1);
            }
        }
        assert(a.contains(r2)) by {
            if r2 != current {
                let k = choose|k: int| 0 <= k < one.len() && one[k] == r2;
                assert(a[k + 1] == r2);
            }
        }
        assert(tops(r1, r2, order)) by {
            if r2 != current {
                let k = choose|k: int| 0 <= k < one.len() && one[k] == r2;
                assert(one[k].valid_at(now));
            }
        }
        assert(tops(r2, r1, order)) by {
            if r1 != current {
                let k = choose|k: int| 0 <= k < other.len() && other[k] == r1;
                assert(other[k].valid_at(now));
            }
        }
    }
}

/// The candidates in force at `now`, in order.
pub open spec fn in_force(rest: Seq<PolicyView>, now: Timestamp) -> Seq<PolicyView>
    decreases rest.len(),
{
    if rest.len() == 0 {
        Seq::empty()
    } else if rest[0].valid_at(now) {
        seq![rest[0]] + in_force(rest.drop_first(), now)
    } else {
        in_force(rest.drop_first(), now)
    }
}

/// Expiry removes a policy from contention: the fold over all candidates
/// is the fold over those in force.
pub proof fn law_expired_out_of_contention<O: RoleOrder>(
    current: PolicyView,
    rest: Seq<PolicyView>,
    now: Timestamp,
    order: &O,
)
    ensures
        fold(current, rest, now, order) == fold(current, in_force(rest, now), now, order),
    decreases rest.len(),
{
    if rest.len() > 0 {
        let tail = rest.drop_first();
        if rest[0].valid_at(now) {
            let live = in_force(rest, now);
            assert(live[0] == rest[0]);
            assert(live.drop_first() =~= in_force(tail, now));
            law_expired_out_of_contention(step(current, rest[0], now, order), tail, now, order);
        } else {
            law_expired_out_of_contention(current, tail, now, order);
        }
    }
}

/// The effective policy is always defined and in force, and where no
/// stored policy is a candidate it is the default, which denies.
pub proof fn law_resolution_defaults_to_deny<O: RoleOrder>(
    manager: PolicyManager,
    ctx: PolicyContext,
    action: Seq<char>,
    now: Timestamp,
    order: &O,
)
    ensures
        combine(manager.candidates(ctx, action), now, order).valid_at(now),
        manager.candidates(ctx, action) =~= seq![Policy::default_view()] ==> combine(
            manager.candidates(ctx, action),
            now,
            order,
        ) == Policy::default_view(),
{
    let all = manager.candidates(ctx, action);
    assert(all[0] == Policy::default_view());
    law_fold_stays_valid(all[0], all.drop_first(), now, order);
    if all =~= seq![Policy::default_view()] {
        assert(all.drop_first() =~= Seq::<PolicyView>::empty());
    }
}

/// Writing the same policy twice leaves the rows as after the first write.
pub proof fn law_upsert_idempotent(rows: Seq<PolicyView>, policy: PolicyView)
    requires
        unique_keys(rows),
    ensures
        upsert_rows(upsert_rows(rows, policy), policy) == upsert_rows(rows, policy),
{
    let once = upsert_rows(rows, policy);
    crate::store::lemma_upsert_unique(rows, policy);
    if has_key(rows, policy.principle, policy.action) {
        let k = key_index(rows, policy.principle, policy.action);
        assert(same_key(once[k], policy.principle, policy.action));
    } else {
        assert(same_key(once[rows.len() as int], policy.principle, policy.action));
    }
    let k2 = key_index(once, policy.principle, policy.action);
    assert(same_key(once[k2], policy.principle, policy.action));
    assert(once[k2] == policy) by {
        if has_key(rows, policy.principle, policy.action) {
            let k = key_index(rows, policy.principle, policy.action);
            assert(same_key(once[k], policy.principle, policy.action));
            if k2 < k {
                assert(!same_key(once[k2], once[k].principle, once[k].action));
            } else if k < k2 {
                assert(!same_key(once[k], once[k2].principle, once[k2].action));
            }
        } else {
            if k2 < rows.len() {
                assert(once[k2] == rows[k2]);
                assert(same_key(rows[k2], policy.principle, policy.action));
            }
        }
    }
    assert(once.update(k2, policy) =~= once);
}

/// A write is seen by the next lookup: once a policy is written, a query
/// that its action matches finds it among the candidates of its scope.
pub proof fn law_write_is_visible(rows: Seq<PolicyView>, policy: PolicyView, query: Seq<char>)
    requires
        crate::store::action_matches(policy.action, query),
    ensures
        select(upsert_rows(rows, policy), policy.principle, query).contains(policy),
{
    let after = upsert_rows(rows, policy);
    let k = if has_key(rows, policy.principle, policy.action) {
        key_index(rows, policy.principle, policy.action)
    } else {
        rows.len() as int
    };
    assert(after[k] == policy);
    lemma_select_contains(after, policy.principle, query, k);
}

/// A row that is a candidate is among the selected rows.
pub proof fn lemma_select_contains(rows: Seq<PolicyView>, scope: Principle, query: Seq<char>, k: int)
    requires
        0 <= k < rows.len(),
        is_candidate(rows[k], scope, query),
    ensures
        select(rows, scope, query).contains(rows[k]),
    decreases rows.len(),
{
    let head = select(rows.drop_last(), scope, query);
    if k == rows.len() - 1 {
        assert(head.push(rows.last())[head.len() as int] == rows[k]);
    } else {
        lemma_select_contains(rows.drop_last(), scope, query, k);
        let j = choose|j: int| 0 <= j < head.len() && head[j] == rows.drop_last()[k];
        if is_candidate(rows.last(), scope, query) {
            assert(head.push(rows.last())[j] == rows[k]);
        }
    }
}

/// Only stored rows of the scope whose action matches are selected.
pub proof fn law_select_is_exact(rows: Seq<PolicyView>, scope: Principle, query: Seq<char>)
    ensures
        forall|p: PolicyView| #[trigger]
            select(rows, scope, query).contains(p) ==> rows.contains(p) && is_candidate(
                p,
                scope,
                query,
            ),
    decreases rows.len(),
{
    if rows.len() > 0 {
        let head = select(rows.drop_last(), scope, query);
        law_select_is_exact(rows.drop_last(), scope, query);
        assert forall|p: PolicyView| #[trigger]
            select(rows, scope, query).contains(p) implies rows.contains(p) && is_candidate(
            p,
            scope,
            query,
        ) by {
            let s = select(rows, scope, query);
            let j = choose|j: int| 0 <= j < s.len() && s[j] == p;
            if j < head.len() {
                assert(head[j] == p);
                assert(head.contains(p));
                let i = choose|i: int| 0 <= i < rows.drop_last().len() && rows.drop_last()[i] == p;
                assert(rows[i] == p);
            } else {
                assert(p == rows.last());
                assert(rows[rows.len() - 1] == p);
            }
        }
    }
}

/// Clearing a scope and action that holds no row leaves the rows as they
/// are, and after any clear no row is left for that scope and action.
pub proof fn law_clear_ensures_absent(rows: Seq<PolicyView>, principle: Principle, action: Seq<char>)
    requires
        unique_keys(rows),
    ensures
        !has_key(rows, principle, action) ==> remove_rows(rows, principle, action) == rows,
        !has_key(remove_rows(rows, principle, action), principle, action),
{
    let after = remove_rows(rows, principle, action);
    if has_key(rows, principle, action) {
        let k = key_index(rows, principle, action);
        if has_key(after, principle, action) {
            let j = key_index(after, principle, action);
            let oj = if j < k { j } else { j + 1 };
            assert(after[j] == rows[oj]);
            if oj < k {
                assert(!same_key(rows[oj], rows[k].principle, rows[k].action));
            } else {
                assert(!same_key(rows[k], rows[oj].principle, rows[oj].action));
            }
        }
    }
}

} // verus!
