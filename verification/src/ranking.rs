//! The order of a request's roles does not matter: with a hierarchy that
//! ranks the roles in play, the candidates of a query are strictly ranked
//! and the fold returns the top one however they are listed.

use vstd::prelude::*;
use crate::laws::{law_fold_order_insensitive, law_select_is_exact, reversed, strictly_ranked, tops};
use crate::policy::{
    combine, combine_is_clean, fold_is_clean, outranks, step, Policy, PolicyContext, PolicyView,
    Principle,
};
use crate::policy_manager::{
    all_of_kind, role_candidates, scope_kind, PolicyManager, ScopeKind,
};
use crate::roles::{entry_order, find_role, hierarchy_order, RoleEntry, RoleHierarchy, RoleOrder, RoleOrdering};
use crate::store::{action_matches, same_key, select, unique_keys};
use crate::time::Timestamp;

verus! {

/// The hierarchy ranks the given roles strictly: of two different roles
/// one stands above the other, it says so both ways round, and standing
/// above carries over from one pair to the next.
pub open spec fn strictly_orders<O: RoleOrder>(order: &O, roles: Seq<u64>) -> bool {
    &&& forall|x: u64, y: u64|
        #![trigger order.order(x, y)]
        roles.contains(x) && roles.contains(y) && x != y ==> order.order(x, y)
            != RoleOrdering::Equal && order.order(y, x) == reversed(order.order(x, y))
    &&& forall|x: u64, y: u64, z: u64|
        #![trigger order.order(x, y), order.order(y, z)]
        roles.contains(x) && roles.contains(y) && roles.contains(z) && order.order(x, y)
            == RoleOrdering::Greater && order.order(y, z) == RoleOrdering::Greater
            ==> order.order(x, z) == RoleOrdering::Greater
}

/// A stored row that a query of this context and action reads.
pub open spec fn read_from_store(
    manager: PolicyManager,
    ctx: PolicyContext,
    action: Seq<char>,
    x: PolicyView,
) -> bool {
    &&& action_matches(x.action, action)
    &&& match x.principle {
        Principle::Global => false,
        Principle::Guild(g) => ctx.guild_id == Some(g) && manager.rows(ScopeKind::Guild).contains(x),
        Principle::Channel(c) => ctx.channel_id == Some(c) && manager.rows(
            ScopeKind::Channel,
        ).contains(x),
        Principle::Role(r) => ctx.roles@.contains(r) && manager.rows(ScopeKind::Role).contains(x),
        Principle::Member(g, u) => ctx.guild_id == Some(g) && ctx.user_id == Some(u)
            && manager.rows(ScopeKind::Member).contains(x),
    }
}

/// What is in a list put together from two is in one of the two.
pub proof fn lemma_concat_contains(a: Seq<PolicyView>, b: Seq<PolicyView>, x: PolicyView)
    ensures
        (a + b).contains(x) <==> a.contains(x) || b.contains(x),
{
    if (a + b).contains(x) {
        let j = choose|j: int| 0 <= j < (a + b).len() && (a + b)[j] == x;
        if j < a.len() {
            assert(a[j] == x);
        } else {
            assert(b[j - a.len()] == x);
        }
    }
    if a.contains(x) {
        let j = choose|j: int| 0 <= j < a.len() && a[j] == x;
        assert((a + b)[j] == x);
    }
    if b.contains(x) {
        let j = choose|j: int| 0 <= j < b.len() && b[j] == x;
        assert((a + b)[a.len() + j] == x);
    }
}

/// A selected row is a stored row of the scope whose action matches, and
/// every such row is selected.
pub proof fn lemma_select_members(rows: Seq<PolicyView>, scope: Principle, query: Seq<char>, x: PolicyView)
    ensures
        select(rows, scope, query).contains(x) <==> rows.contains(x) && x.principle == scope
            && action_matches(x.action, query),
{
    law_select_is_exact(rows, scope, query);
    if rows.contains(x) && x.principle == scope && action_matches(x.action, query) {
        let k = choose|k: int| 0 <= k < rows.len() && rows[k] == x;
        crate::laws::lemma_select_contains(rows, scope, query, k);
    }
}

/// A role candidate is a selected row of one of the roles, and every such
/// row is a role candidate.
pub proof fn lemma_role_candidate_members(
    rows: Seq<PolicyView>,
    roles: Seq<u64>,
    query: Seq<char>,
    x: PolicyView,
)
    ensures
        role_candidates(rows, roles, query).contains(x) <==> exists|r: u64| #[trigger]
            roles.contains(r) && select(rows, Principle::Role(r), query).contains(x),
    decreases roles.len(),
{
    if roles.len() > 0 {
        let head = role_candidates(rows, roles.drop_last(), query);
        let last = select(rows, Principle::Role(roles.last()), query);
        lemma_role_candidate_members(rows, roles.drop_last(), query, x);
        lemma_concat_contains(head, last, x);
        if role_candidates(rows, roles, query).contains(x) {
            if head.contains(x) {
                let r = choose|r: u64| #[trigger]
                    roles.drop_last().contains(r) && select(rows, Principle::Role(r), query).contains(
                        x,
                    );
                let j = choose|j: int| 0 <= j < roles.drop_last().len() && roles.drop_last()[j] == r;
                assert(roles[j] == r);
                assert(roles.contains(r));
            } else {
                assert(roles[roles.len() - 1] == roles.last());
                assert(roles.contains(roles.last()));
            }
        }
        if exists|r: u64| #[trigger]
            roles.contains(r) && select(rows, Principle::Role(r), query).contains(x) {
            let r = choose|r: u64| #[trigger]
                roles.contains(r) && select(rows, Principle::Role(r), query).contains(x);
            let j = choose|j: int| 0 <= j < roles.len() && roles[j] == r;
            if j < roles.len() - 1 {
                assert(roles.drop_last()[j] == r);
                assert(roles.drop_last().contains(r));
            }
        }
    }
}

/// The candidates of a query are the default policy and the stored rows
/// that the query reads: no more, no fewer.
pub proof fn lemma_candidate_members(
    manager: PolicyManager,
    ctx: PolicyContext,
    action: Seq<char>,
    x: PolicyView,
)
    requires
        manager.wf(),
    ensures
        manager.candidates(ctx, action).contains(x) <==> x == Policy::default_view()
            || read_from_store(manager, ctx, action, x),
{
    let d = seq![Policy::default_view()];
    let c = crate::policy_manager::channel_candidates(
        manager.rows(ScopeKind::Channel),
        ctx.channel_id,
        action,
    );
    let g = crate::policy_manager::guild_candidates(manager.rows(ScopeKind::Guild), ctx.guild_id, action);
    let m = crate::policy_manager::member_candidates(
        manager.rows(ScopeKind::Member),
        ctx.guild_id,
        ctx.user_id,
        action,
    );
    let r = role_candidates(manager.rows(ScopeKind::Role), ctx.roles@, action);
    lemma_concat_contains(d, c, x);
    lemma_concat_contains(d + c, g, x);
    lemma_concat_contains(d + c + g, m, x);
    lemma_concat_contains(d + c + g + m, r, x);
    assert(d.contains(x) <==> x == Policy::default_view()) by {
        if x == Policy::default_view() {
            assert(d[0] == x);
        }
    }
    assert(all_of_kind(manager.rows(ScopeKind::Channel), ScopeKind::Channel));
    assert(all_of_kind(manager.rows(ScopeKind::Guild), ScopeKind::Guild));
    assert(all_of_kind(manager.rows(ScopeKind::Member), ScopeKind::Member));
    assert(all_of_kind(manager.rows(ScopeKind::Role), ScopeKind::Role));
    if ctx.channel_id.is_some() {
        lemma_select_members(
            manager.rows(ScopeKind::Channel),
            Principle::Channel(ctx.channel_id.unwrap()),
            action,
            x,
        );
    }
    if ctx.guild_id.is_some() {
        lemma_select_members(
            manager.rows(ScopeKind::Guild),
            Principle::Guild(ctx.guild_id.unwrap()),
            action,
            x,
        );
        if ctx.user_id.is_some() {
            lemma_select_members(
                manager.rows(ScopeKind::Member),
                Principle::Member(ctx.guild_id.unwrap(), ctx.user_id.unwrap()),
                action,
                x,
            );
        }
    }
    lemma_role_candidate_members(manager.rows(ScopeKind::Role), ctx.roles@, action, x);
    if r.contains(x) {
        let role = choose|role: u64| #[trigger]
            ctx.roles@.contains(role) && select(
                manager.rows(ScopeKind::Role),
                Principle::Role(role),
                action,
            ).contains(x);
        lemma_select_members(manager.rows(ScopeKind::Role), Principle::Role(role), action, x);
    }
    if let Principle::Role(role) = x.principle {
        lemma_select_members(manager.rows(ScopeKind::Role), Principle::Role(role), action, x);
        if read_from_store(manager, ctx, action, x) {
            assert(ctx.roles@.contains(role) && select(
                manager.rows(ScopeKind::Role),
                Principle::Role(role),
                action,
            ).contains(x));
        }
    }
    // a stored row is never the default policy: no row sits on the global scope
    if x == Policy::default_view() {
        assert(!read_from_store(manager, ctx, action, x));
    }
}

/// Two actions that match one query and are equally long are the same.
pub proof fn lemma_same_length_prefix(a: Seq<char>, b: Seq<char>, query: Seq<char>)
    requires
        action_matches(a, query),
        action_matches(b, query),
        vstd::utf8::encode_utf8(a).len() == vstd::utf8::encode_utf8(b).len(),
    ensures
        a == b,
{
    let ea = vstd::utf8::encode_utf8(a);
    let eb = vstd::utf8::encode_utf8(b);
    assert(ea =~= eb);
    vstd::utf8::encode_utf8_decode_utf8(a);
    vstd::utf8::encode_utf8_decode_utf8(b);
}

/// Two rows of one table with the same scope and action are one row.
pub proof fn lemma_same_key_same_row(rows: Seq<PolicyView>, x: PolicyView, y: PolicyView)
    requires
        unique_keys(rows),
        rows.contains(x),
        rows.contains(y),
        x.principle == y.principle,
        x.action == y.action,
    ensures
        x == y,
{
    let i = choose|i: int| 0 <= i < rows.len() && rows[i] == x;
    let j = choose|j: int| 0 <= j < rows.len() && rows[j] == y;
    if i < j {
        assert(!same_key(rows[i], rows[j].principle, rows[j].action));
    } else if j < i {
        assert(!same_key(rows[j], rows[i].principle, rows[i].action));
    }
}

/// With a hierarchy that strictly ranks the roles of the request, the
/// candidates of a query are strictly ranked.
pub proof fn law_candidates_strictly_ranked<O: RoleOrder>(
    manager: PolicyManager,
    ctx: PolicyContext,
    action: Seq<char>,
    now: Timestamp,
    order: &O,
)
    requires
        manager.wf(),
        strictly_orders(order, ctx.roles@),
    ensures
        strictly_ranked(manager.candidates(ctx, action), now, order),
{
    let all = manager.candidates(ctx, action);
    let d = Policy::default_view();
    assert(d.action =~= Seq::<char>::empty());
    assert(d.action_len() == 0) by {
        reveal_with_fuel(vstd::utf8::encode_utf8, 1);
    }
    assert(unique_keys(manager.rows(ScopeKind::Channel)));
    assert(unique_keys(manager.rows(ScopeKind::Guild)));
    assert(unique_keys(manager.rows(ScopeKind::Member)));
    assert(unique_keys(manager.rows(ScopeKind::Role)));
    assert forall|x: PolicyView, y: PolicyView|
        #![trigger all.contains(x), all.contains(y)]
        all.contains(x) && all.contains(y) && x.valid_at(now) && y.valid_at(now) implies x == y
        || tops(x, y, order) || tops(y, x, order) by {
        lemma_candidate_members(manager, ctx, action, x);
        lemma_candidate_members(manager, ctx, action, y);
        if x != y {
            if x == d {
                assert(outranks(y, x));
            } else if y == d {
                assert(outranks(x, y));
            } else if x.action_len() == y.action_len() && x.principle.kind_rank()
                == y.principle.kind_rank() {
                lemma_same_length_prefix(x.action, y.action, action);
                match (x.principle, y.principle) {
                    (Principle::Role(rx), Principle::Role(ry)) => {
                        if rx == ry {
                            lemma_same_key_same_row(manager.rows(ScopeKind::Role), x, y);
                        } else {
                            assert(order.order(rx, ry) != RoleOrdering::Equal);
                            assert(order.order(ry, rx) == reversed(order.order(rx, ry)));
                        }
                    },
                    (Principle::Guild(_), Principle::Guild(_)) => {
                        lemma_same_key_same_row(manager.rows(ScopeKind::Guild), x, y);
                    },
                    (Principle::Channel(_), Principle::Channel(_)) => {
                        lemma_same_key_same_row(manager.rows(ScopeKind::Channel), x, y);
                    },
                    (Principle::Member(_, _), Principle::Member(_, _)) => {
                        lemma_same_key_same_row(manager.rows(ScopeKind::Member), x, y);
                    },
                    _ => {},
                }
            }
        }
    }
    assert forall|x: PolicyView, y: PolicyView, z: PolicyView|
        #![trigger all.contains(x), all.contains(y), all.contains(z)]
        all.contains(x) && all.contains(y) && all.contains(z) && tops(x, y, order) && tops(
            y,
            z,
            order,
        ) implies tops(x, z, order) by {
        lemma_candidate_members(manager, ctx, action, x);
        lemma_candidate_members(manager, ctx, action, y);
        lemma_candidate_members(manager, ctx, action, z);
        if !outranks(x, z) {
            match (x.principle, y.principle, z.principle) {
                (Principle::Role(rx), Principle::Role(ry), Principle::Role(rz)) => {
                    assert(order.order(ry, rx) == RoleOrdering::Less);
                    assert(order.order(rz, ry) == RoleOrdering::Less);
                    assert(order.order(rx, ry) == reversed(order.order(ry, rx)));
                    assert(order.order(ry, rz) == reversed(order.order(rz, ry)));
                    assert(order.order(rx, rz) == RoleOrdering::Greater);
                    if rx != rz {
                        assert(order.order(rz, rx) == reversed(order.order(rx, rz)));
                    }
                },
                _ => {},
            }
        }
    }
}

/// Among strictly ranked policies the fold never meets a conflict it
/// cannot rank.
pub proof fn law_ranked_fold_is_clean<O: RoleOrder>(
    current: PolicyView,
    rest: Seq<PolicyView>,
    now: Timestamp,
    order: &O,
)
    requires
        current.valid_at(now),
        strictly_ranked(seq![current] + rest, now, order),
    ensures
        fold_is_clean(current, rest, now, order),
    decreases rest.len(),
{
    if rest.len() > 0 {
        let all = seq![current] + rest;
        let head = rest[0];
        let next = step(current, head, now, order);
        let tail = rest.drop_first();
        let after = seq![next] + tail;
        assert(all[0] == current);
        assert(all[1] == head);
        assert(all.contains(current));
        assert(all.contains(head));
        crate::laws::law_step_selects(current, head, now, order);
        assert forall|x: PolicyView| #[trigger] after.contains(x) implies all.contains(x) by {
            let j = choose|j: int| 0 <= j < after.len() && after[j] == x;
            if j > 0 {
                assert(after[j] == tail[j - 1]);
                assert(all[j + 1] == x);
            }
        }
        assert(strictly_ranked(after, now, order));
        law_ranked_fold_is_clean(next, tail, now, order);
    }
}

/// With a hierarchy that strictly ranks the roles of the request, the
/// policies of a well-formed store never conflict: the resolver meets no
/// ambiguity.
pub proof fn law_store_resolution_is_never_ambiguous<O: RoleOrder>(
    manager: PolicyManager,
    ctx: PolicyContext,
    action: Seq<char>,
    now: Timestamp,
    order: &O,
)
    requires
        manager.wf(),
        strictly_orders(order, ctx.roles@),
    ensures
        combine_is_clean(manager.candidates(ctx, action), now, order),
{
    let all = manager.candidates(ctx, action);
    law_candidates_strictly_ranked(manager, ctx, action, now, order);
    assert(all[0] == Policy::default_view());
    assert(all =~= seq![all[0]] + all.drop_first());
    law_ranked_fold_is_clean(all[0], all.drop_first(), now, order);
}

/// The order in which a request lists its roles does not change the
/// effective policy, given a hierarchy that strictly ranks those roles.
pub proof fn law_role_order_does_not_matter<O: RoleOrder>(
    manager: PolicyManager,
    ctx: PolicyContext,
    reordered: PolicyContext,
    action: Seq<char>,
    now: Timestamp,
    order: &O,
)
    requires
        manager.wf(),
        strictly_orders(order, ctx.roles@),
        reordered.guild_id == ctx.guild_id,
        reordered.channel_id == ctx.channel_id,
        reordered.user_id == ctx.user_id,
        forall|r: u64| ctx.roles@.contains(r) <==> reordered.roles@.contains(r),
    ensures
        combine(manager.candidates(ctx, action), now, order) == combine(
            manager.candidates(reordered, action),
            now,
            order,
        ),
{
    let a = manager.candidates(ctx, action);
    let b = manager.candidates(reordered, action);
    let d = Policy::default_view();
    law_candidates_strictly_ranked(manager, ctx, action, now, order);
    assert(a[0] == d && b[0] == d);
    assert(a =~= seq![d] + a.drop_first());
    assert(b =~= seq![d] + b.drop_first());
    assert forall|x: PolicyView| a.drop_first().contains(x) <==> b.drop_first().contains(x) by {
        lemma_candidate_members(manager, ctx, action, x);
        lemma_candidate_members(manager, reordered, action, x);
        lemma_concat_contains(seq![d], a.drop_first(), x);
        lemma_concat_contains(seq![d], b.drop_first(), x);
        lemma_default_only_first(manager, ctx, action);
        lemma_default_only_first(manager, reordered, action);
    }
    law_fold_order_insensitive(d, a.drop_first(), b.drop_first(), now, order);
}

/// The default policy stands first among the candidates and nowhere else.
pub proof fn lemma_default_only_first(manager: PolicyManager, ctx: PolicyContext, action: Seq<char>)
    requires
        manager.wf(),
    ensures
        manager.candidates(ctx, action)[0] == Policy::default_view(),
        !manager.candidates(ctx, action).drop_first().contains(Policy::default_view()),
{
    let all = manager.candidates(ctx, action);
    let d = Policy::default_view();
    let rest = all.drop_first();
    if rest.contains(d) {
        let j = choose|j: int| 0 <= j < rest.len() && rest[j] == d;
        let x = all[j + 1];
        assert(all.contains(x));
        // every candidate after the first is a stored row
        let c = crate::policy_manager::channel_candidates(
            manager.rows(ScopeKind::Channel),
            ctx.channel_id,
            action,
        );
        let g = crate::policy_manager::guild_candidates(
            manager.rows(ScopeKind::Guild),
            ctx.guild_id,
            action,
        );
        let m = crate::policy_manager::member_candidates(
            manager.rows(ScopeKind::Member),
            ctx.guild_id,
            ctx.user_id,
            action,
        );
        let r = role_candidates(manager.rows(ScopeKind::Role), ctx.roles@, action);
        assert(rest =~= c + g + m + r);
        lemma_concat_contains(c + g + m, r, d);
        lemma_concat_contains(c + g, m, d);
        lemma_concat_contains(c, g, d);
        assert(all_of_kind(manager.rows(ScopeKind::Channel), ScopeKind::Channel));
        assert(all_of_kind(manager.rows(ScopeKind::Guild), ScopeKind::Guild));
        assert(all_of_kind(manager.rows(ScopeKind::Member), ScopeKind::Member));
        assert(all_of_kind(manager.rows(ScopeKind::Role), ScopeKind::Role));
        if ctx.channel_id.is_some() {
            lemma_select_members(
                manager.rows(ScopeKind::Channel),
                Principle::Channel(ctx.channel_id.unwrap()),
                action,
                d,
            );
        }
        if ctx.guild_id.is_some() {
            lemma_select_members(
                manager.rows(ScopeKind::Guild),
                Principle::Guild(ctx.guild_id.unwrap()),
                action,
                d,
            );
            if ctx.user_id.is_some() {
                lemma_select_members(
                    manager.rows(ScopeKind::Member),
                    Principle::Member(ctx.guild_id.unwrap(), ctx.user_id.unwrap()),
                    action,
                    d,
                );
            }
        }
        lemma_role_candidate_members(manager.rows(ScopeKind::Role), ctx.roles@, action, d);
        if r.contains(d) {
            let role = choose|role: u64| #[trigger]
                ctx.roles@.contains(role) && select(
                    manager.rows(ScopeKind::Role),
                    Principle::Role(role),
                    action,
                ).contains(d);
            lemma_select_members(manager.rows(ScopeKind::Role), Principle::Role(role), action, d);
        }
    }
}

/// A role that is found has the id it was looked up by.
pub proof fn lemma_found_role_has_id(roles: Seq<RoleEntry>, id: u64)
    ensures
        find_role(roles, id) matches Some(e) ==> e.id == id,
    decreases roles.len(),
{
    if roles.len() > 0 && roles[0].id != id {
        lemma_found_role_has_id(roles.drop_first(), id);
    }
}

/// A hierarchy that knows every role of a request ranks those roles
/// strictly.
pub proof fn law_known_roles_are_strictly_ordered(hierarchy: RoleHierarchy, roles: Seq<u64>)
    requires
        forall|r: u64| roles.contains(r) ==> (#[trigger] find_role(hierarchy.roles@, r)).is_some(),
    ensures
        strictly_orders(&hierarchy, roles),
{
    let table = hierarchy.roles@;
    assert forall|x: u64, y: u64|
        #![trigger hierarchy.order(x, y)]
        roles.contains(x) && roles.contains(y) && x != y implies hierarchy.order(x, y)
        != RoleOrdering::Equal && hierarchy.order(y, x) == reversed(hierarchy.order(x, y)) by {
        lemma_found_role_has_id(table, x);
        lemma_found_role_has_id(table, y);
        assert(find_role(table, x).is_some());
        assert(find_role(table, y).is_some());
    }
    assert forall|x: u64, y: u64, z: u64|
        #![trigger hierarchy.order(x, y), hierarchy.order(y, z)]
        roles.contains(x) && roles.contains(y) && roles.contains(z) && hierarchy.order(x, y)
            == RoleOrdering::Greater && hierarchy.order(y, z) == RoleOrdering::Greater implies hierarchy.order(
        x,
        z,
    ) == RoleOrdering::Greater by {
        lemma_found_role_has_id(table, x);
        lemma_found_role_has_id(table, y);
        lemma_found_role_has_id(table, z);
        assert(find_role(table, x).is_some());
        assert(find_role(table, y).is_some());
        assert(find_role(table, z).is_some());
    }
}

} // verus!
