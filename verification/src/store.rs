//! The table of stored policies of one kind of scope: at most one row per
//! scope and action, looked up by prefix of the action asked for.

use vstd::prelude::*;
use vstd::slice::*;
use crate::policy::{views, Policy, PolicyView, Principle};

verus! {

/// The row is the one stored for this scope and action.
pub open spec fn same_key(row: PolicyView, principle: Principle, action: Seq<char>) -> bool {
    row.principle == principle && row.action == action
}

/// Some row is stored for this scope and action.
pub open spec fn has_key(rows: Seq<PolicyView>, principle: Principle, action: Seq<char>) -> bool {
    exists|i: int| 0 <= i < rows.len() && same_key(#[trigger] rows[i], principle, action)
}

/// The place of a row stored for this scope and action.
pub open spec fn key_index(rows: Seq<PolicyView>, principle: Principle, action: Seq<char>) -> int {
    choose|i: int| 0 <= i < rows.len() && same_key(#[trigger] rows[i], principle, action)
}

/// No two rows share scope and action.
pub open spec fn unique_keys(rows: Seq<PolicyView>) -> bool {
    forall|i: int, j: int|
        0 <= i < j < rows.len() ==> !same_key(
            #[trigger] rows[i],
            (#[trigger] rows[j]).principle,
            rows[j].action,
        )
}

/// The rows after `policy` is written: it takes the place of the row with
/// its scope and action, or goes to the end where there is none.
pub open spec fn upsert_rows(rows: Seq<PolicyView>, policy: PolicyView) -> Seq<PolicyView> {
    if has_key(rows, policy.principle, policy.action) {
        rows.update(key_index(rows, policy.principle, policy.action), policy)
    } else {
        rows.push(policy)
    }
}

/// The rows after the one for this scope and action is cleared.
pub open spec fn remove_rows(rows: Seq<PolicyView>, principle: Principle, action: Seq<char>) -> Seq<
    PolicyView,
> {
    if has_key(rows, principle, action) {
        rows.remove(key_index(rows, principle, action))
    } else {
        rows
    }
}

/// A stored action matches a query when its bytes are a prefix of the
/// query's bytes.
pub open spec fn action_matches(stored: Seq<char>, query: Seq<char>) -> bool {
    vstd::utf8::encode_utf8(stored).is_prefix_of(vstd::utf8::encode_utf8(query))
}

/// The row belongs to this scope and its action matches the query.
pub open spec fn is_candidate(row: PolicyView, scope: Principle, query: Seq<char>) -> bool {
    row.principle == scope && action_matches(row.action, query)
}

/// The rows of `scope` whose action matches `query`, in stored order,
/// expired ones included.
pub open spec fn select(rows: Seq<PolicyView>, scope: Principle, query: Seq<char>) -> Seq<PolicyView>
    decreases rows.len(),
{
    if rows.len() == 0 {
        Seq::empty()
    } else if is_candidate(rows.last(), scope, query) {
        select(rows.drop_last(), scope, query).push(rows.last())
    } else {
        select(rows.drop_last(), scope, query)
    }
}

/// Byte-wise prefix test on two strings.
pub fn is_action_prefix(stored: &str, query: &str) -> (r: bool)
    ensures
        r == action_matches(stored@, query@),
{
    let a = stored.as_bytes();
    let b = query.as_bytes();
    if a.len() > b.len() {
        return false;
    }
    let mut i: usize = 0;
    while i < a.len()
        invariant
            i <= a.len() <= b.len(),
            a@ == vstd::utf8::encode_utf8(stored@),
            b@ == vstd::utf8::encode_utf8(query@),
            forall|k: int| 0 <= k < i ==> a@[k] == b@[k],
        decreases a.len() - i,
    {
        if a[i] != b[i] {
            assert(b@.subrange(0, a@.len() as int)[i as int] == b@[i as int]);
            return false;
        }
        i += 1;
    }
    assert(a@ =~= b@.subrange(0, a@.len() as int));
    true
}

/// The stored policies of one kind of scope.
#[derive(Debug)]
pub struct PolicyTable {
    rows: Vec<Policy>,
}

impl View for PolicyTable {
    type V = Seq<PolicyView>;

    closed spec fn view(&self) -> Seq<PolicyView> {
        views(self.rows@)
    }
}

impl PolicyTable {
    /// The table keeps at most one row per scope and action.
    pub open spec fn wf(&self) -> bool {
        unique_keys(self@)
    }

    pub fn new() -> (t: PolicyTable)
        ensures
            t@ == Seq::<PolicyView>::empty(),
            t.wf(),
    {
        let t = PolicyTable { rows: Vec::new() };
        assert(t@ =~= Seq::<PolicyView>::empty());
        t
    }

    /// The number of stored rows.
    pub fn len(&self) -> (n: usize)
        ensures
            n == self@.len(),
    {
        self.rows.len()
    }

    /// The place of the row for this scope and action, if one is stored.
    pub fn position(&self, principle: Principle, action: &str) -> (r: Option<usize>)
        ensures
            match r {
                Some(i) => i < self@.len() && same_key(self@[i as int], principle, action@),
                None => !has_key(self@, principle, action@),
            },
            self.wf() && r.is_some() ==> r.unwrap() as int == key_index(self@, principle, action@),
    {
        let mut i: usize = 0;
        while i < self.rows.len()
            invariant
                i <= self.rows.len(),
                forall|k: int| 0 <= k < i ==> !same_key(#[trigger] self@[k], principle, action@),
            decreases self.rows.len() - i,
        {
            let row = &self.rows[i];
            assert(self@[i as int] == row@);
            if row.principle == principle && is_same_text(row.action.as_str(), action) {
                proof {
                    let j = key_index(self@, principle, action@);
                    assert(same_key(self@[i as int], principle, action@));
                    if self.wf() {
                        assert(0 <= j < self@.len() && same_key(self@[j], principle, action@));
                        assert(j == i);
                    }
                }
                return Some(i);
            }
            i += 1;
        }
        None
    }

    /// Every stored row of `scope` whose action is a prefix of `action`,
    /// in stored order. Expired rows are returned too.
    pub fn lookup_candidates(&self, scope: Principle, action: &str) -> (r: Vec<Policy>)
        ensures
            views(r@) == select(self@, scope, action@),
    {
        let mut out: Vec<Policy> = Vec::new();
        let mut i: usize = 0;
        assert(views(out@) =~= select(self@.take(0), scope, action@));
        while i < self.rows.len()
            invariant
                i <= self.rows.len(),
                views(out@) == select(self@.take(i as int), scope, action@),
            decreases self.rows.len() - i,
        {
            let row = &self.rows[i];
            proof {
                let upto = self@.take(i as int + 1);
                assert(upto.last() == row@);
                assert(upto.drop_last() =~= self@.take(i as int));
            }
            if row.principle == scope && is_action_prefix(row.action.as_str(), action) {
                let ghost before = out@;
                out.push(row.clone());
                assert(views(out@) =~= views(before).push(row@));
            }
            i += 1;
        }
        assert(self@.take(i as int) =~= self@);
        out
    }

    /// Writes `policy`: the row for its scope and action is replaced, or a
    /// new row is added where there was none.
    pub fn upsert(&mut self, policy: Policy)
        requires
            old(self).wf(),
        ensures
            final(self)@ == upsert_rows(old(self)@, policy@),
            final(self).wf(),
    {
        let found = self.position(policy.principle, policy.action.as_str());
        let ghost before = self@;
        match found {
            Some(i) => {
                self.rows.set(i, policy);
                assert(self@ =~= before.update(i as int, policy@));
            },
            None => {
                self.rows.push(policy);
                assert(self@ =~= before.push(policy@));
            },
        }
        proof {
            lemma_upsert_unique(before, policy@);
        }
    }

    /// Clears the row for this scope and action. Where none is stored the
    /// table stays as it is.
    pub fn delete(&mut self, principle: Principle, action: &str)
        requires
            old(self).wf(),
        ensures
            final(self)@ == remove_rows(old(self)@, principle, action@),
            final(self).wf(),
    {
        let found = self.position(principle, action);
        let ghost before = self@;
        match found {
            Some(i) => {
                self.rows.remove(i);
                assert(self@ =~= before.remove(i as int));
            },
            None => {},
        }
        proof {
            lemma_remove_unique(before, principle, action@);
        }
    }
}

/// Whether two strings hold the same text.
pub fn is_same_text(a: &str, b: &str) -> (r: bool)
    ensures
        r == (a@ == b@),
{
    let x = a.as_bytes();
    let y = b.as_bytes();
    proof {
        vstd::utf8::encode_utf8_decode_utf8(a@);
        vstd::utf8::encode_utf8_decode_utf8(b@);
    }
    if x.len() != y.len() {
        return false;
    }
    let mut i: usize = 0;
    while i < x.len()
        invariant
            i <= x.len() == y.len(),
            x@ == vstd::utf8::encode_utf8(a@),
            y@ == vstd::utf8::encode_utf8(b@),
            forall|k: int| 0 <= k < i ==> x@[k] == y@[k],
        decreases x.len() - i,
    {
        if x[i] != y[i] {
            return false;
        }
        i += 1;
    }
    assert(x@ =~= y@);
    true
}

/// Writing a policy keeps the keys unique.
pub proof fn lemma_upsert_unique(rows: Seq<PolicyView>, policy: PolicyView)
    requires
        unique_keys(rows),
    ensures
        unique_keys(upsert_rows(rows, policy)),
{
    let after = upsert_rows(rows, policy);
    if has_key(rows, policy.principle, policy.action) {
        let k = key_index(rows, policy.principle, policy.action);
        assert forall|i: int, j: int| 0 <= i < j < after.len() implies !same_key(
            #[trigger] after[i],
            (#[trigger] after[j]).principle,
            after[j].action,
        ) by {
            assert(same_key(rows[k], policy.principle, policy.action));
            if i == k {
                assert(!same_key(rows[i], rows[j].principle, rows[j].action));
            } else if j == k {
                assert(!same_key(rows[i], rows[j].principle, rows[j].action));
            } else {
                assert(!same_key(rows[i], rows[j].principle, rows[j].action));
            }
        }
    } else {
        assert forall|i: int, j: int| 0 <= i < j < after.len() implies !same_key(
            #[trigger] after[i],
            (#[trigger] after[j]).principle,
            after[j].action,
        ) by {
            if j == rows.len() {
                assert(!same_key(rows[i], policy.principle, policy.action));
            } else {
                assert(!same_key(rows[i], rows[j].principle, rows[j].action));
            }
        }
    }
}

/// Clearing a row keeps the keys unique.
pub proof fn lemma_remove_unique(rows: Seq<PolicyView>, principle: Principle, action: Seq<char>)
    requires
        unique_keys(rows),
    ensures
        unique_keys(remove_rows(rows, principle, action)),
{
    let after = remove_rows(rows, principle, action);
    if has_key(rows, principle, action) {
        let k = key_index(rows, principle, action);
        assert forall|i: int, j: int| 0 <= i < j < after.len() implies !same_key(
            #[trigger] after[i],
            (#[trigger] after[j]).principle,
            after[j].action,
        ) by {
            let oi = if i < k { i } else { i + 1 };
            let oj = if j < k { j } else { j + 1 };
            assert(after[i] == rows[oi]);
            assert(after[j] == rows[oj]);
            assert(!same_key(rows[oi], rows[oj].principle, rows[oj].action));
        }
    }
}

} // verus!
