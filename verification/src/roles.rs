//! The role hierarchy that breaks ties between two role-scoped policies.

use vstd::prelude::*;

verus! {

/// How the first of two roles stands to the second in a hierarchy.
#[derive(Debug, Copy, Clone, Eq, PartialEq, Hash, Structural)]
pub enum RoleOrdering {
    Less,
    Equal,
    Greater,
}

/// A source of role positions. `Equal` also stands for "not known".
pub trait RoleOrder {
    /// Where `lhs` stands relative to `rhs`.
    spec fn order(&self, lhs: u64, rhs: u64) -> RoleOrdering;

    fn compare(&self, lhs: u64, rhs: u64) -> (r: RoleOrdering)
        ensures
            r == self.order(lhs, rhs),
    ;
}

/// No hierarchy at hand: every pair of roles compares `Equal`.
#[derive(Debug, Copy, Clone, Eq, PartialEq, Hash, Structural)]
pub struct Unranked;

impl RoleOrder for Unranked {
    open spec fn order(&self, lhs: u64, rhs: u64) -> RoleOrdering {
        RoleOrdering::Equal
    }

    fn compare(&self, lhs: u64, rhs: u64) -> (r: RoleOrdering) {
        RoleOrdering::Equal
    }
}

/// One role of a guild: its id and its position in the guild's list.
#[derive(Debug, Copy, Clone, Eq, PartialEq, Hash, Structural)]
pub struct RoleEntry {
    pub id: u64,
    pub position: u16,
}

/// Two known roles: the higher position is greater; at equal positions
/// the role with the smaller id is greater.
pub open spec fn entry_order(lhs: RoleEntry, rhs: RoleEntry) -> RoleOrdering {
    if lhs.position == rhs.position {
        if rhs.id < lhs.id {
            RoleOrdering::Less
        } else if rhs.id == lhs.id {
            RoleOrdering::Equal
        } else {
            RoleOrdering::Greater
        }
    } else if lhs.position < rhs.position {
        RoleOrdering::Less
    } else {
        RoleOrdering::Greater
    }
}

/// The first entry of `roles` with the given id, if there is one.
pub open spec fn find_role(roles: Seq<RoleEntry>, id: u64) -> Option<RoleEntry>
    decreases roles.len(),
{
    if roles.len() == 0 {
        None
    } else if roles[0].id == id {
        Some(roles[0])
    } else {
        find_role(roles.drop_first(), id)
    }
}

/// A known role stands above an unknown one; two unknown roles are equal.
pub open spec fn hierarchy_order(roles: Seq<RoleEntry>, lhs: u64, rhs: u64) -> RoleOrdering {
    match (find_role(roles, lhs), find_role(roles, rhs)) {
        (Some(_), None) => RoleOrdering::Greater,
        (None, Some(_)) => RoleOrdering::Less,
        (Some(l), Some(r)) => entry_order(l, r),
        (None, None) => RoleOrdering::Equal,
    }
}

/// The roles of one guild as last seen.
#[derive(Debug)]
pub struct RoleHierarchy {
    pub roles: Vec<RoleEntry>,
}

impl RoleHierarchy {
    pub fn new(roles: Vec<RoleEntry>) -> (h: RoleHierarchy)
        ensures
            h.roles@ == roles@,
    {
        RoleHierarchy { roles }
    }

    /// Looks a role up by id.
    pub fn find(&self, id: u64) -> (r: Option<RoleEntry>)
        ensures
            r == find_role(self.roles@, id),
    {
        let mut i: usize = 0;
        assert(self.roles@.skip(0) =~= self.roles@);
        while i < self.roles.len()
            invariant
                i <= self.roles.len(),
                find_role(self.roles@, id) == find_role(self.roles@.skip(i as int), id),
            decreases self.roles.len() - i,
        {
            let e = self.roles[i];
            proof {
                let rest = self.roles@.skip(i as int);
                assert(rest[0] == self.roles@[i as int]);
                assert(rest.drop_first() =~= self.roles@.skip(i as int + 1));
            }
            if e.id == id {
                return Some(e);
            }
            i += 1;
        }
        assert(self.roles@.skip(i as int).len() == 0);
        None
    }
}

impl RoleOrder for RoleHierarchy {
    open spec fn order(&self, lhs: u64, rhs: u64) -> RoleOrdering {
        hierarchy_order(self.roles@, lhs, rhs)
    }

    fn compare(&self, lhs: u64, rhs: u64) -> (r: RoleOrdering) {
        match (self.find(lhs), self.find(rhs)) {
            (Some(_), None) => RoleOrdering::Greater,
            (None, Some(_)) => RoleOrdering::Less,
            (Some(l), Some(r)) => {
                if l.position == r.position {
                    if r.id < l.id {
                        RoleOrdering::Less
                    } else if r.id == l.id {
                        RoleOrdering::Equal
                    } else {
                        RoleOrdering::Greater
                    }
                } else if l.position < r.position {
                    RoleOrdering::Less
                } else {
                    RoleOrdering::Greater
                }
            },
            (None, None) => RoleOrdering::Equal,
        }
    }
}

} // verus!
