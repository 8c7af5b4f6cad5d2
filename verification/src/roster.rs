//! The members and roles of one server, as seen at one point in time.

use vstd::prelude::*;

verus! {

/// A role of the server: a named tag that members can hold.
#[derive(Debug)]
pub struct Role {
    pub id: u64,
    pub name: String,
}

/// What a [`Role`] stands for in contracts.
pub struct RoleView {
    pub id: u64,
    pub name: Seq<char>,
}

impl View for Role {
    type V = RoleView;

    open spec fn view(&self) -> RoleView {
        RoleView { id: self.id, name: self.name@ }
    }
}

impl Clone for Role {
    fn clone(&self) -> (out: Self)
        ensures
            out@ == self@,
    {
        Role { id: self.id, name: self.name.clone() }
    }
}

/// A member of the server, with the name shown for them and the roles they hold.
#[derive(Debug)]
pub struct Member {
    pub id: u64,
    pub display_name: String,
    pub roles: Vec<u64>,
}

/// What a [`Member`] stands for in contracts.
pub struct MemberView {
    pub id: u64,
    pub name: Seq<char>,
    pub roles: Seq<u64>,
}

impl View for Member {
    type V = MemberView;

    open spec fn view(&self) -> MemberView {
        MemberView { id: self.id, name: self.display_name@, roles: self.roles@ }
    }
}

impl Clone for Member {
    fn clone(&self) -> (out: Self)
        ensures
            out@ == self@,
    {
        Member { id: self.id, display_name: self.display_name.clone(), roles: self.roles.clone() }
    }
}

impl Member {
    /// Whether this member holds the role `role`.
    pub fn has_role(&self, role: u64) -> (held: bool)
        ensures
            held == self@.roles.contains(role),
    {
        let mut i: usize = 0;
        while i < self.roles.len()
            invariant
                i <= self.roles.len(),
                forall|k: int| 0 <= k < i ==> self.roles@[k] != role,
            decreases self.roles.len() - i,
        {
            if self.roles[i] == role {
                return true;
            }
            i += 1;
        }
        false
    }
}

/// The views of a list of members, in the same order.
pub open spec fn member_views(members: Seq<Member>) -> Seq<MemberView> {
    members.map_values(|m: Member| m@)
}

/// The views of a list of roles, in the same order.
pub open spec fn role_views(roles: Seq<Role>) -> Seq<RoleView> {
    roles.map_values(|r: Role| r@)
}

/// What a [`Snapshot`] stands for in contracts: its members and its roles,
/// each in the server's stable order.
pub struct SnapshotView {
    pub members: Seq<MemberView>,
    pub roles: Seq<RoleView>,
}

impl SnapshotView {
    /// No two members share an id, and no two roles share an id.
    pub open spec fn wf(self) -> bool {
        &&& forall|i: int, j: int|
            0 <= i < j < self.members.len() ==> self.members[i].id != self.members[j].id
        &&& forall|i: int, j: int|
            0 <= i < j < self.roles.len() ==> self.roles[i].id != self.roles[j].id
    }

    /// Whether some member has the id `id`.
    pub open spec fn has_member(self, id: u64) -> bool {
        exists|i: int| 0 <= i < self.members.len() && self.members[i].id == id
    }

    /// Whether some role has the id `id`.
    pub open spec fn has_role(self, id: u64) -> bool {
        exists|i: int| 0 <= i < self.roles.len() && self.roles[i].id == id
    }
}

/// A read-only picture of a server: its members and roles, each kept in the
/// order in which they were added, with ids that occur once.
#[derive(Debug)]
pub struct Snapshot {
    members: Vec<Member>,
    roles: Vec<Role>,
}

impl View for Snapshot {
    type V = SnapshotView;

    closed spec fn view(&self) -> SnapshotView {
        SnapshotView { members: member_views(self.members@), roles: role_views(self.roles@) }
    }
}

impl Snapshot {
    /// Whether ids occur once among the members and once among the roles.
    pub open spec fn wf(&self) -> bool {
        self@.wf()
    }

    /// A snapshot of a server without members or roles.
    pub fn new() -> (out: Self)
        ensures
            out.wf(),
            out@.members.len() == 0,
            out@.roles.len() == 0,
    {
        Snapshot { members: Vec::new(), roles: Vec::new() }
    }

    /// The number of members.
    pub fn member_count(&self) -> (n: usize)
        ensures
            n == self@.members.len(),
    {
        self.members.len()
    }

    /// The number of roles.
    pub fn role_count(&self) -> (n: usize)
        ensures
            n == self@.roles.len(),
    {
        self.roles.len()
    }

    /// The member at position `i` of the server's order.
    pub fn member(&self, i: usize) -> (m: &Member)
        requires
            i < self@.members.len(),
        ensures
            m@ == self@.members[i as int],
    {
        &self.members[i]
    }

    /// The role at position `i` of the server's order.
    pub fn role(&self, i: usize) -> (r: &Role)
        requires
            i < self@.roles.len(),
        ensures
            r@ == self@.roles[i as int],
    {
        &self.roles[i]
    }

    /// The position of the member with id `id`, if there is one.
    pub fn find_member(&self, id: u64) -> (found: Option<usize>)
        ensures
            found is Some <==> self@.has_member(id),
            found matches Some(i) ==> i < self@.members.len() && self@.members[i as int].id == id,
            found is None ==> forall|k: int|
                0 <= k < self@.members.len() ==> (#[trigger] self@.members[k]).id != id,
    {
        let mut i: usize = 0;
        while i < self.members.len()
            invariant
                i <= self.members.len(),
                self@.members.len() == self.members.len(),
                forall|k: int| 0 <= k < i ==> self@.members[k].id != id,
            decreases self.members.len() - i,
        {
            if self.members[i].id == id {
                assert(self@.members[i as int].id == id);
                return Some(i);
            }
            i += 1;
        }
        None
    }

    /// The position of the role with id `id`, if there is one.
    pub fn find_role(&self, id: u64) -> (found: Option<usize>)
        ensures
            found is Some <==> self@.has_role(id),
            found matches Some(i) ==> i < self@.roles.len() && self@.roles[i as int].id == id,
            found is None ==> forall|k: int|
                0 <= k < self@.roles.len() ==> (#[trigger] self@.roles[k]).id != id,
    {
        let mut i: usize = 0;
        while i < self.roles.len()
            invariant
                i <= self.roles.len(),
                self@.roles.len() == self.roles.len(),
                forall|k: int| 0 <= k < i ==> self@.roles[k].id != id,
            decreases self.roles.len() - i,
        {
            if self.roles[i].id == id {
                assert(self@.roles[i as int].id == id);
                return Some(i);
            }
            i += 1;
        }
        None
    }

    /// Adds `member` at the end of the order, unless a member with its id is
    /// already there; says whether it was added.
    pub fn add_member(&mut self, member: Member) -> (added: bool)
        requires
            old(self).wf(),
        ensures
            final(self).wf(),
            added == !old(self)@.has_member(member.id),
            final(self)@.roles == old(self)@.roles,
            final(self)@.members == if added {
                old(self)@.members.push(member@)
            } else {
                old(self)@.members
            },
    {
        if self.find_member(member.id).is_some() {
            return false;
        }
        let ghost before = self@;
        self.members.push(member);
        assert(self@.members =~= before.members.push(member@));
        assert forall|i: int, j: int| 0 <= i < j < self@.members.len() implies self@.members[i].id
            != self@.members[j].id by {
            assert(self@.members[i] == before.members[i]);
            if j < before.members.len() {
                assert(self@.members[j] == before.members[j]);
            }
        }
        assert(self@.roles == before.roles);
        true
    }

    /// Adds `role` at the end of the order, unless a role with its id is
    /// already there; says whether it was added.
    pub fn add_role(&mut self, role: Role) -> (added: bool)
        requires
            old(self).wf(),
        ensures
            final(self).wf(),
            added == !old(self)@.has_role(role.id),
            final(self)@.members == old(self)@.members,
            final(self)@.roles == if added {
                old(self)@.roles.push(role@)
            } else {
                old(self)@.roles
            },
    {
        if self.find_role(role.id).is_some() {
            return false;
        }
        let ghost before = self@;
        self.roles.push(role);
        assert(self@.roles =~= before.roles.push(role@));
        assert forall|i: int, j: int| 0 <= i < j < self@.roles.len() implies self@.roles[i].id
            != self@.roles[j].id by {
            assert(self@.roles[i] == before.roles[i]);
            if j < before.roles.len() {
                assert(self@.roles[j] == before.roles[j]);
            }
        }
        assert(self@.members == before.members);
        true
    }
}

} // verus!
