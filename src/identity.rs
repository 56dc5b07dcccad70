//! Authenticated principals.

use vstd::prelude::*;

use crate::text::same_text;

verus! {

/// The role class of an identity; it decides how long its sessions live.
#[derive(Clone, Copy, Debug, PartialEq, Eq, Structural)]
pub enum Role {
    Member,
    Admin,
}

/// The stored name of each role.
pub open spec fn role_name(r: Role) -> Seq<char> {
    match r {
        Role::Member => seq!['m', 'e', 'm', 'b', 'e', 'r'],
        Role::Admin => seq!['a', 'd', 'm', 'i', 'n'],
    }
}

/// The role stored under `name`, if any.
pub open spec fn role_named(name: Seq<char>) -> Option<Role> {
    if name == role_name(Role::Member) {
        Some(Role::Member)
    } else if name == role_name(Role::Admin) {
        Some(Role::Admin)
    } else {
        None
    }
}

proof fn lemma_role_literals()
    ensures
        "member"@ == role_name(Role::Member),
        "admin"@ == role_name(Role::Admin),
{
    reveal_strlit("member");
    reveal_strlit("admin");
    assert("member"@ =~= role_name(Role::Member));
    assert("admin"@ =~= role_name(Role::Admin));
}

impl Role {
    /// Reads a stored role name.
    pub fn parse(name: &str) -> (r: Option<Role>)
        ensures
            r == role_named(name@),
    {
        proof {
            lemma_role_literals();
        }
        if same_text(name, "member") {
            Some(Role::Member)
        } else if same_text(name, "admin") {
            Some(Role::Admin)
        } else {
            None
        }
    }

    /// The stored name of this role.
    pub fn name(&self) -> (r: String)
        ensures
            r@ == role_name(*self),
    {
        proof {
            lemma_role_literals();
        }
        match self {
            Role::Member => String::from_str("member"),
            Role::Admin => String::from_str("admin"),
        }
    }
}

/// An authenticated user: immutable for the lifetime of a connection.
#[derive(Clone, Debug)]
pub struct Identity {
    pub id: String,
    pub display_name: String,
    pub role: Role,
}

impl Identity {
    /// A field-by-field copy.
    pub fn duplicate(&self) -> (r: Identity)
        ensures
            r == *self,
    {
        Identity { id: self.id.clone(), display_name: self.display_name.clone(), role: self.role }
    }
}

} // verus!
