//! The role cache: the roles of one application by name.

use vstd::prelude::*;
use vstd::hash_map::StringHashMap;
use crate::role::Role;

verus! {

/// The roles of one application, each under its name.
pub struct Roles {
    by_name: StringHashMap<Role>,
}

impl View for Roles {
    type V = Map<Seq<char>, Role>;

    closed spec fn view(&self) -> Map<Seq<char>, Role> {
        self.by_name@
    }
}

impl Default for Roles {
    /// The cache without any role.
    fn default() -> (roles: Self)
        ensures
            roles@ == Map::<Seq<char>, Role>::empty(),
    {
        Roles { by_name: StringHashMap::new() }
    }
}

impl Roles {
    /// Puts `role` under its name, in place of any role that stood there.
    pub fn insert(&mut self, role: Role)
        ensures
            final(self)@ == old(self)@.insert(role.name@, role),
    {
        let name = role.name.clone();
        self.by_name.insert(name, role);
    }

    /// Replaces the whole mapping by `src`.
    pub fn set(&mut self, src: Roles)
        ensures
            final(self)@ == src@,
    {
        self.by_name = src.by_name;
    }

    /// The role called `name`, for reading.
    pub fn lookup(&self, name: &str) -> (found: Option<&Role>)
        ensures
            match found {
                Some(role) => self@.contains_key(name@) && *role == self@[name@],
                None => !self@.contains_key(name@),
            },
    {
        self.by_name.get(name)
    }

    /// A copy of the role called `name`.
    pub fn get(&self, name: &str) -> (found: Option<Role>)
        ensures
            match found {
                Some(role) => self@.contains_key(name@) && role@ == self@[name@]@,
                None => !self@.contains_key(name@),
            },
    {
        match self.by_name.get(name) {
            Some(role) => Some(role.clone()),
            None => None,
        }
    }

    /// The number of roles.
    pub fn len(&self) -> (n: usize)
        ensures
            n == self@.len(),
    {
        self.by_name.len()
    }
}

} // verus!
