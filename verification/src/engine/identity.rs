//! Names of file owners and groups, looked up once per id and then remembered.

use crate::utils::{decimal_string, decimal_text};
use std::collections::HashMap;
use vstd::prelude::*;

verus! {

broadcast use vstd::std_specs::hash::group_hash_axioms;

/// The name of the user with id `uid` in the system's user database (`uzers::get_user_by_uid`
/// and `User::name`), if there is one. What it answers depends on the machine, so nothing is
/// promised of it.
#[verifier::external_body]
fn lookup_user_name(uid: u32) -> Option<String> {
    uzers::get_user_by_uid(uid).map(|u| u.name().to_string_lossy().into_owned())
}

/// The name of the group with id `gid` in the system's group database
/// (`uzers::get_group_by_gid` and `Group::name`), if there is one; machine-dependent.
#[verifier::external_body]
fn lookup_group_name(gid: u32) -> Option<String> {
    uzers::get_group_by_gid(gid).map(|g| g.name().to_string_lossy().into_owned())
}

/// The name shown for an id: the name found for it, else the id in decimal.
pub open spec fn shown_name(found: Option<Seq<char>>, id: u32) -> Seq<char> {
    match found {
        Some(n) => n,
        None => decimal_text(id as nat),
    }
}

/// The name shown for an id (see `shown_name`).
pub fn name_or_id(found: Option<String>, id: u32) -> (r: String)
    ensures
        r@ == shown_name(match found {
            Some(n) => Some(n@),
            None => None,
        }, id),
{
    match found {
        Some(n) => n,
        None => decimal_string(id as u64),
    }
}

/// The remembered names of users and groups by id.
pub struct IdentityCache {
    users: HashMap<u32, String>,
    groups: HashMap<u32, String>,
}

impl IdentityCache {
    /// The remembered user names.
    pub closed spec fn users_view(&self) -> Map<u32, Seq<char>> {
        self.users@.map_values(|s: String| s@)
    }

    /// The remembered group names.
    pub closed spec fn groups_view(&self) -> Map<u32, Seq<char>> {
        self.groups@.map_values(|s: String| s@)
    }

    /// Nothing remembered.
    pub fn new() -> (r: Self)
        ensures
            r.users_view() == Map::<u32, Seq<char>>::empty(),
            r.groups_view() == Map::<u32, Seq<char>>::empty(),
    {
        let r = IdentityCache { users: HashMap::new(), groups: HashMap::new() };
        assert(r.users_view() =~= Map::<u32, Seq<char>>::empty());
        assert(r.groups_view() =~= Map::<u32, Seq<char>>::empty());
        r
    }

    /// The name of user `uid`: the remembered one; else it is looked up (the id in decimal
    /// where the system has no such user) and remembered.
    pub fn resolve_user(&mut self, uid: u32) -> (r: String)
        ensures
            old(self).users_view().contains_key(uid) ==> r@ == old(self).users_view()[uid]
                && final(self).users_view() == old(self).users_view(),
            !old(self).users_view().contains_key(uid) ==> final(self).users_view() == old(self).users_view().insert(uid, r@),
            final(self).groups_view() == old(self).groups_view(),
    {
        match self.users.get(&uid) {
            Some(n) => {
                return n.clone();
            },
            None => {},
        }
        let name = name_or_id(lookup_user_name(uid), uid);
        self.users.insert(uid, name.clone());
        assert(self.users_view() =~= old(self).users_view().insert(uid, name@));
        name
    }

    /// The name of group `gid`: the remembered one; else it is looked up (the id in decimal
    /// where the system has no such group) and remembered.
    pub fn resolve_group(&mut self, gid: u32) -> (r: String)
        ensures
            old(self).groups_view().contains_key(gid) ==> r@ == old(self).groups_view()[gid]
                && final(self).groups_view() == old(self).groups_view(),
            !old(self).groups_view().contains_key(gid) ==> final(self).groups_view() == old(self).groups_view().insert(gid, r@),
            final(self).users_view() == old(self).users_view(),
    {
        match self.groups.get(&gid) {
            Some(n) => {
                return n.clone();
            },
            None => {},
        }
        let name = name_or_id(lookup_group_name(gid), gid);
        self.groups.insert(gid, name.clone());
        assert(self.groups_view() =~= old(self).groups_view().insert(gid, name@));
        name
    }
}

} // verus!
