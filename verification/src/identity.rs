//! The identity resolver: numeric owner and group ids become display names,
//! degrading to a sentinel label when the system identity database has no
//! usable entry.

use vstd::prelude::*;
use vstd::string::StringExecFns;

verus! {

/// Relies on users::get_user_by_uid (getpwuid_r) and users::User::name: looks
/// the id up in the system user database and hands back the entry's name as
/// text, or nothing when there is no entry or its name is not valid text.
/// What comes back depends on that database, so nothing is promised of the
/// result.
#[verifier::external_body]
pub(crate) fn lookup_user_name(uid: u32) -> Option<String> {
    match users::get_user_by_uid(uid) {
        Some(user) => match user.name().to_str() {
            Some(name) => Some(name.to_string()),
            None => None,
        },
        None => None,
    }
}

/// Relies on users::get_group_by_gid (getgrgid_r) and users::Group::name:
/// the group-database counterpart of `lookup_user_name`, with the same
/// caveat.
#[verifier::external_body]
pub(crate) fn lookup_group_name(gid: u32) -> Option<String> {
    match users::get_group_by_gid(gid) {
        Some(group) => match group.name().to_str() {
            Some(name) => Some(name.to_string()),
            None => None,
        },
        None => None,
    }
}

/// Turns the outcome of a user lookup into a display name: the found name
/// itself, or the sentinel `Unknown user` when the lookup found nothing.
pub fn resolve_user(found: Option<String>) -> (r: String)
    ensures
        found matches Some(name) ==> r@ == name@,
        found is None ==> r@ == "Unknown user"@,
{
    match found {
        Some(name) => name,
        None => String::from_str("Unknown user"),
    }
}

/// Turns the outcome of a group lookup into a display name: the found name
/// itself, or the sentinel `Unknown group` when the lookup found nothing.
pub fn resolve_group(found: Option<String>) -> (r: String)
    ensures
        found matches Some(name) ==> r@ == name@,
        found is None ==> r@ == "Unknown group"@,
{
    match found {
        Some(name) => name,
        None => String::from_str("Unknown group"),
    }
}

/// Maps an owner id and a group id to their display names. The lookup reads
/// the system identity database, so which names come back depends on the
/// machine; whatever the database holds, the call succeeds, substituting the
/// sentinel labels where an id has no usable entry.
pub fn get_owner_and_group_names(owner_id: u32, group_id: u32) -> (r: Result<
    (String, String),
    &'static str,
>)
    ensures
        r is Ok,
{
    let owner = resolve_user(lookup_user_name(owner_id));
    let group = resolve_group(lookup_group_name(group_id));
    Ok((owner, group))
}

} // verus!
