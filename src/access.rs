use vstd::prelude::*;

use crate::error::Error;
use crate::parsers::{parse_permission, permission_of};
use crate::permission::{lists_rows, Permission, PermissionMap, UserId};
use crate::text::{chars_of, parse_u64, u64_of, views};

verus! {

/// A change to a principal's stored permissions.
#[derive(Debug, Clone, Copy, PartialEq, Eq, Structural)]
pub enum PermissionEvent {
    Grant,
    Revoke,
    Assign,
    Reset,
}

/// The plugin that manages permissions: `pmgrant`, `pmrevoke`, `pmset`,
/// `pmreset`, `pmshow`.
pub struct AccessPlugin {}

impl AccessPlugin {
    pub fn new() -> (r: AccessPlugin) {
        AccessPlugin {  }
    }
}

/// The principal a command is about: the sender of the message replied to,
/// else the first argument read as a user id.
pub open spec fn user_of(reply: Option<Option<UserId>>, args: Seq<Seq<char>>) -> Option<UserId> {
    match reply {
        Some(from) => from,
        None => if args.len() > 0 {
            u64_of(args[0])
        } else {
            None
        },
    }
}

/// A user id is required but no argument gives one (a reply always counts).
pub open spec fn user_missing(
    reply: Option<Option<UserId>>,
    args: Seq<Seq<char>>,
    require_userid: bool,
) -> bool {
    reply is None && require_userid && (args.len() == 0 || u64_of(args[0]) is None)
}

/// The argument that holds the permission: the first in a reply, else the
/// one after the user id when a user id is required.
pub open spec fn perm_index(reply: Option<Option<UserId>>, require_userid: bool) -> int {
    if reply is Some {
        0
    } else if require_userid {
        1
    } else {
        0
    }
}

/// Reads the principal and the permission that a permission command is
/// about. `reply` is `Some(sender)` when the message replies to another
/// one (whose sender may be unknown); `args` are the command's arguments.
pub fn user_and_permission(
    reply: Option<Option<UserId>>,
    args: &Vec<String>,
    require_userid: bool,
    require_perm: bool,
) -> (r: Result<(Option<UserId>, Option<Permission>), Error>)
    ensures
        user_missing(reply, views(args@), require_userid) && args@.len() == 0 ==> (r matches Err(
            Error::OptionNotSpecified(x),
        ) && x@ == "user_id"@),
        user_missing(reply, views(args@), require_userid) && args@.len() > 0 ==> (r matches Err(
            Error::InvalidOption(x),
        ) && x@ == "user_id"@),
        !user_missing(reply, views(args@), require_userid) && !require_perm ==> r == Ok::<
            (Option<UserId>, Option<Permission>),
            Error,
        >((user_of(reply, views(args@)), None)),
        !user_missing(reply, views(args@), require_userid) && require_perm && perm_index(
            reply,
            require_userid,
        ) >= args@.len() ==> (r matches Err(Error::OptionNotSpecified(x)) && x@ == "perm"@),
        !user_missing(reply, views(args@), require_userid) && require_perm && perm_index(
            reply,
            require_userid,
        ) < args@.len() ==> {
            let text = args@[perm_index(reply, require_userid)]@;
            match permission_of(text) {
                Ok(m) => r matches Ok((u, Some(p))) && u == user_of(reply, views(args@)) && p@
                    == m,
                Err(_) => r matches Err(Error::UnknownOption(x)) && x@ == "perm "@ + text,
            }
        },
{
    let user = match reply {
        Some(from) => from,
        None => {
            if args.len() == 0 {
                if require_userid {
                    return Err(Error::OptionNotSpecified(String::from_str("user_id")));
                }
                None
            } else {
                let first = chars_of(args[0].as_str());
                match parse_u64(&first) {
                    Some(uid) => Some(uid),
                    None => {
                        if require_userid {
                            return Err(Error::InvalidOption(String::from_str("user_id")));
                        }
                        None
                    },
                }
            }
        },
    };
    assert(args@.len() > 0 ==> views(args@)[0] == args@[0]@);
    if !require_perm {
        return Ok((user, None));
    }
    let index: usize = if reply.is_some() {
        0
    } else if require_userid {
        1
    } else {
        0
    };
    if index >= args.len() {
        return Err(Error::OptionNotSpecified(String::from_str("perm")));
    }
    let text = &args[index];
    match parse_permission(text.as_str()) {
        Ok(p) => Ok((user, Some(p))),
        Err(_) => Err(Error::UnknownOption(String::from_str("perm ").concat(text.as_str()))),
    }
}

/// What a permission event does to the store.
#[derive(Debug, Clone, Copy, PartialEq, Eq, Structural)]
pub enum StoreOp {
    /// Store the current mask with these flags added.
    Grant(UserId, Permission),
    /// Store the current mask without these flags.
    Revoke(UserId, Permission),
    /// Store exactly this mask.
    Assign(UserId, Permission),
    /// Delete the stored mask.
    Reset(UserId),
}

/// The store operation of `event` for `user` with `perm`: every event needs
/// a user, and every event but a reset needs a permission.
pub fn plan_perm_event(event: PermissionEvent, perm: Option<Permission>, user: Option<UserId>) -> (r:
    Result<StoreOp, Error>)
    ensures
        user is None ==> (r matches Err(Error::OptionNotSpecified(x)) && x@ == "user_id"@),
        user is Some && event != PermissionEvent::Reset && perm is None ==> (r matches Err(
            Error::OptionNotSpecified(x),
        ) && x@ == "permission"@),
        user is Some && event == PermissionEvent::Reset ==> r == Ok::<StoreOp, Error>(
            StoreOp::Reset(user->0),
        ),
        user is Some && perm is Some && event == PermissionEvent::Grant ==> r == Ok::<
            StoreOp,
            Error,
        >(StoreOp::Grant(user->0, perm->0)),
        user is Some && perm is Some && event == PermissionEvent::Revoke ==> r == Ok::<
            StoreOp,
            Error,
        >(StoreOp::Revoke(user->0, perm->0)),
        user is Some && perm is Some && event == PermissionEvent::Assign ==> r == Ok::<StoreOp, Error>(
            StoreOp::Assign(user->0, perm->0),
        ),
{
    let user = match user {
        Some(u) => u,
        None => return Err(Error::OptionNotSpecified(String::from_str("user_id"))),
    };
    match event {
        PermissionEvent::Reset => Ok(StoreOp::Reset(user)),
        _ => match perm {
            None => Err(Error::OptionNotSpecified(String::from_str("permission"))),
            Some(p) => match event {
                PermissionEvent::Grant => Ok(StoreOp::Grant(user, p)),
                PermissionEvent::Revoke => Ok(StoreOp::Revoke(user, p)),
                _ => Ok(StoreOp::Assign(user, p)),
            },
        },
    }
}

/// The entries that `pmshow` lists from the snapshot `map`: the one of
/// `user` when a user is named, else all of them; an error when the named
/// user has no entry, or when the map is empty.
pub fn entries_to_show(map: &PermissionMap, user: Option<UserId>) -> (r: Result<
    Vec<(u64, u32)>,
    Error,
>)
    ensures
        user is Some && map@.contains_key(user->0) ==> (r matches Ok(v) && v@ == seq![
            (user->0, map@[user->0]),
        ]),
        user is Some && !map@.contains_key(user->0) ==> (r matches Err(Error::NotFound(x)) && x@
            == "permissions"@),
        user is None && map@.dom().len() == 0 ==> (r matches Err(Error::IsEmpty(x)) && x@
            == "permission map"@),
        user is None && map@.dom().len() > 0 ==> (r matches Ok(v) && lists_rows(map@, v@)),
{
    match user {
        Some(uid) => match map.get(uid) {
            Some(p) => {
                let v = vec![(uid, p.bits())];
                assert(v@ =~= seq![(uid, map@[uid])]);
                Ok(v)
            },
            None => Err(Error::NotFound(String::from_str("permissions"))),
        },
        None => {
            if map.is_empty() {
                Err(Error::IsEmpty(String::from_str("permission map")))
            } else {
                Ok(map.rows())
            }
        },
    }
}

} // verus!
