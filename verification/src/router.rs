//! The request router: a pure classification from (method, path) to one
//! of a fixed set of operations, evaluated in a fixed priority order with
//! no fallthrough ambiguity.

use vstd::prelude::*;
use crate::chars::{find_ch, seq_ends_with, seq_starts_with, str_ends_with, str_find_ch_from,
    str_starts_with};

verus! {

/// The HTTP methods the router distinguishes; everything else is
/// `Other`.
#[derive(Clone, Copy, PartialEq, Eq, Structural, Debug)]
pub enum Method {
    Get,
    Put,
    Patch,
    Delete,
    Options,
    Head,
    Post,
    Other,
}

/// The operation a request maps to.  Contract-only operations (batch
/// query, avatar set/delete, following list/modify) are explicit
/// variants so that their slots exist even while their algorithms are
/// acknowledged-but-unimplemented.
#[derive(Debug, PartialEq)]
pub enum Operation {
    ServeRobots,
    CorsPreflight,
    UserQuery,
    GetStatus { username: String },
    PatchStatus { username: String },
    PutAvatar { username: String },
    DeleteAvatar { username: String },
    InvalidAvatarMethod,
    GetFollowing { username: String },
    PatchFollowing { username: String },
    InvalidFollowingMethod,
    NotAllowed,
}

/// The mathematical model of an operation.
pub ghost enum OperationV {
    ServeRobots,
    CorsPreflight,
    UserQuery,
    GetStatus { username: Seq<char> },
    PatchStatus { username: Seq<char> },
    PutAvatar { username: Seq<char> },
    DeleteAvatar { username: Seq<char> },
    InvalidAvatarMethod,
    GetFollowing { username: Seq<char> },
    PatchFollowing { username: Seq<char> },
    InvalidFollowingMethod,
    NotAllowed,
}

impl View for Operation {
    type V = OperationV;

    open spec fn view(&self) -> OperationV {
        match self {
            Operation::ServeRobots => OperationV::ServeRobots,
            Operation::CorsPreflight => OperationV::CorsPreflight,
            Operation::UserQuery => OperationV::UserQuery,
            Operation::GetStatus { username } => OperationV::GetStatus { username: username@ },
            Operation::PatchStatus { username } => OperationV::PatchStatus {
                username: username@,
            },
            Operation::PutAvatar { username } => OperationV::PutAvatar { username: username@ },
            Operation::DeleteAvatar { username } => OperationV::DeleteAvatar {
                username: username@,
            },
            Operation::InvalidAvatarMethod => OperationV::InvalidAvatarMethod,
            Operation::GetFollowing { username } => OperationV::GetFollowing {
                username: username@,
            },
            Operation::PatchFollowing { username } => OperationV::PatchFollowing {
                username: username@,
            },
            Operation::InvalidFollowingMethod => OperationV::InvalidFollowingMethod,
            Operation::NotAllowed => OperationV::NotAllowed,
        }
    }
}

/// Whether an operation mutates stored state, and so stands behind the
/// authentication gate.
pub open spec fn op_is_mutating(op: OperationV) -> bool {
    match op {
        OperationV::PatchStatus { .. } => true,
        OperationV::PutAvatar { .. } => true,
        OperationV::DeleteAvatar { .. } => true,
        OperationV::PatchFollowing { .. } => true,
        _ => false,
    }
}

/// The username an operation addresses (empty for operations without
/// one).
pub open spec fn op_username(op: OperationV) -> Seq<char> {
    match op {
        OperationV::GetStatus { username } => username,
        OperationV::PatchStatus { username } => username,
        OperationV::PutAvatar { username } => username,
        OperationV::DeleteAvatar { username } => username,
        OperationV::GetFollowing { username } => username,
        OperationV::PatchFollowing { username } => username,
        _ => Seq::empty(),
    }
}

/// The routing table, first matching rule wins: the crawler policy, the
/// CORS preflight, the batch status query, the partial status update,
/// the avatar sub-resource, the following sub-resource, the single-user
/// status read, and last the rejection of everything else.  In the
/// status rows `{name}` is one path segment: a remainder with a further
/// slash falls through to the sub-resource rows.
pub open spec fn spec_route(m: Method, path: Seq<char>) -> OperationV {
    let prefix = "/.well-known/fmrl/user/"@;
    if seq_starts_with(path, "/robots.txt"@) && m == Method::Get {
        OperationV::ServeRobots
    } else if m == Method::Options {
        OperationV::CorsPreflight
    } else if seq_starts_with(path, "/.well-known/fmrl/users"@) && m == Method::Get {
        OperationV::UserQuery
    } else if seq_starts_with(path, prefix) && m == Method::Patch && find_ch(
        path,
        '/',
        prefix.len() as int,
    ) == path.len() {
        OperationV::PatchStatus { username: path.subrange(prefix.len() as int, path.len() as int) }
    } else if seq_starts_with(path, prefix) && seq_ends_with(path, "/avatar"@) && prefix.len()
        + "/avatar"@.len() <= path.len() {
        let username = path.subrange(prefix.len() as int, path.len() - "/avatar"@.len());
        if m == Method::Put {
            OperationV::PutAvatar { username }
        } else if m == Method::Delete {
            OperationV::DeleteAvatar { username }
        } else {
            OperationV::InvalidAvatarMethod
        }
    } else if seq_starts_with(path, prefix) && seq_ends_with(path, "/following"@) && prefix.len()
        + "/following"@.len() <= path.len() {
        let username = path.subrange(prefix.len() as int, path.len() - "/following"@.len());
        if m == Method::Get {
            OperationV::GetFollowing { username }
        } else if m == Method::Patch {
            OperationV::PatchFollowing { username }
        } else {
            OperationV::InvalidFollowingMethod
        }
    } else if seq_starts_with(path, prefix) && m == Method::Get && find_ch(
        path,
        '/',
        prefix.len() as int,
    ) == path.len() {
        OperationV::GetStatus { username: path.subrange(prefix.len() as int, path.len() as int) }
    } else {
        OperationV::NotAllowed
    }
}

/// Classify a request by the routing table.
pub fn route(m: Method, path: &str) -> (r: Operation)
    ensures
        r@ == spec_route(m, path@),
{
    proof {
        reveal_strlit("/.well-known/fmrl/user/");
        reveal_strlit("/avatar");
        reveal_strlit("/following");
    }
    let len = path.unicode_len();
    if str_starts_with(path, "/robots.txt") && m == Method::Get {
        Operation::ServeRobots
    } else if m == Method::Options {
        Operation::CorsPreflight
    } else if str_starts_with(path, "/.well-known/fmrl/users") && m == Method::Get {
        Operation::UserQuery
    } else if str_starts_with(path, "/.well-known/fmrl/user/") && m == Method::Patch
        && str_find_ch_from(path, '/', 23) == len {
        let username = path.substring_char(23, len).to_owned();
        Operation::PatchStatus { username }
    } else if str_starts_with(path, "/.well-known/fmrl/user/") && str_ends_with(path, "/avatar")
        && 23 + 7 <= len {
        let username = path.substring_char(23, len - 7).to_owned();
        if m == Method::Put {
            Operation::PutAvatar { username }
        } else if m == Method::Delete {
            Operation::DeleteAvatar { username }
        } else {
            Operation::InvalidAvatarMethod
        }
    } else if str_starts_with(path, "/.well-known/fmrl/user/") && str_ends_with(
        path,
        "/following",
    ) && 23 + 10 <= len {
        let username = path.substring_char(23, len - 10).to_owned();
        if m == Method::Get {
            Operation::GetFollowing { username }
        } else if m == Method::Patch {
            Operation::PatchFollowing { username }
        } else {
            Operation::InvalidFollowingMethod
        }
    } else if str_starts_with(path, "/.well-known/fmrl/user/") && m == Method::Get
        && str_find_ch_from(path, '/', 23) == len {
        let username = path.substring_char(23, len).to_owned();
        Operation::GetStatus { username }
    } else {
        Operation::NotAllowed
    }
}

} // verus!
