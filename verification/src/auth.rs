//! Caller identity and the role-based authorization gate.
//!
//! Authorization is pure decision logic: given a (chat, caller) pair and
//! the store, it decides whether the caller may view or mutate the chat's
//! membership, and with which failure reason it refuses.

use vstd::prelude::*;

use crate::store::{MemberInfo, MembershipStore, Role};

verus! {

/// The caller's resolved user id. How it is resolved (from a request
/// header, a session, a credential) is outside this library; whoever
/// resolves it hands the plain id over in this wrapper.
#[derive(Clone, Copy, Debug, PartialEq, Eq, Structural)]
pub struct CurrentUid(pub i32);

/// Why an authorization check refused the caller.
#[derive(Clone, Copy, Debug, PartialEq, Eq, Structural)]
pub enum ForbiddenReason {
    /// The caller holds no membership in the chat.
    NotMember,
    /// The caller is a member but not an admin.
    NotAdmin,
}

/// Which referenced entity an operation failed to find.
#[derive(Clone, Copy, Debug, PartialEq, Eq, Structural)]
pub enum MissingKind {
    /// The target user is not in the user directory.
    User,
    /// The target (chat, user) membership does not exist.
    Member,
}

/// The failures a membership operation can surface.
#[derive(Clone, Copy, Debug, PartialEq, Eq, Structural)]
pub enum ApiError {
    /// The caller lacks the required standing in the chat.
    Forbidden(ForbiddenReason),
    /// A referenced entity does not exist.
    NotFound(MissingKind),
    /// Adding would violate the one-membership-per-pair invariant.
    Conflict,
    /// The supplied role is outside the accepted set.
    BadRequest,
}

/// Whether (chat c, user u) is a membership of relation `m`.
pub open spec fn spec_is_member(m: Map<(int, int), MemberInfo>, c: int, u: int) -> bool {
    m.contains_key((c, u))
}

/// Whether user u is an admin of chat c in relation `m`.
pub open spec fn spec_is_admin(m: Map<(int, int), MemberInfo>, c: int, u: int) -> bool {
    m.contains_key((c, u)) && m[(c, u)].role == Role::Admin
}

/// Succeeds exactly when the caller is a member of the chat, whatever the
/// role; refuses with [`ForbiddenReason::NotMember`] otherwise.
pub fn check_membership(store: &MembershipStore, chat_id: i64, uid: i32) -> (r: Result<
    (),
    ApiError,
>)
    requires
        store.wf(),
    ensures
        r.is_ok() <==> spec_is_member(store.mem_map(), chat_id as int, uid as int),
        r.is_err() ==> r == Result::<(), ApiError>::Err(
            ApiError::Forbidden(ForbiddenReason::NotMember),
        ),
{
    match store.find_membership(chat_id, uid) {
        Some(_) => Ok(()),
        None => Err(ApiError::Forbidden(ForbiddenReason::NotMember)),
    }
}

/// Succeeds exactly when the caller is an admin of the chat. A non-member
/// is refused as [`ForbiddenReason::NotMember`], a plain member as
/// [`ForbiddenReason::NotAdmin`].
pub fn check_admin_role(store: &MembershipStore, chat_id: i64, uid: i32) -> (r: Result<
    (),
    ApiError,
>)
    requires
        store.wf(),
    ensures
        r.is_ok() <==> spec_is_admin(store.mem_map(), chat_id as int, uid as int),
        !spec_is_member(store.mem_map(), chat_id as int, uid as int) ==> r == Result::<
            (),
            ApiError,
        >::Err(ApiError::Forbidden(ForbiddenReason::NotMember)),
        spec_is_member(store.mem_map(), chat_id as int, uid as int) && !spec_is_admin(
            store.mem_map(),
            chat_id as int,
            uid as int,
        ) ==> r == Result::<(), ApiError>::Err(ApiError::Forbidden(ForbiddenReason::NotAdmin)),
{
    match store.find_membership(chat_id, uid) {
        Some(m) => match m.role {
            Role::Admin => Ok(()),
            Role::Member => Err(ApiError::Forbidden(ForbiddenReason::NotAdmin)),
        },
        None => Err(ApiError::Forbidden(ForbiddenReason::NotMember)),
    }
}

} // verus!
