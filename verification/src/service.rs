//! The membership operations: authorization check, validation, store
//! mutation and response shaping, in that fixed order.
//!
//! Every operation takes the caller's resolved id and the store; mutations
//! happen only after authorization and every validation succeed, so a
//! refused request leaves the relation untouched.

use vstd::prelude::*;

use crate::auth::{check_admin_role, check_membership, spec_is_admin, spec_is_member, ApiError,
    CurrentUid, ForbiddenReason, MissingKind};
use crate::store::{mem_info, mem_key, MemberInfo, Membership, MembershipStore, Role};
use vstd::string::StringSliceAdditionalSpecFns;

verus! {

/// The chat addressed by a collection request.
#[derive(Clone, Copy, Debug)]
pub struct ChatIdPath {
    pub chat_id: i64,
}

/// The single membership addressed by a request.
#[derive(Clone, Copy, Debug)]
pub struct MemberPath {
    pub chat_id: i64,
    pub uid: i32,
}

/// The payload of an add request: the target user and an optional role
/// name; an absent role defaults to member.
#[derive(Clone, Debug)]
pub struct AddMemberBody {
    pub uid: i32,
    pub role: Option<String>,
}

/// The payload of a role-update request.
#[derive(Clone, Debug)]
pub struct UpdateMemberBody {
    pub role: String,
}

/// One member as reported back to the caller: the membership row joined
/// with the user's name.
#[derive(Clone, Debug)]
pub struct MemberResponse {
    pub uid: i32,
    pub role: Role,
    pub joined_at: i64,
    pub username: String,
}

/// String equality over the abstract character sequences, decided by
/// comparing the UTF-8 bytes.
pub fn str_eq(a: &str, b: &str) -> (r: bool)
    ensures
        r <==> a@ == b@,
{
    let ab: &[u8] = a.as_bytes();
    let bb: &[u8] = b.as_bytes();
    if ab.len() != bb.len() {
        proof {
            assert(a.spec_bytes() == vstd::utf8::encode_utf8(a@));
            assert(b.spec_bytes() == vstd::utf8::encode_utf8(b@));
        }
        return false;
    }
    let n = ab.len();
    let mut i: usize = 0;
    while i < n
        invariant
            n == ab@.len(),
            ab@.len() == bb@.len(),
            i <= n,
            ab@ == a.spec_bytes(),
            bb@ == b.spec_bytes(),
            forall|j: int| 0 <= j < i ==> ab@[j] == bb@[j],
        decreases n - i,
    {
        if ab[i] != bb[i] {
            return false;
        }
        i += 1;
    }
    proof {
        assert(ab@ =~= bb@);
        vstd::utf8::encode_utf8_decode_utf8(a@);
        vstd::utf8::encode_utf8_decode_utf8(b@);
    }
    true
}

/// The accepted role names.
pub open spec fn is_valid_role(s: Seq<char>) -> bool {
    s == "admin"@ || s == "member"@
}

/// The role a valid role name denotes.
pub open spec fn spec_role_of(s: Seq<char>) -> Role {
    if s == "admin"@ {
        Role::Admin
    } else {
        Role::Member
    }
}

/// Parses a role name; any string outside the accepted set is rejected.
pub fn parse_role(s: &str) -> (r: Option<Role>)
    ensures
        r.is_some() <==> is_valid_role(s@),
        r matches Some(role) ==> role == spec_role_of(s@),
{
    if str_eq(s, "admin") {
        Some(Role::Admin)
    } else if str_eq(s, "member") {
        Some(Role::Member)
    } else {
        None
    }
}

/// The character sequences of an optional role name.
pub open spec fn role_opt_view(r: Option<String>) -> Option<Seq<char>> {
    match r {
        Option::Some(s) => Option::Some(s@),
        Option::None => Option::None,
    }
}

/// Whether an optional role name is acceptable: absent, or a valid name.
pub open spec fn role_opt_valid(r: Option<Seq<char>>) -> bool {
    match r {
        Option::Some(s) => is_valid_role(s),
        Option::None => true,
    }
}

/// The role an optional role name denotes; absent defaults to member.
pub open spec fn effective_role(r: Option<Seq<char>>) -> Role {
    match r {
        Option::Some(s) => spec_role_of(s),
        Option::None => Role::Member,
    }
}

/// Relies on `std::time::SystemTime::now`, chrono's `From<SystemTime>`
/// conversion for `DateTime<Utc>`, and `timestamp_millis`: the current
/// wall-clock time as milliseconds since the Unix epoch. The conversion
/// absorbs a system clock set before the epoch without panicking; such a
/// reading comes back as negative milliseconds.
#[verifier::external_body]
fn wall_clock_millis() -> i64 {
    let now = std::time::SystemTime::now();
    chrono::DateTime::<chrono::Utc>::from(now).timestamp_millis()
}

/// Lists the members of a chat, each joined with its username, in
/// unspecified order. Visible to any member of the chat, and only to
/// members.
pub fn get_members(caller: CurrentUid, store: &MembershipStore, chat_id: i64) -> (r: Result<
    Vec<MemberResponse>,
    ApiError,
>)
    requires
        store.wf(),
    ensures
        r.is_ok() <==> spec_is_member(store.mem_map(), chat_id as int, caller.0 as int),
        r.is_err() ==> (r matches Err(e) && e == ApiError::Forbidden(ForbiddenReason::NotMember)),
        r matches Ok(v) ==> {
            &&& forall|j: int|
                0 <= j < v@.len() ==> {
                    &&& store.mem_map().contains_key(
                        (chat_id as int, (#[trigger] v@[j]).uid as int),
                    )
                    &&& v@[j].role == store.mem_map()[(chat_id as int, v@[j].uid as int)].role
                    &&& v@[j].joined_at as int == store.mem_map()[
                        (chat_id as int, v@[j].uid as int)
                    ].joined_at
                    &&& v@[j].username@ == store.user_map()[v@[j].uid as int]
                }
            &&& forall|u: int|
                #[trigger] store.mem_map().contains_key((chat_id as int, u)) ==> exists|j: int|
                    0 <= j < v@.len() && (#[trigger] v@[j]).uid as int == u
            &&& forall|j1: int, j2: int| 0 <= j1 < j2 < v@.len() ==> v@[j1].uid != v@[j2].uid
        },
{
    check_membership(store, chat_id, caller.0)?;
    let rows = store.members_of_chat(chat_id);
    let n = rows.len();
    let mut out: Vec<MemberResponse> = Vec::new();
    let mut i: usize = 0;
    while i < n
        invariant
            store.wf(),
            n == rows@.len(),
            i <= n,
            out@.len() == i,
            forall|j: int|
                0 <= j < rows@.len() ==> {
                    &&& (#[trigger] rows@[j]).chat_id == chat_id
                    &&& store.mem_map().contains_key(mem_key(rows@[j]))
                    &&& mem_info(rows@[j]) == store.mem_map()[mem_key(rows@[j])]
                    &&& store.user_map().contains_key(rows@[j].uid as int)
                },
            forall|j: int|
                0 <= j < i ==> {
                    &&& (#[trigger] out@[j]).uid == rows@[j].uid
                    &&& out@[j].role == rows@[j].role
                    &&& out@[j].joined_at == rows@[j].joined_at
                    &&& out@[j].username@ == store.user_map()[out@[j].uid as int]
                },
        decreases n - i,
    {
        let row = rows[i];
        let username = match store.username_of(row.uid) {
            Some(name) => name,
            None => {
                return Err(ApiError::NotFound(MissingKind::User));
            },
        };
        out.push(MemberResponse { uid: row.uid, role: row.role, joined_at: row.joined_at, username });
        i += 1;
    }
    proof {
        assert forall|u: int|
            #[trigger] store.mem_map().contains_key((chat_id as int, u)) implies exists|j: int|
            0 <= j < out@.len() && (#[trigger] out@[j]).uid as int == u by {
            let j = choose|j: int| 0 <= j < rows@.len() && (#[trigger] rows@[j]).uid as int == u;
            assert(out@[j].uid as int == u);
        }
        assert forall|j: int| 0 <= j < out@.len() implies store.mem_map().contains_key(
            (chat_id as int, (#[trigger] out@[j]).uid as int),
        ) by {
            assert(mem_key(rows@[j]) == (chat_id as int, out@[j].uid as int));
        }
    }
    Ok(out)
}

/// Adds a member to a chat at a given creation timestamp. The caller must
/// be an admin of the chat, the target user must exist, must not already
/// be a member, and the requested role name, if any, must be valid; an
/// absent role defaults to member. The checks run in that order, and no
/// refusal changes the relation.
pub fn post_add_member_at(
    caller: CurrentUid,
    store: &mut MembershipStore,
    chat_id: i64,
    body: AddMemberBody,
    now: i64,
) -> (r: Result<MemberResponse, ApiError>)
    requires
        old(store).wf(),
    ensures
        final(store).wf(),
        final(store).user_map() == old(store).user_map(),
        !spec_is_member(old(store).mem_map(), chat_id as int, caller.0 as int) ==> r == Result::<
            MemberResponse,
            ApiError,
        >::Err(ApiError::Forbidden(ForbiddenReason::NotMember)) && final(store).mem_map() == old(store).mem_map(),
        spec_is_member(old(store).mem_map(), chat_id as int, caller.0 as int) && !spec_is_admin(
            old(store).mem_map(),
            chat_id as int,
            caller.0 as int,
        ) ==> r == Result::<MemberResponse, ApiError>::Err(
            ApiError::Forbidden(ForbiddenReason::NotAdmin),
        ) && final(store).mem_map() == old(store).mem_map(),
        spec_is_admin(old(store).mem_map(), chat_id as int, caller.0 as int) && !old(store).user_map().contains_key(body.uid as int) ==> r == Result::<MemberResponse, ApiError>::Err(
            ApiError::NotFound(MissingKind::User),
        ) && final(store).mem_map() == old(store).mem_map(),
        spec_is_admin(old(store).mem_map(), chat_id as int, caller.0 as int) && old(store).user_map().contains_key(body.uid as int) && old(store).mem_map().contains_key(
            (chat_id as int, body.uid as int),
        ) ==> r == Result::<MemberResponse, ApiError>::Err(ApiError::Conflict) && final(store).mem_map() == old(store).mem_map(),
        spec_is_admin(old(store).mem_map(), chat_id as int, caller.0 as int) && old(store).user_map().contains_key(body.uid as int) && !old(store).mem_map().contains_key(
            (chat_id as int, body.uid as int),
        ) && !role_opt_valid(role_opt_view(body.role)) ==> r == Result::<
            MemberResponse,
            ApiError,
        >::Err(ApiError::BadRequest) && final(store).mem_map() == old(store).mem_map(),
        spec_is_admin(old(store).mem_map(), chat_id as int, caller.0 as int) && old(store).user_map().contains_key(body.uid as int) && !old(store).mem_map().contains_key(
            (chat_id as int, body.uid as int),
        ) && role_opt_valid(role_opt_view(body.role)) ==> (r matches Ok(resp) && resp.uid == body.uid
            && resp.role == effective_role(role_opt_view(body.role)) && resp.joined_at == now
            && resp.username@ == old(store).user_map()[body.uid as int] && final(store).mem_map()
            == old(store).mem_map().insert(
            (chat_id as int, body.uid as int),
            (MemberInfo {
                role: effective_role(role_opt_view(body.role)),
                joined_at: now as int,
            }),
        )),
{
    check_admin_role(store, chat_id, caller.0)?;
    let username = match store.username_of(body.uid) {
        Some(name) => name,
        None => {
            return Err(ApiError::NotFound(MissingKind::User));
        },
    };
    if store.find_membership(chat_id, body.uid).is_some() {
        return Err(ApiError::Conflict);
    }
    let role = match &body.role {
        None => Role::Member,
        Some(s) => match parse_role(s.as_str()) {
            Some(ro) => ro,
            None => {
                return Err(ApiError::BadRequest);
            },
        },
    };
    let m = Membership { chat_id, uid: body.uid, role, joined_at: now };
    store.insert_membership(m);
    Ok(MemberResponse { uid: body.uid, role, joined_at: now, username })
}

/// Adds a member with the creation timestamp taken from the wall clock.
/// The authorization, validation and relation change are exactly those of
/// [`post_add_member_at`]; only the join timestamp is read from the clock.
pub fn post_add_member(
    caller: CurrentUid,
    store: &mut MembershipStore,
    chat_id: i64,
    body: AddMemberBody,
) -> (r: Result<MemberResponse, ApiError>)
    requires
        old(store).wf(),
    ensures
        final(store).wf(),
        final(store).user_map() == old(store).user_map(),
        !spec_is_member(old(store).mem_map(), chat_id as int, caller.0 as int) ==> r == Result::<
            MemberResponse,
            ApiError,
        >::Err(ApiError::Forbidden(ForbiddenReason::NotMember)) && final(store).mem_map() == old(store).mem_map(),
        spec_is_member(old(store).mem_map(), chat_id as int, caller.0 as int) && !spec_is_admin(
            old(store).mem_map(),
            chat_id as int,
            caller.0 as int,
        ) ==> r == Result::<MemberResponse, ApiError>::Err(
            ApiError::Forbidden(ForbiddenReason::NotAdmin),
        ) && final(store).mem_map() == old(store).mem_map(),
        spec_is_admin(old(store).mem_map(), chat_id as int, caller.0 as int) && !old(store).user_map().contains_key(body.uid as int) ==> r == Result::<MemberResponse, ApiError>::Err(
            ApiError::NotFound(MissingKind::User),
        ) && final(store).mem_map() == old(store).mem_map(),
        spec_is_admin(old(store).mem_map(), chat_id as int, caller.0 as int) && old(store).user_map().contains_key(body.uid as int) && old(store).mem_map().contains_key(
            (chat_id as int, body.uid as int),
        ) ==> r == Result::<MemberResponse, ApiError>::Err(ApiError::Conflict) && final(store).mem_map() == old(store).mem_map(),
        spec_is_admin(old(store).mem_map(), chat_id as int, caller.0 as int) && old(store).user_map().contains_key(body.uid as int) && !old(store).mem_map().contains_key(
            (chat_id as int, body.uid as int),
        ) && !role_opt_valid(role_opt_view(body.role)) ==> r == Result::<
            MemberResponse,
            ApiError,
        >::Err(ApiError::BadRequest) && final(store).mem_map() == old(store).mem_map(),
        spec_is_admin(old(store).mem_map(), chat_id as int, caller.0 as int) && old(store).user_map().contains_key(body.uid as int) && !old(store).mem_map().contains_key(
            (chat_id as int, body.uid as int),
        ) && role_opt_valid(role_opt_view(body.role)) ==> (r matches Ok(resp) && resp.uid == body.uid
            && resp.role == effective_role(role_opt_view(body.role)) && resp.username@ == old(store).user_map()[body.uid as int] && final(store).mem_map() == old(store).mem_map().insert(
            (chat_id as int, body.uid as int),
            (MemberInfo {
                role: effective_role(role_opt_view(body.role)),
                joined_at: resp.joined_at as int,
            }),
        )),
{
    let now = wall_clock_millis();
    post_add_member_at(caller, store, chat_id, body, now)
}

/// Whether the caller may remove the target: the member themself may
/// always leave, anyone else must be an admin of the chat.
pub open spec fn spec_remove_authorized(
    m: Map<(int, int), MemberInfo>,
    c: int,
    caller: int,
    target: int,
) -> bool {
    if caller == target {
        spec_is_member(m, c, caller)
    } else {
        spec_is_admin(m, c, caller)
    }
}

/// Removes a member from a chat. Self-removal needs only membership;
/// removing another user needs the admin role. Fails if the target is not
/// a member, and no refusal changes the relation.
pub fn delete_remove_member(
    caller: CurrentUid,
    store: &mut MembershipStore,
    chat_id: i64,
    target_uid: i32,
) -> (r: Result<(), ApiError>)
    requires
        old(store).wf(),
    ensures
        final(store).wf(),
        final(store).user_map() == old(store).user_map(),
        !spec_is_member(old(store).mem_map(), chat_id as int, caller.0 as int) ==> r == Result::<
            (),
            ApiError,
        >::Err(ApiError::Forbidden(ForbiddenReason::NotMember)) && final(store).mem_map() == old(store).mem_map(),
        caller.0 != target_uid && spec_is_member(
            old(store).mem_map(),
            chat_id as int,
            caller.0 as int,
        ) && !spec_is_admin(old(store).mem_map(), chat_id as int, caller.0 as int) ==> r
            == Result::<(), ApiError>::Err(ApiError::Forbidden(ForbiddenReason::NotAdmin)) && final(store).mem_map() == old(store).mem_map(),
        spec_remove_authorized(
            old(store).mem_map(),
            chat_id as int,
            caller.0 as int,
            target_uid as int,
        ) && !old(store).mem_map().contains_key((chat_id as int, target_uid as int)) ==> r
            == Result::<(), ApiError>::Err(ApiError::NotFound(MissingKind::Member)) && final(store).mem_map() == old(store).mem_map(),
        spec_remove_authorized(
            old(store).mem_map(),
            chat_id as int,
            caller.0 as int,
            target_uid as int,
        ) && old(store).mem_map().contains_key((chat_id as int, target_uid as int)) ==> r
            == Result::<(), ApiError>::Ok(()) && final(store).mem_map() == old(store).mem_map().remove((chat_id as int, target_uid as int)),
{
    if caller.0 != target_uid {
        check_admin_role(store, chat_id, caller.0)?;
    } else {
        check_membership(store, chat_id, caller.0)?;
    }
    if !store.remove_membership(chat_id, target_uid) {
        return Err(ApiError::NotFound(MissingKind::Member));
    }
    Ok(())
}

/// Changes a member's role in place; the join timestamp is kept. Only an
/// admin of the chat may do this, the role name must be valid, and the
/// target must be a member. The checks run in that order, and no refusal
/// changes the relation.
pub fn patch_member(
    caller: CurrentUid,
    store: &mut MembershipStore,
    chat_id: i64,
    target_uid: i32,
    body: UpdateMemberBody,
) -> (r: Result<MemberResponse, ApiError>)
    requires
        old(store).wf(),
    ensures
        final(store).wf(),
        final(store).user_map() == old(store).user_map(),
        !spec_is_member(old(store).mem_map(), chat_id as int, caller.0 as int) ==> r == Result::<
            MemberResponse,
            ApiError,
        >::Err(ApiError::Forbidden(ForbiddenReason::NotMember)) && final(store).mem_map() == old(store).mem_map(),
        spec_is_member(old(store).mem_map(), chat_id as int, caller.0 as int) && !spec_is_admin(
            old(store).mem_map(),
            chat_id as int,
            caller.0 as int,
        ) ==> r == Result::<MemberResponse, ApiError>::Err(
            ApiError::Forbidden(ForbiddenReason::NotAdmin),
        ) && final(store).mem_map() == old(store).mem_map(),
        spec_is_admin(old(store).mem_map(), chat_id as int, caller.0 as int) && !is_valid_role(
            body.role@,
        ) ==> r == Result::<MemberResponse, ApiError>::Err(ApiError::BadRequest) && final(store).mem_map() == old(store).mem_map(),
        spec_is_admin(old(store).mem_map(), chat_id as int, caller.0 as int) && is_valid_role(
            body.role@,
        ) && !old(store).mem_map().contains_key((chat_id as int, target_uid as int)) ==> r
            == Result::<MemberResponse, ApiError>::Err(ApiError::NotFound(MissingKind::Member))
            && final(store).mem_map() == old(store).mem_map(),
        spec_is_admin(old(store).mem_map(), chat_id as int, caller.0 as int) && old(store).mem_map().contains_key((chat_id as int, target_uid as int)) && is_valid_role(body.role@)
            ==> (r matches Ok(resp) && resp.uid == target_uid && resp.role == spec_role_of(
            body.role@,
        ) && resp.joined_at as int == old(store).mem_map()[
            (chat_id as int, target_uid as int)
        ].joined_at && resp.username@ == old(store).user_map()[target_uid as int] && final(store).mem_map() == old(store).mem_map().insert(
            (chat_id as int, target_uid as int),
            (MemberInfo {
                role: spec_role_of(body.role@),
                joined_at: old(store).mem_map()[(chat_id as int, target_uid as int)].joined_at,
            }),
        )),
{
    check_admin_role(store, chat_id, caller.0)?;
    let role = match parse_role(body.role.as_str()) {
        Some(ro) => ro,
        None => {
            return Err(ApiError::BadRequest);
        },
    };
    let row = match store.find_membership(chat_id, target_uid) {
        Some(row) => row,
        None => {
            return Err(ApiError::NotFound(MissingKind::Member));
        },
    };
    proof {
        store.lemma_member_has_user((chat_id as int, target_uid as int));
    }
    let username = match store.username_of(target_uid) {
        Some(name) => name,
        None => {
            return Err(ApiError::NotFound(MissingKind::User));
        },
    };
    let _ = store.set_role(chat_id, target_uid, role);
    Ok(MemberResponse { uid: target_uid, role, joined_at: row.joined_at, username })
}

/// Law: on a relation without (c, t), adding that pair, removing it, and
/// adding it again walks through well-defined states: the removal is owed
/// success (the pair is present), the second addition is owed success
/// (the pair is absent again), the final relation holds exactly the one
/// membership of the second addition, and no other pair — in particular
/// the caller's own membership and admin standing — is ever disturbed.
pub proof fn lemma_add_remove_add(
    m: Map<(int, int), MemberInfo>,
    c: int,
    t: int,
    v1: MemberInfo,
    v2: MemberInfo,
)
    requires
        !m.contains_key((c, t)),
    ensures
        m.insert((c, t), v1).contains_key((c, t)),
        m.insert((c, t), v1).remove((c, t)) == m,
        !m.insert((c, t), v1).remove((c, t)).contains_key((c, t)),
        m.insert((c, t), v1).remove((c, t)).insert((c, t), v2) == m.insert((c, t), v2),
        m.insert((c, t), v1).remove((c, t)).insert((c, t), v2)[(c, t)] == v2,
        forall|k: (int, int)|
            k != (c, t) ==> (#[trigger] m.insert((c, t), v1).remove((c, t)).insert(
                (c, t),
                v2,
            ).contains_key(k) <==> m.contains_key(k)),
        forall|k: (int, int)|
            k != (c, t) && m.contains_key(k) ==> #[trigger] m.insert((c, t), v1).remove(
                (c, t),
            ).insert((c, t), v2)[k] == m[k],
{
    assert(m.insert((c, t), v1).remove((c, t)) =~= m);
    assert(m.insert((c, t), v1).remove((c, t)).insert((c, t), v2) =~= m.insert((c, t), v2));
}

} // verus!
