use chat_membership::auth::{
    check_admin_role, check_membership, ApiError, CurrentUid, ForbiddenReason, MissingKind,
};
use chat_membership::service::{
    delete_remove_member, get_members, parse_role, patch_member, post_add_member,
    post_add_member_at, str_eq, AddMemberBody, UpdateMemberBody,
};
use chat_membership::store::{Membership, MembershipStore, Role};

/// A store with users 1..=3, where chat 1 has uid 1 as admin.
fn seeded_store() -> MembershipStore {
    let mut store = MembershipStore::new();
    assert!(store.add_user(1, String::from("alice")));
    assert!(store.add_user(2, String::from("bob")));
    assert!(store.add_user(3, String::from("carol")));
    store.insert_membership(Membership { chat_id: 1, uid: 1, role: Role::Admin, joined_at: 100 });
    store
}

fn uids_of_chat(store: &MembershipStore, caller: i32, chat_id: i64) -> Vec<i32> {
    let mut uids: Vec<i32> = get_members(CurrentUid(caller), store, chat_id)
        .expect("caller should be a member")
        .iter()
        .map(|m| m.uid)
        .collect();
    uids.sort();
    uids
}

#[test]
fn add_then_remove_then_add_succeeds_twice() {
    let mut store = seeded_store();
    let body = AddMemberBody { uid: 2, role: None };
    let first = post_add_member_at(CurrentUid(1), &mut store, 1, body.clone(), 500);
    assert!(first.is_ok());
    assert_eq!(uids_of_chat(&store, 1, 1), vec![1, 2]);

    let removed = delete_remove_member(CurrentUid(1), &mut store, 1, 2);
    assert_eq!(removed, Ok(()));
    assert_eq!(uids_of_chat(&store, 1, 1), vec![1]);

    let second = post_add_member_at(CurrentUid(1), &mut store, 1, body, 700).unwrap();
    assert_eq!(second.uid, 2);
    assert_eq!(second.role, Role::Member);
    assert_eq!(second.joined_at, 700);
    // Exactly one membership for (chat 1, uid 2) remains.
    assert_eq!(uids_of_chat(&store, 1, 1), vec![1, 2]);
}

#[test]
fn add_existing_member_conflicts_and_changes_nothing() {
    let mut store = seeded_store();
    let body = AddMemberBody { uid: 2, role: None };
    post_add_member_at(CurrentUid(1), &mut store, 1, body, 500).unwrap();
    let before = uids_of_chat(&store, 1, 1);

    let again = AddMemberBody { uid: 2, role: Some(String::from("admin")) };
    let r = post_add_member_at(CurrentUid(1), &mut store, 1, again, 900);
    assert_eq!(r.unwrap_err(), ApiError::Conflict);

    assert_eq!(uids_of_chat(&store, 1, 1), before);
    let members = get_members(CurrentUid(1), &store, 1).unwrap();
    let bob = members.iter().find(|m| m.uid == 2).unwrap();
    assert_eq!(bob.role, Role::Member);
    assert_eq!(bob.joined_at, 500);
}

#[test]
fn require_admin_distinguishes_member_from_non_member() {
    let mut store = seeded_store();
    post_add_member_at(CurrentUid(1), &mut store, 1, AddMemberBody { uid: 2, role: None }, 500)
        .unwrap();

    assert_eq!(check_admin_role(&store, 1, 1), Ok(()));
    assert_eq!(
        check_admin_role(&store, 1, 2),
        Err(ApiError::Forbidden(ForbiddenReason::NotAdmin))
    );
    assert_eq!(
        check_admin_role(&store, 1, 3),
        Err(ApiError::Forbidden(ForbiddenReason::NotMember))
    );
    assert_eq!(check_membership(&store, 1, 2), Ok(()));
    assert_eq!(
        check_membership(&store, 1, 3),
        Err(ApiError::Forbidden(ForbiddenReason::NotMember))
    );
}

#[test]
fn update_role_on_non_member_is_not_found_and_writes_nothing() {
    let mut store = seeded_store();
    let before = uids_of_chat(&store, 1, 1);
    let r = patch_member(
        CurrentUid(1),
        &mut store,
        1,
        2,
        UpdateMemberBody { role: String::from("admin") },
    );
    assert_eq!(r.unwrap_err(), ApiError::NotFound(MissingKind::Member));
    assert_eq!(uids_of_chat(&store, 1, 1), before);
}

#[test]
fn update_role_with_invalid_role_is_bad_request() {
    let mut store = seeded_store();
    post_add_member_at(CurrentUid(1), &mut store, 1, AddMemberBody { uid: 2, role: None }, 500)
        .unwrap();
    let r = patch_member(
        CurrentUid(1),
        &mut store,
        1,
        2,
        UpdateMemberBody { role: String::from("owner") },
    );
    assert_eq!(r.unwrap_err(), ApiError::BadRequest);
    let members = get_members(CurrentUid(1), &store, 1).unwrap();
    let bob = members.iter().find(|m| m.uid == 2).unwrap();
    assert_eq!(bob.role, Role::Member);
}

#[test]
fn update_role_validates_the_role_before_the_target() {
    let mut store = seeded_store();
    // uid 2 is not a member, but the invalid role is reported first.
    let r = patch_member(
        CurrentUid(1),
        &mut store,
        1,
        2,
        UpdateMemberBody { role: String::from("owner") },
    );
    assert_eq!(r.unwrap_err(), ApiError::BadRequest);
}

#[test]
fn end_to_end_scenario() {
    let mut store = seeded_store();

    // Admin uid 1 adds uid 2 with no requested role: member by default.
    let created =
        post_add_member_at(CurrentUid(1), &mut store, 1, AddMemberBody { uid: 2, role: None }, 500)
            .unwrap();
    assert_eq!(created.uid, 2);
    assert_eq!(created.role, Role::Member);
    assert_eq!(created.username, "bob");

    // uid 2, a plain member, can list and sees both entries.
    let members = get_members(CurrentUid(2), &store, 1).unwrap();
    assert_eq!(members.len(), 2);

    // uid 2 may not change roles.
    let refused = patch_member(
        CurrentUid(2),
        &mut store,
        1,
        1,
        UpdateMemberBody { role: String::from("admin") },
    );
    assert_eq!(refused.unwrap_err(), ApiError::Forbidden(ForbiddenReason::NotAdmin));

    // uid 1 promotes uid 2.
    let promoted = patch_member(
        CurrentUid(1),
        &mut store,
        1,
        2,
        UpdateMemberBody { role: String::from("admin") },
    )
    .unwrap();
    assert_eq!(promoted.role, Role::Admin);
    assert_eq!(promoted.joined_at, 500);
    assert_eq!(promoted.username, "bob");

    // uid 2 removes themself: self-removal is always allowed to a member.
    assert_eq!(delete_remove_member(CurrentUid(2), &mut store, 1, 2), Ok(()));
    assert_eq!(
        get_members(CurrentUid(2), &store, 1).unwrap_err(),
        ApiError::Forbidden(ForbiddenReason::NotMember)
    );
    assert_eq!(uids_of_chat(&store, 1, 1), vec![1]);
}

#[test]
fn at_most_one_membership_per_pair_after_any_sequence() {
    let mut store = seeded_store();
    let add = |store: &mut MembershipStore, uid: i32| {
        post_add_member_at(CurrentUid(1), store, 1, AddMemberBody { uid, role: None }, 500)
    };
    // A churn of adds and removes, some succeeding and some refused.
    let _ = add(&mut store, 2);
    let _ = add(&mut store, 2);
    let _ = add(&mut store, 3);
    let _ = delete_remove_member(CurrentUid(1), &mut store, 1, 2);
    let _ = add(&mut store, 2);
    let _ = add(&mut store, 3);
    let _ = delete_remove_member(CurrentUid(1), &mut store, 1, 3);
    let _ = add(&mut store, 3);

    let members = get_members(CurrentUid(1), &store, 1).unwrap();
    let mut uids: Vec<i32> = members.iter().map(|m| m.uid).collect();
    let total = uids.len();
    uids.sort();
    uids.dedup();
    assert_eq!(uids.len(), total);
    assert_eq!(uids, vec![1, 2, 3]);
}

#[test]
fn add_unknown_user_is_not_found() {
    let mut store = seeded_store();
    let r = post_add_member_at(CurrentUid(1), &mut store, 1, AddMemberBody { uid: 99, role: None }, 500);
    assert_eq!(r.unwrap_err(), ApiError::NotFound(MissingKind::User));
}

#[test]
fn add_with_invalid_role_is_bad_request() {
    let mut store = seeded_store();
    let r = post_add_member_at(
        CurrentUid(1),
        &mut store,
        1,
        AddMemberBody { uid: 2, role: Some(String::from("owner")) },
        500,
    );
    assert_eq!(r.unwrap_err(), ApiError::BadRequest);
    assert_eq!(uids_of_chat(&store, 1, 1), vec![1]);
}

#[test]
fn add_with_explicit_admin_role() {
    let mut store = seeded_store();
    let r = post_add_member_at(
        CurrentUid(1),
        &mut store,
        1,
        AddMemberBody { uid: 2, role: Some(String::from("admin")) },
        500,
    )
    .unwrap();
    assert_eq!(r.role, Role::Admin);
    assert_eq!(check_admin_role(&store, 1, 2), Ok(()));
}

#[test]
fn add_by_non_member_is_forbidden() {
    let mut store = seeded_store();
    let r = post_add_member_at(CurrentUid(3), &mut store, 1, AddMemberBody { uid: 2, role: None }, 500);
    assert_eq!(r.unwrap_err(), ApiError::Forbidden(ForbiddenReason::NotMember));
}

#[test]
fn remove_non_member_is_not_found() {
    let mut store = seeded_store();
    let r = delete_remove_member(CurrentUid(1), &mut store, 1, 2);
    assert_eq!(r.unwrap_err(), ApiError::NotFound(MissingKind::Member));
}

#[test]
fn member_may_not_remove_another_member() {
    let mut store = seeded_store();
    post_add_member_at(CurrentUid(1), &mut store, 1, AddMemberBody { uid: 2, role: None }, 500)
        .unwrap();
    let r = delete_remove_member(CurrentUid(2), &mut store, 1, 1);
    assert_eq!(r.unwrap_err(), ApiError::Forbidden(ForbiddenReason::NotAdmin));
    assert_eq!(uids_of_chat(&store, 1, 1), vec![1, 2]);
}

#[test]
fn list_is_only_for_members() {
    let store = seeded_store();
    // An empty chat has no members, so nobody may list it.
    assert_eq!(
        get_members(CurrentUid(1), &store, 42).unwrap_err(),
        ApiError::Forbidden(ForbiddenReason::NotMember)
    );
}

#[test]
fn duplicate_user_registration_is_refused() {
    let mut store = MembershipStore::new();
    assert!(store.add_user(7, String::from("dora")));
    assert!(!store.add_user(7, String::from("imposter")));
    assert_eq!(store.username_of(7), Some(String::from("dora")));
}

#[test]
fn role_names_parse_exactly() {
    assert_eq!(parse_role("admin"), Some(Role::Admin));
    assert_eq!(parse_role("member"), Some(Role::Member));
    assert_eq!(parse_role("owner"), None);
    assert_eq!(parse_role(""), None);
    assert_eq!(parse_role("Admin"), None);
    assert!(str_eq("admin", "admin"));
    assert!(!str_eq("admin", "admins"));
}

#[test]
fn wall_clock_add_creates_membership() {
    let mut store = seeded_store();
    let created =
        post_add_member(CurrentUid(1), &mut store, 1, AddMemberBody { uid: 3, role: None })
            .unwrap();
    assert_eq!(created.uid, 3);
    assert_eq!(created.role, Role::Member);
    assert_eq!(created.username, "carol");
    // The join timestamp comes from a clock anchored at the Unix epoch, so
    // it is far past the literal timestamps used elsewhere in these tests.
    assert!(created.joined_at > 1_000_000_000_000);
    assert_eq!(uids_of_chat(&store, 1, 1), vec![1, 3]);
}
