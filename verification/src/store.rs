//! The membership relation and its mathematical model.
//!
//! A [`MembershipStore`] holds one row per (chat, user) pair together with a
//! directory of known users. Its contracts speak of two maps: the membership
//! relation as a `Map<(int, int), MemberInfo>` keyed by (chat id, user id),
//! and the user directory as a `Map<int, Seq<char>>` from user id to
//! username.

use vstd::prelude::*;

verus! {

/// The two roles a member of a chat can hold.
#[derive(Clone, Copy, Debug, PartialEq, Eq, Structural)]
pub enum Role {
    Member,
    Admin,
}

/// One user's participation in one chat. The (chat_id, uid) pair is the
/// row's identity; `joined_at` is a millisecond timestamp set at creation.
#[derive(Clone, Copy, Debug, PartialEq, Eq, Structural)]
pub struct Membership {
    pub chat_id: i64,
    pub uid: i32,
    pub role: Role,
    pub joined_at: i64,
}

/// An entry of the user directory, read-only from this library's point of
/// view except for registration.
#[derive(Clone, Debug)]
pub struct User {
    pub uid: i32,
    pub username: String,
}

/// The abstract value of one membership row: everything but its identity.
pub ghost struct MemberInfo {
    pub role: Role,
    pub joined_at: int,
}

/// The identity of a membership row.
pub open spec fn mem_key(m: Membership) -> (int, int) {
    (m.chat_id as int, m.uid as int)
}

/// The abstract value of a membership row.
pub open spec fn mem_info(m: Membership) -> MemberInfo {
    MemberInfo { role: m.role, joined_at: m.joined_at as int }
}

/// The membership relation denoted by a sequence of rows; a later row wins,
/// though under [`unique_mem_keys`] there is at most one row per key.
pub open spec fn mem_map_of(s: Seq<Membership>) -> Map<(int, int), MemberInfo>
    decreases s.len(),
{
    if s.len() == 0 {
        Map::empty()
    } else {
        mem_map_of(s.drop_last()).insert(mem_key(s.last()), mem_info(s.last()))
    }
}

/// The user directory denoted by a sequence of users.
pub open spec fn user_map_of(s: Seq<User>) -> Map<int, Seq<char>>
    decreases s.len(),
{
    if s.len() == 0 {
        Map::empty()
    } else {
        user_map_of(s.drop_last()).insert(s.last().uid as int, s.last().username@)
    }
}

/// No two rows share a (chat_id, uid) identity.
pub open spec fn unique_mem_keys(s: Seq<Membership>) -> bool {
    forall|i: int, j: int|
        0 <= i < j < s.len() ==> mem_key(#[trigger] s[i]) != mem_key(#[trigger] s[j])
}

/// No two directory entries share a user id.
pub open spec fn unique_uids(s: Seq<User>) -> bool {
    forall|i: int, j: int|
        0 <= i < j < s.len() ==> (#[trigger] s[i]).uid != (#[trigger] s[j]).uid
}

/// A key is in the relation exactly when some row carries it.
pub proof fn lemma_mem_map_contains(s: Seq<Membership>, k: (int, int))
    ensures
        mem_map_of(s).contains_key(k) <==> (exists|i: int|
            0 <= i < s.len() && mem_key(#[trigger] s[i]) == k),
    decreases s.len(),
{
    if s.len() == 0 {
    } else {
        let d = s.drop_last();
        lemma_mem_map_contains(d, k);
        if mem_key(s.last()) == k {
            assert(mem_key(s[s.len() - 1]) == k);
        } else {
            if mem_map_of(s).contains_key(k) {
                let i = choose|i: int| 0 <= i < d.len() && mem_key(#[trigger] d[i]) == k;
                assert(mem_key(s[i]) == k);
            }
            if exists|i: int| 0 <= i < s.len() && mem_key(#[trigger] s[i]) == k {
                let i = choose|i: int| 0 <= i < s.len() && mem_key(#[trigger] s[i]) == k;
                assert(i < s.len() - 1);
                assert(mem_key(d[i]) == k);
            }
        }
    }
}

/// Under unique keys, the relation maps each row's key to that row's value.
pub proof fn lemma_mem_map_index(s: Seq<Membership>, i: int)
    requires
        unique_mem_keys(s),
        0 <= i < s.len(),
    ensures
        mem_map_of(s).contains_key(mem_key(s[i])),
        mem_map_of(s)[mem_key(s[i])] == mem_info(s[i]),
    decreases s.len(),
{
    let d = s.drop_last();
    if i == s.len() - 1 {
    } else {
        assert(unique_mem_keys(d)) by {
            assert(forall|x: int, y: int|
                0 <= x < y < d.len() ==> mem_key(#[trigger] d[x]) != mem_key(#[trigger] d[y]))
                by {
                assert(forall|x: int| 0 <= x < d.len() ==> d[x] == s[x]);
            }
        }
        lemma_mem_map_index(d, i);
        assert(mem_key(s[i]) != mem_key(s[s.len() - 1]));
        assert(d[i] == s[i]);
    }
}

/// A user id is in the directory exactly when some entry carries it.
pub proof fn lemma_user_map_contains(s: Seq<User>, u: int)
    ensures
        user_map_of(s).contains_key(u) <==> (exists|i: int|
            0 <= i < s.len() && (#[trigger] s[i]).uid as int == u),
    decreases s.len(),
{
    if s.len() == 0 {
    } else {
        let d = s.drop_last();
        lemma_user_map_contains(d, u);
        if s.last().uid as int == u {
            assert(s[s.len() - 1].uid as int == u);
        } else {
            if user_map_of(s).contains_key(u) {
                let i = choose|i: int| 0 <= i < d.len() && (#[trigger] d[i]).uid as int == u;
                assert(s[i].uid as int == u);
            }
            if exists|i: int| 0 <= i < s.len() && (#[trigger] s[i]).uid as int == u {
                let i = choose|i: int| 0 <= i < s.len() && (#[trigger] s[i]).uid as int == u;
                assert(i < s.len() - 1);
                assert(d[i].uid as int == u);
            }
        }
    }
}

/// Under unique ids, the directory maps each entry's id to its username.
pub proof fn lemma_user_map_index(s: Seq<User>, i: int)
    requires
        unique_uids(s),
        0 <= i < s.len(),
    ensures
        user_map_of(s).contains_key(s[i].uid as int),
        user_map_of(s)[s[i].uid as int] == s[i].username@,
    decreases s.len(),
{
    let d = s.drop_last();
    if i == s.len() - 1 {
    } else {
        assert(unique_uids(d)) by {
            assert(forall|x: int| 0 <= x < d.len() ==> d[x] == s[x]);
        }
        lemma_user_map_index(d, i);
        assert(s[i].uid != s[s.len() - 1].uid);
        assert(d[i] == s[i]);
    }
}

/// Removing the row at index `i` removes exactly its key from the relation.
pub proof fn lemma_mem_map_remove(s: Seq<Membership>, i: int)
    requires
        unique_mem_keys(s),
        0 <= i < s.len(),
    ensures
        mem_map_of(s.remove(i)) == mem_map_of(s).remove(mem_key(s[i])),
        unique_mem_keys(s.remove(i)),
    decreases s.len(),
{
    let k = mem_key(s[i]);
    let t = s.remove(i);
    s.remove_ensures(i);
    assert(unique_mem_keys(t)) by {
        assert(forall|x: int, y: int|
            0 <= x < y < t.len() ==> mem_key(#[trigger] t[x]) != mem_key(#[trigger] t[y])) by {
            assert(forall|x: int|
                0 <= x < t.len() ==> #[trigger] t[x] == (if x < i {
                    s[x]
                } else {
                    s[x + 1]
                }));
        }
    }
    if i == s.len() - 1 {
        let d = s.drop_last();
        assert(t =~= d);
        assert(!mem_map_of(d).contains_key(k)) by {
            lemma_mem_map_contains(d, k);
            if exists|x: int| 0 <= x < d.len() && mem_key(#[trigger] d[x]) == k {
                let x = choose|x: int| 0 <= x < d.len() && mem_key(#[trigger] d[x]) == k;
                assert(mem_key(s[x]) == mem_key(s[i]));
            }
        }
        assert(mem_map_of(t) =~= mem_map_of(s).remove(k));
    } else {
        let d = s.drop_last();
        assert(unique_mem_keys(d)) by {
            assert(forall|x: int| 0 <= x < d.len() ==> d[x] == s[x]);
        }
        assert(t.last() == s.last());
        assert(t.drop_last() =~= d.remove(i)) by {
            d.remove_ensures(i);
            assert(forall|x: int|
                0 <= x < t.len() - 1 ==> #[trigger] t.drop_last()[x] == (if x < i {
                    s[x]
                } else {
                    s[x + 1]
                }));
        }
        lemma_mem_map_remove(d, i);
        assert(mem_map_of(t) == mem_map_of(d).remove(k).insert(mem_key(s.last()), mem_info(
            s.last(),
        )));
        assert(k != mem_key(s.last()));
        assert(mem_map_of(t) =~= mem_map_of(s).remove(k));
    }
}

/// Appending a row with a fresh key inserts exactly that key, and keeps the
/// keys unique.
pub proof fn lemma_mem_map_push(s: Seq<Membership>, m: Membership)
    requires
        unique_mem_keys(s),
        !mem_map_of(s).contains_key(mem_key(m)),
    ensures
        mem_map_of(s.push(m)) == mem_map_of(s).insert(mem_key(m), mem_info(m)),
        unique_mem_keys(s.push(m)),
{
    let t = s.push(m);
    assert(t.drop_last() =~= s);
    assert(t.last() == m);
    assert(mem_map_of(t) =~= mem_map_of(s).insert(mem_key(m), mem_info(m)));
    lemma_mem_map_contains(s, mem_key(m));
    assert(forall|x: int| 0 <= x < s.len() ==> mem_key(#[trigger] t[x]) != mem_key(m));
    assert(forall|x: int| 0 <= x < s.len() ==> t[x] == s[x]);
}

/// The in-memory membership relation together with the user directory.
///
/// Well-formedness ([`MembershipStore::wf`]) holds three constraints: at most
/// one row per (chat_id, uid) pair, at most one directory entry per user id,
/// and every row's user id present in the directory.
pub struct MembershipStore {
    memberships: Vec<Membership>,
    users: Vec<User>,
}

impl MembershipStore {
    /// The membership relation this store denotes.
    pub closed spec fn mem_map(&self) -> Map<(int, int), MemberInfo> {
        mem_map_of(self.memberships@)
    }

    /// The user directory this store denotes.
    pub closed spec fn user_map(&self) -> Map<int, Seq<char>> {
        user_map_of(self.users@)
    }

    /// The store's invariant: key uniqueness on both relations, and every
    /// membership row referring to a directory user.
    pub closed spec fn wf(&self) -> bool {
        &&& unique_mem_keys(self.memberships@)
        &&& unique_uids(self.users@)
        &&& forall|k: (int, int)|
            #[trigger] mem_map_of(self.memberships@).contains_key(k)
                ==> user_map_of(self.users@).contains_key(k.1)
    }

    /// Every member of a well-formed store has a directory entry.
    pub proof fn lemma_member_has_user(&self, k: (int, int))
        requires
            self.wf(),
            self.mem_map().contains_key(k),
        ensures
            self.user_map().contains_key(k.1),
    {
    }

    /// An empty store: no memberships, no users.
    pub fn new() -> (s: Self)
        ensures
            s.wf(),
            s.mem_map() == Map::<(int, int), MemberInfo>::empty(),
            s.user_map() == Map::<int, Seq<char>>::empty(),
    {
        MembershipStore { memberships: Vec::new(), users: Vec::new() }
    }

    /// Registers a user in the directory. Returns false and changes nothing
    /// if the id is already taken.
    pub fn add_user(&mut self, uid: i32, username: String) -> (r: bool)
        requires
            old(self).wf(),
        ensures
            final(self).wf(),
            final(self).mem_map() == old(self).mem_map(),
            old(self).user_map().contains_key(uid as int) ==> !r && final(self).user_map() == old(
                self,
            ).user_map(),
            !old(self).user_map().contains_key(uid as int) ==> r && final(self).user_map() == old(
                self,
            ).user_map().insert(uid as int, username@),
    {
        if self.user_exists(uid) {
            return false;
        }
        let ghost s0 = self.users@;
        let ghost u = User { uid, username: username };
        self.users.push(User { uid, username });
        proof {
            assert(self.users@.drop_last() =~= s0);
            assert(self.users@.last() == u);
            assert(user_map_of(self.users@) =~= user_map_of(s0).insert(uid as int, u.username@));
            lemma_user_map_contains(s0, uid as int);
            assert(forall|x: int| 0 <= x < s0.len() ==> (#[trigger] s0[x]).uid != uid);
            assert(forall|x: int| 0 <= x < s0.len() ==> self.users@[x] == s0[x]);
            assert(unique_uids(self.users@));
        }
        true
    }

    /// Whether the directory holds the given user id.
    pub fn user_exists(&self, uid: i32) -> (r: bool)
        ensures
            r == self.user_map().contains_key(uid as int),
    {
        let n = self.users.len();
        let mut i: usize = 0;
        while i < n
            invariant
                n == self.users@.len(),
                i <= n,
                forall|x: int| 0 <= x < i ==> (#[trigger] self.users@[x]).uid != uid,
            decreases n - i,
        {
            if self.users[i].uid == uid {
                proof {
                    lemma_user_map_contains(self.users@, uid as int);
                }
                return true;
            }
            i += 1;
        }
        proof {
            lemma_user_map_contains(self.users@, uid as int);
        }
        false
    }

    /// The username registered for the given user id, if any.
    pub fn username_of(&self, uid: i32) -> (r: Option<String>)
        requires
            self.wf(),
        ensures
            match r {
                Some(name) => self.user_map().contains_key(uid as int) && name@ == self.user_map()[
                    uid as int
                ],
                None => !self.user_map().contains_key(uid as int),
            },
    {
        let n = self.users.len();
        let mut i: usize = 0;
        while i < n
            invariant
                self.wf(),
                n == self.users@.len(),
                i <= n,
                forall|x: int| 0 <= x < i ==> (#[trigger] self.users@[x]).uid != uid,
            decreases n - i,
        {
            if self.users[i].uid == uid {
                proof {
                    lemma_user_map_index(self.users@, i as int);
                }
                return Some(self.users[i].username.clone());
            }
            i += 1;
        }
        proof {
            lemma_user_map_contains(self.users@, uid as int);
        }
        None
    }

    /// The index of the row keyed (chat_id, uid), if one exists.
    fn find_mem_index(&self, chat_id: i64, uid: i32) -> (r: Option<usize>)
        ensures
            match r {
                Some(i) => i < self.memberships@.len() && mem_key(self.memberships@[i as int])
                    == (chat_id as int, uid as int),
                None => forall|x: int|
                    0 <= x < self.memberships@.len() ==> mem_key(#[trigger] self.memberships@[x])
                        != (chat_id as int, uid as int),
            },
    {
        let n = self.memberships.len();
        let mut i: usize = 0;
        while i < n
            invariant
                n == self.memberships@.len(),
                i <= n,
                forall|x: int|
                    0 <= x < i ==> mem_key(#[trigger] self.memberships@[x]) != (
                        chat_id as int,
                        uid as int,
                    ),
            decreases n - i,
        {
            if self.memberships[i].chat_id == chat_id && self.memberships[i].uid == uid {
                return Some(i);
            }
            i += 1;
        }
        None
    }

    /// The membership row keyed (chat_id, uid), if one exists.
    pub fn find_membership(&self, chat_id: i64, uid: i32) -> (r: Option<Membership>)
        requires
            self.wf(),
        ensures
            match r {
                Some(m) => {
                    &&& self.mem_map().contains_key((chat_id as int, uid as int))
                    &&& m.chat_id == chat_id
                    &&& m.uid == uid
                    &&& mem_info(m) == self.mem_map()[(chat_id as int, uid as int)]
                },
                None => !self.mem_map().contains_key((chat_id as int, uid as int)),
            },
    {
        match self.find_mem_index(chat_id, uid) {
            Some(i) => {
                proof {
                    lemma_mem_map_index(self.memberships@, i as int);
                }
                Some(self.memberships[i])
            },
            None => {
                proof {
                    lemma_mem_map_contains(self.memberships@, (chat_id as int, uid as int));
                }
                None
            },
        }
    }

    /// Inserts a membership row whose key is absent and whose user is known.
    pub fn insert_membership(&mut self, m: Membership)
        requires
            old(self).wf(),
            !old(self).mem_map().contains_key(mem_key(m)),
            old(self).user_map().contains_key(m.uid as int),
        ensures
            final(self).wf(),
            final(self).mem_map() == old(self).mem_map().insert(mem_key(m), mem_info(m)),
            final(self).user_map() == old(self).user_map(),
    {
        let ghost s0 = self.memberships@;
        self.memberships.push(m);
        proof {
            lemma_mem_map_push(s0, m);
        }
    }

    /// Deletes the row keyed (chat_id, uid). Returns false and changes
    /// nothing if no such row exists.
    pub fn remove_membership(&mut self, chat_id: i64, uid: i32) -> (r: bool)
        requires
            old(self).wf(),
        ensures
            final(self).wf(),
            final(self).user_map() == old(self).user_map(),
            old(self).mem_map().contains_key((chat_id as int, uid as int)) ==> r
                && final(self).mem_map() == old(self).mem_map().remove((chat_id as int, uid as int)),
            !old(self).mem_map().contains_key((chat_id as int, uid as int)) ==> !r
                && final(self).mem_map() == old(self).mem_map(),
    {
        match self.find_mem_index(chat_id, uid) {
            Some(i) => {
                let ghost s0 = self.memberships@;
                proof {
                    lemma_mem_map_contains(s0, (chat_id as int, uid as int));
                    lemma_mem_map_remove(s0, i as int);
                }
                self.memberships.remove(i);
                true
            },
            None => {
                proof {
                    lemma_mem_map_contains(self.memberships@, (chat_id as int, uid as int));
                }
                false
            },
        }
    }

    /// Replaces the role of the row keyed (chat_id, uid), keeping its
    /// join timestamp. Returns false and changes nothing if no such row
    /// exists.
    pub fn set_role(&mut self, chat_id: i64, uid: i32, role: Role) -> (r: bool)
        requires
            old(self).wf(),
        ensures
            final(self).wf(),
            final(self).user_map() == old(self).user_map(),
            old(self).mem_map().contains_key((chat_id as int, uid as int)) ==> r
                && final(self).mem_map() == old(self).mem_map().insert(
                (chat_id as int, uid as int),
                MemberInfo {
                    role: role,
                    joined_at: old(self).mem_map()[(chat_id as int, uid as int)].joined_at,
                },
            ),
            !old(self).mem_map().contains_key((chat_id as int, uid as int)) ==> !r
                && final(self).mem_map() == old(self).mem_map(),
    {
        match self.find_mem_index(chat_id, uid) {
            Some(i) => {
                let ghost s0 = self.memberships@;
                let ghost k = (chat_id as int, uid as int);
                let row = self.memberships[i];
                let updated = Membership {
                    chat_id: row.chat_id,
                    uid: row.uid,
                    role: role,
                    joined_at: row.joined_at,
                };
                proof {
                    lemma_mem_map_index(s0, i as int);
                    lemma_mem_map_remove(s0, i as int);
                }
                self.memberships.remove(i);
                let ghost s1 = self.memberships@;
                proof {
                    assert(!mem_map_of(s1).contains_key(k));
                    lemma_mem_map_push(s1, updated);
                }
                self.memberships.push(updated);
                proof {
                    assert(self.mem_map() =~= old(self).mem_map().insert(
                        k,
                        MemberInfo { role: role, joined_at: old(self).mem_map()[k].joined_at },
                    ));
                }
                true
            },
            None => {
                proof {
                    lemma_mem_map_contains(self.memberships@, (chat_id as int, uid as int));
                }
                false
            },
        }
    }

    /// All rows of one chat, each referring to a known user, every member of
    /// the chat represented exactly once, in unspecified order.
    pub fn members_of_chat(&self, chat_id: i64) -> (v: Vec<Membership>)
        requires
            self.wf(),
        ensures
            forall|j: int|
                0 <= j < v@.len() ==> {
                    &&& (#[trigger] v@[j]).chat_id == chat_id
                    &&& self.mem_map().contains_key(mem_key(v@[j]))
                    &&& mem_info(v@[j]) == self.mem_map()[mem_key(v@[j])]
                    &&& self.user_map().contains_key(v@[j].uid as int)
                },
            forall|u: int|
                #[trigger] self.mem_map().contains_key((chat_id as int, u)) ==> exists|j: int|
                    0 <= j < v@.len() && (#[trigger] v@[j]).uid as int == u,
            forall|j1: int, j2: int| 0 <= j1 < j2 < v@.len() ==> v@[j1].uid != v@[j2].uid,
    {
        let n = self.memberships.len();
        let mut v: Vec<Membership> = Vec::new();
        let mut i: usize = 0;
        while i < n
            invariant
                self.wf(),
                n == self.memberships@.len(),
                i <= n,
                forall|j: int|
                    0 <= j < v@.len() ==> {
                        &&& (#[trigger] v@[j]).chat_id == chat_id
                        &&& self.mem_map().contains_key(mem_key(v@[j]))
                        &&& mem_info(v@[j]) == self.mem_map()[mem_key(v@[j])]
                        &&& self.user_map().contains_key(v@[j].uid as int)
                    },
                forall|x: int|
                    0 <= x < i && (#[trigger] self.memberships@[x]).chat_id == chat_id
                        ==> exists|j: int|
                        0 <= j < v@.len() && #[trigger] v@[j] == self.memberships@[x],
                forall|j: int|
                    0 <= j < v@.len() ==> exists|x: int|
                        0 <= x < i && #[trigger] v@[j] == self.memberships@[x],
                forall|j1: int, j2: int| 0 <= j1 < j2 < v@.len() ==> v@[j1].uid != v@[j2].uid,
            decreases n - i,
        {
            let row = self.memberships[i];
            if row.chat_id == chat_id {
                proof {
                    lemma_mem_map_index(self.memberships@, i as int);
                    self.lemma_member_has_user(mem_key(row));
                    assert forall|j: int| 0 <= j < v@.len() implies v@[j].uid != row.uid by {
                        let x = choose|x: int|
                            0 <= x < i && #[trigger] v@[j] == self.memberships@[x];
                        if v@[j].uid == row.uid {
                            assert(mem_key(self.memberships@[x]) == mem_key(
                                self.memberships@[i as int],
                            ));
                        }
                    }
                }
                let ghost v0 = v@;
                v.push(row);
                proof {
                    assert(v@ == v0.push(row));
                    assert forall|x: int|
                        0 <= x <= i as int && (#[trigger] self.memberships@[x]).chat_id == chat_id
                            implies exists|j: int|
                        0 <= j < v@.len() && #[trigger] v@[j] == self.memberships@[x] by {
                        if x == i as int {
                            assert(v@[v0.len() as int] == self.memberships@[x]);
                        } else {
                            let j = choose|j: int|
                                0 <= j < v0.len() && #[trigger] v0[j] == self.memberships@[x];
                            assert(v@[j] == self.memberships@[x]);
                        }
                    }
                }
            }
            i += 1;
        }
        proof {
            assert forall|u: int|
                #[trigger] self.mem_map().contains_key((chat_id as int, u)) implies exists|j: int|
                0 <= j < v@.len() && (#[trigger] v@[j]).uid as int == u by {
                lemma_mem_map_contains(self.memberships@, (chat_id as int, u));
                let x = choose|x: int|
                    0 <= x < self.memberships@.len() && mem_key(#[trigger] self.memberships@[x])
                        == (chat_id as int, u);
                let j = choose|j: int|
                    0 <= j < v@.len() && #[trigger] v@[j] == self.memberships@[x];
                assert(v@[j].uid as int == u);
            }
        }
        v
    }
}

} // verus!
