use vstd::prelude::*;

use crate::message_structs::BasicMessage;
use crate::structs::{ConnectionState, Room, User, UserData, clone_strings};

verus! {

/// Why a store operation was refused.
#[derive(Debug, Clone, Copy, PartialEq, Eq, Structural)]
pub enum StoreError {
    /// A unique value (an id, a login, a display name) is taken.
    Conflict,
    /// The user or room named does not exist.
    NotFound,
}

pub open spec fn strs(v: Seq<String>) -> Seq<Seq<char>> {
    v.map_values(|s: String| s@)
}

pub open spec fn has_user(users: Seq<UserData>, id: Seq<char>) -> bool {
    exists|i: int| 0 <= i < users.len() && #[trigger] users[i].user_id@ == id
}

pub open spec fn login_taken(users: Seq<UserData>, login: Seq<char>) -> bool {
    exists|i: int| 0 <= i < users.len() && #[trigger] users[i].login_username@ == login
}

pub open spec fn name_taken(users: Seq<UserData>, name: Seq<char>) -> bool {
    exists|i: int| 0 <= i < users.len() && #[trigger] users[i].username@ == name
}

pub open spec fn has_room(rooms: Seq<Room>, id: Seq<char>) -> bool {
    exists|i: int| 0 <= i < rooms.len() && #[trigger] rooms[i].room_id@ == id
}

/// Each user id, login and display name is held by one user at most.
pub open spec fn users_unique(users: Seq<UserData>) -> bool {
    &&& forall|i: int, j: int|
        0 <= i < users.len() && 0 <= j < users.len() && #[trigger] users[i].user_id@
            == #[trigger] users[j].user_id@ ==> i == j
    &&& forall|i: int, j: int|
        0 <= i < users.len() && 0 <= j < users.len() && #[trigger] users[i].login_username@
            == #[trigger] users[j].login_username@ ==> i == j
    &&& forall|i: int, j: int|
        0 <= i < users.len() && 0 <= j < users.len() && #[trigger] users[i].username@
            == #[trigger] users[j].username@ ==> i == j
}

/// Each room id is held by one room at most, and no room lists a member twice.
pub open spec fn rooms_unique(rooms: Seq<Room>) -> bool {
    &&& forall|i: int, j: int|
        0 <= i < rooms.len() && 0 <= j < rooms.len() && #[trigger] rooms[i].room_id@
            == #[trigger] rooms[j].room_id@ ==> i == j
    &&& forall|i: int| 0 <= i < rooms.len() ==> strs(#[trigger] rooms[i].users@).no_duplicates()
}

/// Messages are held in ascending timestamp order.
pub open spec fn by_timestamp(msgs: Seq<BasicMessage>) -> bool {
    forall|i: int, j: int| 0 <= i <= j < msgs.len() ==> #[trigger] msgs[i].timestamp <= #[trigger] msgs[j].timestamp
}

/// Some message of `msgs` has id `id`.
pub open spec fn id_taken(msgs: Seq<BasicMessage>, id: Seq<char>) -> bool {
    exists|i: int| 0 <= i < msgs.len() && #[trigger] msgs[i].message_id@ == id
}

/// Each message id is held by one message at most.
pub open spec fn message_ids_unique(msgs: Seq<BasicMessage>) -> bool {
    forall|i: int, j: int|
        0 <= i < msgs.len() && 0 <= j < msgs.len() && #[trigger] msgs[i].message_id@ == #[trigger] msgs[j].message_id@
            ==> i == j
}

/// Every message names an existing room and an existing sender.
pub open spec fn messages_referenced(msgs: Seq<BasicMessage>, users: Seq<UserData>, rooms: Seq<Room>) -> bool {
    forall|i: int|
        0 <= i < msgs.len() ==> has_room(rooms, #[trigger] msgs[i].room_id@) && has_user(
            users,
            msgs[i].sender_id@,
        )
}

/// The messages of room `room`.
pub open spec fn in_room(room: Seq<char>) -> spec_fn(BasicMessage) -> bool {
    |m: BasicMessage| m.room_id@ == room
}

/// The users whose room list holds `room`.
pub open spec fn lists_room(room: Seq<char>) -> spec_fn(UserData) -> bool {
    |u: UserData| strs(u.rooms@).contains(room)
}

/// `users` with the status of user `id` set to `st`.
pub open spec fn with_status(users: Seq<UserData>, id: Seq<char>, st: ConnectionState) -> Seq<UserData> {
    users.map_values(|u: UserData| if u.user_id@ == id { UserData { status: st, ..u } } else { u })
}

/// `users` with the display name of user `id` set to `name`.
pub open spec fn renamed(users: Seq<UserData>, id: Seq<char>, name: String) -> Seq<UserData> {
    users.map_values(|u: UserData| if u.user_id@ == id { UserData { username: name, ..u } } else { u })
}

/// Messages that referenced existing users still do when every user id is kept.
proof fn lemma_ids_kept(msgs: Seq<BasicMessage>, old_users: Seq<UserData>, new_users: Seq<UserData>, rooms: Seq<Room>)
    requires
        messages_referenced(msgs, old_users, rooms),
        old_users.len() <= new_users.len(),
        forall|k: int| 0 <= k < old_users.len() ==> #[trigger] new_users[k].user_id@ == old_users[k].user_id@,
    ensures
        messages_referenced(msgs, new_users, rooms),
{
    assert forall|i: int| 0 <= i < msgs.len() implies has_user(new_users, #[trigger] msgs[i].sender_id@) by {
        assert(has_room(rooms, msgs[i].room_id@));
        let k = choose|k: int| 0 <= k < old_users.len() && #[trigger] old_users[k].user_id@ == msgs[i].sender_id@;
        assert(new_users[k].user_id@ == msgs[i].sender_id@);
    }
}

/// Messages that referenced existing rooms still do when every room id is kept.
proof fn lemma_room_ids_kept(msgs: Seq<BasicMessage>, users: Seq<UserData>, old_rooms: Seq<Room>, new_rooms: Seq<Room>)
    requires
        messages_referenced(msgs, users, old_rooms),
        old_rooms.len() <= new_rooms.len(),
        forall|k: int| 0 <= k < old_rooms.len() ==> #[trigger] new_rooms[k].room_id@ == old_rooms[k].room_id@,
    ensures
        messages_referenced(msgs, users, new_rooms),
{
    assert forall|i: int| 0 <= i < msgs.len() implies has_room(new_rooms, #[trigger] msgs[i].room_id@) && has_user(users, msgs[i].sender_id@) by {
        let k = choose|k: int| 0 <= k < old_rooms.len() && #[trigger] old_rooms[k].room_id@ == msgs[i].room_id@;
        assert(new_rooms[k].room_id@ == msgs[i].room_id@);
    }
}

/// Adding a user whose id, login and display name are all free keeps users
/// unique.
proof fn lemma_push_keeps_unique(users: Seq<UserData>, u: UserData)
    requires
        users_unique(users),
        !has_user(users, u.user_id@),
        !login_taken(users, u.login_username@),
        !name_taken(users, u.username@),
    ensures
        users_unique(users.push(u)),
{
    let us = users.push(u);
    let n = users.len() as int;
    assert forall|i: int, j: int|
        0 <= i < us.len() && 0 <= j < us.len() && #[trigger] us[i].user_id@ == #[trigger] us[j].user_id@
            implies i == j by {
        if i < n && j == n {
            assert(users[i].user_id@ == u.user_id@);
        } else if j < n && i == n {
            assert(users[j].user_id@ == u.user_id@);
        }
    }
    assert forall|i: int, j: int|
        0 <= i < us.len() && 0 <= j < us.len() && #[trigger] us[i].login_username@
            == #[trigger] us[j].login_username@ implies i == j by {
        if i < n && j == n {
            assert(users[i].login_username@ == u.login_username@);
        } else if j < n && i == n {
            assert(users[j].login_username@ == u.login_username@);
        }
    }
    assert forall|i: int, j: int|
        0 <= i < us.len() && 0 <= j < us.len() && #[trigger] us[i].username@ == #[trigger] us[j].username@
            implies i == j by {
        if i < n && j == n {
            assert(users[i].username@ == u.username@);
        } else if j < n && i == n {
            assert(users[j].username@ == u.username@);
        }
    }
}

/// Replacing user `i` by one with the same id and login, and a display name
/// that is its own or free, keeps users unique.
proof fn lemma_update_keeps_unique(users: Seq<UserData>, i: int, u: UserData)
    requires
        users_unique(users),
        0 <= i < users.len(),
        u.user_id@ == users[i].user_id@,
        u.login_username@ == users[i].login_username@,
        u.username@ == users[i].username@ || !name_taken(users, u.username@),
    ensures
        users_unique(users.update(i, u)),
{
    let us = users.update(i, u);
    assert forall|a: int, b: int|
        0 <= a < us.len() && 0 <= b < us.len() && #[trigger] us[a].username@ == #[trigger] us[b].username@
            implies a == b by {
        if a == i && b != i {
            assert(users[b].username@ == u.username@);
            assert(users[b].username@ == users[i].username@);
        } else if b == i && a != i {
            assert(users[a].username@ == u.username@);
            assert(users[a].username@ == users[i].username@);
        } else if a != i && b != i {
            assert(users[a].username@ == users[b].username@);
        }
    }
    assert forall|a: int, b: int|
        0 <= a < us.len() && 0 <= b < us.len() && #[trigger] us[a].user_id@ == #[trigger] us[b].user_id@
            implies a == b by {
        assert(users[a].user_id@ == users[b].user_id@);
    }
    assert forall|a: int, b: int|
        0 <= a < us.len() && 0 <= b < us.len() && #[trigger] us[a].login_username@
            == #[trigger] us[b].login_username@ implies a == b by {
        assert(users[a].login_username@ == users[b].login_username@);
    }
}

/// Setting a status twice leaves what setting it once leaves.
pub proof fn lemma_status_idempotent(users: Seq<UserData>, id: Seq<char>, st: ConnectionState)
    ensures
        with_status(with_status(users, id, st), id, st) == with_status(users, id, st),
{
    assert(with_status(with_status(users, id, st), id, st) =~= with_status(users, id, st));
}

/// The member set of a room.
pub open spec fn members(r: Room) -> Set<Seq<char>> {
    strs(r.users@).to_set()
}

/// The first position of `s` in `v`.
pub fn position_of(v: &Vec<String>, s: &String) -> (r: Option<usize>)
    ensures
        match r {
            Some(j) => j < v@.len() && v@[j as int]@ == s@ && forall|k: int| 0 <= k < j ==> #[trigger] v@[k]@ != s@,
            None => !strs(v@).contains(s@),
        },
{
    let mut i: usize = 0;
    while i < v.len()
        invariant
            i <= v@.len(),
            forall|k: int| 0 <= k < i ==> #[trigger] v@[k]@ != s@,
        decreases v@.len() - i,
    {
        if v[i] == *s {
            return Some(i);
        }
        i = i + 1;
    }
    assert(!strs(v@).contains(s@)) by {
        if strs(v@).contains(s@) {
            let k = choose|k: int| 0 <= k < strs(v@).len() && strs(v@)[k] == s@;
            assert(v@[k]@ == s@);
        }
    }
    None
}

/// Whether `s` is among `v`.
pub fn contains_str(v: &Vec<String>, s: &String) -> (r: bool)
    ensures
        r == strs(v@).contains(s@),
{
    match position_of(v, s) {
        Some(j) => {
            assert(strs(v@)[j as int] == s@);
            true
        },
        None => false,
    }
}

/// `new` is `old` with `m` inserted after every message with a timestamp not
/// later than its own and before every later one.
pub open spec fn inserted_in_order(old: Seq<BasicMessage>, new: Seq<BasicMessage>, m: BasicMessage) -> bool {
    exists|pos: int|
        0 <= pos <= old.len() && new == old.insert(pos, m)
            && (forall|k: int| 0 <= k < pos ==> #[trigger] old[k].timestamp <= m.timestamp)
            && (forall|k: int| pos <= k < old.len() ==> m.timestamp < #[trigger] old[k].timestamp)
}

/// No user id occurs twice in `us`.
pub open spec fn user_ids_unique(us: Seq<User>) -> bool {
    forall|a: int, b: int|
        0 <= a < us.len() && 0 <= b < us.len() && #[trigger] us[a].user_id@ == #[trigger] us[b].user_id@ ==> a == b
}

/// `(user_id, display_username)` of each of `us`.
pub open spec fn user_pairs(us: Seq<User>) -> Seq<(Seq<char>, Seq<char>)> {
    us.map_values(|u: User| (u.user_id@, u.username@))
}

/// `(user_id, display_username)` of each user whose room list holds `room`,
/// in store order.
pub open spec fn room_roster(users: Seq<UserData>, room: Seq<char>) -> Seq<(Seq<char>, Seq<char>)> {
    users.filter(lists_room(room)).map_values(|u: UserData| (u.user_id@, u.username@))
}

/// Every message of a well-formed store names an existing room and an
/// existing sender.
pub proof fn lemma_messages_reference_existing(store: Store)
    requires
        store.wf(),
    ensures
        messages_referenced(store.messages@, store.users@, store.rooms@),
{
}

/// No two users of a well-formed store share a display name.
pub proof fn lemma_display_names_unique(store: Store)
    requires
        store.wf(),
    ensures
        forall|i: int, j: int|
            0 <= i < store.users@.len() && 0 <= j < store.users@.len() && i != j
                ==> #[trigger] store.users@[i].username@ != #[trigger] store.users@[j].username@,
{
}

/// The backing store: users, rooms and messages.
pub struct Store {
    pub users: Vec<UserData>,
    pub rooms: Vec<Room>,
    pub messages: Vec<BasicMessage>,
}

impl Store {
    pub open spec fn wf(&self) -> bool {
        &&& users_unique(self.users@)
        &&& rooms_unique(self.rooms@)
        &&& by_timestamp(self.messages@)
        &&& message_ids_unique(self.messages@)
        &&& messages_referenced(self.messages@, self.users@, self.rooms@)
    }

    pub fn new() -> (r: Self)
        ensures
            r.wf(),
            r.users@.len() == 0,
            r.rooms@.len() == 0,
            r.messages@.len() == 0,
    {
        Store { users: Vec::new(), rooms: Vec::new(), messages: Vec::new() }
    }

    fn user_index(&self, user_id: &String) -> (r: Option<usize>)
        ensures
            match r {
                Some(i) => i < self.users@.len() && self.users@[i as int].user_id@ == user_id@,
                None => !has_user(self.users@, user_id@),
            },
    {
        let mut i: usize = 0;
        while i < self.users.len()
            invariant
                i <= self.users@.len(),
                forall|k: int| 0 <= k < i ==> #[trigger] self.users@[k].user_id@ != user_id@,
            decreases self.users@.len() - i,
        {
            if self.users[i].user_id == *user_id {
                return Some(i);
            }
            i = i + 1;
        }
        None
    }

    fn login_index(&self, login: &String) -> (r: Option<usize>)
        ensures
            match r {
                Some(i) => i < self.users@.len() && self.users@[i as int].login_username@ == login@,
                None => !login_taken(self.users@, login@),
            },
    {
        let mut i: usize = 0;
        while i < self.users.len()
            invariant
                i <= self.users@.len(),
                forall|k: int| 0 <= k < i ==> #[trigger] self.users@[k].login_username@ != login@,
            decreases self.users@.len() - i,
        {
            if self.users[i].login_username == *login {
                return Some(i);
            }
            i = i + 1;
        }
        None
    }

    fn name_index(&self, name: &String) -> (r: Option<usize>)
        ensures
            match r {
                Some(i) => i < self.users@.len() && self.users@[i as int].username@ == name@,
                None => !name_taken(self.users@, name@),
            },
    {
        let mut i: usize = 0;
        while i < self.users.len()
            invariant
                i <= self.users@.len(),
                forall|k: int| 0 <= k < i ==> #[trigger] self.users@[k].username@ != name@,
            decreases self.users@.len() - i,
        {
            if self.users[i].username == *name {
                return Some(i);
            }
            i = i + 1;
        }
        None
    }

    fn room_index(&self, room_id: &String) -> (r: Option<usize>)
        ensures
            match r {
                Some(i) => i < self.rooms@.len() && self.rooms@[i as int].room_id@ == room_id@,
                None => !has_room(self.rooms@, room_id@),
            },
    {
        let mut i: usize = 0;
        while i < self.rooms.len()
            invariant
                i <= self.rooms@.len(),
                forall|k: int| 0 <= k < i ==> #[trigger] self.rooms@[k].room_id@ != room_id@,
            decreases self.rooms@.len() - i,
        {
            if self.rooms[i].room_id == *room_id {
                return Some(i);
            }
            i = i + 1;
        }
        None
    }

    /// Adds `user`, unless its id, login or display name is taken.
    pub fn create_user(&mut self, user: UserData) -> (r: Result<(), StoreError>)
        requires
            old(self).wf(),
        ensures
            final(self).wf(),
            r is Err <==> has_user(old(self).users@, user.user_id@) || login_taken(
                old(self).users@,
                user.login_username@,
            ) || name_taken(old(self).users@, user.username@),
            r matches Err(e) ==> e == StoreError::Conflict,
            final(self).users@ == (if r is Ok { old(self).users@.push(user) } else { old(self).users@ }),
            final(self).rooms@ == old(self).rooms@,
            final(self).messages@ == old(self).messages@,
    {
        if self.user_index(&user.user_id).is_some() || self.login_index(&user.login_username).is_some()
            || self.name_index(&user.username).is_some() {
            return Err(StoreError::Conflict);
        }
        let ghost old_users = self.users@;
        self.users.push(user);
        proof {
            let us = self.users@;
            lemma_push_keeps_unique(old_users, us.last());
            assert(us == old_users.push(us.last()));
            lemma_ids_kept(self.messages@, old_users, us, self.rooms@);
        }
        Ok(())
    }

    /// Sets the display name of `user_id` to `new_username`, unless some user
    /// already has that name.
    pub fn update_username(&mut self, user_id: &String, new_username: String) -> (r: Result<(), StoreError>)
        requires
            old(self).wf(),
        ensures
            final(self).wf(),
            r == (if name_taken(old(self).users@, new_username@) {
                Err(StoreError::Conflict)
            } else if !has_user(old(self).users@, user_id@) {
                Err(StoreError::NotFound)
            } else {
                Ok::<(), StoreError>(())
            }),
            final(self).users@ == (if r is Ok {
                renamed(old(self).users@, user_id@, new_username)
            } else {
                old(self).users@
            }),
            final(self).rooms@ == old(self).rooms@,
            final(self).messages@ == old(self).messages@,
    {
        if self.name_index(&new_username).is_some() {
            return Err(StoreError::Conflict);
        }
        let i = match self.user_index(user_id) {
            Some(i) => i,
            None => { return Err(StoreError::NotFound); },
        };
        let ghost old_users = self.users@;
        let mut u = self.users.remove(i);
        u.username = new_username;
        self.users.insert(i, u);
        proof {
            let us = self.users@;
            assert(us =~= renamed(old_users, user_id@, new_username)) by {
                assert forall|k: int| 0 <= k < us.len() implies us[k] == renamed(old_users, user_id@, new_username)[k] by {
                    if k != i {
                        assert(old_users[k].user_id@ != old_users[i as int].user_id@);
                    }
                }
            }
            assert(us =~= old_users.update(i as int, us[i as int]));
            lemma_update_keeps_unique(old_users, i as int, us[i as int]);
            lemma_ids_kept(self.messages@, old_users, us, self.rooms@);
        }
        Ok(())
    }

    /// Sets the presence marker of `user_id` to `status`; no other user changes.
    pub fn set_status(&mut self, user_id: &String, status: ConnectionState)
        requires
            old(self).wf(),
        ensures
            final(self).wf(),
            final(self).users@ == with_status(old(self).users@, user_id@, status),
            final(self).rooms@ == old(self).rooms@,
            final(self).messages@ == old(self).messages@,
    {
        let ghost old_users = self.users@;
        match self.user_index(user_id) {
            Some(i) => {
                let mut u = self.users.remove(i);
                u.status = status;
                self.users.insert(i, u);
                proof {
                    let us = self.users@;
                    assert(us =~= with_status(old_users, user_id@, status)) by {
                        assert forall|k: int| 0 <= k < us.len() implies us[k] == with_status(old_users, user_id@, status)[k] by {
                            if k != i {
                                assert(old_users[k].user_id@ != old_users[i as int].user_id@);
                            }
                        }
                    }
                    assert(us =~= old_users.update(i as int, us[i as int]));
                    lemma_update_keeps_unique(old_users, i as int, us[i as int]);
                    lemma_ids_kept(self.messages@, old_users, us, self.rooms@);
                }
            },
            None => {
                assert(old_users =~= with_status(old_users, user_id@, status));
            },
        }
    }

    /// Adds `room`, unless its id is taken.
    pub fn create_room(&mut self, room: Room) -> (r: Result<(), StoreError>)
        requires
            old(self).wf(),
            strs(room.users@).no_duplicates(),
        ensures
            final(self).wf(),
            r is Err <==> has_room(old(self).rooms@, room.room_id@),
            r matches Err(e) ==> e == StoreError::Conflict,
            final(self).rooms@ == (if r is Ok { old(self).rooms@.push(room) } else { old(self).rooms@ }),
            final(self).users@ == old(self).users@,
            final(self).messages@ == old(self).messages@,
    {
        if self.room_index(&room.room_id).is_some() {
            return Err(StoreError::Conflict);
        }
        let ghost old_rooms = self.rooms@;
        self.rooms.push(room);
        proof {
            let rs = self.rooms@;
            let n = old_rooms.len() as int;
            assert forall|i: int, j: int|
                0 <= i < rs.len() && 0 <= j < rs.len() && #[trigger] rs[i].room_id@ == #[trigger] rs[j].room_id@
                    implies i == j by {
                if i < n && j == n {
                    assert(old_rooms[i].room_id@ == rs[n].room_id@);
                } else if j < n && i == n {
                    assert(old_rooms[j].room_id@ == rs[n].room_id@);
                }
            }
            assert forall|i: int| 0 <= i < rs.len() implies strs(#[trigger] rs[i].users@).no_duplicates() by {
                if i < n {
                    assert(rs[i] == old_rooms[i]);
                }
            }
            lemma_room_ids_kept(self.messages@, self.users@, old_rooms, rs);
        }
        Ok(())
    }

    /// Adds `user_id` to the members of `room_id`.
    pub fn add_member(&mut self, room_id: &String, user_id: &String) -> (r: Result<(), StoreError>)
        requires
            old(self).wf(),
        ensures
            final(self).wf(),
            r is Err <==> !has_room(old(self).rooms@, room_id@),
            r matches Err(e) ==> e == StoreError::NotFound,
            r is Err ==> final(self).rooms@ == old(self).rooms@,
            r is Ok ==> exists|i: int|
                0 <= i < old(self).rooms@.len() && #[trigger] old(self).rooms@[i].room_id@ == room_id@
                    && final(self).rooms@ == old(self).rooms@.update(
                    i,
                    final(self).rooms@[i],
                ) && final(self).rooms@[i].name == old(self).rooms@[i].name
                    && final(self).rooms@[i].room_id == old(self).rooms@[i].room_id
                    && members(final(self).rooms@[i]) == members(old(self).rooms@[i]).insert(user_id@),
            final(self).users@ == old(self).users@,
            final(self).messages@ == old(self).messages@,
    {
        let i = match self.room_index(room_id) {
            Some(i) => i,
            None => { return Err(StoreError::NotFound); },
        };
        let ghost old_rooms = self.rooms@;
        let mut room = self.rooms.remove(i);
        let ghost old_room = room;
        if !contains_str(&room.users, user_id) {
            room.users.push(user_id.clone());
            proof {
                let ms = strs(room.users@);
                assert(ms =~= strs(old_room.users@).push(user_id@));
                assert forall|a: int, b: int| 0 <= a < ms.len() && 0 <= b < ms.len() && a != b implies ms[a] != ms[b] by {
                    if a < ms.len() - 1 && b < ms.len() - 1 {
                        assert(ms[a] == strs(old_room.users@)[a]);
                        assert(ms[b] == strs(old_room.users@)[b]);
                    } else if a < ms.len() - 1 {
                        assert(ms[a] == strs(old_room.users@)[a]);
                    } else if b < ms.len() - 1 {
                        assert(ms[b] == strs(old_room.users@)[b]);
                    }
                }
                assert forall|y: Seq<char>| #[trigger] ms.contains(y) == (strs(old_room.users@).contains(y) || y == user_id@) by {
                    if ms.contains(y) {
                        let a = choose|a: int| 0 <= a < ms.len() && ms[a] == y;
                        if a < ms.len() - 1 {
                            assert(strs(old_room.users@)[a] == y);
                        }
                    }
                    if strs(old_room.users@).contains(y) {
                        let a = choose|a: int| 0 <= a < strs(old_room.users@).len() && strs(old_room.users@)[a] == y;
                        assert(ms[a] == y);
                    }
                    if y == user_id@ {
                        assert(ms[ms.len() - 1] == y);
                    }
                }
                assert(ms.to_set() =~= strs(old_room.users@).to_set().insert(user_id@));
            }
        } else {
            assert(strs(old_room.users@).to_set() =~= strs(old_room.users@).to_set().insert(user_id@));
        }
        proof {
            assert(old_rooms.remove(i as int).insert(i as int, room) =~= old_rooms.update(i as int, room));
            let rs = old_rooms.update(i as int, room);
            assert forall|a: int, b: int|
                0 <= a < rs.len() && 0 <= b < rs.len() && #[trigger] rs[a].room_id@ == #[trigger] rs[b].room_id@
                    implies a == b by {
                assert(old_rooms[a].room_id@ == old_rooms[b].room_id@);
            }
            assert forall|a: int| 0 <= a < rs.len() implies strs(#[trigger] rs[a].users@).no_duplicates() by {
                if a != i {
                    assert(rs[a] == old_rooms[a]);
                }
            }
            lemma_room_ids_kept(self.messages@, self.users@, old_rooms, rs);
        }
        self.rooms.insert(i, room);
        Ok(())
    }

    /// Removes `user_id` from the members of `room_id`.
    pub fn remove_member(&mut self, room_id: &String, user_id: &String) -> (r: Result<(), StoreError>)
        requires
            old(self).wf(),
        ensures
            final(self).wf(),
            r is Err <==> !has_room(old(self).rooms@, room_id@),
            r matches Err(e) ==> e == StoreError::NotFound,
            r is Err ==> final(self).rooms@ == old(self).rooms@,
            r is Ok ==> exists|i: int|
                0 <= i < old(self).rooms@.len() && #[trigger] old(self).rooms@[i].room_id@ == room_id@
                    && final(self).rooms@ == old(self).rooms@.update(
                    i,
                    final(self).rooms@[i],
                ) && final(self).rooms@[i].name == old(self).rooms@[i].name
                    && final(self).rooms@[i].room_id == old(self).rooms@[i].room_id
                    && members(final(self).rooms@[i]) == members(old(self).rooms@[i]).remove(user_id@),
            final(self).users@ == old(self).users@,
            final(self).messages@ == old(self).messages@,
    {
        let i = match self.room_index(room_id) {
            Some(i) => i,
            None => { return Err(StoreError::NotFound); },
        };
        let ghost old_rooms = self.rooms@;
        let mut room = self.rooms.remove(i);
        let ghost old_room = room;
        let ghost old_ms = strs(old_room.users@);
        if let Some(j) = position_of(&room.users, user_id) {
            assert(old_ms[j as int] == user_id@);
            room.users.remove(j);
            proof {
                let ms = strs(room.users@);
                assert(ms =~= old_ms.remove(j as int));
                assert forall|a: int, b: int| 0 <= a < ms.len() && 0 <= b < ms.len() && a != b implies ms[a] != ms[b] by {
                    let a2 = if a < j { a } else { a + 1 };
                    let b2 = if b < j { b } else { b + 1 };
                    assert(ms[a] == old_ms[a2]);
                    assert(ms[b] == old_ms[b2]);
                }
                assert forall|x: Seq<char>| #[trigger] ms.to_set().contains(x) == old_ms.to_set().remove(user_id@).contains(x) by {
                    if ms.contains(x) {
                        let a = choose|a: int| 0 <= a < ms.len() && ms[a] == x;
                        let a2 = if a < j { a } else { a + 1 };
                        assert(old_ms[a2] == x);
                        assert(a2 != j);
                    }
                    if old_ms.contains(x) && x != user_id@ {
                        let a = choose|a: int| 0 <= a < old_ms.len() && old_ms[a] == x;
                        assert(a != j);
                        let a2 = if a < j { a } else { a - 1 };
                        assert(ms[a2] == x);
                    }
                }
                assert(ms.to_set() =~= old_ms.to_set().remove(user_id@));
            }
        } else {
            assert(old_ms.to_set() =~= old_ms.to_set().remove(user_id@));
        }
        proof {
            assert(old_rooms.remove(i as int).insert(i as int, room) =~= old_rooms.update(i as int, room));
            let rs = old_rooms.update(i as int, room);
            assert forall|a: int, b: int|
                0 <= a < rs.len() && 0 <= b < rs.len() && #[trigger] rs[a].room_id@ == #[trigger] rs[b].room_id@
                    implies a == b by {
                assert(old_rooms[a].room_id@ == old_rooms[b].room_id@);
            }
            assert forall|a: int| 0 <= a < rs.len() implies strs(#[trigger] rs[a].users@).no_duplicates() by {
                if a != i {
                    assert(rs[a] == old_rooms[a]);
                }
            }
            lemma_room_ids_kept(self.messages@, self.users@, old_rooms, rs);
        }
        self.rooms.insert(i, room);
        Ok(())
    }

    /// The room whose id is `room_id`.
    pub fn get_room(&self, room_id: &String) -> (r: Option<Room>)
        requires
            self.wf(),
        ensures
            r is None <==> !has_room(self.rooms@, room_id@),
            r matches Some(room) ==> exists|i: int|
                0 <= i < self.rooms@.len() && self.rooms@[i].room_id@ == room_id@
                    && room.same_as(#[trigger] self.rooms@[i]),
    {
        match self.room_index(room_id) {
            Some(i) => Some(self.rooms[i].clone()),
            None => None,
        }
    }

    /// The members of `room_id`.
    pub fn members_of(&self, room_id: &String) -> (r: Option<Vec<String>>)
        requires
            self.wf(),
        ensures
            r is None <==> !has_room(self.rooms@, room_id@),
            r matches Some(v) ==> exists|i: int|
                0 <= i < self.rooms@.len() && self.rooms@[i].room_id@ == room_id@
                    && v@ == (#[trigger] self.rooms@[i]).users@,
    {
        match self.room_index(room_id) {
            Some(i) => Some(clone_strings(&self.rooms[i].users)),
            None => None,
        }
    }

    /// `(user_id, display_username)` of every user whose room list holds
    /// `room_id`, in store order.
    pub fn users_in_room(&self, room_id: &String) -> (r: Vec<User>)
        requires
            self.wf(),
        ensures
            user_pairs(r@) == room_roster(self.users@, room_id@),
            user_ids_unique(r@),
    {
        let ghost sel = lists_room(room_id@);
        let mut r: Vec<User> = Vec::new();
        let mut i: usize = 0;
        while i < self.users.len()
            invariant
                i <= self.users@.len(),
                sel == lists_room(room_id@),
                users_unique(self.users@),
                user_ids_unique(r@),
                forall|k: int|
                    0 <= k < r@.len() ==> exists|j: int| 0 <= j < i && #[trigger] r@[k].user_id@ == self.users@[j].user_id@,
                r@.map_values(|u: User| (u.user_id@, u.username@)) == self.users@.take(i as int).filter(sel).map_values(
                    |u: UserData| (u.user_id@, u.username@),
                ),
            decreases self.users@.len() - i,
        {
            let u = &self.users[i];
            proof {
                assert(self.users@.take(i + 1) =~= self.users@.take(i as int).push(self.users@[i as int]));
                self.users@.take(i as int).lemma_filter_push(self.users@[i as int], sel);
            }
            if contains_str(&u.rooms, room_id) {
                let ghost before = r@;
                r.push(User { user_id: u.user_id.clone(), username: u.username.clone() });
                proof {
                    assert forall|k: int| 0 <= k < r@.len() implies exists|j: int|
                        0 <= j < i + 1 && #[trigger] r@[k].user_id@ == self.users@[j].user_id@ by {
                        if k < before.len() {
                            assert(r@[k] == before[k]);
                        } else {
                            assert(r@[k].user_id@ == self.users@[i as int].user_id@);
                        }
                    }
                    assert forall|a: int, b: int|
                        0 <= a < r@.len() && 0 <= b < r@.len() && #[trigger] r@[a].user_id@ == #[trigger] r@[b].user_id@
                            implies a == b by {
                        let n = before.len() as int;
                        if a < n && b == n {
                            assert(r@[a] == before[a]);
                            let j = choose|j: int| 0 <= j < i && #[trigger] before[a].user_id@ == self.users@[j].user_id@;
                            assert(self.users@[j].user_id@ == self.users@[i as int].user_id@);
                        } else if b < n && a == n {
                            assert(r@[b] == before[b]);
                            let j = choose|j: int| 0 <= j < i && #[trigger] before[b].user_id@ == self.users@[j].user_id@;
                            assert(self.users@[j].user_id@ == self.users@[i as int].user_id@);
                        } else if a < n && b < n {
                            assert(r@[a] == before[a]);
                            assert(r@[b] == before[b]);
                        }
                    }
                }
                assert(r@.map_values(|u: User| (u.user_id@, u.username@)) =~= before.map_values(
                    |u: User| (u.user_id@, u.username@),
                ).push((u.user_id@, u.username@)));
                assert(self.users@.take(i + 1).filter(sel).map_values(|u: UserData| (u.user_id@, u.username@))
                    =~= self.users@.take(i as int).filter(sel).map_values(|u: UserData| (u.user_id@, u.username@)).push(
                    (u.user_id@, u.username@),
                ));
            }
            i = i + 1;
        }
        assert(self.users@.take(self.users@.len() as int) =~= self.users@);
        r
    }

    /// Stores `msg` after every message with a timestamp not later than its
    /// own, provided that its room and its sender exist.
    pub fn append_message(&mut self, msg: BasicMessage) -> (r: Result<(), StoreError>)
        requires
            old(self).wf(),
        ensures
            final(self).wf(),
            r == (if !has_room(old(self).rooms@, msg.room_id@) || !has_user(old(self).users@, msg.sender_id@) {
                Err(StoreError::NotFound)
            } else if id_taken(old(self).messages@, msg.message_id@) {
                Err(StoreError::Conflict)
            } else {
                Ok::<(), StoreError>(())
            }),
            r is Err ==> final(self).messages@ == old(self).messages@,
            r is Ok ==> inserted_in_order(old(self).messages@, final(self).messages@, msg),
            final(self).users@ == old(self).users@,
            final(self).rooms@ == old(self).rooms@,
    {
        if self.room_index(&msg.room_id).is_none() || self.user_index(&msg.sender_id).is_none() {
            return Err(StoreError::NotFound);
        }
        if self.message_index(&msg.message_id).is_some() {
            return Err(StoreError::Conflict);
        }
        let mut pos: usize = 0;
        while pos < self.messages.len() && self.messages[pos].timestamp <= msg.timestamp
            invariant
                pos <= self.messages@.len(),
                forall|k: int| 0 <= k < pos ==> #[trigger] self.messages@[k].timestamp <= msg.timestamp,
            decreases self.messages@.len() - pos,
        {
            pos = pos + 1;
        }
        let ghost old_msgs = self.messages@;
        self.messages.insert(pos, msg);
        proof {
            let ms = self.messages@;
            assert forall|k: int| pos <= k < old_msgs.len() implies msg.timestamp < #[trigger] old_msgs[k].timestamp by {
                if pos < old_msgs.len() {
                    assert(msg.timestamp < old_msgs[pos as int].timestamp);
                    assert(old_msgs[pos as int].timestamp <= old_msgs[k].timestamp);
                }
            }
            assert forall|a: int, b: int| 0 <= a <= b < ms.len() implies #[trigger] ms[a].timestamp <= #[trigger] ms[b].timestamp by {
                let a2 = if a < pos { a } else if a == pos { -1 } else { a - 1 };
                let b2 = if b < pos { b } else if b == pos { -1 } else { b - 1 };
                if a2 >= 0 && b2 >= 0 {
                    assert(ms[a] == old_msgs[a2]);
                    assert(ms[b] == old_msgs[b2]);
                } else if a2 >= 0 {
                    assert(ms[a] == old_msgs[a2]);
                } else if b2 >= 0 {
                    assert(ms[b] == old_msgs[b2]);
                }
            }
            assert forall|a: int, b: int|
                0 <= a < ms.len() && 0 <= b < ms.len() && #[trigger] ms[a].message_id@ == #[trigger] ms[b].message_id@
                    implies a == b by {
                let a2 = if a < pos { a } else if a == pos { -1 } else { a - 1 };
                let b2 = if b < pos { b } else if b == pos { -1 } else { b - 1 };
                if a2 >= 0 && b2 >= 0 {
                    assert(ms[a] == old_msgs[a2]);
                    assert(ms[b] == old_msgs[b2]);
                } else if a2 >= 0 {
                    assert(ms[a] == old_msgs[a2]);
                } else if b2 >= 0 {
                    assert(ms[b] == old_msgs[b2]);
                }
            }
            assert forall|a: int| 0 <= a < ms.len() implies has_room(self.rooms@, #[trigger] ms[a].room_id@) && has_user(
                self.users@,
                ms[a].sender_id@,
            ) by {
                if a < pos {
                    assert(ms[a] == old_msgs[a]);
                    assert(has_room(self.rooms@, old_msgs[a].room_id@));
                } else if a > pos {
                    assert(ms[a] == old_msgs[a - 1]);
                    assert(has_room(self.rooms@, old_msgs[a - 1].room_id@));
                }
            }
        }
        assert(inserted_in_order(old_msgs, self.messages@, msg)) by {
            assert(0 <= pos <= old_msgs.len() && self.messages@ == old_msgs.insert(pos as int, msg));
        }
        Ok(())
    }

    /// The messages of `room_id`, in ascending timestamp order.
    pub fn history(&self, room_id: &String) -> (r: Vec<BasicMessage>)
        requires
            self.wf(),
        ensures
            r@ == self.messages@.filter(in_room(room_id@)),
            by_timestamp(r@),
    {
        let ghost sel = in_room(room_id@);
        let mut r: Vec<BasicMessage> = Vec::new();
        let mut i: usize = 0;
        while i < self.messages.len()
            invariant
                i <= self.messages@.len(),
                self.wf(),
                sel == in_room(room_id@),
                r@ == self.messages@.take(i as int).filter(sel),
                by_timestamp(r@),
                forall|k: int, j: int| 0 <= k < r@.len() && i <= j < self.messages@.len()
                    ==> #[trigger] r@[k].timestamp <= #[trigger] self.messages@[j].timestamp,
            decreases self.messages@.len() - i,
        {
            let m = &self.messages[i];
            proof {
                assert(self.messages@.take(i + 1) =~= self.messages@.take(i as int).push(self.messages@[i as int]));
                self.messages@.take(i as int).lemma_filter_push(self.messages@[i as int], sel);
            }
            if m.room_id == *room_id {
                r.push(m.clone());
            }
            i = i + 1;
        }
        assert(self.messages@.take(self.messages@.len() as int) =~= self.messages@);
        r
    }

    fn message_index(&self, message_id: &String) -> (r: Option<usize>)
        ensures
            match r {
                Some(i) => i < self.messages@.len() && self.messages@[i as int].message_id@ == message_id@,
                None => !id_taken(self.messages@, message_id@),
            },
    {
        let mut i: usize = 0;
        while i < self.messages.len()
            invariant
                i <= self.messages@.len(),
                forall|k: int| 0 <= k < i ==> #[trigger] self.messages@[k].message_id@ != message_id@,
            decreases self.messages@.len() - i,
        {
            if self.messages[i].message_id == *message_id {
                return Some(i);
            }
            i = i + 1;
        }
        None
    }

    /// Removes the message whose id is `message_id`; tells whether there was
    /// one.
    pub fn delete_message(&mut self, message_id: &String) -> (r: bool)
        requires
            old(self).wf(),
        ensures
            final(self).wf(),
            r == id_taken(old(self).messages@, message_id@),
            r ==> exists|k: int|
                0 <= k < old(self).messages@.len() && #[trigger] old(self).messages@[k].message_id@ == message_id@
                    && final(self).messages@ == old(self).messages@.remove(k),
            !r ==> final(self).messages@ == old(self).messages@,
            !id_taken(final(self).messages@, message_id@),
            final(self).users@ == old(self).users@,
            final(self).rooms@ == old(self).rooms@,
    {
        let i = match self.message_index(message_id) {
            Some(i) => i,
            None => { return false; },
        };
        let ghost old_msgs = self.messages@;
        self.messages.remove(i);
        proof {
            let ms = self.messages@;
            assert forall|a: int, b: int| 0 <= a <= b < ms.len() implies #[trigger] ms[a].timestamp <= #[trigger] ms[b].timestamp by {
                let a2 = if a < i { a } else { a + 1 };
                let b2 = if b < i { b } else { b + 1 };
                assert(ms[a] == old_msgs[a2]);
                assert(ms[b] == old_msgs[b2]);
            }
            assert forall|a: int, b: int|
                0 <= a < ms.len() && 0 <= b < ms.len() && #[trigger] ms[a].message_id@ == #[trigger] ms[b].message_id@
                    implies a == b by {
                let a2 = if a < i { a } else { a + 1 };
                let b2 = if b < i { b } else { b + 1 };
                assert(ms[a] == old_msgs[a2]);
                assert(ms[b] == old_msgs[b2]);
            }
            assert forall|a: int| 0 <= a < ms.len() implies has_room(self.rooms@, #[trigger] ms[a].room_id@) && has_user(
                self.users@,
                ms[a].sender_id@,
            ) by {
                let a2 = if a < i { a } else { a + 1 };
                assert(ms[a] == old_msgs[a2]);
                assert(has_room(self.rooms@, old_msgs[a2].room_id@));
            }
            if id_taken(ms, message_id@) {
                let a = choose|a: int| 0 <= a < ms.len() && #[trigger] ms[a].message_id@ == message_id@;
                let a2 = if a < i { a } else { a + 1 };
                assert(ms[a] == old_msgs[a2]);
                assert(old_msgs[a2].message_id@ == old_msgs[i as int].message_id@);
            }
            assert(old_msgs[i as int].message_id@ == message_id@);
        }
        true
    }

    /// The user whose login is `login`.
    pub fn find_user_by_login(&self, login: &String) -> (r: Option<UserData>)
        requires
            self.wf(),
        ensures
            r is None <==> !login_taken(self.users@, login@),
            r matches Some(u) ==> exists|i: int|
                0 <= i < self.users@.len() && self.users@[i].login_username@ == login@
                    && u.same_as(#[trigger] self.users@[i]),
    {
        match self.login_index(login) {
            Some(i) => Some(self.users[i].clone()),
            None => None,
        }
    }

    /// The user whose id is `user_id`.
    pub fn find_user_by_id(&self, user_id: &String) -> (r: Option<UserData>)
        requires
            self.wf(),
        ensures
            r is None <==> !has_user(self.users@, user_id@),
            r matches Some(u) ==> exists|i: int|
                0 <= i < self.users@.len() && self.users@[i].user_id@ == user_id@
                    && u.same_as(#[trigger] self.users@[i]),
    {
        match self.user_index(user_id) {
            Some(i) => Some(self.users[i].clone()),
            None => None,
        }
    }
}

} // verus!
