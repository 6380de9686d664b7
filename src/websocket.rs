use vstd::prelude::*;

use crate::appstate::{AppState, all_carry, delivered_to};
use crate::message_structs::{BasicMessage, InitMessage, UserInfo, UserMessage, UsernameChangeMessage};
use crate::registry::{not_matching, other_ws};
use crate::services::{fresh_id, is_hex_id, now_seconds};
use crate::store::{
    Store, StoreError, has_room, has_user, id_taken, in_room, inserted_in_order, members, name_taken, renamed,
    room_roster, strs, user_pairs, with_status,
};
use crate::structs::{ConnectionState, Room};

verus! {

/// One outbound frame for one connection.
#[derive(Debug, PartialEq, Eq)]
pub struct Delivery {
    pub ws_id: String,
    pub message: UserMessage,
}

/// A serialized frame, written verbatim to a connection.
#[derive(Debug, PartialEq, Eq)]
pub struct WsMessage(pub String);

/// `d` hands the messages `hist` one by one, in order, to connection `ws`.
pub open spec fn replays(d: Seq<Delivery>, ws: Seq<char>, hist: Seq<BasicMessage>) -> bool {
    &&& d.len() == hist.len()
    &&& forall|k: int|
        0 <= k < d.len() ==> (#[trigger] d[k]).ws_id@ == ws && d[k].message == UserMessage::Basic(hist[k])
}

/// Replays the history of `room_id` to connection `ws_id`.
pub fn get_messages(state: &AppState, ws_id: &String, room_id: &String) -> (r: Vec<Delivery>)
    requires
        state.wf(),
    ensures
        replays(r@, ws_id@, state.store.messages@.filter(in_room(room_id@))),
{
    let hist = state.store.history(room_id);
    let mut r: Vec<Delivery> = Vec::new();
    let mut i: usize = 0;
    while i < hist.len()
        invariant
            i <= hist@.len(),
            hist@ == state.store.messages@.filter(in_room(room_id@)),
            replays(r@, ws_id@, hist@.take(i as int)),
        decreases hist@.len() - i,
    {
        r.push(Delivery { ws_id: ws_id.clone(), message: UserMessage::Basic(hist[i].clone()) });
        i = i + 1;
    }
    assert(hist@.take(hist@.len() as int) =~= hist@);
    r
}

/// Marks `user_id` online.
pub fn change_to_online(store: &mut Store, user_id: &String)
    requires
        old(store).wf(),
    ensures
        final(store).wf(),
        final(store).users@ == with_status(old(store).users@, user_id@, ConnectionState::Online),
        final(store).rooms@ == old(store).rooms@,
        final(store).messages@ == old(store).messages@,
{
    store.set_status(user_id, ConnectionState::Online);
}

/// Marks `user_id` offline.
pub fn change_to_offline(store: &mut Store, user_id: &String)
    requires
        old(store).wf(),
    ensures
        final(store).wf(),
        final(store).users@ == with_status(old(store).users@, user_id@, ConnectionState::Offline),
        final(store).rooms@ == old(store).rooms@,
        final(store).messages@ == old(store).messages@,
{
    store.set_status(user_id, ConnectionState::Offline);
}

/// Adds `user_id` to the members of `room_id`.
pub fn add_user_to_room(user_id: &String, room_id: &String, store: &mut Store) -> (r: Result<(), StoreError>)
    requires
        old(store).wf(),
    ensures
        final(store).wf(),
        r is Err <==> !has_room(old(store).rooms@, room_id@),
        r is Err ==> final(store).rooms@ == old(store).rooms@,
        r is Ok ==> exists|i: int|
            0 <= i < old(store).rooms@.len() && #[trigger] old(store).rooms@[i].room_id@ == room_id@
                && final(store).rooms@ == old(store).rooms@.update(i, final(store).rooms@[i])
                && final(store).rooms@[i].name == old(store).rooms@[i].name
                && final(store).rooms@[i].room_id == old(store).rooms@[i].room_id
                && members(final(store).rooms@[i]) == members(old(store).rooms@[i]).insert(user_id@),
        final(store).users@ == old(store).users@,
        final(store).messages@ == old(store).messages@,
{
    store.add_member(room_id, user_id)
}

/// The `Initialization` frame `d` tells connection `info` who it is and who
/// is in its room: `roster`.
pub open spec fn is_init_for(d: Delivery, user_id: String, ws_id: String, username: String, roster: Seq<(Seq<char>, Seq<char>)>) -> bool {
    &&& d.ws_id == ws_id
    &&& match d.message {
        UserMessage::Initialization(init) => {
            &&& init.user_id == user_id
            &&& init.ws_id == ws_id
            &&& init.username == username
            &&& user_pairs(init.user_map@) == roster
            &&& init.wf()
        },
        _ => false,
    }
}

/// The `Initialization` frame for connection `user_info` in room `room_id`.
pub fn get_users(store: &Store, room_id: &String, user_info: UserInfo) -> (r: Delivery)
    requires
        store.wf(),
    ensures
        is_init_for(r, user_info.user_id, user_info.ws_id, user_info.username, room_roster(store.users@, room_id@)),
{
    let user_map = store.users_in_room(room_id);
    let ws_id = user_info.ws_id.clone();
    Delivery {
        ws_id,
        message: UserMessage::Initialization(
            InitMessage::new(user_info.user_id, user_info.ws_id, user_info.username, user_map),
        ),
    }
}

/// The `UsernameChange` frame announcing that `user_id` is now `new_username`.
pub open spec fn rename_frame(user_id: String, new_username: String) -> UserMessage {
    UserMessage::UsernameChange(UsernameChangeMessage { new_username, sender_id: user_id })
}

/// Store and registry hold what they held.
pub open spec fn kept(a: AppState, b: AppState) -> bool {
    &&& b.store.users@ == a.store.users@
    &&& b.store.rooms@ == a.store.rooms@
    &&& b.store.messages@ == a.store.messages@
    &&& b.actor_registry@ == a.actor_registry@
    &&& b.main_room_id == a.main_room_id
}

/// Renames `user_id` to `new_username` unless the name is taken, and then
/// announces the change to the main room.
pub fn check_and_update_username(user_id: &String, new_username: String, state: &mut AppState) -> (r: Result<
    Vec<Delivery>,
    StoreError,
>)
    requires
        old(state).wf(),
    ensures
        final(state).wf(),
        r is Ok <==> !name_taken(old(state).store.users@, new_username@) && has_user(old(state).store.users@, user_id@),
        r matches Err(e) ==> e == (if name_taken(old(state).store.users@, new_username@) {
            StoreError::Conflict
        } else {
            StoreError::NotFound
        }) && kept(*old(state), *final(state)),
        r matches Ok(d) ==> {
            &&& final(state).store.users@ == renamed(old(state).store.users@, user_id@, new_username)
            &&& final(state).store.rooms@ == old(state).store.rooms@
            &&& final(state).store.messages@ == old(state).store.messages@
            &&& final(state).actor_registry@ == old(state).actor_registry@
            &&& final(state).main_room_id == old(state).main_room_id
            &&& delivered_to(d@) == final(state).broadcast_targets(final(state).main_room_id@, user_id@)
            &&& all_carry(d@, rename_frame(*user_id, new_username))
        },
{
    match state.store.update_username(user_id, new_username.clone()) {
        Ok(()) => {
            let frame = UserMessage::UsernameChange(UsernameChangeMessage::new(user_id.clone(), new_username));
            let main_room = state.main_room_id.clone();
            Ok(state.broadcast_message(&frame, &main_room, user_id))
        },
        Err(e) => Err(e),
    }
}

/// The state of one live connection.
#[derive(Debug, PartialEq, Eq)]
pub struct WsActor {
    pub ws_id: String,
    pub user_id: String,
    /// Cached display name; updated only by this connection's own renames.
    pub username: String,
    pub current_room: String,
    pub rooms: Vec<String>,
}

/// The user a client frame claims to come from; `None` for the frames a
/// client has no business sending, which are ignored.
pub open spec fn claimed_sender(msg: UserMessage) -> Option<Seq<char>> {
    match msg {
        UserMessage::Basic(m) => Some(m.sender_id@),
        UserMessage::UsernameChange(m) => Some(m.sender_id@),
        UserMessage::CreateRoomChange(m) => Some(m.sender_id@),
        UserMessage::ChangeRoom(m) => Some(m.sender_id@),
        UserMessage::UserRemoval(m) => Some(m.sender_id@),
        _ => None,
    }
}

/// How the stored form of a `Basic` frame `b` from connection `a` reads.
pub open spec fn stored_form(b: BasicMessage, a: WsActor, message_id: String, now: u64) -> BasicMessage {
    BasicMessage {
        content: b.content,
        sender_id: b.sender_id,
        timestamp: now,
        message_id,
        room_id: a.current_room,
        ws_id: a.ws_id,
    }
}

/// What handling `msg` on connection `a` (which becomes `a2`) does to the
/// server state `s` (which becomes `s2`), given a fresh id and the time, and
/// what it delivers: `d`.
pub open spec fn frame_effect(
    a: WsActor,
    a2: WsActor,
    s: AppState,
    s2: AppState,
    msg: UserMessage,
    fresh: String,
    now: u64,
    d: Seq<Delivery>,
) -> bool {
    if claimed_sender(msg) != Some(a.user_id@) {
        // ignored, or a forged sender
        d.len() == 0 && kept(s, s2) && a2 == a
    } else {
        match msg {
            UserMessage::Basic(b) => {
                let m = stored_form(b, a, fresh, now);
                &&& a2 == a
                &&& s2.actor_registry@ == s.actor_registry@
                &&& s2.main_room_id == s.main_room_id
                &&& s2.store.users@ == s.store.users@
                &&& s2.store.rooms@ == s.store.rooms@
                &&& if has_room(s.store.rooms@, m.room_id@) && has_user(s.store.users@, m.sender_id@) && !id_taken(
                    s.store.messages@,
                    fresh@,
                ) {
                    &&& inserted_in_order(s.store.messages@, s2.store.messages@, m)
                    &&& delivered_to(d) == s2.broadcast_targets(a.current_room@, a.user_id@)
                    &&& all_carry(d, UserMessage::Basic(m))
                } else {
                    d.len() == 0 && s2.store.messages@ == s.store.messages@
                }
            },
            UserMessage::UsernameChange(c) => {
                if !name_taken(s.store.users@, c.new_username@) && has_user(s.store.users@, a.user_id@) {
                    &&& a2 == WsActor { username: c.new_username, ..a }
                    &&& s2.store.users@ == renamed(s.store.users@, a.user_id@, c.new_username)
                    &&& s2.store.rooms@ == s.store.rooms@
                    &&& s2.store.messages@ == s.store.messages@
                    &&& s2.actor_registry@ == s.actor_registry@
                    &&& s2.main_room_id == s.main_room_id
                    &&& delivered_to(d) == s2.broadcast_targets(s2.main_room_id@, a.user_id@)
                    &&& all_carry(d, rename_frame(a.user_id, c.new_username))
                } else {
                    d.len() == 0 && kept(s, s2) && a2 == a
                }
            },
            UserMessage::CreateRoomChange(c) => {
                &&& d.len() == 0
                &&& s2.store.users@ == s.store.users@
                &&& s2.store.messages@ == s.store.messages@
                &&& s2.actor_registry@ == s.actor_registry@
                &&& s2.main_room_id == s.main_room_id
                &&& if !has_room(s.store.rooms@, fresh@) {
                    let room = s2.store.rooms@.last();
                    &&& s2.store.rooms@ == s.store.rooms@.push(room)
                    &&& room.name == c.room_name
                    &&& room.room_id == fresh
                    &&& strs(room.users@) == seq![a.user_id@]
                    &&& a2.rooms@ == a.rooms@.push(fresh)
                    &&& a2.ws_id == a.ws_id && a2.user_id == a.user_id && a2.username == a.username
                    &&& a2.current_room == a.current_room
                } else {
                    s2.store.rooms@ == s.store.rooms@ && a2 == a
                }
            },
            UserMessage::ChangeRoom(c) => {
                &&& a2 == a
                &&& kept(s, s2)
                &&& replays(d, a.ws_id@, s.store.messages@.filter(in_room(c.room_id@)))
            },
            UserMessage::UserRemoval(c) => {
                &&& a2 == a
                &&& d.len() == 0
                &&& s2.store.users@ == s.store.users@
                &&& s2.store.messages@ == s.store.messages@
                &&& s2.actor_registry@ == s.actor_registry@
                &&& s2.main_room_id == s.main_room_id
                &&& if has_room(s.store.rooms@, c.room_id@) {
                    exists|i: int|
                        0 <= i < s.store.rooms@.len() && #[trigger] s.store.rooms@[i].room_id@ == c.room_id@
                            && s2.store.rooms@ == s.store.rooms@.update(i, s2.store.rooms@[i])
                            && s2.store.rooms@[i].name == s.store.rooms@[i].name
                            && s2.store.rooms@[i].room_id == s.store.rooms@[i].room_id
                            && members(s2.store.rooms@[i]) == members(s.store.rooms@[i]).remove(c.removed_user@)
                } else {
                    s2.store.rooms@ == s.store.rooms@
                }
            },
            _ => d.len() == 0 && kept(s, s2) && a2 == a,
        }
    }
}

impl WsActor {
    /// Registers the connection, greets it with an `Initialization` frame,
    /// replays the history of its room and marks its user online.
    pub fn started(&self, state: &mut AppState) -> (r: Vec<Delivery>)
        requires
            old(state).wf(),
        ensures
            final(state).wf(),
            final(state).actor_registry@ == old(state).actor_registry@.filter(other_ws(self.ws_id@)).push(
                (self.user_id@, self.ws_id@),
            ),
            final(state).store.users@ == with_status(old(state).store.users@, self.user_id@, ConnectionState::Online),
            final(state).store.rooms@ == old(state).store.rooms@,
            final(state).store.messages@ == old(state).store.messages@,
            final(state).main_room_id == old(state).main_room_id,
            r@.len() >= 1,
            is_init_for(r@[0], self.user_id, self.ws_id, self.username, room_roster(old(state).store.users@, self.current_room@)),
            replays(r@.skip(1), self.ws_id@, old(state).store.messages@.filter(in_room(self.current_room@))),
    {
        state.actor_registry.attach(self.user_id.clone(), self.ws_id.clone());
        let info = UserInfo::new(self.user_id.clone(), self.ws_id.clone(), self.username.clone());
        let init = get_users(&state.store, &self.current_room, info);
        let mut history = get_messages(state, &self.ws_id, &self.current_room);
        change_to_online(&mut state.store, &self.user_id);
        let mut r: Vec<Delivery> = Vec::new();
        r.push(init);
        let ghost replayed = history@;
        r.append(&mut history);
        assert(r@.skip(1) =~= replayed);
        r
    }

    /// Unregisters the connection and marks its user offline.
    pub fn stopped(&self, state: &mut AppState)
        requires
            old(state).wf(),
        ensures
            final(state).wf(),
            final(state).actor_registry@ == old(state).actor_registry@.filter(
                not_matching(Some(self.user_id@), self.ws_id@),
            ),
            !final(state).actor_registry@.contains((self.user_id@, self.ws_id@)),
            final(state).store.users@ == with_status(old(state).store.users@, self.user_id@, ConnectionState::Offline),
            final(state).store.rooms@ == old(state).store.rooms@,
            final(state).store.messages@ == old(state).store.messages@,
            final(state).main_room_id == old(state).main_room_id,
    {
        state.actor_registry.detach(&self.user_id, &self.ws_id);
        change_to_offline(&mut state.store, &self.user_id);
    }

    /// Handles one inbound frame, given a fresh id for whatever it creates and
    /// the time in seconds.
    pub fn handle_with(&mut self, state: &mut AppState, msg: UserMessage, fresh: String, now: u64) -> (r: Vec<Delivery>)
        requires
            old(state).wf(),
        ensures
            final(state).wf(),
            frame_effect(*old(self), *final(self), *old(state), *final(state), msg, fresh, now, r@),
    {
        match msg {
            UserMessage::Basic(b) => {
                if !(b.sender_id == self.user_id) {
                    return Vec::new();
                }
                let m = BasicMessage {
                    content: b.content,
                    sender_id: b.sender_id,
                    timestamp: now,
                    message_id: fresh,
                    room_id: self.current_room.clone(),
                    ws_id: self.ws_id.clone(),
                };
                let frame = UserMessage::Basic(m.clone());
                match state.store.append_message(m) {
                    Ok(()) => state.broadcast_message(&frame, &self.current_room, &self.user_id),
                    Err(_) => Vec::new(),
                }
            },
            UserMessage::UsernameChange(c) => {
                if !(c.sender_id == self.user_id) {
                    return Vec::new();
                }
                let new_username = c.new_username.clone();
                match check_and_update_username(&self.user_id, c.new_username, state) {
                    Ok(d) => {
                        self.username = new_username;
                        d
                    },
                    Err(_) => Vec::new(),
                }
            },
            UserMessage::CreateRoomChange(c) => {
                if !(c.sender_id == self.user_id) {
                    return Vec::new();
                }
                let mut users: Vec<String> = Vec::new();
                users.push(self.user_id.clone());
                let room_id = fresh.clone();
                let room = Room { name: c.room_name, room_id: fresh, users };
                assert(strs(room.users@) =~= seq![self.user_id@]);
                if state.store.create_room(room).is_ok() {
                    self.rooms.push(room_id);
                }
                Vec::new()
            },
            UserMessage::ChangeRoom(c) => {
                if !(c.sender_id == self.user_id) {
                    return Vec::new();
                }
                get_messages(state, &self.ws_id, &c.room_id)
            },
            UserMessage::UserRemoval(c) => {
                if !(c.sender_id == self.user_id) {
                    return Vec::new();
                }
                let _ = state.store.remove_member(&c.room_id, &c.removed_user);
                Vec::new()
            },
            _ => Vec::new(),
        }
    }

    /// Handles one inbound frame, minting a fresh id and reading the clock.
    pub fn handle(&mut self, state: &mut AppState, msg: UserMessage) -> (r: Vec<Delivery>)
        requires
            old(state).wf(),
        ensures
            final(state).wf(),
            exists|fresh: String, now: u64|
                is_hex_id(fresh@) && frame_effect(*old(self), *final(self), *old(state), *final(state), msg, fresh, now, r@),
    {
        let fresh = fresh_id();
        let t = now_seconds();
        let now: u64 = if t < 0 { 0 } else { t as u64 };
        let ghost f = fresh;
        let r = self.handle_with(state, msg, fresh, now);
        assert(is_hex_id(f@) && frame_effect(*old(self), *self, *old(state), *state, msg, f, now, r@));
        r
    }

    /// Deletes the stored message whose id is `message_id`; tells whether
    /// there was one.
    pub fn delete_message(&self, state: &mut AppState, message_id: &String) -> (r: bool)
        requires
            old(state).wf(),
        ensures
            final(state).wf(),
            r == id_taken(old(state).store.messages@, message_id@),
            r ==> exists|k: int|
                0 <= k < old(state).store.messages@.len() && #[trigger] old(state).store.messages@[k].message_id@
                    == message_id@ && final(state).store.messages@ == old(state).store.messages@.remove(k),
            !r ==> final(state).store.messages@ == old(state).store.messages@,
            !id_taken(final(state).store.messages@, message_id@),
            final(state).store.users@ == old(state).store.users@,
            final(state).store.rooms@ == old(state).store.rooms@,
            final(state).actor_registry@ == old(state).actor_registry@,
            final(state).main_room_id == old(state).main_room_id,
    {
        state.store.delete_message(message_id)
    }
}

/// What opening a connection comes to.
#[derive(Debug)]
pub enum WsStart {
    /// The session to run on the upgraded connection.
    Start(WsActor),
    /// No session cookie: back to the login page.
    RedirectToLogin,
    /// The cookie names a user that does not exist: purge it, then back to the
    /// login page.
    PurgeAndRedirect,
}

/// Decides what to do with a connection whose session cookie names
/// `session_user`, minting `ws_id` for it.
pub fn open_session(state: &AppState, session_user: Option<String>, ws_id: String) -> (r: WsStart)
    requires
        state.wf(),
    ensures
        session_user is None ==> r is RedirectToLogin,
        session_user matches Some(u) ==> {
            if has_user(state.store.users@, u@) {
                r matches WsStart::Start(a) && exists|i: int|
                    0 <= i < state.store.users@.len() && #[trigger] state.store.users@[i].user_id@ == u@
                        && a.user_id == u && a.ws_id == ws_id && a.username == state.store.users@[i].username
                        && a.current_room == state.main_room_id && a.rooms@ == state.store.users@[i].rooms@
            } else {
                r is PurgeAndRedirect
            }
        },
{
    match session_user {
        None => WsStart::RedirectToLogin,
        Some(user_id) => match state.store.find_user_by_id(&user_id) {
            Some(user) => WsStart::Start(
                WsActor {
                    ws_id,
                    user_id,
                    username: user.username,
                    current_room: state.main_room_id.clone(),
                    rooms: user.rooms,
                },
            ),
            None => WsStart::PurgeAndRedirect,
        },
    }
}

/// Decides what to do with a connection whose session cookie names
/// `session_user`, minting a fresh connection id.
pub fn ws_index(state: &AppState, session_user: Option<String>) -> (r: WsStart)
    requires
        state.wf(),
    ensures
        session_user is None ==> r is RedirectToLogin,
        session_user matches Some(u) ==> {
            if has_user(state.store.users@, u@) {
                r matches WsStart::Start(a) && is_hex_id(a.ws_id@) && exists|i: int|
                    0 <= i < state.store.users@.len() && #[trigger] state.store.users@[i].user_id@ == u@
                        && a.user_id == u && a.username == state.store.users@[i].username
                        && a.current_room == state.main_room_id && a.rooms@ == state.store.users@[i].rooms@
            } else {
                r is PurgeAndRedirect
            }
        },
{
    let ws_id = fresh_id();
    open_session(state, session_user, ws_id)
}

} // verus!
