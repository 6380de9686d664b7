use vstd::prelude::*;

use crate::message_structs::{BasicMessage, NewUserMessage, UserMessage};
use crate::registry::{ActorRegistry, ws_ids_of};
use crate::services::{email_accepted, fresh_id, hash_password, is_hex_id, is_valid_email, password_accepted, password_matches};
use crate::store::{Store, StoreError, contains_str, has_room, has_user, in_room, login_taken, members, name_taken, strs};
use crate::structs::{ConnectionState, LoginForm, UserData};
use crate::websocket::{Delivery, add_user_to_room, kept};

verus! {

/// Holds of the pairs whose user is in `ms`.
pub open spec fn member_of(ms: Set<Seq<char>>) -> spec_fn((Seq<char>, Seq<char>)) -> bool {
    |p: (Seq<char>, Seq<char>)| ms.contains(p.0)
}

/// The connections a broadcast from `sender` to a room with members `ms`
/// reaches, in registry order: every connection of every member, provided the
/// sender is a member; none otherwise.
pub open spec fn fanout(reg: Seq<(Seq<char>, Seq<char>)>, ms: Set<Seq<char>>, sender: Seq<char>) -> Seq<Seq<char>> {
    if ms.contains(sender) {
        ws_ids_of(reg.filter(member_of(ms)))
    } else {
        Seq::empty()
    }
}

/// The connections that `d` addresses, in order.
pub open spec fn delivered_to(d: Seq<Delivery>) -> Seq<Seq<char>> {
    d.map_values(|x: Delivery| x.ws_id@)
}

/// Every delivery of `d` carries `msg`.
pub open spec fn all_carry(d: Seq<Delivery>, msg: UserMessage) -> bool {
    forall|k: int| 0 <= k < d.len() ==> (#[trigger] d[k]).message.same_as(msg)
}

/// A broadcast from `sender` to a room with members `ms` reaches connection
/// `ws` exactly when the sender and the connection's user are both members.
pub proof fn lemma_broadcast_reaches_members(
    reg: Seq<(Seq<char>, Seq<char>)>,
    ms: Set<Seq<char>>,
    sender: Seq<char>,
    ws: Seq<char>,
)
    ensures
        fanout(reg, ms, sender).contains(ws) <==> ms.contains(sender) && exists|u: Seq<char>|
            ms.contains(u) && #[trigger] reg.contains((u, ws)),
{
    broadcast use vstd::seq_lib::group_filter_ensures;
    let f = reg.filter(member_of(ms));
    if fanout(reg, ms, sender).contains(ws) {
        let k = choose|k: int| 0 <= k < ws_ids_of(f).len() && ws_ids_of(f)[k] == ws;
        reg.lemma_filter_pred(member_of(ms), k);
        assert(f.contains(f[k]));
        reg.lemma_filter_contains_rev(member_of(ms), f[k]);
        assert(reg.contains((f[k].0, ws)));
    }
    if ms.contains(sender) && exists|u: Seq<char>| ms.contains(u) && #[trigger] reg.contains((u, ws)) {
        let u = choose|u: Seq<char>| ms.contains(u) && #[trigger] reg.contains((u, ws));
        let j = choose|j: int| 0 <= j < reg.len() && reg[j] == (u, ws);
        reg.lemma_filter_contains(member_of(ms), j);
        let k = choose|k: int| 0 <= k < f.len() && f[k] == (u, ws);
        assert(ws_ids_of(f)[k] == ws);
    }
}

/// A user with no live connection is reached by no broadcast: every
/// connection a broadcast reaches belongs to some other member.
pub proof fn lemma_no_connection_no_delivery(
    reg: Seq<(Seq<char>, Seq<char>)>,
    ms: Set<Seq<char>>,
    sender: Seq<char>,
    user: Seq<char>,
)
    requires
        forall|ws: Seq<char>| !reg.contains((user, ws)),
    ensures
        forall|ws: Seq<char>|
            #[trigger] fanout(reg, ms, sender).contains(ws) ==> exists|u: Seq<char>|
                u != user && ms.contains(u) && #[trigger] reg.contains((u, ws)),
{
    assert forall|ws: Seq<char>| #[trigger] fanout(reg, ms, sender).contains(ws) implies exists|u: Seq<char>|
        u != user && ms.contains(u) && #[trigger] reg.contains((u, ws)) by {
        lemma_broadcast_reaches_members(reg, ms, sender, ws);
        let u = choose|u: Seq<char>| ms.contains(u) && #[trigger] reg.contains((u, ws));
        assert(u != user);
    }
}

/// A room without members reaches no connection.
pub proof fn lemma_empty_room_delivers_nothing(reg: Seq<(Seq<char>, Seq<char>)>, sender: Seq<char>)
    ensures
        fanout(reg, Set::empty(), sender).len() == 0,
{
}

/// Why a signup was refused.
#[derive(Debug, Clone, Copy, PartialEq, Eq, Structural)]
pub enum SignupError {
    /// The login is taken, is not an e-mail address, or the password is empty.
    InvalidCredentials,
    /// The password could not be hashed.
    Hashing,
    /// The store refused to create the user or to add them to the main room.
    Store(StoreError),
}

/// Whether a signup with `login` is acceptable to a store holding `users`,
/// given the e-mail validator's verdict on the login.
pub open spec fn credentials_ok(users: Seq<UserData>, login: LoginForm, email_ok: bool) -> bool {
    !login_taken(users, login.username@) && email_ok && login.password@.len() >= 1
}

/// What a signup of `login` as `user_id` with display name `username` and
/// password hash `hash` does to the state `s` (which becomes `s2`), and what
/// it returns: `r`.
pub open spec fn signup_effect(
    s: AppState,
    s2: AppState,
    login: LoginForm,
    user_id: String,
    username: String,
    hash: String,
    r: Result<Seq<Delivery>, SignupError>,
) -> bool {
    if !credentials_ok(s.store.users@, login, email_accepted(login.username@)) {
        r == Err::<Seq<Delivery>, SignupError>(SignupError::InvalidCredentials) && kept(s, s2)
    } else if !has_room(s.store.rooms@, s.main_room_id@) {
        r == Err::<Seq<Delivery>, SignupError>(SignupError::Store(StoreError::NotFound)) && kept(s, s2)
    } else if has_user(s.store.users@, user_id@) || name_taken(s.store.users@, username@) {
        r == Err::<Seq<Delivery>, SignupError>(SignupError::Store(StoreError::Conflict)) && kept(s, s2)
    } else {
        let u = s2.store.users@.last();
        &&& s2.store.users@ == s.store.users@.push(u)
        &&& u.user_id == user_id && u.login_username == login.username && u.username == username
        &&& u.hashed_password == hash && u.status == ConnectionState::Online
        &&& strs(u.rooms@) == seq![s.main_room_id@]
        &&& s2.store.messages@ == s.store.messages@
        &&& s2.actor_registry@ == s.actor_registry@
        &&& s2.main_room_id == s.main_room_id
        &&& exists|i: int|
            0 <= i < s.store.rooms@.len() && #[trigger] s.store.rooms@[i].room_id@ == s.main_room_id@
                && s2.store.rooms@ == s.store.rooms@.update(i, s2.store.rooms@[i])
                && s2.store.rooms@[i].name == s.store.rooms@[i].name
                && s2.store.rooms@[i].room_id == s.store.rooms@[i].room_id
                && members(s2.store.rooms@[i]) == members(s.store.rooms@[i]).insert(user_id@)
        &&& r matches Ok(d) && delivered_to(d) == s2.broadcast_targets(s.main_room_id@, user_id@)
            && all_carry(d, UserMessage::NewUser(NewUserMessage { user_id, username }))
    }
}

pub open spec fn deliveries_view(r: Result<Vec<Delivery>, SignupError>) -> Result<Seq<Delivery>, SignupError> {
    match r {
        Ok(d) => Ok(d@),
        Err(e) => Err(e),
    }
}

/// Shared server state: the store, the registry of live connections and the
/// id of the room every user joins on signup.
pub struct AppState {
    pub store: Store,
    pub actor_registry: ActorRegistry,
    pub main_room_id: String,
}

impl AppState {
    pub open spec fn wf(&self) -> bool {
        &&& self.store.wf()
        &&& self.actor_registry.wf()
    }

    /// The members of room `room`, which exists.
    pub open spec fn room_members(&self, room: Seq<char>) -> Set<Seq<char>> {
        let i = choose|i: int| 0 <= i < self.store.rooms@.len() && #[trigger] self.store.rooms@[i].room_id@ == room;
        members(self.store.rooms@[i])
    }

    /// The connections reached by a broadcast from `sender` to `room`; none
    /// where the room does not exist.
    pub open spec fn broadcast_targets(&self, room: Seq<char>, sender: Seq<char>) -> Seq<Seq<char>> {
        if has_room(self.store.rooms@, room) {
            fanout(self.actor_registry@, self.room_members(room), sender)
        } else {
            Seq::empty()
        }
    }

    /// A server whose store holds only the main room `main_room_id`, named
    /// `name`, with no members, and with no live connection.
    pub fn new(main_room_id: String, name: String) -> (r: Self)
        ensures
            r.wf(),
            r.main_room_id == main_room_id,
            r.store.users@.len() == 0,
            r.store.messages@.len() == 0,
            r.store.rooms@.len() == 1,
            r.store.rooms@[0].room_id == main_room_id,
            r.store.rooms@[0].name == name,
            r.store.rooms@[0].users@.len() == 0,
            r.actor_registry@.len() == 0,
    {
        let mut store = Store::new();
        let room = crate::structs::Room { name, room_id: main_room_id.clone(), users: Vec::new() };
        assert(strs(room.users@).no_duplicates());
        let _ = store.create_room(room);
        AppState { store, actor_registry: ActorRegistry::new(), main_room_id }
    }

    /// Whether a signup with `signup_data` is acceptable, given the e-mail
    /// validator's verdict `email_ok` on its login.
    pub fn credentials_acceptable(&self, signup_data: &LoginForm, email_ok: bool) -> (r: bool)
        requires
            self.wf(),
        ensures
            r == credentials_ok(self.store.users@, *signup_data, email_ok),
    {
        self.store.find_user_by_login(&signup_data.username).is_none() && email_ok
            && !signup_data.password.as_str().is_empty()
    }

    /// Whether a signup with `signup_data` is acceptable: its login is free
    /// and an e-mail address, and its password is not empty.
    pub fn valid_user_credentials(&self, signup_data: &LoginForm) -> (r: bool)
        requires
            self.wf(),
        ensures
            r == credentials_ok(self.store.users@, *signup_data, email_accepted(signup_data.username@)),
    {
        let email_ok = is_valid_email(&signup_data.username);
        self.credentials_acceptable(signup_data, email_ok)
    }

    /// The id of the user whose login and password are `login_data`.
    pub fn authenticate_user(&self, login_data: &LoginForm) -> (r: Option<String>)
        requires
            self.wf(),
        ensures
            r matches Some(id) ==> exists|i: int|
                0 <= i < self.store.users@.len() && #[trigger] self.store.users@[i].login_username@
                    == login_data.username@ && id == self.store.users@[i].user_id && password_accepted(
                    login_data.password@,
                    self.store.users@[i].hashed_password@,
                ),
            r is None ==> forall|i: int|
                0 <= i < self.store.users@.len() && #[trigger] self.store.users@[i].login_username@
                    == login_data.username@ ==> !password_accepted(
                    login_data.password@,
                    self.store.users@[i].hashed_password@,
                ),
    {
        match self.store.find_user_by_login(&login_data.username) {
            Some(user) => {
                if password_matches(&login_data.password, &user.hashed_password) {
                    Some(user.user_id)
                } else {
                    None
                }
            },
            None => None,
        }
    }

    /// Signs `login` up as `user_id` with display name `username` and
    /// password hash `hashed_password`: creates the user, adds them to the
    /// main room and announces them there.
    pub fn sign_up(&mut self, login: &LoginForm, user_id: String, username: String, hashed_password: String) -> (r: Result<
        Vec<Delivery>,
        SignupError,
    >)
        requires
            old(self).wf(),
        ensures
            final(self).wf(),
            signup_effect(*old(self), *final(self), *login, user_id, username, hashed_password, deliveries_view(r)),
    {
        if !self.valid_user_credentials(login) {
            return Err(SignupError::InvalidCredentials);
        }
        let main_room = self.main_room_id.clone();
        if self.store.get_room(&main_room).is_none() {
            return Err(SignupError::Store(StoreError::NotFound));
        }
        let mut rooms: Vec<String> = Vec::new();
        rooms.push(self.main_room_id.clone());
        let user = UserData {
            user_id: user_id.clone(),
            login_username: login.username.clone(),
            username: username.clone(),
            hashed_password,
            status: ConnectionState::Online,
            rooms,
        };
        assert(strs(user.rooms@) =~= seq![self.main_room_id@]);
        if self.store.create_user(user).is_err() {
            return Err(SignupError::Store(StoreError::Conflict));
        }
        let added = add_user_to_room(&user_id, &main_room, &mut self.store);
        assert(added is Ok);
        let frame = UserMessage::NewUser(NewUserMessage::new(user_id.clone(), username));
        Ok(self.broadcast_message(&frame, &main_room, &user_id))
    }

    /// Signs `login` up under a fresh user id, with display name
    /// `generated_name`; returns the new user's id and the announcement.
    pub fn create_login_action(&mut self, login: &LoginForm, generated_name: String) -> (r: Result<
        (String, Vec<Delivery>),
        SignupError,
    >)
        requires
            old(self).wf(),
        ensures
            final(self).wf(),
            !credentials_ok(old(self).store.users@, *login, email_accepted(login.username@)) ==> r == Err::<
                (String, Vec<Delivery>),
                SignupError,
            >(SignupError::InvalidCredentials) && kept(*old(self), *final(self)),
            r is Ok ==> is_hex_id(r->Ok_0.0@) && exists|hash: String|
                password_accepted(login.password@, hash@) && signup_effect(
                    *old(self),
                    *final(self),
                    *login,
                    r->Ok_0.0,
                    generated_name,
                    hash,
                    Ok(r->Ok_0.1@),
                ),
            r is Ok ==> password_accepted(login.password@, final(self).store.users@.last().hashed_password@),
            r == Err::<(String, Vec<Delivery>), SignupError>(SignupError::Hashing) ==> kept(*old(self), *final(self)),
            r is Err && r->Err_0 != SignupError::Hashing ==> exists|id: String, hash: String|
                signup_effect(*old(self), *final(self), *login, id, generated_name, hash, Err(r->Err_0)),
    {
        if !self.valid_user_credentials(login) {
            assert(signup_effect(*old(self), *self, *login, login.username, generated_name, login.password, Err(SignupError::InvalidCredentials)));
            return Err(SignupError::InvalidCredentials);
        }
        let hashed = match hash_password(&login.password) {
            Some(h) => h,
            None => { return Err(SignupError::Hashing); },
        };
        let user_id = fresh_id();
        let ghost h = hashed;
        let ghost id = user_id;
        match self.sign_up(login, user_id.clone(), generated_name, hashed) {
            Ok(d) => {
                let ghost dv = d@;
                let out = (user_id, d);
                assert(out.1@ == dv);
                assert(signup_effect(*old(self), *self, *login, out.0, generated_name, h, Ok(out.1@)));
                Ok(out)
            },
            Err(e) => {
                assert(signup_effect(*old(self), *self, *login, id, generated_name, h, Err(e)));
                Err(e)
            },
        }
    }

    /// The stored messages of `room_id`, oldest first, as `Basic` frames.
    pub fn catch_up(&self, room_id: &String) -> (r: Vec<UserMessage>)
        requires
            self.wf(),
        ensures
            r@ == self.store.messages@.filter(in_room(room_id@)).map_values(|m: BasicMessage| UserMessage::Basic(m)),
    {
        let hist = self.store.history(room_id);
        let mut r: Vec<UserMessage> = Vec::new();
        let mut i: usize = 0;
        while i < hist.len()
            invariant
                i <= hist@.len(),
                r@ == hist@.take(i as int).map_values(|m: BasicMessage| UserMessage::Basic(m)),
            decreases hist@.len() - i,
        {
            r.push(UserMessage::Basic(hist[i].clone()));
            i = i + 1;
            assert(r@ =~= hist@.take(i as int).map_values(|m: BasicMessage| UserMessage::Basic(m)));
        }
        assert(hist@.take(hist@.len() as int) =~= hist@);
        r
    }

    /// Fans `message` out to every live connection of every member of
    /// `room_id`, provided `user_id` is a member.
    pub fn broadcast_message(&self, message: &UserMessage, room_id: &String, user_id: &String) -> (r: Vec<Delivery>)
        requires
            self.wf(),
        ensures
            delivered_to(r@) == self.broadcast_targets(room_id@, user_id@),
            all_carry(r@, *message),
    {
        let mut r: Vec<Delivery> = Vec::new();
        let users = match self.store.members_of(room_id) {
            Some(v) => v,
            None => {
                assert(delivered_to(r@) =~= Seq::<Seq<char>>::empty());
                return r;
            },
        };
        let ghost ms = self.room_members(room_id@);
        proof {
            let i = choose|i: int|
                0 <= i < self.store.rooms@.len() && self.store.rooms@[i].room_id@ == room_id@
                    && users@ == (#[trigger] self.store.rooms@[i]).users@;
            let j = choose|j: int| 0 <= j < self.store.rooms@.len() && #[trigger] self.store.rooms@[j].room_id@ == room_id@;
            assert(self.store.rooms@[i].room_id@ == self.store.rooms@[j].room_id@);
            assert(ms == members(self.store.rooms@[i]));
        }
        if !contains_str(&users, user_id) {
            assert(delivered_to(r@) =~= Seq::<Seq<char>>::empty());
            return r;
        }
        let ghost sel = member_of(ms);
        let ghost reg = self.actor_registry@;
        let mut i: usize = 0;
        while i < self.actor_registry.entries.len()
            invariant
                i <= reg.len(),
                reg == self.actor_registry@,
                sel == member_of(ms),
                ms == crate::store::strs(users@).to_set(),
                delivered_to(r@) == ws_ids_of(reg.take(i as int).filter(sel)),
                all_carry(r@, *message),
            decreases reg.len() - i,
        {
            let h = &self.actor_registry.entries[i];
            proof {
                assert(reg[i as int] == h.pair());
                assert(reg.take(i + 1) =~= reg.take(i as int).push(reg[i as int]));
                reg.take(i as int).lemma_filter_push(reg[i as int], sel);
            }
            if contains_str(&users, &h.user_id) {
                let ghost before = r@;
                r.push(Delivery { ws_id: h.ws_id.clone(), message: message.clone() });
                assert(delivered_to(r@) =~= delivered_to(before).push(h.ws_id@));
                assert(ws_ids_of(reg.take(i + 1).filter(sel)) =~= ws_ids_of(reg.take(i as int).filter(sel)).push(
                    h.ws_id@,
                ));
                assert forall|k: int| 0 <= k < r@.len() implies (#[trigger] r@[k]).message.same_as(*message) by {
                    if k < before.len() {
                        assert(r@[k] == before[k]);
                    }
                }
            }
            i = i + 1;
        }
        assert(reg.take(reg.len() as int) =~= reg);
        r
    }
}

} // verus!
