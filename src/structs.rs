use vstd::prelude::*;

verus! {

/// Presence marker of a user; advisory only.
#[derive(Debug, Clone, Copy, PartialEq, Eq, Structural)]
pub enum ConnectionState {
    Online,
    Offline,
}

impl ConnectionState {
    pub open spec fn label_spec(self) -> Seq<char> {
        match self {
            ConnectionState::Online => "Online"@,
            ConnectionState::Offline => "Offline"@,
        }
    }

    /// The state's name, as written in the `status` column.
    pub fn label(&self) -> (r: String)
        ensures
            r@ == self.label_spec(),
    {
        match self {
            ConnectionState::Online => "Online".to_string(),
            ConnectionState::Offline => "Offline".to_string(),
        }
    }
}

/// A stored user row.
#[derive(Debug, PartialEq, Eq)]
pub struct UserData {
    pub user_id: String,
    pub login_username: String,
    pub username: String,
    pub hashed_password: String,
    pub status: ConnectionState,
    pub rooms: Vec<String>,
}

impl UserData {
    /// Equal field by field, the room list compared by content.
    pub open spec fn same_as(self, other: UserData) -> bool {
        &&& self.user_id == other.user_id
        &&& self.login_username == other.login_username
        &&& self.username == other.username
        &&& self.hashed_password == other.hashed_password
        &&& self.status == other.status
        &&& self.rooms@ == other.rooms@
    }
}

pub fn clone_strings(v: &Vec<String>) -> (r: Vec<String>)
    ensures
        r@ == v@,
{
    let mut r: Vec<String> = Vec::new();
    let mut i: usize = 0;
    while i < v.len()
        invariant
            i <= v@.len(),
            r@ == v@.subrange(0, i as int),
        decreases v@.len() - i,
    {
        r.push(v[i].clone());
        i = i + 1;
        assert(r@ =~= v@.subrange(0, i as int));
    }
    assert(r@ =~= v@);
    r
}

impl Clone for UserData {
    fn clone(&self) -> (r: Self)
        ensures
            r.same_as(*self),
    {
        UserData {
            user_id: self.user_id.clone(),
            login_username: self.login_username.clone(),
            username: self.username.clone(),
            hashed_password: self.hashed_password.clone(),
            status: self.status,
            rooms: clone_strings(&self.rooms),
        }
    }
}

/// A message record of the legacy, flat message layout.
#[derive(Debug, PartialEq, Eq)]
pub struct UserMessage {
    pub unique_id: String,
    pub content: String,
    pub sender_id: String,
    pub room_id: String,
    pub timestamp: u64,
    pub message_type: MessageTypes,
}

#[derive(Debug, PartialEq, Eq)]
pub struct UsernameChangedMessage {
    pub old_username: String,
    pub new_username: String,
}

#[derive(Debug, PartialEq, Eq)]
pub struct IncomingMessage {
    pub content: String,
    pub username: String,
    pub message_type: MessageTypes,
}

#[derive(Debug, Clone, Copy, PartialEq, Eq, Structural)]
pub enum MessageTypes {
    SetUsername,
    AddToRoom,
    CreateRoom,
    ChangeRoom,
    RemoveFromRoom,
    Basic,
}

/// A stored room: `users` is its member set, held without duplicates.
#[derive(Debug, PartialEq, Eq)]
pub struct Room {
    pub name: String,
    pub room_id: String,
    pub users: Vec<String>,
}

impl Room {
    /// Equal field by field, the member list compared by content.
    pub open spec fn same_as(self, other: Room) -> bool {
        &&& self.name == other.name
        &&& self.room_id == other.room_id
        &&& self.users@ == other.users@
    }
}

impl Clone for Room {
    fn clone(&self) -> (r: Self)
        ensures
            r.same_as(*self),
    {
        Room {
            name: self.name.clone(),
            room_id: self.room_id.clone(),
            users: clone_strings(&self.users),
        }
    }
}

/// Credentials as submitted by the login and signup forms.
#[derive(Debug, PartialEq, Eq)]
pub struct LoginForm {
    pub username: String,
    pub password: String,
}

/// A `(user_id, display_username)` pair.
#[derive(Debug, PartialEq, Eq)]
pub struct User {
    pub user_id: String,
    pub username: String,
}

impl Clone for User {
    fn clone(&self) -> (r: Self)
        ensures
            r == *self,
    {
        User { user_id: self.user_id.clone(), username: self.username.clone() }
    }
}

} // verus!
