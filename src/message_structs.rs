use vstd::prelude::*;

use crate::structs::User;

verus! {

/// First frame sent to a freshly opened connection.
#[derive(Debug, PartialEq, Eq)]
pub struct InitMessage {
    pub user_id: String,
    pub ws_id: String,
    pub username: String,
    /// `(user_id, display_username)` of every user of the connection's room;
    /// a map from user id to display name, so no user id occurs twice.
    pub user_map: Vec<User>,
}

impl InitMessage {
    /// The user map holds each user id once at most.
    pub open spec fn wf(self) -> bool {
        crate::store::user_ids_unique(self.user_map@)
    }

    pub fn new(user_id: String, ws_id: String, username: String, user_map: Vec<User>) -> (r: Self)
        ensures
            r.user_id == user_id,
            r.ws_id == ws_id,
            r.username == username,
            r.user_map == user_map,
    {
        InitMessage { user_id, ws_id, username, user_map }
    }
}

impl InitMessage {
    /// Equal field by field, the user map compared by content.
    pub open spec fn same_as(self, other: InitMessage) -> bool {
        &&& self.user_id == other.user_id
        &&& self.ws_id == other.ws_id
        &&& self.username == other.username
        &&& self.user_map@ == other.user_map@
    }
}

impl Clone for InitMessage {
    fn clone(&self) -> (r: Self)
        ensures
            r.same_as(*self),
    {
        let mut user_map: Vec<User> = Vec::new();
        let mut i: usize = 0;
        while i < self.user_map.len()
            invariant
                i <= self.user_map@.len(),
                user_map@ == self.user_map@.subrange(0, i as int),
            decreases self.user_map@.len() - i,
        {
            user_map.push(self.user_map[i].clone());
            i = i + 1;
            assert(user_map@ =~= self.user_map@.subrange(0, i as int));
        }
        assert(user_map@ =~= self.user_map@);
        InitMessage {
            user_id: self.user_id.clone(),
            ws_id: self.ws_id.clone(),
            username: self.username.clone(),
            user_map,
        }
    }
}

#[derive(Debug, PartialEq, Eq)]
pub struct UserInfo {
    pub user_id: String,
    pub ws_id: String,
    pub username: String,
}

impl UserInfo {
    pub fn new(user_id: String, ws_id: String, username: String) -> (r: Self)
        ensures
            r.user_id == user_id,
            r.ws_id == ws_id,
            r.username == username,
    {
        UserInfo { user_id, ws_id, username }
    }
}

impl Clone for UserInfo {
    fn clone(&self) -> (r: Self)
        ensures
            r == *self,
    {
        UserInfo {
            user_id: self.user_id.clone(),
            ws_id: self.ws_id.clone(),
            username: self.username.clone(),
        }
    }
}

/// A frame of the wire protocol: exactly one tagged variant.
#[derive(Debug, PartialEq, Eq)]
pub enum UserMessage {
    Basic(BasicMessage),
    Image(ImageMessage),
    Notification(NotificationMessage),
    Typing(TypingMessage),
    UserRemoval(UserRemovalMessage),
    UserAddition(UserAdditionMessage),
    NewUser(NewUserMessage),
    ChangeRoom(ChangeRoomMessage),
    UsernameChange(UsernameChangeMessage),
    CreateRoomChange(CreateRoomChangeMessage),
    Initialization(InitMessage),
}

impl UserMessage {
    /// The same frame: equal, but for an `Initialization`, whose user map is
    /// compared by content.
    pub open spec fn same_as(self, other: UserMessage) -> bool {
        match (self, other) {
            (UserMessage::Initialization(a), UserMessage::Initialization(b)) => a.same_as(b),
            _ => self == other,
        }
    }
}

impl Clone for UserMessage {
    fn clone(&self) -> (r: Self)
        ensures
            r.same_as(*self),
    {
        match self {
            UserMessage::Basic(m) => UserMessage::Basic(m.clone()),
            UserMessage::Image(m) => UserMessage::Image(m.clone()),
            UserMessage::Notification(m) => UserMessage::Notification(m.clone()),
            UserMessage::Typing(m) => UserMessage::Typing(m.clone()),
            UserMessage::UserRemoval(m) => UserMessage::UserRemoval(m.clone()),
            UserMessage::UserAddition(m) => UserMessage::UserAddition(m.clone()),
            UserMessage::NewUser(m) => UserMessage::NewUser(m.clone()),
            UserMessage::ChangeRoom(m) => UserMessage::ChangeRoom(m.clone()),
            UserMessage::UsernameChange(m) => UserMessage::UsernameChange(m.clone()),
            UserMessage::CreateRoomChange(m) => UserMessage::CreateRoomChange(m.clone()),
            UserMessage::Initialization(m) => UserMessage::Initialization(m.clone()),
        }
    }
}

#[derive(Debug, PartialEq, Eq)]
pub struct UserAdditionMessage {
    pub user_id: String,
    pub username: String,
}

impl UserAdditionMessage {
    pub fn new(user_id: String, username: String) -> (r: Self)
        ensures
            r.user_id == user_id,
            r.username == username,
    {
        UserAdditionMessage { user_id, username }
    }
}

impl Clone for UserAdditionMessage {
    fn clone(&self) -> (r: Self)
        ensures
            r == *self,
    {
        UserAdditionMessage { user_id: self.user_id.clone(), username: self.username.clone() }
    }
}

#[derive(Debug, PartialEq, Eq)]
pub struct NewUserMessage {
    pub user_id: String,
    pub username: String,
}

impl NewUserMessage {
    pub fn new(user_id: String, username: String) -> (r: Self)
        ensures
            r.user_id == user_id,
            r.username == username,
    {
        NewUserMessage { user_id, username }
    }
}

impl Clone for NewUserMessage {
    fn clone(&self) -> (r: Self)
        ensures
            r == *self,
    {
        NewUserMessage { user_id: self.user_id.clone(), username: self.username.clone() }
    }
}

/// A chat message; the stored form of every accepted `Basic` frame.
#[derive(Debug, PartialEq, Eq)]
pub struct BasicMessage {
    pub content: String,
    pub sender_id: String,
    pub timestamp: u64,
    pub message_id: String,
    pub room_id: String,
    pub ws_id: String,
}

impl Clone for BasicMessage {
    fn clone(&self) -> (r: Self)
        ensures
            r == *self,
    {
        BasicMessage {
            content: self.content.clone(),
            sender_id: self.sender_id.clone(),
            timestamp: self.timestamp,
            message_id: self.message_id.clone(),
            room_id: self.room_id.clone(),
            ws_id: self.ws_id.clone(),
        }
    }
}

#[derive(Debug, PartialEq, Eq)]
pub struct ImageMessage {
    pub image_url: String,
    pub sender_id: String,
}

impl Clone for ImageMessage {
    fn clone(&self) -> (r: Self)
        ensures
            r == *self,
    {
        ImageMessage { image_url: self.image_url.clone(), sender_id: self.sender_id.clone() }
    }
}

#[derive(Debug, PartialEq, Eq)]
pub struct NotificationMessage {
    pub sender_id: String,
}

impl Clone for NotificationMessage {
    fn clone(&self) -> (r: Self)
        ensures
            r == *self,
    {
        NotificationMessage { sender_id: self.sender_id.clone() }
    }
}

#[derive(Debug, PartialEq, Eq)]
pub struct TypingMessage {
    pub sender_id: String,
}

impl Clone for TypingMessage {
    fn clone(&self) -> (r: Self)
        ensures
            r == *self,
    {
        TypingMessage { sender_id: self.sender_id.clone() }
    }
}

#[derive(Debug, PartialEq, Eq)]
pub struct UserRemovalMessage {
    pub removed_user: String,
    pub room_id: String,
    pub sender_id: String,
}

impl Clone for UserRemovalMessage {
    fn clone(&self) -> (r: Self)
        ensures
            r == *self,
    {
        UserRemovalMessage {
            removed_user: self.removed_user.clone(),
            room_id: self.room_id.clone(),
            sender_id: self.sender_id.clone(),
        }
    }
}

#[derive(Debug, PartialEq, Eq)]
pub struct ChangeRoomMessage {
    pub room_id: String,
    pub sender_id: String,
}

impl Clone for ChangeRoomMessage {
    fn clone(&self) -> (r: Self)
        ensures
            r == *self,
    {
        ChangeRoomMessage { room_id: self.room_id.clone(), sender_id: self.sender_id.clone() }
    }
}

#[derive(Debug, PartialEq, Eq)]
pub struct UsernameChangeMessage {
    pub new_username: String,
    pub sender_id: String,
}

impl UsernameChangeMessage {
    pub fn new(sender_id: String, new_username: String) -> (r: Self)
        ensures
            r.sender_id == sender_id,
            r.new_username == new_username,
    {
        UsernameChangeMessage { sender_id, new_username }
    }
}

impl Clone for UsernameChangeMessage {
    fn clone(&self) -> (r: Self)
        ensures
            r == *self,
    {
        UsernameChangeMessage {
            new_username: self.new_username.clone(),
            sender_id: self.sender_id.clone(),
        }
    }
}

#[derive(Debug, PartialEq, Eq)]
pub struct CreateRoomChangeMessage {
    pub room_name: String,
    pub sender_id: String,
}

impl Clone for CreateRoomChangeMessage {
    fn clone(&self) -> (r: Self)
        ensures
            r == *self,
    {
        CreateRoomChangeMessage {
            room_name: self.room_name.clone(),
            sender_id: self.sender_id.clone(),
        }
    }
}

} // verus!
