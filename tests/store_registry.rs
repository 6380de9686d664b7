use chatroom::appstate::AppState;
use chatroom::message_structs::{
    BasicMessage, InitMessage, NewUserMessage, UserAdditionMessage, UserInfo, UserMessage, UsernameChangeMessage,
};
use chatroom::registry::ActorRegistry;
use chatroom::store::{Store, StoreError};
use chatroom::structs::{ConnectionState, LoginForm, Room, User, UserData};
use chatroom::websocket::{WsStart, change_to_offline, change_to_online, get_messages, ws_index};

fn user(id: &str, login: &str, name: &str, rooms: &[&str]) -> UserData {
    UserData {
        user_id: id.to_string(),
        login_username: login.to_string(),
        username: name.to_string(),
        hashed_password: "x".to_string(),
        status: ConnectionState::Offline,
        rooms: rooms.iter().map(|r| r.to_string()).collect(),
    }
}

fn message(id: &str, room: &str, sender: &str, t: u64) -> BasicMessage {
    BasicMessage {
        content: id.to_string(),
        sender_id: sender.to_string(),
        timestamp: t,
        message_id: id.to_string(),
        room_id: room.to_string(),
        ws_id: "w".to_string(),
    }
}

fn room(id: &str, members: &[&str]) -> Room {
    Room { name: id.to_string(), room_id: id.to_string(), users: members.iter().map(|m| m.to_string()).collect() }
}

fn s(x: &str) -> String {
    x.to_string()
}

#[test]
fn create_user_refuses_taken_values() {
    let mut store = Store::new();
    assert_eq!(store.create_user(user("u1", "a@x", "alice", &[])), Ok(()));
    assert_eq!(store.create_user(user("u1", "b@x", "bob", &[])), Err(StoreError::Conflict));
    assert_eq!(store.create_user(user("u2", "a@x", "bob", &[])), Err(StoreError::Conflict));
    assert_eq!(store.create_user(user("u2", "b@x", "alice", &[])), Err(StoreError::Conflict));
    assert_eq!(store.users.len(), 1);
    assert_eq!(store.find_user_by_login(&s("a@x")).unwrap().user_id, "u1");
    assert!(store.find_user_by_login(&s("b@x")).is_none());
    assert!(store.find_user_by_id(&s("u2")).is_none());
}

#[test]
fn update_username_outcomes() {
    let mut store = Store::new();
    store.create_user(user("u1", "a@x", "alice", &[])).unwrap();
    store.create_user(user("u2", "b@x", "bob", &[])).unwrap();
    assert_eq!(store.update_username(&s("u1"), s("bob")), Err(StoreError::Conflict));
    assert_eq!(store.update_username(&s("u1"), s("alice")), Err(StoreError::Conflict));
    assert_eq!(store.update_username(&s("u9"), s("carol")), Err(StoreError::NotFound));
    assert_eq!(store.update_username(&s("u1"), s("carol")), Ok(()));
    assert_eq!(store.find_user_by_id(&s("u1")).unwrap().username, "carol");
    assert_eq!(store.find_user_by_id(&s("u2")).unwrap().username, "bob");
}

#[test]
fn marking_online_twice_equals_once() {
    let mut once = Store::new();
    once.create_user(user("u1", "a@x", "alice", &[])).unwrap();
    once.create_user(user("u2", "b@x", "bob", &[])).unwrap();
    let mut twice = Store::new();
    twice.create_user(user("u1", "a@x", "alice", &[])).unwrap();
    twice.create_user(user("u2", "b@x", "bob", &[])).unwrap();
    change_to_online(&mut once, &s("u1"));
    change_to_online(&mut twice, &s("u1"));
    change_to_online(&mut twice, &s("u1"));
    assert_eq!(once.users, twice.users);
    assert_eq!(once.users[0].status, ConnectionState::Online);
    assert_eq!(once.users[1].status, ConnectionState::Offline);
    change_to_offline(&mut once, &s("u1"));
    change_to_offline(&mut twice, &s("u1"));
    change_to_offline(&mut twice, &s("u1"));
    assert_eq!(once.users, twice.users);
    assert_eq!(once.users[0].status, ConnectionState::Offline);
}

#[test]
fn rooms_and_membership() {
    let mut store = Store::new();
    assert_eq!(store.create_room(room("r1", &["u1"])), Ok(()));
    assert_eq!(store.create_room(room("r1", &[])), Err(StoreError::Conflict));
    assert_eq!(store.add_member(&s("r1"), &s("u2")), Ok(()));
    assert_eq!(store.add_member(&s("r1"), &s("u2")), Ok(()));
    assert_eq!(store.members_of(&s("r1")).unwrap(), vec![s("u1"), s("u2")]);
    assert_eq!(store.add_member(&s("r9"), &s("u2")), Err(StoreError::NotFound));
    assert_eq!(store.remove_member(&s("r1"), &s("u1")), Ok(()));
    assert_eq!(store.remove_member(&s("r1"), &s("u7")), Ok(()));
    assert_eq!(store.members_of(&s("r1")).unwrap(), vec![s("u2")]);
    assert_eq!(store.remove_member(&s("r9"), &s("u2")), Err(StoreError::NotFound));
    assert!(store.get_room(&s("r9")).is_none());
    assert!(store.members_of(&s("r9")).is_none());
}

#[test]
fn users_in_room_follow_their_room_lists() {
    let mut store = Store::new();
    store.create_user(user("u1", "a@x", "alice", &["r1"])).unwrap();
    store.create_user(user("u2", "b@x", "bob", &["r2"])).unwrap();
    store.create_user(user("u3", "c@x", "carol", &["r2", "r1"])).unwrap();
    let r = store.users_in_room(&s("r1"));
    assert_eq!(
        r,
        vec![User { user_id: s("u1"), username: s("alice") }, User { user_id: s("u3"), username: s("carol") }]
    );
    assert!(store.users_in_room(&s("r3")).is_empty());
}

#[test]
fn messages_need_room_and_sender_and_keep_time_order() {
    let mut store = Store::new();
    store.create_user(user("u1", "a@x", "alice", &[])).unwrap();
    store.create_room(room("r1", &["u1"])).unwrap();
    store.create_room(room("r2", &["u1"])).unwrap();
    assert_eq!(store.append_message(message("m0", "r9", "u1", 1)), Err(StoreError::NotFound));
    assert_eq!(store.append_message(message("m0", "r1", "u9", 1)), Err(StoreError::NotFound));
    assert!(store.messages.is_empty());
    for (id, r, t) in [("a", "r1", 5u64), ("b", "r2", 1), ("c", "r1", 3), ("d", "r1", 5), ("e", "r1", 4)] {
        assert_eq!(store.append_message(message(id, r, "u1", t)), Ok(()));
    }
    let ids: Vec<String> = store.history(&s("r1")).iter().map(|m| m.message_id.clone()).collect();
    assert_eq!(ids, vec![s("c"), s("e"), s("a"), s("d")]);
    assert_eq!(store.append_message(message("e", "r2", "u1", 9)), Err(StoreError::Conflict));
    assert_eq!(store.messages.len(), 5);
    assert!(store.delete_message(&s("e")));
    assert!(!store.delete_message(&s("e")));
    assert!(store.messages.iter().all(|m| m.message_id != "e"));
    let ids: Vec<String> = store.history(&s("r1")).iter().map(|m| m.message_id.clone()).collect();
    assert_eq!(ids, vec![s("c"), s("a"), s("d")]);
}

#[test]
fn replay_equals_history() {
    let mut state = AppState::new(s("main"), s("main"));
    state.store.create_user(user("u1", "a@x", "alice", &["main"])).unwrap();
    for (id, t) in [("x", 9u64), ("y", 2)] {
        state.store.append_message(message(id, "main", "u1", t)).unwrap();
    }
    let hist = state.store.history(&s("main"));
    let d = get_messages(&state, &s("w1"), &s("main"));
    assert_eq!(d.len(), hist.len());
    for (x, m) in d.iter().zip(hist.iter()) {
        assert_eq!(x.ws_id, "w1");
        assert_eq!(x.message, UserMessage::Basic(m.clone()));
    }
    let frames = state.catch_up(&s("main"));
    assert_eq!(frames, hist.into_iter().map(UserMessage::Basic).collect::<Vec<_>>());
}

#[test]
fn registry_attach_and_detach() {
    let mut reg = ActorRegistry::new();
    reg.attach(s("u1"), s("w1"));
    reg.attach(s("u2"), s("w2"));
    reg.attach(s("u1"), s("w3"));
    assert_eq!(reg.handles_for(&s("u1")), vec![s("w1"), s("w3")]);
    reg.attach(s("u2"), s("w1"));
    assert_eq!(reg.handles_for(&s("u1")), vec![s("w3")]);
    assert_eq!(reg.handles_for(&s("u2")), vec![s("w2"), s("w1")]);
    reg.detach(&s("u1"), &s("w1"));
    assert_eq!(reg.handles_for(&s("u2")), vec![s("w2"), s("w1")]);
    reg.detach(&s("u2"), &s("w1"));
    assert_eq!(reg.handles_for(&s("u2")), vec![s("w2")]);
    assert!(reg.entries.iter().all(|h| h.ws_id != "w1"));
    assert!(reg.handles_for(&s("u9")).is_empty());
}

#[test]
fn opening_a_connection() {
    let mut state = AppState::new(s("main"), s("main"));
    state.store.create_user(user("u1", "a@x", "alice", &["main", "r2"])).unwrap();
    assert!(matches!(ws_index(&state, None), WsStart::RedirectToLogin));
    assert!(matches!(ws_index(&state, Some(s("u9"))), WsStart::PurgeAndRedirect));
    match ws_index(&state, Some(s("u1"))) {
        WsStart::Start(a) => {
            assert_eq!(a.user_id, "u1");
            assert_eq!(a.username, "alice");
            assert_eq!(a.current_room, "main");
            assert_eq!(a.rooms, vec![s("main"), s("r2")]);
            assert_eq!(a.ws_id.len(), 32);
            assert!(a.ws_id.chars().all(|c| c.is_ascii_digit() || ('a'..='f').contains(&c)));
        },
        _ => panic!("the session did not start"),
    }
}

#[test]
fn handle_stamps_fresh_id_and_time() {
    let mut state = AppState::new(s("main"), s("main"));
    state.store.create_user(user("u1", "a@x", "alice", &["main"])).unwrap();
    state.store.add_member(&s("main"), &s("u1")).unwrap();
    let mut a = chatroom::websocket::WsActor {
        ws_id: s("w1"),
        user_id: s("u1"),
        username: s("alice"),
        current_room: s("main"),
        rooms: vec![s("main")],
    };
    a.started(&mut state);
    let frame = UserMessage::Basic(message("", "elsewhere", "u1", 0));
    let d = a.handle(&mut state, frame);
    assert_eq!(d.len(), 1);
    let stored = &state.store.messages[0];
    assert_eq!(stored.message_id.len(), 32);
    assert_ne!(stored.message_id, "");
    assert!(stored.timestamp > 1_600_000_000);
    assert_eq!(stored.room_id, "main");
    assert_eq!(stored.ws_id, "w1");
}

#[test]
fn email_validation_and_passwords() {
    let mut state = AppState::new(s("main"), s("main"));
    let good = LoginForm { username: s("alice@example.com"), password: s("secret") };
    let bad = LoginForm { username: s("not-an-email"), password: s("secret") };
    assert!(state.valid_user_credentials(&good));
    assert!(!state.valid_user_credentials(&bad));
    assert!(state.credentials_acceptable(&bad, true));
    assert!(!state.credentials_acceptable(&good, false));
    let hash = bcrypt::hash("secret", 4).unwrap();
    let mut u = user("u1", "alice@example.com", "alice", &["main"]);
    u.hashed_password = hash;
    state.store.create_user(u).unwrap();
    assert_eq!(state.authenticate_user(&good), Some(s("u1")));
    let wrong = LoginForm { username: s("alice@example.com"), password: s("nope") };
    assert_eq!(state.authenticate_user(&wrong), None);
    assert_eq!(state.authenticate_user(&LoginForm { username: s("b@x.com"), password: s("secret") }), None);
    assert!(!state.valid_user_credentials(&good));
}

#[test]
fn create_login_action_hashes_and_mints_an_id() {
    let mut state = AppState::new(s("main"), s("main"));
    let login = LoginForm { username: s("alice@example.com"), password: s("secret") };
    let (id, d) = state.create_login_action(&login, s("brave_fox")).unwrap();
    assert_eq!(id.len(), 32);
    assert!(d.is_empty());
    let stored = state.store.find_user_by_id(&id).unwrap();
    assert_ne!(stored.hashed_password, "secret");
    assert!(bcrypt::verify("secret", &stored.hashed_password).unwrap());
    assert_eq!(state.authenticate_user(&login), Some(id));
    assert_eq!(state.store.members_of(&s("main")).unwrap().len(), 1);
}

#[test]
fn constructors_and_labels() {
    let init = InitMessage::new(s("u"), s("w"), s("n"), vec![User { user_id: s("u"), username: s("n") }]);
    assert_eq!((init.user_id.as_str(), init.ws_id.as_str(), init.username.as_str()), ("u", "w", "n"));
    assert_eq!(init.user_map.len(), 1);
    let info = UserInfo::new(s("u"), s("w"), s("n"));
    assert_eq!((info.user_id.as_str(), info.ws_id.as_str(), info.username.as_str()), ("u", "w", "n"));
    let add = UserAdditionMessage::new(s("u"), s("n"));
    assert_eq!((add.user_id.as_str(), add.username.as_str()), ("u", "n"));
    let new_user = NewUserMessage::new(s("u"), s("n"));
    assert_eq!((new_user.user_id.as_str(), new_user.username.as_str()), ("u", "n"));
    let rename = UsernameChangeMessage::new(s("u"), s("n"));
    assert_eq!((rename.sender_id.as_str(), rename.new_username.as_str()), ("u", "n"));
    assert_eq!(ConnectionState::Online.label(), "Online");
    assert_eq!(ConnectionState::Offline.label(), "Offline");
}
