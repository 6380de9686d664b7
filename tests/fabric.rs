use chatroom::appstate::{AppState, SignupError};
use chatroom::message_structs::{
    BasicMessage, ChangeRoomMessage, CreateRoomChangeMessage, ImageMessage, NewUserMessage, UserMessage,
    UserRemovalMessage, UsernameChangeMessage,
};
use chatroom::store::StoreError;
use chatroom::structs::{ConnectionState, LoginForm, UserData};
use chatroom::websocket::{Delivery, WsActor};

const MAIN: &str = "0000000000000000000000000000main";

fn user(id: &str, login: &str, name: &str) -> UserData {
    UserData {
        user_id: id.to_string(),
        login_username: login.to_string(),
        username: name.to_string(),
        hashed_password: "x".to_string(),
        status: ConnectionState::Offline,
        rooms: vec![MAIN.to_string()],
    }
}

fn server_with(users: &[(&str, &str, &str)]) -> AppState {
    let mut state = AppState::new(MAIN.to_string(), "main".to_string());
    for (id, login, name) in users {
        state.store.create_user(user(id, login, name)).unwrap();
        state.store.add_member(&MAIN.to_string(), &id.to_string()).unwrap();
    }
    state
}

fn actor(user_id: &str, ws_id: &str, name: &str) -> WsActor {
    WsActor {
        ws_id: ws_id.to_string(),
        user_id: user_id.to_string(),
        username: name.to_string(),
        current_room: MAIN.to_string(),
        rooms: vec![MAIN.to_string()],
    }
}

fn basic(content: &str, sender: &str) -> UserMessage {
    UserMessage::Basic(BasicMessage {
        content: content.to_string(),
        sender_id: sender.to_string(),
        timestamp: 0,
        message_id: String::new(),
        room_id: String::new(),
        ws_id: String::new(),
    })
}

fn targets(d: &[Delivery]) -> Vec<String> {
    d.iter().map(|x| x.ws_id.clone()).collect()
}

#[test]
fn signup_greets_connected_users() {
    let mut state = server_with(&[("utest", "test@gmail.com", "test")]);
    let test_session = actor("utest", "wtest", "test");
    test_session.started(&mut state);
    let login = LoginForm { username: "alice@x.com".to_string(), password: "pw".to_string() };
    let d = state.sign_up(&login, "ualice".to_string(), "brave_fox".to_string(), "h".to_string()).unwrap();
    let members = state.store.members_of(&MAIN.to_string()).unwrap();
    assert_eq!(members, vec!["utest".to_string(), "ualice".to_string()]);
    assert_eq!(
        d,
        vec![Delivery {
            ws_id: "wtest".to_string(),
            message: UserMessage::NewUser(NewUserMessage::new("ualice".to_string(), "brave_fox".to_string())),
        }]
    );
    let alice = state.store.find_user_by_id(&"ualice".to_string()).unwrap();
    assert_eq!(alice.login_username, "alice@x.com");
    assert_eq!(alice.status, ConnectionState::Online);
    assert_eq!(alice.rooms, vec![MAIN.to_string()]);
}

#[test]
fn basic_message_reaches_both_members_and_is_stored() {
    let mut state = server_with(&[("ua", "a@x.com", "alice"), ("ub", "b@x.com", "bob")]);
    let mut ca = actor("ua", "wa", "alice");
    let cb = actor("ub", "wb", "bob");
    ca.started(&mut state);
    cb.started(&mut state);
    let d = ca.handle_with(&mut state, basic("hi", "ua"), "m1".to_string(), 7);
    assert_eq!(targets(&d), vec!["wa".to_string(), "wb".to_string()]);
    let expected = BasicMessage {
        content: "hi".to_string(),
        sender_id: "ua".to_string(),
        timestamp: 7,
        message_id: "m1".to_string(),
        room_id: MAIN.to_string(),
        ws_id: "wa".to_string(),
    };
    for x in &d {
        assert_eq!(x.message, UserMessage::Basic(expected.clone()));
    }
    assert_eq!(state.store.messages, vec![expected]);
}

#[test]
fn forged_sender_is_dropped() {
    let mut state = server_with(&[("ua", "a@x.com", "alice"), ("ub", "b@x.com", "bob")]);
    let mut ca = actor("ua", "wa", "alice");
    ca.started(&mut state);
    actor("ub", "wb", "bob").started(&mut state);
    let d = ca.handle_with(&mut state, basic("hi", "ub"), "m1".to_string(), 7);
    assert!(d.is_empty());
    assert!(state.store.messages.is_empty());
    let rename = UserMessage::UsernameChange(UsernameChangeMessage::new("ub".to_string(), "eve".to_string()));
    assert!(ca.handle_with(&mut state, rename, "m2".to_string(), 8).is_empty());
    assert_eq!(state.store.find_user_by_id(&"ub".to_string()).unwrap().username, "bob");
}

#[test]
fn username_conflict_changes_nothing() {
    let mut state = server_with(&[("ua", "a@x.com", "alice"), ("ub", "b@x.com", "bob")]);
    let mut ca = actor("ua", "wa", "alice");
    ca.started(&mut state);
    let before: Vec<String> = state.store.users.iter().map(|u| u.username.clone()).collect();
    let msg = UserMessage::UsernameChange(UsernameChangeMessage::new("ua".to_string(), "bob".to_string()));
    let d = ca.handle_with(&mut state, msg, "f".to_string(), 1);
    assert!(d.is_empty());
    let after: Vec<String> = state.store.users.iter().map(|u| u.username.clone()).collect();
    assert_eq!(before, after);
    assert_eq!(ca.username, "alice");
}

#[test]
fn username_change_is_announced_to_main_room() {
    let mut state = server_with(&[("ua", "a@x.com", "alice"), ("ub", "b@x.com", "bob")]);
    let mut ca = actor("ua", "wa", "alice");
    ca.started(&mut state);
    actor("ub", "wb", "bob").started(&mut state);
    let msg = UserMessage::UsernameChange(UsernameChangeMessage::new("ua".to_string(), "alice2".to_string()));
    let d = ca.handle_with(&mut state, msg, "f".to_string(), 1);
    assert_eq!(targets(&d), vec!["wa".to_string(), "wb".to_string()]);
    for x in &d {
        assert_eq!(
            x.message,
            UserMessage::UsernameChange(UsernameChangeMessage::new("ua".to_string(), "alice2".to_string()))
        );
    }
    assert_eq!(ca.username, "alice2");
    assert_eq!(state.store.find_user_by_id(&"ua".to_string()).unwrap().username, "alice2");
}

#[test]
fn history_is_replayed_on_connect_in_timestamp_order() {
    let mut state = server_with(&[("ua", "a@x.com", "alice"), ("uc", "c@x.com", "carol")]);
    let mut ca = actor("ua", "wa", "alice");
    for (id, t) in [("m3", 3u64), ("m1", 1), ("m2", 2)] {
        ca.handle_with(&mut state, basic(id, "ua"), id.to_string(), t);
    }
    let cc = actor("uc", "wc", "carol");
    let d = cc.started(&mut state);
    assert_eq!(d.len(), 4);
    match &d[0].message {
        UserMessage::Initialization(init) => {
            assert_eq!(init.user_id, "uc");
            assert_eq!(init.ws_id, "wc");
            assert_eq!(init.username, "carol");
            let names: Vec<(String, String)> =
                init.user_map.iter().map(|u| (u.user_id.clone(), u.username.clone())).collect();
            assert_eq!(
                names,
                vec![("ua".to_string(), "alice".to_string()), ("uc".to_string(), "carol".to_string())]
            );
        },
        _ => panic!("first frame is not an Initialization"),
    }
    let stamps: Vec<u64> = d[1..]
        .iter()
        .map(|x| match &x.message {
            UserMessage::Basic(b) => b.timestamp,
            _ => panic!("history frame is not Basic"),
        })
        .collect();
    assert_eq!(stamps, vec![1, 2, 3]);
    assert!(d.iter().all(|x| x.ws_id == "wc"));
}

#[test]
fn non_member_cannot_broadcast_and_outsiders_receive_nothing() {
    let mut state = server_with(&[("ua", "a@x.com", "alice")]);
    state.store.create_user(user("uz", "z@x.com", "zed")).unwrap();
    actor("ua", "wa", "alice").started(&mut state);
    actor("uz", "wz", "zed").started(&mut state);
    let frame = basic("x", "uz");
    assert!(state.broadcast_message(&frame, &MAIN.to_string(), &"uz".to_string()).is_empty());
    let d = state.broadcast_message(&frame, &MAIN.to_string(), &"ua".to_string());
    assert_eq!(targets(&d), vec!["wa".to_string()]);
    assert!(state.broadcast_message(&frame, &"nope".to_string(), &"ua".to_string()).is_empty());
}

#[test]
fn member_without_session_gets_no_delivery() {
    let mut state = server_with(&[("ua", "a@x.com", "alice"), ("ub", "b@x.com", "bob")]);
    actor("ua", "wa", "alice").started(&mut state);
    let d = state.broadcast_message(&basic("x", "ua"), &MAIN.to_string(), &"ua".to_string());
    assert_eq!(targets(&d), vec!["wa".to_string()]);
    assert!(state.actor_registry.handles_for(&"ub".to_string()).is_empty());
    assert_eq!(state.actor_registry.entries.len(), 1);
}

#[test]
fn empty_room_delivers_nothing() {
    let mut state = server_with(&[("ua", "a@x.com", "alice")]);
    actor("ua", "wa", "alice").started(&mut state);
    let mut ca = actor("ua", "wa", "alice");
    let create = UserMessage::CreateRoomChange(CreateRoomChangeMessage {
        room_name: "side".to_string(),
        sender_id: "ua".to_string(),
    });
    ca.handle_with(&mut state, create, "rside".to_string(), 1);
    state.store.remove_member(&"rside".to_string(), &"ua".to_string()).unwrap();
    assert_eq!(state.store.members_of(&"rside".to_string()).unwrap(), Vec::<String>::new());
    assert!(state.broadcast_message(&basic("x", "ua"), &"rside".to_string(), &"ua".to_string()).is_empty());
}

#[test]
fn several_connections_of_one_user_all_receive() {
    let mut state = server_with(&[("ua", "a@x.com", "alice"), ("ub", "b@x.com", "bob")]);
    actor("ua", "wa1", "alice").started(&mut state);
    actor("ub", "wb", "bob").started(&mut state);
    actor("ua", "wa2", "alice").started(&mut state);
    let d = state.broadcast_message(&basic("x", "ub"), &MAIN.to_string(), &"ub".to_string());
    assert_eq!(targets(&d), vec!["wa1".to_string(), "wb".to_string(), "wa2".to_string()]);
}

#[test]
fn shutdown_removes_the_connection_and_marks_offline() {
    let mut state = server_with(&[("ua", "a@x.com", "alice")]);
    let ca = actor("ua", "wa", "alice");
    ca.started(&mut state);
    assert_eq!(state.store.find_user_by_id(&"ua".to_string()).unwrap().status, ConnectionState::Online);
    actor("ua", "wa2", "alice").started(&mut state);
    ca.stopped(&mut state);
    assert_eq!(state.actor_registry.handles_for(&"ua".to_string()), vec!["wa2".to_string()]);
    assert_eq!(state.store.find_user_by_id(&"ua".to_string()).unwrap().status, ConnectionState::Offline);
}

#[test]
fn change_room_replays_that_room_to_self_only() {
    let mut state = server_with(&[("ua", "a@x.com", "alice")]);
    let mut ca = actor("ua", "wa", "alice");
    ca.started(&mut state);
    let create = UserMessage::CreateRoomChange(CreateRoomChangeMessage {
        room_name: "side".to_string(),
        sender_id: "ua".to_string(),
    });
    assert!(ca.handle_with(&mut state, create, "rside".to_string(), 1).is_empty());
    assert_eq!(ca.rooms, vec![MAIN.to_string(), "rside".to_string()]);
    let room = state.store.get_room(&"rside".to_string()).unwrap();
    assert_eq!(room.name, "side");
    assert_eq!(room.users, vec!["ua".to_string()]);
    let mut side = actor("ua", "wa", "alice");
    side.current_room = "rside".to_string();
    side.handle_with(&mut state, basic("in side", "ua"), "s1".to_string(), 5);
    ca.handle_with(&mut state, basic("in main", "ua"), "s2".to_string(), 6);
    let change = UserMessage::ChangeRoom(ChangeRoomMessage { room_id: "rside".to_string(), sender_id: "ua".to_string() });
    let d = ca.handle_with(&mut state, change, "f".to_string(), 9);
    assert_eq!(targets(&d), vec!["wa".to_string()]);
    match &d[0].message {
        UserMessage::Basic(b) => assert_eq!(b.content, "in side"),
        _ => panic!("not a Basic frame"),
    }
    assert_eq!(ca.current_room, MAIN);
}

#[test]
fn user_removal_removes_the_member() {
    let mut state = server_with(&[("ua", "a@x.com", "alice"), ("ub", "b@x.com", "bob")]);
    let mut ca = actor("ua", "wa", "alice");
    let removal = UserMessage::UserRemoval(UserRemovalMessage {
        removed_user: "ub".to_string(),
        room_id: MAIN.to_string(),
        sender_id: "ua".to_string(),
    });
    assert!(ca.handle_with(&mut state, removal, "f".to_string(), 1).is_empty());
    assert_eq!(state.store.members_of(&MAIN.to_string()).unwrap(), vec!["ua".to_string()]);
}

#[test]
fn other_variants_are_ignored() {
    let mut state = server_with(&[("ua", "a@x.com", "alice")]);
    let mut ca = actor("ua", "wa", "alice");
    ca.started(&mut state);
    let image = UserMessage::Image(ImageMessage { image_url: "u".to_string(), sender_id: "ua".to_string() });
    assert!(ca.handle_with(&mut state, image, "f".to_string(), 1).is_empty());
    let greet = UserMessage::NewUser(NewUserMessage::new("ua".to_string(), "x".to_string()));
    assert!(ca.handle_with(&mut state, greet, "f".to_string(), 1).is_empty());
    assert!(state.store.messages.is_empty());
}

#[test]
fn signup_errors() {
    let mut state = server_with(&[("ua", "a@x.com", "alice")]);
    let taken = LoginForm { username: "a@x.com".to_string(), password: "pw".to_string() };
    assert_eq!(
        state.sign_up(&taken, "u1".to_string(), "n1".to_string(), "h".to_string()),
        Err(SignupError::InvalidCredentials)
    );
    let empty_pw = LoginForm { username: "new@x.com".to_string(), password: String::new() };
    assert_eq!(
        state.sign_up(&empty_pw, "u1".to_string(), "n1".to_string(), "h".to_string()),
        Err(SignupError::InvalidCredentials)
    );
    let not_email = LoginForm { username: "newx.com".to_string(), password: "pw".to_string() };
    assert_eq!(
        state.sign_up(&not_email, "u1".to_string(), "n1".to_string(), "h".to_string()),
        Err(SignupError::InvalidCredentials)
    );
    let fresh = LoginForm { username: "new@x.com".to_string(), password: "pw".to_string() };
    assert_eq!(
        state.sign_up(&fresh, "u1".to_string(), "alice".to_string(), "h".to_string()),
        Err(SignupError::Store(StoreError::Conflict))
    );
    assert_eq!(state.store.users.len(), 1);
    let mut roomless = AppState::new(MAIN.to_string(), "main".to_string());
    roomless.main_room_id = "missing".to_string();
    assert_eq!(
        roomless.sign_up(&fresh, "u1".to_string(), "n1".to_string(), "h".to_string()),
        Err(SignupError::Store(StoreError::NotFound))
    );
    assert!(roomless.store.users.is_empty());
}

#[test]
fn reused_message_id_is_refused() {
    let mut state = server_with(&[("ua", "a@x.com", "alice")]);
    let mut ca = actor("ua", "wa", "alice");
    ca.started(&mut state);
    assert_eq!(ca.handle_with(&mut state, basic("one", "ua"), "m1".to_string(), 1).len(), 1);
    assert!(ca.handle_with(&mut state, basic("two", "ua"), "m1".to_string(), 2).is_empty());
    assert_eq!(state.store.messages.len(), 1);
    assert_eq!(state.store.messages[0].content, "one");
}
