use chat_relay::chat::handler::{ConnectionIds, WsHandler};
use chat_relay::chat::message::{
    encode_frame, frame_from_parts, Data, Login, Msg, Terminate, WsData, WsFrontMsg, WsLogin,
    WsMsg,
};
use chat_relay::chat::registry::Client;
use chat_relay::chat::Params;

#[test]
fn connection_ids_count_up_from_one() {
    let mut ids = ConnectionIds::new();
    assert_eq!(ids.next(), Some(1));
    assert_eq!(ids.next(), Some(2));
    assert_eq!(ids.next(), Some(3));
}

#[test]
fn connection_ids_are_never_reused() {
    let mut ids = ConnectionIds::new();
    let mut seen = Vec::new();
    for _ in 0..1000 {
        let id = ids.next().expect("far from exhausted");
        assert!(seen.iter().all(|earlier| *earlier < id));
        seen.push(id);
    }
}

#[test]
fn connection_ids_run_out_instead_of_wrapping() {
    let mut ids = ConnectionIds::resume(u32::MAX - 1);
    assert_eq!(ids.next(), Some(u32::MAX));
    assert_eq!(ids.next(), None);
    assert_eq!(ids.next(), None);
    assert_eq!(ids, ConnectionIds::resume(u32::MAX));
}

#[test]
fn connection_ids_resume_after_the_last_one() {
    let mut ids = ConnectionIds::resume(41);
    assert_eq!(ids.next(), Some(42));
    assert_eq!(ConnectionIds::resume(0), ConnectionIds::new());
}

#[test]
fn new_handler_has_no_room_and_no_address() {
    let handler = WsHandler::new(5);
    assert_eq!(handler.id, 5);
    assert_eq!(handler.room_name, "not initiated");
    assert_eq!(handler.addr, "");
    assert!(!handler.terminated);
}

#[test]
fn on_open_makes_the_record_for_the_registrar() {
    let mut handler = WsHandler::new(5);
    let client = handler.on_open(Some(String::from("192.0.2.7")), "socket-5");
    assert_eq!(
        client,
        Client {
            sender: "socket-5",
            addr: String::from("192.0.2.7"),
            connection_id: 5,
            room_name: String::from("unassigned"),
        }
    );
    assert_eq!(handler.addr, "192.0.2.7");
    assert_eq!(handler.room_name, "not initiated");
}

#[test]
fn on_open_without_address_says_unknown() {
    let mut handler = WsHandler::new(6);
    let client = handler.on_open(None, 0u8);
    assert_eq!(client.addr, "Unknown");
    assert_eq!(handler.addr, "Unknown");
    assert_eq!(client.connection_id, 6);
}

#[test]
fn on_message_tags_chat_with_id_and_last_room() {
    let mut handler = WsHandler::new(9);
    let data = handler.on_message(WsData::Message(WsMsg { msg: String::from("early") }));
    assert_eq!(
        data,
        Data::Message(Msg {
            msg: String::from("early"),
            connection_id: 9,
            room_name: String::from("not initiated"),
        })
    );
}

#[test]
fn on_message_login_sets_the_room_at_once() {
    let mut handler = WsHandler::new(9);
    let data = handler.on_message(WsData::Login(WsLogin {
        room_name: String::from("lobby"),
        token: String::from("T1"),
        name: String::from("alice"),
    }));
    assert_eq!(
        data,
        Data::Login(Login {
            room_name: String::from("lobby"),
            token: String::from("T1"),
            connection_id: 9,
            name: String::from("alice"),
        })
    );
    assert_eq!(handler.room_name, "lobby");
    assert_eq!(handler.id, 9);

    let data = handler.on_message(WsData::Message(WsMsg { msg: String::from("hi") }));
    assert_eq!(
        data,
        Data::Message(Msg {
            msg: String::from("hi"),
            connection_id: 9,
            room_name: String::from("lobby"),
        })
    );
}

#[test]
fn terminate_connection_names_id_and_last_room() {
    let mut handler = WsHandler::new(3);
    assert_eq!(
        handler.terminate_connection(),
        Some(Data::Terminate(Terminate {
            room_name: String::from("not initiated"),
            connection_id: 3
        }))
    );
    let mut handler = WsHandler::new(3);
    handler.on_message(WsData::Login(WsLogin {
        room_name: String::from("cellar"),
        token: String::from("T"),
        name: String::from("bob"),
    }));
    assert_eq!(
        handler.terminate_connection(),
        Some(Data::Terminate(Terminate { room_name: String::from("cellar"), connection_id: 3 }))
    );
}

#[test]
fn terminate_connection_gives_the_event_once() {
    let mut handler = WsHandler::new(4);
    assert!(handler.terminate_connection().is_some());
    assert!(handler.terminated);
    assert_eq!(handler.terminate_connection(), None);
    assert_eq!(handler.terminate_connection(), None);
    assert_eq!(handler.id, 4);
    assert_eq!(handler.room_name, "not initiated");
}

#[test]
fn frame_puts_user_name_before_message() {
    assert_eq!(encode_frame("alice", "hi"), r#"{"user_name":"alice","msg":"hi"}"#);
    assert_eq!(encode_frame("", ""), r#"{"user_name":"","msg":""}"#);
}

#[test]
fn frame_escapes_what_json_reserves() {
    assert_eq!(
        encode_frame("a\"b", "line\nbreak \\ tab\t"),
        "{\"user_name\":\"a\\\"b\",\"msg\":\"line\\nbreak \\\\ tab\\t\"}"
    );
    assert_eq!(encode_frame("zoë", "\u{1}"), "{\"user_name\":\"zoë\",\"msg\":\"\\u0001\"}");
}

#[test]
fn frame_escapes_every_control_character_as_the_table_says() {
    let msg = |text: &str| {
        let frame = encode_frame("", text);
        let rest = frame.strip_prefix("{\"user_name\":\"\",\"msg\":\"").unwrap().to_string();
        rest.strip_suffix("\"}").unwrap().to_string()
    };
    assert_eq!(msg("\u{8}"), "\\b");
    assert_eq!(msg("\u{c}"), "\\f");
    assert_eq!(msg("\n"), "\\n");
    assert_eq!(msg("\r"), "\\r");
    assert_eq!(msg("\t"), "\\t");
    assert_eq!(msg("\""), "\\\"");
    assert_eq!(msg("\\"), "\\\\");
    assert_eq!(msg("\u{0}"), "\\u0000");
    assert_eq!(msg("\u{b}"), "\\u000b");
    assert_eq!(msg("\u{e}"), "\\u000e");
    assert_eq!(msg("\u{1a}"), "\\u001a");
    assert_eq!(msg("\u{1f}"), "\\u001f");
    assert_eq!(msg(" "), " ");
    assert_eq!(msg("/"), "/");
    assert_eq!(msg("\u{7f}"), "\u{7f}");
    assert_eq!(msg("é€😀"), "é€😀");
    for code in 0u32..0x20 {
        let c = char::from_u32(code).unwrap();
        let written = msg(&c.to_string());
        let expected = match c {
            '\u{8}' => String::from("\\b"),
            '\u{c}' => String::from("\\f"),
            '\n' => String::from("\\n"),
            '\r' => String::from("\\r"),
            '\t' => String::from("\\t"),
            _ => format!("\\u00{:02x}", code),
        };
        assert_eq!(written, expected);
    }
}

#[test]
fn frame_from_parts_only_frames() {
    assert_eq!(frame_from_parts("\"u\"", "\"m\""), r#"{"user_name":"u","msg":"m"}"#);
    assert_eq!(frame_from_parts("1", "2"), r#"{"user_name":1,"msg":2}"#);
}

#[test]
fn front_message_frame_is_the_encoded_frame() {
    let front = WsFrontMsg { msg: String::from("hi"), user_name: String::from("alice") };
    assert_eq!(front.to_frame(), encode_frame("alice", "hi"));
    assert_eq!(front.to_frame(), r#"{"user_name":"alice","msg":"hi"}"#);
}

#[test]
fn events_clone_to_equal_events() {
    let events = vec![
        Data::Message(Msg {
            msg: String::from("m"),
            connection_id: 1,
            room_name: String::from("r"),
        }),
        Data::Login(Login {
            room_name: String::from("r"),
            token: String::from("t"),
            connection_id: 2,
            name: String::from("n"),
        }),
        Data::Terminate(Terminate { room_name: String::from("r"), connection_id: 3 }),
    ];
    for event in events {
        assert_eq!(event.clone(), event);
    }
}

#[test]
fn params_hold_the_listen_address() {
    let params = Params { ws_address: String::from("127.0.0.1:3012") };
    assert_eq!(params.ws_address, "127.0.0.1:3012");
}
