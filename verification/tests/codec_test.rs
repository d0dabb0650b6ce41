use danmaku_machine::codec::{
    event_from_document, parse_frame, parse_frame_bounded, parse_json, parse_message,
    parse_message_bounded, CodecError, MAX_NESTING,
};
use danmaku_machine::entity::{live_msg_from_json, LiveMsg};
use danmaku_machine::frame::{build_init_msg, heartbeat_frame, read_u16, read_u32, spilt_message};
use danmaku_machine::json::{find_member, Json, Member};
use std::io::Write;

fn frame(ver: u16, action: u32, payload: &[u8]) -> Vec<u8> {
    let mut out = ((payload.len() + 16) as u32).to_be_bytes().to_vec();
    out.extend_from_slice(&16u16.to_be_bytes());
    out.extend_from_slice(&ver.to_be_bytes());
    out.extend_from_slice(&action.to_be_bytes());
    out.extend_from_slice(&1u32.to_be_bytes());
    out.extend_from_slice(payload);
    out
}

fn zlib(plain: &[u8]) -> Vec<u8> {
    let mut encoder = libflate::zlib::Encoder::new(Vec::new()).unwrap();
    encoder.write_all(plain).unwrap();
    encoder.finish().into_result().unwrap()
}

const CHAT: &str = r#"{"cmd":"DANMU_MSG","info":[[0,1],"hello",[42,"alice",0]]}"#;
const GIFT: &str =
    r#"{"cmd":"SEND_GIFT","data":{"uname":"bob","action":"sends","giftName":"rose","num":3}}"#;

fn lines(events: &[LiveMsg]) -> Vec<Option<String>> {
    events.iter().map(|e| e.display_text()).collect()
}

#[test]
fn split_two_frames_and_drop_the_tail() {
    let a = frame(0, 5, b"{}");
    let b = frame(1, 3, b"\x00\x00\x00\x07");
    let mut buffer = a.clone();
    buffer.extend_from_slice(&b);
    buffer.extend_from_slice(&[0, 0, 0, 8, 9, 9, 9, 9]);
    let frames = spilt_message(&buffer);
    assert_eq!(frames.len(), 2);
    assert_eq!(frames[0], &a[..]);
    assert_eq!(frames[1], &b[..]);
    let joined: Vec<u8> = frames.concat();
    assert!(buffer.starts_with(&joined));
    assert_eq!(joined.len(), a.len() + b.len());
}

#[test]
fn split_rejects_declared_length_eight() {
    let mut buffer = vec![0, 0, 0, 8, 1, 2, 3, 4];
    buffer.extend_from_slice(&frame(0, 5, b"{}"));
    assert!(spilt_message(&buffer).is_empty());
}

#[test]
fn split_of_empty_buffer_is_empty() {
    assert!(spilt_message(&[]).is_empty());
}

#[test]
fn split_stops_at_short_length_prefix() {
    let mut buffer = frame(1, 3, b"");
    buffer.extend_from_slice(&[0, 0]);
    let frames = spilt_message(&buffer);
    assert_eq!(frames.len(), 1);
    assert_eq!(frames[0].len(), 16);
    assert!(spilt_message(&[0, 0, 1]).is_empty());
}

#[test]
fn split_stops_at_frame_past_the_end() {
    let whole = frame(0, 5, b"{\"cmd\":\"X\"}");
    let mut buffer = frame(1, 3, b"");
    buffer.extend_from_slice(&whole[..whole.len() - 1]);
    let frames = spilt_message(&buffer);
    assert_eq!(frames.len(), 1);
    assert_eq!(frames[0], &buffer[..16]);
}

#[test]
fn split_accepts_header_only_frame() {
    let buffer = heartbeat_frame();
    let frames = spilt_message(&buffer);
    assert_eq!(frames.len(), 1);
    assert_eq!(frames[0], &buffer[..]);
}

#[test]
fn big_endian_reads() {
    let bytes = [0x01, 0x02, 0x03, 0x04, 0xff, 0xfe];
    assert_eq!(read_u32(&bytes, 0), 0x01020304);
    assert_eq!(read_u32(&bytes, 2), 0x0304fffe);
    assert_eq!(read_u16(&bytes, 4), 0xfffe);
    assert_eq!(read_u32(&[0xff, 0xff, 0xff, 0xff], 0), u32::MAX);
}

#[test]
fn chat_frame_yields_one_event() {
    let events = parse_frame(&frame(0, 5, CHAT.as_bytes())).unwrap();
    assert_eq!(events.len(), 1);
    assert!(events[0].is_danmaku());
    assert!(!events[0].is_send_gift());
    assert_eq!(events[0].cmd, "DANMU_MSG");
    assert_eq!(events[0].info.len(), 3);
    let chat = events[0].as_danmaku().unwrap();
    assert_eq!(chat.uname, "alice");
    assert_eq!(chat.text, "hello");
    assert_eq!(events[0].display_text(), Some("alice: hello".to_string()));
}

#[test]
fn gift_frame_yields_gift_line() {
    let events = parse_frame(&frame(0, 5, GIFT.as_bytes())).unwrap();
    assert_eq!(events.len(), 1);
    assert!(events[0].is_send_gift());
    assert!(events[0].as_danmaku().is_none());
    assert_eq!(events[0].data.uname, "bob");
    assert_eq!(events[0].data.action, "sends");
    assert_eq!(events[0].data.gift_name, "rose");
    assert!(events[0].info.is_empty());
    assert_eq!(events[0].display_text(), Some("bob: sends rose\n".to_string()));
}

#[test]
fn missing_fields_read_as_empty() {
    let events = parse_frame(&frame(0, 5, b"{\"other\":1}")).unwrap();
    assert_eq!(events.len(), 1);
    assert_eq!(events[0].cmd, "");
    assert_eq!(events[0].data.uname, "");
    assert_eq!(events[0].data.action, "");
    assert_eq!(events[0].data.gift_name, "");
    assert!(events[0].info.is_empty());
    assert_eq!(events[0].display_text(), None);
    assert!(events[0].as_danmaku().is_none());
}

#[test]
fn chat_with_missing_parts_reads_as_empty() {
    let events = parse_frame(&frame(0, 5, b"{\"cmd\":\"DANMU_MSG\",\"info\":[1]}")).unwrap();
    let chat = events[0].as_danmaku().unwrap();
    assert_eq!(chat.uname, "");
    assert_eq!(chat.text, "");
    assert_eq!(events[0].display_text(), Some(": ".to_string()));
    let events =
        parse_frame(&frame(0, 5, b"{\"cmd\":\"DANMU_MSG\",\"info\":[1,2,\"x\"]}")).unwrap();
    let chat = events[0].as_danmaku().unwrap();
    assert_eq!(chat.uname, "");
    assert_eq!(chat.text, "");
}

#[test]
fn other_frames_yield_nothing() {
    assert!(parse_frame(&frame(0, 3, CHAT.as_bytes())).unwrap().is_empty());
    assert!(parse_frame(&frame(0, 8, b"not json")).unwrap().is_empty());
    assert!(parse_frame(&frame(1, 3, &[0, 0, 0, 9])).unwrap().is_empty());
    assert!(parse_frame(&frame(1, 5, CHAT.as_bytes())).unwrap().is_empty());
    assert!(parse_frame(&frame(3, 5, CHAT.as_bytes())).unwrap().is_empty());
    assert!(parse_frame(&heartbeat_frame()).unwrap().is_empty());
}

#[test]
fn short_frame_is_truncated_header() {
    assert_eq!(parse_frame(&[]).unwrap_err(), CodecError::TruncatedHeader);
    assert_eq!(parse_frame(&[0; 15]).unwrap_err(), CodecError::TruncatedHeader);
    assert!(parse_frame(&[0; 16]).unwrap().is_empty());
}

#[test]
fn bad_json_is_an_error() {
    assert_eq!(parse_frame(&frame(0, 5, b"{\"cmd\":")).unwrap_err(), CodecError::BadJson);
    assert_eq!(parse_frame(&frame(0, 5, b"")).unwrap_err(), CodecError::BadJson);
}

#[test]
fn wrong_shape_is_an_error() {
    assert_eq!(parse_frame(&frame(0, 5, b"17")).unwrap_err(), CodecError::BadShape);
    assert_eq!(parse_frame(&frame(0, 5, b"{\"cmd\":5}")).unwrap_err(), CodecError::BadShape);
    assert_eq!(parse_frame(&frame(0, 5, b"{\"info\":{}}")).unwrap_err(), CodecError::BadShape);
    assert_eq!(parse_frame(&frame(0, 5, b"{\"data\":\"x\"}")).unwrap_err(), CodecError::BadShape);
    assert_eq!(
        parse_frame(&frame(0, 5, b"{\"data\":{\"uname\":null}}")).unwrap_err(),
        CodecError::BadShape
    );
}

#[test]
fn bad_compression_is_an_error() {
    assert_eq!(
        parse_frame(&frame(2, 5, b"surely no zlib stream")).unwrap_err(),
        CodecError::BadCompression
    );
    let packed = zlib(&frame(0, 5, CHAT.as_bytes()));
    assert_eq!(
        parse_frame(&frame(2, 5, &packed[..packed.len() - 3])).unwrap_err(),
        CodecError::BadCompression
    );
}

#[test]
fn compressed_frame_matches_plain_stream() {
    let mut inner = frame(0, 5, CHAT.as_bytes());
    inner.extend_from_slice(&frame(1, 3, &[0, 0, 0, 1]));
    inner.extend_from_slice(&frame(0, 5, GIFT.as_bytes()));
    let packed = frame(2, 5, &zlib(&inner));
    let from_packed = parse_frame(&packed).unwrap();
    let from_plain = parse_message(&inner).unwrap();
    assert_eq!(from_packed.len(), 2);
    assert_eq!(lines(&from_packed), lines(&from_plain));
    assert_eq!(
        lines(&from_packed),
        vec![Some("alice: hello".to_string()), Some("bob: sends rose\n".to_string())]
    );
    let by_depth = parse_message_bounded(&inner, 0).unwrap();
    assert_eq!(lines(&parse_frame_bounded(&packed, 1).unwrap()), lines(&by_depth));
}

#[test]
fn nesting_is_bounded() {
    let mut stream = frame(0, 5, CHAT.as_bytes());
    for _ in 0..MAX_NESTING {
        stream = frame(2, 5, &zlib(&stream));
    }
    assert_eq!(parse_message(&stream).unwrap().len(), 1);
    let deeper = frame(2, 5, &zlib(&stream));
    assert_eq!(parse_message(&deeper).unwrap_err(), CodecError::TooDeep);
    assert_eq!(
        parse_frame_bounded(&frame(2, 5, &zlib(&[])), 0).unwrap_err(),
        CodecError::TooDeep
    );
    assert!(parse_frame_bounded(&frame(2, 5, &zlib(&[])), 1).unwrap().is_empty());
}

#[test]
fn first_failing_frame_decides() {
    let mut buffer = frame(0, 5, CHAT.as_bytes());
    buffer.extend_from_slice(&frame(0, 5, b"[]"));
    buffer.extend_from_slice(&frame(0, 5, b"nope"));
    assert_eq!(parse_message(&buffer).unwrap_err(), CodecError::BadShape);
    assert!(parse_message(&[]).unwrap().is_empty());
}

#[test]
fn message_events_keep_frame_order() {
    let mut buffer = frame(0, 5, GIFT.as_bytes());
    buffer.extend_from_slice(&frame(0, 5, CHAT.as_bytes()));
    buffer.extend_from_slice(&[0, 0, 0, 3]);
    let events = parse_message(&buffer).unwrap();
    assert_eq!(
        lines(&events),
        vec![Some("bob: sends rose\n".to_string()), Some("alice: hello".to_string())]
    );
}

#[test]
fn json_tree_keeps_values() {
    let doc = parse_json(b"{\"b\":[null,true,1.5,\"s\"],\"a\":{\"k\":-7}}").unwrap();
    let members = match doc {
        Json::Object(members) => members,
        other => panic!("{:?}", other),
    };
    assert_eq!(members.len(), 2);
    let at = find_member(&members, &"b".to_string()).unwrap();
    match &members[at].value {
        Json::List(items) => {
            assert_eq!(items.len(), 4);
            assert!(matches!(items[0], Json::Null));
            assert!(matches!(items[1], Json::Bool(true)));
            assert!(matches!(&items[2], Json::Number(n) if n == "1.5"));
            assert!(matches!(&items[3], Json::Text(s) if s == "s"));
        }
        other => panic!("{:?}", other),
    }
    let at = find_member(&members, &"a".to_string()).unwrap();
    match &members[at].value {
        Json::Object(inner) => {
            assert_eq!(inner.len(), 1);
            assert_eq!(inner[0].key, "k");
            assert!(matches!(&inner[0].value, Json::Number(n) if n == "-7"));
        }
        other => panic!("{:?}", other),
    }
    assert!(find_member(&members, &"c".to_string()).is_none());
    assert!(parse_json(b"{").is_none());
}

#[test]
fn find_member_takes_the_first() {
    let members = vec![
        Member { key: "k".to_string(), value: Json::Bool(false) },
        Member { key: "k".to_string(), value: Json::Bool(true) },
    ];
    assert_eq!(find_member(&members, &"k".to_string()), Some(0));
    assert_eq!(find_member(&Vec::new(), &"k".to_string()), None);
}

#[test]
fn event_from_built_document() {
    let doc = Json::Object(vec![
        Member { key: "info".to_string(), value: Json::List(vec![Json::Null]) },
        Member { key: "cmd".to_string(), value: Json::Text("X".to_string()) },
    ]);
    let event = live_msg_from_json(doc).unwrap();
    assert_eq!(event.cmd, "X");
    assert_eq!(event.info.len(), 1);
    assert!(live_msg_from_json(Json::List(Vec::new())).is_none());
    assert_eq!(event_from_document(None).unwrap_err(), CodecError::BadJson);
    assert_eq!(event_from_document(Some(Json::Null)).unwrap_err(), CodecError::BadShape);
    assert_eq!(event_from_document(Some(Json::Object(Vec::new()))).unwrap().len(), 1);
}

#[test]
fn handshake_for_room_12345() {
    let message = build_init_msg("12345");
    let body = b"{\"roomid\":12345}";
    assert_eq!(read_u32(&message, 0) as usize, 16 + body.len());
    assert_eq!(message.len(), 16 + body.len());
    assert_eq!(&message[..4], &[0, 0, 0, 32]);
    assert_eq!(&message[4..16], &[0, 16, 0, 1, 0, 0, 0, 7, 0, 0, 0, 1]);
    assert_eq!(&message[16..], &body[..]);
}

#[test]
fn handshake_takes_the_room_as_it_is() {
    let message = build_init_msg("");
    assert_eq!(&message[..4], &[0, 0, 0, 27]);
    assert_eq!(&message[16..], b"{\"roomid\":}");
    let message = build_init_msg("a\"b");
    assert_eq!(&message[16..], b"{\"roomid\":a\"b}");
    let long = "7".repeat(300);
    let message = build_init_msg(&long);
    assert_eq!(&message[..4], &[0, 0, 1, 71]);
    assert_eq!(message.len(), 327);
}

#[test]
fn heartbeat_frame_bytes() {
    assert_eq!(
        heartbeat_frame(),
        vec![0x00, 0x00, 0x00, 0x10, 0x00, 0x10, 0x00, 0x01, 0x00, 0x00, 0x00, 0x02, 0x00, 0x00,
            0x00, 0x01]
    );
}

#[test]
fn copies_keep_the_tree() {
    let event = parse_frame(&frame(0, 5, CHAT.as_bytes())).unwrap().remove(0);
    let copy = event.clone();
    assert_eq!(copy.cmd, event.cmd);
    assert_eq!(copy.display_text(), Some("alice: hello".to_string()));
    assert_eq!(format!("{:?}", copy.info), format!("{:?}", event.info));
    let doc = parse_json(b"{\"a\":[1,{\"b\":null}],\"c\":\"d\"}").unwrap();
    assert_eq!(format!("{:?}", doc.duplicate()), format!("{:?}", doc));
    assert_eq!(format!("{:?}", doc.clone()), format!("{:?}", doc));
}
