use rove::command_router::proto::{JointState, RoveControl};
use rove::frame::{following_seq, frame, parse, MSG_COMMAND, MSG_DATA};
use rove::json::{parse_json, Json, NotJson};
use rove::text::{append_decimal, chars_of, endpoint, is_blank, parse_u8, same_text};
use rove::wire::{
    is_valid, read_fields, read_fixed32, read_message, read_varint, FieldContent, FieldKind,
    FieldSpec, Schema, NESTING_LIMIT,
};

#[test]
fn frames_round_trip() {
    let bytes = frame(MSG_COMMAND, 0x1234, b"abc");
    assert_eq!(bytes, vec![1, 0x10, 0x34, 0x12, b'a', b'b', b'c']);
    assert_eq!(parse(&bytes), Some((MSG_COMMAND, 0x1234, &b"abc"[..])));
    assert_eq!(parse(&[1, 3, 0xFF, 0xFF]), Some((MSG_DATA, 0xFFFF, &[][..])));
    assert_eq!(parse(&[1, 3, 0]), None);
    assert_eq!(parse(&[2, 3, 0, 0, 0]), None);
    assert_eq!(following_seq(9), 10);
    assert_eq!(following_seq(u16::MAX), 0);
}

#[test]
fn json_is_read_into_a_tree() {
    let doc = parse_json(
        br#"{"n": null, "b": true, "u": 18446744073709551615, "i": -3, "d": 1.5, "s": "x", "l": [1, []], "b2": false}"#,
    )
    .unwrap();
    assert!(doc.get("n").unwrap().is_null());
    assert_eq!(doc.bool_at("b"), Some(true));
    assert_eq!(doc.u64_at("u"), Some(u64::MAX));
    assert_eq!(doc.i64_at("u"), None);
    assert_eq!(doc.i64_at("i"), Some(-3));
    assert_eq!(doc.u64_at("i"), None);
    assert_eq!(doc.double_at("i"), Some((-3.0f64).to_bits()));
    assert_eq!(doc.double_at("d"), Some(1.5f64.to_bits()));
    assert_eq!(doc.u64_at("d"), None);
    assert_eq!(doc.text_at("s"), Some("x"));
    assert_eq!(doc.text_at("d"), None);
    assert_eq!(doc.get("l").unwrap().as_list().unwrap().len(), 2);
    assert_eq!(doc.get("s").unwrap().as_bool(), None);
    assert!(doc.get("missing").is_none());
    assert!(doc.get("l").unwrap().get("n").is_none());
    let copy = doc.copy();
    assert_eq!(copy.get("b2").unwrap().as_bool(), Some(false));
    assert_eq!(copy.get("s").unwrap().as_text(), Some("x"));
    assert_eq!(format!("{:?}", copy), format!("{:?}", doc));
}

#[test]
fn later_keys_win_and_bad_text_is_refused() {
    assert_eq!(parse_json(br#"{"a": 1, "a": 2}"#).unwrap().u64_at("a"), Some(2));
    assert!(matches!(parse_json(b"{} x"), Err(NotJson)));
    assert!(matches!(parse_json(b""), Err(NotJson)));
    assert!(matches!(parse_json(b" [] "), Ok(Json::List(items)) if items.is_empty()));
}

#[test]
fn texts() {
    let mut out = "n=".to_string();
    append_decimal(&mut out, 0);
    append_decimal(&mut out, 10_203);
    append_decimal(&mut out, u64::MAX);
    assert_eq!(out, "n=01020318446744073709551615");
    assert_eq!(endpoint("host", 65535), "host:65535");
    assert!(same_text("é", "é"));
    assert!(!same_text("a", "b"));
    assert_eq!(chars_of("aé€"), vec!['a', 'é', '€']);
}

#[test]
fn small_numbers_parse_like_the_standard_library() {
    let samples =
        ["", "+", "-", "0", "255", "256", "+7", "007", "0000000000255", "-1", "1 ", "++1", "a", "٣"];
    for s in samples {
        assert_eq!(parse_u8(&chars_of(s), 0), s.parse::<u8>().ok(), "{:?}", s);
    }
    assert_eq!(parse_u8(&chars_of("node12"), 4), Some(12));
    for n in 0..=300u32 {
        let s = n.to_string();
        assert_eq!(parse_u8(&chars_of(&s), 0), s.parse::<u8>().ok());
    }
}

#[test]
fn blank_texts_are_those_that_trim_to_nothing() {
    assert!(is_blank(""));
    assert!(is_blank(" \t\r\n\u{3000}"));
    assert!(!is_blank(" x "));
    for c in (0..=0x10FFFFu32).filter_map(char::from_u32) {
        let s = c.to_string();
        assert_eq!(is_blank(&s), s.trim().is_empty(), "{:?}", c);
    }
}

fn joint(vel: f32, pos_deg: f32, torque: f32) -> Vec<u8> {
    let mut out = Vec::new();
    prost::encoding::float::encode(1, &vel, &mut out);
    prost::encoding::float::encode(2, &pos_deg, &mut out);
    prost::encoding::float::encode(3, &torque, &mut out);
    out
}

fn embed(tag: u32, payload: &[u8], out: &mut Vec<u8>) {
    prost::encoding::bytes::encode(tag, &payload.to_vec(), out);
}

#[test]
fn control_messages_decode() {
    let mut flippers = Vec::new();
    embed(1, &joint(1.0, 2.0, 3.0), &mut flippers);
    embed(4, &[], &mut flippers);
    let mut ovis = Vec::new();
    embed(6, &joint(-1.0, 0.5, 0.0), &mut ovis);
    let mut msg = Vec::new();
    embed(2, &flippers, &mut msg);
    embed(3, &ovis, &mut msg);
    prost::encoding::uint64::encode(4, &u64::MAX, &mut msg);
    let decoded = RoveControl::decode(&msg).unwrap();
    assert!(decoded.tracks.is_none());
    assert_eq!(decoded.timestamp_us, u64::MAX);
    let flippers = decoded.flippers.unwrap();
    assert_eq!(
        flippers.fl,
        Some(JointState {
            vel: 1.0f32.to_bits(),
            pos_deg: 2.0f32.to_bits(),
            torque: 3.0f32.to_bits(),
        })
    );
    assert_eq!(flippers.rr, Some(JointState { vel: 0, pos_deg: 0, torque: 0 }));
    assert!(flippers.fr.is_none());
    assert_eq!(decoded.ovis.unwrap().act_6.unwrap().vel, (-1.0f32).to_bits());
}

#[test]
fn repeated_messages_merge() {
    let mut first = Vec::new();
    prost::encoding::float::encode(1, &1.0f32, &mut first);
    prost::encoding::float::encode(2, &2.0f32, &mut first);
    let mut second = Vec::new();
    prost::encoding::float::encode(2, &5.0f32, &mut second);
    let mut msg = Vec::new();
    embed(1, &first, &mut msg);
    prost::encoding::uint64::encode(4, &1u64, &mut msg);
    embed(1, &second, &mut msg);
    prost::encoding::uint64::encode(4, &2u64, &mut msg);
    let decoded = RoveControl::decode(&msg).unwrap();
    let tracks = decoded.tracks.unwrap();
    assert_eq!(tracks.left_vel, 1.0f32.to_bits());
    assert_eq!(tracks.right_vel, 5.0f32.to_bits());
    assert_eq!(decoded.timestamp_us, 2);
}

#[test]
fn malformed_messages_are_refused() {
    assert!(RoveControl::decode(b"").is_some());
    assert!(RoveControl::decode(b"GARBAGE_BYTES_NOT_A_VALID_PROTO_MESSAGE").is_none());
    assert!(RoveControl::decode(&[0x0A]).is_none());
    assert!(RoveControl::decode(&[0x0A, 0x05, 0x00]).is_none());
    assert!(RoveControl::decode(&[0x08, 0x01]).is_none());
    assert!(RoveControl::decode(&[0x20]).is_none());
    assert!(RoveControl::decode(&[0x00]).is_none());
    assert!(RoveControl::decode(&[0x20, 0xFF, 0xFF, 0xFF, 0xFF, 0xFF, 0xFF, 0xFF, 0xFF, 0xFF, 0x02])
        .is_none());
    assert_eq!(
        RoveControl::decode(&[0x20, 0xFF, 0xFF, 0xFF, 0xFF, 0xFF, 0xFF, 0xFF, 0xFF, 0xFF, 0x01])
            .unwrap()
            .timestamp_us,
        u64::MAX
    );
}

#[test]
fn unknown_fields_are_skipped() {
    let mut msg = Vec::new();
    prost::encoding::uint64::encode(90, &7u64, &mut msg);
    prost::encoding::double::encode(91, &7.0f64, &mut msg);
    prost::encoding::float::encode(92, &7.0f32, &mut msg);
    embed(93, b"anything", &mut msg);
    msg.extend_from_slice(&[0x2B, 0x08, 0x01, 0x2C]);
    prost::encoding::uint64::encode(4, &3u64, &mut msg);
    assert_eq!(RoveControl::decode(&msg).unwrap().timestamp_us, 3);
    assert!(RoveControl::decode(&[0x2B, 0x08, 0x01]).is_none());
    assert!(RoveControl::decode(&[0x2B, 0x34]).is_none());
    assert!(RoveControl::decode(&[0x2C]).is_none());
}

#[test]
fn decoding_agrees_with_field_merging() {
    let schema = Schema {
        messages: vec![vec![
            FieldSpec { tag: 1, kind: FieldKind::Varint },
            FieldSpec { tag: 2, kind: FieldKind::Fixed64 },
            FieldSpec { tag: 3, kind: FieldKind::Message(0) },
        ]],
    };
    let mut msg = Vec::new();
    prost::encoding::uint64::encode(1, &300u64, &mut msg);
    prost::encoding::double::encode(2, &2.5f64, &mut msg);
    embed(3, &[0x08, 0x05], &mut msg);
    assert!(is_valid(&schema, 0, &msg, NESTING_LIMIT));
    let fields = read_fields(&schema.messages[0], &msg, NESTING_LIMIT).unwrap();
    assert_eq!(fields.len(), 3);
    assert_eq!(read_varint(&fields, 1), 300);
    assert!(matches!(fields[1].value, FieldContent::Fixed64(bits) if bits == 2.5f64.to_bits()));
    assert_eq!(read_fixed32(&fields, 2), 0);
    assert_eq!(read_message(&fields, 3), Some(vec![0x08, 0x05]));
    assert_eq!(read_message(&fields, 4), None);
}

#[test]
fn nesting_is_limited() {
    let schema = Schema { messages: vec![vec![FieldSpec { tag: 1, kind: FieldKind::Message(0) }]] };
    let nested = |depth: usize| {
        let mut msg = Vec::new();
        for _ in 0..depth {
            let mut outer = Vec::new();
            embed(1, &msg, &mut outer);
            msg = outer;
        }
        msg
    };
    assert!(is_valid(&schema, 0, &nested(3), 3));
    assert!(!is_valid(&schema, 0, &nested(4), 3));
    assert!(is_valid(&schema, 0, &nested(100), NESTING_LIMIT));
    assert!(!is_valid(&schema, 0, &nested(101), NESTING_LIMIT));
}
