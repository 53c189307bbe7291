use iso8583_rs::crypto::pin::{verify_pin, PinFormat};
use iso8583_rs::iso8583::client::encode_request;
use iso8583_rs::iso8583::config::Config;
use iso8583_rs::iso8583::field::{Encoding, Field};
use iso8583_rs::iso8583::iso_spec::{new_msg, IsoMsg, MessageSegment, Spec};
use iso8583_rs::iso8583::mli::MLIType;
use iso8583_rs::iso8583::reader::ByteReader;
use iso8583_rs::iso8583::server::{step, ConnAction, ConnEvent, ConnState};
use iso8583_rs::iso8583::yaml_de::{YField, YMessageSegment, YSpec};
use iso8583_rs::iso8583::ErrorKind;

fn fixed(name: &str, len: u32, enc: Encoding, position: Option<u32>) -> YField {
    YField {
        name: name.to_string(),
        id: 0,
        len,
        field_type: "Fixed".to_string(),
        len_encoding: None,
        data_encoding: enc,
        position,
        children: None,
    }
}

fn var(name: &str, len: u32, len_enc: Encoding, enc: Encoding, position: u32) -> YField {
    YField {
        name: name.to_string(),
        id: 0,
        len,
        field_type: "Variable".to_string(),
        len_encoding: Some(len_enc),
        data_encoding: enc,
        position: Some(position),
        children: None,
    }
}

fn bitmap(children: Vec<YField>) -> YField {
    YField {
        name: "bitmap".to_string(),
        id: 0,
        len: 0,
        field_type: "Bitmapped".to_string(),
        len_encoding: None,
        data_encoding: Encoding::BINARY,
        position: None,
        children: Some(children),
    }
}

fn children() -> Vec<YField> {
    vec![
        var("pan", 2, Encoding::ASCII, Encoding::ASCII, 2),
        fixed("proc_code", 6, Encoding::ASCII, Some(3)),
        fixed("amount", 12, Encoding::ASCII, Some(4)),
        fixed("stan", 6, Encoding::ASCII, Some(11)),
        fixed("expiration_date", 4, Encoding::ASCII, Some(14)),
        fixed("country_code", 3, Encoding::EBCDIC, Some(19)),
        fixed("approval_code", 6, Encoding::ASCII, Some(38)),
        fixed("action_code", 3, Encoding::ASCII, Some(39)),
        fixed("pin_data", 8, Encoding::BINARY, Some(52)),
        var("private_1", 3, Encoding::ASCII, Encoding::ASCII, 61),
        var("private_2", 3, Encoding::EBCDIC, Encoding::ASCII, 62),
        var("private_3", 3, Encoding::ASCII, Encoding::EBCDIC, 63),
        fixed("mac_1", 8, Encoding::BINARY, Some(64)),
        var("key_mgmt_data", 3, Encoding::ASCII, Encoding::ASCII, 96),
        var("reserved_data", 3, Encoding::ASCII, Encoding::ASCII, 160),
    ]
}

fn segment(name: &str, selector: &[&str]) -> YMessageSegment {
    YMessageSegment {
        name: name.to_string(),
        id: 1,
        selector: selector.iter().map(|s| s.to_string()).collect(),
        fields: vec![fixed("message_type", 4, Encoding::ASCII, None), bitmap(children())],
    }
}

fn sample_spec() -> &'static Spec {
    let y = YSpec {
        name: "SampleSpec".to_string(),
        id: 7,
        messages: vec![
            segment("1100 - Authorization", &["1100", "1101"]),
            segment("1110 - Authorization Response", &["1110"]),
            segment("1420 - Reversal", &["1420"]),
        ],
        header_fields: vec![fixed("message_type", 4, Encoding::ASCII, None)],
    };
    Box::leak(Box::new(y.into().unwrap()))
}

fn request(spec: &'static Spec) -> IsoMsg {
    let seg = spec.get_message_from_header("1100").unwrap();
    let mut m = new_msg(spec, seg);
    m.set("message_type", "1100").unwrap();
    m.set_on(2, "123456789101").unwrap();
    m.set_on(3, "004000").unwrap();
    m.set_on(4, "000000000199").unwrap();
    m.set_on(11, "779581").unwrap();
    m.set_on(14, "2204").unwrap();
    m
}

fn wire_1100() -> Vec<u8> {
    let mut raw: Vec<u8> = Vec::new();
    raw.extend_from_slice(b"1100");
    raw.extend_from_slice(&hex::decode("7024000000000000").unwrap());
    raw.extend_from_slice(b"12");
    raw.extend_from_slice(b"123456789101");
    raw.extend_from_slice(b"004000");
    raw.extend_from_slice(b"000000000199");
    raw.extend_from_slice(b"779581");
    raw.extend_from_slice(b"2204");
    raw
}

#[test]
fn test_spec_conversion() {
    let spec = sample_spec();
    assert_eq!(spec.name(), "SampleSpec");
    assert_eq!(spec.id, 7);
    assert_eq!(spec.messages.len(), 3);
    assert_eq!(spec.header_fields.len(), 1);
    let seg = spec.get_message("1420 - Reversal").unwrap();
    assert_eq!(seg.name(), "1420 - Reversal");
    assert_eq!(seg.fields.len(), 2);
    match &seg.fields[1] {
        Field::Bitmapped(b) => {
            assert_eq!(b.children.len(), 15);
            assert_eq!(b.by_position(39).unwrap().name(), "action_code");
            assert_eq!(b.child_by_pos(62).unwrap().position(), 62);
            assert_eq!(b.child_by_name(&"stan".to_string()).unwrap().position(), 11);
            let e = b.by_position(5).unwrap_err();
            assert_eq!((e.kind, e.position), (ErrorKind::UndefinedField, 5));
            match b.by_position(62).unwrap() {
                Field::Variable(v) => {
                    assert_eq!(v.len, 3);
                    assert_eq!(v.len_encoding, Encoding::EBCDIC);
                    assert_eq!(v.encoding, Encoding::ASCII);
                }
                _ => panic!("not a variable field"),
            }
        }
        _ => panic!("not a bitmapped field"),
    }
    let e = spec.get_message("none").unwrap_err();
    assert_eq!((e.kind, e.msg.as_str()), (ErrorKind::UnknownMessage, "none"));
}

#[test]
fn test_conversion_errors() {
    let mut bad = fixed("x", 1, Encoding::ASCII, None);
    bad.field_type = "Weird".to_string();
    let e = YField::into(&bad).err().unwrap();
    assert_eq!((e.kind, e.msg.as_str()), (ErrorKind::Unsupported, "Weird"));
    let mut v = var("v", 2, Encoding::ASCII, Encoding::ASCII, 2);
    v.len_encoding = None;
    let e = YField::into(&v).err().unwrap();
    assert_eq!((e.kind, e.msg.as_str()), (ErrorKind::Unsupported, "v"));
    let e = YField::into(&bitmap(vec![fixed("a", 1, Encoding::ASCII, Some(2)), v])).err().unwrap();
    assert_eq!((e.kind, e.msg.as_str()), (ErrorKind::Unsupported, "v"));
    let ys = YSpec {
        name: "s".to_string(),
        id: 1,
        messages: vec![YMessageSegment {
            name: "m".to_string(),
            id: 1,
            selector: vec![],
            fields: vec![bad],
        }],
        header_fields: vec![],
    };
    assert_eq!(ys.into().err().unwrap().kind, ErrorKind::Unsupported);
    let e = MessageSegment::from(&YMessageSegment {
        name: "m".to_string(),
        id: 1,
        selector: vec![],
        fields: vec![bitmap(vec![])],
    });
    assert!(e.is_ok());
}

#[test]
fn test_segment_by_header() {
    let spec = sample_spec();
    assert_eq!(spec.get_message_from_header("1100").unwrap().name(), "1100 - Authorization");
    assert_eq!(spec.get_message_from_header("1101").unwrap().name(), "1100 - Authorization");
    assert_eq!(spec.get_message_from_header("1110").unwrap().name(), "1110 - Authorization Response");
    let e = spec.get_message_from_header("9999").unwrap_err();
    assert_eq!((e.kind, e.msg.as_str()), (ErrorKind::UnknownMessage, "9999"));
    assert_eq!(spec.get_msg_segment(&wire_1100()).unwrap().name(), "1100 - Authorization");
    let e = spec.get_msg_segment(&b"11".to_vec()).unwrap_err();
    assert_eq!((e.kind, e.msg.as_str()), (ErrorKind::Truncated, "message_type"));
    let e = spec.get_msg_segment(&b"8888".to_vec()).unwrap_err();
    assert_eq!((e.kind, e.msg.as_str()), (ErrorKind::UnknownMessage, "8888"));
    let e = spec.get_msg_segment(&vec![0x31, 0x31, 0x80, 0x30]).unwrap_err();
    assert_eq!((e.kind, e.msg.as_str()), (ErrorKind::BadEncoding, "message_type"));
}

#[test]
fn test_assemble_1100() {
    let spec = sample_spec();
    let m = request(spec);
    assert_eq!(m.spec().name(), "SampleSpec");
    assert_eq!(m.assemble().unwrap(), wire_1100());
    assert_eq!(m.bmp.hex_string(), "702400000000000000000000000000000000000000000000");
}

#[test]
fn test_parse_1100() {
    let spec = sample_spec();
    let m = spec.parse(&wire_1100()).unwrap();
    assert_eq!(m.msg.name(), "1100 - Authorization");
    assert_eq!(m.get_field_value(&"message_type".to_string()).unwrap(), "1100");
    assert_eq!(m.get_field_value(&"bitmap".to_string()).unwrap(), "7024000000000000");
    assert_eq!(m.bmp_child_value(2).unwrap(), "123456789101");
    assert_eq!(m.bmp_child_value(3).unwrap(), "004000");
    assert_eq!(m.bmp_child_value(4).unwrap(), "000000000199");
    assert_eq!(m.bmp_child_value(11).unwrap(), "779581");
    assert_eq!(m.bmp_child_value(14).unwrap(), "2204");
    assert_eq!((m.bmp.p_bmp, m.bmp.s_bmp, m.bmp.t_bmp), (0x7024000000000000, 0, 0));
    assert_eq!(m.fd_map.get(&"pan".to_string()).unwrap(), &b"123456789101".to_vec());
    assert!(m.fd_map.contains_key(&"bitmap".to_string()));
    assert!(!m.fd_map.contains_key(&"action_code".to_string()));
    let e = m.bmp_child_value(39).unwrap_err();
    assert_eq!((e.kind, e.msg.as_str(), e.position), (ErrorKind::MissingField, "action_code", 39));
    let e = m.bmp_child_value(5).unwrap_err();
    assert_eq!((e.kind, e.position), (ErrorKind::UndefinedField, 5));
    let e = m.get_field_value(&"pan".to_string()).unwrap_err();
    assert_eq!(e.kind, ErrorKind::UndefinedField);
}

#[test]
fn test_parse_leaves_residual_bytes() {
    let spec = sample_spec();
    let mut raw = wire_1100();
    raw.extend_from_slice(b"leftover");
    let m = spec.parse(&raw).unwrap();
    assert_eq!(m.assemble().unwrap(), wire_1100());
}

#[test]
fn test_round_trip_with_three_bitmaps() {
    let spec = sample_spec();
    let mut m = request(spec);
    m.set_on(19, "840").unwrap();
    m.set_on(52, "0102030405060708").unwrap();
    m.set_on(61, "reserved_1").unwrap();
    m.set_on(62, "reserved-2").unwrap();
    m.set_on(63, "87877622525").unwrap();
    m.set_on(96, "1234").unwrap();
    m.set_on(160, "5678").unwrap();
    let wire = m.assemble().unwrap();
    assert_eq!(&wire[0..4], b"1100");
    assert_eq!(
        hex::encode(&wire[4..28]),
        "f02420000000100e80000001000000000000000100000000"
    );
    let back = spec.parse(&wire).unwrap();
    assert_eq!((back.bmp.p_bmp, back.bmp.s_bmp, back.bmp.t_bmp), (m.bmp.p_bmp, m.bmp.s_bmp, m.bmp.t_bmp));
    for pos in [2u32, 3, 4, 11, 14, 19, 52, 61, 62, 63, 96, 160] {
        assert_eq!(back.bmp_child_value(pos).unwrap(), m.bmp_child_value(pos).unwrap());
    }
    assert_eq!(back.bmp_child_value(19).unwrap(), "840");
    assert_eq!(back.fd_map.get(&"country_code".to_string()).unwrap(), &vec![0xf8, 0xf4, 0xf0]);
    assert_eq!(back.bmp_child_value(52).unwrap(), "0102030405060708");
    assert_eq!(back.fd_map.get(&"pin_data".to_string()).unwrap(), &vec![1, 2, 3, 4, 5, 6, 7, 8]);
    assert_eq!(back.bmp_child_value(63).unwrap(), "87877622525");
    assert_eq!(back.assemble().unwrap(), wire);
    // what was parsed holds the bitmap's wire form as well
    assert_eq!(back.fd_map.get(&"bitmap".to_string()).unwrap(), &m.bmp.as_vec());
}

#[test]
fn test_variable_field_indicators() {
    let spec = sample_spec();
    let mut m = request(spec);
    m.set_on(61, "abc").unwrap();
    m.set_on(62, "abcde").unwrap();
    let wire = m.assemble().unwrap();
    let tail = &wire[wire.len() - (3 + 3 + 3 + 5)..];
    assert_eq!(&tail[0..6], b"003abc");
    assert_eq!(&tail[6..9], &[0xf0, 0xf0, 0xf5]);
    assert_eq!(&tail[9..], b"abcde");
}

#[test]
fn test_parse_failures() {
    let spec = sample_spec();
    // pan indicator says 12 but fewer bytes follow
    let mut raw = b"1100".to_vec();
    raw.extend_from_slice(&hex::decode("4000000000000000").unwrap());
    raw.extend_from_slice(b"12123");
    let e = spec.parse(&raw).err().unwrap();
    assert_eq!((e.kind, e.msg.as_str(), e.position), (ErrorKind::Truncated, "pan", 2));
    // indicator that is no number
    let mut raw = b"1100".to_vec();
    raw.extend_from_slice(&hex::decode("4000000000000000").unwrap());
    raw.extend_from_slice(b"1x123");
    let e = spec.parse(&raw).err().unwrap();
    assert_eq!((e.kind, e.msg.as_str()), (ErrorKind::BadLengthIndicator, "pan"));
    // a sign is no digit
    let mut raw = b"1100".to_vec();
    raw.extend_from_slice(&hex::decode("4000000000000000").unwrap());
    raw.extend_from_slice(b"+3123");
    let e = spec.parse(&raw).err().unwrap();
    assert_eq!(e.kind, ErrorKind::BadLengthIndicator);
    // bit 5 is on but the dialect defines no field there
    let mut raw = b"1100".to_vec();
    raw.extend_from_slice(&hex::decode("0800000000000000").unwrap());
    let e = spec.parse(&raw).err().unwrap();
    assert_eq!((e.kind, e.msg.as_str(), e.position), (ErrorKind::UndefinedField, "bitmap", 5));
    // the bitmap itself is cut short
    let mut raw = b"1100".to_vec();
    raw.extend_from_slice(&hex::decode("c000000000000000").unwrap());
    let e = spec.parse(&raw).err().unwrap();
    assert_eq!((e.kind, e.msg.as_str()), (ErrorKind::Truncated, "bitmap"));
    // fixed field cut short
    let mut raw = b"1100".to_vec();
    raw.extend_from_slice(&hex::decode("2000000000000000").unwrap());
    raw.extend_from_slice(b"00400");
    let e = spec.parse(&raw).err().unwrap();
    assert_eq!((e.kind, e.msg.as_str(), e.position), (ErrorKind::Truncated, "proc_code", 3));
    let e = spec.parse(&b"99".to_vec()).err().unwrap();
    assert_eq!(e.kind, ErrorKind::Truncated);
    let e = spec.parse(&b"9999".to_vec()).err().unwrap();
    assert_eq!((e.kind, e.msg.as_str()), (ErrorKind::UnknownMessage, "9999"));
}

#[test]
fn test_indicator_positions_carry_no_field() {
    let spec = sample_spec();
    // positions 1 and 65 on, nothing else: three bitmaps and no field
    let mut raw = b"1100".to_vec();
    raw.extend_from_slice(&hex::decode("800000000000000080000000000000000000000000000000").unwrap());
    let m = spec.parse(&raw).unwrap();
    assert!(m.bmp.is_on(1).unwrap() && m.bmp.is_on(65).unwrap());
    assert_eq!(m.assemble().unwrap(), raw);
    // position 129 on carries no field either
    let mut raw = b"1100".to_vec();
    raw.extend_from_slice(&hex::decode("800000000000000080000000000000008000000000000000").unwrap());
    let m = spec.parse(&raw).unwrap();
    assert!(m.bmp.is_on(129).unwrap());
    assert_eq!(m.assemble().unwrap(), raw);
}

#[test]
fn test_set_failures_change_nothing() {
    let spec = sample_spec();
    let mut m = request(spec);
    let before = m.assemble().unwrap();
    let e = m.set("nothing", "1").unwrap_err();
    assert_eq!((e.kind, e.msg.as_str()), (ErrorKind::UndefinedField, "nothing"));
    let e = m.set_on(5, "1").unwrap_err();
    assert_eq!((e.kind, e.position), (ErrorKind::UndefinedField, 5));
    let e = m.set_on(0, "1").unwrap_err();
    assert_eq!((e.kind, e.position), (ErrorKind::BadPosition, 0));
    let e = m.set_on(193, "1").unwrap_err();
    assert_eq!((e.kind, e.position), (ErrorKind::BadPosition, 193));
    let e = m.set_on(52, "01020g").unwrap_err();
    assert_eq!((e.kind, e.msg.as_str(), e.position), (ErrorKind::BadEncoding, "pin_data", 52));
    let e = m.set_on(52, "012").unwrap_err();
    assert_eq!(e.kind, ErrorKind::BadEncoding);
    let e = m.set_on(3, "caf\u{e9}").unwrap_err();
    assert_eq!(e.kind, ErrorKind::BadEncoding);
    let e = m.set("bitmap", "00").unwrap_err();
    assert_eq!(e.kind, ErrorKind::Unsupported);
    assert_eq!(m.assemble().unwrap(), before);
    assert!(!m.bmp.is_on(52).unwrap());
}

#[test]
fn test_set_reaches_bitmap_children_by_name() {
    let spec = sample_spec();
    let mut m = request(spec);
    m.set("stan", "000001").unwrap();
    assert_eq!(m.bmp_child_value(11).unwrap(), "000001");
    m.set("action_code", "000").unwrap();
    // set stores the value but turns no bit on
    assert!(!m.bmp.is_on(39).unwrap());
    assert_eq!(m.bmp_child_value(39).unwrap(), "000");
}

#[test]
fn test_assemble_failures() {
    let spec = sample_spec();
    let seg = spec.get_message_from_header("1100").unwrap();
    let mut m = new_msg(spec, seg);
    let e = m.assemble().unwrap_err();
    assert_eq!((e.kind, e.msg.as_str()), (ErrorKind::MissingField, "message_type"));
    m.set("message_type", "1100").unwrap();
    m.bmp.set_on(3).unwrap();
    let e = m.assemble().unwrap_err();
    assert_eq!((e.kind, e.msg.as_str(), e.position), (ErrorKind::MissingField, "proc_code", 3));
    let mut m = new_msg(spec, seg);
    m.set("message_type", "1100").unwrap();
    m.bmp.set_on(5).unwrap();
    let e = m.assemble().unwrap_err();
    assert_eq!((e.kind, e.position), (ErrorKind::UndefinedField, 5));
    // a pan longer than two digits can declare
    let mut m = new_msg(spec, seg);
    m.set("message_type", "1100").unwrap();
    let long: String = "1".repeat(100);
    m.set_on(2, &long).unwrap();
    let e = m.assemble().unwrap_err();
    assert_eq!((e.kind, e.msg.as_str(), e.position), (ErrorKind::BadLengthIndicator, "pan", 2));
    let ok: String = "1".repeat(99);
    m.set_on(2, &ok).unwrap();
    let wire = m.assemble().unwrap();
    assert_eq!(&wire[12..14], b"99");
}

#[test]
fn test_echo_from() {
    let spec = sample_spec();
    let req = spec.parse(&wire_1100()).unwrap();
    let seg = spec.get_message_from_header("1110").unwrap();
    let mut resp = new_msg(spec, seg);
    resp.set("message_type", "1110").unwrap();
    resp.echo_from(&req, &[2, 3, 4, 11, 14]).unwrap();
    resp.set_on(39, "100").unwrap();
    for pos in [2u32, 3, 4, 11, 14] {
        assert_eq!(resp.bmp_child_value(pos).unwrap(), req.bmp_child_value(pos).unwrap());
        assert_eq!(
            resp.fd_map.get(seg_name(spec, pos)).unwrap(),
            req.fd_map.get(seg_name(spec, pos)).unwrap()
        );
    }
    let wire = resp.assemble().unwrap();
    let back = spec.parse(&wire).unwrap();
    assert_eq!(back.msg.name(), "1110 - Authorization Response");
    assert_eq!(back.bmp_child_value(39).unwrap(), "100");
    assert_eq!(back.bmp_child_value(2).unwrap(), "123456789101");
}

fn seg_name(spec: &'static Spec, pos: u32) -> &'static String {
    spec.messages[0].bitmap_child(pos).unwrap().name()
}

#[test]
fn test_echo_from_stops_at_the_first_failure() {
    let spec = sample_spec();
    let req = spec.parse(&wire_1100()).unwrap();
    let seg = spec.get_message_from_header("1110").unwrap();
    let mut resp = new_msg(spec, seg);
    let e = resp.echo_from(&req, &[2, 3, 19, 4]).unwrap_err();
    assert_eq!((e.kind, e.msg.as_str(), e.position), (ErrorKind::MissingField, "country_code", 19));
    assert!(resp.bmp.is_on(2).unwrap() && resp.bmp.is_on(3).unwrap());
    assert!(!resp.bmp.is_on(19).unwrap() && !resp.bmp.is_on(4).unwrap());
    assert_eq!(resp.bmp_child_value(3).unwrap(), "004000");
    assert_eq!(resp.bmp_child_value(4).unwrap_err().kind, ErrorKind::MissingField);
}

#[test]
fn test_field_lookup() {
    let spec = sample_spec();
    let seg = spec.get_message_from_header("1100").unwrap();
    assert_eq!(seg.field_by_name(&"message_type".to_string()).unwrap().position(), 0);
    assert_eq!(seg.field_by_name(&"amount".to_string()).unwrap().position(), 4);
    assert_eq!(seg.field_by_name(&"bitmap".to_string()).unwrap().name(), "bitmap");
    assert_eq!(seg.field_by_name(&"zzz".to_string()).unwrap_err().kind, ErrorKind::UndefinedField);
    assert_eq!(seg.bitmap_child(64).unwrap().name(), "mac_1");
    let e = seg.bitmap_child(65).unwrap_err();
    assert_eq!((e.kind, e.msg.as_str(), e.position), (ErrorKind::UndefinedField, "bitmap", 65));
    let f = seg.field_by_name(&"message_type".to_string()).unwrap();
    assert_eq!(f.child_by_pos(2).unwrap_err().kind, ErrorKind::UndefinedField);
    assert_eq!(f.child_by_name(&"pan".to_string()).unwrap_err().kind, ErrorKind::UndefinedField);
}

#[test]
fn test_set_pin() {
    let spec = sample_spec();
    let key = "e0f4543f3e2a2c5ffc7e5e5a222e3e4d";
    let mut cfg = Config::new();
    assert!(cfg.get_pin_fmt().is_none() && cfg.get_mac_key().is_none());
    let mut m = request(spec);
    let e = m.set_pin("1234", "4567909845671235", &cfg).unwrap_err();
    assert_eq!((e.kind, e.msg.as_str()), (ErrorKind::Unsupported, "config"));
    cfg.with_pin(PinFormat::ISO0, key.to_string()).with_mac(
        iso8583_rs::crypto::mac::MacAlgo::RetailMac,
        iso8583_rs::crypto::mac::PaddingType::Type1,
        key.to_string(),
    );
    assert_eq!(cfg.get_pin_fmt(), &Some(PinFormat::ISO0));
    assert_eq!(cfg.get_pin_key(), &Some(key.to_string()));
    assert_eq!(cfg.get_mac_key(), &Some(key.to_string()));
    assert_eq!(cfg.get_mac_algo(), &Some(iso8583_rs::crypto::mac::MacAlgo::RetailMac));
    assert_eq!(cfg.get_mac_padding(), &Some(iso8583_rs::crypto::mac::PaddingType::Type1));
    m.set_pin("1234", "4567909845671235", &cfg).unwrap();
    assert!(m.bmp.is_on(52).unwrap());
    let block = hex::decode(m.bmp_child_value(52).unwrap()).unwrap();
    assert!(verify_pin(&PinFormat::ISO0, "1234", &block, "4567909845671235", key).unwrap());
    let e = m.set_pin("12", "4567909845671235", &cfg).unwrap_err();
    assert_eq!((e.kind, e.msg.as_str()), (ErrorKind::Unsupported, "pin"));
    m.set_pin_block(&vec![9, 8, 7, 6, 5, 4, 3, 2]).unwrap();
    assert_eq!(m.bmp_child_value(52).unwrap(), "0908070605040302");
}

#[test]
fn test_encode_request() {
    let spec = sample_spec();
    let m = request(spec);
    let framed = encode_request(&MLIType::MLI2E, &m).unwrap();
    let wire = wire_1100();
    assert_eq!(&framed[0..2], &[0x00, wire.len() as u8]);
    assert_eq!(&framed[2..], &wire[..]);
    let framed = encode_request(&MLIType::MLI4I, &m).unwrap();
    assert_eq!(&framed[0..4], &[0, 0, 0, wire.len() as u8 + 4]);
    let seg = spec.get_message_from_header("1100").unwrap();
    let empty = new_msg(spec, seg);
    assert_eq!(encode_request(&MLIType::MLI2E, &empty).unwrap_err().kind, ErrorKind::MissingField);
}

#[test]
fn test_end_to_end_1100() {
    let spec = sample_spec();
    let mli = MLIType::MLI2E;
    for (amount, action_code) in [("000000000029", "000"), ("000000000199", "100")] {
        // the client frames a request
        let mut req = request(spec);
        req.set_on(4, amount).unwrap();
        let framed = encode_request(&mli, &req).unwrap();

        // the server reads the indicator, then the body
        let mut reader = ByteReader::new(&framed);
        let n = mli.parse(&mut reader).unwrap();
        let (state, action) = step(&mli, ConnState::ReadMli, ConnEvent::MliRead(n));
        assert!(matches!(action, ConnAction::ReadBody(m) if m == n));
        let body = reader.read_exact(n as usize).unwrap();
        assert_eq!(reader.available(), 0);
        let (state, action) = step(&mli, state, ConnEvent::BodyRead);
        assert!(matches!(action, ConnAction::Dispatch));

        // the handler answers
        let parsed = spec.parse(&body).unwrap();
        let mut resp = new_msg(spec, spec.get_message_from_header("1110").unwrap());
        resp.set("message_type", "1110").unwrap();
        resp.echo_from(&parsed, &[2, 3, 4, 11, 14]).unwrap();
        let value: u32 = parsed.bmp_child_value(4).unwrap().parse().unwrap();
        resp.set_on(39, if value < 100 { "000" } else { "100" }).unwrap();
        let (state, action) = step(&mli, state, ConnEvent::Handled(resp.assemble().unwrap()));
        assert_eq!(state, ConnState::ReadMli);
        let frame = match action {
            ConnAction::Send(frame) => frame,
            other => panic!("{:?}", other),
        };

        // the client reads the response
        let mut reader = ByteReader::new(&frame);
        let n = mli.parse(&mut reader).unwrap();
        let body = reader.read_exact(n as usize).unwrap();
        let back = spec.parse(&body).unwrap();
        assert_eq!(back.get_field_value(&"message_type".to_string()).unwrap(), "1110");
        assert_eq!(back.bmp_child_value(39).unwrap(), action_code);
        for pos in [2u32, 3, 4, 11, 14] {
            let name = seg_name(spec, pos);
            assert_eq!(back.fd_map.get(name).unwrap(), req.fd_map.get(name).unwrap());
        }
    }
}

#[test]
fn test_parsed_message_reads_back_as_itself() {
    let spec = sample_spec();
    let raw = wire_1100();
    let first = spec.parse(&raw).unwrap();
    let again = spec.parse(&first.assemble().unwrap()).unwrap();
    assert_eq!(again.msg.name(), first.msg.name());
    assert_eq!(
        (again.bmp.p_bmp, again.bmp.s_bmp, again.bmp.t_bmp),
        (first.bmp.p_bmp, first.bmp.s_bmp, first.bmp.t_bmp)
    );
    for name in ["message_type", "bitmap", "pan", "proc_code", "amount", "stan", "expiration_date"] {
        let key = name.to_string();
        assert_eq!(again.fd_map.get(&key), first.fd_map.get(&key));
        assert!(again.fd_map.get(&key).is_some());
    }
    for name in ["country_code", "action_code", "mac_1"] {
        assert!(again.fd_map.get(&name.to_string()).is_none());
    }
}

#[test]
fn test_message_as_text() {
    let spec = sample_spec();
    let mut m = request(spec);
    m.set_on(52, "0102030405060708").unwrap();
    m.set_on(160, "5678").unwrap();
    m.fd_map.insert("bitmap".to_string(), m.bmp.as_vec());
    let mut expected = String::new();
    expected += &format!("\n{:20.40} : {:5}  : {} ", "-Field-", "-Position-", "-Field Value-");
    let rows = [
        ("message_type", "", "1100".to_string()),
        ("bitmap", "", hex::encode(m.bmp.as_vec())),
        ("pan", "002", "123456789101".to_string()),
        ("proc_code", "003", "004000".to_string()),
        ("amount", "004", "000000000199".to_string()),
        ("stan", "011", "779581".to_string()),
        ("expiration_date", "014", "2204".to_string()),
        ("pin_data", "052", "0102030405060708".to_string()),
        ("reserved_data", "160", "5678".to_string()),
    ];
    for (name, pos, value) in rows.iter() {
        expected += &format!("\n{:20.40} : {:^10}  : {} ", name, pos, value);
    }
    assert_eq!(m.to_string(), expected);
    assert!(m.to_string().contains("\npan                  :    002      : 123456789101 "));
}

#[test]
fn test_long_names_and_positions_as_text() {
    let long = "a_field_name_that_is_longer_than_forty_characters";
    let y = YSpec {
        name: "s".to_string(),
        id: 1,
        messages: vec![YMessageSegment {
            name: "m".to_string(),
            id: 1,
            selector: vec!["AB".to_string()],
            fields: vec![
                fixed("exactly_twenty_chars", 2, Encoding::ASCII, Some(1234567890)),
                fixed(long, 1, Encoding::ASCII, Some(7)),
                fixed("raw", 1, Encoding::ASCII, Some(4000000000)),
            ],
        }],
        header_fields: vec![fixed("exactly_twenty_chars", 2, Encoding::ASCII, None)],
    };
    let spec: &'static Spec = Box::leak(Box::new(y.into().unwrap()));
    let m = spec.parse(&vec![0x41, 0x42, 0x43, 0x80]).unwrap();
    let mut expected = String::new();
    expected += &format!("\n{:20.40} : {:5}  : {} ", "-Field-", "-Position-", "-Field Value-");
    expected += &format!("\n{:20.40} : {:^10}  : {} ", "exactly_twenty_chars", "1234567890", "AB");
    expected += &format!("\n{:20.40} : {:^10}  : {} ", long, "007", "C");
    // a value with no string view shows as hexadecimal
    expected += &format!("\n{:20.40} : {:^10}  : {} ", "raw", "4000000000", "80");
    assert_eq!(m.to_string(), expected);
}
