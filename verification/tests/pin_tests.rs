use iso8583_rs::crypto::pin::PinFormat::{ISO0, ISO1, ISO2, ISO3, ISO4};
use iso8583_rs::crypto::pin::{
    clear_pin_block, generate_pin_block, pad_8, pad_8_a2f, pin_block_with_pad, pin_in_decrypted,
    verify_pin, xor_hexstr, PinFormat,
};
use iso8583_rs::iso8583::ErrorKind;

const KEY: &str = "e0f4543f3e2a2c5ffc7e5e5a222e3e4d";
const PAN: &str = "4111111111111111";

fn round_trip(fmt: PinFormat, pin: &str) {
    match generate_pin_block(&fmt, pin, PAN, KEY) {
        Ok(p) => match verify_pin(&fmt, pin, &p, PAN, KEY) {
            Ok(res) => assert_eq!(res, true),
            Err(e) => panic!("{}", e.msg),
        },
        Err(e) => panic!("{}", e.msg),
    }
}

#[test]
fn test_iso0() {
    round_trip(ISO0, "1234");
    round_trip(ISO0, "12341123456");
}

#[test]
fn test_iso1() {
    round_trip(ISO1, "8976");
}

#[test]
fn test_iso2() {
    match generate_pin_block(&ISO2, "8976", PAN, KEY) {
        Ok(p) => {
            assert_eq!(hex::encode(&p), "795e511357332491");
            match verify_pin(&ISO2, "8976", &p, PAN, KEY) {
                Ok(res) => assert_eq!(res, true),
                Err(e) => panic!("{}", e.msg),
            }
        }
        Err(e) => panic!("{}", e.msg),
    }
}

#[test]
fn test_iso3() {
    round_trip(ISO3, "1234");
    round_trip(ISO3, "12341123456");
}

#[test]
fn test_every_format_and_length_verifies() {
    for fmt in [ISO0, ISO1, ISO2, ISO3] {
        for n in 4..=12usize {
            let pin: String = "987654321098"[..n].to_string();
            round_trip(fmt, &pin);
        }
    }
}

#[test]
fn test_wrong_pin_does_not_verify() {
    for fmt in [ISO0, ISO1, ISO2, ISO3] {
        let p = generate_pin_block(&fmt, "1234", PAN, KEY).unwrap();
        assert_eq!(verify_pin(&fmt, "1235", &p, PAN, KEY).unwrap(), false);
        assert_eq!(verify_pin(&fmt, "12345", &p, PAN, KEY).unwrap(), false);
        assert_eq!(verify_pin(&fmt, "123", &p, PAN, KEY).unwrap(), false);
    }
}

#[test]
fn test_block_of_another_format_does_not_verify() {
    let p = generate_pin_block(&ISO2, "1234", PAN, KEY).unwrap();
    assert_eq!(verify_pin(&ISO1, "1234", &p, PAN, KEY).unwrap(), false);
}

#[test]
fn test_pin_block_with_given_pad() {
    let pad = hex::decode("0123456789abcdef").unwrap();
    // ISO-1: 1 4 1234 0123456789 -> 1412340123456789
    let clear = hex::decode("1412340123456789").unwrap();
    let block = pin_block_with_pad(&ISO1, "1234", PAN, KEY, &pad).unwrap();
    assert_eq!(block.len(), 8);
    assert_ne!(block, clear);
    assert!(verify_pin(&ISO1, "1234", &block, PAN, KEY).unwrap());
    // the same pad gives the same block, another pad another
    assert_eq!(block, pin_block_with_pad(&ISO1, "1234", PAN, KEY, &pad).unwrap());
    let other = hex::decode("1123456789abcdef").unwrap();
    assert_ne!(block, pin_block_with_pad(&ISO1, "1234", PAN, KEY, &other).unwrap());
    // ISO-2 ignores the pad
    assert_eq!(
        hex::encode(pin_block_with_pad(&ISO2, "8976", PAN, KEY, &pad).unwrap()),
        "795e511357332491"
    );
    // ISO-0 mixes the account number in: it differs from ISO-1 beyond the format digit
    let b0 = pin_block_with_pad(&ISO0, "1234", PAN, KEY, &pad).unwrap();
    assert!(verify_pin(&ISO0, "1234", &b0, PAN, KEY).unwrap());
    assert!(!verify_pin(&ISO0, "1234", &b0, "4111211111111111", KEY).unwrap());
    // the last digit of the account text lies beyond a four-digit PIN
    assert!(verify_pin(&ISO0, "1234", &b0, "4111111111111129", KEY).unwrap());
}

#[test]
fn test_pin_errors() {
    let e = generate_pin_block(&ISO4, "1234", PAN, KEY).unwrap_err();
    assert_eq!((e.kind, e.msg.as_str()), (ErrorKind::Unsupported, "ISO4"));
    let e = generate_pin_block(&ISO0, "12a4", PAN, KEY).unwrap_err();
    assert_eq!((e.kind, e.msg.as_str()), (ErrorKind::Unsupported, "pin"));
    let e = generate_pin_block(&ISO0, "123", PAN, KEY).unwrap_err();
    assert_eq!((e.kind, e.msg.as_str()), (ErrorKind::Unsupported, "pin"));
    let e = generate_pin_block(&ISO0, "1234567890123", PAN, KEY).unwrap_err();
    assert_eq!((e.kind, e.msg.as_str()), (ErrorKind::Unsupported, "pin"));
    let e = generate_pin_block(&ISO0, "1234", PAN, "e0f4").unwrap_err();
    assert_eq!((e.kind, e.msg.as_str()), (ErrorKind::BadEncoding, "key"));
    let e = generate_pin_block(&ISO0, "1234", PAN, "zzf4543f3e2a2c5ffc7e5e5a222e3e4d").unwrap_err();
    assert_eq!((e.kind, e.msg.as_str()), (ErrorKind::BadEncoding, "key"));
    let e = generate_pin_block(&ISO0, "1234", "411111111111", KEY).unwrap_err();
    assert_eq!((e.kind, e.msg.as_str()), (ErrorKind::BadEncoding, "pan"));
    let e = generate_pin_block(&ISO3, "1234", "41111111x1111111", KEY).unwrap_err();
    assert_eq!((e.kind, e.msg.as_str()), (ErrorKind::BadEncoding, "pan"));
    // ISO-1 and ISO-2 do not read the account number
    assert!(generate_pin_block(&ISO1, "1234", "", KEY).is_ok());
    let e = pin_block_with_pad(&ISO1, "1234", PAN, KEY, &vec![0u8; 7]).unwrap_err();
    assert_eq!((e.kind, e.msg.as_str()), (ErrorKind::Unsupported, "pad"));

    let block = vec![0u8; 8];
    let e = verify_pin(&ISO4, "1234", &block, PAN, KEY).unwrap_err();
    assert_eq!((e.kind, e.msg.as_str()), (ErrorKind::Unsupported, "ISO4"));
    let e = verify_pin(&ISO0, "1234", &block, PAN, "00").unwrap_err();
    assert_eq!((e.kind, e.msg.as_str()), (ErrorKind::BadEncoding, "key"));
    let e = verify_pin(&ISO0, "1234", &vec![0u8; 7], PAN, KEY).unwrap_err();
    assert_eq!((e.kind, e.msg.as_str()), (ErrorKind::BadEncoding, "pin_block"));
    let e = verify_pin(&ISO0, "1234", &block, "12", KEY).unwrap_err();
    assert_eq!((e.kind, e.msg.as_str()), (ErrorKind::BadEncoding, "pan"));
}

#[test]
fn test_xor_hexstr() {
    assert_eq!(xor_hexstr("0f0f", "00ff"), Some(vec![0x0f, 0xf0]));
    assert_eq!(xor_hexstr("AbCd", "0000"), Some(vec![0xab, 0xcd]));
    assert_eq!(xor_hexstr("0f0f", "00"), None);
    assert_eq!(xor_hexstr("0g", "00"), None);
    assert_eq!(xor_hexstr("000", "000"), None);
}

#[test]
fn test_pad_8_cuts_at_sixteen() {
    let pad = hex::decode("0123456789abcdef").unwrap();
    let mut s = String::from("041234");
    pad_8(&mut s, &pad);
    assert_eq!(s, "0412340123456789");
    let mut s = String::from("3C123411234567");
    pad_8_a2f(&mut s, &pad);
    assert_eq!(s, "3C123411234567ab");
    let mut s = String::from("34");
    pad_8_a2f(&mut s, &vec![0x00, 0x55, 0xff]);
    assert_eq!(s, "34aaffff");
    let mut s = String::from("0123456789abcdef0123");
    pad_8(&mut s, &pad);
    assert_eq!(s, "0123456789abcdef");
}

#[test]
fn test_clear_block_layouts() {
    let pad = hex::decode("0123456789abcdef").unwrap();
    let clear = |fmt: PinFormat, pin: &str| hex::encode(clear_pin_block(&fmt, pin, PAN, &pad).unwrap());
    assert_eq!(clear(ISO0, "1234"), "0412251032547698");
    assert_eq!(clear(ISO1, "1234"), "1412340123456789");
    assert_eq!(clear(ISO2, "8976"), "248976ffffffffff");
    assert_eq!(clear(ISO3, "1234"), "341225babafefeba");
    // lengths ten to twelve are the digits A to C
    assert_eq!(clear(ISO1, "1234567890"), "1a12345678900123");
    assert_eq!(clear(ISO1, "12345678901"), "1b12345678901012");
    assert_eq!(clear(ISO1, "123456789012"), "1c12345678901201");
    assert_eq!(clear(ISO2, "123456789012"), "2c123456789012ff");
    let e = clear_pin_block(&ISO4, "1234", PAN, &pad).unwrap_err();
    assert_eq!((e.kind, e.msg.as_str()), (ErrorKind::Unsupported, "ISO4"));
    let e = clear_pin_block(&ISO0, "1234", "123", &pad).unwrap_err();
    assert_eq!((e.kind, e.msg.as_str()), (ErrorKind::BadEncoding, "pan"));
    let e = clear_pin_block(&ISO2, "1234", PAN, &vec![]).unwrap_err();
    assert_eq!((e.kind, e.msg.as_str()), (ErrorKind::Unsupported, "pad"));
}

#[test]
fn test_pin_in_decrypted_block() {
    let block = |text: &str| hex::decode(text).unwrap();
    assert_eq!(pin_in_decrypted(&ISO1, "1234", &block("1412340123456789"), PAN).unwrap(), true);
    assert_eq!(pin_in_decrypted(&ISO1, "12340", &block("1412340123456789"), PAN).unwrap(), false);
    assert_eq!(pin_in_decrypted(&ISO1, "123", &block("1412340123456789"), PAN).unwrap(), false);
    assert_eq!(pin_in_decrypted(&ISO2, "1234", &block("1412340123456789"), PAN).unwrap(), false);
    assert_eq!(pin_in_decrypted(&ISO0, "1234", &block("0412251032547698"), PAN).unwrap(), true);
    assert_eq!(pin_in_decrypted(&ISO0, "1234", &block("0412340123456789"), PAN).unwrap(), false);
    assert_eq!(pin_in_decrypted(&ISO3, "1234", &block("341225babafefeba"), PAN).unwrap(), true);
    assert_eq!(pin_in_decrypted(&ISO2, "123456789012", &block("2c123456789012ff"), PAN).unwrap(), true);
    // a length nibble beyond what the block can hold matches nothing
    assert_eq!(pin_in_decrypted(&ISO1, "", &block("1f12340123456789"), PAN).unwrap(), false);
    assert_eq!(pin_in_decrypted(&ISO1, "", &block("1012340123456789"), PAN).unwrap(), true);
    // the digits of the block read in lowercase
    assert_eq!(pin_in_decrypted(&ISO1, "abcd", &block("14abcd0123456789"), PAN).unwrap(), true);
    assert_eq!(pin_in_decrypted(&ISO1, "ABCD", &block("14abcd0123456789"), PAN).unwrap(), false);
    let e = pin_in_decrypted(&ISO4, "1234", &block("1412340123456789"), PAN).unwrap_err();
    assert_eq!(e.kind, ErrorKind::Unsupported);
    let e = pin_in_decrypted(&ISO1, "1234", &block("14123401234567"), PAN).unwrap_err();
    assert_eq!((e.kind, e.msg.as_str()), (ErrorKind::BadEncoding, "pin_block"));
    let e = pin_in_decrypted(&ISO0, "1234", &block("0412251032547698"), "4111x11111111111").unwrap_err();
    assert_eq!((e.kind, e.msg.as_str()), (ErrorKind::BadEncoding, "pan"));
}
