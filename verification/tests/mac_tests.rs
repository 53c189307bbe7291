use iso8583_rs::crypto::mac::{
    apply_padding, generate_mac, split_last_block, verify_mac, MacAlgo, PaddingType,
};
use iso8583_rs::iso8583::ErrorKind;

const KEY: &str = "e0f4543f3e2a2c5ffc7e5e5a222e3e4d";

#[test]
fn test_padding1_shortof8() {
    let data = hex::decode("0102030405").unwrap();
    assert_eq!(hex::encode(apply_padding(&PaddingType::Type1, &data)), "0102030405000000");
}

#[test]
fn test_padding1_exact() {
    let data = hex::decode("0102030405060708").unwrap();
    assert_eq!(hex::encode(apply_padding(&PaddingType::Type1, &data)), "0102030405060708");
}

#[test]
fn test_padding1_typical_short() {
    let data = hex::decode("0102030405060708090a").unwrap();
    assert_eq!(
        hex::encode(apply_padding(&PaddingType::Type1, &data)),
        "0102030405060708090a000000000000"
    );
}

#[test]
fn test_padding2_shortof8() {
    let data = hex::decode("0102030405").unwrap();
    assert_eq!(hex::encode(apply_padding(&PaddingType::Type2, &data)), "0102030405800000");
}

#[test]
fn test_padding2_exact() {
    let data = hex::decode("0102030405060708").unwrap();
    assert_eq!(
        hex::encode(apply_padding(&PaddingType::Type2, &data)),
        "01020304050607088000000000000000"
    );
}

#[test]
fn test_padding2_typical_short() {
    let data = hex::decode("0102030405060708090a").unwrap();
    assert_eq!(
        hex::encode(apply_padding(&PaddingType::Type2, &data)),
        "0102030405060708090a800000000000"
    );
}

#[test]
fn test_padding_of_nothing() {
    let data: Vec<u8> = vec![];
    assert_eq!(hex::encode(apply_padding(&PaddingType::Type1, &data)), "0000000000000000");
    assert_eq!(hex::encode(apply_padding(&PaddingType::Type2, &data)), "8000000000000000");
}

#[test]
fn test_padding2_seven_bytes() {
    let data = hex::decode("01020304050607").unwrap();
    assert_eq!(hex::encode(apply_padding(&PaddingType::Type2, &data)), "0102030405060780");
}

#[test]
fn test_padding_laws_on_lengths() {
    for n in 0..40usize {
        let data: Vec<u8> = (0..n).map(|i| (i as u8).wrapping_add(1)).collect();
        let one = apply_padding(&PaddingType::Type1, &data);
        let two = apply_padding(&PaddingType::Type2, &data);
        assert!(one.len() >= 8 && one.len() % 8 == 0);
        assert!(two.len() >= 8 && two.len() % 8 == 0);
        assert_eq!(&one[..n], &data[..]);
        assert_eq!(&two[..n], &data[..]);
        if n > 0 && n % 8 == 0 {
            assert_eq!(one, data);
        }
        assert!(two.len() > n);
        assert_eq!(two[n], 0x80);
    }
}

fn mac_hex(algo: MacAlgo, pad: PaddingType, data: &str) -> String {
    let res = generate_mac(&algo, &pad, &hex::decode(data).unwrap(), &hex::decode(KEY).unwrap());
    match res {
        Ok(m) => {
            println!("mac = {}", hex::encode(m.as_slice()));
            hex::encode(m)
        }
        Err(e) => panic!("{}", e.msg),
    }
}

#[test]
fn test_gen_mac_cbc_nopads() {
    assert_eq!("7d34c3071da931b9", mac_hex(MacAlgo::CbcMac, PaddingType::Type1, "0102030405060708"));
}

#[test]
fn test_gen_mac_cbc_2() {
    assert_eq!(
        "0fe28f4b5537ee79",
        mac_hex(MacAlgo::CbcMac, PaddingType::Type1, "01020304050607080102030405060708")
    );
}

#[test]
fn test_gen_mac_cbc_3() {
    assert_eq!(
        "8fb12963d5661a22",
        mac_hex(MacAlgo::CbcMac, PaddingType::Type1, "01020304050607080102030405")
    );
}

#[test]
fn test_gen_mac_cbc_2_paddingtype2() {
    assert_eq!(
        "8568cd2b7698605f",
        mac_hex(MacAlgo::CbcMac, PaddingType::Type2, "01020304050607080102030405")
    );
}

#[test]
fn test_gen_mac_retail1_nopads() {
    assert_eq!(
        "7d34c3071da931b9",
        mac_hex(MacAlgo::RetailMac, PaddingType::Type1, "0102030405060708")
    );
}

#[test]
fn test_gen_mac_retail2_padtype1() {
    assert_eq!(
        mac_hex(
            MacAlgo::RetailMac,
            PaddingType::Type1,
            "0102030405060708010203040506070801020304050607080000"
        ),
        "149f99288681d292"
    );
}

#[test]
fn test_gen_mac_retail_padtype2() {
    assert_eq!(
        mac_hex(
            MacAlgo::RetailMac,
            PaddingType::Type2,
            "0102030405060708010203040506070801020304050607080000"
        ),
        "4689dd5a87015394"
    );
}

#[test]
fn test_retail_mac_of_short_input_is_one_tdes_block() {
    // Fewer than eight bytes pad to a single block: nothing is chained in.
    let short = mac_hex(MacAlgo::RetailMac, PaddingType::Type1, "0102030405");
    let padded = mac_hex(MacAlgo::CbcMac, PaddingType::Type1, "0102030405000000");
    assert_eq!(short, padded);
}

#[test]
fn test_mac_is_eight_bytes_and_depends_on_data() {
    let a = mac_hex(MacAlgo::CbcMac, PaddingType::Type1, "0102030405060708");
    let b = mac_hex(MacAlgo::CbcMac, PaddingType::Type1, "0102030405060709");
    assert_eq!(a.len(), 16);
    assert_ne!(a, b);
    assert_ne!(a, "0102030405060708");
}

#[test]
fn test_generated_mac_verifies() {
    let key = hex::decode(KEY).unwrap();
    let data = hex::decode("0102030405060708010203040506070801020304050607080000").unwrap();
    for algo in [MacAlgo::CbcMac, MacAlgo::RetailMac] {
        for pad in [PaddingType::Type1, PaddingType::Type2] {
            let mac = generate_mac(&algo, &pad, &data, &key).unwrap();
            assert!(verify_mac(&algo, &pad, &data, &key, &mac).is_ok());
        }
    }
}

#[test]
fn test_verify_mac_mismatch() {
    let key = hex::decode(KEY).unwrap();
    let data = hex::decode("0102030405060708").unwrap();
    let wrong = hex::decode("0000000000000000").unwrap();
    let err = verify_mac(&MacAlgo::CbcMac, &PaddingType::Type1, &data, &key, &wrong).unwrap_err();
    assert_eq!(err.kind, ErrorKind::MacMismatch);
}

#[test]
fn test_mac_key_of_wrong_length() {
    let data = hex::decode("0102030405060708").unwrap();
    let err = generate_mac(&MacAlgo::CbcMac, &PaddingType::Type1, &data, &vec![1u8; 8]).unwrap_err();
    assert_eq!(err.kind, ErrorKind::Unsupported);
    assert_eq!(err.msg, "key");
    let err =
        verify_mac(&MacAlgo::RetailMac, &PaddingType::Type1, &data, &vec![1u8; 15], &data).unwrap_err();
    assert_eq!(err.kind, ErrorKind::Unsupported);
}

#[test]
fn test_split_last_block() {
    let data: Vec<u8> = (1..=20).collect();
    let (front, back) = split_last_block(&data).unwrap();
    assert_eq!(front, (1..=12).collect::<Vec<u8>>());
    assert_eq!(back, (13..=20).collect::<Vec<u8>>());
    let (front, back) = split_last_block(&vec![9u8; 8]).unwrap();
    assert_eq!((front.len(), back), (0, vec![9u8; 8]));
    assert_eq!(split_last_block(&vec![9u8; 7]), None);
}
