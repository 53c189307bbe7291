use iso8583_rs::iso8583::mli::{MLIType, MLI, MLI2E, MLI2I, MLI4E, MLI4I};
use iso8583_rs::iso8583::reader::ByteReader;
use iso8583_rs::iso8583::ErrorKind;

#[test]
fn test_2e() {
    let msg = "hello world";
    let mut data: Vec<u8> = vec![];
    data.extend_from_slice(&(msg.len() as u16).to_be_bytes());
    data.extend_from_slice(msg.as_bytes());

    let mli: &dyn MLI = &MLI2E {};
    assert_eq!(mli.parse(&mut ByteReader::new(&data)).unwrap(), 11 as u32);
    assert_eq!(mli.create(&(msg.len() as usize)).unwrap(), vec![0 as u8, 0x0b as u8]);
}

#[test]
fn test_2i() {
    let msg = "hello world";
    let mut data: Vec<u8> = vec![];
    data.extend_from_slice(&((msg.len() + 2) as u16).to_be_bytes());
    data.extend_from_slice(msg.as_bytes());

    let mli: &dyn MLI = &MLI2I {};
    assert_eq!(mli.parse(&mut ByteReader::new(&data)).unwrap(), 11 as u32);
    assert_eq!(mli.create(&(msg.len() as usize)).unwrap(), vec![0 as u8, 0x0d as u8]);
}

#[test]
fn test_4e() {
    let mut msg = String::new();
    for _ in 0..257 {
        msg.push('a');
    }
    let mut data: Vec<u8> = vec![];
    data.extend_from_slice(&(msg.len() as u32).to_be_bytes());
    data.extend_from_slice(msg.as_bytes());

    let mli: &dyn MLI = &MLI4E {};
    assert_eq!(mli.parse(&mut ByteReader::new(&data)).unwrap(), 257 as u32);
    assert_eq!(
        mli.create(&(msg.len() as usize)).unwrap(),
        vec![0x00, 0x00, 0x01 as u8, 0x01 as u8]
    );
}

#[test]
fn test_4i() {
    let mut msg = String::new();
    for _ in 0..257 {
        msg.push('a');
    }
    let mut data: Vec<u8> = vec![];
    data.extend_from_slice(&((msg.len() + 4) as u32).to_be_bytes());
    data.extend_from_slice(msg.as_bytes());

    let mli: &dyn MLI = &MLI4I {};
    assert_eq!(mli.parse(&mut ByteReader::new(&data)).unwrap(), 257 as u32);
    assert_eq!(
        mli.create(&(msg.len() as usize)).unwrap(),
        vec![0x00, 0x00, 0x01 as u8, 0x05 as u8]
    );
}

#[test]
fn test_mli_round_trip_on_chosen_lengths() {
    let cases: [(MLIType, Vec<usize>); 4] = [
        (MLIType::MLI2E, vec![0, 1, 255, 256, 65535]),
        (MLIType::MLI2I, vec![0, 1, 255, 256, 65533]),
        (MLIType::MLI4E, vec![0, 1, 65536, 16777216, 4294967295]),
        (MLIType::MLI4I, vec![0, 1, 65536, 16777216, 4294967291]),
    ];
    for (kind, lengths) in cases.iter() {
        for n in lengths {
            let mut bytes = kind.create(n).unwrap();
            bytes.extend_from_slice(b"rest");
            let mut r = ByteReader::new(&bytes);
            assert_eq!(kind.parse(&mut r).unwrap() as usize, *n);
            assert_eq!(r.available(), 4);
        }
    }
}

#[test]
fn test_mli_byte_order() {
    assert_eq!(MLIType::MLI2E.create(&0x1234).unwrap(), vec![0x12, 0x34]);
    assert_eq!(MLIType::MLI4E.create(&0x12345678).unwrap(), vec![0x12, 0x34, 0x56, 0x78]);
    assert_eq!(MLIType::MLI2I.create(&0).unwrap(), vec![0x00, 0x02]);
    assert_eq!(MLIType::MLI4I.create(&0).unwrap(), vec![0x00, 0x00, 0x00, 0x04]);
}

#[test]
fn test_mli_length_that_does_not_fit() {
    assert_eq!(MLIType::MLI2E.create(&65536).unwrap_err().kind, ErrorKind::BadLengthIndicator);
    assert_eq!(MLIType::MLI2I.create(&65534).unwrap_err().kind, ErrorKind::BadLengthIndicator);
    assert_eq!(MLIType::MLI4I.create(&4294967292).unwrap_err().kind, ErrorKind::BadLengthIndicator);
    assert_eq!(MLIType::MLI4E.create(&4294967296).unwrap_err().kind, ErrorKind::BadLengthIndicator);
}

#[test]
fn test_mli_parse_failures() {
    let empty: Vec<u8> = vec![];
    let mut r = ByteReader::new(&empty);
    assert_eq!(MLIType::MLI2E.parse(&mut r).unwrap_err().kind, ErrorKind::ConnectionClosed);
    let one = vec![0u8];
    let mut r = ByteReader::new(&one);
    assert_eq!(MLIType::MLI2E.parse(&mut r).unwrap_err().kind, ErrorKind::Truncated);
    assert_eq!(r.available(), 1);
    let three = vec![0u8, 0, 9];
    let mut r = ByteReader::new(&three);
    assert_eq!(MLIType::MLI4I.parse(&mut r).unwrap_err().kind, ErrorKind::Truncated);
    let small = vec![0u8, 1, 7, 7];
    let mut r = ByteReader::new(&small);
    assert_eq!(MLIType::MLI2I.parse(&mut r).unwrap_err().kind, ErrorKind::BadLengthIndicator);
    assert_eq!(r.available(), 4);
    let mut r = ByteReader::new(&small);
    assert_eq!(MLIType::MLI4I.parse(&mut r).unwrap(), 0x00010707 - 4);
}

#[test]
fn test_frame() {
    let payload = b"1100abc".to_vec();
    assert_eq!(MLIType::MLI2E.frame(&payload).unwrap(), b"\x00\x071100abc".to_vec());
    assert_eq!(MLIType::MLI4I.frame(&payload).unwrap(), b"\x00\x00\x00\x0b1100abc".to_vec());
    let long = vec![0u8; 65534];
    assert_eq!(MLIType::MLI2I.frame(&long).unwrap_err().kind, ErrorKind::BadLengthIndicator);
}
