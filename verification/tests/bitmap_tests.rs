use iso8583_rs::iso8583::bitmap::{new_bmp, Bitmap};
use iso8583_rs::iso8583::reader::ByteReader;
use iso8583_rs::iso8583::ErrorKind;

#[test]
fn test_bmp() {
    let mut bmp = new_bmp(0, 0, 0);
    bmp.set_on(4).unwrap();
    bmp.set_on(11).unwrap();
    bmp.set_on(64).unwrap();
    bmp.set_on(99).unwrap();
    bmp.set_on(133).unwrap();
    bmp.set_on(6).unwrap();

    let mut on = vec![];
    for i in 1..193 {
        if bmp.is_on(i).unwrap() {
            println!("{} is on ", i);
            on.push(i);
        }
    }
    assert_eq!(on, vec![1, 4, 6, 11, 64, 65, 99, 133]);
}

#[test]
fn test_bit_numbering() {
    let mut b = new_bmp(0, 0, 0);
    b.set_on(1).unwrap();
    assert_eq!(b.p_bmp, 0x8000_0000_0000_0000);
    let mut b = new_bmp(0, 0, 0);
    b.set_on(64).unwrap();
    assert_eq!(b.p_bmp, 1);
    let mut b = new_bmp(0, 0, 0);
    b.set_on(65).unwrap();
    assert_eq!((b.p_bmp, b.s_bmp, b.t_bmp), (0x8000_0000_0000_0000, 0x8000_0000_0000_0000, 0));
    let mut b = new_bmp(0, 0, 0);
    b.set_on(129).unwrap();
    assert_eq!(
        (b.p_bmp, b.s_bmp, b.t_bmp),
        (0x8000_0000_0000_0000, 0x8000_0000_0000_0000, 0x8000_0000_0000_0000)
    );
    let mut b = new_bmp(0, 0, 0);
    b.set_on(192).unwrap();
    assert_eq!(b.t_bmp, 1);
    assert!(new_bmp(0x4000_0000_0000_0000, 0, 0).is_on(2).unwrap());
    assert!(!new_bmp(0x4000_0000_0000_0000, 0, 0).is_on(1).unwrap());
}

#[test]
fn test_cascade() {
    for pos in 65..=128u32 {
        let mut b = new_bmp(0, 0, 0);
        b.set_on(pos).unwrap();
        assert!(b.is_on(pos).unwrap());
        assert!(b.is_on(1).unwrap());
        assert_eq!(b.as_vec().len(), if pos == 65 { 24 } else { 16 });
    }
    for pos in 129..=192u32 {
        let mut b = new_bmp(0, 0, 0);
        b.set_on(pos).unwrap();
        assert!(b.is_on(pos).unwrap());
        assert!(b.is_on(65).unwrap());
        assert!(b.is_on(1).unwrap());
        assert_eq!(b.as_vec().len(), 24);
    }
    for pos in 2..=64u32 {
        let mut b = new_bmp(0, 0, 0);
        b.set_on(pos).unwrap();
        assert!(!b.is_on(1).unwrap());
        assert_eq!(b.as_vec().len(), 8);
    }
}

#[test]
fn test_wire_of_typical_message() {
    let mut b = Bitmap::new(0, 0, 0);
    for p in [2, 3, 4, 11, 14, 19, 64] {
        b.set_on(p).unwrap();
    }
    assert_eq!(b.is_on(1).unwrap(), false);
    assert_eq!(b.as_vec().len(), 8);
    assert_eq!(hex::encode(b.as_vec()), "7024200000000001");
    b.set_on(96).unwrap();
    assert_eq!(b.is_on(1).unwrap(), true);
    assert_eq!(b.as_vec().len(), 16);
    assert_eq!(hex::encode(b.as_vec()), "f0242000000000010000000100000000");
}

#[test]
fn test_hex_string_is_always_48_digits() {
    let b = new_bmp(0x7024000000000000, 0, 0);
    assert_eq!(b.hex_string(), "702400000000000000000000000000000000000000000000");
    let b = new_bmp(0xf024000000000001, 0x0000000100000000, 0xabcdef0000000009);
    assert_eq!(b.hex_string(), "f0240000000000010000000100000000abcdef0000000009");
}

#[test]
fn test_bad_position() {
    let mut b = new_bmp(1, 2, 3);
    for pos in [0u32, 193, 1000] {
        let e = b.set_on(pos).unwrap_err();
        assert_eq!((e.kind, e.position), (ErrorKind::BadPosition, pos));
        let e = b.is_on(pos).unwrap_err();
        assert_eq!((e.kind, e.position), (ErrorKind::BadPosition, pos));
    }
    assert_eq!((b.p_bmp, b.s_bmp, b.t_bmp), (1, 2, 3));
}

#[test]
fn test_from_reader() {
    let data = hex::decode("7024000000000000313233").unwrap();
    let mut r = ByteReader::new(&data);
    let b = Bitmap::from_reader(&mut r).unwrap();
    assert_eq!((b.p_bmp, b.s_bmp, b.t_bmp), (0x7024000000000000, 0, 0));
    assert_eq!(r.available(), 3);

    let data = hex::decode("f02400000000000000000001000000009999").unwrap();
    let mut r = ByteReader::new(&data);
    let b = Bitmap::from_reader(&mut r).unwrap();
    assert_eq!((b.p_bmp, b.s_bmp, b.t_bmp), (0xf024000000000000, 0x0000000100000000, 0));
    assert_eq!(r.available(), 2);

    let data = hex::decode("800000000000000080000000000000000000000000000001").unwrap();
    let mut r = ByteReader::new(&data);
    let b = Bitmap::from_reader(&mut r).unwrap();
    assert_eq!((b.p_bmp, b.s_bmp, b.t_bmp), (1u64 << 63, 1u64 << 63, 1));
    assert_eq!(r.available(), 0);
    assert!(b.is_on(192).unwrap());
}

#[test]
fn test_from_reader_truncated() {
    for text in ["70240000000000", "f024000000000000000000010000", "80000000000000008000000000000000ff"] {
        let data = hex::decode(text).unwrap();
        let mut r = ByteReader::new(&data);
        let e = Bitmap::from_reader(&mut r).unwrap_err();
        assert_eq!(e.kind, ErrorKind::Truncated);
        assert_eq!(r.available(), data.len());
        assert_eq!(Bitmap::from_vec(&data).unwrap_err().kind, ErrorKind::Truncated);
    }
}

#[test]
fn test_wire_round_trip() {
    let mut b = new_bmp(0, 0, 0);
    for p in [2, 5, 64, 70, 128, 130, 192] {
        b.set_on(p).unwrap();
    }
    let back = Bitmap::from_vec(&b.as_vec()).unwrap();
    assert_eq!(back, b);
    // a bitmap that breaks the cascade does not read back as itself
    let loose = new_bmp(0, 1, 0);
    assert_eq!(loose.as_vec().len(), 8);
    assert_eq!(Bitmap::from_vec(&loose.as_vec()).unwrap(), new_bmp(0, 0, 0));
}
