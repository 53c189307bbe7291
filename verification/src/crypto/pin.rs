//! This module implements various PIN block types

/// More info here - https://www.eftlab.com/knowledge-base/261-complete-list-of-pin-blocks-in-payments/
use crate::crypto::tdes_ede2_dec;
use crate::crypto::tdes_ede2_decrypt;
use crate::crypto::tdes_ede2_enc;
use crate::crypto::tdes_ede2_encrypt;
use crate::hexcodec::hex_bytes;
use crate::hexcodec::hex_decode;
use crate::hexcodec::hex_digit_char;
use crate::hexcodec::hex_encode;
use crate::hexcodec::hex_lower;
use crate::hexcodec::hex_text;
use crate::hexcodec::hex_value;
use crate::hexcodec::is_hex_text;
use crate::hexcodec::lemma_hex_bytes_of_text;
use crate::hexcodec::lemma_hex_text_of_bytes;
use crate::iso8583::ErrorKind;
use crate::iso8583::Failure;
use crate::text::push_char;
use rand::Rng;
use vstd::pervasive::unreached;
use vstd::prelude::*;
use vstd::string::StrSliceExecFns;
use vstd::string::StringExecFns;

verus! {

/// The PIN block formats.
#[derive(Debug, Clone, Copy, PartialEq, Eq, Structural)]
pub enum PinFormat {
    //ANSI X9.8, ECI-4
    ISO0,
    ISO1,
    ISO2,
    ISO3,
    ISO4,
}

/// Why a PIN block could not be made or read.
#[derive(Debug)]
pub struct PinError {
    /// What went wrong.
    pub kind: ErrorKind,
    /// What it went wrong with.
    pub msg: String,
}

impl View for PinError {
    type V = Failure;

    open spec fn view(&self) -> Failure {
        Failure { kind: self.kind, subject: self.msg@, position: 0 }
    }
}

/// Calls `rand::thread_rng` and `Rng::gen` for eight bytes. Trusted: eight
/// bytes come back; nothing is said of their values.
#[verifier::external_body]
fn random_pad() -> (r: Vec<u8>)
    ensures
        r@.len() == 8,
{
    let padding: [u8; 8] = rand::thread_rng().gen();
    padding.to_vec()
}

/// Text made of decimal digits only.
pub open spec fn is_digits(s: Seq<char>) -> bool {
    forall|i: int| 0 <= i < s.len() ==> 48 <= (#[trigger] s[i]) as int <= 57
}

/// The first nibble of a clear PIN block: the number of the format.
pub open spec fn format_nibble(fmt: PinFormat) -> int {
    match fmt {
        PinFormat::ISO0 => 0,
        PinFormat::ISO1 => 1,
        PinFormat::ISO2 => 2,
        PinFormat::ISO3 => 3,
        PinFormat::ISO4 => 4,
    }
}

/// Whether the format mixes the account number into the block.
pub open spec fn uses_pan(fmt: PinFormat) -> bool {
    fmt == PinFormat::ISO0 || fmt == PinFormat::ISO3
}

/// The uppercase hexadecimal digit for a nibble `n` in `0..16`.
pub open spec fn upper_hex_char(n: int) -> char {
    if n < 10 {
        (48 + n) as char
    } else {
        (55 + n) as char
    }
}

/// Each pad byte with the bits of 0xAA set, so that both its nibbles are letters.
pub open spec fn letters_only(pad: Seq<u8>) -> Seq<u8> {
    Seq::new(pad.len(), |i: int| pad[i] | 0xAA)
}

/// What follows the PIN in the clear text: 'F's for ISO-2, the pad in
/// hexadecimal for ISO-0 and ISO-1, the pad forced to letters for ISO-3.
pub open spec fn filler(fmt: PinFormat, pad: Seq<u8>) -> Seq<char> {
    match fmt {
        PinFormat::ISO2 => Seq::new(16, |i: int| 'F'),
        PinFormat::ISO3 => hex_text(letters_only(pad)),
        _ => hex_text(pad),
    }
}

/// The sixteen hexadecimal digits of the clear block before the account
/// number is mixed in: format, PIN length, PIN, filler.
pub open spec fn clear_text(fmt: PinFormat, pin: Seq<char>, pad: Seq<u8>) -> Seq<char> {
    (seq![hex_digit_char(format_nibble(fmt)), upper_hex_char(pin.len() as int)] + pin + filler(
        fmt,
        pad,
    )).take(16)
}

/// The twelve rightmost digits of the account number but for the check
/// digit, after four zeros.
pub open spec fn pan_text(pan: Seq<char>) -> Seq<char> {
    seq!['0', '0', '0', '0'] + pan.subrange(pan.len() - 13, pan.len() - 1)
}

/// An account number that `pan_text` can be made of.
pub open spec fn pan_usable(pan: Seq<char>) -> bool {
    pan.len() >= 13 && is_hex_text(pan.subrange(pan.len() - 13, pan.len() - 1))
}

/// A key in hexadecimal that stands for sixteen bytes.
pub open spec fn key_usable(key: Seq<char>) -> bool {
    is_hex_text(key) && key.len() == 32
}

/// Byte by byte exclusive or; the result is as long as `a`.
pub open spec fn xor_bytes(a: Seq<u8>, b: Seq<u8>) -> Seq<u8> {
    Seq::new(a.len(), |i: int| a[i] ^ b[i])
}

/// A failure about the input named `subject`.
pub open spec fn failure(kind: ErrorKind, subject: Seq<char>) -> Failure {
    Failure { kind, subject, position: 0 }
}

/// Why no clear block can be made of these inputs, if so: format ISO-4,
/// a PIN that is not 4 to 12 decimal digits, or, for ISO-0 and ISO-3, an
/// unusable account number.
pub open spec fn clear_input_error(fmt: PinFormat, pin: Seq<char>, pan: Seq<char>) -> Option<
    Failure,
> {
    if fmt == PinFormat::ISO4 {
        Some(failure(ErrorKind::Unsupported, "ISO4"@))
    } else if !(4 <= pin.len() <= 12 && is_digits(pin)) {
        Some(failure(ErrorKind::Unsupported, "pin"@))
    } else if uses_pan(fmt) && !pan_usable(pan) {
        Some(failure(ErrorKind::BadEncoding, "pan"@))
    } else {
        None
    }
}

/// Why no PIN block can be made of these inputs, if so: what stands
/// against the clear block, or a key that is not 32 hexadecimal digits.
pub open spec fn pin_input_error(
    fmt: PinFormat,
    pin: Seq<char>,
    pan: Seq<char>,
    key: Seq<char>,
) -> Option<Failure> {
    match clear_input_error(fmt, pin, pan) {
        Some(f) => Some(f),
        None => if !key_usable(key) {
            Some(failure(ErrorKind::BadEncoding, "key"@))
        } else {
            None
        },
    }
}

/// What `clear_pin_block` gives.
pub open spec fn made_clear_block(
    fmt: PinFormat,
    pin: Seq<char>,
    pan: Seq<char>,
    pad: Seq<u8>,
) -> Result<Seq<u8>, Failure> {
    match clear_input_error(fmt, pin, pan) {
        Some(f) => Err(f),
        None => if pad.len() != 8 {
            Err(failure(ErrorKind::Unsupported, "pad"@))
        } else {
            Ok(clear_block(fmt, pin, pan, pad))
        },
    }
}

/// The clear block: the bytes of the clear text, for ISO-0 and ISO-3
/// combined by exclusive or with the bytes of the account number text.
pub open spec fn clear_block(fmt: PinFormat, pin: Seq<char>, pan: Seq<char>, pad: Seq<u8>) -> Seq<
    u8,
> {
    let c = hex_bytes(clear_text(fmt, pin, pad));
    if uses_pan(fmt) {
        xor_bytes(c, hex_bytes(pan_text(pan)))
    } else {
        c
    }
}

/// `block` is the PIN block of these inputs with this pad: the two-key
/// triple-DES encryption of the clear block, which decrypts to it again.
pub open spec fn is_pin_block(
    fmt: PinFormat,
    pin: Seq<char>,
    pan: Seq<char>,
    key: Seq<char>,
    pad: Seq<u8>,
    block: Seq<u8>,
) -> bool {
    &&& block.len() == 8
    &&& block == tdes_ede2_enc(hex_bytes(key), clear_block(fmt, pin, pan, pad))
    &&& tdes_ede2_dec(hex_bytes(key), block) == clear_block(fmt, pin, pan, pad)
}

/// Whether a clear block of format `fmt` carries the PIN `expected`: its
/// first byte gives format and length, and the hexadecimal digits after
/// it, as many as the length says, are the PIN.
pub open spec fn carries_pin(fmt: PinFormat, clear: Seq<u8>, expected: Seq<char>) -> bool {
    let l = clear[0] as int - 16 * format_nibble(fmt);
    0 <= l <= 14 && hex_text(clear).subrange(2, 2 + l) == expected
}

/// What `pin_in_decrypted` gives: whether the decrypted block, with the
/// account number taken out again for ISO-0 and ISO-3, carries the PIN.
pub open spec fn found_in_decrypted(
    fmt: PinFormat,
    expected_pin: Seq<char>,
    decrypted: Seq<u8>,
    pan: Seq<char>,
) -> Result<bool, Failure> {
    if fmt == PinFormat::ISO4 {
        Err(failure(ErrorKind::Unsupported, "ISO4"@))
    } else if decrypted.len() != 8 {
        Err(failure(ErrorKind::BadEncoding, "pin_block"@))
    } else if uses_pan(fmt) && !pan_usable(pan) {
        Err(failure(ErrorKind::BadEncoding, "pan"@))
    } else {
        let clear = if uses_pan(fmt) {
            xor_bytes(decrypted, hex_bytes(pan_text(pan)))
        } else {
            decrypted
        };
        Ok(carries_pin(fmt, clear, expected_pin))
    }
}

/// What `verify_pin` gives.
pub open spec fn verified_pin(
    fmt: PinFormat,
    expected_pin: Seq<char>,
    pin_block: Seq<u8>,
    pan: Seq<char>,
    key: Seq<char>,
) -> Result<bool, Failure> {
    if fmt == PinFormat::ISO4 {
        Err(failure(ErrorKind::Unsupported, "ISO4"@))
    } else if !key_usable(key) {
        Err(failure(ErrorKind::BadEncoding, "key"@))
    } else if pin_block.len() != 8 {
        Err(failure(ErrorKind::BadEncoding, "pin_block"@))
    } else {
        found_in_decrypted(fmt, expected_pin, tdes_ede2_dec(hex_bytes(key), pin_block), pan)
    }
}

proof fn lemma_xor_back(x: u8, y: u8)
    by (bit_vector)
    ensures
        (x ^ y) ^ y == x,
{
}

proof fn lemma_letters(b: u8)
    by (bit_vector)
    ensures
        (b | 0xAA) / 16 >= 10,
        (b | 0xAA) % 16 >= 10,
{
}

/// The clear text is sixteen hexadecimal digits that start with format and
/// length and go on with the PIN.
pub proof fn lemma_clear_text(fmt: PinFormat, pin: Seq<char>, pad: Seq<u8>)
    requires
        fmt != PinFormat::ISO4,
        4 <= pin.len() <= 12,
        is_digits(pin),
        pad.len() == 8,
    ensures
        clear_text(fmt, pin, pad).len() == 16,
        is_hex_text(clear_text(fmt, pin, pad)),
        hex_value(clear_text(fmt, pin, pad)[0]) == Some(format_nibble(fmt)),
        hex_value(clear_text(fmt, pin, pad)[1]) == Some(pin.len() as int),
        forall|i: int| 0 <= i < pin.len() ==> #[trigger] clear_text(fmt, pin, pad)[2 + i] == pin[i],
{
    let t = clear_text(fmt, pin, pad);
    let f = filler(fmt, pad);
    assert(f.len() == 16);
    assert forall|i: int| 0 <= i < f.len() implies (#[trigger] hex_value(f[i])) is Some by {
        match fmt {
            PinFormat::ISO2 => {},
            PinFormat::ISO3 => {
                let src = letters_only(pad);
                let n: int = if i % 2 == 0 {
                    src[i / 2] as int / 16
                } else {
                    src[i / 2] as int % 16
                };
                assert(f[i] == hex_digit_char(n));
            },
            _ => {
                let n: int = if i % 2 == 0 {
                    pad[i / 2] as int / 16
                } else {
                    pad[i / 2] as int % 16
                };
                assert(f[i] == hex_digit_char(n));
            },
        }
    }
    assert forall|i: int| 0 <= i < t.len() implies (#[trigger] hex_value(t[i])) is Some by {
        if i >= 2 && i < 2 + pin.len() {
            assert(t[i] == pin[i - 2]);
        } else if i >= 2 + pin.len() {
            assert(t[i] == f[i - 2 - pin.len()]);
            assert(hex_value(f[i - 2 - pin.len()]) is Some);
        }
    }
    assert forall|i: int| 0 <= i < pin.len() implies #[trigger] t[2 + i] == pin[i] by {}
}

/// A PIN block that was generated for a PIN verifies against that PIN,
/// whatever the pad.
pub proof fn lemma_generated_pin_verifies(
    fmt: PinFormat,
    pin: Seq<char>,
    pan: Seq<char>,
    key: Seq<char>,
    pad: Seq<u8>,
    block: Seq<u8>,
)
    requires
        pin_input_error(fmt, pin, pan, key) is None,
        pad.len() == 8,
        is_pin_block(fmt, pin, pan, key, pad, block),
    ensures
        verified_pin(fmt, pin, block, pan, key) == Ok::<bool, Failure>(true),
{
    lemma_clear_text(fmt, pin, pad);
    let t = clear_text(fmt, pin, pad);
    let c = hex_bytes(t);
    let d = tdes_ede2_dec(hex_bytes(key), block);
    let clear = if uses_pan(fmt) {
        xor_bytes(d, hex_bytes(pan_text(pan)))
    } else {
        d
    };
    if uses_pan(fmt) {
        let p = hex_bytes(pan_text(pan));
        assert(pan_text(pan).len() == 16);
        assert forall|i: int| 0 <= i < c.len() implies #[trigger] clear[i] == c[i] by {
            lemma_xor_back(c[i], p[i]);
        }
        assert(clear =~= c);
    }
    assert(clear == c);
    lemma_hex_text_of_bytes(t);
    let l: int = pin.len() as int;
    assert(c[0] as int == format_nibble(fmt) * 16 + l);
    assert forall|i: int| 0 <= i < l implies #[trigger] hex_text(c).subrange(2, 2 + l)[i]
        == pin[i] by {
        assert(hex_text(c)[2 + i] == hex_lower(t[2 + i]));
        assert(t[2 + i] == pin[i]);
    }
    assert(hex_text(c).subrange(2, 2 + l) =~= pin);
}

/// The first sixteen characters of `s`, or all of it where it has fewer.
pub open spec fn cut_16(s: Seq<char>) -> Seq<char> {
    if s.len() <= 16 {
        s
    } else {
        s.take(16)
    }
}

/// XOR the contents of 2 hex string (of equal length) and return the result
/// as a Vec<u8>; `None` where one is no hexadecimal text or the lengths differ.
pub fn xor_hexstr(b1: &str, b2: &str) -> (r: Option<Vec<u8>>)
    ensures
        r is Some <==> is_hex_text(b1@) && is_hex_text(b2@) && b1@.len() == b2@.len(),
        r matches Some(v) ==> v@ == xor_bytes(hex_bytes(b1@), hex_bytes(b2@)),
{
    let x = match hex_decode(b1) {
        Some(v) => v,
        None => {
            return None;
        },
    };
    let y = match hex_decode(b2) {
        Some(v) => v,
        None => {
            return None;
        },
    };
    if x.len() != y.len() {
        return None;
    }
    let mut out: Vec<u8> = Vec::new();
    let mut i: usize = 0;
    while i < x.len()
        invariant
            i <= x@.len(),
            x@.len() == y@.len(),
            out@.len() == i,
            forall|j: int| 0 <= j < i ==> #[trigger] out@[j] == x@[j] ^ y@[j],
        decreases x@.len() - i,
    {
        out.push(x[i] ^ y[i]);
        i = i + 1;
    }
    assert(out@ =~= xor_bytes(x@, y@));
    Some(out)
}

/// Pad the hex string of `padding` to 'data' and cut it at 16 characters
pub fn pad_8(data: &mut String, padding: &Vec<u8>)
    ensures
        final(data)@ == cut_16(old(data)@ + hex_text(padding@)),
{
    let text = hex_encode(padding.as_slice());
    data.append(text.as_str());
    if data.as_str().unicode_len() > 16 {
        let cut = String::from_str(data.as_str().substring_char(0, 16));
        *data = cut;
    }
}

/// Pad a hex string made of the letters A to F only to 'data', and cut it at 16 characters
pub fn pad_8_a2f(data: &mut String, padding: &Vec<u8>)
    ensures
        final(data)@ == cut_16(old(data)@ + hex_text(letters_only(padding@))),
{
    let mut masked: Vec<u8> = Vec::new();
    let mut i: usize = 0;
    while i < padding.len()
        invariant
            i <= padding@.len(),
            masked@.len() == i,
            forall|j: int| 0 <= j < i ==> #[trigger] masked@[j] == padding@[j] | 0xAA,
        decreases padding@.len() - i,
    {
        //just ensure a min of A for each :-)
        masked.push(padding[i] | 0xAA);
        i = i + 1;
    }
    assert(masked@ =~= letters_only(padding@));
    pad_8(data, &masked);
}

fn all_digits(s: &str, n: usize) -> (r: bool)
    requires
        n == s@.len(),
    ensures
        r == is_digits(s@),
{
    let mut i: usize = 0;
    while i < n
        invariant
            i <= n,
            n == s@.len(),
            forall|j: int| 0 <= j < i ==> 48 <= (#[trigger] s@[j]) as int <= 57,
        decreases n - i,
    {
        let c = s.get_char(i);
        if c < '0' || c > '9' {
            return false;
        }
        i = i + 1;
    }
    true
}

fn key_of(key: &str) -> (r: Option<Vec<u8>>)
    ensures
        r is Some <==> key_usable(key@),
        r matches Some(k) ==> k@ == hex_bytes(key@) && k@.len() == 16,
{
    match hex_decode(key) {
        Some(k) => if k.len() == 16 {
            Some(k)
        } else {
            None
        },
        None => None,
    }
}

fn pan_block(pan: &str) -> (r: Option<String>)
    ensures
        r is Some <==> pan_usable(pan@),
        r matches Some(b2) ==> b2@ == pan_text(pan@),
{
    let n = pan.unicode_len();
    if n < 13 {
        return None;
    }
    //rightmost 12 not including check digit
    let digits = pan.substring_char(n - 13, n - 1);
    match hex_decode(digits) {
        Some(_) => {
            let mut b2 = String::from_str("0000");
            proof {
                reveal_strlit("0000");
            }
            b2.append(digits);
            assert(b2@ =~= pan_text(pan@));
            Some(b2)
        },
        None => None,
    }
}

fn clear_text_of(fmt: &PinFormat, c_pin: &str, n: usize, pad: &Vec<u8>) -> (b1: String)
    requires
        *fmt != PinFormat::ISO4,
        n == c_pin@.len(),
        4 <= n <= 12,
        pad@.len() == 8,
    ensures
        b1@ == clear_text(*fmt, c_pin@, pad@),
{
    let mut b1 = String::new();
    push_char(
        &mut b1,
        match fmt {
            PinFormat::ISO0 => '0',
            PinFormat::ISO1 => '1',
            PinFormat::ISO2 => '2',
            _ => '3',
        },
    );
    let len_digit: u8 = if n < 10 {
        48 + n as u8
    } else {
        55 + n as u8
    };
    push_char(&mut b1, len_digit as char);
    b1.append(c_pin);
    let ghost head = b1@;
    assert(head =~= seq![hex_digit_char(format_nibble(*fmt)), upper_hex_char(n as int)] + c_pin@);
    match fmt {
        PinFormat::ISO2 => {
            let mut k: usize = n + 2;
            while k < 16
                invariant
                    n + 2 <= k <= 16,
                    head.len() == n + 2,
                    b1@ == head + Seq::new((k - n - 2) as nat, |i: int| 'F'),
                decreases 16 - k,
            {
                push_char(&mut b1, 'F');
                assert(b1@ =~= head + Seq::new((k + 1 - n - 2) as nat, |i: int| 'F'));
                k = k + 1;
            }
            assert(b1@ =~= clear_text(*fmt, c_pin@, pad@));
        },
        PinFormat::ISO3 => {
            pad_8_a2f(&mut b1, pad);
        },
        _ => {
            pad_8(&mut b1, pad);
        },
    }
    b1
}

/// The clear PIN block in the format asked for, before encryption: format,
/// PIN length, PIN and filler as sixteen hexadecimal digits, for ISO-0 and
/// ISO-3 combined by exclusive or with the account number. `pad` gives the
/// eight bytes that the filler is made of.
pub fn clear_pin_block(fmt: &PinFormat, c_pin: &str, pan: &str, pad: &Vec<u8>) -> (r: Result<
    Vec<u8>,
    PinError,
>)
    ensures
        match made_clear_block(*fmt, c_pin@, pan@, pad@) {
            Ok(b) => r is Ok && r->Ok_0@ == b && b.len() == 8,
            Err(f) => r is Err && r->Err_0@ == f,
        },
{
    let with_pan = match fmt {
        PinFormat::ISO0 => true,
        PinFormat::ISO3 => true,
        PinFormat::ISO4 => {
            return Err(PinError { kind: ErrorKind::Unsupported, msg: String::from_str("ISO4") });
        },
        _ => false,
    };
    let n = c_pin.unicode_len();
    if n < 4 || n > 12 || !all_digits(c_pin, n) {
        return Err(PinError { kind: ErrorKind::Unsupported, msg: String::from_str("pin") });
    }
    let b2 = if with_pan {
        match pan_block(pan) {
            Some(t) => Some(t),
            None => {
                return Err(PinError { kind: ErrorKind::BadEncoding, msg: String::from_str("pan") });
            },
        }
    } else {
        None
    };
    if pad.len() != 8 {
        return Err(PinError { kind: ErrorKind::Unsupported, msg: String::from_str("pad") });
    }
    let b1 = clear_text_of(fmt, c_pin, n, pad);
    proof {
        lemma_clear_text(*fmt, c_pin@, pad@);
    }
    let clear = match b2 {
        Some(t) => match xor_hexstr(b1.as_str(), t.as_str()) {
            Some(v) => v,
            None => unreached(),
        },
        None => match hex_decode(b1.as_str()) {
            Some(v) => v,
            None => unreached(),
        },
    };
    Ok(clear)
}

/// The PIN block of `c_pin` with the pad given: the clear block is built
/// in the format asked for and encrypted under the key.
pub fn pin_block_with_pad(fmt: &PinFormat, c_pin: &str, pan: &str, key: &str, pad: &Vec<u8>) -> (r:
    Result<Vec<u8>, PinError>)
    ensures
        match made_clear_block(*fmt, c_pin@, pan@, pad@) {
            Err(f) => r is Err && r->Err_0@ == f,
            Ok(clear) => if !key_usable(key@) {
                r is Err && r->Err_0@ == failure(ErrorKind::BadEncoding, "key"@)
            } else {
                r is Ok && is_pin_block(*fmt, c_pin@, pan@, key@, pad@, r->Ok_0@)
            },
        },
{
    let clear = clear_pin_block(fmt, c_pin, pan, pad)?;
    let key_bytes = match key_of(key) {
        Some(k) => k,
        None => {
            return Err(PinError { kind: ErrorKind::BadEncoding, msg: String::from_str("key") });
        },
    };
    Ok(tdes_ede2_encrypt(&clear, &key_bytes))
}

/// The PIN block of `c_pin` for the account `pan` under `key`, in the
/// format asked for. Formats ISO-0, ISO-1 and ISO-3 are filled with random
/// digits, so two calls give different blocks.
pub fn generate_pin_block(fmt: &PinFormat, c_pin: &str, pan: &str, key: &str) -> (r: Result<
    Vec<u8>,
    PinError,
>)
    ensures
        match pin_input_error(*fmt, c_pin@, pan@, key@) {
            Some(f) => r is Err && r->Err_0@ == f,
            None => r is Ok && exists|pad: Seq<u8>|
                pad.len() == 8 && #[trigger] is_pin_block(
                    *fmt,
                    c_pin@,
                    pan@,
                    key@,
                    pad,
                    r->Ok_0@,
                ),
        },
{
    let pad = random_pad();
    pin_block_with_pad(fmt, c_pin, pan, key, &pad)
}

/// Whether a decrypted PIN block carries `expected_pin`: for ISO-0 and
/// ISO-3 the account number is taken out again, then the first byte gives
/// format and length, and the digits after it are compared with the PIN.
pub fn pin_in_decrypted(fmt: &PinFormat, expected_pin: &str, decrypted: &Vec<u8>, pan: &str) -> (r:
    Result<bool, PinError>)
    ensures
        match found_in_decrypted(*fmt, expected_pin@, decrypted@, pan@) {
            Ok(b) => r == Ok::<bool, PinError>(b),
            Err(f) => r is Err && r->Err_0@ == f,
        },
{
    let (with_pan, base): (bool, u8) = match fmt {
        PinFormat::ISO0 => (true, 0),
        PinFormat::ISO1 => (false, 16),
        PinFormat::ISO2 => (false, 32),
        PinFormat::ISO3 => (true, 48),
        PinFormat::ISO4 => {
            return Err(PinError { kind: ErrorKind::Unsupported, msg: String::from_str("ISO4") });
        },
    };
    if decrypted.len() != 8 {
        return Err(PinError { kind: ErrorKind::BadEncoding, msg: String::from_str("pin_block") });
    }
    let mixed = if with_pan {
        match pan_block(pan) {
            Some(b2) => {
                proof {
                    lemma_hex_bytes_of_text(decrypted@);
                }
                xor_hexstr(hex_encode(decrypted.as_slice()).as_str(), b2.as_str())
            },
            None => {
                return Err(PinError { kind: ErrorKind::BadEncoding, msg: String::from_str("pan") });
            },
        }
    } else {
        None
    };
    let clear: &Vec<u8> = match &mixed {
        Some(v) => v,
        None => decrypted,
    };
    let first: u8 = clear[0];
    if first < base || first - base > 14 {
        return Ok(false);
    }
    let pin_len: usize = (first - base) as usize;
    let b1 = hex_encode(clear.as_slice());
    let actual_pin = b1.as_str().substring_char(2, 2 + pin_len);
    Ok(String::from_str(actual_pin) == String::from_str(expected_pin))
}

/// Verifies the pin in the 'pin_block' against expected_pin and returns a boolean to indicate if there was
/// was a successful match
pub fn verify_pin(
    fmt: &PinFormat,
    expected_pin: &str,
    pin_block: &Vec<u8>,
    pan: &str,
    key: &str,
) -> (r: Result<bool, PinError>)
    ensures
        match verified_pin(*fmt, expected_pin@, pin_block@, pan@, key@) {
            Ok(b) => r == Ok::<bool, PinError>(b),
            Err(f) => r is Err && r->Err_0@ == f,
        },
{
    match fmt {
        PinFormat::ISO4 => {
            return Err(PinError { kind: ErrorKind::Unsupported, msg: String::from_str("ISO4") });
        },
        _ => {},
    }
    let key_bytes = match key_of(key) {
        Some(k) => k,
        None => {
            return Err(PinError { kind: ErrorKind::BadEncoding, msg: String::from_str("key") });
        },
    };
    if pin_block.len() != 8 {
        return Err(PinError { kind: ErrorKind::BadEncoding, msg: String::from_str("pin_block") });
    }
    let res = tdes_ede2_decrypt(pin_block, &key_bytes);
    pin_in_decrypted(fmt, expected_pin, &res, pan)
}

} // verus!
