//! This module contains implementation of Variable and Fixed fields
//!
use crate::hexcodec::hex_bytes;
use crate::hexcodec::hex_decode;
use crate::hexcodec::hex_encode;
use crate::hexcodec::hex_text;
use crate::hexcodec::is_hex_text;
use crate::iso8583::bitmap::Bitmap;
use crate::iso8583::bitmap::BmpField;
use crate::iso8583::iso_spec::IsoMsg;
use crate::iso8583::reader::ByteReader;
use crate::iso8583::store::FieldStore;
use crate::text::push_char;
use crate::iso8583::ErrorKind;
use crate::iso8583::Failure;
use vstd::prelude::*;
use vstd::string::StrSliceExecFns;
use vstd::string::StringExecFns;
use vstd::utf8::is_ascii_chars;

verus! {

/// This enum represents the encoding of a field (or length indicator for variable fields)
#[derive(Copy, Clone, Debug, PartialEq, Eq, Structural)]
pub enum Encoding {
    ASCII,
    EBCDIC,
    BINARY,
    BCD,
}

/// This struct represents a error in parsing a field/message
#[derive(Debug)]
pub struct ParseError {
    /// What went wrong.
    pub kind: ErrorKind,
    /// What it went wrong with: most often a field name.
    pub msg: String,
    /// The bitmap position concerned, or 0.
    pub position: u32,
}

impl View for ParseError {
    type V = Failure;

    open spec fn view(&self) -> Failure {
        Failure { kind: self.kind, subject: self.msg@, position: self.position }
    }
}

impl ParseError {
    /// An error of `kind` about the thing named `subject`, at `position`.
    pub fn new(kind: ErrorKind, subject: &str, position: u32) -> (e: ParseError)
        ensures
            e@ == (Failure { kind, subject: subject@, position }),
    {
        ParseError { kind, msg: String::from_str(subject), position }
    }
}

/// A failure that names nothing.
pub open spec fn bare(kind: ErrorKind) -> Failure {
    Failure { kind, subject: Seq::<char>::empty(), position: 0 }
}

/// What a parse leaves behind: the bytes still unread, the values stored, and
/// the failure, if it failed. A failed parse leaves the bytes it was given.
pub struct ParseOutcome {
    pub rest: Seq<u8>,
    pub store: Map<Seq<char>, Seq<u8>>,
    pub failure: Option<Failure>,
}

/// The ASCII byte that `encoding8::ebcdic::to_ascii` gives for an EBCDIC byte.
pub uninterp spec fn ebcdic_to_ascii_byte(b: u8) -> u8;

/// The EBCDIC byte that `encoding8::ascii::to_ebcdic` gives for an ASCII byte.
pub uninterp spec fn ascii_to_ebcdic_byte(b: u8) -> u8;

/// Calls `encoding8::ebcdic::to_ascii`. Trusted: the result is a function of
/// the byte, and the EBCDIC digits 0xF0..=0xF9 come out as the ASCII digits.
#[verifier::external_body]
fn ebcdic_byte_to_ascii(b: u8) -> (r: u8)
    ensures
        r == ebcdic_to_ascii_byte(b),
        0xF0 <= b <= 0xF9 ==> r == b - 0xC0,
{
    encoding8::ebcdic::to_ascii(b)
}

/// Calls `encoding8::ascii::to_ebcdic`. Trusted: the result is a function of
/// the byte, and the ASCII digits come out as the EBCDIC digits 0xF0..=0xF9.
#[verifier::external_body]
fn ascii_byte_to_ebcdic(b: u8) -> (r: u8)
    ensures
        r == ascii_to_ebcdic_byte(b),
        0x30 <= b <= 0x39 ==> r == b + 0xC0,
{
    encoding8::ascii::to_ebcdic(b)
}

/// Bytes that are all in the 7-bit range.
pub open spec fn is_ascii_bytes(b: Seq<u8>) -> bool {
    forall|i: int| 0 <= i < b.len() ==> #[trigger] b[i] < 0x80
}

/// Each byte as the character with that code.
pub open spec fn bytes_as_chars(b: Seq<u8>) -> Seq<char> {
    Seq::new(b.len(), |i: int| b[i] as char)
}

/// Each character as the byte with that code.
pub open spec fn chars_as_bytes(t: Seq<char>) -> Seq<u8> {
    Seq::new(t.len(), |i: int| t[i] as u8)
}

/// EBCDIC bytes translated to ASCII, byte by byte.
pub open spec fn ebcdic_as_ascii(b: Seq<u8>) -> Seq<u8> {
    Seq::new(b.len(), |i: int| ebcdic_to_ascii_byte(b[i]))
}

/// ASCII bytes translated to EBCDIC, byte by byte.
pub open spec fn ascii_as_ebcdic(b: Seq<u8>) -> Seq<u8> {
    Seq::new(b.len(), |i: int| ascii_to_ebcdic_byte(b[i]))
}

/// The string view of wire bytes: ASCII as it stands, EBCDIC translated,
/// binary and BCD as lowercase hexadecimal. `None` where a byte has no
/// 7-bit character.
pub open spec fn decode_text(encoding: Encoding, data: Seq<u8>) -> Option<Seq<char>> {
    match encoding {
        Encoding::ASCII => if is_ascii_bytes(data) {
            Some(bytes_as_chars(data))
        } else {
            None
        },
        Encoding::EBCDIC => if is_ascii_bytes(ebcdic_as_ascii(data)) {
            Some(bytes_as_chars(ebcdic_as_ascii(data)))
        } else {
            None
        },
        Encoding::BINARY => Some(hex_text(data)),
        Encoding::BCD => Some(hex_text(data)),
    }
}

/// The wire bytes of a string: the inverse reading of `decode_text`. `None`
/// where a character is not ASCII, or where binary or BCD text is not an
/// even number of hexadecimal digits.
pub open spec fn encode_text(encoding: Encoding, text: Seq<char>) -> Option<Seq<u8>> {
    match encoding {
        Encoding::ASCII => if is_ascii_chars(text) {
            Some(chars_as_bytes(text))
        } else {
            None
        },
        Encoding::EBCDIC => if is_ascii_chars(text) {
            Some(ascii_as_ebcdic(chars_as_bytes(text)))
        } else {
            None
        },
        Encoding::BINARY => if is_hex_text(text) {
            Some(hex_bytes(text))
        } else {
            None
        },
        Encoding::BCD => if is_hex_text(text) {
            Some(hex_bytes(text))
        } else {
            None
        },
    }
}

fn ascii_text(data: &Vec<u8>, from_ebcdic: bool) -> (r: Option<String>)
    ensures
        ({
            let src = if from_ebcdic {
                ebcdic_as_ascii(data@)
            } else {
                data@
            };
            &&& r is Some <==> is_ascii_bytes(src)
            &&& r matches Some(s) ==> s@ == bytes_as_chars(src)
        }),
{
    let ghost src = if from_ebcdic {
        ebcdic_as_ascii(data@)
    } else {
        data@
    };
    let mut out = String::new();
    let mut i: usize = 0;
    while i < data.len()
        invariant
            i <= data@.len(),
            src == if from_ebcdic {
                ebcdic_as_ascii(data@)
            } else {
                data@
            },
            src.len() == data@.len(),
            out@ == bytes_as_chars(src.take(i as int)),
            is_ascii_bytes(src.take(i as int)),
        decreases data@.len() - i,
    {
        let b: u8 = if from_ebcdic {
            ebcdic_byte_to_ascii(data[i])
        } else {
            data[i]
        };
        assert(b == src[i as int]);
        if b >= 0x80 {
            return None;
        }
        push_char(&mut out, b as char);
        proof {
            let a = src.take(i as int);
            let n = src.take(i + 1);
            assert(n =~= a.push(b));
            assert(bytes_as_chars(n) =~= bytes_as_chars(a).push(b as char));
            assert forall|j: int| 0 <= j < n.len() implies #[trigger] n[j] < 0x80 by {
                if j < i {
                    assert(a[j] < 0x80);
                }
            }
        }
        i = i + 1;
    }
    assert(src.take(i as int) =~= src);
    Some(out)
}

/// The string view of `data` under `encoding`.
pub fn vec_to_string(encoding: &Encoding, data: &Vec<u8>) -> (r: Result<String, ParseError>)
    ensures
        match decode_text(*encoding, data@) {
            Some(t) => r is Ok && r->Ok_0@ == t,
            None => r is Err && r->Err_0@ == bare(ErrorKind::BadEncoding),
        },
{
    let text = match encoding {
        Encoding::ASCII => ascii_text(data, false),
        Encoding::EBCDIC => ascii_text(data, true),
        Encoding::BINARY => Some(hex_encode(data.as_slice())),
        Encoding::BCD => Some(hex_encode(data.as_slice())),
    };
    match text {
        Some(s) => Ok(s),
        None => Err(ParseError { kind: ErrorKind::BadEncoding, msg: String::new(), position: 0 }),
    }
}

fn ascii_to_ebcdic(data: &Vec<u8>) -> (r: Vec<u8>)
    ensures
        r@ == ascii_as_ebcdic(data@),
{
    let mut out: Vec<u8> = Vec::new();
    let mut i: usize = 0;
    while i < data.len()
        invariant
            i <= data@.len(),
            out@ == ascii_as_ebcdic(data@.take(i as int)),
        decreases data@.len() - i,
    {
        out.push(ascii_byte_to_ebcdic(data[i]));
        assert(out@ =~= ascii_as_ebcdic(data@.take(i + 1)));
        i = i + 1;
    }
    assert(data@.take(i as int) =~= data@);
    out
}

/// The wire bytes of `data` under `encoding`.
pub fn string_to_vec(encoding: &Encoding, data: &str) -> (r: Result<Vec<u8>, ParseError>)
    ensures
        match encode_text(*encoding, data@) {
            Some(b) => r is Ok && r->Ok_0@ == b,
            None => r is Err && r->Err_0@ == bare(ErrorKind::BadEncoding),
        },
{
    broadcast use vstd::string::is_ascii_spec_bytes;

    let bytes = match encoding {
        Encoding::ASCII => {
            if data.is_ascii() {
                let b = data.as_bytes_vec();
                assert(b@ =~= chars_as_bytes(data@));
                Some(b)
            } else {
                None
            }
        },
        Encoding::EBCDIC => {
            if data.is_ascii() {
                let b = data.as_bytes_vec();
                assert(b@ =~= chars_as_bytes(data@));
                Some(ascii_to_ebcdic(&b))
            } else {
                None
            }
        },
        Encoding::BINARY => hex_decode(data),
        Encoding::BCD => hex_decode(data),
    };
    match bytes {
        Some(b) => Ok(b),
        None => Err(ParseError { kind: ErrorKind::BadEncoding, msg: String::new(), position: 0 }),
    }
}

/// The value of a decimal digit in a length indicator; `None` for any other byte.
pub open spec fn digit_of(encoding: Encoding, b: u8) -> Option<nat> {
    match encoding {
        Encoding::ASCII => if 0x30 <= b <= 0x39 {
            Some((b - 0x30) as nat)
        } else {
            None
        },
        Encoding::EBCDIC => if 0xF0 <= b <= 0xF9 {
            Some((b - 0xF0) as nat)
        } else {
            None
        },
        _ => None,
    }
}

/// The byte of a decimal digit `d` in a length indicator.
pub open spec fn digit_byte(encoding: Encoding, d: nat) -> u8 {
    match encoding {
        Encoding::EBCDIC => (0xF0 + d) as u8,
        _ => (0x30 + d) as u8,
    }
}

/// The number that a length indicator spells in decimal; `None` where a byte is no digit.
pub open spec fn decimal_value(encoding: Encoding, ind: Seq<u8>) -> Option<nat>
    decreases ind.len(),
{
    if ind.len() == 0 {
        Some(0)
    } else {
        match (decimal_value(encoding, ind.drop_last()), digit_of(encoding, ind.last())) {
            (Some(v), Some(d)) => Some(v * 10 + d),
            _ => None,
        }
    }
}

/// The largest length that an indicator of `width` bytes can declare.
pub open spec fn max_declared(width: u32) -> nat {
    if width == 1 {
        9
    } else if width == 2 {
        99
    } else {
        999
    }
}

/// The length indicator of `n`: `width` decimal digits, zero-padded.
pub open spec fn indicator(encoding: Encoding, width: u32, n: nat) -> Seq<u8> {
    if width == 1 {
        seq![digit_byte(encoding, n % 10)]
    } else if width == 2 {
        seq![digit_byte(encoding, n / 10 % 10), digit_byte(encoding, n % 10)]
    } else {
        seq![
            digit_byte(encoding, n / 100 % 10),
            digit_byte(encoding, n / 10 % 10),
            digit_byte(encoding, n % 10),
        ]
    }
}

proof fn lemma_digits(n: nat)
    requires
        n <= 999,
    ensures
        n % 10 < 10,
        n / 10 % 10 < 10,
        n / 100 % 10 < 10,
        n <= 9 ==> n % 10 == n,
        n <= 99 ==> (n / 10 % 10) * 10 + n % 10 == n,
        (n / 100 % 10) * 100 + (n / 10 % 10) * 10 + n % 10 == n,
{
}

proof fn lemma_value_of_digits(encoding: Encoding, d: Seq<nat>)
    requires
        encoding == Encoding::ASCII || encoding == Encoding::EBCDIC,
        1 <= d.len() <= 3,
        forall|i: int| 0 <= i < d.len() ==> #[trigger] d[i] < 10,
    ensures
        decimal_value(encoding, Seq::new(d.len(), |i: int| digit_byte(encoding, d[i]))) == Some(
            if d.len() == 1 {
                d[0]
            } else if d.len() == 2 {
                d[0] * 10 + d[1]
            } else {
                d[0] * 100 + d[1] * 10 + d[2]
            },
        ),
    decreases d.len(),
{
    let s = Seq::new(d.len(), |i: int| digit_byte(encoding, d[i]));
    assert(digit_of(encoding, s.last()) == Some(d.last()));
    if d.len() == 1 {
        assert(s.drop_last() =~= Seq::<u8>::empty());
        assert(decimal_value(encoding, s.drop_last()) == Some(0nat));
    } else {
        let dd = d.drop_last();
        assert(s.drop_last() =~= Seq::new(dd.len(), |i: int| digit_byte(encoding, dd[i])));
        lemma_value_of_digits(encoding, dd);
    }
}

/// Reading back a length indicator gives the length it was made of.
pub proof fn lemma_indicator_value(encoding: Encoding, width: u32, n: nat)
    requires
        1 <= width <= 3,
        encoding == Encoding::ASCII || encoding == Encoding::EBCDIC,
        n <= max_declared(width),
    ensures
        indicator(encoding, width, n).len() == width,
        decimal_value(encoding, indicator(encoding, width, n)) == Some(n),
{
    lemma_digits(n);
    let d: Seq<nat> = if width == 1 {
        seq![n % 10]
    } else if width == 2 {
        seq![n / 10 % 10, n % 10]
    } else {
        seq![n / 100 % 10, n / 10 % 10, n % 10]
    };
    lemma_value_of_digits(encoding, d);
    assert(indicator(encoding, width, n) =~= Seq::new(
        d.len(),
        |i: int| digit_byte(encoding, d[i]),
    ));
}

/// This struct represents a Fixed field
#[derive(Debug)]
pub struct FixedField {
    /// Name of the field
    pub name: String,
    /// ID of the field (unused)
    pub id: u32,
    /// Fixed length of the field
    pub len: u32,
    /// Encoding of the field content
    pub encoding: Encoding,
    /// Position of the field within the parent
    pub position: u32,
}

impl FixedField {
    /// Takes exactly `len` bytes and stores them under the field's name.
    pub open spec fn parse_spec(
        &self,
        rem: Seq<u8>,
        store: Map<Seq<char>, Seq<u8>>,
    ) -> ParseOutcome {
        if rem.len() < self.len {
            ParseOutcome {
                rest: rem,
                store,
                failure: Some(
                    Failure {
                        kind: ErrorKind::Truncated,
                        subject: self.name@,
                        position: self.position,
                    },
                ),
            }
        } else {
            ParseOutcome {
                rest: rem.skip(self.len as int),
                store: store.insert(self.name@, rem.take(self.len as int)),
                failure: None,
            }
        }
    }

    /// The stored bytes as they stand.
    pub open spec fn assemble_spec(&self, store: Map<Seq<char>, Seq<u8>>) -> Result<
        Seq<u8>,
        Failure,
    > {
        if store.contains_key(self.name@) {
            Ok(store[self.name@])
        } else {
            Err(
                Failure {
                    kind: ErrorKind::MissingField,
                    subject: self.name@,
                    position: self.position,
                },
            )
        }
    }

    fn fail(&self, kind: ErrorKind) -> (e: ParseError)
        ensures
            e@ == (Failure { kind, subject: self.name@, position: self.position }),
    {
        ParseError { kind, msg: self.name.clone(), position: self.position }
    }

    /// Takes exactly `len` bytes off the reader and stores them, as they
    /// stand, under the field's name. Where fewer are left, nothing is read
    /// or stored and `Truncated` names the field.
    pub fn parse(&self, in_buf: &mut ByteReader, f2d_map: &mut FieldStore) -> (r: Result<
        (),
        ParseError,
    >)
        ensures
            parsed_as(
                self.parse_spec(old(in_buf).remaining(), old(f2d_map)@),
                old(in_buf),
                final(in_buf),
                final(f2d_map)@,
                r,
            ),
    {
        match in_buf.read_exact(self.len as usize) {
            Some(f_data) => {
                f2d_map.insert(self.name.clone(), f_data);
                Ok(())
            },
            None => Err(self.fail(ErrorKind::Truncated)),
        }
    }

    /// Appends the bytes that the message holds under the field's name and
    /// returns how many they are; `MissingField` where it holds none.
    pub fn assemble(&self, out_buf: &mut Vec<u8>, iso_msg: &IsoMsg) -> (r: Result<
        usize,
        ParseError,
    >)
        ensures
            assembled_as(self.assemble_spec(iso_msg.fd_map@), old(out_buf)@, final(out_buf)@, r),
    {
        match iso_msg.fd_map.get(&self.name) {
            Some(fd) => {
                out_buf.extend_from_slice(fd.as_slice());
                Ok(fd.len())
            },
            None => Err(self.fail(ErrorKind::MissingField)),
        }
    }
}

/// How an executed parse answers to its outcome: the reader stands before
/// what is left, the store holds what was stored, and the result carries the failure.
pub open spec fn parsed_as(
    o: ParseOutcome,
    before: &ByteReader,
    after: &ByteReader,
    stored: Map<Seq<char>, Seq<u8>>,
    r: Result<(), ParseError>,
) -> bool {
    &&& after.buffer() == before.buffer()
    &&& after.remaining() =~= o.rest
    &&& stored =~= o.store
    &&& match o.failure {
        Some(f) => r is Err && r->Err_0@ == f,
        None => r is Ok,
    }
}

/// How an executed assembly answers to its bytes: they are appended and
/// counted, or on failure the buffer is as it was.
pub open spec fn assembled_as(
    o: Result<Seq<u8>, Failure>,
    before: Seq<u8>,
    after: Seq<u8>,
    r: Result<usize, ParseError>,
) -> bool {
    match o {
        Ok(b) => after =~= before + b && r == Ok::<usize, ParseError>(b.len() as usize),
        Err(f) => after =~= before && r is Err && r->Err_0@ == f,
    }
}

/// This struct represents a Variable field
#[derive(Debug)]
pub struct VarField {
    /// Name of the field
    pub name: String,
    pub id: u32,
    /// Number of bytes in the length indicator
    pub len: u32,
    /// Encoding of the length indicator
    pub len_encoding: Encoding,
    /// Encoding of field content
    pub encoding: Encoding,
    /// Position of field within parent
    pub position: u32,
}

impl VarField {
    /// A definition that can be parsed and assembled: an indicator of one to
    /// three bytes in ASCII or EBCDIC.
    pub open spec fn usable(&self) -> bool {
        &&& 1 <= self.len <= 3
        &&& (self.len_encoding == Encoding::ASCII || self.len_encoding == Encoding::EBCDIC)
    }

    /// A failure of this field.
    pub open spec fn failing(&self, kind: ErrorKind) -> Failure {
        Failure { kind, subject: self.name@, position: self.position }
    }

    /// Takes the length indicator, reads it as a decimal count, takes that
    /// many bytes and stores them under the field's name.
    pub open spec fn parse_spec(
        &self,
        rem: Seq<u8>,
        store: Map<Seq<char>, Seq<u8>>,
    ) -> ParseOutcome {
        let w = self.len as int;
        if !self.usable() {
            ParseOutcome { rest: rem, store, failure: Some(self.failing(ErrorKind::Unsupported)) }
        } else if rem.len() < w {
            ParseOutcome { rest: rem, store, failure: Some(self.failing(ErrorKind::Truncated)) }
        } else {
            match decimal_value(self.len_encoding, rem.take(w)) {
                None => ParseOutcome {
                    rest: rem,
                    store,
                    failure: Some(self.failing(ErrorKind::BadLengthIndicator)),
                },
                Some(n) => if rem.len() - w < n {
                    ParseOutcome {
                        rest: rem,
                        store,
                        failure: Some(self.failing(ErrorKind::Truncated)),
                    }
                } else {
                    ParseOutcome {
                        rest: rem.skip(w + n),
                        store: store.insert(self.name@, rem.subrange(w, w + n)),
                        failure: None,
                    }
                },
            }
        }
    }

    /// The length indicator, then the stored bytes.
    pub open spec fn assemble_spec(&self, store: Map<Seq<char>, Seq<u8>>) -> Result<
        Seq<u8>,
        Failure,
    > {
        if !store.contains_key(self.name@) {
            Err(self.failing(ErrorKind::MissingField))
        } else if !self.usable() {
            Err(self.failing(ErrorKind::Unsupported))
        } else if store[self.name@].len() > max_declared(self.len) {
            Err(self.failing(ErrorKind::BadLengthIndicator))
        } else {
            Ok(
                indicator(self.len_encoding, self.len, store[self.name@].len())
                    + store[self.name@],
            )
        }
    }

    fn fail(&self, kind: ErrorKind) -> (e: ParseError)
        ensures
            e@ == self.failing(kind),
    {
        ParseError { kind, msg: self.name.clone(), position: self.position }
    }

    /// Returns the length of data in the variable field: the decimal number
    /// that the indicator bytes spell. `None` where the definition is not
    /// usable, the bytes are not as many as the indicator has, or a byte is
    /// no digit.
    pub fn data_len(&self, data: &Vec<u8>) -> (r: Option<usize>)
        ensures
            r is Some <==> self.usable() && data@.len() == self.len && decimal_value(
                self.len_encoding,
                data@,
            ) is Some,
            r matches Some(n) ==> n <= 999 && decimal_value(self.len_encoding, data@) == Some(
                n as nat,
            ),
    {
        let ebcdic = match self.len_encoding {
            Encoding::ASCII => false,
            Encoding::EBCDIC => true,
            _ => {
                return None;
            },
        };
        if self.len < 1 || self.len > 3 || data.len() != self.len as usize {
            return None;
        }
        let mut value: usize = 0;
        let mut i: usize = 0;
        while i < data.len()
            invariant
                i <= data@.len() <= 3,
                ebcdic == (self.len_encoding == Encoding::EBCDIC),
                self.len_encoding == Encoding::ASCII || self.len_encoding == Encoding::EBCDIC,
                decimal_value(self.len_encoding, data@.take(i as int)) == Some(value as nat),
                i == 0 ==> value == 0,
                i == 1 ==> value <= 9,
                i == 2 ==> value <= 99,
                i == 3 ==> value <= 999,
            decreases data@.len() - i,
        {
            let b: u8 = data[i];
            proof {
                assert(data@.take(i + 1).drop_last() =~= data@.take(i as int));
                assert(data@.take(i + 1).last() == b);
            }
            let d: u8 = if ebcdic {
                if b < 0xF0 || b > 0xF9 {
                    proof {
                        lemma_no_value(self.len_encoding, data@, i as int + 1);
                    }
                    return None;
                }
                let a: u8 = ebcdic_byte_to_ascii(b);
                a - 0x30
            } else {
                if b < 0x30 || b > 0x39 {
                    proof {
                        lemma_no_value(self.len_encoding, data@, i as int + 1);
                    }
                    return None;
                }
                b - 0x30
            };
            value = value * 10 + d as usize;
            i = i + 1;
        }
        assert(data@.take(i as int) =~= data@);
        Some(value)
    }

    /// Builds and returns the length indicator based on encoding of the
    /// field as a Vec<u8>: `len` in decimal, zero-padded to the indicator's
    /// width. `None` where the definition is not usable or `len` does not fit.
    pub fn build_len_ind(&self, len: usize) -> (r: Option<Vec<u8>>)
        ensures
            r is Some <==> self.usable() && len <= max_declared(self.len),
            r matches Some(v) ==> v@ == indicator(self.len_encoding, self.len, len as nat),
    {
        let ebcdic = match self.len_encoding {
            Encoding::ASCII => false,
            Encoding::EBCDIC => true,
            _ => {
                return None;
            },
        };
        if self.len < 1 || self.len > 3 {
            return None;
        }
        let max: usize = if self.len == 1 {
            9
        } else if self.len == 2 {
            99
        } else {
            999
        };
        if len > max {
            return None;
        }
        let mut ascii: Vec<u8> = Vec::new();
        if self.len == 3 {
            ascii.push(0x30 + (len / 100 % 10) as u8);
        }
        if self.len >= 2 {
            ascii.push(0x30 + (len / 10 % 10) as u8);
        }
        ascii.push(0x30 + (len % 10) as u8);
        if ebcdic {
            let out = ascii_to_ebcdic_digits(&ascii);
            assert(out@ =~= indicator(self.len_encoding, self.len, len as nat));
            Some(out)
        } else {
            assert(ascii@ =~= indicator(self.len_encoding, self.len, len as nat));
            Some(ascii)
        }
    }

    /// Takes the length indicator and then as many bytes as it declares, and
    /// stores those under the field's name. On failure the reader is put
    /// back where it stood and nothing is stored.
    pub fn parse(&self, in_buf: &mut ByteReader, f2d_map: &mut FieldStore) -> (r: Result<
        (),
        ParseError,
    >)
        ensures
            parsed_as(
                self.parse_spec(old(in_buf).remaining(), old(f2d_map)@),
                old(in_buf),
                final(in_buf),
                final(f2d_map)@,
                r,
            ),
    {
        let usable = self.len >= 1 && self.len <= 3 && match self.len_encoding {
            Encoding::ASCII => true,
            Encoding::EBCDIC => true,
            _ => false,
        };
        if !usable {
            return Err(self.fail(ErrorKind::Unsupported));
        }
        let start = in_buf.position();
        let ghost rem = in_buf.remaining();
        let len_data = match in_buf.read_exact(self.len as usize) {
            Some(v) => v,
            None => {
                return Err(self.fail(ErrorKind::Truncated));
            },
        };
        let data_len = match self.data_len(&len_data) {
            Some(n) => n,
            None => {
                in_buf.seek(start);
                return Err(self.fail(ErrorKind::BadLengthIndicator));
            },
        };
        match in_buf.read_exact(data_len) {
            Some(f_data) => {
                proof {
                    let w = self.len as int;
                    assert(f_data@ =~= rem.subrange(w, w + data_len));
                    assert(in_buf.remaining() =~= rem.skip(w + data_len));
                }
                f2d_map.insert(self.name.clone(), f_data);
                Ok(())
            },
            None => {
                in_buf.seek(start);
                Err(self.fail(ErrorKind::Truncated))
            },
        }
    }

    /// Appends the length indicator of the value that the message holds
    /// under the field's name, then the value, and returns how many bytes
    /// that made. On failure the buffer is left as it was.
    pub fn assemble(&self, out_buf: &mut Vec<u8>, iso_msg: &IsoMsg) -> (r: Result<
        usize,
        ParseError,
    >)
        ensures
            assembled_as(self.assemble_spec(iso_msg.fd_map@), old(out_buf)@, final(out_buf)@, r),
    {
        match iso_msg.fd_map.get(&self.name) {
            Some(fd) => {
                let usable = self.len >= 1 && self.len <= 3 && match self.len_encoding {
                    Encoding::ASCII => true,
                    Encoding::EBCDIC => true,
                    _ => false,
                };
                if !usable {
                    return Err(self.fail(ErrorKind::Unsupported));
                }
                match self.build_len_ind(fd.len()) {
                    Some(len_ind) => {
                        out_buf.extend_from_slice(len_ind.as_slice());
                        out_buf.extend_from_slice(fd.as_slice());
                        assert(out_buf@ =~= old(out_buf)@ + (len_ind@ + fd@));
                        Ok(len_ind.len() + fd.len())
                    },
                    None => Err(self.fail(ErrorKind::BadLengthIndicator)),
                }
            },
            None => Err(self.fail(ErrorKind::MissingField)),
        }
    }
}

proof fn lemma_no_value(encoding: Encoding, data: Seq<u8>, upto: int)
    requires
        0 < upto <= data.len(),
        digit_of(encoding, data[upto - 1]) is None,
    ensures
        decimal_value(encoding, data) is None,
    decreases data.len() - upto,
{
    if upto == data.len() {
    } else {
        lemma_no_value(encoding, data.drop_last(), upto);
    }
}

fn ascii_to_ebcdic_digits(digits: &Vec<u8>) -> (r: Vec<u8>)
    requires
        forall|i: int| 0 <= i < digits@.len() ==> 0x30 <= #[trigger] digits@[i] <= 0x39,
    ensures
        r@.len() == digits@.len(),
        forall|i: int| 0 <= i < digits@.len() ==> #[trigger] r@[i] == digits@[i] + 0xC0,
{
    let mut out: Vec<u8> = Vec::new();
    let mut i: usize = 0;
    while i < digits.len()
        invariant
            i <= digits@.len(),
            out@.len() == i,
            forall|j: int| 0 <= j < digits@.len() ==> 0x30 <= #[trigger] digits@[j] <= 0x39,
            forall|j: int| 0 <= j < i ==> #[trigger] out@[j] == digits@[j] + 0xC0,
        decreases digits@.len() - i,
    {
        out.push(ascii_byte_to_ebcdic(digits[i]));
        i = i + 1;
    }
    out
}

/// A field of a dialect: fixed, variable or bitmapped.
#[derive(Debug)]
pub enum Field {
    Fixed(FixedField),
    Variable(VarField),
    Bitmapped(BmpField),
}

impl Field {
    /// The field's name.
    pub open spec fn name_view(&self) -> Seq<char> {
        match self {
            Field::Fixed(f) => f.name@,
            Field::Variable(f) => f.name@,
            Field::Bitmapped(f) => f.name@,
        }
    }

    /// The field's position in its parent; 0 for a bitmapped field.
    pub open spec fn position_view(&self) -> u32 {
        match self {
            Field::Fixed(f) => f.position,
            Field::Variable(f) => f.position,
            Field::Bitmapped(f) => 0,
        }
    }

    /// What parsing this field off the front of `rem` leaves behind.
    pub open spec fn parse_spec(
        &self,
        rem: Seq<u8>,
        store: Map<Seq<char>, Seq<u8>>,
    ) -> ParseOutcome
        decreases self, 0nat,
    {
        match self {
            Field::Fixed(f) => f.parse_spec(rem, store),
            Field::Variable(f) => f.parse_spec(rem, store),
            Field::Bitmapped(f) => f.parse_spec(rem, store),
        }
    }

    /// The bytes this field puts on the wire for a message that holds
    /// `store` and `bmp`.
    pub open spec fn assemble_spec(&self, store: Map<Seq<char>, Seq<u8>>, bmp: Bitmap) -> Result<
        Seq<u8>,
        Failure,
    >
        decreases self, 0nat,
    {
        match self {
            Field::Fixed(f) => f.assemble_spec(store),
            Field::Variable(f) => f.assemble_spec(store),
            Field::Bitmapped(f) => f.assemble_spec(store, bmp),
        }
    }

    /// The encoding of the field's content.
    pub open spec fn encoding_view(&self) -> Encoding {
        match self {
            Field::Fixed(f) => f.encoding,
            Field::Variable(f) => f.encoding,
            Field::Bitmapped(f) => Encoding::BINARY,
        }
    }

    /// Returns the name of the field
    pub fn name(&self) -> (r: &String)
        ensures
            r@ == self.name_view(),
    {
        match self {
            Field::Fixed(f) => &f.name,
            Field::Variable(f) => &f.name,
            Field::Bitmapped(f) => &f.name,
        }
    }

    /// Returns the position of the field in the parent field (mostly applicable for chlidren of BmpField)
    pub fn position(&self) -> (r: u32)
        ensures
            r == self.position_view(),
    {
        match self {
            Field::Fixed(f) => f.position,
            Field::Variable(f) => f.position,
            Field::Bitmapped(_) => 0,
        }
    }

    /// Parses the field by reading from in_buf and stores the result into f2d_map
    /// Returns a ParseError on failure, with the reader put back where it stood.
    pub fn parse(&self, in_buf: &mut ByteReader, f2d_map: &mut FieldStore) -> (r: Result<
        (),
        ParseError,
    >)
        ensures
            parsed_as(
                self.parse_spec(old(in_buf).remaining(), old(f2d_map)@),
                old(in_buf),
                final(in_buf),
                final(f2d_map)@,
                r,
            ),
        decreases self, 0nat,
    {
        match self {
            Field::Fixed(f) => f.parse(in_buf, f2d_map),
            Field::Variable(f) => f.parse(in_buf, f2d_map),
            Field::Bitmapped(f) => f.parse(in_buf, f2d_map),
        }
    }

    /// Assembles the field i.e. appends it data into out_buf
    /// Returns the number of bytes written on success or a ParseError on failure
    pub fn assemble(&self, out_buf: &mut Vec<u8>, iso_msg: &IsoMsg) -> (r: Result<
        usize,
        ParseError,
    >)
        ensures
            assembled_as(
                self.assemble_spec(iso_msg.fd_map@, iso_msg.bmp),
                old(out_buf)@,
                final(out_buf)@,
                r,
            ),
        decreases self, 0nat,
    {
        match self {
            Field::Fixed(f) => f.assemble(out_buf, iso_msg),
            Field::Variable(f) => f.assemble(out_buf, iso_msg),
            Field::Bitmapped(f) => f.assemble(out_buf, iso_msg),
        }
    }

    /// The children of a bitmapped field, in declared order; other fields have none.
    pub open spec fn children_view(&self) -> Seq<Field> {
        match self {
            Field::Bitmapped(b) => b.children@,
            _ => Seq::<Field>::empty(),
        }
    }

    /// Returns children as Vec
    pub fn children(&self) -> (r: Vec<&Field>)
        ensures
            r@.len() == self.children_view().len(),
            forall|i: int| 0 <= i < r@.len() ==> *#[trigger] r@[i] == self.children_view()[i],
    {
        let mut out: Vec<&Field> = Vec::new();
        match self {
            Field::Bitmapped(b) => {
                let mut i: usize = 0;
                while i < b.children.len()
                    invariant
                        i <= b.children@.len(),
                        out@.len() == i,
                        forall|j: int| 0 <= j < i ==> *#[trigger] out@[j] == b.children@[j],
                    decreases b.children@.len() - i,
                {
                    out.push(&b.children[i]);
                    i = i + 1;
                }
            },
            _ => {},
        }
        out
    }

    /// Returns the child field by position
    pub fn child_by_pos(&self, pos: u32) -> (r: Result<&Field, ParseError>)
        ensures
            match self {
                Field::Bitmapped(b) => b.found_at(b.position_index(pos, 0), pos, r),
                _ => r is Err && r->Err_0@ == (Failure {
                    kind: ErrorKind::UndefinedField,
                    subject: self.name_view(),
                    position: pos,
                }),
            },
    {
        match self {
            Field::Bitmapped(b) => b.by_position(pos),
            _ => Err(
                ParseError {
                    kind: ErrorKind::UndefinedField,
                    msg: self.name().clone(),
                    position: pos,
                },
            ),
        }
    }

    /// Returns child field by name
    pub fn child_by_name(&self, name: &String) -> (r: Result<&Field, ParseError>)
        ensures
            match self {
                Field::Bitmapped(b) => b.found_named(b.name_index(name@, 0), name@, r),
                _ => r is Err && r->Err_0@ == (Failure {
                    kind: ErrorKind::UndefinedField,
                    subject: name@,
                    position: 0,
                }),
            },
    {
        match self {
            Field::Bitmapped(b) => b.child_by_name(name),
            _ => Err(
                ParseError { kind: ErrorKind::UndefinedField, msg: name.clone(), position: 0 },
            ),
        }
    }

    /// What `to_string` gives for `data`: the text under the field's
    /// encoding; a bitmapped field shows hexadecimal.
    pub open spec fn text_of(&self, data: Seq<u8>) -> Option<Seq<char>> {
        decode_text(self.encoding_view(), data)
    }

    /// What `to_raw` gives for `text`; a bitmapped field takes no value.
    pub open spec fn raw_of(&self, text: Seq<char>) -> Result<Seq<u8>, Failure> {
        match self {
            Field::Bitmapped(b) => Err(bare(ErrorKind::Unsupported)),
            _ => match encode_text(self.encoding_view(), text) {
                Some(b) => Ok(b),
                None => Err(bare(ErrorKind::BadEncoding)),
            },
        }
    }

    /// Returns a string that represents the field value in ascii
    pub fn to_string(&self, data: &Vec<u8>) -> (r: Result<String, ParseError>)
        ensures
            match self.text_of(data@) {
                Some(t) => r is Ok && r->Ok_0@ == t,
                None => r is Err && r->Err_0@ == bare(ErrorKind::BadEncoding),
            },
    {
        match self {
            Field::Fixed(f) => vec_to_string(&f.encoding, data),
            Field::Variable(f) => vec_to_string(&f.encoding, data),
            Field::Bitmapped(_) => Ok(hex_encode(data.as_slice())),
        }
    }

    /// Returns field value as binary (wire format)
    pub fn to_raw(&self, val: &str) -> (r: Result<Vec<u8>, ParseError>)
        ensures
            match self.raw_of(val@) {
                Ok(b) => r is Ok && r->Ok_0@ == b,
                Err(f) => r is Err && r->Err_0@ == f,
            },
    {
        match self {
            Field::Fixed(f) => string_to_vec(&f.encoding, val),
            Field::Variable(f) => string_to_vec(&f.encoding, val),
            Field::Bitmapped(_) => Err(
                ParseError { kind: ErrorKind::Unsupported, msg: String::new(), position: 0 },
            ),
        }
    }
}

} // verus!
