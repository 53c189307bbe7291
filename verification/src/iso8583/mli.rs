//! This module contains implementation of various MLI types associated with a ISO message
use crate::iso8583::reader::ByteReader;
use crate::iso8583::ErrorKind;
use crate::iso8583::Failure;
use crate::iso8583::IsoError;
use byteorder::ByteOrder;
use vstd::prelude::*;

verus! {

/// The four length indicators: two or four bytes, big-endian, counting the
/// payload alone (E, exclusive) or the payload and the indicator (I, inclusive).
#[derive(Clone, Copy, Debug, PartialEq, Eq, Structural)]
pub enum MLIType {
    MLI2E,
    MLI2I,
    MLI4E,
    MLI4I,
}

/// The number that two bytes spell, most significant first.
pub open spec fn be16(b: Seq<u8>) -> nat {
    b[0] as nat * 256 + b[1] as nat
}

/// The number that four bytes spell, most significant first.
pub open spec fn be32(b: Seq<u8>) -> nat {
    b[0] as nat * 16777216 + b[1] as nat * 65536 + b[2] as nat * 256 + b[3] as nat
}

/// The two bytes of `v`, most significant first.
pub open spec fn be16_bytes(v: nat) -> Seq<u8> {
    seq![(v / 256) as u8, (v % 256) as u8]
}

/// The four bytes of `v`, most significant first.
pub open spec fn be32_bytes(v: nat) -> Seq<u8> {
    seq![
        (v / 16777216) as u8,
        (v / 65536 % 256) as u8,
        (v / 256 % 256) as u8,
        (v % 256) as u8,
    ]
}

/// Calls `byteorder::BigEndian::read_u16`. Trusted: the result is the
/// number that the first two bytes spell, most significant first.
#[verifier::external_body]
fn be_read_u16(data: &[u8]) -> (r: u16)
    requires
        data@.len() >= 2,
    ensures
        r == be16(data@),
{
    byteorder::BigEndian::read_u16(data)
}

/// Calls `byteorder::BigEndian::read_u32`. Trusted: the result is the
/// number that the first four bytes spell, most significant first.
#[verifier::external_body]
fn be_read_u32(data: &[u8]) -> (r: u32)
    requires
        data@.len() >= 4,
    ensures
        r == be32(data@),
{
    byteorder::BigEndian::read_u32(data)
}

/// Calls `byteorder::BigEndian::write_u16` on a fresh buffer of two bytes.
/// Trusted: the buffer then holds the bytes of `v`, most significant first.
#[verifier::external_body]
fn be_write_u16(v: u16) -> (r: Vec<u8>)
    ensures
        r@ == be16_bytes(v as nat),
{
    let mut buf = vec![0u8; 2];
    byteorder::BigEndian::write_u16(&mut buf, v);
    buf
}

/// Calls `byteorder::BigEndian::write_u32` on a fresh buffer of four bytes.
/// Trusted: the buffer then holds the bytes of `v`, most significant first.
#[verifier::external_body]
fn be_write_u32(v: u32) -> (r: Vec<u8>)
    ensures
        r@ == be32_bytes(v as nat),
{
    let mut buf = vec![0u8; 4];
    byteorder::BigEndian::write_u32(&mut buf, v);
    buf
}

/// A failure of the framing, which names no field.
pub open spec fn framing(kind: ErrorKind) -> Failure {
    Failure { kind, subject: Seq::<char>::empty(), position: 0 }
}

impl MLIType {
    /// How many bytes the indicator takes.
    pub open spec fn width(self) -> nat {
        match self {
            MLIType::MLI2E => 2,
            MLIType::MLI2I => 2,
            MLIType::MLI4E => 4,
            MLIType::MLI4I => 4,
        }
    }

    /// What the declared length counts besides the payload: the indicator
    /// itself for the inclusive variants, nothing for the exclusive ones.
    pub open spec fn overhead(self) -> nat {
        match self {
            MLIType::MLI2E => 0,
            MLIType::MLI2I => 2,
            MLIType::MLI4E => 0,
            MLIType::MLI4I => 4,
        }
    }

    /// The longest payload the indicator can declare.
    pub open spec fn max_payload(self) -> nat {
        match self {
            MLIType::MLI2E => 65535,
            MLIType::MLI2I => 65533,
            MLIType::MLI4E => 4294967295,
            MLIType::MLI4I => 4294967291,
        }
    }

    /// The number that the indicator bytes spell.
    pub open spec fn declared(self, ind: Seq<u8>) -> nat {
        if self.width() == 2 {
            be16(ind)
        } else {
            be32(ind)
        }
    }

    /// The indicator bytes of a payload of `n` bytes.
    pub open spec fn indicator(self, n: nat) -> Seq<u8> {
        if self.width() == 2 {
            be16_bytes(n + self.overhead())
        } else {
            be32_bytes(n + self.overhead())
        }
    }

    /// Reading the payload length off the front of `rem`: nothing left is
    /// a closed connection, too little is a truncated indicator, and an
    /// inclusive length below the indicator's own size is no length.
    pub open spec fn parsed(self, rem: Seq<u8>) -> Result<u32, Failure> {
        if rem.len() == 0 {
            Err(framing(ErrorKind::ConnectionClosed))
        } else if rem.len() < self.width() {
            Err(framing(ErrorKind::Truncated))
        } else {
            let v = self.declared(rem.take(self.width() as int));
            if v < self.overhead() {
                Err(framing(ErrorKind::BadLengthIndicator))
            } else {
                Ok((v - self.overhead()) as u32)
            }
        }
    }

    /// What `create` gives: the indicator, or `BadLengthIndicator` where
    /// the length does not fit.
    pub open spec fn created(self, n: nat) -> Result<Seq<u8>, Failure> {
        if n > self.max_payload() {
            Err(framing(ErrorKind::BadLengthIndicator))
        } else {
            Ok(self.indicator(n))
        }
    }

    /// How an executed `parse` answers: on success the reader has passed
    /// the indicator, on failure it stands where it stood.
    pub open spec fn parse_holds(
        self,
        before: &ByteReader,
        after: &ByteReader,
        r: Result<u32, IsoError>,
    ) -> bool {
        &&& after.buffer() == before.buffer()
        &&& match self.parsed(before.remaining()) {
            Ok(n) => r == Ok::<u32, IsoError>(n) && after.remaining() =~= before.remaining().skip(
                self.width() as int,
            ),
            Err(f) => r is Err && r->Err_0@ == f && after.remaining() =~= before.remaining(),
        }
    }

    /// How an executed `create` answers.
    pub open spec fn create_holds(self, n: nat, r: Result<Vec<u8>, IsoError>) -> bool {
        match self.created(n) {
            Ok(b) => r is Ok && r->Ok_0@ =~= b,
            Err(f) => r is Err && r->Err_0@ == f,
        }
    }

    /// How many bytes the indicator takes.
    pub fn header_len(&self) -> (n: usize)
        ensures
            n == self.width(),
    {
        match self {
            MLIType::MLI2E => 2,
            MLIType::MLI2I => 2,
            MLIType::MLI4E => 4,
            MLIType::MLI4I => 4,
        }
    }

    /// Extracts MLI from in_buf
    pub fn parse(&self, in_buf: &mut ByteReader) -> (r: Result<u32, IsoError>)
        ensures
            self.parse_holds(old(in_buf), final(in_buf), r),
    {
        let (width, overhead): (usize, u32) = match self {
            MLIType::MLI2E => (2, 0),
            MLIType::MLI2I => (2, 2),
            MLIType::MLI4E => (4, 0),
            MLIType::MLI4I => (4, 4),
        };
        let start = in_buf.position();
        let left = in_buf.available();
        let ind = match in_buf.read_exact(width) {
            Some(v) => v,
            None => {
                let kind = if left == 0 {
                    ErrorKind::ConnectionClosed
                } else {
                    ErrorKind::Truncated
                };
                return Err(IsoError { kind, msg: String::new(), position: 0 });
            },
        };
        let n: u32 = if width == 2 {
            be_read_u16(ind.as_slice()) as u32
        } else {
            be_read_u32(ind.as_slice())
        };
        if n < overhead {
            in_buf.seek(start);
            return Err(
                IsoError { kind: ErrorKind::BadLengthIndicator, msg: String::new(), position: 0 },
            );
        }
        Ok(n - overhead)
    }

    /// Creates a Vec<u8> that represents the MLI containing n bytes
    pub fn create(&self, n: &usize) -> (r: Result<Vec<u8>, IsoError>)
        ensures
            self.create_holds(*n as nat, r),
    {
        let n: usize = *n;
        let (wide, overhead, max): (bool, u32, usize) = match self {
            MLIType::MLI2E => (false, 0, 65535),
            MLIType::MLI2I => (false, 2, 65533),
            MLIType::MLI4E => (true, 0, 4294967295),
            MLIType::MLI4I => (true, 4, 4294967291),
        };
        if n > max {
            return Err(
                IsoError { kind: ErrorKind::BadLengthIndicator, msg: String::new(), position: 0 },
            );
        }
        let declared: u32 = n as u32 + overhead;
        if wide {
            Ok(be_write_u32(declared))
        } else {
            Ok(be_write_u16(declared as u16))
        }
    }

    /// A frame: the indicator of `payload`, then `payload`.
    pub fn frame(&self, payload: &Vec<u8>) -> (r: Result<Vec<u8>, IsoError>)
        ensures
            match self.created(payload@.len()) {
                Ok(b) => r is Ok && r->Ok_0@ == b + payload@,
                Err(f) => r is Err && r->Err_0@ == f,
            },
    {
        let mut buf = self.create(&payload.len())?;
        buf.extend_from_slice(payload.as_slice());
        Ok(buf)
    }
}

/// Reading back an indicator gives the length it was made of, whatever follows it.
pub proof fn lemma_mli_round_trip(kind: MLIType, n: nat, rest: Seq<u8>)
    requires
        n <= kind.max_payload(),
    ensures
        kind.created(n) == Ok::<Seq<u8>, Failure>(kind.indicator(n)),
        kind.indicator(n).len() == kind.width(),
        kind.parsed(kind.indicator(n) + rest) == Ok::<u32, Failure>(n as u32),
{
    let ind = kind.indicator(n);
    let v = n + kind.overhead();
    assert((ind + rest).take(kind.width() as int) =~= ind);
    if kind.width() == 2 {
        assert(v / 256 < 256);
        assert(be16(ind) == v);
    } else {
        assert(v / 16777216 < 256);
        assert(be32(ind) == v) by {
            assert(ind[0] as nat == v / 16777216);
            assert(ind[1] as nat == v / 65536 % 256);
            assert(ind[2] as nat == v / 256 % 256);
            assert(ind[3] as nat == v % 256);
        }
    }
}

/// A message length indicator: the length prefix that frames a message on a stream.
pub trait MLI: Sync + Send {
    /// Which of the four variants this is.
    spec fn kind(&self) -> MLIType;

    /// Extracts MLI from in_buf
    fn parse(&self, in_buf: &mut ByteReader) -> (r: Result<u32, IsoError>)
        ensures
            self.kind().parse_holds(old(in_buf), final(in_buf), r),
    ;

    /// Creates a Vec<u8> that represents the MLI containing n bytes
    fn create(&self, n: &usize) -> (r: Result<Vec<u8>, IsoError>)
        ensures
            self.kind().create_holds(*n as nat, r),
    ;
}

/// This struct represents an MLI of 2E (i.e 2 bytes of length indicator exclusive of its own length)
pub struct MLI2E {}

/// This struct represents an MLI of 2I (i.e 2 bytes of length indicator inclusive of its own length)
pub struct MLI2I {}

/// This struct represents an MLI of 4E (i.e 4 bytes of length indicator exclusive of its own length)
pub struct MLI4E {}

/// This struct represents an MLI of 4I (i.e 4 bytes of length indicator inclusive of its own length)
pub struct MLI4I {}

impl MLI for MLI2E {
    open spec fn kind(&self) -> MLIType {
        MLIType::MLI2E
    }

    fn parse(&self, in_buf: &mut ByteReader) -> (r: Result<u32, IsoError>) {
        MLIType::MLI2E.parse(in_buf)
    }

    fn create(&self, n: &usize) -> (r: Result<Vec<u8>, IsoError>) {
        MLIType::MLI2E.create(n)
    }
}

impl MLI for MLI4E {
    open spec fn kind(&self) -> MLIType {
        MLIType::MLI4E
    }

    fn parse(&self, in_buf: &mut ByteReader) -> (r: Result<u32, IsoError>) {
        MLIType::MLI4E.parse(in_buf)
    }

    fn create(&self, n: &usize) -> (r: Result<Vec<u8>, IsoError>) {
        MLIType::MLI4E.create(n)
    }
}

impl MLI for MLI2I {
    open spec fn kind(&self) -> MLIType {
        MLIType::MLI2I
    }

    fn parse(&self, in_buf: &mut ByteReader) -> (r: Result<u32, IsoError>) {
        MLIType::MLI2I.parse(in_buf)
    }

    fn create(&self, n: &usize) -> (r: Result<Vec<u8>, IsoError>) {
        MLIType::MLI2I.create(n)
    }
}

impl MLI for MLI4I {
    open spec fn kind(&self) -> MLIType {
        MLIType::MLI4I
    }

    fn parse(&self, in_buf: &mut ByteReader) -> (r: Result<u32, IsoError>) {
        MLIType::MLI4I.parse(in_buf)
    }

    fn create(&self, n: &usize) -> (r: Result<Vec<u8>, IsoError>) {
        MLIType::MLI4I.create(n)
    }
}

} // verus!
