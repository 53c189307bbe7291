//! The 192-bit presence bitmap and the field that carries it.

use crate::hexcodec::hex_encode;
use crate::hexcodec::hex_text;
use crate::iso8583::field::assembled_as;
use crate::iso8583::field::parsed_as;
use crate::iso8583::field::Encoding;
use crate::iso8583::field::Field;
use crate::iso8583::field::ParseError;
use crate::iso8583::field::ParseOutcome;
use crate::iso8583::iso_spec::IsoMsg;
use crate::iso8583::reader::ByteReader;
use crate::iso8583::store::FieldStore;
use crate::iso8583::ErrorKind;
use crate::iso8583::Failure;
use byteorder::ByteOrder;
use vstd::prelude::*;

verus! {

/// The eight bytes of a word, most significant first.
pub open spec fn word_bytes(v: u64) -> Seq<u8> {
    seq![
        ((v >> 56) & 0xff) as u8,
        ((v >> 48) & 0xff) as u8,
        ((v >> 40) & 0xff) as u8,
        ((v >> 32) & 0xff) as u8,
        ((v >> 24) & 0xff) as u8,
        ((v >> 16) & 0xff) as u8,
        ((v >> 8) & 0xff) as u8,
        (v & 0xff) as u8,
    ]
}

/// The word that eight bytes spell, most significant first.
pub open spec fn word_of(s: Seq<u8>) -> u64 {
    ((s[0] as u64) << 56) | ((s[1] as u64) << 48) | ((s[2] as u64) << 40) | ((s[3] as u64) << 32)
        | ((s[4] as u64) << 24) | ((s[5] as u64) << 16) | ((s[6] as u64) << 8) | (s[7] as u64)
}

/// Whether bit `k` of `word` is set, counting 1 for the most significant bit and 64 for the least.
pub open spec fn bit_of(word: u64, k: int) -> bool {
    (word >> ((64 - k) as u64)) & 1 == 1
}

/// Calls `byteorder::BigEndian::write_u64` on a fresh buffer of eight bytes.
/// Trusted: the buffer then holds the bytes of `v`, most significant first.
#[verifier::external_body]
fn be_write_u64(v: u64) -> (r: Vec<u8>)
    ensures
        r@ == word_bytes(v),
{
    let mut buf = vec![0u8; 8];
    byteorder::BigEndian::write_u64(&mut buf, v);
    buf
}

/// Calls `byteorder::BigEndian::read_u64`. Trusted: the result is the word
/// that the first eight bytes spell, most significant first.
#[verifier::external_body]
fn be_read_u64(data: &[u8]) -> (r: u64)
    requires
        data@.len() >= 8,
    ensures
        r == word_of(data@.take(8)),
{
    byteorder::BigEndian::read_u64(data)
}

proof fn lemma_or_bit(w: u64, sh: u64, at: u64)
    by (bit_vector)
    requires
        sh < 64,
        at < 64,
    ensures
        (((w | (1u64 << sh)) >> at) & 1 == 1) == (((w >> at) & 1 == 1) || sh == at),
{
}

proof fn lemma_set_bit(w: u64, k: int)
    requires
        1 <= k <= 64,
    ensures
        forall|j: int|
            1 <= j <= 64 ==> #[trigger] bit_of(w | (1u64 << ((64 - k) as u64)), j) == (bit_of(w, j)
                || j == k),
{
    assert forall|j: int| 1 <= j <= 64 implies #[trigger] bit_of(
        w | (1u64 << ((64 - k) as u64)),
        j,
    ) == (bit_of(w, j) || j == k) by {
        lemma_or_bit(w, (64 - k) as u64, (64 - j) as u64);
    }
}

proof fn lemma_zero_word(at: u64)
    by (bit_vector)
    requires
        at < 64,
    ensures
        (0u64 >> at) & 1 == 0,
{
}

proof fn lemma_low_bit(w: u64)
    by (bit_vector)
    requires
        w & 1 == 1,
    ensures
        (w >> 0) & 1 == 1,
{
}

proof fn lemma_halve(w: u64)
    by (bit_vector)
    requires
        w != 0,
        w & 1 != 1,
    ensures
        w >> 1 != 0,
        w >> 1 < w,
{
}

proof fn lemma_shift_more(w: u64, sh: u64)
    by (bit_vector)
    requires
        sh < 64,
        ((w >> 1) >> sh) & 1 == 1,
    ensures
        sh < 63,
        (w >> ((sh + 1) as u64)) & 1 == 1,
{
}

proof fn lemma_some_shift(w: u64) -> (sh: u64)
    requires
        w != 0,
    ensures
        sh < 64,
        (w >> sh) & 1 == 1,
    decreases w,
{
    if w & 1 == 1 {
        lemma_low_bit(w);
        0
    } else {
        lemma_halve(w);
        let below = lemma_some_shift(w >> 1);
        lemma_shift_more(w, below);
        (below + 1) as u64
    }
}

/// A word is zero exactly when none of its 64 bits is set.
pub proof fn lemma_word_is_its_bits(w: u64)
    ensures
        w == 0 <==> forall|k: int| 1 <= k <= 64 ==> !#[trigger] bit_of(w, k),
{
    if w == 0 {
        assert forall|k: int| 1 <= k <= 64 implies !#[trigger] bit_of(w, k) by {
            lemma_zero_word((64 - k) as u64);
        }
    } else {
        let sh = lemma_some_shift(w);
        assert(bit_of(w, 64 - sh as int));
    }
}

proof fn lemma_bytes_of_word(v: u64)
    by (bit_vector)
    ensures
        (((((v >> 56) & 0xff) as u8) as u64) << 56) | (((((v >> 48) & 0xff) as u8) as u64) << 48) | ((
        (((v >> 40) & 0xff) as u8) as u64) << 40) | (((((v >> 32) & 0xff) as u8) as u64) << 32) | ((
        (((v >> 24) & 0xff) as u8) as u64) << 24) | (((((v >> 16) & 0xff) as u8) as u64) << 16) | ((
        (((v >> 8) & 0xff) as u8) as u64) << 8) | (((v & 0xff) as u8) as u64) == v,
{
}

/// The word that the bytes of a word spell is that word.
pub proof fn lemma_word_round_trip(v: u64)
    ensures
        word_bytes(v).len() == 8,
        word_of(word_bytes(v)) == v,
{
    lemma_bytes_of_word(v);
}

/// The presence bitmap of a message: 192 positions in three words.
/// Position 1 is the most significant bit of `p_bmp`, position 64 its least
/// significant bit, position 65 the most significant bit of `s_bmp`,
/// position 129 that of `t_bmp`.
#[derive(Debug, Clone, Copy, PartialEq, Eq, Structural)]
pub struct Bitmap {
    /// Positions 1 to 64.
    pub p_bmp: u64,
    /// Positions 65 to 128.
    pub s_bmp: u64,
    /// Positions 129 to 192.
    pub t_bmp: u64,
}

impl View for Bitmap {
    type V = Set<nat>;

    /// The positions that are on.
    open spec fn view(&self) -> Set<nat> {
        Set::new(|p: nat| self.on(p as int))
    }
}

/// What setting `pos` turns on: the position itself and the indicators above it.
pub open spec fn cascade(pos: nat) -> Set<nat> {
    Set::new(|p: nat| p == pos || (p == 1 && pos >= 65) || (p == 65 && pos >= 129))
}

impl Bitmap {
    /// Whether position `pos` is on; no position outside 1..=192 is.
    pub open spec fn on(&self, pos: int) -> bool {
        if 1 <= pos <= 64 {
            bit_of(self.p_bmp, pos)
        } else if 65 <= pos <= 128 {
            bit_of(self.s_bmp, pos - 64)
        } else if 129 <= pos <= 192 {
            bit_of(self.t_bmp, pos - 128)
        } else {
            false
        }
    }

    /// The bitmap with position `pos` turned on, and with it the indicators
    /// above it; a position outside 1..=192 changes nothing.
    pub open spec fn with(&self, pos: int) -> Bitmap {
        if 1 <= pos <= 64 {
            Bitmap {
                p_bmp: self.p_bmp | (1u64 << ((64 - pos) as u64)),
                s_bmp: self.s_bmp,
                t_bmp: self.t_bmp,
            }
        } else if 65 <= pos <= 128 {
            Bitmap {
                p_bmp: self.p_bmp | (1u64 << 63),
                s_bmp: self.s_bmp | (1u64 << ((128 - pos) as u64)),
                t_bmp: self.t_bmp,
            }
        } else if 129 <= pos <= 192 {
            Bitmap {
                p_bmp: self.p_bmp | (1u64 << 63),
                s_bmp: self.s_bmp | (1u64 << 63),
                t_bmp: self.t_bmp | (1u64 << ((192 - pos) as u64)),
            }
        } else {
            *self
        }
    }

    /// The cascade invariant: a bitmap that holds positions announces them.
    pub open spec fn cascaded(&self) -> bool {
        &&& self.s_bmp != 0 ==> self.on(1)
        &&& self.t_bmp != 0 ==> self.on(65)
    }

    /// The bytes on the wire: the primary bitmap, then the secondary where
    /// position 1 is on, then the tertiary where position 65 is on as well.
    pub open spec fn wire(&self) -> Seq<u8> {
        if !self.on(1) {
            word_bytes(self.p_bmp)
        } else if !self.on(65) {
            word_bytes(self.p_bmp) + word_bytes(self.s_bmp)
        } else {
            word_bytes(self.p_bmp) + word_bytes(self.s_bmp) + word_bytes(self.t_bmp)
        }
    }

    /// Reading a bitmap off the front of `rem`: the bitmap and how many bytes
    /// it took, or `None` where the bytes run out.
    pub open spec fn parse_wire(rem: Seq<u8>) -> Option<(Bitmap, int)> {
        if rem.len() < 8 {
            None
        } else {
            let p = word_of(rem.subrange(0, 8));
            if !bit_of(p, 1) {
                Some((Bitmap { p_bmp: p, s_bmp: 0, t_bmp: 0 }, 8))
            } else if rem.len() < 16 {
                None
            } else {
                let s = word_of(rem.subrange(8, 16));
                if !bit_of(s, 1) {
                    Some((Bitmap { p_bmp: p, s_bmp: s, t_bmp: 0 }, 16))
                } else if rem.len() < 24 {
                    None
                } else {
                    let t = word_of(rem.subrange(16, 24));
                    Some((Bitmap { p_bmp: p, s_bmp: s, t_bmp: t }, 24))
                }
            }
        }
    }

    /// A bitmap from its three words.
    pub fn new(b1: u64, b2: u64, b3: u64) -> (b: Bitmap)
        ensures
            b == (Bitmap { p_bmp: b1, s_bmp: b2, t_bmp: b3 }),
    {
        Bitmap { p_bmp: b1, s_bmp: b2, t_bmp: b3 }
    }

    fn test(&self, pos: u32) -> (r: bool)
        requires
            1 <= pos <= 192,
        ensures
            r == self.on(pos as int),
    {
        if pos < 65 {
            (self.p_bmp >> (64 - pos) as u64) & 0x01 == 0x01
        } else if pos < 129 {
            (self.s_bmp >> (64 - (pos - 64)) as u64) & 0x01 == 0x01
        } else {
            (self.t_bmp >> (64 - (pos - 128)) as u64) & 0x01 == 0x01
        }
    }

    /// Whether position `pos` is on. A position outside 1..=192 is refused.
    pub fn is_on(&self, pos: u32) -> (r: Result<bool, ParseError>)
        ensures
            1 <= pos <= 192 ==> r == Ok::<bool, ParseError>(self@.contains(pos as nat)),
            !(1 <= pos <= 192) ==> r is Err && r->Err_0@ == (Failure {
                kind: ErrorKind::BadPosition,
                subject: Seq::<char>::empty(),
                position: pos,
            }),
    {
        if pos < 1 || pos > 192 {
            return Err(ParseError { kind: ErrorKind::BadPosition, msg: String::new(), position: pos });
        }
        Ok(self.test(pos))
    }

    /// Turns position `pos` on, and with it the indicator of the bitmap it lies in:
    /// position 1 for 65..=128, positions 65 and 1 for 129..=192.
    /// A position outside 1..=192 is refused and changes nothing.
    pub fn set_on(&mut self, pos: u32) -> (r: Result<(), ParseError>)
        ensures
            *final(self) == old(self).with(pos as int),
            1 <= pos <= 192 ==> r is Ok && final(self)@ == old(self)@.union(cascade(pos as nat)),
            65 <= pos <= 192 ==> final(self)@.contains(1),
            129 <= pos <= 192 ==> final(self)@.contains(65),
            1 <= pos <= 192 && old(self).cascaded() ==> final(self).cascaded(),
            !(1 <= pos <= 192) ==> *final(self) == *old(self) && r is Err && r->Err_0@ == (Failure {
                kind: ErrorKind::BadPosition,
                subject: Seq::<char>::empty(),
                position: pos,
            }),
    {
        if pos < 1 || pos > 192 {
            return Err(ParseError { kind: ErrorKind::BadPosition, msg: String::new(), position: pos });
        }
        proof {
            lemma_set_bit(self.p_bmp, 1);
            lemma_set_bit(self.s_bmp, 1);
            if pos < 65 {
                lemma_set_bit(self.p_bmp, pos as int);
            } else if pos < 129 {
                lemma_set_bit(self.s_bmp, pos as int - 64);
            } else {
                lemma_set_bit(self.t_bmp, pos as int - 128);
            }
        }
        if pos < 65 {
            self.p_bmp = self.p_bmp | (1u64 << (64 - pos) as u64);
        } else if pos < 129 {
            self.s_bmp = self.s_bmp | (1u64 << (64 - (pos - 64)) as u64);
            self.p_bmp = self.p_bmp | (1u64 << 63);
        } else {
            self.t_bmp = self.t_bmp | (1u64 << (64 - (pos - 128)) as u64);
            self.s_bmp = self.s_bmp | (1u64 << 63);
            self.p_bmp = self.p_bmp | (1u64 << 63);
        }
        proof {
            let target = old(self)@.union(cascade(pos as nat));
            let k: int = pos as int;
            let op = old(self).p_bmp;
            let os = old(self).s_bmp;
            let ot = old(self).t_bmp;
            if pos < 65 {
                assert(self.p_bmp == op | (1u64 << ((64 - k) as u64)));
            } else if pos < 129 {
                assert(self.s_bmp == os | (1u64 << ((64 - (k - 64)) as u64)));
                assert(self.p_bmp == op | (1u64 << ((64 - 1) as u64)));
            } else {
                assert(self.t_bmp == ot | (1u64 << ((64 - (k - 128)) as u64)));
                assert(self.s_bmp == os | (1u64 << ((64 - 1) as u64)));
                assert(self.p_bmp == op | (1u64 << ((64 - 1) as u64)));
            }
            assert forall|p: nat| self@.contains(p) == target.contains(p) by {
                let q: int = p as int;
                assert(target.contains(p) == (old(self).on(q) || cascade(pos as nat).contains(p)));
                if 1 <= q <= 64 {
                    assert(self.on(q) == bit_of(self.p_bmp, q));
                    assert(old(self).on(q) == bit_of(op, q));
                    if pos < 65 {
                        assert(bit_of(op | (1u64 << ((64 - k) as u64)), q) == (bit_of(op, q) || q
                            == k));
                    } else {
                        assert(bit_of(op | (1u64 << ((64 - 1) as u64)), q) == (bit_of(op, q) || q
                            == 1));
                    }
                } else if 65 <= q <= 128 {
                    let j: int = q - 64;
                    assert(self.on(q) == bit_of(self.s_bmp, j));
                    assert(old(self).on(q) == bit_of(os, j));
                    if pos < 65 {
                    } else if pos < 129 {
                        assert(bit_of(os | (1u64 << ((64 - (k - 64)) as u64)), j) == (bit_of(os, j)
                            || j == k - 64));
                    } else {
                        assert(bit_of(os | (1u64 << ((64 - 1) as u64)), j) == (bit_of(os, j) || j
                            == 1));
                    }
                } else if 129 <= q <= 192 {
                    let j: int = q - 128;
                    assert(self.on(q) == bit_of(self.t_bmp, j));
                    assert(old(self).on(q) == bit_of(ot, j));
                    if pos >= 129 {
                        assert(bit_of(ot | (1u64 << ((64 - (k - 128)) as u64)), j) == (bit_of(
                            ot,
                            j,
                        ) || j == k - 128));
                    }
                } else {
                    assert(!self.on(q));
                    assert(!old(self).on(q));
                }
            }
            assert(self@ =~= target);
            assert(self@.contains(pos as nat));
            if pos >= 65 {
                assert(self@.contains(1));
                assert(self.on(1));
            }
            if pos >= 129 {
                assert(self@.contains(65));
                assert(self.on(65));
            }
            if old(self).cascaded() {
                if self.s_bmp != 0 && pos < 65 {
                    assert(old(self).on(1));
                    assert(old(self)@.contains(1));
                    assert(self@.contains(1));
                }
                if self.t_bmp != 0 && pos < 129 {
                    assert(old(self).on(65));
                    assert(old(self)@.contains(65));
                    assert(self@.contains(65));
                }
            }
        }
        Ok(())
    }

    /// The three words as 48 lowercase hexadecimal digits, whichever bitmaps are active.
    pub fn hex_string(&self) -> (r: String)
        ensures
            r@ == hex_text(
                word_bytes(self.p_bmp) + word_bytes(self.s_bmp) + word_bytes(self.t_bmp),
            ),
    {
        let mut all = be_write_u64(self.p_bmp);
        let mut second = be_write_u64(self.s_bmp);
        let mut third = be_write_u64(self.t_bmp);
        all.append(&mut second);
        all.append(&mut third);
        hex_encode(all.as_slice())
    }

    /// The bitmap as it goes on the wire: 8, 16 or 24 bytes.
    pub fn as_vec(&self) -> (r: Vec<u8>)
        ensures
            r@ == self.wire(),
    {
        let mut bmp_data = be_write_u64(self.p_bmp);
        if self.test(1) {
            let mut second = be_write_u64(self.s_bmp);
            bmp_data.append(&mut second);
            if self.test(65) {
                let mut third = be_write_u64(self.t_bmp);
                bmp_data.append(&mut third);
            }
        }
        bmp_data
    }

    /// Reads a bitmap: eight bytes, eight more where position 1 is on, and
    /// eight more where position 65 is on too. Where the bytes run out the
    /// reader is put back and `Truncated` is returned.
    pub fn from_reader(reader: &mut ByteReader) -> (r: Result<Bitmap, ParseError>)
        ensures
            final(reader).buffer() == old(reader).buffer(),
            match Bitmap::parse_wire(old(reader).remaining()) {
                Some((b, used)) => r == Ok::<Bitmap, ParseError>(b) && final(reader).remaining()
                    == old(reader).remaining().skip(used),
                None => final(reader).remaining() == old(reader).remaining() && r is Err
                    && r->Err_0@ == (Failure {
                    kind: ErrorKind::Truncated,
                    subject: Seq::<char>::empty(),
                    position: 0,
                }),
            },
    {
        let start = reader.position();
        let ghost rem = reader.remaining();
        let first = match reader.read_exact(8) {
            Some(v) => v,
            None => {
                return Err(ParseError { kind: ErrorKind::Truncated, msg: String::new(), position: 0 });
            },
        };
        assert(first@.take(8) =~= rem.subrange(0, 8));
        let b1 = be_read_u64(first.as_slice());
        let mut b2: u64 = 0;
        let mut b3: u64 = 0;
        if (b1 >> 63) & 0x01 == 0x01 {
            let second = match reader.read_exact(8) {
                Some(v) => v,
                None => {
                    reader.seek(start);
                    return Err(
                        ParseError { kind: ErrorKind::Truncated, msg: String::new(), position: 0 },
                    );
                },
            };
            assert(second@.take(8) =~= rem.subrange(8, 16));
            b2 = be_read_u64(second.as_slice());
            if (b2 >> 63) & 0x01 == 0x01 {
                let third = match reader.read_exact(8) {
                    Some(v) => v,
                    None => {
                        reader.seek(start);
                        return Err(
                            ParseError {
                                kind: ErrorKind::Truncated,
                                msg: String::new(),
                                position: 0,
                            },
                        );
                    },
                };
                assert(third@.take(8) =~= rem.subrange(16, 24));
                b3 = be_read_u64(third.as_slice());
                assert(reader.remaining() =~= rem.skip(24));
            } else {
                assert(reader.remaining() =~= rem.skip(16));
            }
        }
        Ok(Bitmap { p_bmp: b1, s_bmp: b2, t_bmp: b3 })
    }

    /// The bitmap that `data` starts with; bytes after it are ignored.
    pub fn from_vec(data: &Vec<u8>) -> (r: Result<Bitmap, ParseError>)
        ensures
            match Bitmap::parse_wire(data@) {
                Some((b, used)) => r == Ok::<Bitmap, ParseError>(b),
                None => r is Err && r->Err_0@ == (Failure {
                    kind: ErrorKind::Truncated,
                    subject: Seq::<char>::empty(),
                    position: 0,
                }),
            },
    {
        let mut reader = ByteReader::new(data.as_slice());
        Bitmap::from_reader(&mut reader)
    }
}

/// The wire form is 8, 16 or 24 bytes: 8 where position 1 is off, 16 where
/// position 1 is on and position 65 is off, 24 where both are on.
pub proof fn lemma_wire_length(b: Bitmap)
    ensures
        b.wire().len() == 8 || b.wire().len() == 16 || b.wire().len() == 24,
        b.wire().len() == 8 <==> !b.on(1),
        b.wire().len() == 16 <==> b.on(1) && !b.on(65),
        b.wire().len() == 24 <==> b.on(1) && b.on(65),
{
}

impl Bitmap {
    /// No indicator is on for nothing: where position 1 is on some position
    /// of 65..=128 is on, and where position 65 is on some position of
    /// 129..=192 is on.
    pub open spec fn announces_only_what_it_holds(&self) -> bool {
        &&& self.on(1) ==> self.s_bmp != 0
        &&& self.on(65) ==> self.t_bmp != 0
    }
}

/// For a bitmap that keeps the cascade invariant and whose indicators are
/// on for what it holds only: the wire form is 8 bytes exactly when no
/// position from 65 on is on, 16 bytes exactly when none from 129 on is on
/// but some of 65..=128 is, and 24 bytes otherwise.
pub proof fn lemma_wire_length_by_positions(b: Bitmap)
    requires
        b.cascaded(),
        b.announces_only_what_it_holds(),
    ensures
        b.wire().len() == 8 <==> forall|p: int| 65 <= p <= 192 ==> !#[trigger] b.on(p),
        b.wire().len() == 16 <==> (forall|p: int| 129 <= p <= 192 ==> !#[trigger] b.on(p)) && (
        exists|p: int| 65 <= p <= 128 && #[trigger] b.on(p)),
        b.wire().len() == 24 <==> exists|p: int| 129 <= p <= 192 && #[trigger] b.on(p),
{
    lemma_word_is_its_bits(b.s_bmp);
    lemma_word_is_its_bits(b.t_bmp);
    let none_high = forall|p: int| 129 <= p <= 192 ==> !#[trigger] b.on(p);
    let none_mid = forall|p: int| 65 <= p <= 128 ==> !#[trigger] b.on(p);
    assert(b.t_bmp == 0 <==> none_high) by {
        if b.t_bmp == 0 {
            assert forall|p: int| 129 <= p <= 192 implies !#[trigger] b.on(p) by {
                assert(!bit_of(b.t_bmp, p - 128));
            }
        } else {
            let k = choose|k: int| 1 <= k <= 64 && bit_of(b.t_bmp, k);
            assert(b.on(k + 128));
        }
    }
    assert(b.s_bmp == 0 <==> none_mid) by {
        if b.s_bmp == 0 {
            assert forall|p: int| 65 <= p <= 128 implies !#[trigger] b.on(p) by {
                assert(!bit_of(b.s_bmp, p - 64));
            }
        } else {
            let k = choose|k: int| 1 <= k <= 64 && bit_of(b.s_bmp, k);
            assert(b.on(k + 64));
        }
    }
    if b.t_bmp != 0 {
        assert(b.on(65));
    }
}

/// Reading back the wire form of a bitmap that keeps the cascade invariant
/// gives the bitmap, whatever follows it.
pub proof fn lemma_wire_round_trip(b: Bitmap, rest: Seq<u8>)
    requires
        b.cascaded(),
    ensures
        Bitmap::parse_wire(b.wire() + rest) == Some((b, b.wire().len() as int)),
{
    let rem = b.wire() + rest;
    lemma_word_round_trip(b.p_bmp);
    lemma_word_round_trip(b.s_bmp);
    lemma_word_round_trip(b.t_bmp);
    lemma_zero_word(63);
    assert(rem.subrange(0, 8) =~= word_bytes(b.p_bmp));
    if b.on(1) {
        assert(rem.subrange(8, 16) =~= word_bytes(b.s_bmp));
        if b.on(65) {
            assert(rem.subrange(16, 24) =~= word_bytes(b.t_bmp));
        }
    }
}

/// A bitmap from its three words.
pub fn new_bmp(b1: u64, b2: u64, b3: u64) -> (b: Bitmap)
    ensures
        b == (Bitmap { p_bmp: b1, s_bmp: b2, t_bmp: b3 }),
{
    Bitmap { p_bmp: b1, s_bmp: b2, t_bmp: b3 }
}

/// This struct represents a bitmapped field: the bitmap, then the children whose positions are on.
#[derive(Debug)]
pub struct BmpField {
    pub name: String,
    pub id: u32,
    pub encoding: Encoding,
    pub children: Vec<Field>,
}

/// The positions that announce a bitmap and carry no field.
pub open spec fn is_indicator(p: int) -> bool {
    p == 1 || p == 65 || p == 129
}

impl BmpField {
    /// The index of the first child at position `pos`, looking from `from` on.
    pub open spec fn position_index(&self, pos: u32, from: int) -> Option<int>
        decreases self.children@.len() - from,
    {
        if from < 0 || from >= self.children@.len() {
            None
        } else if self.children@[from].position_view() == pos {
            Some(from)
        } else {
            self.position_index(pos, from + 1)
        }
    }

    /// The index of the first child named `name`, looking from `from` on.
    pub open spec fn name_index(&self, name: Seq<char>, from: int) -> Option<int>
        decreases self.children@.len() - from,
    {
        if from < 0 || from >= self.children@.len() {
            None
        } else if self.children@[from].name_view() == name {
            Some(from)
        } else {
            self.name_index(name, from + 1)
        }
    }

    /// A failure of this field at `position`.
    pub open spec fn failing(&self, kind: ErrorKind, position: u32) -> Failure {
        Failure { kind, subject: self.name@, position }
    }

    /// How a lookup by position answers: the child at the index, or `UndefinedField` for `pos`.
    pub open spec fn found_at(&self, at: Option<int>, pos: u32, r: Result<&Field, ParseError>) -> bool {
        match at {
            Some(i) => 0 <= i < self.children@.len() && r == Ok::<&Field, ParseError>(
                &self.children@[i],
            ),
            None => r is Err && r->Err_0@ == self.failing(ErrorKind::UndefinedField, pos),
        }
    }

    /// How a lookup by name answers: the child at the index, or `UndefinedField` for the name.
    pub open spec fn found_named(
        &self,
        at: Option<int>,
        name: Seq<char>,
        r: Result<&Field, ParseError>,
    ) -> bool {
        match at {
            Some(i) => 0 <= i < self.children@.len() && r == Ok::<&Field, ParseError>(
                &self.children@[i],
            ),
            None => r is Err && r->Err_0@ == (Failure {
                kind: ErrorKind::UndefinedField,
                subject: name,
                position: 0,
            }),
        }
    }

    /// The first child defined at `pos`.
    pub fn by_position(&self, pos: u32) -> (r: Result<&Field, ParseError>)
        ensures
            self.found_at(self.position_index(pos, 0), pos, r),
    {
        let mut i: usize = 0;
        while i < self.children.len()
            invariant
                i <= self.children@.len(),
                self.position_index(pos, 0) == self.position_index(pos, i as int),
            decreases self.children@.len() - i,
        {
            if self.children[i].position() == pos {
                return Ok(&self.children[i]);
            }
            i = i + 1;
        }
        Err(ParseError { kind: ErrorKind::UndefinedField, msg: self.name.clone(), position: pos })
    }

    /// The first child defined at `pos`.
    pub fn child_by_pos(&self, pos: u32) -> (r: Result<&Field, ParseError>)
        ensures
            self.found_at(self.position_index(pos, 0), pos, r),
    {
        self.by_position(pos)
    }

    /// The first child named `name`.
    pub fn child_by_name(&self, name: &String) -> (r: Result<&Field, ParseError>)
        ensures
            self.found_named(self.name_index(name@, 0), name@, r),
    {
        let mut i: usize = 0;
        while i < self.children.len()
            invariant
                i <= self.children@.len(),
                self.name_index(name@, 0) == self.name_index(name@, i as int),
            decreases self.children@.len() - i,
        {
            if *self.children[i].name() == *name {
                return Ok(&self.children[i]);
            }
            i = i + 1;
        }
        Err(ParseError { kind: ErrorKind::UndefinedField, msg: name.clone(), position: 0 })
    }

    /// Parsing the children from position `p` up to 192, in ascending order:
    /// each position that is on and no indicator is handed to the child
    /// defined there; a position that is on with no child defined fails.
    pub open spec fn children_outcome(
        &self,
        bmp: Bitmap,
        p: int,
        rem: Seq<u8>,
        store: Map<Seq<char>, Seq<u8>>,
    ) -> ParseOutcome
        decreases self, (193 - p) as nat,
    {
        if p < 2 || p > 192 {
            ParseOutcome { rest: rem, store, failure: None }
        } else if is_indicator(p) || !bmp.on(p) {
            self.children_outcome(bmp, p + 1, rem, store)
        } else {
            match self.position_index(p as u32, 0) {
                None => ParseOutcome {
                    rest: rem,
                    store,
                    failure: Some(self.failing(ErrorKind::UndefinedField, p as u32)),
                },
                Some(i) => if 0 <= i < self.children@.len() {
                    let o = self.children@[i].parse_spec(rem, store);
                    if o.failure is Some {
                        o
                    } else {
                        self.children_outcome(bmp, p + 1, o.rest, o.store)
                    }
                } else {
                    ParseOutcome { rest: rem, store, failure: None }
                },
            }
        }
    }

    /// Reads the bitmap, stores its wire form under the field's own name,
    /// then parses the children that it announces.
    pub open spec fn parse_spec(
        &self,
        rem: Seq<u8>,
        store: Map<Seq<char>, Seq<u8>>,
    ) -> ParseOutcome
        decreases self, 200nat,
    {
        match Bitmap::parse_wire(rem) {
            None => ParseOutcome {
                rest: rem,
                store,
                failure: Some(self.failing(ErrorKind::Truncated, 0)),
            },
            Some((bmp, used)) => {
                let o = self.children_outcome(
                    bmp,
                    2,
                    rem.skip(used),
                    store.insert(self.name@, bmp.wire()),
                );
                if o.failure is Some {
                    ParseOutcome { rest: rem, store: o.store, failure: o.failure }
                } else {
                    o
                }
            },
        }
    }

    /// The bytes of the children from position `p` up to 192, in ascending order.
    pub open spec fn children_bytes(
        &self,
        store: Map<Seq<char>, Seq<u8>>,
        bmp: Bitmap,
        p: int,
    ) -> Result<Seq<u8>, Failure>
        decreases self, (193 - p) as nat,
    {
        if p < 2 || p > 192 {
            Ok(Seq::<u8>::empty())
        } else if is_indicator(p) || !bmp.on(p) {
            self.children_bytes(store, bmp, p + 1)
        } else {
            match self.position_index(p as u32, 0) {
                None => Err(self.failing(ErrorKind::UndefinedField, p as u32)),
                Some(i) => if 0 <= i < self.children@.len() {
                    let c = self.children@[i];
                    if !store.contains_key(c.name_view()) {
                        Err(
                            Failure {
                                kind: ErrorKind::MissingField,
                                subject: c.name_view(),
                                position: p as u32,
                            },
                        )
                    } else {
                        match c.assemble_spec(store, bmp) {
                            Err(f) => Err(f),
                            Ok(b) => match self.children_bytes(store, bmp, p + 1) {
                                Err(f) => Err(f),
                                Ok(more) => Ok(b + more),
                            },
                        }
                    }
                } else {
                    Ok(Seq::<u8>::empty())
                },
            }
        }
    }

    /// The live bitmap on the wire, then each child that it announces.
    pub open spec fn assemble_spec(&self, store: Map<Seq<char>, Seq<u8>>, bmp: Bitmap) -> Result<
        Seq<u8>,
        Failure,
    >
        decreases self, 200nat,
    {
        match self.children_bytes(store, bmp, 2) {
            Err(f) => Err(f),
            Ok(more) => Ok(bmp.wire() + more),
        }
    }

    /// Reads the bitmap and the children that it announces, in ascending
    /// order of position. On failure the reader is put back where it stood;
    /// what was stored before the failure stays stored.
    pub fn parse(&self, in_buf: &mut ByteReader, f2d_map: &mut FieldStore) -> (r: Result<
        (),
        ParseError,
    >)
        ensures
            parsed_as(
                self.parse_spec(old(in_buf).remaining(), old(f2d_map)@),
                old(in_buf),
                final(in_buf),
                final(f2d_map)@,
                r,
            ),
        decreases self, 200nat,
    {
        let start = in_buf.position();
        let ghost rem = in_buf.remaining();
        let ghost store0 = f2d_map@;
        let bmp = match Bitmap::from_reader(in_buf) {
            Ok(b) => b,
            Err(_) => {
                return Err(
                    ParseError { kind: ErrorKind::Truncated, msg: self.name.clone(), position: 0 },
                );
            },
        };
        f2d_map.insert(self.name.clone(), bmp.as_vec());
        let ghost whole = self.children_outcome(bmp, 2, in_buf.remaining(), f2d_map@);
        let mut p: u32 = 2;
        while p <= 192
            invariant
                2 <= p <= 193,
                in_buf.buffer() == old(in_buf).buffer(),
                start == old(in_buf).consumed(),
                start <= in_buf.buffer().len(),
                rem == old(in_buf).remaining(),
                store0 == old(f2d_map)@,
                self.parse_spec(rem, store0) == if whole.failure is Some {
                    ParseOutcome { rest: rem, store: whole.store, failure: whole.failure }
                } else {
                    whole
                },
                whole == self.children_outcome(bmp, p as int, in_buf.remaining(), f2d_map@),
            decreases 193 - p,
        {
            if p != 65 && p != 129 && bmp.test(p) {
                match self.by_position(p) {
                    Err(e) => {
                        in_buf.seek(start);
                        return Err(e);
                    },
                    Ok(f) => {
                        match f.parse(in_buf, f2d_map) {
                            Err(e) => {
                                in_buf.seek(start);
                                return Err(e);
                            },
                            Ok(_) => {},
                        }
                    },
                }
            }
            p = p + 1;
        }
        Ok(())
    }

    /// Appends the wire form of the message's live bitmap, then each child
    /// whose position is on, in ascending order. Returns the number of bytes
    /// appended; on failure the buffer is left as it was.
    pub fn assemble(&self, out_buf: &mut Vec<u8>, iso_msg: &IsoMsg) -> (r: Result<
        usize,
        ParseError,
    >)
        ensures
            assembled_as(
                self.assemble_spec(iso_msg.fd_map@, iso_msg.bmp),
                old(out_buf)@,
                final(out_buf)@,
                r,
            ),
        decreases self, 200nat,
    {
        let start = out_buf.len();
        let ghost store = iso_msg.fd_map@;
        let ghost bmp = iso_msg.bmp;
        let bmp_data = iso_msg.bmp.as_vec();
        out_buf.extend_from_slice(bmp_data.as_slice());
        let ghost whole = self.children_bytes(store, bmp, 2);
        let ghost mut done = Seq::<u8>::empty();
        let mut pos: u32 = 2;
        while pos <= 192
            invariant
                2 <= pos <= 193,
                store == iso_msg.fd_map@,
                bmp == iso_msg.bmp,
                start == old(out_buf)@.len(),
                out_buf@ == old(out_buf)@ + bmp.wire() + done,
                self.assemble_spec(store, bmp) == match whole {
                    Ok(more) => Ok::<Seq<u8>, Failure>(bmp.wire() + more),
                    Err(f) => Err::<Seq<u8>, Failure>(f),
                },
                whole == match self.children_bytes(store, bmp, pos as int) {
                    Ok(more) => Ok::<Seq<u8>, Failure>(done + more),
                    Err(f) => Err::<Seq<u8>, Failure>(f),
                },
            decreases 193 - pos,
        {
            if pos != 65 && pos != 129 && iso_msg.bmp.test(pos) {
                match self.by_position(pos) {
                    Ok(f) => {
                        if !iso_msg.fd_map.contains_key(f.name()) {
                            out_buf.truncate(start);
                            assert(out_buf@ =~= old(out_buf)@);
                            return Err(
                                ParseError {
                                    kind: ErrorKind::MissingField,
                                    msg: f.name().clone(),
                                    position: pos,
                                },
                            );
                        }
                        let ghost before = out_buf@;
                        match f.assemble(out_buf, iso_msg) {
                            Ok(_) => {
                                proof {
                                    let b = f.assemble_spec(store, bmp)->Ok_0;
                                    assert(out_buf@ =~= old(out_buf)@ + bmp.wire() + (done + b));
                                    match self.children_bytes(store, bmp, pos as int + 1) {
                                        Ok(more) => {
                                            assert(done + (b + more) =~= (done + b) + more);
                                        },
                                        Err(_) => {},
                                    }
                                    done = done + b;
                                }
                            },
                            Err(e) => {
                                out_buf.truncate(start);
                                assert(out_buf@ =~= old(out_buf)@);
                                return Err(e);
                            },
                        }
                    },
                    Err(e) => {
                        out_buf.truncate(start);
                        assert(out_buf@ =~= old(out_buf)@);
                        return Err(e);
                    },
                }
            }
            pos = pos + 1;
        }
        proof {
            assert(done + Seq::<u8>::empty() =~= done);
            assert(out_buf@ =~= old(out_buf)@ + (bmp.wire() + done));
        }
        Ok(out_buf.len() - start)
    }
}

} // verus!
