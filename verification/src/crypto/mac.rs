//! This module provides implementation of MAC algorithms

//https://en.wikipedia.org/wiki/ISO/IEC_9797-1#Complete_specification_of_the_MAC_calculation
use crate::crypto::des_cbc_enc;
use crate::crypto::des_encrypt_cbc;
use crate::crypto::tdes_cbc_enc;
use crate::crypto::tdes_encrypt_cbc;
use crate::iso8583::ErrorKind;
use crate::iso8583::Failure;
use crate::text::same_bytes;
use vstd::pervasive::unreached;
use vstd::prelude::*;
use vstd::slice::slice_subrange;
use vstd::slice::slice_to_vec;
use vstd::string::StringExecFns;

verus! {

/// This enum defines various supported algorithms
#[derive(Clone, Copy, Debug, PartialEq, Eq, Structural)]
pub enum MacAlgo {
    //ISO9797 - algo 1
    CbcMac,
    // ISO9797 - algo 3
    RetailMac,
}

/// This enum defines all supported padding types
#[derive(Clone, Copy, Debug, PartialEq, Eq, Structural)]
pub enum PaddingType {
    /// Adding 0 bits
    Type1,
    /// Adding a single 1 bit followed by 0 bits
    Type2,
}

/// Why a MAC could not be made or did not verify.
#[derive(Debug)]
pub struct MacError {
    /// What went wrong.
    pub kind: ErrorKind,
    /// What it went wrong with.
    pub msg: String,
}

impl View for MacError {
    type V = Failure;

    open spec fn view(&self) -> Failure {
        Failure { kind: self.kind, subject: self.msg@, position: 0 }
    }
}

/// `n` zero bytes.
pub open spec fn zeros(n: nat) -> Seq<u8> {
    Seq::new(n, |i: int| 0u8)
}

/// How many zero bytes bring a length to a positive multiple of 8.
pub open spec fn fill(len: nat) -> nat {
    if len == 0 {
        8
    } else {
        ((8 - len % 8) % 8) as nat
    }
}

/// The padded input: method 1 appends zero bytes up to a positive multiple
/// of 8; method 2 appends 0x80 and then zero bytes up to a multiple of 8.
pub open spec fn padded(padding_type: PaddingType, data: Seq<u8>) -> Seq<u8> {
    match padding_type {
        PaddingType::Type1 => data + zeros(fill(data.len())),
        PaddingType::Type2 => data.push(0x80) + zeros(fill(data.len() + 1)),
    }
}

/// The last eight bytes of `c`.
pub open spec fn last_block(c: Seq<u8>) -> Seq<u8> {
    c.skip(c.len() - 8)
}

/// The MAC of `data` under a 16-byte `key`.
///
/// Algorithm 1 is the last block of triple-DES CBC over the padded input.
/// Algorithm 3 runs single DES CBC under the first half of the key over all
/// padded blocks but the last and chains its last block into a triple-DES
/// encryption of the last block; an input of exactly eight bytes is
/// encrypted as it stands.
pub open spec fn mac_of(
    algo: MacAlgo,
    padding_type: PaddingType,
    data: Seq<u8>,
    key: Seq<u8>,
) -> Seq<u8> {
    let p = padded(padding_type, data);
    match algo {
        MacAlgo::CbcMac => last_block(tdes_cbc_enc(key, zeros(8), p)),
        MacAlgo::RetailMac => if data.len() == 8 {
            tdes_cbc_enc(key, zeros(8), data)
        } else {
            let d1 = p.take(p.len() - 8);
            let d2 = p.skip(p.len() - 8);
            let iv = if d1.len() == 0 {
                zeros(8)
            } else {
                last_block(des_cbc_enc(key.take(8), zeros(8), d1))
            };
            tdes_cbc_enc(key, iv, d2)
        },
    }
}

/// What `generate_mac` gives: the MAC, or `Unsupported` for a key that is not 16 bytes.
pub open spec fn generated_mac(
    algo: MacAlgo,
    padding_type: PaddingType,
    data: Seq<u8>,
    key: Seq<u8>,
) -> Result<Seq<u8>, Failure> {
    if key.len() != 16 {
        Err(Failure { kind: ErrorKind::Unsupported, subject: "key"@, position: 0 })
    } else {
        Ok(mac_of(algo, padding_type, data, key))
    }
}

/// What `verify_mac` gives: success where the MAC computed equals the one expected.
pub open spec fn verified_mac(
    algo: MacAlgo,
    padding_type: PaddingType,
    data: Seq<u8>,
    key: Seq<u8>,
    expected_mac: Seq<u8>,
) -> Result<(), Failure> {
    match generated_mac(algo, padding_type, data, key) {
        Err(f) => Err(f),
        Ok(m) => if m == expected_mac {
            Ok(())
        } else {
            Err(Failure { kind: ErrorKind::MacMismatch, subject: Seq::<char>::empty(), position: 0 })
        },
    }
}

/// A MAC that was generated verifies.
pub proof fn lemma_generated_mac_verifies(
    algo: MacAlgo,
    padding_type: PaddingType,
    data: Seq<u8>,
    key: Seq<u8>,
)
    ensures
        generated_mac(algo, padding_type, data, key) matches Ok(m) ==> verified_mac(
            algo,
            padding_type,
            data,
            key,
            m,
        ) is Ok,
{
}

/// Padding method 1 leaves an input alone whose length is a positive
/// multiple of 8; padding method 2 always adds at least one byte. Either
/// way the result is a positive multiple of 8 bytes that starts with the input.
pub proof fn lemma_padding(padding_type: PaddingType, data: Seq<u8>)
    ensures
        padded(padding_type, data).len() % 8 == 0,
        padded(padding_type, data).len() >= 8,
        padded(padding_type, data).take(data.len() as int) == data,
        padding_type == PaddingType::Type1 && data.len() > 0 && data.len() % 8 == 0 ==> padded(
            padding_type,
            data,
        ) == data,
        padding_type == PaddingType::Type2 ==> padded(padding_type, data).len() > data.len(),
        padded(padding_type, data).len() < data.len() + 9,
{
    let p = padded(padding_type, data);
    assert(p.take(data.len() as int) =~= data);
    if padding_type == PaddingType::Type1 && data.len() > 0 && data.len() % 8 == 0 {
        assert(p =~= data);
    }
}

/// Computes the MAC of `data` afresh and compares it, byte by byte, with
/// `expected_mac`: a key that is not 16 bytes is `Unsupported`, a MAC that
/// differs is `MacMismatch`.
pub fn verify_mac(
    algo: &MacAlgo,
    padding_type: &PaddingType,
    data: &[u8],
    key: &Vec<u8>,
    expected_mac: &Vec<u8>,
) -> (r: Result<(), MacError>)
    ensures
        match verified_mac(*algo, *padding_type, data@, key@, expected_mac@) {
            Ok(_) => r is Ok,
            Err(f) => r is Err && r->Err_0@ == f,
        },
{
    let mac = generate_mac(algo, padding_type, &slice_to_vec(data), key)?;
    if same_bytes(mac.as_slice(), expected_mac.as_slice()) {
        Ok(())
    } else {
        Err(MacError { kind: ErrorKind::MacMismatch, msg: String::new() })
    }
}

fn zero_block() -> (iv: Vec<u8>)
    ensures
        iv@ == zeros(8),
{
    let mut iv: Vec<u8> = Vec::new();
    let mut i: usize = 0;
    while i < 8
        invariant
            i <= 8,
            iv@ == zeros(i as nat),
        decreases 8 - i,
    {
        iv.push(0x00);
        assert(iv@ =~= zeros((i + 1) as nat));
        i = i + 1;
    }
    iv
}

/// Cuts the last block off: what comes before the last eight bytes, and
/// the last eight bytes. `None` where there are fewer than eight.
pub fn split_last_block(c: &Vec<u8>) -> (r: Option<(Vec<u8>, Vec<u8>)>)
    ensures
        r is Some <==> c@.len() >= 8,
        r matches Some(parts) ==> parts.0@ == c@.take(c@.len() - 8) && parts.1@ == last_block(c@),
{
    let n = c.len();
    if n < 8 {
        return None;
    }
    let front = slice_to_vec(slice_subrange(c.as_slice(), 0, n - 8));
    let back = slice_to_vec(slice_subrange(c.as_slice(), n - 8, n));
    assert(front@ =~= c@.take(n - 8));
    assert(back@ =~= last_block(c@));
    Some((front, back))
}

fn tail(c: &Vec<u8>) -> (r: Vec<u8>)
    requires
        c@.len() >= 8,
    ensures
        r@ == last_block(c@),
{
    match split_last_block(c) {
        Some(parts) => parts.1,
        None => unreached(),
    }
}

/// The eight-byte MAC of `data` under a 16-byte `key`, by the algorithm
/// and the padding method asked for. A key of another length is `Unsupported`.
pub fn generate_mac(algo: &MacAlgo, padding_type: &PaddingType, data: &Vec<u8>, key: &Vec<u8>) -> (r:
    Result<Vec<u8>, MacError>)
    ensures
        match generated_mac(*algo, *padding_type, data@, key@) {
            Ok(m) => r is Ok && r->Ok_0@ == m,
            Err(f) => r is Err && r->Err_0@ == f,
        },
        r matches Ok(m) ==> m@.len() == 8,
{
    if key.len() != 16 {
        return Err(MacError { kind: ErrorKind::Unsupported, msg: String::from_str("key") });
    }
    let new_data = apply_padding(padding_type, data);
    proof {
        lemma_padding(*padding_type, data@);
    }
    let iv = zero_block();
    match algo {
        MacAlgo::CbcMac => {
            let res = tdes_encrypt_cbc(&new_data, key, &iv);
            Ok(tail(&res))
        },
        MacAlgo::RetailMac => {
            let k = slice_to_vec(slice_subrange(key.as_slice(), 0, 8));
            assert(k@ =~= key@.take(8));
            //if there is a single block
            if data.len() == 8 {
                Ok(tdes_encrypt_cbc(data, key, &iv))
            } else {
                //else, all but the last block DES and the last block TDES
                let (d1, d2) = match split_last_block(&new_data) {
                    Some(parts) => parts,
                    None => unreached(),
                };
                if d1.len() == 0 {
                    Ok(tdes_encrypt_cbc(&d2, key, &iv))
                } else {
                    let res1 = des_encrypt_cbc(&d1, &k, &iv);
                    Ok(tdes_encrypt_cbc(&d2, key, &tail(&res1)))
                }
            }
        },
    }
}

/// Pads `data` by the given method to a positive multiple of 8 bytes.
pub fn apply_padding(padding_type: &PaddingType, data: &Vec<u8>) -> (r: Vec<u8>)
    ensures
        r@ == padded(*padding_type, data@),
{
    let mut new_data = data.clone();
    match padding_type {
        PaddingType::Type1 => {},
        PaddingType::Type2 => {
            new_data.push(0x80);
        },
    };
    let ghost base = new_data@;
    assert(base =~= match padding_type {
        PaddingType::Type1 => data@,
        PaddingType::Type2 => data@.push(0x80),
    });
    let ghost mut k: nat = 0;
    assert(new_data@ =~= base + zeros(0));
    while new_data.len() == 0 || new_data.len() % 8 != 0
        invariant
            k <= fill(base.len()),
            new_data@ == base + zeros(k),
        decreases fill(base.len()) - k,
    {
        new_data.push(0x00);
        proof {
            assert(new_data@ =~= base + zeros(k + 1));
            k = k + 1;
        }
    }
    new_data
}

} // verus!
