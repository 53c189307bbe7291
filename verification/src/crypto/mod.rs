//! Payment-crypto helpers: PIN blocks and message authentication codes,
//! over the DES and two-key triple-DES primitives of the `des` and
//! `block-modes` crates.

pub mod mac;
pub mod pin;

use block_modes::BlockMode;
use des::block_cipher::BlockCipher;
use des::block_cipher::NewBlockCipher;
use generic_array::GenericArray;
use vstd::prelude::*;

verus! {

/// The block that `des::TdesEde2::encrypt_block` makes of `block` under `key`.
pub uninterp spec fn tdes_ede2_enc(key: Seq<u8>, block: Seq<u8>) -> Seq<u8>;

/// The block that `des::TdesEde2::decrypt_block` makes of `block` under `key`.
pub uninterp spec fn tdes_ede2_dec(key: Seq<u8>, block: Seq<u8>) -> Seq<u8>;

/// The ciphertext of two-key triple-DES in CBC mode without padding, as
/// `block_modes::Cbc::encrypt_vec` gives it.
pub uninterp spec fn tdes_cbc_enc(key: Seq<u8>, iv: Seq<u8>, data: Seq<u8>) -> Seq<u8>;

/// The ciphertext of single DES in CBC mode without padding, as
/// `block_modes::Cbc::encrypt_vec` gives it.
pub uninterp spec fn des_cbc_enc(key: Seq<u8>, iv: Seq<u8>, data: Seq<u8>) -> Seq<u8>;

/// Calls `des::TdesEde2::new` and `encrypt_block` on a copy of `data`.
/// Trusted: the result is one block, a function of key and data, and
/// decrypting it under the same key gives the data back.
#[verifier::external_body]
#[allow(deprecated)]
pub(crate) fn tdes_ede2_encrypt(data: &Vec<u8>, key: &Vec<u8>) -> (r: Vec<u8>)
    requires
        data@.len() == 8,
        key@.len() == 16,
    ensures
        r@.len() == 8,
        r@ == tdes_ede2_enc(key@, data@),
        tdes_ede2_dec(key@, r@) == data@,
{
    let block_cipher = des::TdesEde2::new(GenericArray::from_slice(key.as_slice()));
    let mut cp_data = data.clone();
    block_cipher.encrypt_block(GenericArray::from_mut_slice(&mut cp_data));
    cp_data
}

/// Calls `des::TdesEde2::new` and `decrypt_block` on a copy of `data`.
/// Trusted: the result is one block, a function of key and data.
#[verifier::external_body]
#[allow(deprecated)]
pub(crate) fn tdes_ede2_decrypt(data: &Vec<u8>, key: &Vec<u8>) -> (r: Vec<u8>)
    requires
        data@.len() == 8,
        key@.len() == 16,
    ensures
        r@.len() == 8,
        r@ == tdes_ede2_dec(key@, data@),
{
    let block_cipher = des::TdesEde2::new(GenericArray::from_slice(key.as_slice()));
    let mut cp_data = data.clone();
    block_cipher.decrypt_block(GenericArray::from_mut_slice(&mut cp_data));
    cp_data
}

/// Calls `block_modes::Cbc::<des::TdesEde2, NoPadding>::new_var` and
/// `encrypt_vec`. Trusted: the ciphertext is as long as the data and a
/// function of key, initialisation vector and data.
#[verifier::external_body]
pub(crate) fn tdes_encrypt_cbc(data: &Vec<u8>, key: &Vec<u8>, iv: &Vec<u8>) -> (r: Vec<u8>)
    requires
        data@.len() % 8 == 0,
        key@.len() == 16,
        iv@.len() == 8,
    ensures
        r@.len() == data@.len(),
        r@ == tdes_cbc_enc(key@, iv@, data@),
{
    let block_cipher = block_modes::Cbc::<
        des::TdesEde2,
        block_modes::block_padding::NoPadding,
    >::new_var(key.as_slice(), iv.as_slice()).unwrap();
    block_cipher.encrypt_vec(data.as_slice())
}

/// Calls `block_modes::Cbc::<des::Des, NoPadding>::new_var` and
/// `encrypt_vec`. Trusted: the ciphertext is as long as the data and a
/// function of key, initialisation vector and data.
#[verifier::external_body]
pub(crate) fn des_encrypt_cbc(data: &Vec<u8>, key: &Vec<u8>, iv: &Vec<u8>) -> (r: Vec<u8>)
    requires
        data@.len() % 8 == 0,
        key@.len() == 8,
        iv@.len() == 8,
    ensures
        r@.len() == data@.len(),
        r@ == des_cbc_enc(key@, iv@, data@),
{
    let block_cipher = block_modes::Cbc::<
        des::Des,
        block_modes::block_padding::NoPadding,
    >::new_var(key.as_slice(), iv.as_slice()).unwrap();
    block_cipher.encrypt_vec(data.as_slice())
}

} // verus!
