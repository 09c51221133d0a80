//! Decryption of contact-info fields with AES-256.
//!
//! The block cipher and the chaining mode come from the `aes_gcm` and `cbc` crates. What the block
//! cipher makes of one block is named here and not spelled out; the chaining and the padding are
//! stated over that name.

use aes_gcm::aead::generic_array::GenericArray;
use aes_gcm::aes::cipher::{BlockDecrypt, KeyInit};
use aes_gcm::aes::Aes256;
use cbc::cipher::block_padding::{Pkcs7, UnpadError};
use cbc::cipher::{BlockDecryptMut, KeyIvInit};
use vstd::prelude::*;

verus! {

/// The error of a decryption whose length or padding does not fit.
#[verifier::external_type_specification]
#[verifier::external_body]
pub struct ExUnpadError(UnpadError);

/// What AES-256 makes of a 16-byte block when it decrypts it with a 32-byte key.
pub uninterp spec fn aes256_decrypted_block(key: Seq<u8>, block: Seq<u8>) -> Seq<u8>;

/// What CBC mode makes of whole blocks: each block is decrypted by itself, and the block before it
/// is added bit by bit. Before the first block stands the initialisation vector.
pub open spec fn cbc_decrypted(key: Seq<u8>, iv: Seq<u8>, ciphertext: Seq<u8>) -> Seq<u8> {
    Seq::new(
        ciphertext.len(),
        |i: int|
            {
                let block = ciphertext.subrange(i - i % 16, i - i % 16 + 16);
                let before = if i < 16 {
                    iv[i]
                } else {
                    ciphertext[i - 16]
                };
                aes256_decrypted_block(key, block)[i % 16] ^ before
            },
    )
}

/// Data without their PKCS#7 padding: the last byte says how many bytes are padding, between 1 and
/// 16, and they all have that value. Other data are not padded.
pub open spec fn pkcs7_unpadded(data: Seq<u8>) -> Option<Seq<u8>> {
    let n = data.last();
    if 1 <= n <= 16 && (forall|i: int| data.len() - n <= i < data.len() ==> data[i] == n) {
        Some(data.take(data.len() - n))
    } else {
        None
    }
}

/// What AES-256 in CBC mode with PKCS#7 padding makes of a ciphertext, or nothing where the
/// length or the padding does not fit.
pub open spec fn aes256_cbc_plaintext(
    key: Seq<u8>,
    iv: Seq<u8>,
    ciphertext: Seq<u8>,
) -> Option<Seq<u8>> {
    if ciphertext.len() == 0 || ciphertext.len() % 16 != 0 {
        None
    } else {
        pkcs7_unpadded(cbc_decrypted(key, iv, ciphertext))
    }
}

/// PKCS#7 padding of `n` bytes: `n` times the byte `n`.
pub open spec fn pkcs7_padding(n: u8) -> Seq<u8> {
    Seq::new(n as nat, |i: int| n)
}

/// Padding of 1 to 16 bytes is taken off again.
pub proof fn law_unpadding_undoes_padding(plain: Seq<u8>, n: u8)
    requires
        1 <= n <= 16,
    ensures
        pkcs7_unpadded(plain + pkcs7_padding(n)) == Some(plain),
{
    let padded = plain + pkcs7_padding(n);
    assert(padded.last() == n);
    assert(padded.take(plain.len() as int) =~= plain);
}

/// Nothing but padding of 1 to 16 bytes is taken off.
pub proof fn law_only_padding_is_taken_off(data: Seq<u8>)
    requires
        data.len() >= 16,
    ensures
        pkcs7_unpadded(data) is Some <==> exists|n: u8|
            1 <= n <= 16 && data == data.take(data.len() - n) + #[trigger] pkcs7_padding(n),
{
    let last = data.last();
    if let Some(p) = pkcs7_unpadded(data) {
        assert(data =~= data.take(data.len() - last) + pkcs7_padding(last));
    }
    if exists|n: u8|
        1 <= n <= 16 && data == data.take(data.len() - n) + #[trigger] pkcs7_padding(n) {
        let n = choose|n: u8|
            1 <= n <= 16 && data == data.take(data.len() - n) + #[trigger] pkcs7_padding(n);
        law_unpadding_undoes_padding(data.take(data.len() - n), n);
    }
}

/// A ciphertext is read as a plaintext exactly where it is one block or more, and each of its
/// blocks, decrypted by itself and combined with the block before it, gives the block of the padded
/// plaintext at its place. Before the first block stands the initialisation vector.
pub proof fn law_cbc_reads_what_was_chained(
    key: Seq<u8>,
    iv: Seq<u8>,
    ciphertext: Seq<u8>,
    plain: Seq<u8>,
    n: u8,
)
    requires
        iv.len() == 16,
        1 <= n <= 16,
        ciphertext.len() == plain.len() + n,
    ensures
        aes256_cbc_plaintext(key, iv, ciphertext) == Some(plain) <==> {
            &&& ciphertext.len() % 16 == 0
            &&& forall|i: int|
                0 <= i < ciphertext.len() ==> (#[trigger] (plain + pkcs7_padding(n))[i]) == (iv
                    + ciphertext)[i] ^ aes256_decrypted_block(
                    key,
                    ciphertext.subrange(i / 16 * 16, i / 16 * 16 + 16),
                )[i - i / 16 * 16]
        },
        aes256_cbc_plaintext(key, iv, seq![]) is None,
        ciphertext.len() % 16 != 0 ==> aes256_cbc_plaintext(key, iv, ciphertext) is None,
{
    let padded = plain + pkcs7_padding(n);
    let chained = cbc_decrypted(key, iv, ciphertext);
    law_unpadding_undoes_padding(plain, n);
    assert forall|i: int| 0 <= i < ciphertext.len() implies #[trigger] chained[i] == (iv
        + ciphertext)[i] ^ aes256_decrypted_block(
        key,
        ciphertext.subrange(i / 16 * 16, i / 16 * 16 + 16),
    )[i - i / 16 * 16] by {
        assert(i - i % 16 == i / 16 * 16);
        let x = aes256_decrypted_block(key, ciphertext.subrange(i - i % 16, i - i % 16 + 16))[i
            % 16];
        let y = (iv + ciphertext)[i];
        assert(x ^ y == y ^ x) by (bit_vector);
    }
    if ciphertext.len() % 16 == 0 {
        if aes256_cbc_plaintext(key, iv, ciphertext) == Some(plain) {
            assert(chained.last() == n);
            assert(chained =~= padded);
        }
        if forall|i: int| 0 <= i < ciphertext.len() ==> #[trigger] padded[i] == chained[i] {
            assert(chained =~= padded);
        }
    }
}

/// Calls `decrypt_block` of `aes_gcm::aes::Aes256`, which turns one block into one block and
/// depends on the key and the block alone. Nothing is claimed of which block comes out.
#[allow(deprecated)]
#[verifier::external_body]
fn aes256_decrypt_block(key: &[u8; 32], block: &[u8; 16]) -> (r: [u8; 16])
    ensures
        r@ == aes256_decrypted_block(key@, block@),
{
    let cipher = Aes256::new(GenericArray::from_slice(key));
    let mut out = GenericArray::clone_from_slice(block);
    cipher.decrypt_block(&mut out);
    out.into()
}

/// Calls `decrypt_padded_mut` of `cbc::Decryptor` over AES-256, with PKCS#7 padding. It refuses
/// what is not a positive whole number of 16-byte blocks and what is not padded, and otherwise
/// gives the chained blocks without their padding. The blocks are decrypted as by
/// `decrypt_block` of `aes_gcm::aes::Aes256`.
#[verifier::external_body]
fn aes256_cbc_decrypt(key: &[u8; 32], iv: &[u8; 16], ciphertext: &[u8]) -> (r: Result<
    Vec<u8>,
    UnpadError,
>)
    ensures
        match r {
            Ok(plain) => aes256_cbc_plaintext(key@, iv@, ciphertext@) == Some(plain@),
            Err(_) => aes256_cbc_plaintext(key@, iv@, ciphertext@) is None,
        },
{
    let cipher = cbc::Decryptor::<Aes256>::new(key.into(), iv.into());
    let mut buffer = ciphertext.to_vec();
    cipher.decrypt_padded_mut::<Pkcs7>(&mut buffer).map(|plain| plain.to_vec())
}

/// Copies 16 bytes out of a longer run.
fn block_at(bytes: &[u8], from: usize) -> (r: [u8; 16])
    requires
        from + 16 <= bytes@.len(),
    ensures
        r@ == bytes@.subrange(from as int, from + 16),
{
    let mut out: [u8; 16] = [0u8; 16];
    let mut i: usize = 0;
    while i < 16
        invariant
            i <= 16,
            from + 16 <= bytes@.len(),
            bytes@.len() == bytes.len(),
            forall|j: int| 0 <= j < i ==> out@[j] == bytes@[from + j],
        decreases 16 - i,
    {
        out[i] = bytes[from + i];
        i = i + 1;
    }
    assert(out@ =~= bytes@.subrange(from as int, from + 16));
    out
}

/// Puts two blocks one behind the other.
pub fn join_blocks(first: &[u8; 16], second: &[u8; 16]) -> (r: [u8; 32])
    ensures
        r@ == first@ + second@,
{
    let mut out: [u8; 32] = [0u8; 32];
    let mut i: usize = 0;
    while i < 16
        invariant
            i <= 16,
            forall|j: int| 0 <= j < i ==> out@[j] == first@[j] && out@[16 + j] == second@[j],
        decreases 16 - i,
    {
        out[i] = first[i];
        out[16 + i] = second[i];
        i = i + 1;
    }
    assert(out@ =~= first@ + second@);
    out
}

/// Decrypts the `encToUserId` field of a contact-info document with AES-256 in ECB mode.
///
/// The field is two independent blocks: the identifier comes out of a hash, so it shows no
/// pattern, and every contact has a key of its own. A field of another length is refused.
pub fn decrypt_to_user_id(encrypted: &[u8], key: &[u8; 32]) -> (r: Result<[u8; 32], String>)
    ensures
        r is Ok <==> encrypted@.len() == 32,
        r matches Ok(id) ==> id@ == aes256_decrypted_block(key@, encrypted@.subrange(0, 16))
            + aes256_decrypted_block(key@, encrypted@.subrange(16, 32)),
        r matches Err(message) ==> message@ == "Invalid encrypted user ID length"@,
{
    if encrypted.len() != 32 {
        return Err("Invalid encrypted user ID length".to_owned());
    }
    let first = aes256_decrypt_block(key, &block_at(encrypted, 0));
    let second = aes256_decrypt_block(key, &block_at(encrypted, 16));
    Ok(join_blocks(&first, &second))
}

/// The result of `decrypt_private_data` for data that carry an initialisation vector, given
/// what their decryption came to.
pub fn private_data_outcome(decrypted: Option<Vec<u8>>) -> (r: Result<Vec<u8>, String>)
    ensures
        match decrypted {
            Some(plain) => r == Ok::<Vec<u8>, String>(plain),
            None => r is Err && r->Err_0@ == "Decryption failed: UnpadError"@,
        },
{
    match decrypted {
        Some(plain) => Ok(plain),
        None => Err("Decryption failed: UnpadError".to_owned()),
    }
}

/// Decrypts the `privateData` field of a contact-info document with AES-256 in CBC mode.
///
/// The first 16 bytes are the initialisation vector, the rest is the ciphertext.
pub fn decrypt_private_data(encrypted_data: &[u8], key: &[u8; 32]) -> (r: Result<Vec<u8>, String>)
    ensures
        encrypted_data@.len() < 16 ==> r is Err && r->Err_0@
            == "Encrypted data too short (no IV)"@,
        encrypted_data@.len() >= 16 ==> match aes256_cbc_plaintext(
            key@,
            encrypted_data@.take(16),
            encrypted_data@.skip(16),
        ) {
            Some(plain) => r is Ok && r->Ok_0@ == plain,
            None => r is Err && r->Err_0@ == "Decryption failed: UnpadError"@,
        },
        r matches Ok(plain) ==> encrypted_data@.len() % 16 == 0 && plain@.len() + 16
            < encrypted_data@.len() && encrypted_data@.len() <= plain@.len() + 32,
{
    if encrypted_data.len() < 16 {
        return Err("Encrypted data too short (no IV)".to_owned());
    }
    let iv = block_at(encrypted_data, 0);
    let ciphertext = &encrypted_data[16..encrypted_data.len()];
    proof {
        assert(iv@ =~= encrypted_data@.take(16));
        assert(ciphertext@ =~= encrypted_data@.skip(16));
    }
    match aes256_cbc_decrypt(key, &iv, ciphertext) {
        Ok(plain) => private_data_outcome(Some(plain)),
        Err(_) => private_data_outcome(None),
    }
}

} // verus!
