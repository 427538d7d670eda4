//! The cipher of the answers: AES-256 in CBC mode with PKCS#7 padding, as the
//! crates `aes` and `block_modes` compute it.

use block_modes::BlockMode;
use vstd::prelude::*;
use vstd::slice::*;

verus! {

/// The length of an AES-256 key in bytes.
pub const KEY_SIZE: usize = 32;

/// The length of an AES block, and so of the initialization vector, in bytes.
pub const BLOCK_SIZE: usize = 16;

/// Whether a key and an initialization vector have the sizes of the cipher.
pub open spec fn sizes_fit(key: Seq<u8>, iv: Seq<u8>) -> bool {
    key.len() == KEY_SIZE && iv.len() == BLOCK_SIZE
}

/// The bytes that come out when a ciphertext of whole blocks is decrypted
/// with AES-256 in CBC mode under a key and an initialization vector, before
/// any padding is taken off.
pub uninterp spec fn cbc_blocks(key: Seq<u8>, iv: Seq<u8>, ciphertext: Seq<u8>) -> Seq<u8>;

/// Whether a byte string ends in PKCS#7 padding: its last byte is a count
/// from one up to the length of the string, and that many bytes at the end
/// all hold the count.
pub open spec fn is_pkcs7_padded(data: Seq<u8>) -> bool {
    &&& data.len() > 0
    &&& 1 <= data.last() <= data.len()
    &&& forall|i: int| data.len() - data.last() <= i < data.len() ==> data[i] == data.last()
}

/// A padded byte string without its padding.
pub open spec fn pkcs7_unpadded(data: Seq<u8>) -> Seq<u8> {
    data.take(data.len() - data.last())
}

/// A message with the padding that fills it up to whole blocks of `block`
/// bytes: between one and `block` bytes, each holding their number.
pub open spec fn pkcs7_padded(message: Seq<u8>, block: int) -> Seq<u8> {
    message + Seq::new(
        (block - message.len() as int % block) as nat,
        |i: int| (block - message.len() as int % block) as u8,
    )
}

/// What a ciphertext decrypts to: nothing where it has no whole number of
/// blocks or its blocks do not end in padding, else the blocks without the
/// padding.
pub open spec fn cbc_plaintext(key: Seq<u8>, iv: Seq<u8>, ciphertext: Seq<u8>) -> Option<Seq<u8>> {
    if ciphertext.len() % (BLOCK_SIZE as nat) == 0 && is_pkcs7_padded(
        cbc_blocks(key, iv, ciphertext),
    ) {
        Some(pkcs7_unpadded(cbc_blocks(key, iv, ciphertext)))
    } else {
        None
    }
}

/// Bytes that may be missing, seen as a sequence.
pub open spec fn bytes_view(bytes: Option<Vec<u8>>) -> Option<Seq<u8>> {
    match bytes {
        Some(b) => Some(b@),
        None => None,
    }
}

/// Calls `Cbc::<Aes256, Pkcs7>::new_from_slices` of the crate `block_modes` and
/// reports whether it gave a cipher.
///
/// Trusted: a cipher is made exactly when the initialization vector has
/// sixteen bytes and the key thirty-two.
#[verifier::external_body]
fn cipher_accepts(key: &[u8], iv: &[u8]) -> (accepted: bool)
    ensures
        accepted == sizes_fit(key@, iv@),
{
    block_modes::Cbc::<aes::Aes256, block_modes::block_padding::Pkcs7>::new_from_slices(key, iv)
        .is_ok()
}

/// Makes the cipher with `Cbc::<Aes256, Pkcs7>::new_from_slices` and calls its
/// `decrypt_vec` on the ciphertext.
///
/// Trusted: the call fails where the ciphertext has no whole number of
/// sixteen-byte blocks; otherwise it decrypts the blocks, which depends on
/// key, initialization vector and ciphertext alone, fails where the outcome
/// does not end in PKCS#7 padding, and else returns the outcome without it.
#[verifier::external_body]
fn cbc_decrypt(key: &[u8], iv: &[u8], ciphertext: &[u8]) -> (plaintext: Option<Vec<u8>>)
    requires
        sizes_fit(key@, iv@),
    ensures
        plaintext.is_some() == (ciphertext@.len() % (BLOCK_SIZE as nat) == 0
            && is_pkcs7_padded(cbc_blocks(key@, iv@, ciphertext@))),
        plaintext is Some
            ==> plaintext.unwrap()@ == pkcs7_unpadded(cbc_blocks(key@, iv@, ciphertext@)),
{
    match block_modes::Cbc::<aes::Aes256, block_modes::block_padding::Pkcs7>::new_from_slices(
        key,
        iv,
    ) {
        Ok(cipher) => cipher.decrypt_vec(ciphertext).ok(),
        Err(_) => None,
    }
}

/// The key and the initialization vector of the cipher, checked once for
/// their sizes.
pub struct CipherContext {
    key: Vec<u8>,
    iv: Vec<u8>,
}

impl CipherContext {
    #[verifier::type_invariant]
    spec fn well_formed(self) -> bool {
        sizes_fit(self.key@, self.iv@)
    }

    /// The key.
    pub closed spec fn key(&self) -> Seq<u8> {
        self.key@
    }

    /// The initialization vector.
    pub closed spec fn iv(&self) -> Seq<u8> {
        self.iv@
    }

    /// Takes a key and an initialization vector into a context, where the
    /// cipher accepts their sizes.
    pub fn new(key: &[u8], iv: &[u8]) -> (context: Option<CipherContext>)
        ensures
            context is Some <==> sizes_fit(key@, iv@),
            context matches Some(c) ==> c.key() == key@ && c.iv() == iv@,
    {
        if cipher_accepts(key, iv) {
            Some(CipherContext { key: slice_to_vec(key), iv: slice_to_vec(iv) })
        } else {
            None
        }
    }

    /// Decrypts a ciphertext and takes off its padding.
    pub fn decrypt(&self, ciphertext: &[u8]) -> (plaintext: Option<Vec<u8>>)
        ensures
            bytes_view(plaintext) == cbc_plaintext(self.key(), self.iv(), ciphertext@),
    {
        proof {
            use_type_invariant(self);
        }
        cbc_decrypt(self.key.as_slice(), self.iv.as_slice(), ciphertext)
    }
}

/// Padding can be taken off again: a padded message ends in padding, and
/// without it is the message.
pub proof fn lemma_pkcs7_round_trip(message: Seq<u8>, block: int)
    requires
        1 <= block <= 255,
    ensures
        pkcs7_padded(message, block).len() as int % block == 0,
        is_pkcs7_padded(pkcs7_padded(message, block)),
        pkcs7_unpadded(pkcs7_padded(message, block)) == message,
{
    let count = block - message.len() as int % block;
    let padded = pkcs7_padded(message, block);
    assert(1 <= count <= block);
    assert(padded.len() == message.len() + count);
    assert(padded.last() == count as u8);
    assert(padded.take(padded.len() - count) =~= message);
    assert((message.len() + count) % block == 0) by (nonlinear_arith)
        requires
            count == block - message.len() as int % block,
            block >= 1,
    ;
}

/// A ciphertext whose blocks decrypt to a padded message decrypts to the
/// message.
pub proof fn lemma_padded_blocks_decrypt(
    key: Seq<u8>,
    iv: Seq<u8>,
    ciphertext: Seq<u8>,
    message: Seq<u8>,
)
    requires
        ciphertext.len() % (BLOCK_SIZE as nat) == 0,
        cbc_blocks(key, iv, ciphertext) == pkcs7_padded(message, BLOCK_SIZE as int),
    ensures
        cbc_plaintext(key, iv, ciphertext) == Some(message),
{
    lemma_pkcs7_round_trip(message, BLOCK_SIZE as int);
}

/// A ciphertext whose blocks do not decrypt to something that ends in padding
/// does not decrypt.
pub proof fn lemma_malformed_padding_is_refused(key: Seq<u8>, iv: Seq<u8>, ciphertext: Seq<u8>)
    requires
        !is_pkcs7_padded(cbc_blocks(key, iv, ciphertext)),
    ensures
        cbc_plaintext(key, iv, ciphertext) is None,
{
}

} // verus!
