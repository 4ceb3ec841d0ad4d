use vstd::prelude::*;

use block_modes::BlockMode;

pub mod memory;

pub use memory::MemoryStore;

verus! {

/// Length of a buffer after zero-padding it to a whole number of cipher blocks.
pub open spec fn padded_len(n: nat) -> nat {
    if n % 16 == 0 {
        n
    } else {
        (n + 16 - n % 16) as nat
    }
}

/// Zero-padding always lands on a whole number of blocks and never shrinks.
pub proof fn lemma_padded_len_aligned(n: nat)
    ensures
        padded_len(n) % 16 == 0,
        padded_len(n) >= n,
        n > 0 ==> padded_len(n) > 0,
{
}

/// The sequence with every trailing zero byte removed.
pub open spec fn strip_trailing_zeros(s: Seq<u8>) -> Seq<u8>
    decreases s.len(),
{
    if s.len() == 0 {
        s
    } else if s.last() == 0 {
        strip_trailing_zeros(s.drop_last())
    } else {
        s
    }
}

/// What decrypting an encryption of `p` hands back: `p` without its trailing
/// zero bytes, except that unpadding never returns an empty buffer, so a
/// value of only zero bytes comes back as a single zero byte.
///
/// Zero padding is ambiguous by design: padding bytes cannot be told apart
/// from zero bytes that end the true plaintext. This is a known limitation
/// of the scheme, not something the store papers over.
pub open spec fn zero_unpadded(p: Seq<u8>) -> Seq<u8> {
    if strip_trailing_zeros(p).len() == 0 {
        seq![0u8]
    } else {
        strip_trailing_zeros(p)
    }
}

/// A value that ends in a nonzero byte is untouched by zero-unpadding, so —
/// together with the contract of `Encryption::encrypt_vec` — decrypting an
/// encryption of such a value gives it back exactly.
pub proof fn lemma_zero_unpadded_exact(p: Seq<u8>)
    requires
        p.len() > 0,
        p.last() != 0,
    ensures
        zero_unpadded(p) == p,
{
}

/// A value of only zero bytes is stripped down to a single zero byte.
pub proof fn lemma_zero_unpadded_all_zero(p: Seq<u8>)
    requires
        forall|i: int| 0 <= i < p.len() ==> p[i] == 0,
    ensures
        zero_unpadded(p) == seq![0u8],
    decreases p.len(),
{
    if p.len() > 0 {
        lemma_zero_unpadded_all_zero(p.drop_last());
    }
}

/// The ciphertext that Serpent in CBC mode with zero padding produces from a
/// key, an initialization vector and a plaintext. The bytes themselves are
/// the cipher's business; contracts only name them.
pub uninterp spec fn serpent_cbc_encrypt(key: Seq<u8>, iv: Seq<u8>, plain: Seq<u8>) -> Seq<u8>;

/// The plaintext that Serpent in CBC mode with zero unpadding recovers from a
/// key, an initialization vector and a ciphertext.
pub uninterp spec fn serpent_cbc_decrypt(key: Seq<u8>, iv: Seq<u8>, cipher: Seq<u8>) -> Seq<u8>;

/// The Serpent key schedule accepts any key of 16 to 32 bytes.
pub open spec fn serpent_key_ok(key: Seq<u8>) -> bool {
    16 <= key.len() <= 32
}

/// Why an encryption or decryption was refused.
#[derive(Debug, Clone, Copy, PartialEq, Eq)]
pub enum CryptoError {
    /// The key is not 16 to 32 bytes long, or the IV is not one block long.
    InvalidKeyIvLength,
    /// The ciphertext is not a whole number of blocks.
    BlockMode,
}

/// The stored record for one key: value bytes and metadata.
///
/// `data` holds ciphertext when the store encrypts, plaintext otherwise;
/// `iv` is present exactly when the store encrypts. Timestamps are Unix
/// milliseconds. `mime_type` is a sniffed label, metadata only.
#[derive(Debug, Clone)]
pub struct KvElement {
    pub data: Vec<u8>,
    pub mime_type: String,
    pub created_at: i64,
    pub updated_at: i64,
    pub expire_at: i64,
    pub update_count: i32,
    pub locked: bool,
    pub iv: Option<Vec<u8>>,
}

/// The mathematical value of a stored record.
pub ghost struct ElementView {
    pub data: Seq<u8>,
    pub mime_type: Seq<char>,
    pub created_at: i64,
    pub updated_at: i64,
    pub expire_at: i64,
    pub update_count: i32,
    pub locked: bool,
    pub iv: Option<Seq<u8>>,
}

impl View for KvElement {
    type V = ElementView;

    open spec fn view(&self) -> ElementView {
        ElementView {
            data: self.data@,
            mime_type: self.mime_type@,
            created_at: self.created_at,
            updated_at: self.updated_at,
            expire_at: self.expire_at,
            update_count: self.update_count,
            locked: self.locked,
            iv: match self.iv {
                Some(v) => Some(v@),
                None => None,
            },
        }
    }
}

impl KvElement {
    /// A deep copy that reads back as the same record.
    pub fn duplicate(&self) -> (r: KvElement)
        ensures
            r@ == self@,
    {
        let iv = match &self.iv {
            Some(v) => Some(vstd::slice::slice_to_vec(v.as_slice())),
            None => None,
        };
        KvElement {
            data: vstd::slice::slice_to_vec(self.data.as_slice()),
            mime_type: self.mime_type.clone(),
            created_at: self.created_at,
            updated_at: self.updated_at,
            expire_at: self.expire_at,
            update_count: self.update_count,
            locked: self.locked,
            iv,
        }
    }
}

/// The symmetric cipher the store writes through: Serpent in CBC mode with
/// zero padding, keyed once at construction.
#[derive(Debug)]
pub enum Encryption {
    Serpent { key: Vec<u8> },
}

impl Encryption {
    /// The key material this cipher was built with.
    pub open spec fn spec_key(&self) -> Seq<u8> {
        match self {
            Encryption::Serpent { key } => key@,
        }
    }

    /// Whether the key has a length the cipher accepts.
    pub open spec fn key_ok(&self) -> bool {
        serpent_key_ok(self.spec_key())
    }

    pub fn serpent(key: Vec<u8>) -> (r: Self)
        ensures
            r.spec_key() == key@,
    {
        Encryption::Serpent { key }
    }

    /// Encrypts a buffer under a fresh IV.
    ///
    /// Relies on `block_modes::Cbc::<Serpent, ZeroPadding>`: `new_from_slices`
    /// fails exactly when the IV is not one block long or `serpent` refuses the
    /// key (shorter than 16 or longer than 32 bytes); `encrypt_vec` zero-pads
    /// the message to whole blocks and encrypts it, and decrypting the result
    /// with the same key and IV undoes it up to the zero padding.
    #[verifier::external_body]
    pub fn encrypt_vec(&self, plaintext: &[u8], iv: &[u8]) -> (r: Result<Vec<u8>, CryptoError>)
        ensures
            r is Ok <==> (self.key_ok() && iv@.len() == 16),
            r matches Ok(c) ==> {
                &&& c@ == serpent_cbc_encrypt(self.spec_key(), iv@, plaintext@)
                &&& c@.len() == padded_len(plaintext@.len())
                &&& plaintext@.len() > 0 ==> serpent_cbc_decrypt(self.spec_key(), iv@, c@)
                    == zero_unpadded(plaintext@)
            },
            r matches Err(e) ==> e == CryptoError::InvalidKeyIvLength,
    {
        match self {
            Self::Serpent { key } => {
                let cipher =
                    block_modes::Cbc::<serpent::Serpent, block_modes::block_padding::ZeroPadding>::new_from_slices(key, iv)
                        .map_err(|_| CryptoError::InvalidKeyIvLength)?;
                Ok(block_modes::BlockMode::encrypt_vec(cipher, plaintext))
            }
        }
    }

    /// Decrypts a buffer that was encrypted under the given IV.
    ///
    /// Relies on `block_modes::Cbc::<Serpent, ZeroPadding>`: `new_from_slices`
    /// fails exactly when the IV is not one block long or the key is not 16 to
    /// 32 bytes; `decrypt_vec` refuses a ciphertext that is not whole blocks,
    /// and otherwise decrypts and strips trailing zero bytes down to at least
    /// one byte. Unpadding an empty buffer panics in the padding crate, so an
    /// empty ciphertext is excluded here.
    #[verifier::external_body]
    pub fn decrypt_vec(&self, ciphertext: &[u8], iv: &[u8]) -> (r: Result<Vec<u8>, CryptoError>)
        requires
            ciphertext@.len() > 0,
        ensures
            r is Ok <==> (self.key_ok() && iv@.len() == 16 && ciphertext@.len() % 16 == 0),
            r matches Ok(p) ==> {
                &&& p@ == serpent_cbc_decrypt(self.spec_key(), iv@, ciphertext@)
                &&& 1 <= p@.len() <= ciphertext@.len()
            },
            r matches Err(e) ==> e == (if self.key_ok() && iv@.len() == 16 {
                CryptoError::BlockMode
            } else {
                CryptoError::InvalidKeyIvLength
            }),
    {
        match self {
            Self::Serpent { key } => {
                let cipher =
                    block_modes::Cbc::<serpent::Serpent, block_modes::block_padding::ZeroPadding>::new_from_slices(key, iv)
                        .map_err(|_| CryptoError::InvalidKeyIvLength)?;
                block_modes::BlockMode::decrypt_vec(cipher, ciphertext).map_err(
                    |_| CryptoError::BlockMode,
                )
            }
        }
    }
}

} // verus!
