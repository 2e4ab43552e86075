//! Identities: Ed25519 key pairs with a base-58 public identifier.

use ed25519_dalek::{Keypair, PublicKey, Signature, Signer, Verifier};
use rand::rngs::OsRng;
use vstd::prelude::*;
use vstd::slice::*;
use vstd::string::*;
use vstd::utf8::*;

use crate::codec::{base58_encoding, decode, decoded, encode, is_base58_text, Decoding};
use crate::error::{outcome, BlockchainError, ErrorView};

verus! {

/// Length of a secret key, and of a public key, in bytes.
pub const KEY_LENGTH: usize = 32;

/// Length of a key pair in bytes: the secret key, then the public key.
pub const PAIR_LENGTH: usize = 64;

/// Length of a signature in bytes.
pub const SIGNATURE_LENGTH: usize = 64;

/// Whether `PublicKey::from_bytes` of `ed25519-dalek` takes a byte string as
/// a public key: 32 bytes that are the compressed form of a point on the
/// curve.
pub uninterp spec fn ed25519_accepts_public_key(bytes: Seq<u8>) -> bool;

/// The signature that `sign` of `ed25519-dalek` puts on a message with the
/// key pair of the given bytes.
pub uninterp spec fn ed25519_signature(pair: Seq<u8>, message: Seq<u8>) -> Seq<u8>;

/// Whether `verify` of `ed25519-dalek` accepts a signature on a message under
/// a public key.
pub uninterp spec fn ed25519_verifies(
    public_key: Seq<u8>,
    message: Seq<u8>,
    signature: Seq<u8>,
) -> bool;

/// The public half of a key pair.
pub open spec fn public_half(pair: Seq<u8>) -> Seq<u8> {
    pair.subrange(KEY_LENGTH as int, PAIR_LENGTH as int)
}

/// Whether a byte string has the layout of a key pair: 64 bytes whose second
/// half is taken as a public key.
pub open spec fn is_pair_layout(pair: Seq<u8>) -> bool {
    pair.len() == PAIR_LENGTH && ed25519_accepts_public_key(public_half(pair))
}

/// Whether every signature of a key pair verifies under its public half, as
/// it does when the halves belong together.
pub open spec fn signs_truly(pair: Seq<u8>) -> bool {
    forall|message: Seq<u8>|
        ed25519_verifies(public_half(pair), message, #[trigger] ed25519_signature(pair, message))
}

/// Whether a byte string has the layout of a signature: 64 bytes, the three
/// highest bits of the last one clear.
pub open spec fn is_signature_layout(signature: Seq<u8>) -> bool {
    signature.len() == SIGNATURE_LENGTH && signature[SIGNATURE_LENGTH - 1] & 0xe0 == 0
}

/// Why a byte string that is not taken as a public key is turned down.
pub open spec fn public_key_complaint(bytes: Seq<u8>) -> Seq<char> {
    if bytes.len() != KEY_LENGTH {
        "signature error: PublicKey must be 32 bytes in length"@
    } else {
        "signature error: Cannot decompress Edwards point"@
    }
}

/// Why a byte string without the layout of a signature is turned down.
pub open spec fn signature_complaint() -> Seq<char> {
    "signature error"@
}

/// Calls `Keypair::generate` of `ed25519-dalek` on the operating system's
/// random source and gives the pair's 64 bytes. Trusted, of every outcome:
/// the bytes have the layout of a key pair, and whatever the pair signs
/// verifies under its public half.
#[verifier::external_body]
fn generate_pair() -> (pair: Vec<u8>)
    ensures
        pair@.len() == PAIR_LENGTH,
        ed25519_accepts_public_key(public_half(pair@)),
        forall|message: Seq<u8>|
            ed25519_verifies(
                public_half(pair@),
                message,
                #[trigger] ed25519_signature(pair@, message),
            ),
{
    Keypair::generate(&mut OsRng {}).to_bytes().to_vec()
}

/// Calls `PublicKey::from_bytes` of `ed25519-dalek` and gives the rendering
/// of its error, if any. Trusted: there is none exactly when the bytes are
/// taken as a public key, which only 32 bytes are; the error names the length
/// when the length is wrong and the point otherwise.
#[verifier::external_body]
fn public_key_fault(bytes: &[u8]) -> (fault: Option<String>)
    ensures
        fault is None <==> ed25519_accepts_public_key(bytes@),
        fault is None ==> bytes@.len() == KEY_LENGTH,
        fault matches Some(text) ==> text@ == public_key_complaint(bytes@),
{
    match PublicKey::from_bytes(bytes) {
        Ok(_) => None,
        Err(error) => Some(format!("{}", error)),
    }
}

/// Calls `Signature::from_bytes` of `ed25519` and gives the rendering of its
/// error, if any. Trusted: there is none exactly when there are 64 bytes and
/// the three highest bits of the last one are clear; the error, which has no
/// source, is rendered as `signature error`.
#[verifier::external_body]
fn signature_fault(bytes: &[u8]) -> (fault: Option<String>)
    ensures
        fault is None <==> is_signature_layout(bytes@),
        fault matches Some(text) ==> text@ == signature_complaint(),
{
    match Signature::from_bytes(bytes) {
        Ok(_) => None,
        Err(error) => Some(format!("{}", error)),
    }
}

/// Calls `verify` of `ed25519-dalek` on a public key, a message and a
/// signature, each rebuilt from its bytes. Trusted: the result says whether
/// the signature verifies.
#[verifier::external_body]
fn signature_verifies(public_key: &[u8], message: &[u8], signature: &[u8]) -> (valid: bool)
    requires
        ed25519_accepts_public_key(public_key@),
        is_signature_layout(signature@),
    ensures
        valid == ed25519_verifies(public_key@, message@, signature@),
{
    match (PublicKey::from_bytes(public_key), Signature::from_bytes(signature)) {
        (Ok(key), Ok(parsed)) => key.verify(message, &parsed).is_ok(),
        _ => false,
    }
}

/// Calls `sign` of `ed25519-dalek` on a key pair rebuilt from its bytes by
/// `Keypair::from_bytes`. Trusted: a pair is rebuilt exactly when the bytes
/// have the layout of a key pair; the result is then the signature of the
/// pair on the message, and it has the layout of a signature.
#[verifier::external_body]
fn pair_signature(pair: &[u8], message: &[u8]) -> (signature: Option<Vec<u8>>)
    ensures
        signature is Some <==> (pair@.len() == PAIR_LENGTH && ed25519_accepts_public_key(
            public_half(pair@),
        )),
        signature matches Some(bytes) ==> bytes@ == ed25519_signature(pair@, message@),
        signature matches Some(bytes) ==> is_signature_layout(bytes@),
{
    match Keypair::from_bytes(pair) {
        Ok(keys) => Some(keys.sign(message).to_bytes().to_vec()),
        Err(_) => None,
    }
}

/// What checking a signature gives, all in text: an error when the public
/// identifier or the signature is not base-58 text, or does not decode to the
/// layout of a key or of a signature; otherwise whether the signature on the
/// message verifies under the key.
pub open spec fn verification(
    public_key: Seq<char>,
    message: Seq<char>,
    signature: Seq<char>,
) -> Result<bool, ErrorView> {
    match decoded(public_key) {
        Decoding::Refused(why) => Err(ErrorView::WalletError("Invalid public key: "@ + why)),
        Decoding::Bytes(key) => match decoded(signature) {
            Decoding::Refused(why) => Err(ErrorView::WalletError("Invalid signature: "@ + why)),
            Decoding::Bytes(sig) => if !ed25519_accepts_public_key(key) {
                Err(
                    ErrorView::WalletError(
                        "Invalid public key format: "@ + public_key_complaint(key),
                    ),
                )
            } else if !is_signature_layout(sig) {
                Err(ErrorView::WalletError("Invalid signature format: "@ + signature_complaint()))
            } else {
                Ok(ed25519_verifies(key, encode_utf8(message), sig))
            },
        },
    }
}

/// An identity: a key pair and the public identifier derived from it.
#[derive(Debug)]
pub struct Wallet {
    pair: Vec<u8>,
    /// The base-58 text of the public key.
    pub public_key: String,
}

/// The mathematical content of a [`Wallet`].
pub struct WalletView {
    /// The 64 bytes of the key pair: the secret key, then the public key.
    pub pair: Seq<u8>,
    /// The public identifier.
    pub public_key: Seq<char>,
}

impl WalletView {
    /// Whether the identity is sound: its pair has the layout of a key pair,
    /// what it signs verifies under its public half, and the public
    /// identifier is the base-58 text of the public half, is made of digits
    /// of base 58 alone and decodes to the public half.
    pub open spec fn wf(self) -> bool {
        &&& is_pair_layout(self.pair)
        &&& signs_truly(self.pair)
        &&& self.public_key == base58_encoding(public_half(self.pair))
        &&& is_base58_text(self.public_key)
        &&& decoded(self.public_key) == Decoding::Bytes(public_half(self.pair))
    }

    /// The signature of the identity on a message, as base-58 text.
    pub open spec fn signature_on(self, message: Seq<char>) -> Seq<char> {
        base58_encoding(ed25519_signature(self.pair, encode_utf8(message)))
    }
}

/// A check under another identity answers: where a signature verifies under
/// one identifier, checking it under the identifier of any sound identity
/// gives `true` or `false` and never an error.
pub proof fn lemma_check_under_another_identity_answers(
    public_key: Seq<char>,
    other: WalletView,
    message: Seq<char>,
    signature: Seq<char>,
)
    requires
        verification(public_key, message, signature) == Ok::<bool, ErrorView>(true),
        other.wf(),
    ensures
        verification(other.public_key, message, signature) is Ok,
{
}

impl View for Wallet {
    type V = WalletView;

    closed spec fn view(&self) -> WalletView {
        WalletView { pair: self.pair@, public_key: self.public_key@ }
    }
}

impl Wallet {
    /// The public identifier of the identity.
    pub fn public_identifier(&self) -> (text: &String)
        ensures
            text@ == self@.public_key,
    {
        &self.public_key
    }

    /// Makes an identity with a fresh random key pair.
    pub fn new() -> (result: Result<Wallet, BlockchainError>)
        ensures
            result is Ok,
            result->Ok_0@.wf(),
    {
        let pair = generate_pair();
        Wallet::from_pair_bytes(pair)
    }

    /// Makes an identity from the 64 bytes of a key pair. Bytes of another
    /// length are turned down; nothing else is checked of them.
    pub fn from_pair_bytes(pair: Vec<u8>) -> (result: Result<Wallet, BlockchainError>)
        ensures
            match result {
                Ok(wallet) => {
                    &&& pair@.len() == PAIR_LENGTH
                    &&& wallet@.pair == pair@
                    &&& wallet@.public_key == base58_encoding(public_half(pair@))
                    &&& is_base58_text(wallet@.public_key)
                    &&& decoded(wallet@.public_key) == Decoding::Bytes(public_half(pair@))
                },
                Err(error) => {
                    &&& pair@.len() != PAIR_LENGTH
                    &&& error@ == ErrorView::WalletError("Invalid key pair length"@)
                },
            },
    {
        if pair.len() != PAIR_LENGTH {
            return Err(BlockchainError::WalletError(String::from_str("Invalid key pair length")));
        }
        let public_key = encode(slice_subrange(pair.as_slice(), KEY_LENGTH, PAIR_LENGTH));
        Ok(Wallet { pair, public_key })
    }

    /// Signs a message and gives the signature as base-58 text. Signing fails
    /// only when the key pair is broken. What a sound identity signs verifies
    /// under its public identifier.
    pub fn sign(&self, message: &str) -> (result: Result<String, BlockchainError>)
        ensures
            match result {
                Ok(signature) => {
                    &&& is_pair_layout(self@.pair)
                    &&& signature@ == self@.signature_on(message@)
                    &&& self@.wf() ==> verification(self@.public_key, message@, signature@) == Ok::<
                        bool,
                        ErrorView,
                    >(true)
                },
                Err(error) => {
                    &&& !is_pair_layout(self@.pair)
                    &&& error@ == ErrorView::SignatureError("Invalid key pair"@)
                },
            },
    {
        match pair_signature(self.pair.as_slice(), message.as_bytes()) {
            Some(bytes) => Ok(encode(bytes.as_slice())),
            None => Err(BlockchainError::SignatureError(String::from_str("Invalid key pair"))),
        }
    }

    /// Checks a base-58 signature on a message under a base-58 public
    /// identifier. A malformed identifier or signature is an error; a
    /// well-formed signature that does not verify gives `false`.
    pub fn verify(public_key: &str, message: &str, signature: &str) -> (result: Result<
        bool,
        BlockchainError,
    >)
        ensures
            outcome(result) == verification(public_key@, message@, signature@),
    {
        let key = match decode(public_key) {
            Ok(bytes) => bytes,
            Err(why) => {
                return Err(
                    BlockchainError::WalletError(
                        String::from_str("Invalid public key: ").concat(why.as_str()),
                    ),
                );
            },
        };
        let sig = match decode(signature) {
            Ok(bytes) => bytes,
            Err(why) => {
                return Err(
                    BlockchainError::WalletError(
                        String::from_str("Invalid signature: ").concat(why.as_str()),
                    ),
                );
            },
        };
        if let Some(why) = public_key_fault(key.as_slice()) {
            return Err(
                BlockchainError::WalletError(
                    String::from_str("Invalid public key format: ").concat(why.as_str()),
                ),
            );
        }
        if let Some(why) = signature_fault(sig.as_slice()) {
            return Err(
                BlockchainError::WalletError(
                    String::from_str("Invalid signature format: ").concat(why.as_str()),
                ),
            );
        }
        Ok(signature_verifies(key.as_slice(), message.as_bytes(), sig.as_slice()))
    }
}

} // verus!
