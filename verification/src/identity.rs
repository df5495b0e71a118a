//! Persistent Ed25519 identity of an endpoint.
//!
//! The secret key is stored as 32 raw bytes. Where the file lies is up to the
//! caller.

use vstd::prelude::*;

verus! {

/// The secret key of an endpoint.
#[verifier::external_type_specification]
#[verifier::external_body]
pub struct ExSecretKey(iroh::SecretKey);

#[derive(Debug)]
pub enum IdentityError {
    /// The identity file could not be read or written.
    Io(std::io::Error),
    /// The identity file does not hold 32 bytes.
    BadLength(usize),
}

/// The bytes of a secret key.
pub uninterp spec fn secret_bytes(key: iroh::SecretKey) -> Seq<u8>;

/// `iroh::SecretKey::from_bytes` makes the key with the given bytes.
#[verifier::external_body]
fn key_from_bytes(bytes: &[u8; 32]) -> (r: iroh::SecretKey)
    ensures
        secret_bytes(r) == bytes@,
{
    iroh::SecretKey::from_bytes(bytes)
}

/// `iroh::SecretKey::to_bytes` gives the bytes of a key.
#[verifier::external_body]
fn key_to_bytes(key: &iroh::SecretKey) -> (r: [u8; 32])
    ensures
        r@ == secret_bytes(*key),
{
    key.to_bytes()
}

/// Generates a fresh identity in memory, with `iroh::SecretKey::generate`.
/// Nothing is said of the result: it is random.
#[verifier::external_body]
pub fn generate() -> iroh::SecretKey {
    iroh::SecretKey::generate()
}

/// The secret key that an identity file holds.
pub fn parse_secret(bytes: &[u8]) -> (r: Result<iroh::SecretKey, IdentityError>)
    ensures
        match r {
            Ok(key) => bytes@.len() == 32 && secret_bytes(key) == bytes@,
            Err(IdentityError::BadLength(n)) => bytes@.len() != 32 && n == bytes@.len(),
            Err(IdentityError::Io(_)) => false,
        },
{
    if bytes.len() != 32 {
        return Err(IdentityError::BadLength(bytes.len()));
    }
    let mut arr: [u8; 32] = [0; 32];
    let mut i: usize = 0;
    while i < 32
        invariant
            0 <= i <= 32,
            bytes@.len() == 32,
            forall|j: int| 0 <= j < i ==> #[trigger] arr@[j] == bytes@[j],
        decreases 32 - i,
    {
        arr[i] = bytes[i];
        i = i + 1;
    }
    assert(arr@ =~= bytes@);
    Ok(key_from_bytes(&arr))
}

/// The contents of an identity file. [`parse_secret`] reads them back as the
/// same key.
pub fn secret_file(key: &iroh::SecretKey) -> (r: [u8; 32])
    ensures
        r@ == secret_bytes(*key),
{
    key_to_bytes(key)
}

/// What became of reading the identity file.
#[derive(Debug)]
pub enum IdentityRead {
    Contents(Vec<u8>),
    Missing,
    Failed(std::io::Error),
}

/// What to do about the identity.
#[derive(Debug)]
pub enum IdentityStep {
    /// Use the key from the file.
    Use(iroh::SecretKey),
    /// Generate a key, and write it to the file.
    Create,
}

/// Decide on the identity: a missing file asks for a fresh key, anything else
/// has to be a readable key.
pub fn plan_identity(read: IdentityRead) -> (r: Result<IdentityStep, IdentityError>)
    ensures
        match read {
            IdentityRead::Contents(bytes) => match r {
                Ok(IdentityStep::Use(key)) => bytes@.len() == 32 && secret_bytes(key) == bytes@,
                Err(IdentityError::BadLength(n)) => bytes@.len() != 32 && n == bytes@.len(),
                _ => false,
            },
            IdentityRead::Missing => r matches Ok(IdentityStep::Create),
            IdentityRead::Failed(e) => r == Err::<IdentityStep, IdentityError>(
                IdentityError::Io(e),
            ),
        },
{
    match read {
        IdentityRead::Contents(bytes) => match parse_secret(bytes.as_slice()) {
            Ok(key) => Ok(IdentityStep::Use(key)),
            Err(e) => Err(e),
        },
        IdentityRead::Missing => Ok(IdentityStep::Create),
        IdentityRead::Failed(e) => Err(IdentityError::Io(e)),
    }
}

} // verus!
