//! The signer: a secp256k1 private key, the address that belongs to it, and
//! recoverable signatures over 32-byte digests.

use vstd::prelude::*;
use crate::text::{prefixed_hex, to_prefixed_hex};
use crate::types::{Address, H256};

verus! {

/// A recoverable signature: `r`, `s` and the recovery byte `v`, 65 bytes.
#[derive(Clone, Copy, Debug, PartialEq, Eq)]
pub struct Signature(pub [u8; 65]);

impl View for Signature {
    type V = Seq<u8>;

    open spec fn view(&self) -> Seq<u8> {
        self.0@
    }
}

impl Signature {
    /// `0x` and the 130 lower-case hexadecimal digits of the signature.
    pub fn to_hex(&self) -> (r: String)
        ensures
            r@ == prefixed_hex(self@),
    {
        to_prefixed_hex(&self.0)
    }
}

/// The address of the account that a private key controls. There is none
/// where the 32 bytes are no key of the curve.
pub uninterp spec fn key_address(key: Seq<u8>) -> Option<[u8; 20]>;

/// The signature that a private key gives a digest.
pub uninterp spec fn key_signature(key: Seq<u8>, digest: Seq<u8>) -> Option<[u8; 65]>;

/// `LocalWallet::from_bytes` and `Signer::address` of ethers: the address
/// derived from the public key of the private key that the 32 bytes write, or
/// nothing where `from_bytes` refuses them. It depends on the bytes alone.
#[verifier::external_body]
fn address_of_key(key: &[u8; 32]) -> (r: Option<[u8; 20]>)
    ensures
        r == key_address(key@),
{
    match ethers::signers::LocalWallet::from_bytes(key) {
        Ok(wallet) => Some(ethers::signers::Signer::address(&wallet).0),
        Err(_) => None,
    }
}

/// `Wallet::sign_hash` of ethers on the wallet that `LocalWallet::from_bytes`
/// makes of the key: the signature over the digest as `r`, `s` and `v`, or
/// nothing where the key is refused or signing fails. The nonce of the
/// signature is derived from key and digest, so the result depends on the
/// two alone.
#[verifier::external_body]
fn sign_with_key(key: &[u8; 32], digest: &[u8; 32]) -> (r: Option<[u8; 65]>)
    ensures
        r == key_signature(key@, digest@),
{
    match ethers::signers::LocalWallet::from_bytes(key) {
        Ok(wallet) => match wallet.sign_hash(ethers::types::H256(*digest)) {
            Ok(signature) => Some(signature.into()),
            Err(_) => None,
        },
        Err(_) => None,
    }
}

/// What signing gives where the signature is `signature` and the signer's
/// address is `address`.
pub open spec fn signed(signature: Option<[u8; 65]>, address: Address) -> Option<(Signature, Address)> {
    match signature {
        Some(bytes) => Some((Signature(bytes), address)),
        None => None,
    }
}

/// A private key with its address. The key is held for as long as the signer
/// lives and is never given out.
pub struct Signer {
    key: [u8; 32],
    address: Address,
}

impl Signer {
    #[verifier::type_invariant]
    spec fn address_belongs_to_key(self) -> bool {
        key_address(self.key@) == Some(self.address.0)
    }

    /// The private key. It exists in contracts only.
    pub closed spec fn key(self) -> Seq<u8> {
        self.key@
    }

    /// The address of the signer's account.
    pub closed spec fn spec_address(self) -> Address {
        self.address
    }

    /// A signer for the private key that the 32 bytes write, where they write
    /// one.
    pub fn from_key(key: [u8; 32]) -> (r: Option<Signer>)
        ensures
            match r {
                Some(signer) => signer.key() == key@ && key_address(key@) == Some(
                    signer.spec_address().0,
                ),
                None => key_address(key@) is None,
            },
    {
        match address_of_key(&key) {
            Some(bytes) => Some(Signer { key, address: Address(bytes) }),
            None => None,
        }
    }

    /// The address of the signer's account.
    pub fn address(&self) -> (r: Address)
        ensures
            r == self.spec_address(),
            key_address(self.key()) == Some(r.0),
    {
        proof {
            use_type_invariant(self);
        }
        self.address
    }

    /// Signs a digest. Gives the signature and the signer's address, or
    /// nothing where signing fails.
    pub fn sign(&self, digest: &H256) -> (r: Option<(Signature, Address)>)
        ensures
            r == signed(key_signature(self.key(), digest@), self.spec_address()),
    {
        match sign_with_key(&self.key, &digest.0) {
            Some(bytes) => Some((Signature(bytes), self.address)),
            None => None,
        }
    }
}

} // verus!
