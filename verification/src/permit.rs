//! The mint permit, the signing domain, and the digest that is signed for a
//! permit in a domain.
//!
//! The digest follows the typed structured data scheme of EIP-712. Every
//! member of a struct is encoded as one 32-byte word; the hash of a struct is
//! the hash of its type's hash followed by its members' words; the digest is
//! the hash of the bytes `0x19 0x01`, the domain's hash and the permit's hash.
//! The contract that checks signatures computes the same bytes, so the member
//! order and the type descriptions here are fixed.

use vstd::prelude::*;
use vstd::string::StringSliceAdditionalSpecFns;
use vstd::utf8::encode_utf8;
use crate::bigend::{be_bytes, lemma_be_bytes_of_value};
use crate::keccak::{keccak256, keccak256_hash};
use crate::types::{Address, H256, U256};

verus! {

/// The message that is signed: who may mint, what, and until when.
#[derive(Clone, Copy, Debug, PartialEq, Eq)]
pub struct MintPermit {
    pub to: Address,
    pub uri_hash: H256,
    pub art_hash: H256,
    pub nonce: U256,
    pub deadline: U256,
}

/// The context that a signature is bound to.
#[derive(Debug, PartialEq, Eq)]
pub struct SigningDomain {
    pub name: String,
    pub version: String,
    pub chain_id: U256,
    pub verifying_contract: Address,
}

/// A permit as bytes and numbers.
pub struct PermitView {
    pub to: Seq<u8>,
    pub uri_hash: Seq<u8>,
    pub art_hash: Seq<u8>,
    pub nonce: nat,
    pub deadline: nat,
}

/// A domain as characters, a number and bytes.
pub struct DomainView {
    pub name: Seq<char>,
    pub version: Seq<char>,
    pub chain_id: nat,
    pub verifying_contract: Seq<u8>,
}

impl View for MintPermit {
    type V = PermitView;

    open spec fn view(&self) -> PermitView {
        PermitView {
            to: self.to@,
            uri_hash: self.uri_hash@,
            art_hash: self.art_hash@,
            nonce: self.nonce@,
            deadline: self.deadline@,
        }
    }
}

impl View for SigningDomain {
    type V = DomainView;

    open spec fn view(&self) -> DomainView {
        DomainView {
            name: self.name@,
            version: self.version@,
            chain_id: self.chain_id@,
            verifying_contract: self.verifying_contract@,
        }
    }
}

impl PermitView {
    /// Every member has the size of its type.
    pub open spec fn wf(self) -> bool {
        &&& self.to.len() == 20
        &&& self.uri_hash.len() == 32
        &&& self.art_hash.len() == 32
        &&& self.nonce < U256::limit()
        &&& self.deadline < U256::limit()
    }
}

impl DomainView {
    /// Chain and contract have the sizes of their types.
    pub open spec fn wf(self) -> bool {
        &&& self.chain_id < U256::limit()
        &&& self.verifying_contract.len() == 20
    }
}

/// The description of the permit's type, whose hash leads the permit's
/// encoding.
pub open spec fn permit_type_text() -> Seq<u8> {
    "MintPermit(address to,bytes32 uriHash,bytes32 artHash,uint256 nonce,uint256 deadline)".spec_bytes()
}

/// The description of the domain's type.
pub open spec fn domain_type_text() -> Seq<u8> {
    "EIP712Domain(string name,string version,uint256 chainId,address verifyingContract)".spec_bytes()
}

/// The word of an address: twelve zero bytes, then the address.
pub open spec fn address_word(address: Seq<u8>) -> Seq<u8> {
    Seq::new(12, |i: int| 0u8) + address
}

/// The word of an unsigned number: its 32 bytes, the most significant first.
pub open spec fn uint_word(n: nat) -> Seq<u8> {
    be_bytes(n, 32)
}

/// The words of a permit behind the hash of its type.
pub open spec fn permit_words(type_hash: Seq<u8>, permit: PermitView) -> Seq<u8> {
    type_hash + address_word(permit.to) + permit.uri_hash + permit.art_hash + uint_word(permit.nonce)
        + uint_word(permit.deadline)
}

/// The words of a domain behind the hash of its type. The two strings stand
/// as their hashes.
pub open spec fn domain_words(
    type_hash: Seq<u8>,
    name_hash: Seq<u8>,
    version_hash: Seq<u8>,
    chain_id: nat,
    verifying_contract: Seq<u8>,
) -> Seq<u8> {
    type_hash + name_hash + version_hash + uint_word(chain_id) + address_word(verifying_contract)
}

/// What is hashed last: the two bytes `0x19 0x01`, the domain's hash and the
/// permit's hash.
pub open spec fn digest_input(separator: Seq<u8>, struct_hash: Seq<u8>) -> Seq<u8> {
    seq![0x19u8, 0x01u8] + separator + struct_hash
}

/// The bytes whose hash is the hash of the permit.
pub open spec fn permit_encoding(permit: PermitView) -> Seq<u8> {
    permit_words(keccak256_hash(permit_type_text())@, permit)
}

/// The hash of a permit.
pub open spec fn permit_hash(permit: PermitView) -> [u8; 32] {
    keccak256_hash(permit_encoding(permit))
}

/// The bytes whose hash is the hash of the domain.
pub open spec fn domain_encoding(domain: DomainView) -> Seq<u8> {
    domain_words(
        keccak256_hash(domain_type_text())@,
        keccak256_hash(encode_utf8(domain.name))@,
        keccak256_hash(encode_utf8(domain.version))@,
        domain.chain_id,
        domain.verifying_contract,
    )
}

/// The hash of a domain.
pub open spec fn domain_separator(domain: DomainView) -> [u8; 32] {
    keccak256_hash(domain_encoding(domain))
}

/// The bytes whose hash is the digest.
pub open spec fn digest_preimage(permit: PermitView, domain: DomainView) -> Seq<u8> {
    digest_input(domain_separator(domain)@, permit_hash(permit)@)
}

/// The digest that is signed for a permit in a domain.
pub open spec fn permit_digest(permit: PermitView, domain: DomainView) -> [u8; 32] {
    keccak256_hash(digest_preimage(permit, domain))
}

fn append(buf: &mut Vec<u8>, bytes: &[u8])
    ensures
        final(buf)@ == old(buf)@ + bytes@,
{
    buf.extend_from_slice(bytes);
}

fn append_address_word(buf: &mut Vec<u8>, address: &Address)
    ensures
        final(buf)@ == old(buf)@ + address_word(address@),
{
    let pad: [u8; 12] = [0u8; 12];
    append(buf, &pad);
    append(buf, &address.0);
}

fn append_uint_word(buf: &mut Vec<u8>, n: &U256)
    ensures
        final(buf)@ == old(buf)@ + uint_word(n@),
{
    proof {
        lemma_be_bytes_of_value(n.0@);
    }
    append(buf, &n.0);
}

/// The words of a permit behind a given hash of its type: 192 bytes.
pub fn encode_permit(type_hash: &H256, permit: &MintPermit) -> (r: Vec<u8>)
    ensures
        r@ == permit_words(type_hash@, permit@),
{
    let mut buf: Vec<u8> = Vec::new();
    append(&mut buf, &type_hash.0);
    append_address_word(&mut buf, &permit.to);
    append(&mut buf, &permit.uri_hash.0);
    append(&mut buf, &permit.art_hash.0);
    append_uint_word(&mut buf, &permit.nonce);
    append_uint_word(&mut buf, &permit.deadline);
    buf
}

/// The words of a domain behind given hashes of its type, its name and its
/// version: 160 bytes.
pub fn encode_domain(
    type_hash: &H256,
    name_hash: &H256,
    version_hash: &H256,
    chain_id: &U256,
    verifying_contract: &Address,
) -> (r: Vec<u8>)
    ensures
        r@ == domain_words(type_hash@, name_hash@, version_hash@, chain_id@, verifying_contract@),
{
    let mut buf: Vec<u8> = Vec::new();
    append(&mut buf, &type_hash.0);
    append(&mut buf, &name_hash.0);
    append(&mut buf, &version_hash.0);
    append_uint_word(&mut buf, chain_id);
    append_address_word(&mut buf, verifying_contract);
    assert(buf@ =~= domain_words(
        type_hash@,
        name_hash@,
        version_hash@,
        chain_id@,
        verifying_contract@,
    ));
    buf
}

/// The 66 bytes that are hashed last, for a given hash of the domain and a
/// given hash of the permit.
pub fn encode_digest_input(separator: &H256, struct_hash: &H256) -> (r: Vec<u8>)
    ensures
        r@ == digest_input(separator@, struct_hash@),
{
    let mut buf: Vec<u8> = Vec::new();
    buf.push(0x19);
    buf.push(0x01);
    append(&mut buf, &separator.0);
    append(&mut buf, &struct_hash.0);
    buf
}

impl MintPermit {
    /// The hash of the permit.
    pub fn struct_hash(&self) -> (r: H256)
        ensures
            r.0 == permit_hash(self@),
    {
        let type_hash = H256(
            keccak256(
                "MintPermit(address to,bytes32 uriHash,bytes32 artHash,uint256 nonce,uint256 deadline)".as_bytes(),
            ),
        );
        let words = encode_permit(&type_hash, self);
        H256(keccak256(words.as_slice()))
    }
}

impl SigningDomain {
    /// The hash of the domain.
    pub fn separator(&self) -> (r: H256)
        ensures
            r.0 == domain_separator(self@),
    {
        let type_hash = H256(
            keccak256(
                "EIP712Domain(string name,string version,uint256 chainId,address verifyingContract)".as_bytes(),
            ),
        );
        let name_hash = H256(keccak256(self.name.as_str().as_bytes()));
        let version_hash = H256(keccak256(self.version.as_str().as_bytes()));
        let words = encode_domain(
            &type_hash,
            &name_hash,
            &version_hash,
            &self.chain_id,
            &self.verifying_contract,
        );
        H256(keccak256(words.as_slice()))
    }
}

/// The digest that is signed for a permit in a domain. It depends on nothing
/// but the two.
pub fn build_digest(permit: &MintPermit, domain: &SigningDomain) -> (r: H256)
    ensures
        r.0 == permit_digest(permit@, domain@),
{
    let separator = domain.separator();
    let struct_hash = permit.struct_hash();
    let input = encode_digest_input(&separator, &struct_hash);
    H256(keccak256(input.as_slice()))
}

} // verus!
