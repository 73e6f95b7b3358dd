use artchain_miner::permit::{encode_digest_input, encode_domain, encode_permit};
use artchain_miner::{build_digest, Address, MintPermit, SigningDomain, H256, U256};
use ethers::abi::{encode, Token};
use ethers::types::transaction::eip712::{EIP712Domain, Eip712, TypedData};
use ethers::utils::keccak256;

const PERMIT_TYPE: &str =
    "MintPermit(address to,bytes32 uriHash,bytes32 artHash,uint256 nonce,uint256 deadline)";

fn unhex32(text: &str) -> [u8; 32] {
    let bytes = hex::decode(text).unwrap();
    let mut out = [0u8; 32];
    out.copy_from_slice(&bytes);
    out
}

fn domain() -> SigningDomain {
    SigningDomain {
        name: "ArtChain".to_string(),
        version: "1".to_string(),
        chain_id: U256::from_u64(11155111),
        verifying_contract: Address([0x11; 20]),
    }
}

fn permit() -> MintPermit {
    MintPermit {
        to: Address([0x22; 20]),
        uri_hash: H256(keccak256("ipfs://example")),
        art_hash: H256([0x33; 32]),
        nonce: U256::from_u64(0),
        deadline: U256::from_u64(1700000000),
    }
}

fn their_domain(domain: &SigningDomain) -> EIP712Domain {
    EIP712Domain {
        name: Some(domain.name.clone()),
        version: Some(domain.version.clone()),
        chain_id: Some(ethers::types::U256::from_big_endian(&domain.chain_id.0)),
        verifying_contract: Some(ethers::types::Address::from(domain.verifying_contract.0)),
        salt: None,
    }
}

fn their_struct_hash(permit: &MintPermit) -> [u8; 32] {
    let tokens = vec![
        Token::Uint(ethers::types::U256::from(keccak256(PERMIT_TYPE))),
        Token::Address(ethers::types::Address::from(permit.to.0)),
        Token::FixedBytes(permit.uri_hash.0.to_vec()),
        Token::FixedBytes(permit.art_hash.0.to_vec()),
        Token::Uint(ethers::types::U256::from_big_endian(&permit.nonce.0)),
        Token::Uint(ethers::types::U256::from_big_endian(&permit.deadline.0)),
    ];
    keccak256(encode(&tokens))
}

fn their_digest(permit: &MintPermit, domain: &SigningDomain) -> [u8; 32] {
    let json = format!(
        "{{\"types\":{{\"EIP712Domain\":[{{\"name\":\"name\",\"type\":\"string\"}},\
         {{\"name\":\"version\",\"type\":\"string\"}},\
         {{\"name\":\"chainId\",\"type\":\"uint256\"}},\
         {{\"name\":\"verifyingContract\",\"type\":\"address\"}}],\
         \"MintPermit\":[{{\"name\":\"to\",\"type\":\"address\"}},\
         {{\"name\":\"uriHash\",\"type\":\"bytes32\"}},\
         {{\"name\":\"artHash\",\"type\":\"bytes32\"}},\
         {{\"name\":\"nonce\",\"type\":\"uint256\"}},\
         {{\"name\":\"deadline\",\"type\":\"uint256\"}}]}},\
         \"primaryType\":\"MintPermit\",\
         \"domain\":{{\"name\":\"{}\",\"version\":\"{}\",\"chainId\":\"{}\",\"verifyingContract\":\"{}\"}},\
         \"message\":{{\"to\":\"{}\",\"uriHash\":\"{}\",\"artHash\":\"{}\",\"nonce\":\"{}\",\"deadline\":\"{}\"}}}}",
        domain.name,
        domain.version,
        domain.chain_id.to_dec_string(),
        domain.verifying_contract.to_hex(),
        permit.to.to_hex(),
        permit.uri_hash.to_hex(),
        permit.art_hash.to_hex(),
        permit.nonce.to_dec_string(),
        permit.deadline.to_dec_string(),
    );
    let typed: TypedData = ethers::utils::__serde_json::from_str(&json).unwrap();
    typed.encode_eip712().unwrap()
}

#[test]
fn encode_permit_lays_out_six_words() {
    let permit = MintPermit {
        to: Address([0xaa; 20]),
        uri_hash: H256([0xbb; 32]),
        art_hash: H256([0xcc; 32]),
        nonce: U256::from_u64(0x0102),
        deadline: U256::from_u64(0xff),
    };
    let words = encode_permit(&H256([0x77; 32]), &permit);
    let mut expected: Vec<u8> = Vec::new();
    expected.extend_from_slice(&[0x77; 32]);
    expected.extend_from_slice(&[0x00; 12]);
    expected.extend_from_slice(&[0xaa; 20]);
    expected.extend_from_slice(&[0xbb; 32]);
    expected.extend_from_slice(&[0xcc; 32]);
    expected.extend_from_slice(&[0x00; 30]);
    expected.extend_from_slice(&[0x01, 0x02]);
    expected.extend_from_slice(&[0x00; 31]);
    expected.extend_from_slice(&[0xff]);
    assert_eq!(words.len(), 192);
    assert_eq!(words, expected);
}

#[test]
fn encode_domain_lays_out_five_words() {
    let words = encode_domain(
        &H256([0x01; 32]),
        &H256([0x02; 32]),
        &H256([0x03; 32]),
        &U256::from_u64(5),
        &Address([0x04; 20]),
    );
    let mut expected: Vec<u8> = Vec::new();
    expected.extend_from_slice(&[0x01; 32]);
    expected.extend_from_slice(&[0x02; 32]);
    expected.extend_from_slice(&[0x03; 32]);
    expected.extend_from_slice(&[0x00; 31]);
    expected.extend_from_slice(&[0x05]);
    expected.extend_from_slice(&[0x00; 12]);
    expected.extend_from_slice(&[0x04; 20]);
    assert_eq!(words.len(), 160);
    assert_eq!(words, expected);
}

#[test]
fn encode_digest_input_leads_with_1901() {
    let input = encode_digest_input(&H256([0x05; 32]), &H256([0x06; 32]));
    let mut expected: Vec<u8> = vec![0x19, 0x01];
    expected.extend_from_slice(&[0x05; 32]);
    expected.extend_from_slice(&[0x06; 32]);
    assert_eq!(input.len(), 66);
    assert_eq!(input, expected);
}

#[test]
fn separator_has_its_golden_value() {
    assert_eq!(
        domain().separator().0,
        unhex32("e81d6447e9363bafe863aeed07e5797def7c1f1ee2991b37d49e95ca6e9ae01b")
    );
}

#[test]
fn separator_agrees_with_ethers() {
    let ours = domain();
    assert_eq!(ours.separator().0, their_domain(&ours).separator());
    let other = SigningDomain {
        name: "Another name, with \u{e9}".to_string(),
        version: "2.1".to_string(),
        chain_id: U256::from_parts(1, 2),
        verifying_contract: Address([0xfe; 20]),
    };
    assert_eq!(other.separator().0, their_domain(&other).separator());
}

#[test]
fn struct_hash_has_its_golden_value() {
    assert_eq!(
        permit().struct_hash().0,
        unhex32("f9933e7904ebb7c8b692e40bc4369f98a3bb7890aea3174fe1c07406947029f1")
    );
}

#[test]
fn struct_hash_agrees_with_abi_encoding_of_ethers() {
    let first = permit();
    assert_eq!(first.struct_hash().0, their_struct_hash(&first));
    let second = MintPermit {
        to: Address([0x01; 20]),
        uri_hash: H256([0x00; 32]),
        art_hash: H256([0xff; 32]),
        nonce: U256([0xff; 32]),
        deadline: U256::from_u64(u64::MAX),
    };
    assert_eq!(second.struct_hash().0, their_struct_hash(&second));
}

#[test]
fn digest_has_its_golden_value() {
    assert_eq!(
        build_digest(&permit(), &domain()).0,
        unhex32("b7cacd55498eaf39a7529154dd76f77c06d9ebab8d2853350e461628f813e146")
    );
}

#[test]
fn digest_is_the_hash_of_prefix_separator_and_struct_hash() {
    let permit = permit();
    let domain = domain();
    let mut input: Vec<u8> = vec![0x19, 0x01];
    input.extend_from_slice(&their_domain(&domain).separator());
    input.extend_from_slice(&their_struct_hash(&permit));
    assert_eq!(build_digest(&permit, &domain).0, keccak256(&input));
}

#[test]
fn digest_agrees_with_typed_data_of_ethers() {
    assert_eq!(build_digest(&permit(), &domain()).0, their_digest(&permit(), &domain()));
    let other_permit = MintPermit {
        to: Address([0x9a; 20]),
        uri_hash: H256(keccak256("")),
        art_hash: H256([0x00; 32]),
        nonce: U256::from_parts(5, 6),
        deadline: U256::from_u64(0),
    };
    let other_domain = SigningDomain {
        name: "ArtChain".to_string(),
        version: "2".to_string(),
        chain_id: U256::from_u64(1),
        verifying_contract: Address([0x00; 20]),
    };
    assert_eq!(
        build_digest(&other_permit, &other_domain).0,
        their_digest(&other_permit, &other_domain)
    );
}

#[test]
fn digest_is_the_same_for_the_same_input() {
    let first = build_digest(&permit(), &domain());
    let second = build_digest(&permit(), &domain());
    assert_eq!(first, second);
}

#[test]
fn digest_changes_with_every_member_of_the_permit() {
    let base = build_digest(&permit(), &domain());
    let mut changed = Vec::new();
    let mut p = permit();
    p.to = Address([0x23; 20]);
    changed.push(build_digest(&p, &domain()));
    let mut p = permit();
    p.uri_hash = H256(keccak256("ipfs://other"));
    changed.push(build_digest(&p, &domain()));
    let mut p = permit();
    p.art_hash = H256([0x34; 32]);
    changed.push(build_digest(&p, &domain()));
    let mut p = permit();
    p.nonce = U256::from_u64(1);
    changed.push(build_digest(&p, &domain()));
    let mut p = permit();
    p.deadline = U256::from_u64(1700000001);
    changed.push(build_digest(&p, &domain()));
    for (i, digest) in changed.iter().enumerate() {
        assert_ne!(*digest, base);
        for other in changed.iter().skip(i + 1) {
            assert_ne!(digest, other);
        }
    }
}

#[test]
fn digest_changes_with_every_member_of_the_domain() {
    let base = build_digest(&permit(), &domain());
    let mut changed = Vec::new();
    let mut d = domain();
    d.name = "ArtChain2".to_string();
    changed.push(build_digest(&permit(), &d));
    let mut d = domain();
    d.version = "2".to_string();
    changed.push(build_digest(&permit(), &d));
    let mut d = domain();
    d.chain_id = U256::from_u64(1);
    changed.push(build_digest(&permit(), &d));
    let mut d = domain();
    d.verifying_contract = Address([0x12; 20]);
    changed.push(build_digest(&permit(), &d));
    for (i, digest) in changed.iter().enumerate() {
        assert_ne!(*digest, base);
        for other in changed.iter().skip(i + 1) {
            assert_ne!(digest, other);
        }
    }
}

#[test]
fn swapping_the_two_hashes_of_a_permit_changes_the_digest() {
    let mut swapped = permit();
    swapped.uri_hash = permit().art_hash;
    swapped.art_hash = permit().uri_hash;
    assert_ne!(build_digest(&swapped, &domain()), build_digest(&permit(), &domain()));
}
