use artchain_miner::validate::{read_identities, read_nonce, respond, show_permit};
use artchain_miner::{
    build_digest, Address, Allowlist, AppState, MinerError, MintPermit, Signature, Signer,
    SigningDomain, ValidateReq, ValidateResp, H256, U256,
};

const KEY: [u8; 32] = [
    0xac, 0x09, 0x74, 0xbe, 0xc3, 0x9a, 0x17, 0xe3, 0x6b, 0xa4, 0xa6, 0xb4, 0xd2, 0x38, 0xff, 0x94,
    0x4b, 0xac, 0xb4, 0x78, 0xcb, 0xed, 0x5e, 0xfc, 0xae, 0x78, 0x4d, 0x7b, 0xf4, 0xf2, 0xff, 0x80,
];

const VALIDATOR: &str = "0xf39fd6e51aad88f6f4ce6ab8827279cfffb92266";
const ALICE: &str = "0x70997970c51812dc3a010c7d01b50e0d17dc79c8";
const BOB: &str = "0x3c44cdddb6a900fa2b585dd299e03d12fa4293bc";
const MALLORY: &str = "0x90f79bf6eb2c4f870365e785982e1f101e93b906";
const RECIPIENT: &str = "0x15d34aaf54267db7d7c367839aaf71a00a2c6a65";
const OTHER_RECIPIENT: &str = "0x9965507d1a55bcc2695c58ba16fb37d819b0a4dc";
const ART_ONE: &str = "0x1111111111111111111111111111111111111111111111111111111111111111";
const ART_TWO: &str = "0x2222222222222222222222222222222222222222222222222222222222222222";
const ART_THREE: &str = "0x3333333333333333333333333333333333333333333333333333333333333333";

fn domain() -> SigningDomain {
    SigningDomain {
        name: "ArtChain".to_string(),
        version: "1".to_string(),
        chain_id: U256::from_u64(11155111),
        verifying_contract: Address([0x11; 20]),
    }
}

fn state() -> AppState {
    let mut allowlist = Allowlist::new();
    allowlist.insert(Address::parse(ALICE).unwrap());
    allowlist.insert(Address::parse(BOB).unwrap());
    AppState::new(allowlist, Signer::from_key(KEY).unwrap(), domain())
}

fn request(creator: &str, to: &str, sha256: &str, nonce: Option<&str>) -> ValidateReq {
    ValidateReq {
        creator: creator.to_string(),
        to: to.to_string(),
        uri: "ipfs://example".to_string(),
        sha256: sha256.to_string(),
        nonce: nonce.map(|text| text.to_string()),
        deadline: 1700000000,
    }
}

fn recovered(response: &ValidateResp, digest: &H256) -> String {
    let signature = response.signature.parse::<ethers::types::Signature>();
    let signature = match signature {
        Ok(signature) => signature,
        Err(_) => response.signature[2..].parse::<ethers::types::Signature>().unwrap(),
    };
    let address = signature.recover(ethers::types::H256(digest.0)).unwrap();
    format!("0x{}", hex::encode(address.0))
}

#[test]
fn fresh_requests_to_one_recipient_get_nonces_zero_and_one() {
    let mut state = state();
    let first = state.validate(&request(ALICE, RECIPIENT, ART_ONE, None)).unwrap();
    assert_eq!(first.permit.nonce, "0");
    let second = state.validate(&request(BOB, RECIPIENT, ART_TWO, None)).unwrap();
    assert_eq!(second.permit.nonce, "1");
}

#[test]
fn recipients_are_counted_apart() {
    let mut state = state();
    let first = state.validate(&request(ALICE, RECIPIENT, ART_ONE, None)).unwrap();
    let second = state.validate(&request(ALICE, OTHER_RECIPIENT, ART_TWO, None)).unwrap();
    let third = state.validate(&request(ALICE, RECIPIENT, ART_THREE, None)).unwrap();
    assert_eq!(first.permit.nonce, "0");
    assert_eq!(second.permit.nonce, "0");
    assert_eq!(third.permit.nonce, "1");
}

#[test]
fn a_fingerprint_passes_once() {
    let mut state = state();
    let first = state.validate(&request(ALICE, RECIPIENT, ART_ONE, None));
    assert!(first.is_ok());
    let second = state.validate(&request(BOB, RECIPIENT, ART_ONE, None));
    assert_eq!(second, Err(MinerError::DuplicateContent));
    let recipient = Address::parse(RECIPIENT).unwrap();
    assert_eq!(state.nonces.peek(&recipient), U256::from_u64(1));
    let third = state.validate(&request(BOB, RECIPIENT, ART_TWO, None)).unwrap();
    assert_eq!(third.permit.nonce, "1");
}

#[test]
fn a_duplicate_for_another_recipient_issues_nothing() {
    let mut state = state();
    assert!(state.validate(&request(ALICE, RECIPIENT, ART_ONE, None)).is_ok());
    let second = state.validate(&request(BOB, OTHER_RECIPIENT, ART_ONE, None));
    assert_eq!(second, Err(MinerError::DuplicateContent));
    let other = Address::parse(OTHER_RECIPIENT).unwrap();
    assert_eq!(state.nonces.peek(&other), U256::zero());
}

#[test]
fn a_fingerprint_in_another_spelling_is_the_same_fingerprint() {
    let mut state = state();
    assert!(state.validate(&request(ALICE, RECIPIENT, ART_ONE, None)).is_ok());
    let bare = &ART_ONE[2..];
    let second = state.validate(&request(ALICE, RECIPIENT, bare, None));
    assert_eq!(second, Err(MinerError::DuplicateContent));
    let upper = "0xABCDEFABCDEFABCDEFABCDEFABCDEFABCDEFABCDEFABCDEFABCDEFABCDEFABCD";
    let lower = upper.to_lowercase();
    assert!(state.validate(&request(ALICE, RECIPIENT, upper, None)).is_ok());
    assert_eq!(
        state.validate(&request(ALICE, RECIPIENT, &lower, None)),
        Err(MinerError::DuplicateContent)
    );
}

#[test]
fn a_creator_off_the_list_is_refused_and_touches_nothing() {
    let mut state = state();
    let refused = state.validate(&request(MALLORY, RECIPIENT, ART_ONE, None));
    assert_eq!(refused, Err(MinerError::NotAuthorized));
    let fingerprint = artchain_miner::parse_h256(ART_ONE).unwrap();
    assert!(!state.seen_hashes.contains(&fingerprint));
    let recipient = Address::parse(RECIPIENT).unwrap();
    assert_eq!(state.nonces.peek(&recipient), U256::zero());
    let accepted = state.validate(&request(ALICE, RECIPIENT, ART_ONE, None)).unwrap();
    assert_eq!(accepted.permit.nonce, "0");
}

#[test]
fn a_content_hash_of_the_wrong_length_is_malformed() {
    let mut state = state();
    let short = &ART_ONE[..64];
    let refused = state.validate(&request(ALICE, RECIPIENT, short, None));
    assert_eq!(refused, Err(MinerError::MalformedInput));
    let long = format!("{}11", ART_ONE);
    let refused = state.validate(&request(ALICE, RECIPIENT, &long, None));
    assert_eq!(refused, Err(MinerError::MalformedInput));
    let recipient = Address::parse(RECIPIENT).unwrap();
    assert_eq!(state.nonces.peek(&recipient), U256::zero());
    let accepted = state.validate(&request(ALICE, RECIPIENT, ART_ONE, None)).unwrap();
    assert_eq!(accepted.permit.nonce, "0");
}

#[test]
fn addresses_that_cannot_be_read_are_malformed() {
    let mut state = state();
    let refused = state.validate(&request("alice", RECIPIENT, ART_ONE, None));
    assert_eq!(refused, Err(MinerError::MalformedInput));
    let refused = state.validate(&request(ALICE, &RECIPIENT[..41], ART_ONE, None));
    assert_eq!(refused, Err(MinerError::MalformedInput));
    let refused = state.validate(&request("", "", "", None));
    assert_eq!(refused, Err(MinerError::MalformedInput));
}

#[test]
fn malformed_input_is_reported_before_the_allowlist_is_asked() {
    let mut state = state();
    let refused = state.validate(&request(MALLORY, RECIPIENT, "0x12", None));
    assert_eq!(refused, Err(MinerError::MalformedInput));
    let refused = state.validate(&request(MALLORY, "nobody", ART_ONE, None));
    assert_eq!(refused, Err(MinerError::MalformedInput));
}

#[test]
fn the_allowlist_is_asked_before_the_fingerprint() {
    let mut state = state();
    assert!(state.validate(&request(ALICE, RECIPIENT, ART_ONE, None)).is_ok());
    let refused = state.validate(&request(MALLORY, RECIPIENT, ART_ONE, None));
    assert_eq!(refused, Err(MinerError::NotAuthorized));
}

#[test]
fn a_nonce_of_the_callers_own_is_used_and_none_is_issued() {
    let mut state = state();
    let response = state.validate(&request(ALICE, RECIPIENT, ART_ONE, Some("42"))).unwrap();
    assert_eq!(response.permit.nonce, "42");
    let recipient = Address::parse(RECIPIENT).unwrap();
    assert_eq!(state.nonces.peek(&recipient), U256::zero());
    let next = state.validate(&request(ALICE, RECIPIENT, ART_TWO, None)).unwrap();
    assert_eq!(next.permit.nonce, "0");
}

#[test]
fn a_nonce_is_shown_without_leading_zeros() {
    let mut state = state();
    let response = state.validate(&request(ALICE, RECIPIENT, ART_ONE, Some("007"))).unwrap();
    assert_eq!(response.permit.nonce, "7");
    let largest = "115792089237316195423570985008687907853269984665640564039457584007913129639935";
    let response = state.validate(&request(ALICE, RECIPIENT, ART_TWO, Some(largest))).unwrap();
    assert_eq!(response.permit.nonce, largest);
}

#[test]
fn a_nonce_that_cannot_be_read_is_malformed_and_records_nothing() {
    let mut state = state();
    let refused = state.validate(&request(ALICE, RECIPIENT, ART_ONE, Some("12x")));
    assert_eq!(refused, Err(MinerError::MalformedInput));
    let too_large = "115792089237316195423570985008687907853269984665640564039457584007913129639936";
    let refused = state.validate(&request(ALICE, RECIPIENT, ART_ONE, Some(too_large)));
    assert_eq!(refused, Err(MinerError::MalformedInput));
    let fingerprint = artchain_miner::parse_h256(ART_ONE).unwrap();
    assert!(!state.seen_hashes.contains(&fingerprint));
    let accepted = state.validate(&request(ALICE, RECIPIENT, ART_ONE, None)).unwrap();
    assert_eq!(accepted.permit.nonce, "0");
}

#[test]
fn a_seen_fingerprint_is_reported_before_a_nonce_that_cannot_be_read() {
    let mut state = state();
    assert!(state.validate(&request(ALICE, RECIPIENT, ART_ONE, None)).is_ok());
    let refused = state.validate(&request(ALICE, RECIPIENT, ART_ONE, Some("12x")));
    assert_eq!(refused, Err(MinerError::DuplicateContent));
}

#[test]
fn the_response_shows_the_permit_that_was_signed() {
    let mut state = state();
    let response = state.validate(&request(ALICE, RECIPIENT, ART_ONE, None)).unwrap();
    assert_eq!(response.permit.to, RECIPIENT);
    assert_eq!(
        response.permit.uri_hash,
        format!("0x{}", hex::encode(ethers::utils::keccak256("ipfs://example")))
    );
    assert_eq!(response.permit.art_hash, ART_ONE);
    assert_eq!(response.permit.nonce, "0");
    assert_eq!(response.permit.deadline, "1700000000");
    assert_eq!(response.validator, VALIDATOR);
    assert_eq!(response.signature.len(), 132);
    let permit = MintPermit {
        to: Address::parse(RECIPIENT).unwrap(),
        uri_hash: H256(ethers::utils::keccak256("ipfs://example")),
        art_hash: artchain_miner::parse_h256(ART_ONE).unwrap(),
        nonce: U256::zero(),
        deadline: U256::from_u64(1700000000),
    };
    let digest = build_digest(&permit, &domain());
    assert_eq!(recovered(&response, &digest), VALIDATOR);
}

#[test]
fn the_signature_covers_the_issued_nonce() {
    let mut state = state();
    assert!(state.validate(&request(ALICE, RECIPIENT, ART_ONE, None)).is_ok());
    let response = state.validate(&request(ALICE, RECIPIENT, ART_TWO, None)).unwrap();
    let mut permit = MintPermit {
        to: Address::parse(RECIPIENT).unwrap(),
        uri_hash: H256(ethers::utils::keccak256("ipfs://example")),
        art_hash: artchain_miner::parse_h256(ART_TWO).unwrap(),
        nonce: U256::from_u64(1),
        deadline: U256::from_u64(1700000000),
    };
    assert_eq!(recovered(&response, &build_digest(&permit, &domain())), VALIDATOR);
    permit.nonce = U256::zero();
    assert_ne!(recovered(&response, &build_digest(&permit, &domain())), VALIDATOR);
}

#[test]
fn the_same_request_in_two_fresh_states_gets_the_same_answer() {
    let first = state().validate(&request(ALICE, RECIPIENT, ART_ONE, Some("5")));
    let second = state().validate(&request(ALICE, RECIPIENT, ART_ONE, Some("5")));
    assert!(first.is_ok());
    assert_eq!(first, second);
}

#[test]
fn has_room_holds_in_a_fresh_state() {
    let state = state();
    assert!(state.has_room(&request(ALICE, RECIPIENT, ART_ONE, None)));
    assert!(state.has_room(&request(ALICE, RECIPIENT, ART_ONE, Some("1"))));
    assert!(state.has_room(&request(ALICE, "nobody", ART_ONE, None)));
}

#[test]
fn record_gives_the_permit_that_is_to_be_signed() {
    let mut state = state();
    let first = state.record(&request(ALICE, RECIPIENT, ART_ONE, None)).unwrap();
    assert_eq!(
        first,
        MintPermit {
            to: Address::parse(RECIPIENT).unwrap(),
            uri_hash: H256(ethers::utils::keccak256("ipfs://example")),
            art_hash: H256([0x11; 32]),
            nonce: U256::zero(),
            deadline: U256::from_u64(1700000000),
        }
    );
    let second = state.record(&request(BOB, RECIPIENT, ART_TWO, Some("77"))).unwrap();
    assert_eq!(second.nonce, U256::from_u64(77));
    let third = state.record(&request(BOB, RECIPIENT, ART_THREE, None)).unwrap();
    assert_eq!(third.nonce, U256::from_u64(1));
    assert_eq!(
        state.record(&request(BOB, RECIPIENT, ART_THREE, None)),
        Err(MinerError::DuplicateContent)
    );
}

#[test]
fn record_and_sign_permit_together_are_validate() {
    let mut stepwise = state();
    let permit = stepwise.record(&request(ALICE, RECIPIENT, ART_ONE, None)).unwrap();
    let signed = stepwise.sign_permit(&permit).unwrap();
    let at_once = state().validate(&request(ALICE, RECIPIENT, ART_ONE, None)).unwrap();
    assert_eq!(signed, at_once);
}

#[test]
fn sign_permit_signs_what_it_is_given_and_records_nothing() {
    let state = state();
    let permit = MintPermit {
        to: Address([0x22; 20]),
        uri_hash: H256([0x01; 32]),
        art_hash: H256([0x02; 32]),
        nonce: U256::from_u64(3),
        deadline: U256::from_u64(4),
    };
    let first = state.sign_permit(&permit).unwrap();
    let second = state.sign_permit(&permit).unwrap();
    assert_eq!(first, second);
    assert_eq!(first.permit, show_permit(&permit));
    assert_eq!(first.validator, VALIDATOR);
    assert_eq!(recovered(&first, &build_digest(&permit, &domain())), VALIDATOR);
    assert!(!state.seen_hashes.contains(&permit.art_hash));
    assert_eq!(state.nonces.peek(&permit.to), U256::zero());
}

#[test]
fn try_validate_answers_as_validate_does() {
    let mut state = state();
    let first = state.try_validate(&request(ALICE, RECIPIENT, ART_ONE, None)).unwrap().unwrap();
    assert_eq!(first.permit.nonce, "0");
    let second = state.try_validate(&request(ALICE, RECIPIENT, ART_ONE, None)).unwrap();
    assert_eq!(second, Err(MinerError::DuplicateContent));
    let third = state.try_validate(&request(MALLORY, RECIPIENT, ART_TWO, None)).unwrap();
    assert_eq!(third, Err(MinerError::NotAuthorized));
    let fourth = state.try_validate(&request(BOB, RECIPIENT, ART_TWO, None)).unwrap().unwrap();
    assert_eq!(fourth.permit.nonce, "1");
    let same = self::state().validate(&request(ALICE, RECIPIENT, ART_ONE, None)).unwrap();
    assert_eq!(first, same);
}

#[test]
fn read_identities_reads_all_three() {
    let read = read_identities(&request(ALICE, RECIPIENT, ART_ONE, None)).unwrap();
    assert_eq!(read.0, Address::parse(ALICE).unwrap());
    assert_eq!(read.1, Address::parse(RECIPIENT).unwrap());
    assert_eq!(read.2, H256([0x11; 32]));
    assert_eq!(
        read_identities(&request(ALICE, RECIPIENT, "0x11", None)),
        Err(MinerError::MalformedInput)
    );
}

#[test]
fn read_nonce_tells_absent_from_explicit() {
    assert_eq!(read_nonce(&None), Ok(None));
    assert_eq!(read_nonce(&Some("9".to_string())), Ok(Some(U256::from_u64(9))));
    assert_eq!(read_nonce(&Some("".to_string())), Ok(Some(U256::zero())));
    assert_eq!(read_nonce(&Some("nine".to_string())), Err(MinerError::MalformedInput));
}

#[test]
fn respond_without_a_signature_is_a_signing_failure() {
    let permit = MintPermit {
        to: Address([0x22; 20]),
        uri_hash: H256([0x01; 32]),
        art_hash: H256([0x02; 32]),
        nonce: U256::from_u64(3),
        deadline: U256::from_u64(4),
    };
    assert_eq!(respond(&permit, None), Err(MinerError::SigningFailure));
}

#[test]
fn respond_with_a_signature_shows_permit_signature_and_signer() {
    let permit = MintPermit {
        to: Address([0x22; 20]),
        uri_hash: H256([0x01; 32]),
        art_hash: H256([0x02; 32]),
        nonce: U256::from_u64(3),
        deadline: U256::from_u64(4),
    };
    let response = respond(&permit, Some((Signature([0xcd; 65]), Address([0xef; 20])))).unwrap();
    assert_eq!(response.permit, show_permit(&permit));
    assert_eq!(response.permit.to, format!("0x{}", "22".repeat(20)));
    assert_eq!(response.permit.uri_hash, format!("0x{}", "01".repeat(32)));
    assert_eq!(response.permit.art_hash, format!("0x{}", "02".repeat(32)));
    assert_eq!(response.permit.nonce, "3");
    assert_eq!(response.permit.deadline, "4");
    assert_eq!(response.signature, format!("0x{}", "cd".repeat(65)));
    assert_eq!(response.validator, format!("0x{}", "ef".repeat(20)));
}

#[test]
fn each_error_has_its_status() {
    assert_eq!(MinerError::MalformedInput.status_code(), 400);
    assert_eq!(MinerError::NotAuthorized.status_code(), 403);
    assert_eq!(MinerError::DuplicateContent.status_code(), 409);
    assert_eq!(MinerError::SigningFailure.status_code(), 500);
}

#[test]
fn each_error_has_its_message() {
    assert_eq!(MinerError::MalformedInput.message(), "malformed input");
    assert_eq!(MinerError::NotAuthorized.message(), "creator not allowlisted");
    assert_eq!(MinerError::DuplicateContent.message(), "duplicate art hash");
    assert_eq!(MinerError::SigningFailure.message(), "signing failed");
}
