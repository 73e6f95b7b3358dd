//! The validator: one request in, one signed permit or one error out.
//!
//! A request names a creator, a recipient, a metadata URI, the content's
//! fingerprint, a deadline and, if the caller wants to choose it, a nonce. The
//! steps are taken in a fixed order and the first that fails ends the request:
//! the addresses and the fingerprint are read; the creator is looked up on the
//! allowlist; the fingerprint is admitted unless it was seen; the nonce is
//! read or issued; the permit is built and signed. A request that is refused
//! for its input, its creator or its fingerprint changes nothing. Once a
//! fingerprint is admitted and a nonce issued they stay so, also where signing
//! fails afterwards.

use vstd::prelude::*;
use vstd::string::StringSliceAdditionalSpecFns;
use vstd::utf8::encode_utf8;
use crate::error::MinerError;
use crate::keccak::{keccak256, keccak256_hash};
use crate::permit::{build_digest, permit_digest, DomainView, MintPermit, PermitView, SigningDomain};
use crate::signer::{key_signature, Signature, Signer};
use crate::store::{admitted, issued, next_nonce_of, Allowlist, DedupStore, NonceBook};
use crate::text::{dec_decoding, dec_encoding, prefixed_hex};
use crate::types::{address_text_value, h256_text_value, parse_h256, Address, H256, U256};

verus! {

/// What a caller sends.
#[derive(Debug, PartialEq, Eq)]
pub struct ValidateReq {
    /// The creator's address, which must be on the allowlist.
    pub creator: String,
    /// The address that will receive the token.
    pub to: String,
    /// The metadata URI. Only its hash goes into the permit.
    pub uri: String,
    /// The content's fingerprint: 32 bytes in hexadecimal.
    pub sha256: String,
    /// The nonce in decimal, where the caller chooses it. Without one the
    /// recipient's next nonce is issued.
    pub nonce: Option<String>,
    pub deadline: u64,
}

/// The permit as it is shown: hashes and addresses in hexadecimal, numbers in
/// decimal.
#[derive(Debug, PartialEq, Eq)]
pub struct MintPermitJson {
    pub to: String,
    pub uri_hash: String,
    pub art_hash: String,
    pub nonce: String,
    pub deadline: String,
}

/// What a caller gets for a request that passed.
#[derive(Debug, PartialEq, Eq)]
pub struct ValidateResp {
    pub permit: MintPermitJson,
    /// The signature over the permit's digest, in hexadecimal.
    pub signature: String,
    /// The signer's address, in hexadecimal.
    pub validator: String,
}

/// All that lives as long as the process: the registries, the signer and the
/// domain.
pub struct AppState {
    pub seen_hashes: DedupStore,
    pub allowlist: Allowlist,
    pub nonces: NonceBook,
    pub signer: Signer,
    pub domain: SigningDomain,
}

/// A request with each text as the bytes of its UTF-8 form.
pub struct RequestView {
    pub creator: Seq<u8>,
    pub to: Seq<u8>,
    pub uri: Seq<u8>,
    pub sha256: Seq<u8>,
    pub nonce: Option<Seq<u8>>,
    pub deadline: nat,
}

/// A shown permit as characters.
pub struct PermitJsonView {
    pub to: Seq<char>,
    pub uri_hash: Seq<char>,
    pub art_hash: Seq<char>,
    pub nonce: Seq<char>,
    pub deadline: Seq<char>,
}

/// A response as characters.
pub struct ResponseView {
    pub permit: PermitJsonView,
    pub signature: Seq<char>,
    pub validator: Seq<char>,
}

/// The state as sets, a map and the values of signer and domain.
pub struct StateView {
    pub allowlist: Set<Seq<u8>>,
    pub seen: Set<Seq<u8>>,
    pub nonces: Map<Seq<u8>, nat>,
    /// The signer's private key.
    pub key: Seq<u8>,
    /// The signer's address.
    pub validator: Seq<u8>,
    pub domain: DomainView,
}

/// What a request leads to: the state after it, and what the caller gets.
pub struct Outcome {
    pub state: StateView,
    pub result: Result<ResponseView, MinerError>,
}

/// The bytes of the UTF-8 form of a text that may be absent.
pub open spec fn text_bytes(text: Option<String>) -> Option<Seq<u8>> {
    match text {
        Some(text) => Some(encode_utf8(text@)),
        None => None,
    }
}

impl View for ValidateReq {
    type V = RequestView;

    open spec fn view(&self) -> RequestView {
        RequestView {
            creator: encode_utf8(self.creator@),
            to: encode_utf8(self.to@),
            uri: encode_utf8(self.uri@),
            sha256: encode_utf8(self.sha256@),
            nonce: text_bytes(self.nonce),
            deadline: self.deadline as nat,
        }
    }
}

impl View for MintPermitJson {
    type V = PermitJsonView;

    open spec fn view(&self) -> PermitJsonView {
        PermitJsonView {
            to: self.to@,
            uri_hash: self.uri_hash@,
            art_hash: self.art_hash@,
            nonce: self.nonce@,
            deadline: self.deadline@,
        }
    }
}

impl View for ValidateResp {
    type V = ResponseView;

    open spec fn view(&self) -> ResponseView {
        ResponseView { permit: self.permit@, signature: self.signature@, validator: self.validator@ }
    }
}

impl View for AppState {
    type V = StateView;

    open spec fn view(&self) -> StateView {
        StateView {
            allowlist: self.allowlist@,
            seen: self.seen_hashes@,
            nonces: self.nonces@,
            key: self.signer.key(),
            validator: self.signer.spec_address()@,
            domain: self.domain@,
        }
    }
}

/// A result with its response as characters.
pub open spec fn result_view(result: Result<ValidateResp, MinerError>) -> Result<
    ResponseView,
    MinerError,
> {
    match result {
        Ok(response) => Ok(response@),
        Err(error) => Err(error),
    }
}

/// The three values that every request must name in a form that can be read:
/// creator, recipient and fingerprint.
pub open spec fn identities(req: RequestView) -> Option<(Seq<u8>, Seq<u8>, Seq<u8>)> {
    match (address_text_value(req.creator), address_text_value(req.to), h256_text_value(req.sha256)) {
        (Some(creator), Some(to), Some(art_hash)) => Some((creator, to, art_hash)),
        _ => None,
    }
}

/// The nonce that a request asks for: a number of its own, or none, which
/// asks for the recipient's next one. Text that writes no number below 2^256
/// is an error.
pub open spec fn requested_nonce(text: Option<Seq<u8>>) -> Result<Option<nat>, MinerError> {
    match text {
        None => Ok(None),
        Some(digits) => match dec_decoding(digits, U256::limit()) {
            Some(n) => Ok(Some(n)),
            None => Err(MinerError::MalformedInput),
        },
    }
}

/// How a permit is shown.
pub open spec fn permit_json(permit: PermitView) -> PermitJsonView {
    PermitJsonView {
        to: prefixed_hex(permit.to),
        uri_hash: prefixed_hex(permit.uri_hash),
        art_hash: prefixed_hex(permit.art_hash),
        nonce: dec_encoding(permit.nonce),
        deadline: dec_encoding(permit.deadline),
    }
}

/// What the caller gets once signing was tried: the permit with signature and
/// signer where there is a signature, else a signing failure.
pub open spec fn response_to(permit: PermitView, signed: Option<(Seq<u8>, Seq<u8>)>) -> Result<
    ResponseView,
    MinerError,
> {
    match signed {
        Some((signature, validator)) => Ok(
            ResponseView {
                permit: permit_json(permit),
                signature: prefixed_hex(signature),
                validator: prefixed_hex(validator),
            },
        ),
        None => Err(MinerError::SigningFailure),
    }
}

/// What the checks find in a request that passes them: the recipient, the
/// fingerprint, and the nonce where the request names one.
pub struct Admission {
    pub to: Seq<u8>,
    pub art_hash: Seq<u8>,
    pub explicit_nonce: Option<nat>,
}

/// The checks of a request, in their order: its identities can be read, its
/// creator is on the allowlist, its fingerprint was not seen, and its nonce,
/// where it names one, can be read. The first that fails gives the error.
pub open spec fn checked(state: StateView, req: RequestView) -> Result<Admission, MinerError> {
    match identities(req) {
        None => Err(MinerError::MalformedInput),
        Some((creator, to, art_hash)) => {
            if !state.allowlist.contains(creator) {
                Err(MinerError::NotAuthorized)
            } else if state.seen.contains(art_hash) {
                Err(MinerError::DuplicateContent)
            } else {
                match requested_nonce(req.nonce) {
                    Err(error) => Err(error),
                    Ok(explicit_nonce) => Ok(Admission { to, art_hash, explicit_nonce }),
                }
            }
        },
    }
}

/// The nonce of the permit: the one that the request names, else the
/// recipient's next.
pub open spec fn resolved_nonce(nonces: Map<Seq<u8>, nat>, admission: Admission) -> nat {
    match admission.explicit_nonce {
        Some(n) => n,
        None => next_nonce_of(nonces, admission.to),
    }
}

/// The state once a request has passed the checks: its fingerprint is seen,
/// and its recipient's count is one up unless the request named its nonce.
pub open spec fn recorded(state: StateView, admission: Admission) -> StateView {
    StateView {
        seen: admitted(state.seen, admission.art_hash),
        nonces: match admission.explicit_nonce {
            Some(_) => state.nonces,
            None => issued(state.nonces, admission.to),
        },
        ..state
    }
}

/// The permit that is signed for a request that has passed the checks.
pub open spec fn permit_for(state: StateView, req: RequestView, admission: Admission) -> PermitView {
    PermitView {
        to: admission.to,
        uri_hash: keccak256_hash(req.uri)@,
        art_hash: admission.art_hash,
        nonce: resolved_nonce(state.nonces, admission),
        deadline: req.deadline,
    }
}

/// What the caller gets for a permit once it went to the signer: the permit
/// with the signature over its digest in the state's domain, or a signing
/// failure.
pub open spec fn signing(state: StateView, permit: PermitView) -> Result<ResponseView, MinerError> {
    let digest = permit_digest(permit, state.domain);
    let signed = match key_signature(state.key, digest@) {
        Some(signature) => Some((signature@, state.validator)),
        None => None,
    };
    response_to(permit, signed)
}

/// What a request leads to in a state. A request that fails a check leaves
/// the state as it is. One that passes them is recorded, and then signed: what
/// was recorded stays, whatever comes of the signing.
pub open spec fn validation(state: StateView, req: RequestView) -> Outcome {
    match checked(state, req) {
        Err(error) => Outcome { state, result: Err(error) },
        Ok(admission) => Outcome {
            state: recorded(state, admission),
            result: signing(state, permit_for(state, req, admission)),
        },
    }
}

/// Whether the nonce that a request may need can be issued: a request without
/// a nonce of its own needs its recipient's count to be below the largest
/// number.
pub open spec fn can_issue(state: StateView, req: RequestView) -> bool {
    req.nonce is None ==> match address_text_value(req.to) {
        Some(to) => next_nonce_of(state.nonces, to) + 1 < U256::limit(),
        None => true,
    }
}

/// Reads creator, recipient and fingerprint.
pub fn read_identities(req: &ValidateReq) -> (r: Result<(Address, Address, H256), MinerError>)
    ensures
        match r {
            Ok((creator, to, art_hash)) => identities(req@) == Some((creator@, to@, art_hash@)),
            Err(error) => identities(req@) is None && error == MinerError::MalformedInput,
        },
{
    let creator = match Address::parse(req.creator.as_str()) {
        Some(address) => address,
        None => return Err(MinerError::MalformedInput),
    };
    let to = match Address::parse(req.to.as_str()) {
        Some(address) => address,
        None => return Err(MinerError::MalformedInput),
    };
    match parse_h256(req.sha256.as_str()) {
        Some(art_hash) => Ok((creator, to, art_hash)),
        None => Err(MinerError::MalformedInput),
    }
}

/// Reads the nonce that a request asks for.
pub fn read_nonce(text: &Option<String>) -> (r: Result<Option<U256>, MinerError>)
    ensures
        requested_nonce(text_bytes(*text)) == match r {
            Ok(Some(n)) => Ok(Some(n@)),
            Ok(None) => Ok(None),
            Err(error) => Err(error),
        },
{
    match text {
        None => Ok(None),
        Some(digits) => match U256::from_dec_str(digits.as_str()) {
            Some(n) => Ok(Some(n)),
            None => Err(MinerError::MalformedInput),
        },
    }
}

/// Shows a permit.
pub fn show_permit(permit: &MintPermit) -> (r: MintPermitJson)
    ensures
        r@ == permit_json(permit@),
{
    MintPermitJson {
        to: permit.to.to_hex(),
        uri_hash: permit.uri_hash.to_hex(),
        art_hash: permit.art_hash.to_hex(),
        nonce: permit.nonce.to_dec_string(),
        deadline: permit.deadline.to_dec_string(),
    }
}

/// What the caller gets once signing was tried, whatever came of it.
pub fn respond(permit: &MintPermit, signed: Option<(Signature, Address)>) -> (r: Result<
    ValidateResp,
    MinerError,
>)
    ensures
        result_view(r) == response_to(
            permit@,
            match signed {
                Some((signature, validator)) => Some((signature@, validator@)),
                None => None,
            },
        ),
{
    match signed {
        Some((signature, validator)) => Ok(
            ValidateResp {
                permit: show_permit(permit),
                signature: signature.to_hex(),
                validator: validator.to_hex(),
            },
        ),
        None => Err(MinerError::SigningFailure),
    }
}

impl AppState {
    /// A state in which nothing was seen and no nonce issued.
    pub fn new(allowlist: Allowlist, signer: Signer, domain: SigningDomain) -> (r: AppState)
        ensures
            r@ == (StateView {
                allowlist: allowlist@,
                seen: Set::<Seq<u8>>::empty(),
                nonces: Map::<Seq<u8>, nat>::empty(),
                key: signer.key(),
                validator: signer.spec_address()@,
                domain: domain@,
            }),
    {
        AppState {
            seen_hashes: DedupStore::new(),
            allowlist,
            nonces: NonceBook::new(),
            signer,
            domain,
        }
    }

    /// Whether the nonce that a request may need can be issued.
    pub fn has_room(&self, req: &ValidateReq) -> (r: bool)
        ensures
            r == can_issue(self@, req@),
    {
        if req.nonce.is_some() {
            return true;
        }
        match Address::parse(req.to.as_str()) {
            Some(to) => !self.nonces.peek(&to).is_max(),
            None => true,
        }
    }

    /// Takes a request through the checks and, where it passes them, records
    /// it: the fingerprint is admitted and the nonce is issued unless the
    /// request names its own. Gives the permit that is to be signed. A request
    /// that fails a check changes nothing.
    pub fn record(&mut self, req: &ValidateReq) -> (res: Result<MintPermit, MinerError>)
        requires
            can_issue(old(self)@, req@),
        ensures
            match checked(old(self)@, req@) {
                Ok(admission) => {
                    &&& final(self)@ == recorded(old(self)@, admission)
                    &&& res is Ok
                    &&& res->Ok_0@ == permit_for(old(self)@, req@, admission)
                },
                Err(error) => final(self)@ == old(self)@ && res is Err && res->Err_0 == error,
            },
    {
        let (creator, to, art_hash) = match read_identities(req) {
            Ok(read) => read,
            Err(error) => return Err(error),
        };
        let uri_hash = H256(keccak256(req.uri.as_str().as_bytes()));
        let deadline = U256::from_u64(req.deadline);
        if !self.allowlist.is_allowed(&creator) {
            return Err(MinerError::NotAuthorized);
        }
        let explicit = match read_nonce(&req.nonce) {
            Ok(explicit) => explicit,
            Err(error) => {
                // A fingerprint that was seen is reported before a nonce that
                // cannot be read, and nothing is recorded for either.
                if self.seen_hashes.contains(&art_hash) {
                    return Err(MinerError::DuplicateContent);
                }
                return Err(error);
            },
        };
        if !self.seen_hashes.admit_fingerprint(&art_hash) {
            assert(self.seen_hashes@ =~= old(self).seen_hashes@);
            return Err(MinerError::DuplicateContent);
        }
        let nonce = match explicit {
            Some(n) => n,
            None => self.nonces.next_nonce(&to),
        };
        Ok(MintPermit { to, uri_hash, art_hash, nonce, deadline })
    }

    /// Signs a permit in the state's domain and shows it with its signature.
    /// Nothing in the state changes.
    pub fn sign_permit(&self, permit: &MintPermit) -> (res: Result<ValidateResp, MinerError>)
        ensures
            result_view(res) == signing(self@, permit@),
    {
        let digest = build_digest(permit, &self.domain);
        let signed = self.signer.sign(&digest);
        respond(permit, signed)
    }

    /// Validates a request and signs the permit for it.
    pub fn validate(&mut self, req: &ValidateReq) -> (res: Result<ValidateResp, MinerError>)
        requires
            can_issue(old(self)@, req@),
        ensures
            validation(old(self)@, req@) == (Outcome { state: final(self)@, result: result_view(res) }),
    {
        match self.record(req) {
            Ok(permit) => self.sign_permit(&permit),
            Err(error) => Err(error),
        }
    }

    /// Validates a request as `validate` does, where the nonce that it may
    /// need can be issued. Where it cannot, nothing is done and there is no
    /// result.
    pub fn try_validate(&mut self, req: &ValidateReq) -> (res: Option<
        Result<ValidateResp, MinerError>,
    >)
        ensures
            match res {
                Some(result) => can_issue(old(self)@, req@) && validation(old(self)@, req@) == (
                Outcome { state: final(self)@, result: result_view(result) }),
                None => !can_issue(old(self)@, req@) && *final(self) == *old(self),
            },
    {
        if self.has_room(req) {
            Some(self.validate(req))
        } else {
            None
        }
    }
}

} // verus!
