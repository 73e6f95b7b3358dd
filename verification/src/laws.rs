//! What holds of the registries, the digest and the validator, whatever the
//! requests and in whatever order they come.
//!
//! The methods that change a registry take it by `&mut`, so calls on one
//! registry never overlap: callers that run side by side are served one
//! after the other, in some order. The laws below therefore speak of calls in
//! a row.

use vstd::prelude::*;
use vstd::utf8::{encode_utf8, encode_utf8_decode_utf8};
use crate::bigend::{lemma_be_bytes_len, lemma_be_value_of_bytes};
use crate::error::MinerError;
use crate::keccak::{keccak256_collision, keccak256_hash};
use crate::permit::{
    address_word, digest_input, digest_preimage, domain_encoding, domain_separator,
    domain_type_text, domain_words, permit_digest, permit_encoding, permit_hash, permit_type_text,
    permit_words, uint_word, DomainView, PermitView,
};
use crate::store::{admits, admitted, issued, next_nonce_of};
use crate::types::U256;
use crate::validate::{
    checked, identities, permit_for, validation, Admission, RequestView, ResponseView, StateView,
};

verus! {

/// A fingerprint is admitted at most once: offered a second time it is
/// refused and the store stays as it is. Of two offers of a fingerprint that
/// was not seen before, exactly the first succeeds.
pub proof fn lemma_admitted_once(seen: Set<Seq<u8>>, fingerprint: Seq<u8>)
    ensures
        !admits(admitted(seen, fingerprint), fingerprint),
        admitted(admitted(seen, fingerprint), fingerprint) == admitted(seen, fingerprint),
        !seen.contains(fingerprint) ==> admits(seen, fingerprint),
{
}

/// Admitting one fingerprint decides nothing about another.
pub proof fn lemma_admission_is_per_fingerprint(seen: Set<Seq<u8>>, one: Seq<u8>, other: Seq<u8>)
    requires
        one != other,
    ensures
        admits(admitted(seen, one), other) == admits(seen, other),
{
}

/// The table after `n` nonces in a row were issued to one recipient.
pub open spec fn issued_times(table: Map<Seq<u8>, nat>, recipient: Seq<u8>, n: nat) -> Map<
    Seq<u8>,
    nat,
>
    decreases n,
{
    if n == 0 {
        table
    } else {
        issued(issued_times(table, recipient, (n - 1) as nat), recipient)
    }
}

/// The nonces that `n` issues in a row give one recipient, in the order of
/// the issues.
pub open spec fn nonces_issued(table: Map<Seq<u8>, nat>, recipient: Seq<u8>, n: nat) -> Seq<nat> {
    Seq::new(n, |i: int| next_nonce_of(issued_times(table, recipient, i as nat), recipient))
}

/// The count of a recipient after `n` issues is `n` above the count before,
/// and no other recipient's count has changed.
pub proof fn lemma_issued_times(table: Map<Seq<u8>, nat>, recipient: Seq<u8>, n: nat)
    ensures
        next_nonce_of(issued_times(table, recipient, n), recipient) == next_nonce_of(
            table,
            recipient,
        ) + n,
        forall|other: Seq<u8>|
            other != recipient ==> next_nonce_of(issued_times(table, recipient, n), other)
                == next_nonce_of(table, other),
    decreases n,
{
    if n > 0 {
        lemma_issued_times(table, recipient, (n - 1) as nat);
    }
}

/// `n` issues in a row to a recipient whose count stands at `k` give it the
/// nonces `k`, `k + 1`, ... `k + n - 1`, each once.
pub proof fn lemma_nonces_run_without_gap(table: Map<Seq<u8>, nat>, recipient: Seq<u8>, n: nat)
    ensures
        nonces_issued(table, recipient, n).len() == n,
        forall|i: int|
            0 <= i < n ==> #[trigger] nonces_issued(table, recipient, n)[i] == next_nonce_of(
                table,
                recipient,
            ) + i,
        forall|i: int, j: int|
            0 <= i < j < n ==> #[trigger] nonces_issued(table, recipient, n)[i]
                < #[trigger] nonces_issued(table, recipient, n)[j],
        nonces_issued(table, recipient, n).to_set() == Set::new(
            |nonce: nat|
                next_nonce_of(table, recipient) <= nonce < next_nonce_of(table, recipient) + n,
        ),
{
    let run = nonces_issued(table, recipient, n);
    let first = next_nonce_of(table, recipient);
    assert forall|i: int| 0 <= i < n implies #[trigger] run[i] == first + i by {
        lemma_issued_times(table, recipient, i as nat);
    }
    assert forall|nonce: nat| first <= nonce < first + n implies run.to_set().contains(nonce) by {
        assert(run[nonce - first] == nonce);
    }
}

/// An issue to one recipient leaves the next nonce of every other as it was.
pub proof fn lemma_issue_is_per_recipient(table: Map<Seq<u8>, nat>, one: Seq<u8>, other: Seq<u8>)
    requires
        one != other,
    ensures
        next_nonce_of(issued(table, one), other) == next_nonce_of(table, other),
        next_nonce_of(issued(table, one), one) == next_nonce_of(table, one) + 1,
{
}

/// Two concatenations that are equal and whose first parts are equally long
/// have equal parts.
proof fn lemma_equal_parts(a: Seq<u8>, b: Seq<u8>, c: Seq<u8>, d: Seq<u8>)
    requires
        a.len() == c.len(),
        a + b == c + d,
    ensures
        a == c,
        b == d,
{
    assert(a =~= (a + b).subrange(0, a.len() as int));
    assert(c =~= (c + d).subrange(0, c.len() as int));
    assert(b =~= (a + b).subrange(a.len() as int, (a + b).len() as int));
    assert(d =~= (c + d).subrange(c.len() as int, (c + d).len() as int));
}

proof fn lemma_address_word_injective(a: Seq<u8>, b: Seq<u8>)
    requires
        address_word(a) == address_word(b),
    ensures
        a == b,
{
    lemma_equal_parts(Seq::new(12, |i: int| 0u8), a, Seq::new(12, |i: int| 0u8), b);
}

proof fn lemma_uint_word_injective(m: nat, n: nat)
    requires
        m < U256::limit(),
        n < U256::limit(),
        uint_word(m) == uint_word(n),
    ensures
        m == n,
{
    lemma_be_value_of_bytes(m, 32);
    lemma_be_value_of_bytes(n, 32);
}

/// Different permits have different words: no two permits are encoded alike.
pub proof fn lemma_permit_words_injective(type_hash: Seq<u8>, p: PermitView, q: PermitView)
    requires
        p.wf(),
        q.wf(),
        permit_words(type_hash, p) == permit_words(type_hash, q),
    ensures
        p == q,
{
    lemma_be_bytes_len(p.nonce, 32);
    lemma_be_bytes_len(q.nonce, 32);
    lemma_be_bytes_len(p.deadline, 32);
    lemma_be_bytes_len(q.deadline, 32);
    let p_to = type_hash + address_word(p.to);
    let q_to = type_hash + address_word(q.to);
    let p_uri = p_to + p.uri_hash;
    let q_uri = q_to + q.uri_hash;
    let p_art = p_uri + p.art_hash;
    let q_art = q_uri + q.art_hash;
    let p_nonce = p_art + uint_word(p.nonce);
    let q_nonce = q_art + uint_word(q.nonce);
    lemma_equal_parts(p_nonce, uint_word(p.deadline), q_nonce, uint_word(q.deadline));
    lemma_equal_parts(p_art, uint_word(p.nonce), q_art, uint_word(q.nonce));
    lemma_equal_parts(p_uri, p.art_hash, q_uri, q.art_hash);
    lemma_equal_parts(p_to, p.uri_hash, q_to, q.uri_hash);
    lemma_equal_parts(type_hash, address_word(p.to), type_hash, address_word(q.to));
    lemma_address_word_injective(p.to, q.to);
    lemma_uint_word_injective(p.nonce, q.nonce);
    lemma_uint_word_injective(p.deadline, q.deadline);
}

/// Domains with the same words have the same chain, the same contract and
/// the same hashes of name and version.
pub proof fn lemma_domain_words_injective(
    type_hash: Seq<u8>,
    name_hash: Seq<u8>,
    version_hash: Seq<u8>,
    chain_id: nat,
    verifying_contract: Seq<u8>,
    other_name_hash: Seq<u8>,
    other_version_hash: Seq<u8>,
    other_chain_id: nat,
    other_verifying_contract: Seq<u8>,
)
    requires
        name_hash.len() == other_name_hash.len(),
        version_hash.len() == other_version_hash.len(),
        chain_id < U256::limit(),
        other_chain_id < U256::limit(),
        domain_words(type_hash, name_hash, version_hash, chain_id, verifying_contract)
            == domain_words(
            type_hash,
            other_name_hash,
            other_version_hash,
            other_chain_id,
            other_verifying_contract,
        ),
    ensures
        name_hash == other_name_hash,
        version_hash == other_version_hash,
        chain_id == other_chain_id,
        verifying_contract == other_verifying_contract,
{
    lemma_be_bytes_len(chain_id, 32);
    lemma_be_bytes_len(other_chain_id, 32);
    let name = type_hash + name_hash;
    let other_name = type_hash + other_name_hash;
    let version = name + version_hash;
    let other_version = other_name + other_version_hash;
    let chain = version + uint_word(chain_id);
    let other_chain = other_version + uint_word(other_chain_id);
    lemma_equal_parts(
        chain,
        address_word(verifying_contract),
        other_chain,
        address_word(other_verifying_contract),
    );
    lemma_equal_parts(version, uint_word(chain_id), other_version, uint_word(other_chain_id));
    lemma_equal_parts(name, version_hash, other_name, other_version_hash);
    lemma_equal_parts(type_hash, name_hash, type_hash, other_name_hash);
    lemma_address_word_injective(verifying_contract, other_verifying_contract);
    lemma_uint_word_injective(chain_id, other_chain_id);
}

/// Hashes that differ have bytes that differ.
proof fn lemma_hash_views_differ(a: [u8; 32], b: [u8; 32])
    requires
        a != b,
    ensures
        a@ != b@,
{
    if a@ == b@ {
        assert(a =~= b);
    }
}

proof fn lemma_digest_input_injective(
    separator: [u8; 32],
    struct_hash: [u8; 32],
    other_separator: [u8; 32],
    other_struct_hash: [u8; 32],
)
    requires
        separator != other_separator || struct_hash != other_struct_hash,
    ensures
        digest_input(separator@, struct_hash@) != digest_input(
            other_separator@,
            other_struct_hash@,
        ),
{
    if digest_input(separator@, struct_hash@) == digest_input(other_separator@, other_struct_hash@) {
        let head = seq![0x19u8, 0x01u8];
        lemma_equal_parts(
            head + separator@,
            struct_hash@,
            head + other_separator@,
            other_struct_hash@,
        );
        lemma_equal_parts(head, separator@, head, other_separator@);
        if separator != other_separator {
            lemma_hash_views_differ(separator, other_separator);
        } else {
            lemma_hash_views_differ(struct_hash, other_struct_hash);
        }
    }
}

/// In one domain, two permits that differ in any member have different
/// digests, unless Keccak-256 gives two different inputs one hash: the two
/// permits' encodings, or the two inputs of the last hash.
pub proof fn lemma_digest_tells_permits_apart(p: PermitView, q: PermitView, domain: DomainView)
    requires
        p.wf(),
        q.wf(),
        p != q,
        !keccak256_collision(permit_encoding(p), permit_encoding(q)),
        !keccak256_collision(digest_preimage(p, domain), digest_preimage(q, domain)),
    ensures
        permit_digest(p, domain) != permit_digest(q, domain),
{
    if permit_encoding(p) == permit_encoding(q) {
        lemma_permit_words_injective(keccak256_hash(permit_type_text())@, p, q);
    }
    lemma_digest_input_injective(
        domain_separator(domain),
        permit_hash(p),
        domain_separator(domain),
        permit_hash(q),
    );
}

/// For one permit, two domains that differ in name, version, chain or
/// contract give different digests, unless Keccak-256 gives two different
/// inputs one hash: the two names, the two versions, the two domains'
/// encodings, or the two inputs of the last hash.
pub proof fn lemma_digest_tells_domains_apart(permit: PermitView, d: DomainView, e: DomainView)
    requires
        d.wf(),
        e.wf(),
        d != e,
        !keccak256_collision(encode_utf8(d.name), encode_utf8(e.name)),
        !keccak256_collision(encode_utf8(d.version), encode_utf8(e.version)),
        !keccak256_collision(domain_encoding(d), domain_encoding(e)),
        !keccak256_collision(digest_preimage(permit, d), digest_preimage(permit, e)),
    ensures
        permit_digest(permit, d) != permit_digest(permit, e),
{
    if domain_encoding(d) == domain_encoding(e) {
        lemma_domain_words_injective(
            keccak256_hash(domain_type_text())@,
            keccak256_hash(encode_utf8(d.name))@,
            keccak256_hash(encode_utf8(d.version))@,
            d.chain_id,
            d.verifying_contract,
            keccak256_hash(encode_utf8(e.name))@,
            keccak256_hash(encode_utf8(e.version))@,
            e.chain_id,
            e.verifying_contract,
        );
        if keccak256_hash(encode_utf8(d.name)) != keccak256_hash(encode_utf8(e.name)) {
            lemma_hash_views_differ(
                keccak256_hash(encode_utf8(d.name)),
                keccak256_hash(encode_utf8(e.name)),
            );
        }
        if keccak256_hash(encode_utf8(d.version)) != keccak256_hash(encode_utf8(e.version)) {
            lemma_hash_views_differ(
                keccak256_hash(encode_utf8(d.version)),
                keccak256_hash(encode_utf8(e.version)),
            );
        }
        encode_utf8_decode_utf8(d.name);
        encode_utf8_decode_utf8(e.name);
        encode_utf8_decode_utf8(d.version);
        encode_utf8_decode_utf8(e.version);
        assert(d == e);
    }
    lemma_digest_input_injective(
        domain_separator(d),
        permit_hash(permit),
        domain_separator(e),
        permit_hash(permit),
    );
}

/// A request that is refused for its input, its creator or its fingerprint
/// leaves the state as it was: only a request that has passed every check
/// is recorded, and only such a request can fail at signing.
pub proof fn lemma_refusal_changes_nothing(state: StateView, req: RequestView)
    ensures
        checked(state, req) is Err ==> validation(state, req).state == state,
        checked(state, req) is Err ==> validation(state, req).result is Err,
        checked(state, req) is Err <==> (validation(state, req).result is Err && validation(
            state,
            req,
        ).result != Err::<ResponseView, MinerError>(MinerError::SigningFailure)),
{
}

/// A permit is signed only for a request whose creator is on the allowlist
/// and whose fingerprint was not seen before; afterwards the fingerprint is
/// seen.
pub proof fn lemma_signed_only_after_checks(state: StateView, req: RequestView)
    requires
        validation(state, req).result is Ok,
    ensures
        match identities(req) {
            Some((creator, _, art_hash)) => {
                &&& state.allowlist.contains(creator)
                &&& !state.seen.contains(art_hash)
                &&& validation(state, req).state.seen.contains(art_hash)
            },
            None => false,
        },
{
}

/// No request changes the allowlist, the signer or the domain.
pub proof fn lemma_validation_keeps_configuration(state: StateView, req: RequestView)
    ensures
        validation(state, req).state.allowlist == state.allowlist,
        validation(state, req).state.key == state.key,
        validation(state, req).state.validator == state.validator,
        validation(state, req).state.domain == state.domain,
{
}

/// The state after a run of requests, served one after the other.
pub open spec fn state_after(state: StateView, requests: Seq<RequestView>) -> StateView
    decreases requests.len(),
{
    if requests.len() == 0 {
        state
    } else {
        validation(state_after(state, requests.drop_last()), requests.last()).state
    }
}

/// What the checks find for the request at `i` of a run, in the state that
/// the requests before it have left.
pub open spec fn checked_at(state: StateView, requests: Seq<RequestView>, i: int) -> Result<
    Admission,
    MinerError,
> {
    checked(state_after(state, requests.take(i)), requests[i])
}

/// The recipient to which the request at `i` of a run has a nonce issued, if
/// it has: the request passes the checks and names no nonce of its own.
pub open spec fn issue_at(state: StateView, requests: Seq<RequestView>, i: int) -> Option<Seq<u8>> {
    match checked_at(state, requests, i) {
        Ok(admission) => if admission.explicit_nonce is None {
            Some(admission.to)
        } else {
            None
        },
        Err(_) => None,
    }
}

/// How many requests of a run have a nonce issued to `recipient`.
pub open spec fn issues_to(state: StateView, requests: Seq<RequestView>, recipient: Seq<u8>) -> nat
    decreases requests.len(),
{
    if requests.len() == 0 {
        0
    } else {
        let before = issues_to(state, requests.drop_last(), recipient);
        if issue_at(state, requests, requests.len() - 1) == Some(recipient) {
            before + 1
        } else {
            before
        }
    }
}

/// A fingerprint that was seen stays seen, whatever requests follow.
pub proof fn lemma_fingerprints_stay(state: StateView, requests: Seq<RequestView>, from: int)
    requires
        0 <= from <= requests.len(),
    ensures
        state_after(state, requests.take(from)).seen.subset_of(state_after(state, requests).seen),
    decreases requests.len(),
{
    if from == requests.len() {
        assert(requests.take(from) =~= requests);
    } else {
        let head = requests.drop_last();
        lemma_fingerprints_stay(state, head, from);
        assert(head.take(from) =~= requests.take(from));
    }
}

/// No fingerprint passes the checks twice: of the requests of a run, in
/// whatever state it starts, no two that pass have the same fingerprint.
pub proof fn lemma_no_fingerprint_passes_twice(
    state: StateView,
    requests: Seq<RequestView>,
    i: int,
    j: int,
)
    requires
        0 <= i < j < requests.len(),
        checked_at(state, requests, i) is Ok,
        checked_at(state, requests, j) is Ok,
    ensures
        checked_at(state, requests, i)->Ok_0.art_hash != checked_at(state, requests, j)->Ok_0.art_hash,
{
    let upto = requests.take(j);
    let fingerprint = checked_at(state, requests, i)->Ok_0.art_hash;
    assert(requests.take(i + 1).drop_last() =~= requests.take(i));
    assert(state_after(state, requests.take(i + 1)).seen.contains(fingerprint));
    lemma_fingerprints_stay(state, upto, i + 1);
    assert(upto.take(i + 1) =~= requests.take(i + 1));
}

/// After a run, the next nonce of a recipient is above what it was by the
/// number of requests that had a nonce issued to it.
pub proof fn lemma_next_nonce_counts_issues(
    state: StateView,
    requests: Seq<RequestView>,
    recipient: Seq<u8>,
)
    ensures
        next_nonce_of(state_after(state, requests).nonces, recipient) == next_nonce_of(
            state.nonces,
            recipient,
        ) + issues_to(state, requests, recipient),
    decreases requests.len(),
{
    if requests.len() > 0 {
        lemma_next_nonce_counts_issues(state, requests.drop_last(), recipient);
    }
}

/// The number of issues to a recipient does not fall as a run goes on, and
/// is one up after a request that has a nonce issued to it.
pub proof fn lemma_issues_grow(
    state: StateView,
    requests: Seq<RequestView>,
    recipient: Seq<u8>,
    i: int,
    j: int,
)
    requires
        0 <= i <= j <= requests.len(),
    ensures
        issues_to(state, requests.take(i), recipient) <= issues_to(
            state,
            requests.take(j),
            recipient,
        ),
        i < j && issue_at(state, requests, i) == Some(recipient) ==> issues_to(
            state,
            requests.take(i),
            recipient,
        ) < issues_to(state, requests.take(j), recipient),
    decreases j - i,
{
    if i < j {
        lemma_issues_grow(state, requests, recipient, i, j - 1);
        assert(requests.take(j).take(j - 1) =~= requests.take(j - 1));
    }
}

/// The nonce of the permit that is built for the request at `i` of a run,
/// where the request passes the checks.
pub open spec fn nonce_at(state: StateView, requests: Seq<RequestView>, i: int) -> nat {
    permit_for(
        state_after(state, requests.take(i)),
        requests[i],
        checked_at(state, requests, i)->Ok_0,
    ).nonce
}

/// The nonces that a run issues to one recipient run on from its next nonce
/// without a gap: a request that has a nonce issued carries the recipient's
/// next nonce at the start of the run plus the number of issues to the
/// recipient before it. So the first issue of a fresh state carries zero, and
/// of two issues to one recipient the later carries the greater nonce.
pub proof fn lemma_issued_nonces_run_on(
    state: StateView,
    requests: Seq<RequestView>,
    recipient: Seq<u8>,
    i: int,
    j: int,
)
    requires
        0 <= i < j < requests.len(),
        issue_at(state, requests, i) == Some(recipient),
        issue_at(state, requests, j) == Some(recipient),
    ensures
        nonce_at(state, requests, i) == next_nonce_of(state.nonces, recipient) + issues_to(
            state,
            requests.take(i),
            recipient,
        ),
        nonce_at(state, requests, j) == next_nonce_of(state.nonces, recipient) + issues_to(
            state,
            requests.take(j),
            recipient,
        ),
        nonce_at(state, requests, i) < nonce_at(state, requests, j),
{
    lemma_next_nonce_counts_issues(state, requests.take(i), recipient);
    lemma_next_nonce_counts_issues(state, requests.take(j), recipient);
    lemma_issues_grow(state, requests, recipient, i, j);
}

} // verus!
