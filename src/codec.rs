use vstd::prelude::*;
use crate::types::{PriceFeedUpdate, PriceFeedUpdateView};
use crate::store::{insert_all, lemma_insert_all_len};
use crate::governance::{DataSource, GovernanceAction, GovernanceError, GovernanceState, upgrade_spec, source_in, source_listed};

verus! {

/// The only wire-format version understood.
pub const SUPPORTED_VERSION: u8 = 1;

/// Why a message, or one of its entries, is refused.
#[derive(Clone, Copy, Debug, PartialEq, Eq, Structural)]
pub enum CodecError {
    MalformedPayload,
    SignatureQuorumNotMet,
    ProofVerificationFailed,
    UnauthorizedGovernanceSource,
    UnauthorizedDataSource,
    UnsupportedFormatVersion,
    StaleGovernanceGeneration,
}

/// The content of an attested message, by wire format.
#[derive(Debug)]
pub enum UpdatePayload {
    /// Snapshots of several feeds, covered by the attestation's signatures.
    Batch(Vec<PriceFeedUpdate>),
    /// Updates each proved against the Merkle root that the attestation signs.
    Accumulator(Vec<PriceFeedUpdate>),
    /// A change of the governance state, with its sequence number.
    Governance(u64, GovernanceAction),
}

/// A message attested by the guardians.
#[derive(Debug)]
pub struct Attestation {
    pub version: u8,
    pub emitter: DataSource,
    pub payload: UpdatePayload,
}

/// What a price message yields: the accepted updates and, for each refused
/// entry, its position and the reason.
#[derive(Debug)]
pub struct DecodeReport {
    pub updates: Vec<PriceFeedUpdate>,
    pub errors: Vec<(usize, CodecError)>,
}

/// The total weight of the guardians that signed.
pub open spec fn signer_weight(weights: Seq<u64>, signed: Seq<bool>) -> int
    decreases weights.len(),
{
    if weights.len() == 0 {
        0
    } else {
        signer_weight(weights.drop_last(), signed) + if signed[weights.len() - 1] {
            weights.last() as int
        } else {
            0
        }
    }
}

/// Why an entry is refused, if it is: the moving average must share the
/// price's publish time, and an accumulator entry's proof must hold.
pub open spec fn entry_verdict(u: PriceFeedUpdateView, accumulator: bool, proof_ok: bool) -> Option<CodecError> {
    if accumulator && !proof_ok {
        Some(CodecError::ProofVerificationFailed)
    } else if u.ema_price.publish_time != u.price.publish_time {
        Some(CodecError::MalformedPayload)
    } else {
        None
    }
}

pub open spec fn verdicts(entries: Seq<PriceFeedUpdateView>, accumulator: bool, proofs: Seq<bool>) -> Seq<Option<CodecError>> {
    Seq::new(entries.len(), |i: int| entry_verdict(entries[i], accumulator, accumulator && proofs[i]))
}

/// The entries without a refusal, in order.
pub open spec fn accepted(entries: Seq<PriceFeedUpdateView>, v: Seq<Option<CodecError>>) -> Seq<PriceFeedUpdateView>
    decreases entries.len(),
{
    if entries.len() == 0 {
        Seq::empty()
    } else {
        let prev = accepted(entries.drop_last(), v);
        if v[entries.len() - 1] is None {
            prev.push(entries.last())
        } else {
            prev
        }
    }
}

/// The refused entries' positions and reasons, in order.
pub open spec fn refused(n: nat, v: Seq<Option<CodecError>>) -> Seq<(usize, CodecError)>
    decreases n,
{
    if n == 0 {
        Seq::empty()
    } else {
        let prev = refused((n - 1) as nat, v);
        match v[n - 1] {
            Some(e) => prev.push(((n - 1) as usize, e)),
            None => prev,
        }
    }
}

pub open spec fn entries_of(p: UpdatePayload) -> Seq<PriceFeedUpdateView> {
    match p {
        UpdatePayload::Batch(v) => v@.map_values(|u: PriceFeedUpdate| u@),
        UpdatePayload::Accumulator(v) => v@.map_values(|u: PriceFeedUpdate| u@),
        UpdatePayload::Governance(_, _) => Seq::empty(),
    }
}

/// The wire format of a price message, and the verdicts on its entries.
pub open spec fn payload_verdicts(p: UpdatePayload, proofs: Seq<bool>) -> Seq<Option<CodecError>> {
    verdicts(entries_of(p), p is Accumulator, proofs)
}

/// The governance error as a codec error.
pub open spec fn governance_error(e: GovernanceError) -> CodecError {
    match e {
        GovernanceError::UnauthorizedGovernanceSource => CodecError::UnauthorizedGovernanceSource,
        GovernanceError::StaleGovernanceGeneration => CodecError::StaleGovernanceGeneration,
        GovernanceError::InvalidGuardianSetIndex => CodecError::MalformedPayload,
    }
}

proof fn lemma_one_refused(entries: Seq<PriceFeedUpdateView>, v: Seq<Option<CodecError>>, j: int)
    requires
        entries.len() <= v.len(),
        0 <= j < v.len(),
        v[j] is Some,
        forall|i: int| 0 <= i < v.len() && i != j ==> v[i] is None,
    ensures
        accepted(entries, v).len() == entries.len() - if j < entries.len() { 1int } else { 0int },
        refused(entries.len(), v).len() == if j < entries.len() { 1int } else { 0int },
    decreases entries.len(),
{
    if entries.len() > 0 {
        lemma_one_refused(entries.drop_last(), v, j);
    }
}

/// A message whose entries all pass but one yields every other entry as an
/// update, each then inserted into any store, and exactly one refusal, for that entry.
pub proof fn law_partial_acceptance(
    entries: Seq<PriceFeedUpdateView>,
    accumulator: bool,
    proofs: Seq<bool>,
    j: int,
    m: Map<Seq<u8>, Seq<PriceFeedUpdateView>>,
)
    requires
        0 <= j < entries.len() <= usize::MAX,
        verdicts(entries, accumulator, proofs)[j] is Some,
        forall|i: int| 0 <= i < entries.len() && i != j ==> (#[trigger] verdicts(entries, accumulator, proofs)[i]) is None,
    ensures
        accepted(entries, verdicts(entries, accumulator, proofs)).len() == entries.len() - 1,
        refused(entries.len(), verdicts(entries, accumulator, proofs)).len() == 1,
        refused(entries.len(), verdicts(entries, accumulator, proofs))[0].0 == j,
        insert_all(m, accepted(entries, verdicts(entries, accumulator, proofs))).0.len() == entries.len() - 1,
{
    let v = verdicts(entries, accumulator, proofs);
    lemma_one_refused(entries, v, j);
    lemma_refused_positions(entries.len(), v);
    lemma_insert_all_len(m, accepted(entries, v));
}

proof fn lemma_refused_positions(n: nat, v: Seq<Option<CodecError>>)
    requires
        n <= v.len(),
        n <= usize::MAX,
    ensures
        forall|k: int| 0 <= k < refused(n, v).len() ==> {
            let p = (#[trigger] refused(n, v)[k]).0 as int;
            0 <= p < n && v[p] == Some(refused(n, v)[k].1)
        },
    decreases n,
{
    if n > 0 {
        let prev = refused((n - 1) as nat, v);
        lemma_refused_positions((n - 1) as nat, v);
        assert forall|k: int| 0 <= k < refused(n, v).len() implies {
            let p = (#[trigger] refused(n, v)[k]).0 as int;
            0 <= p < n && v[p] == Some(refused(n, v)[k].1)
        } by {
            if k < prev.len() {
                assert(refused(n, v)[k] == prev[k]);
            }
        }
    }
}

/// Whether a message is accepted as a whole, and if not, why.
///
/// The signature count must match the guardian set, the signers' weight must
/// reach the quorum, and the version must be supported. A governance message
/// must then be accepted by the governance state; a price message must come
/// from an authorized data source and, in the accumulator format, carry one
/// proof verdict per entry.
pub open spec fn verify_spec(att: Attestation, gov: GovernanceState, signed: Seq<bool>, proofs: Seq<bool>) -> Result<(), CodecError> {
    if signed.len() != gov.guardian_set.weights@.len() {
        Err(CodecError::MalformedPayload)
    } else if signer_weight(gov.guardian_set.weights@, signed) < gov.guardian_set.quorum {
        Err(CodecError::SignatureQuorumNotMet)
    } else if att.version != SUPPORTED_VERSION {
        Err(CodecError::UnsupportedFormatVersion)
    } else {
        match att.payload {
            UpdatePayload::Governance(seq, action) => match upgrade_spec(gov, att.emitter@, seq, action) {
                Ok(_) => Ok(()),
                Err(e) => Err(governance_error(e)),
            },
            _ => if !source_listed(gov.data_sources@, att.emitter@) {
                Err(CodecError::UnauthorizedDataSource)
            } else if att.payload is Accumulator && proofs.len() != entries_of(att.payload).len() {
                Err(CodecError::MalformedPayload)
            } else {
                Ok(())
            },
        }
    }
}

/// A message whose signers' weight is below the quorum is refused as a whole,
/// whatever its entries and their proofs.
pub proof fn law_quorum_enforced(att: Attestation, gov: GovernanceState, signed: Seq<bool>, proofs: Seq<bool>)
    requires
        signed.len() == gov.guardian_set.weights@.len(),
        signer_weight(gov.guardian_set.weights@, signed) < gov.guardian_set.quorum,
    ensures
        verify_spec(att, gov, signed, proofs) == Err::<(), CodecError>(CodecError::SignatureQuorumNotMet),
{
}

/// Adds up the weight of the guardians that signed, saturating at `u64::MAX`.
fn weight_of_signers(weights: &Vec<u64>, signed: &Vec<bool>) -> (r: u64)
    requires
        signed@.len() == weights@.len(),
    ensures
        r as int == if signer_weight(weights@, signed@) > u64::MAX { u64::MAX as int } else { signer_weight(weights@, signed@) },
{
    let mut acc: u64 = 0;
    let mut i: usize = 0;
    while i < weights.len()
        invariant
            0 <= i <= weights@.len(),
            signed@.len() == weights@.len(),
            signer_weight(weights@.subrange(0, i as int), signed@) >= 0,
            acc as int == if signer_weight(weights@.subrange(0, i as int), signed@) > u64::MAX {
                u64::MAX as int
            } else {
                signer_weight(weights@.subrange(0, i as int), signed@)
            },
        decreases weights@.len() - i,
    {
        let ghost before = weights@.subrange(0, i as int);
        assert(weights@.subrange(0, i + 1).drop_last() =~= before);
        if signed[i] {
            acc = acc.saturating_add(weights[i]);
        }
        i = i + 1;
    }
    assert(weights@.subrange(0, i as int) =~= weights@);
    acc
}

/// Checks each entry and keeps those that pass.
fn check_entries(entries: &Vec<PriceFeedUpdate>, accumulator: bool, proofs_ok: &Vec<bool>) -> (r: DecodeReport)
    requires
        accumulator ==> proofs_ok@.len() == entries@.len(),
    ensures
        r.updates@.map_values(|u: PriceFeedUpdate| u@) == accepted(
            entries@.map_values(|u: PriceFeedUpdate| u@),
            verdicts(entries@.map_values(|u: PriceFeedUpdate| u@), accumulator, proofs_ok@),
        ),
        r.errors@ == refused(entries@.len(), verdicts(entries@.map_values(|u: PriceFeedUpdate| u@), accumulator, proofs_ok@)),
{
    let ghost all = entries@.map_values(|u: PriceFeedUpdate| u@);
    let ghost v = verdicts(all, accumulator, proofs_ok@);
    let mut updates: Vec<PriceFeedUpdate> = Vec::new();
    let mut errors: Vec<(usize, CodecError)> = Vec::new();
    let mut i: usize = 0;
    while i < entries.len()
        invariant
            0 <= i <= entries@.len(),
            accumulator ==> proofs_ok@.len() == entries@.len(),
            all == entries@.map_values(|u: PriceFeedUpdate| u@),
            v == verdicts(all, accumulator, proofs_ok@),
            updates@.map_values(|u: PriceFeedUpdate| u@) == accepted(all.subrange(0, i as int), v),
            errors@ == refused(i as nat, v),
        decreases entries@.len() - i,
    {
        let ghost before = all.subrange(0, i as int);
        assert(all.subrange(0, i + 1).drop_last() =~= before);
        assert(all[i as int] == entries@[i as int]@);
        let e = &entries[i];
        let verdict = if accumulator && !proofs_ok[i] {
            Some(CodecError::ProofVerificationFailed)
        } else if e.ema_price.publish_time != e.price.publish_time {
            Some(CodecError::MalformedPayload)
        } else {
            None
        };
        assert(verdict == v[i as int]);
        match verdict {
            Some(err) => {
                errors.push((i, err));
            },
            None => {
                let ghost prev = updates@;
                updates.push(e.duplicate());
                assert(updates@.map_values(|u: PriceFeedUpdate| u@) =~= prev.map_values(|u: PriceFeedUpdate| u@).push(all[i as int]));
            },
        }
        i = i + 1;
    }
    assert(all.subrange(0, i as int) =~= all);
    DecodeReport { updates, errors }
}

/// Verifies an attestation and yields its price updates, or applies its
/// governance change.
///
/// `signed` says, for each guardian of the current set, whether a valid
/// signature of it covers the message; `proofs_ok` says, for each entry of an
/// accumulator message, whether its proof holds against the signed root. Both
/// come from the attestation verifier. The whole message is refused when the
/// signers' weight is below the quorum, its version is not supported or its
/// emitter is not authorized; otherwise each entry is accepted or refused on its own.
pub fn decode_and_verify(
    att: Attestation,
    gov: &mut GovernanceState,
    signed: &Vec<bool>,
    proofs_ok: &Vec<bool>,
) -> (r: Result<DecodeReport, CodecError>)
    ensures
        match verify_spec(att, *old(gov), signed@, proofs_ok@) {
            Err(e) => r == Err::<DecodeReport, CodecError>(e) && *final(gov) == *old(gov),
            Ok(()) => {
                &&& r matches Ok(rep) && {
                    &&& rep.updates@.map_values(|u: PriceFeedUpdate| u@) == accepted(entries_of(att.payload), payload_verdicts(att.payload, proofs_ok@))
                    &&& rep.errors@ == refused(entries_of(att.payload).len(), payload_verdicts(att.payload, proofs_ok@))
                }
                &&& match att.payload {
                    UpdatePayload::Governance(seq, action) => Ok::<GovernanceState, GovernanceError>(*final(gov)) == upgrade_spec(*old(gov), att.emitter@, seq, action),
                    _ => *final(gov) == *old(gov),
                }
            },
        },
{
    if signed.len() != gov.guardian_set.weights.len() {
        return Err(CodecError::MalformedPayload);
    }
    let w = weight_of_signers(&gov.guardian_set.weights, signed);
    if w < gov.guardian_set.quorum {
        return Err(CodecError::SignatureQuorumNotMet);
    }
    if att.version != SUPPORTED_VERSION {
        return Err(CodecError::UnsupportedFormatVersion);
    }
    let Attestation { version: _, emitter, payload } = att;
    match payload {
        UpdatePayload::Governance(seq, action) => {
            match gov.apply_upgrade(&emitter, seq, action) {
                Ok(()) => Ok(DecodeReport { updates: Vec::new(), errors: Vec::new() }),
                Err(GovernanceError::UnauthorizedGovernanceSource) => Err(CodecError::UnauthorizedGovernanceSource),
                Err(GovernanceError::StaleGovernanceGeneration) => Err(CodecError::StaleGovernanceGeneration),
                Err(GovernanceError::InvalidGuardianSetIndex) => Err(CodecError::MalformedPayload),
            }
        },
        UpdatePayload::Batch(entries) => {
            if !source_in(&gov.data_sources, &emitter) {
                return Err(CodecError::UnauthorizedDataSource);
            }
            Ok(check_entries(&entries, false, proofs_ok))
        },
        UpdatePayload::Accumulator(entries) => {
            if !source_in(&gov.data_sources, &emitter) {
                return Err(CodecError::UnauthorizedDataSource);
            }
            if proofs_ok.len() != entries.len() {
                return Err(CodecError::MalformedPayload);
            }
            Ok(check_entries(&entries, true, proofs_ok))
        },
    }
}

} // verus!
