use hermes_core::engine::ingest;
use hermes_core::store::{InsertOutcome, PriceStore};
use hermes_core::codec::{decode_and_verify, Attestation, CodecError, UpdatePayload, SUPPORTED_VERSION};
use hermes_core::governance::{DataSource, GovernanceAction, GovernanceError, GovernanceState, GuardianSet};
use hermes_core::types::{PriceFeedId, PriceFeedUpdate, PriceUpdate};

fn entry(id: u8, t: i64, ema_t: i64) -> PriceFeedUpdate {
    PriceFeedUpdate::new(
        PriceFeedId::new([id; 32]),
        PriceUpdate { price: 100, conf: 1, expo: -2, publish_time: t },
        PriceUpdate { price: 99, conf: 1, expo: -2, publish_time: ema_t },
        None,
        Some(vec![id]),
        0,
    )
}

fn source() -> DataSource {
    DataSource::new(26, [5; 32])
}

fn governor() -> DataSource {
    DataSource::new(1, [6; 32])
}

fn state() -> GovernanceState {
    GovernanceState::genesis(
        vec![source()],
        governor(),
        GuardianSet { weights: vec![1, 1, 1, 1], quorum: 3, index: 3 },
    )
}

fn att(payload: UpdatePayload) -> Attestation {
    Attestation { version: SUPPORTED_VERSION, emitter: source(), payload }
}

#[test]
fn batch_with_one_bad_entry_is_partly_accepted() {
    let mut gov = state();
    let p = UpdatePayload::Batch(vec![entry(1, 10, 10), entry(2, 10, 9), entry(3, 10, 10), entry(4, 10, 10)]);
    let rep = decode_and_verify(att(p), &mut gov, &vec![true, true, true, false], &vec![]).unwrap();
    assert_eq!(rep.updates.len(), 3);
    assert_eq!(rep.errors, vec![(1usize, CodecError::MalformedPayload)]);
    assert_eq!(rep.updates[1].feed_id.bytes, [3; 32]);
}

#[test]
fn accumulator_proof_failure_rejects_only_that_entry() {
    let mut gov = state();
    let p = UpdatePayload::Accumulator(vec![entry(1, 10, 10), entry(2, 10, 10), entry(3, 10, 10)]);
    let rep = decode_and_verify(att(p), &mut gov, &vec![true; 4], &vec![true, true, false]).unwrap();
    assert_eq!(rep.updates.len(), 2);
    assert_eq!(rep.errors, vec![(2usize, CodecError::ProofVerificationFailed)]);
}

#[test]
fn quorum_not_met_rejects_whole_message() {
    let mut gov = state();
    let p = UpdatePayload::Accumulator(vec![entry(1, 10, 10)]);
    let r = decode_and_verify(att(p), &mut gov, &vec![true, false, true, false], &vec![true]);
    assert_eq!(r.unwrap_err(), CodecError::SignatureQuorumNotMet);
}

#[test]
fn weights_saturate_without_overflow() {
    let mut gov = GovernanceState::genesis(
        vec![source()],
        governor(),
        GuardianSet { weights: vec![u64::MAX, u64::MAX], quorum: u64::MAX, index: 0 },
    );
    let p = UpdatePayload::Batch(vec![entry(1, 10, 10)]);
    assert_eq!(decode_and_verify(att(p), &mut gov, &vec![true, true], &vec![]).unwrap().updates.len(), 1);
}

#[test]
fn signature_count_must_match_guardians() {
    let mut gov = state();
    let p = UpdatePayload::Batch(vec![entry(1, 10, 10)]);
    assert_eq!(decode_and_verify(att(p), &mut gov, &vec![true; 3], &vec![]).unwrap_err(), CodecError::MalformedPayload);
}

#[test]
fn accumulator_needs_one_proof_per_entry() {
    let mut gov = state();
    let p = UpdatePayload::Accumulator(vec![entry(1, 10, 10), entry(2, 10, 10)]);
    assert_eq!(decode_and_verify(att(p), &mut gov, &vec![true; 4], &vec![true]).unwrap_err(), CodecError::MalformedPayload);
}

#[test]
fn unsupported_version_is_refused() {
    let mut gov = state();
    let a = Attestation { version: 2, emitter: source(), payload: UpdatePayload::Batch(vec![]) };
    assert_eq!(decode_and_verify(a, &mut gov, &vec![true; 4], &vec![]).unwrap_err(), CodecError::UnsupportedFormatVersion);
}

#[test]
fn unknown_emitter_is_refused() {
    let mut gov = state();
    let a = Attestation { version: 1, emitter: DataSource::new(26, [8; 32]), payload: UpdatePayload::Batch(vec![]) };
    assert_eq!(decode_and_verify(a, &mut gov, &vec![true; 4], &vec![]).unwrap_err(), CodecError::UnauthorizedDataSource);
}

#[test]
fn governance_message_rotates_sources() {
    let mut gov = state();
    let a = Attestation {
        version: 1,
        emitter: governor(),
        payload: UpdatePayload::Governance(5, GovernanceAction::SetDataSources(vec![DataSource::new(2, [1; 32])])),
    };
    let rep = decode_and_verify(a, &mut gov, &vec![true; 4], &vec![]).unwrap();
    assert!(rep.updates.is_empty() && rep.errors.is_empty());
    assert_eq!(gov.last_sequence, 5);
    assert_eq!(gov.data_sources.len(), 1);
    assert_eq!(gov.data_sources[0].emitter_chain, 2);
    let replay = Attestation {
        version: 1,
        emitter: governor(),
        payload: UpdatePayload::Governance(5, GovernanceAction::SetDataSources(vec![])),
    };
    assert_eq!(decode_and_verify(replay, &mut gov, &vec![true; 4], &vec![]).unwrap_err(), CodecError::StaleGovernanceGeneration);
    assert_eq!(gov.data_sources.len(), 1);
}

#[test]
fn governance_from_other_source_is_refused() {
    let mut gov = state();
    let a = Attestation {
        version: 1,
        emitter: source(),
        payload: UpdatePayload::Governance(1, GovernanceAction::TransferGovernance(source())),
    };
    assert_eq!(decode_and_verify(a, &mut gov, &vec![true; 4], &vec![]).unwrap_err(), CodecError::UnauthorizedGovernanceSource);
    assert_eq!(gov.governance_source.emitter_chain, 1);
}

#[test]
fn guardian_set_upgrade_needs_next_index() {
    let mut gov = state();
    let e = gov.apply_upgrade(&governor(), 1, GovernanceAction::UpgradeGuardianSet(GuardianSet { weights: vec![1], quorum: 1, index: 5 }));
    assert_eq!(e, Err(GovernanceError::InvalidGuardianSetIndex));
    let ok = gov.apply_upgrade(&governor(), 2, GovernanceAction::UpgradeGuardianSet(GuardianSet { weights: vec![1], quorum: 1, index: 4 }));
    assert_eq!(ok, Ok(()));
    assert_eq!(gov.guardian_set.index, 4);
    assert_eq!(gov.last_sequence, 2);
}

#[test]
fn ingest_inserts_accepted_updates() {
    let mut gov = state();
    let mut st = PriceStore::new();
    let p = UpdatePayload::Batch(vec![entry(1, 10, 10), entry(2, 10, 3), entry(1, 20, 20), entry(1, 20, 20)]);
    let rep = ingest(&mut st, att(p), &mut gov, &vec![true; 4], &vec![]).unwrap();
    assert_eq!(rep.outcomes, vec![InsertOutcome::Inserted, InsertOutcome::Superseded, InsertOutcome::Duplicate]);
    assert_eq!(rep.errors, vec![(1usize, CodecError::MalformedPayload)]);
    assert_eq!(st.latest(&PriceFeedId::new([1; 32])).unwrap().price.publish_time, 20);
    assert!(!st.contains(&PriceFeedId::new([2; 32])));
}

#[test]
fn ingest_of_refused_message_changes_nothing() {
    let mut gov = state();
    let mut st = PriceStore::new();
    let p = UpdatePayload::Batch(vec![entry(1, 10, 10)]);
    let r = ingest(&mut st, att(p), &mut gov, &vec![true, false, false, true], &vec![]);
    assert_eq!(r.unwrap_err(), CodecError::SignatureQuorumNotMet);
    assert!(!st.contains(&PriceFeedId::new([1; 32])));
}
