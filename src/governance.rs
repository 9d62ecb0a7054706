use vstd::prelude::*;
use crate::types::bytes32_eq;

verus! {

/// An emitter of attested messages.
#[derive(Clone, Copy, Debug)]
pub struct DataSource {
    pub emitter_chain: u16,
    pub emitter_address: [u8; 32],
}

impl View for DataSource {
    type V = (u16, Seq<u8>);

    open spec fn view(&self) -> (u16, Seq<u8>) {
        (self.emitter_chain, self.emitter_address@)
    }
}

impl DataSource {
    pub fn new(emitter_chain: u16, emitter_address: [u8; 32]) -> (r: DataSource)
        ensures
            r.emitter_chain == emitter_chain,
            r.emitter_address == emitter_address,
    {
        DataSource { emitter_chain, emitter_address }
    }

    pub fn same_as(&self, other: &DataSource) -> (r: bool)
        ensures
            r == (self@ == other@),
    {
        self.emitter_chain == other.emitter_chain && bytes32_eq(&self.emitter_address, &other.emitter_address)
    }
}

pub open spec fn source_listed(sources: Seq<DataSource>, s: (u16, Seq<u8>)) -> bool {
    exists|i: int| 0 <= i < sources.len() && sources[i]@ == s
}

/// Whether `s` is in `sources`.
pub fn source_in(sources: &Vec<DataSource>, s: &DataSource) -> (r: bool)
    ensures
        r == source_listed(sources@, s@),
{
    let mut i: usize = 0;
    while i < sources.len()
        invariant
            0 <= i <= sources@.len(),
            forall|j: int| 0 <= j < i ==> sources@[j]@ != s@,
        decreases sources@.len() - i,
    {
        if sources[i].same_as(s) {
            return true;
        }
        i = i + 1;
    }
    false
}

/// The guardians whose signatures attest messages: the weight of each, the
/// weight that a message needs, and the set's generation.
#[derive(Debug)]
pub struct GuardianSet {
    pub weights: Vec<u64>,
    pub quorum: u64,
    pub index: u32,
}

/// A change of the authorized sources or guardians.
#[derive(Debug)]
pub enum GovernanceAction {
    /// Replace the data sources whose price messages are accepted.
    SetDataSources(Vec<DataSource>),
    /// Replace the guardian set by the next one.
    UpgradeGuardianSet(GuardianSet),
    /// Hand governance to another source.
    TransferGovernance(DataSource),
}

#[derive(Clone, Copy, Debug, PartialEq, Eq, Structural)]
pub enum GovernanceError {
    /// The message does not come from the current governance source.
    UnauthorizedGovernanceSource,
    /// The message's sequence number is not above the last one applied.
    StaleGovernanceGeneration,
    /// A new guardian set must carry the next index.
    InvalidGuardianSetIndex,
}

/// The process-wide authorization state read by every attestation check.
#[derive(Debug)]
pub struct GovernanceState {
    pub data_sources: Vec<DataSource>,
    pub governance_source: DataSource,
    pub last_sequence: u64,
    pub guardian_set: GuardianSet,
}

/// The state after a governance message from `emitter`, or why it is refused.
pub open spec fn upgrade_spec(
    st: GovernanceState,
    emitter: (u16, Seq<u8>),
    sequence: u64,
    action: GovernanceAction,
) -> Result<GovernanceState, GovernanceError> {
    if emitter != st.governance_source@ {
        Err(GovernanceError::UnauthorizedGovernanceSource)
    } else if sequence <= st.last_sequence {
        Err(GovernanceError::StaleGovernanceGeneration)
    } else {
        match action {
            GovernanceAction::SetDataSources(v) => Ok(GovernanceState { data_sources: v, last_sequence: sequence, ..st }),
            GovernanceAction::UpgradeGuardianSet(g) => if g.index as int != st.guardian_set.index as int + 1 {
                Err(GovernanceError::InvalidGuardianSetIndex)
            } else {
                Ok(GovernanceState { guardian_set: g, last_sequence: sequence, ..st })
            },
            GovernanceAction::TransferGovernance(src) => Ok(GovernanceState { governance_source: src, last_sequence: sequence, ..st }),
        }
    }
}

impl GovernanceState {
    /// The state bootstrapped from a configured genesis set.
    pub fn genesis(data_sources: Vec<DataSource>, governance_source: DataSource, guardian_set: GuardianSet) -> (r: GovernanceState)
        ensures
            r.data_sources@ == data_sources@,
            r.governance_source == governance_source,
            r.last_sequence == 0,
            r.guardian_set == guardian_set,
    {
        GovernanceState { data_sources, governance_source, last_sequence: 0, guardian_set }
    }

    /// Applies a governance message from `emitter` with sequence number `sequence`.
    ///
    /// Only the current governance source may change the state, with sequence
    /// numbers that strictly increase; a refused message changes nothing.
    pub fn apply_upgrade(&mut self, emitter: &DataSource, sequence: u64, action: GovernanceAction) -> (r: Result<(), GovernanceError>)
        ensures
            match upgrade_spec(*old(self), emitter@, sequence, action) {
                Ok(s) => r is Ok && *final(self) == s,
                Err(e) => r == Err::<(), GovernanceError>(e) && *final(self) == *old(self),
            },
    {
        if !emitter.same_as(&self.governance_source) {
            return Err(GovernanceError::UnauthorizedGovernanceSource);
        }
        if sequence <= self.last_sequence {
            return Err(GovernanceError::StaleGovernanceGeneration);
        }
        match action {
            GovernanceAction::SetDataSources(v) => {
                self.data_sources = v;
            },
            GovernanceAction::UpgradeGuardianSet(g) => {
                if self.guardian_set.index == u32::MAX || g.index != self.guardian_set.index + 1 {
                    return Err(GovernanceError::InvalidGuardianSetIndex);
                }
                self.guardian_set = g;
            },
            GovernanceAction::TransferGovernance(s) => {
                self.governance_source = s;
            },
        }
        self.last_sequence = sequence;
        Ok(())
    }
}

} // verus!
