//! Protocol DAO: token-gated proposals that reconfigure attestation fees and
//! the DAO's own voting rules, decided by quorum and strict majority within a
//! voting window counted in ledger sequence numbers.
//!
//! When a governance token is configured, creating a proposal and voting
//! require a positive balance of it; the caller reads that balance from the
//! token and hands it in.

use vstd::prelude::*;

verus! {

/// Quorum used when the configured minimum is zero.
pub const DEFAULT_MIN_VOTES: u32 = 1;

/// Voting window, in ledger sequence numbers, used when the configured one is zero.
pub const DEFAULT_PROPOSAL_DURATION: u32 = 120_960;

/// The lifecycle of a proposal: it starts pending and ends executed or rejected.
#[derive(Clone, Copy, Debug, PartialEq, Eq, Structural)]
pub enum ProposalStatus {
    Pending,
    Executed,
    Rejected,
}

/// What a proposal does when executed.
#[derive(Clone, Copy, Debug, PartialEq, Eq, Structural)]
pub enum ProposalAction {
    /// Sets the attestation fee configuration.
    FeeConfig { token: u64, collector: u64, base_fee: i128, enabled: bool },
    /// Switches attestation fees on or off.
    FeeToggle { enabled: bool },
    /// Sets the DAO's quorum and voting window.
    GovConfig { min_votes: u32, proposal_duration: u32 },
}

/// A proposal; `voting_period` is the window in force when it was created.
#[derive(Clone, Copy, Debug, PartialEq, Eq, Structural)]
pub struct Proposal {
    pub id: u64,
    pub creator: u64,
    pub action: ProposalAction,
    pub status: ProposalStatus,
    pub created_at: u32,
    pub voting_period: u32,
    pub votes_for: u32,
    pub votes_against: u32,
}

/// The attestation fee configuration decided by the DAO.
#[derive(Clone, Copy, Debug, PartialEq, Eq, Structural)]
pub struct FeeConfig {
    pub token: u64,
    pub collector: u64,
    pub base_fee: i128,
    pub enabled: bool,
}

/// The DAO's configuration: `(admin, governance token, quorum, voting window)`.
#[derive(Clone, Copy, Debug, PartialEq, Eq, Structural)]
pub struct DaoConfig {
    pub admin: u64,
    pub governance_token: Option<u64>,
    pub min_votes: u32,
    pub proposal_duration: u32,
}

/// `(votes for, votes against, quorum, quorum met, strict majority for)`.
#[derive(Clone, Copy, Debug, PartialEq, Eq, Structural)]
pub struct QuorumInfo {
    pub votes_for: u32,
    pub votes_against: u32,
    pub min_votes: u32,
    pub quorum_reached: bool,
    pub majority_reached: bool,
}

/// Why a DAO entry point refused a call.
#[derive(Clone, Copy, Debug, PartialEq, Eq, Structural)]
pub enum DaoError {
    /// "already initialized"
    AlreadyInitialized,
    /// "not initialized"
    NotInitialized,
    /// "caller is not admin"
    NotAdmin,
    /// "insufficient governance token balance"
    InsufficientGovernanceBalance,
    /// "base_fee must be non-negative"
    NegativeBaseFee,
    /// "too many proposals"
    ProposalIdOverflow,
    /// "proposal not found"
    ProposalNotFound,
    /// "proposal is not pending"
    ProposalNotPending,
    /// "proposal expired"
    ProposalExpired,
    /// "already voted"
    AlreadyVoted,
    /// "vote count overflow"
    VoteOverflow,
    /// "quorum not met"
    QuorumNotMet,
    /// "proposal not approved"
    NotApproved,
    /// "fee config not set"
    FeeConfigMissing,
    /// "only creator or admin can cancel"
    NotCreatorOrAdmin,
}

/// The abort message of each refusal.
pub open spec fn dao_error_message(e: DaoError) -> Seq<char> {
    match e {
        DaoError::AlreadyInitialized => "already initialized"@,
        DaoError::NotInitialized => "not initialized"@,
        DaoError::NotAdmin => "caller is not admin"@,
        DaoError::InsufficientGovernanceBalance => "insufficient governance token balance"@,
        DaoError::NegativeBaseFee => "base_fee must be non-negative"@,
        DaoError::ProposalIdOverflow => "too many proposals"@,
        DaoError::ProposalNotFound => "proposal not found"@,
        DaoError::ProposalNotPending => "proposal is not pending"@,
        DaoError::ProposalExpired => "proposal expired"@,
        DaoError::AlreadyVoted => "already voted"@,
        DaoError::VoteOverflow => "vote count overflow"@,
        DaoError::QuorumNotMet => "quorum not met"@,
        DaoError::NotApproved => "proposal not approved"@,
        DaoError::FeeConfigMissing => "fee config not set"@,
        DaoError::NotCreatorOrAdmin => "only creator or admin can cancel"@,
    }
}

impl DaoError {
    /// The message the contract aborts with.
    pub fn message(&self) -> (r: &'static str)
        ensures
            r@ == dao_error_message(*self),
    {
        match self {
            DaoError::AlreadyInitialized => "already initialized",
            DaoError::NotInitialized => "not initialized",
            DaoError::NotAdmin => "caller is not admin",
            DaoError::InsufficientGovernanceBalance => "insufficient governance token balance",
            DaoError::NegativeBaseFee => "base_fee must be non-negative",
            DaoError::ProposalIdOverflow => "too many proposals",
            DaoError::ProposalNotFound => "proposal not found",
            DaoError::ProposalNotPending => "proposal is not pending",
            DaoError::ProposalExpired => "proposal expired",
            DaoError::AlreadyVoted => "already voted",
            DaoError::VoteOverflow => "vote count overflow",
            DaoError::QuorumNotMet => "quorum not met",
            DaoError::NotApproved => "proposal not approved",
            DaoError::FeeConfigMissing => "fee config not set",
            DaoError::NotCreatorOrAdmin => "only creator or admin can cancel",
        }
    }
}


/// The abstract storage of the DAO; `ballots` holds one `(proposal, voter)` pair per vote cast.
#[verifier::ext_equal]
pub struct DaoView {
    pub config: Option<DaoConfig>,
    pub proposals: Seq<Proposal>,
    pub ballots: Seq<(u64, u64)>,
    pub fee_config: Option<FeeConfig>,
}

/// The DAO contract's storage.
pub struct ProtocolDao {
    config: Option<DaoConfig>,
    proposals: Vec<Proposal>,
    ballots: Vec<(u64, u64)>,
    fee_config: Option<FeeConfig>,
}

impl View for ProtocolDao {
    type V = DaoView;

    closed spec fn view(&self) -> DaoView {
        DaoView {
            config: self.config,
            proposals: self.proposals@,
            ballots: self.ballots@,
            fee_config: self.fee_config,
        }
    }
}

/// `value`, or `default` when `value` is zero.
pub open spec fn or_default(value: u32, default: u32) -> u32 {
    if value == 0 {
        default
    } else {
        value
    }
}

/// Whether a ballot was cast on proposal `id`.
pub open spec fn on_proposal(id: u64) -> spec_fn((u64, u64)) -> bool {
    |b: (u64, u64)| b.0 == id
}

/// Number of ballots cast on proposal `id`.
pub open spec fn ballots_on(ballots: Seq<(u64, u64)>, id: u64) -> nat {
    ballots.filter(on_proposal(id)).len()
}

/// Storage invariant: proposal `i` has id `i`, ballots name existing proposals
/// and never repeat, and each proposal's tallies count its ballots.
pub open spec fn dao_wf(s: DaoView) -> bool {
    &&& s.config matches Some(cfg) ==> cfg.min_votes > 0 && cfg.proposal_duration > 0
    &&& forall|i: int| 0 <= i < s.proposals.len() ==> #[trigger] s.proposals[i].id == i
    &&& forall|i: int| 0 <= i < s.ballots.len() ==> (#[trigger] s.ballots[i]).0 < s.proposals.len()
    &&& s.ballots.no_duplicates()
    &&& forall|i: int|
        0 <= i < s.proposals.len() ==> #[trigger] s.proposals[i].votes_for + s.proposals[i].votes_against
            == ballots_on(s.ballots, i as u64)
}

/// Whether an account holding `balance` of the governance token may propose and vote.
pub open spec fn may_participate(cfg: DaoConfig, balance: i128) -> bool {
    cfg.governance_token is None || balance > 0
}

/// Whether proposal `p` has passed its voting window at ledger sequence `now`.
pub open spec fn is_expired(p: Proposal, now: u32) -> bool {
    now > p.created_at + p.voting_period
}

pub open spec fn quorum_reached(p: Proposal, min_votes: u32) -> bool {
    p.votes_for + p.votes_against >= min_votes
}

pub open spec fn majority_reached(p: Proposal) -> bool {
    p.votes_for > p.votes_against
}

pub open spec fn spec_initialize(s: DaoView, cfg: DaoConfig) -> (DaoView, Result<(), DaoError>) {
    if s.config is Some {
        (s, Err(DaoError::AlreadyInitialized))
    } else {
        (
            DaoView {
                config: Some(
                    DaoConfig {
                        min_votes: or_default(cfg.min_votes, DEFAULT_MIN_VOTES),
                        proposal_duration: or_default(cfg.proposal_duration, DEFAULT_PROPOSAL_DURATION),
                        ..cfg
                    },
                ),
                ..s
            },
            Ok(()),
        )
    }
}

pub open spec fn spec_set_governance_token(s: DaoView, caller: u64, token: u64) -> (DaoView, Result<(), DaoError>) {
    match s.config {
        None => (s, Err(DaoError::NotInitialized)),
        Some(cfg) => if caller != cfg.admin {
            (s, Err(DaoError::NotAdmin))
        } else {
            (DaoView { config: Some(DaoConfig { governance_token: Some(token), ..cfg }), ..s }, Ok(()))
        },
    }
}

pub open spec fn spec_set_voting_config(s: DaoView, caller: u64, min_votes: u32, duration: u32) -> (DaoView, Result<(), DaoError>) {
    match s.config {
        None => (s, Err(DaoError::NotInitialized)),
        Some(cfg) => if caller != cfg.admin {
            (s, Err(DaoError::NotAdmin))
        } else {
            (
                DaoView {
                    config: Some(
                        DaoConfig {
                            min_votes: or_default(min_votes, DEFAULT_MIN_VOTES),
                            proposal_duration: or_default(duration, DEFAULT_PROPOSAL_DURATION),
                            ..cfg
                        },
                    ),
                    ..s
                },
                Ok(()),
            )
        },
    }
}

pub open spec fn spec_create_proposal(
    s: DaoView,
    creator: u64,
    creator_balance: i128,
    action: ProposalAction,
    now: u32,
) -> (DaoView, Result<u64, DaoError>) {
    match s.config {
        None => (s, Err(DaoError::NotInitialized)),
        Some(cfg) => if !may_participate(cfg, creator_balance) {
            (s, Err(DaoError::InsufficientGovernanceBalance))
        } else if action matches ProposalAction::FeeConfig { base_fee, .. } && base_fee < 0 {
            (s, Err(DaoError::NegativeBaseFee))
        } else if s.proposals.len() >= u64::MAX {
            (s, Err(DaoError::ProposalIdOverflow))
        } else {
            let id = s.proposals.len() as u64;
            (
                DaoView {
                    proposals: s.proposals.push(
                        Proposal {
                            id,
                            creator,
                            action,
                            status: ProposalStatus::Pending,
                            created_at: now,
                            voting_period: cfg.proposal_duration,
                            votes_for: 0,
                            votes_against: 0,
                        },
                    ),
                    ..s
                },
                Ok(id),
            )
        },
    }
}

pub open spec fn spec_vote(
    s: DaoView,
    voter: u64,
    voter_balance: i128,
    id: u64,
    support: bool,
    now: u32,
) -> (DaoView, Result<(), DaoError>) {
    match s.config {
        None => (s, Err(DaoError::NotInitialized)),
        Some(cfg) => if id >= s.proposals.len() {
            (s, Err(DaoError::ProposalNotFound))
        } else if s.proposals[id as int].status != ProposalStatus::Pending {
            (s, Err(DaoError::ProposalNotPending))
        } else if is_expired(s.proposals[id as int], now) {
            (s, Err(DaoError::ProposalExpired))
        } else if !may_participate(cfg, voter_balance) {
            (s, Err(DaoError::InsufficientGovernanceBalance))
        } else if s.ballots.contains((id, voter)) {
            (s, Err(DaoError::AlreadyVoted))
        } else if (support && s.proposals[id as int].votes_for == u32::MAX) || (!support
            && s.proposals[id as int].votes_against == u32::MAX) {
            (s, Err(DaoError::VoteOverflow))
        } else {
            let p = s.proposals[id as int];
            let q = if support {
                Proposal { votes_for: (p.votes_for + 1) as u32, ..p }
            } else {
                Proposal { votes_against: (p.votes_against + 1) as u32, ..p }
            };
            (
                DaoView {
                    proposals: s.proposals.update(id as int, q),
                    ballots: s.ballots.push((id, voter)),
                    ..s
                },
                Ok(()),
            )
        },
    }
}

/// The effect of executing `action` on the configuration and the fee configuration.
pub open spec fn apply_action(s: DaoView, cfg: DaoConfig, action: ProposalAction) -> Result<
    (DaoConfig, Option<FeeConfig>),
    DaoError,
> {
    match action {
        ProposalAction::FeeConfig { token, collector, base_fee, enabled } => Ok(
            (cfg, Some(FeeConfig { token, collector, base_fee, enabled })),
        ),
        ProposalAction::FeeToggle { enabled } => match s.fee_config {
            None => Err(DaoError::FeeConfigMissing),
            Some(f) => Ok((cfg, Some(FeeConfig { enabled, ..f }))),
        },
        ProposalAction::GovConfig { min_votes, proposal_duration } => Ok(
            (
                DaoConfig {
                    min_votes: or_default(min_votes, DEFAULT_MIN_VOTES),
                    proposal_duration: or_default(proposal_duration, DEFAULT_PROPOSAL_DURATION),
                    ..cfg
                },
                s.fee_config,
            ),
        ),
    }
}

pub open spec fn spec_execute(s: DaoView, id: u64, now: u32) -> (DaoView, Result<(), DaoError>) {
    match s.config {
        None => (s, Err(DaoError::NotInitialized)),
        Some(cfg) => if id >= s.proposals.len() {
            (s, Err(DaoError::ProposalNotFound))
        } else if s.proposals[id as int].status != ProposalStatus::Pending {
            (s, Err(DaoError::ProposalNotPending))
        } else if is_expired(s.proposals[id as int], now) {
            (s, Err(DaoError::ProposalExpired))
        } else if !quorum_reached(s.proposals[id as int], cfg.min_votes) {
            (s, Err(DaoError::QuorumNotMet))
        } else if !majority_reached(s.proposals[id as int]) {
            (s, Err(DaoError::NotApproved))
        } else {
            match apply_action(s, cfg, s.proposals[id as int].action) {
                Err(e) => (s, Err(e)),
                Ok((new_cfg, new_fee)) => (
                    DaoView {
                        config: Some(new_cfg),
                        proposals: s.proposals.update(
                            id as int,
                            Proposal { status: ProposalStatus::Executed, ..s.proposals[id as int] },
                        ),
                        ballots: s.ballots,
                        fee_config: new_fee,
                    },
                    Ok(()),
                ),
            }
        },
    }
}

pub open spec fn spec_cancel(s: DaoView, caller: u64, id: u64) -> (DaoView, Result<(), DaoError>) {
    match s.config {
        None => (s, Err(DaoError::NotInitialized)),
        Some(cfg) => if id >= s.proposals.len() {
            (s, Err(DaoError::ProposalNotFound))
        } else if s.proposals[id as int].status != ProposalStatus::Pending {
            (s, Err(DaoError::ProposalNotPending))
        } else if caller != s.proposals[id as int].creator && caller != cfg.admin {
            (s, Err(DaoError::NotCreatorOrAdmin))
        } else {
            (
                DaoView {
                    proposals: s.proposals.update(
                        id as int,
                        Proposal { status: ProposalStatus::Rejected, ..s.proposals[id as int] },
                    ),
                    ..s
                },
                Ok(()),
            )
        },
    }
}

proof fn lemma_ballots_on_push(ballots: Seq<(u64, u64)>, b: (u64, u64), id: u64)
    ensures
        ballots_on(ballots.push(b), id) == ballots_on(ballots, id) + (if b.0 == id {
            1nat
        } else {
            0nat
        }),
{
    ballots.lemma_filter_len_push(on_proposal(id), b);
}

impl ProtocolDao {
    /// The storage invariant: `dao_wf` of the view, which every `law_*` over the view assumes.
    pub open spec fn wf(&self) -> bool {
        dao_wf(self@)
    }

    /// Empty, uninitialized storage.
    pub fn new() -> (r: Self)
        ensures
            r.wf(),
            r@.config is None,
            r@.proposals.len() == 0,
            r@.ballots.len() == 0,
            r@.fee_config is None,
    {
        ProtocolDao { config: None, proposals: Vec::new(), ballots: Vec::new(), fee_config: None }
    }

    /// Stores the configuration, replacing a zero quorum or window by its default.
    pub fn initialize(
        &mut self,
        admin: u64,
        governance_token: Option<u64>,
        min_votes: u32,
        proposal_duration: u32,
    ) -> (r: Result<(), DaoError>)
        requires
            old(self).wf(),
        ensures
            final(self).wf(),
            (final(self)@, r) == spec_initialize(
                old(self)@,
                DaoConfig { admin, governance_token, min_votes, proposal_duration },
            ),
    {
        if self.config.is_some() {
            return Err(DaoError::AlreadyInitialized);
        }
        let min_votes = if min_votes == 0 {
            DEFAULT_MIN_VOTES
        } else {
            min_votes
        };
        let proposal_duration = if proposal_duration == 0 {
            DEFAULT_PROPOSAL_DURATION
        } else {
            proposal_duration
        };
        self.config = Some(DaoConfig { admin, governance_token, min_votes, proposal_duration });
        Ok(())
    }

    /// The configuration, if initialized.
    pub fn get_config(&self) -> (r: Option<DaoConfig>)
        ensures
            r == self@.config,
    {
        self.config
    }

    /// The attestation fee configuration set by executed proposals, if any.
    pub fn get_attestation_fee_config(&self) -> (r: Option<FeeConfig>)
        ensures
            r == self@.fee_config,
    {
        self.fee_config
    }

    /// Replaces the governance token; admin only.
    pub fn set_governance_token(&mut self, caller: u64, token: u64) -> (r: Result<(), DaoError>)
        requires
            old(self).wf(),
        ensures
            final(self).wf(),
            (final(self)@, r) == spec_set_governance_token(old(self)@, caller, token),
    {
        match self.config {
            None => Err(DaoError::NotInitialized),
            Some(cfg) => {
                if caller != cfg.admin {
                    return Err(DaoError::NotAdmin);
                }
                self.config = Some(DaoConfig { governance_token: Some(token), ..cfg });
                Ok(())
            },
        }
    }

    /// Sets the quorum and voting window (zero means the default); admin only.
    pub fn set_voting_config(&mut self, caller: u64, min_votes: u32, proposal_duration: u32) -> (r:
        Result<(), DaoError>)
        requires
            old(self).wf(),
        ensures
            final(self).wf(),
            (final(self)@, r) == spec_set_voting_config(old(self)@, caller, min_votes, proposal_duration),
    {
        match self.config {
            None => Err(DaoError::NotInitialized),
            Some(cfg) => {
                if caller != cfg.admin {
                    return Err(DaoError::NotAdmin);
                }
                let min_votes = if min_votes == 0 {
                    DEFAULT_MIN_VOTES
                } else {
                    min_votes
                };
                let proposal_duration = if proposal_duration == 0 {
                    DEFAULT_PROPOSAL_DURATION
                } else {
                    proposal_duration
                };
                self.config = Some(DaoConfig { min_votes, proposal_duration, ..cfg });
                Ok(())
            },
        }
    }

    fn create_proposal(&mut self, creator: u64, creator_balance: i128, action: ProposalAction, now: u32) -> (r:
        Result<u64, DaoError>)
        requires
            old(self).wf(),
        ensures
            final(self).wf(),
            (final(self)@, r) == spec_create_proposal(old(self)@, creator, creator_balance, action, now),
    {
        let cfg = match self.config {
            None => return Err(DaoError::NotInitialized),
            Some(c) => c,
        };
        let gated = match cfg.governance_token {
            None => false,
            Some(_) => creator_balance <= 0,
        };
        if gated {
            return Err(DaoError::InsufficientGovernanceBalance);
        }
        match action {
            ProposalAction::FeeConfig { base_fee, .. } => {
                if base_fee < 0 {
                    return Err(DaoError::NegativeBaseFee);
                }
            },
            _ => {},
        }
        let n = self.proposals.len();
        if n as u64 == u64::MAX {
            return Err(DaoError::ProposalIdOverflow);
        }
        let id = n as u64;
        let p = Proposal {
            id,
            creator,
            action,
            status: ProposalStatus::Pending,
            created_at: now,
            voting_period: cfg.proposal_duration,
            votes_for: 0,
            votes_against: 0,
        };
        self.proposals.push(p);
        assert forall|i: int| 0 <= i < self@.proposals.len() implies #[trigger] self@.proposals[i].votes_for
            + self@.proposals[i].votes_against == ballots_on(self@.ballots, i as u64) by {
            if i == n {
                if ballots_on(self@.ballots, i as u64) > 0 {
                    let f = on_proposal(i as u64);
                    let fl = self@.ballots.filter(f);
                    assert(fl.contains(fl[0]));
                    self@.ballots.lemma_filter_pred(f, 0);
                    self@.ballots.lemma_filter_contains_rev(f, fl[0]);
                    let k = choose|k: int| 0 <= k < self@.ballots.len() && self@.ballots[k] == fl[0];
                    assert(self@.ballots[k].0 < n);
                }
            } else {
                assert(self@.proposals[i] == old(self)@.proposals[i]);
            }
        }
        assert(self@ =~= spec_create_proposal(old(self)@, creator, creator_balance, action, now).0);
        Ok(id)
    }

    /// Proposes a new attestation fee configuration; returns the proposal id.
    pub fn create_fee_config_proposal(
        &mut self,
        creator: u64,
        creator_balance: i128,
        token: u64,
        collector: u64,
        base_fee: i128,
        enabled: bool,
        now: u32,
    ) -> (r: Result<u64, DaoError>)
        requires
            old(self).wf(),
        ensures
            final(self).wf(),
            (final(self)@, r) == spec_create_proposal(
                old(self)@,
                creator,
                creator_balance,
                ProposalAction::FeeConfig { token, collector, base_fee, enabled },
                now,
            ),
    {
        self.create_proposal(
            creator,
            creator_balance,
            ProposalAction::FeeConfig { token, collector, base_fee, enabled },
            now,
        )
    }

    /// Proposes switching attestation fees on or off; returns the proposal id.
    pub fn create_fee_toggle_proposal(&mut self, creator: u64, creator_balance: i128, enabled: bool, now: u32) -> (r:
        Result<u64, DaoError>)
        requires
            old(self).wf(),
        ensures
            final(self).wf(),
            (final(self)@, r) == spec_create_proposal(
                old(self)@,
                creator,
                creator_balance,
                ProposalAction::FeeToggle { enabled },
                now,
            ),
    {
        self.create_proposal(creator, creator_balance, ProposalAction::FeeToggle { enabled }, now)
    }

    /// Proposes a new quorum and voting window; returns the proposal id.
    pub fn create_gov_config_proposal(
        &mut self,
        creator: u64,
        creator_balance: i128,
        min_votes: u32,
        proposal_duration: u32,
        now: u32,
    ) -> (r: Result<u64, DaoError>)
        requires
            old(self).wf(),
        ensures
            final(self).wf(),
            (final(self)@, r) == spec_create_proposal(
                old(self)@,
                creator,
                creator_balance,
                ProposalAction::GovConfig { min_votes, proposal_duration },
                now,
            ),
    {
        self.create_proposal(
            creator,
            creator_balance,
            ProposalAction::GovConfig { min_votes, proposal_duration },
            now,
        )
    }

    /// Whether `voter` has voted on proposal `id`.
    pub fn has_voted(&self, id: u64, voter: u64) -> (r: bool)
        ensures
            r == self@.ballots.contains((id, voter)),
    {
        let mut i: usize = 0;
        while i < self.ballots.len()
            invariant
                0 <= i <= self.ballots@.len(),
                forall|j: int| 0 <= j < i ==> self.ballots@[j] != (id, voter),
            decreases self.ballots@.len() - i,
        {
            let b = self.ballots[i];
            if b.0 == id && b.1 == voter {
                assert(self.ballots@[i as int] == (id, voter));
                return true;
            }
            i = i + 1;
        }
        false
    }

    fn vote(&mut self, voter: u64, voter_balance: i128, id: u64, support: bool, now: u32) -> (r: Result<
        (),
        DaoError,
    >)
        requires
            old(self).wf(),
        ensures
            final(self).wf(),
            (final(self)@, r) == spec_vote(old(self)@, voter, voter_balance, id, support, now),
    {
        let cfg = match self.config {
            None => return Err(DaoError::NotInitialized),
            Some(c) => c,
        };
        if id >= self.proposals.len() as u64 {
            return Err(DaoError::ProposalNotFound);
        }
        let idx = id as usize;
        let p = self.proposals[idx];
        if p.status != ProposalStatus::Pending {
            return Err(DaoError::ProposalNotPending);
        }
        if now as u64 > p.created_at as u64 + p.voting_period as u64 {
            return Err(DaoError::ProposalExpired);
        }
        let gated = match cfg.governance_token {
            None => false,
            Some(_) => voter_balance <= 0,
        };
        if gated {
            return Err(DaoError::InsufficientGovernanceBalance);
        }
        if self.has_voted(id, voter) {
            return Err(DaoError::AlreadyVoted);
        }
        let q = if support {
            if p.votes_for == u32::MAX {
                return Err(DaoError::VoteOverflow);
            }
            Proposal { votes_for: p.votes_for + 1, ..p }
        } else {
            if p.votes_against == u32::MAX {
                return Err(DaoError::VoteOverflow);
            }
            Proposal { votes_against: p.votes_against + 1, ..p }
        };
        self.proposals.set(idx, q);
        self.ballots.push((id, voter));
        proof {
            let ob = old(self)@.ballots;
            assert forall|k: int| 0 <= k < self@.proposals.len() implies #[trigger] self@.proposals[k].votes_for
                + self@.proposals[k].votes_against == ballots_on(self@.ballots, k as u64) by {
                lemma_ballots_on_push(ob, (id, voter), k as u64);
                assert(old(self)@.proposals[k].votes_for + old(self)@.proposals[k].votes_against
                    == ballots_on(ob, k as u64));
            }
            assert forall|k: int| 0 <= k < self@.proposals.len() implies #[trigger] self@.proposals[k].id
                == k by {
                assert(old(self)@.proposals[k].id == k);
            }
            assert forall|k: int| 0 <= k < self@.ballots.len() implies (#[trigger] self@.ballots[k]).0
                < self@.proposals.len() by {
                if k < ob.len() {
                    assert(self@.ballots[k] == ob[k]);
                }
            }
            assert(self@.ballots.no_duplicates()) by {
                assert forall|a: int, b: int|
                    0 <= a < self@.ballots.len() && 0 <= b < self@.ballots.len() && a != b implies self@.ballots[a]
                    != self@.ballots[b] by {
                    if a < ob.len() && b < ob.len() {
                        assert(self@.ballots[a] == ob[a] && self@.ballots[b] == ob[b]);
                    } else if a < ob.len() {
                        assert(self@.ballots[a] == ob[a]);
                    } else if b < ob.len() {
                        assert(self@.ballots[b] == ob[b]);
                    }
                }
            }
        }
        assert(self@ =~= spec_vote(old(self)@, voter, voter_balance, id, support, now).0);
        Ok(())
    }

    /// Casts `voter`'s vote for proposal `id`.
    pub fn vote_for(&mut self, voter: u64, voter_balance: i128, id: u64, now: u32) -> (r: Result<(), DaoError>)
        requires
            old(self).wf(),
        ensures
            final(self).wf(),
            (final(self)@, r) == spec_vote(old(self)@, voter, voter_balance, id, true, now),
    {
        self.vote(voter, voter_balance, id, true, now)
    }

    /// Casts `voter`'s vote against proposal `id`.
    pub fn vote_against(&mut self, voter: u64, voter_balance: i128, id: u64, now: u32) -> (r: Result<(), DaoError>)
        requires
            old(self).wf(),
        ensures
            final(self).wf(),
            (final(self)@, r) == spec_vote(old(self)@, voter, voter_balance, id, false, now),
    {
        self.vote(voter, voter_balance, id, false, now)
    }

    /// Executes proposal `id` once it has a quorum and a strict majority for it;
    /// any address may execute.
    pub fn execute_proposal(&mut self, executor: u64, id: u64, now: u32) -> (r: Result<(), DaoError>)
        requires
            old(self).wf(),
        ensures
            final(self).wf(),
            (final(self)@, r) == spec_execute(old(self)@, id, now),
    {
        let cfg = match self.config {
            None => return Err(DaoError::NotInitialized),
            Some(c) => c,
        };
        if id >= self.proposals.len() as u64 {
            return Err(DaoError::ProposalNotFound);
        }
        let idx = id as usize;
        let p = self.proposals[idx];
        if p.status != ProposalStatus::Pending {
            return Err(DaoError::ProposalNotPending);
        }
        if now as u64 > p.created_at as u64 + p.voting_period as u64 {
            return Err(DaoError::ProposalExpired);
        }
        if (p.votes_for as u64) + (p.votes_against as u64) < cfg.min_votes as u64 {
            return Err(DaoError::QuorumNotMet);
        }
        if p.votes_for <= p.votes_against {
            return Err(DaoError::NotApproved);
        }
        match p.action {
            ProposalAction::FeeConfig { token, collector, base_fee, enabled } => {
                self.fee_config = Some(FeeConfig { token, collector, base_fee, enabled });
            },
            ProposalAction::FeeToggle { enabled } => match self.fee_config {
                None => return Err(DaoError::FeeConfigMissing),
                Some(f) => {
                    self.fee_config = Some(FeeConfig { enabled, ..f });
                },
            },
            ProposalAction::GovConfig { min_votes, proposal_duration } => {
                let min_votes = if min_votes == 0 {
                    DEFAULT_MIN_VOTES
                } else {
                    min_votes
                };
                let proposal_duration = if proposal_duration == 0 {
                    DEFAULT_PROPOSAL_DURATION
                } else {
                    proposal_duration
                };
                self.config = Some(DaoConfig { min_votes, proposal_duration, ..cfg });
            },
        }
        self.proposals.set(idx, Proposal { status: ProposalStatus::Executed, ..p });
        proof {
            assert forall|k: int| 0 <= k < self@.proposals.len() implies #[trigger] self@.proposals[k].votes_for
                + self@.proposals[k].votes_against == ballots_on(self@.ballots, k as u64) by {
                assert(old(self)@.proposals[k].votes_for + old(self)@.proposals[k].votes_against
                    == ballots_on(old(self)@.ballots, k as u64));
            }
            assert forall|k: int| 0 <= k < self@.proposals.len() implies #[trigger] self@.proposals[k].id
                == k by {
                assert(old(self)@.proposals[k].id == k);
            }
        }
        assert(self@ =~= spec_execute(old(self)@, id, now).0);
        Ok(())
    }

    /// Rejects a pending proposal; only its creator or the admin may cancel.
    pub fn cancel_proposal(&mut self, caller: u64, id: u64) -> (r: Result<(), DaoError>)
        requires
            old(self).wf(),
        ensures
            final(self).wf(),
            (final(self)@, r) == spec_cancel(old(self)@, caller, id),
    {
        let cfg = match self.config {
            None => return Err(DaoError::NotInitialized),
            Some(c) => c,
        };
        if id >= self.proposals.len() as u64 {
            return Err(DaoError::ProposalNotFound);
        }
        let idx = id as usize;
        let p = self.proposals[idx];
        if p.status != ProposalStatus::Pending {
            return Err(DaoError::ProposalNotPending);
        }
        if caller != p.creator && caller != cfg.admin {
            return Err(DaoError::NotCreatorOrAdmin);
        }
        self.proposals.set(idx, Proposal { status: ProposalStatus::Rejected, ..p });
        proof {
            assert forall|k: int| 0 <= k < self@.proposals.len() implies #[trigger] self@.proposals[k].votes_for
                + self@.proposals[k].votes_against == ballots_on(self@.ballots, k as u64) by {
                assert(old(self)@.proposals[k].votes_for + old(self)@.proposals[k].votes_against
                    == ballots_on(old(self)@.ballots, k as u64));
            }
            assert forall|k: int| 0 <= k < self@.proposals.len() implies #[trigger] self@.proposals[k].id
                == k by {
                assert(old(self)@.proposals[k].id == k);
            }
        }
        assert(self@ =~= spec_cancel(old(self)@, caller, id).0);
        Ok(())
    }

    /// The proposal with id `id`, if it exists.
    pub fn get_proposal(&self, id: u64) -> (r: Option<Proposal>)
        ensures
            r == (if id < self@.proposals.len() {
                Some(self@.proposals[id as int])
            } else {
                None::<Proposal>
            }),
    {
        if id < self.proposals.len() as u64 {
            Some(self.proposals[id as usize])
        } else {
            None
        }
    }

    /// Votes for proposal `id` (zero for an unknown proposal).
    pub fn get_votes_for(&self, id: u64) -> (r: u32)
        ensures
            r == (if id < self@.proposals.len() {
                self@.proposals[id as int].votes_for
            } else {
                0
            }),
    {
        if id < self.proposals.len() as u64 {
            self.proposals[id as usize].votes_for
        } else {
            0
        }
    }

    /// Votes against proposal `id` (zero for an unknown proposal).
    pub fn get_votes_against(&self, id: u64) -> (r: u32)
        ensures
            r == (if id < self@.proposals.len() {
                self@.proposals[id as int].votes_against
            } else {
                0
            }),
    {
        if id < self.proposals.len() as u64 {
            self.proposals[id as usize].votes_against
        } else {
            0
        }
    }

    /// The tallies of proposal `id` against the current quorum.
    pub fn get_quorum_info(&self, id: u64) -> (r: Result<QuorumInfo, DaoError>)
        ensures
            match self@.config {
                None => r == Err::<QuorumInfo, DaoError>(DaoError::NotInitialized),
                Some(cfg) => if id >= self@.proposals.len() {
                    r == Err::<QuorumInfo, DaoError>(DaoError::ProposalNotFound)
                } else {
                    let p = self@.proposals[id as int];
                    r == Ok::<QuorumInfo, DaoError>(
                        QuorumInfo {
                            votes_for: p.votes_for,
                            votes_against: p.votes_against,
                            min_votes: cfg.min_votes,
                            quorum_reached: quorum_reached(p, cfg.min_votes),
                            majority_reached: majority_reached(p),
                        },
                    )
                },
            },
    {
        let cfg = match self.config {
            None => return Err(DaoError::NotInitialized),
            Some(c) => c,
        };
        if id >= self.proposals.len() as u64 {
            return Err(DaoError::ProposalNotFound);
        }
        let p = self.proposals[id as usize];
        Ok(
            QuorumInfo {
                votes_for: p.votes_for,
                votes_against: p.votes_against,
                min_votes: cfg.min_votes,
                quorum_reached: (p.votes_for as u64) + (p.votes_against as u64) >= cfg.min_votes as u64,
                majority_reached: p.votes_for > p.votes_against,
            },
        )
    }
}


/// A voter is counted at most once per proposal: after `voter` has voted on
/// proposal `id`, any further vote by `voter` on `id`, for or against, is refused.
pub proof fn law_one_vote_per_voter(
    s: DaoView,
    voter: u64,
    balance: i128,
    id: u64,
    support: bool,
    balance2: i128,
    support2: bool,
    now: u32,
    now2: u32,
)
    requires
        dao_wf(s),
        spec_vote(s, voter, balance, id, support, now).1 is Ok,
    ensures
        spec_vote(spec_vote(s, voter, balance, id, support, now).0, voter, balance2, id, support2, now2).1 is Err,
{
    let t = spec_vote(s, voter, balance, id, support, now).0;
    assert(t.ballots.last() == (id, voter));
    assert(t.ballots.contains((id, voter)));
}

/// A proposal is executed only with a quorum of votes and a strict majority
/// for it, inside its voting window; it then stays executed.
pub proof fn law_execution_requires_quorum_and_majority(s: DaoView, id: u64, now: u32)
    requires
        dao_wf(s),
        spec_execute(s, id, now).1 is Ok,
    ensures
        ({
            let p = s.proposals[id as int];
            let t = spec_execute(s, id, now).0;
            &&& s.config matches Some(cfg) && quorum_reached(p, cfg.min_votes)
            &&& majority_reached(p)
            &&& p.votes_for >= 1
            &&& !is_expired(p, now)
            &&& p.status == ProposalStatus::Pending
            &&& t.proposals[id as int].status == ProposalStatus::Executed
        }),
{
}

/// Executed and rejected proposals are final: no vote, execution or
/// cancellation changes them, and creating proposals leaves them alone.
pub proof fn law_settled_proposals_are_final(
    s: DaoView,
    k: int,
    caller: u64,
    balance: i128,
    id: u64,
    support: bool,
    action: ProposalAction,
    now: u32,
)
    requires
        dao_wf(s),
        0 <= k < s.proposals.len(),
        s.proposals[k].status != ProposalStatus::Pending,
    ensures
        spec_vote(s, caller, balance, id, support, now).0.proposals[k] == s.proposals[k],
        spec_execute(s, id, now).0.proposals[k] == s.proposals[k],
        spec_cancel(s, caller, id).0.proposals[k] == s.proposals[k],
        spec_create_proposal(s, caller, balance, action, now).0.proposals[k] == s.proposals[k],
{
}

/// Token gating: with a governance token configured, an account without a
/// positive balance can neither create a proposal nor vote, and nothing changes.
pub proof fn law_token_gating(
    s: DaoView,
    account: u64,
    balance: i128,
    id: u64,
    support: bool,
    action: ProposalAction,
    now: u32,
)
    requires
        s.config matches Some(cfg) && cfg.governance_token is Some,
        balance <= 0,
    ensures
        spec_create_proposal(s, account, balance, action, now) == (s, Err::<u64, DaoError>(
            DaoError::InsufficientGovernanceBalance,
        )),
        spec_vote(s, account, balance, id, support, now).1 is Err,
        spec_vote(s, account, balance, id, support, now).0 == s,
{
}

/// Only the creator or the admin can cancel, and only a pending proposal.
pub proof fn law_cancel_authority(s: DaoView, caller: u64, id: u64)
    requires
        spec_cancel(s, caller, id).1 is Ok,
    ensures
        s.config matches Some(cfg) && (caller == s.proposals[id as int].creator || caller == cfg.admin),
        s.proposals[id as int].status == ProposalStatus::Pending,
        spec_cancel(s, caller, id).0.proposals[id as int].status == ProposalStatus::Rejected,
{
}

/// The admin fixed at initialization never changes.
pub proof fn law_admin_is_immutable(
    s: DaoView,
    caller: u64,
    balance: i128,
    id: u64,
    support: bool,
    action: ProposalAction,
    token: u64,
    min_votes: u32,
    duration: u32,
    now: u32,
)
    requires
        s.config is Some,
    ensures
        ({
            let admin = s.config->Some_0.admin;
            &&& spec_initialize(s, DaoConfig { admin: caller, governance_token: None, min_votes, proposal_duration: duration }).0.config->Some_0.admin == admin
            &&& spec_set_governance_token(s, caller, token).0.config->Some_0.admin == admin
            &&& spec_set_voting_config(s, caller, min_votes, duration).0.config->Some_0.admin == admin
            &&& spec_create_proposal(s, caller, balance, action, now).0.config->Some_0.admin == admin
            &&& spec_vote(s, caller, balance, id, support, now).0.config->Some_0.admin == admin
            &&& spec_execute(s, id, now).0.config->Some_0.admin == admin
            &&& spec_cancel(s, caller, id).0.config->Some_0.admin == admin
        }),
{
}

/// Executing a proposal applies exactly its action to the fee configuration:
/// a fee-config proposal sets all four terms as proposed; a fee toggle needs
/// an existing fee configuration and switches only its `enabled` flag, keeping
/// its token, collector and base fee; a governance-config proposal leaves the
/// fee configuration as it was.
pub proof fn law_execution_applies_fee_action(s: DaoView, id: u64, now: u32)
    requires
        dao_wf(s),
        spec_execute(s, id, now).1 is Ok,
    ensures
        ({
            let t = spec_execute(s, id, now).0;
            match s.proposals[id as int].action {
                ProposalAction::FeeConfig { token, collector, base_fee, enabled } => t.fee_config matches Some(
                    f,
                ) && f.token == token && f.collector == collector && f.base_fee == base_fee && f.enabled
                    == enabled,
                ProposalAction::FeeToggle { enabled } => s.fee_config matches Some(before) && t.fee_config matches Some(
                    after,
                ) && after.token == before.token && after.collector == before.collector && after.base_fee
                    == before.base_fee && after.enabled == enabled,
                ProposalAction::GovConfig { .. } => t.fee_config == s.fee_config,
            }
        }),
{
}

/// A created proposal reads back as proposed: its id is the number of
/// proposals before, and it stores the creator, the action, the creation
/// sequence `now`, the voting window in force, a pending status and no votes;
/// earlier proposals are unchanged.
pub proof fn law_created_proposal_reads_back(
    s: DaoView,
    creator: u64,
    balance: i128,
    action: ProposalAction,
    now: u32,
)
    requires
        spec_create_proposal(s, creator, balance, action, now).1 is Ok,
    ensures
        ({
            let (t, r) = spec_create_proposal(s, creator, balance, action, now);
            let id = r->Ok_0;
            let p = t.proposals[id as int];
            &&& id == s.proposals.len()
            &&& t.proposals.len() == s.proposals.len() + 1
            &&& p.id == id && p.creator == creator && p.action == action
            &&& p.status == ProposalStatus::Pending && p.created_at == now
            &&& s.config matches Some(cfg) && p.voting_period == cfg.proposal_duration
            &&& p.votes_for == 0 && p.votes_against == 0
            &&& forall|i: int| 0 <= i < s.proposals.len() ==> #[trigger] t.proposals[i] == s.proposals[i]
            &&& t.config == s.config && t.fee_config == s.fee_config && t.ballots == s.ballots
        }),
{
}

/// A vote adds exactly one to the chosen tally of its proposal, records the
/// voter, and changes nothing else.
pub proof fn law_vote_counts_once(s: DaoView, voter: u64, balance: i128, id: u64, support: bool, now: u32)
    requires
        spec_vote(s, voter, balance, id, support, now).1 is Ok,
    ensures
        ({
            let t = spec_vote(s, voter, balance, id, support, now).0;
            let before = s.proposals[id as int];
            let after = t.proposals[id as int];
            &&& after.votes_for == before.votes_for + (if support { 1int } else { 0 })
            &&& after.votes_against == before.votes_against + (if support { 0int } else { 1 })
            &&& after.id == before.id && after.creator == before.creator && after.action == before.action
            &&& after.status == before.status && after.created_at == before.created_at
            &&& after.voting_period == before.voting_period
            &&& t.proposals.len() == s.proposals.len()
            &&& forall|i: int| 0 <= i < s.proposals.len() && i != id ==> #[trigger] t.proposals[i] == s.proposals[i]
            &&& t.ballots.contains((id, voter))
            &&& t.config == s.config && t.fee_config == s.fee_config
        }),
{
    let t = spec_vote(s, voter, balance, id, support, now).0;
    assert(t.ballots[s.ballots.len() as int] == (id, voter));
}

} // verus!
