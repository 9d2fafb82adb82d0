//! Attestations: businesses commit a Merkle root of their revenue data per
//! period; the admin (fixed at initialization) configures fees, grants roles,
//! revokes and migrates attestations; anyone may open a dispute.
//!
//! Who signed a call is decided by the host: each method takes the address
//! that authorized it (`caller`, `business` or `challenger`) and checks it
//! against the stored admin where the entry point is admin-only. A fee due
//! from `submit_attestation` is returned for the caller to collect.

use vstd::prelude::*;

verus! {

/// Role that the admin holds from initialization.
pub const ROLE_ADMIN: u32 = 1;

/// Role of addresses that attest on behalf of the protocol.
pub const ROLE_ATTESTOR: u32 = 2;

/// Role of businesses.
pub const ROLE_BUSINESS: u32 = 4;

/// Role of operators.
pub const ROLE_OPERATOR: u32 = 8;

/// A stored attestation:
/// `(merkle_root, timestamp, version, fee_paid, proof_hash, expiry_timestamp)`.
pub type AttestationData = ([u8; 32], u64, u32, i128, Option<[u8; 32]>, Option<u64>);

/// What the contract holds for a `(business, period)`.
#[derive(Clone, Copy, Debug, PartialEq, Eq, Structural)]
pub enum AttestationStatus {
    Missing,
    Revoked,
    Active,
}

/// The kind of a dispute.
#[derive(Clone, Copy, Debug, PartialEq, Eq, Structural)]
pub enum DisputeType {
    DataIntegrity,
}

/// A dispute about a business's attestation for a period; its id is its position.
#[derive(Debug)]
pub struct Dispute {
    pub id: u64,
    pub challenger: u64,
    pub business: u64,
    pub period: String,
    pub dispute_type: DisputeType,
    pub evidence: String,
}

impl Clone for Dispute {
    fn clone(&self) -> (r: Self)
        ensures
            r == *self,
    {
        Dispute {
            id: self.id,
            challenger: self.challenger,
            business: self.business,
            period: self.period.clone(),
            dispute_type: self.dispute_type,
            evidence: self.evidence.clone(),
        }
    }
}

/// The fee configuration: each submission owes `base_fee` of `token` to
/// `collector` while `enabled`.
#[derive(Clone, Copy, Debug, PartialEq, Eq, Structural)]
pub struct FeeSettings {
    pub token: u64,
    pub collector: u64,
    pub base_fee: i128,
    pub enabled: bool,
}

/// An attestation covering the periods `start_period..=end_period`.
#[derive(Clone, Copy, Debug)]
pub struct PeriodRange {
    pub business: u64,
    pub start_period: u32,
    pub end_period: u32,
    pub merkle_root: [u8; 32],
    pub timestamp: u64,
    pub version: u32,
}

/// A single-period attestation as stored.
#[derive(Debug)]
pub struct AttestationEntry {
    pub business: u64,
    pub period: String,
    pub data: AttestationData,
    pub revoked: bool,
}

/// Why an attestation entry point refused a call.
#[derive(Clone, Copy, Debug, PartialEq, Eq, Structural)]
pub enum AttestationError {
    /// "already initialized"
    AlreadyInitialized,
    /// "not initialized"
    NotInitialized,
    /// "caller is not admin"
    NotAdmin,
    /// "not authorized by the required address"
    NotAuthorized,
    /// "attestation exists"
    AttestationExists,
    /// "not found"
    NotFound,
    /// "version too low"
    VersionTooLow,
    /// "invalid period range"
    InvalidRange,
    /// "overlap"
    Overlap,
    /// "too many disputes"
    DisputeIdOverflow,
}

/// The abort message of each refusal.
pub open spec fn attestation_error_message(e: AttestationError) -> Seq<char> {
    match e {
        AttestationError::AlreadyInitialized => "already initialized"@,
        AttestationError::NotInitialized => "not initialized"@,
        AttestationError::NotAdmin => "caller is not admin"@,
        AttestationError::NotAuthorized => "not authorized by the required address"@,
        AttestationError::AttestationExists => "attestation exists"@,
        AttestationError::NotFound => "not found"@,
        AttestationError::VersionTooLow => "version too low"@,
        AttestationError::InvalidRange => "invalid period range"@,
        AttestationError::Overlap => "overlap"@,
        AttestationError::DisputeIdOverflow => "too many disputes"@,
    }
}

impl AttestationError {
    /// The message the contract aborts with.
    pub fn message(&self) -> (r: &'static str)
        ensures
            r@ == attestation_error_message(*self),
    {
        match self {
            AttestationError::AlreadyInitialized => "already initialized",
            AttestationError::NotInitialized => "not initialized",
            AttestationError::NotAdmin => "caller is not admin",
            AttestationError::NotAuthorized => "not authorized by the required address",
            AttestationError::AttestationExists => "attestation exists",
            AttestationError::NotFound => "not found",
            AttestationError::VersionTooLow => "version too low",
            AttestationError::InvalidRange => "invalid period range",
            AttestationError::Overlap => "overlap",
            AttestationError::DisputeIdOverflow => "too many disputes",
        }
    }
}


/// The abstract storage of the attestation contract.
#[verifier::ext_equal]
pub struct AttestationView {
    pub admin: Option<u64>,
    pub fees: Option<FeeSettings>,
    pub roles: Seq<(u64, u32)>,
    pub entries: Seq<AttestationEntry>,
    pub ranges: Seq<PeriodRange>,
    pub disputes: Seq<Dispute>,
}

/// The attestation contract's storage.
pub struct AttestationContract {
    admin: Option<u64>,
    fees: Option<FeeSettings>,
    roles: Vec<(u64, u32)>,
    entries: Vec<AttestationEntry>,
    ranges: Vec<PeriodRange>,
    disputes: Vec<Dispute>,
}

impl View for AttestationContract {
    type V = AttestationView;

    closed spec fn view(&self) -> AttestationView {
        AttestationView {
            admin: self.admin,
            fees: self.fees,
            roles: self.roles@,
            entries: self.entries@,
            ranges: self.ranges@,
            disputes: self.disputes@,
        }
    }
}

/// Whether entry `e` is the attestation of `(business, period)`.
pub open spec fn is_key(e: AttestationEntry, business: u64, period: Seq<char>) -> bool {
    e.business == business && e.period@ == period
}

pub open spec fn has_key(es: Seq<AttestationEntry>, business: u64, period: Seq<char>) -> bool {
    exists|i: int| 0 <= i < es.len() && is_key(#[trigger] es[i], business, period)
}

pub open spec fn key_index(es: Seq<AttestationEntry>, business: u64, period: Seq<char>) -> int {
    choose|i: int| 0 <= i < es.len() && is_key(#[trigger] es[i], business, period)
}

/// The stored attestation of `(business, period)`, if any.
pub open spec fn entry_of(es: Seq<AttestationEntry>, business: u64, period: Seq<char>) -> Option<
    AttestationEntry,
> {
    if has_key(es, business, period) {
        Some(es[key_index(es, business, period)])
    } else {
        None
    }
}

/// Whether the period ranges `[a1, b1]` and `[a2, b2]` share a period.
pub open spec fn ranges_overlap(a1: u32, b1: u32, a2: u32, b2: u32) -> bool {
    a1 <= b2 && a2 <= b1
}

/// Storage invariant: one attestation per `(business, period)`, well-formed
/// and pairwise disjoint ranges per business, dispute ids equal to positions.
pub open spec fn attestation_wf(s: AttestationView) -> bool {
    &&& forall|i: int, j: int|
        0 <= i < s.entries.len() && 0 <= j < s.entries.len() && i != j ==> !is_key(
            #[trigger] s.entries[i],
            s.entries[j].business,
            #[trigger] s.entries[j].period@,
        )
    &&& forall|i: int| 0 <= i < s.ranges.len() ==> (#[trigger] s.ranges[i]).start_period <= s.ranges[i].end_period
    &&& forall|i: int, j: int|
        0 <= i < s.ranges.len() && 0 <= j < s.ranges.len() && i != j && (#[trigger] s.ranges[i]).business
            == (#[trigger] s.ranges[j]).business ==> !ranges_overlap(
            s.ranges[i].start_period,
            s.ranges[i].end_period,
            s.ranges[j].start_period,
            s.ranges[j].end_period,
        )
    &&& forall|i: int| 0 <= i < s.disputes.len() ==> (#[trigger] s.disputes[i]).id == i
}

/// Whether `account` holds `role`.
pub open spec fn holds_role(s: AttestationView, account: u64, role: u32) -> bool {
    s.roles.contains((account, role))
}

/// The fee owed by a submission under the current fee configuration.
pub open spec fn fee_due(s: AttestationView) -> i128 {
    match s.fees {
        Some(f) => if f.enabled {
            f.base_fee
        } else {
            0
        },
        None => 0,
    }
}

pub open spec fn spec_initialize(s: AttestationView, admin: u64) -> (AttestationView, Result<(), AttestationError>) {
    if s.admin is Some {
        (s, Err(AttestationError::AlreadyInitialized))
    } else {
        (
            AttestationView {
                admin: Some(admin),
                roles: if s.roles.contains((admin, ROLE_ADMIN)) {
                    s.roles
                } else {
                    s.roles.push((admin, ROLE_ADMIN))
                },
                ..s
            },
            Ok(()),
        )
    }
}

/// The outcome of an admin-only call that replaces the view by `t` when allowed.
pub open spec fn admin_only(s: AttestationView, caller: u64, t: AttestationView) -> (AttestationView, Result<
    (),
    AttestationError,
>) {
    match s.admin {
        None => (s, Err(AttestationError::NotInitialized)),
        Some(admin) => if caller != admin {
            (s, Err(AttestationError::NotAdmin))
        } else {
            (t, Ok(()))
        },
    }
}

pub open spec fn spec_configure_fees(s: AttestationView, caller: u64, fees: FeeSettings) -> (AttestationView, Result<
    (),
    AttestationError,
>) {
    admin_only(s, caller, AttestationView { fees: Some(fees), ..s })
}

pub open spec fn spec_grant_role(s: AttestationView, caller: u64, account: u64, role: u32) -> (
    AttestationView,
    Result<(), AttestationError>,
) {
    admin_only(
        s,
        caller,
        AttestationView {
            roles: if s.roles.contains((account, role)) {
                s.roles
            } else {
                s.roles.push((account, role))
            },
            ..s
        },
    )
}

pub open spec fn spec_submit(
    s: AttestationView,
    signer: u64,
    business: u64,
    period: String,
    merkle_root: [u8; 32],
    timestamp: u64,
    version: u32,
    proof_hash: Option<[u8; 32]>,
    expiry_timestamp: Option<u64>,
) -> (AttestationView, Result<i128, AttestationError>) {
    if signer != business {
        (s, Err(AttestationError::NotAuthorized))
    } else if s.admin is None {
        (s, Err(AttestationError::NotInitialized))
    } else if has_key(s.entries, business, period@) {
        (s, Err(AttestationError::AttestationExists))
    } else {
        (
            AttestationView {
                entries: s.entries.push(
                    AttestationEntry {
                        business,
                        period,
                        data: (merkle_root, timestamp, version, fee_due(s), proof_hash, expiry_timestamp),
                        revoked: false,
                    },
                ),
                ..s
            },
            Ok(fee_due(s)),
        )
    }
}

/// The entries with the attestation of `(business, period)` replaced by `e`.
pub open spec fn replace_entry(es: Seq<AttestationEntry>, business: u64, period: Seq<char>, e: AttestationEntry) -> Seq<
    AttestationEntry,
> {
    es.update(key_index(es, business, period), e)
}

pub open spec fn spec_revoke(s: AttestationView, caller: u64, business: u64, period: Seq<char>) -> (
    AttestationView,
    Result<(), AttestationError>,
) {
    match s.admin {
        None => (s, Err(AttestationError::NotInitialized)),
        Some(admin) => if caller != admin {
            (s, Err(AttestationError::NotAdmin))
        } else if !has_key(s.entries, business, period) {
            (s, Err(AttestationError::NotFound))
        } else {
            let e = s.entries[key_index(s.entries, business, period)];
            (
                AttestationView {
                    entries: replace_entry(s.entries, business, period, AttestationEntry { revoked: true, ..e }),
                    ..s
                },
                Ok(()),
            )
        },
    }
}

pub open spec fn spec_migrate(
    s: AttestationView,
    caller: u64,
    business: u64,
    period: Seq<char>,
    new_root: [u8; 32],
    new_version: u32,
) -> (AttestationView, Result<(), AttestationError>) {
    match s.admin {
        None => (s, Err(AttestationError::NotInitialized)),
        Some(admin) => if caller != admin {
            (s, Err(AttestationError::NotAdmin))
        } else if !has_key(s.entries, business, period) {
            (s, Err(AttestationError::NotFound))
        } else if new_version <= s.entries[key_index(s.entries, business, period)].data.2 {
            (s, Err(AttestationError::VersionTooLow))
        } else {
            let e = s.entries[key_index(s.entries, business, period)];
            let d = e.data;
            (
                AttestationView {
                    entries: replace_entry(
                        s.entries,
                        business,
                        period,
                        AttestationEntry { data: (new_root, d.1, new_version, d.3, d.4, d.5), ..e },
                    ),
                    ..s
                },
                Ok(()),
            )
        },
    }
}

/// Whether some range of `business` shares a period with `[start, end]`.
pub open spec fn overlaps_existing(rs: Seq<PeriodRange>, business: u64, start: u32, end: u32) -> bool {
    exists|i: int|
        0 <= i < rs.len() && (#[trigger] rs[i]).business == business && ranges_overlap(
            rs[i].start_period,
            rs[i].end_period,
            start,
            end,
        )
}

pub open spec fn spec_submit_range(s: AttestationView, signer: u64, r: PeriodRange) -> (AttestationView, Result<
    (),
    AttestationError,
>) {
    if signer != r.business {
        (s, Err(AttestationError::NotAuthorized))
    } else if s.admin is None {
        (s, Err(AttestationError::NotInitialized))
    } else if r.start_period > r.end_period {
        (s, Err(AttestationError::InvalidRange))
    } else if overlaps_existing(s.ranges, r.business, r.start_period, r.end_period) {
        (s, Err(AttestationError::Overlap))
    } else {
        (AttestationView { ranges: s.ranges.push(r), ..s }, Ok(()))
    }
}

pub open spec fn spec_open_dispute(s: AttestationView, signer: u64, d: Dispute) -> (AttestationView, Result<
    u64,
    AttestationError,
>) {
    if signer != d.challenger {
        (s, Err(AttestationError::NotAuthorized))
    } else if s.admin is None {
        (s, Err(AttestationError::NotInitialized))
    } else if s.disputes.len() >= u64::MAX {
        (s, Err(AttestationError::DisputeIdOverflow))
    } else {
        (
            AttestationView {
                disputes: s.disputes.push(Dispute { id: s.disputes.len() as u64, ..d }),
                ..s
            },
            Ok(s.disputes.len() as u64),
        )
    }
}

/// What the contract holds for `(business, period)`.
pub open spec fn status_of(s: AttestationView, business: u64, period: Seq<char>) -> AttestationStatus {
    match entry_of(s.entries, business, period) {
        None => AttestationStatus::Missing,
        Some(e) => if e.revoked {
            AttestationStatus::Revoked
        } else {
            AttestationStatus::Active
        },
    }
}

/// Whether the attestation of `(business, period)` has an expiry at or before `now`.
pub open spec fn expired_at(s: AttestationView, business: u64, period: Seq<char>, now: u64) -> bool {
    match entry_of(s.entries, business, period) {
        None => false,
        Some(e) => match e.data.5 {
            None => false,
            Some(t) => t <= now,
        },
    }
}

proof fn lemma_replace_keeps_wf(s: AttestationView, business: u64, period: Seq<char>, e: AttestationEntry)
    requires
        attestation_wf(s),
        has_key(s.entries, business, period),
        is_key(e, business, period),
    ensures
        attestation_wf(AttestationView { entries: replace_entry(s.entries, business, period, e), ..s }),
        entry_of(replace_entry(s.entries, business, period, e), business, period) == Some(e),
        forall|b: u64, p: Seq<char>|
            !(b == business && p == period) ==> entry_of(replace_entry(s.entries, business, period, e), b, p)
                == entry_of(s.entries, b, p),
{
    let es = s.entries;
    let k = key_index(es, business, period);
    let t = replace_entry(es, business, period, e);
    assert forall|i: int, j: int|
        0 <= i < t.len() && 0 <= j < t.len() && i != j implies !is_key(
        #[trigger] t[i],
        t[j].business,
        #[trigger] t[j].period@,
    ) by {
        if i != k && j != k {
            assert(t[i] == es[i] && t[j] == es[j]);
        } else if i == k {
            assert(t[j] == es[j]);
            assert(!is_key(es[k], es[j].business, es[j].period@));
        } else {
            assert(t[i] == es[i]);
            assert(!is_key(es[i], es[k].business, es[k].period@));
        }
    }
    assert(is_key(t[k], business, period));
    assert(key_index(t, business, period) == k) by {
        let k2 = key_index(t, business, period);
        if k2 != k {
            assert(!is_key(t[k2], t[k].business, t[k].period@));
        }
    }
    assert forall|b: u64, p: Seq<char>| !(b == business && p == period) implies entry_of(t, b, p)
        == entry_of(es, b, p) by {
        if has_key(es, b, p) {
            let i = key_index(es, b, p);
            assert(i != k);
            assert(t[i] == es[i]);
            assert(is_key(t[i], b, p));
            let i2 = key_index(t, b, p);
            if i2 != i {
                assert(!is_key(t[i2], t[i].business, t[i].period@));
            }
        }
        if has_key(t, b, p) {
            let i = key_index(t, b, p);
            assert(i != k);
            assert(t[i] == es[i]);
            assert(is_key(es[i], b, p));
        }
    }
}

impl AttestationContract {
    /// The storage invariant: `attestation_wf` of the view, which every `law_*` over the view assumes.
    pub open spec fn wf(&self) -> bool {
        attestation_wf(self@)
    }

    /// Empty, uninitialized storage.
    pub fn new() -> (r: Self)
        ensures
            r.wf(),
            r@.admin is None,
            r@.fees is None,
            r@.roles.len() == 0,
            r@.entries.len() == 0,
            r@.ranges.len() == 0,
            r@.disputes.len() == 0,
    {
        AttestationContract {
            admin: None,
            fees: None,
            roles: Vec::new(),
            entries: Vec::new(),
            ranges: Vec::new(),
            disputes: Vec::new(),
        }
    }

    fn has_role_pair(&self, account: u64, role: u32) -> (r: bool)
        ensures
            r == self@.roles.contains((account, role)),
    {
        let mut i: usize = 0;
        while i < self.roles.len()
            invariant
                0 <= i <= self.roles@.len(),
                forall|j: int| 0 <= j < i ==> self.roles@[j] != (account, role),
            decreases self.roles@.len() - i,
        {
            let pair = self.roles[i];
            if pair.0 == account && pair.1 == role {
                assert(self.roles@[i as int] == (account, role));
                return true;
            }
            i = i + 1;
        }
        false
    }

    fn add_role(&mut self, account: u64, role: u32)
        ensures
            final(self)@ == (AttestationView {
                roles: if old(self)@.roles.contains((account, role)) {
                    old(self)@.roles
                } else {
                    old(self)@.roles.push((account, role))
                },
                ..old(self)@
            }),
    {
        if !self.has_role_pair(account, role) {
            self.roles.push((account, role));
        }
        assert(self@ =~= AttestationView {
            roles: if old(self)@.roles.contains((account, role)) {
                old(self)@.roles
            } else {
                old(self)@.roles.push((account, role))
            },
            ..old(self)@
        });
    }

    /// Stores the admin and grants it `ROLE_ADMIN`; refused once initialized.
    pub fn initialize(&mut self, admin: u64) -> (r: Result<(), AttestationError>)
        requires
            old(self).wf(),
        ensures
            final(self).wf(),
            (final(self)@, r) == spec_initialize(old(self)@, admin),
    {
        if self.admin.is_some() {
            return Err(AttestationError::AlreadyInitialized);
        }
        self.admin = Some(admin);
        self.add_role(admin, ROLE_ADMIN);
        assert(self@.entries == old(self)@.entries && self@.ranges == old(self)@.ranges
            && self@.disputes == old(self)@.disputes);
        Ok(())
    }

    /// The admin, if initialized.
    pub fn get_admin(&self) -> (r: Option<u64>)
        ensures
            r == self@.admin,
    {
        self.admin
    }

    /// The fee configuration, if configured.
    pub fn get_fee_config(&self) -> (r: Option<FeeSettings>)
        ensures
            r == self@.fees,
    {
        self.fees
    }

    /// Sets the fee configuration; admin only.
    pub fn configure_fees(&mut self, caller: u64, token: u64, collector: u64, base_fee: i128, enabled: bool) -> (r:
        Result<(), AttestationError>)
        requires
            old(self).wf(),
        ensures
            final(self).wf(),
            (final(self)@, r) == spec_configure_fees(
                old(self)@,
                caller,
                FeeSettings { token, collector, base_fee, enabled },
            ),
    {
        match self.admin {
            None => Err(AttestationError::NotInitialized),
            Some(admin) => {
                if caller != admin {
                    return Err(AttestationError::NotAdmin);
                }
                self.fees = Some(FeeSettings { token, collector, base_fee, enabled });
                assert(self@ =~= spec_configure_fees(
                    old(self)@,
                    caller,
                    FeeSettings { token, collector, base_fee, enabled },
                ).0);
                Ok(())
            },
        }
    }

    /// Grants `role` to `account`; admin only.
    pub fn grant_role(&mut self, caller: u64, account: u64, role: u32) -> (r: Result<(), AttestationError>)
        requires
            old(self).wf(),
        ensures
            final(self).wf(),
            (final(self)@, r) == spec_grant_role(old(self)@, caller, account, role),
    {
        match self.admin {
            None => Err(AttestationError::NotInitialized),
            Some(admin) => {
                if caller != admin {
                    return Err(AttestationError::NotAdmin);
                }
                self.add_role(account, role);
                Ok(())
            },
        }
    }

    /// Whether `account` holds `role`.
    pub fn has_role(&self, account: u64, role: u32) -> (r: bool)
        ensures
            r == holds_role(self@, account, role),
    {
        self.has_role_pair(account, role)
    }

    fn find(&self, business: u64, period: &String) -> (r: Option<usize>)
        requires
            self.wf(),
        ensures
            match r {
                Some(i) => has_key(self@.entries, business, period@) && i == key_index(
                    self@.entries,
                    business,
                    period@,
                ),
                None => !has_key(self@.entries, business, period@),
            },
    {
        let mut i: usize = 0;
        while i < self.entries.len()
            invariant
                0 <= i <= self.entries@.len(),
                self.wf(),
                forall|j: int| 0 <= j < i ==> !is_key(#[trigger] self.entries@[j], business, period@),
            decreases self.entries@.len() - i,
        {
            if self.entries[i].business == business && self.entries[i].period == *period {
                proof {
                    let es = self@.entries;
                    assert(is_key(es[i as int], business, period@));
                    let k = key_index(es, business, period@);
                    if k != i {
                        assert(is_key(es[k], business, period@));
                        assert(!is_key(es[k], es[i as int].business, es[i as int].period@));
                    }
                }
                return Some(i);
            }
            i = i + 1;
        }
        None
    }

    /// Stores `business`'s attestation for `period`; a second attestation of
    /// the same `(business, period)` is refused. Returns the fee owed under
    /// the current fee configuration, which is also recorded as `fee_paid`.
    pub fn submit_attestation(
        &mut self,
        signer: u64,
        business: u64,
        period: String,
        merkle_root: [u8; 32],
        timestamp: u64,
        version: u32,
        proof_hash: Option<[u8; 32]>,
        expiry_timestamp: Option<u64>,
    ) -> (r: Result<i128, AttestationError>)
        requires
            old(self).wf(),
        ensures
            final(self).wf(),
            (final(self)@, r) == spec_submit(
                old(self)@,
                signer,
                business,
                period,
                merkle_root,
                timestamp,
                version,
                proof_hash,
                expiry_timestamp,
            ),
    {
        if signer != business {
            return Err(AttestationError::NotAuthorized);
        }
        if self.admin.is_none() {
            return Err(AttestationError::NotInitialized);
        }
        if self.find(business, &period).is_some() {
            return Err(AttestationError::AttestationExists);
        }
        let fee = match self.fees {
            Some(f) => if f.enabled {
                f.base_fee
            } else {
                0
            },
            None => 0,
        };
        let ghost pg = period;
        self.entries.push(
            AttestationEntry {
                business,
                period,
                data: (merkle_root, timestamp, version, fee, proof_hash, expiry_timestamp),
                revoked: false,
            },
        );
        proof {
            let es = self@.entries;
            let os = old(self)@.entries;
            let n = os.len() as int;
            assert forall|i: int, j: int|
                0 <= i < es.len() && 0 <= j < es.len() && i != j implies !is_key(
                #[trigger] es[i],
                es[j].business,
                #[trigger] es[j].period@,
            ) by {
                if i < n && j < n {
                    assert(es[i] == os[i] && es[j] == os[j]);
                } else if i < n {
                    assert(es[i] == os[i]);
                    assert(!is_key(os[i], business, pg@));
                } else {
                    assert(es[j] == os[j]);
                    assert(!is_key(os[j], business, pg@));
                }
            }
        }
        assert(self@ =~= spec_submit(
            old(self)@,
            signer,
            business,
            pg,
            merkle_root,
            timestamp,
            version,
            proof_hash,
            expiry_timestamp,
        ).0);
        Ok(fee)
    }

    /// The stored attestation of `(business, period)`, if any.
    pub fn get_attestation(&self, business: u64, period: &String) -> (r: Option<AttestationData>)
        requires
            self.wf(),
        ensures
            r == (match entry_of(self@.entries, business, period@) {
                Some(e) => Some(e.data),
                None => None::<AttestationData>,
            }),
    {
        match self.find(business, period) {
            Some(i) => Some(self.entries[i].data),
            None => None,
        }
    }

    /// Whether the attestation of `(business, period)` is missing, revoked or active.
    pub fn get_attestation_status(&self, business: u64, period: &String) -> (r: AttestationStatus)
        requires
            self.wf(),
        ensures
            r == status_of(self@, business, period@),
    {
        match self.find(business, period) {
            Some(i) => if self.entries[i].revoked {
                AttestationStatus::Revoked
            } else {
                AttestationStatus::Active
            },
            None => AttestationStatus::Missing,
        }
    }

    /// Whether the attestation of `(business, period)` exists and is revoked.
    pub fn is_revoked(&self, business: u64, period: &String) -> (r: bool)
        requires
            self.wf(),
        ensures
            r == (status_of(self@, business, period@) == AttestationStatus::Revoked),
    {
        match self.find(business, period) {
            Some(i) => self.entries[i].revoked,
            None => false,
        }
    }

    /// Whether the attestation of `(business, period)` carries an expiry at or
    /// before `now`; false when it has none or does not exist.
    pub fn is_expired(&self, business: u64, period: &String, now: u64) -> (r: bool)
        requires
            self.wf(),
        ensures
            r == expired_at(self@, business, period@, now),
    {
        match self.find(business, period) {
            Some(i) => match self.entries[i].data.5 {
                Some(t) => t <= now,
                None => false,
            },
            None => false,
        }
    }

    /// Marks the attestation of `(business, period)` revoked; admin only.
    pub fn revoke_attestation(&mut self, caller: u64, business: u64, period: &String) -> (r: Result<
        (),
        AttestationError,
    >)
        requires
            old(self).wf(),
        ensures
            final(self).wf(),
            (final(self)@, r) == spec_revoke(old(self)@, caller, business, period@),
    {
        let admin = match self.admin {
            None => return Err(AttestationError::NotInitialized),
            Some(a) => a,
        };
        if caller != admin {
            return Err(AttestationError::NotAdmin);
        }
        let i = match self.find(business, period) {
            None => return Err(AttestationError::NotFound),
            Some(i) => i,
        };
        let e = &self.entries[i];
        let updated = AttestationEntry {
            business: e.business,
            period: e.period.clone(),
            data: e.data,
            revoked: true,
        };
        proof {
            lemma_replace_keeps_wf(self@, business, period@, updated);
        }
        self.entries.set(i, updated);
        assert(self@ =~= spec_revoke(old(self)@, caller, business, period@).0);
        Ok(())
    }

    /// Replaces the root of the attestation of `(business, period)` and raises
    /// its version; admin only, and the new version must be strictly greater.
    pub fn migrate_attestation(
        &mut self,
        caller: u64,
        business: u64,
        period: &String,
        new_root: [u8; 32],
        new_version: u32,
    ) -> (r: Result<(), AttestationError>)
        requires
            old(self).wf(),
        ensures
            final(self).wf(),
            (final(self)@, r) == spec_migrate(old(self)@, caller, business, period@, new_root, new_version),
    {
        let admin = match self.admin {
            None => return Err(AttestationError::NotInitialized),
            Some(a) => a,
        };
        if caller != admin {
            return Err(AttestationError::NotAdmin);
        }
        let i = match self.find(business, period) {
            None => return Err(AttestationError::NotFound),
            Some(i) => i,
        };
        let e = &self.entries[i];
        let d = e.data;
        if new_version <= d.2 {
            return Err(AttestationError::VersionTooLow);
        }
        let updated = AttestationEntry {
            business: e.business,
            period: e.period.clone(),
            data: (new_root, d.1, new_version, d.3, d.4, d.5),
            revoked: e.revoked,
        };
        proof {
            lemma_replace_keeps_wf(self@, business, period@, updated);
        }
        self.entries.set(i, updated);
        assert(self@ =~= spec_migrate(old(self)@, caller, business, period@, new_root, new_version).0);
        Ok(())
    }

    /// Stores `business`'s attestation of the periods `start_period..=end_period`;
    /// refused when the range is empty or shares a period with another range of
    /// the same business (adjacent ranges are fine).
    pub fn submit_multi_period_attestation(
        &mut self,
        signer: u64,
        business: u64,
        start_period: u32,
        end_period: u32,
        merkle_root: [u8; 32],
        timestamp: u64,
        version: u32,
    ) -> (r: Result<(), AttestationError>)
        requires
            old(self).wf(),
        ensures
            final(self).wf(),
            (final(self)@, r) == spec_submit_range(
                old(self)@,
                signer,
                PeriodRange { business, start_period, end_period, merkle_root, timestamp, version },
            ),
    {
        if signer != business {
            return Err(AttestationError::NotAuthorized);
        }
        if self.admin.is_none() {
            return Err(AttestationError::NotInitialized);
        }
        if start_period > end_period {
            return Err(AttestationError::InvalidRange);
        }
        let mut i: usize = 0;
        while i < self.ranges.len()
            invariant
                0 <= i <= self.ranges@.len(),
                self.wf(),
                self@ == old(self)@,
                self@.admin is Some,
                signer == business,
                start_period <= end_period,
                forall|j: int|
                    0 <= j < i ==> !((#[trigger] self.ranges@[j]).business == business && ranges_overlap(
                        self.ranges@[j].start_period,
                        self.ranges@[j].end_period,
                        start_period,
                        end_period,
                    )),
            decreases self.ranges@.len() - i,
        {
            let existing = self.ranges[i];
            if existing.business == business && existing.start_period <= end_period && start_period
                <= existing.end_period {
                assert(overlaps_existing(self@.ranges, business, start_period, end_period)) by {
                    assert(self@.ranges[i as int] == existing);
                }
                return Err(AttestationError::Overlap);
            }
            i = i + 1;
        }
        let range = PeriodRange { business, start_period, end_period, merkle_root, timestamp, version };
        self.ranges.push(range);
        proof {
            let rs = self@.ranges;
            let os = old(self)@.ranges;
            let n = os.len() as int;
            assert forall|a: int| 0 <= a < rs.len() implies (#[trigger] rs[a]).start_period
                <= rs[a].end_period by {
                if a < n {
                    assert(rs[a] == os[a]);
                }
            }
            assert forall|a: int, b: int|
                0 <= a < rs.len() && 0 <= b < rs.len() && a != b && (#[trigger] rs[a]).business
                    == (#[trigger] rs[b]).business implies !ranges_overlap(
                rs[a].start_period,
                rs[a].end_period,
                rs[b].start_period,
                rs[b].end_period,
            ) by {
                if a < n && b < n {
                    assert(rs[a] == os[a] && rs[b] == os[b]);
                } else if a < n {
                    assert(rs[a] == os[a]);
                } else {
                    assert(rs[b] == os[b]);
                }
            }
        }
        assert(self@ =~= spec_submit_range(old(self)@, signer, range).0);
        Ok(())
    }

    /// The stored period ranges of `business`, in submission order.
    pub fn get_period_ranges(&self, business: u64) -> (r: Vec<PeriodRange>)
        ensures
            r@ == self@.ranges.filter(|x: PeriodRange| x.business == business),
    {
        let ghost f = |x: PeriodRange| x.business == business;
        let mut out: Vec<PeriodRange> = Vec::new();
        let mut i: usize = 0;
        while i < self.ranges.len()
            invariant
                0 <= i <= self.ranges@.len(),
                f == (|x: PeriodRange| x.business == business),
                out@ == self@.ranges.take(i as int).filter(f),
            decreases self.ranges@.len() - i,
        {
            proof {
                let t = self@.ranges.take(i + 1);
                assert(self@.ranges.take(i as int) =~= t.drop_last());
                reveal(Seq::filter);
            }
            if self.ranges[i].business == business {
                out.push(self.ranges[i]);
            }
            i = i + 1;
        }
        assert(self@.ranges.take(self@.ranges.len() as int) =~= self@.ranges);
        out
    }

    /// Opens a dispute; the id is fresh (the number of disputes opened before).
    pub fn open_dispute(
        &mut self,
        signer: u64,
        challenger: u64,
        business: u64,
        period: String,
        dispute_type: DisputeType,
        evidence: String,
    ) -> (r: Result<u64, AttestationError>)
        requires
            old(self).wf(),
        ensures
            final(self).wf(),
            (final(self)@, r) == spec_open_dispute(
                old(self)@,
                signer,
                Dispute { id: 0, challenger, business, period, dispute_type, evidence },
            ),
    {
        if signer != challenger {
            return Err(AttestationError::NotAuthorized);
        }
        if self.admin.is_none() {
            return Err(AttestationError::NotInitialized);
        }
        let n = self.disputes.len();
        if n as u64 == u64::MAX {
            return Err(AttestationError::DisputeIdOverflow);
        }
        let id = n as u64;
        let ghost pg = period;
        let ghost eg = evidence;
        self.disputes.push(Dispute { id, challenger, business, period, dispute_type, evidence });
        proof {
            assert forall|k: int| 0 <= k < self@.disputes.len() implies (#[trigger] self@.disputes[k]).id
                == k by {
                if k < n {
                    assert(self@.disputes[k] == old(self)@.disputes[k]);
                }
            }
        }
        assert(self@ =~= spec_open_dispute(
            old(self)@,
            signer,
            Dispute { id: 0, challenger, business, period: pg, dispute_type, evidence: eg },
        ).0);
        Ok(id)
    }

    /// The dispute with id `id`, if it was opened.
    pub fn get_dispute(&self, id: u64) -> (r: Option<Dispute>)
        ensures
            r == (if id < self@.disputes.len() {
                Some(self@.disputes[id as int])
            } else {
                None::<Dispute>
            }),
    {
        if id < self.disputes.len() as u64 {
            Some(self.disputes[id as usize].clone())
        } else {
            None
        }
    }
}


proof fn lemma_push_new_key(es: Seq<AttestationEntry>, e: AttestationEntry)
    requires
        forall|i: int, j: int|
            0 <= i < es.len() && 0 <= j < es.len() && i != j ==> !is_key(
                #[trigger] es[i],
                es[j].business,
                #[trigger] es[j].period@,
            ),
        !has_key(es, e.business, e.period@),
    ensures
        entry_of(es.push(e), e.business, e.period@) == Some(e),
        forall|b: u64, p: Seq<char>|
            !(b == e.business && p == e.period@) ==> entry_of(es.push(e), b, p) == entry_of(es, b, p),
{
    let t = es.push(e);
    let n = es.len() as int;
    assert(is_key(t[n], e.business, e.period@));
    let k = key_index(t, e.business, e.period@);
    if k != n {
        assert(t[k] == es[k]);
    }
    assert forall|b: u64, p: Seq<char>| !(b == e.business && p == e.period@) implies entry_of(t, b, p)
        == entry_of(es, b, p) by {
        if has_key(es, b, p) {
            let i = key_index(es, b, p);
            assert(t[i] == es[i]);
            assert(is_key(t[i], b, p));
            let i2 = key_index(t, b, p);
            if i2 != i {
                assert(i2 != n);
                assert(t[i2] == es[i2]);
                assert(!is_key(es[i2], es[i].business, es[i].period@));
            }
        }
        if has_key(t, b, p) {
            let i = key_index(t, b, p);
            assert(i != n);
            assert(t[i] == es[i]);
            assert(is_key(es[i], b, p));
        }
    }
}

/// A submitted attestation reads back exactly as submitted (with the fee
/// owed at submission as `fee_paid`), other attestations are untouched, and
/// a second submission for the same `(business, period)` is refused.
pub proof fn law_submission_reads_back_and_is_unique(
    s: AttestationView,
    business: u64,
    period: String,
    merkle_root: [u8; 32],
    timestamp: u64,
    version: u32,
    proof_hash: Option<[u8; 32]>,
    expiry_timestamp: Option<u64>,
    root2: [u8; 32],
    timestamp2: u64,
    version2: u32,
    proof_hash2: Option<[u8; 32]>,
    expiry2: Option<u64>,
)
    requires
        attestation_wf(s),
        spec_submit(s, business, business, period, merkle_root, timestamp, version, proof_hash, expiry_timestamp).1 is Ok,
    ensures
        ({
            let t = spec_submit(s, business, business, period, merkle_root, timestamp, version, proof_hash, expiry_timestamp).0;
            &&& entry_of(t.entries, business, period@) matches Some(e) && e.data == (
                merkle_root,
                timestamp,
                version,
                fee_due(s),
                proof_hash,
                expiry_timestamp,
            ) && !e.revoked
            &&& status_of(t, business, period@) == AttestationStatus::Active
            &&& forall|b: u64, p: Seq<char>|
                !(b == business && p == period@) ==> entry_of(t.entries, b, p) == entry_of(s.entries, b, p)
            &&& spec_submit(t, business, business, period, root2, timestamp2, version2, proof_hash2, expiry2) == (t, Err::<
                i128,
                AttestationError,
            >(AttestationError::AttestationExists))
        }),
{
    let e = AttestationEntry {
        business,
        period,
        data: (merkle_root, timestamp, version, fee_due(s), proof_hash, expiry_timestamp),
        revoked: false,
    };
    lemma_push_new_key(s.entries, e);
    let t = spec_submit(s, business, business, period, merkle_root, timestamp, version, proof_hash, expiry_timestamp).0;
    assert(is_key(t.entries[s.entries.len() as int], business, period@));
}

/// Revocation: after the admin revokes the attestation of `(business,
/// period)` its status is `Revoked` and every other attestation is untouched.
pub proof fn law_revocation_is_targeted(s: AttestationView, caller: u64, business: u64, period: Seq<char>)
    requires
        attestation_wf(s),
        spec_revoke(s, caller, business, period).1 is Ok,
    ensures
        ({
            let t = spec_revoke(s, caller, business, period).0;
            &&& status_of(t, business, period) == AttestationStatus::Revoked
            &&& forall|b: u64, p: Seq<char>|
                !(b == business && p == period) ==> entry_of(t.entries, b, p) == entry_of(s.entries, b, p)
        }),
{
    let e = s.entries[key_index(s.entries, business, period)];
    lemma_replace_keeps_wf(s, business, period, AttestationEntry { revoked: true, ..e });
}

/// Migration only moves forward: it needs the admin, an existing attestation
/// and a strictly greater version, which it then stores with the new root.
pub proof fn law_migration_raises_version(
    s: AttestationView,
    caller: u64,
    business: u64,
    period: Seq<char>,
    new_root: [u8; 32],
    new_version: u32,
)
    requires
        attestation_wf(s),
        spec_migrate(s, caller, business, period, new_root, new_version).1 is Ok,
    ensures
        s.admin == Some(caller),
        entry_of(s.entries, business, period) matches Some(old_e) && old_e.data.2 < new_version,
        entry_of(spec_migrate(s, caller, business, period, new_root, new_version).0.entries, business, period) matches Some(
            e,
        ) && e.data.0 == new_root && e.data.2 == new_version,
{
    let e = s.entries[key_index(s.entries, business, period)];
    let d = e.data;
    lemma_replace_keeps_wf(
        s,
        business,
        period,
        AttestationEntry { data: (new_root, d.1, new_version, d.3, d.4, d.5), ..e },
    );
}

/// Period ranges of a business never overlap: a range is accepted exactly
/// when it is non-empty and shares no period with the business's ranges
/// (so adjacent ranges are accepted), and acceptance keeps them disjoint.
pub proof fn law_ranges_never_overlap(s: AttestationView, r: PeriodRange)
    requires
        attestation_wf(s),
        s.admin is Some,
    ensures
        spec_submit_range(s, r.business, r).1 is Ok <==> (r.start_period <= r.end_period && !overlaps_existing(
            s.ranges,
            r.business,
            r.start_period,
            r.end_period,
        )),
        attestation_wf(spec_submit_range(s, r.business, r).0),
{
    if spec_submit_range(s, r.business, r).1 is Ok {
        let t = spec_submit_range(s, r.business, r).0;
        let n = s.ranges.len() as int;
        assert forall|a: int, b: int|
            0 <= a < t.ranges.len() && 0 <= b < t.ranges.len() && a != b && (#[trigger] t.ranges[a]).business
                == (#[trigger] t.ranges[b]).business implies !ranges_overlap(
            t.ranges[a].start_period,
            t.ranges[a].end_period,
            t.ranges[b].start_period,
            t.ranges[b].end_period,
        ) by {
            if a < n && b < n {
                assert(t.ranges[a] == s.ranges[a] && t.ranges[b] == s.ranges[b]);
            } else if a < n {
                assert(t.ranges[a] == s.ranges[a]);
            } else {
                assert(t.ranges[b] == s.ranges[b]);
            }
        }
        assert forall|a: int| 0 <= a < t.ranges.len() implies (#[trigger] t.ranges[a]).start_period
            <= t.ranges[a].end_period by {
            if a < n {
                assert(t.ranges[a] == s.ranges[a]);
            }
        }
    }
}

/// Adjacent ranges, one ending where the next begins, do not overlap.
pub proof fn law_adjacent_ranges_do_not_overlap(start: u32, end: u32, next_end: u32)
    requires
        end < u32::MAX,
    ensures
        !ranges_overlap(start, end, (end + 1) as u32, next_end),
{
}

/// Every dispute gets a fresh id: two disputes opened one after the other
/// have different ids, and neither id was in use before.
pub proof fn law_dispute_ids_are_unique(s: AttestationView, d1: Dispute, d2: Dispute)
    requires
        attestation_wf(s),
        spec_open_dispute(s, d1.challenger, d1).1 is Ok,
        spec_open_dispute(spec_open_dispute(s, d1.challenger, d1).0, d2.challenger, d2).1 is Ok,
    ensures
        ({
            let id1 = spec_open_dispute(s, d1.challenger, d1).1->Ok_0;
            let id2 = spec_open_dispute(spec_open_dispute(s, d1.challenger, d1).0, d2.challenger, d2).1->Ok_0;
            &&& id1 != id2
            &&& forall|k: int| 0 <= k < s.disputes.len() ==> s.disputes[k].id != id1 && s.disputes[k].id != id2
        }),
{
}

/// Roles are granted only by the admin, and configuring fees grants none.
pub proof fn law_roles_change_only_by_admin_grant(
    s: AttestationView,
    caller: u64,
    account: u64,
    role: u32,
    fees: FeeSettings,
)
    ensures
        spec_configure_fees(s, caller, fees).0.roles == s.roles,
        spec_grant_role(s, caller, account, role).1 is Ok ==> s.admin == Some(caller),
        spec_grant_role(s, caller, account, role).1 is Err ==> spec_grant_role(s, caller, account, role).0 == s,
        spec_grant_role(s, caller, account, role).1 is Ok ==> holds_role(
            spec_grant_role(s, caller, account, role).0,
            account,
            role,
        ),
{
    if !s.roles.contains((account, role)) {
        assert(s.roles.push((account, role)).last() == (account, role));
    }
}

/// The admin is fixed by the first initialization: no entry point changes it.
pub proof fn law_admin_is_immutable(
    s: AttestationView,
    caller: u64,
    account: u64,
    role: u32,
    fees: FeeSettings,
    business: u64,
    period: String,
    root: [u8; 32],
    timestamp: u64,
    version: u32,
    proof_hash: Option<[u8; 32]>,
    expiry: Option<u64>,
    range: PeriodRange,
    d: Dispute,
    signer: u64,
)
    requires
        s.admin is Some,
    ensures
        spec_initialize(s, caller).0.admin == s.admin,
        spec_configure_fees(s, caller, fees).0.admin == s.admin,
        spec_grant_role(s, caller, account, role).0.admin == s.admin,
        spec_submit(s, signer, business, period, root, timestamp, version, proof_hash, expiry).0.admin == s.admin,
        spec_revoke(s, caller, business, period@).0.admin == s.admin,
        spec_migrate(s, caller, business, period@, root, version).0.admin == s.admin,
        spec_submit_range(s, signer, range).0.admin == s.admin,
        spec_open_dispute(s, signer, d).0.admin == s.admin,
{
}

/// A submitted range reads back exactly as submitted: after a successful
/// submission of `r`, the stored ranges are the earlier ones followed by `r`
/// with every field as given (business, periods, root, timestamp, version),
/// and the ranges listed for `r.business` end with `r`.
pub proof fn law_range_submission_reads_back(s: AttestationView, signer: u64, r: PeriodRange)
    requires
        spec_submit_range(s, signer, r).1 is Ok,
    ensures
        ({
            let t = spec_submit_range(s, signer, r).0;
            let mine = |x: PeriodRange| x.business == r.business;
            &&& t.ranges.len() == s.ranges.len() + 1
            &&& forall|i: int| 0 <= i < s.ranges.len() ==> #[trigger] t.ranges[i] == s.ranges[i]
            &&& t.ranges.last().business == r.business
            &&& t.ranges.last().start_period == r.start_period
            &&& t.ranges.last().end_period == r.end_period
            &&& t.ranges.last().merkle_root == r.merkle_root
            &&& t.ranges.last().timestamp == r.timestamp
            &&& t.ranges.last().version == r.version
            &&& t.ranges.filter(mine).len() == s.ranges.filter(mine).len() + 1
            &&& t.ranges.filter(mine).last() == t.ranges.last()
        }),
{
    let t = spec_submit_range(s, signer, r).0;
    let mine = |x: PeriodRange| x.business == r.business;
    s.ranges.lemma_filter_push(r, mine);
    assert(t.ranges == s.ranges.push(r));
}

/// An opened dispute reads back as opened: after a successful
/// `open_dispute`, the returned id is the number of disputes before, and the
/// dispute stored under it has that id and exactly the challenger, business,
/// period, kind and evidence passed in; earlier disputes are unchanged.
pub proof fn law_dispute_reads_back(s: AttestationView, signer: u64, d: Dispute)
    requires
        spec_open_dispute(s, signer, d).1 is Ok,
    ensures
        ({
            let (t, r) = spec_open_dispute(s, signer, d);
            let id = r->Ok_0;
            &&& id == s.disputes.len()
            &&& t.disputes.len() == s.disputes.len() + 1
            &&& t.disputes[id as int].id == id
            &&& t.disputes[id as int].challenger == d.challenger
            &&& t.disputes[id as int].business == d.business
            &&& t.disputes[id as int].period == d.period
            &&& t.disputes[id as int].dispute_type == d.dispute_type
            &&& t.disputes[id as int].evidence == d.evidence
            &&& forall|i: int| 0 <= i < s.disputes.len() ==> #[trigger] t.disputes[i] == s.disputes[i]
        }),
{
}

/// Initialization makes the admin a holder of `ROLE_ADMIN`: after a
/// successful `initialize(admin)` the admin is stored, holds `ROLE_ADMIN`,
/// and the role holdings are the earlier ones plus that one.
pub proof fn law_initialize_grants_admin_role(s: AttestationView, admin: u64)
    requires
        spec_initialize(s, admin).1 is Ok,
    ensures
        ({
            let t = spec_initialize(s, admin).0;
            &&& t.admin == Some(admin)
            &&& holds_role(t, admin, ROLE_ADMIN)
            &&& forall|a: u64, role: u32|
                holds_role(t, a, role) <==> (holds_role(s, a, role) || (a == admin && role == ROLE_ADMIN))
        }),
{
    let t = spec_initialize(s, admin).0;
    if !s.roles.contains((admin, ROLE_ADMIN)) {
        let n = s.roles.len() as int;
        assert(t.roles[n] == (admin, ROLE_ADMIN));
        assert forall|a: u64, role: u32|
            holds_role(t, a, role) <==> (holds_role(s, a, role) || (a == admin && role == ROLE_ADMIN)) by {
            if holds_role(s, a, role) {
                let j = choose|j: int| 0 <= j < s.roles.len() && s.roles[j] == (a, role);
                assert(t.roles[j] == (a, role));
            }
            if holds_role(t, a, role) && !(a == admin && role == ROLE_ADMIN) {
                let j = choose|j: int| 0 <= j < t.roles.len() && t.roles[j] == (a, role);
                assert(j < n);
                assert(s.roles[j] == (a, role));
            }
        }
    }
}

/// The admin's fee configuration reads back as given, and a granted role is
/// held afterwards; neither changes the admin or the attestations.
pub proof fn law_admin_settings_read_back(s: AttestationView, caller: u64, fees: FeeSettings, account: u64, role: u32)
    ensures
        spec_configure_fees(s, caller, fees).1 is Ok ==> {
            let t = spec_configure_fees(s, caller, fees).0;
            &&& t.fees matches Some(f) && f.token == fees.token && f.collector == fees.collector
                && f.base_fee == fees.base_fee && f.enabled == fees.enabled
            &&& t.admin == s.admin && t.roles == s.roles && t.entries == s.entries
        },
        spec_grant_role(s, caller, account, role).1 is Ok ==> {
            let t = spec_grant_role(s, caller, account, role).0;
            &&& holds_role(t, account, role)
            &&& forall|a: u64, x: u32| #[trigger] holds_role(s, a, x) ==> holds_role(t, a, x)
            &&& t.admin == s.admin && t.fees == s.fees && t.entries == s.entries
        },
{
    if spec_grant_role(s, caller, account, role).1 is Ok && !s.roles.contains((account, role)) {
        let t = spec_grant_role(s, caller, account, role).0;
        assert(t.roles[s.roles.len() as int] == (account, role));
        assert forall|a: u64, x: u32| #[trigger] holds_role(s, a, x) implies holds_role(t, a, x) by {
            let j = choose|j: int| 0 <= j < s.roles.len() && s.roles[j] == (a, x);
            assert(t.roles[j] == (a, x));
        }
    }
}

} // verus!
