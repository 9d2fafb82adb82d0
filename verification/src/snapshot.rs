//! Attestation snapshots: periodic checkpoints of attestation-derived metrics
//! per `(business, period)`, written by the admin or by writers.
//!
//! One record is kept per `(business, period)`; recording again overwrites it
//! (last write wins) and the per-business index lists each period once, in
//! the order periods were first recorded. When an attestation contract is
//! configured, every write needs a non-revoked attestation for the same
//! `(business, period)`: the caller reads its status from that contract and
//! hands it in.

use crate::attestation::{
    attestation_wf, law_revocation_is_targeted, spec_revoke, status_of, AttestationStatus, AttestationView,
};
use std::collections::HashSet;
use vstd::prelude::*;

verus! {

broadcast use vstd::std_specs::hash::group_hash_axioms;

/// A snapshot of a business's metrics for one period.
#[derive(Debug)]
pub struct SnapshotRecord {
    pub period: String,
    pub trailing_revenue: i128,
    pub anomaly_count: u32,
    pub attestation_count: u64,
    pub recorded_at: u64,
}

impl Clone for SnapshotRecord {
    fn clone(&self) -> (r: Self)
        ensures
            r == *self,
    {
        SnapshotRecord {
            period: self.period.clone(),
            trailing_revenue: self.trailing_revenue,
            anomaly_count: self.anomaly_count,
            attestation_count: self.attestation_count,
            recorded_at: self.recorded_at,
        }
    }
}

/// Why a snapshot entry point refused a call.
#[derive(Clone, Copy, Debug, PartialEq, Eq, Structural)]
pub enum SnapshotError {
    /// "already initialized"
    AlreadyInitialized,
    /// "not initialized"
    NotInitialized,
    /// "caller is not admin"
    NotAdmin,
    /// "caller must be admin or writer"
    NotAdminOrWriter,
    /// "attestation must exist for this business and period"
    AttestationMissing,
    /// "attestation must not be revoked"
    AttestationRevoked,
}

/// The abort message of each refusal.
pub open spec fn snapshot_error_message(e: SnapshotError) -> Seq<char> {
    match e {
        SnapshotError::AlreadyInitialized => "already initialized"@,
        SnapshotError::NotInitialized => "not initialized"@,
        SnapshotError::NotAdmin => "caller is not admin"@,
        SnapshotError::NotAdminOrWriter => "caller must be admin or writer"@,
        SnapshotError::AttestationMissing => "attestation must exist for this business and period"@,
        SnapshotError::AttestationRevoked => "attestation must not be revoked"@,
    }
}

impl SnapshotError {
    /// The message the contract aborts with.
    pub fn message(&self) -> (r: &'static str)
        ensures
            r@ == snapshot_error_message(*self),
    {
        match self {
            SnapshotError::AlreadyInitialized => "already initialized",
            SnapshotError::NotInitialized => "not initialized",
            SnapshotError::NotAdmin => "caller is not admin",
            SnapshotError::NotAdminOrWriter => "caller must be admin or writer",
            SnapshotError::AttestationMissing => "attestation must exist for this business and period",
            SnapshotError::AttestationRevoked => "attestation must not be revoked",
        }
    }
}


/// The abstract storage: the admin, the optional attestation contract, the
/// writers, and the `(business, record)` entries in first-recording order.
#[verifier::ext_equal]
pub struct SnapshotView {
    pub admin: Option<u64>,
    pub attestation_contract: Option<u64>,
    pub writers: Set<u64>,
    pub entries: Seq<(u64, SnapshotRecord)>,
}

/// The snapshot contract's storage.
pub struct SnapshotContract {
    admin: Option<u64>,
    attestation_contract: Option<u64>,
    writers: HashSet<u64>,
    entries: Vec<(u64, SnapshotRecord)>,
}

impl View for SnapshotContract {
    type V = SnapshotView;

    closed spec fn view(&self) -> SnapshotView {
        SnapshotView {
            admin: self.admin,
            attestation_contract: self.attestation_contract,
            writers: self.writers@,
            entries: self.entries@,
        }
    }
}

/// Whether entry `e` is the record of `(business, period)`.
pub open spec fn is_key(e: (u64, SnapshotRecord), business: u64, period: Seq<char>) -> bool {
    e.0 == business && e.1.period@ == period
}

/// Whether some entry is the record of `(business, period)`.
pub open spec fn has_key(entries: Seq<(u64, SnapshotRecord)>, business: u64, period: Seq<char>) -> bool {
    exists|i: int| 0 <= i < entries.len() && is_key(#[trigger] entries[i], business, period)
}

/// The position of the record of `(business, period)` (meaningful when `has_key`).
pub open spec fn key_index(entries: Seq<(u64, SnapshotRecord)>, business: u64, period: Seq<char>) -> int {
    choose|i: int| 0 <= i < entries.len() && is_key(#[trigger] entries[i], business, period)
}

/// The snapshot stored for `(business, period)`, if any.
pub open spec fn snapshot_of(entries: Seq<(u64, SnapshotRecord)>, business: u64, period: Seq<char>) -> Option<
    SnapshotRecord,
> {
    if has_key(entries, business, period) {
        Some(entries[key_index(entries, business, period)].1)
    } else {
        None
    }
}

/// The records of `business`, in first-recording order.
pub open spec fn records_of(entries: Seq<(u64, SnapshotRecord)>, business: u64) -> Seq<SnapshotRecord>
    decreases entries.len(),
{
    if entries.len() == 0 {
        Seq::empty()
    } else {
        let prev = records_of(entries.drop_last(), business);
        if entries.last().0 == business {
            prev.push(entries.last().1)
        } else {
            prev
        }
    }
}

/// Storage invariant: at most one entry per `(business, period)`.
pub open spec fn snapshot_wf(s: SnapshotView) -> bool {
    forall|i: int, j: int|
        0 <= i < s.entries.len() && 0 <= j < s.entries.len() && i != j ==> !is_key(
            #[trigger] s.entries[i],
            s.entries[j].0,
            #[trigger] s.entries[j].1.period@,
        )
}

/// Whether `caller` may record snapshots.
pub open spec fn may_record(s: SnapshotView, caller: u64) -> bool {
    s.admin == Some(caller) || s.writers.contains(caller)
}

pub open spec fn spec_initialize(s: SnapshotView, admin: u64, attestation_contract: Option<u64>) -> (
    SnapshotView,
    Result<(), SnapshotError>,
) {
    if s.admin is Some {
        (s, Err(SnapshotError::AlreadyInitialized))
    } else {
        (SnapshotView { admin: Some(admin), attestation_contract, ..s }, Ok(()))
    }
}

/// The outcome of an admin-only call that replaces the view by `t` when allowed.
pub open spec fn admin_only(s: SnapshotView, caller: u64, t: SnapshotView) -> (SnapshotView, Result<
    (),
    SnapshotError,
>) {
    match s.admin {
        None => (s, Err(SnapshotError::NotInitialized)),
        Some(admin) => if caller != admin {
            (s, Err(SnapshotError::NotAdmin))
        } else {
            (t, Ok(()))
        },
    }
}

pub open spec fn spec_set_attestation_contract(s: SnapshotView, caller: u64, contract: Option<u64>) -> (
    SnapshotView,
    Result<(), SnapshotError>,
) {
    admin_only(s, caller, SnapshotView { attestation_contract: contract, ..s })
}

pub open spec fn spec_add_writer(s: SnapshotView, caller: u64, writer: u64) -> (SnapshotView, Result<
    (),
    SnapshotError,
>) {
    admin_only(s, caller, SnapshotView { writers: s.writers.insert(writer), ..s })
}

pub open spec fn spec_remove_writer(s: SnapshotView, caller: u64, writer: u64) -> (SnapshotView, Result<
    (),
    SnapshotError,
>) {
    admin_only(s, caller, SnapshotView { writers: s.writers.remove(writer), ..s })
}

/// The entries after storing `rec` for `business`: in place when its period
/// is already recorded for `business`, appended otherwise.
pub open spec fn store_record(entries: Seq<(u64, SnapshotRecord)>, business: u64, rec: SnapshotRecord) -> Seq<
    (u64, SnapshotRecord),
> {
    if has_key(entries, business, rec.period@) {
        entries.update(key_index(entries, business, rec.period@), (business, rec))
    } else {
        entries.push((business, rec))
    }
}

pub open spec fn spec_record_snapshot(
    s: SnapshotView,
    caller: u64,
    business: u64,
    rec: SnapshotRecord,
    attestation: AttestationStatus,
) -> (SnapshotView, Result<(), SnapshotError>) {
    if s.admin is None {
        (s, Err(SnapshotError::NotInitialized))
    } else if !may_record(s, caller) {
        (s, Err(SnapshotError::NotAdminOrWriter))
    } else if s.attestation_contract is Some && attestation == AttestationStatus::Missing {
        (s, Err(SnapshotError::AttestationMissing))
    } else if s.attestation_contract is Some && attestation == AttestationStatus::Revoked {
        (s, Err(SnapshotError::AttestationRevoked))
    } else {
        (SnapshotView { entries: store_record(s.entries, business, rec), ..s }, Ok(()))
    }
}

proof fn lemma_records_of_push(entries: Seq<(u64, SnapshotRecord)>, e: (u64, SnapshotRecord), b: u64)
    ensures
        records_of(entries.push(e), b) == (if e.0 == b {
            records_of(entries, b).push(e.1)
        } else {
            records_of(entries, b)
        }),
{
    assert(entries.push(e).drop_last() =~= entries);
}

proof fn lemma_records_of_update(
    entries: Seq<(u64, SnapshotRecord)>,
    k: int,
    e: (u64, SnapshotRecord),
    b: u64,
)
    requires
        0 <= k < entries.len(),
        entries[k].0 == e.0,
    ensures
        records_of(entries.update(k, e), b).len() == records_of(entries, b).len(),
        e.0 != b ==> records_of(entries.update(k, e), b) == records_of(entries, b),
    decreases entries.len(),
{
    let u = entries.update(k, e);
    if k == entries.len() - 1 {
        assert(u.drop_last() =~= entries.drop_last());
    } else {
        assert(u.drop_last() =~= entries.drop_last().update(k, e));
        lemma_records_of_update(entries.drop_last(), k, e, b);
    }
}

proof fn lemma_store_keeps_wf(s: SnapshotView, business: u64, rec: SnapshotRecord)
    requires
        snapshot_wf(s),
    ensures
        snapshot_wf(SnapshotView { entries: store_record(s.entries, business, rec), ..s }),
        snapshot_of(store_record(s.entries, business, rec), business, rec.period@) == Some(rec),
        forall|b: u64, p: Seq<char>|
            !(b == business && p == rec.period@) ==> snapshot_of(
                store_record(s.entries, business, rec),
                b,
                p,
            ) == snapshot_of(s.entries, b, p),
{
    let es = s.entries;
    let t = store_record(es, business, rec);
    let p0 = rec.period@;
    if has_key(es, business, p0) {
        let k = key_index(es, business, p0);
        assert(t.len() == es.len());
        assert forall|i: int, j: int|
            0 <= i < t.len() && 0 <= j < t.len() && i != j implies !is_key(
            #[trigger] t[i],
            t[j].0,
            #[trigger] t[j].1.period@,
        ) by {
            if i != k && j != k {
                assert(t[i] == es[i] && t[j] == es[j]);
            } else if i == k {
                assert(t[j] == es[j]);
            } else {
                assert(t[i] == es[i]);
            }
        }
        assert(is_key(t[k], business, p0));
        assert forall|b: u64, p: Seq<char>| !(b == business && p == p0) implies snapshot_of(t, b, p)
            == snapshot_of(es, b, p) by {
            if has_key(es, b, p) {
                let i = key_index(es, b, p);
                assert(i != k);
                assert(t[i] == es[i]);
                assert(is_key(t[i], b, p));
            }
            if has_key(t, b, p) {
                let i = key_index(t, b, p);
                assert(i != k);
                assert(t[i] == es[i]);
                assert(is_key(es[i], b, p));
            }
        }
    } else {
        let n = es.len() as int;
        assert(is_key(t[n], business, p0));
        assert forall|i: int, j: int|
            0 <= i < t.len() && 0 <= j < t.len() && i != j implies !is_key(
            #[trigger] t[i],
            t[j].0,
            #[trigger] t[j].1.period@,
        ) by {
            if i < n && j < n {
                assert(t[i] == es[i] && t[j] == es[j]);
            } else if i < n {
                assert(t[i] == es[i]);
                assert(!is_key(es[i], business, p0));
            } else {
                assert(t[j] == es[j]);
                assert(!is_key(es[j], business, p0));
            }
        }
        assert forall|b: u64, p: Seq<char>| !(b == business && p == p0) implies snapshot_of(t, b, p)
            == snapshot_of(es, b, p) by {
            if has_key(es, b, p) {
                let i = key_index(es, b, p);
                assert(t[i] == es[i]);
                assert(is_key(t[i], b, p));
            }
            if has_key(t, b, p) {
                let i = key_index(t, b, p);
                assert(i != n);
                assert(t[i] == es[i]);
                assert(is_key(es[i], b, p));
            }
        }
    }
}

impl SnapshotContract {
    /// The storage invariant: `snapshot_wf` of the view, which every `law_*` over the view assumes.
    pub open spec fn wf(&self) -> bool {
        snapshot_wf(self@)
    }

    /// Empty, uninitialized storage.
    pub fn new() -> (r: Self)
        ensures
            r.wf(),
            r@.admin is None,
            r@.attestation_contract is None,
            r@.writers == Set::<u64>::empty(),
            r@.entries.len() == 0,
    {
        SnapshotContract {
            admin: None,
            attestation_contract: None,
            writers: HashSet::new(),
            entries: Vec::new(),
        }
    }

    /// Sets the admin and the optional attestation contract; refused once initialized.
    pub fn initialize(&mut self, admin: u64, attestation_contract: Option<u64>) -> (r: Result<(), SnapshotError>)
        requires
            old(self).wf(),
        ensures
            final(self).wf(),
            (final(self)@, r) == spec_initialize(old(self)@, admin, attestation_contract),
    {
        if self.admin.is_some() {
            return Err(SnapshotError::AlreadyInitialized);
        }
        self.admin = Some(admin);
        self.attestation_contract = attestation_contract;
        assert(self@.entries == old(self)@.entries);
        Ok(())
    }

    /// The admin, if initialized.
    pub fn get_admin(&self) -> (r: Option<u64>)
        ensures
            r == self@.admin,
    {
        self.admin
    }

    /// The attestation contract that writes are checked against, if any.
    pub fn get_attestation_contract(&self) -> (r: Option<u64>)
        ensures
            r == self@.attestation_contract,
    {
        self.attestation_contract
    }

    /// Sets or clears the attestation contract; admin only.
    pub fn set_attestation_contract(&mut self, caller: u64, contract: Option<u64>) -> (r: Result<
        (),
        SnapshotError,
    >)
        requires
            old(self).wf(),
        ensures
            final(self).wf(),
            (final(self)@, r) == spec_set_attestation_contract(old(self)@, caller, contract),
    {
        match self.admin {
            None => Err(SnapshotError::NotInitialized),
            Some(admin) => {
                if caller != admin {
                    return Err(SnapshotError::NotAdmin);
                }
                self.attestation_contract = contract;
                assert(self@.entries == old(self)@.entries);
                Ok(())
            },
        }
    }

    /// Grants the writer role; admin only.
    pub fn add_writer(&mut self, caller: u64, writer: u64) -> (r: Result<(), SnapshotError>)
        requires
            old(self).wf(),
        ensures
            final(self).wf(),
            (final(self)@, r) == spec_add_writer(old(self)@, caller, writer),
    {
        match self.admin {
            None => Err(SnapshotError::NotInitialized),
            Some(admin) => {
                if caller != admin {
                    return Err(SnapshotError::NotAdmin);
                }
                self.writers.insert(writer);
                assert(self@.entries == old(self)@.entries);
                Ok(())
            },
        }
    }

    /// Revokes the writer role; admin only.
    pub fn remove_writer(&mut self, caller: u64, writer: u64) -> (r: Result<(), SnapshotError>)
        requires
            old(self).wf(),
        ensures
            final(self).wf(),
            (final(self)@, r) == spec_remove_writer(old(self)@, caller, writer),
    {
        match self.admin {
            None => Err(SnapshotError::NotInitialized),
            Some(admin) => {
                if caller != admin {
                    return Err(SnapshotError::NotAdmin);
                }
                self.writers.remove(&writer);
                assert(self@.entries == old(self)@.entries);
                Ok(())
            },
        }
    }

    /// Whether `account` holds the writer role.
    pub fn is_writer(&self, account: u64) -> (r: bool)
        ensures
            r == self@.writers.contains(account),
    {
        self.writers.contains(&account)
    }

    /// The position of the entry of `(business, period)`, if any.
    fn find(&self, business: u64, period: &String) -> (r: Option<usize>)
        requires
            self.wf(),
        ensures
            match r {
                Some(i) => has_key(self@.entries, business, period@) && i == key_index(
                    self@.entries,
                    business,
                    period@,
                ),
                None => !has_key(self@.entries, business, period@),
            },
    {
        let mut i: usize = 0;
        while i < self.entries.len()
            invariant
                0 <= i <= self.entries@.len(),
                self.wf(),
                forall|j: int| 0 <= j < i ==> !is_key(#[trigger] self.entries@[j], business, period@),
            decreases self.entries@.len() - i,
        {
            if self.entries[i].0 == business && self.entries[i].1.period == *period {
                proof {
                    assert(is_key(self@.entries[i as int], business, period@));
                    let k = key_index(self@.entries, business, period@);
                    if k != i {
                        assert(is_key(self@.entries[k], business, period@));
                        assert(!is_key(self@.entries[k], self@.entries[i as int].0, self@.entries[i as int].1.period@));
                    }
                }
                return Some(i);
            }
            i = i + 1;
        }
        None
    }

    /// Records a snapshot of `business` for `period` at ledger time `now`,
    /// overwriting any earlier snapshot of the same period. `attestation` is
    /// what the configured attestation contract holds for `(business, period)`;
    /// it is ignored when none is configured.
    pub fn record_snapshot(
        &mut self,
        caller: u64,
        business: u64,
        period: String,
        trailing_revenue: i128,
        anomaly_count: u32,
        attestation_count: u64,
        now: u64,
        attestation: AttestationStatus,
    ) -> (r: Result<(), SnapshotError>)
        requires
            old(self).wf(),
        ensures
            final(self).wf(),
            (final(self)@, r) == spec_record_snapshot(
                old(self)@,
                caller,
                business,
                SnapshotRecord { period, trailing_revenue, anomaly_count, attestation_count, recorded_at: now },
                attestation,
            ),
    {
        let admin = match self.admin {
            None => return Err(SnapshotError::NotInitialized),
            Some(a) => a,
        };
        if caller != admin && !self.writers.contains(&caller) {
            return Err(SnapshotError::NotAdminOrWriter);
        }
        if self.attestation_contract.is_some() {
            match attestation {
                AttestationStatus::Missing => return Err(SnapshotError::AttestationMissing),
                AttestationStatus::Revoked => return Err(SnapshotError::AttestationRevoked),
                AttestationStatus::Active => {},
            }
        }
        let ghost rec = SnapshotRecord {
            period,
            trailing_revenue,
            anomaly_count,
            attestation_count,
            recorded_at: now,
        };
        proof {
            lemma_store_keeps_wf(self@, business, rec);
        }
        let found = self.find(business, &period);
        let rec_exec = SnapshotRecord {
            period,
            trailing_revenue,
            anomaly_count,
            attestation_count,
            recorded_at: now,
        };
        match found {
            Some(i) => {
                self.entries.set(i, (business, rec_exec));
            },
            None => {
                self.entries.push((business, rec_exec));
            },
        }
        assert(self@ =~= spec_record_snapshot(old(self)@, caller, business, rec, attestation).0);
        Ok(())
    }

    /// The snapshot of `business` for `period`, if one was recorded.
    pub fn get_snapshot(&self, business: u64, period: &String) -> (r: Option<SnapshotRecord>)
        requires
            self.wf(),
        ensures
            r == snapshot_of(self@.entries, business, period@),
    {
        match self.find(business, period) {
            Some(i) => Some(self.entries[i].1.clone()),
            None => None,
        }
    }

    /// All snapshots of `business`, one per period, in the order the periods
    /// were first recorded.
    pub fn get_snapshots_for_business(&self, business: u64) -> (r: Vec<SnapshotRecord>)
        ensures
            r@ == records_of(self@.entries, business),
    {
        let mut out: Vec<SnapshotRecord> = Vec::new();
        let mut i: usize = 0;
        while i < self.entries.len()
            invariant
                0 <= i <= self.entries@.len(),
                out@ == records_of(self@.entries.take(i as int), business),
            decreases self.entries@.len() - i,
        {
            proof {
                assert(self@.entries.take(i + 1).drop_last() =~= self@.entries.take(i as int));
            }
            if self.entries[i].0 == business {
                out.push(self.entries[i].1.clone());
            }
            i = i + 1;
        }
        assert(self@.entries.take(self@.entries.len() as int) =~= self@.entries);
        out
    }
}


/// Last write wins, and only the written key changes: after a successful
/// record, the snapshot of `(business, period)` is exactly the new record,
/// while every other `(business, period)` pair (another business with the
/// same period, or another period of the same business) keeps its snapshot.
pub proof fn law_last_write_wins(
    s: SnapshotView,
    caller: u64,
    business: u64,
    rec: SnapshotRecord,
    attestation: AttestationStatus,
)
    requires
        snapshot_wf(s),
        spec_record_snapshot(s, caller, business, rec, attestation).1 is Ok,
    ensures
        ({
            let t = spec_record_snapshot(s, caller, business, rec, attestation).0;
            &&& snapshot_of(t.entries, business, rec.period@) == Some(rec)
            &&& forall|b: u64, p: Seq<char>|
                !(b == business && p == rec.period@) ==> snapshot_of(t.entries, b, p) == snapshot_of(
                    s.entries,
                    b,
                    p,
                )
        }),
{
    lemma_store_keeps_wf(s, business, rec);
}

/// Whether `rec` is the record of some entry of `business`.
pub open spec fn recorded_for(es: Seq<(u64, SnapshotRecord)>, business: u64, rec: SnapshotRecord) -> bool {
    exists|j: int| 0 <= j < es.len() && es[j].0 == business && rec == #[trigger] es[j].1
}

proof fn lemma_records_of_shape(es: Seq<(u64, SnapshotRecord)>, b: u64)
    requires
        forall|i: int, j: int|
            0 <= i < es.len() && 0 <= j < es.len() && i != j ==> !is_key(
                #[trigger] es[i],
                es[j].0,
                #[trigger] es[j].1.period@,
            ),
    ensures
        forall|k: int|
            0 <= k < records_of(es, b).len() ==> recorded_for(es, b, #[trigger] records_of(es, b)[k]),
        forall|k: int, l: int|
            0 <= k < l < records_of(es, b).len() ==> (#[trigger] records_of(es, b)[k]).period@
                != (#[trigger] records_of(es, b)[l]).period@,
    decreases es.len(),
{
    if es.len() > 0 {
        let pre = es.drop_last();
        assert forall|i: int, j: int|
            0 <= i < pre.len() && 0 <= j < pre.len() && i != j implies !is_key(
            #[trigger] pre[i],
            pre[j].0,
            #[trigger] pre[j].1.period@,
        ) by {
            assert(pre[i] == es[i] && pre[j] == es[j]);
        }
        lemma_records_of_shape(pre, b);
        let rp = records_of(pre, b);
        let r = records_of(es, b);
        let n = es.len() - 1;
        if es.last().0 == b {
            assert(r == rp.push(es.last().1));
            assert forall|k: int| 0 <= k < r.len() implies recorded_for(es, b, #[trigger] r[k]) by {
                if k < rp.len() {
                    assert(r[k] == rp[k]);
                    assert(recorded_for(pre, b, rp[k]));
                    let j = choose|j: int| 0 <= j < pre.len() && pre[j].0 == b && rp[k] == pre[j].1;
                    assert(es[j] == pre[j]);
                    assert(0 <= j < es.len() && es[j].0 == b && r[k] == es[j].1);
                } else {
                    assert(r[k] == es[n].1);
                    assert(es[n].0 == b);
                    assert(0 <= n < es.len() && es[n].0 == b && r[k] == es[n].1);
                }
            }
            assert forall|k: int, l: int| 0 <= k < l < r.len() implies (#[trigger] r[k]).period@
                != (#[trigger] r[l]).period@ by {
                if l < rp.len() {
                    assert(r[k] == rp[k] && r[l] == rp[l]);
                } else {
                    assert(r[k] == rp[k]);
                    assert(r[l] == es[n].1);
                    assert(recorded_for(pre, b, rp[k]));
                    let j = choose|j: int| 0 <= j < pre.len() && pre[j].0 == b && rp[k] == pre[j].1;
                    assert(es[j] == pre[j]);
                    assert(!is_key(es[j], es[n].0, es[n].1.period@));
                }
            }
        } else {
            assert(r == rp);
            assert forall|k: int| 0 <= k < r.len() implies recorded_for(es, b, #[trigger] r[k]) by {
                assert(recorded_for(pre, b, rp[k]));
                let j = choose|j: int| 0 <= j < pre.len() && pre[j].0 == b && rp[k] == pre[j].1;
                assert(es[j] == pre[j]);
                assert(0 <= j < es.len() && es[j].0 == b && r[k] == es[j].1);
            }
        }
    } else {
        assert(records_of(es, b).len() == 0);
    }
}

/// The per-business index never holds a period twice.
pub proof fn law_business_index_has_no_duplicates(s: SnapshotView, business: u64)
    requires
        snapshot_wf(s),
    ensures
        forall|k: int, l: int|
            0 <= k < l < records_of(s.entries, business).len() ==> (#[trigger] records_of(
                s.entries,
                business,
            )[k]).period@ != (#[trigger] records_of(s.entries, business)[l]).period@,
{
    lemma_records_of_shape(s.entries, business);
}

/// Re-recording an existing period does not grow the per-business index; a
/// new period adds exactly one entry; other businesses' indexes are untouched.
pub proof fn law_index_grows_only_for_new_periods(
    s: SnapshotView,
    caller: u64,
    business: u64,
    rec: SnapshotRecord,
    attestation: AttestationStatus,
    other: u64,
)
    requires
        snapshot_wf(s),
        spec_record_snapshot(s, caller, business, rec, attestation).1 is Ok,
        other != business,
    ensures
        ({
            let t = spec_record_snapshot(s, caller, business, rec, attestation).0;
            &&& records_of(t.entries, business).len() == records_of(s.entries, business).len() + (if has_key(
                s.entries,
                business,
                rec.period@,
            ) {
                0int
            } else {
                1int
            })
            &&& records_of(t.entries, other) == records_of(s.entries, other)
        }),
{
    let es = s.entries;
    if has_key(es, business, rec.period@) {
        let k = key_index(es, business, rec.period@);
        lemma_records_of_update(es, k, (business, rec), business);
        lemma_records_of_update(es, k, (business, rec), other);
    } else {
        lemma_records_of_push(es, (business, rec), business);
        lemma_records_of_push(es, (business, rec), other);
    }
}

/// Recording the same snapshot twice leaves the storage as recording it once.
pub proof fn law_rerecord_is_idempotent(
    s: SnapshotView,
    caller: u64,
    business: u64,
    rec: SnapshotRecord,
    attestation: AttestationStatus,
)
    requires
        snapshot_wf(s),
        spec_record_snapshot(s, caller, business, rec, attestation).1 is Ok,
    ensures
        ({
            let once = spec_record_snapshot(s, caller, business, rec, attestation).0;
            spec_record_snapshot(once, caller, business, rec, attestation) == (once, Ok::<(), SnapshotError>(()))
        }),
{
    let once = spec_record_snapshot(s, caller, business, rec, attestation).0;
    lemma_store_keeps_wf(s, business, rec);
    let es = once.entries;
    assert(has_key(es, business, rec.period@));
    let k = key_index(es, business, rec.period@);
    assert(es[k] == (business, rec));
    assert(es.update(k, (business, rec)) =~= es);
}

/// Overwrite semantics do not depend on who writes: any two callers allowed
/// to record (admin or writer) produce the same storage.
pub proof fn law_overwrite_is_role_agnostic(
    s: SnapshotView,
    caller1: u64,
    caller2: u64,
    business: u64,
    rec: SnapshotRecord,
    attestation: AttestationStatus,
)
    requires
        may_record(s, caller1),
        may_record(s, caller2),
    ensures
        spec_record_snapshot(s, caller1, business, rec, attestation) == spec_record_snapshot(
            s,
            caller2,
            business,
            rec,
            attestation,
        ),
{
}

/// Every write is checked: a caller that is neither admin nor writer is
/// refused and changes nothing, and with an attestation contract configured a
/// write without an active attestation is refused and changes nothing.
pub proof fn law_every_write_is_checked(
    s: SnapshotView,
    caller: u64,
    business: u64,
    rec: SnapshotRecord,
    attestation: AttestationStatus,
)
    requires
        s.admin is Some,
    ensures
        !may_record(s, caller) ==> spec_record_snapshot(s, caller, business, rec, attestation) == (s, Err::<
            (),
            SnapshotError,
        >(SnapshotError::NotAdminOrWriter)),
        s.attestation_contract is Some && attestation != AttestationStatus::Active
            ==> spec_record_snapshot(s, caller, business, rec, attestation).0 == s
            && spec_record_snapshot(s, caller, business, rec, attestation).1 is Err,
{
}

/// A removed writer can no longer record, unless it is the admin.
pub proof fn law_removed_writer_cannot_record(
    s: SnapshotView,
    admin: u64,
    writer: u64,
    business: u64,
    rec: SnapshotRecord,
    attestation: AttestationStatus,
)
    requires
        spec_remove_writer(s, admin, writer).1 is Ok,
        s.admin != Some(writer),
    ensures
        spec_record_snapshot(spec_remove_writer(s, admin, writer).0, writer, business, rec, attestation).1
            == Err::<(), SnapshotError>(SnapshotError::NotAdminOrWriter),
{
}

/// With an attestation contract configured, a write by an allowed caller
/// succeeds exactly when that contract holds an active attestation for the
/// same `(business, period)`; once the admin revokes that attestation the
/// period can no longer be recorded, even if it was recorded before.
pub proof fn law_write_needs_active_attestation(
    s: SnapshotView,
    att: AttestationView,
    caller: u64,
    business: u64,
    rec: SnapshotRecord,
    revoker: u64,
)
    requires
        s.admin is Some,
        s.attestation_contract is Some,
        may_record(s, caller),
        attestation_wf(att),
    ensures
        spec_record_snapshot(s, caller, business, rec, status_of(att, business, rec.period@)).1 is Ok
            <==> status_of(att, business, rec.period@) == AttestationStatus::Active,
        spec_revoke(att, revoker, business, rec.period@).1 is Ok ==> spec_record_snapshot(
            s,
            caller,
            business,
            rec,
            status_of(spec_revoke(att, revoker, business, rec.period@).0, business, rec.period@),
        ).1 == Err::<(), SnapshotError>(SnapshotError::AttestationRevoked),
{
    if spec_revoke(att, revoker, business, rec.period@).1 is Ok {
        law_revocation_is_targeted(att, revoker, business, rec.period@);
    }
}

/// A `record_snapshot` call: `(caller, business, record, attestation status read)`.
pub type RecordCall = (u64, u64, SnapshotRecord, AttestationStatus);

/// The storage after the calls, in order, starting from `s`.
pub open spec fn record_series(s: SnapshotView, calls: Seq<RecordCall>) -> SnapshotView
    decreases calls.len(),
{
    if calls.len() == 0 {
        s
    } else {
        let c = calls.last();
        spec_record_snapshot(record_series(s, calls.drop_last()), c.0, c.1, c.2, c.3).0
    }
}

/// Whether every call of the series succeeds in the storage it finds.
pub open spec fn series_succeeds(s: SnapshotView, calls: Seq<RecordCall>) -> bool
    decreases calls.len(),
{
    if calls.len() == 0 {
        true
    } else {
        let c = calls.last();
        series_succeeds(s, calls.drop_last()) && spec_record_snapshot(
            record_series(s, calls.drop_last()),
            c.0,
            c.1,
            c.2,
            c.3,
        ).1 is Ok
    }
}

/// The distinct periods recorded for `business` by the calls, in order of first recording.
pub open spec fn periods_recorded(calls: Seq<RecordCall>, business: u64) -> Seq<Seq<char>>
    decreases calls.len(),
{
    if calls.len() == 0 {
        Seq::empty()
    } else {
        let prev = periods_recorded(calls.drop_last(), business);
        let c = calls.last();
        if c.1 == business && !prev.contains(c.2.period@) {
            prev.push(c.2.period@)
        } else {
            prev
        }
    }
}

/// The record of the last call that recorded `(business, period)`, if any did.
pub open spec fn latest_record(calls: Seq<RecordCall>, business: u64, period: Seq<char>) -> Option<SnapshotRecord>
    decreases calls.len(),
{
    if calls.len() == 0 {
        None
    } else {
        let c = calls.last();
        if c.1 == business && c.2.period@ == period {
            Some(c.2)
        } else {
            latest_record(calls.drop_last(), business, period)
        }
    }
}

/// The periods of the per-business index, in order.
pub open spec fn index_periods(entries: Seq<(u64, SnapshotRecord)>, business: u64) -> Seq<Seq<char>>
    decreases entries.len(),
{
    if entries.len() == 0 {
        Seq::empty()
    } else {
        let prev = index_periods(entries.drop_last(), business);
        if entries.last().0 == business {
            prev.push(entries.last().1.period@)
        } else {
            prev
        }
    }
}

proof fn lemma_index_periods_match(entries: Seq<(u64, SnapshotRecord)>, b: u64)
    ensures
        index_periods(entries, b).len() == records_of(entries, b).len(),
        forall|i: int|
            0 <= i < records_of(entries, b).len() ==> (#[trigger] records_of(entries, b)[i]).period@
                == index_periods(entries, b)[i],
    decreases entries.len(),
{
    if entries.len() > 0 {
        lemma_index_periods_match(entries.drop_last(), b);
    }
}

proof fn lemma_index_periods_push(entries: Seq<(u64, SnapshotRecord)>, e: (u64, SnapshotRecord), b: u64)
    ensures
        index_periods(entries.push(e), b) == (if e.0 == b {
            index_periods(entries, b).push(e.1.period@)
        } else {
            index_periods(entries, b)
        }),
{
    assert(entries.push(e).drop_last() =~= entries);
}

proof fn lemma_index_periods_update(
    entries: Seq<(u64, SnapshotRecord)>,
    k: int,
    e: (u64, SnapshotRecord),
    b: u64,
)
    requires
        0 <= k < entries.len(),
        entries[k].0 == e.0,
        entries[k].1.period@ == e.1.period@,
    ensures
        index_periods(entries.update(k, e), b) == index_periods(entries, b),
    decreases entries.len(),
{
    let u = entries.update(k, e);
    if k == entries.len() - 1 {
        assert(u.drop_last() =~= entries.drop_last());
    } else {
        assert(u.drop_last() =~= entries.drop_last().update(k, e));
        lemma_index_periods_update(entries.drop_last(), k, e, b);
    }
}

proof fn lemma_latest_iff_recorded(calls: Seq<RecordCall>, b: u64, p: Seq<char>)
    ensures
        latest_record(calls, b, p) is Some <==> periods_recorded(calls, b).contains(p),
        periods_recorded(calls, b).no_duplicates(),
    decreases calls.len(),
{
    if calls.len() > 0 {
        let pre = calls.drop_last();
        lemma_latest_iff_recorded(pre, b, p);
        let prev = periods_recorded(pre, b);
        let c = calls.last();
        let q = c.2.period@;
        if c.1 == b && !prev.contains(q) {
            let cur = prev.push(q);
            assert(cur[prev.len() as int] == q);
            if prev.contains(p) {
                let j = choose|j: int| 0 <= j < prev.len() && prev[j] == p;
                assert(cur[j] == p);
            }
            if cur.contains(p) && p != q {
                let j = choose|j: int| 0 <= j < cur.len() && cur[j] == p;
                assert(j < prev.len());
                assert(prev[j] == p);
            }
            assert forall|i: int, j: int| 0 <= i < cur.len() && 0 <= j < cur.len() && i != j implies cur[i]
                != cur[j] by {
                if i < prev.len() && j < prev.len() {
                } else if i < prev.len() {
                    assert(cur[i] == prev[i]);
                    if cur[i] == cur[j] {
                        assert(prev.contains(q));
                    }
                } else {
                    assert(cur[j] == prev[j]);
                    if cur[i] == cur[j] {
                        assert(prev.contains(q));
                    }
                }
            }
        }
    }
}

proof fn lemma_series_index(s: SnapshotView, calls: Seq<RecordCall>, b: u64)
    requires
        snapshot_wf(s),
        s.entries.len() == 0,
        series_succeeds(s, calls),
    ensures
        snapshot_wf(record_series(s, calls)),
        index_periods(record_series(s, calls).entries, b) == periods_recorded(calls, b),
        forall|p: Seq<char>|
            #[trigger] snapshot_of(record_series(s, calls).entries, b, p) == latest_record(calls, b, p),
    decreases calls.len(),
{
    if calls.len() == 0 {
        assert forall|p: Seq<char>| #[trigger] snapshot_of(s.entries, b, p) == latest_record(calls, b, p) by {
            assert(!has_key(s.entries, b, p));
        }
    } else {
        let pre = calls.drop_last();
        lemma_series_index(s, pre, b);
        let prev = record_series(s, pre);
        let c = calls.last();
        let (caller, business, rec, status) = c;
        let p0 = rec.period@;
        let es = prev.entries;
        lemma_store_keeps_wf(prev, business, rec);
        let t = record_series(s, calls);
        assert(t.entries == store_record(es, business, rec));
        lemma_latest_iff_recorded(pre, b, p0);
        if has_key(es, business, p0) {
            let k = key_index(es, business, p0);
            lemma_index_periods_update(es, k, (business, rec), b);
            if business == b {
                assert(snapshot_of(es, b, p0) is Some);
            }
        } else {
            lemma_index_periods_push(es, (business, rec), b);
            if business == b {
                assert(snapshot_of(es, b, p0) is None);
            }
        }
        assert forall|p: Seq<char>| #[trigger] snapshot_of(t.entries, b, p) == latest_record(calls, b, p) by {
            assert(snapshot_of(es, b, p) == latest_record(pre, b, p));
        }
    }
}

/// The per-business index over any sequence of successful records, starting
/// from storage with no snapshots (as after `initialize`): with `P` the
/// distinct periods recorded for `business`, in order of first recording,
/// `get_snapshots_for_business` lists exactly one record per period of `P`,
/// in that order (re-recording a period never grows it), each the latest
/// write for its period and what `get_snapshot` returns for it; no record of
/// another business and no unrecorded period appears.
pub proof fn law_snapshot_index_over_calls(s: SnapshotView, calls: Seq<RecordCall>, business: u64)
    requires
        snapshot_wf(s),
        s.entries.len() == 0,
        series_succeeds(s, calls),
    ensures
        ({
            let t = record_series(s, calls);
            let index = records_of(t.entries, business);
            let periods = periods_recorded(calls, business);
            &&& periods.no_duplicates()
            &&& index.len() == periods.len()
            &&& forall|i: int|
                0 <= i < index.len() ==> {
                    &&& (#[trigger] index[i]).period@ == periods[i]
                    &&& latest_record(calls, business, periods[i]) == Some(index[i])
                    &&& snapshot_of(t.entries, business, periods[i]) == Some(index[i])
                }
            &&& forall|p: Seq<char>|
                #[trigger] snapshot_of(t.entries, business, p) == latest_record(calls, business, p)
        }),
{
    let t = record_series(s, calls);
    let es = t.entries;
    lemma_series_index(s, calls, business);
    lemma_index_periods_match(es, business);
    lemma_records_of_shape(es, business);
    let periods = periods_recorded(calls, business);
    lemma_latest_iff_recorded(calls, business, Seq::empty());
    let index = records_of(es, business);
    assert forall|i: int| 0 <= i < index.len() implies {
        &&& (#[trigger] index[i]).period@ == periods[i]
        &&& latest_record(calls, business, periods[i]) == Some(index[i])
        &&& snapshot_of(es, business, periods[i]) == Some(index[i])
    } by {
        assert(recorded_for(es, business, index[i]));
        let j = choose|j: int| 0 <= j < es.len() && es[j].0 == business && index[i] == #[trigger] es[j].1;
        assert(is_key(es[j], business, periods[i]));
        assert(has_key(es, business, periods[i]));
        let k = key_index(es, business, periods[i]);
        if k != j {
            assert(!is_key(es[k], es[j].0, es[j].1.period@));
        }
        assert(snapshot_of(es, business, periods[i]) == latest_record(calls, business, periods[i]));
    }
}

} // verus!
