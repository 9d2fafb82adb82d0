//! The documented interface of the contracts: the events, and the methods
//! and structs that the interface checks name, with lookups; and the result
//! record of an interface consistency check.

use vstd::prelude::*;

verus! {

/// A documented event: the contract that emits it, its name and its topic.
#[derive(Debug)]
pub struct EventSpec {
    pub contract: String,
    pub name: String,
    pub topic: String,
}

/// The documented events, as `(contract, name, topic)`.
pub open spec fn documented_events() -> Seq<(Seq<char>, Seq<char>, Seq<char>)> {
    seq![
        ("AttestationContract"@, "AttestationSubmitted"@, "att_sub"@),
        ("AttestationContract"@, "AttestationRevoked"@, "att_rev"@),
        ("AttestationContract"@, "AttestationMigrated"@, "att_mig"@),
        ("AttestationContract"@, "RoleGranted"@, "role_gr"@),
        ("AttestationContract"@, "RoleRevoked"@, "role_rv"@),
        ("AttestationContract"@, "ContractPaused"@, "paused"@),
        ("AttestationContract"@, "ContractUnpaused"@, "unpaus"@),
        ("AttestationContract"@, "FeeConfigChanged"@, "fee_cfg"@),
        ("IntegrationRegistryContract"@, "ProviderRegistered"@, "prv_reg"@),
        ("IntegrationRegistryContract"@, "ProviderEnabled"@, "prv_ena"@),
        ("IntegrationRegistryContract"@, "ProviderDeprecated"@, "prv_dep"@),
        ("IntegrationRegistryContract"@, "ProviderDisabled"@, "prv_dis"@),
        ("IntegrationRegistryContract"@, "ProviderUpdated"@, "prv_upd"@),
    ]
}

/// The view of an event record as `(contract, name, topic)`.
pub open spec fn event_view(e: EventSpec) -> (Seq<char>, Seq<char>, Seq<char>) {
    (e.contract@, e.name@, e.topic@)
}

fn event(contract: &str, name: &str, topic: &str) -> (r: EventSpec)
    ensures
        event_view(r) == (contract@, name@, topic@),
{
    EventSpec { contract: contract.to_owned(), name: name.to_owned(), topic: topic.to_owned() }
}

/// The documented events, in catalogue order.
pub fn get_expected_events() -> (r: Vec<EventSpec>)
    ensures
        r@.len() == documented_events().len(),
        forall|i: int| 0 <= i < r@.len() ==> event_view(#[trigger] r@[i]) == documented_events()[i],
{
    let mut v: Vec<EventSpec> = Vec::new();
    v.push(event("AttestationContract", "AttestationSubmitted", "att_sub"));
    v.push(event("AttestationContract", "AttestationRevoked", "att_rev"));
    v.push(event("AttestationContract", "AttestationMigrated", "att_mig"));
    v.push(event("AttestationContract", "RoleGranted", "role_gr"));
    v.push(event("AttestationContract", "RoleRevoked", "role_rv"));
    v.push(event("AttestationContract", "ContractPaused", "paused"));
    v.push(event("AttestationContract", "ContractUnpaused", "unpaus"));
    v.push(event("AttestationContract", "FeeConfigChanged", "fee_cfg"));
    v.push(event("IntegrationRegistryContract", "ProviderRegistered", "prv_reg"));
    v.push(event("IntegrationRegistryContract", "ProviderEnabled", "prv_ena"));
    v.push(event("IntegrationRegistryContract", "ProviderDeprecated", "prv_dep"));
    v.push(event("IntegrationRegistryContract", "ProviderDisabled", "prv_dis"));
    v.push(event("IntegrationRegistryContract", "ProviderUpdated", "prv_upd"));
    assert forall|i: int| 0 <= i < v@.len() implies event_view(#[trigger] v@[i]) == documented_events()[i] by {
    }
    v
}

/// The number of documented events.
pub fn get_event_count() -> (r: usize)
    ensures
        r == documented_events().len(),
{
    get_expected_events().len()
}

/// Whether `contract` documents an event called `name`.
pub fn is_event_documented(contract: &str, name: &str) -> (r: bool)
    ensures
        r == exists|i: int|
            0 <= i < documented_events().len() && (#[trigger] documented_events()[i]).0 == contract@
                && documented_events()[i].1 == name@,
{
    let events = get_expected_events();
    let c = contract.to_owned();
    let n = name.to_owned();
    let mut i: usize = 0;
    while i < events.len()
        invariant
            0 <= i <= events@.len(),
            events@.len() == documented_events().len(),
            forall|j: int| 0 <= j < events@.len() ==> event_view(#[trigger] events@[j]) == documented_events()[j],
            c@ == contract@,
            n@ == name@,
            forall|j: int|
                0 <= j < i ==> !((#[trigger] documented_events()[j]).0 == contract@ && documented_events()[j].1
                    == name@),
        decreases events@.len() - i,
    {
        let e = &events[i];
        if e.contract == c && e.name == n {
            assert(event_view(events@[i as int]) == documented_events()[i as int]);
            return true;
        }
        assert(event_view(events@[i as int]) == documented_events()[i as int]);
        i = i + 1;
    }
    false
}

/// An item of the documented interface: the contract it belongs to and its name.
#[derive(Debug)]
pub struct CatalogueEntry {
    pub contract: String,
    pub name: String,
}

/// The view of a catalogue entry as `(contract, name)`.
pub open spec fn entry_view(e: CatalogueEntry) -> (Seq<char>, Seq<char>) {
    (e.contract@, e.name@)
}

fn entry(contract: &str, name: &str) -> (r: CatalogueEntry)
    ensures
        entry_view(r) == (contract@, name@),
{
    CatalogueEntry { contract: contract.to_owned(), name: name.to_owned() }
}

/// The documented methods that the interface checks name, as `(contract, method)`:
/// every method of the attestation contract's documented surface, the
/// registry's provider registration, and each contract's `initialize` and
/// `get_admin`.
pub open spec fn documented_methods() -> Seq<(Seq<char>, Seq<char>)> {
    seq![
        ("AttestationContract"@, "initialize"@),
        ("AttestationContract"@, "initialize_multisig"@),
        ("AttestationContract"@, "configure_fees"@),
        ("AttestationContract"@, "set_tier_discount"@),
        ("AttestationContract"@, "set_business_tier"@),
        ("AttestationContract"@, "set_volume_brackets"@),
        ("AttestationContract"@, "set_fee_enabled"@),
        ("AttestationContract"@, "grant_role"@),
        ("AttestationContract"@, "revoke_role"@),
        ("AttestationContract"@, "has_role"@),
        ("AttestationContract"@, "get_roles"@),
        ("AttestationContract"@, "get_role_holders"@),
        ("AttestationContract"@, "pause"@),
        ("AttestationContract"@, "unpause"@),
        ("AttestationContract"@, "is_paused"@),
        ("AttestationContract"@, "submit_attestation"@),
        ("AttestationContract"@, "submit_attestation_with_metadata"@),
        ("AttestationContract"@, "revoke_attestation"@),
        ("AttestationContract"@, "migrate_attestation"@),
        ("AttestationContract"@, "is_revoked"@),
        ("AttestationContract"@, "get_attestation"@),
        ("AttestationContract"@, "get_attestation_metadata"@),
        ("AttestationContract"@, "verify_attestation"@),
        ("AttestationContract"@, "create_proposal"@),
        ("AttestationContract"@, "approve_proposal"@),
        ("AttestationContract"@, "reject_proposal"@),
        ("AttestationContract"@, "execute_proposal"@),
        ("AttestationContract"@, "get_proposal"@),
        ("AttestationContract"@, "get_approval_count"@),
        ("AttestationContract"@, "is_proposal_approved"@),
        ("AttestationContract"@, "get_multisig_owners"@),
        ("AttestationContract"@, "get_multisig_threshold"@),
        ("AttestationContract"@, "is_multisig_owner"@),
        ("AttestationContract"@, "get_fee_config"@),
        ("AttestationContract"@, "get_fee_quote"@),
        ("AttestationContract"@, "get_business_tier"@),
        ("AttestationContract"@, "get_business_count"@),
        ("AttestationContract"@, "get_admin"@),
        ("AggregatedAttestationsContract"@, "initialize"@),
        ("AggregatedAttestationsContract"@, "get_admin"@),
        ("AttestationSnapshotContract"@, "initialize"@),
        ("AttestationSnapshotContract"@, "get_admin"@),
        ("AuditLogContract"@, "initialize"@),
        ("AuditLogContract"@, "get_admin"@),
        ("IntegrationRegistryContract"@, "initialize"@),
        ("IntegrationRegistryContract"@, "get_admin"@),
        ("RevenueStreamContract"@, "initialize"@),
        ("RevenueStreamContract"@, "get_admin"@),
        ("IntegrationRegistryContract"@, "register_provider"@),
    ]
}

/// The documented structs that the interface checks name, as `(contract, struct)`.
pub open spec fn documented_structs() -> Seq<(Seq<char>, Seq<char>)> {
    seq![
        ("AttestationContract"@, "FeeConfig"@),
        ("AttestationContract"@, "Proposal"@),
        ("IntegrationRegistryContract"@, "Provider"@),
    ]
}

/// The documented methods, in catalogue order.
pub fn get_expected_methods() -> (r: Vec<CatalogueEntry>)
    ensures
        r@.len() == documented_methods().len(),
        forall|i: int| 0 <= i < r@.len() ==> entry_view(#[trigger] r@[i]) == documented_methods()[i],
{
    let mut v: Vec<CatalogueEntry> = Vec::new();
    v.push(entry("AttestationContract", "initialize"));
    v.push(entry("AttestationContract", "initialize_multisig"));
    v.push(entry("AttestationContract", "configure_fees"));
    v.push(entry("AttestationContract", "set_tier_discount"));
    v.push(entry("AttestationContract", "set_business_tier"));
    v.push(entry("AttestationContract", "set_volume_brackets"));
    v.push(entry("AttestationContract", "set_fee_enabled"));
    v.push(entry("AttestationContract", "grant_role"));
    v.push(entry("AttestationContract", "revoke_role"));
    v.push(entry("AttestationContract", "has_role"));
    v.push(entry("AttestationContract", "get_roles"));
    v.push(entry("AttestationContract", "get_role_holders"));
    v.push(entry("AttestationContract", "pause"));
    v.push(entry("AttestationContract", "unpause"));
    v.push(entry("AttestationContract", "is_paused"));
    v.push(entry("AttestationContract", "submit_attestation"));
    v.push(entry("AttestationContract", "submit_attestation_with_metadata"));
    v.push(entry("AttestationContract", "revoke_attestation"));
    v.push(entry("AttestationContract", "migrate_attestation"));
    v.push(entry("AttestationContract", "is_revoked"));
    v.push(entry("AttestationContract", "get_attestation"));
    v.push(entry("AttestationContract", "get_attestation_metadata"));
    v.push(entry("AttestationContract", "verify_attestation"));
    v.push(entry("AttestationContract", "create_proposal"));
    v.push(entry("AttestationContract", "approve_proposal"));
    v.push(entry("AttestationContract", "reject_proposal"));
    v.push(entry("AttestationContract", "execute_proposal"));
    v.push(entry("AttestationContract", "get_proposal"));
    v.push(entry("AttestationContract", "get_approval_count"));
    v.push(entry("AttestationContract", "is_proposal_approved"));
    v.push(entry("AttestationContract", "get_multisig_owners"));
    v.push(entry("AttestationContract", "get_multisig_threshold"));
    v.push(entry("AttestationContract", "is_multisig_owner"));
    v.push(entry("AttestationContract", "get_fee_config"));
    v.push(entry("AttestationContract", "get_fee_quote"));
    v.push(entry("AttestationContract", "get_business_tier"));
    v.push(entry("AttestationContract", "get_business_count"));
    v.push(entry("AttestationContract", "get_admin"));
    v.push(entry("AggregatedAttestationsContract", "initialize"));
    v.push(entry("AggregatedAttestationsContract", "get_admin"));
    v.push(entry("AttestationSnapshotContract", "initialize"));
    v.push(entry("AttestationSnapshotContract", "get_admin"));
    v.push(entry("AuditLogContract", "initialize"));
    v.push(entry("AuditLogContract", "get_admin"));
    v.push(entry("IntegrationRegistryContract", "initialize"));
    v.push(entry("IntegrationRegistryContract", "get_admin"));
    v.push(entry("RevenueStreamContract", "initialize"));
    v.push(entry("RevenueStreamContract", "get_admin"));
    v.push(entry("IntegrationRegistryContract", "register_provider"));
    assert forall|i: int| 0 <= i < v@.len() implies entry_view(#[trigger] v@[i]) == documented_methods()[i] by {
    }
    v
}

/// The documented structs, in catalogue order.
pub fn get_expected_structs() -> (r: Vec<CatalogueEntry>)
    ensures
        r@.len() == documented_structs().len(),
        forall|i: int| 0 <= i < r@.len() ==> entry_view(#[trigger] r@[i]) == documented_structs()[i],
{
    let mut v: Vec<CatalogueEntry> = Vec::new();
    v.push(entry("AttestationContract", "FeeConfig"));
    v.push(entry("AttestationContract", "Proposal"));
    v.push(entry("IntegrationRegistryContract", "Provider"));
    assert forall|i: int| 0 <= i < v@.len() implies entry_view(#[trigger] v@[i]) == documented_structs()[i] by {
    }
    v
}

/// Whether `entries` holds `(contract, name)`.
fn lists(entries: &Vec<CatalogueEntry>, contract: &str, name: &str) -> (r: bool)
    ensures
        r == exists|i: int|
            0 <= i < entries@.len() && entry_view(#[trigger] entries@[i]) == (contract@, name@),
{
    let c = contract.to_owned();
    let n = name.to_owned();
    let mut i: usize = 0;
    while i < entries.len()
        invariant
            0 <= i <= entries@.len(),
            c@ == contract@,
            n@ == name@,
            forall|j: int| 0 <= j < i ==> entry_view(#[trigger] entries@[j]) != (contract@, name@),
        decreases entries@.len() - i,
    {
        let e = &entries[i];
        if e.contract == c && e.name == n {
            assert(entry_view(entries@[i as int]) == (contract@, name@));
            return true;
        }
        i = i + 1;
    }
    false
}

/// Whether `contract` documents a method called `name`.
pub fn is_method_documented(contract: &str, name: &str) -> (r: bool)
    ensures
        r == documented_methods().contains((contract@, name@)),
{
    let methods = get_expected_methods();
    let r = lists(&methods, contract, name);
    proof {
        if r {
            let i = choose|i: int| 0 <= i < methods@.len() && entry_view(#[trigger] methods@[i]) == (contract@, name@);
            assert(documented_methods()[i] == (contract@, name@));
        }
        if documented_methods().contains((contract@, name@)) {
            let i = choose|i: int| 0 <= i < documented_methods().len() && documented_methods()[i] == (contract@, name@);
            assert(entry_view(methods@[i]) == (contract@, name@));
        }
    }
    r
}

/// Whether `contract` documents a struct called `name`.
pub fn is_struct_documented(contract: &str, name: &str) -> (r: bool)
    ensures
        r == documented_structs().contains((contract@, name@)),
{
    let structs = get_expected_structs();
    let r = lists(&structs, contract, name);
    proof {
        if r {
            let i = choose|i: int| 0 <= i < structs@.len() && entry_view(#[trigger] structs@[i]) == (contract@, name@);
            assert(documented_structs()[i] == (contract@, name@));
        }
        if documented_structs().contains((contract@, name@)) {
            let i = choose|i: int| 0 <= i < documented_structs().len() && documented_structs()[i] == (contract@, name@);
            assert(entry_view(structs@[i]) == (contract@, name@));
        }
    }
    r
}

/// The outcome of an interface consistency check; any finding clears `passed`.
#[derive(Debug)]
pub struct VerificationResult {
    pub passed: bool,
    pub missing_methods: Vec<String>,
    pub undocumented_methods: Vec<String>,
    pub missing_events: Vec<String>,
    pub missing_structs: Vec<String>,
    pub errors: Vec<String>,
}

impl VerificationResult {
    /// A passing result with no findings.
    pub fn new() -> (r: Self)
        ensures
            r.passed,
            r.missing_methods@.len() == 0,
            r.undocumented_methods@.len() == 0,
            r.missing_events@.len() == 0,
            r.missing_structs@.len() == 0,
            r.errors@.len() == 0,
    {
        VerificationResult {
            passed: true,
            missing_methods: Vec::new(),
            undocumented_methods: Vec::new(),
            missing_events: Vec::new(),
            missing_structs: Vec::new(),
            errors: Vec::new(),
        }
    }

    /// Records a documented method that no contract implements.
    pub fn add_missing_method(&mut self, name: String)
        ensures
            !final(self).passed,
            final(self).missing_methods@ == old(self).missing_methods@.push(name),
            final(self).undocumented_methods@ == old(self).undocumented_methods@,
            final(self).missing_events@ == old(self).missing_events@,
            final(self).missing_structs@ == old(self).missing_structs@,
            final(self).errors@ == old(self).errors@,
    {
        self.passed = false;
        self.missing_methods.push(name);
    }

    /// Records an implemented method that the documentation lacks.
    pub fn add_undocumented_method(&mut self, name: String)
        ensures
            !final(self).passed,
            final(self).undocumented_methods@ == old(self).undocumented_methods@.push(name),
            final(self).missing_methods@ == old(self).missing_methods@,
            final(self).missing_events@ == old(self).missing_events@,
            final(self).missing_structs@ == old(self).missing_structs@,
            final(self).errors@ == old(self).errors@,
    {
        self.passed = false;
        self.undocumented_methods.push(name);
    }

    /// Records a documented event that no contract emits.
    pub fn add_missing_event(&mut self, name: String)
        ensures
            !final(self).passed,
            final(self).missing_events@ == old(self).missing_events@.push(name),
            final(self).missing_methods@ == old(self).missing_methods@,
            final(self).undocumented_methods@ == old(self).undocumented_methods@,
            final(self).missing_structs@ == old(self).missing_structs@,
            final(self).errors@ == old(self).errors@,
    {
        self.passed = false;
        self.missing_events.push(name);
    }

    /// Records a documented struct that no contract defines.
    pub fn add_missing_struct(&mut self, name: String)
        ensures
            !final(self).passed,
            final(self).missing_structs@ == old(self).missing_structs@.push(name),
            final(self).missing_methods@ == old(self).missing_methods@,
            final(self).undocumented_methods@ == old(self).undocumented_methods@,
            final(self).missing_events@ == old(self).missing_events@,
            final(self).errors@ == old(self).errors@,
    {
        self.passed = false;
        self.missing_structs.push(name);
    }

    /// Records any other finding.
    pub fn add_error(&mut self, message: String)
        ensures
            !final(self).passed,
            final(self).errors@ == old(self).errors@.push(message),
            final(self).missing_methods@ == old(self).missing_methods@,
            final(self).undocumented_methods@ == old(self).undocumented_methods@,
            final(self).missing_events@ == old(self).missing_events@,
            final(self).missing_structs@ == old(self).missing_structs@,
    {
        self.passed = false;
        self.errors.push(message);
    }
}

} // verus!
