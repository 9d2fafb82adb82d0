//! Access control of the attestation contract: every admin-gated and
//! authorization-gated entry point.

use veritasor::attestation::{
    AttestationContract, AttestationError, DisputeType, ROLE_ADMIN, ROLE_ATTESTOR, ROLE_BUSINESS,
    ROLE_OPERATOR,
};

fn ok<T>(r: Result<T, AttestationError>) -> T {
    match r {
        Ok(v) => v,
        Err(e) => panic!("{}", e.message()),
    }
}

/// An admin and a non-admin address.
fn setup() -> (u64, u64) {
    (1, 2)
}

fn deploy() -> AttestationContract {
    AttestationContract::new()
}

fn init(client: &mut AttestationContract, admin: u64) {
    ok(client.initialize(admin));
}

fn dummy_root() -> [u8; 32] {
    [0xABu8; 32]
}

fn other_root() -> [u8; 32] {
    [0xCDu8; 32]
}

fn s(v: &str) -> String {
    String::from(v)
}

/// Submits a bare single-period attestation signed by the business.
fn submit(client: &mut AttestationContract, business: u64, period: &str, root: [u8; 32]) {
    ok(client.submit_attestation(business, business, s(period), root, 1_700_000_000u64, 1u32, None, None));
}

// SI-001

#[test]
fn test_initialize_succeeds_first_call() {
    let (admin, _) = setup();
    let mut client = deploy();
    init(&mut client, admin);
    assert_eq!(client.get_admin(), Some(admin));
}

#[test]
#[should_panic(expected = "already initialized")]
fn test_initialize_rejects_second_call() {
    let (admin, non_admin) = setup();
    let mut client = deploy();
    init(&mut client, admin);
    ok(client.initialize(non_admin));
}

#[test]
#[should_panic(expected = "already initialized")]
fn test_initialize_rejects_same_admin_different_nonce() {
    let (admin, _) = setup();
    let mut client = deploy();
    ok(client.initialize(admin));
    ok(client.initialize(admin));
}

// SI-002

#[test]
fn test_configure_fees_by_admin_succeeds() {
    let (admin, _) = setup();
    let mut client = deploy();
    let token = 10;
    let collector = 11;
    init(&mut client, admin);
    ok(client.configure_fees(admin, token, collector, 1_000_i128, true));
}

#[test]
#[should_panic]
fn test_configure_fees_by_non_admin_panics() {
    let (admin, non_admin) = setup();
    let mut client = deploy();
    let token = 10;
    let collector = 11;
    init(&mut client, admin);
    ok(client.configure_fees(non_admin, token, collector, 1_000_i128, true));
}

#[test]
#[should_panic]
fn test_configure_fees_before_initialize_panics() {
    let (admin, _) = setup();
    let mut client = deploy();
    let token = 10;
    let collector = 11;
    ok(client.configure_fees(admin, token, collector, 1_000_i128, true));
}

// SI-003

#[test]
fn test_grant_role_attestor_by_admin_succeeds() {
    let (admin, _) = setup();
    let mut client = deploy();
    let account = 20;
    init(&mut client, admin);
    ok(client.grant_role(admin, account, ROLE_ATTESTOR));
    assert!(client.has_role(account, ROLE_ATTESTOR));
}

#[test]
fn test_grant_role_business_by_admin_succeeds() {
    let (admin, _) = setup();
    let mut client = deploy();
    let account = 20;
    init(&mut client, admin);
    ok(client.grant_role(admin, account, ROLE_BUSINESS));
    assert!(client.has_role(account, ROLE_BUSINESS));
}

#[test]
fn test_grant_role_operator_by_admin_succeeds() {
    let (admin, _) = setup();
    let mut client = deploy();
    let account = 20;
    init(&mut client, admin);
    ok(client.grant_role(admin, account, ROLE_OPERATOR));
    assert!(client.has_role(account, ROLE_OPERATOR));
}

#[test]
#[should_panic]
fn test_grant_role_by_non_admin_panics() {
    let (admin, non_admin) = setup();
    let mut client = deploy();
    let account = 20;
    init(&mut client, admin);
    ok(client.grant_role(non_admin, account, ROLE_ATTESTOR));
}

#[test]
#[should_panic]
fn test_grant_role_self_escalation_panics() {
    let (admin, _) = setup();
    let mut client = deploy();
    let account = 20;
    init(&mut client, admin);
    ok(client.grant_role(account, account, ROLE_ADMIN));
}

#[test]
fn test_has_role_returns_false_for_unknown_address() {
    let (admin, _) = setup();
    let mut client = deploy();
    let stranger = 30;
    init(&mut client, admin);
    assert!(!client.has_role(stranger, ROLE_ATTESTOR));
    assert!(!client.has_role(stranger, ROLE_BUSINESS));
    assert!(!client.has_role(stranger, ROLE_OPERATOR));
}

#[test]
#[should_panic]
fn test_grant_role_before_initialize_panics() {
    let mut client = deploy();
    let fake_admin = 40;
    let account = 20;
    ok(client.grant_role(fake_admin, account, ROLE_ATTESTOR));
}

// SI-004

#[test]
fn test_submit_attestation_by_business_succeeds() {
    let (admin, _) = setup();
    let mut client = deploy();
    let business = 50;
    init(&mut client, admin);
    submit(&mut client, business, "2024-01", dummy_root());
    assert!(client.get_attestation(business, &s("2024-01")).is_some());
}

#[test]
#[should_panic]
fn test_submit_attestation_by_impersonator_panics() {
    let (admin, impersonator) = setup();
    let mut client = deploy();
    let business = 50;
    init(&mut client, admin);
    ok(client.submit_attestation(
        impersonator,
        business,
        s("2024-01"),
        dummy_root(),
        1_700_000_000u64,
        1u32,
        None,
        None,
    ));
}

#[test]
#[should_panic(expected = "attestation exists")]
fn test_submit_duplicate_attestation_panics() {
    let (admin, _) = setup();
    let mut client = deploy();
    let business = 50;
    init(&mut client, admin);
    submit(&mut client, business, "2024-01", dummy_root());
    submit(&mut client, business, "2024-01", other_root());
}

#[test]
fn test_submit_attestation_different_periods_both_succeed() {
    let (admin, _) = setup();
    let mut client = deploy();
    let business = 50;
    init(&mut client, admin);
    submit(&mut client, business, "2024-01", dummy_root());
    submit(&mut client, business, "2024-02", other_root());
    assert!(client.get_attestation(business, &s("2024-01")).is_some());
    assert!(client.get_attestation(business, &s("2024-02")).is_some());
}

#[test]
fn test_submit_attestation_different_businesses_same_period_both_succeed() {
    let (admin, _) = setup();
    let mut client = deploy();
    let biz_a = 50;
    let biz_b = 51;
    init(&mut client, admin);
    submit(&mut client, biz_a, "2024-01", dummy_root());
    submit(&mut client, biz_b, "2024-01", other_root());
    assert!(client.get_attestation(biz_a, &s("2024-01")).is_some());
    assert!(client.get_attestation(biz_b, &s("2024-01")).is_some());
}

#[test]
#[should_panic]
fn test_submit_attestation_before_initialize_panics() {
    let mut client = deploy();
    let business = 50;
    submit(&mut client, business, "2024-01", dummy_root());
}

// SI-005

#[test]
fn test_revoke_attestation_by_admin_succeeds() {
    let (admin, _) = setup();
    let mut client = deploy();
    let business = 50;
    init(&mut client, admin);
    submit(&mut client, business, "2024-01", dummy_root());
    ok(client.revoke_attestation(admin, business, &s("2024-01")));
}

#[test]
#[should_panic]
fn test_revoke_attestation_by_non_admin_panics() {
    let (admin, non_admin) = setup();
    let mut client = deploy();
    let business = 50;
    init(&mut client, admin);
    submit(&mut client, business, "2024-01", dummy_root());
    ok(client.revoke_attestation(non_admin, business, &s("2024-01")));
}

#[test]
#[should_panic]
fn test_revoke_attestation_before_initialize_panics() {
    let mut client = deploy();
    let fake_admin = 40;
    let business = 50;
    ok(client.revoke_attestation(fake_admin, business, &s("2024-01")));
}

// SI-006

#[test]
fn test_migrate_attestation_by_admin_succeeds() {
    let (admin, _) = setup();
    let mut client = deploy();
    let business = 50;
    init(&mut client, admin);
    submit(&mut client, business, "2024-01", dummy_root());
    ok(client.migrate_attestation(admin, business, &s("2024-01"), other_root(), 2u32));
    let (root, _, ver, _, _, _) = client
        .get_attestation(business, &s("2024-01"))
        .expect("attestation must still exist after migration");
    assert_eq!(root, other_root());
    assert_eq!(ver, 2u32);
}

#[test]
#[should_panic]
fn test_migrate_attestation_by_non_admin_panics() {
    let (admin, non_admin) = setup();
    let mut client = deploy();
    let business = 50;
    init(&mut client, admin);
    submit(&mut client, business, "2024-01", dummy_root());
    ok(client.migrate_attestation(non_admin, business, &s("2024-01"), other_root(), 2u32));
}

#[test]
#[should_panic(expected = "version too low")]
fn test_migrate_attestation_same_version_panics() {
    let (admin, _) = setup();
    let mut client = deploy();
    let business = 50;
    init(&mut client, admin);
    submit(&mut client, business, "2024-01", dummy_root());
    ok(client.migrate_attestation(admin, business, &s("2024-01"), other_root(), 1u32));
}

#[test]
#[should_panic(expected = "version too low")]
fn test_migrate_attestation_lower_version_panics() {
    let (admin, _) = setup();
    let mut client = deploy();
    let business = 50;
    init(&mut client, admin);
    submit(&mut client, business, "2024-01", dummy_root());
    ok(client.migrate_attestation(admin, business, &s("2024-01"), other_root(), 5u32));
    ok(client.migrate_attestation(admin, business, &s("2024-01"), dummy_root(), 3u32));
}

#[test]
#[should_panic(expected = "not found")]
fn test_migrate_nonexistent_attestation_panics() {
    let (admin, _) = setup();
    let mut client = deploy();
    let business = 50;
    init(&mut client, admin);
    ok(client.migrate_attestation(admin, business, &s("9999-01"), other_root(), 2u32));
}

// SI-007

#[test]
fn test_submit_multi_period_by_business_succeeds() {
    let (admin, _) = setup();
    let mut client = deploy();
    let business = 50;
    init(&mut client, admin);
    ok(client.submit_multi_period_attestation(business, business, 202401u32, 202412u32, dummy_root(), 1_700_000_000u64, 1u32));
}

#[test]
#[should_panic]
fn test_submit_multi_period_by_impersonator_panics() {
    let (admin, impersonator) = setup();
    let mut client = deploy();
    let business = 50;
    init(&mut client, admin);
    ok(client.submit_multi_period_attestation(
        impersonator,
        business,
        202401u32,
        202412u32,
        dummy_root(),
        1_700_000_000u64,
        1u32,
    ));
}

#[test]
#[should_panic(expected = "overlap")]
fn test_submit_multi_period_overlap_panics() {
    let (admin, _) = setup();
    let mut client = deploy();
    let business = 50;
    init(&mut client, admin);
    ok(client.submit_multi_period_attestation(business, business, 202401u32, 202406u32, dummy_root(), 1_700_000_000u64, 1u32));
    ok(client.submit_multi_period_attestation(business, business, 202404u32, 202409u32, dummy_root(), 1_700_000_001u64, 1u32));
}

#[test]
fn test_submit_multi_period_non_overlapping_succeeds() {
    let (admin, _) = setup();
    let mut client = deploy();
    let business = 50;
    init(&mut client, admin);
    ok(client.submit_multi_period_attestation(business, business, 202401u32, 202406u32, dummy_root(), 1_700_000_000u64, 1u32));
    ok(client.submit_multi_period_attestation(business, business, 202407u32, 202412u32, dummy_root(), 1_700_000_001u64, 1u32));
}

// SI-008

#[test]
fn test_is_expired_no_expiry_returns_false() {
    let (admin, _) = setup();
    let mut client = deploy();
    let business = 50;
    init(&mut client, admin);
    ok(client.submit_attestation(business, business, s("2024-01"), dummy_root(), 1_700_000_000u64, 1u32, None, None));
    assert!(!client.is_expired(business, &s("2024-01"), 0));
}

#[test]
fn test_is_expired_far_future_returns_false() {
    let (admin, _) = setup();
    let mut client = deploy();
    let business = 50;
    init(&mut client, admin);
    let far_future: u64 = 4_102_444_800u64;
    ok(client.submit_attestation(
        business,
        business,
        s("2024-01"),
        dummy_root(),
        1_700_000_000u64,
        1u32,
        None,
        Some(far_future),
    ));
    assert!(!client.is_expired(business, &s("2024-01"), 0));
}

#[test]
fn test_is_expired_past_expiry_returns_true() {
    let (admin, _) = setup();
    let mut client = deploy();
    let business = 50;
    init(&mut client, admin);
    ok(client.submit_attestation(
        business,
        business,
        s("2024-01"),
        dummy_root(),
        1_700_000_000u64,
        1u32,
        None,
        Some(1u64),
    ));
    // The ledger clock of a running network is far beyond second 1.
    assert!(client.is_expired(business, &s("2024-01"), 1_700_000_000u64));
}

#[test]
fn test_is_expired_nonexistent_attestation_returns_false() {
    let (admin, _) = setup();
    let mut client = deploy();
    let business = 50;
    init(&mut client, admin);
    assert!(!client.is_expired(business, &s("9999-99"), 0));
}

// SI-009

#[test]
fn test_open_dispute_by_challenger_succeeds() {
    let (admin, _) = setup();
    let mut client = deploy();
    let challenger = 60;
    let business = 50;
    init(&mut client, admin);
    let id = ok(client.open_dispute(
        challenger,
        challenger,
        business,
        s("2024-01"),
        DisputeType::DataIntegrity,
        s("hash mismatch on revenue record"),
    ));
    let d = client.get_dispute(id).expect("dispute must be stored");
    assert_eq!(d.challenger, challenger);
    assert_eq!(d.business, business);
}

#[test]
fn test_open_dispute_multiple_have_unique_ids() {
    let (admin, _) = setup();
    let mut client = deploy();
    let challenger = 60;
    let business = 50;
    init(&mut client, admin);
    let id1 = ok(client.open_dispute(
        challenger,
        challenger,
        business,
        s("2024-01"),
        DisputeType::DataIntegrity,
        s("first evidence"),
    ));
    let id2 = ok(client.open_dispute(
        challenger,
        challenger,
        business,
        s("2024-01"),
        DisputeType::DataIntegrity,
        s("second evidence"),
    ));
    assert_ne!(id1, id2);
}

#[test]
#[should_panic]
fn test_open_dispute_by_impersonator_panics() {
    let (admin, impersonator) = setup();
    let mut client = deploy();
    let challenger = 60;
    let business = 50;
    init(&mut client, admin);
    ok(client.open_dispute(
        impersonator,
        challenger,
        business,
        s("2024-01"),
        DisputeType::DataIntegrity,
        s("fake evidence"),
    ));
}

#[test]
fn test_get_dispute_nonexistent_returns_none() {
    let (admin, _) = setup();
    let mut client = deploy();
    init(&mut client, admin);
    assert!(client.get_dispute(u64::MAX).is_none());
}

// SI-010

#[test]
fn test_get_admin_matches_initializer() {
    let (admin, _) = setup();
    let mut client = deploy();
    init(&mut client, admin);
    assert_eq!(client.get_admin(), Some(admin));
}

#[test]
fn test_get_admin_is_idempotent() {
    let (admin, _) = setup();
    let mut client = deploy();
    init(&mut client, admin);
    assert_eq!(client.get_admin(), client.get_admin());
}

#[test]
fn test_get_admin_does_not_return_non_admin() {
    let (admin, non_admin) = setup();
    let mut client = deploy();
    init(&mut client, admin);
    assert_ne!(client.get_admin(), Some(non_admin));
}

// SI-011

#[test]
fn test_fee_token_has_no_role_after_configure_fees() {
    let (admin, _) = setup();
    let mut client = deploy();
    let token = 10;
    let collector = 11;
    init(&mut client, admin);
    ok(client.configure_fees(admin, token, collector, 1_000_i128, true));
    assert!(!client.has_role(token, ROLE_ADMIN));
    assert!(!client.has_role(token, ROLE_ATTESTOR));
    assert!(!client.has_role(collector, ROLE_ADMIN));
}

#[test]
#[should_panic]
fn test_role_holder_cannot_configure_fees() {
    let (admin, _) = setup();
    let mut client = deploy();
    let operator = 70;
    let token = 10;
    let collector = 11;
    init(&mut client, admin);
    ok(client.grant_role(admin, operator, ROLE_OPERATOR));
    ok(client.configure_fees(operator, token, collector, 500_i128, true));
}

// SI-012

#[test]
#[should_panic]
fn test_caller_spoofing_revoke_panics() {
    let (admin, non_admin) = setup();
    let mut client = deploy();
    let business = 50;
    init(&mut client, admin);
    submit(&mut client, business, "2024-01", dummy_root());
    ok(client.revoke_attestation(non_admin, business, &s("2024-01")));
}

#[test]
#[should_panic]
fn test_caller_spoofing_migrate_panics() {
    let (admin, non_admin) = setup();
    let mut client = deploy();
    let business = 50;
    init(&mut client, admin);
    submit(&mut client, business, "2024-01", dummy_root());
    ok(client.migrate_attestation(non_admin, business, &s("2024-01"), other_root(), 2u32));
}

#[test]
#[should_panic]
fn test_caller_spoofing_grant_role_panics() {
    let (admin, non_admin) = setup();
    let mut client = deploy();
    let account = 20;
    init(&mut client, admin);
    ok(client.grant_role(non_admin, account, ROLE_ATTESTOR));
}

// SI-013

#[test]
fn test_get_attestation_nonexistent_returns_none() {
    let (admin, _) = setup();
    let mut client = deploy();
    let business = 50;
    init(&mut client, admin);
    assert!(client.get_attestation(business, &s("9999-01")).is_none());
}

#[test]
fn test_get_attestation_returns_correct_fields() {
    let (admin, _) = setup();
    let mut client = deploy();
    let business = 50;
    let root = dummy_root();
    init(&mut client, admin);
    ok(client.submit_attestation(business, business, s("2024-01"), root, 1_700_000_000u64, 3u32, None, None));
    let (stored_root, ts, ver, _fee, proof_hash, expiry) =
        client.get_attestation(business, &s("2024-01")).expect("attestation must exist");
    assert_eq!(stored_root, root);
    assert_eq!(ts, 1_700_000_000u64);
    assert_eq!(ver, 3u32);
    assert!(proof_hash.is_none());
    assert!(expiry.is_none());
}

#[test]
fn test_get_attestation_with_proof_hash_returns_hash() {
    let (admin, _) = setup();
    let mut client = deploy();
    let business = 50;
    let root = dummy_root();
    let proof = Some(other_root());
    init(&mut client, admin);
    ok(client.submit_attestation(business, business, s("2024-01"), root, 1_700_000_000u64, 1u32, proof, None));
    let (_, _, _, _, stored_proof, _) = client.get_attestation(business, &s("2024-01")).unwrap();
    assert_eq!(stored_proof, proof);
}

#[test]
fn test_get_attestation_with_expiry_returns_expiry() {
    let (admin, _) = setup();
    let mut client = deploy();
    let business = 50;
    let far_future: u64 = 4_102_444_800u64;
    init(&mut client, admin);
    ok(client.submit_attestation(
        business,
        business,
        s("2024-01"),
        dummy_root(),
        1_700_000_000u64,
        1u32,
        None,
        Some(far_future),
    ));
    let (_, _, _, _, _, expiry) = client.get_attestation(business, &s("2024-01")).unwrap();
    assert_eq!(expiry, Some(far_future));
}

// ---- further cases ----

#[test]
fn revocation_touches_only_its_period() {
    let (admin, _) = setup();
    let mut client = deploy();
    init(&mut client, admin);
    submit(&mut client, 50, "2024-01", dummy_root());
    submit(&mut client, 50, "2024-02", dummy_root());
    submit(&mut client, 51, "2024-01", dummy_root());
    ok(client.revoke_attestation(admin, 50, &s("2024-01")));
    assert!(client.is_revoked(50, &s("2024-01")));
    assert!(!client.is_revoked(50, &s("2024-02")));
    assert!(!client.is_revoked(51, &s("2024-01")));
    assert_eq!(
        client.revoke_attestation(admin, 50, &s("2099-01")),
        Err(AttestationError::NotFound)
    );
}

#[test]
fn migration_replaces_root_and_raises_version() {
    let (admin, _) = setup();
    let mut client = deploy();
    init(&mut client, admin);
    submit(&mut client, 50, "2024-01", dummy_root());
    ok(client.migrate_attestation(admin, 50, &s("2024-01"), other_root(), 3u32));
    let data = client.get_attestation(50, &s("2024-01")).unwrap();
    assert_eq!(data.0, other_root());
    assert_eq!(data.2, 3);
    assert_eq!(
        client.migrate_attestation(admin, 50, &s("2024-01"), dummy_root(), 3u32),
        Err(AttestationError::VersionTooLow)
    );
}

#[test]
fn ranges_adjacent_allowed_overlapping_and_inverted_refused() {
    let (admin, _) = setup();
    let mut client = deploy();
    init(&mut client, admin);
    let business = 60;
    ok(client.submit_multi_period_attestation(business, business, 202401, 202403, dummy_root(), 1, 1));
    ok(client.submit_multi_period_attestation(business, business, 202404, 202406, dummy_root(), 1, 1));
    assert_eq!(
        client.submit_multi_period_attestation(business, business, 202406, 202408, dummy_root(), 1, 1),
        Err(AttestationError::Overlap)
    );
    assert_eq!(
        client.submit_multi_period_attestation(business, business, 202412, 202410, dummy_root(), 1, 1),
        Err(AttestationError::InvalidRange)
    );
    ok(client.submit_multi_period_attestation(61, 61, 202401, 202412, dummy_root(), 1, 1));
    let ranges = client.get_period_ranges(business);
    assert_eq!(ranges.len(), 2);
    assert_eq!((ranges[1].start_period, ranges[1].end_period), (202404, 202406));
    assert_eq!(ranges[1].merkle_root, dummy_root());
}

#[test]
fn submission_owes_the_configured_fee() {
    let (admin, _) = setup();
    let mut client = deploy();
    init(&mut client, admin);
    let due = ok(client.submit_attestation(50, 50, s("2024-01"), dummy_root(), 1, 1, None, None));
    assert_eq!(due, 0);
    ok(client.configure_fees(admin, 10, 11, 250, true));
    let due = ok(client.submit_attestation(50, 50, s("2024-02"), dummy_root(), 1, 1, None, None));
    assert_eq!(due, 250);
    assert_eq!(client.get_attestation(50, &s("2024-02")).unwrap().3, 250);
    ok(client.configure_fees(admin, 10, 11, 250, false));
    let due = ok(client.submit_attestation(50, 50, s("2024-03"), dummy_root(), 1, 1, None, None));
    assert_eq!(due, 0);
}

#[test]
fn attestation_error_messages() {
    assert_eq!(AttestationError::Overlap.message(), "overlap");
    assert_eq!(AttestationError::InvalidRange.message(), "invalid period range");
    assert_eq!(AttestationError::NotAuthorized.message(), "not authorized by the required address");
}
