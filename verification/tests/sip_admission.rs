//! The INVITE limiter. Times are nanoseconds on one clock.
use siphon_ai::net::IpAddr;
use siphon_ai::sip::admission::{AdmissionDecision, InviteAdmission};

fn ip(n: u8) -> IpAddr {
    IpAddr::V4(0x0a00_0000 + n as u32)
}

const T0: u64 = 5_000_000_000;
const SEC: u64 = 1_000_000_000;

#[test]
fn per_source_bucket_limits_then_drops() {
    // rate 2/s, burst 2, drop_after 2.
    let mut a = InviteAdmission::new(2, 2, 2, 0, 1000);
    // Two burst tokens admit.
    assert_eq!(a.check(ip(1), T0, 0), AdmissionDecision::Accept);
    assert_eq!(a.check(ip(1), T0, 0), AdmissionDecision::Accept);
    // Next two are 503 (rejects 1 and 2, both <= drop_after).
    assert_eq!(a.check(ip(1), T0, 0), AdmissionDecision::Reject503);
    assert_eq!(a.check(ip(1), T0, 0), AdmissionDecision::Reject503);
    // Third reject (> drop_after = 2) escalates to silent drop.
    assert_eq!(a.check(ip(1), T0, 0), AdmissionDecision::Drop);
}

#[test]
fn bucket_refills_over_time() {
    let mut a = InviteAdmission::new(2, 2, 5, 0, 1000);
    assert_eq!(a.check(ip(1), T0, 0), AdmissionDecision::Accept);
    assert_eq!(a.check(ip(1), T0, 0), AdmissionDecision::Accept);
    assert_eq!(a.check(ip(1), T0, 0), AdmissionDecision::Reject503);
    // One second later two tokens have come back.
    let t1 = T0 + SEC;
    assert_eq!(a.check(ip(1), t1, 0), AdmissionDecision::Accept);
    assert_eq!(a.check(ip(1), t1, 0), AdmissionDecision::Accept);
    assert_eq!(a.check(ip(1), t1, 0), AdmissionDecision::Reject503);
}

#[test]
fn sources_are_independent() {
    let mut a = InviteAdmission::new(1, 1, 5, 0, 1000);
    assert_eq!(a.check(ip(1), T0, 0), AdmissionDecision::Accept);
    assert_eq!(a.check(ip(1), T0, 0), AdmissionDecision::Reject503);
    // A different source has its own full bucket.
    assert_eq!(a.check(ip(2), T0, 0), AdmissionDecision::Accept);
}

#[test]
fn global_cap_rejects_when_at_limit() {
    let mut a = InviteAdmission::new(0, 0, 5, 3, 1000);
    // No per-source rate; under the cap: accept.
    assert_eq!(a.check(ip(1), T0, 2), AdmissionDecision::Accept);
    // At the cap: 503.
    assert_eq!(a.check(ip(1), T0, 3), AdmissionDecision::Reject503);
}

#[test]
fn table_is_bounded() {
    let mut a = InviteAdmission::new(1, 1, 5, 0, 4);
    for n in 0..20u8 {
        a.check(ip(n), T0, 0);
    }
    assert!(
        a.source_count() <= 4,
        "table should stay bounded at max_sources, got {}",
        a.source_count()
    );
}

#[test]
fn disabled_per_source_accepts() {
    // Only a global cap; per-source table is absent.
    let mut a = InviteAdmission::new(0, 0, 5, 0, 1000);
    for _ in 0..100 {
        assert_eq!(a.check(ip(1), T0, 0), AdmissionDecision::Accept);
    }
    assert_eq!(a.source_count(), 0);
}

#[test]
fn labels_of_the_decisions() {
    assert_eq!(AdmissionDecision::Accept.metric_result(), "accepted");
    assert_eq!(AdmissionDecision::Reject503.metric_result(), "rate_limited");
    assert_eq!(AdmissionDecision::Drop.metric_result(), "dropped");
}

#[test]
fn an_admitted_invite_forgives_earlier_rejects() {
    let mut a = InviteAdmission::new(1, 1, 1, 0, 10);
    assert_eq!(a.check(ip(1), T0, 0), AdmissionDecision::Accept);
    assert_eq!(a.check(ip(1), T0, 0), AdmissionDecision::Reject503);
    assert_eq!(a.check(ip(1), T0 + SEC, 0), AdmissionDecision::Accept);
    assert_eq!(a.check(ip(1), T0 + SEC, 0), AdmissionDecision::Reject503);
    assert_eq!(a.check(ip(1), T0 + SEC, 0), AdmissionDecision::Drop);
}

#[test]
fn a_full_table_does_not_forgive_a_flood() {
    let mut a = InviteAdmission::new(1, 1, 5, 0, 1);
    assert_eq!(a.check(ip(1), T0, 0), AdmissionDecision::Accept);
    assert_eq!(a.check(ip(1), T0, 0), AdmissionDecision::Reject503);
    assert_eq!(a.source_count(), 1);
    // A source that is new takes the one place.
    assert_eq!(a.check(ip(2), T0, 0), AdmissionDecision::Accept);
    assert_eq!(a.check(ip(2), T0, 0), AdmissionDecision::Reject503);
    assert_eq!(a.source_count(), 1);
}

#[test]
fn a_flood_gets_one_burst_and_the_rate() {
    let mut a = InviteAdmission::new(2, 4, 1000, 0, 1);
    let mut admitted = 0;
    for k in 0..100u64 {
        if a.check(ip(1), T0 + k * SEC / 10, 0) == AdmissionDecision::Accept {
            admitted += 1;
        }
    }
    // Four in the burst, and two for each of the 9.9 seconds.
    assert_eq!(admitted, 23);
}

#[test]
fn a_source_within_its_rate_is_admitted() {
    let mut a = InviteAdmission::new(10, 10, 5, 0, 4);
    // Empty the bucket, then keep to ten a second.
    for _ in 0..10 {
        assert_eq!(a.check(ip(1), T0, 0), AdmissionDecision::Accept);
    }
    assert_eq!(a.check(ip(1), T0, 0), AdmissionDecision::Reject503);
    for k in 1..50u64 {
        assert_eq!(a.check(ip(1), T0 + k * SEC / 10, 0), AdmissionDecision::Accept, "{k}");
    }
}
