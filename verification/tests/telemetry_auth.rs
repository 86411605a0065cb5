//! Admin tokens, roles and what each endpoint asks for.
use siphon_ai::telemetry::admin_route::Method;
use siphon_ai::telemetry::auth::{
    bearer_token, min_role, route_label, AdminAuth, AdminToken, AuthReject, Role,
};

#[test]
fn roles_are_ordered_readonly_lt_operator_lt_admin() {
    assert!(Role::ReadOnly < Role::Operator);
    assert!(Role::Operator < Role::Admin);
    assert!(Role::Admin >= Role::Operator);
    assert!(Role::Admin >= Role::ReadOnly);
}

#[test]
fn role_parse_round_trips_and_rejects_unknown() {
    for r in [Role::ReadOnly, Role::Operator, Role::Admin] {
        assert_eq!(Role::parse(r.as_str()), Some(r));
    }
    assert_eq!(Role::parse("Admin"), None); // case-sensitive
    assert_eq!(Role::parse("root"), None);
    assert_eq!(Role::parse(""), None);
}

#[test]
fn bearer_extraction() {
    assert_eq!(bearer_token("Bearer abc123"), Some("abc123"));
    assert_eq!(bearer_token("bearer abc123"), Some("abc123")); // scheme ci
    assert_eq!(bearer_token("Bearer   spaced  "), Some("spaced"));
    assert_eq!(bearer_token("Basic abc123"), None);
    assert_eq!(bearer_token("abc123"), None);
    assert_eq!(bearer_token("Bearer "), None);
}

fn auth() -> AdminAuth {
    AdminAuth::new(vec![
        AdminToken::new("ro", "ro-secret", Role::ReadOnly),
        AdminToken::new("op", "op-secret", Role::Operator),
        AdminToken::new("ad", "ad-secret", Role::Admin),
    ])
}

#[test]
fn authenticate_matches_only_the_right_token() {
    let a = auth();
    assert_eq!(
        a.authenticate("op-secret").map(|t| t.role),
        Some(Role::Operator)
    );
    assert_eq!(a.authenticate("ad-secret").map(|t| &*t.name), Some("ad"));
    assert!(a.authenticate("nope").is_none());
    assert!(a.authenticate("").is_none());
}

#[test]
fn authorize_401_without_or_with_bad_token() {
    let a = auth();
    assert_eq!(
        a.authorize(Method::Get, "/admin/calls", None).unwrap_err(),
        AuthReject::Unauthenticated
    );
    assert_eq!(
        a.authorize(Method::Get, "/admin/calls", Some("Bearer wrong"))
            .unwrap_err(),
        AuthReject::Unauthenticated
    );
}

#[test]
fn authorize_enforces_minimum_role() {
    let a = auth();
    // readonly token: GET ok, hangup forbidden, originate forbidden.
    assert!(a
        .authorize(Method::Get, "/admin/calls", Some("Bearer ro-secret"))
        .is_ok());
    assert_eq!(
        a.authorize(
            Method::Post,
            "/admin/calls/x/hangup",
            Some("Bearer ro-secret")
        )
        .unwrap_err(),
        AuthReject::Forbidden {
            required: Role::Operator,
            have: Role::ReadOnly
        }
    );
    assert_eq!(
        a.authorize(Method::Post, "/admin/v1/calls", Some("Bearer ro-secret"))
            .unwrap_err(),
        AuthReject::Forbidden {
            required: Role::Admin,
            have: Role::ReadOnly
        }
    );
    // operator token: hangup ok, originate (Admin) forbidden.
    assert!(a
        .authorize(
            Method::Post,
            "/admin/calls/x/hangup",
            Some("Bearer op-secret")
        )
        .is_ok());
    assert_eq!(
        a.authorize(Method::Post, "/admin/v1/calls", Some("Bearer op-secret"))
            .unwrap_err(),
        AuthReject::Forbidden {
            required: Role::Admin,
            have: Role::Operator
        }
    );
    // admin token: originate + log change ok.
    assert!(a
        .authorize(Method::Post, "/admin/v1/calls", Some("Bearer ad-secret"))
        .is_ok());
    assert!(a
        .authorize(Method::Put, "/admin/log", Some("Bearer ad-secret"))
        .is_ok());
}

#[test]
fn min_role_table_matches_endpoint_groups() {
    assert_eq!(
        min_role(Method::Get, "/admin/v1/parked"),
        Some(Role::ReadOnly)
    );
    assert_eq!(
        min_role(Method::Post, "/admin/v1/calls"),
        Some(Role::Admin)
    );
    assert_eq!(min_role(Method::Put, "/admin/log"), Some(Role::Admin));
    assert_eq!(
        min_role(Method::Post, "/admin/calls/abc/hangup"),
        Some(Role::Operator)
    );
    assert_eq!(
        min_role(Method::Post, "/admin/v1/calls/abc/retrieve"),
        Some(Role::Operator)
    );
    assert_eq!(
        min_role(Method::Delete, "/admin/v1/conferences/room1"),
        Some(Role::Operator)
    );
    assert_eq!(
        min_role(
            Method::Delete,
            "/admin/v1/conferences/room1/participants/call9"
        ),
        Some(Role::Operator)
    );
    // Unknown admin path → no min role.
    assert_eq!(min_role(Method::Get, "/admin/nope"), None);
}

#[test]
fn labels_name_endpoint_groups_and_fall_back_to_unknown() {
    assert_ne!(
        route_label(Method::Get, "/admin/v1/calls"),
        route_label(Method::Post, "/admin/v1/calls")
    );
    assert_eq!(
        route_label(Method::Get, "/admin/nope"),
        route_label(Method::Get, "/admin/other")
    );
}

#[test]
fn no_tokens_reject_everything() {
    let a = AdminAuth::default();
    assert!(a.is_empty());
    assert_eq!(a.len(), 0);
    assert_eq!(a.iter().count(), 0);
    assert_eq!(
        a.authorize(Method::Get, "/admin/calls", Some("Bearer x")).unwrap_err(),
        AuthReject::Unauthenticated
    );
}
