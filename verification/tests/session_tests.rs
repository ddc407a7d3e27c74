use port_sentinel::auth::{AuthState, User};
use port_sentinel::session::{route_gate, session_state, RouteDecision, SessionState};

fn user(must_change: bool) -> User {
    User {
        username: "admin".to_string(),
        password_hash: "h".to_string(),
        role: "admin".to_string(),
        must_change_password: must_change,
    }
}

#[test]
fn anonymous_requests_go_to_login() {
    assert_eq!(route_gate(None, "/"), RouteDecision::RedirectLogin);
    assert_eq!(route_gate(None, "/view/stats"), RouteDecision::RedirectLogin);
    assert_eq!(session_state(None), SessionState::Anonymous);
}

#[test]
fn must_change_redirects_every_route_but_the_exempt_two() {
    let u = user(true);
    assert_eq!(session_state(Some(&u)), SessionState::AuthenticatedMustChange);
    for path in ["/", "/view/stats", "/view/rows", "/api/check-status", "/kill/42"] {
        assert_eq!(route_gate(Some(&u), path), RouteDecision::RedirectChangePassword);
    }
    assert_eq!(route_gate(Some(&u), "/change-password"), RouteDecision::Proceed);
    assert_eq!(route_gate(Some(&u), "/logout"), RouteDecision::Proceed);
}

#[test]
fn after_password_change_the_same_route_proceeds() {
    let mut state = AuthState::from_loaded(None).expect("bootstrap");
    let before = state.get_user("admin").expect("admin");
    assert_eq!(route_gate(Some(&before), "/view/stats"), RouteDecision::RedirectChangePassword);

    assert!(state.update_password("admin", "rotated-now"));
    // the account is re-resolved per request, so the very next request
    // sees the cleared flag
    let after = state.get_user("admin").expect("admin");
    assert_eq!(route_gate(Some(&after), "/view/stats"), RouteDecision::Proceed);
    assert_eq!(session_state(Some(&after)), SessionState::AuthenticatedNormal);
}
