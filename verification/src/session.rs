//! The per-request session gate. A session is an opaque cookie naming an
//! account; the authority re-resolves the account on every request, so the
//! gate's decision is never cached: an anonymous request is sent to the
//! login page, an account still under a forced password change may reach
//! only the change-password page and logout, and everything else proceeds.

use vstd::prelude::*;
use crate::auth::{rotated_entry, User, UserView};
use crate::text::str_eq;

verus! {

/// Where a session stands: nobody, an account that must still rotate its
/// password, or a normally authenticated account.
#[derive(Clone, Copy, PartialEq, Eq, Structural, Debug)]
pub enum SessionState {
    Anonymous,
    AuthenticatedMustChange,
    AuthenticatedNormal,
}

/// What happens to one routed request.
#[derive(Clone, Copy, PartialEq, Eq, Structural, Debug)]
pub enum RouteDecision {
    Proceed,
    RedirectChangePassword,
    RedirectLogin,
}

/// The session state a resolved account yields.
pub open spec fn spec_session_state(user: Option<UserView>) -> SessionState {
    match user {
        None => SessionState::Anonymous,
        Some(u) => if u.must_change_password {
            SessionState::AuthenticatedMustChange
        } else {
            SessionState::AuthenticatedNormal
        },
    }
}

/// The two routes a forced password change still admits.
pub open spec fn change_exempt_route(path: Seq<char>) -> bool {
    path == "/change-password"@ || path == "/logout"@
}

/// The decision for a resolved account and a requested path.
pub open spec fn spec_route_gate(user: Option<UserView>, path: Seq<char>) -> RouteDecision {
    match spec_session_state(user) {
        SessionState::Anonymous => RouteDecision::RedirectLogin,
        SessionState::AuthenticatedMustChange => if change_exempt_route(path) {
            RouteDecision::Proceed
        } else {
            RouteDecision::RedirectChangePassword
        },
        SessionState::AuthenticatedNormal => RouteDecision::Proceed,
    }
}

/// The session state of the account a request's cookie resolved to.
pub fn session_state(user: Option<&User>) -> (r: SessionState)
    ensures
        r == spec_session_state(user.deep_view()),
{
    match user {
        None => SessionState::Anonymous,
        Some(u) => if u.must_change_password {
            SessionState::AuthenticatedMustChange
        } else {
            SessionState::AuthenticatedNormal
        },
    }
}

/// Decides one protected request: login redirect for an unresolved
/// session, a change-password redirect for an account under a forced
/// change on any route but the two exempt ones, and proceed otherwise.
pub fn route_gate(user: Option<&User>, path: &str) -> (r: RouteDecision)
    ensures
        r == spec_route_gate(user.deep_view(), path@),
{
    match user {
        None => RouteDecision::RedirectLogin,
        Some(u) => {
            if u.must_change_password {
                if str_eq(path, "/change-password") || str_eq(path, "/logout") {
                    RouteDecision::Proceed
                } else {
                    RouteDecision::RedirectChangePassword
                }
            } else {
                RouteDecision::Proceed
            }
        },
    }
}

/// Law: while an account must change its password, every route except
/// the change-password page and logout is redirected to the
/// change-password page.
pub proof fn lemma_must_change_gate(u: UserView, path: Seq<char>)
    requires
        u.must_change_password,
        !change_exempt_route(path),
    ensures
        spec_route_gate(Some(u), path) == RouteDecision::RedirectChangePassword,
{
}

/// Law: after one successful password change the same account proceeds on
/// every route — the flag is re-read per request, so the change takes
/// effect on the very next one.
pub proof fn lemma_gate_after_change(
    prev: UserView,
    next: UserView,
    new_pw: Seq<char>,
    path: Seq<char>,
)
    requires
        rotated_entry(prev, next, new_pw),
    ensures
        spec_route_gate(Some(next), path) == RouteDecision::Proceed,
{
}

} // verus!
