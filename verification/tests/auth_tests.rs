use port_sentinel::auth::{AuthState, User};

#[test]
fn empty_store_bootstraps_one_admin_that_must_change_password() {
    let state = AuthState::from_loaded(None).expect("bootstrap");
    let users = state.save();
    assert_eq!(users.len(), 1);
    assert_eq!(users[0].username, "admin");
    assert_eq!(users[0].role, "admin");
    assert!(users[0].must_change_password);

    let verified = state.verify_user("admin", "admin").expect("default password");
    assert_eq!(verified.username, "admin");
    assert!(state.verify_user("admin", "wrong").is_none());
    // unknown user and wrong password are indistinguishable
    assert!(state.verify_user("nobody", "admin").is_none());
}

#[test]
fn password_change_clears_flag_and_rotates_credential() {
    let mut state = AuthState::from_loaded(None).expect("bootstrap");
    assert!(state.update_password("admin", "correct-horse"));

    let users = state.save();
    assert_eq!(users.len(), 1);
    assert!(!users[0].must_change_password);

    // the old password no longer verifies; the new one does
    assert!(state.verify_user("admin", "admin").is_none());
    let verified = state.verify_user("admin", "correct-horse").expect("new password");
    assert!(!verified.must_change_password);

    // changing an unknown account changes nothing
    assert!(!state.update_password("nobody", "x"));
    assert_eq!(state.save().len(), 1);
}

#[test]
fn loaded_accounts_are_taken_over_and_looked_up_by_name() {
    let stored = User {
        username: "op".to_string(),
        password_hash: "$2b$10$invalidhashinvalidhashinvalidhashinvalidhashinvalidha".to_string(),
        role: "viewer".to_string(),
        must_change_password: false,
    };
    let shadowed = User {
        username: "op".to_string(),
        password_hash: "other".to_string(),
        role: "shadowed".to_string(),
        must_change_password: true,
    };
    // duplicate usernames: the first persisted entry wins
    let state = AuthState::from_loaded(Some(vec![stored, shadowed])).expect("loaded");
    assert_eq!(state.save().len(), 1);
    let found = state.get_user("op").expect("known name");
    assert_eq!(found.role, "viewer");
    assert!(state.get_user("admin").is_none());
    // a malformed stored hash verifies nothing, and does not panic
    assert!(state.verify_user("op", "anything").is_none());
}
