use runas::auth::{attempt, AuthAction, AuthState, MAX_ATTEMPTS};
use runas::failure::Failure;

const HASH: &str = "Qn1Z9Z5NNxb3xow2Atb3oXUiEVBwVmV4aBStoqZvjxTwRkBHzNb45iNwNBn.BoutZuVhuRGjmmU.dHMTEtO990";

fn shadow() -> String {
    format!("root:*:1::::::\nalice:$6$abcd${}:19000:0:99999:7:::\nzed:$9$a$b:1::::::\n", HASH)
}

#[test]
fn three_attempts_are_allowed() {
    assert_eq!(MAX_ATTEMPTS, 3);
}

#[test]
fn loop_starts_with_a_plain_prompt() {
    let s = AuthState::start();
    assert_eq!(s, AuthState::Attempting(0));
    assert!(!s.is_terminal());
    assert_eq!(s.action(), AuthAction::Prompt { after_failure: false });
}

#[test]
fn wrong_password_is_announced_before_the_next_prompt() {
    let s = AuthState::start().advance(false);
    assert_eq!(s, AuthState::Attempting(1));
    assert_eq!(s.action(), AuthAction::Prompt { after_failure: true });
    let s = s.advance(false);
    assert_eq!(s, AuthState::Attempting(2));
    assert_eq!(s.action(), AuthAction::Prompt { after_failure: true });
}

#[test]
fn three_wrong_passwords_lock() {
    let s = AuthState::start().advance(false).advance(false).advance(false);
    assert_eq!(s, AuthState::Locked);
    assert!(s.is_terminal());
    assert_eq!(s.action(), AuthAction::Refuse);
}

#[test]
fn correct_password_on_second_attempt_authenticates() {
    let s = AuthState::start().advance(false).advance(true);
    assert_eq!(s, AuthState::Authenticated);
    assert!(s.is_terminal());
    assert_eq!(s.action(), AuthAction::Proceed);
}

#[test]
fn correct_password_on_each_attempt() {
    assert_eq!(AuthState::start().advance(true), AuthState::Authenticated);
    assert_eq!(AuthState::start().advance(false).advance(false).advance(true), AuthState::Authenticated);
}

#[test]
fn ended_loop_ignores_further_outcomes() {
    for correct in [true, false] {
        assert_eq!(AuthState::Authenticated.advance(correct), AuthState::Authenticated);
        assert_eq!(AuthState::Locked.advance(correct), AuthState::Locked);
    }
}

#[test]
fn attempt_with_the_right_password() {
    assert_eq!(attempt(AuthState::start(), &shadow(), "alice", "hunter2"), Ok(AuthState::Authenticated));
    assert_eq!(attempt(AuthState::Attempting(2), &shadow(), "alice", "hunter2"), Ok(AuthState::Authenticated));
}

#[test]
fn attempt_with_a_wrong_password() {
    assert_eq!(attempt(AuthState::start(), &shadow(), "alice", "hunter3"), Ok(AuthState::Attempting(1)));
    assert_eq!(attempt(AuthState::Attempting(1), &shadow(), "alice", ""), Ok(AuthState::Attempting(2)));
    assert_eq!(attempt(AuthState::Attempting(2), &shadow(), "alice", "x"), Ok(AuthState::Locked));
}

#[test]
fn attempt_whole_loop_wrong_then_right() {
    let db = shadow();
    let mut state = AuthState::start();
    let mut prompts = 0;
    for secret in ["nope", "hunter2", "never asked"] {
        if state.is_terminal() {
            break;
        }
        prompts += 1;
        state = attempt(state, &db, "alice", secret).unwrap();
    }
    assert_eq!(state, AuthState::Authenticated);
    assert_eq!(prompts, 2);
}

#[test]
fn attempt_whole_loop_three_wrong() {
    let db = shadow();
    let mut state = AuthState::start();
    let mut prompts = 0;
    for secret in ["a", "b", "c", "hunter2"] {
        if state.is_terminal() {
            break;
        }
        prompts += 1;
        state = attempt(state, &db, "alice", secret).unwrap();
    }
    assert_eq!(state, AuthState::Locked);
    assert_eq!(prompts, 3);
}

#[test]
fn attempt_without_a_usable_credential() {
    assert_eq!(attempt(AuthState::start(), &shadow(), "bob", "x"), Err(Failure::NoSuchCredential));
    assert_eq!(attempt(AuthState::start(), &shadow(), "zed", "x"), Err(Failure::UnsupportedAlgorithm));
    assert_eq!(attempt(AuthState::start(), &shadow(), "root", "x"), Err(Failure::MalformedRecord));
}

#[test]
fn attempt_after_the_end_changes_nothing() {
    assert_eq!(attempt(AuthState::Locked, &shadow(), "alice", "hunter2"), Ok(AuthState::Locked));
    assert_eq!(attempt(AuthState::Authenticated, &shadow(), "bob", "x"), Ok(AuthState::Authenticated));
}
