//! The authentication loop: a bounded number of password attempts, each
//! checked against the credential database.

use vstd::prelude::*;
use crate::credential::{credential_of, lookup};
use crate::failure::Failure;
use crate::hash::{verifies, verify};

verus! {

/// The number of password attempts that one run allows.
pub const MAX_ATTEMPTS: u8 = 3;

/// Where the authentication loop stands.
#[derive(Clone, Copy, Debug, PartialEq, Eq, Structural)]
pub enum AuthState {
    /// A password is awaited; the number counts the wrong ones so far.
    Attempting(u8),
    /// A correct password was given.
    Authenticated,
    /// Every attempt was used up on wrong passwords.
    Locked,
}

/// What the surroundings of the loop have to do next.
#[derive(Clone, Copy, Debug, PartialEq, Eq, Structural)]
pub enum AuthAction {
    /// Ask for a password; `after_failure` says that the previous one was
    /// wrong and that the user is to be told so first.
    Prompt { after_failure: bool },
    /// Go on: the user is authenticated.
    Proceed,
    /// Give up with an authentication failure.
    Refuse,
}

impl AuthState {
    /// A state is well-formed if it has attempts left while it awaits one.
    pub open spec fn wf(self) -> bool {
        self matches AuthState::Attempting(n) ==> n < MAX_ATTEMPTS
    }

    /// The state before the first attempt.
    pub open spec fn spec_start() -> AuthState {
        AuthState::Attempting(0)
    }

    /// The state before the first attempt.
    #[verifier::when_used_as_spec(spec_start)]
    pub fn start() -> (s: AuthState)
        ensures
            s == AuthState::spec_start(),
            s.wf(),
    {
        AuthState::Attempting(0)
    }

    /// Whether the loop has ended, one way or the other.
    pub open spec fn spec_is_terminal(self) -> bool {
        !(self is Attempting)
    }

    /// Whether the loop has ended, one way or the other.
    #[verifier::when_used_as_spec(spec_is_terminal)]
    pub fn is_terminal(self) -> (ended: bool)
        ensures
            ended == self.spec_is_terminal(),
    {
        match self {
            AuthState::Attempting(_) => false,
            _ => true,
        }
    }

    /// What to do in this state.
    pub open spec fn spec_action(self) -> AuthAction {
        match self {
            AuthState::Attempting(n) => AuthAction::Prompt { after_failure: n > 0 },
            AuthState::Authenticated => AuthAction::Proceed,
            AuthState::Locked => AuthAction::Refuse,
        }
    }

    /// What to do in this state.
    #[verifier::when_used_as_spec(spec_action)]
    pub fn action(self) -> (a: AuthAction)
        ensures
            a == self.spec_action(),
    {
        match self {
            AuthState::Attempting(n) => AuthAction::Prompt { after_failure: n > 0 },
            AuthState::Authenticated => AuthAction::Proceed,
            AuthState::Locked => AuthAction::Refuse,
        }
    }

    /// The state after an attempt whose password was `correct`. A correct
    /// password authenticates; a wrong one uses up an attempt and locks once
    /// none is left. A loop that has ended stays as it is.
    pub open spec fn spec_advance(self, correct: bool) -> AuthState {
        match self {
            AuthState::Attempting(n) => if correct {
                AuthState::Authenticated
            } else if n + 1 >= MAX_ATTEMPTS {
                AuthState::Locked
            } else {
                AuthState::Attempting((n + 1) as u8)
            },
            _ => self,
        }
    }

    /// The state after an attempt whose password was `correct`.
    #[verifier::when_used_as_spec(spec_advance)]
    pub fn advance(self, correct: bool) -> (next: AuthState)
        ensures
            next == self.spec_advance(correct),
            self.wf() ==> next.wf(),
    {
        match self {
            AuthState::Attempting(n) => if correct {
                AuthState::Authenticated
            } else if n >= MAX_ATTEMPTS - 1 {
                AuthState::Locked
            } else {
                AuthState::Attempting(n + 1)
            },
            _ => self,
        }
    }

    /// The state after a run of attempts, `outcomes[i]` saying whether the
    /// password of attempt `i` was correct.
    pub open spec fn after(self, outcomes: Seq<bool>) -> AuthState
        decreases outcomes.len(),
    {
        if outcomes.len() == 0 {
            self
        } else {
            self.spec_advance(outcomes[0]).after(outcomes.drop_first())
        }
    }

    /// The number of prompts that a run of attempts sees: one for each
    /// outcome that reaches the loop before it has ended.
    pub open spec fn prompts(self, outcomes: Seq<bool>) -> nat
        decreases outcomes.len(),
    {
        if outcomes.len() == 0 || self.spec_is_terminal() {
            0
        } else {
            1 + self.spec_advance(outcomes[0]).prompts(outcomes.drop_first())
        }
    }
}

/// The result of the loop once it has ended.
pub open spec fn outcome_of(state: AuthState) -> Result<(), Failure> {
    match state {
        AuthState::Locked => Err(Failure::AuthenticationFailed),
        _ => Ok(()),
    }
}

/// A loop that has ended stays where it is and asks for nothing more.
pub proof fn lemma_terminal_absorbs(state: AuthState, outcomes: Seq<bool>)
    requires
        state.spec_is_terminal(),
    ensures
        state.after(outcomes) == state,
        state.prompts(outcomes) == 0,
        !(state.spec_action() is Prompt),
    decreases outcomes.len(),
{
    if outcomes.len() > 0 {
        lemma_terminal_absorbs(state, outcomes.drop_first());
    }
}

/// Three wrong passwords in a row, from the start, lock the loop, whatever
/// is typed afterwards; no fourth prompt is issued.
pub proof fn lemma_three_failures_lock(outcomes: Seq<bool>)
    requires
        outcomes.len() >= MAX_ATTEMPTS,
        forall|i: int| 0 <= i < MAX_ATTEMPTS ==> !outcomes[i],
    ensures
        AuthState::spec_start().after(outcomes) == AuthState::Locked,
        AuthState::spec_start().prompts(outcomes) == MAX_ATTEMPTS,
        outcome_of(AuthState::Locked) == Err::<(), Failure>(Failure::AuthenticationFailed),
{
    let s0 = AuthState::spec_start();
    let o1 = outcomes.drop_first();
    let o2 = o1.drop_first();
    let o3 = o2.drop_first();
    assert(!outcomes[0] && !outcomes[1] && !outcomes[2]);
    assert(o1[0] == outcomes[1]);
    assert(o2[0] == outcomes[2]);
    let s1 = s0.spec_advance(false);
    let s2 = s1.spec_advance(false);
    let s3 = s2.spec_advance(false);
    assert(s3 == AuthState::Locked);
    assert(s0.after(outcomes) == s1.after(o1));
    assert(s1.after(o1) == s2.after(o2));
    assert(s2.after(o2) == s3.after(o3));
    assert(s0.prompts(outcomes) == 1 + s1.prompts(o1));
    assert(s1.prompts(o1) == 1 + s2.prompts(o2));
    assert(s2.prompts(o2) == 1 + s3.prompts(o3));
    lemma_terminal_absorbs(s3, o3);
}

/// A correct password on attempt `k`, after wrong ones only, authenticates
/// if `k` is one of the allowed attempts; exactly `k + 1` prompts are issued,
/// however many outcomes follow.
pub proof fn lemma_success_ends(outcomes: Seq<bool>, k: int)
    requires
        0 <= k < outcomes.len(),
        k < MAX_ATTEMPTS,
        outcomes[k],
        forall|i: int| 0 <= i < k ==> !outcomes[i],
    ensures
        AuthState::spec_start().after(outcomes) == AuthState::Authenticated,
        AuthState::spec_start().prompts(outcomes) == k + 1,
        outcome_of(AuthState::Authenticated) == Ok::<(), Failure>(()),
{
    lemma_success_from(AuthState::spec_start(), outcomes, k);
}

/// From a state with `n` wrong passwords behind it, a correct password
/// after `k` more wrong ones authenticates if it comes in time.
pub proof fn lemma_success_from(state: AuthState, outcomes: Seq<bool>, k: int)
    requires
        state matches AuthState::Attempting(n) && n + k < MAX_ATTEMPTS,
        0 <= k < outcomes.len(),
        outcomes[k],
        forall|i: int| 0 <= i < k ==> !outcomes[i],
    ensures
        state.after(outcomes) == AuthState::Authenticated,
        state.prompts(outcomes) == k + 1,
    decreases k,
{
    let rest = outcomes.drop_first();
    if k == 0 {
        lemma_terminal_absorbs(AuthState::Authenticated, rest);
    } else {
        assert(!outcomes[0]);
        assert(rest[k - 1] == outcomes[k]);
        assert forall|i: int| 0 <= i < k - 1 implies !rest[i] by {
            assert(rest[i] == outcomes[i + 1]);
        }
        lemma_success_from(state.spec_advance(false), rest, k - 1);
    }
}

/// The state after one attempt with `secret`: the credential of `invoker` is
/// looked up in `db` and the secret verified against it. A failed lookup
/// ends the attempt with its failure and leaves the state to the caller.
pub open spec fn attempted(state: AuthState, db: Seq<char>, invoker: Seq<char>, secret: Seq<char>)
    -> Result<AuthState, Failure> {
    if state.spec_is_terminal() {
        Ok(state)
    } else {
        match credential_of(db, invoker) {
            Err(e) => Err(e),
            Ok(record) => Ok(state.spec_advance(verifies(record, secret))),
        }
    }
}

/// Makes one attempt with `secret` against the credential that `db` holds
/// for `invoker`.
pub fn attempt(state: AuthState, db: &str, invoker: &str, secret: &str) -> (next: Result<
    AuthState,
    Failure,
>)
    ensures
        next == attempted(state, db@, invoker@, secret@),
        state.wf() ==> (next matches Ok(s) ==> s.wf()),
{
    if state.is_terminal() {
        return Ok(state);
    }
    match lookup(db, invoker) {
        Err(e) => Err(e),
        Ok(record) => Ok(state.advance(verify(secret, &record))),
    }
}

} // verus!
