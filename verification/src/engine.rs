//! The course of one request: authorization, authentication, the change of
//! identity and the launch, each step taken only after the one before it.

use vstd::prelude::*;
use vstd::string::StringExecFns;
use crate::auth::{attempt, attempted, AuthState, MAX_ATTEMPTS};
use crate::credential::credential_of;
use crate::cli::string_views;
use crate::failure::Failure;
use crate::hash::verifies;
use crate::identity::{id_of, resolve};
use crate::policy::{decide, decision, Node, Value};
use crate::text::join;

verus! {

/// The character put between the command and each of its arguments.
pub const ARGUMENT_SEPARATOR: char = ' ';

/// Who asks to run what as whom.
#[derive(Clone, Debug, PartialEq, Eq)]
pub struct Request {
    /// The identity that launched the process.
    pub invoker: String,
    /// The identity to run the command as.
    pub target: String,
    /// The command.
    pub command: String,
    /// The arguments of the command.
    pub args: Vec<String>,
}

/// A request as plain sequences.
pub struct RequestView {
    pub invoker: Seq<char>,
    pub target: Seq<char>,
    pub command: Seq<char>,
    pub args: Seq<Seq<char>>,
}

impl View for Request {
    type V = RequestView;

    open spec fn view(&self) -> RequestView {
        RequestView {
            invoker: self.invoker@,
            target: self.target@,
            command: self.command@,
            args: string_views(self.args@),
        }
    }
}

/// How far a request has come.
#[derive(Clone, Copy, Debug, PartialEq, Eq, Structural)]
pub enum Phase {
    /// Granted, but the invoker has yet to give the password; `failed`
    /// counts the wrong passwords so far.
    Authenticating { uid: u32, failed: u8 },
    /// Granted and authenticated; the identity is still the invoker's.
    Cleared { uid: u32 },
    /// The identity is the target's; the command has yet to start.
    Elevated { uid: u32 },
    /// Ended with a failure while the identity was still the invoker's.
    Failed(Failure),
    /// The command could not be started after the identity had changed.
    Aborted,
}

/// What the surroundings of the engine have to do next.
#[derive(Clone, Copy, Debug, PartialEq, Eq, Structural)]
pub enum Action {
    /// Ask the invoker for the password, after saying that the previous one
    /// was wrong if `after_failure` is set.
    Prompt { after_failure: bool },
    /// Change the identity of the process to `uid`.
    SetIdentity { uid: u32 },
    /// Replace the process by the command.
    Launch,
    /// Report the failure and exit.
    Exit { failure: Failure },
    /// End the process at once: it runs under the target's identity and
    /// must not go on.
    Abort,
}

/// What happens to a request under way.
pub enum Event {
    /// The invoker typed `secret`; `db` is the text of the credential database.
    Secret { db: Seq<char>, secret: Seq<char> },
    /// The change of identity was tried and succeeded, or did not.
    IdentitySet { done: bool },
    /// The command could not be started.
    LaunchFailed,
}

/// The line handed to the command interpreter: the command, a space, and
/// the arguments with single spaces between them. Nothing is quoted: the
/// interpreter reads the line as it would read one typed at a prompt.
pub open spec fn command_line_of(request: RequestView) -> Seq<char> {
    request.command.push(ARGUMENT_SEPARATOR) + join(request.args, ARGUMENT_SEPARATOR)
}

/// The phase in which a request starts. The target is resolved first, then
/// the policy is evaluated; a failure of either, or a denial, ends the
/// request before anything is asked of the invoker.
pub open spec fn authorized(request: RequestView, identity_db: Seq<char>, policy: Value) -> Phase {
    match id_of(identity_db, request.target) {
        Err(e) => Phase::Failed(e),
        Ok(uid) => match decision(policy, request.invoker, request.target, request.command) {
            Err(e) => Phase::Failed(e),
            Ok(d) => if !d.allowed {
                Phase::Failed(Failure::PermissionDenied)
            } else if d.password_required {
                Phase::Authenticating { uid, failed: 0 }
            } else {
                Phase::Cleared { uid }
            },
        },
    }
}

impl Phase {
    /// A phase is well-formed if it has attempts left while it awaits a
    /// password.
    pub open spec fn wf(self) -> bool {
        self matches Phase::Authenticating { failed, .. } ==> failed < MAX_ATTEMPTS
    }

    /// What to do in this phase.
    pub open spec fn spec_action(self) -> Action {
        match self {
            Phase::Authenticating { failed, .. } => Action::Prompt { after_failure: failed > 0 },
            Phase::Cleared { uid } => Action::SetIdentity { uid },
            Phase::Elevated { .. } => Action::Launch,
            Phase::Failed(failure) => Action::Exit { failure },
            Phase::Aborted => Action::Abort,
        }
    }

    /// What to do in this phase.
    #[verifier::when_used_as_spec(spec_action)]
    pub fn action(self) -> (a: Action)
        ensures
            a == self.spec_action(),
    {
        match self {
            Phase::Authenticating { failed, .. } => Action::Prompt { after_failure: failed > 0 },
            Phase::Cleared { uid } => Action::SetIdentity { uid },
            Phase::Elevated { .. } => Action::Launch,
            Phase::Failed(failure) => Action::Exit { failure },
            Phase::Aborted => Action::Abort,
        }
    }

    /// The phase after the invoker has typed `secret`. Only a request that
    /// awaits a password takes notice: a correct password clears it, a wrong
    /// one costs an attempt, the last wrong one and a failed lookup end it.
    pub open spec fn after_secret(self, invoker: Seq<char>, db: Seq<char>, secret: Seq<char>) -> Phase {
        match self {
            Phase::Authenticating { uid, failed } => match attempted(
                AuthState::Attempting(failed),
                db,
                invoker,
                secret,
            ) {
                Err(e) => Phase::Failed(e),
                Ok(AuthState::Authenticated) => Phase::Cleared { uid },
                Ok(AuthState::Locked) => Phase::Failed(Failure::AuthenticationFailed),
                Ok(AuthState::Attempting(n)) => Phase::Authenticating { uid, failed: n },
            },
            _ => self,
        }
    }

    /// The phase after the change of identity was tried. Only a cleared
    /// request takes notice.
    pub open spec fn after_identity_set(self, done: bool) -> Phase {
        match self {
            Phase::Cleared { uid } => if done {
                Phase::Elevated { uid }
            } else {
                Phase::Failed(Failure::TransitionFailed)
            },
            _ => self,
        }
    }

    /// The phase after the command could not be started. Only a request
    /// whose identity has changed takes notice.
    pub open spec fn after_launch_failed(self) -> Phase {
        match self {
            Phase::Elevated { .. } => Phase::Aborted,
            _ => self,
        }
    }

    /// The phase after `event`, for a request of `invoker`.
    pub open spec fn step(self, invoker: Seq<char>, event: Event) -> Phase {
        match event {
            Event::Secret { db, secret } => self.after_secret(invoker, db, secret),
            Event::IdentitySet { done } => self.after_identity_set(done),
            Event::LaunchFailed => self.after_launch_failed(),
        }
    }

    /// The phase after a run of events.
    pub open spec fn run(self, invoker: Seq<char>, events: Seq<Event>) -> Phase
        decreases events.len(),
    {
        if events.len() == 0 {
            self
        } else {
            self.step(invoker, events[0]).run(invoker, events.drop_first())
        }
    }

    /// Takes note of a password that the invoker typed.
    pub fn password_entered(
        self,
        request: &Request,
        credential_db: &str,
        secret: &str,
    ) -> (next: Phase)
        ensures
            next == self.after_secret(request@.invoker, credential_db@, secret@),
            self.wf() ==> next.wf(),
    {
        match self {
            Phase::Authenticating { uid, failed } => match attempt(
                AuthState::Attempting(failed),
                credential_db,
                request.invoker.as_str(),
                secret,
            ) {
                Err(e) => Phase::Failed(e),
                Ok(AuthState::Authenticated) => Phase::Cleared { uid },
                Ok(AuthState::Locked) => Phase::Failed(Failure::AuthenticationFailed),
                Ok(AuthState::Attempting(n)) => Phase::Authenticating { uid, failed: n },
            },
            _ => self,
        }
    }

    /// Takes note of whether the identity could be changed.
    pub fn identity_set(self, done: bool) -> (next: Phase)
        ensures
            next == self.after_identity_set(done),
            self.wf() ==> next.wf(),
    {
        match self {
            Phase::Cleared { uid } => if done {
                Phase::Elevated { uid }
            } else {
                Phase::Failed(Failure::TransitionFailed)
            },
            _ => self,
        }
    }

    /// Takes note that the command could not be started.
    pub fn launch_failed(self) -> (next: Phase)
        ensures
            next == self.after_launch_failed(),
            self.wf() ==> next.wf(),
    {
        match self {
            Phase::Elevated { .. } => Phase::Aborted,
            _ => self,
        }
    }
}

/// Resolves the target and evaluates the policy for a request.
pub fn authorize(request: &Request, identity_db: &str, policy: &Node) -> (phase: Phase)
    ensures
        phase == authorized(request@, identity_db@, policy@),
        phase.wf(),
{
    let uid = match resolve(identity_db, request.target.as_str()) {
        Err(e) => {
            return Phase::Failed(e);
        },
        Ok(uid) => uid,
    };
    match decide(policy, request.invoker.as_str(), request.target.as_str(), request.command.as_str()) {
        Err(e) => Phase::Failed(e),
        Ok(d) => {
            if !d.allowed {
                Phase::Failed(Failure::PermissionDenied)
            } else if d.password_required {
                Phase::Authenticating { uid, failed: 0 }
            } else {
                Phase::Cleared { uid }
            }
        },
    }
}

/// Builds the line handed to the command interpreter.
pub fn command_line(request: &Request) -> (line: String)
    ensures
        line@ == command_line_of(request@),
{
    let mut line = request.command.clone();
    proof {
        reveal_strlit(" ");
    }
    line.append(" ");
    let n: usize = request.args.len();
    let mut i: usize = 0;
    let ghost all = string_views(request.args@);
    assert(line@ =~= request.command@.push(ARGUMENT_SEPARATOR) + join(
        all.take(0),
        ARGUMENT_SEPARATOR,
    ));
    while i < n
        invariant
            n == request.args@.len(),
            i <= n,
            " "@ == seq![ARGUMENT_SEPARATOR],
            all == string_views(request.args@),
            line@ == request.command@.push(ARGUMENT_SEPARATOR) + join(
                all.take(i as int),
                ARGUMENT_SEPARATOR,
            ),
        decreases n - i,
    {
        let ghost before = line@;
        if i > 0 {
            line.append(" ");
        }
        line.append(request.args[i].as_str());
        proof {
            let head = all.take(i + 1);
            assert(head.drop_last() =~= all.take(i as int));
            assert(head.last() == request.args@[i as int]@);
            if i == 0 {
                assert(join(head, ARGUMENT_SEPARATOR) =~= request.args@[i as int]@);
                assert(join(all.take(0), ARGUMENT_SEPARATOR) =~= Seq::<char>::empty());
            }
            assert(line@ =~= request.command@.push(ARGUMENT_SEPARATOR) + join(
                head,
                ARGUMENT_SEPARATOR,
            ));
        }
        i += 1;
    }
    assert(all.take(n as int) =~= all);
    line
}

/// A request that has failed or was aborted stays so, whatever happens.
pub proof fn lemma_failure_is_final(phase: Phase, invoker: Seq<char>, events: Seq<Event>)
    requires
        phase is Failed || phase is Aborted,
    ensures
        phase.run(invoker, events) == phase,
    decreases events.len(),
{
    if events.len() > 0 {
        lemma_failure_is_final(phase, invoker, events.drop_first());
    }
}

/// A request starts on its way only if the target is known and the policy
/// allows the command, and then under the id of the target; it awaits a
/// password exactly if the policy requires one.
pub proof fn lemma_start_is_authorized(request: RequestView, identity_db: Seq<char>, policy: Value)
    ensures
        ({
            let phase = authorized(request, identity_db, policy);
            let id = id_of(identity_db, request.target);
            let d = decision(policy, request.invoker, request.target, request.command);
            &&& !(phase is Elevated) && !(phase is Aborted)
            &&& phase matches Phase::Cleared { uid } ==> id == Ok::<u32, Failure>(uid) && d is Ok
                && d->Ok_0.allowed && !d->Ok_0.password_required
            &&& phase matches Phase::Authenticating { uid, failed } ==> id == Ok::<u32, Failure>(
                uid,
            ) && d is Ok && d->Ok_0.allowed && d->Ok_0.password_required && failed == 0
            &&& (id is Ok && d is Ok && !d->Ok_0.allowed) ==> phase == Phase::Failed(
                Failure::PermissionDenied,
            )
        }),
{
}

/// Whether `event` is a password that clears `phase` for `uid`: the
/// request awaited a password under that id, and the password verified.
pub open spec fn cleared_by_password(phase: Phase, uid: u32, invoker: Seq<char>, event: Event) -> bool {
    match (phase, event) {
        (Phase::Authenticating { uid: before, failed }, Event::Secret { db, secret }) => before
            == uid && attempted(AuthState::Attempting(failed), db, invoker, secret) == Ok::<
            AuthState,
            Failure,
        >(AuthState::Authenticated),
        _ => false,
    }
}

/// The steps keep their order. The identity changes only for a cleared
/// request, and a request that awaits a password is cleared only by a
/// password that verifies; the id that was resolved at the start is the one
/// that every later phase carries.
pub proof fn lemma_steps_in_order(phase: Phase, invoker: Seq<char>, event: Event)
    requires
        phase.wf(),
    ensures
        ({
            let next = phase.step(invoker, event);
            &&& next.wf()
            &&& next is Elevated ==> (phase == next || (phase == Phase::Cleared {
                uid: next->Elevated_uid,
            } && event == Event::IdentitySet { done: true }))
            &&& next is Cleared ==> (phase == next || cleared_by_password(
                phase,
                next->Cleared_uid,
                invoker,
                event,
            ))
            &&& next is Authenticating ==> (phase is Authenticating && phase->Authenticating_uid
                == next->Authenticating_uid)
            &&& next is Aborted ==> (phase is Aborted || phase is Elevated)
        }),
{
}

/// Whether the invoker has the identity of another user in this phase, or
/// is cleared to take it.
pub open spec fn past_authentication(phase: Phase) -> bool {
    phase is Cleared || phase is Elevated || phase is Aborted
}

/// The id under which a phase will run the command, or runs it.
pub open spec fn uid_of(phase: Phase) -> Option<u32> {
    match phase {
        Phase::Authenticating { uid, .. } => Some(uid),
        Phase::Cleared { uid } => Some(uid),
        Phase::Elevated { uid } => Some(uid),
        _ => None,
    }
}

/// Whether one of `events` is a password of `invoker` that verifies against
/// the credential database read with it.
pub open spec fn password_given(invoker: Seq<char>, events: Seq<Event>) -> bool {
    exists|i: int|
        0 <= i < events.len() && (#[trigger] events[i]) is Secret && credential_of(
            events[i]->Secret_db,
            invoker,
        ) is Ok && verifies(credential_of(events[i]->Secret_db, invoker)->Ok_0, events[i]->Secret_secret)
}

/// Whatever happens to a request that awaits a password, it gets past
/// authentication only through a password that verifies, and it keeps its id.
pub proof fn lemma_clearance_is_earned(phase: Phase, invoker: Seq<char>, events: Seq<Event>)
    ensures
        ({
            let last = phase.run(invoker, events);
            &&& past_authentication(last) ==> past_authentication(phase) || (phase is Authenticating
                && password_given(invoker, events))
            &&& uid_of(last) is Some ==> uid_of(last) == uid_of(phase)
        }),
    decreases events.len(),
{
    if events.len() > 0 {
        let next = phase.step(invoker, events[0]);
        let rest = events.drop_first();
        lemma_clearance_is_earned(next, invoker, rest);
        let last = phase.run(invoker, events);
        if past_authentication(last) && !past_authentication(phase) {
            if past_authentication(next) {
                assert(events[0] is Secret);
            } else {
                let i = choose|i: int|
                    0 <= i < rest.len() && (#[trigger] rest[i]) is Secret && credential_of(
                        rest[i]->Secret_db,
                        invoker,
                    ) is Ok && verifies(
                        credential_of(rest[i]->Secret_db, invoker)->Ok_0,
                        rest[i]->Secret_secret,
                    );
                assert(events[i + 1] == rest[i]);
            }
        }
    }
}

/// The command is launched only for a request that the policy allows, under
/// the id of the requested target, and, where the policy requires a
/// password, only after the invoker has given one that verifies.
pub proof fn lemma_launch_is_authorized(
    request: RequestView,
    identity_db: Seq<char>,
    policy: Value,
    events: Seq<Event>,
)
    ensures
        ({
            let last = authorized(request, identity_db, policy).run(request.invoker, events);
            let d = decision(policy, request.invoker, request.target, request.command);
            (last.spec_action() is Launch || last.spec_action() is SetIdentity) ==> {
                &&& id_of(identity_db, request.target) == Ok::<u32, Failure>(uid_of(last)->0)
                &&& d is Ok
                &&& d->Ok_0.allowed
                &&& d->Ok_0.password_required ==> password_given(request.invoker, events)
            }
        }),
{
    lemma_clearance_is_earned(authorized(request, identity_db, policy), request.invoker, events);
}

} // verus!
