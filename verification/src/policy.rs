//! The policy document and the decision that it yields for a request.

use vstd::prelude::*;
use crate::failure::Failure;

verus! {

/// A parsed document as mathematics: a tree of tables, lists and scalars.
pub enum Value {
    /// No value: what asking a table for a missing key gives.
    Absent,
    /// The null scalar.
    Null,
    /// A boolean scalar.
    Boolean(bool),
    /// An integer scalar.
    Integer(int),
    /// A real number, kept as it was written.
    Real(Seq<char>),
    /// A text scalar.
    Text(Seq<char>),
    /// A reference to an anchor.
    Alias(int),
    /// An ordered list of values.
    List(Seq<Value>),
    /// A table: keys with their values, in the order in which they were written.
    Table(Seq<Binding>),
}

/// One key of a table with its value, as mathematics.
pub struct Binding {
    pub key: Value,
    pub value: Value,
}

/// A parsed document: a tree of tables, lists and scalars.
#[derive(Debug, PartialEq, Eq)]
pub enum Node {
    /// No value: what asking a table for a missing key gives.
    Absent,
    /// The null scalar.
    Null,
    /// A boolean scalar.
    Boolean(bool),
    /// An integer scalar.
    Integer(i64),
    /// A real number, kept as it was written.
    Real(String),
    /// A text scalar.
    Text(String),
    /// A reference to an anchor.
    Alias(usize),
    /// An ordered list of values.
    List(Vec<Node>),
    /// A table: keys with their values, in the order in which they were written.
    Table(Vec<Entry>),
}

/// One key of a table with its value.
#[derive(Debug, PartialEq, Eq)]
pub struct Entry {
    pub key: Node,
    pub value: Node,
}

impl View for Entry {
    type V = Binding;

    open spec fn view(&self) -> Binding {
        Binding { key: self.key@, value: self.value@ }
    }
}

impl View for Node {
    type V = Value;

    /// The tree that this node stands for.
    open spec fn view(&self) -> Value
        decreases self,
    {
        match *self {
            Node::Absent => Value::Absent,
            Node::Null => Value::Null,
            Node::Boolean(b) => Value::Boolean(b),
            Node::Integer(i) => Value::Integer(i as int),
            Node::Real(s) => Value::Real(s@),
            Node::Text(s) => Value::Text(s@),
            Node::Alias(a) => Value::Alias(a as int),
            Node::List(items) => Value::List(
                Seq::new(
                    items@.len(),
                    |i: int|
                        if 0 <= i < items@.len() {
                            items@[i].view()
                        } else {
                            Value::Absent
                        },
                ),
            ),
            Node::Table(entries) => Value::Table(
                Seq::new(
                    entries@.len(),
                    |i: int|
                        if 0 <= i < entries@.len() {
                            Binding { key: entries@[i].key.view(), value: entries@[i].value.view() }
                        } else {
                            Binding { key: Value::Absent, value: Value::Absent }
                        },
                ),
            ),
        }
    }
}

/// The key under which an invoker is granted every target, and the entry
/// that stands for every command.
pub open spec fn all_sentinel() -> Seq<char> {
    seq!['A', 'L', 'L']
}

/// The key of an invoker's entry that says whether the password may be skipped.
pub open spec fn nopass_key() -> Seq<char> {
    seq!['n', 'o', 'p', 'a', 's', 's']
}

/// The value of the first entry whose key is the text `key`.
pub open spec fn first_value(entries: Seq<Binding>, key: Seq<char>) -> Value
    decreases entries.len(),
{
    if entries.len() == 0 {
        Value::Absent
    } else if entries[0].key == Value::Text(key) {
        entries[0].value
    } else {
        first_value(entries.drop_first(), key)
    }
}

/// What a value holds under the text key `key`: nothing unless the value is a
/// table with such a key.
pub open spec fn lookup(v: Value, key: Seq<char>) -> Value {
    match v {
        Value::Table(entries) => first_value(entries, key),
        _ => Value::Absent,
    }
}

/// The key under which the grant for `target` is read from an invoker's
/// rules: a grant for every target, where there is one, comes first.
pub open spec fn effective_target(rules: Value, target: Seq<char>) -> Seq<char> {
    if lookup(rules, all_sentinel()) is Absent {
        target
    } else {
        all_sentinel()
    }
}

/// Whether a grant allows `command`: the bare sentinel allows every command,
/// a list allows what it names and, if it holds the sentinel, every command.
/// A grant of any other shape says nothing.
pub open spec fn permits(grant: Value, command: Seq<char>) -> Option<bool> {
    match grant {
        Value::Text(t) => if t == all_sentinel() {
            Some(true)
        } else {
            None
        },
        Value::List(items) => Some(
            items.contains(Value::Text(all_sentinel())) || items.contains(Value::Text(command)),
        ),
        _ => None,
    }
}

/// Whether an invoker with these rules must give a password: always, unless
/// the rules hold the boolean `true` under the no-password key.
pub open spec fn password_required(rules: Value) -> bool {
    lookup(rules, nopass_key()) != Value::Boolean(true)
}

/// The outcome of evaluating a policy for one request.
pub struct DecisionView {
    pub allowed: bool,
    pub password_required: bool,
    pub resolved_target: Seq<char>,
}

/// The outcome of evaluating a policy for one request.
#[derive(Clone, Debug, PartialEq, Eq)]
pub struct AuthorizationDecision {
    /// Whether the invoker may run the command as the target.
    pub allowed: bool,
    /// Whether the invoker must give a password first.
    pub password_required: bool,
    /// The key under which the grant was looked for: the requested target, or
    /// the sentinel where the invoker is granted every target.
    pub resolved_target: String,
}

impl View for AuthorizationDecision {
    type V = DecisionView;

    open spec fn view(&self) -> DecisionView {
        DecisionView {
            allowed: self.allowed,
            password_required: self.password_required,
            resolved_target: self.resolved_target@,
        }
    }
}

/// The decision that `doc` yields for `invoker` asking to run `command` as
/// `target`. An invoker without rules, or without a grant under the
/// effective target key, is denied. A grant that is neither the sentinel nor
/// a list makes the policy malformed.
pub open spec fn decision(
    doc: Value,
    invoker: Seq<char>,
    target: Seq<char>,
    command: Seq<char>,
) -> Result<DecisionView, Failure> {
    let rules = lookup(doc, invoker);
    let key = effective_target(rules, target);
    let grant = lookup(rules, key);
    if rules is Absent || grant is Absent {
        Ok(
            DecisionView {
                allowed: false,
                password_required: password_required(rules),
                resolved_target: key,
            },
        )
    } else {
        match permits(grant, command) {
            None => Err(Failure::MalformedPolicy),
            Some(allowed) => Ok(
                DecisionView {
                    allowed,
                    password_required: password_required(rules),
                    resolved_target: key,
                },
            ),
        }
    }
}

/// An invoker for whom the document holds no rules is denied, whatever the
/// target and the command.
pub proof fn lemma_unknown_invoker_denied(
    doc: Value,
    invoker: Seq<char>,
    target: Seq<char>,
    command: Seq<char>,
)
    requires
        lookup(doc, invoker) is Absent,
    ensures
        decision(doc, invoker, target, command) matches Ok(d) && !d.allowed,
{
}

/// Where an invoker is granted every target, the requested target does not
/// matter: each target yields the decision that asking for the sentinel
/// itself yields.
pub proof fn lemma_grant_for_every_target(
    doc: Value,
    invoker: Seq<char>,
    target: Seq<char>,
    command: Seq<char>,
)
    requires
        !(lookup(lookup(doc, invoker), all_sentinel()) is Absent),
    ensures
        decision(doc, invoker, target, command) == decision(
            doc,
            invoker,
            all_sentinel(),
            command,
        ),
{
}

/// Where the grant that applies is a list, a list that holds the sentinel
/// allows every command, and a list that holds neither the sentinel nor the
/// requested command denies the request.
pub proof fn lemma_command_list(
    doc: Value,
    invoker: Seq<char>,
    target: Seq<char>,
    command: Seq<char>,
    items: Seq<Value>,
)
    requires
        lookup(lookup(doc, invoker), effective_target(lookup(doc, invoker), target)) == Value::List(
            items,
        ),
    ensures
        decision(doc, invoker, target, command) matches Ok(d) && d.allowed == (items.contains(
            Value::Text(all_sentinel()),
        ) || items.contains(Value::Text(command))),
{
}

/// A password is required unless the rules hold exactly the boolean `true`
/// under the no-password key: a missing key, `false` and every other value
/// leave the password in place. Every decision reports this.
pub proof fn lemma_password_rule(
    doc: Value,
    invoker: Seq<char>,
    target: Seq<char>,
    command: Seq<char>,
)
    ensures
        ({
            let flag = lookup(lookup(doc, invoker), nopass_key());
            &&& flag is Absent ==> password_required(lookup(doc, invoker))
            &&& flag == Value::Boolean(false) ==> password_required(lookup(doc, invoker))
            &&& flag == Value::Boolean(true) ==> !password_required(lookup(doc, invoker))
            &&& flag != Value::Boolean(true) ==> password_required(lookup(doc, invoker))
        }),
        decision(doc, invoker, target, command) matches Ok(d) ==> d.password_required
            == password_required(lookup(doc, invoker)),
{
}

impl Node {
    /// Whether this node is no value at all.
    pub fn is_absent(&self) -> (absent: bool)
        ensures
            absent == (self@ is Absent),
    {
        match self {
            Node::Absent => true,
            _ => false,
        }
    }

    /// Whether this node is the text scalar `text`.
    pub fn is_text(&self, text: &String) -> (same: bool)
        ensures
            same == (self@ == Value::Text(text@)),
    {
        match self {
            Node::Text(s) => *s == *text,
            _ => false,
        }
    }

    /// Whether this node is the boolean `true`.
    pub fn is_true(&self) -> (yes: bool)
        ensures
            yes == (self@ == Value::Boolean(true)),
    {
        match self {
            Node::Boolean(b) => *b,
            _ => false,
        }
    }

    /// The value that this node holds under the text key `key`, if it is a
    /// table with such a key.
    pub fn get<'a>(&'a self, key: &String) -> (found: Option<&'a Node>)
        ensures
            match found {
                Some(n) => n@ == lookup(self@, key@),
                None => lookup(self@, key@) is Absent,
            },
    {
        match self {
            Node::Table(entries) => {
                let ghost all = self@->Table_0;
                let n: usize = entries.len();
                let mut i: usize = 0;
                assert(all.skip(0) =~= all);
                while i < n
                    invariant
                        n == entries@.len(),
                        i <= n,
                        all.len() == n,
                        self@ == Value::Table(all),
                        forall|j: int| 0 <= j < n ==> all[j] == (#[trigger] entries@[j])@,
                        first_value(all, key@) == first_value(all.skip(i as int), key@),
                    decreases n - i,
                {
                    proof {
                        let rest = all.skip(i as int);
                        assert(rest[0] == all[i as int]);
                        assert(rest.drop_first() =~= all.skip(i + 1));
                        assert(all[i as int] == entries@[i as int]@);
                    }
                    if entries[i].key.is_text(key) {
                        return Some(&entries[i].value);
                    }
                    i += 1;
                }
                None
            },
            _ => None,
        }
    }

    /// Whether this node is a list that holds the text scalar `text`.
    pub fn lists(&self, text: &String) -> (held: bool)
        ensures
            held == (self@ matches Value::List(items) && items.contains(Value::Text(text@))),
    {
        match self {
            Node::List(items) => {
                let ghost all = self@->List_0;
                let n: usize = items.len();
                let mut i: usize = 0;
                while i < n
                    invariant
                        n == items@.len(),
                        i <= n,
                        all.len() == n,
                        self@ == Value::List(all),
                        forall|j: int| 0 <= j < n ==> all[j] == (#[trigger] items@[j])@,
                        forall|j: int| 0 <= j < i ==> all[j] != Value::Text(text@),
                    decreases n - i,
                {
                    if items[i].is_text(text) {
                        assert(all[i as int] == Value::Text(text@));
                        return true;
                    }
                    i += 1;
                }
                false
            },
            _ => false,
        }
    }
}

/// What the outcome of a decision holds.
pub open spec fn outcome_view(outcome: Result<AuthorizationDecision, Failure>) -> Result<
    DecisionView,
    Failure,
> {
    match outcome {
        Ok(d) => Ok(d@),
        Err(e) => Err(e),
    }
}

/// Decides whether `doc` lets `invoker` run `command` as `target`, and
/// whether a password is needed first.
pub fn decide(doc: &Node, invoker: &str, target: &str, command: &str) -> (outcome: Result<
    AuthorizationDecision,
    Failure,
>)
    ensures
        outcome_view(outcome) == decision(doc@, invoker@, target@, command@),
{
    let all = String::from_str("ALL");
    let nopass = String::from_str("nopass");
    proof {
        reveal_strlit("ALL");
        reveal_strlit("nopass");
        assert(all@ =~= all_sentinel());
        assert(nopass@ =~= nopass_key());
    }
    let rules = match doc.get(&invoker.to_owned()) {
        Some(rules) => rules,
        None => {
            return Ok(
                AuthorizationDecision {
                    allowed: false,
                    password_required: true,
                    resolved_target: target.to_owned(),
                },
            );
        },
    };
    let password_required = match rules.get(&nopass) {
        Some(flag) => !flag.is_true(),
        None => true,
    };
    let everyone = match rules.get(&all) {
        Some(grant) => !grant.is_absent(),
        None => false,
    };
    let key = if everyone {
        all.clone()
    } else {
        target.to_owned()
    };
    let grant = match rules.get(&key) {
        Some(grant) => grant,
        None => {
            return Ok(AuthorizationDecision { allowed: false, password_required, resolved_target: key });
        },
    };
    if rules.is_absent() || grant.is_absent() {
        return Ok(AuthorizationDecision { allowed: false, password_required, resolved_target: key });
    }
    match grant {
        Node::Text(_) => {
            if grant.is_text(&all) {
                Ok(AuthorizationDecision { allowed: true, password_required, resolved_target: key })
            } else {
                Err(Failure::MalformedPolicy)
            }
        },
        Node::List(_) => {
            let allowed = grant.lists(&all) || grant.lists(&command.to_owned());
            Ok(AuthorizationDecision { allowed, password_required, resolved_target: key })
        },
        _ => Err(Failure::MalformedPolicy),
    }
}

} // verus!
