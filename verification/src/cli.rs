//! The command line: options, then the command with its arguments.

use vstd::prelude::*;
use vstd::string::StringExecFns;
use crate::failure::Failure;
use crate::text::{chars_of, split, split_chars, string_of, views};

verus! {

/// The character that separates the directories of a search path.
pub const PATH_SEPARATOR: char = ':';

/// The policy file that is read where the command line names none.
pub open spec fn default_config() -> Seq<char> {
    "/etc/runas.yml"@
}

/// The target where the command line names none.
pub open spec fn default_user() -> Seq<char> {
    "root"@
}

/// The option that names the policy file.
pub open spec fn config_flag() -> Seq<char> {
    seq!['-', 'C']
}

/// The option that names the target.
pub open spec fn user_flag() -> Seq<char> {
    seq!['-', 'u']
}

/// Whether an argument is an option: it begins with a dash.
pub open spec fn is_option(arg: Seq<char>) -> bool {
    arg.len() > 0 && arg[0] == '-'
}

/// What a command line asks for.
#[derive(Clone, Debug, PartialEq, Eq)]
pub struct Invocation {
    /// The path of the policy file.
    pub config: String,
    /// The identity to run the command as.
    pub user: String,
    /// The command.
    pub command: String,
    /// The arguments of the command.
    pub args: Vec<String>,
}

/// What a command line asks for, as plain sequences.
pub struct InvocationView {
    pub config: Seq<char>,
    pub user: Seq<char>,
    pub command: Seq<char>,
    pub args: Seq<Seq<char>>,
}

/// The character sequences held by a vector of strings.
pub open spec fn string_views(strings: Seq<String>) -> Seq<Seq<char>> {
    Seq::new(strings.len(), |i: int| strings[i]@)
}

impl View for Invocation {
    type V = InvocationView;

    open spec fn view(&self) -> InvocationView {
        InvocationView {
            config: self.config@,
            user: self.user@,
            command: self.command@,
            args: string_views(self.args@),
        }
    }
}

/// What the arguments from position `at` on ask for, given the policy file
/// and the target that the options before them have named. Each of the two
/// options takes the argument after it as its value, whatever that is. The
/// first argument that is no option is the command, and all that follows it
/// are its arguments. An unknown option, an option without a value and a
/// command line without a command are usage errors.
pub open spec fn parsed_from(
    args: Seq<Seq<char>>,
    at: int,
    config: Seq<char>,
    user: Seq<char>,
) -> Result<InvocationView, Failure>
    decreases args.len() - at,
{
    if at < 0 || at >= args.len() {
        Err(Failure::UsageError)
    } else if !is_option(args[at]) {
        Ok(InvocationView { config, user, command: args[at], args: args.skip(at + 1) })
    } else if at + 1 >= args.len() {
        Err(Failure::UsageError)
    } else if args[at] == config_flag() {
        parsed_from(args, at + 2, args[at + 1], user)
    } else if args[at] == user_flag() {
        parsed_from(args, at + 2, config, args[at + 1])
    } else {
        Err(Failure::UsageError)
    }
}

/// What a command line asks for; `args` are the arguments after the name of
/// the program.
pub open spec fn parsed(args: Seq<Seq<char>>) -> Result<InvocationView, Failure> {
    parsed_from(args, 0, default_config(), default_user())
}

/// Copies the strings of `strings` from position `from` on.
pub fn tail_of(strings: &Vec<String>, from: usize) -> (tail: Vec<String>)
    requires
        from <= strings@.len(),
    ensures
        string_views(tail@) == string_views(strings@).skip(from as int),
{
    let mut tail: Vec<String> = Vec::new();
    let n: usize = strings.len();
    let mut i: usize = from;
    while i < n
        invariant
            n == strings@.len(),
            from <= i <= n,
            tail@.len() == i - from,
            forall|j: int| 0 <= j < tail@.len() ==> (#[trigger] tail@[j])@ == strings@[from + j]@,
        decreases n - i,
    {
        tail.push(strings[i].clone());
        i += 1;
    }
    assert(string_views(tail@) =~= string_views(strings@).skip(from as int));
    tail
}

/// What the outcome of reading a command line holds.
pub open spec fn outcome_view(outcome: Result<Invocation, Failure>) -> Result<
    InvocationView,
    Failure,
> {
    match outcome {
        Ok(inv) => Ok(inv@),
        Err(e) => Err(e),
    }
}

/// Reads a command line; `args` are the arguments after the name of the
/// program.
pub fn parse_args(args: &Vec<String>) -> (outcome: Result<Invocation, Failure>)
    ensures
        outcome_view(outcome) == parsed(string_views(args@)),
{
    let mut config = String::from_str("/etc/runas.yml");
    let mut user = String::from_str("root");
    let n: usize = args.len();
    let mut i: usize = 0;
    let ghost all = string_views(args@);
    while i < n
        invariant
            n == args@.len(),
            i <= n,
            all == string_views(args@),
            parsed(all) == parsed_from(all, i as int, config@, user@),
        decreases n - i,
    {
        let arg = chars_of(args[i].as_str());
        assert(all[i as int] == arg@);
        if arg.len() == 0 || arg[0] != '-' {
            let rest = tail_of(args, i + 1);
            return Ok(Invocation { config, user, command: args[i].clone(), args: rest });
        }
        if i + 1 >= n {
            return Err(Failure::UsageError);
        }
        assert(all[i + 1] == args@[i + 1]@);
        let named_config = arg.len() == 2 && arg[1] == 'C';
        let named_user = arg.len() == 2 && arg[1] == 'u';
        proof {
            assert(named_config == (arg@ == config_flag())) by {
                if named_config {
                    assert(arg@ =~= config_flag());
                } else if arg@ == config_flag() {
                    assert(config_flag().len() == 2 && config_flag()[1] == 'C');
                }
            }
            assert(named_user == (arg@ == user_flag())) by {
                if named_user {
                    assert(arg@ =~= user_flag());
                } else if arg@ == user_flag() {
                    assert(user_flag().len() == 2 && user_flag()[1] == 'u');
                }
            }
            assert(config_flag()[1] != user_flag()[1]);
        }
        if named_config {
            config = args[i + 1].clone();
        } else if named_user {
            user = args[i + 1].clone();
        } else {
            return Err(Failure::UsageError);
        }
        i += 2;
    }
    Err(Failure::UsageError)
}

/// The files that may hold `command`: one in each directory of the search
/// path, in the order of the path.
pub open spec fn candidates(path: Seq<char>, command: Seq<char>) -> Seq<Seq<char>> {
    let dirs = split(path, PATH_SEPARATOR);
    Seq::new(dirs.len(), |i: int| dirs[i].push('/') + command)
}

/// Lists the files that may hold `command` along a search path.
pub fn candidate_paths(path: &str, command: &str) -> (files: Vec<String>)
    ensures
        string_views(files@) == candidates(path@, command@),
{
    let text = chars_of(path);
    let dirs = split_chars(text.as_slice(), PATH_SEPARATOR);
    let mut files: Vec<String> = Vec::new();
    let n: usize = dirs.len();
    let mut i: usize = 0;
    proof {
        reveal_strlit("/");
    }
    while i < n
        invariant
            n == dirs@.len(),
            i <= n,
            files@.len() == i,
            "/"@ == seq!['/'],
            views(dirs@) == split(path@, PATH_SEPARATOR),
            forall|j: int|
                0 <= j < i ==> (#[trigger] files@[j])@ == dirs@[j]@.push('/') + command@,
        decreases n - i,
    {
        let mut file = string_of(dirs[i].as_slice());
        file.append("/");
        file.append(command);
        assert(file@ =~= dirs@[i as int]@.push('/') + command@);
        files.push(file);
        i += 1;
    }
    assert(string_views(files@) =~= candidates(path@, command@)) by {
        assert forall|j: int| 0 <= j < n implies string_views(files@)[j] == candidates(
            path@,
            command@,
        )[j] by {
            assert(views(dirs@)[j] == dirs@[j]@);
        }
    }
    files
}

} // verus!
