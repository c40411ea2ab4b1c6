//! Reading a policy document from its text.

use vstd::prelude::*;
use yaml_rust::{ScanError, Yaml, YamlLoader};
use crate::failure::Failure;
use crate::policy::{Entry, Node, Value};

verus! {

/// A parsed YAML value, carried through unread.
#[verifier::external_type_specification]
#[verifier::external_body]
pub struct ExYaml(Yaml);

/// The complaint of the YAML loader, carried through unread.
#[verifier::external_type_specification]
#[verifier::external_body]
pub struct ExScanError(ScanError);

/// The tree that a parsed YAML value holds.
pub uninterp spec fn yaml_value(y: Yaml) -> Value;

/// What `YamlLoader::load_from_str` makes of a text: the documents of the
/// stream in order, or nothing where the text is not well-formed.
pub uninterp spec fn yaml_documents(text: Seq<char>) -> Option<Seq<Value>>;

/// Calls `YamlLoader::load_from_str`.
///
/// Trusted: the loader reads nothing but the text, so what it returns is a
/// function of the text; it is taken to return for every text.
#[verifier::external_body]
fn load_yaml(text: &str) -> (loaded: Result<Vec<Yaml>, ScanError>)
    ensures
        match loaded {
            Ok(docs) => yaml_documents(text@) matches Some(values) && values.len() == docs@.len()
                && forall|i: int|
                0 <= i < docs@.len() ==> values[i] == yaml_value(#[trigger] docs@[i]),
            Err(_) => yaml_documents(text@) is None,
        },
{
    YamlLoader::load_from_str(text)
}

/// Copies a parsed YAML value into a node, variant by variant.
///
/// Trusted: each variant of `Yaml` goes to the variant of the same meaning
/// with its payload unchanged, a hash to its entries in the order of
/// insertion, and `BadValue` to `Absent`.
#[verifier::external_body]
fn node_of(y: &Yaml) -> (node: Node)
    ensures
        node@ == yaml_value(*y),
{
    match y {
        Yaml::Real(s) => Node::Real(s.clone()),
        Yaml::Integer(i) => Node::Integer(*i),
        Yaml::String(s) => Node::Text(s.clone()),
        Yaml::Boolean(b) => Node::Boolean(*b),
        Yaml::Array(a) => Node::List(a.iter().map(node_of).collect()),
        Yaml::Hash(h) => Node::Table(
            h.iter().map(|(k, v)| Entry { key: node_of(k), value: node_of(v) }).collect(),
        ),
        Yaml::Alias(a) => Node::Alias(*a),
        Yaml::Null => Node::Null,
        Yaml::BadValue => Node::Absent,
    }
}

/// The trees that a vector of nodes stands for.
pub open spec fn node_views(nodes: Seq<Node>) -> Seq<Value> {
    Seq::new(nodes.len(), |i: int| nodes[i]@)
}

/// What a parsed stream holds, if the text could be parsed.
pub open spec fn stream_view(parsed: Option<Vec<Node>>) -> Option<Seq<Value>> {
    match parsed {
        Some(docs) => Some(node_views(docs@)),
        None => None,
    }
}

/// What the outcome of reading a policy holds.
pub open spec fn policy_view(policy: Result<Node, Failure>) -> Result<Value, Failure> {
    match policy {
        Ok(doc) => Ok(doc@),
        Err(e) => Err(e),
    }
}

/// The policy that a stream of documents holds: its first document. An
/// unreadable stream and a stream without documents hold none.
pub open spec fn policy_in(stream: Option<Seq<Value>>) -> Result<Value, Failure> {
    match stream {
        None => Err(Failure::ConfigParseError),
        Some(docs) => if docs.len() == 0 {
            Err(Failure::ConfigNotFound)
        } else {
            Ok(docs[0])
        },
    }
}

/// Parses the text of a policy file into its documents.
pub fn parse_documents(text: &str) -> (parsed: Option<Vec<Node>>)
    ensures
        stream_view(parsed) == yaml_documents(text@),
{
    match load_yaml(text) {
        Err(_) => None,
        Ok(loaded) => {
            let ghost values = yaml_documents(text@)->0;
            let mut docs: Vec<Node> = Vec::new();
            let n: usize = loaded.len();
            let mut i: usize = 0;
            while i < n
                invariant
                    n == loaded@.len(),
                    i <= n,
                    docs@.len() == i,
                    values.len() == n,
                    forall|j: int| 0 <= j < n ==> values[j] == yaml_value(#[trigger] loaded@[j]),
                    forall|j: int| 0 <= j < i ==> (#[trigger] docs@[j])@ == values[j],
                decreases n - i,
            {
                docs.push(node_of(&loaded[i]));
                i += 1;
            }
            assert(node_views(docs@) =~= values);
            Some(docs)
        },
    }
}

/// Picks the policy out of the documents of a stream.
pub fn first_document(parsed: Option<Vec<Node>>) -> (policy: Result<Node, Failure>)
    ensures
        policy_view(policy) == policy_in(stream_view(parsed)),
{
    match parsed {
        None => Err(Failure::ConfigParseError),
        Some(mut docs) => {
            if docs.len() == 0 {
                Err(Failure::ConfigNotFound)
            } else {
                Ok(docs.swap_remove(0))
            }
        },
    }
}

/// Reads the policy from the text of a policy file.
pub fn load_policy(text: &str) -> (policy: Result<Node, Failure>)
    ensures
        policy_view(policy) == policy_in(yaml_documents(text@)),
{
    first_document(parse_documents(text))
}

} // verus!
