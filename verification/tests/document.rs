use runas::document::{first_document, load_policy, parse_documents};
use runas::failure::Failure;
use runas::policy::{decide, Entry, Node};

fn text(s: &str) -> Node {
    Node::Text(s.to_string())
}

fn entry(key: &str, value: Node) -> Entry {
    Entry { key: text(key), value }
}

#[test]
fn parse_block_mapping() {
    let docs = parse_documents("alice:\n  ALL:\n    - ALL\n  nopass: true\n").unwrap();
    assert_eq!(
        docs,
        vec![Node::Table(vec![entry(
            "alice",
            Node::Table(vec![
                entry("ALL", Node::List(vec![text("ALL")])),
                entry("nopass", Node::Boolean(true)),
            ]),
        )])]
    );
}

#[test]
fn parse_flow_mapping() {
    let docs = parse_documents("{alice: {ALL: ALL, nopass: true}}").unwrap();
    assert_eq!(
        docs,
        vec![Node::Table(vec![entry(
            "alice",
            Node::Table(vec![entry("ALL", text("ALL")), entry("nopass", Node::Boolean(true))]),
        )])]
    );
}

#[test]
fn parse_every_kind_of_scalar() {
    let docs = parse_documents("- 12\n- -3\n- 1.5\n- text\n- 'true'\n- false\n- ~\n- null\n- 0x10\n").unwrap();
    assert_eq!(
        docs,
        vec![Node::List(vec![
            Node::Integer(12),
            Node::Integer(-3),
            Node::Real("1.5".to_string()),
            text("text"),
            text("true"),
            Node::Boolean(false),
            Node::Null,
            Node::Null,
            Node::Integer(16),
        ])]
    );
}

#[test]
fn parse_keeps_the_order_of_keys() {
    let docs = parse_documents("z: 1\na: 2\nm: 3\n").unwrap();
    assert_eq!(
        docs,
        vec![Node::Table(vec![
            entry("z", Node::Integer(1)),
            entry("a", Node::Integer(2)),
            entry("m", Node::Integer(3)),
        ])]
    );
}

#[test]
fn parse_keys_that_are_no_text() {
    let docs = parse_documents("1: one\ntrue: yes\n").unwrap();
    assert_eq!(
        docs,
        vec![Node::Table(vec![
            Entry { key: Node::Integer(1), value: text("one") },
            Entry { key: Node::Boolean(true), value: text("yes") },
        ])]
    );
}

#[test]
fn parse_several_documents() {
    let docs = parse_documents("a: 1\n---\nb: 2\n").unwrap();
    assert_eq!(
        docs,
        vec![
            Node::Table(vec![entry("a", Node::Integer(1))]),
            Node::Table(vec![entry("b", Node::Integer(2))]),
        ]
    );
}

#[test]
fn parse_empty_text_has_no_document() {
    assert_eq!(parse_documents(""), Some(vec![]));
    assert_eq!(parse_documents("# only a comment\n"), Some(vec![]));
}

#[test]
fn parse_bad_markup() {
    assert_eq!(parse_documents("alice: [ALL"), None);
    assert_eq!(parse_documents("a: b: c: d\n  - x"), None);
    assert_eq!(parse_documents("\"unterminated"), None);
}

#[test]
fn parse_undefined_alias_is_bad_markup() {
    assert_eq!(parse_documents("a: *nowhere\n"), None);
}

#[test]
fn parse_scalar_that_belies_its_tag_is_absent() {
    let docs = parse_documents("a: !!int seven\nb: !!bool 7\n").unwrap();
    assert_eq!(docs, vec![Node::Table(vec![entry("a", Node::Absent), entry("b", Node::Absent)])]);
}

#[test]
fn parse_alias_repeats_the_anchored_value() {
    let docs = parse_documents("a: &x [ls]\nb: *x\n").unwrap();
    assert_eq!(
        docs,
        vec![Node::Table(vec![
            entry("a", Node::List(vec![text("ls")])),
            entry("b", Node::List(vec![text("ls")])),
        ])]
    );
}

#[test]
fn first_document_of_a_stream() {
    assert_eq!(first_document(None), Err(Failure::ConfigParseError));
    assert_eq!(first_document(Some(vec![])), Err(Failure::ConfigNotFound));
    assert_eq!(first_document(Some(vec![text("a")])), Ok(text("a")));
    assert_eq!(first_document(Some(vec![text("a"), text("b"), text("c")])), Ok(text("a")));
}

#[test]
fn load_policy_reads_the_first_document() {
    assert_eq!(
        load_policy("bob:\n  root: [apt]\n---\nignored: true\n"),
        Ok(Node::Table(vec![entry(
            "bob",
            Node::Table(vec![entry("root", Node::List(vec![text("apt")]))]),
        )]))
    );
}

#[test]
fn load_policy_failures() {
    assert_eq!(load_policy(""), Err(Failure::ConfigNotFound));
    assert_eq!(load_policy("bob: [apt"), Err(Failure::ConfigParseError));
}

#[test]
fn loaded_policy_decides() {
    let doc = load_policy("alice:\n  ALL: ALL\n  nopass: true\nbob:\n  root:\n    - apt\n").unwrap();
    let alice = decide(&doc, "alice", "root", "ls").unwrap();
    assert!(alice.allowed);
    assert!(!alice.password_required);
    let bob = decide(&doc, "bob", "root", "ls").unwrap();
    assert!(!bob.allowed);
    assert!(bob.password_required);
    let bob_apt = decide(&doc, "bob", "root", "apt").unwrap();
    assert!(bob_apt.allowed);
    assert!(!decide(&doc, "carol", "root", "ls").unwrap().allowed);
}

#[test]
fn loaded_policy_with_quoted_flag_requires_password() {
    let doc = load_policy("alice:\n  ALL: [ALL]\n  nopass: 'true'\n").unwrap();
    let d = decide(&doc, "alice", "root", "ls").unwrap();
    assert!(d.allowed);
    assert!(d.password_required);
}
