use runas::failure::Failure;
use runas::identity::{parse_id, resolve, ID_FIELD};

const PASSWD: &str = "root:x:0:0:root:/root:/bin/bash\n\
daemon:x:1:1:daemon:/usr/sbin:/usr/sbin/nologin\n\
alice:x:1000:1000:Alice:/home/alice:/bin/bash\n\
al:x:1001:1001::/home/al:/bin/sh\n";

fn chars(s: &str) -> Vec<char> {
    s.chars().collect()
}

#[test]
fn id_is_the_fourth_field() {
    assert_eq!(ID_FIELD, 3);
    assert_eq!(resolve("u:x:7:42:rest\n", "u"), Ok(42));
}

#[test]
fn resolve_finds_each_user() {
    assert_eq!(resolve(PASSWD, "root"), Ok(0));
    assert_eq!(resolve(PASSWD, "daemon"), Ok(1));
    assert_eq!(resolve(PASSWD, "alice"), Ok(1000));
    assert_eq!(resolve(PASSWD, "al"), Ok(1001));
}

#[test]
fn resolve_unknown_user() {
    assert_eq!(resolve(PASSWD, "mallory"), Err(Failure::UnknownIdentity));
    assert_eq!(resolve("", "root"), Err(Failure::UnknownIdentity));
}

#[test]
fn resolve_does_not_match_on_a_prefix() {
    let db = "alice:x:1000:1000::/home/alice:/bin/sh\n";
    assert_eq!(resolve(db, "al"), Err(Failure::UnknownIdentity));
    assert_eq!(resolve(db, "alic"), Err(Failure::UnknownIdentity));
    assert_eq!(resolve(db, "alice"), Ok(1000));
}

#[test]
fn resolve_prefix_user_listed_after_longer_name() {
    assert_eq!(resolve(PASSWD, "al"), Ok(1001));
}

#[test]
fn resolve_first_record_wins() {
    let db = "bob:x:5:5::/:/bin/sh\nbob:x:6:6::/:/bin/sh\n";
    assert_eq!(resolve(db, "bob"), Ok(5));
}

#[test]
fn resolve_record_with_too_few_fields() {
    assert_eq!(resolve("bob:x:5\n", "bob"), Err(Failure::MalformedRecord));
    assert_eq!(resolve("bob\n", "bob"), Err(Failure::MalformedRecord));
}

#[test]
fn resolve_record_with_unreadable_id() {
    assert_eq!(resolve("bob:x:5:five\n", "bob"), Err(Failure::MalformedRecord));
    assert_eq!(resolve("bob:x:5:\n", "bob"), Err(Failure::MalformedRecord));
    assert_eq!(resolve("bob:x:5:-1\n", "bob"), Err(Failure::MalformedRecord));
    assert_eq!(resolve("bob:x:5: 7\n", "bob"), Err(Failure::MalformedRecord));
}

#[test]
fn resolve_without_final_newline() {
    assert_eq!(resolve("bob:x:5:77", "bob"), Ok(77));
}

#[test]
fn parse_id_reads_decimal_digits() {
    assert_eq!(parse_id(&chars("0")), Some(0));
    assert_eq!(parse_id(&chars("1000")), Some(1000));
    assert_eq!(parse_id(&chars("007")), Some(7));
    assert_eq!(parse_id(&chars("+12")), Some(12));
}

#[test]
fn parse_id_limits() {
    assert_eq!(parse_id(&chars("4294967295")), Some(u32::MAX));
    assert_eq!(parse_id(&chars("4294967296")), None);
    assert_eq!(parse_id(&chars("99999999999999999999")), None);
    assert_eq!(parse_id(&chars("0000000000004294967295")), Some(u32::MAX));
}

#[test]
fn parse_id_rejects_what_is_no_number() {
    for bad in ["", "+", "-", "-5", "1 ", " 1", "1_000", "0x10", "12a", "++1", "1+"] {
        assert_eq!(parse_id(&chars(bad)), None, "{:?}", bad);
    }
}

#[test]
fn parse_id_agrees_with_the_standard_library() {
    for text in ["0", "1", "65534", "+65534", "4294967295", "4294967296", "", "+", "abc", "1e3", "٣"] {
        assert_eq!(parse_id(&chars(text)), text.parse::<u32>().ok(), "{:?}", text);
    }
}
