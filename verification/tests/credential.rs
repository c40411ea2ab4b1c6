use runas::credential::{lookup, Algorithm, CredentialRecord};
use runas::failure::Failure;

const SHADOW: &str = "root:$6$abcd$Qn1Z9Z5NNxb3xow2Atb3oXUiEVBwVmV4aBStoqZvjxTwRkBHzNb45iNwNBn.BoutZuVhuRGjmmU.dHMTEtO990:19000:0:99999:7:::\n\
daemon:*:19000:0:99999:7:::\n\
old:$1$5pZSV9va$azfrPr6af3Fc7dLblQXVa0:19000:0:99999:7:::\n\
mid:$5$WH1ABM5sKhxbkgCK$sOnTVjQn1Y3EWibd8gWqqJqjH.KaFrxJE5rijqxcPp7:19000::::::\n\
new:$y$j9T$salt$hash:19000::::::\n\
short:$6$onlysalt:19000::::::\n\
bare\n";

#[test]
fn algorithm_tags() {
    assert_eq!(Algorithm::Md5.tag(), '1');
    assert_eq!(Algorithm::Sha256.tag(), '5');
    assert_eq!(Algorithm::Sha512.tag(), '6');
    assert_eq!(Algorithm::from_tag(&['1']), Some(Algorithm::Md5));
    assert_eq!(Algorithm::from_tag(&['5']), Some(Algorithm::Sha256));
    assert_eq!(Algorithm::from_tag(&['6']), Some(Algorithm::Sha512));
}

#[test]
fn algorithm_unknown_tags() {
    assert_eq!(Algorithm::from_tag(&[]), None);
    assert_eq!(Algorithm::from_tag(&['2']), None);
    assert_eq!(Algorithm::from_tag(&['y']), None);
    assert_eq!(Algorithm::from_tag(&['6', '6']), None);
    assert_eq!(Algorithm::from_tag(&['2', 'b']), None);
}

#[test]
fn lookup_splits_tag_salt_and_hash() {
    let record = lookup(SHADOW, "root").unwrap();
    assert_eq!(
        record,
        CredentialRecord {
            username: "root".to_string(),
            algorithm: Algorithm::Sha512,
            salt: "abcd".to_string(),
            hash: "Qn1Z9Z5NNxb3xow2Atb3oXUiEVBwVmV4aBStoqZvjxTwRkBHzNb45iNwNBn.BoutZuVhuRGjmmU.dHMTEtO990"
                .to_string(),
        }
    );
}

#[test]
fn lookup_each_algorithm() {
    let old = lookup(SHADOW, "old").unwrap();
    assert_eq!(old.algorithm, Algorithm::Md5);
    assert_eq!(old.salt, "5pZSV9va");
    assert_eq!(old.hash, "azfrPr6af3Fc7dLblQXVa0");
    let mid = lookup(SHADOW, "mid").unwrap();
    assert_eq!(mid.algorithm, Algorithm::Sha256);
    assert_eq!(mid.salt, "WH1ABM5sKhxbkgCK");
    assert_eq!(mid.hash, "sOnTVjQn1Y3EWibd8gWqqJqjH.KaFrxJE5rijqxcPp7");
}

#[test]
fn lookup_unknown_user() {
    assert_eq!(lookup(SHADOW, "mallory"), Err(Failure::NoSuchCredential));
    assert_eq!(lookup("", "root"), Err(Failure::NoSuchCredential));
}

#[test]
fn lookup_does_not_match_on_a_prefix() {
    assert_eq!(lookup(SHADOW, "ro"), Err(Failure::NoSuchCredential));
    assert_eq!(lookup(SHADOW, "roo"), Err(Failure::NoSuchCredential));
    assert_eq!(lookup(SHADOW, "n"), Err(Failure::NoSuchCredential));
}

#[test]
fn lookup_unsupported_algorithm() {
    assert_eq!(lookup(SHADOW, "new"), Err(Failure::UnsupportedAlgorithm));
    assert_eq!(lookup("u:$2b$12$abcdefghijklmnopqrstuv:1\n", "u"), Err(Failure::UnsupportedAlgorithm));
    assert_eq!(lookup("u:$7$salt$hash\n", "u"), Err(Failure::UnsupportedAlgorithm));
    assert_eq!(lookup("u:$$salt$hash\n", "u"), Err(Failure::UnsupportedAlgorithm));
    assert_eq!(lookup("u:$66$salt$hash\n", "u"), Err(Failure::UnsupportedAlgorithm));
}

#[test]
fn lookup_malformed_record() {
    assert_eq!(lookup(SHADOW, "daemon"), Err(Failure::MalformedRecord));
    assert_eq!(lookup(SHADOW, "short"), Err(Failure::MalformedRecord));
    assert_eq!(lookup(SHADOW, "bare"), Err(Failure::MalformedRecord));
    assert_eq!(lookup("u:!\n", "u"), Err(Failure::MalformedRecord));
    assert_eq!(lookup("u:\n", "u"), Err(Failure::MalformedRecord));
    assert_eq!(lookup("u:$6\n", "u"), Err(Failure::MalformedRecord));
}

#[test]
fn lookup_reads_no_more_than_four_parts() {
    let record = lookup("u:$6$rounds=5000$salt$hash:1\n", "u").unwrap();
    assert_eq!(record.algorithm, Algorithm::Sha512);
    assert_eq!(record.salt, "rounds=5000");
    assert_eq!(record.hash, "salt");
}

#[test]
fn lookup_empty_salt_and_hash() {
    let record = lookup("u:$5$$\n", "u").unwrap();
    assert_eq!(record.algorithm, Algorithm::Sha256);
    assert_eq!(record.salt, "");
    assert_eq!(record.hash, "");
}

#[test]
fn lookup_first_record_wins() {
    let db = "u:$1$a$b\nu:$6$c$d\n";
    let record = lookup(db, "u").unwrap();
    assert_eq!(record.algorithm, Algorithm::Md5);
    assert_eq!(record.salt, "a");
}
