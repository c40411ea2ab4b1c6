//! Password verification: the salted hash of a candidate password is
//! recomputed under the scheme of the stored credential and compared with
//! what is stored.

use vstd::prelude::*;
use vstd::string::StringExecFns;
use crate::credential::{Algorithm, CredentialRecord, CredentialView, PART_SEPARATOR};
use crate::text::chars_of;

verus! {

/// The complaint of a hashing routine, carried through unread.
#[verifier::external_type_specification]
#[verifier::external_body]
pub struct ExHashError(pwhash::error::Error);

/// What `pwhash::md5_crypt::hash_with` returns for a setup string and a
/// password: the full hash string, or nothing where it reports an error.
pub uninterp spec fn md5_crypt_hash(setup: Seq<char>, secret: Seq<char>) -> Option<Seq<char>>;

/// What `pwhash::sha256_crypt::hash_with` returns for a setup string and a
/// password: the full hash string, or nothing where it reports an error.
pub uninterp spec fn sha256_crypt_hash(setup: Seq<char>, secret: Seq<char>) -> Option<Seq<char>>;

/// What `pwhash::sha512_crypt::hash_with` returns for a setup string and a
/// password: the full hash string, or nothing where it reports an error.
pub uninterp spec fn sha512_crypt_hash(setup: Seq<char>, secret: Seq<char>) -> Option<Seq<char>>;

/// Whether `c` is a printable ASCII character, space included.
pub open spec fn printable(c: char) -> bool {
    ' ' <= c <= '~'
}

/// Whether every character of `s` is printable ASCII.
pub open spec fn all_printable(s: Seq<char>) -> bool {
    forall|i: int| 0 <= i < s.len() ==> printable(#[trigger] s[i])
}

/// Calls `pwhash::md5_crypt::hash_with` with the setup given as a string.
///
/// Trusted: the result is a function of the two arguments alone, since the
/// salt is always taken from the setup string. The hashing routines decode
/// each salt character through a table that covers the printable ASCII range
/// only, so other setups are kept away from them.
#[verifier::external_body]
#[allow(deprecated)]
fn md5_crypt(setup: &str, secret: &str) -> (r: Result<String, pwhash::error::Error>)
    requires
        all_printable(setup@),
    ensures
        match r {
            Ok(h) => md5_crypt_hash(setup@, secret@) == Some(h@),
            Err(_) => md5_crypt_hash(setup@, secret@) is None,
        },
{
    pwhash::md5_crypt::hash_with(setup, secret)
}

/// Calls `pwhash::sha256_crypt::hash_with` with the setup given as a string.
///
/// Trusted: the result is a function of the two arguments alone, since the
/// salt is always taken from the setup string. The hashing routines decode
/// each salt character through a table that covers the printable ASCII range
/// only, so other setups are kept away from them.
#[verifier::external_body]
#[allow(deprecated)]
fn sha256_crypt(setup: &str, secret: &str) -> (r: Result<String, pwhash::error::Error>)
    requires
        all_printable(setup@),
    ensures
        match r {
            Ok(h) => sha256_crypt_hash(setup@, secret@) == Some(h@),
            Err(_) => sha256_crypt_hash(setup@, secret@) is None,
        },
{
    pwhash::sha256_crypt::hash_with(setup, secret)
}

/// Calls `pwhash::sha512_crypt::hash_with` with the setup given as a string.
///
/// Trusted: the result is a function of the two arguments alone, since the
/// salt is always taken from the setup string. The hashing routines decode
/// each salt character through a table that covers the printable ASCII range
/// only, so other setups are kept away from them.
#[verifier::external_body]
fn sha512_crypt(setup: &str, secret: &str) -> (r: Result<String, pwhash::error::Error>)
    requires
        all_printable(setup@),
    ensures
        match r {
            Ok(h) => sha512_crypt_hash(setup@, secret@) == Some(h@),
            Err(_) => sha512_crypt_hash(setup@, secret@) is None,
        },
{
    pwhash::sha512_crypt::hash_with(setup, secret)
}

/// The setup string of a credential: `$tag$salt`.
pub open spec fn setup_of(algorithm: Algorithm, salt: Seq<char>) -> Seq<char> {
    seq![PART_SEPARATOR, algorithm.spec_tag(), PART_SEPARATOR] + salt
}

/// The string that a correct password must reproduce: `$tag$salt$hash`.
pub open spec fn stored_form(record: CredentialView) -> Seq<char> {
    setup_of(record.algorithm, record.salt).push(PART_SEPARATOR) + record.hash
}

/// The hash string of `secret` under `algorithm` for a setup string.
pub open spec fn crypt_hash(algorithm: Algorithm, setup: Seq<char>, secret: Seq<char>) -> Option<
    Seq<char>,
> {
    match algorithm {
        Algorithm::Md5 => md5_crypt_hash(setup, secret),
        Algorithm::Sha256 => sha256_crypt_hash(setup, secret),
        Algorithm::Sha512 => sha512_crypt_hash(setup, secret),
    }
}

/// The hash string of `secret` under the scheme and salt of a credential.
/// There is none where the salt holds a character outside printable ASCII,
/// or where the hashing routine rejects the setup.
pub open spec fn recomputed(algorithm: Algorithm, salt: Seq<char>, secret: Seq<char>) -> Option<
    Seq<char>,
> {
    if all_printable(salt) {
        crypt_hash(algorithm, setup_of(algorithm, salt), secret)
    } else {
        None
    }
}

/// What a recomputed hash holds, if anything was recomputed.
pub open spec fn computed_view(computed: Option<String>) -> Option<Seq<char>> {
    match computed {
        Some(h) => Some(h@),
        None => None,
    }
}

/// Whether a recomputed hash string is the one that `record` stores.
pub open spec fn agrees(computed: Option<Seq<char>>, record: CredentialView) -> bool {
    computed == Some(stored_form(record))
}

/// Whether `secret` is the password of `record`.
pub open spec fn verifies(record: CredentialView, secret: Seq<char>) -> bool {
    agrees(recomputed(record.algorithm, record.salt, secret), record)
}

/// Whether every character of `s` is printable ASCII.
pub fn is_printable(s: &str) -> (ok: bool)
    ensures
        ok == all_printable(s@),
{
    let chars = chars_of(s);
    let n: usize = chars.len();
    let mut i: usize = 0;
    while i < n
        invariant
            n == chars@.len(),
            i <= n,
            chars@ == s@,
            forall|j: int| 0 <= j < i ==> printable(#[trigger] chars@[j]),
        decreases n - i,
    {
        let c: char = chars[i];
        if c < ' ' || c > '~' {
            return false;
        }
        i += 1;
    }
    true
}

/// Builds the setup string `$tag$salt`.
pub fn hash_setup(algorithm: Algorithm, salt: &str) -> (setup: String)
    ensures
        setup@ == setup_of(algorithm, salt@),
{
    let mut setup = match algorithm {
        Algorithm::Md5 => String::from_str("$1$"),
        Algorithm::Sha256 => String::from_str("$5$"),
        Algorithm::Sha512 => String::from_str("$6$"),
    };
    proof {
        reveal_strlit("$1$");
        reveal_strlit("$5$");
        reveal_strlit("$6$");
        assert(setup@ =~= seq![PART_SEPARATOR, algorithm.spec_tag(), PART_SEPARATOR]);
    }
    setup.append(salt);
    setup
}

/// Builds the string `$tag$salt$hash` that a credential stands for.
pub fn stored_hash(record: &CredentialRecord) -> (full: String)
    ensures
        full@ == stored_form(record@),
{
    let mut full = hash_setup(record.algorithm, record.salt.as_str());
    proof {
        reveal_strlit("$");
    }
    full.append("$");
    assert(full@ =~= setup_of(record.algorithm, record.salt@).push(PART_SEPARATOR));
    full.append(record.hash.as_str());
    full
}

/// Recomputes the hash string of `secret` under `algorithm` and `salt`.
pub fn recompute(algorithm: Algorithm, salt: &str, secret: &str) -> (computed: Option<String>)
    ensures
        computed_view(computed) == recomputed(algorithm, salt@, secret@),
{
    if !is_printable(salt) {
        return None;
    }
    let setup = hash_setup(algorithm, salt);
    assert(all_printable(setup@)) by {
        assert forall|i: int| 0 <= i < setup@.len() implies printable(#[trigger] setup@[i]) by {
            if i >= 3 {
                assert(setup@[i] == salt@[i - 3]);
            }
        }
    }
    let outcome = match algorithm {
        Algorithm::Md5 => md5_crypt(setup.as_str(), secret),
        Algorithm::Sha256 => sha256_crypt(setup.as_str(), secret),
        Algorithm::Sha512 => sha512_crypt(setup.as_str(), secret),
    };
    match outcome {
        Ok(h) => Some(h),
        Err(_) => None,
    }
}

/// Compares a recomputed hash string with what `record` stores. Nothing
/// recomputed agrees with no record.
pub fn matches_record(computed: &Option<String>, record: &CredentialRecord) -> (same: bool)
    ensures
        same == agrees(computed_view(*computed), record@),
{
    match computed {
        Some(h) => {
            let full = stored_hash(record);
            *h == full
        },
        None => false,
    }
}

/// Whether `plaintext` is the password that `record` stores: its hash,
/// recomputed under the scheme and salt of the record, equals the stored
/// `$tag$salt$hash` character for character.
pub fn verify(plaintext: &str, record: &CredentialRecord) -> (ok: bool)
    ensures
        ok == verifies(record@, plaintext@),
{
    let computed = recompute(record.algorithm, record.salt.as_str(), plaintext);
    matches_record(&computed, record)
}

} // verus!
