//! The credential database: for each user an algorithm tag, a salt and the
//! hash that a correct password must reproduce.

use vstd::prelude::*;
use crate::failure::Failure;
use crate::records::{find_record, record_of};
use crate::text::{split, split_chars, string_of, views};

verus! {

/// The character that separates tag, salt and hash inside a credential field.
pub const PART_SEPARATOR: char = '$';

/// The hashing schemes that a credential may be tagged with.
#[derive(Clone, Copy, Debug, PartialEq, Eq, Structural)]
pub enum Algorithm {
    /// MD5-crypt, tag `1`.
    Md5,
    /// SHA-256-crypt, tag `5`.
    Sha256,
    /// SHA-512-crypt, tag `6`.
    Sha512,
}

impl Algorithm {
    /// The character by which the credential database names the scheme.
    pub open spec fn spec_tag(self) -> char {
        match self {
            Algorithm::Md5 => '1',
            Algorithm::Sha256 => '5',
            Algorithm::Sha512 => '6',
        }
    }

    /// The character by which the credential database names the scheme.
    #[verifier::when_used_as_spec(spec_tag)]
    pub fn tag(self) -> (c: char)
        ensures
            c == self.spec_tag(),
    {
        match self {
            Algorithm::Md5 => '1',
            Algorithm::Sha256 => '5',
            Algorithm::Sha512 => '6',
        }
    }

    /// The scheme that `tag` names, if it names one.
    pub open spec fn spec_from_tag(tag: Seq<char>) -> Option<Algorithm> {
        if tag == seq!['1'] {
            Some(Algorithm::Md5)
        } else if tag == seq!['5'] {
            Some(Algorithm::Sha256)
        } else if tag == seq!['6'] {
            Some(Algorithm::Sha512)
        } else {
            None
        }
    }

    /// The scheme that `tag` names, if it names one.
    pub fn from_tag(tag: &[char]) -> (found: Option<Algorithm>)
        ensures
            found == Algorithm::spec_from_tag(tag@),
    {
        if tag.len() != 1 {
            return None;
        }
        let c: char = tag[0];
        assert(tag@ =~= seq![c]);
        assert(seq!['1'][0] == '1' && seq!['5'][0] == '5' && seq!['6'][0] == '6');
        if c == '1' {
            Some(Algorithm::Md5)
        } else if c == '5' {
            Some(Algorithm::Sha256)
        } else if c == '6' {
            Some(Algorithm::Sha512)
        } else {
            None
        }
    }
}

/// What the credential database says of one user.
#[derive(Clone, Debug, PartialEq, Eq)]
pub struct CredentialRecord {
    /// The user whose password this is.
    pub username: String,
    /// The scheme under which the password was hashed.
    pub algorithm: Algorithm,
    /// The salt that went into the hash.
    pub salt: String,
    /// The hash that a correct password reproduces.
    pub hash: String,
}

/// A credential record as plain sequences.
pub struct CredentialView {
    pub username: Seq<char>,
    pub algorithm: Algorithm,
    pub salt: Seq<char>,
    pub hash: Seq<char>,
}

impl View for CredentialRecord {
    type V = CredentialView;

    open spec fn view(&self) -> CredentialView {
        CredentialView {
            username: self.username@,
            algorithm: self.algorithm,
            salt: self.salt@,
            hash: self.hash@,
        }
    }
}

/// The credential that a field of the form `$tag$salt$hash` holds for `name`.
/// What stands before the first separator and after the fourth part is not
/// read. A tag that names no supported scheme is reported as such; a field
/// with fewer parts is malformed.
pub open spec fn credential_in(name: Seq<char>, field: Seq<char>) -> Result<CredentialView, Failure> {
    let parts = split(field, PART_SEPARATOR);
    if parts.len() < 2 {
        Err(Failure::MalformedRecord)
    } else {
        match Algorithm::spec_from_tag(parts[1]) {
            None => Err(Failure::UnsupportedAlgorithm),
            Some(algorithm) => if parts.len() < 4 {
                Err(Failure::MalformedRecord)
            } else {
                Ok(CredentialView { username: name, algorithm, salt: parts[2], hash: parts[3] })
            },
        }
    }
}

/// The credential that `db` holds for `name`: the second field of the first
/// record whose first field is exactly `name`.
pub open spec fn credential_of(db: Seq<char>, name: Seq<char>) -> Result<CredentialView, Failure> {
    match record_of(db, name) {
        None => Err(Failure::NoSuchCredential),
        Some(fields) => if fields.len() < 2 {
            Err(Failure::MalformedRecord)
        } else {
            credential_in(name, fields[1])
        },
    }
}

/// What the outcome of a lookup holds.
pub open spec fn found_view(found: Result<CredentialRecord, Failure>) -> Result<
    CredentialView,
    Failure,
> {
    match found {
        Ok(record) => Ok(record@),
        Err(e) => Err(e),
    }
}

/// Looks up the credential of `username` in the text of a credential database.
pub fn lookup(db: &str, username: &str) -> (found: Result<CredentialRecord, Failure>)
    ensures
        found_view(found) == credential_of(db@, username@),
{
    let fields = match find_record(db, username) {
        None => {
            return Err(Failure::NoSuchCredential);
        },
        Some(fields) => fields,
    };
    if fields.len() < 2 {
        return Err(Failure::MalformedRecord);
    }
    let parts = split_chars(fields[1].as_slice(), PART_SEPARATOR);
    assert(views(fields@)[1] == fields@[1]@);
    if parts.len() < 2 {
        return Err(Failure::MalformedRecord);
    }
    assert(views(parts@)[1] == parts@[1]@);
    let algorithm = match Algorithm::from_tag(parts[1].as_slice()) {
        None => {
            return Err(Failure::UnsupportedAlgorithm);
        },
        Some(algorithm) => algorithm,
    };
    if parts.len() < 4 {
        return Err(Failure::MalformedRecord);
    }
    assert(views(parts@)[2] == parts@[2]@);
    assert(views(parts@)[3] == parts@[3]@);
    Ok(
        CredentialRecord {
            username: username.to_owned(),
            algorithm,
            salt: string_of(parts[2].as_slice()),
            hash: string_of(parts[3].as_slice()),
        },
    )
}

} // verus!
