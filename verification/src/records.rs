//! Databases of one record per line, each record a list of colon-separated
//! fields of which the first is the user's name.

use vstd::prelude::*;
use crate::text::{chars_of, lemma_split_nonempty, split, split_chars, views};

verus! {

/// The character that ends a record.
pub const RECORD_END: char = '\n';

/// The character that separates the fields of a record.
pub const FIELD_SEPARATOR: char = ':';

/// The fields of the first line among `lines` whose first field is exactly
/// `name`, if there is such a line.
pub open spec fn first_record(lines: Seq<Seq<char>>, name: Seq<char>) -> Option<Seq<Seq<char>>>
    decreases lines.len(),
{
    if lines.len() == 0 {
        None
    } else if split(lines[0], FIELD_SEPARATOR)[0] == name {
        Some(split(lines[0], FIELD_SEPARATOR))
    } else {
        first_record(lines.drop_first(), name)
    }
}

/// The fields of the record that `db` holds for `name`: the first line whose
/// first field equals `name` wins.
pub open spec fn record_of(db: Seq<char>, name: Seq<char>) -> Option<Seq<Seq<char>>> {
    first_record(split(db, RECORD_END), name)
}

/// A lookup finds the earliest line that bears the name, and fails only if no
/// line bears it. A name that merely begins another user's name matches
/// nothing.
pub proof fn lemma_first_record(lines: Seq<Seq<char>>, name: Seq<char>)
    ensures
        match first_record(lines, name) {
            Some(fields) => exists|i: int|
                0 <= i < lines.len() && fields == split(lines[i], FIELD_SEPARATOR) && fields[0]
                    == name && forall|j: int|
                    0 <= j < i ==> split(#[trigger] lines[j], FIELD_SEPARATOR)[0] != name,
            None => forall|j: int|
                0 <= j < lines.len() ==> split(#[trigger] lines[j], FIELD_SEPARATOR)[0] != name,
        },
    decreases lines.len(),
{
    if lines.len() == 0 {
    } else if split(lines[0], FIELD_SEPARATOR)[0] == name {
        assert(forall|j: int| 0 <= j < 0 ==> split(#[trigger] lines[j], FIELD_SEPARATOR)[0] != name);
    } else {
        let rest = lines.drop_first();
        lemma_first_record(rest, name);
        assert(forall|j: int| 0 <= j < rest.len() ==> rest[j] == lines[j + 1]);
        match first_record(rest, name) {
            Some(fields) => {
                let i = choose|i: int|
                    0 <= i < rest.len() && fields == split(rest[i], FIELD_SEPARATOR) && fields[0]
                        == name && forall|j: int|
                        0 <= j < i ==> split(#[trigger] rest[j], FIELD_SEPARATOR)[0] != name;
                assert forall|j: int| 0 <= j < i + 1 implies split(
                    #[trigger] lines[j],
                    FIELD_SEPARATOR,
                )[0] != name by {
                    if j > 0 {
                        assert(rest[j - 1] == lines[j]);
                    }
                }
                assert(fields == split(lines[i + 1], FIELD_SEPARATOR));
            },
            None => {
                assert forall|j: int| 0 <= j < lines.len() implies split(
                    #[trigger] lines[j],
                    FIELD_SEPARATOR,
                )[0] != name by {
                    if j > 0 {
                        assert(rest[j - 1] == lines[j]);
                    }
                }
            },
        }
    }
}

/// Whether two character vectors hold the same characters.
pub fn same_chars(a: &Vec<char>, b: &Vec<char>) -> (same: bool)
    ensures
        same == (a@ == b@),
{
    if a.len() != b.len() {
        return false;
    }
    let n: usize = a.len();
    let mut i: usize = 0;
    while i < n
        invariant
            n == a@.len(),
            n == b@.len(),
            i <= n,
            a@.take(i as int) == b@.take(i as int),
        decreases n - i,
    {
        if a[i] != b[i] {
            return false;
        }
        assert(a@.take(i + 1) =~= a@.take(i as int).push(a@[i as int]));
        assert(b@.take(i + 1) =~= b@.take(i as int).push(b@[i as int]));
        i += 1;
    }
    assert(a@.take(n as int) =~= a@);
    assert(b@.take(n as int) =~= b@);
    true
}

/// What the outcome of a search holds.
pub open spec fn found_view(found: Option<Vec<Vec<char>>>) -> Option<Seq<Seq<char>>> {
    match found {
        Some(fields) => Some(views(fields@)),
        None => None,
    }
}

/// Looks up the record of `name` in `db` and returns its fields.
pub fn find_record(db: &str, name: &str) -> (found: Option<Vec<Vec<char>>>)
    ensures
        found_view(found) == record_of(db@, name@),
{
    let text = chars_of(db);
    let wanted = chars_of(name);
    let lines = split_chars(text.as_slice(), RECORD_END);
    let n: usize = lines.len();
    let mut i: usize = 0;
    assert(views(lines@).skip(0) =~= views(lines@));
    while i < n
        invariant
            n == lines@.len(),
            i <= n,
            wanted@ == name@,
            record_of(db@, name@) == first_record(views(lines@).skip(i as int), name@),
        decreases n - i,
    {
        let fields = split_chars(lines[i].as_slice(), FIELD_SEPARATOR);
        proof {
            lemma_split_nonempty(lines@[i as int]@, FIELD_SEPARATOR);
            let rest = views(lines@).skip(i as int);
            assert(rest[0] == lines@[i as int]@);
            assert(rest.drop_first() =~= views(lines@).skip(i + 1));
            assert(views(fields@)[0] == fields@[0]@);
        }
        if same_chars(&fields[0], &wanted) {
            return Some(fields);
        }
        i += 1;
    }
    None
}

} // verus!
