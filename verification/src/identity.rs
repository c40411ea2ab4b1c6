//! The identity database: for each user a numeric id, the fourth field of the
//! user's record.

use vstd::prelude::*;
use crate::failure::Failure;
use crate::records::{find_record, record_of};
use crate::text::views;

verus! {

/// The position of the numeric id among the fields of a record.
pub const ID_FIELD: usize = 3;

/// Whether `c` is a decimal digit.
pub open spec fn is_digit(c: char) -> bool {
    '0' <= c <= '9'
}

/// Whether `s` is made of decimal digits only.
pub open spec fn all_digits(s: Seq<char>) -> bool {
    forall|i: int| 0 <= i < s.len() ==> is_digit(#[trigger] s[i])
}

/// The value of a decimal digit; other characters count as zero.
pub open spec fn digit_value(c: char) -> nat {
    if is_digit(c) {
        (c as nat - '0' as nat) as nat
    } else {
        0
    }
}

/// The number that a sequence of decimal digits writes.
pub open spec fn decimal_value(s: Seq<char>) -> nat
    decreases s.len(),
{
    if s.len() == 0 {
        0
    } else {
        10 * decimal_value(s.drop_last()) + digit_value(s.last())
    }
}

/// The digits of a numeric field: what follows an optional leading `+`.
pub open spec fn digits_of(field: Seq<char>) -> Seq<char> {
    if field.len() > 0 && field[0] == '+' {
        field.drop_first()
    } else {
        field
    }
}

/// The id that a field writes: one or more decimal digits, with an optional
/// `+` before them, whose value fits in 32 bits.
pub open spec fn id_in(field: Seq<char>) -> Option<u32> {
    let digits = digits_of(field);
    if digits.len() > 0 && all_digits(digits) && decimal_value(digits) <= u32::MAX {
        Some(decimal_value(digits) as u32)
    } else {
        None
    }
}

/// The id that `db` holds for `name`: the fourth field of the first record
/// whose first field is exactly `name`.
pub open spec fn id_of(db: Seq<char>, name: Seq<char>) -> Result<u32, Failure> {
    match record_of(db, name) {
        None => Err(Failure::UnknownIdentity),
        Some(fields) => if fields.len() <= ID_FIELD {
            Err(Failure::MalformedRecord)
        } else {
            match id_in(fields[ID_FIELD as int]) {
                Some(id) => Ok(id),
                None => Err(Failure::MalformedRecord),
            }
        },
    }
}

/// A longer run of digits writes a number at least as large as any of its
/// beginnings.
pub proof fn lemma_decimal_value_grows(s: Seq<char>, k: int)
    requires
        0 <= k <= s.len(),
    ensures
        decimal_value(s.take(k)) <= decimal_value(s),
    decreases s.len() - k,
{
    if k == s.len() {
        assert(s.take(k) =~= s);
    } else {
        lemma_decimal_value_grows(s.drop_last(), k);
        assert(s.drop_last().take(k) =~= s.take(k));
    }
}

/// Reads the id that `field` writes.
pub fn parse_id(field: &[char]) -> (id: Option<u32>)
    ensures
        id == id_in(field@),
{
    let n: usize = field.len();
    let start: usize = if n > 0 && field[0] == '+' {
        1
    } else {
        0
    };
    let ghost digits = digits_of(field@);
    assert(digits =~= field@.skip(start as int));
    if start == n {
        return None;
    }
    let mut value: u32 = 0;
    let mut i: usize = start;
    assert(digits.take(0) =~= Seq::<char>::empty());
    while i < n
        invariant
            n == field@.len(),
            start <= i <= n,
            digits == field@.skip(start as int),
            digits == digits_of(field@),
            all_digits(digits.take(i - start)),
            value == decimal_value(digits.take(i - start)),
        decreases n - i,
    {
        let c: char = field[i];
        let ghost k = i - start;
        proof {
            assert(digits[k] == c);
            assert(digits.take(k + 1).drop_last() =~= digits.take(k));
            assert(digits.take(k + 1).last() == c);
        }
        if c < '0' || c > '9' {
            assert(!is_digit(digits[k]));
            return None;
        }
        let d: u32 = c as u32 - '0' as u32;
        if value > (u32::MAX - d) / 10 {
            proof {
                assert(digit_value(c) == d);
                assert(decimal_value(digits.take(k + 1)) == 10 * value + d);
                lemma_decimal_value_grows(digits, k + 1);
            }
            return None;
        }
        value = value * 10 + d;
        assert(all_digits(digits.take(k + 1))) by {
            assert forall|j: int| 0 <= j < k + 1 implies is_digit(
                #[trigger] digits.take(k + 1)[j],
            ) by {
                if j < k {
                    assert(digits.take(k + 1)[j] == digits.take(k)[j]);
                }
            }
        }
        i += 1;
    }
    assert(digits.take(n - start) =~= digits);
    Some(value)
}

/// Resolves `username` to its numeric id in the text of an identity database.
pub fn resolve(db: &str, username: &str) -> (found: Result<u32, Failure>)
    ensures
        found == id_of(db@, username@),
{
    match find_record(db, username) {
        None => Err(Failure::UnknownIdentity),
        Some(fields) => {
            if fields.len() <= ID_FIELD {
                return Err(Failure::MalformedRecord);
            }
            assert(views(fields@)[ID_FIELD as int] == fields@[ID_FIELD as int]@);
            match parse_id(fields[ID_FIELD].as_slice()) {
                Some(id) => Ok(id),
                None => Err(Failure::MalformedRecord),
            }
        },
    }
}

} // verus!
