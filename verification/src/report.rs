//! Failures in words, for a caller to show as they are.

use crate::model::QueryError;
use crate::text::text_of;
use vstd::prelude::*;
use vstd::string::*;

verus! {

/// The character of a decimal digit.
pub open spec fn digit_of(d: int) -> char {
    if d == 0 {
        '0'
    } else if d == 1 {
        '1'
    } else if d == 2 {
        '2'
    } else if d == 3 {
        '3'
    } else if d == 4 {
        '4'
    } else if d == 5 {
        '5'
    } else if d == 6 {
        '6'
    } else if d == 7 {
        '7'
    } else if d == 8 {
        '8'
    } else {
        '9'
    }
}

/// A number in decimal, without leading zeros.
pub open spec fn decimal_of(n: nat) -> Seq<char>
    decreases n,
{
    if n < 10 {
        seq![digit_of(n as int)]
    } else {
        decimal_of(n / 10).push(digit_of((n % 10) as int))
    }
}

/// A failure in words. It names the path, the id or the limit at fault; a
/// failure of the store keeps the store's own words.
pub open spec fn description(e: QueryError) -> Seq<char> {
    match e {
        QueryError::RepositoryNotFound { message } => "Failed to open repository: "@ + message@,
        QueryError::RefNotFound { message } => "Reference not found: "@ + message@,
        QueryError::InvalidCommitId { message } => "Invalid commit ID: "@ + message@,
        QueryError::CommitNotFound { message } => "Commit not found: "@ + message@,
        QueryError::FileNotFound { path, place } => "File '"@ + path@ + "' not found in "@
            + place@,
        QueryError::BinaryUnsupported => "Binary files cannot be shown as text"@,
        QueryError::TooLarge { size } => "File too large ("@ + decimal_of((size / 1024) as nat)
            + "KB > 1MB)"@,
        QueryError::TooManyLines { lines } => "File has too many lines ("@ + decimal_of(
            lines as nat,
        ) + " > 3000)"@,
        QueryError::InvalidEncoding => "File is not valid UTF-8"@,
        QueryError::InvalidQuery { message } => "Invalid query: "@ + message@,
        QueryError::Store { message } => message@,
    }
}

/// The character of a decimal digit.
pub fn digit(d: usize) -> (r: char)
    requires
        d < 10,
    ensures
        r == digit_of(d as int),
{
    if d == 0 {
        '0'
    } else if d == 1 {
        '1'
    } else if d == 2 {
        '2'
    } else if d == 3 {
        '3'
    } else if d == 4 {
        '4'
    } else if d == 5 {
        '5'
    } else if d == 6 {
        '6'
    } else if d == 7 {
        '7'
    } else if d == 8 {
        '8'
    } else {
        '9'
    }
}

/// A number in decimal.
pub fn decimal(n: usize) -> (r: String)
    ensures
        r@ == decimal_of(n as nat),
{
    let mut low_first: Vec<char> = Vec::new();
    let mut m: usize = n;
    proof {
        assert(decimal_of(m as nat) + low_first@.reverse() == decimal_of(n as nat));
    }
    while m >= 10
        invariant
            decimal_of(n as nat) == decimal_of(m as nat) + low_first@.reverse(),
        decreases m,
    {
        let d = digit(m % 10);
        proof {
            assert(low_first@.push(d).reverse() =~= seq![d] + low_first@.reverse());
            assert(decimal_of((m / 10) as nat).push(d) + low_first@.reverse() =~= decimal_of(
                (m / 10) as nat,
            ) + (seq![d] + low_first@.reverse()));
        }
        low_first.push(d);
        m = m / 10;
    }
    let d = digit(m);
    proof {
        assert(low_first@.push(d).reverse() =~= seq![d] + low_first@.reverse());
    }
    low_first.push(d);
    let mut out: Vec<char> = Vec::new();
    let mut i: usize = low_first.len();
    while i > 0
        invariant
            i <= low_first.len(),
            out@.len() == low_first.len() - i,
            forall|k: int| 0 <= k < out@.len() ==> out@[k] == low_first@[low_first.len() - 1 - k],
        decreases i,
    {
        i -= 1;
        out.push(low_first[i]);
    }
    proof {
        assert(out@ =~= low_first@.reverse());
    }
    text_of(out.as_slice())
}

/// A failure in words.
pub fn describe(e: &QueryError) -> (r: String)
    ensures
        r@ == description(*e),
{
    match e {
        QueryError::RepositoryNotFound { message } => String::from_str(
            "Failed to open repository: ",
        ).concat(message.as_str()),
        QueryError::RefNotFound { message } => String::from_str("Reference not found: ").concat(
            message.as_str(),
        ),
        QueryError::InvalidCommitId { message } => String::from_str("Invalid commit ID: ").concat(
            message.as_str(),
        ),
        QueryError::CommitNotFound { message } => String::from_str("Commit not found: ").concat(
            message.as_str(),
        ),
        QueryError::FileNotFound { path, place } => String::from_str("File '").concat(
            path.as_str(),
        ).concat("' not found in ").concat(place.as_str()),
        QueryError::BinaryUnsupported => String::from_str("Binary files cannot be shown as text"),
        QueryError::TooLarge { size } => {
            let kb = decimal(*size / 1024);
            String::from_str("File too large (").concat(kb.as_str()).concat("KB > 1MB)")
        },
        QueryError::TooManyLines { lines } => {
            let count = decimal(*lines);
            String::from_str("File has too many lines (").concat(count.as_str()).concat(" > 3000)")
        },
        QueryError::InvalidEncoding => String::from_str("File is not valid UTF-8"),
        QueryError::InvalidQuery { message } => String::from_str("Invalid query: ").concat(
            message.as_str(),
        ),
        QueryError::Store { message } => message.clone(),
    }
}

} // verus!
