//! Reading the number of sleepers from the command-line arguments.

use vstd::prelude::*;
use vstd::string::*;

verus! {

/// Number of sleepers when no argument is given.
pub const DEFAULT_SLEEPERS: usize = 1;

/// Why the arguments do not give a number of sleepers.
#[derive(Clone, Copy, Debug, PartialEq, Eq)]
pub enum ArgumentError {
    /// An argument is not valid Unicode.
    NotUnicode,
    /// The argument is not a decimal count that fits a `usize`.
    NotACount,
    /// More than one argument was given.
    TooMany,
}

/// Whether `c` is an ASCII decimal digit.
pub open spec fn is_digit(c: char) -> bool {
    '0' <= c && c <= '9'
}

/// Value of a digit character.
pub open spec fn digit_value(c: char) -> nat {
    (c as nat - '0' as nat) as nat
}

/// Value of a string of decimal digits, most significant first.
pub open spec fn digits_value(s: Seq<char>) -> nat
    decreases s.len(),
{
    if s.len() == 0 {
        0
    } else {
        digits_value(s.drop_last()) * 10 + digit_value(s.last())
    }
}

/// The digits of a count: the text without one optional leading `+`.
pub open spec fn unsigned_digits(s: Seq<char>) -> Seq<char> {
    if s.len() > 0 && s[0] == '+' {
        s.drop_first()
    } else {
        s
    }
}

/// The count that a text denotes: an optional `+` and at least one decimal
/// digit, with a value that fits a `usize`.
pub open spec fn count_of(s: Seq<char>) -> Option<nat> {
    let d = unsigned_digits(s);
    if d.len() > 0 && (forall|i: int| 0 <= i < d.len() ==> is_digit(#[trigger] d[i]))
        && digits_value(d) <= usize::MAX {
        Some(digits_value(d))
    } else {
        None
    }
}

/// The number of sleepers that the arguments (the program name left out)
/// ask for: the default with none; the first one's count if it is the only
/// one. The first argument is judged before any surplus is.
pub open spec fn requested_count(args: Seq<Option<String>>) -> Result<nat, ArgumentError> {
    if args.len() == 0 {
        Ok(DEFAULT_SLEEPERS as nat)
    } else {
        match args[0] {
            None => Err(ArgumentError::NotUnicode),
            Some(s) => match count_of(s@) {
                None => Err(ArgumentError::NotACount),
                Some(n) => if args.len() > 1 {
                    Err(ArgumentError::TooMany)
                } else {
                    Ok(n)
                },
            },
        }
    }
}

proof fn lemma_digits_grow(s: Seq<char>, i: int)
    requires
        0 <= i <= s.len(),
    ensures
        digits_value(s.take(i)) <= digits_value(s),
    decreases s.len() - i,
{
    if i < s.len() {
        lemma_digits_grow(s, i + 1);
        assert(s.take(i + 1).drop_last() =~= s.take(i));
    } else {
        assert(s.take(i) =~= s);
    }
}

/// Parses a count: an optional `+` and decimal digits whose value fits a `usize`.
pub fn parse_count(s: &str) -> (r: Option<usize>)
    ensures
        match r {
            Some(n) => count_of(s@) == Some(n as nat),
            None => count_of(s@) is None,
        },
{
    let len = s.unicode_len();
    let ghost d = unsigned_digits(s@);
    let mut i: usize = 0;
    if len > 0 && s.get_char(0) == '+' {
        i = 1;
    }
    let start = i;
    if start == len {
        return None;
    }
    proof {
        assert(d =~= s@.subrange(start as int, s@.len() as int));
    }
    let mut value: usize = 0;
    while i < len
        invariant
            start <= i <= len,
            len == s@.len(),
            start < len,
            d == s@.subrange(start as int, len as int),
            d == unsigned_digits(s@),
            forall|j: int| 0 <= j < i - start ==> is_digit(#[trigger] d[j]),
            value as nat == digits_value(d.take(i - start)),
        decreases len - i,
    {
        let c = s.get_char(i);
        proof {
            assert(d[i - start] == c);
        }
        if c < '0' || c > '9' {
            proof {
                assert(!is_digit(d[i - start]));
            }
            return None;
        }
        let digit: usize = (c as u32 - '0' as u32) as usize;
        proof {
            assert(d.take(i - start + 1).drop_last() =~= d.take(i - start));
            assert(d.take(i - start + 1).last() == c);
            assert(digit_value(c) == digit);
            assert(digits_value(d.take(i - start + 1)) == value * 10 + digit);
        }
        if value > (usize::MAX - digit) / 10 {
            proof {
                assert(value * 10 + digit > usize::MAX) by (nonlinear_arith)
                    requires
                        value > (usize::MAX - digit) / 10,
                        digit <= 9,
                ;
                lemma_digits_grow(d, i - start + 1);
            }
            return None;
        }
        proof {
            assert(value * 10 + digit <= usize::MAX) by (nonlinear_arith)
                requires
                    value <= (usize::MAX - digit) / 10,
                    digit <= 9,
            ;
        }
        value = value * 10 + digit;
        i = i + 1;
    }
    proof {
        assert(d.take(len - start) =~= d);
    }
    Some(value)
}

/// The number of sleepers that the command-line arguments (the program name
/// left out) ask for; `None` stands for an argument that is not valid Unicode.
pub fn requested_sleepers(args: &Vec<Option<String>>) -> (r: Result<usize, ArgumentError>)
    ensures
        match r {
            Ok(n) => requested_count(args@) == Ok::<nat, ArgumentError>(n as nat),
            Err(e) => requested_count(args@) == Err::<nat, ArgumentError>(e),
        },
{
    if args.len() == 0 {
        return Ok(DEFAULT_SLEEPERS);
    }
    match &args[0] {
        None => Err(ArgumentError::NotUnicode),
        Some(s) => match parse_count(s.as_str()) {
            None => Err(ArgumentError::NotACount),
            Some(n) => if args.len() > 1 {
                Err(ArgumentError::TooMany)
            } else {
                Ok(n)
            },
        },
    }
}

} // verus!
