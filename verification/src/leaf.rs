//! The leaf registry: how each primitive type is read from text and shown
//! as text.

use crate::decimal::decimal;
use vstd::prelude::*;
use vstd::string::StringExecFns;

verus! {

/// The message with which std refuses to read `s` as a `usize`.
pub uninterp spec fn usize_refusal(s: Seq<char>) -> Seq<char>;

/// The message with which std refuses to read `s` as a `u32`.
pub uninterp spec fn u32_refusal(s: Seq<char>) -> Seq<char>;

/// The message with which std refuses to read `s` as a `u64`.
pub uninterp spec fn u64_refusal(s: Seq<char>) -> Seq<char>;

/// The message with which std refuses to read `s` as an `i32`.
pub uninterp spec fn i32_refusal(s: Seq<char>) -> Seq<char>;

/// The message with which std refuses to read `s` as an `i64`.
pub uninterp spec fn i64_refusal(s: Seq<char>) -> Seq<char>;

/// The message with which std refuses to read `s` as a `bool`.
pub uninterp spec fn bool_refusal(s: Seq<char>) -> Seq<char>;

/// The integer within `lo..=hi` that `s` is read as.
pub open spec fn integer_in(s: Seq<char>, signed: bool, lo: int, hi: int) -> Option<int> {
    match decimal(s, signed) {
        Some(v) => if lo <= v <= hi {
            Some(v)
        } else {
            None
        },
        None => None,
    }
}

/// The truth value that `s` is read as: `true` and `false` and nothing else.
pub open spec fn truth(s: Seq<char>) -> Option<bool> {
    if s == seq!['t', 'r', 'u', 'e'] {
        Some(true)
    } else if s == seq!['f', 'a', 'l', 's', 'e'] {
        Some(false)
    } else {
        None
    }
}

/// The text of a truth value.
pub open spec fn truth_text(b: bool) -> Seq<char> {
    if b {
        seq!['t', 'r', 'u', 'e']
    } else {
        seq!['f', 'a', 'l', 's', 'e']
    }
}

/// `usize::from_str` of std, with its error turned into its message. Std
/// documents that it takes an optional `+` and then digits only, and fails
/// on anything else and on a number that does not fit; the contract claims
/// that, and that the message depends on the text alone.
#[verifier::external_body]
fn read_usize(s: &str) -> (r: Result<usize, String>)
    ensures
        match r {
            Ok(v) => integer_in(s@, false, 0, usize::MAX as int) == Some(v as int),
            Err(m) => integer_in(s@, false, 0, usize::MAX as int) is None && m@ == usize_refusal(
                s@,
            ),
        },
{
    <usize as std::str::FromStr>::from_str(s).map_err(|e| e.to_string())
}

/// `u32::from_str` of std, with its error turned into its message. Std
/// documents that it takes an optional `+` and then digits only, and fails
/// on anything else and on a number that does not fit; the contract claims
/// that, and that the message depends on the text alone.
#[verifier::external_body]
fn read_u32(s: &str) -> (r: Result<u32, String>)
    ensures
        match r {
            Ok(v) => integer_in(s@, false, 0, u32::MAX as int) == Some(v as int),
            Err(m) => integer_in(s@, false, 0, u32::MAX as int) is None && m@ == u32_refusal(s@),
        },
{
    <u32 as std::str::FromStr>::from_str(s).map_err(|e| e.to_string())
}

/// `u64::from_str` of std, with its error turned into its message. Std
/// documents that it takes an optional `+` and then digits only, and fails
/// on anything else and on a number that does not fit; the contract claims
/// that, and that the message depends on the text alone.
#[verifier::external_body]
fn read_u64(s: &str) -> (r: Result<u64, String>)
    ensures
        match r {
            Ok(v) => integer_in(s@, false, 0, u64::MAX as int) == Some(v as int),
            Err(m) => integer_in(s@, false, 0, u64::MAX as int) is None && m@ == u64_refusal(s@),
        },
{
    <u64 as std::str::FromStr>::from_str(s).map_err(|e| e.to_string())
}

/// `i32::from_str` of std, with its error turned into its message. Std
/// documents that it takes an optional `+` or `-` and then digits only, and
/// fails on anything else and on a number that does not fit; the contract
/// claims that, and that the message depends on the text alone.
#[verifier::external_body]
fn read_i32(s: &str) -> (r: Result<i32, String>)
    ensures
        match r {
            Ok(v) => integer_in(s@, true, i32::MIN as int, i32::MAX as int) == Some(v as int),
            Err(m) => integer_in(s@, true, i32::MIN as int, i32::MAX as int) is None && m@
                == i32_refusal(s@),
        },
{
    <i32 as std::str::FromStr>::from_str(s).map_err(|e| e.to_string())
}

/// `i64::from_str` of std, with its error turned into its message. Std
/// documents that it takes an optional `+` or `-` and then digits only, and
/// fails on anything else and on a number that does not fit; the contract
/// claims that, and that the message depends on the text alone.
#[verifier::external_body]
fn read_i64(s: &str) -> (r: Result<i64, String>)
    ensures
        match r {
            Ok(v) => integer_in(s@, true, i64::MIN as int, i64::MAX as int) == Some(v as int),
            Err(m) => integer_in(s@, true, i64::MIN as int, i64::MAX as int) is None && m@
                == i64_refusal(s@),
        },
{
    <i64 as std::str::FromStr>::from_str(s).map_err(|e| e.to_string())
}

/// `bool::from_str` of std, with its error turned into its message. Std
/// documents that it reads `true` and `false` and fails on every other
/// text; the contract claims that, and that the message depends on the
/// text alone.
#[verifier::external_body]
fn read_bool(s: &str) -> (r: Result<bool, String>)
    ensures
        match r {
            Ok(v) => truth(s@) == Some(v),
            Err(m) => truth(s@) is None && m@ == bool_refusal(s@),
        },
{
    <bool as std::str::FromStr>::from_str(s).map_err(|e| e.to_string())
}

/// A type that a leaf can hold: it is read from text, or refused with a
/// message.
pub trait ParseFromStr: Sized + View {
    /// What `s` is read as: the value, or the message of the refusal.
    spec fn parsed(s: Seq<char>) -> Result<Self::V, Seq<char>>;

    /// Reads a value from `s`.
    fn parse_str(s: &str) -> (r: Result<Self, String>)
        ensures
            match r {
                Ok(v) => Self::parsed(s@) == Ok::<Self::V, Seq<char>>(v@),
                Err(m) => Self::parsed(s@) == Err::<Self::V, Seq<char>>(m@),
            },
    ;
}

impl ParseFromStr for usize {
    open spec fn parsed(s: Seq<char>) -> Result<usize, Seq<char>> {
        match integer_in(s, false, 0, usize::MAX as int) {
            Some(v) => Ok(v as usize),
            None => Err(usize_refusal(s)),
        }
    }

    fn parse_str(s: &str) -> (r: Result<usize, String>) {
        read_usize(s)
    }
}

impl ParseFromStr for u32 {
    open spec fn parsed(s: Seq<char>) -> Result<u32, Seq<char>> {
        match integer_in(s, false, 0, u32::MAX as int) {
            Some(v) => Ok(v as u32),
            None => Err(u32_refusal(s)),
        }
    }

    fn parse_str(s: &str) -> (r: Result<u32, String>) {
        read_u32(s)
    }
}

impl ParseFromStr for u64 {
    open spec fn parsed(s: Seq<char>) -> Result<u64, Seq<char>> {
        match integer_in(s, false, 0, u64::MAX as int) {
            Some(v) => Ok(v as u64),
            None => Err(u64_refusal(s)),
        }
    }

    fn parse_str(s: &str) -> (r: Result<u64, String>) {
        read_u64(s)
    }
}

impl ParseFromStr for i32 {
    open spec fn parsed(s: Seq<char>) -> Result<i32, Seq<char>> {
        match integer_in(s, true, i32::MIN as int, i32::MAX as int) {
            Some(v) => Ok(v as i32),
            None => Err(i32_refusal(s)),
        }
    }

    fn parse_str(s: &str) -> (r: Result<i32, String>) {
        read_i32(s)
    }
}

impl ParseFromStr for i64 {
    open spec fn parsed(s: Seq<char>) -> Result<i64, Seq<char>> {
        match integer_in(s, true, i64::MIN as int, i64::MAX as int) {
            Some(v) => Ok(v as i64),
            None => Err(i64_refusal(s)),
        }
    }

    fn parse_str(s: &str) -> (r: Result<i64, String>) {
        read_i64(s)
    }
}

impl ParseFromStr for bool {
    open spec fn parsed(s: Seq<char>) -> Result<bool, Seq<char>> {
        match truth(s) {
            Some(v) => Ok(v),
            None => Err(bool_refusal(s)),
        }
    }

    fn parse_str(s: &str) -> (r: Result<bool, String>) {
        read_bool(s)
    }
}

impl ParseFromStr for String {
    open spec fn parsed(s: Seq<char>) -> Result<Seq<char>, Seq<char>> {
        Ok(s)
    }

    fn parse_str(s: &str) -> (r: Result<String, String>) {
        Ok(String::from_str(s))
    }
}

} // verus!
