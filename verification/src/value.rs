//! The value of a leaf field, of one of the registry's primitive types.

use crate::decimal::{format_signed, format_unsigned, integer_text};
use crate::decimal::lemma_integer_text_reads_back;
use crate::leaf::{truth_text, ParseFromStr};
use vstd::prelude::*;
use vstd::string::StringExecFns;

verus! {

/// The primitive types that a leaf can have.
#[derive(Clone, Copy, Debug, PartialEq, Eq, Structural)]
pub enum LeafType {
    Bool,
    Usize,
    U32,
    U64,
    I32,
    I64,
    Text,
}

/// The value of a leaf.
#[derive(Debug)]
pub enum LeafValue {
    Bool(bool),
    Usize(usize),
    U32(u32),
    U64(u64),
    I32(i32),
    I64(i64),
    Text(String),
}

/// A `LeafValue` with its text as a sequence of characters.
pub enum LeafView {
    Bool(bool),
    Usize(usize),
    U32(u32),
    U64(u64),
    I32(i32),
    I64(i64),
    Text(Seq<char>),
}

impl View for LeafValue {
    type V = LeafView;

    open spec fn view(&self) -> LeafView {
        match self {
            LeafValue::Bool(v) => LeafView::Bool(*v),
            LeafValue::Usize(v) => LeafView::Usize(*v),
            LeafValue::U32(v) => LeafView::U32(*v),
            LeafValue::U64(v) => LeafView::U64(*v),
            LeafValue::I32(v) => LeafView::I32(*v),
            LeafValue::I64(v) => LeafView::I64(*v),
            LeafValue::Text(v) => LeafView::Text(v@),
        }
    }
}

/// The type of a value.
pub open spec fn kind_of(v: LeafView) -> LeafType {
    match v {
        LeafView::Bool(_) => LeafType::Bool,
        LeafView::Usize(_) => LeafType::Usize,
        LeafView::U32(_) => LeafType::U32,
        LeafView::U64(_) => LeafType::U64,
        LeafView::I32(_) => LeafType::I32,
        LeafView::I64(_) => LeafType::I64,
        LeafView::Text(_) => LeafType::Text,
    }
}

/// The name under which a type is listed.
pub open spec fn type_tag(ty: LeafType) -> Seq<char> {
    match ty {
        LeafType::Bool => "bool"@,
        LeafType::Usize => "usize"@,
        LeafType::U32 => "u32"@,
        LeafType::U64 => "u64"@,
        LeafType::I32 => "i32"@,
        LeafType::I64 => "i64"@,
        LeafType::Text => "String"@,
    }
}

/// The canonical text of a value.
pub open spec fn leaf_text(v: LeafView) -> Seq<char> {
    match v {
        LeafView::Bool(b) => truth_text(b),
        LeafView::Usize(n) => integer_text(n as int),
        LeafView::U32(n) => integer_text(n as int),
        LeafView::U64(n) => integer_text(n as int),
        LeafView::I32(n) => integer_text(n as int),
        LeafView::I64(n) => integer_text(n as int),
        LeafView::Text(s) => s,
    }
}

/// What `s` is read as for a leaf of type `ty`: the value, or the message
/// of the refusal.
pub open spec fn leaf_read(ty: LeafType, s: Seq<char>) -> Result<LeafView, Seq<char>> {
    match ty {
        LeafType::Bool => match <bool as ParseFromStr>::parsed(s) {
            Ok(v) => Ok(LeafView::Bool(v)),
            Err(m) => Err(m),
        },
        LeafType::Usize => match <usize as ParseFromStr>::parsed(s) {
            Ok(v) => Ok(LeafView::Usize(v)),
            Err(m) => Err(m),
        },
        LeafType::U32 => match <u32 as ParseFromStr>::parsed(s) {
            Ok(v) => Ok(LeafView::U32(v)),
            Err(m) => Err(m),
        },
        LeafType::U64 => match <u64 as ParseFromStr>::parsed(s) {
            Ok(v) => Ok(LeafView::U64(v)),
            Err(m) => Err(m),
        },
        LeafType::I32 => match <i32 as ParseFromStr>::parsed(s) {
            Ok(v) => Ok(LeafView::I32(v)),
            Err(m) => Err(m),
        },
        LeafType::I64 => match <i64 as ParseFromStr>::parsed(s) {
            Ok(v) => Ok(LeafView::I64(v)),
            Err(m) => Err(m),
        },
        LeafType::Text => match <String as ParseFromStr>::parsed(s) {
            Ok(v) => Ok(LeafView::Text(v)),
            Err(m) => Err(m),
        },
    }
}

/// Round trip: the canonical text of a value is read back as that value,
/// for every value of every leaf type.
pub proof fn law_round_trip(v: LeafView)
    ensures
        leaf_read(kind_of(v), leaf_text(v)) == Ok::<LeafView, Seq<char>>(v),
{
    match v {
        LeafView::Bool(b) => {},
        LeafView::Usize(n) => {
            lemma_integer_text_reads_back(n as int, false);
        },
        LeafView::U32(n) => {
            lemma_integer_text_reads_back(n as int, false);
        },
        LeafView::U64(n) => {
            lemma_integer_text_reads_back(n as int, false);
        },
        LeafView::I32(n) => {
            lemma_integer_text_reads_back(n as int, true);
        },
        LeafView::I64(n) => {
            lemma_integer_text_reads_back(n as int, true);
        },
        LeafView::Text(s) => {},
    }
}

impl LeafType {
    /// The name under which this type is listed.
    pub fn name(&self) -> (tag: &'static str)
        ensures
            tag@ == type_tag(*self),
    {
        match self {
            LeafType::Bool => "bool",
            LeafType::Usize => "usize",
            LeafType::U32 => "u32",
            LeafType::U64 => "u64",
            LeafType::I32 => "i32",
            LeafType::I64 => "i64",
            LeafType::Text => "String",
        }
    }

    /// Reads a value of this type from `s`, or says why `s` is none.
    pub fn read(&self, s: &str) -> (r: Result<LeafValue, String>)
        ensures
            match r {
                Ok(v) => leaf_read(*self, s@) == Ok::<LeafView, Seq<char>>(v@),
                Err(m) => leaf_read(*self, s@) == Err::<LeafView, Seq<char>>(m@),
            },
    {
        match self {
            LeafType::Bool => match bool::parse_str(s) {
                Ok(v) => Ok(LeafValue::Bool(v)),
                Err(m) => Err(m),
            },
            LeafType::Usize => match usize::parse_str(s) {
                Ok(v) => Ok(LeafValue::Usize(v)),
                Err(m) => Err(m),
            },
            LeafType::U32 => match u32::parse_str(s) {
                Ok(v) => Ok(LeafValue::U32(v)),
                Err(m) => Err(m),
            },
            LeafType::U64 => match u64::parse_str(s) {
                Ok(v) => Ok(LeafValue::U64(v)),
                Err(m) => Err(m),
            },
            LeafType::I32 => match i32::parse_str(s) {
                Ok(v) => Ok(LeafValue::I32(v)),
                Err(m) => Err(m),
            },
            LeafType::I64 => match i64::parse_str(s) {
                Ok(v) => Ok(LeafValue::I64(v)),
                Err(m) => Err(m),
            },
            LeafType::Text => match String::parse_str(s) {
                Ok(v) => Ok(LeafValue::Text(v)),
                Err(m) => Err(m),
            },
        }
    }
}

impl Clone for LeafValue {
    fn clone(&self) -> (copy: Self)
        ensures
            copy@ == self@,
    {
        match self {
            LeafValue::Bool(v) => LeafValue::Bool(*v),
            LeafValue::Usize(v) => LeafValue::Usize(*v),
            LeafValue::U32(v) => LeafValue::U32(*v),
            LeafValue::U64(v) => LeafValue::U64(*v),
            LeafValue::I32(v) => LeafValue::I32(*v),
            LeafValue::I64(v) => LeafValue::I64(*v),
            LeafValue::Text(v) => LeafValue::Text(v.clone()),
        }
    }
}

impl LeafValue {
    /// The type of this value.
    pub fn kind(&self) -> (ty: LeafType)
        ensures
            ty == kind_of(self@),
    {
        match self {
            LeafValue::Bool(_) => LeafType::Bool,
            LeafValue::Usize(_) => LeafType::Usize,
            LeafValue::U32(_) => LeafType::U32,
            LeafValue::U64(_) => LeafType::U64,
            LeafValue::I32(_) => LeafType::I32,
            LeafValue::I64(_) => LeafType::I64,
            LeafValue::Text(_) => LeafType::Text,
        }
    }

    /// The canonical text of this value, as a default is shown.
    pub fn to_text(&self) -> (text: String)
        ensures
            text@ == leaf_text(self@),
    {
        match self {
            LeafValue::Bool(v) => {
                proof {
                    reveal_strlit("true");
                    reveal_strlit("false");
                    assert("true"@ =~= truth_text(true));
                    assert("false"@ =~= truth_text(false));
                }
                if *v {
                    String::from_str("true")
                } else {
                    String::from_str("false")
                }
            },
            LeafValue::Usize(v) => format_unsigned(*v as u64),
            LeafValue::U32(v) => format_unsigned(*v as u64),
            LeafValue::U64(v) => format_unsigned(*v),
            LeafValue::I32(v) => format_signed(*v as i64),
            LeafValue::I64(v) => format_signed(*v),
            LeafValue::Text(v) => v.clone(),
        }
    }
}

} // verus!
