//! Runtime values exchanged with library providers, and the failures a
//! provider call reports.
use vstd::prelude::*;
use crate::source::Span;
use crate::text::string_of;
use crate::types::IntegerType;

verus! {

/// A runtime value as the library providers see it.
#[derive(Debug)]
pub enum Value {
    Null,
    Boolean(bool),
    Integer(i128, IntegerType),
    String(String),
    /// A `BNCrypto.Bytes` buffer handle.
    CryptoBytes(u64),
    /// A `BNJson.Json` document handle.
    Json(u64),
    /// A recoverable failure the program must handle.
    Error { code: i64, message: String },
}

/// Mathematical model of [`Value`].
pub ghost enum ValueV {
    Null,
    Boolean(bool),
    Integer(i128, IntegerType),
    String(Seq<char>),
    CryptoBytes(u64),
    Json(u64),
    Error { code: i64, message: Seq<char> },
}

impl View for Value {
    type V = ValueV;

    open spec fn view(&self) -> ValueV {
        match self {
            Value::Null => ValueV::Null,
            Value::Boolean(b) => ValueV::Boolean(*b),
            Value::Integer(n, k) => ValueV::Integer(*n, *k),
            Value::String(s) => ValueV::String(s@),
            Value::CryptoBytes(h) => ValueV::CryptoBytes(*h),
            Value::Json(h) => ValueV::Json(*h),
            Value::Error { code, message } => ValueV::Error { code: *code, message: message@ },
        }
    }
}

/// The `Error` value with code 1 and the given message.
pub open spec fn error_value(message: Seq<char>) -> ValueV {
    ValueV::Error { code: 1, message }
}

/// Builds the `Error` value with code 1 and the given message.
pub fn make_error(message: &Vec<char>) -> (v: Value)
    ensures
        v@ == error_value(message@),
{
    Value::Error { code: 1, message: string_of(message) }
}

/// What an argument was expected to be.
#[derive(Clone, Copy, Debug, PartialEq, Eq, Structural)]
pub enum Expected {
    /// A `BNCrypto.Bytes` buffer.
    CryptoBytes,
    /// A `BNJson.Json` document.
    Json,
    /// A `STRING`.
    Text,
    /// An `INTEGER`.
    Integer,
    /// An `INTEGER` that is not negative and fits the operand.
    NonNegativeInteger,
    /// An `INTEGER` that fits 64 bits.
    IntegerInRange,
    /// A `BOOLEAN`.
    Boolean,
}

/// Why a provider call failed.
#[derive(Debug)]
pub enum ProviderErrorKind {
    /// The member takes `expected` arguments and got `found`.
    Arity { member: String, expected: usize, found: usize },
    /// An argument of `member` is not what it should be.
    TypeMismatch { expected: Expected, member: String },
    /// A handle no longer names a live resource.
    UseAfterRelease(String),
    /// A resource was released twice.
    DoubleRelease(String),
    /// Text that is not a JSON document, or a document that cannot be written.
    InvalidJson(String),
    /// No member of this name.
    NameNotFound { name: String, kind: String },
}

/// A failed provider call and where it was made.
#[derive(Debug)]
pub struct ProviderError {
    pub kind: ProviderErrorKind,
    pub span: Span,
}

/// Mathematical model of [`ProviderErrorKind`].
pub ghost enum FailureV {
    Arity { member: Seq<char>, expected: nat, found: nat },
    TypeMismatch { expected: Expected, member: Seq<char> },
    UseAfterRelease(Seq<char>),
    DoubleRelease(Seq<char>),
    InvalidJson(Seq<char>),
    NameNotFound { name: Seq<char>, kind: Seq<char> },
}

impl View for ProviderError {
    type V = FailureV;

    open spec fn view(&self) -> FailureV {
        match &self.kind {
            ProviderErrorKind::Arity { member, expected, found } => FailureV::Arity {
                member: member@,
                expected: *expected as nat,
                found: *found as nat,
            },
            ProviderErrorKind::TypeMismatch { expected, member } => FailureV::TypeMismatch {
                expected: *expected,
                member: member@,
            },
            ProviderErrorKind::UseAfterRelease(m) => FailureV::UseAfterRelease(m@),
            ProviderErrorKind::DoubleRelease(m) => FailureV::DoubleRelease(m@),
            ProviderErrorKind::InvalidJson(m) => FailureV::InvalidJson(m@),
            ProviderErrorKind::NameNotFound { name, kind } => FailureV::NameNotFound {
                name: name@,
                kind: kind@,
            },
        }
    }
}

/// The arity rule: a member called with `found` arguments takes `expected`.
pub open spec fn arity_check(member: Seq<char>, expected: nat, found: nat) -> Option<FailureV> {
    if expected == found {
        None
    } else {
        Some(FailureV::Arity { member, expected, found })
    }
}

/// Fails unless `arguments` has exactly `expected` elements.
pub fn require_arity(member: &str, arguments: &Vec<Value>, expected: usize, span: Span) -> (r: Result<
    (),
    ProviderError,
>)
    ensures
        match arity_check(member@, expected as nat, arguments@.len()) {
            None => r is Ok,
            Some(f) => r matches Err(e) && e@ == f && e.span == span,
        },
{
    if arguments.len() == expected {
        Ok(())
    } else {
        Err(
            ProviderError {
                kind: ProviderErrorKind::Arity {
                    member: member.to_owned(),
                    expected,
                    found: arguments.len(),
                },
                span,
            },
        )
    }
}

/// A type mismatch of an argument of `member`.
pub fn mismatch(expected: Expected, member: &str, span: Span) -> (e: ProviderError)
    ensures
        e@ == (FailureV::TypeMismatch { expected, member: member@ }),
        e.span == span,
{
    ProviderError { kind: ProviderErrorKind::TypeMismatch { expected, member: member.to_owned() }, span }
}

/// The name of a member after its last `.`.
pub open spec fn member_method(member: Seq<char>) -> Seq<char> {
    crate::typing::last_segment(member)
}

/// The characters of `member` after its last `.`.
pub fn method_of(member: &str) -> (r: Vec<char>)
    ensures
        r@ == member_method(member@),
{
    let cs = crate::text::chars_of(member);
    let start: usize = match crate::text::rfind_char(&cs, 0, cs.len(), '.') {
        Some(i) => i + 1,
        None => 0,
    };
    let mut r: Vec<char> = Vec::new();
    let mut i: usize = start;
    while i < cs.len()
        invariant
            start <= i <= cs@.len(),
            r@ == cs@.subrange(start as int, i as int),
        decreases cs@.len() - i,
    {
        r.push(cs[i]);
        i += 1;
        assert(r@ =~= cs@.subrange(start as int, i as int));
    }
    proof {
        let k = start as int - 1;
        assert forall|j: int| k < j < cs@.len() implies cs@[j] != '.' by {
        }
        crate::typing::lemma_last_segment(cs@, k);
    }
    r
}

} // verus!
