//! The pure decisions of the LLVM textual backend: how IR types map to LLVM
//! types, which operators and casts the backend lowers, how integer
//! constants are rendered, and the target checks made before emission.
use vstd::prelude::*;
use crate::model::{Function, FunctionKind, Module, first_function};
use crate::source::{Diagnostic, Span, diagnostic, spec_unknown_span, unknown_span};
use crate::text::{chars_of, decimal, push_chars, push_signed_decimal, signed_decimal, string_of};
use crate::types::{FloatType, IntegerType, Type, TypeV, types_view};
use crate::typing::{is_void_type, is_void_type_exec, name_is};
use crate::validate::ValidatedModule;

verus! {

/// The code generation target.
#[derive(Clone, Copy, Debug, PartialEq, Eq, Structural)]
pub enum Target {
    Native,
    Wasm32,
}

/// The LLVM types the backend emits values as.
#[derive(Clone, Copy, Debug, PartialEq, Eq, Structural)]
pub enum LlvmType {
    /// `i1`
    I1,
    /// `i8`
    I8,
    /// `i16`
    I16,
    /// `i32`
    I32,
    /// `i64`
    I64,
    /// `float`
    Float,
    /// `double`
    Double,
    /// `ptr`
    Ptr,
    /// `{ i1, double }`: a FLOAT that may be NA.
    OptionalDouble,
    /// `{ i1, ptr, i64 }`: a value or an `Error`.
    ErrorUnion,
    /// `{ i1, ptr }`
    FlagPtr,
    /// `{ i1, ptr, i32 }`
    FlagPtrI32,
    /// `{ ptr, i32 }`: a fat pointer to a vector, or an endpoint.
    PtrI32,
}

/// The LLVM spelling of a type.
pub open spec fn llvm_text(t: LlvmType) -> Seq<char> {
    match t {
        LlvmType::I1 => "i1"@,
        LlvmType::I8 => "i8"@,
        LlvmType::I16 => "i16"@,
        LlvmType::I32 => "i32"@,
        LlvmType::I64 => "i64"@,
        LlvmType::Float => "float"@,
        LlvmType::Double => "double"@,
        LlvmType::Ptr => "ptr"@,
        LlvmType::OptionalDouble => "{ i1, double }"@,
        LlvmType::ErrorUnion => "{ i1, ptr, i64 }"@,
        LlvmType::FlagPtr => "{ i1, ptr }"@,
        LlvmType::FlagPtrI32 => "{ i1, ptr, i32 }"@,
        LlvmType::PtrI32 => "{ ptr, i32 }"@,
    }
}

impl LlvmType {
    /// The LLVM spelling.
    pub fn text(&self) -> (r: String)
        ensures
            r@ == llvm_text(*self),
    {
        let cs: Vec<char> = match self {
            LlvmType::I1 => chars_of("i1"),
            LlvmType::I8 => chars_of("i8"),
            LlvmType::I16 => chars_of("i16"),
            LlvmType::I32 => chars_of("i32"),
            LlvmType::I64 => chars_of("i64"),
            LlvmType::Float => chars_of("float"),
            LlvmType::Double => chars_of("double"),
            LlvmType::Ptr => chars_of("ptr"),
            LlvmType::OptionalDouble => chars_of("{ i1, double }"),
            LlvmType::ErrorUnion => chars_of("{ i1, ptr, i64 }"),
            LlvmType::FlagPtr => chars_of("{ i1, ptr }"),
            LlvmType::FlagPtrI32 => chars_of("{ i1, ptr, i32 }"),
            LlvmType::PtrI32 => chars_of("{ ptr, i32 }"),
        };
        assert(cs@ =~= llvm_text(*self));
        string_of(&cs)
    }
}

/// An LLVM integer type the backend computes with.
pub open spec fn integer_llvm(t: LlvmType) -> bool {
    t is I8 || t is I16 || t is I32 || t is I64
}

/// An LLVM floating-point type.
pub open spec fn float_llvm(t: LlvmType) -> bool {
    t is Float || t is Double
}

pub fn integer_llvm_exec(t: LlvmType) -> (r: bool)
    ensures
        r == integer_llvm(t),
{
    matches!(t, LlvmType::I8 | LlvmType::I16 | LlvmType::I32 | LlvmType::I64)
}

pub fn float_llvm_exec(t: LlvmType) -> (r: bool)
    ensures
        r == float_llvm(t),
{
    matches!(t, LlvmType::Float | LlvmType::Double)
}

// ---------------------------------------------------------------------------
// Type classes used by the mapping

/// The synchronization handle types of `BNDispatch`.
pub open spec fn dispatch_handle_name(name: Seq<char>) -> bool {
    ||| name == "Queue"@
    ||| name == "Ticket"@
    ||| name == "Group"@
    ||| name == "Barrier"@
    ||| name == "Semaphore"@
    ||| name == "Mutex"@
}

pub fn dispatch_handle_name_exec(name: &String) -> (r: bool)
    ensures
        r == dispatch_handle_name(name@),
{
    proof {
    }
    name_is(name, chars_of("Queue").as_slice()) || name_is(name, chars_of("Ticket").as_slice()) || name_is(name, chars_of("Group").as_slice())
        || name_is(name, chars_of("Barrier").as_slice()) || name_is(name, chars_of("Semaphore").as_slice()) || name_is(
        name,
        chars_of("Mutex").as_slice(),
    )
}

/// A network handle name, without its `HOST.Net.` qualification.
pub open spec fn net_handle_name(name: Seq<char>) -> bool {
    ||| name == "TCPStream"@
    ||| name == "TCPListener"@
    ||| name == "UDPSocket"@
    ||| name == "UDPPacket"@
}

/// A network handle name, qualified by `HOST.Net.`.
pub open spec fn host_net_handle_name(name: Seq<char>) -> bool {
    ||| name == "HOST.Net.TCPStream"@
    ||| name == "HOST.Net.TCPListener"@
    ||| name == "HOST.Net.UDPSocket"@
    ||| name == "HOST.Net.UDPPacket"@
}

fn net_handle_name_exec(name: &String) -> (r: bool)
    ensures
        r == net_handle_name(name@),
{
    proof {
    }
    name_is(name, chars_of("TCPStream").as_slice()) || name_is(name, chars_of("TCPListener").as_slice()) || name_is(
        name,
        chars_of("UDPSocket").as_slice(),
    ) || name_is(name, chars_of("UDPPacket").as_slice())
}

fn host_net_handle_name_exec(name: &String) -> (r: bool)
    ensures
        r == host_net_handle_name(name@),
{
    proof {
    }
    name_is(name, chars_of("HOST.Net.TCPStream").as_slice()) || name_is(name, chars_of("HOST.Net.TCPListener").as_slice())
        || name_is(name, chars_of("HOST.Net.UDPSocket").as_slice()) || name_is(name, chars_of("HOST.Net.UDPPacket").as_slice())
}

/// The classes of alternative members the mapping asks about.
#[derive(Clone, Copy, Debug, PartialEq, Eq, Structural)]
pub enum TypeClass {
    /// `FLOAT` of any width, or a float literal.
    FloatLike,
    /// `NA`.
    NotAvailable,
    /// `Error`, local or imported.
    ErrorValue,
    /// A `HOST.Net` result value, or `STRING`.
    NetValue,
    /// `VOID`.
    Void,
    /// `INTEGER` of any width.
    Integer,
    /// `EOF`.
    EndOfFile,
    /// The local `Error` name.
    NamedError,
    /// An imported named type or type name.
    Imported,
    /// A named or imported type.
    Opaque,
    /// `HOST.Net.Addresses`.
    NetAddresses,
    /// `HOST.Net.Endpoint`.
    NetEndpoint,
}

/// `t` names `Error`.
pub open spec fn is_error_type(t: TypeV) -> bool {
    ||| t matches TypeV::Named(n) && n == "Error"@
    ||| t matches TypeV::ImportedNamed { name, .. } && name == "Error"@
}

/// `t` names a network type called `short`, local under `HOST.Net.` or imported.
pub open spec fn is_net_type(t: TypeV, qualified: Seq<char>, short: Seq<char>) -> bool {
    ||| t matches TypeV::Named(n) && (n == qualified || n == short)
    ||| t matches TypeV::ImportedNamed { name, .. } && name == short
}

pub open spec fn is_net_handle_type(t: TypeV) -> bool {
    ||| t matches TypeV::Named(n) && host_net_handle_name(n)
    ||| t matches TypeV::ImportedNamed { name, .. } && net_handle_name(name)
}

/// Membership of `t` in class `c`.
pub open spec fn in_class(c: TypeClass, t: TypeV) -> bool {
    match c {
        TypeClass::FloatLike => t is Float || t is FloatLiteral,
        TypeClass::NotAvailable => t is NotAvailable,
        TypeClass::ErrorValue => is_error_type(t),
        TypeClass::NetValue => {
            ||| is_net_type(t, "HOST.Net.Address"@, "Address"@)
            ||| is_net_type(t, "HOST.Net.PingReply"@, "PingReply"@)
            ||| is_net_type(t, "HOST.Net.Addresses"@, "Addresses"@)
            ||| is_net_type(t, "HOST.Net.Endpoint"@, "Endpoint"@)
            ||| is_net_handle_type(t)
            ||| t is String
        },
        TypeClass::Void => is_void_type(t),
        TypeClass::Integer => t is Integer,
        TypeClass::EndOfFile => t is EndOfFile,
        TypeClass::NamedError => t matches TypeV::Named(n) && n == "Error"@,
        TypeClass::Imported => t is ImportedNamed || t is ImportedTypeName,
        TypeClass::Opaque => t is Named || t is ImportedNamed || t is ImportedTypeName,
        TypeClass::NetAddresses => is_net_type(t, "HOST.Net.Addresses"@, "Addresses"@),
        TypeClass::NetEndpoint => is_net_type(t, "HOST.Net.Endpoint"@, "Endpoint"@),
    }
}

fn is_net_type_exec(t: &Type, qualified: &[char], short: &[char]) -> (r: bool)
    ensures
        r == is_net_type(t@, qualified@, short@),
{
    match t {
        Type::Named(n) => name_is(n, qualified) || name_is(n, short),
        Type::ImportedNamed { name, .. } => name_is(name, short),
        _ => false,
    }
}

pub fn is_error_type_exec(t: &Type) -> (r: bool)
    ensures
        r == is_error_type(t@),
{
    match t {
        Type::Named(n) => name_is(n, chars_of("Error").as_slice()),
        Type::ImportedNamed { name, .. } => name_is(name, chars_of("Error").as_slice()),
        _ => false,
    }
}

pub fn in_class_exec(c: TypeClass, t: &Type) -> (r: bool)
    ensures
        r == in_class(c, t@),
{
    proof {
    }
    match c {
        TypeClass::FloatLike => matches!(t, Type::Float(_) | Type::FloatLiteral),
        TypeClass::NotAvailable => matches!(t, Type::NotAvailable),
        TypeClass::ErrorValue => is_error_type_exec(t),
        TypeClass::NetValue => {
            let handle = match t {
                Type::Named(n) => host_net_handle_name_exec(n),
                Type::ImportedNamed { name, .. } => net_handle_name_exec(name),
                _ => false,
            };
            is_net_type_exec(t, chars_of("HOST.Net.Address").as_slice(), chars_of("Address").as_slice()) || is_net_type_exec(
                t,
                chars_of("HOST.Net.PingReply").as_slice(),
                chars_of("PingReply").as_slice(),
            ) || is_net_type_exec(t, chars_of("HOST.Net.Addresses").as_slice(), chars_of("Addresses").as_slice())
                || is_net_type_exec(t, chars_of("HOST.Net.Endpoint").as_slice(), chars_of("Endpoint").as_slice()) || handle
                || matches!(t, Type::String)
        },
        TypeClass::Void => is_void_type_exec(t),
        TypeClass::Integer => matches!(t, Type::Integer(_)),
        TypeClass::EndOfFile => matches!(t, Type::EndOfFile),
        TypeClass::NamedError => match t {
            Type::Named(n) => name_is(n, chars_of("Error").as_slice()),
            _ => false,
        },
        TypeClass::Imported => matches!(t, Type::ImportedNamed { .. } | Type::ImportedTypeName { .. }),
        TypeClass::Opaque => matches!(
            t,
            Type::Named(_) | Type::ImportedNamed { .. } | Type::ImportedTypeName { .. }
        ),
        TypeClass::NetAddresses => is_net_type_exec(t, chars_of("HOST.Net.Addresses").as_slice(), chars_of("Addresses").as_slice()),
        TypeClass::NetEndpoint => is_net_type_exec(t, chars_of("HOST.Net.Endpoint").as_slice(), chars_of("Endpoint").as_slice()),
    }
}

/// Some alternative belongs to class `c`.
pub open spec fn any_in_class(c: TypeClass, alts: Seq<TypeV>) -> bool {
    exists|k: int| 0 <= k < alts.len() && in_class(c, #[trigger] alts[k])
}

pub fn any_in_class_exec(c: TypeClass, alts: &Vec<Type>) -> (r: bool)
    ensures
        r == any_in_class(c, types_view(alts@)),
{
    proof {
        crate::types::lemma_types_view(alts@);
    }
    let ghost v = types_view(alts@);
    let mut k: usize = 0;
    while k < alts.len()
        invariant
            0 <= k <= alts@.len(),
            v == types_view(alts@),
            v.len() == alts@.len(),
            forall|j: int| 0 <= j < alts@.len() ==> #[trigger] v[j] == alts@[j]@,
            forall|j: int| 0 <= j < k ==> !in_class(c, #[trigger] v[j]),
        decreases alts@.len() - k,
    {
        if in_class_exec(c, &alts[k]) {
            assert(in_class(c, v[k as int]));
            return true;
        }
        k += 1;
    }
    false
}

/// `FLOAT OR NA`.
pub open spec fn float_or_na(alts: Seq<TypeV>) -> bool {
    alts.len() == 2 && any_in_class(TypeClass::FloatLike, alts) && any_in_class(TypeClass::NotAvailable, alts)
}

/// A `HOST.Net` result `OR Error`.
pub open spec fn net_or_error(alts: Seq<TypeV>) -> bool {
    alts.len() == 2 && any_in_class(TypeClass::ErrorValue, alts) && any_in_class(TypeClass::NetValue, alts)
}

/// `VOID OR Error`.
pub open spec fn void_or_error(alts: Seq<TypeV>) -> bool {
    alts.len() == 2 && any_in_class(TypeClass::Void, alts) && any_in_class(TypeClass::ErrorValue, alts)
}

/// `INTEGER OR Error`.
pub open spec fn integer_or_error(alts: Seq<TypeV>) -> bool {
    alts.len() == 2 && any_in_class(TypeClass::Integer, alts) && any_in_class(TypeClass::ErrorValue, alts)
}

/// `INTEGER OR EOF OR Error`.
pub open spec fn integer_eof_or_error(alts: Seq<TypeV>) -> bool {
    &&& alts.len() == 3
    &&& any_in_class(TypeClass::Integer, alts)
    &&& any_in_class(TypeClass::EndOfFile, alts)
    &&& any_in_class(TypeClass::ErrorValue, alts)
}

/// An imported type `OR Error`.
pub open spec fn imported_or_error(alts: Seq<TypeV>) -> bool {
    alts.len() == 2 && any_in_class(TypeClass::NamedError, alts) && any_in_class(TypeClass::Imported, alts)
}

/// A named or imported type `OR Error`.
pub open spec fn opaque_or_error(alts: Seq<TypeV>) -> bool {
    alts.len() == 2 && any_in_class(TypeClass::NamedError, alts) && any_in_class(TypeClass::Opaque, alts)
}

// ---------------------------------------------------------------------------
// The type mapping

/// The LLVM type of a value of an alternative type.
pub open spec fn alternative_llvm(alts: Seq<TypeV>) -> Option<LlvmType> {
    if float_or_na(alts) {
        Some(LlvmType::OptionalDouble)
    } else if net_or_error(alts) {
        if any_in_class(TypeClass::NetAddresses, alts) {
            Some(LlvmType::FlagPtr)
        } else if any_in_class(TypeClass::NetEndpoint, alts) {
            Some(LlvmType::FlagPtrI32)
        } else {
            Some(LlvmType::ErrorUnion)
        }
    } else if void_or_error(alts) || integer_or_error(alts) || integer_eof_or_error(alts)
        || imported_or_error(alts) || opaque_or_error(alts) {
        Some(LlvmType::ErrorUnion)
    } else {
        None
    }
}

/// The LLVM type of a value of a local named type.
pub open spec fn named_llvm(n: Seq<char>) -> Option<LlvmType> {
    if n == "DATE"@ || n == "TIME"@ {
        Some(LlvmType::I32)
    } else if n == "Error"@ || n == "HOST.Net.Address"@ || n == "HOST.Net.PingReply"@ {
        Some(LlvmType::ErrorUnion)
    } else if n == "HOST.Net.Addresses"@ {
        Some(LlvmType::FlagPtr)
    } else if n == "HOST.Net.Endpoint"@ {
        Some(LlvmType::PtrI32)
    } else if host_net_handle_name(n) {
        Some(LlvmType::ErrorUnion)
    } else if n == "POINTER"@ {
        Some(LlvmType::PtrI32)
    } else if n == "VOID"@ {
        None
    } else {
        Some(LlvmType::Ptr)
    }
}

/// The LLVM type of a value of an imported named type.
pub open spec fn imported_llvm(name: Seq<char>) -> LlvmType {
    if name == "Address"@ || name == "PingReply"@ || name == "Error"@ {
        LlvmType::ErrorUnion
    } else if name == "Addresses"@ {
        LlvmType::FlagPtr
    } else if name == "Endpoint"@ {
        LlvmType::PtrI32
    } else if net_handle_name(name) || dispatch_handle_name(name) {
        LlvmType::ErrorUnion
    } else {
        LlvmType::Ptr
    }
}

/// The LLVM type a value of IR type `t` is emitted as, if the backend
/// supports the type.
pub open spec fn spec_llvm_type(t: TypeV) -> Option<LlvmType>
    decreases t,
{
    match t {
        TypeV::Boolean => Some(LlvmType::I1),
        TypeV::Integer(w) => Some(
            match w {
                IntegerType::Byte | IntegerType::Int8 => LlvmType::I8,
                IntegerType::Int16 | IntegerType::UInt16 => LlvmType::I16,
                IntegerType::Int32 | IntegerType::UInt32 => LlvmType::I32,
                IntegerType::Int64 | IntegerType::UInt64 => LlvmType::I64,
            },
        ),
        TypeV::IntegerLiteral(_) => Some(LlvmType::I64),
        TypeV::Float(FloatType::Float32) => Some(LlvmType::Float),
        TypeV::Float(FloatType::Float64) => Some(LlvmType::Double),
        TypeV::FloatLiteral => Some(LlvmType::Double),
        TypeV::String => Some(LlvmType::Ptr),
        TypeV::NotAvailable => Some(LlvmType::OptionalDouble),
        TypeV::Alternative(alts) => alternative_llvm(alts),
        TypeV::Named(n) => named_llvm(n),
        TypeV::ImportedNamed { name, .. } => Some(imported_llvm(name)),
        TypeV::ImportedTypeName { name, .. } => Some(
            if dispatch_handle_name(name) {
                LlvmType::ErrorUnion
            } else {
                LlvmType::Ptr
            },
        ),
        TypeV::Vector { element, dimensions } => if dimensions.len() == 1 && dimensions[0] != u64::MAX
            && spec_llvm_type(*element) is Some {
            Some(LlvmType::PtrI32)
        } else {
            None
        },
        TypeV::Pointer { element, .. } => if spec_llvm_type(*element) is Some {
            Some(LlvmType::PtrI32)
        } else {
            None
        },
        _ => None,
    }
}

fn alternative_llvm_exec(alts: &Vec<Type>) -> (r: Option<LlvmType>)
    ensures
        r == alternative_llvm(types_view(alts@)),
{
    let n = alts.len();
    proof {
        crate::types::lemma_types_view(alts@);
    }
    let error = any_in_class_exec(TypeClass::ErrorValue, alts);
    let named_error = any_in_class_exec(TypeClass::NamedError, alts);
    if n == 2 && any_in_class_exec(TypeClass::FloatLike, alts) && any_in_class_exec(
        TypeClass::NotAvailable,
        alts,
    ) {
        return Some(LlvmType::OptionalDouble);
    }
    if n == 2 && error && any_in_class_exec(TypeClass::NetValue, alts) {
        if any_in_class_exec(TypeClass::NetAddresses, alts) {
            return Some(LlvmType::FlagPtr);
        }
        if any_in_class_exec(TypeClass::NetEndpoint, alts) {
            return Some(LlvmType::FlagPtrI32);
        }
        return Some(LlvmType::ErrorUnion);
    }
    let union = (n == 2 && error && any_in_class_exec(TypeClass::Void, alts)) || (n == 2 && error
        && any_in_class_exec(TypeClass::Integer, alts)) || (n == 3 && error && any_in_class_exec(
        TypeClass::Integer,
        alts,
    ) && any_in_class_exec(TypeClass::EndOfFile, alts)) || (n == 2 && named_error
        && any_in_class_exec(TypeClass::Imported, alts)) || (n == 2 && named_error
        && any_in_class_exec(TypeClass::Opaque, alts));
    if union {
        Some(LlvmType::ErrorUnion)
    } else {
        None
    }
}

fn named_llvm_exec(n: &String) -> (r: Option<LlvmType>)
    ensures
        r == named_llvm(n@),
{
    proof {
    }
    if name_is(n, chars_of("DATE").as_slice()) || name_is(n, chars_of("TIME").as_slice()) {
        Some(LlvmType::I32)
    } else if name_is(n, chars_of("Error").as_slice()) || name_is(n, chars_of("HOST.Net.Address").as_slice()) || name_is(
        n,
        chars_of("HOST.Net.PingReply").as_slice(),
    ) {
        Some(LlvmType::ErrorUnion)
    } else if name_is(n, chars_of("HOST.Net.Addresses").as_slice()) {
        Some(LlvmType::FlagPtr)
    } else if name_is(n, chars_of("HOST.Net.Endpoint").as_slice()) {
        Some(LlvmType::PtrI32)
    } else if host_net_handle_name_exec(n) {
        Some(LlvmType::ErrorUnion)
    } else if name_is(n, chars_of("POINTER").as_slice()) {
        Some(LlvmType::PtrI32)
    } else if name_is(n, chars_of("VOID").as_slice()) {
        None
    } else {
        Some(LlvmType::Ptr)
    }
}

fn imported_llvm_exec(name: &String) -> (r: LlvmType)
    ensures
        r == imported_llvm(name@),
{
    proof {
    }
    if name_is(name, chars_of("Address").as_slice()) || name_is(name, chars_of("PingReply").as_slice()) || name_is(name, chars_of("Error").as_slice()) {
        LlvmType::ErrorUnion
    } else if name_is(name, chars_of("Addresses").as_slice()) {
        LlvmType::FlagPtr
    } else if name_is(name, chars_of("Endpoint").as_slice()) {
        LlvmType::PtrI32
    } else if net_handle_name_exec(name) || dispatch_handle_name_exec(name) {
        LlvmType::ErrorUnion
    } else {
        LlvmType::Ptr
    }
}

/// The LLVM type a value of IR type `t` is emitted as; `None` where the
/// backend has no representation for the type.
pub fn llvm_type(t: &Type) -> (r: Option<LlvmType>)
    ensures
        r == spec_llvm_type(t@),
    decreases t,
{
    match t {
        Type::Boolean => Some(LlvmType::I1),
        Type::Integer(w) => Some(
            match w {
                IntegerType::Byte | IntegerType::Int8 => LlvmType::I8,
                IntegerType::Int16 | IntegerType::UInt16 => LlvmType::I16,
                IntegerType::Int32 | IntegerType::UInt32 => LlvmType::I32,
                IntegerType::Int64 | IntegerType::UInt64 => LlvmType::I64,
            },
        ),
        Type::IntegerLiteral(_) => Some(LlvmType::I64),
        Type::Float(FloatType::Float32) => Some(LlvmType::Float),
        Type::Float(FloatType::Float64) => Some(LlvmType::Double),
        Type::FloatLiteral => Some(LlvmType::Double),
        Type::String => Some(LlvmType::Ptr),
        Type::NotAvailable => Some(LlvmType::OptionalDouble),
        Type::Alternative(alts) => alternative_llvm_exec(alts),
        Type::Named(n) => named_llvm_exec(n),
        Type::ImportedNamed { name, .. } => Some(imported_llvm_exec(name)),
        Type::ImportedTypeName { name, .. } => Some(
            if dispatch_handle_name_exec(name) {
                LlvmType::ErrorUnion
            } else {
                LlvmType::Ptr
            },
        ),
        Type::Vector { element, dimensions } => {
            if dimensions.len() == 1 && dimensions[0] != u64::MAX && llvm_type(element).is_some() {
                Some(LlvmType::PtrI32)
            } else {
                None
            }
        },
        Type::Pointer { element, .. } => {
            if llvm_type(element).is_some() {
                Some(LlvmType::PtrI32)
            } else {
                None
            }
        },
        _ => None,
    }
}

// ---------------------------------------------------------------------------
// Operator, cast and print support

/// A one-dimensional fixed vector of 32-bit integers.
pub open spec fn is_int_vector(t: TypeV) -> bool {
    t matches TypeV::Vector { element, dimensions } && dimensions.len() == 1 && dimensions[0] != u64::MAX
        && (*element == TypeV::Integer(IntegerType::Int32) || *element is IntegerLiteral)
}

/// A pointer to 32-bit integers, or the bare `POINTER` name.
pub open spec fn is_int_pointer(t: TypeV) -> bool {
    ||| t matches TypeV::Pointer { element, .. } && (*element == TypeV::Integer(IntegerType::Int32)
        || *element is IntegerLiteral)
    ||| t matches TypeV::Named(n) && n == "POINTER"@
}

fn int32_or_literal(t: &Type) -> (r: bool)
    ensures
        r == (t@ == TypeV::Integer(IntegerType::Int32) || t@ is IntegerLiteral),
{
    match t {
        Type::Integer(IntegerType::Int32) => true,
        Type::IntegerLiteral(_) => true,
        _ => false,
    }
}

pub fn is_int_vector_exec(t: &Type) -> (r: bool)
    ensures
        r == is_int_vector(t@),
{
    match t {
        Type::Vector { element, dimensions } => dimensions.len() == 1 && dimensions[0] != u64::MAX
            && int32_or_literal(element),
        _ => false,
    }
}

pub fn is_int_pointer_exec(t: &Type) -> (r: bool)
    ensures
        r == is_int_pointer(t@),
{
    match t {
        Type::Pointer { element, .. } => int32_or_literal(element),
        Type::Named(n) => name_is(n, chars_of("POINTER").as_slice()),
        _ => false,
    }
}

/// A scalar or alternative the backend can print.
pub open spec fn printable_type(t: TypeV) -> bool {
    &&& (t is Boolean || t is String || t is Integer || t is IntegerLiteral || t is Float
        || t is FloatLiteral || t is Named || t is NotAvailable || t is Alternative)
    &&& spec_llvm_type(t) is Some
}

pub fn printable_type_exec(t: &Type) -> (r: bool)
    ensures
        r == printable_type(t@),
{
    matches!(
        t,
        Type::Boolean | Type::String | Type::Integer(_) | Type::IntegerLiteral(_) | Type::Float(_)
        | Type::FloatLiteral | Type::Named(_) | Type::NotAvailable | Type::Alternative(_)
    ) && llvm_type(t).is_some()
}

/// The backend lowers unary operator `op` from `operand` to `result`.
pub open spec fn unary_supported(op: Seq<char>, operand: Option<TypeV>, result: TypeV) -> bool {
    match (operand, spec_llvm_type(result)) {
        (Some(o), Some(r)) => match spec_llvm_type(o) {
            Some(a) => {
                ||| (op == "Plus"@ || op == "Minus"@ || op == "NOT"@) && integer_llvm(a)
                    && integer_llvm(r)
                ||| (op == "Plus"@ || op == "Minus"@) && a == LlvmType::Float && r
                    == LlvmType::Float
                ||| (op == "Plus"@ || op == "Minus"@) && a == LlvmType::Double && r
                    == LlvmType::Double
                ||| op == "NOT"@ && a == LlvmType::I1 && r == LlvmType::I1
            },
            None => false,
        },
        _ => false,
    }
}

pub fn unary_supported_exec(op: &str, operand: Option<&Type>, result: &Type) -> (r: bool)
    ensures
        r == unary_supported(
            op@,
            match operand {
                Some(t) => Some(t@),
                None => None,
            },
            result@,
        ),
{
    proof {
    }
    let o = match operand {
        Some(t) => t,
        None => return false,
    };
    let (a, r) = match (llvm_type(o), llvm_type(result)) {
        (Some(a), Some(r)) => (a, r),
        _ => return false,
    };
    let op = chars_of(op);
    let plus_minus = crate::text::chars_are(&op, chars_of("Plus").as_slice()) || crate::text::chars_are(&op, chars_of("Minus").as_slice());
    let not = crate::text::chars_are(&op, chars_of("NOT").as_slice());
    (plus_minus || not) && integer_llvm_exec(a) && integer_llvm_exec(r) || plus_minus && a
        == LlvmType::Float && r == LlvmType::Float || plus_minus && a == LlvmType::Double && r
        == LlvmType::Double || not && a == LlvmType::I1 && r == LlvmType::I1
}

/// The operator groups of binary expressions.
pub open spec fn additive_op(op: Seq<char>) -> bool {
    op == "Plus"@ || op == "Minus"@ || op == "Star"@ || op == "Multiply"@
}

pub open spec fn division_op(op: Seq<char>) -> bool {
    op == "Slash"@ || op == "Divide"@
}

pub open spec fn integral_op(op: Seq<char>) -> bool {
    op == "DIV"@ || op == "Percent"@ || op == "SHL"@ || op == "SHR"@ || op == "Power"@
}

pub open spec fn logical_op(op: Seq<char>) -> bool {
    op == "AND"@ || op == "OR"@ || op == "XOR"@
}

pub open spec fn comparison_op(op: Seq<char>) -> bool {
    ||| op == "Less"@
    ||| op == "LessEqual"@
    ||| op == "Greater"@
    ||| op == "GreaterEqual"@
    ||| op == "Equal"@
    ||| op == "Assign"@
    ||| op == "NotEqual"@
}

/// The backend lowers `op` on operands of LLVM types `a`, `b` to `c`.
pub open spec fn binary_llvm_supported(op: Seq<char>, a: LlvmType, b: LlvmType, c: LlvmType) -> bool {
    let ints = integer_llvm(a) && integer_llvm(b) && integer_llvm(c);
    let floats = float_llvm(a) && float_llvm(b) && float_llvm(c);
    if additive_op(op) {
        ints || floats || (op == "Plus"@ && a == LlvmType::Ptr && b == LlvmType::Ptr && c
            == LlvmType::Ptr)
    } else if division_op(op) {
        floats || (integer_llvm(a) && integer_llvm(b) && float_llvm(c))
    } else if integral_op(op) {
        ints || (op == "Power"@ && floats)
    } else if logical_op(op) {
        ints || (a == LlvmType::I1 && b == LlvmType::I1 && c == LlvmType::I1)
    } else if comparison_op(op) {
        c == LlvmType::I1 && (a == b || (integer_llvm(a) && integer_llvm(b)) || (float_llvm(a)
            && float_llvm(b)))
    } else {
        false
    }
}

/// The backend lowers binary operator `op` over these IR types.
pub open spec fn binary_supported(op: Seq<char>, left: TypeV, right: TypeV, result: TypeV) -> bool {
    match (spec_llvm_type(left), spec_llvm_type(right), spec_llvm_type(result)) {
        (Some(a), Some(b), Some(c)) => binary_llvm_supported(op, a, b, c),
        _ => false,
    }
}

fn op_in(op: &Vec<char>, a: &[char], b: &[char]) -> (r: bool)
    ensures
        r == (op@ == a@ || op@ == b@),
{
    crate::text::chars_are(op, a) || crate::text::chars_are(op, b)
}

pub fn binary_supported_exec(op: &str, left: &Type, right: &Type, result: &Type) -> (r: bool)
    ensures
        r == binary_supported(op@, left@, right@, result@),
{
    let (a, b, c) = match (llvm_type(left), llvm_type(right), llvm_type(result)) {
        (Some(a), Some(b), Some(c)) => (a, b, c),
        _ => return false,
    };
    proof {
    }
    let op = chars_of(op);
    let ints = integer_llvm_exec(a) && integer_llvm_exec(b) && integer_llvm_exec(c);
    let floats = float_llvm_exec(a) && float_llvm_exec(b) && float_llvm_exec(c);
    let plus = crate::text::chars_are(&op, chars_of("Plus").as_slice());
    if op_in(&op, chars_of("Plus").as_slice(), chars_of("Minus").as_slice()) || op_in(&op, chars_of("Star").as_slice(), chars_of("Multiply").as_slice()) {
        ints || floats || (plus && a == LlvmType::Ptr && b == LlvmType::Ptr && c == LlvmType::Ptr)
    } else if op_in(&op, chars_of("Slash").as_slice(), chars_of("Divide").as_slice()) {
        floats || (integer_llvm_exec(a) && integer_llvm_exec(b) && float_llvm_exec(c))
    } else if op_in(&op, chars_of("DIV").as_slice(), chars_of("Percent").as_slice()) || op_in(&op, chars_of("SHL").as_slice(), chars_of("SHR").as_slice())
        || crate::text::chars_are(&op, chars_of("Power").as_slice()) {
        ints || (crate::text::chars_are(&op, chars_of("Power").as_slice()) && floats)
    } else if op_in(&op, chars_of("AND").as_slice(), chars_of("OR").as_slice()) || crate::text::chars_are(&op, chars_of("XOR").as_slice()) {
        ints || (a == LlvmType::I1 && b == LlvmType::I1 && c == LlvmType::I1)
    } else if op_in(&op, chars_of("Less").as_slice(), chars_of("LessEqual").as_slice()) || op_in(&op, chars_of("Greater").as_slice(), chars_of("GreaterEqual").as_slice())
        || op_in(&op, chars_of("Equal").as_slice(), chars_of("Assign").as_slice()) || crate::text::chars_are(&op, chars_of("NotEqual").as_slice()) {
        c == LlvmType::I1 && (a == b || (integer_llvm_exec(a) && integer_llvm_exec(b)) || (
        float_llvm_exec(a) && float_llvm_exec(b)))
    } else {
        false
    }
}

/// The backend lowers a cast from `source` to `target`.
pub open spec fn cast_supported(source: Option<TypeV>, target: TypeV) -> bool {
    match source {
        None => false,
        Some(s) => {
            ||| (s is Integer || s is IntegerLiteral) && (target is Integer || target is IntegerLiteral
                || target is Float || target is Boolean)
            ||| (s is Float || s is FloatLiteral) && (target is Float || target is Integer
                || target is Boolean)
            ||| s is Boolean && target is Boolean
            ||| s is String && (target is Boolean || target is String)
        },
    }
}

pub fn cast_supported_exec(source: Option<&Type>, target: &Type) -> (r: bool)
    ensures
        r == cast_supported(
            match source {
                Some(t) => Some(t@),
                None => None,
            },
            target@,
        ),
{
    match source {
        None => false,
        Some(s) => match (s, target) {
            (
                Type::Integer(_) | Type::IntegerLiteral(_),
                Type::Integer(_) | Type::IntegerLiteral(_) | Type::Float(_) | Type::Boolean,
            ) => true,
            (Type::Float(_) | Type::FloatLiteral, Type::Float(_) | Type::Integer(_) | Type::Boolean) => true,
            (Type::Boolean, Type::Boolean) => true,
            (Type::String, Type::Boolean | Type::String) => true,
            _ => false,
        },
    }
}

// ---------------------------------------------------------------------------
// Integer constants

/// The value an integer constant takes in an LLVM integer type: its low bits
/// read back as a signed number, so `255` in `i8` is `-1`. Other type
/// spellings keep the value.
pub open spec fn rendered_integer(value: i128, ty: Seq<char>) -> int {
    if ty == "i8"@ {
        (value as i8) as int
    } else if ty == "i16"@ {
        (value as i16) as int
    } else if ty == "i32"@ {
        (value as i32) as int
    } else if ty == "i64"@ {
        (value as i64) as int
    } else {
        value as int
    }
}

/// Renders an integer constant for LLVM type `llvm_ty`, preserving its bit
/// pattern in that width without relying on a wrapping cast in the IR.
pub fn render_llvm_integer(value: i128, llvm_ty: &str) -> (r: String)
    ensures
        r@ == signed_decimal(rendered_integer(value, llvm_ty@)),
{
    proof {
    }
    let ty = chars_of(llvm_ty);
    let wrapped: i128 = if crate::text::chars_are(&ty, chars_of("i8").as_slice()) {
        #[verifier::truncate]
        (value as i8) as i128
    } else if crate::text::chars_are(&ty, chars_of("i16").as_slice()) {
        #[verifier::truncate]
        (value as i16) as i128
    } else if crate::text::chars_are(&ty, chars_of("i32").as_slice()) {
        #[verifier::truncate]
        (value as i32) as i128
    } else if crate::text::chars_are(&ty, chars_of("i64").as_slice()) {
        #[verifier::truncate]
        (value as i64) as i128
    } else {
        value
    };
    let mut out = String::new();
    push_signed_decimal(&mut out, wrapped);
    assert(Seq::<char>::empty() + signed_decimal(wrapped as int) =~= signed_decimal(wrapped as int));
    out
}

/// A message tagged with a support code splits back into that code and its
/// detail.
pub proof fn lemma_support_diagnostic_round_trip(k: int, detail: Seq<char>)
    requires
        0 <= k < 4,
    ensures
        spec_support_diagnostic(support_codes()[k] + ": "@ + detail) == (support_codes()[k], detail),
{
    reveal_strlit("TARGET_UNSUPPORTED_HOST");
    reveal_strlit("TARGET_UNSUPPORTED_TYPE");
    reveal_strlit("TARGET_UNSUPPORTED_OP");
    reveal_strlit("TARGET_UNSUPPORTED_LLVM");
    reveal_strlit(": ");
    let codes = support_codes();
    let c = codes[k];
    let message = c + ": "@ + detail;
    assert(message.take(c.len() as int) =~= c);
    assert(message.skip(c.len() as int + 2) =~= detail);
    assert(message[c.len() as int] == ':');
    assert(message[c.len() as int + 1] == ' ');
    assert(tagged_with(message, c));
    assert forall|j: int| 0 <= j < k implies !tagged_with(message, #[trigger] codes[j]) by {
        assert(message[19] == c[19]);
        assert(codes[j][19] != c[19]);
        if message.len() >= codes[j].len() + 2 && message.take(codes[j].len() as int) == codes[j] {
            assert(message.take(codes[j].len() as int)[19] == message[19]);
        }
    }
}

/// An integer constant that fits its LLVM integer type renders as itself.
pub proof fn lemma_in_range_constants_render_unchanged(value: i128)
    ensures
        -128 <= value <= 127 ==> rendered_integer(value, "i8"@) == value,
        -32768 <= value <= 32767 ==> rendered_integer(value, "i16"@) == value,
        -2147483648 <= value <= 2147483647 ==> rendered_integer(value, "i32"@) == value,
        i64::MIN <= value <= i64::MAX ==> rendered_integer(value, "i64"@) == value,
{
    reveal_strlit("i8");
    reveal_strlit("i16");
    reveal_strlit("i32");
    reveal_strlit("i64");
    assert("i8"@.len() == 2 && "i16"@.len() == 3 && "i32"@[1] == '3' && "i64"@[1] == '6' && "i16"@[1] == '1');
    assert("i16"@ != "i8"@);
    assert("i32"@ != "i8"@ && "i32"@ != "i16"@);
    assert("i64"@ != "i8"@ && "i64"@ != "i16"@ && "i64"@ != "i32"@);
}

// ---------------------------------------------------------------------------
// Target checks

/// Capability bits a module may request of the host.
pub const POLICY_CONSOLE: u64 = 2;
pub const POLICY_FILESYSTEM: u64 = 4;
pub const POLICY_NET: u64 = 8;
pub const POLICY_DISPATCH: u64 = 16;

/// The host capabilities a module's imports can reach.
pub open spec fn spec_policy_ceiling(m: Module) -> u64 {
    (if m.console_import is Some { POLICY_CONSOLE } else { 0 }) | (if m.filesystem_import is Some {
        POLICY_FILESYSTEM
    } else {
        0
    }) | (if m.network_import is Some { POLICY_NET } else { 0 }) | (if m.bndispatch_providers@.len()
        > 0 {
        POLICY_DISPATCH
    } else {
        0
    })
}

pub fn policy_ceiling(m: &Module) -> (r: u64)
    ensures
        r == spec_policy_ceiling(*m),
{
    let console: u64 = if m.console_import.is_some() { POLICY_CONSOLE } else { 0 };
    let filesystem: u64 = if m.filesystem_import.is_some() { POLICY_FILESYSTEM } else { 0 };
    let net: u64 = if m.network_import.is_some() { POLICY_NET } else { 0 };
    let dispatch: u64 = if m.bndispatch_providers.len() > 0 { POLICY_DISPATCH } else { 0 };
    console | filesystem | net | dispatch
}

/// The module imports a host service that wasm32 does not provide.
pub open spec fn needs_unavailable_wasm_capability(m: Module) -> bool {
    m.filesystem_import is Some || m.network_import is Some || m.bnlog_import is Some
        || m.bnweb_import is Some
}

pub fn requires_unavailable_wasm_capability(m: &Module) -> (r: bool)
    ensures
        r == needs_unavailable_wasm_capability(*m),
{
    m.filesystem_import.is_some() || m.network_import.is_some() || m.bnlog_import.is_some()
        || m.bnweb_import.is_some()
}

/// How an unsupported `Start` return type is named in diagnostics.
pub open spec fn start_type_label(t: TypeV) -> Seq<char> {
    match t {
        TypeV::Named(n) => if n == "VOID"@ {
            "VOID"@
        } else {
            "named type"@
        },
        TypeV::Integer(_) => "INTEGER"@,
        TypeV::Boolean => "BOOLEAN"@,
        TypeV::String => "STRING"@,
        TypeV::Float(_) => "FLOAT"@,
        TypeV::FloatLiteral => "FLOAT"@,
        _ => "unsupported type"@,
    }
}

pub fn render_start_type(t: &Type) -> (r: String)
    ensures
        r@ == start_type_label(t@),
{
    let cs: Vec<char> = match t {
        Type::Named(n) => if is_void_type_exec(t) {
            chars_of("VOID")
        } else {
            chars_of("named type")
        },
        Type::Integer(_) => chars_of("INTEGER"),
        Type::Boolean => chars_of("BOOLEAN"),
        Type::String => chars_of("STRING"),
        Type::Float(_) | Type::FloatLiteral => chars_of("FLOAT"),
        _ => chars_of("unsupported type"),
    };
    assert(cs@ =~= start_type_label(t@));
    string_of(&cs)
}

/// The support codes a backend analysis message may begin with, in the order
/// they are recognised.
pub open spec fn support_codes() -> Seq<Seq<char>> {
    seq![
        "TARGET_UNSUPPORTED_HOST"@,
        "TARGET_UNSUPPORTED_TYPE"@,
        "TARGET_UNSUPPORTED_OP"@,
        "TARGET_UNSUPPORTED_LLVM"@,
    ]
}

/// `message` begins with `code` followed by `": "`.
pub open spec fn tagged_with(message: Seq<char>, code: Seq<char>) -> bool {
    message.len() >= code.len() + 2 && message.take(code.len() as int) == code
        && message[code.len() as int] == ':' && message[code.len() as int + 1] == ' '
}

/// Splits a backend analysis message into its support code and detail: the
/// first recognised `CODE: ` prefix, or `TARGET_UNSUPPORTED_LLVM` and the whole
/// message.
pub open spec fn spec_support_diagnostic(message: Seq<char>) -> (Seq<char>, Seq<char>) {
    let codes = support_codes();
    if tagged_with(message, codes[0]) {
        (codes[0], message.skip(codes[0].len() as int + 2))
    } else if tagged_with(message, codes[1]) {
        (codes[1], message.skip(codes[1].len() as int + 2))
    } else if tagged_with(message, codes[2]) {
        (codes[2], message.skip(codes[2].len() as int + 2))
    } else if tagged_with(message, codes[3]) {
        (codes[3], message.skip(codes[3].len() as int + 2))
    } else {
        ("TARGET_UNSUPPORTED_LLVM"@, message)
    }
}

fn tagged_with_exec(message: &Vec<char>, code: &Vec<char>) -> (r: bool)
    ensures
        r == tagged_with(message@, code@),
{
    if message.len() < code.len() || message.len() - code.len() < 2 {
        return false;
    }
    let prefix = crate::text::range_is(message, 0, code.len(), code.as_slice());
    assert(message@.subrange(0, code@.len() as int) =~= message@.take(code@.len() as int));
    prefix && message[code.len()] == ':' && message[code.len() + 1] == ' '
}

fn suffix_of(message: &Vec<char>, start: usize) -> (r: Vec<char>)
    requires
        start <= message@.len(),
    ensures
        r@ == message@.skip(start as int),
{
    let mut r: Vec<char> = Vec::new();
    let mut i: usize = start;
    while i < message.len()
        invariant
            start <= i <= message@.len(),
            r@ == message@.subrange(start as int, i as int),
        decreases message@.len() - i,
    {
        r.push(message[i]);
        i += 1;
        assert(r@ =~= message@.subrange(start as int, i as int));
    }
    assert(r@ =~= message@.skip(start as int));
    r
}

/// Splits a backend analysis message into `(code, detail)`.
pub fn support_diagnostic(message: &str) -> (r: (String, String))
    ensures
        (r.0@, r.1@) == spec_support_diagnostic(message@),
{
    let m = chars_of(message);
    let host: Vec<char> = chars_of("TARGET_UNSUPPORTED_HOST");
    let ty: Vec<char> = chars_of("TARGET_UNSUPPORTED_TYPE");
    let op: Vec<char> = chars_of("TARGET_UNSUPPORTED_OP");
    let llvm: Vec<char> = chars_of("TARGET_UNSUPPORTED_LLVM");
    assert(host@ =~= support_codes()[0]);
    assert(ty@ =~= support_codes()[1]);
    assert(op@ =~= support_codes()[2]);
    assert(llvm@ =~= support_codes()[3]);
    if tagged_with_exec(&m, &host) {
        let rest = suffix_of(&m, host.len() + 2);
        return (string_of(&host), string_of(&rest));
    }
    if tagged_with_exec(&m, &ty) {
        let rest = suffix_of(&m, ty.len() + 2);
        return (string_of(&ty), string_of(&rest));
    }
    if tagged_with_exec(&m, &op) {
        let rest = suffix_of(&m, op.len() + 2);
        return (string_of(&op), string_of(&rest));
    }
    if tagged_with_exec(&m, &llvm) {
        let rest = suffix_of(&m, llvm.len() + 2);
        return (string_of(&llvm), string_of(&rest));
    }
    (string_of(&llvm), string_of(&m))
}

/// The module's entry function, the LLVM entry point: the first function of
/// kind `Entry` (a validated module has at most one). Backends select it by
/// kind, never by its name.
pub open spec fn entry_index(m: Module) -> Option<int> {
    first_function(m, |f: Function| f.kind == FunctionKind::Entry)
}

/// The LLVM entry point returns `VOID` or an integer.
pub open spec fn start_return_supported(t: TypeV) -> bool {
    is_void_type(t) || t is Integer
}

pub open spec fn entrypoint_code() -> Seq<char> {
    "TARGET_UNSUPPORTED_ENTRYPOINT"@
}

pub open spec fn host_code() -> Seq<char> {
    "TARGET_UNSUPPORTED_HOST"@
}

/// The first target check a module fails before its support analysis, as
/// the code, message and span of its diagnostic: no entry function, an entry
/// function (spelled `Start`) with parameters or an unsupported return type,
/// or a host service wasm32 lacks.
pub open spec fn target_failure(m: Module, target: Target) -> Option<(Seq<char>, Seq<char>, Span)> {
    match entry_index(m) {
        None => Some((entrypoint_code(), "LLVM target requires an executable Start function"@, spec_unknown_span())),
        Some(i) => {
            let f = m.functions@[i];
            if f.parameters@.len() > 0 {
                Some(
                    (
                        entrypoint_code(),
                        "LLVM entry point requires FUNCTION Start(), found "@ + decimal(f.parameters@.len())
                            + " parameter(s)"@,
                        f.span,
                    ),
                )
            } else if !start_return_supported(f.return_type@) {
                Some(
                    (
                        entrypoint_code(),
                        "Start return type '"@ + start_type_label(f.return_type@)
                            + "' is unsupported; LLVM entry point supports VOID or INTEGER"@,
                        f.span,
                    ),
                )
            } else if target == Target::Wasm32 && needs_unavailable_wasm_capability(m) {
                Some(
                    (
                        host_code(),
                        "target wasm32 does not provide HOST.FileSystem, HOST.Net, BNLog, or BNWeb; HOST.Console is supported"@,
                        f.span,
                    ),
                )
            } else {
                None
            }
        },
    }
}

/// The code of the first target check a module fails, if any.
pub open spec fn target_check(m: Module, target: Target) -> Option<Seq<char>> {
    match target_failure(m, target) {
        Some((code, _, _)) => Some(code),
        None => None,
    }
}

/// Checks LLVM target support of a validated module. `support` is the outcome
/// of the backend's analysis of the functions reachable from the entry: `Ok`, or
/// a message that may begin with a `TARGET_UNSUPPORTED_*` code. A failure is
/// always target support, never a language error.
pub fn validate_for(validated: &ValidatedModule, target: Target, support: &Result<(), String>) -> (r: Result<
    (),
    Diagnostic,
>)
    ensures
        match target_failure(validated.inner(), target) {
            Some((code, message, span)) => r matches Err(d) && d.code@ == code && d.message@ == message
                && d.span == span,
            None => match support {
                Ok(()) => r is Ok,
                Err(message) => r matches Err(d) && (d.code@, d.message@) == spec_support_diagnostic(message@)
                    && d.span == validated.inner().functions@[entry_index(validated.inner()).unwrap()].span,
            },
        },
{
    let m = validated.as_module();
    let entrypoint: Vec<char> = chars_of("TARGET_UNSUPPORTED_ENTRYPOINT");
    assert(entrypoint@ =~= entrypoint_code());
    let start = match m.entry() {
        Some(f) => f,
        None => {
            return Err(
                diagnostic(
                    entrypoint.as_slice(),
                    "LLVM target requires an executable Start function",
                    unknown_span(),
                ),
            );
        },
    };
    if start.parameters.len() > 0 {
        let mut message = String::new();
        crate::text::push_str(&mut message, "LLVM entry point requires FUNCTION Start(), found ");
        crate::text::push_decimal(&mut message, start.parameters.len() as u128);
        crate::text::push_str(&mut message, " parameter(s)");
        return Err(diagnostic(entrypoint.as_slice(), message.as_str(), start.span));
    }
    if !is_void_type_exec(&start.return_type) && !matches!(start.return_type, Type::Integer(_)) {
        let mut message = String::new();
        crate::text::push_str(&mut message, "Start return type '");
        let label = render_start_type(&start.return_type);
        crate::text::push_str(&mut message, label.as_str());
        crate::text::push_str(
            &mut message,
            "' is unsupported; LLVM entry point supports VOID or INTEGER",
        );
        return Err(diagnostic(entrypoint.as_slice(), message.as_str(), start.span));
    }
    if target == Target::Wasm32 && requires_unavailable_wasm_capability(m) {
        let host: Vec<char> = chars_of("TARGET_UNSUPPORTED_HOST");
        assert(host@ =~= host_code());
        return Err(
            diagnostic(
                host.as_slice(),
                "target wasm32 does not provide HOST.FileSystem, HOST.Net, BNLog, or BNWeb; HOST.Console is supported",
                start.span,
            ),
        );
    }
    match support {
        Ok(()) => Ok(()),
        Err(message) => {
            let (code, detail) = support_diagnostic(message.as_str());
            Err(Diagnostic { code, message: detail, span: start.span })
        },
    }
}

} // verus!
