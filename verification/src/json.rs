//! `BNJson`: the provider that checks member calls on JSON documents and
//! turns each into a request to the document store, then turns the store's
//! answer into the value or failure the program sees. Documents are named by
//! `u64` handles; the store owns them.
use vstd::prelude::*;
use crate::source::Span;
use crate::text::{chars_are, chars_of, push_str, string_of};
use crate::types::IntegerType;
use crate::value::{
    Expected, FailureV, ProviderError, ProviderErrorKind, Value, ValueV, arity_check, error_value,
    make_error, member_method, method_of, mismatch, require_arity,
};

verus! {

/// The kind of an operand a member reads from its arguments.
#[derive(Clone, Copy, Debug, PartialEq, Eq, Structural)]
pub enum OperandKind {
    /// A `BNJson.Json` document handle.
    Handle,
    /// A `STRING`.
    Text,
    /// An `INTEGER` that fits 64 bits.
    Integer,
    /// A `BOOLEAN`.
    Boolean,
}

/// An operand read from a call's arguments.
#[derive(Debug)]
pub enum JsonOperand {
    Handle(u64),
    Text(String),
    Integer(i64),
    Boolean(bool),
}

/// Mathematical model of [`JsonOperand`].
pub ghost enum OperandV {
    Handle(u64),
    Text(Seq<char>),
    Integer(i64),
    Boolean(bool),
}

impl View for JsonOperand {
    type V = OperandV;

    open spec fn view(&self) -> OperandV {
        match self {
            JsonOperand::Handle(h) => OperandV::Handle(*h),
            JsonOperand::Text(t) => OperandV::Text(t@),
            JsonOperand::Integer(n) => OperandV::Integer(*n),
            JsonOperand::Boolean(b) => OperandV::Boolean(*b),
        }
    }
}

/// A scalar a member writes.
#[derive(Clone, Copy, Debug, PartialEq, Eq, Structural)]
pub enum ScalarKind {
    Null,
    Text,
    Integer,
    Boolean,
}

/// What a member reads from a document.
#[derive(Clone, Copy, Debug, PartialEq, Eq, Structural)]
pub enum ReadKind {
    Text,
    Integer,
    Boolean,
    Json,
}

/// The store operation a member asks for. Its operands come in the member's
/// argument order: the document handle first, then a key or an index, then
/// a value or a child document.
#[derive(Clone, Copy, Debug, PartialEq, Eq, Structural)]
pub enum JsonShape {
    /// Parse text into a new document.
    Parse,
    /// Write a document as text.
    Stringify,
    /// A new empty object.
    NewObject,
    /// A new empty array.
    NewArray,
    /// The kind of a document, as text.
    Kind,
    /// Whether an object has a key.
    Has,
    /// The number of members or elements.
    Length,
    /// A copy of a document.
    CloneDocument,
    /// Write a scalar under a key.
    WriteKey(ScalarKind),
    /// Write a scalar at an array index.
    WriteAt(ScalarKind),
    /// Append a scalar to an array.
    Append(ScalarKind),
    /// Move a child document under a key.
    MoveKey,
    /// Move a child document to an array index.
    MoveAt,
    /// Append a child document to an array.
    AppendMoved,
    /// Read the value under a key.
    ReadKey(ReadKind),
    /// Read the element at an index.
    ReadAt(ReadKind),
}

/// A request to the document store.
#[derive(Debug)]
pub struct JsonRequest {
    pub shape: JsonShape,
    pub operands: Vec<JsonOperand>,
}

/// The members that read or write a `FLOAT`.
#[derive(Clone, Copy, Debug, PartialEq, Eq, Structural)]
pub enum FloatMember {
    SetFloat,
    GetFloat,
    AppendFloat,
    GetFloatAt,
    SetFloatAt,
}

/// A checked call of a `FLOAT` member. `operands` are its arguments before
/// the `FLOAT` value, checked here; a writer's last argument, the `FLOAT`
/// itself, is read and converted by the host, which holds floating point.
#[derive(Debug)]
pub struct FloatRequest {
    pub member: FloatMember,
    pub operands: Vec<JsonOperand>,
}

/// What a member call comes to: a value now, a store request, or a checked
/// call of a `FLOAT` member, which the host completes.
#[derive(Debug)]
pub enum JsonStep {
    Done(Value),
    Request(JsonRequest),
    Float(FloatRequest),
}

/// The planned effect of a member call.
pub ghost enum JsonPlanV {
    Done(ValueV),
    Request(JsonShape, Seq<OperandV>),
    Float(FloatMember, Seq<OperandV>),
}

/// The arity, the kinds of the operands checked here, and the member, of each
/// member that reads or writes a `FLOAT`. A writer's `FLOAT` value comes last
/// and is not among the checked operands.
pub open spec fn float_signature(m: Seq<char>) -> Option<(nat, Seq<OperandKind>, FloatMember)> {
    let h = OperandKind::Handle;
    let t = OperandKind::Text;
    let i = OperandKind::Integer;
    if m == "SetFloat"@ {
        Some((3, seq![h, t], FloatMember::SetFloat))
    } else if m == "GetFloat"@ {
        Some((2, seq![h, t], FloatMember::GetFloat))
    } else if m == "AppendFloat"@ {
        Some((2, seq![h], FloatMember::AppendFloat))
    } else if m == "GetFloatAt"@ {
        Some((2, seq![h, i], FloatMember::GetFloatAt))
    } else if m == "SetFloatAt"@ {
        Some((3, seq![h, i], FloatMember::SetFloatAt))
    } else {
        None
    }
}

fn float_signature_of(m: &Vec<char>) -> (r: Option<(usize, Vec<OperandKind>, FloatMember)>)
    ensures
        match float_signature(m@) {
            None => r is None,
            Some((n, kinds, f)) => r matches Some((a, k, g)) && a == n && k@ == kinds && g == f,
        },
{
    let h = OperandKind::Handle;
    let t = OperandKind::Text;
    let i = OperandKind::Integer;
    let set_float = chars_of("SetFloat");
    let get_float = chars_of("GetFloat");
    let append_float = chars_of("AppendFloat");
    let get_float_at = chars_of("GetFloatAt");
    let set_float_at = chars_of("SetFloatAt");
    if chars_are(m, set_float.as_slice()) {
        let k = vec![h, t];
        assert(k@ =~= seq![h, t]);
        Some((3, k, FloatMember::SetFloat))
    } else if chars_are(m, get_float.as_slice()) {
        let k = vec![h, t];
        assert(k@ =~= seq![h, t]);
        Some((2, k, FloatMember::GetFloat))
    } else if chars_are(m, append_float.as_slice()) {
        let k = vec![h];
        assert(k@ =~= seq![h]);
        Some((2, k, FloatMember::AppendFloat))
    } else if chars_are(m, get_float_at.as_slice()) {
        let k = vec![h, i];
        assert(k@ =~= seq![h, i]);
        Some((2, k, FloatMember::GetFloatAt))
    } else if chars_are(m, set_float_at.as_slice()) {
        let k = vec![h, i];
        assert(k@ =~= seq![h, i]);
        Some((3, k, FloatMember::SetFloatAt))
    } else {
        None
    }
}

/// The operand kinds and store operation of each member that has one here;
/// the members that read or write a `FLOAT` have none (see `float_signature`).
pub open spec fn json_signature(m: Seq<char>) -> Option<(Seq<OperandKind>, JsonShape)> {
    let h = OperandKind::Handle;
    let t = OperandKind::Text;
    let i = OperandKind::Integer;
    let b = OperandKind::Boolean;
    if m == "Parse"@ {
        Some((seq![t], JsonShape::Parse))
    } else if m == "Stringify"@ {
        Some((seq![h], JsonShape::Stringify))
    } else if m == "Object"@ {
        Some((seq![], JsonShape::NewObject))
    } else if m == "Array"@ {
        Some((seq![], JsonShape::NewArray))
    } else if m == "Kind"@ {
        Some((seq![h], JsonShape::Kind))
    } else if m == "Has"@ {
        Some((seq![h, t], JsonShape::Has))
    } else if m == "Length"@ {
        Some((seq![h], JsonShape::Length))
    } else if m == "Clone"@ {
        Some((seq![h], JsonShape::CloneDocument))
    } else if m == "SetString"@ {
        Some((seq![h, t, t], JsonShape::WriteKey(ScalarKind::Text)))
    } else if m == "SetInteger"@ {
        Some((seq![h, t, i], JsonShape::WriteKey(ScalarKind::Integer)))
    } else if m == "SetBoolean"@ {
        Some((seq![h, t, b], JsonShape::WriteKey(ScalarKind::Boolean)))
    } else if m == "SetNull"@ {
        Some((seq![h, t], JsonShape::WriteKey(ScalarKind::Null)))
    } else if m == "SetJson"@ {
        Some((seq![h, t, h], JsonShape::MoveKey))
    } else if m == "GetString"@ {
        Some((seq![h, t], JsonShape::ReadKey(ReadKind::Text)))
    } else if m == "GetInteger"@ {
        Some((seq![h, t], JsonShape::ReadKey(ReadKind::Integer)))
    } else if m == "GetBoolean"@ {
        Some((seq![h, t], JsonShape::ReadKey(ReadKind::Boolean)))
    } else if m == "GetJson"@ {
        Some((seq![h, t], JsonShape::ReadKey(ReadKind::Json)))
    } else if m == "AppendString"@ {
        Some((seq![h, t], JsonShape::Append(ScalarKind::Text)))
    } else if m == "AppendInteger"@ {
        Some((seq![h, i], JsonShape::Append(ScalarKind::Integer)))
    } else if m == "AppendBoolean"@ {
        Some((seq![h, b], JsonShape::Append(ScalarKind::Boolean)))
    } else if m == "AppendNull"@ {
        Some((seq![h], JsonShape::Append(ScalarKind::Null)))
    } else if m == "AppendJson"@ {
        Some((seq![h, h], JsonShape::AppendMoved))
    } else if m == "GetStringAt"@ {
        Some((seq![h, i], JsonShape::ReadAt(ReadKind::Text)))
    } else if m == "GetIntegerAt"@ {
        Some((seq![h, i], JsonShape::ReadAt(ReadKind::Integer)))
    } else if m == "GetBooleanAt"@ {
        Some((seq![h, i], JsonShape::ReadAt(ReadKind::Boolean)))
    } else if m == "GetJsonAt"@ {
        Some((seq![h, i], JsonShape::ReadAt(ReadKind::Json)))
    } else if m == "SetStringAt"@ {
        Some((seq![h, i, t], JsonShape::WriteAt(ScalarKind::Text)))
    } else if m == "SetIntegerAt"@ {
        Some((seq![h, i, i], JsonShape::WriteAt(ScalarKind::Integer)))
    } else if m == "SetBooleanAt"@ {
        Some((seq![h, i, b], JsonShape::WriteAt(ScalarKind::Boolean)))
    } else if m == "SetNullAt"@ {
        Some((seq![h, i], JsonShape::WriteAt(ScalarKind::Null)))
    } else if m == "SetJsonAt"@ {
        Some((seq![h, i, h], JsonShape::MoveAt))
    } else {
        None
    }
}

/// The operand of kind `k` read from argument `i` of `member`.
pub open spec fn operand_at(args: Seq<Value>, i: int, k: OperandKind, member: Seq<char>) -> Result<
    OperandV,
    FailureV,
> {
    let arg = args[i];
    match k {
        OperandKind::Handle => match arg {
            Value::Json(h) => Ok(OperandV::Handle(h)),
            _ => Err(FailureV::TypeMismatch { expected: Expected::Json, member }),
        },
        OperandKind::Text => match arg {
            Value::String(t) => Ok(OperandV::Text(t@)),
            _ => Err(FailureV::TypeMismatch { expected: Expected::Text, member }),
        },
        OperandKind::Integer => match arg {
            Value::Integer(n, _) => if i64::MIN <= n <= i64::MAX {
                Ok(OperandV::Integer(n as i64))
            } else {
                Err(FailureV::TypeMismatch { expected: Expected::IntegerInRange, member })
            },
            _ => Err(FailureV::TypeMismatch { expected: Expected::Integer, member }),
        },
        OperandKind::Boolean => match arg {
            Value::Boolean(b) => Ok(OperandV::Boolean(b)),
            _ => Err(FailureV::TypeMismatch { expected: Expected::Boolean, member }),
        },
    }
}

/// The first `n` operands, read in argument order.
pub open spec fn operands_at(args: Seq<Value>, kinds: Seq<OperandKind>, member: Seq<char>, n: nat) -> Result<
    Seq<OperandV>,
    FailureV,
>
    decreases n,
{
    if n == 0 {
        Ok(Seq::empty())
    } else {
        match operands_at(args, kinds, member, (n - 1) as nat) {
            Err(f) => Err(f),
            Ok(s) => match operand_at(args, n - 1, kinds[n - 1], member) {
                Err(f) => Err(f),
                Ok(x) => Ok(s.push(x)),
            },
        }
    }
}

pub proof fn lemma_operands_at_failure(args: Seq<Value>, kinds: Seq<OperandKind>, member: Seq<char>, k: nat, m: nat)
    requires
        k <= m,
        operands_at(args, kinds, member, k) is Err,
    ensures
        operands_at(args, kinds, member, m) == operands_at(args, kinds, member, k),
    decreases m,
{
    if m > k {
        lemma_operands_at_failure(args, kinds, member, k, (m - 1) as nat);
    }
}

/// The message of the value a member without a store operation gives.
pub open spec fn unavailable_message() -> Seq<char> {
    "BNJson operation unavailable"@
}

/// What calling `member` with `args` comes to.
pub open spec fn json_plan(member: Seq<char>, args: Seq<Value>) -> Result<JsonPlanV, FailureV> {
    let m = member_method(member);
    match json_signature(m) {
        None => match float_signature(m) {
            Some((arity, kinds, f)) => match arity_check(member, arity, args.len()) {
                Some(e) => Err(e),
                None => match operands_at(args, kinds, member, kinds.len()) {
                    Err(e) => Err(e),
                    Ok(ops) => Ok(JsonPlanV::Float(f, ops)),
                },
            },
            None => Ok(
                JsonPlanV::Done(
                    if m == "CONSTRUCTOR"@ {
                        ValueV::Null
                    } else {
                        error_value(unavailable_message())
                    },
                ),
            ),
        },
        Some((kinds, shape)) => match arity_check(member, kinds.len(), args.len()) {
            Some(f) => Err(f),
            None => match operands_at(args, kinds, member, kinds.len()) {
                Err(f) => Err(f),
                Ok(ops) => Ok(JsonPlanV::Request(shape, ops)),
            },
        },
    }
}

fn is(m: &Vec<char>, lit: &str) -> (r: bool)
    ensures
        r == (m@ == lit@),
{
    let l = chars_of(lit);
    chars_are(m, l.as_slice())
}

fn signature_of(m: &Vec<char>) -> (r: Option<(Vec<OperandKind>, JsonShape)>)
    ensures
        match json_signature(m@) {
            None => r is None,
            Some((kinds, shape)) => r matches Some((k, s)) && k@ == kinds && s == shape,
        },
{
    proof {
    }
    let h = OperandKind::Handle;
    let t = OperandKind::Text;
    let i = OperandKind::Integer;
    let b = OperandKind::Boolean;
    let (kinds, shape): (Vec<OperandKind>, JsonShape) = if is(m, "Parse") {
        (vec![t], JsonShape::Parse)
    } else if is(m, "Stringify") {
        (vec![h], JsonShape::Stringify)
    } else if is(m, "Object") {
        (vec![], JsonShape::NewObject)
    } else if is(m, "Array") {
        (vec![], JsonShape::NewArray)
    } else if is(m, "Kind") {
        (vec![h], JsonShape::Kind)
    } else if is(m, "Has") {
        (vec![h, t], JsonShape::Has)
    } else if is(m, "Length") {
        (vec![h], JsonShape::Length)
    } else if is(m, "Clone") {
        (vec![h], JsonShape::CloneDocument)
    } else if is(m, "SetString") {
        (vec![h, t, t], JsonShape::WriteKey(ScalarKind::Text))
    } else if is(m, "SetInteger") {
        (vec![h, t, i], JsonShape::WriteKey(ScalarKind::Integer))
    } else if is(m, "SetBoolean") {
        (vec![h, t, b], JsonShape::WriteKey(ScalarKind::Boolean))
    } else if is(m, "SetNull") {
        (vec![h, t], JsonShape::WriteKey(ScalarKind::Null))
    } else if is(m, "SetJson") {
        (vec![h, t, h], JsonShape::MoveKey)
    } else if is(m, "GetString") {
        (vec![h, t], JsonShape::ReadKey(ReadKind::Text))
    } else if is(m, "GetInteger") {
        (vec![h, t], JsonShape::ReadKey(ReadKind::Integer))
    } else if is(m, "GetBoolean") {
        (vec![h, t], JsonShape::ReadKey(ReadKind::Boolean))
    } else if is(m, "GetJson") {
        (vec![h, t], JsonShape::ReadKey(ReadKind::Json))
    } else if is(m, "AppendString") {
        (vec![h, t], JsonShape::Append(ScalarKind::Text))
    } else if is(m, "AppendInteger") {
        (vec![h, i], JsonShape::Append(ScalarKind::Integer))
    } else if is(m, "AppendBoolean") {
        (vec![h, b], JsonShape::Append(ScalarKind::Boolean))
    } else if is(m, "AppendNull") {
        (vec![h], JsonShape::Append(ScalarKind::Null))
    } else if is(m, "AppendJson") {
        (vec![h, h], JsonShape::AppendMoved)
    } else if is(m, "GetStringAt") {
        (vec![h, i], JsonShape::ReadAt(ReadKind::Text))
    } else if is(m, "GetIntegerAt") {
        (vec![h, i], JsonShape::ReadAt(ReadKind::Integer))
    } else if is(m, "GetBooleanAt") {
        (vec![h, i], JsonShape::ReadAt(ReadKind::Boolean))
    } else if is(m, "GetJsonAt") {
        (vec![h, i], JsonShape::ReadAt(ReadKind::Json))
    } else if is(m, "SetStringAt") {
        (vec![h, i, t], JsonShape::WriteAt(ScalarKind::Text))
    } else if is(m, "SetIntegerAt") {
        (vec![h, i, i], JsonShape::WriteAt(ScalarKind::Integer))
    } else if is(m, "SetBooleanAt") {
        (vec![h, i, b], JsonShape::WriteAt(ScalarKind::Boolean))
    } else if is(m, "SetNullAt") {
        (vec![h, i], JsonShape::WriteAt(ScalarKind::Null))
    } else if is(m, "SetJsonAt") {
        (vec![h, i, h], JsonShape::MoveAt)
    } else {
        return None;
    };
    proof {
        let (sk, ss) = json_signature(m@)->0;
        assert(kinds@ =~= sk);
    }
    Some((kinds, shape))
}

/// The operand of kind `k` at argument `i`.
fn operand_at_exec(arguments: &Vec<Value>, i: usize, k: OperandKind, member: &str, span: Span) -> (r: Result<
    JsonOperand,
    ProviderError,
>)
    requires
        i < arguments@.len(),
    ensures
        match operand_at(arguments@, i as int, k, member@) {
            Ok(x) => r matches Ok(v) && v@ == x,
            Err(f) => r matches Err(e) && e@ == f && e.span == span,
        },
{
    match (k, &arguments[i]) {
        (OperandKind::Handle, Value::Json(h)) => Ok(JsonOperand::Handle(*h)),
        (OperandKind::Handle, _) => Err(mismatch(Expected::Json, member, span)),
        (OperandKind::Text, Value::String(t)) => Ok(JsonOperand::Text(t.clone())),
        (OperandKind::Text, _) => Err(mismatch(Expected::Text, member, span)),
        (OperandKind::Integer, Value::Integer(n, _)) => {
            if *n < i64::MIN as i128 || *n > i64::MAX as i128 {
                Err(mismatch(Expected::IntegerInRange, member, span))
            } else {
                Ok(JsonOperand::Integer(*n as i64))
            }
        },
        (OperandKind::Integer, _) => Err(mismatch(Expected::Integer, member, span)),
        (OperandKind::Boolean, Value::Boolean(b)) => Ok(JsonOperand::Boolean(*b)),
        (OperandKind::Boolean, _) => Err(mismatch(Expected::Boolean, member, span)),
    }
}

/// Checks a call on a JSON document and turns it into a store request, or
/// the value of a member that needs none. Members that read or write a
/// `FLOAT` are checked here up to their `FLOAT` value and come back as
/// `JsonStep::Float`, for the host to complete.
#[verifier::loop_isolation(false)]
pub fn plan_call(member: &str, arguments: &Vec<Value>, span: Span) -> (r: Result<JsonStep, ProviderError>)
    ensures
        match json_plan(member@, arguments@) {
            Err(f) => r matches Err(e) && e@ == f && e.span == span,
            Ok(JsonPlanV::Done(v)) => r matches Ok(JsonStep::Done(x)) && x@ == v,
            Ok(JsonPlanV::Request(shape, ops)) => r matches Ok(JsonStep::Request(q)) && q.shape == shape
                && q.operands@.map_values(|o: JsonOperand| o@) == ops,
            Ok(JsonPlanV::Float(f, ops)) => r matches Ok(JsonStep::Float(q)) && q.member == f
                && q.operands@.map_values(|o: JsonOperand| o@) == ops,
        },
{
    let method = method_of(member);
    let (kinds, shape) = match signature_of(&method) {
        Some(s) => s,
        None => {
            match float_signature_of(&method) {
                Some((arity, kinds, f)) => {
                    require_arity(member, arguments, arity, span)?;
                    let operands = leading_operands(member, arguments, &kinds, span)?;
                    return Ok(JsonStep::Float(FloatRequest { member: f, operands }));
                },
                None => {},
            }
            if is(&method, "CONSTRUCTOR") {
                return Ok(JsonStep::Done(Value::Null));
            }
            let message: Vec<char> = chars_of("BNJson operation unavailable");
            assert(message@ =~= unavailable_message());
            return Ok(JsonStep::Done(make_error(&message)));
        },
    };
    require_arity(member, arguments, kinds.len(), span)?;
    let operands = leading_operands(member, arguments, &kinds, span)?;
    Ok(JsonStep::Request(JsonRequest { shape, operands }))
}

/// Reads the first `kinds.len()` arguments as operands of those kinds.
fn leading_operands(member: &str, arguments: &Vec<Value>, kinds: &Vec<OperandKind>, span: Span) -> (r: Result<
    Vec<JsonOperand>,
    ProviderError,
>)
    requires
        kinds@.len() <= arguments@.len(),
    ensures
        match operands_at(arguments@, kinds@, member@, kinds@.len()) {
            Ok(ops) => r matches Ok(v) && v@.map_values(|o: JsonOperand| o@) == ops,
            Err(f) => r matches Err(e) && e@ == f && e.span == span,
        },
{
    let mut operands: Vec<JsonOperand> = Vec::new();
    let mut i: usize = 0;
    assert(operands@.map_values(|o: JsonOperand| o@) =~= Seq::<OperandV>::empty());
    while i < kinds.len()
        invariant
            0 <= i <= kinds@.len(),
            kinds@.len() <= arguments@.len(),
            operands_at(arguments@, kinds@, member@, i as nat) == Ok::<Seq<OperandV>, FailureV>(
                operands@.map_values(|o: JsonOperand| o@),
            ),
        decreases kinds@.len() - i,
    {
        let x = match operand_at_exec(arguments, i, kinds[i], member, span) {
            Ok(x) => x,
            Err(e) => {
                proof {
                    lemma_operands_at_failure(arguments@, kinds@, member@, (i + 1) as nat, kinds@.len());
                }
                return Err(e);
            },
        };
        let ghost before = operands@;
        operands.push(x);
        assert(operands@.map_values(|o: JsonOperand| o@) =~= before.map_values(|o: JsonOperand| o@).push(
            x@,
        ));
        i += 1;
    }
    Ok(operands)
}

// ---------------------------------------------------------------------------
// The store's answers

/// The outcome of a write to a document.
#[derive(Clone, Copy, Debug, PartialEq, Eq, Structural)]
pub enum JsonStatus {
    /// Written.
    Written,
    /// The write would nest deeper than the store allows.
    TooLarge,
    /// The handle names no document.
    InvalidHandle,
    /// The array index is out of range.
    NotFound,
    /// The target is not an object (or array).
    WrongKind,
}

/// The failure for a handle that names no document.
pub open spec fn invalid_document() -> FailureV {
    FailureV::UseAfterRelease("BNJson.Json is invalid"@)
}

fn invalid_handle(span: Span) -> (e: ProviderError)
    ensures
        e@ == invalid_document(),
        e.span == span,
{
    let message: Vec<char> = chars_of("BNJson.Json is invalid");
    ProviderError { kind: ProviderErrorKind::UseAfterRelease(string_of(&message)), span }
}

/// The container a write targets.
pub open spec fn container_name(object: bool) -> Seq<char> {
    if object {
        "object"@
    } else {
        "array"@
    }
}

/// What a write comes to: `VOID`, an `Error` value, or the invalid-handle
/// failure.
pub open spec fn spec_status_void(status: JsonStatus, object: bool) -> Result<ValueV, FailureV> {
    match status {
        JsonStatus::Written => Ok(ValueV::Null),
        JsonStatus::TooLarge => Ok(error_value("BNJson write would exceed the depth limit"@)),
        JsonStatus::InvalidHandle => Err(invalid_document()),
        JsonStatus::NotFound => Ok(error_value("BNJson: index out of range"@)),
        JsonStatus::WrongKind => Ok(error_value("BNJson write target is not an "@ + container_name(object))),
    }
}

/// Turns the outcome of a write to an object (`object`) or array into the
/// call's result.
pub fn status_void(status: JsonStatus, object: bool, span: Span) -> (r: Result<Value, ProviderError>)
    ensures
        match spec_status_void(status, object) {
            Ok(v) => r matches Ok(x) && x@ == v,
            Err(f) => r matches Err(e) && e@ == f && e.span == span,
        },
{
    match status {
        JsonStatus::Written => Ok(Value::Null),
        JsonStatus::TooLarge => {
            let m: Vec<char> = chars_of("BNJson write would exceed the depth limit");
            Ok(make_error(&m))
        },
        JsonStatus::InvalidHandle => Err(invalid_handle(span)),
        JsonStatus::NotFound => {
            let m: Vec<char> = chars_of("BNJson: index out of range");
            Ok(make_error(&m))
        },
        JsonStatus::WrongKind => {
            let mut t = String::new();
            push_str(&mut t, "BNJson write target is not an ");
            push_str(&mut t, if object { "object" } else { "array" });
            let m: Vec<char> = chars_of(t.as_str());
            assert(m@ =~= "BNJson write target is not an "@ + container_name(object));
            Ok(make_error(&m))
        },
    }
}

/// The name a read uses for the kind it expected.
pub open spec fn read_kind_name(k: ReadKind) -> Seq<char> {
    match k {
        ReadKind::Text => "STRING"@,
        ReadKind::Integer => "INTEGER"@,
        ReadKind::Boolean => "BOOLEAN"@,
        ReadKind::Json => "Json"@,
    }
}

/// The `Error` value for a missing key, an index out of range, or a value of
/// another kind. A read never falls back to a default.
pub open spec fn not_found(k: ReadKind) -> ValueV {
    error_value("BNJson: missing key or value is not a "@ + read_kind_name(k))
}

/// The store's answer to a read.
#[derive(Debug)]
pub enum JsonRead {
    /// The handle names no document.
    InvalidHandle,
    /// No value of the asked kind there.
    Missing,
    Text(String),
    Integer(i64),
    Boolean(bool),
    /// A copy of the document there, under a new handle.
    Document(u64),
}

/// What a read of kind `k` comes to.
pub open spec fn spec_read_result(k: ReadKind, answer: JsonRead) -> Result<ValueV, FailureV> {
    match answer {
        JsonRead::InvalidHandle => Err(invalid_document()),
        JsonRead::Text(t) if k == ReadKind::Text => Ok(ValueV::String(t@)),
        JsonRead::Integer(n) if k == ReadKind::Integer => Ok(ValueV::Integer(n as i128, IntegerType::Int64)),
        JsonRead::Boolean(b) if k == ReadKind::Boolean => Ok(ValueV::Boolean(b)),
        JsonRead::Document(h) if k == ReadKind::Json => Ok(ValueV::Json(h)),
        _ => Ok(not_found(k)),
    }
}

/// Turns the store's answer to a read of kind `k` into the call's result.
pub fn read_result(k: ReadKind, answer: JsonRead, span: Span) -> (r: Result<Value, ProviderError>)
    ensures
        match spec_read_result(k, answer) {
            Ok(v) => r matches Ok(x) && x@ == v,
            Err(f) => r matches Err(e) && e@ == f && e.span == span,
        },
{
    match (k, answer) {
        (_, JsonRead::InvalidHandle) => Err(invalid_handle(span)),
        (ReadKind::Text, JsonRead::Text(t)) => Ok(Value::String(t)),
        (ReadKind::Integer, JsonRead::Integer(n)) => Ok(Value::Integer(n as i128, IntegerType::Int64)),
        (ReadKind::Boolean, JsonRead::Boolean(b)) => Ok(Value::Boolean(b)),
        (ReadKind::Json, JsonRead::Document(h)) => Ok(Value::Json(h)),
        _ => {
            let mut t = String::new();
            push_str(&mut t, "BNJson: missing key or value is not a ");
            push_str(
                &mut t,
                match k {
                    ReadKind::Text => "STRING",
                    ReadKind::Integer => "INTEGER",
                    ReadKind::Boolean => "BOOLEAN",
                    ReadKind::Json => "Json",
                },
            );
            let m: Vec<char> = chars_of(t.as_str());
            assert(m@ =~= "BNJson: missing key or value is not a "@ + read_kind_name(k));
            Ok(make_error(&m))
        },
    }
}

/// The value a read of kind `k` delivers when it finds one.
pub open spec fn read_value_of_kind(k: ReadKind, v: ValueV) -> bool {
    match k {
        ReadKind::Text => v is String,
        ReadKind::Integer => v matches ValueV::Integer(_, kind) && kind == IntegerType::Int64,
        ReadKind::Boolean => v is Boolean,
        ReadKind::Json => v is Json,
    }
}

/// A read never falls back to a default: it fails only for a handle that
/// names no document, delivers exactly the value the store found when that
/// value has the asked kind, and is otherwise the `Error` value naming the
/// kind it expected.
pub proof fn lemma_reads_never_default(k: ReadKind, answer: JsonRead)
    ensures
        spec_read_result(k, answer) is Err <==> answer is InvalidHandle,
        spec_read_result(k, answer) matches Ok(v) ==> (read_value_of_kind(k, v) || v == not_found(k)),
        match (k, answer) {
            (ReadKind::Text, JsonRead::Text(t)) => spec_read_result(k, answer) == Ok::<ValueV, FailureV>(ValueV::String(t@)),
            (ReadKind::Integer, JsonRead::Integer(n)) => spec_read_result(k, answer) == Ok::<ValueV, FailureV>(
                ValueV::Integer(n as i128, IntegerType::Int64),
            ),
            (ReadKind::Boolean, JsonRead::Boolean(b)) => spec_read_result(k, answer) == Ok::<ValueV, FailureV>(ValueV::Boolean(b)),
            (ReadKind::Json, JsonRead::Document(h)) => spec_read_result(k, answer) == Ok::<ValueV, FailureV>(ValueV::Json(h)),
            (_, JsonRead::InvalidHandle) => true,
            _ => spec_read_result(k, answer) == Ok::<ValueV, FailureV>(not_found(k)),
        },
{
}

/// Every write is turned into `VOID OR Error` in one way: it fails only for a
/// handle that names no document, is `VOID` exactly when written, and the
/// depth rejection reads the same whatever the container.
pub proof fn lemma_write_outcomes(status: JsonStatus, object: bool)
    ensures
        spec_status_void(status, object) is Err <==> status == JsonStatus::InvalidHandle,
        spec_status_void(status, object) == Ok::<ValueV, FailureV>(ValueV::Null) <==> status == JsonStatus::Written,
        spec_status_void(status, object) matches Ok(v) ==> (v is Null || v is Error),
        spec_status_void(JsonStatus::TooLarge, object) == spec_status_void(JsonStatus::TooLarge, !object),
{
}

/// What parsing comes to: a new document, or the parser's complaint.
pub fn parse_result(answer: Result<u64, String>, span: Span) -> (r: Result<Value, ProviderError>)
    ensures
        match answer {
            Ok(h) => r matches Ok(x) && x@ == ValueV::Json(h),
            Err(m) => r matches Err(e) && e@ == FailureV::InvalidJson(m@) && e.span == span,
        },
{
    match answer {
        Ok(h) => Ok(Value::Json(h)),
        Err(m) => Err(ProviderError { kind: ProviderErrorKind::InvalidJson(m), span }),
    }
}

/// What writing a document as text comes to: the text, the writer's
/// complaint, or the invalid-handle failure when there is no document.
pub fn stringify_result(answer: Option<Result<String, String>>, span: Span) -> (r: Result<Value, ProviderError>)
    ensures
        match answer {
            None => r matches Err(e) && e@ == invalid_document() && e.span == span,
            Some(Ok(t)) => r matches Ok(x) && x@ == ValueV::String(t@),
            Some(Err(m)) => r matches Err(e) && e@ == FailureV::InvalidJson(m@) && e.span == span,
        },
{
    match answer {
        None => Err(invalid_handle(span)),
        Some(Ok(t)) => Ok(Value::String(t)),
        Some(Err(m)) => Err(ProviderError { kind: ProviderErrorKind::InvalidJson(m), span }),
    }
}

/// What asking for a document's kind, or copying it, comes to.
pub fn kind_result(answer: Option<String>, span: Span) -> (r: Result<Value, ProviderError>)
    ensures
        match answer {
            None => r matches Err(e) && e@ == invalid_document() && e.span == span,
            Some(t) => r matches Ok(x) && x@ == ValueV::String(t@),
        },
{
    match answer {
        None => Err(invalid_handle(span)),
        Some(t) => Ok(Value::String(t)),
    }
}

pub fn clone_result(answer: Option<u64>, span: Span) -> (r: Result<Value, ProviderError>)
    ensures
        match answer {
            None => r matches Err(e) && e@ == invalid_document() && e.span == span,
            Some(h) => r matches Ok(x) && x@ == ValueV::Json(h),
        },
{
    match answer {
        None => Err(invalid_handle(span)),
        Some(h) => Ok(Value::Json(h)),
    }
}

/// What counting members or elements comes to; the store answers -1 for a
/// document that is neither an object nor an array.
pub fn length_result(count: i64) -> (r: Value)
    ensures
        count == -1 ==> r@ == error_value("BNJson.Length: document is not an object or array"@),
        count != -1 ==> r@ == ValueV::Integer(count as i128, IntegerType::Int32),
{
    if count == -1 {
        let m: Vec<char> = chars_of("BNJson.Length: document is not an object or array");
        make_error(&m)
    } else {
        Value::Integer(count as i128, IntegerType::Int32)
    }
}

/// The provider of `BNJson`. Documents live in the store, not here.
#[derive(Debug)]
pub struct JsonProvider;

impl JsonProvider {
    pub fn new() -> (p: Self)
        ensures
            p == JsonProvider,
    {
        JsonProvider
    }

    /// Checks a call; see [`plan_call`].
    pub fn call(&mut self, member: &str, arguments: Vec<Value>, span: Span) -> (r: Result<JsonStep, ProviderError>)
        ensures
            match json_plan(member@, arguments@) {
                Err(f) => r matches Err(e) && e@ == f && e.span == span,
                Ok(JsonPlanV::Done(v)) => r matches Ok(JsonStep::Done(x)) && x@ == v,
                Ok(JsonPlanV::Request(shape, ops)) => r matches Ok(JsonStep::Request(q)) && q.shape
                    == shape && q.operands@.map_values(|o: JsonOperand| o@) == ops,
                Ok(JsonPlanV::Float(f, ops)) => r matches Ok(JsonStep::Float(q)) && q.member == f
                    && q.operands@.map_values(|o: JsonOperand| o@) == ops,
            },
    {
        plan_call(member, &arguments, span)
    }

    /// `NEW BNJson.Json` makes a new `null` document in the store; other
    /// classes are not this provider's.
    pub fn allocates(&self, class: &str) -> (r: bool)
        ensures
            r == (member_method(class@) == "Json"@),
    {
        let name = method_of(class);
        is(&name, "Json")
    }

    /// What releasing a value comes to: `None` when it is not a document;
    /// otherwise success, or the double-release failure when the store had
    /// already released it.
    pub fn release_result(&self, value: &Value, released: bool, span: Span) -> (r: Option<Result<(), ProviderError>>)
        ensures
            !(value is Json) ==> r is None,
            value is Json && released ==> r matches Some(Ok(())),
            value is Json && !released ==> (r matches Some(Err(e)) && e@ == FailureV::DoubleRelease(
                "BNJson.Json was already deleted"@,
            ) && e.span == span),
    {
        match value {
            Value::Json(_) => {
                if released {
                    Some(Ok(()))
                } else {
                    let m: Vec<char> = chars_of("BNJson.Json was already deleted");
                    Some(Err(ProviderError { kind: ProviderErrorKind::DoubleRelease(string_of(&m)), span }))
                }
            },
            _ => None,
        }
    }
}

impl Default for JsonProvider {
    fn default() -> (p: Self)
        ensures
            p == JsonProvider,
    {
        JsonProvider
    }
}

/// The word that names a kind of read in member names.
pub open spec fn read_kind_word(k: ReadKind) -> Seq<char> {
    match k {
        ReadKind::Text => "String"@,
        ReadKind::Integer => "Integer"@,
        ReadKind::Boolean => "Boolean"@,
        ReadKind::Json => "Json"@,
    }
}

/// A read asks for the kind its member names: a request to read kind `k`
/// under a key comes only from `Get<k>`, and one at an index only from
/// `Get<k>At`.
pub proof fn lemma_reads_ask_for_the_named_kind(member: Seq<char>, args: Seq<Value>)
    ensures
        match json_plan(member, args) {
            Ok(JsonPlanV::Request(JsonShape::ReadKey(k), _)) => member_method(member) == "Get"@ + read_kind_word(k),
            Ok(JsonPlanV::Request(JsonShape::ReadAt(k), _)) => member_method(member) == "Get"@ + read_kind_word(k)
                + "At"@,
            _ => true,
        },
{
    reveal_strlit("Get");
    reveal_strlit("At");
    reveal_strlit("String");
    reveal_strlit("Integer");
    reveal_strlit("Boolean");
    reveal_strlit("Json");
    reveal_strlit("GetString");
    reveal_strlit("GetInteger");
    reveal_strlit("GetBoolean");
    reveal_strlit("GetJson");
    reveal_strlit("GetStringAt");
    reveal_strlit("GetIntegerAt");
    reveal_strlit("GetBooleanAt");
    reveal_strlit("GetJsonAt");
    let m = member_method(member);
    assert("GetString"@ =~= "Get"@ + "String"@);
    assert("GetInteger"@ =~= "Get"@ + "Integer"@);
    assert("GetBoolean"@ =~= "Get"@ + "Boolean"@);
    assert("GetJson"@ =~= "Get"@ + "Json"@);
    assert("GetStringAt"@ =~= "Get"@ + "String"@ + "At"@);
    assert("GetIntegerAt"@ =~= "Get"@ + "Integer"@ + "At"@);
    assert("GetBooleanAt"@ =~= "Get"@ + "Boolean"@ + "At"@);
    assert("GetJsonAt"@ =~= "Get"@ + "Json"@ + "At"@);
}

/// The word that names a kind of scalar in member names.
pub open spec fn scalar_kind_word(k: ScalarKind) -> Seq<char> {
    match k {
        ScalarKind::Null => "Null"@,
        ScalarKind::Text => "String"@,
        ScalarKind::Integer => "Integer"@,
        ScalarKind::Boolean => "Boolean"@,
    }
}

/// The operand carries a scalar of kind `k` (a null carries none).
pub open spec fn operand_has_kind(o: OperandV, k: ScalarKind) -> bool {
    match k {
        ScalarKind::Null => true,
        ScalarKind::Text => o is Text,
        ScalarKind::Integer => o is Integer,
        ScalarKind::Boolean => o is Boolean,
    }
}

/// A write stores the kind its member names, and carries a value of that
/// kind as its last operand: `Set<k>` writes kind `k` under a key,
/// `Set<k>At` at an index, and `Append<k>` at the end of an array.
pub proof fn lemma_writes_store_the_named_kind(member: Seq<char>, args: Seq<Value>)
    ensures
        match json_plan(member, args) {
            Ok(JsonPlanV::Request(JsonShape::WriteKey(k), ops)) => member_method(member) == "Set"@
                + scalar_kind_word(k) && ops.len() >= 2 && operand_has_kind(ops.last(), k),
            Ok(JsonPlanV::Request(JsonShape::WriteAt(k), ops)) => member_method(member) == "Set"@
                + scalar_kind_word(k) + "At"@ && ops.len() >= 2 && operand_has_kind(ops.last(), k),
            Ok(JsonPlanV::Request(JsonShape::Append(k), ops)) => member_method(member) == "Append"@
                + scalar_kind_word(k) && ops.len() >= 1 && operand_has_kind(ops.last(), k),
            _ => true,
        },
{
    reveal_strlit("Set");
    reveal_strlit("Append");
    reveal_strlit("At");
    reveal_strlit("Null");
    reveal_strlit("String");
    reveal_strlit("Integer");
    reveal_strlit("Boolean");
    reveal_strlit("SetString");
    reveal_strlit("SetInteger");
    reveal_strlit("SetBoolean");
    reveal_strlit("SetNull");
    reveal_strlit("SetStringAt");
    reveal_strlit("SetIntegerAt");
    reveal_strlit("SetBooleanAt");
    reveal_strlit("SetNullAt");
    reveal_strlit("AppendString");
    reveal_strlit("AppendInteger");
    reveal_strlit("AppendBoolean");
    reveal_strlit("AppendNull");
    assert("SetString"@ =~= "Set"@ + "String"@);
    assert("SetInteger"@ =~= "Set"@ + "Integer"@);
    assert("SetBoolean"@ =~= "Set"@ + "Boolean"@);
    assert("SetNull"@ =~= "Set"@ + "Null"@);
    assert("SetStringAt"@ =~= "Set"@ + "String"@ + "At"@);
    assert("SetIntegerAt"@ =~= "Set"@ + "Integer"@ + "At"@);
    assert("SetBooleanAt"@ =~= "Set"@ + "Boolean"@ + "At"@);
    assert("SetNullAt"@ =~= "Set"@ + "Null"@ + "At"@);
    assert("AppendString"@ =~= "Append"@ + "String"@);
    assert("AppendInteger"@ =~= "Append"@ + "Integer"@);
    assert("AppendBoolean"@ =~= "Append"@ + "Boolean"@);
    assert("AppendNull"@ =~= "Append"@ + "Null"@);
    let m = member_method(member);
    match json_signature(m) {
        Some((kinds, shape)) => {
            if arity_check(member, kinds.len(), args.len()) is None {
                match operands_at(args, kinds, member, kinds.len()) {
                    Ok(ops) => {
                        lemma_operands_kinds(args, kinds, member, kinds.len());
                    },
                    Err(_) => {},
                }
            }
        },
        None => {},
    }
}

/// The operands read by kinds `kinds` have those kinds, one for one.
proof fn lemma_operands_kinds(args: Seq<Value>, kinds: Seq<OperandKind>, member: Seq<char>, n: nat)
    requires
        operands_at(args, kinds, member, n) is Ok,
    ensures
        ({
            let ops = operands_at(args, kinds, member, n)->Ok_0;
            &&& ops.len() == n
            &&& forall|j: int| 0 <= j < n ==> operand_of_kind(#[trigger] ops[j], kinds[j])
        }),
    decreases n,
{
    if n > 0 {
        lemma_operands_kinds(args, kinds, member, (n - 1) as nat);
    }
}

/// The operand read for kind `k` is of that kind.
pub open spec fn operand_of_kind(o: OperandV, k: OperandKind) -> bool {
    match k {
        OperandKind::Handle => o is Handle,
        OperandKind::Text => o is Text,
        OperandKind::Integer => o is Integer,
        OperandKind::Boolean => o is Boolean,
    }
}

} // verus!
