//! Emission of `PRINT` for the values whose printing branches on what they
//! hold: error unions, optional integers, and fixed INTEGER vectors.
use vstd::prelude::*;
use crate::emission::{EmissionState, line, pieces, push_line};
use crate::model::ValueId;
use crate::text::{decimal, decimal_string, push_str};
use crate::types::{Type, TypeV};

verus! {

/// The label `prefix` numbered `c`.
fn numbered(prefix: &str, c: &str) -> (r: String)
    ensures
        r@ == prefix@ + c@,
{
    let mut r = String::new();
    push_str(&mut r, prefix);
    push_str(&mut r, c);
    assert(r@ =~= prefix@ + c@);
    r
}

// Pieces

/// Splits the `{ i1, ptr, i64 }` value `%v<v>` into error flag, message
/// and payload, and branches on the flag.
pub open spec fn union_head_text(c: Seq<char>, v: Seq<char>) -> Seq<char> {
    line(seq!["  %unionerror"@, c, " = extractvalue { i1, ptr, i64 } %v"@, v, ", 0"@])
    + line(seq!["  %unionmessage"@, c, " = extractvalue { i1, ptr, i64 } %v"@, v, ", 1"@])
    + line(seq!["  %unionpayload"@, c, " = extractvalue { i1, ptr, i64 } %v"@, v, ", 2"@])
    + line(seq!["  br i1 %unionerror"@, c, ", label %unionerr"@, c, ", label %unionvalue"@, c])
}

fn emit_union_head(text: &mut String, c: &str, v: &str)
    ensures
        final(text)@ == old(text)@ + union_head_text(c@, v@),
{
    let ghost start = text@;
    let parts = ["  %unionerror", c, " = extractvalue { i1, ptr, i64 } %v", v, ", 0"];
    push_line(text, &parts);
    assert(pieces(parts@) =~= seq!["  %unionerror"@, c@, " = extractvalue { i1, ptr, i64 } %v"@, v@, ", 0"@]);
    let parts = ["  %unionmessage", c, " = extractvalue { i1, ptr, i64 } %v", v, ", 1"];
    push_line(text, &parts);
    assert(pieces(parts@) =~= seq!["  %unionmessage"@, c@, " = extractvalue { i1, ptr, i64 } %v"@, v@, ", 1"@]);
    let parts = ["  %unionpayload", c, " = extractvalue { i1, ptr, i64 } %v", v, ", 2"];
    push_line(text, &parts);
    assert(pieces(parts@) =~= seq!["  %unionpayload"@, c@, " = extractvalue { i1, ptr, i64 } %v"@, v@, ", 2"@]);
    let parts = ["  br i1 %unionerror", c, ", label %unionerr", c, ", label %unionvalue", c];
    push_line(text, &parts);
    assert(pieces(parts@) =~= seq!["  br i1 %unionerror"@, c@, ", label %unionerr"@, c@, ", label %unionvalue"@, c@]);
    assert(text@ =~= start + union_head_text(c@, v@));
}

/// Prints the error's code and message.
pub open spec fn union_error_print_text(c: Seq<char>) -> Seq<char> {
    line(seq!["  %unionerrprint"@, c, " = call i32 (ptr, ...) @printf(ptr @.bn_fmt_error, i64 %unionpayload"@, c, ", ptr %unionmessage"@, c, ")"@])
    + line(seq!["  br label %unionjoin"@, c])
}

fn emit_union_error_print(text: &mut String, c: &str)
    ensures
        final(text)@ == old(text)@ + union_error_print_text(c@),
{
    let ghost start = text@;
    let parts = ["  %unionerrprint", c, " = call i32 (ptr, ...) @printf(ptr @.bn_fmt_error, i64 %unionpayload", c, ", ptr %unionmessage", c, ")"];
    push_line(text, &parts);
    assert(pieces(parts@) =~= seq!["  %unionerrprint"@, c@, " = call i32 (ptr, ...) @printf(ptr @.bn_fmt_error, i64 %unionpayload"@, c@, ", ptr %unionmessage"@, c@, ")"@]);
    let parts = ["  br label %unionjoin", c];
    push_line(text, &parts);
    assert(pieces(parts@) =~= seq!["  br label %unionjoin"@, c@]);
    assert(text@ =~= start + union_error_print_text(c@));
}

/// Tests whether the message is the NA marker.
pub open spec fn union_na_check_text(c: Seq<char>) -> Seq<char> {
    line(seq!["  %unionnaptr"@, c, " = getelementptr [3 x i8], ptr @.bn_na, i64 0, i64 0"@])
    + line(seq!["  %unionisna"@, c, " = icmp eq ptr %unionmessage"@, c, ", %unionnaptr"@, c])
    + line(seq!["  br i1 %unionisna"@, c, ", label %unionna"@, c, ", label %unionpresent"@, c])
}

fn emit_union_na_check(text: &mut String, c: &str)
    ensures
        final(text)@ == old(text)@ + union_na_check_text(c@),
{
    let ghost start = text@;
    let parts = ["  %unionnaptr", c, " = getelementptr [3 x i8], ptr @.bn_na, i64 0, i64 0"];
    push_line(text, &parts);
    assert(pieces(parts@) =~= seq!["  %unionnaptr"@, c@, " = getelementptr [3 x i8], ptr @.bn_na, i64 0, i64 0"@]);
    let parts = ["  %unionisna", c, " = icmp eq ptr %unionmessage", c, ", %unionnaptr", c];
    push_line(text, &parts);
    assert(pieces(parts@) =~= seq!["  %unionisna"@, c@, " = icmp eq ptr %unionmessage"@, c@, ", %unionnaptr"@, c@]);
    let parts = ["  br i1 %unionisna", c, ", label %unionna", c, ", label %unionpresent", c];
    push_line(text, &parts);
    assert(pieces(parts@) =~= seq!["  br i1 %unionisna"@, c@, ", label %unionna"@, c@, ", label %unionpresent"@, c@]);
    assert(text@ =~= start + union_na_check_text(c@));
}

/// Prints NA.
pub open spec fn union_na_print_text(c: Seq<char>) -> Seq<char> {
    line(seq!["  call i32 (ptr, ...) @printf(ptr @.bn_fmt_str, ptr %unionnaptr"@, c, ")"@])
    + line(seq!["  br label %unionjoin"@, c])
}

fn emit_union_na_print(text: &mut String, c: &str)
    ensures
        final(text)@ == old(text)@ + union_na_print_text(c@),
{
    let ghost start = text@;
    let parts = ["  call i32 (ptr, ...) @printf(ptr @.bn_fmt_str, ptr %unionnaptr", c, ")"];
    push_line(text, &parts);
    assert(pieces(parts@) =~= seq!["  call i32 (ptr, ...) @printf(ptr @.bn_fmt_str, ptr %unionnaptr"@, c@, ")"@]);
    let parts = ["  br label %unionjoin", c];
    push_line(text, &parts);
    assert(pieces(parts@) =~= seq!["  br label %unionjoin"@, c@]);
    assert(text@ =~= start + union_na_print_text(c@));
}

/// Prints the payload as the bits of a FLOAT.
pub open spec fn union_float_print_text(c: Seq<char>) -> Seq<char> {
    line(seq!["  %unionfloat"@, c, " = bitcast i64 %unionpayload"@, c, " to double"@])
    + line(seq!["  call void @bn_rt_print_float(double %unionfloat"@, c, ")"@])
}

fn emit_union_float_print(text: &mut String, c: &str)
    ensures
        final(text)@ == old(text)@ + union_float_print_text(c@),
{
    let ghost start = text@;
    let parts = ["  %unionfloat", c, " = bitcast i64 %unionpayload", c, " to double"];
    push_line(text, &parts);
    assert(pieces(parts@) =~= seq!["  %unionfloat"@, c@, " = bitcast i64 %unionpayload"@, c@, " to double"@]);
    let parts = ["  call void @bn_rt_print_float(double %unionfloat", c, ")"];
    push_line(text, &parts);
    assert(pieces(parts@) =~= seq!["  call void @bn_rt_print_float(double %unionfloat"@, c@, ")"@]);
    assert(text@ =~= start + union_float_print_text(c@));
}

/// Prints the payload as a BOOLEAN.
pub open spec fn union_boolean_print_text(c: Seq<char>) -> Seq<char> {
    line(seq!["  %unionbool"@, c, " = icmp ne i64 %unionpayload"@, c, ", 0"@])
    + line(seq!["  %unionboolstr"@, c, " = select i1 %unionbool"@, c, ", ptr @.bn_true, ptr @.bn_false"@])
    + line(seq!["  call i32 (ptr, ...) @printf(ptr @.bn_fmt_str, ptr %unionboolstr"@, c, ")"@])
}

fn emit_union_boolean_print(text: &mut String, c: &str)
    ensures
        final(text)@ == old(text)@ + union_boolean_print_text(c@),
{
    let ghost start = text@;
    let parts = ["  %unionbool", c, " = icmp ne i64 %unionpayload", c, ", 0"];
    push_line(text, &parts);
    assert(pieces(parts@) =~= seq!["  %unionbool"@, c@, " = icmp ne i64 %unionpayload"@, c@, ", 0"@]);
    let parts = ["  %unionboolstr", c, " = select i1 %unionbool", c, ", ptr @.bn_true, ptr @.bn_false"];
    push_line(text, &parts);
    assert(pieces(parts@) =~= seq!["  %unionboolstr"@, c@, " = select i1 %unionbool"@, c@, ", ptr @.bn_true, ptr @.bn_false"@]);
    let parts = ["  call i32 (ptr, ...) @printf(ptr @.bn_fmt_str, ptr %unionboolstr", c, ")"];
    push_line(text, &parts);
    assert(pieces(parts@) =~= seq!["  call i32 (ptr, ...) @printf(ptr @.bn_fmt_str, ptr %unionboolstr"@, c@, ")"@]);
    assert(text@ =~= start + union_boolean_print_text(c@));
}

/// Prints the payload as an INTEGER.
pub open spec fn union_integer_print_text(c: Seq<char>) -> Seq<char> {
    line(seq!["  %unionintprint"@, c, " = call i32 (ptr, ...) @printf(ptr @.bn_fmt_int, i64 %unionpayload"@, c, ")"@])
}

fn emit_union_integer_print(text: &mut String, c: &str)
    ensures
        final(text)@ == old(text)@ + union_integer_print_text(c@),
{
    let ghost start = text@;
    let parts = ["  %unionintprint", c, " = call i32 (ptr, ...) @printf(ptr @.bn_fmt_int, i64 %unionpayload", c, ")"];
    push_line(text, &parts);
    assert(pieces(parts@) =~= seq!["  %unionintprint"@, c@, " = call i32 (ptr, ...) @printf(ptr @.bn_fmt_int, i64 %unionpayload"@, c@, ")"@]);
    assert(text@ =~= start + union_integer_print_text(c@));
}

/// Prints NULL.
pub open spec fn union_null_print_text(c: Seq<char>) -> Seq<char> {
    line(seq!["  %unionnullprint"@, c, " = call i32 (ptr, ...) @printf(ptr @.bn_fmt_str, ptr @.bn_null)"@])
}

fn emit_union_null_print(text: &mut String, c: &str)
    ensures
        final(text)@ == old(text)@ + union_null_print_text(c@),
{
    let ghost start = text@;
    let parts = ["  %unionnullprint", c, " = call i32 (ptr, ...) @printf(ptr @.bn_fmt_str, ptr @.bn_null)"];
    push_line(text, &parts);
    assert(pieces(parts@) =~= seq!["  %unionnullprint"@, c@, " = call i32 (ptr, ...) @printf(ptr @.bn_fmt_str, ptr @.bn_null)"@]);
    assert(text@ =~= start + union_null_print_text(c@));
}

/// Prints the message as a STRING.
pub open spec fn union_string_print_text(c: Seq<char>) -> Seq<char> {
    line(seq!["  %unionstrprint"@, c, " = call i32 (ptr, ...) @printf(ptr @.bn_fmt_str, ptr %unionmessage"@, c, ")"@])
}

fn emit_union_string_print(text: &mut String, c: &str)
    ensures
        final(text)@ == old(text)@ + union_string_print_text(c@),
{
    let ghost start = text@;
    let parts = ["  %unionstrprint", c, " = call i32 (ptr, ...) @printf(ptr @.bn_fmt_str, ptr %unionmessage", c, ")"];
    push_line(text, &parts);
    assert(pieces(parts@) =~= seq!["  %unionstrprint"@, c@, " = call i32 (ptr, ...) @printf(ptr @.bn_fmt_str, ptr %unionmessage"@, c@, ")"@]);
    assert(text@ =~= start + union_string_print_text(c@));
}

/// Splits the `{ i1, i32 }` value `%v<v>` into null flag and number, and
/// branches on the flag.
pub open spec fn optional_head_text(c: Seq<char>, v: Seq<char>) -> Seq<char> {
    line(seq!["  %optisnull"@, c, " = extractvalue { i1, i32 } %v"@, v, ", 0"@])
    + line(seq!["  %optintval"@, c, " = extractvalue { i1, i32 } %v"@, v, ", 1"@])
    + line(seq!["  br i1 %optisnull"@, c, ", label %optnull"@, c, ", label %optint"@, c])
}

fn emit_optional_head(text: &mut String, c: &str, v: &str)
    ensures
        final(text)@ == old(text)@ + optional_head_text(c@, v@),
{
    let ghost start = text@;
    let parts = ["  %optisnull", c, " = extractvalue { i1, i32 } %v", v, ", 0"];
    push_line(text, &parts);
    assert(pieces(parts@) =~= seq!["  %optisnull"@, c@, " = extractvalue { i1, i32 } %v"@, v@, ", 0"@]);
    let parts = ["  %optintval", c, " = extractvalue { i1, i32 } %v", v, ", 1"];
    push_line(text, &parts);
    assert(pieces(parts@) =~= seq!["  %optintval"@, c@, " = extractvalue { i1, i32 } %v"@, v@, ", 1"@]);
    let parts = ["  br i1 %optisnull", c, ", label %optnull", c, ", label %optint", c];
    push_line(text, &parts);
    assert(pieces(parts@) =~= seq!["  br i1 %optisnull"@, c@, ", label %optnull"@, c@, ", label %optint"@, c@]);
    assert(text@ =~= start + optional_head_text(c@, v@));
}

/// Prints NULL.
pub open spec fn optional_null_print_text(c: Seq<char>) -> Seq<char> {
    line(seq!["  %optnullprint"@, c, " = call i32 (ptr, ...) @printf(ptr @.bn_fmt_str, ptr @.bn_null)"@])
    + line(seq!["  br label %optintjoin"@, c])
}

fn emit_optional_null_print(text: &mut String, c: &str)
    ensures
        final(text)@ == old(text)@ + optional_null_print_text(c@),
{
    let ghost start = text@;
    let parts = ["  %optnullprint", c, " = call i32 (ptr, ...) @printf(ptr @.bn_fmt_str, ptr @.bn_null)"];
    push_line(text, &parts);
    assert(pieces(parts@) =~= seq!["  %optnullprint"@, c@, " = call i32 (ptr, ...) @printf(ptr @.bn_fmt_str, ptr @.bn_null)"@]);
    let parts = ["  br label %optintjoin", c];
    push_line(text, &parts);
    assert(pieces(parts@) =~= seq!["  br label %optintjoin"@, c@]);
    assert(text@ =~= start + optional_null_print_text(c@));
}

/// Prints the number.
pub open spec fn optional_integer_print_text(c: Seq<char>) -> Seq<char> {
    line(seq!["  %optintwide"@, c, " = sext i32 %optintval"@, c, " to i64"@])
    + line(seq!["  %optintprint"@, c, " = call i32 (ptr, ...) @printf(ptr @.bn_fmt_int, i64 %optintwide"@, c, ")"@])
    + line(seq!["  br label %optintjoin"@, c])
}

fn emit_optional_integer_print(text: &mut String, c: &str)
    ensures
        final(text)@ == old(text)@ + optional_integer_print_text(c@),
{
    let ghost start = text@;
    let parts = ["  %optintwide", c, " = sext i32 %optintval", c, " to i64"];
    push_line(text, &parts);
    assert(pieces(parts@) =~= seq!["  %optintwide"@, c@, " = sext i32 %optintval"@, c@, " to i64"@]);
    let parts = ["  %optintprint", c, " = call i32 (ptr, ...) @printf(ptr @.bn_fmt_int, i64 %optintwide", c, ")"];
    push_line(text, &parts);
    assert(pieces(parts@) =~= seq!["  %optintprint"@, c@, " = call i32 (ptr, ...) @printf(ptr @.bn_fmt_int, i64 %optintwide"@, c@, ")"@]);
    let parts = ["  br label %optintjoin", c];
    push_line(text, &parts);
    assert(pieces(parts@) =~= seq!["  br label %optintjoin"@, c@]);
    assert(text@ =~= start + optional_integer_print_text(c@));
}

/// Prints `, ` before an element.
pub open spec fn vector_separator_text(k: Seq<char>) -> Seq<char> {
    line(seq!["  %veccomma"@, k, " = call i32 @putchar(i32 44)"@])
    + line(seq!["  %vecspace"@, k, " = call i32 @putchar(i32 32)"@])
}

fn emit_vector_separator(text: &mut String, k: &str)
    ensures
        final(text)@ == old(text)@ + vector_separator_text(k@),
{
    let ghost start = text@;
    let parts = ["  %veccomma", k, " = call i32 @putchar(i32 44)"];
    push_line(text, &parts);
    assert(pieces(parts@) =~= seq!["  %veccomma"@, k@, " = call i32 @putchar(i32 44)"@]);
    let parts = ["  %vecspace", k, " = call i32 @putchar(i32 32)"];
    push_line(text, &parts);
    assert(pieces(parts@) =~= seq!["  %vecspace"@, k@, " = call i32 @putchar(i32 32)"@]);
    assert(text@ =~= start + vector_separator_text(k@));
}

/// Prints element `i` of the vector data `%vecprintdata<vec>`.
pub open spec fn vector_element_text(vec: Seq<char>, k: Seq<char>, i: Seq<char>) -> Seq<char> {
    line(seq!["  %vecitemptr"@, k, " = getelementptr i32, ptr %vecprintdata"@, vec, ", i64 "@, i])
    + line(seq!["  %vecitem"@, k, " = load i32, ptr %vecitemptr"@, k])
    + line(seq!["  %vecitem64_"@, k, " = sext i32 %vecitem"@, k, " to i64"@])
    + line(seq!["  %vecprint"@, k, " = call i32 (ptr, ...) @printf(ptr @.bn_fmt_int, i64 %vecitem64_"@, k, ")"@])
}

fn emit_vector_element(text: &mut String, vec: &str, k: &str, i: &str)
    ensures
        final(text)@ == old(text)@ + vector_element_text(vec@, k@, i@),
{
    let ghost start = text@;
    let parts = ["  %vecitemptr", k, " = getelementptr i32, ptr %vecprintdata", vec, ", i64 ", i];
    push_line(text, &parts);
    assert(pieces(parts@) =~= seq!["  %vecitemptr"@, k@, " = getelementptr i32, ptr %vecprintdata"@, vec@, ", i64 "@, i@]);
    let parts = ["  %vecitem", k, " = load i32, ptr %vecitemptr", k];
    push_line(text, &parts);
    assert(pieces(parts@) =~= seq!["  %vecitem"@, k@, " = load i32, ptr %vecitemptr"@, k@]);
    let parts = ["  %vecitem64_", k, " = sext i32 %vecitem", k, " to i64"];
    push_line(text, &parts);
    assert(pieces(parts@) =~= seq!["  %vecitem64_"@, k@, " = sext i32 %vecitem"@, k@, " to i64"@]);
    let parts = ["  %vecprint", k, " = call i32 (ptr, ...) @printf(ptr @.bn_fmt_int, i64 %vecitem64_", k, ")"];
    push_line(text, &parts);
    assert(pieces(parts@) =~= seq!["  %vecprint"@, k@, " = call i32 (ptr, ...) @printf(ptr @.bn_fmt_int, i64 %vecitem64_"@, k@, ")"@]);
    assert(text@ =~= start + vector_element_text(vec@, k@, i@));
}

// Error unions

/// How the present value of a printed error union is printed.
pub open spec fn union_payload_text(c: Seq<char>, integer_value: bool, void_value: bool, scalar: Option<TypeV>) -> Seq<char> {
    match scalar {
        Some(TypeV::Float(_)) => union_float_print_text(c),
        Some(TypeV::Boolean) => union_boolean_print_text(c),
        _ => if integer_value || (scalar matches Some(TypeV::Integer(_))) {
            union_integer_print_text(c)
        } else if void_value {
            union_null_print_text(c)
        } else {
            union_string_print_text(c)
        },
    }
}

/// The NA test of a scalar union, when the union holds a scalar.
pub open spec fn union_na_text(c: Seq<char>, scalar: bool) -> Seq<char> {
    if scalar {
        union_na_check_text(c) + line(seq!["unionna"@ + c, ":"@]) + union_na_print_text(c) + line(
            seq!["unionpresent"@ + c, ":"@],
        )
    } else {
        Seq::empty()
    }
}

/// `PRINT` of the error union `%v<v>` as print number `c`: an error prints
/// its code and message, NA prints `NA`, otherwise the value prints by its
/// kind; every branch ends at `unionjoin<c>`.
pub open spec fn print_error_union_text(
    c: Seq<char>,
    v: Seq<char>,
    integer_value: bool,
    void_value: bool,
    scalar: Option<TypeV>,
) -> Seq<char> {
    union_head_text(c, v) + line(seq!["unionerr"@ + c, ":"@]) + union_error_print_text(c) + line(
        seq!["unionvalue"@ + c, ":"@],
    ) + union_na_text(c, scalar is Some) + union_payload_text(c, integer_value, void_value, scalar) + line(
        seq!["  br label %unionjoin"@, c],
    ) + line(seq!["unionjoin"@ + c, ":"@])
}

/// The model of an optional type.
pub open spec fn option_type_view(t: Option<&Type>) -> Option<TypeV> {
    match t {
        Some(t) => Some(t@),
        None => None,
    }
}

/// Emits the NA test of a scalar union and its `NA` branch, ending in
/// block `unionpresent<c>`.
fn emit_union_na_branch(text: &mut String, c: &str, state: &mut EmissionState)
    ensures
        final(text)@ == old(text)@ + union_na_text(c@, true),
        final(state).print_count == old(state).print_count,
        final(state).continuation_count == old(state).continuation_count,
        final(state).needs_numeric_overflow_trap == old(state).needs_numeric_overflow_trap,
        final(state).control_flow.current() == "unionpresent"@ + c@,
        final(state).control_flow.exit_labels() == old(state).control_flow.exit_labels(),
        final(state).control_flow.pending() == old(state).control_flow.pending(),
{
    let ghost start = text@;
    emit_union_na_check(text, c);
    state.control_flow.label(text, numbered("unionna", c));
    emit_union_na_print(text, c);
    state.control_flow.label(text, numbered("unionpresent", c));
    assert(text@ =~= start + union_na_text(c@, true));
}

/// Emits the printing of the present value of an error union.
fn emit_union_payload(text: &mut String, c: &str, integer_value: bool, void_value: bool, scalar: Option<&Type>)
    ensures
        final(text)@ == old(text)@ + union_payload_text(c@, integer_value, void_value, option_type_view(scalar)),
{
    match scalar {
        Some(Type::Float(_)) => emit_union_float_print(text, c),
        Some(Type::Boolean) => emit_union_boolean_print(text, c),
        _ => {
            let integer_scalar = match scalar {
                Some(Type::Integer(_)) => true,
                _ => false,
            };
            if integer_value || integer_scalar {
                emit_union_integer_print(text, c);
            } else if void_value {
                emit_union_null_print(text, c);
            } else {
                emit_union_string_print(text, c);
            }
        },
    }
}

/// Emits `PRINT` of the error union `%v<value>`; `scalar` is the scalar it
/// holds besides NA, if any.
#[verifier::rlimit(40)]
pub fn lower_print_language_error_union(
    text: &mut String,
    value: ValueId,
    integer_value: bool,
    void_value: bool,
    scalar: Option<&Type>,
    state: &mut EmissionState,
)
    requires
        old(state).print_count < usize::MAX,
    ensures
        final(text)@ == old(text)@ + print_error_union_text(
            decimal(old(state).print_count as nat),
            decimal(value.0 as nat),
            integer_value,
            void_value,
            option_type_view(scalar),
        ),
        final(state).print_count == old(state).print_count + 1,
        final(state).continuation_count == old(state).continuation_count,
        final(state).needs_numeric_overflow_trap == old(state).needs_numeric_overflow_trap,
        final(state).control_flow.current() == "unionjoin"@ + decimal(old(state).print_count as nat),
        final(state).control_flow.exit_labels() == old(state).control_flow.exit_labels(),
        final(state).control_flow.pending() == old(state).control_flow.pending(),
{
    let cs = decimal_string(state.print_count as u128);
    let vs = decimal_string(value.0 as u128);
    let c = cs.as_str();
    let v = vs.as_str();
    let ghost start = text@;
    emit_union_head(text, c, v);
    state.control_flow.label(text, numbered("unionerr", c));
    emit_union_error_print(text, c);
    state.control_flow.label(text, numbered("unionvalue", c));
    let ghost first = text@;
    assert(first =~= start + (union_head_text(c@, v@) + line(seq!["unionerr"@ + c@, ":"@]) + union_error_print_text(
        c@,
    ) + line(seq!["unionvalue"@ + c@, ":"@])));
    if scalar.is_some() {
        emit_union_na_branch(text, c, state);
    }
    let ghost second = text@;
    assert(second =~= first + union_na_text(c@, scalar is Some));
    emit_union_payload(text, c, integer_value, void_value, scalar);
    let parts = ["  br label %unionjoin", c];
    push_line(text, &parts);
    assert(pieces(parts@) =~= seq!["  br label %unionjoin"@, c@]);
    state.control_flow.label(text, numbered("unionjoin", c));
    state.print_count = state.print_count + 1;
    assert(text@ =~= start + print_error_union_text(c@, v@, integer_value, void_value, option_type_view(scalar)));
}

// Optional integers

/// `PRINT` of the `INTEGER OR NULL` value `%v<v>` as print number `c`.
pub open spec fn print_optional_integer_text(c: Seq<char>, v: Seq<char>) -> Seq<char> {
    optional_head_text(c, v) + line(seq!["optnull"@ + c, ":"@]) + optional_null_print_text(c) + line(
        seq!["optint"@ + c, ":"@],
    ) + optional_integer_print_text(c) + line(seq!["optintjoin"@ + c, ":"@])
}

/// Emits `PRINT` of the `INTEGER OR NULL` value `%v<value>`.
pub fn lower_print_optional_integer(text: &mut String, value: ValueId, state: &mut EmissionState)
    requires
        old(state).print_count < usize::MAX,
    ensures
        final(text)@ == old(text)@ + print_optional_integer_text(
            decimal(old(state).print_count as nat),
            decimal(value.0 as nat),
        ),
        final(state).print_count == old(state).print_count + 1,
        final(state).continuation_count == old(state).continuation_count,
        final(state).needs_numeric_overflow_trap == old(state).needs_numeric_overflow_trap,
        final(state).control_flow.current() == "optintjoin"@ + decimal(old(state).print_count as nat),
        final(state).control_flow.exit_labels() == old(state).control_flow.exit_labels(),
        final(state).control_flow.pending() == old(state).control_flow.pending(),
{
    let cs = decimal_string(state.print_count as u128);
    let vs = decimal_string(value.0 as u128);
    let c = cs.as_str();
    let v = vs.as_str();
    let ghost start = text@;
    emit_optional_head(text, c, v);
    state.control_flow.label(text, numbered("optnull", c));
    emit_optional_null_print(text, c);
    state.control_flow.label(text, numbered("optint", c));
    emit_optional_integer_print(text, c);
    state.control_flow.label(text, numbered("optintjoin", c));
    state.print_count = state.print_count + 1;
    assert(text@ =~= start + print_optional_integer_text(c@, v@));
}

// INTEGER vectors

/// Element `index` of a printed vector, as print number `k`: a separator
/// before every element but the first, then the element.
pub open spec fn vector_item_text(vec: Seq<char>, k: Seq<char>, index: nat) -> Seq<char> {
    (if index > 0 { vector_separator_text(k) } else { Seq::empty() }) + vector_element_text(vec, k, decimal(index))
}

/// The first `n` elements of a printed vector, numbered from print `first`.
pub open spec fn vector_items_text(vec: Seq<char>, first: nat, n: nat) -> Seq<char>
    decreases n,
{
    if n == 0 {
        Seq::empty()
    } else {
        vector_items_text(vec, first, (n - 1) as nat) + vector_item_text(vec, decimal((first + n - 1) as nat), (n - 1) as nat)
    }
}

/// `PRINT` of the INTEGER vector `%v<v>` of `length` elements as
/// `[a, b, ...]`, numbered from print `first`.
pub open spec fn print_int32_vector_text(v: Seq<char>, first: nat, length: nat) -> Seq<char> {
    line(seq!["  %vecopen"@, decimal(first), " = call i32 @putchar(i32 91)"@]) + line(
        seq!["  %vecprintdata"@, decimal(first), " = extractvalue { ptr, i32 } %v"@, v, ", 0"@],
    ) + vector_items_text(decimal(first), first + 1, length) + line(
        seq!["  %vecclose"@, decimal(first + 1 + length), " = call i32 @putchar(i32 93)"@],
    )
}

/// Emits `PRINT` of the INTEGER vector `%v<value>` of `length` elements.
pub fn lower_print_int32_vector(text: &mut String, value: ValueId, length: u64, state: &mut EmissionState)
    requires
        old(state).print_count + length + 2 <= usize::MAX,
    ensures
        final(text)@ == old(text)@ + print_int32_vector_text(
            decimal(value.0 as nat),
            old(state).print_count as nat,
            length as nat,
        ),
        final(state).print_count == old(state).print_count + length + 2,
        final(state).continuation_count == old(state).continuation_count,
        final(state).needs_numeric_overflow_trap == old(state).needs_numeric_overflow_trap,
        final(state).control_flow == old(state).control_flow,
{
    let ghost first = state.print_count as nat;
    let vector = decimal_string(state.print_count as u128);
    let vs = decimal_string(value.0 as u128);
    let vec = vector.as_str();
    let ghost start = text@;
    let parts = ["  %vecopen", vec, " = call i32 @putchar(i32 91)"];
    push_line(text, &parts);
    assert(pieces(parts@) =~= seq!["  %vecopen"@, vec@, " = call i32 @putchar(i32 91)"@]);
    let parts = ["  %vecprintdata", vec, " = extractvalue { ptr, i32 } %v", vs.as_str(), ", 0"];
    push_line(text, &parts);
    assert(pieces(parts@) =~= seq!["  %vecprintdata"@, vec@, " = extractvalue { ptr, i32 } %v"@, vs@, ", 0"@]);
    state.print_count = state.print_count + 1;
    let ghost opened = text@;
    let mut index: u64 = 0;
    while index < length
        invariant
            0 <= index <= length,
            first + length + 2 <= usize::MAX,
            state.print_count == first + 1 + index,
            vector@ == decimal(first),
            text@ == opened + vector_items_text(vector@, first + 1, index as nat),
            state.continuation_count == old(state).continuation_count,
            state.needs_numeric_overflow_trap == old(state).needs_numeric_overflow_trap,
            state.control_flow == old(state).control_flow,
        decreases length - index,
    {
        let ks = decimal_string(state.print_count as u128);
        let is = decimal_string(index as u128);
        let ghost before = text@;
        if index > 0 {
            emit_vector_separator(text, ks.as_str());
        }
        emit_vector_element(text, vector.as_str(), ks.as_str(), is.as_str());
        assert(text@ =~= before + vector_item_text(vector@, ks@, index as nat));
        state.print_count = state.print_count + 1;
        index += 1;
    }
    let close = decimal_string(state.print_count as u128);
    let parts = ["  %vecclose", close.as_str(), " = call i32 @putchar(i32 93)"];
    push_line(text, &parts);
    assert(pieces(parts@) =~= seq!["  %vecclose"@, close@, " = call i32 @putchar(i32 93)"@]);
    state.print_count = state.print_count + 1;
    assert(text@ =~= start + print_int32_vector_text(vs@, first, length as nat));
}

} // verus!
