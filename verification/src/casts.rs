//! Integer kinds and the emission of casts: widening to `i128`, range
//! checks that trap on overflow, and conversions between integers, floats
//! and truth values.
use vstd::prelude::*;
use crate::emission::{EmissionState, continuation_label, line, pieces, push_line, take_continuation};
use crate::llvm::{
    LlvmType, cast_supported, float_llvm, float_llvm_exec, integer_llvm, integer_llvm_exec, llvm_text, llvm_type,
    spec_llvm_type,
};
use crate::model::{BlockId, ValueId};
use crate::text::{decimal, decimal_string, push_signed_decimal, signed_decimal};
use crate::types::{IntegerType, Type, TypeV};

verus! {

/// The decimal spelling of `n` as a string.
fn signed_decimal_string(n: i128) -> (s: String)
    ensures
        s@ == signed_decimal(n as int),
{
    let mut s = String::new();
    push_signed_decimal(&mut s, n);
    assert(Seq::<char>::empty() + signed_decimal(n as int) =~= signed_decimal(n as int));
    s
}

// Integer kinds

/// The unsigned integer kinds.
pub open spec fn unsigned_kind(k: IntegerType) -> bool {
    k is Byte || k is UInt16 || k is UInt32 || k is UInt64
}

/// Values of type `t` compare, divide and extend as unsigned numbers.
pub open spec fn is_unsigned(t: TypeV) -> bool {
    t matches TypeV::Integer(k) && unsigned_kind(k)
}

pub fn is_unsigned_exec(t: &Type) -> (r: bool)
    ensures
        r == is_unsigned(t@),
{
    match t {
        Type::Integer(k) => match k {
            IntegerType::Byte | IntegerType::UInt16 | IntegerType::UInt32 | IntegerType::UInt64 => true,
            _ => false,
        },
        _ => false,
    }
}

/// The smallest value of an integer kind.
pub open spec fn kind_min(k: IntegerType) -> int {
    match k {
        IntegerType::Int8 => -128,
        IntegerType::Int16 => -32768,
        IntegerType::Int32 => -2147483648,
        IntegerType::Int64 => -9223372036854775808,
        _ => 0,
    }
}

/// The largest value of an integer kind.
pub open spec fn kind_max(k: IntegerType) -> int {
    match k {
        IntegerType::Byte => 255,
        IntegerType::Int8 => 127,
        IntegerType::Int16 => 32767,
        IntegerType::Int32 => 2147483647,
        IntegerType::Int64 => 9223372036854775807,
        IntegerType::UInt16 => 65535,
        IntegerType::UInt32 => 4294967295,
        IntegerType::UInt64 => 18446744073709551615,
    }
}

/// The bounds of integer type `ty`, spelt in decimal for a comparison with
/// an `i128`.
pub fn i128_bounds(ty: &Type) -> (r: (String, String))
    requires
        ty@ is Integer,
    ensures
        r.0@ == signed_decimal(kind_min(ty@->Integer_0)),
        r.1@ == signed_decimal(kind_max(ty@->Integer_0)),
{
    let (lo, hi): (i128, i128) = match ty {
        Type::Integer(k) => match k {
            IntegerType::Byte => (0, 255),
            IntegerType::Int8 => (-128, 127),
            IntegerType::Int16 => (-32768, 32767),
            IntegerType::Int32 => (-2147483648, 2147483647),
            IntegerType::Int64 => (-9223372036854775808, 9223372036854775807),
            IntegerType::UInt16 => (0, 65535),
            IntegerType::UInt32 => (0, 4294967295),
            IntegerType::UInt64 => (0, 18446744073709551615),
        },
        _ => (0, 0),
    };
    (signed_decimal_string(lo), signed_decimal_string(hi))
}

/// The range check and truncation of the `i128` value `%castw<d>` to the
/// target type, continuing at block `ok`.
pub open spec fn fit_trunc_text(
    d: Seq<char>,
    min: Seq<char>,
    max: Seq<char>,
    ok: Seq<char>,
    target: Seq<char>,
) -> Seq<char> {
    line(seq!["  %castlo"@, d, " = icmp slt i128 %castw"@, d, ", "@, min])
    + line(seq!["  %casthi"@, d, " = icmp sgt i128 %castw"@, d, ", "@, max])
    + line(seq!["  %castov"@, d, " = or i1 %castlo"@, d, ", %casthi"@, d])
    + line(seq!["  br i1 %castov"@, d, ", label %trap_numeric_overflow, label %"@, ok])
    + line(seq![ok, ":"@])
    + line(seq!["  %v"@, d, " = trunc i128 %castw"@, d, " to "@, target])
}

/// Emits the check that the widened value `%castw<dest>` fits the integer
/// type `target_ty` (trapping on overflow) and its truncation to `target`.
pub fn emit_i128_fit_trunc(
    text: &mut String,
    block_id: BlockId,
    dest: u32,
    target: &str,
    target_ty: &Type,
    state: &mut EmissionState,
)
    requires
        target_ty@ is Integer,
        old(state).continuation_count < usize::MAX,
    ensures
        final(text)@ == old(text)@ + fit_trunc_text(
            decimal(dest as nat),
            signed_decimal(kind_min(target_ty@->Integer_0)),
            signed_decimal(kind_max(target_ty@->Integer_0)),
            continuation_label(block_id.0, old(state).continuation_count as nat),
            target@,
        ),
        final(state).continuation_count == old(state).continuation_count + 1,
        final(state).needs_numeric_overflow_trap,
        final(state).print_count == old(state).print_count,
        final(state).control_flow == old(state).control_flow,
{
    let (min, max) = i128_bounds(target_ty);
    let ds = decimal_string(dest as u128);
    let d = ds.as_str();
    let ghost start = text@;
    let parts = ["  %castlo", d, " = icmp slt i128 %castw", d, ", ", min.as_str()];
    push_line(text, &parts);
    assert(pieces(parts@) =~= seq!["  %castlo"@, d@, " = icmp slt i128 %castw"@, d@, ", "@, min@]);
    let parts = ["  %casthi", d, " = icmp sgt i128 %castw", d, ", ", max.as_str()];
    push_line(text, &parts);
    assert(pieces(parts@) =~= seq!["  %casthi"@, d@, " = icmp sgt i128 %castw"@, d@, ", "@, max@]);
    let parts = ["  %castov", d, " = or i1 %castlo", d, ", %casthi", d];
    push_line(text, &parts);
    assert(pieces(parts@) =~= seq!["  %castov"@, d@, " = or i1 %castlo"@, d@, ", %casthi"@, d@]);
    let ok = take_continuation(block_id, state);
    let parts = ["  br i1 %castov", d, ", label %trap_numeric_overflow, label %", ok.as_str()];
    push_line(text, &parts);
    assert(pieces(parts@) =~= seq!["  br i1 %castov"@, d@, ", label %trap_numeric_overflow, label %"@, ok@]);
    let parts = [ok.as_str(), ":"];
    push_line(text, &parts);
    assert(pieces(parts@) =~= seq![ok@, ":"@]);
    let parts = ["  %v", d, " = trunc i128 %castw", d, " to ", target];
    push_line(text, &parts);
    assert(pieces(parts@) =~= seq!["  %v"@, d@, " = trunc i128 %castw"@, d@, " to "@, target@]);
    state.needs_numeric_overflow_trap = true;
    assert(text@ =~= start + fit_trunc_text(d@, min@, max@, ok@, target@));
}

// Casts

/// `%v<d>` is `%v<v>` copied within LLVM type `l`.
pub open spec fn same_type_copy_text(d: Seq<char>, v: Seq<char>, l: LlvmType) -> Seq<char> {
    match l {
        LlvmType::I1 => line(seq!["  %v"@, d, " = or i1 false, %v"@, v]),
        LlvmType::Ptr => line(seq!["  %v"@, d, " = getelementptr i8, ptr %v"@, v, ", i64 0"@]),
        LlvmType::Float => line(seq!["  %v"@, d, " = fadd float 0.0, %v"@, v]),
        LlvmType::Double => line(seq!["  %v"@, d, " = fadd double 0.0, %v"@, v]),
        _ => line(seq!["  %v"@, d, " = add "@, llvm_text(l), " 0, %v"@, v]),
    }
}

/// Emits `%v<destination>` as a copy of `%v<value>`, both of type `ty`.
pub fn emit_same_type_copy(text: &mut String, destination: ValueId, value: ValueId, ty: &Type)
    requires
        spec_llvm_type(ty@) is Some,
    ensures
        final(text)@ == old(text)@ + same_type_copy_text(
            decimal(destination.0 as nat),
            decimal(value.0 as nat),
            spec_llvm_type(ty@).unwrap(),
        ),
{
    let l = match llvm_type(ty) {
        Some(l) => l,
        None => return,
    };
    let ds = decimal_string(destination.0 as u128);
    let vs = decimal_string(value.0 as u128);
    let d = ds.as_str();
    let v = vs.as_str();
    match l {
        LlvmType::I1 => {
            let parts = ["  %v", d, " = or i1 false, %v", v];
            push_line(text, &parts);
            assert(pieces(parts@) =~= seq!["  %v"@, d@, " = or i1 false, %v"@, v@]);
        },
        LlvmType::Ptr => {
            let parts = ["  %v", d, " = getelementptr i8, ptr %v", v, ", i64 0"];
            push_line(text, &parts);
            assert(pieces(parts@) =~= seq!["  %v"@, d@, " = getelementptr i8, ptr %v"@, v@, ", i64 0"@]);
        },
        LlvmType::Float => {
            let parts = ["  %v", d, " = fadd float 0.0, %v", v];
            push_line(text, &parts);
            assert(pieces(parts@) =~= seq!["  %v"@, d@, " = fadd float 0.0, %v"@, v@]);
        },
        LlvmType::Double => {
            let parts = ["  %v", d, " = fadd double 0.0, %v", v];
            push_line(text, &parts);
            assert(pieces(parts@) =~= seq!["  %v"@, d@, " = fadd double 0.0, %v"@, v@]);
        },
        _ => {
            let lt = l.text();
            let parts = ["  %v", d, " = add ", lt.as_str(), " 0, %v", v];
            push_line(text, &parts);
            assert(pieces(parts@) =~= seq!["  %v"@, d@, " = add "@, lt@, " 0, %v"@, v@]);
        },
    }
}

/// An LLVM type whose values have a truth value.
pub open spec fn truth_source(s: LlvmType) -> bool {
    s is I1 || integer_llvm(s) || s is Float || s is Double || s is Ptr
}

/// `%v<d>`, the truth of `%v<v>` of LLVM type `s`: non-zero numbers, and
/// strings whose first byte is not zero, are true.
pub open spec fn to_boolean_text(d: Seq<char>, v: Seq<char>, s: LlvmType) -> Seq<char> {
    match s {
        LlvmType::I1 => line(seq!["  %v"@, d, " = or i1 false, %v"@, v]),
        LlvmType::Float => line(seq!["  %v"@, d, " = fcmp une float %v"@, v, ", 0.0"@]),
        LlvmType::Double => line(seq!["  %v"@, d, " = fcmp une double %v"@, v, ", 0.0"@]),
        LlvmType::Ptr => line(seq!["  %boolch"@, d, " = load i8, ptr %v"@, v])
            + line(seq!["  %v"@, d, " = icmp ne i8 %boolch"@, d, ", 0"@]),
        _ => line(seq!["  %v"@, d, " = icmp ne "@, llvm_text(s), " %v"@, v, ", 0"@]),
    }
}

/// Emits `%v<destination>` as the truth of `%v<value>` of LLVM type `source`.
pub fn emit_to_boolean(text: &mut String, destination: ValueId, value: ValueId, source: LlvmType)
    requires
        truth_source(source),
    ensures
        final(text)@ == old(text)@ + to_boolean_text(decimal(destination.0 as nat), decimal(value.0 as nat), source),
{
    let ds = decimal_string(destination.0 as u128);
    let vs = decimal_string(value.0 as u128);
    let d = ds.as_str();
    let v = vs.as_str();
    match source {
        LlvmType::I1 => {
            let parts = ["  %v", d, " = or i1 false, %v", v];
            push_line(text, &parts);
            assert(pieces(parts@) =~= seq!["  %v"@, d@, " = or i1 false, %v"@, v@]);
        },
        LlvmType::Float => {
            let parts = ["  %v", d, " = fcmp une float %v", v, ", 0.0"];
            push_line(text, &parts);
            assert(pieces(parts@) =~= seq!["  %v"@, d@, " = fcmp une float %v"@, v@, ", 0.0"@]);
        },
        LlvmType::Double => {
            let parts = ["  %v", d, " = fcmp une double %v", v, ", 0.0"];
            push_line(text, &parts);
            assert(pieces(parts@) =~= seq!["  %v"@, d@, " = fcmp une double %v"@, v@, ", 0.0"@]);
        },
        LlvmType::Ptr => {
            let ghost start = text@;
            let parts = ["  %boolch", d, " = load i8, ptr %v", v];
            push_line(text, &parts);
            assert(pieces(parts@) =~= seq!["  %boolch"@, d@, " = load i8, ptr %v"@, v@]);
            let parts = ["  %v", d, " = icmp ne i8 %boolch", d, ", 0"];
            push_line(text, &parts);
            assert(pieces(parts@) =~= seq!["  %v"@, d@, " = icmp ne i8 %boolch"@, d@, ", 0"@]);
            assert(text@ =~= start + to_boolean_text(d@, v@, source));
        },
        _ => {
            let st = source.text();
            let parts = ["  %v", d, " = icmp ne ", st.as_str(), " %v", v, ", 0"];
            push_line(text, &parts);
            assert(pieces(parts@) =~= seq!["  %v"@, d@, " = icmp ne "@, st@, " %v"@, v@, ", 0"@]);
        },
    }
}

/// The widening of `%v<v>` of LLVM type `s` to the `i128` value `%castw<d>`.
pub open spec fn widen_text(d: Seq<char>, v: Seq<char>, s: LlvmType, unsigned: bool) -> Seq<char> {
    line(
        seq![
            "  %castw"@,
            d,
            " = "@,
            if unsigned { "zext"@ } else { "sext"@ },
            " "@,
            llvm_text(s),
            " %v"@,
            v,
            " to i128"@,
        ],
    )
}

/// The range check and truncation that end a cast to integer type `t`,
/// continuing at block `ok`.
pub open spec fn narrow_text(d: Seq<char>, t: TypeV, ok: Seq<char>, target: LlvmType) -> Seq<char> {
    fit_trunc_text(
        d,
        signed_decimal(kind_min(t->Integer_0)),
        signed_decimal(kind_max(t->Integer_0)),
        ok,
        llvm_text(target),
    )
}

/// Emits the cast of integer `%v<value>` to integer `%v<destination>`
/// through `i128`, trapping when the value does not fit the target type.
pub fn emit_integer_to_integer(
    text: &mut String,
    block_id: BlockId,
    destination: ValueId,
    value: ValueId,
    source: LlvmType,
    target: LlvmType,
    source_ty: &Type,
    target_ty: &Type,
    state: &mut EmissionState,
)
    requires
        target_ty@ is Integer,
        old(state).continuation_count < usize::MAX,
    ensures
        final(text)@ == old(text)@ + widen_text(
            decimal(destination.0 as nat),
            decimal(value.0 as nat),
            source,
            is_unsigned(source_ty@),
        ) + narrow_text(
            decimal(destination.0 as nat),
            target_ty@,
            continuation_label(block_id.0, old(state).continuation_count as nat),
            target,
        ),
        final(state).continuation_count == old(state).continuation_count + 1,
        final(state).needs_numeric_overflow_trap,
        final(state).print_count == old(state).print_count,
        final(state).control_flow == old(state).control_flow,
{
    let ds = decimal_string(destination.0 as u128);
    let vs = decimal_string(value.0 as u128);
    let d = ds.as_str();
    let v = vs.as_str();
    let ext = if is_unsigned_exec(source_ty) { "zext" } else { "sext" };
    let st = source.text();
    let parts = ["  %castw", d, " = ", ext, " ", st.as_str(), " %v", v, " to i128"];
    push_line(text, &parts);
    assert(pieces(parts@) =~= seq!["  %castw"@, d@, " = "@, ext@, " "@, st@, " %v"@, v@, " to i128"@]);
    let tt = target.text();
    emit_i128_fit_trunc(text, block_id, destination.0, tt.as_str(), target_ty, state);
}

/// The check that floating `%v<v>` of LLVM type `s` is neither NaN nor
/// infinite (trapping otherwise) and its conversion to the `i128` value
/// `%castw<d>` in block `finite`.
pub open spec fn finite_check_text(d: Seq<char>, v: Seq<char>, s: LlvmType, finite: Seq<char>) -> Seq<char> {
    line(seq!["  %castnan"@, d, " = fcmp uno "@, llvm_text(s), " %v"@, v, ", 0.0"@])
    + line(seq!["  %castpinf"@, d, " = fcmp oeq "@, llvm_text(s), " %v"@, v, ", 0x7FF0000000000000"@])
    + line(seq!["  %castninf"@, d, " = fcmp oeq "@, llvm_text(s), " %v"@, v, ", 0xFFF0000000000000"@])
    + line(seq!["  %castinf"@, d, " = or i1 %castpinf"@, d, ", %castninf"@, d])
    + line(seq!["  %castbad"@, d, " = or i1 %castnan"@, d, ", %castinf"@, d])
    + line(seq!["  br i1 %castbad"@, d, ", label %trap_numeric_overflow, label %"@, finite])
    + line(seq![finite, ":"@])
    + line(seq!["  %castw"@, d, " = fptosi "@, llvm_text(s), " %v"@, v, " to i128"@])
}

/// Emits the cast of floating `%v<value>` to integer `%v<destination>`:
/// NaN, infinities and values out of the target's range trap.
pub fn emit_float_to_integer(
    text: &mut String,
    block_id: BlockId,
    destination: ValueId,
    value: ValueId,
    source: LlvmType,
    target: LlvmType,
    target_ty: &Type,
    state: &mut EmissionState,
)
    requires
        target_ty@ is Integer,
        old(state).continuation_count + 1 < usize::MAX,
    ensures
        final(text)@ == old(text)@ + finite_check_text(
            decimal(destination.0 as nat),
            decimal(value.0 as nat),
            source,
            continuation_label(block_id.0, old(state).continuation_count as nat),
        ) + narrow_text(
            decimal(destination.0 as nat),
            target_ty@,
            continuation_label(block_id.0, old(state).continuation_count as nat + 1),
            target,
        ),
        final(state).continuation_count == old(state).continuation_count + 2,
        final(state).needs_numeric_overflow_trap,
        final(state).print_count == old(state).print_count,
        final(state).control_flow == old(state).control_flow,
{
    let ds = decimal_string(destination.0 as u128);
    let vs = decimal_string(value.0 as u128);
    let d = ds.as_str();
    let v = vs.as_str();
    let st = source.text();
    let s = st.as_str();
    let ghost start = text@;
    let parts = ["  %castnan", d, " = fcmp uno ", s, " %v", v, ", 0.0"];
    push_line(text, &parts);
    assert(pieces(parts@) =~= seq!["  %castnan"@, d@, " = fcmp uno "@, s@, " %v"@, v@, ", 0.0"@]);
    let parts = ["  %castpinf", d, " = fcmp oeq ", s, " %v", v, ", 0x7FF0000000000000"];
    push_line(text, &parts);
    assert(pieces(parts@) =~= seq!["  %castpinf"@, d@, " = fcmp oeq "@, s@, " %v"@, v@, ", 0x7FF0000000000000"@]);
    let parts = ["  %castninf", d, " = fcmp oeq ", s, " %v", v, ", 0xFFF0000000000000"];
    push_line(text, &parts);
    assert(pieces(parts@) =~= seq!["  %castninf"@, d@, " = fcmp oeq "@, s@, " %v"@, v@, ", 0xFFF0000000000000"@]);
    let parts = ["  %castinf", d, " = or i1 %castpinf", d, ", %castninf", d];
    push_line(text, &parts);
    assert(pieces(parts@) =~= seq!["  %castinf"@, d@, " = or i1 %castpinf"@, d@, ", %castninf"@, d@]);
    let parts = ["  %castbad", d, " = or i1 %castnan", d, ", %castinf", d];
    push_line(text, &parts);
    assert(pieces(parts@) =~= seq!["  %castbad"@, d@, " = or i1 %castnan"@, d@, ", %castinf"@, d@]);
    let finite = take_continuation(block_id, state);
    let parts = ["  br i1 %castbad", d, ", label %trap_numeric_overflow, label %", finite.as_str()];
    push_line(text, &parts);
    assert(pieces(parts@) =~= seq!["  br i1 %castbad"@, d@, ", label %trap_numeric_overflow, label %"@, finite@]);
    let parts = [finite.as_str(), ":"];
    push_line(text, &parts);
    assert(pieces(parts@) =~= seq![finite@, ":"@]);
    state.needs_numeric_overflow_trap = true;
    let parts = ["  %castw", d, " = fptosi ", s, " %v", v, " to i128"];
    push_line(text, &parts);
    assert(pieces(parts@) =~= seq!["  %castw"@, d@, " = fptosi "@, s@, " %v"@, v@, " to i128"@]);
    assert(text@ =~= start + finite_check_text(d@, v@, source, finite@));
    let tt = target.text();
    emit_i128_fit_trunc(text, block_id, destination.0, tt.as_str(), target_ty, state);
}

/// The shapes of cast the emitter lowers, by the LLVM types of source and
/// target; casts to integers need an integer type as target.
pub open spec fn cast_lowerable(s: TypeV, t: TypeV) -> bool {
    match (spec_llvm_type(s), spec_llvm_type(t)) {
        (Some(a), Some(b)) => {
            ||| b is I1 && truth_source(a)
            ||| integer_llvm(a) && integer_llvm(b) && t is Integer
            ||| integer_llvm(a) && float_llvm(b)
            ||| float_llvm(a) && integer_llvm(b) && t is Integer
            ||| a is Float && b is Double
            ||| a is Double && b is Float
            ||| a == b && (a is Ptr || a is Float || a is Double)
        },
        _ => false,
    }
}

/// The continuation blocks a cast opens.
pub open spec fn cast_continuations(s: TypeV, t: TypeV) -> nat {
    let a = spec_llvm_type(s).unwrap();
    let b = spec_llvm_type(t).unwrap();
    if b is I1 {
        0
    } else if integer_llvm(a) && integer_llvm(b) {
        1
    } else if float_llvm(a) && integer_llvm(b) {
        2
    } else {
        0
    }
}

/// The text of the cast of `%v<v>` from `s` to `t` into `%v<d>`, in IR block
/// `block` with `n` continuation blocks opened before it.
pub open spec fn cast_text(d: Seq<char>, v: Seq<char>, block: u32, n: nat, s: TypeV, t: TypeV) -> Seq<char> {
    let a = spec_llvm_type(s).unwrap();
    let b = spec_llvm_type(t).unwrap();
    if b is I1 {
        to_boolean_text(d, v, a)
    } else if integer_llvm(a) && integer_llvm(b) {
        widen_text(d, v, a, is_unsigned(s)) + narrow_text(d, t, continuation_label(block, n), b)
    } else if integer_llvm(a) && float_llvm(b) {
        line(
            seq![
                "  %v"@,
                d,
                " = "@,
                if is_unsigned(s) { "uitofp"@ } else { "sitofp"@ },
                " "@,
                llvm_text(a),
                " %v"@,
                v,
                " to "@,
                llvm_text(b),
            ],
        )
    } else if float_llvm(a) && integer_llvm(b) {
        finite_check_text(d, v, a, continuation_label(block, n)) + narrow_text(
            d,
            t,
            continuation_label(block, n + 1),
            b,
        )
    } else if a is Float && b is Double {
        line(seq!["  %v"@, d, " = fpext float %v"@, v, " to double"@])
    } else if a is Double && b is Float {
        line(seq!["  %v"@, d, " = fptrunc double %v"@, v, " to float"@])
    } else {
        same_type_copy_text(d, v, b)
    }
}

/// Emits the cast of `%v<value>` from `source_ty` to `target_ty` into
/// `%v<destination>`.
pub fn lower_cast(
    text: &mut String,
    block_id: BlockId,
    destination: ValueId,
    value: ValueId,
    source_ty: &Type,
    target_ty: &Type,
    state: &mut EmissionState,
)
    requires
        cast_lowerable(source_ty@, target_ty@),
        old(state).continuation_count + 2 <= usize::MAX,
    ensures
        final(text)@ == old(text)@ + cast_text(
            decimal(destination.0 as nat),
            decimal(value.0 as nat),
            block_id.0,
            old(state).continuation_count as nat,
            source_ty@,
            target_ty@,
        ),
        final(state).continuation_count == old(state).continuation_count + cast_continuations(
            source_ty@,
            target_ty@,
        ),
        final(state).needs_numeric_overflow_trap == (old(state).needs_numeric_overflow_trap
            || cast_continuations(source_ty@, target_ty@) > 0),
        final(state).print_count == old(state).print_count,
        final(state).control_flow == old(state).control_flow,
{
    let (a, b) = match (llvm_type(source_ty), llvm_type(target_ty)) {
        (Some(a), Some(b)) => (a, b),
        _ => return,
    };
    if b == LlvmType::I1 {
        emit_to_boolean(text, destination, value, a);
    } else if integer_llvm_exec(a) && integer_llvm_exec(b) {
        emit_integer_to_integer(text, block_id, destination, value, a, b, source_ty, target_ty, state);
    } else if integer_llvm_exec(a) && float_llvm_exec(b) {
        let ds = decimal_string(destination.0 as u128);
        let vs = decimal_string(value.0 as u128);
        let opcode = if is_unsigned_exec(source_ty) { "uitofp" } else { "sitofp" };
        let at = a.text();
        let bt = b.text();
        let parts = ["  %v", ds.as_str(), " = ", opcode, " ", at.as_str(), " %v", vs.as_str(), " to ", bt.as_str()];
        push_line(text, &parts);
        assert(pieces(parts@) =~= seq!["  %v"@, ds@, " = "@, opcode@, " "@, at@, " %v"@, vs@, " to "@, bt@]);
    } else if float_llvm_exec(a) && integer_llvm_exec(b) {
        emit_float_to_integer(text, block_id, destination, value, a, b, target_ty, state);
    } else if a == LlvmType::Float && b == LlvmType::Double {
        let ds = decimal_string(destination.0 as u128);
        let vs = decimal_string(value.0 as u128);
        let parts = ["  %v", ds.as_str(), " = fpext float %v", vs.as_str(), " to double"];
        push_line(text, &parts);
        assert(pieces(parts@) =~= seq!["  %v"@, ds@, " = fpext float %v"@, vs@, " to double"@]);
    } else if a == LlvmType::Double && b == LlvmType::Float {
        let ds = decimal_string(destination.0 as u128);
        let vs = decimal_string(value.0 as u128);
        let parts = ["  %v", ds.as_str(), " = fptrunc double %v", vs.as_str(), " to float"];
        push_line(text, &parts);
        assert(pieces(parts@) =~= seq!["  %v"@, ds@, " = fptrunc double %v"@, vs@, " to float"@]);
    } else {
        emit_same_type_copy(text, destination, value, target_ty);
    }
}

/// Every cast the backend reports as supported is one the emitter lowers,
/// unless its target is an integer literal type.
pub proof fn lemma_supported_casts_lower(s: TypeV, t: TypeV)
    requires
        cast_supported(Some(s), t),
        !(t is IntegerLiteral),
    ensures
        cast_lowerable(s, t),
{
}

/// How many values an LLVM integer type can hold (none for the others).
pub open spec fn llvm_integer_values(t: LlvmType) -> int {
    match t {
        LlvmType::I8 => 256,
        LlvmType::I16 => 65536,
        LlvmType::I32 => 4294967296,
        LlvmType::I64 => 18446744073709551616,
        _ => 0,
    }
}

/// Every integer kind is held in the LLVM integer type of exactly its own
/// width: the type has as many values as the kind has.
pub proof fn lemma_integer_kinds_keep_their_width(k: IntegerType)
    ensures
        spec_llvm_type(TypeV::Integer(k)) matches Some(t) && llvm_integer_values(t) == kind_max(k) - kind_min(k) + 1,
{
}

} // verus!
