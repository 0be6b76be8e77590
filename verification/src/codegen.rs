//! LLVM text emitters and backend decisions whose output is fixed by their
//! inputs: comparison opcodes, checked-arithmetic intrinsics, return types,
//! cycles and reachability, dispatch results, indexed stores, object members
//! and deletion, and the types parameters are used at.
use vstd::prelude::*;
use std::collections::{HashMap, HashSet};
use crate::casts::{is_unsigned, is_unsigned_exec};
use crate::cfg::{
    block_successors, edge, none_blocked, reach_avoiding, reachable, reachable_blocks, reaches_avoiding, successors,
};
use crate::emission::{EmissionState, line, pieces, push_line};
use crate::layout::{layout_entries, vector_field_offsets, vector_offsets, vector_prefix_storable};
use crate::llvm::{LlvmType, comparison_op, integer_llvm, integer_llvm_exec, llvm_text, llvm_type, spec_llvm_type};
use crate::model::{BasicBlock, BlockId, Function, Instruction, Module, SymbolId, ValueId};
use crate::text::{chars_are, chars_of, copy_string, decimal, decimal_string, push_decimal, push_str, string_of};
use crate::types::{Type, TypeV};
use crate::typing::{is_void_type, is_void_type_exec};
use crate::validate::structure_valid;

verus! {

broadcast use vstd::std_specs::hash::group_hash_axioms;

// Comparisons and checked arithmetic

/// The `icmp` predicate of integer comparison `op` on operands of type `t`.
pub open spec fn integer_compare_text(op: Seq<char>, t: TypeV) -> Seq<char> {
    if op == "Less"@ {
        if is_unsigned(t) { "icmp ult"@ } else { "icmp slt"@ }
    } else if op == "LessEqual"@ {
        if is_unsigned(t) { "icmp ule"@ } else { "icmp sle"@ }
    } else if op == "Greater"@ {
        if is_unsigned(t) { "icmp ugt"@ } else { "icmp sgt"@ }
    } else if op == "GreaterEqual"@ {
        if is_unsigned(t) { "icmp uge"@ } else { "icmp sge"@ }
    } else if op == "NotEqual"@ {
        "icmp ne"@
    } else {
        "icmp eq"@
    }
}

/// The two-letter relation LLVM names for an ordered comparison.
pub open spec fn ordered_relation(op: Seq<char>) -> Seq<char> {
    if op == "Less"@ {
        "lt"@
    } else if op == "LessEqual"@ {
        "le"@
    } else if op == "Greater"@ {
        "gt"@
    } else {
        "ge"@
    }
}

/// An ordered comparison of integers of kind `k` is an `icmp` whose predicate
/// is unsigned (`u`) exactly when `k` has no negative values and signed (`s`)
/// otherwise, followed by the operator's own relation.
pub proof fn lemma_ordered_compare_signedness(op: Seq<char>, k: crate::types::IntegerType)
    requires
        op == "Less"@ || op == "LessEqual"@ || op == "Greater"@ || op == "GreaterEqual"@,
    ensures
        integer_compare_text(op, TypeV::Integer(k)) == "icmp "@ + seq![
            if crate::casts::kind_min(k) == 0 {
                'u'
            } else {
                's'
            },
        ] + ordered_relation(op),
{
    reveal_strlit("Less");
    reveal_strlit("LessEqual");
    reveal_strlit("Greater");
    reveal_strlit("GreaterEqual");
    assert("Less"@.len() == 4 && "LessEqual"@.len() == 9 && "Greater"@.len() == 7 && "GreaterEqual"@.len() == 12);
    reveal_strlit("icmp ult");
    reveal_strlit("icmp slt");
    reveal_strlit("icmp ule");
    reveal_strlit("icmp sle");
    reveal_strlit("icmp ugt");
    reveal_strlit("icmp sgt");
    reveal_strlit("icmp uge");
    reveal_strlit("icmp sge");
    reveal_strlit("icmp ");
    reveal_strlit("lt");
    reveal_strlit("le");
    reveal_strlit("gt");
    reveal_strlit("ge");
    let c = if crate::casts::kind_min(k) == 0 { 'u' } else { 's' };
    assert(integer_compare_text(op, TypeV::Integer(k)) =~= "icmp "@ + seq![c] + ordered_relation(op));
}

/// The LLVM comparison for integer comparison `operator` on `ty`: ordered
/// comparisons are unsigned for unsigned types and signed otherwise.
pub fn integer_compare_opcode(operator: &str, ty: &Type) -> (r: &'static str)
    requires
        comparison_op(operator@),
    ensures
        r@ == integer_compare_text(operator@, ty@),
{
    proof {
    }
    let op = chars_of(operator);
    let unsigned = is_unsigned_exec(ty);
    if chars_are(&op, chars_of("Less").as_slice()) {
        if unsigned { "icmp ult" } else { "icmp slt" }
    } else if chars_are(&op, chars_of("LessEqual").as_slice()) {
        if unsigned { "icmp ule" } else { "icmp sle" }
    } else if chars_are(&op, chars_of("Greater").as_slice()) {
        if unsigned { "icmp ugt" } else { "icmp sgt" }
    } else if chars_are(&op, chars_of("GreaterEqual").as_slice()) {
        if unsigned { "icmp uge" } else { "icmp sge" }
    } else if chars_are(&op, chars_of("NotEqual").as_slice()) {
        "icmp ne"
    } else {
        "icmp eq"
    }
}

/// The ordered `fcmp` predicate of floating comparison `op`.
pub open spec fn float_compare_text(op: Seq<char>) -> Seq<char> {
    if op == "Less"@ {
        "fcmp olt"@
    } else if op == "LessEqual"@ {
        "fcmp ole"@
    } else if op == "Greater"@ {
        "fcmp ogt"@
    } else if op == "GreaterEqual"@ {
        "fcmp oge"@
    } else if op == "NotEqual"@ {
        "fcmp one"@
    } else {
        "fcmp oeq"@
    }
}

/// An ordered comparison of floats is an ordered `fcmp` (false when either
/// side is NaN) with the operator's own relation.
pub proof fn lemma_ordered_float_compare(op: Seq<char>)
    requires
        op == "Less"@ || op == "LessEqual"@ || op == "Greater"@ || op == "GreaterEqual"@,
    ensures
        float_compare_text(op) == "fcmp o"@ + ordered_relation(op),
{
    reveal_strlit("Less");
    reveal_strlit("LessEqual");
    reveal_strlit("Greater");
    reveal_strlit("GreaterEqual");
    assert("Less"@.len() == 4 && "LessEqual"@.len() == 9 && "Greater"@.len() == 7 && "GreaterEqual"@.len() == 12);
    reveal_strlit("fcmp olt");
    reveal_strlit("fcmp ole");
    reveal_strlit("fcmp ogt");
    reveal_strlit("fcmp oge");
    reveal_strlit("fcmp o");
    reveal_strlit("lt");
    reveal_strlit("le");
    reveal_strlit("gt");
    reveal_strlit("ge");
    assert(float_compare_text(op) =~= "fcmp o"@ + ordered_relation(op));
}

/// The LLVM comparison for floating comparison `operator`.
pub fn float_compare_opcode(operator: &str) -> (r: &'static str)
    requires
        comparison_op(operator@),
    ensures
        r@ == float_compare_text(operator@),
{
    proof {
    }
    let op = chars_of(operator);
    if chars_are(&op, chars_of("Less").as_slice()) {
        "fcmp olt"
    } else if chars_are(&op, chars_of("LessEqual").as_slice()) {
        "fcmp ole"
    } else if chars_are(&op, chars_of("Greater").as_slice()) {
        "fcmp ogt"
    } else if chars_are(&op, chars_of("GreaterEqual").as_slice()) {
        "fcmp oge"
    } else if chars_are(&op, chars_of("NotEqual").as_slice()) {
        "fcmp one"
    } else {
        "fcmp oeq"
    }
}

/// The arithmetic of a checked operator: `add`, `sub` or `mul`.
pub open spec fn overflow_operation(op: Seq<char>) -> Option<Seq<char>> {
    if op == "Plus"@ {
        Some("add"@)
    } else if op == "Minus"@ {
        Some("sub"@)
    } else if op == "Star"@ || op == "Multiply"@ {
        Some("mul"@)
    } else {
        None
    }
}

/// The integer width a checked operation on values of type `t` computes in.
pub open spec fn checked_width(t: TypeV) -> Option<LlvmType> {
    match spec_llvm_type(t) {
        Some(w) => if integer_llvm(w) { Some(w) } else { None },
        None => None,
    }
}

/// The overflow-reporting LLVM intrinsic for `op` on `t`, such as
/// `llvm.sadd.with.overflow.i32`.
pub open spec fn checked_intrinsic_text(t: TypeV, op: Seq<char>) -> Option<Seq<char>> {
    match (checked_width(t), overflow_operation(op)) {
        (Some(w), Some(o)) => Some(
            "llvm."@ + (if is_unsigned(t) { "u"@ } else { "s"@ }) + o + ".with.overflow."@ + llvm_text(w),
        ),
        _ => None,
    }
}

/// Checked arithmetic on integers of kind `k` uses the unsigned (`u`)
/// intrinsic exactly when `k` has no negative values, in the LLVM width that
/// holds the kind.
pub proof fn lemma_checked_intrinsic_signedness(k: crate::types::IntegerType, op: Seq<char>)
    ensures
        checked_intrinsic_text(TypeV::Integer(k), op) matches Some(name) ==> {
            &&& name.len() > 5
            &&& name.take(5) == "llvm."@
            &&& name[5] == (if crate::casts::kind_min(k) == 0 { 'u' } else { 's' })
            &&& checked_width(TypeV::Integer(k)) == spec_llvm_type(TypeV::Integer(k))
        },
{
    reveal_strlit("llvm.");
    reveal_strlit("u");
    reveal_strlit("s");
    if let Some(name) = checked_intrinsic_text(TypeV::Integer(k), op) {
        let sign = if is_unsigned(TypeV::Integer(k)) { "u"@ } else { "s"@ };
        let o = overflow_operation(op)->0;
        let w = checked_width(TypeV::Integer(k))->0;
        assert(name == "llvm."@ + sign + o + ".with.overflow."@ + llvm_text(w));
        assert(name.take(5) =~= "llvm."@);
        assert(name[5] == sign[0]);
    }
}

/// The declaration of that intrinsic, such as
/// `{ i32, i1 } @llvm.sadd.with.overflow.i32(i32, i32)`.
pub open spec fn checked_declaration_text(t: TypeV, op: Seq<char>) -> Option<Seq<char>> {
    match (checked_width(t), checked_intrinsic_text(t, op)) {
        (Some(w), Some(name)) => Some(
            "{ "@ + llvm_text(w) + ", i1 } @"@ + name + "("@ + llvm_text(w) + ", "@ + llvm_text(w) + ")"@,
        ),
        _ => None,
    }
}

/// The overflow-checking intrinsic for `operator` on `ty`; `None` where the
/// operator has none or `ty` is not a machine integer.
pub fn checked_intrinsic_name(ty: &Type, operator: &str) -> (r: Option<String>)
    ensures
        r is Some <==> checked_intrinsic_text(ty@, operator@) is Some,
        r is Some ==> r->0@ == checked_intrinsic_text(ty@, operator@)->0,
{
    proof {
    }
    let w = match llvm_type(ty) {
        Some(w) => if integer_llvm_exec(w) {
            w
        } else {
            return None;
        },
        None => return None,
    };
    let op = chars_of(operator);
    let o = if chars_are(&op, chars_of("Plus").as_slice()) {
        "add"
    } else if chars_are(&op, chars_of("Minus").as_slice()) {
        "sub"
    } else if chars_are(&op, chars_of("Star").as_slice()) || chars_are(&op, chars_of("Multiply").as_slice()) {
        "mul"
    } else {
        return None;
    };
    let sign = if is_unsigned_exec(ty) { "u" } else { "s" };
    let width = w.text();
    let mut name = String::new();
    push_str(&mut name, "llvm.");
    push_str(&mut name, sign);
    push_str(&mut name, o);
    push_str(&mut name, ".with.overflow.");
    push_str(&mut name, width.as_str());
    assert(name@ =~= checked_intrinsic_text(ty@, operator@)->0);
    Some(name)
}

/// The declaration of the overflow-checking intrinsic for `operator` on `ty`.
pub fn checked_intrinsic_declaration(ty: &Type, operator: &str) -> (r: Option<String>)
    ensures
        r is Some <==> checked_declaration_text(ty@, operator@) is Some,
        r is Some ==> r->0@ == checked_declaration_text(ty@, operator@)->0,
{
    let name = match checked_intrinsic_name(ty, operator) {
        Some(name) => name,
        None => return None,
    };
    let w = match llvm_type(ty) {
        Some(w) => w.text(),
        None => return None,
    };
    let mut decl = String::new();
    push_str(&mut decl, "{ ");
    push_str(&mut decl, w.as_str());
    push_str(&mut decl, ", i1 } @");
    push_str(&mut decl, name.as_str());
    push_str(&mut decl, "(");
    push_str(&mut decl, w.as_str());
    push_str(&mut decl, ", ");
    push_str(&mut decl, w.as_str());
    push_str(&mut decl, ")");
    assert(decl@ =~= checked_declaration_text(ty@, operator@)->0);
    Some(decl)
}

/// The LLVM return type of a function returning `t`: `void` for `VOID`.
pub open spec fn return_llvm_text(t: TypeV) -> Option<Seq<char>> {
    if is_void_type(t) {
        Some("void"@)
    } else {
        match spec_llvm_type(t) {
            Some(l) => Some(llvm_text(l)),
            None => None,
        }
    }
}

/// The LLVM return type of a function returning `ty`, if the backend has one.
pub fn function_return_llvm(ty: &Type) -> (r: Option<String>)
    ensures
        r is Some <==> return_llvm_text(ty@) is Some,
        r is Some ==> r->0@ == return_llvm_text(ty@)->0,
{
    if is_void_type_exec(ty) {
        Some(String::from_str("void"))
    } else {
        match llvm_type(ty) {
            Some(l) => Some(l.text()),
            None => None,
        }
    }
}

// Analysis helpers

/// Block `c` lies on a cycle: one of its successors leads back to it.
pub open spec fn on_cycle(f: Function, c: int) -> bool {
    exists|s: int| #[trigger] edge(f, c, s) && reaches_avoiding(f, none_blocked(f.blocks@.len()), s, c)
}

/// A vector of `n` cleared flags.
fn cleared(n: usize) -> (v: Vec<bool>)
    ensures
        v@ == none_blocked(n as nat),
{
    let mut v: Vec<bool> = Vec::new();
    let mut i: usize = 0;
    while i < n
        invariant
            0 <= i <= n,
            v@ == none_blocked(i as nat),
        decreases n - i,
    {
        v.push(false);
        i += 1;
        assert(v@ =~= none_blocked(i as nat));
    }
    v
}

/// Whether block `candidate` of a well-structured function can reach
/// itself again, so that values it defines change from one pass to the next.
pub fn block_is_cyclic(function: &Function, candidate: BlockId) -> (r: bool)
    requires
        structure_valid(*function),
    ensures
        r == on_cycle(*function, candidate.0 as int),
{
    let n = function.blocks.len();
    if candidate.0 as usize >= n {
        return false;
    }
    let c = candidate.0 as usize;
    let targets = block_successors(&function.blocks[c].terminator);
    let none = cleared(n);
    let mut k: usize = 0;
    while k < targets.len()
        invariant
            0 <= k <= targets@.len(),
            n == function.blocks@.len(),
            c < n,
            c == candidate.0,
            structure_valid(*function),
            none@ == none_blocked(n as nat),
            targets@ == successors(function.blocks@[c as int].terminator),
            forall|j: int|
                0 <= j < k ==> !reaches_avoiding(*function, none@, #[trigger] targets@[j] as int, c as int),
        decreases targets@.len() - k,
    {
        let s = targets[k] as usize;
        assert(s < n);
        let marked = reach_avoiding(function, &none, s);
        if marked[c] {
            assert(edge(*function, c as int, s as int));
            return true;
        }
        k += 1;
    }
    proof {
        assert forall|s: int| #[trigger] edge(*function, c as int, s) implies !reaches_avoiding(
            *function,
            none_blocked(n as nat),
            s,
            c as int,
        ) by {
            let w = choose|w: int|
                0 <= w < successors(function.blocks@[c as int].terminator).len() && (#[trigger] successors(
                    function.blocks@[c as int].terminator,
                )[w]) as int == s;
            assert(targets@[w] as int == s);
        }
    }
    false
}

/// A vector dimension the backend's `i32` lengths can hold.
pub fn llvm_vector_dimension_supported(length: usize) -> (r: bool)
    ensures
        r == (length <= u32::MAX),
{
    length as u64 <= u32::MAX as u64
}

/// A `FOR` counter type: a machine integer.
pub open spec fn counter_type(t: TypeV) -> bool {
    (t is Integer || t is IntegerLiteral) && spec_llvm_type(t) is Some
}

/// The `$for_condition` intrinsic's three operands (counter, limit, step)
/// all have known machine-integer types.
pub open spec fn for_condition_ok(arguments: Seq<ValueId>, values: Map<u32, Type>) -> bool {
    &&& arguments.len() == 3
    &&& forall|i: int|
        0 <= i < 3 ==> values.contains_key(#[trigger] arguments[i].0) && counter_type(
            values[arguments[i].0]@,
        )
}

/// Whether the backend lowers a `$for_condition` call on `arguments`, given
/// the types of the function's values.
pub fn for_condition_supported(arguments: &[ValueId], values: &HashMap<u32, Type>) -> (r: bool)
    ensures
        r == for_condition_ok(arguments@, values@),
{
    if arguments.len() != 3 {
        return false;
    }
    let mut i: usize = 0;
    while i < 3
        invariant
            0 <= i <= 3,
            arguments@.len() == 3,
            forall|j: int|
                0 <= j < i ==> values@.contains_key(#[trigger] arguments@[j].0) && counter_type(
                    values@[arguments@[j].0]@,
                ),
        decreases 3 - i,
    {
        match values.get(&arguments[i].0) {
            Some(t) => {
                let ok = match t {
                    Type::Integer(_) | Type::IntegerLiteral(_) => llvm_type(t).is_some(),
                    _ => false,
                };
                if !ok {
                    return false;
                }
            },
            None => return false,
        }
        i += 1;
    }
    true
}

// Small emitters

/// Emits `%v<destination>`, the length of the fat vector `%v<vector>`.
pub fn emit_vector_length(text: &mut String, destination: ValueId, vector: ValueId)
    ensures
        final(text)@ == old(text)@ + line(
            seq![
                "  %v"@,
                decimal(destination.0 as nat),
                " = extractvalue { ptr, i32 } %v"@,
                decimal(vector.0 as nat),
                ", 1"@,
            ],
        ),
{
    let d = decimal_string(destination.0 as u128);
    let v = decimal_string(vector.0 as u128);
    let parts = ["  %v", d.as_str(), " = extractvalue { ptr, i32 } %v", v.as_str(), ", 1"];
    push_line(text, &parts);
    assert(pieces(parts@) =~= seq!["  %v"@, d@, " = extractvalue { ptr, i32 } %v"@, v@, ", 1"@]);
}

/// The text of an NA `FLOAT OR NA` value `%v<d>`.
pub open spec fn optional_float_default_text(d: Seq<char>) -> Seq<char> {
    line(seq!["  %na"@, d, " = insertvalue { i1, double } undef, i1 false, 0"@])
    + line(seq!["  %v"@, d, " = insertvalue { i1, double } %na"@, d, ", double 0.0, 1"@])
}

/// Emits `%v<destination>` as the default `FLOAT OR NA` value.
pub fn emit_optional_float_default(text: &mut String, destination: ValueId)
    ensures
        final(text)@ == old(text)@ + optional_float_default_text(decimal(destination.0 as nat)),
{
    let ds = decimal_string(destination.0 as u128);
    let d = ds.as_str();
    let ghost start = text@;
    let parts = ["  %na", d, " = insertvalue { i1, double } undef, i1 false, 0"];
    push_line(text, &parts);
    assert(pieces(parts@) =~= seq!["  %na"@, d@, " = insertvalue { i1, double } undef, i1 false, 0"@]);
    let parts = ["  %v", d, " = insertvalue { i1, double } %na", d, ", double 0.0, 1"];
    push_line(text, &parts);
    assert(pieces(parts@) =~= seq!["  %v"@, d@, " = insertvalue { i1, double } %na"@, d@, ", double 0.0, 1"@]);
    assert(text@ =~= start + optional_float_default_text(d@));
}

/// Emits `%v<destination>`, the number inside the `FLOAT OR NA` value `%v<value>`.
pub fn extract_optional_float(text: &mut String, destination: ValueId, value: ValueId)
    ensures
        final(text)@ == old(text)@ + line(
            seq![
                "  %v"@,
                decimal(destination.0 as nat),
                " = extractvalue { i1, double } %v"@,
                decimal(value.0 as nat),
                ", 1"@,
            ],
        ),
{
    let d = decimal_string(destination.0 as u128);
    let v = decimal_string(value.0 as u128);
    let parts = ["  %v", d.as_str(), " = extractvalue { i1, double } %v", v.as_str(), ", 1"];
    push_line(text, &parts);
    assert(pieces(parts@) =~= seq!["  %v"@, d@, " = extractvalue { i1, double } %v"@, v@, ", 1"@]);
}

/// The type name an `IS` test on type `t` checks for.
pub open spec fn test_name_of(t: TypeV) -> Seq<char> {
    match t {
        TypeV::TypeName(n) => n,
        TypeV::Named(n) => n,
        TypeV::NotAvailable => "NA"@,
        TypeV::Null => "NULL"@,
        _ => Seq::empty(),
    }
}

/// The name an `IS` test against `ty` checks for: a type's name, `NA`,
/// `NULL`, or nothing.
pub fn is_test_name(ty: &Type) -> (r: String)
    ensures
        r@ == test_name_of(ty@),
{
    match ty {
        Type::TypeName(name) => copy_string(name),
        Type::Named(name) => copy_string(name),
        Type::NotAvailable => {
            let cs: Vec<char> = chars_of("NA");
            string_of(&cs)
        },
        Type::Null => {
            let cs: Vec<char> = chars_of("NULL");
            string_of(&cs)
        },
        _ => String::new(),
    }
}

/// The `IS EOF` / `IS STRING` test on an `INPUT` string pointer: the end of
/// input is the unique `@.bn_eof` sentinel.
pub open spec fn string_or_eof_is_text(d: Seq<char>, l: Seq<char>, test_name: Seq<char>) -> Seq<char> {
    line(
        seq![
            "  %v"@,
            d,
            " = icmp "@,
            if test_name == "EOF"@ { "eq"@ } else { "ne"@ },
            " ptr %v"@,
            l,
            ", @.bn_eof"@,
        ],
    )
}

/// Emits the `IS` test of `%v<left>` of type `left_ty` against
/// `test_name` when it is a STRING-or-EOF test; reports whether it did.
pub fn emit_string_or_eof_is(
    text: &mut String,
    destination: ValueId,
    left: ValueId,
    left_ty: &Type,
    test_name: &str,
) -> (r: bool)
    ensures
        r == (left_ty@ is String && (test_name@ == "EOF"@ || test_name@ == "STRING"@)),
        r ==> final(text)@ == old(text)@ + string_or_eof_is_text(
            decimal(destination.0 as nat),
            decimal(left.0 as nat),
            test_name@,
        ),
        !r ==> final(text)@ == old(text)@,
{
    proof {
    }
    let name = chars_of(test_name);
    let eof = chars_are(&name, chars_of("EOF").as_slice());
    let is_string = match left_ty {
        Type::String => true,
        _ => false,
    };
    if !is_string || !(eof || chars_are(&name, chars_of("STRING").as_slice())) {
        return false;
    }
    let comparison = if eof { "eq" } else { "ne" };
    let d = decimal_string(destination.0 as u128);
    let l = decimal_string(left.0 as u128);
    let parts = ["  %v", d.as_str(), " = icmp ", comparison, " ptr %v", l.as_str(), ", @.bn_eof"];
    push_line(text, &parts);
    assert(pieces(parts@) =~= seq!["  %v"@, d@, " = icmp "@, comparison@, " ptr %v"@, l@, ", @.bn_eof"@]);
    true
}

/// The ids of the blocks of a well-structured function that control can
/// reach from its entry; the emitter skips the others.
pub fn reachable_block_ids(function: &Function) -> (r: HashSet<u32>)
    requires
        structure_valid(*function),
    ensures
        forall|id: u32| #[trigger] r@.contains(id) <==> id < function.blocks@.len() && reachable(*function, id as int),
{
    let marks = reachable_blocks(function);
    let mut ids: HashSet<u32> = HashSet::new();
    let mut b: usize = 0;
    while b < marks.len()
        invariant
            0 <= b <= marks@.len(),
            marks@.len() == function.blocks@.len(),
            function.blocks@.len() <= u32::MAX,
            forall|k: int| 0 <= k < function.blocks@.len() ==> #[trigger] marks@[k] == reachable(*function, k),
            forall|id: u32| #[trigger] ids@.contains(id) <==> id < b && reachable(*function, id as int),
        decreases marks@.len() - b,
    {
        if marks[b] {
            ids.insert(b as u32);
        }
        b += 1;
    }
    ids
}

// Parameters

/// The type at which instruction `i` reads or writes `symbol`, if it does.
pub open spec fn symbol_access_type(i: Instruction, symbol: SymbolId) -> Option<TypeV> {
    match i {
        Instruction::Load { symbol: s, ty, .. } => if s == symbol { Some(ty@) } else { None },
        Instruction::Store { symbol: s, ty, .. } => if s == symbol { Some(ty@) } else { None },
        _ => None,
    }
}

/// The type of the first access to `symbol` among instructions `ins`.
pub open spec fn first_access_in(ins: Seq<Instruction>, symbol: SymbolId) -> Option<TypeV>
    decreases ins.len(),
{
    if ins.len() == 0 {
        None
    } else {
        match symbol_access_type(ins[0], symbol) {
            Some(t) => Some(t),
            None => first_access_in(ins.drop_first(), symbol),
        }
    }
}

/// The type of the first access to `symbol` in blocks `bs`, in block order.
pub open spec fn first_access(bs: Seq<BasicBlock>, symbol: SymbolId) -> Option<TypeV>
    decreases bs.len(),
{
    if bs.len() == 0 {
        None
    } else {
        match first_access_in(bs[0].instructions@, symbol) {
            Some(t) => Some(t),
            None => first_access(bs.drop_first(), symbol),
        }
    }
}

/// The first access to `symbol` among the instructions of a block from
/// index `j` on.
fn first_access_from<'a>(ins: &'a Vec<Instruction>, j: usize, symbol: SymbolId) -> (r: Option<&'a Type>)
    requires
        j <= ins@.len(),
    ensures
        match first_access_in(ins@.skip(j as int), symbol) {
            Some(t) => r matches Some(x) && x@ == t,
            None => r is None,
        },
    decreases ins@.len() - j,
{
    if j == ins.len() {
        assert(ins@.skip(j as int) =~= Seq::<Instruction>::empty());
        return None;
    }
    assert(ins@.skip(j as int)[0] == ins@[j as int]);
    assert(ins@.skip(j as int).drop_first() =~= ins@.skip(j + 1));
    match &ins[j] {
        Instruction::Load { symbol: s, ty, .. } => if *s == symbol {
            return Some(ty);
        },
        Instruction::Store { symbol: s, ty, .. } => if *s == symbol {
            return Some(ty);
        },
        _ => {},
    }
    first_access_from(ins, j + 1, symbol)
}

/// The type a parameter is used at inside its function: that of the first
/// `Load` or `Store` of its symbol, in block and instruction order.
pub fn parameter_semantic_type(function: &Function, symbol: SymbolId) -> (r: Option<&Type>)
    ensures
        match first_access(function.blocks@, symbol) {
            Some(t) => r matches Some(x) && x@ == t,
            None => r is None,
        },
{
    let mut b: usize = 0;
    assert(function.blocks@.skip(0) =~= function.blocks@);
    while b < function.blocks.len()
        invariant
            0 <= b <= function.blocks@.len(),
            first_access(function.blocks@, symbol) == first_access(function.blocks@.skip(b as int), symbol),
        decreases function.blocks@.len() - b,
    {
        let ghost rest = function.blocks@.skip(b as int);
        assert(rest[0] == function.blocks@[b as int]);
        assert(rest.drop_first() =~= function.blocks@.skip(b + 1));
        assert(function.blocks@[b as int].instructions@.skip(0) =~= function.blocks@[b as int].instructions@);
        match first_access_from(&function.blocks[b].instructions, 0, symbol) {
            Some(t) => return Some(t),
            None => {},
        }
        b += 1;
    }
    assert(function.blocks@.skip(b as int) =~= Seq::<BasicBlock>::empty());
    None
}

/// `t` is the `DataFrame` type of a module that provides `BNData`.
pub open spec fn dataframe_type(m: Module, t: TypeV) -> bool {
    t matches TypeV::ImportedNamed { module, name } && name == "DataFrame"@ && exists|i: int|
        0 <= i < m.bndata_providers@.len() && (#[trigger] m.bndata_providers@[i]).0 == module
}

/// Whether `ty` is a `BNData` DataFrame, which lowers as a runtime handle.
#[verifier::loop_isolation(false)]
pub fn is_bndata_dataframe_type(module: &Module, ty: &Type) -> (r: bool)
    ensures
        r == dataframe_type(*module, ty@),
{
    proof {
    }
    let (id, name) = match ty {
        Type::ImportedNamed { module, name } => (module.0, name),
        _ => return false,
    };
    if !chars_are(&chars_of(name.as_str()), chars_of("DataFrame").as_slice()) {
        return false;
    }
    let mut i: usize = 0;
    while i < module.bndata_providers.len()
        invariant
            0 <= i <= module.bndata_providers@.len(),
            forall|j: int| 0 <= j < i ==> (#[trigger] module.bndata_providers@[j]).0 != id,
        decreases module.bndata_providers@.len() - i,
    {
        if module.bndata_providers[i].0 == id {
            assert((module.bndata_providers@[i as int]).0 == id);
            return true;
        }
        i += 1;
    }
    false
}

/// The text that turns the status code of `BNLog` call `call` into a
/// `VOID OR Error` value: status 0 is success, any other is an error whose
/// code is the status.
pub open spec fn bnlog_status_text(d: Seq<char>, call: Seq<char>) -> Seq<char> {
    line(seq!["  %logrc"@, d, " = "@, call])
    + line(seq!["  %logerr"@, d, " = icmp ne i32 %logrc"@, d, ", 0"@])
    + line(seq!["  %logmsg"@, d, " = select i1 %logerr"@, d, ", ptr @.bn_log_error, ptr null"@])
    + line(seq!["  %logcode"@, d, " = sext i32 %logrc"@, d, " to i64"@])
    + line(seq!["  %logagg0_"@, d, " = insertvalue { i1, ptr, i64 } undef, i1 %logerr"@, d, ", 0"@])
    + line(seq!["  %logagg1_"@, d, " = insertvalue { i1, ptr, i64 } %logagg0_"@, d, ", ptr %logmsg"@, d, ", 1"@])
    + line(seq!["  %v"@, d, " = insertvalue { i1, ptr, i64 } %logagg1_"@, d, ", i64 %logcode"@, d, ", 2"@])
}

/// Emits `BNLog` call `call` and its `VOID OR Error` result `%v<destination>`.
pub fn lower_bnlog_status(text: &mut String, destination: ValueId, call: &str)
    ensures
        final(text)@ == old(text)@ + bnlog_status_text(decimal(destination.0 as nat), call@),
{
    let ds = decimal_string(destination.0 as u128);
    let d = ds.as_str();
    let ghost start = text@;
    let parts = ["  %logrc", d, " = ", call];
    push_line(text, &parts);
    assert(pieces(parts@) =~= seq!["  %logrc"@, d@, " = "@, call@]);
    let parts = ["  %logerr", d, " = icmp ne i32 %logrc", d, ", 0"];
    push_line(text, &parts);
    assert(pieces(parts@) =~= seq!["  %logerr"@, d@, " = icmp ne i32 %logrc"@, d@, ", 0"@]);
    let parts = ["  %logmsg", d, " = select i1 %logerr", d, ", ptr @.bn_log_error, ptr null"];
    push_line(text, &parts);
    assert(pieces(parts@) =~= seq!["  %logmsg"@, d@, " = select i1 %logerr"@, d@, ", ptr @.bn_log_error, ptr null"@]);
    let parts = ["  %logcode", d, " = sext i32 %logrc", d, " to i64"];
    push_line(text, &parts);
    assert(pieces(parts@) =~= seq!["  %logcode"@, d@, " = sext i32 %logrc"@, d@, " to i64"@]);
    let parts = ["  %logagg0_", d, " = insertvalue { i1, ptr, i64 } undef, i1 %logerr", d, ", 0"];
    push_line(text, &parts);
    assert(pieces(parts@) =~= seq!["  %logagg0_"@, d@, " = insertvalue { i1, ptr, i64 } undef, i1 %logerr"@, d@, ", 0"@]);
    let parts = ["  %logagg1_", d, " = insertvalue { i1, ptr, i64 } %logagg0_", d, ", ptr %logmsg", d, ", 1"];
    push_line(text, &parts);
    assert(pieces(parts@) =~= seq!["  %logagg1_"@, d@, " = insertvalue { i1, ptr, i64 } %logagg0_"@, d@, ", ptr %logmsg"@, d@, ", 1"@]);
    let parts = ["  %v", d, " = insertvalue { i1, ptr, i64 } %logagg1_", d, ", i64 %logcode", d, ", 2"];
    push_line(text, &parts);
    assert(pieces(parts@) =~= seq!["  %v"@, d@, " = insertvalue { i1, ptr, i64 } %logagg1_"@, d@, ", i64 %logcode"@, d@, ", 2"@]);
    assert(text@ =~= start + bnlog_status_text(d@, call@));
}

/// The bounds-checked store of `value` at `index` of the fat vector
/// `fat`: a negative or too large index traps, otherwise the store happens
/// in the new block `ok`.
pub open spec fn fat_pointer_store_text(
    t: Seq<char>,
    fat: Seq<char>,
    index: Seq<char>,
    value: Seq<char>,
    elem: Seq<char>,
    ok: Seq<char>,
) -> Seq<char> {
    line(seq!["  %setptr"@, t, " = extractvalue { ptr, i32 } "@, fat, ", 0"@])
    + line(seq!["  %setlen"@, t, " = extractvalue { ptr, i32 } "@, fat, ", 1"@])
    + line(seq!["  %setneg"@, t, " = icmp slt i32 "@, index, ", 0"@])
    + line(seq!["  %setoob"@, t, " = icmp uge i32 "@, index, ", %setlen"@, t])
    + line(seq!["  %setbad"@, t, " = or i1 %setneg"@, t, ", %setoob"@, t])
    + line(seq!["  br i1 %setbad"@, t, ", label %trap_numeric_overflow, label %"@, ok])
    + line(seq![ok, ":"@])
    + line(seq!["  %setslot"@, t, " = getelementptr "@, elem, ", ptr %setptr"@, t, ", i32 "@, index])
    + line(seq!["  store "@, elem, " "@, value, ", ptr %setslot"@, t])
}

/// Emits the bounds-checked store of `value` (of LLVM type `llvm_elem`) at
/// `index` of the fat vector `fat_pointer`, continuing in block `continuation`.
pub fn emit_fat_pointer_store(
    text: &mut String,
    _block_id: BlockId,
    tag: usize,
    fat_pointer: &str,
    index: &str,
    value: &str,
    llvm_elem: &str,
    continuation: String,
    state: &mut EmissionState,
)
    ensures
        final(text)@ == old(text)@ + fat_pointer_store_text(
            decimal(tag as nat),
            fat_pointer@,
            index@,
            value@,
            llvm_elem@,
            continuation@,
        ),
        final(state).needs_numeric_overflow_trap,
        final(state).control_flow.current() == continuation@,
        final(state).control_flow.exit_labels() == old(state).control_flow.exit_labels(),
        final(state).control_flow.pending() == old(state).control_flow.pending(),
        final(state).continuation_count == old(state).continuation_count,
        final(state).print_count == old(state).print_count,
{
    let ts = decimal_string(tag as u128);
    let t = ts.as_str();
    let ghost start = text@;
    let ghost ok = continuation@;
    let parts = ["  %setptr", t, " = extractvalue { ptr, i32 } ", fat_pointer, ", 0"];
    push_line(text, &parts);
    assert(pieces(parts@) =~= seq!["  %setptr"@, t@, " = extractvalue { ptr, i32 } "@, fat_pointer@, ", 0"@]);
    let parts = ["  %setlen", t, " = extractvalue { ptr, i32 } ", fat_pointer, ", 1"];
    push_line(text, &parts);
    assert(pieces(parts@) =~= seq!["  %setlen"@, t@, " = extractvalue { ptr, i32 } "@, fat_pointer@, ", 1"@]);
    let parts = ["  %setneg", t, " = icmp slt i32 ", index, ", 0"];
    push_line(text, &parts);
    assert(pieces(parts@) =~= seq!["  %setneg"@, t@, " = icmp slt i32 "@, index@, ", 0"@]);
    let parts = ["  %setoob", t, " = icmp uge i32 ", index, ", %setlen", t];
    push_line(text, &parts);
    assert(pieces(parts@) =~= seq!["  %setoob"@, t@, " = icmp uge i32 "@, index@, ", %setlen"@, t@]);
    let parts = ["  %setbad", t, " = or i1 %setneg", t, ", %setoob", t];
    push_line(text, &parts);
    assert(pieces(parts@) =~= seq!["  %setbad"@, t@, " = or i1 %setneg"@, t@, ", %setoob"@, t@]);
    let parts = ["  br i1 %setbad", t, ", label %trap_numeric_overflow, label %", continuation.as_str()];
    push_line(text, &parts);
    assert(pieces(parts@) =~= seq!["  br i1 %setbad"@, t@, ", label %trap_numeric_overflow, label %"@, continuation@]);
    state.control_flow.label(text, continuation);
    let parts = ["  %setslot", t, " = getelementptr ", llvm_elem, ", ptr %setptr", t, ", i32 ", index];
    push_line(text, &parts);
    assert(pieces(parts@) =~= seq!["  %setslot"@, t@, " = getelementptr "@, llvm_elem@, ", ptr %setptr"@, t@, ", i32 "@, index@]);
    let parts = ["  store ", llvm_elem, " ", value, ", ptr %setslot", t];
    push_line(text, &parts);
    assert(pieces(parts@) =~= seq!["  store "@, llvm_elem@, " "@, value@, ", ptr %setslot"@, t@]);
    state.needs_numeric_overflow_trap = true;
    assert(text@ =~= start + fat_pointer_store_text(t@, fat_pointer@, index@, value@, llvm_elem@, ok));
}

/// The index operand of a vector access by value `%v<v>` of type `t`, and
/// the conversion to `i32` emitted for it.
pub open spec fn i32_index(v: u32, t: TypeV) -> (Seq<char>, Seq<char>) {
    let dv = decimal(v as nat);
    match spec_llvm_type(t) {
        Some(LlvmType::I32) => (Seq::empty(), "%v"@ + dv),
        Some(LlvmType::I64) => (
            line(seq!["  %stridx"@, dv, " = trunc i64 %v"@, dv, " to i32"@]),
            "%stridx"@ + dv,
        ),
        Some(l) => (
            line(
                seq![
                    "  %stridx"@,
                    dv,
                    " = "@,
                    if is_unsigned(t) { "zext"@ } else { "sext"@ },
                    " "@,
                    llvm_text(l),
                    " %v"@,
                    dv,
                    " to i32"@,
                ],
            ),
            "%stridx"@ + dv,
        ),
        None => (Seq::empty(), Seq::empty()),
    }
}

/// Emits what converts index `%v<value>` of type `ty` to `i32` and returns
/// the operand that holds it.
pub fn extend_to_i32_index(text: &mut String, value: ValueId, ty: &Type) -> (r: String)
    requires
        spec_llvm_type(ty@) is Some,
    ensures
        final(text)@ == old(text)@ + i32_index(value.0, ty@).0,
        r@ == i32_index(value.0, ty@).1,
{
    let vs = decimal_string(value.0 as u128);
    let v = vs.as_str();
    let l = match llvm_type(ty) {
        Some(l) => l,
        None => return String::new(),
    };
    let mut operand = String::new();
    match l {
        LlvmType::I32 => {
            push_str(&mut operand, "%v");
            push_str(&mut operand, v);
            assert(old(text)@ + Seq::<char>::empty() =~= old(text)@);
        },
        LlvmType::I64 => {
            let parts = ["  %stridx", v, " = trunc i64 %v", v, " to i32"];
            push_line(text, &parts);
            assert(pieces(parts@) =~= seq!["  %stridx"@, v@, " = trunc i64 %v"@, v@, " to i32"@]);
            push_str(&mut operand, "%stridx");
            push_str(&mut operand, v);
        },
        _ => {
            let opcode = if is_unsigned_exec(ty) { "zext" } else { "sext" };
            let lt = l.text();
            let parts = ["  %stridx", v, " = ", opcode, " ", lt.as_str(), " %v", v, " to i32"];
            push_line(text, &parts);
            assert(pieces(parts@) =~= seq!["  %stridx"@, v@, " = "@, opcode@, " "@, lt@, " %v"@, v@, " to i32"@]);
            push_str(&mut operand, "%stridx");
            push_str(&mut operand, v);
        },
    }
    operand
}

// Objects

/// Emits `%v<destination>`, the field at byte `field_offset` of object
/// `%v<object>`, loaded as the LLVM type of `field_ty`.
pub fn emit_member(text: &mut String, destination: ValueId, object: ValueId, field_offset: u32, field_ty: &Type)
    requires
        spec_llvm_type(field_ty@) is Some,
    ensures
        final(text)@ == old(text)@ + line(
            seq![
                "  %mbrptr"@,
                decimal(destination.0 as nat),
                " = getelementptr i8, ptr %v"@,
                decimal(object.0 as nat),
                ", i32 "@,
                decimal(field_offset as nat),
            ],
        ) + line(
            seq![
                "  %v"@,
                decimal(destination.0 as nat),
                " = load "@,
                llvm_text(spec_llvm_type(field_ty@).unwrap()),
                ", ptr %mbrptr"@,
                decimal(destination.0 as nat),
            ],
        ),
{
    let l = match llvm_type(field_ty) {
        Some(l) => l.text(),
        None => return,
    };
    let ds = decimal_string(destination.0 as u128);
    let os = decimal_string(object.0 as u128);
    let fs = decimal_string(field_offset as u128);
    let d = ds.as_str();
    let parts = ["  %mbrptr", d, " = getelementptr i8, ptr %v", os.as_str(), ", i32 ", fs.as_str()];
    push_line(text, &parts);
    assert(pieces(parts@) =~= seq!["  %mbrptr"@, d@, " = getelementptr i8, ptr %v"@, os@, ", i32 "@, fs@]);
    let parts = ["  %v", d, " = load ", l.as_str(), ", ptr %mbrptr", d];
    push_line(text, &parts);
    assert(pieces(parts@) =~= seq!["  %v"@, d@, " = load "@, l@, ", ptr %mbrptr"@, d@]);
}

/// Emits the store of class descriptor `class_global` into the header of
/// object `%v<object>`.
pub fn emit_store_object_class(text: &mut String, object: ValueId, class_global: &str)
    ensures
        final(text)@ == old(text)@ + line(seq!["  store ptr "@, class_global@, ", ptr %v"@, decimal(object.0 as nat)]),
{
    let os = decimal_string(object.0 as u128);
    let parts = ["  store ptr ", class_global, ", ptr %v", os.as_str()];
    push_line(text, &parts);
    assert(pieces(parts@) =~= seq!["  store ptr "@, class_global@, ", ptr %v"@, os@]);
}

/// The frees of the buffers of the vector fields of object `%v<v>` at the
/// given byte offsets, numbered in order.
pub open spec fn field_frees_text(v: Seq<char>, offsets: Seq<u32>) -> Seq<char>
    decreases offsets.len(),
{
    if offsets.len() == 0 {
        Seq::empty()
    } else {
        let i = decimal((offsets.len() - 1) as nat);
        let o = decimal(offsets.last() as nat);
        field_frees_text(v, offsets.drop_last())
        + line(seq!["  %delfieldptr"@, v, "_"@, i, " = getelementptr i8, ptr %v"@, v, ", i32 "@, o])
        + line(seq!["  %delfield"@, v, "_"@, i, " = load { ptr, i32 }, ptr %delfieldptr"@, v, "_"@, i])
        + line(seq!["  %delfielddata"@, v, "_"@, i, " = extractvalue { ptr, i32 } %delfield"@, v, "_"@, i, ", 0"@])
        + line(seq!["  call void @free(ptr %delfielddata"@, v, "_"@, i, ")"@])
    }
}

/// The class whose layout a deleted object of type `t` has.
pub open spec fn deleted_owner(t: TypeV) -> Option<Seq<char>> {
    match t {
        TypeV::Named(n) => Some(n),
        TypeV::ImportedNamed { name, .. } => Some(name),
        _ => None,
    }
}

/// `DELETE` of `%v<v>` of type `t`: a vector frees its buffer; an object
/// frees the buffers of its vector fields, then itself.
pub open spec fn delete_text(m: Module, v: Seq<char>, t: TypeV) -> Seq<char> {
    let free_value = line(seq!["  call void @free(ptr %v"@, v, ")"@]);
    match spec_llvm_type(t) {
        Some(LlvmType::PtrI32) => line(seq!["  %delptr"@, v, " = extractvalue { ptr, i32 } %v"@, v, ", 0"@])
            + line(seq!["  call void @free(ptr %delptr"@, v, ")"@]),
        Some(LlvmType::Ptr) => match deleted_owner(t) {
            Some(owner) => field_frees_text(
                v,
                vector_offsets(layout_entries(m, owner), layout_entries(m, owner).len()),
            ) + free_value,
            None => free_value,
        },
        _ => free_value,
    }
}

/// Emits the frees of the vector fields at `offsets`.
fn emit_field_frees(text: &mut String, v: &str, offsets: &Vec<u32>)
    ensures
        final(text)@ == old(text)@ + field_frees_text(v@, offsets@),
{
    let ghost start = text@;
    let mut index: usize = 0;
    while index < offsets.len()
        invariant
            0 <= index <= offsets@.len(),
            text@ == start + field_frees_text(v@, offsets@.take(index as int)),
        decreases offsets@.len() - index,
    {
        let is = decimal_string(index as u128);
        let os = decimal_string(offsets[index] as u128);
        let i = is.as_str();
        let ghost before = text@;
        let parts = ["  %delfieldptr", v, "_", i, " = getelementptr i8, ptr %v", v, ", i32 ", os.as_str()];
        push_line(text, &parts);
        assert(pieces(parts@) =~= seq!["  %delfieldptr"@, v@, "_"@, i@, " = getelementptr i8, ptr %v"@, v@, ", i32 "@, os@]);
        let parts = ["  %delfield", v, "_", i, " = load { ptr, i32 }, ptr %delfieldptr", v, "_", i];
        push_line(text, &parts);
        assert(pieces(parts@) =~= seq!["  %delfield"@, v@, "_"@, i@, " = load { ptr, i32 }, ptr %delfieldptr"@, v@, "_"@, i@]);
        let parts = ["  %delfielddata", v, "_", i, " = extractvalue { ptr, i32 } %delfield", v, "_", i, ", 0"];
        push_line(text, &parts);
        assert(pieces(parts@) =~= seq!["  %delfielddata"@, v@, "_"@, i@, " = extractvalue { ptr, i32 } %delfield"@, v@, "_"@, i@, ", 0"@]);
        let parts = ["  call void @free(ptr %delfielddata", v, "_", i, ")"];
        push_line(text, &parts);
        assert(pieces(parts@) =~= seq!["  call void @free(ptr %delfielddata"@, v@, "_"@, i@, ")"@]);
        proof {
            let taken = offsets@.take(index + 1);
            assert(taken.drop_last() =~= offsets@.take(index as int));
            assert(taken.last() == offsets@[index as int]);
            assert(text@ =~= start + field_frees_text(v@, taken));
        }
        index += 1;
    }
    assert(offsets@.take(offsets@.len() as int) =~= offsets@);
}

/// Emits `DELETE` of `%v<value>` of type `ty`.
pub fn emit_delete(text: &mut String, module: &Module, value: ValueId, ty: &Type)
    requires
        module.wf(),
        spec_llvm_type(ty@) == Some(LlvmType::Ptr) && deleted_owner(ty@) is Some ==> vector_prefix_storable(
            layout_entries(*module, deleted_owner(ty@).unwrap()),
        ),
    ensures
        final(text)@ == old(text)@ + delete_text(*module, decimal(value.0 as nat), ty@),
{
    let vs = decimal_string(value.0 as u128);
    let v = vs.as_str();
    let ghost start = text@;
    match llvm_type(ty) {
        Some(LlvmType::PtrI32) => {
            let parts = ["  %delptr", v, " = extractvalue { ptr, i32 } %v", v, ", 0"];
            push_line(text, &parts);
            assert(pieces(parts@) =~= seq!["  %delptr"@, v@, " = extractvalue { ptr, i32 } %v"@, v@, ", 0"@]);
            let parts = ["  call void @free(ptr %delptr", v, ")"];
            push_line(text, &parts);
            assert(pieces(parts@) =~= seq!["  call void @free(ptr %delptr"@, v@, ")"@]);
            assert(text@ =~= start + delete_text(*module, v@, ty@));
        },
        Some(LlvmType::Ptr) => {
            let owner: Option<&String> = match ty {
                Type::Named(name) => Some(name),
                Type::ImportedNamed { name, .. } => Some(name),
                _ => None,
            };
            if let Some(owner) = owner {
                let offsets = vector_field_offsets(module, owner.as_str());
                emit_field_frees(text, v, &offsets);
            }
            let ghost middle = text@;
            let parts = ["  call void @free(ptr %v", v, ")"];
            push_line(text, &parts);
            assert(pieces(parts@) =~= seq!["  call void @free(ptr %v"@, v@, ")"@]);
            assert(text@ =~= start + delete_text(*module, v@, ty@));
        },
        _ => {
            let parts = ["  call void @free(ptr %v", v, ")"];
            push_line(text, &parts);
            assert(pieces(parts@) =~= seq!["  call void @free(ptr %v"@, v@, ")"@]);
        },
    }
}

// Dispatch results

/// The call of a dispatch trampoline, the check that it succeeded (status
/// 0) with a result of kind `kind`, and the address of the result's payload.
pub open spec fn dispatch_check_text(d: Seq<char>, call: Seq<char>, kind: Seq<char>) -> Seq<char> {
    line(seq!["  %dispatchrc"@, d, " = "@, call])
    + line(seq!["  %dispatchkind"@, d, " = load i32, ptr %dispatchresult"@, d])
    + line(seq!["  %dispatchok"@, d, " = icmp eq i32 %dispatchkind"@, d, ", "@, kind])
    + line(seq!["  %dispatchrcok"@, d, " = icmp eq i32 %dispatchrc"@, d, ", 0"@])
    + line(seq!["  %dispatchgood"@, d, " = and i1 %dispatchok"@, d, ", %dispatchrcok"@, d])
    + line(seq!["  %dispatchpayload"@, d, " = getelementptr i8, ptr %dispatchresult"@, d, ", i64 8"@])
}

fn emit_dispatch_check(text: &mut String, d: &str, call: &str, kind: &str)
    ensures
        final(text)@ == old(text)@ + dispatch_check_text(d@, call@, kind@),
{
    let ghost start = text@;
    let parts = ["  %dispatchrc", d, " = ", call];
    push_line(text, &parts);
    assert(pieces(parts@) =~= seq!["  %dispatchrc"@, d@, " = "@, call@]);
    let parts = ["  %dispatchkind", d, " = load i32, ptr %dispatchresult", d];
    push_line(text, &parts);
    assert(pieces(parts@) =~= seq!["  %dispatchkind"@, d@, " = load i32, ptr %dispatchresult"@, d@]);
    let parts = ["  %dispatchok", d, " = icmp eq i32 %dispatchkind", d, ", ", kind];
    push_line(text, &parts);
    assert(pieces(parts@) =~= seq!["  %dispatchok"@, d@, " = icmp eq i32 %dispatchkind"@, d@, ", "@, kind@]);
    let parts = ["  %dispatchrcok", d, " = icmp eq i32 %dispatchrc", d, ", 0"];
    push_line(text, &parts);
    assert(pieces(parts@) =~= seq!["  %dispatchrcok"@, d@, " = icmp eq i32 %dispatchrc"@, d@, ", 0"@]);
    let parts = ["  %dispatchgood", d, " = and i1 %dispatchok", d, ", %dispatchrcok", d];
    push_line(text, &parts);
    assert(pieces(parts@) =~= seq!["  %dispatchgood"@, d@, " = and i1 %dispatchok"@, d@, ", %dispatchrcok"@, d@]);
    let parts = ["  %dispatchpayload", d, " = getelementptr i8, ptr %dispatchresult", d, ", i64 8"];
    push_line(text, &parts);
    assert(pieces(parts@) =~= seq!["  %dispatchpayload"@, d@, " = getelementptr i8, ptr %dispatchresult"@, d@, ", i64 8"@]);
    assert(text@ =~= start + dispatch_check_text(d@, call@, kind@));
}

/// The error flag of a dispatch result, stored as the first field of the
/// `{ i1, ptr, i64 }` value.
pub open spec fn dispatch_error_text(d: Seq<char>) -> Seq<char> {
    line(seq!["  %dispatcherrorflag"@, d, " = xor i1 %dispatchgood"@, d, ", true"@])
    + line(seq!["  %dispatchagg0"@, d, " = insertvalue { i1, ptr, i64 } undef, i1 %dispatcherrorflag"@, d, ", 0"@])
}

fn emit_dispatch_error(text: &mut String, d: &str)
    ensures
        final(text)@ == old(text)@ + dispatch_error_text(d@),
{
    let ghost start = text@;
    let parts = ["  %dispatcherrorflag", d, " = xor i1 %dispatchgood", d, ", true"];
    push_line(text, &parts);
    assert(pieces(parts@) =~= seq!["  %dispatcherrorflag"@, d@, " = xor i1 %dispatchgood"@, d@, ", true"@]);
    let parts = ["  %dispatchagg0", d, " = insertvalue { i1, ptr, i64 } undef, i1 %dispatcherrorflag", d, ", 0"];
    push_line(text, &parts);
    assert(pieces(parts@) =~= seq!["  %dispatchagg0"@, d@, " = insertvalue { i1, ptr, i64 } undef, i1 %dispatcherrorflag"@, d@, ", 0"@]);
    assert(text@ =~= start + dispatch_error_text(d@));
}

/// The text that turns a dispatch call's result record into an `INTEGER OR Error`.
pub open spec fn integer_dispatch_text(d: Seq<char>, call: Seq<char>) -> Seq<char> {
    dispatch_check_text(d, call, "2"@)
    + line(seq!["  %dispatchvalue"@, d, " = load i64, ptr %dispatchpayload"@, d])
    + dispatch_error_text(d)
    + line(seq!["  %dispatchagg1"@, d, " = insertvalue { i1, ptr, i64 } %dispatchagg0"@, d, ", ptr null, 1"@])
    + line(seq!["  %v"@, d, " = insertvalue { i1, ptr, i64 } %dispatchagg1"@, d, ", i64 %dispatchvalue"@, d, ", 2"@])
}

/// Emits the code that checks the result record of dispatch call `call`
/// and builds an `INTEGER OR Error` value `%v<destination>` from it.
pub fn emit_integer_dispatch_result(text: &mut String, destination: ValueId, call: &str)
    ensures
        final(text)@ == old(text)@ + integer_dispatch_text(decimal(destination.0 as nat), call@),
{
    let ds = decimal_string(destination.0 as u128);
    let d = ds.as_str();
    let ghost start = text@;
    emit_dispatch_check(text, d, call, "2");
    let parts = ["  %dispatchvalue", d, " = load i64, ptr %dispatchpayload", d];
    push_line(text, &parts);
    assert(pieces(parts@) =~= seq!["  %dispatchvalue"@, d@, " = load i64, ptr %dispatchpayload"@, d@]);
    emit_dispatch_error(text, d);
    let parts = ["  %dispatchagg1", d, " = insertvalue { i1, ptr, i64 } %dispatchagg0", d, ", ptr null, 1"];
    push_line(text, &parts);
    assert(pieces(parts@) =~= seq!["  %dispatchagg1"@, d@, " = insertvalue { i1, ptr, i64 } %dispatchagg0"@, d@, ", ptr null, 1"@]);
    let parts = ["  %v", d, " = insertvalue { i1, ptr, i64 } %dispatchagg1", d, ", i64 %dispatchvalue", d, ", 2"];
    push_line(text, &parts);
    assert(pieces(parts@) =~= seq!["  %v"@, d@, " = insertvalue { i1, ptr, i64 } %dispatchagg1"@, d@, ", i64 %dispatchvalue"@, d@, ", 2"@]);
    assert(text@ =~= start + integer_dispatch_text(d@, call@));
}

/// The text that turns a dispatch call's result record into a `FLOAT OR Error`, carrying the payload's bits,.
pub open spec fn float_dispatch_text(d: Seq<char>, call: Seq<char>) -> Seq<char> {
    dispatch_check_text(d, call, "3"@)
    + line(seq!["  %dispatchvalue"@, d, " = load double, ptr %dispatchpayload"@, d])
    + line(seq!["  %dispatchbits"@, d, " = bitcast double %dispatchvalue"@, d, " to i64"@])
    + dispatch_error_text(d)
    + line(seq!["  %dispatchagg1"@, d, " = insertvalue { i1, ptr, i64 } %dispatchagg0"@, d, ", ptr null, 1"@])
    + line(seq!["  %v"@, d, " = insertvalue { i1, ptr, i64 } %dispatchagg1"@, d, ", i64 %dispatchbits"@, d, ", 2"@])
}

/// Emits the code that checks the result record of dispatch call `call`
/// and builds a `FLOAT OR Error`, carrying the payload's bits, value `%v<destination>` from it.
pub fn emit_float_dispatch_result(text: &mut String, destination: ValueId, call: &str)
    ensures
        final(text)@ == old(text)@ + float_dispatch_text(decimal(destination.0 as nat), call@),
{
    let ds = decimal_string(destination.0 as u128);
    let d = ds.as_str();
    let ghost start = text@;
    emit_dispatch_check(text, d, call, "3");
    let parts = ["  %dispatchvalue", d, " = load double, ptr %dispatchpayload", d];
    push_line(text, &parts);
    assert(pieces(parts@) =~= seq!["  %dispatchvalue"@, d@, " = load double, ptr %dispatchpayload"@, d@]);
    let parts = ["  %dispatchbits", d, " = bitcast double %dispatchvalue", d, " to i64"];
    push_line(text, &parts);
    assert(pieces(parts@) =~= seq!["  %dispatchbits"@, d@, " = bitcast double %dispatchvalue"@, d@, " to i64"@]);
    emit_dispatch_error(text, d);
    let parts = ["  %dispatchagg1", d, " = insertvalue { i1, ptr, i64 } %dispatchagg0", d, ", ptr null, 1"];
    push_line(text, &parts);
    assert(pieces(parts@) =~= seq!["  %dispatchagg1"@, d@, " = insertvalue { i1, ptr, i64 } %dispatchagg0"@, d@, ", ptr null, 1"@]);
    let parts = ["  %v", d, " = insertvalue { i1, ptr, i64 } %dispatchagg1", d, ", i64 %dispatchbits", d, ", 2"];
    push_line(text, &parts);
    assert(pieces(parts@) =~= seq!["  %v"@, d@, " = insertvalue { i1, ptr, i64 } %dispatchagg1"@, d@, ", i64 %dispatchbits"@, d@, ", 2"@]);
    assert(text@ =~= start + float_dispatch_text(d@, call@));
}

/// The text that turns a dispatch call's result record into a `STRING OR Error`.
pub open spec fn string_dispatch_text(d: Seq<char>, call: Seq<char>) -> Seq<char> {
    dispatch_check_text(d, call, "4"@)
    + line(seq!["  %dispatchvalue"@, d, " = load ptr, ptr %dispatchpayload"@, d])
    + dispatch_error_text(d)
    + line(seq!["  %v"@, d, " = insertvalue { i1, ptr, i64 } %dispatchagg0"@, d, ", ptr %dispatchvalue"@, d, ", 1"@])
}

/// Emits the code that checks the result record of dispatch call `call`
/// and builds a `STRING OR Error` value `%v<destination>` from it.
pub fn emit_string_dispatch_result(text: &mut String, destination: ValueId, call: &str)
    ensures
        final(text)@ == old(text)@ + string_dispatch_text(decimal(destination.0 as nat), call@),
{
    let ds = decimal_string(destination.0 as u128);
    let d = ds.as_str();
    let ghost start = text@;
    emit_dispatch_check(text, d, call, "4");
    let parts = ["  %dispatchvalue", d, " = load ptr, ptr %dispatchpayload", d];
    push_line(text, &parts);
    assert(pieces(parts@) =~= seq!["  %dispatchvalue"@, d@, " = load ptr, ptr %dispatchpayload"@, d@]);
    emit_dispatch_error(text, d);
    let parts = ["  %v", d, " = insertvalue { i1, ptr, i64 } %dispatchagg0", d, ", ptr %dispatchvalue", d, ", 1"];
    push_line(text, &parts);
    assert(pieces(parts@) =~= seq!["  %v"@, d@, " = insertvalue { i1, ptr, i64 } %dispatchagg0"@, d@, ", ptr %dispatchvalue"@, d@, ", 1"@]);
    assert(text@ =~= start + string_dispatch_text(d@, call@));
}

/// The text that turns a dispatch call's result record into a `BOOLEAN OR Error`.
pub open spec fn boolean_dispatch_text(d: Seq<char>, call: Seq<char>) -> Seq<char> {
    dispatch_check_text(d, call, "1"@)
    + line(seq!["  %dispatchvalue"@, d, " = load i64, ptr %dispatchpayload"@, d])
    + dispatch_error_text(d)
    + line(seq!["  %dispatchagg1"@, d, " = insertvalue { i1, ptr, i64 } %dispatchagg0"@, d, ", ptr null, 1"@])
    + line(seq!["  %v"@, d, " = insertvalue { i1, ptr, i64 } %dispatchagg1"@, d, ", i64 %dispatchvalue"@, d, ", 2"@])
}

/// Emits the code that checks the result record of dispatch call `call`
/// and builds a `BOOLEAN OR Error` value `%v<destination>` from it.
pub fn emit_boolean_dispatch_result(text: &mut String, destination: ValueId, call: &str)
    ensures
        final(text)@ == old(text)@ + boolean_dispatch_text(decimal(destination.0 as nat), call@),
{
    let ds = decimal_string(destination.0 as u128);
    let d = ds.as_str();
    let ghost start = text@;
    emit_dispatch_check(text, d, call, "1");
    let parts = ["  %dispatchvalue", d, " = load i64, ptr %dispatchpayload", d];
    push_line(text, &parts);
    assert(pieces(parts@) =~= seq!["  %dispatchvalue"@, d@, " = load i64, ptr %dispatchpayload"@, d@]);
    emit_dispatch_error(text, d);
    let parts = ["  %dispatchagg1", d, " = insertvalue { i1, ptr, i64 } %dispatchagg0", d, ", ptr null, 1"];
    push_line(text, &parts);
    assert(pieces(parts@) =~= seq!["  %dispatchagg1"@, d@, " = insertvalue { i1, ptr, i64 } %dispatchagg0"@, d@, ", ptr null, 1"@]);
    let parts = ["  %v", d, " = insertvalue { i1, ptr, i64 } %dispatchagg1", d, ", i64 %dispatchvalue", d, ", 2"];
    push_line(text, &parts);
    assert(pieces(parts@) =~= seq!["  %v"@, d@, " = insertvalue { i1, ptr, i64 } %dispatchagg1"@, d@, ", i64 %dispatchvalue"@, d@, ", 2"@]);
    assert(text@ =~= start + boolean_dispatch_text(d@, call@));
}

} // verus!
