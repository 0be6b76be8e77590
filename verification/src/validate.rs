//! Whole-module IR validation: function kinds, block structure, unique value
//! definitions, definite assignment along every executable path, Phi edges,
//! per-instruction types and terminators.
use vstd::prelude::*;
use crate::cfg::{
    edge, reachable_blocks, reach_avoiding, reachable, reaches_avoiding, block_successors,
    successors, successors_in_bounds,
};
use crate::checks::{
    defs_view, instruction_type_error, is_integer_opt, instruction_types_valid, lookup_type,
    validate_instruction_types,
};
use crate::fields::{field_layouts_error, field_layouts_valid, validate_field_layouts};
use crate::hierarchy::{bases_acyclic, class_bases_error, class_bases_valid, validate_class_bases};
use crate::instructions::{
    block_defs, defined_type, defined_type_ref, find_type, instruction_defines, instruction_defs,
    instruction_uses, spec_instruction_defines, spec_instruction_uses,
};
use crate::model::{
    BasicBlock, BlockId, Function, FunctionKind, Instruction, Module, Terminator, ValueId, spec_span,
};
use crate::text::{decimal, push_decimal, push_str};
use crate::source::{Diagnostic, Span, invalid_ir, invalid_ir_code, spec_unknown_span, unknown_span};
use crate::types::{IntegerType, Type, TypeV};
use crate::typing::{is_void_type, is_void_type_exec, types_compatible, types_compatible_exec};

verus! {

// ---------------------------------------------------------------------------
// Function kinds

/// The structural rule of one function's kind.
pub open spec fn kind_valid(f: Function) -> bool {
    match f.kind {
        FunctionKind::Entry => f.parameters@.len() == 0,
        FunctionKind::Constructor => f.owner is Some && f.parameters@.len() > 0,
        FunctionKind::FieldInit => f.owner is Some && f.parameters@.len() > 0,
        FunctionKind::Destructor => f.owner is Some && f.parameters@.len() > 0 && is_void_type(
            f.return_type@,
        ),
        FunctionKind::Init => f.owner is Some,
        FunctionKind::Default => f.owner is Some && f.parameters@.len() == 0,
        FunctionKind::User => true,
    }
}

/// Every function follows its kind's rule and at most one is the entry.
pub open spec fn function_kinds_valid(m: Module) -> bool {
    &&& forall|i: int| 0 <= i < m.functions@.len() ==> kind_valid(#[trigger] m.functions@[i])
    &&& forall|i: int, j: int|
        0 <= i < j < m.functions@.len() ==> !((#[trigger] m.functions@[i]).kind is Entry && (
        #[trigger] m.functions@[j]).kind is Entry)
}

/// The message for a function that breaks its kind's rule, the rules being
/// tried in order; `entry_seen` tells whether an earlier function is the entry.
pub open spec fn kind_error(f: Function, entry_seen: bool) -> Option<Seq<char>> {
    match f.kind {
        FunctionKind::Entry => if entry_seen {
            Some("module declares more than one entry function"@)
        } else if f.parameters@.len() != 0 {
            Some("entry function must not take parameters"@)
        } else {
            None
        },
        FunctionKind::Constructor | FunctionKind::Destructor | FunctionKind::FieldInit
        | FunctionKind::Init => if f.owner is None {
            Some("constructor, destructor, field-init and init functions need an owner class"@)
        } else if !(f.kind is Init) && f.parameters@.len() == 0 {
            Some("constructor, destructor and field-init functions take SELF first"@)
        } else if f.kind is Destructor && !is_void_type(f.return_type@) {
            Some("destructor must return VOID"@)
        } else {
            None
        },
        FunctionKind::Default => if f.owner is None {
            Some("default constructor needs an owner struct"@)
        } else if f.parameters@.len() != 0 {
            Some("default constructor must not take parameters"@)
        } else {
            None
        },
        FunctionKind::User => None,
    }
}

/// The first kind error among `fs`, with the span of the function that has it.
pub open spec fn first_kind_error(fs: Seq<Function>, entry_seen: bool) -> Option<(Seq<char>, Span)>
    decreases fs.len(),
{
    if fs.len() == 0 {
        None
    } else {
        match kind_error(fs[0], entry_seen) {
            Some(message) => Some((message, fs[0].span)),
            None => first_kind_error(fs.drop_first(), entry_seen || fs[0].kind is Entry),
        }
    }
}

// ---------------------------------------------------------------------------
// Block structure and value definitions

/// Blocks are numbered densely from zero, the entry exists and every
/// successor names a block.
pub open spec fn structure_valid(f: Function) -> bool {
    &&& f.blocks@.len() <= u32::MAX
    &&& f.entry.0 < f.blocks@.len()
    &&& forall|i: int| 0 <= i < f.blocks@.len() ==> (#[trigger] f.blocks@[i]).id.0 == i
    &&& successors_in_bounds(f)
}

/// The message for block `b` when its number or one of its successors breaks
/// the structural rule.
pub open spec fn block_structure_error(f: Function, b: int) -> Option<Seq<char>> {
    let targets = successors(f.blocks@[b].terminator);
    if f.blocks@[b].id.0 != b {
        Some("basic block IDs must be dense and ordered"@)
    } else if exists|k: int| 0 <= k < targets.len() && #[trigger] targets[k] >= f.blocks@.len() {
        Some("terminator references a basic block that does not exist"@)
    } else {
        None
    }
}

/// The first structural error among the blocks from `b` on.
pub open spec fn blocks_structure_error(f: Function, b: int) -> Option<Seq<char>>
    decreases f.blocks@.len() - b,
{
    if b < 0 || b >= f.blocks@.len() {
        None
    } else {
        match block_structure_error(f, b) {
            Some(message) => Some(message),
            None => blocks_structure_error(f, b + 1),
        }
    }
}

/// The first structural error of a function: its block count, its entry,
/// then its blocks in order.
pub open spec fn structure_error(f: Function) -> Option<Seq<char>> {
    if f.blocks@.len() > u32::MAX {
        Some("function has too many basic blocks"@)
    } else if f.entry.0 >= f.blocks@.len() {
        Some("function entry block does not exist"@)
    } else {
        blocks_structure_error(f, 0)
    }
}

/// The (value, type) definitions of a function, in block and instruction order.
pub open spec fn function_defs(f: Function) -> Seq<(u32, TypeV)> {
    block_defs(f.blocks@)
}

/// The definitions made before instruction `k` of block `b` runs, in order.
pub open spec fn defs_before(f: Function, b: int, k: int) -> Seq<(u32, TypeV)> {
    block_defs(f.blocks@.take(b)) + instruction_defs(f.blocks@[b].instructions@.take(k))
}

/// The message for a value defined a second time.
pub open spec fn duplicate_message(v: u32, function: Seq<char>) -> Seq<char> {
    "value %"@ + decimal(v as nat) + " is defined by more than one instruction in function "@ + function
}

/// The first instruction, from instruction `k` of block `b` on in block and
/// instruction order, that defines a value defined before it: the message and
/// that instruction's span.
pub open spec fn duplicate_error(f: Function, b: int, k: int) -> Option<(Seq<char>, Span)>
    decreases f.blocks@.len() - b, f.blocks@[b].instructions@.len() - k,
{
    if b < 0 || b >= f.blocks@.len() || k < 0 {
        None
    } else if k >= f.blocks@[b].instructions@.len() {
        duplicate_error(f, b + 1, 0)
    } else {
        let i = f.blocks@[b].instructions@[k];
        match spec_instruction_defines(i) {
            Some(v) => if exists|j: int| 0 <= j < defs_before(f, b, k).len() && (#[trigger] defs_before(f, b, k)[j]).0 == v.0 {
                Some((duplicate_message(v.0, f.name@), spec_span(i)))
            } else {
                duplicate_error(f, b, k + 1)
            },
            None => duplicate_error(f, b, k + 1),
        }
    }
}

/// No value is defined twice.
pub open spec fn defs_unique(d: Seq<(u32, TypeV)>) -> bool {
    forall|i: int, j: int| 0 <= i < j < d.len() ==> (#[trigger] d[i]).0 != (#[trigger] d[j]).0
}

/// Instruction `i` defines value `v`.
pub open spec fn defines_value(i: Instruction, v: u32) -> bool {
    spec_instruction_defines(i) matches Some(d) && d.0 == v
}

/// Some instruction of block `bb` defines `v`.
pub open spec fn block_defines(bb: BasicBlock, v: u32) -> bool {
    exists|k: int| 0 <= k < bb.instructions@.len() && #[trigger] defines_value(bb.instructions@[k], v)
}

/// The blocks that define `v`.
pub open spec fn def_mask(f: Function, v: u32) -> Seq<bool> {
    Seq::new(f.blocks@.len(), |b: int| block_defines(f.blocks@[b], v))
}

// ---------------------------------------------------------------------------
// Definite assignment

/// `v` is defined on every executable path into block `b`: it has a
/// definition, and no path from the entry reaches `b` without first passing
/// through a block that defines it.
pub open spec fn available_in(f: Function, v: u32, b: int) -> bool {
    &&& find_type(function_defs(f), v) is Some
    &&& !reaches_avoiding(f, def_mask(f, v), f.entry.0 as int, b)
}

/// `v` is defined on every executable path out of block `b`.
pub open spec fn available_out(f: Function, v: u32, b: int) -> bool {
    available_in(f, v, b) || block_defines(f.blocks@[b], v)
}

/// `v` is defined before instruction `j` of block `b` runs.
pub open spec fn defined_before(f: Function, v: u32, b: int, j: int) -> bool {
    ||| available_in(f, v, b)
    ||| exists|k: int| 0 <= k < j && #[trigger] defines_value(f.blocks@[b].instructions@[k], v)
}

// ---------------------------------------------------------------------------
// Phi, instruction, terminator and block rules

/// A Phi of block `b` names each executable predecessor exactly once, with a
/// value defined on every path out of it whose type fits the Phi's type.
pub open spec fn phi_valid(f: Function, b: int, incoming: Seq<(BlockId, ValueId)>, ty: TypeV) -> bool {
    &&& forall|k: int|
        0 <= k < incoming.len() ==> {
            let p = (#[trigger] incoming[k]).0.0 as int;
            let v = incoming[k].1.0;
            &&& p < f.blocks@.len()
            &&& reachable(f, p)
            &&& edge(f, p, b)
            &&& available_out(f, v, p)
            &&& find_type(function_defs(f), v) matches Some(t) && types_compatible(t, ty)
        }
    &&& forall|k1: int, k2: int|
        0 <= k1 < k2 < incoming.len() ==> (#[trigger] incoming[k1]).0 != (#[trigger] incoming[k2]).0
    &&& forall|p: int|
        0 <= p < f.blocks@.len() && reachable(f, p) && #[trigger] edge(f, p, b) ==> exists|k: int|
            0 <= k < incoming.len() && (#[trigger] incoming[k]).0.0 == p
}

/// The message for a Phi entry that is refused on its own.
pub open spec fn phi_entry_message(b: int, p: int, v: u32) -> Seq<char> {
    "Phi in block "@ + decimal(b as nat) + " has invalid incoming predecessor "@ + decimal(p as nat)
        + " and value %"@ + decimal(v as nat)
}

/// Entry `k` of a Phi names an executable block not named by an earlier
/// entry, and its value is defined on every path out of that block.
pub open spec fn phi_entry_ok(f: Function, incoming: Seq<(BlockId, ValueId)>, k: int) -> bool {
    let p = incoming[k].0.0 as int;
    &&& p < f.blocks@.len()
    &&& reachable(f, p)
    &&& forall|j: int| 0 <= j < k ==> (#[trigger] incoming[j]).0 != incoming[k].0
    &&& available_out(f, incoming[k].1.0, p)
}

/// The message for the first Phi entry, from entry `k` on, that is refused
/// on its own.
pub open spec fn phi_entries_error(f: Function, b: int, incoming: Seq<(BlockId, ValueId)>, k: int) -> Option<
    Seq<char>,
>
    decreases incoming.len() - k,
{
    if k < 0 || k >= incoming.len() {
        None
    } else if !phi_entry_ok(f, incoming, k) {
        Some(phi_entry_message(b, incoming[k].0.0 as int, incoming[k].1.0))
    } else {
        phi_entries_error(f, b, incoming, k + 1)
    }
}

/// The blocks a Phi names are exactly the executable predecessors of `b`.
pub open spec fn phi_edges_exact(f: Function, b: int, incoming: Seq<(BlockId, ValueId)>) -> bool {
    &&& forall|k: int| 0 <= k < incoming.len() ==> edge(f, (#[trigger] incoming[k]).0.0 as int, b)
    &&& forall|p: int|
        0 <= p < f.blocks@.len() && reachable(f, p) && #[trigger] edge(f, p, b) ==> exists|k: int|
            0 <= k < incoming.len() && (#[trigger] incoming[k]).0.0 == p
}

/// Every value a Phi receives has a type that fits the Phi's type.
pub open spec fn phi_types_fit(f: Function, incoming: Seq<(BlockId, ValueId)>, ty: TypeV) -> bool {
    forall|k: int|
        0 <= k < incoming.len() ==> (find_type(function_defs(f), (#[trigger] incoming[k]).1.0) matches Some(
            t,
        ) && types_compatible(t, ty))
}

/// The message and span with which a Phi of block `b` (whose own span is
/// `span`) is refused, if it is.
pub open spec fn phi_error(f: Function, b: int, incoming: Seq<(BlockId, ValueId)>, ty: TypeV, span: Span) -> Option<
    (Seq<char>, Span),
> {
    match phi_entries_error(f, b, incoming, 0) {
        Some(message) => Some((message, f.span)),
        None => if !phi_edges_exact(f, b, incoming) {
            Some(("Phi incoming edges must match the block predecessors exactly"@, f.span))
        } else if !phi_types_fit(f, incoming, ty) {
            Some(("Phi incoming values must match the Phi result type"@, span))
        } else {
            None
        },
    }
}

/// Phi instructions come before every other instruction of a block.
pub open spec fn phis_first(ins: Seq<Instruction>) -> bool {
    forall|j1: int, j2: int|
        0 <= j1 < j2 < ins.len() && (#[trigger] ins[j2]) is Phi ==> (#[trigger] ins[j1]) is Phi
}

/// Every operand of instruction `j` of block `b` is defined before it runs
/// (an instruction may name its own result).
pub open spec fn uses_defined(f: Function, b: int, j: int) -> bool {
    let i = f.blocks@[b].instructions@[j];
    forall|k: int|
        0 <= k < spec_instruction_uses(i).len() ==> {
            let u = (#[trigger] spec_instruction_uses(i)[k]).0;
            defined_before(f, u, b, j) || defines_value(i, u)
        }
}

/// The rule of instruction `j` of block `b`.
pub open spec fn instruction_valid(m: Module, f: Function, b: int, j: int) -> bool {
    match f.blocks@[b].instructions@[j] {
        Instruction::Phi { incoming, ty, .. } => phi_valid(f, b, incoming@, ty@),
        i => uses_defined(f, b, j) && instruction_types_valid(m, function_defs(f), i),
    }
}

/// A returned value agrees with the function's return type.
pub open spec fn return_valid(f: Function, value: Option<ValueId>) -> bool {
    let rt = f.return_type@;
    match value {
        Some(v) => !is_void_type(rt) && (find_type(function_defs(f), v.0) matches Some(t)
            && types_compatible(t, rt)),
        None => is_void_type(rt) || (rt matches TypeV::Alternative(options) && exists|k: int|
            0 <= k < options.len() && is_void_type(#[trigger] options[k])),
    }
}

/// The terminator of block `b` reads defined values of the right types.
pub open spec fn terminator_valid(f: Function, b: int) -> bool {
    let n = f.blocks@[b].instructions@.len() as int;
    match f.blocks@[b].terminator {
        Terminator::Jump { .. } => true,
        Terminator::Branch { condition, .. } => defined_before(f, condition.0, b, n) && find_type(
            function_defs(f),
            condition.0,
        ) == Some(TypeV::Boolean),
        Terminator::Return { value } => (value matches Some(v) ==> defined_before(f, v.0, b, n))
            && return_valid(f, value),
        Terminator::Stop { code } => defined_before(f, code.0, b, n) && is_integer_opt(
            find_type(function_defs(f), code.0),
        ),
    }
}

/// The message for a returned value (or its absence) that does not fit the
/// function's return type.
pub open spec fn return_error(f: Function, value: Option<ValueId>) -> Option<Seq<char>> {
    let rt = f.return_type@;
    match value {
        Some(v) => if is_void_type(rt) {
            Some("VOID function cannot return a value"@)
        } else if !(find_type(function_defs(f), v.0) matches Some(t) && types_compatible(t, rt)) {
            Some("return value does not match the function return type"@)
        } else {
            None
        },
        None => if return_valid(f, value) {
            None
        } else {
            Some("non-VOID function must return a value"@)
        },
    }
}

/// The message for the terminator of block `b`, if it is refused.
pub open spec fn terminator_error(f: Function, b: int) -> Option<Seq<char>> {
    let n = f.blocks@[b].instructions@.len() as int;
    match f.blocks@[b].terminator {
        Terminator::Jump { .. } => None,
        Terminator::Branch { condition, .. } => if !defined_before(f, condition.0, b, n) {
            Some("branch condition is not defined"@)
        } else if find_type(function_defs(f), condition.0) != Some(TypeV::Boolean) {
            Some("branch condition must have BOOLEAN type"@)
        } else {
            None
        },
        Terminator::Return { value } => if value matches Some(v) && !defined_before(f, v.0, b, n) {
            Some("terminator value is not defined"@)
        } else {
            return_error(f, value)
        },
        Terminator::Stop { code } => if !defined_before(f, code.0, b, n) {
            Some("terminator value is not defined"@)
        } else if !is_integer_opt(find_type(function_defs(f), code.0)) {
            Some("stop code must have an integer type"@)
        } else {
            None
        },
    }
}

/// The message and span with which instruction `j` of block `b` is refused,
/// if it is.
#[verifier::opaque]
pub open spec fn instruction_error(m: Module, f: Function, b: int, j: int) -> Option<(Seq<char>, Span)> {
    let ins = f.blocks@[b].instructions@;
    match ins[j] {
        Instruction::Phi { incoming, ty, span, .. } => if exists|k: int| 0 <= k < j && !((#[trigger] ins[k]) is Phi) {
            Some(("Phi instructions must precede other instructions in a block"@, span))
        } else {
            phi_error(f, b, incoming@, ty@, span)
        },
        i => if !uses_defined(f, b, j) {
            Some(("instruction uses a value that is not defined on every executable path"@, f.span))
        } else {
            match instruction_type_error(m, function_defs(f), i) {
                Some(message) => Some((message, spec_span(i))),
                None => None,
            }
        },
    }
}

/// The first refused instruction of block `b` from instruction `j` on.
pub open spec fn instructions_error(m: Module, f: Function, b: int, j: int) -> Option<(Seq<char>, Span)>
    decreases f.blocks@[b].instructions@.len() - j,
{
    if j < 0 || j >= f.blocks@[b].instructions@.len() {
        None
    } else {
        match instruction_error(m, f, b, j) {
            Some(e) => Some(e),
            None => instructions_error(m, f, b, j + 1),
        }
    }
}

/// The message and span with which executable block `b` is refused: its
/// instructions in order, then its terminator.
pub open spec fn block_error(m: Module, f: Function, b: int) -> Option<(Seq<char>, Span)> {
    match instructions_error(m, f, b, 0) {
        Some(e) => Some(e),
        None => match terminator_error(f, b) {
            Some(message) => Some((message, f.span)),
            None => None,
        },
    }
}

/// The first refused executable block from block `b` on.
pub open spec fn blocks_error(m: Module, f: Function, b: int) -> Option<(Seq<char>, Span)>
    decreases f.blocks@.len() - b,
{
    if b < 0 || b >= f.blocks@.len() {
        None
    } else if reachable(f, b) {
        match block_error(m, f, b) {
            Some(e) => Some(e),
            None => blocks_error(m, f, b + 1),
        }
    } else {
        blocks_error(m, f, b + 1)
    }
}

/// The message and span with which a function is refused, if it is: its
/// block structure, then values defined twice, then its executable blocks in
/// order.
pub open spec fn function_error(m: Module, f: Function) -> Option<(Seq<char>, Span)> {
    match structure_error(f) {
        Some(message) => Some((message, f.span)),
        None => match duplicate_error(f, 0, 0) {
            Some(e) => Some(e),
            None => blocks_error(m, f, 0),
        },
    }
}

/// The first refused function from function `i` on.
pub open spec fn functions_error(m: Module, i: int) -> Option<(Seq<char>, Span)>
    decreases m.functions@.len() - i,
{
    if i < 0 || i >= m.functions@.len() {
        None
    } else {
        match function_error(m, m.functions@[i]) {
            Some(e) => Some(e),
            None => functions_error(m, i + 1),
        }
    }
}

/// The span at which module-wide metadata problems are reported: that of the
/// first function, or the unknown span.
pub open spec fn module_span_of(m: Module) -> Span {
    if m.functions@.len() > 0 {
        m.functions@[0].span
    } else {
        spec_unknown_span()
    }
}

/// The message and span with which a module is refused, if it is: its
/// inheritance metadata, its field layouts, its function kinds, then each
/// function in order.
pub open spec fn module_error(m: Module) -> Option<(Seq<char>, Span)> {
    match class_bases_error(m, 0) {
        Some(message) => Some((message, module_span_of(m))),
        None => match field_layouts_error(m, module_span_of(m)) {
            Some(e) => Some(e),
            None => match first_kind_error(m.functions@, false) {
                Some(e) => Some(e),
                None => functions_error(m, 0),
            },
        },
    }
}

/// Every rule of an executable block.
pub open spec fn block_valid(m: Module, f: Function, b: int) -> bool {
    let ins = f.blocks@[b].instructions@;
    &&& phis_first(ins)
    &&& forall|j: int| 0 <= j < ins.len() ==> #[trigger] instruction_valid(m, f, b, j)
    &&& terminator_valid(f, b)
}

/// Every rule of one function. Blocks that no path from the entry reaches are
/// only held to the structural and definition rules.
pub open spec fn function_valid(m: Module, f: Function) -> bool {
    &&& structure_valid(f)
    &&& defs_unique(function_defs(f))
    &&& forall|b: int| 0 <= b < f.blocks@.len() && reachable(f, b) ==> #[trigger] block_valid(m, f, b)
}

/// The whole language-level IR contract of a module.
pub open spec fn module_valid(m: Module) -> bool {
    &&& class_bases_valid(m)
    &&& field_layouts_valid(m)
    &&& function_kinds_valid(m)
    &&& forall|i: int| 0 <= i < m.functions@.len() ==> function_valid(m, #[trigger] m.functions@[i])
}

// ---------------------------------------------------------------------------
// Lemmas on definition lists

pub proof fn lemma_instruction_defs_concat(a: Seq<Instruction>, b: Seq<Instruction>)
    ensures
        instruction_defs(a + b) == instruction_defs(a) + instruction_defs(b),
    decreases b.len(),
{
    if b.len() == 0 {
        assert(a + b =~= a);
        assert(instruction_defs(b) =~= Seq::<(u32, TypeV)>::empty());
        assert(instruction_defs(a) + instruction_defs(b) =~= instruction_defs(a));
    } else {
        lemma_instruction_defs_concat(a, b.drop_last());
        assert((a + b).drop_last() =~= a + b.drop_last());
        assert((a + b).last() == b.last());
    }
}

pub proof fn lemma_block_defs_concat(a: Seq<BasicBlock>, b: Seq<BasicBlock>)
    ensures
        block_defs(a + b) == block_defs(a) + block_defs(b),
    decreases b.len(),
{
    if b.len() == 0 {
        assert(a + b =~= a);
        assert(block_defs(b) =~= Seq::<(u32, TypeV)>::empty());
        assert(block_defs(a) + block_defs(b) =~= block_defs(a));
    } else {
        lemma_block_defs_concat(a, b.drop_last());
        assert((a + b).drop_last() =~= a + b.drop_last());
        assert((a + b).last() == b.last());
    }
}

/// The definitions collected up to instruction `k` of block `b` start the
/// function's definition list.
pub proof fn lemma_defs_prefix(f: Function, b: int, k: int)
    requires
        0 <= b < f.blocks@.len(),
        0 <= k <= f.blocks@[b].instructions@.len(),
    ensures
        ({
            let pre = block_defs(f.blocks@.take(b)) + instruction_defs(f.blocks@[b].instructions@.take(k));
            pre.len() <= function_defs(f).len() && forall|i: int|
                0 <= i < pre.len() ==> #[trigger] function_defs(f)[i] == pre[i]
        }),
{
    let bs = f.blocks@;
    let ins = bs[b].instructions@;
    assert(bs =~= bs.take(b) + (seq![bs[b]] + bs.skip(b + 1)));
    lemma_block_defs_concat(bs.take(b), seq![bs[b]] + bs.skip(b + 1));
    lemma_block_defs_concat(seq![bs[b]], bs.skip(b + 1));
    reveal_with_fuel(block_defs, 2);
    assert(seq![bs[b]].drop_last() =~= Seq::<BasicBlock>::empty());
    assert(seq![bs[b]].last() == bs[b]);
    assert(block_defs(seq![bs[b]]) =~= instruction_defs(ins));
    assert(ins =~= ins.take(k) + ins.skip(k));
    lemma_instruction_defs_concat(ins.take(k), ins.skip(k));
}

pub proof fn lemma_find_type_some(d: Seq<(u32, TypeV)>, v: u32)
    ensures
        find_type(d, v) is Some <==> exists|i: int| 0 <= i < d.len() && (#[trigger] d[i]).0 == v,
    decreases d.len(),
{
    if d.len() > 0 {
        lemma_find_type_some(d.drop_last(), v);
        if find_type(d.drop_last(), v) is Some {
            let i = choose|i: int| 0 <= i < d.drop_last().len() && (#[trigger] d.drop_last()[i]).0 == v;
            assert(d[i] == d.drop_last()[i]);
        }
        if exists|i: int| 0 <= i < d.len() && (#[trigger] d[i]).0 == v {
            let i = choose|i: int| 0 <= i < d.len() && (#[trigger] d[i]).0 == v;
            if i < d.len() - 1 {
                assert(d.drop_last()[i] == d[i]);
            }
        }
    }
}

// ---------------------------------------------------------------------------
// Laws of definite assignment

/// No value is defined on entry to a function.
pub proof fn lemma_nothing_available_at_entry(f: Function, v: u32)
    requires
        structure_valid(f),
    ensures
        !available_in(f, v, f.entry.0 as int),
{
    let e = f.entry.0 as int;
    let p = seq![e];
    assert(crate::cfg::open_path(f, def_mask(f, v), p, e, e));
}

/// A value available on entry to block `b` is defined by some block of every
/// path from the entry to `b`, before `b` itself.
pub proof fn lemma_available_on_path(f: Function, v: u32, b: int, p: Seq<int>)
    requires
        available_in(f, v, b),
        crate::cfg::is_path(f, p),
        p[0] == f.entry.0 as int,
        p.last() == b,
    ensures
        exists|q: int| 0 <= q < p.len() - 1 && #[trigger] block_defines(f.blocks@[p[q]], v),
{
    if !exists|q: int| 0 <= q < p.len() - 1 && #[trigger] block_defines(f.blocks@[p[q]], v) {
        assert forall|q: int| 0 <= q < p.len() - 1 implies !def_mask(f, v)[#[trigger] p[q]] by {
            assert(!block_defines(f.blocks@[p[q]], v));
        }
        assert(crate::cfg::open_path(f, def_mask(f, v), p, f.entry.0 as int, b));
    }
}

/// A definition made by instruction `k` of `s` is in the definition list of `s`.
proof fn lemma_instruction_defs_has(s: Seq<Instruction>, k: int)
    requires
        0 <= k < s.len(),
        spec_instruction_defines(s[k]) is Some,
    ensures
        exists|j: int|
            0 <= j < instruction_defs(s).len() && (#[trigger] instruction_defs(s)[j]).0
                == (spec_instruction_defines(s[k])->0).0,
    decreases s.len(),
{
    let rest = instruction_defs(s.drop_last());
    if k == s.len() - 1 {
        assert(instruction_defs(s)[rest.len() as int].0 == (spec_instruction_defines(s[k])->0).0);
    } else {
        assert(s.drop_last()[k] == s[k]);
        lemma_instruction_defs_has(s.drop_last(), k);
        let j = choose|j: int| 0 <= j < rest.len() && (#[trigger] rest[j]).0 == (spec_instruction_defines(s[k])->0).0;
        assert(instruction_defs(s)[j] == rest[j]);
    }
}

/// A definition made in block `b` of `bs` is in the definition list of `bs`.
proof fn lemma_block_defs_has(bs: Seq<BasicBlock>, b: int, k: int)
    requires
        0 <= b < bs.len(),
        0 <= k < bs[b].instructions@.len(),
        spec_instruction_defines(bs[b].instructions@[k]) is Some,
    ensures
        exists|j: int|
            0 <= j < block_defs(bs).len() && (#[trigger] block_defs(bs)[j]).0
                == (spec_instruction_defines(bs[b].instructions@[k])->0).0,
    decreases bs.len(),
{
    let v = (spec_instruction_defines(bs[b].instructions@[k])->0).0;
    let rest = block_defs(bs.drop_last());
    if b == bs.len() - 1 {
        lemma_instruction_defs_has(bs[b].instructions@, k);
        let tail = instruction_defs(bs.last().instructions@);
        let j = choose|j: int| 0 <= j < tail.len() && (#[trigger] tail[j]).0 == v;
        assert(block_defs(bs)[rest.len() + j] == tail[j]);
    } else {
        assert(bs.drop_last()[b] == bs[b]);
        lemma_block_defs_has(bs.drop_last(), b, k);
        let j = choose|j: int| 0 <= j < rest.len() && (#[trigger] rest[j]).0 == v;
        assert(block_defs(bs)[j] == rest[j]);
    }
}

/// Two instructions of a function whose definitions are unique define
/// different values.
proof fn lemma_two_definitions(f: Function, b1: int, k1: int, b2: int, k2: int)
    requires
        defs_unique(function_defs(f)),
        0 <= b1 < f.blocks@.len(),
        0 <= b2 < f.blocks@.len(),
        0 <= k1 < f.blocks@[b1].instructions@.len(),
        0 <= k2 < f.blocks@[b2].instructions@.len(),
        b1 < b2 || (b1 == b2 && k1 < k2),
        spec_instruction_defines(f.blocks@[b1].instructions@[k1]) is Some,
        spec_instruction_defines(f.blocks@[b2].instructions@[k2]) is Some,
    ensures
        (spec_instruction_defines(f.blocks@[b1].instructions@[k1])->0).0 != (spec_instruction_defines(
            f.blocks@[b2].instructions@[k2],
        )->0).0,
{
    let v = (spec_instruction_defines(f.blocks@[b1].instructions@[k1])->0).0;
    let ins2 = f.blocks@[b2].instructions@;
    let before = defs_before(f, b2, k2);
    // The first definition is among those made before the second instruction.
    if b1 < b2 {
        let bs = f.blocks@.take(b2);
        assert(bs[b1] == f.blocks@[b1]);
        lemma_block_defs_has(bs, b1, k1);
        let j = choose|j: int| 0 <= j < block_defs(bs).len() && (#[trigger] block_defs(bs)[j]).0 == v;
        assert(before[j] == block_defs(bs)[j]);
    } else {
        let s = ins2.take(k2);
        assert(s[k1] == ins2[k1]);
        lemma_instruction_defs_has(s, k1);
        let j = choose|j: int| 0 <= j < instruction_defs(s).len() && (#[trigger] instruction_defs(s)[j]).0 == v;
        assert(before[block_defs(f.blocks@.take(b2)).len() + j] == instruction_defs(s)[j]);
    }
    let j = choose|j: int| 0 <= j < before.len() && (#[trigger] before[j]).0 == v;
    // The second definition comes right after them.
    lemma_defs_prefix(f, b2, k2 + 1);
    let after = defs_before(f, b2, k2 + 1);
    assert(ins2.take(k2 + 1).drop_last() =~= ins2.take(k2));
    assert(ins2.take(k2 + 1).last() == ins2[k2]);
    assert(after =~= before.push(((spec_instruction_defines(ins2[k2])->0).0, defined_type(ins2[k2]))));
    assert(function_defs(f)[j] == after[j]);
    assert(function_defs(f)[before.len() as int] == after[before.len() as int]);
}

/// What validation guarantees of each function of a valid module: its entry
/// block exists, its blocks are numbered densely from zero, every successor
/// names a block, no two instructions define the same value, and in every
/// executable block each operand of a non-Phi instruction and of the
/// terminator is defined on every path from the entry (an instruction may
/// name its own result), and a branch condition is `BOOLEAN`.
pub proof fn lemma_validated_function(m: Module, i: int)
    requires
        module_valid(m),
        0 <= i < m.functions@.len(),
    ensures
        ({
            let f = m.functions@[i];
            &&& f.entry.0 < f.blocks@.len()
            &&& forall|b: int| 0 <= b < f.blocks@.len() ==> (#[trigger] f.blocks@[b]).id.0 == b
            &&& forall|b: int, k: int|
                0 <= b < f.blocks@.len() && 0 <= k < successors(f.blocks@[b].terminator).len() ==> (
                #[trigger] successors(f.blocks@[b].terminator)[k]) < f.blocks@.len()
            &&& forall|b1: int, k1: int, b2: int, k2: int|
                0 <= b1 < f.blocks@.len() && 0 <= b2 < f.blocks@.len() && 0 <= k1
                    < f.blocks@[b1].instructions@.len() && 0 <= k2 < f.blocks@[b2].instructions@.len()
                    && (b1 < b2 || (b1 == b2 && k1 < k2)) && spec_instruction_defines(
                    #[trigger] f.blocks@[b1].instructions@[k1],
                ) is Some && spec_instruction_defines(#[trigger] f.blocks@[b2].instructions@[k2]) is Some
                    ==> (spec_instruction_defines(f.blocks@[b1].instructions@[k1])->0).0
                    != (spec_instruction_defines(f.blocks@[b2].instructions@[k2])->0).0
            &&& forall|b: int, j: int, k: int, p: Seq<int>|
                #![trigger crate::cfg::is_path(f, p), spec_instruction_uses(f.blocks@[b].instructions@[j])[k]]
                0 <= b < f.blocks@.len() && reachable(f, b) && 0 <= j < f.blocks@[b].instructions@.len()
                    && !(f.blocks@[b].instructions@[j] is Phi) && 0 <= k < spec_instruction_uses(
                    f.blocks@[b].instructions@[j],
                ).len() && crate::cfg::is_path(f, p) && p[0] == f.entry.0 as int && p.last()
                    == b ==> {
                    let ins = f.blocks@[b].instructions@;
                    let u = spec_instruction_uses(ins[j])[k].0;
                    ||| defines_value(ins[j], u)
                    ||| exists|t: int| 0 <= t < j && #[trigger] defines_value(ins[t], u)
                    ||| exists|q: int| 0 <= q < p.len() - 1 && #[trigger] block_defines(f.blocks@[p[q]], u)
                }
            &&& forall|b: int, p: Seq<int>|
                #![trigger crate::cfg::is_path(f, p), f.blocks@[b]]
                0 <= b < f.blocks@.len() && reachable(f, b) && crate::cfg::is_path(f, p) && p[0]
                    == f.entry.0 as int && p.last() == b ==> {
                    &&& f.blocks@[b].terminator matches Terminator::Branch { condition, .. } ==> defined_along(
                        f,
                        b,
                        p,
                        condition.0,
                    ) && find_type(function_defs(f), condition.0) == Some(TypeV::Boolean)
                    &&& f.blocks@[b].terminator matches Terminator::Return { value: Some(v) } ==> defined_along(
                        f,
                        b,
                        p,
                        v.0,
                    )
                    &&& f.blocks@[b].terminator matches Terminator::Stop { code } ==> defined_along(
                        f,
                        b,
                        p,
                        code.0,
                    )
                }
        }),
{
    let f = m.functions@[i];
    assert(function_valid(m, f));
    assert forall|b1: int, k1: int, b2: int, k2: int|
        0 <= b1 < f.blocks@.len() && 0 <= b2 < f.blocks@.len() && 0 <= k1 < f.blocks@[b1].instructions@.len()
            && 0 <= k2 < f.blocks@[b2].instructions@.len() && (b1 < b2 || (b1 == b2 && k1 < k2))
            && spec_instruction_defines(#[trigger] f.blocks@[b1].instructions@[k1]) is Some
            && spec_instruction_defines(#[trigger] f.blocks@[b2].instructions@[k2]) is Some implies (spec_instruction_defines(
        f.blocks@[b1].instructions@[k1],
    )->0).0 != (spec_instruction_defines(f.blocks@[b2].instructions@[k2])->0).0 by {
        lemma_two_definitions(f, b1, k1, b2, k2);
    }
    assert forall|b: int, j: int, k: int, p: Seq<int>|
        #![trigger crate::cfg::is_path(f, p), spec_instruction_uses(f.blocks@[b].instructions@[j])[k]]
        0 <= b < f.blocks@.len() && reachable(f, b) && 0 <= j < f.blocks@[b].instructions@.len()
            && !(f.blocks@[b].instructions@[j] is Phi) && 0 <= k < spec_instruction_uses(
            f.blocks@[b].instructions@[j],
        ).len() && crate::cfg::is_path(f, p) && p[0] == f.entry.0 as int && p.last() == b implies {
        let ins = f.blocks@[b].instructions@;
        let u = spec_instruction_uses(ins[j])[k].0;
        ||| defines_value(ins[j], u)
        ||| exists|t: int| 0 <= t < j && #[trigger] defines_value(ins[t], u)
        ||| exists|q: int| 0 <= q < p.len() - 1 && #[trigger] block_defines(f.blocks@[p[q]], u)
    } by {
        lemma_operands_defined_on_every_path(m, i, b, j, k, p);
    }
    assert forall|b: int, p: Seq<int>|
        #![trigger crate::cfg::is_path(f, p), f.blocks@[b]]
        0 <= b < f.blocks@.len() && reachable(f, b) && crate::cfg::is_path(f, p) && p[0]
            == f.entry.0 as int && p.last() == b implies {
        &&& f.blocks@[b].terminator matches Terminator::Branch { condition, .. } ==> defined_along(
            f,
            b,
            p,
            condition.0,
        ) && find_type(function_defs(f), condition.0) == Some(TypeV::Boolean)
        &&& f.blocks@[b].terminator matches Terminator::Return { value: Some(v) } ==> defined_along(f, b, p, v.0)
        &&& f.blocks@[b].terminator matches Terminator::Stop { code } ==> defined_along(f, b, p, code.0)
    } by {
        lemma_terminator_defined_on_every_path(m, i, b, p);
    }
}

/// In a valid module, every operand of a non-Phi instruction of an
/// executable block is defined on every path that reaches it: along any path
/// from the entry to the block, a block before it defines the value, or an
/// earlier instruction of the block does (an instruction may also name its
/// own result).
pub proof fn lemma_operands_defined_on_every_path(
    m: Module,
    i: int,
    b: int,
    j: int,
    k: int,
    p: Seq<int>,
)
    requires
        module_valid(m),
        0 <= i < m.functions@.len(),
        0 <= b < m.functions@[i].blocks@.len(),
        reachable(m.functions@[i], b),
        0 <= j < m.functions@[i].blocks@[b].instructions@.len(),
        !(m.functions@[i].blocks@[b].instructions@[j] is Phi),
        0 <= k < spec_instruction_uses(m.functions@[i].blocks@[b].instructions@[j]).len(),
        crate::cfg::is_path(m.functions@[i], p),
        p[0] == m.functions@[i].entry.0 as int,
        p.last() == b,
    ensures
        ({
            let f = m.functions@[i];
            let ins = f.blocks@[b].instructions@;
            let u = spec_instruction_uses(ins[j])[k].0;
            ||| defines_value(ins[j], u)
            ||| exists|t: int| 0 <= t < j && #[trigger] defines_value(ins[t], u)
            ||| exists|q: int| 0 <= q < p.len() - 1 && #[trigger] block_defines(f.blocks@[p[q]], u)
        }),
{
    let f = m.functions@[i];
    let ins = f.blocks@[b].instructions@;
    let u = spec_instruction_uses(ins[j])[k].0;
    assert(function_valid(m, f));
    assert(block_valid(m, f, b));
    assert(instruction_valid(m, f, b, j));
    assert(uses_defined(f, b, j));
    if available_in(f, u, b) {
        lemma_available_on_path(f, u, b, p);
    }
}

/// Along path `p`, which ends at block `b`, some block (`b` itself included)
/// defines `v`.
pub open spec fn defined_along(f: Function, b: int, p: Seq<int>, v: u32) -> bool {
    ||| block_defines(f.blocks@[b], v)
    ||| exists|q: int| 0 <= q < p.len() - 1 && #[trigger] block_defines(f.blocks@[p[q]], v)
}

proof fn lemma_defined_at_end_along(f: Function, v: u32, b: int, p: Seq<int>)
    requires
        0 <= b < f.blocks@.len(),
        defined_before(f, v, b, f.blocks@[b].instructions@.len() as int),
        crate::cfg::is_path(f, p),
        p[0] == f.entry.0 as int,
        p.last() == b,
    ensures
        defined_along(f, b, p, v),
{
    let n = f.blocks@[b].instructions@.len() as int;
    if available_in(f, v, b) {
        lemma_available_on_path(f, v, b, p);
    } else {
        let t = choose|t: int| 0 <= t < n && #[trigger] defines_value(f.blocks@[b].instructions@[t], v);
        assert(block_defines(f.blocks@[b], v));
    }
}

/// In a valid module, the terminator of an executable block reads values
/// defined on every path that reaches it (along any path from the entry to
/// the block, a block before it or the block itself defines the value), and
/// a branch condition is `BOOLEAN`.
pub proof fn lemma_terminator_defined_on_every_path(m: Module, i: int, b: int, p: Seq<int>)
    requires
        module_valid(m),
        0 <= i < m.functions@.len(),
        0 <= b < m.functions@[i].blocks@.len(),
        reachable(m.functions@[i], b),
        crate::cfg::is_path(m.functions@[i], p),
        p[0] == m.functions@[i].entry.0 as int,
        p.last() == b,
    ensures
        m.functions@[i].blocks@[b].terminator matches Terminator::Branch { condition, .. } ==> defined_along(
            m.functions@[i],
            b,
            p,
            condition.0,
        ) && find_type(function_defs(m.functions@[i]), condition.0) == Some(TypeV::Boolean),
        m.functions@[i].blocks@[b].terminator matches Terminator::Return { value: Some(v) } ==> defined_along(
            m.functions@[i],
            b,
            p,
            v.0,
        ),
        m.functions@[i].blocks@[b].terminator matches Terminator::Stop { code } ==> defined_along(
            m.functions@[i],
            b,
            p,
            code.0,
        ),
{
    let f = m.functions@[i];
    assert(function_valid(m, f));
    assert(block_valid(m, f, b));
    assert(terminator_valid(f, b));
    match f.blocks@[b].terminator {
        Terminator::Branch { condition, .. } => {
            lemma_defined_at_end_along(f, condition.0, b, p);
        },
        Terminator::Return { value } => {
            match value {
                Some(v) => {
                    lemma_defined_at_end_along(f, v.0, b, p);
                },
                None => {},
            }
        },
        Terminator::Stop { code } => {
            lemma_defined_at_end_along(f, code.0, b, p);
        },
        Terminator::Jump { .. } => {},
    }
}

/// The definite-assignment equations: at an executable block other than the
/// entry, a defined value is available on entry exactly when it is available
/// on exit from every executable predecessor.
pub proof fn lemma_availability_equations(f: Function, v: u32, b: int)
    requires
        structure_valid(f),
        0 <= b < f.blocks@.len(),
        reachable(f, b),
        b != f.entry.0,
        find_type(function_defs(f), v) is Some,
    ensures
        available_in(f, v, b) <==> forall|p: int|
            0 <= p < f.blocks@.len() && reachable(f, p) && #[trigger] edge(f, p, b) ==> available_out(f, v, p),
{
    let mask = def_mask(f, v);
    let e = f.entry.0 as int;
    if available_in(f, v, b) {
        assert forall|p: int|
            0 <= p < f.blocks@.len() && reachable(f, p) && #[trigger] edge(f, p, b) implies available_out(
                f,
                v,
                p,
            ) by {
            if !available_out(f, v, p) {
                let q = choose|q: Seq<int>| #[trigger] crate::cfg::open_path(f, mask, q, e, p);
                assert(!mask[p]);
                crate::cfg::lemma_open_path_extend(f, mask, q, e, p, b);
                assert(crate::cfg::open_path(f, mask, q.push(b), e, b));
            }
        }
    } else {
        let q = choose|q: Seq<int>| #[trigger] crate::cfg::open_path(f, mask, q, e, b);
        assert(q.len() > 1) by {
            if q.len() == 1 {
                assert(q[0] == e && q.last() == b);
            }
        }
        let p = q[q.len() - 2];
        crate::cfg::lemma_open_path_prefix(f, mask, q, e, b);
        crate::cfg::lemma_open_path_unblocked(f, mask, q.drop_last(), e, p);
        assert(reachable(f, p));
        assert(0 <= p < f.blocks@.len());
        assert(!available_in(f, v, p));
        assert(!mask[p]);
        assert(!available_out(f, v, p));
    }
}

// ---------------------------------------------------------------------------
// Executable checks

/// Checks the structural rules of every function's kind.
pub fn validate_function_kinds(m: &Module) -> (r: Result<(), Diagnostic>)
    ensures
        r is Ok <==> function_kinds_valid(*m),
        r is Ok <==> first_kind_error(m.functions@, false) is None,
        r matches Err(d) ==> d.code@ == invalid_ir_code() && first_kind_error(m.functions@, false)
            == Some((d.message@, d.span)),
{
    let mut entry_seen = false;
    let ghost mut entry_at: int = 0;
    let mut i: usize = 0;
    assert(m.functions@.subrange(0, m.functions@.len() as int) =~= m.functions@);
    while i < m.functions.len()
        invariant
            0 <= i <= m.functions@.len(),
            forall|k: int| 0 <= k < i ==> kind_valid(#[trigger] m.functions@[k]),
            forall|a: int, b: int|
                0 <= a < b < i ==> !((#[trigger] m.functions@[a]).kind is Entry && (
                #[trigger] m.functions@[b]).kind is Entry),
            entry_seen <==> exists|k: int| 0 <= k < i && (#[trigger] m.functions@[k]).kind is Entry,
            entry_seen ==> 0 <= entry_at < i && m.functions@[entry_at].kind is Entry,
            first_kind_error(m.functions@, false) == first_kind_error(
                m.functions@.subrange(i as int, m.functions@.len() as int),
                entry_seen,
            ),
        decreases m.functions@.len() - i,
    {
        let f = &m.functions[i];
        let ghost rest = m.functions@.subrange(i as int, m.functions@.len() as int);
        assert(rest[0] == m.functions@[i as int]);
        assert(rest.drop_first() =~= m.functions@.subrange(i + 1, m.functions@.len() as int));
        match f.kind {
            FunctionKind::Entry => {
                if entry_seen {
                    assert(m.functions@[entry_at].kind is Entry && m.functions@[i as int].kind is Entry);
                    return Err(invalid_ir("module declares more than one entry function", f.span));
                }
                if f.parameters.len() != 0 {
                    assert(!kind_valid(m.functions@[i as int]));
                    return Err(invalid_ir("entry function must not take parameters", f.span));
                }
                entry_seen = true;
                proof {
                    entry_at = i as int;
                }
            },
            FunctionKind::Constructor | FunctionKind::Destructor | FunctionKind::FieldInit
            | FunctionKind::Init => {
                if f.owner.is_none() {
                    assert(!kind_valid(m.functions@[i as int]));
                    return Err(
                        invalid_ir(
                            "constructor, destructor, field-init and init functions need an owner class",
                            f.span,
                        ),
                    );
                }
                if !matches!(f.kind, FunctionKind::Init) && f.parameters.len() == 0 {
                    assert(!kind_valid(m.functions@[i as int]));
                    return Err(
                        invalid_ir(
                            "constructor, destructor and field-init functions take SELF first",
                            f.span,
                        ),
                    );
                }
                if matches!(f.kind, FunctionKind::Destructor) && !is_void_type_exec(&f.return_type) {
                    assert(!kind_valid(m.functions@[i as int]));
                    return Err(invalid_ir("destructor must return VOID", f.span));
                }
            },
            FunctionKind::Default => {
                if f.owner.is_none() {
                    assert(!kind_valid(m.functions@[i as int]));
                    return Err(invalid_ir("default constructor needs an owner struct", f.span));
                }
                if f.parameters.len() != 0 {
                    assert(!kind_valid(m.functions@[i as int]));
                    return Err(
                        invalid_ir("default constructor must not take parameters", f.span),
                    );
                }
            },
            FunctionKind::User => {},
        }
        assert(kind_valid(m.functions@[i as int]));
        i += 1;
    }
    assert(m.functions@.subrange(i as int, m.functions@.len() as int).len() == 0);
    Ok(())
}

/// Checks that blocks are numbered densely, the entry exists and every
/// successor names a block.
#[verifier::loop_isolation(false)]
pub fn validate_structure(f: &Function) -> (r: Result<(), Diagnostic>)
    ensures
        r is Ok <==> structure_valid(*f),
        r is Ok <==> structure_error(*f) is None,
        r matches Err(d) ==> d.code@ == invalid_ir_code() && structure_error(*f) == Some(d.message@)
            && d.span == f.span,
{
    let n = f.blocks.len();
    if n as u128 > u32::MAX as u128 {
        return Err(invalid_ir("function has too many basic blocks", f.span));
    }
    if f.entry.0 as usize >= n {
        return Err(invalid_ir("function entry block does not exist", f.span));
    }
    let mut i: usize = 0;
    while i < n
        invariant
            0 <= i <= n,
            n == f.blocks@.len(),
            n <= u32::MAX,
            forall|b: int| 0 <= b < i ==> (#[trigger] f.blocks@[b]).id.0 == b,
            forall|b: int, k: int|
                0 <= b < i && 0 <= k < successors(f.blocks@[b].terminator).len() ==> (
                #[trigger] successors(f.blocks@[b].terminator)[k]) < n,
            blocks_structure_error(*f, 0) == blocks_structure_error(*f, i as int),
        decreases n - i,
    {
        let block = &f.blocks[i];
        if block.id.0 as usize != i {
            return Err(invalid_ir("basic block IDs must be dense and ordered", f.span));
        }
        let targets = block_successors(&block.terminator);
        let mut k: usize = 0;
        while k < targets.len()
            invariant
                0 <= k <= targets@.len(),
                targets@ == successors(f.blocks@[i as int].terminator),
                n == f.blocks@.len(),
                forall|j: int| 0 <= j < k ==> (#[trigger] targets@[j]) < n,
            decreases targets@.len() - k,
        {
            if targets[k] as usize >= n {
                assert(successors(f.blocks@[i as int].terminator)[k as int] >= n);
                return Err(
                    invalid_ir("terminator references a basic block that does not exist", f.span),
                );
            }
            k += 1;
        }
        assert forall|b: int, j: int|
            0 <= b < i + 1 && 0 <= j < successors(f.blocks@[b].terminator).len() implies (
            #[trigger] successors(f.blocks@[b].terminator)[j]) < n by {
            if b == i {
                assert(targets@[j] == successors(f.blocks@[b].terminator)[j]);
            }
        }
        assert(block_structure_error(*f, i as int) is None);
        i += 1;
    }
    Ok(())
}

/// The message for a value defined a second time in `function`.
fn duplicate_definition_message(v: u32, function: &String) -> (r: String)
    ensures
        r@ == duplicate_message(v, function@),
{
    let mut r = String::new();
    push_str(&mut r, "value %");
    push_decimal(&mut r, v as u128);
    push_str(&mut r, " is defined by more than one instruction in function ");
    push_str(&mut r, function.as_str());
    assert(r@ =~= duplicate_message(v, function@));
    r
}

/// Collects the (value, type) definitions of a function in order, refusing a
/// value defined twice. `int32` is the type given to `Length` and `SizeOf`
/// results.
#[verifier::loop_isolation(false)]
pub fn collect_definitions<'a>(f: &'a Function, int32: &'a Type) -> (r: Result<
    Vec<(u32, &'a Type)>,
    Diagnostic,
>)
    requires
        int32@ == TypeV::Integer(IntegerType::Int32),
    ensures
        r matches Ok(d) ==> defs_view(d@) == function_defs(*f) && defs_unique(function_defs(*f)),
        r is Err ==> !defs_unique(function_defs(*f)),
        r is Ok <==> duplicate_error(*f, 0, 0) is None,
        r matches Err(e) ==> e.code@ == invalid_ir_code() && duplicate_error(*f, 0, 0) == Some(
            (e.message@, e.span),
        ),
{
    let mut d: Vec<(u32, &'a Type)> = Vec::new();
    let mut b: usize = 0;
    assert(defs_view(d@) =~= block_defs(f.blocks@.take(0)));
    while b < f.blocks.len()
        invariant
            0 <= b <= f.blocks@.len(),
            int32@ == TypeV::Integer(IntegerType::Int32),
            defs_view(d@) == block_defs(f.blocks@.take(b as int)),
            defs_unique(defs_view(d@)),
            duplicate_error(*f, 0, 0) == duplicate_error(*f, b as int, 0),
        decreases f.blocks@.len() - b,
    {
        let block = &f.blocks[b];
        let ghost ins = f.blocks@[b as int].instructions@;
        let mut k: usize = 0;
        assert(ins.take(0) =~= Seq::<Instruction>::empty());
        assert(block_defs(f.blocks@.take(b as int)) + instruction_defs(ins.take(0)) =~= block_defs(
            f.blocks@.take(b as int),
        ));
        while k < block.instructions.len()
            invariant
                0 <= b < f.blocks@.len(),
                0 <= k <= ins.len(),
                ins == f.blocks@[b as int].instructions@,
                block == &f.blocks@[b as int],
                int32@ == TypeV::Integer(IntegerType::Int32),
                defs_view(d@) == block_defs(f.blocks@.take(b as int)) + instruction_defs(ins.take(k as int)),
                defs_unique(defs_view(d@)),
                duplicate_error(*f, 0, 0) == duplicate_error(*f, b as int, k as int),
            decreases ins.len() - k,
        {
            let instruction = &block.instructions[k];
            assert(ins.take(k + 1).drop_last() =~= ins.take(k as int));
            assert(ins.take(k + 1).last() == ins[k as int]);
            match instruction_defines(instruction) {
                Some(v) => {
                    let mut j: usize = 0;
                    while j < d.len()
                        invariant
                            0 <= j <= d@.len(),
                            forall|i: int| 0 <= i < j ==> (#[trigger] d@[i]).0 != v.0,
                        decreases d@.len() - j,
                    {
                        if d[j].0 == v.0 {
                            proof {
                                let pre = defs_view(d@).push((v.0, defined_type(ins[k as int])));
                                assert(pre =~= block_defs(f.blocks@.take(b as int)) + instruction_defs(
                                    ins.take(k + 1),
                                ));
                                lemma_defs_prefix(*f, b as int, k + 1);
                                assert(function_defs(*f)[j as int] == pre[j as int]);
                                assert(function_defs(*f)[d@.len() as int] == pre[d@.len() as int]);
                                assert(defs_before(*f, b as int, k as int) == defs_view(d@));
                                assert(defs_view(d@)[j as int].0 == v.0);
                            }
                            let message = duplicate_definition_message(v.0, &f.name);
                            return Err(invalid_ir(message.as_str(), instruction.span()));
                        }
                        j += 1;
                    }
                    assert(defs_before(*f, b as int, k as int) == defs_view(d@));
                    assert(!exists|j: int| 0 <= j < defs_before(*f, b as int, k as int).len() && (#[trigger] defs_before(*f, b as int, k as int)[j]).0 == v.0);
                    let ty = defined_type_ref(instruction, int32);
                    let ghost before = d@;
                    d.push((v.0, ty));
                    assert(defs_view(d@) =~= defs_view(before).push((v.0, defined_type(ins[k as int]))));
                },
                None => {
                    assert(instruction_defs(ins.take(k + 1)) =~= instruction_defs(ins.take(k as int)));
                },
            }
            k += 1;
        }
        assert(ins.take(ins.len() as int) =~= ins);
        assert(f.blocks@.take(b + 1).drop_last() =~= f.blocks@.take(b as int));
        assert(f.blocks@.take(b + 1).last() == f.blocks@[b as int]);
        b += 1;
    }
    assert(f.blocks@.take(f.blocks@.len() as int) =~= f.blocks@);
    Ok(d)
}

/// Whether some instruction of `bb` defines `v`.
#[verifier::loop_isolation(false)]
pub fn block_defines_exec(bb: &BasicBlock, v: u32) -> (r: bool)
    ensures
        r == block_defines(*bb, v),
{
    let mut k: usize = 0;
    while k < bb.instructions.len()
        invariant
            0 <= k <= bb.instructions@.len(),
            forall|j: int| 0 <= j < k ==> !#[trigger] defines_value(bb.instructions@[j], v),
        decreases bb.instructions@.len() - k,
    {
        match instruction_defines(&bb.instructions[k]) {
            Some(d) => {
                if d.0 == v {
                    assert(defines_value(bb.instructions@[k as int], v));
                    return true;
                }
            },
            None => {},
        }
        k += 1;
    }
    false
}

/// The blocks of `f` that define `v`.
#[verifier::loop_isolation(false)]
pub fn def_mask_exec(f: &Function, v: u32) -> (r: Vec<bool>)
    ensures
        r@ == def_mask(*f, v),
{
    let mut r: Vec<bool> = Vec::new();
    let mut b: usize = 0;
    while b < f.blocks.len()
        invariant
            0 <= b <= f.blocks@.len(),
            r@.len() == b,
            forall|i: int| 0 <= i < b ==> r@[i] == block_defines(f.blocks@[i], v),
        decreases f.blocks@.len() - b,
    {
        r.push(block_defines_exec(&f.blocks[b], v));
        b += 1;
    }
    assert(r@ =~= def_mask(*f, v));
    r
}

/// Open reachability of each definition: entry `i` marks the blocks the entry
/// reaches without passing through a block that defines value `d[i]`.
pub open spec fn open_reach_valid(f: Function, d: Seq<(u32, &Type)>, reach: Seq<Vec<bool>>) -> bool {
    &&& reach.len() == d.len()
    &&& forall|i: int| 0 <= i < d.len() ==> (#[trigger] reach[i])@.len() == f.blocks@.len()
    &&& forall|i: int, b: int|
        0 <= i < d.len() && 0 <= b < f.blocks@.len() ==> (#[trigger] reach[i]@[b]) == reaches_avoiding(
            f,
            def_mask(f, d[i].0),
            f.entry.0 as int,
            b,
        )
}

/// Computes the open reachability of every definition of `d`.
#[verifier::loop_isolation(false)]
pub fn open_reach(f: &Function, d: &Vec<(u32, &Type)>) -> (r: Vec<Vec<bool>>)
    requires
        structure_valid(*f),
    ensures
        open_reach_valid(*f, d@, r@),
{
    let mut r: Vec<Vec<bool>> = Vec::new();
    let mut i: usize = 0;
    while i < d.len()
        invariant
            0 <= i <= d@.len(),
            structure_valid(*f),
            r@.len() == i,
            forall|k: int| 0 <= k < i ==> (#[trigger] r@[k])@.len() == f.blocks@.len(),
            forall|k: int, b: int|
                0 <= k < i && 0 <= b < f.blocks@.len() ==> (#[trigger] r@[k]@[b]) == reaches_avoiding(
                    *f,
                    def_mask(*f, d@[k].0),
                    f.entry.0 as int,
                    b,
                ),
        decreases d@.len() - i,
    {
        let mask = def_mask_exec(f, d[i].0);
        let row = reach_avoiding(f, &mask, f.entry.0 as usize);
        r.push(row);
        i += 1;
    }
    r
}

/// Whether `v` is defined on every executable path into block `b`.
#[verifier::loop_isolation(false)]
pub fn available_in_exec(f: &Function, d: &Vec<(u32, &Type)>, reach: &Vec<Vec<bool>>, v: u32, b: usize) -> (r:
    bool)
    requires
        defs_view(d@) == function_defs(*f),
        open_reach_valid(*f, d@, reach@),
        b < f.blocks@.len(),
    ensures
        r == available_in(*f, v, b as int),
{
    proof {
        lemma_find_type_some(function_defs(*f), v);
    }
    let mut i: usize = 0;
    while i < d.len()
        invariant
            0 <= i <= d@.len(),
            defs_view(d@) == function_defs(*f),
            forall|k: int| 0 <= k < i ==> (#[trigger] d@[k]).0 != v,
        decreases d@.len() - i,
    {
        if d[i].0 == v {
            assert(function_defs(*f)[i as int].0 == v);
            return !reach[i][b];
        }
        i += 1;
    }
    proof {
        assert forall|k: int| 0 <= k < function_defs(*f).len() implies (#[trigger] function_defs(*f)[k]).0
            != v by {
            assert(function_defs(*f)[k].0 == d@[k].0);
        }
    }
    false
}

/// Whether `v` is defined before instruction `j` of block `b` runs.
#[verifier::loop_isolation(false)]
pub fn defined_before_exec(
    f: &Function,
    d: &Vec<(u32, &Type)>,
    reach: &Vec<Vec<bool>>,
    v: u32,
    b: usize,
    j: usize,
) -> (r: bool)
    requires
        defs_view(d@) == function_defs(*f),
        open_reach_valid(*f, d@, reach@),
        b < f.blocks@.len(),
        j <= f.blocks@[b as int].instructions@.len(),
    ensures
        r == defined_before(*f, v, b as int, j as int),
{
    if available_in_exec(f, d, reach, v, b) {
        return true;
    }
    let block = &f.blocks[b];
    let mut k: usize = 0;
    while k < j
        invariant
            0 <= k <= j,
            j <= block.instructions@.len(),
            block == &f.blocks@[b as int],
            forall|i: int| 0 <= i < k ==> !#[trigger] defines_value(block.instructions@[i], v),
        decreases j - k,
    {
        match instruction_defines(&block.instructions[k]) {
            Some(dv) => {
                if dv.0 == v {
                    assert(defines_value(block.instructions@[k as int], v));
                    return true;
                }
            },
            None => {},
        }
        k += 1;
    }
    false
}

/// Whether `v` is defined on every executable path out of block `b`.
pub fn available_out_exec(f: &Function, d: &Vec<(u32, &Type)>, reach: &Vec<Vec<bool>>, v: u32, b: usize) -> (r:
    bool)
    requires
        defs_view(d@) == function_defs(*f),
        open_reach_valid(*f, d@, reach@),
        b < f.blocks@.len(),
    ensures
        r == available_out(*f, v, b as int),
{
    available_in_exec(f, d, reach, v, b) || block_defines_exec(&f.blocks[b], v)
}

/// Whether block `to` follows block `from` directly.
#[verifier::loop_isolation(false)]
pub fn edge_exec(f: &Function, from: usize, to: usize) -> (r: bool)
    requires
        from < f.blocks@.len(),
        to < f.blocks@.len(),
    ensures
        r == edge(*f, from as int, to as int),
{
    let targets = block_successors(&f.blocks[from].terminator);
    let mut k: usize = 0;
    while k < targets.len()
        invariant
            0 <= k <= targets@.len(),
            targets@ == successors(f.blocks@[from as int].terminator),
            forall|j: int| 0 <= j < k ==> (#[trigger] targets@[j]) as int != to,
        decreases targets@.len() - k,
    {
        if targets[k] as usize == to {
            assert(successors(f.blocks@[from as int].terminator)[k as int] as int == to as int);
            return true;
        }
        k += 1;
    }
    proof {
        assert forall|j: int|
            0 <= j < successors(f.blocks@[from as int].terminator).len() implies (#[trigger] successors(
                f.blocks@[from as int].terminator,
            )[j]) as int != to by {
            assert(targets@[j] == successors(f.blocks@[from as int].terminator)[j]);
        }
    }
    false
}

/// Checks a Phi of block `b`: its incoming edges against the executable
/// predecessors, the availability of each incoming value and its type.
#[verifier::loop_isolation(false)]
pub fn validate_phi(
    f: &Function,
    d: &Vec<(u32, &Type)>,
    reach: &Vec<Vec<bool>>,
    executable: &Vec<bool>,
    b: usize,
    incoming: &Vec<(BlockId, ValueId)>,
    ty: &Type,
    span: Span,
) -> (r: Result<(), Diagnostic>)
    requires
        defs_view(d@) == function_defs(*f),
        open_reach_valid(*f, d@, reach@),
        executable@.len() == f.blocks@.len(),
        forall|p: int| 0 <= p < f.blocks@.len() ==> #[trigger] executable@[p] == reachable(*f, p),
        b < f.blocks@.len(),
    ensures
        r is Ok <==> phi_valid(*f, b as int, incoming@, ty@),
        r is Ok <==> phi_error(*f, b as int, incoming@, ty@, span) is None,
        r matches Err(e) ==> e.code@ == invalid_ir_code() && phi_error(*f, b as int, incoming@, ty@, span)
            == Some((e.message@, e.span)),
{
    let n = f.blocks.len();
    let ghost fd = function_defs(*f);
    let ghost inc = incoming@;
    let mut k: usize = 0;
    while k < incoming.len()
        invariant
            0 <= k <= inc.len(),
            inc == incoming@,
            n == f.blocks@.len(),
            forall|i: int| 0 <= i < k ==> #[trigger] phi_entry_ok(*f, inc, i),
            phi_entries_error(*f, b as int, inc, 0) == phi_entries_error(*f, b as int, inc, k as int),
        decreases inc.len() - k,
    {
        let (pred, value) = incoming[k];
        assert(inc[k as int] == (pred, value));
        let p = pred.0 as usize;
        let mut fresh = true;
        let mut k2: usize = 0;
        while k2 < k
            invariant
                0 <= k2 <= k < inc.len(),
                inc == incoming@,
                inc[k as int].0 == pred,
                fresh <==> forall|i: int| 0 <= i < k2 ==> (#[trigger] inc[i]).0 != pred,
            decreases k - k2,
        {
            if incoming[k2].0.0 == pred.0 {
                fresh = false;
            }
            k2 += 1;
        }
        if p >= n || !executable[p] || !fresh || !available_out_exec(f, d, reach, value.0, p) {
            assert(!phi_entry_ok(*f, inc, k as int));
            let message = phi_entry_message_text(b, pred.0, value.0);
            return Err(invalid_ir(message.as_str(), f.span));
        }
        assert(phi_entry_ok(*f, inc, k as int));
        k += 1;
    }
    assert(phi_entries_error(*f, b as int, inc, 0) is None);
    let mut k: usize = 0;
    while k < incoming.len()
        invariant
            0 <= k <= inc.len(),
            inc == incoming@,
            n == f.blocks@.len(),
            forall|i: int| 0 <= i < inc.len() ==> #[trigger] phi_entry_ok(*f, inc, i),
            forall|i: int| 0 <= i < k ==> edge(*f, (#[trigger] inc[i]).0.0 as int, b as int),
            phi_entries_error(*f, b as int, inc, 0) is None,
        decreases inc.len() - k,
    {
        assert(phi_entry_ok(*f, inc, k as int));
        if !edge_exec(f, incoming[k].0.0 as usize, b) {
            return Err(invalid_ir("Phi incoming edges must match the block predecessors exactly", f.span));
        }
        k += 1;
    }
    let mut p: usize = 0;
    while p < n
        invariant
            0 <= p <= n,
            n == f.blocks@.len(),
            inc == incoming@,
            forall|q: int|
                0 <= q < p && reachable(*f, q) && #[trigger] edge(*f, q, b as int) ==> exists|i: int|
                    0 <= i < inc.len() && (#[trigger] inc[i]).0.0 == q,
            forall|i: int| 0 <= i < inc.len() ==> #[trigger] phi_entry_ok(*f, inc, i),
            forall|i: int| 0 <= i < inc.len() ==> edge(*f, (#[trigger] inc[i]).0.0 as int, b as int),
            phi_entries_error(*f, b as int, inc, 0) is None,
        decreases n - p,
    {
        if executable[p] && edge_exec(f, p, b) {
            let mut i: usize = 0;
            let mut found = false;
            while i < incoming.len()
                invariant
                    0 <= i <= inc.len(),
                    inc == incoming@,
                    found ==> exists|j: int| 0 <= j < inc.len() && (#[trigger] inc[j]).0.0 == p,
                    !found ==> forall|j: int| 0 <= j < i ==> (#[trigger] inc[j]).0.0 != p,
                decreases inc.len() - i,
            {
                if incoming[i].0.0 as usize == p {
                    found = true;
                }
                i += 1;
            }
            if !found {
                assert(!phi_edges_exact(*f, b as int, inc));
                return Err(
                    invalid_ir("Phi incoming edges must match the block predecessors exactly", f.span),
                );
            }
        }
        p += 1;
    }
    assert(phi_edges_exact(*f, b as int, inc));
    let mut k: usize = 0;
    while k < incoming.len()
        invariant
            0 <= k <= inc.len(),
            inc == incoming@,
            fd == function_defs(*f),
            defs_view(d@) == fd,
            forall|i: int| 0 <= i < inc.len() ==> #[trigger] phi_entry_ok(*f, inc, i),
            phi_edges_exact(*f, b as int, inc),
            phi_entries_error(*f, b as int, inc, 0) is None,
            forall|i: int|
                0 <= i < k ==> (find_type(fd, (#[trigger] inc[i]).1.0) matches Some(t) && types_compatible(
                    t,
                    ty@,
                )),
        decreases inc.len() - k,
    {
        let fits = match lookup_type(d, incoming[k].1) {
            Some(t) => types_compatible_exec(t, ty),
            None => false,
        };
        if !fits {
            assert(!phi_types_fit(*f, inc, ty@));
            return Err(invalid_ir("Phi incoming values must match the Phi result type", span));
        }
        k += 1;
    }
    assert(phi_types_fit(*f, inc, ty@));
    assert forall|k1: int, k2: int| 0 <= k1 < k2 < inc.len() implies (#[trigger] inc[k1]).0 != (
    #[trigger] inc[k2]).0 by {
        assert(phi_entry_ok(*f, inc, k2));
    }
    assert forall|i: int| 0 <= i < inc.len() implies {
        let q = (#[trigger] inc[i]).0.0 as int;
        let v = inc[i].1.0;
        &&& q < f.blocks@.len()
        &&& reachable(*f, q)
        &&& edge(*f, q, b as int)
        &&& available_out(*f, v, q)
        &&& find_type(fd, v) matches Some(t) && types_compatible(t, ty@)
    } by {
        assert(phi_entry_ok(*f, inc, i));
    }
    assert(phi_valid(*f, b as int, inc, ty@));
    Ok(())
}

/// The message for a Phi entry that is refused on its own.
fn phi_entry_message_text(b: usize, p: u32, v: u32) -> (r: String)
    ensures
        r@ == phi_entry_message(b as int, p as int, v),
{
    let mut r = String::new();
    push_str(&mut r, "Phi in block ");
    push_decimal(&mut r, b as u128);
    push_str(&mut r, " has invalid incoming predecessor ");
    push_decimal(&mut r, p as u128);
    push_str(&mut r, " and value %");
    push_decimal(&mut r, v as u128);
    assert(r@ =~= phi_entry_message(b as int, p as int, v));
    r
}

/// Checks a returned value, if any, against the function's return type.
pub fn validate_return_type(f: &Function, value: Option<ValueId>, d: &Vec<(u32, &Type)>) -> (r: Result<
    (),
    Diagnostic,
>)
    requires
        defs_view(d@) == function_defs(*f),
    ensures
        r is Ok <==> return_valid(*f, value),
        r is Ok <==> return_error(*f, value) is None,
        r matches Err(e) ==> e.code@ == invalid_ir_code() && e.span == f.span && return_error(*f, value)
            == Some(e.message@),
{
    let void_only = is_void_type_exec(&f.return_type);
    match value {
        Some(v) => {
            if void_only {
                return Err(invalid_ir("VOID function cannot return a value", f.span));
            }
            let fits = match lookup_type(d, v) {
                Some(t) => types_compatible_exec(t, &f.return_type),
                None => false,
            };
            if !fits {
                return Err(
                    invalid_ir("return value does not match the function return type", f.span),
                );
            }
            Ok(())
        },
        None => {
            if void_only {
                return Ok(());
            }
            let allows_void = match &f.return_type {
                Type::Alternative(options) => {
                    let mut k: usize = 0;
                    let mut any = false;
                    while k < options.len()
                        invariant
                            0 <= k <= options@.len(),
                            any ==> exists|j: int| 0 <= j < options@.len() && is_void_type(#[trigger] options@[j]@),
                            !any ==> forall|j: int| 0 <= j < k ==> !is_void_type(#[trigger] options@[j]@),
                        decreases options@.len() - k,
                    {
                        if is_void_type_exec(&options[k]) {
                            any = true;
                        }
                        k += 1;
                    }
                    proof {
                        crate::types::lemma_types_view(options@);
                        if any {
                            let j = choose|j: int| 0 <= j < options@.len() && is_void_type(#[trigger] options@[j]@);
                            assert(crate::types::types_view(options@)[j] == options@[j]@);
                        } else {
                            assert forall|j: int| 0 <= j < options@.len() implies !is_void_type(
                                #[trigger] crate::types::types_view(options@)[j],
                            ) by {
                                assert(crate::types::types_view(options@)[j] == options@[j]@);
                            }
                        }
                    }
                    any
                },
                _ => false,
            };
            if !allows_void {
                return Err(invalid_ir("non-VOID function must return a value", f.span));
            }
            Ok(())
        },
    }
}

/// Everything `check_block` needs to know about the function it checks.
pub open spec fn block_context(
    m: Module,
    f: Function,
    d: Seq<(u32, &Type)>,
    reach: Seq<Vec<bool>>,
    executable: Seq<bool>,
) -> bool {
    &&& m.wf()
    &&& bases_acyclic(m)
    &&& structure_valid(f)
    &&& defs_view(d) == function_defs(f)
    &&& open_reach_valid(f, d, reach)
    &&& executable.len() == f.blocks@.len()
    &&& forall|p: int| 0 <= p < f.blocks@.len() ==> #[trigger] executable[p] == reachable(f, p)
}

/// Checks that every operand of instruction `j` of block `b` is defined
/// before it runs.
#[verifier::loop_isolation(false)]
fn check_uses(f: &Function, d: &Vec<(u32, &Type)>, reach: &Vec<Vec<bool>>, b: usize, j: usize) -> (r: bool)
    requires
        defs_view(d@) == function_defs(*f),
        open_reach_valid(*f, d@, reach@),
        b < f.blocks@.len(),
        j < f.blocks@[b as int].instructions@.len(),
    ensures
        r == uses_defined(*f, b as int, j as int),
{
    let instruction = &f.blocks[b].instructions[j];
    let uses = instruction_uses(instruction);
    let own = instruction_defines(instruction);
    let mut k: usize = 0;
    while k < uses.len()
        invariant
            0 <= k <= uses@.len(),
            uses@ == spec_instruction_uses(*instruction),
            own == spec_instruction_defines(*instruction),
            *instruction == f.blocks@[b as int].instructions@[j as int],
            forall|i: int|
                0 <= i < k ==> {
                    let u = (#[trigger] uses@[i]).0;
                    defined_before(*f, u, b as int, j as int) || defines_value(*instruction, u)
                },
        decreases uses@.len() - k,
    {
        let u = uses[k];
        let own_use = match own {
            Some(o) => o.0 == u.0,
            None => false,
        };
        if !own_use && !defined_before_exec(f, d, reach, u.0, b, j) {
            assert(!defines_value(*instruction, u.0));
            return false;
        }
        k += 1;
    }
    true
}

/// Checks the terminator of block `b`.
fn check_terminator(f: &Function, d: &Vec<(u32, &Type)>, reach: &Vec<Vec<bool>>, b: usize) -> (r: Result<
    (),
    Diagnostic,
>)
    requires
        defs_view(d@) == function_defs(*f),
        open_reach_valid(*f, d@, reach@),
        b < f.blocks@.len(),
    ensures
        r is Ok <==> terminator_valid(*f, b as int),
        r is Ok <==> terminator_error(*f, b as int) is None,
        r matches Err(e) ==> e.code@ == invalid_ir_code() && e.span == f.span && terminator_error(
            *f,
            b as int,
        ) == Some(e.message@),
{
    let n = f.blocks[b].instructions.len();
    match &f.blocks[b].terminator {
        Terminator::Jump { .. } => Ok(()),
        Terminator::Branch { condition, .. } => {
            if !defined_before_exec(f, d, reach, condition.0, b, n) {
                return Err(invalid_ir("branch condition is not defined", f.span));
            }
            let boolean = match lookup_type(d, *condition) {
                Some(t) => matches!(t, Type::Boolean),
                None => false,
            };
            if !boolean {
                return Err(invalid_ir("branch condition must have BOOLEAN type", f.span));
            }
            Ok(())
        },
        Terminator::Return { value } => {
            match value {
                Some(v) => {
                    if !defined_before_exec(f, d, reach, v.0, b, n) {
                        return Err(invalid_ir("terminator value is not defined", f.span));
                    }
                },
                None => {},
            }
            validate_return_type(f, *value, d)
        },
        Terminator::Stop { code } => {
            if !defined_before_exec(f, d, reach, code.0, b, n) {
                return Err(invalid_ir("terminator value is not defined", f.span));
            }
            let integer = match lookup_type(d, *code) {
                Some(t) => crate::typing::is_integer_type_exec(t),
                None => false,
            };
            if !integer {
                return Err(invalid_ir("stop code must have an integer type", f.span));
            }
            Ok(())
        },
    }
}

/// Checks instruction `j` of block `b`; `saw_non_phi` tells whether an
/// earlier instruction of the block is not a Phi.
fn check_instruction(
    m: &Module,
    f: &Function,
    d: &Vec<(u32, &Type)>,
    reach: &Vec<Vec<bool>>,
    executable: &Vec<bool>,
    b: usize,
    j: usize,
    saw_non_phi: bool,
) -> (r: Result<(), Diagnostic>)
    requires
        block_context(*m, *f, d@, reach@, executable@),
        b < f.blocks@.len(),
        j < f.blocks@[b as int].instructions@.len(),
        saw_non_phi <==> exists|k: int|
            0 <= k < j && !((#[trigger] f.blocks@[b as int].instructions@[k]) is Phi),
    ensures
        r is Ok <==> instruction_error(*m, *f, b as int, j as int) is None,
        r matches Err(e) ==> e.code@ == invalid_ir_code() && instruction_error(*m, *f, b as int, j as int)
            == Some((e.message@, e.span)),
        r is Ok ==> instruction_valid(*m, *f, b as int, j as int) && !(
        f.blocks@[b as int].instructions@[j as int] is Phi && saw_non_phi),
        r is Err ==> !instruction_valid(*m, *f, b as int, j as int) || (
        f.blocks@[b as int].instructions@[j as int] is Phi && saw_non_phi),
{
    reveal(instruction_error);
    let instruction = &f.blocks[b].instructions[j];
    match instruction {
        Instruction::Phi { incoming, ty, span, .. } => {
            if saw_non_phi {
                return Err(
                    invalid_ir("Phi instructions must precede other instructions in a block", *span),
                );
            }
            validate_phi(f, d, reach, executable, b, incoming, ty, *span)
        },
        _ => {
            if !check_uses(f, d, reach, b, j) {
                return Err(
                    invalid_ir(
                        "instruction uses a value that is not defined on every executable path",
                        f.span,
                    ),
                );
            }
            validate_instruction_types(m, instruction, d)
        },
    }
}

/// Checks every rule of executable block `b`.
pub fn check_block(
    m: &Module,
    f: &Function,
    d: &Vec<(u32, &Type)>,
    reach: &Vec<Vec<bool>>,
    executable: &Vec<bool>,
    b: usize,
) -> (r: Result<(), Diagnostic>)
    requires
        block_context(*m, *f, d@, reach@, executable@),
        b < f.blocks@.len(),
    ensures
        r is Ok <==> block_valid(*m, *f, b as int),
        r is Ok <==> block_error(*m, *f, b as int) is None,
        r matches Err(e) ==> e.code@ == invalid_ir_code() && block_error(*m, *f, b as int) == Some(
            (e.message@, e.span),
        ),
{
    let block = &f.blocks[b];
    let ghost ins = f.blocks@[b as int].instructions@;
    let mut saw_non_phi = false;
    let mut j: usize = 0;
    while j < block.instructions.len()
        invariant
            block_context(*m, *f, d@, reach@, executable@),
            b < f.blocks@.len(),
            0 <= j <= ins.len(),
            block == &f.blocks@[b as int],
            ins == block.instructions@,
            forall|i: int| 0 <= i < j ==> #[trigger] instruction_valid(*m, *f, b as int, i),
            phis_first(ins.take(j as int)),
            saw_non_phi <==> exists|k: int| 0 <= k < j && !((#[trigger] ins[k]) is Phi),
            instructions_error(*m, *f, b as int, 0) == instructions_error(*m, *f, b as int, j as int),
        decreases ins.len() - j,
    {
        let checked = check_instruction(m, f, d, reach, executable, b, j, saw_non_phi);
        if checked.is_err() {
            proof {
                if ins[j as int] is Phi && saw_non_phi {
                    let k = choose|k: int| 0 <= k < j && !((#[trigger] ins[k]) is Phi);
                    assert(!phis_first(ins));
                }
            }
            return checked;
        }
        assert forall|j1: int, j2: int|
            0 <= j1 < j2 < j + 1 && (#[trigger] ins.take(j + 1)[j2]) is Phi implies (#[trigger] ins.take(
                j + 1,
            )[j1]) is Phi by {
            if j2 < j {
                assert(ins.take(j as int)[j2] == ins[j2]);
                assert(ins.take(j as int)[j1] == ins[j1]);
            } else {
                assert(ins.take(j + 1)[j1] == ins[j1]);
            }
        }
        if !matches!(block.instructions[j], Instruction::Phi { .. }) {
            saw_non_phi = true;
        }
        j += 1;
    }
    assert(ins.take(ins.len() as int) =~= ins);
    check_terminator(f, d, reach, b)
}

/// Checks every rule of one function.
pub fn validate_function(m: &Module, f: &Function) -> (r: Result<(), Diagnostic>)
    requires
        m.wf(),
        bases_acyclic(*m),
    ensures
        r is Ok <==> function_valid(*m, *f),
        r is Ok <==> function_error(*m, *f) is None,
        r matches Err(e) ==> e.code@ == invalid_ir_code() && function_error(*m, *f) == Some(
            (e.message@, e.span),
        ),
{
    validate_structure(f)?;
    let int32 = Type::Integer(IntegerType::Int32);
    let d = collect_definitions(f, &int32)?;
    let reach = open_reach(f, &d);
    let executable = reachable_blocks(f);
    let n = f.blocks.len();
    let mut b: usize = 0;
    while b < n
        invariant
            0 <= b <= n,
            n == f.blocks@.len(),
            block_context(*m, *f, d@, reach@, executable@),
            forall|c: int| 0 <= c < b && reachable(*f, c) ==> #[trigger] block_valid(*m, *f, c),
            blocks_error(*m, *f, 0) == blocks_error(*m, *f, b as int),
            function_error(*m, *f) == blocks_error(*m, *f, 0),
        decreases n - b,
    {
        if executable[b] {
            let checked = check_block(m, f, &d, &reach, &executable, b);
            if checked.is_err() {
                return checked;
            }
        }
        b += 1;
    }
    Ok(())
}

/// The span of the module's first function, or the unknown span.
fn module_span(m: &Module) -> (s: Span)
    ensures
        s == module_span_of(*m),
{
    if m.functions.len() > 0 {
        m.functions[0].span
    } else {
        unknown_span()
    }
}

/// Enforces the language-level IR contract: inheritance metadata, field
/// layouts, function kinds, and for every function its block structure,
/// unique definitions, definite assignment along every executable path, Phi
/// edges, instruction types and terminators. Backend capability gaps are not
/// checked here.
pub fn validate(m: &Module) -> (r: Result<(), Diagnostic>)
    requires
        m.wf(),
    ensures
        r is Ok <==> module_valid(*m),
        r is Ok <==> module_error(*m) is None,
        r matches Err(e) ==> e.code@ == invalid_ir_code() && module_error(*m) == Some((e.message@, e.span)),
{
    let span = module_span(m);
    validate_class_bases(m, span)?;
    assert(bases_acyclic(*m)) by {
        assert forall|i: int| 0 <= i < m.class_bases@.len() implies crate::hierarchy::walk_ends(
            *m,
            (#[trigger] m.class_bases@[i]).0@,
        ) by {
            let e = m.class_bases@[i];
        }
    }
    validate_field_layouts(m, span)?;
    validate_function_kinds(m)?;
    let mut i: usize = 0;
    while i < m.functions.len()
        invariant
            0 <= i <= m.functions@.len(),
            m.wf(),
            bases_acyclic(*m),
            forall|k: int| 0 <= k < i ==> function_valid(*m, #[trigger] m.functions@[k]),
            module_error(*m) == functions_error(*m, i as int),
        decreases m.functions@.len() - i,
    {
        validate_function(m, &m.functions[i])?;
        i += 1;
    }
    Ok(())
}

/// A module that has passed `validate`: every value of this type holds a
/// well-formed module that satisfies `module_valid`.
pub struct ValidatedModule {
    module: Module,
}

impl ValidatedModule {
    /// The validity this wrapper stands for.
    #[verifier::type_invariant]
    spec fn valid(self) -> bool {
        self.module.wf() && module_valid(self.module)
    }

    /// The module inside.
    pub closed spec fn inner(&self) -> Module {
        self.module
    }

    pub fn as_module(&self) -> (r: &Module)
        ensures
            *r == self.inner(),
            r.wf(),
            module_valid(*r),
    {
        proof {
            use_type_invariant(self);
        }
        &self.module
    }

    pub fn into_module(self) -> (r: Module)
        ensures
            r == self.inner(),
            r.wf(),
            module_valid(r),
    {
        proof {
            use_type_invariant(&self);
        }
        self.module
    }
}

/// Validates a module and, when it passes, wraps it as validated.
pub fn validate_module(module: Module) -> (r: Result<ValidatedModule, Diagnostic>)
    requires
        module.wf(),
    ensures
        r matches Ok(v) ==> v.inner() == module,
        r is Ok <==> module_valid(module),
        r matches Err(e) ==> e.code@ == invalid_ir_code() && module_error(module) == Some(
            (e.message@, e.span),
        ),
{
    validate(&module)?;
    Ok(ValidatedModule { module })
}

} // verus!
