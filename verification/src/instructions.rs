//! What each instruction defines, reads and declares.
use vstd::prelude::*;
use crate::model::{BasicBlock, Instruction, ValueId};
use crate::types::{IntegerType, Type, TypeV};

verus! {

/// The SSA value an instruction defines, if any.
pub open spec fn spec_instruction_defines(i: Instruction) -> Option<ValueId> {
    match i {
        Instruction::Constant { destination, .. } => Some(destination),
        Instruction::Default { destination, .. } => Some(destination),
        Instruction::Phi { destination, .. } => Some(destination),
        Instruction::Load { destination, .. } => Some(destination),
        Instruction::Copy { destination, .. } => Some(destination),
        Instruction::Unary { destination, .. } => Some(destination),
        Instruction::Binary { destination, .. } => Some(destination),
        Instruction::Cast { destination, .. } => Some(destination),
        Instruction::Call { destination, .. } => Some(destination),
        Instruction::DispatchSubmit { destination, .. } => Some(destination),
        Instruction::DispatchAwait { destination, .. } => Some(destination),
        Instruction::Input { destination, .. } => Some(destination),
        Instruction::Vector { destination, .. } => Some(destination),
        Instruction::Index { destination, .. } => Some(destination),
        Instruction::Member { destination, .. } => Some(destination),
        Instruction::Length { destination, .. } => Some(destination),
        Instruction::SizeOf { destination, .. } => Some(destination),
        Instruction::Allocate { destination, .. } => Some(destination),
        Instruction::LoadStatic { destination, .. } => Some(destination),
        _ => None,
    }
}

pub fn instruction_defines(i: &Instruction) -> (r: Option<ValueId>)
    ensures
        r == spec_instruction_defines(*i),
{
    match i {
        Instruction::Constant { destination, .. }
        | Instruction::Default { destination, .. }
        | Instruction::Phi { destination, .. }
        | Instruction::Load { destination, .. }
        | Instruction::Copy { destination, .. }
        | Instruction::Unary { destination, .. }
        | Instruction::Binary { destination, .. }
        | Instruction::Cast { destination, .. }
        | Instruction::Call { destination, .. }
        | Instruction::DispatchSubmit { destination, .. }
        | Instruction::DispatchAwait { destination, .. }
        | Instruction::Input { destination, .. }
        | Instruction::Vector { destination, .. }
        | Instruction::Index { destination, .. }
        | Instruction::Member { destination, .. }
        | Instruction::Length { destination, .. }
        | Instruction::SizeOf { destination, .. }
        | Instruction::Allocate { destination, .. }
        | Instruction::LoadStatic { destination, .. } => Some(*destination),
        _ => None,
    }
}

pub open spec fn phi_values(incoming: Seq<(crate::model::BlockId, ValueId)>) -> Seq<ValueId> {
    incoming.map_values(|e: (crate::model::BlockId, ValueId)| e.1)
}

pub open spec fn option_values(o: Option<ValueId>) -> Seq<ValueId> {
    match o {
        Some(v) => seq![v],
        None => Seq::empty(),
    }
}

/// Every SSA operand an instruction reads, in operand order.
pub open spec fn spec_instruction_uses(i: Instruction) -> Seq<ValueId> {
    match i {
        Instruction::Copy { source, .. } => seq![source],
        Instruction::Unary { operand, .. } => seq![operand],
        Instruction::Cast { value, .. } => seq![value],
        Instruction::Length { vector, .. } => seq![vector],
        Instruction::SizeOf { value, .. } => seq![value],
        Instruction::Store { value, .. } => seq![value],
        Instruction::Release { value, .. } => seq![value],
        Instruction::Binary { left, right, .. } => seq![left, right],
        Instruction::Call { callee, arguments, .. } => seq![callee] + arguments@,
        Instruction::DispatchSubmit { callee, queue, task, arguments, .. } => seq![callee, queue, task]
            + arguments@,
        Instruction::DispatchAwait { callee, ticket, timeout, .. } => seq![callee, ticket, timeout],
        Instruction::Vector { values, .. } => values@,
        Instruction::Print { values, .. } => values@,
        Instruction::Index { object, index, .. } => seq![object, index],
        Instruction::Member { object, .. } => seq![object],
        Instruction::ClearScreen { console, .. } => seq![console],
        Instruction::Beep { console, .. } => seq![console],
        Instruction::SetIndex { indices, value, .. } => indices@.push(value),
        Instruction::SetFieldIndex { indices, value, .. } => indices@.push(value),
        Instruction::SetStaticIndex { indices, value, .. } => indices@.push(value),
        Instruction::SetMemberIndex { object, indices, value, .. } => (seq![object] + indices@).push(
            value,
        ),
        Instruction::SetMember { object, value, .. } => seq![object, value],
        Instruction::SetField { value, .. } => seq![value],
        Instruction::StoreStatic { value, .. } => seq![value],
        Instruction::Allocate { arguments, .. } => arguments@,
        Instruction::Default { dynamic_dimensions, .. } => dynamic_dimensions@,
        Instruction::Phi { incoming, .. } => phi_values(incoming@),
        Instruction::Input { prompt, .. } => option_values(prompt),
        _ => Seq::empty(),
    }
}

fn copy_values(values: &Vec<ValueId>, out: &mut Vec<ValueId>)
    ensures
        final(out)@ == old(out)@ + values@,
{
    let ghost start = out@;
    let mut i: usize = 0;
    while i < values.len()
        invariant
            0 <= i <= values@.len(),
            out@ == start + values@.take(i as int),
        decreases values@.len() - i,
    {
        out.push(values[i]);
        i += 1;
        assert(out@ =~= start + values@.take(i as int));
    }
    assert(values@.take(values@.len() as int) =~= values@);
}

/// Enumerates every SSA operand read by an instruction.
pub fn instruction_uses(instruction: &Instruction) -> (r: Vec<ValueId>)
    ensures
        r@ == spec_instruction_uses(*instruction),
{
    let mut used: Vec<ValueId> = Vec::new();
    match instruction {
        Instruction::Copy { source: x, .. }
        | Instruction::Unary { operand: x, .. }
        | Instruction::Cast { value: x, .. }
        | Instruction::Length { vector: x, .. }
        | Instruction::SizeOf { value: x, .. }
        | Instruction::Store { value: x, .. }
        | Instruction::Release { value: x, .. }
        | Instruction::Member { object: x, .. }
        | Instruction::ClearScreen { console: x, .. }
        | Instruction::Beep { console: x, .. }
        | Instruction::SetField { value: x, .. }
        | Instruction::StoreStatic { value: x, .. } => {
            used.push(*x);
        },
        Instruction::Binary { left, right, .. } => {
            used.push(*left);
            used.push(*right);
        },
        Instruction::Call { callee, arguments, .. } => {
            used.push(*callee);
            copy_values(arguments, &mut used);
        },
        Instruction::DispatchSubmit { callee, queue, task, arguments, .. } => {
            used.push(*callee);
            used.push(*queue);
            used.push(*task);
            copy_values(arguments, &mut used);
        },
        Instruction::DispatchAwait { callee, ticket, timeout, .. } => {
            used.push(*callee);
            used.push(*ticket);
            used.push(*timeout);
        },
        Instruction::Vector { values, .. } | Instruction::Print { values, .. } => {
            copy_values(values, &mut used);
        },
        Instruction::Index { object, index, .. } => {
            used.push(*object);
            used.push(*index);
        },
        Instruction::SetIndex { indices, value, .. }
        | Instruction::SetFieldIndex { indices, value, .. }
        | Instruction::SetStaticIndex { indices, value, .. } => {
            copy_values(indices, &mut used);
            used.push(*value);
        },
        Instruction::SetMemberIndex { object, indices, value, .. } => {
            used.push(*object);
            copy_values(indices, &mut used);
            used.push(*value);
        },
        Instruction::SetMember { object, value, .. } => {
            used.push(*object);
            used.push(*value);
        },
        Instruction::Allocate { arguments: values, .. }
        | Instruction::Default { dynamic_dimensions: values, .. } => {
            copy_values(values, &mut used);
        },
        Instruction::Phi { incoming, .. } => {
            let mut i: usize = 0;
            while i < incoming.len()
                invariant
                    0 <= i <= incoming@.len(),
                    used@ == phi_values(incoming@.take(i as int)),
                decreases incoming@.len() - i,
            {
                used.push(incoming[i].1);
                i += 1;
                assert(used@ =~= phi_values(incoming@.take(i as int)));
            }
            assert(incoming@.take(incoming@.len() as int) =~= incoming@);
        },
        Instruction::Input { prompt, .. } => {
            match prompt {
                Some(p) => used.push(*p),
                None => {},
            }
        },
        _ => {},
    }
    assert(used@ =~= spec_instruction_uses(*instruction));
    used
}

/// The declared type of an instruction's result: its type field, or a
/// 32-bit integer for `Length` and `SizeOf`.
pub open spec fn defined_type(i: Instruction) -> TypeV {
    match i {
        Instruction::Constant { ty, .. } => ty@,
        Instruction::Default { ty, .. } => ty@,
        Instruction::Phi { ty, .. } => ty@,
        Instruction::Load { ty, .. } => ty@,
        Instruction::Copy { ty, .. } => ty@,
        Instruction::Unary { ty, .. } => ty@,
        Instruction::Binary { ty, .. } => ty@,
        Instruction::Cast { ty, .. } => ty@,
        Instruction::Call { ty, .. } => ty@,
        Instruction::DispatchSubmit { ty, .. } => ty@,
        Instruction::DispatchAwait { ty, .. } => ty@,
        Instruction::Input { ty, .. } => ty@,
        Instruction::Vector { ty, .. } => ty@,
        Instruction::Index { ty, .. } => ty@,
        Instruction::Member { ty, .. } => ty@,
        Instruction::Allocate { ty, .. } => ty@,
        Instruction::LoadStatic { ty, .. } => ty@,
        _ => TypeV::Integer(IntegerType::Int32),
    }
}

/// The declared type of the value an instruction defines. `int32` is the
/// 32-bit integer type used for `Length` and `SizeOf` results.
pub fn defined_type_ref<'a>(i: &'a Instruction, int32: &'a Type) -> (r: &'a Type)
    requires
        int32@ == TypeV::Integer(IntegerType::Int32),
    ensures
        r@ == defined_type(*i),
{
    match i {
        Instruction::Constant { ty, .. }
        | Instruction::Default { ty, .. }
        | Instruction::Phi { ty, .. }
        | Instruction::Load { ty, .. }
        | Instruction::Copy { ty, .. }
        | Instruction::Unary { ty, .. }
        | Instruction::Binary { ty, .. }
        | Instruction::Cast { ty, .. }
        | Instruction::Call { ty, .. }
        | Instruction::DispatchSubmit { ty, .. }
        | Instruction::DispatchAwait { ty, .. }
        | Instruction::Input { ty, .. }
        | Instruction::Vector { ty, .. }
        | Instruction::Index { ty, .. }
        | Instruction::Member { ty, .. }
        | Instruction::Allocate { ty, .. }
        | Instruction::LoadStatic { ty, .. } => ty,
        _ => int32,
    }
}

/// The (value, type) pairs an instruction sequence defines, in order.
pub open spec fn instruction_defs(s: Seq<Instruction>) -> Seq<(u32, TypeV)>
    decreases s.len(),
{
    if s.len() == 0 {
        Seq::empty()
    } else {
        instruction_defs(s.drop_last()) + match spec_instruction_defines(s.last()) {
            Some(d) => seq![(d.0, defined_type(s.last()))],
            None => Seq::empty(),
        }
    }
}

/// The (value, type) pairs a function's blocks define, block by block.
pub open spec fn block_defs(blocks: Seq<BasicBlock>) -> Seq<(u32, TypeV)>
    decreases blocks.len(),
{
    if blocks.len() == 0 {
        Seq::empty()
    } else {
        block_defs(blocks.drop_last()) + instruction_defs(blocks.last().instructions@)
    }
}

/// The type of the last definition of `v` in a definition list.
pub open spec fn find_type(defs: Seq<(u32, TypeV)>, v: u32) -> Option<TypeV>
    decreases defs.len(),
{
    if defs.len() == 0 {
        None
    } else if defs.last().0 == v {
        Some(defs.last().1)
    } else {
        find_type(defs.drop_last(), v)
    }
}

} // verus!
