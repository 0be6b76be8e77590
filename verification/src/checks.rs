//! The per-instruction type contract of the IR.
use vstd::prelude::*;
use crate::fields::{
    FieldReferenceFault, field_reference_check, member_fault_message, resolved_path_error, field_reference_type, receiver_matches_owner, receiver_matches_owner_exec, refs_view,
    resolved_path_type, validate_field_reference, validate_resolved_field_path,
};
use crate::hierarchy::bases_acyclic;
use crate::instructions::find_type;
use crate::model::{FieldRef, Instruction, Module, ValueId, spec_span};
use crate::source::{Diagnostic, Span, invalid_ir, invalid_ir_code};
use crate::text::{chars_of, push_str};
use crate::types::{Type, TypeV, OPEN_DIMENSION, type_view, types_view};
use crate::typing::{
    assignment_types_compatible, assignment_types_compatible_exec, call_types_compatible,
    call_types_compatible_exec, constant_matches_type, constant_matches_type_exec,
    contains_named_type, contains_named_type_exec, index_result_matches,
    index_result_matches_exec, is_dispatch_wait_handle, is_dispatch_wait_handle_exec,
    is_integer_type, is_integer_type_exec, is_numeric_type, is_numeric_type_exec,
    types_compatible, types_compatible_exec, valid_binary_types, valid_binary_types_exec,
    valid_cast_types, valid_cast_types_exec, valid_unary_types, valid_unary_types_exec,
    vector_element, vector_element_exec,
};

verus! {

/// A definition list with each type given by reference.
pub open spec fn defs_view(s: Seq<(u32, &Type)>) -> Seq<(u32, TypeV)> {
    s.map_values(|e: (u32, &Type)| (e.0, e.1@))
}

/// The type of the last definition of `v` in the list.
pub fn lookup_type<'a>(defs: &Vec<(u32, &'a Type)>, v: ValueId) -> (r: Option<&'a Type>)
    ensures
        r matches Some(t) ==> find_type(defs_view(defs@), v.0) == Some(t@),
        r is None ==> find_type(defs_view(defs@), v.0) is None,
{
    let mut i: usize = defs.len();
    assert(defs@.take(i as int) =~= defs@);
    while i > 0
        invariant
            0 <= i <= defs@.len(),
            find_type(defs_view(defs@), v.0) == find_type(defs_view(defs@.take(i as int)), v.0),
        decreases i,
    {
        proof {
            assert(defs_view(defs@.take(i as int)).drop_last() =~= defs_view(defs@.take(i - 1)));
        }
        if defs[i - 1].0 == v.0 {
            return Some(defs[i - 1].1);
        }
        i -= 1;
    }
    assert(defs_view(defs@.take(0)) =~= Seq::<(u32, TypeV)>::empty());
    None
}

pub open spec fn is_integer_opt(t: Option<TypeV>) -> bool {
    t matches Some(x) && is_integer_type(x)
}

/// At least one index, each of an integer type.
pub open spec fn indices_valid(d: Seq<(u32, TypeV)>, indices: Seq<ValueId>) -> bool {
    indices.len() > 0 && forall|k: int|
        0 <= k < indices.len() ==> is_integer_opt(find_type(d, (#[trigger] indices[k]).0))
}

pub open spec fn assignment_ok(d: Seq<(u32, TypeV)>, value: ValueId, ty: TypeV) -> bool {
    find_type(d, value.0) matches Some(t) && assignment_types_compatible(t, ty)
}

/// A resolved member access agrees with the owner's layout, the receiver has
/// that layout, and `fits` holds of the field's declared type.
pub open spec fn member_ok(
    m: Module,
    d: Seq<(u32, TypeV)>,
    object: ValueId,
    field: FieldRef,
    name: Seq<char>,
    owner: Seq<char>,
    fits: spec_fn(TypeV) -> bool,
) -> bool {
    &&& field_reference_type(m, owner, name, field) is Some
    &&& find_type(d, object.0) matches Some(r) && receiver_matches_owner(m, r, owner)
    &&& fits(field_reference_type(m, owner, name, field)->0)
}

/// The single vector argument accepted by a two-parameter reduction.
pub open spec fn vector_overload_argument(a: TypeV) -> bool {
    ||| (a matches TypeV::Vector { element, dimensions } && dimensions.len() == 1 && is_numeric_type(*element))
    ||| (a matches TypeV::Pointer { element, .. } && is_numeric_type(*element))
}

/// A call's arguments and result agree with its callee's signature.
pub open spec fn call_ok(d: Seq<(u32, TypeV)>, callee: ValueId, args: Seq<ValueId>, ty: TypeV) -> bool {
    match find_type(d, callee.0) {
        None => false,
        Some(TypeV::Function { parameters, return_type }) => {
            let overload = parameters.len() == 2 && args.len() == 1 && (find_type(d, args[0].0) matches Some(
                a,
            ) && vector_overload_argument(a));
            &&& overload || parameters.len() == args.len()
            &&& forall|k: int|
                0 <= k < args.len() && k < parameters.len() ==> (find_type(d, (#[trigger] args[k]).0) matches Some(
                    a,
                ) && (overload || call_types_compatible(a, parameters[k])))
            &&& call_types_compatible(*return_type, ty)
        },
        Some(TypeV::Unknown) => true,
        Some(_) => false,
    }
}

/// A vector literal has a vector type whose first fixed dimension is its
/// length and whose element type accepts every value.
pub open spec fn vector_ok(d: Seq<(u32, TypeV)>, values: Seq<ValueId>, ty: TypeV) -> bool {
    match ty {
        TypeV::Vector { element, dimensions } => {
            &&& !(dimensions.len() > 0 && dimensions[0] != OPEN_DIMENSION && dimensions[0] != values.len())
            &&& forall|k: int|
                0 <= k < values.len() ==> (find_type(d, (#[trigger] values[k]).0) matches Some(t)
                    && types_compatible(t, vector_element(*element, dimensions)))
        },
        _ => false,
    }
}

pub open spec fn member_names_ok(name: Seq<char>, owner: Seq<char>) -> bool {
    name.len() > 0 && owner.len() > 0
}

/// The receiver has a type, and that type has the owner's layout.
pub open spec fn receiver_ok(m: Module, d: Seq<(u32, TypeV)>, object: ValueId, owner: Seq<char>) -> bool {
    find_type(d, object.0) matches Some(r) && receiver_matches_owner(m, r, owner)
}

/// The first failure of a resolved member access: its field reference, then
/// its receiver (reported with `receiver_message`), then `fits` of the field's
/// declared type (reported with `fit_message`).
pub open spec fn member_error(
    m: Module,
    d: Seq<(u32, TypeV)>,
    object: ValueId,
    field: FieldRef,
    name: Seq<char>,
    owner: Seq<char>,
    receiver_message: Seq<char>,
    fits: spec_fn(TypeV) -> bool,
    fit_message: Seq<char>,
) -> Option<Seq<char>> {
    match field_reference_check(m, owner, name, field) {
        Err(e) => Some(member_fault_message(e)),
        Ok(ft) => if !receiver_ok(m, d, object, owner) {
            Some(receiver_message)
        } else if !fits(ft) {
            Some(fit_message)
        } else {
            None
        },
    }
}

/// The message for a call whose callee or signature does not fit.
pub open spec fn call_error(d: Seq<(u32, TypeV)>, callee: ValueId, args: Seq<ValueId>, ty: TypeV) -> Option<
    Seq<char>,
> {
    match find_type(d, callee.0) {
        None => Some("call callee has no type"@),
        Some(TypeV::Function { .. }) => if call_ok(d, callee, args, ty) {
            None
        } else {
            Some("call arguments or result do not match the callee signature"@)
        },
        Some(TypeV::Unknown) => None,
        Some(_) => Some("call callee must have a function type"@),
    }
}

/// The message for a vector literal that does not fit its type.
pub open spec fn vector_error(d: Seq<(u32, TypeV)>, values: Seq<ValueId>, ty: TypeV) -> Option<Seq<char>> {
    match ty {
        TypeV::Vector { element, dimensions } => if dimensions.len() > 0 && dimensions[0] != OPEN_DIMENSION
            && dimensions[0] != values.len() {
            Some("vector value count does not match its first dimension"@)
        } else if !(forall|k: int|
            0 <= k < values.len() ==> (find_type(d, (#[trigger] values[k]).0) matches Some(t)
                && types_compatible(t, vector_element(*element, dimensions)))) {
            Some("vector element does not match the vector element type"@)
        } else {
            None
        },
        _ => Some("vector instruction must produce a vector type"@),
    }
}

/// The message for an operator whose operand and result types do not fit.
pub open spec fn operator_message(kind: Seq<char>, operator: Seq<char>) -> Seq<char> {
    kind + " operator "@ + operator + " has incompatible operand/result types"@
}

pub open spec fn stored_message() -> Seq<char> {
    "stored value does not match its declared type"@
}

pub open spec fn empty_member_message() -> Seq<char> {
    "member name and owner class cannot be empty"@
}

pub open spec fn unresolved_store_message() -> Seq<char> {
    "record member store must carry a resolved field"@
}

pub open spec fn static_names_message() -> Seq<char> {
    "static member class and field names cannot be empty"@
}

pub open spec fn indexed_store_message() -> Seq<char> {
    "indexed store requires at least one integer index"@
}

/// The message with which one non-Phi instruction is refused, if it is: the
/// instruction's checks are tried in order and the first that fails speaks.
pub open spec fn instruction_type_error(m: Module, d: Seq<(u32, TypeV)>, i: Instruction) -> Option<Seq<char>> {
    match i {
        Instruction::Constant { value, ty, .. } => if !constant_matches_type(value, ty@) {
            Some("constant value does not match its declared type"@)
        } else {
            None
        },
        Instruction::Length { destination, .. } | Instruction::SizeOf { destination, .. } => if !is_integer_opt(
            find_type(d, destination.0),
        ) {
            Some("length and sizeof results must have an integer type"@)
        } else {
            None
        },
        Instruction::Copy { source, ty, .. } => if !(find_type(d, source.0) matches Some(t) && types_compatible(
            t,
            ty@,
        )) {
            Some("copied value does not match its type"@)
        } else {
            None
        },
        Instruction::Store { value, ty, .. } => if !assignment_ok(d, value, ty@) {
            Some(stored_message())
        } else {
            None
        },
        Instruction::SetMember { object, field, name, owner, value, ty, .. } => if !assignment_ok(d, value, ty@) {
            Some(stored_message())
        } else if !member_names_ok(name@, owner@) {
            Some(empty_member_message())
        } else {
            match field {
                None => Some(unresolved_store_message()),
                Some(fr) => member_error(
                    m,
                    d,
                    object,
                    fr,
                    name@,
                    owner@,
                    "member receiver does not match its owner layout"@,
                    |ft: TypeV| types_compatible(ty@, ft),
                    "member store type does not match its field layout"@,
                ),
            }
        },
        Instruction::SetField { root_owner, path, fields, value, ty, .. } => if !assignment_ok(d, value, ty@) {
            Some(stored_message())
        } else {
            match resolved_path_error(m, root_owner@, path@, refs_view(fields)) {
                Some(message) => Some(message),
                None => if !types_compatible(ty@, resolved_path_type(m, root_owner@, path@, refs_view(fields))->0) {
                    Some("field store type does not match its field layout"@)
                } else {
                    None
                },
            }
        },
        Instruction::StoreStatic { class, field, value, ty, .. } => if !assignment_ok(d, value, ty@) {
            Some(stored_message())
        } else if !(class@.len() > 0 && field@.len() > 0) {
            Some(static_names_message())
        } else {
            None
        },
        Instruction::SetIndex { indices, value, ty, .. } => if !assignment_ok(d, value, ty@) {
            Some(stored_message())
        } else if !indices_valid(d, indices@) {
            Some(indexed_store_message())
        } else {
            None
        },
        Instruction::SetMemberIndex { object, field, name, owner, indices, value, ty, .. } => if !assignment_ok(
            d,
            value,
            ty@,
        ) {
            Some(stored_message())
        } else if !member_names_ok(name@, owner@) {
            Some(empty_member_message())
        } else {
            match field {
                None => Some(unresolved_store_message()),
                Some(fr) => match member_error(
                    m,
                    d,
                    object,
                    fr,
                    name@,
                    owner@,
                    "indexed member store receiver does not match its owner layout"@,
                    |ft: TypeV| index_result_matches(ft, ty@),
                    "indexed member store type does not match its field layout"@,
                ) {
                    Some(message) => Some(message),
                    None => if !indices_valid(d, indices@) {
                        Some(indexed_store_message())
                    } else {
                        None
                    },
                },
            }
        },
        Instruction::SetFieldIndex { root_owner, path, fields, indices, value, ty, .. } => if !assignment_ok(
            d,
            value,
            ty@,
        ) {
            Some(stored_message())
        } else {
            match resolved_path_error(m, root_owner@, path@, refs_view(fields)) {
                Some(message) => Some(message),
                None => if !index_result_matches(
                    resolved_path_type(m, root_owner@, path@, refs_view(fields))->0,
                    ty@,
                ) {
                    Some("indexed field store type does not match its field layout"@)
                } else if !indices_valid(d, indices@) {
                    Some("indices must be non-empty integers"@)
                } else {
                    None
                },
            }
        },
        Instruction::SetStaticIndex { class, field, indices, value, ty, .. } => if !assignment_ok(d, value, ty@) {
            Some(stored_message())
        } else if !(class@.len() > 0 && field@.len() > 0) {
            Some(static_names_message())
        } else if !indices_valid(d, indices@) {
            Some(indexed_store_message())
        } else {
            None
        },
        Instruction::Default { dynamic_dimensions, .. } => if !(forall|k: int|
            0 <= k < dynamic_dimensions@.len() ==> is_integer_opt(
                find_type(d, (#[trigger] dynamic_dimensions@[k]).0),
            )) {
            Some("dynamic vector dimensions must have integer type"@)
        } else {
            None
        },
        Instruction::Vector { values, ty, .. } => vector_error(d, values@, ty@),
        Instruction::Unary { operator, operand, ty, .. } => match find_type(d, operand.0) {
            None => Some("unary operand has no type"@),
            Some(t) => if !valid_unary_types(operator@, t, ty@) {
                Some(operator_message("unary"@, operator@))
            } else {
                None
            },
        },
        Instruction::Binary { operator, left, right, ty, .. } => match (
            find_type(d, left.0),
            find_type(d, right.0),
        ) {
            (Some(l), Some(r)) => if !valid_binary_types(operator@, l, r, ty@) {
                Some(operator_message("binary"@, operator@))
            } else {
                None
            },
            _ => Some("binary operand has no type"@),
        },
        Instruction::Cast { value, ty, .. } => match find_type(d, value.0) {
            None => Some("cast source has no type"@),
            Some(t) => if !valid_cast_types(t, ty@) {
                Some("cast source and target types are not convertible"@)
            } else {
                None
            },
        },
        Instruction::Call { callee, arguments, ty, .. } => call_error(d, callee, arguments@, ty@),
        Instruction::DispatchSubmit { queue, task, .. } => if find_type(d, queue.0) matches Some(q)
            && !contains_named_type(q, "Queue"@) {
            Some("dispatch submission requires a BNDispatch.Queue"@)
        } else if find_type(d, task.0) matches Some(t) && !(t is Function || t is Unknown) {
            Some("dispatch submission task must be a function"@)
        } else {
            None
        },
        Instruction::DispatchAwait { ticket, timeout, .. } => if find_type(d, ticket.0) matches Some(t)
            && !is_dispatch_wait_handle(t) {
            Some("dispatch wait requires a BNDispatch synchronization handle"@)
        } else if !is_integer_opt(find_type(d, timeout.0)) {
            Some("dispatch await timeout must have an integer type"@)
        } else {
            None
        },
        Instruction::ClearScreen { console, .. } | Instruction::Beep { console, .. } => if find_type(
            d,
            console.0,
        ) != Some(TypeV::HostConsole) {
            Some("console control instruction requires HOST.Console"@)
        } else {
            None
        },
        Instruction::Member { object, field, name, owner, ty, .. } => if !member_names_ok(name@, owner@) {
            Some(empty_member_message())
        } else if ty@ is Function {
            None
        } else {
            match field {
                None => Some("record member access must carry a resolved field"@),
                Some(fr) => member_error(
                    m,
                    d,
                    object,
                    fr,
                    name@,
                    owner@,
                    "member receiver does not match its owner layout"@,
                    |ft: TypeV| types_compatible(ft, ty@),
                    "member result type does not match its field layout"@,
                ),
            }
        },
        Instruction::LoadStatic { class, field, .. } => if !(class@.len() > 0 && field@.len() > 0) {
            Some(static_names_message())
        } else {
            None
        },
        Instruction::EnsureClass { class, .. } => if class@.len() == 0 {
            Some("class name cannot be empty"@)
        } else {
            None
        },
        Instruction::Allocate { allocated, .. } => if allocated@.len() == 0 {
            Some("allocated type name cannot be empty"@)
        } else {
            None
        },
        Instruction::Release { destructor, .. } => if destructor matches Some(n) && n@.len() == 0 {
            Some("destructor name cannot be empty"@)
        } else {
            None
        },
        Instruction::Index { object, index, ty, .. } => if !is_integer_opt(find_type(d, index.0)) {
            Some("index must have an integer type"@)
        } else if find_type(d, object.0) matches Some(o) && !index_result_matches(o, ty@) {
            Some("indexed object and result types are incompatible"@)
        } else {
            None
        },
        _ => None,
    }
}

/// The type contract of one non-Phi instruction, given the types of the
/// function's values.
pub open spec fn instruction_types_valid(m: Module, d: Seq<(u32, TypeV)>, i: Instruction) -> bool {
    match i {
        Instruction::Constant { value, ty, .. } => constant_matches_type(value, ty@),
        Instruction::Default { dynamic_dimensions, .. } => forall|k: int|
            0 <= k < dynamic_dimensions@.len() ==> is_integer_opt(
                find_type(d, (#[trigger] dynamic_dimensions@[k]).0),
            ),
        Instruction::Store { value, ty, .. } => assignment_ok(d, value, ty@),
        Instruction::Copy { source, ty, .. } => find_type(d, source.0) matches Some(t) && types_compatible(
            t,
            ty@,
        ),
        Instruction::Unary { operator, operand, ty, .. } => find_type(d, operand.0) matches Some(t)
            && valid_unary_types(operator@, t, ty@),
        Instruction::Binary { operator, left, right, ty, .. } => find_type(d, left.0) matches Some(l)
            && find_type(d, right.0) matches Some(r) && valid_binary_types(operator@, l, r, ty@),
        Instruction::Cast { value, ty, .. } => find_type(d, value.0) matches Some(t) && valid_cast_types(
            t,
            ty@,
        ),
        Instruction::Call { callee, arguments, ty, .. } => call_ok(d, callee, arguments@, ty@),
        Instruction::DispatchSubmit { queue, task, .. } => {
            &&& find_type(d, queue.0) matches Some(q) ==> contains_named_type(q, "Queue"@)
            &&& find_type(d, task.0) matches Some(t) ==> (t is Function || t is Unknown)
        },
        Instruction::DispatchAwait { ticket, timeout, .. } => {
            &&& find_type(d, ticket.0) matches Some(t) ==> is_dispatch_wait_handle(t)
            &&& is_integer_opt(find_type(d, timeout.0))
        },
        Instruction::Vector { values, ty, .. } => vector_ok(d, values@, ty@),
        Instruction::Index { object, index, ty, .. } => {
            &&& is_integer_opt(find_type(d, index.0))
            &&& find_type(d, object.0) matches Some(o) ==> index_result_matches(o, ty@)
        },
        Instruction::Member { object, field, name, owner, ty, .. } => {
            &&& member_names_ok(name@, owner@)
            &&& match field {
                None => ty@ is Function,
                Some(fr) => !(ty@ is Function) ==> member_ok(
                    m,
                    d,
                    object,
                    fr,
                    name@,
                    owner@,
                    |ft: TypeV| types_compatible(ft, ty@),
                ),
            }
        },
        Instruction::SetIndex { indices, value, ty, .. } => assignment_ok(d, value, ty@) && indices_valid(
            d,
            indices@,
        ),
        Instruction::SetMemberIndex { object, field, name, owner, indices, value, ty, .. } => {
            &&& assignment_ok(d, value, ty@)
            &&& member_names_ok(name@, owner@)
            &&& field matches Some(fr) && member_ok(
                m,
                d,
                object,
                fr,
                name@,
                owner@,
                |ft: TypeV| index_result_matches(ft, ty@),
            )
            &&& indices_valid(d, indices@)
        },
        Instruction::SetFieldIndex { root_owner, path, fields, indices, value, ty, .. } => {
            &&& assignment_ok(d, value, ty@)
            &&& resolved_path_type(m, root_owner@, path@, refs_view(fields)) matches Some(ft)
                && index_result_matches(ft, ty@)
            &&& indices_valid(d, indices@)
        },
        Instruction::SetStaticIndex { class, field, indices, value, ty, .. } => {
            &&& assignment_ok(d, value, ty@)
            &&& class@.len() > 0 && field@.len() > 0
            &&& indices_valid(d, indices@)
        },
        Instruction::Length { destination, .. } => is_integer_opt(find_type(d, destination.0)),
        Instruction::SizeOf { destination, .. } => is_integer_opt(find_type(d, destination.0)),
        Instruction::ClearScreen { console, .. } => find_type(d, console.0) == Some(TypeV::HostConsole),
        Instruction::Beep { console, .. } => find_type(d, console.0) == Some(TypeV::HostConsole),
        Instruction::Allocate { allocated, .. } => allocated@.len() > 0,
        Instruction::Release { destructor, .. } => destructor matches Some(n) ==> n@.len() > 0,
        Instruction::SetMember { object, field, name, owner, value, ty, .. } => {
            &&& assignment_ok(d, value, ty@)
            &&& member_names_ok(name@, owner@)
            &&& field matches Some(fr) && member_ok(
                m,
                d,
                object,
                fr,
                name@,
                owner@,
                |ft: TypeV| types_compatible(ty@, ft),
            )
        },
        Instruction::SetField { root_owner, path, fields, value, ty, .. } => {
            &&& assignment_ok(d, value, ty@)
            &&& resolved_path_type(m, root_owner@, path@, refs_view(fields)) matches Some(ft)
                && types_compatible(ty@, ft)
        },
        Instruction::EnsureClass { class, .. } => class@.len() > 0,
        Instruction::LoadStatic { class, field, .. } => class@.len() > 0 && field@.len() > 0,
        Instruction::StoreStatic { class, field, value, ty, .. } => assignment_ok(d, value, ty@)
            && class@.len() > 0 && field@.len() > 0,
        _ => true,
    }
}

fn is_integer_ref(t: Option<&Type>) -> (r: bool)
    ensures
        r == is_integer_opt(match t {
            Some(x) => Some(x@),
            None => None,
        }),
{
    match t {
        Some(x) => is_integer_type_exec(x),
        None => false,
    }
}

fn check_indices(defs: &Vec<(u32, &Type)>, indices: &Vec<ValueId>) -> (r: bool)
    ensures
        r == indices_valid(defs_view(defs@), indices@),
{
    if indices.len() == 0 {
        return false;
    }
    let mut k: usize = 0;
    while k < indices.len()
        invariant
            0 <= k <= indices@.len(),
            forall|j: int|
                0 <= j < k ==> is_integer_opt(find_type(defs_view(defs@), (#[trigger] indices@[j]).0)),
        decreases indices@.len() - k,
    {
        if !is_integer_ref(lookup_type(defs, indices[k])) {
            return false;
        }
        k += 1;
    }
    true
}

fn check_assignment(defs: &Vec<(u32, &Type)>, value: ValueId, ty: &Type) -> (r: bool)
    ensures
        r == assignment_ok(defs_view(defs@), value, ty@),
{
    match lookup_type(defs, value) {
        Some(t) => assignment_types_compatible_exec(t, ty),
        None => false,
    }
}

fn check_integer_values(defs: &Vec<(u32, &Type)>, values: &Vec<ValueId>) -> (r: bool)
    ensures
        r == forall|k: int|
            0 <= k < values@.len() ==> is_integer_opt(find_type(defs_view(defs@), (#[trigger] values@[k]).0)),
{
    let mut k: usize = 0;
    while k < values.len()
        invariant
            0 <= k <= values@.len(),
            forall|j: int|
                0 <= j < k ==> is_integer_opt(find_type(defs_view(defs@), (#[trigger] values@[j]).0)),
        decreases values@.len() - k,
    {
        if !is_integer_ref(lookup_type(defs, values[k])) {
            return false;
        }
        k += 1;
    }
    true
}

fn vector_overload_argument_exec(a: &Type) -> (r: bool)
    ensures
        r == vector_overload_argument(a@),
{
    match a {
        Type::Vector { element, dimensions } => dimensions.len() == 1 && is_numeric_type_exec(element),
        Type::Pointer { element, .. } => is_numeric_type_exec(element),
        _ => false,
    }
}

#[verifier::loop_isolation(false)]
fn check_call(defs: &Vec<(u32, &Type)>, callee: ValueId, args: &Vec<ValueId>, ty: &Type) -> (r: bool)
    ensures
        r == call_ok(defs_view(defs@), callee, args@, ty@),
{
    let ghost d = defs_view(defs@);
    let callee_type = match lookup_type(defs, callee) {
        Some(t) => t,
        None => return false,
    };
    match callee_type {
        Type::Function { parameters, return_type } => {
            proof {
                crate::types::lemma_types_view(parameters@);
            }
            let ghost pv = types_view(parameters@);
            let overload = parameters.len() == 2 && args.len() == 1 && match lookup_type(defs, args[0]) {
                Some(a) => vector_overload_argument_exec(a),
                None => false,
            };
            if !overload && parameters.len() != args.len() {
                return false;
            }
            let mut k: usize = 0;
            while k < args.len() && k < parameters.len()
                invariant
                    0 <= k <= args@.len(),
                    pv == types_view(parameters@),
                    pv.len() == parameters@.len(),
                    forall|j: int| 0 <= j < parameters@.len() ==> #[trigger] pv[j] == type_view(parameters@[j]),
                    forall|j: int|
                        0 <= j < k && j < parameters@.len() ==> (find_type(d, (#[trigger] args@[j]).0) matches Some(
                            a,
                        ) && (overload || call_types_compatible(a, pv[j]))),
                    d == defs_view(defs@),
                decreases args@.len() - k,
            {
                let arg = args[k];
                assert(arg == args@[k as int]);
                match lookup_type(defs, arg) {
                    Some(a) => {
                        if !overload && !call_types_compatible_exec(a, &parameters[k]) {
                            assert(pv[k as int] == parameters@[k as int]@);
                            return false;
                        }
                    },
                    None => return false,
                }
                k += 1;
            }
            call_types_compatible_exec(return_type, ty)
        },
        Type::Unknown => true,
        _ => false,
    }
}

#[verifier::loop_isolation(false)]
fn check_vector(defs: &Vec<(u32, &Type)>, values: &Vec<ValueId>, ty: &Type, span: Span) -> (r: Result<
    (),
    Diagnostic,
>)
    ensures
        r is Ok <==> vector_ok(defs_view(defs@), values@, ty@),
        r is Ok <==> vector_error(defs_view(defs@), values@, ty@) is None,
        r matches Err(e) ==> e.code@ == invalid_ir_code() && e.span == span && vector_error(
            defs_view(defs@),
            values@,
            ty@,
        ) == Some(e.message@),
{
    let ghost d = defs_view(defs@);
    match ty {
        Type::Vector { element, dimensions } => {
            if dimensions.len() > 0 && dimensions[0] != OPEN_DIMENSION && dimensions[0] as u128
                != values.len() as u128 {
                return Err(invalid_ir("vector value count does not match its first dimension", span));
            }
            let expected = vector_element_exec(element, dimensions);
            let mut k: usize = 0;
            while k < values.len()
                invariant
                    0 <= k <= values@.len(),
                    d == defs_view(defs@),
                    forall|j: int|
                        0 <= j < k ==> (find_type(d, (#[trigger] values@[j]).0) matches Some(t)
                            && types_compatible(t, expected@)),
                decreases values@.len() - k,
            {
                let v = values[k];
                assert(v == values@[k as int]);
                let fits = match lookup_type(defs, v) {
                    Some(t) => types_compatible_exec(t, &expected),
                    None => false,
                };
                if !fits {
                    return Err(invalid_ir("vector element does not match the vector element type", span));
                }
                k += 1;
            }
            Ok(())
        },
        _ => Err(invalid_ir("vector instruction must produce a vector type", span)),
    }
}

/// Checks a resolved member access and returns its field's declared type;
/// a receiver without the owner's layout is reported with `receiver_message`.
fn check_member<'a>(
    m: &'a Module,
    defs: &Vec<(u32, &Type)>,
    object: ValueId,
    field: &FieldRef,
    name: &String,
    owner: &String,
    receiver_message: &str,
    span: Span,
) -> (r: Result<&'a Type, Diagnostic>)
    requires
        m.wf(),
        bases_acyclic(*m),
    ensures
        r matches Ok(t) ==> field_reference_check(*m, owner@, name@, *field) == Ok::<TypeV, FieldReferenceFault>(
            t@,
        ) && receiver_ok(*m, defs_view(defs@), object, owner@),
        r matches Err(e) ==> e.code@ == invalid_ir_code() && e.span == span && match field_reference_check(
            *m,
            owner@,
            name@,
            *field,
        ) {
            Err(f) => e.message@ == member_fault_message(f),
            Ok(_) => !receiver_ok(*m, defs_view(defs@), object, owner@) && e.message@ == receiver_message@,
        },
{
    let field_ty = validate_field_reference(m, owner, name, field, span)?;
    let owner_chars = crate::text::chars_of(owner.as_str());
    let fits = match lookup_type(defs, object) {
        Some(receiver) => receiver_matches_owner_exec(m, receiver, &owner_chars),
        None => false,
    };
    if !fits {
        return Err(invalid_ir(receiver_message, span));
    }
    Ok(field_ty)
}

/// The message for an operator whose operand and result types do not fit.
fn operator_mismatch(kind: &str, operator: &String) -> (r: String)
    ensures
        r@ == operator_message(kind@, operator@),
{
    let mut r = String::new();
    push_str(&mut r, kind);
    push_str(&mut r, " operator ");
    push_str(&mut r, operator.as_str());
    push_str(&mut r, " has incompatible operand/result types");
    assert(r@ =~= operator_message(kind@, operator@));
    r
}

fn empty_names(name: &String, owner: &String) -> (r: bool)
    ensures
        r == !member_names_ok(name@, owner@),
{
    name.as_str().is_empty() || owner.as_str().is_empty()
}

/// Checks the type contract of one non-Phi instruction.
#[verifier::rlimit(60)]
pub fn validate_instruction_types(m: &Module, instruction: &Instruction, defs: &Vec<(u32, &Type)>) -> (r:
    Result<(), Diagnostic>)
    requires
        m.wf(),
        bases_acyclic(*m),
    ensures
        r is Ok <==> instruction_types_valid(*m, defs_view(defs@), *instruction),
        r is Ok <==> instruction_type_error(*m, defs_view(defs@), *instruction) is None,
        r matches Err(d) ==> d.code@ == invalid_ir_code() && d.span == spec_span(*instruction)
            && instruction_type_error(*m, defs_view(defs@), *instruction) == Some(d.message@),
{
    let span = instruction.span();
    let ghost d = defs_view(defs@);
    match instruction {
        Instruction::Constant { value, ty, .. } => {
            if !constant_matches_type_exec(value, ty) {
                return Err(invalid_ir("constant value does not match its declared type", span));
            }
        },
        Instruction::Default { dynamic_dimensions, .. } => {
            if !check_integer_values(defs, dynamic_dimensions) {
                return Err(invalid_ir("dynamic vector dimensions must have integer type", span));
            }
        },
        Instruction::Store { value, ty, .. } => {
            if !check_assignment(defs, *value, ty) {
                return Err(invalid_ir("stored value does not match its declared type", span));
            }
        },
        Instruction::Copy { source, ty, .. } => {
            let ok = match lookup_type(defs, *source) {
                Some(t) => types_compatible_exec(t, ty),
                None => false,
            };
            if !ok {
                return Err(invalid_ir("copied value does not match its type", span));
            }
        },
        Instruction::Unary { operator, operand, ty, .. } => {
            match lookup_type(defs, *operand) {
                Some(t) => {
                    if !valid_unary_types_exec(operator, t, ty) {
                        let message = operator_mismatch("unary", operator);
                        return Err(invalid_ir(message.as_str(), span));
                    }
                },
                None => return Err(invalid_ir("unary operand has no type", span)),
            }
        },
        Instruction::Binary { operator, left, right, ty, .. } => {
            match (lookup_type(defs, *left), lookup_type(defs, *right)) {
                (Some(l), Some(r)) => {
                    if !valid_binary_types_exec(operator, l, r, ty) {
                        let message = operator_mismatch("binary", operator);
                        return Err(invalid_ir(message.as_str(), span));
                    }
                },
                _ => return Err(invalid_ir("binary operand has no type", span)),
            }
        },
        Instruction::Cast { value, ty, .. } => {
            match lookup_type(defs, *value) {
                Some(t) => {
                    if !valid_cast_types_exec(t, ty) {
                        return Err(
                            invalid_ir("cast source and target types are not convertible", span),
                        );
                    }
                },
                None => return Err(invalid_ir("cast source has no type", span)),
            }
        },
        Instruction::Call { callee, arguments, ty, .. } => {
            match lookup_type(defs, *callee) {
                None => return Err(invalid_ir("call callee has no type", span)),
                Some(Type::Function { .. }) => {
                    if !check_call(defs, *callee, arguments, ty) {
                        return Err(
                            invalid_ir("call arguments or result do not match the callee signature", span),
                        );
                    }
                },
                Some(Type::Unknown) => {},
                Some(_) => return Err(invalid_ir("call callee must have a function type", span)),
            }
        },
        Instruction::DispatchSubmit { queue, task, .. } => {
            let queue_lit = chars_of("Queue");
            match lookup_type(defs, *queue) {
                Some(q) => {
                    if !contains_named_type_exec(q, &queue_lit) {
                        return Err(
                            invalid_ir("dispatch submission requires a BNDispatch.Queue", span),
                        );
                    }
                },
                None => {},
            }
            match lookup_type(defs, *task) {
                Some(t) => {
                    if !matches!(t, Type::Function { .. } | Type::Unknown) {
                        return Err(invalid_ir("dispatch submission task must be a function", span));
                    }
                },
                None => {},
            }
        },
        Instruction::DispatchAwait { ticket, timeout, .. } => {
            match lookup_type(defs, *ticket) {
                Some(t) => {
                    if !is_dispatch_wait_handle_exec(t) {
                        return Err(
                            invalid_ir(
                                "dispatch wait requires a BNDispatch synchronization handle",
                                span,
                            ),
                        );
                    }
                },
                None => {},
            }
            if !is_integer_ref(lookup_type(defs, *timeout)) {
                return Err(invalid_ir("dispatch await timeout must have an integer type", span));
            }
        },
        Instruction::Vector { values, ty, .. } => {
            check_vector(defs, values, ty, span)?;
        },
        Instruction::Index { object, index, ty, .. } => {
            if !is_integer_ref(lookup_type(defs, *index)) {
                return Err(invalid_ir("index must have an integer type", span));
            }
            match lookup_type(defs, *object) {
                Some(o) => {
                    if !index_result_matches_exec(o, ty) {
                        return Err(
                            invalid_ir("indexed object and result types are incompatible", span),
                        );
                    }
                },
                None => {},
            }
        },
        Instruction::Member { object, field, name, owner, ty, .. } => {
            if empty_names(name, owner) {
                return Err(invalid_ir("member name and owner class cannot be empty", span));
            }
            let is_function = matches!(ty, Type::Function { .. });
            match field {
                None => {
                    if !is_function {
                        return Err(
                            invalid_ir("record member access must carry a resolved field", span),
                        );
                    }
                },
                Some(fr) => {
                    if !is_function {
                        let field_ty = check_member(
                            m,
                            defs,
                            *object,
                            fr,
                            name,
                            owner,
                            "member receiver does not match its owner layout",
                            span,
                        )?;
                        if !types_compatible_exec(field_ty, ty) {
                            return Err(
                                invalid_ir("member result type does not match its field layout", span),
                            );
                        }
                    }
                },
            }
        },
        Instruction::SetIndex { indices, value, ty, .. } => {
            if !check_assignment(defs, *value, ty) {
                return Err(invalid_ir("stored value does not match its declared type", span));
            }
            if !check_indices(defs, indices) {
                return Err(invalid_ir("indexed store requires at least one integer index", span));
            }
        },
        Instruction::SetMemberIndex { object, field, name, owner, indices, value, ty, .. } => {
            if !check_assignment(defs, *value, ty) {
                return Err(invalid_ir("stored value does not match its declared type", span));
            }
            if empty_names(name, owner) {
                return Err(invalid_ir("member name and owner class cannot be empty", span));
            }
            let fr = match field {
                Some(fr) => fr,
                None => return Err(invalid_ir("record member store must carry a resolved field", span)),
            };
            let field_ty = check_member(
                m,
                defs,
                *object,
                fr,
                name,
                owner,
                "indexed member store receiver does not match its owner layout",
                span,
            )?;
            if !index_result_matches_exec(field_ty, ty) {
                return Err(
                    invalid_ir("indexed member store type does not match its field layout", span),
                );
            }
            if !check_indices(defs, indices) {
                return Err(invalid_ir("indexed store requires at least one integer index", span));
            }
        },
        Instruction::SetFieldIndex { root_owner, path, fields, indices, value, ty, .. } => {
            if !check_assignment(defs, *value, ty) {
                return Err(invalid_ir("stored value does not match its declared type", span));
            }
            let field_ty = validate_resolved_field_path(m, root_owner, path, fields, span)?;
            if !index_result_matches_exec(field_ty, ty) {
                return Err(
                    invalid_ir("indexed field store type does not match its field layout", span),
                );
            }
            if !check_indices(defs, indices) {
                return Err(invalid_ir("indices must be non-empty integers", span));
            }
        },
        Instruction::SetStaticIndex { class, field, indices, value, ty, .. } => {
            if !check_assignment(defs, *value, ty) {
                return Err(invalid_ir("stored value does not match its declared type", span));
            }
            if class.as_str().is_empty() || field.as_str().is_empty() {
                return Err(
                    invalid_ir("static member class and field names cannot be empty", span),
                );
            }
            if !check_indices(defs, indices) {
                return Err(invalid_ir("indexed store requires at least one integer index", span));
            }
        },
        Instruction::Length { destination, .. } | Instruction::SizeOf { destination, .. } => {
            if !is_integer_ref(lookup_type(defs, *destination)) {
                return Err(
                    invalid_ir("length and sizeof results must have an integer type", span),
                );
            }
        },
        Instruction::ClearScreen { console, .. } | Instruction::Beep { console, .. } => {
            let ok = match lookup_type(defs, *console) {
                Some(t) => matches!(t, Type::HostConsole),
                None => false,
            };
            if !ok {
                return Err(invalid_ir("console control instruction requires HOST.Console", span));
            }
        },
        Instruction::Allocate { allocated, .. } => {
            if allocated.as_str().is_empty() {
                return Err(invalid_ir("allocated type name cannot be empty", span));
            }
        },
        Instruction::Release { destructor, .. } => {
            match destructor {
                Some(name) => {
                    if name.as_str().is_empty() {
                        return Err(invalid_ir("destructor name cannot be empty", span));
                    }
                },
                None => {},
            }
        },
        Instruction::SetMember { object, field, name, owner, value, ty, .. } => {
            if !check_assignment(defs, *value, ty) {
                return Err(invalid_ir("stored value does not match its declared type", span));
            }
            if empty_names(name, owner) {
                return Err(invalid_ir("member name and owner class cannot be empty", span));
            }
            let fr = match field {
                Some(fr) => fr,
                None => return Err(invalid_ir("record member store must carry a resolved field", span)),
            };
            let field_ty = check_member(
                m,
                defs,
                *object,
                fr,
                name,
                owner,
                "member receiver does not match its owner layout",
                span,
            )?;
            if !types_compatible_exec(ty, field_ty) {
                return Err(invalid_ir("member store type does not match its field layout", span));
            }
        },
        Instruction::SetField { root_owner, path, fields, value, ty, .. } => {
            if !check_assignment(defs, *value, ty) {
                return Err(invalid_ir("stored value does not match its declared type", span));
            }
            let field_ty = validate_resolved_field_path(m, root_owner, path, fields, span)?;
            if !types_compatible_exec(ty, field_ty) {
                return Err(invalid_ir("field store type does not match its field layout", span));
            }
        },
        Instruction::EnsureClass { class, .. } => {
            if class.as_str().is_empty() {
                return Err(invalid_ir("class name cannot be empty", span));
            }
        },
        Instruction::LoadStatic { class, field, .. } => {
            if class.as_str().is_empty() || field.as_str().is_empty() {
                return Err(
                    invalid_ir("static member class and field names cannot be empty", span),
                );
            }
        },
        Instruction::StoreStatic { class, field, value, ty, .. } => {
            if !check_assignment(defs, *value, ty) {
                return Err(invalid_ir("stored value does not match its declared type", span));
            }
            if class.as_str().is_empty() || field.as_str().is_empty() {
                return Err(
                    invalid_ir("static member class and field names cannot be empty", span),
                );
            }
        },
        _ => {},
    }
    Ok(())
}

} // verus!
