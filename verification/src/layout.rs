//! Object layout of records and classes in emitted LLVM: field storage
//! sizes and alignments, field byte offsets after the object header, and
//! instance sizes, all derived from the module's validated layout metadata.
use vstd::prelude::*;
use crate::llvm::{LlvmType, llvm_type, spec_llvm_type};
use crate::model::{FieldLayoutEntry, FieldRef, FunctionKind, Module, first_function, is_owned_of_kind, layout_index};
use crate::types::{Type, TypeV, copy_type};

verus! {

/// Bytes before the first field of an object: its reference-count header.
pub const OBJECT_HEADER_BYTES: u32 = 16;

/// One field of a class layout: which field it is and its declared type.
pub struct LayoutField {
    pub reference: FieldRef,
    pub ty: Type,
}

/// The entries of `class`'s layout, in slot order; none when it has no layout.
pub open spec fn layout_entries(m: Module, class: Seq<char>) -> Seq<FieldLayoutEntry> {
    match layout_index(m, class) {
        Some(l) => m.field_layouts@[l].1.fields@,
        None => Seq::empty(),
    }
}

/// Lists the fields of `class`'s layout. A name is looked up exactly: a
/// qualified layout is never found by its last segment.
pub fn class_layout_fields(m: &Module, class: &str) -> (r: Vec<LayoutField>)
    requires
        m.wf(),
    ensures
        r@.len() == layout_entries(*m, class@).len(),
        forall|k: int|
            0 <= k < r@.len() ==> {
                let e = layout_entries(*m, class@)[k];
                &&& (#[trigger] r@[k]).reference.owner@ == class@
                &&& r@[k].reference.id == e.id
                &&& r@[k].reference.slot == e.slot
                &&& r@[k].ty@ == e.ty@
            },
{
    let mut r: Vec<LayoutField> = Vec::new();
    let l = match m.find_layout(class) {
        Some(l) => l,
        None => return r,
    };
    let fields = &m.field_layouts[l].1.fields;
    let ghost es = layout_entries(*m, class@);
    assert(es == fields@);
    let mut k: usize = 0;
    while k < fields.len()
        invariant
            0 <= k <= fields@.len(),
            es == fields@,
            r@.len() == k,
            forall|j: int|
                0 <= j < k ==> {
                    let e = es[j];
                    &&& (#[trigger] r@[j]).reference.owner@ == class@
                    &&& r@[j].reference.id == e.id
                    &&& r@[j].reference.slot == e.slot
                    &&& r@[j].ty@ == e.ty@
                },
        decreases fields@.len() - k,
    {
        let e = &fields[k];
        let owner = crate::text::string_of(&crate::text::chars_of(class));
        r.push(LayoutField { reference: FieldRef { owner, id: e.id, slot: e.slot }, ty: copy_type(&e.ty) });
        k += 1;
    }
    r
}

/// Size and alignment, in bytes, of a value stored as LLVM type `t`.
pub open spec fn storage(t: LlvmType) -> (u32, u32) {
    match t {
        LlvmType::I1 | LlvmType::I8 => (1, 1),
        LlvmType::I16 => (2, 2),
        LlvmType::I32 | LlvmType::Float => (4, 4),
        LlvmType::I64 | LlvmType::Double | LlvmType::Ptr => (8, 8),
        LlvmType::PtrI32 | LlvmType::OptionalDouble | LlvmType::FlagPtr => (16, 8),
        LlvmType::FlagPtrI32 | LlvmType::ErrorUnion => (24, 8),
    }
}

/// Size and alignment of a field of IR type `t`, when the backend can store it.
pub open spec fn spec_storage_layout(t: TypeV) -> Option<(u32, u32)> {
    match spec_llvm_type(t) {
        Some(l) => Some(storage(l)),
        None => None,
    }
}

pub fn llvm_storage_layout(t: &Type) -> (r: Option<(u32, u32)>)
    ensures
        r == spec_storage_layout(t@),
{
    match llvm_type(t) {
        None => None,
        Some(l) => Some(
            match l {
                LlvmType::I1 | LlvmType::I8 => (1, 1),
                LlvmType::I16 => (2, 2),
                LlvmType::I32 | LlvmType::Float => (4, 4),
                LlvmType::I64 | LlvmType::Double | LlvmType::Ptr => (8, 8),
                LlvmType::PtrI32 | LlvmType::OptionalDouble | LlvmType::FlagPtr => (16, 8),
                LlvmType::FlagPtrI32 | LlvmType::ErrorUnion => (24, 8),
            },
        ),
    }
}

/// `x` clamped to the `u32` range from above.
pub open spec fn saturate(x: int) -> u32 {
    if x > u32::MAX {
        u32::MAX
    } else {
        x as u32
    }
}

/// The least multiple of `alignment` at or after `offset`, saturating at
/// `u32::MAX`.
pub open spec fn spec_align_to(offset: u32, alignment: u32) -> u32 {
    if offset % alignment == 0 {
        offset
    } else {
        saturate(offset + (alignment - offset % alignment))
    }
}

pub fn align_to(offset: u32, alignment: u32) -> (r: u32)
    requires
        alignment > 0,
    ensures
        r == spec_align_to(offset, alignment),
{
    let remainder = offset % alignment;
    if remainder == 0 {
        offset
    } else {
        offset.saturating_add(alignment - remainder)
    }
}

/// The offset just past the first `n` fields of `es`, starting after the
/// object header; each field is first aligned to its own alignment.
pub open spec fn fields_end(es: Seq<FieldLayoutEntry>, n: nat) -> u32
    decreases n,
{
    if n == 0 {
        OBJECT_HEADER_BYTES
    } else {
        let (size, alignment) = spec_storage_layout(es[n - 1].ty@)->0;
        saturate(spec_align_to(fields_end(es, (n - 1) as nat), alignment) + size)
    }
}

/// The byte offset of field `k` of `es`.
pub open spec fn field_offset(es: Seq<FieldLayoutEntry>, k: int) -> u32 {
    spec_align_to(fields_end(es, k as nat), (spec_storage_layout(es[k].ty@)->0).1)
}

/// The largest alignment among the header and the first `n` fields.
pub open spec fn max_alignment(es: Seq<FieldLayoutEntry>, n: nat) -> u32
    decreases n,
{
    if n == 0 {
        OBJECT_HEADER_BYTES
    } else {
        let a = (spec_storage_layout(es[n - 1].ty@)->0).1;
        let rest = max_alignment(es, (n - 1) as nat);
        if a > rest {
            a
        } else {
            rest
        }
    }
}

/// Every one of the first `n` fields can be stored.
pub open spec fn storable(es: Seq<FieldLayoutEntry>, n: int) -> bool {
    forall|k: int| 0 <= k < n ==> spec_storage_layout((#[trigger] es[k]).ty@) is Some
}

/// Entry `e` is the field that `field` refers to.
pub open spec fn refers_to(e: FieldLayoutEntry, field: FieldRef) -> bool {
    e.id == field.id && e.slot == field.slot
}

/// `k` is the first entry of `es` that `field` refers to.
pub open spec fn first_reference(es: Seq<FieldLayoutEntry>, field: FieldRef, k: int) -> bool {
    0 <= k < es.len() && refers_to(es[k], field) && forall|j: int| 0 <= j < k ==> !refers_to(#[trigger] es[j], field)
}

proof fn lemma_storage_alignment_positive(t: TypeV)
    requires
        spec_storage_layout(t) is Some,
    ensures
        (spec_storage_layout(t)->0).1 > 0,
        (spec_storage_layout(t)->0).1 <= 8,
{
}

/// The byte offset of `field` within an instance of its owner, or `None` when
/// the owner's layout has no such field.
pub fn field_byte_offset(m: &Module, field: &FieldRef) -> (r: Option<u32>)
    requires
        m.wf(),
        forall|k: int|
            0 <= k < layout_entries(*m, field.owner@).len() && (forall|j: int|
                0 <= j < k ==> !refers_to(#[trigger] layout_entries(*m, field.owner@)[j], *field))
                ==> spec_storage_layout(layout_entries(*m, field.owner@)[k].ty@) is Some,
    ensures
        r matches Some(o) ==> exists|k: int|
            first_reference(layout_entries(*m, field.owner@), *field, k) && o == field_offset(
                layout_entries(*m, field.owner@),
                k,
            ),
        r is None ==> forall|k: int|
            0 <= k < layout_entries(*m, field.owner@).len() ==> !refers_to(
                #[trigger] layout_entries(*m, field.owner@)[k],
                *field,
            ),
{
    let fields = class_layout_fields(m, field.owner.as_str());
    let ghost es = layout_entries(*m, field.owner@);
    let mut offset: u32 = OBJECT_HEADER_BYTES;
    let mut k: usize = 0;
    while k < fields.len()
        invariant
            0 <= k <= fields@.len(),
            fields@.len() == es.len(),
            es == layout_entries(*m, field.owner@),
            forall|j: int|
                0 <= j < fields@.len() ==> {
                    &&& (#[trigger] fields@[j]).reference.id == es[j].id
                    &&& fields@[j].reference.slot == es[j].slot
                    &&& fields@[j].ty@ == es[j].ty@
                },
            forall|j: int| 0 <= j < k ==> !refers_to(#[trigger] es[j], *field),
            offset == fields_end(es, k as nat),
            forall|k2: int|
                0 <= k2 < es.len() && (forall|j: int| 0 <= j < k2 ==> !refers_to(#[trigger] es[j], *field))
                    ==> spec_storage_layout(es[k2].ty@) is Some,
        decreases fields@.len() - k,
    {
        let candidate = &fields[k];
        assert(candidate.ty@ == es[k as int].ty@);
        let (size, alignment) = match llvm_storage_layout(&candidate.ty) {
            Some(p) => p,
            None => {
                assert(false);
                return None;
            },
        };
        proof {
            lemma_storage_alignment_positive(es[k as int].ty@);
        }
        let aligned = align_to(offset, alignment);
        if candidate.reference.id.0 == field.id.0 && candidate.reference.slot.0 == field.slot.0 {
            assert(refers_to(es[k as int], *field));
            assert(first_reference(es, *field, k as int));
            assert(aligned == field_offset(es, k as int));
            return Some(aligned);
        }
        offset = aligned.saturating_add(size);
        k += 1;
    }
    None
}

/// Entries `d` and `e` name the same field.
pub open spec fn same_field(d: FieldLayoutEntry, e: FieldLayoutEntry) -> bool {
    d.id == e.id && d.slot == e.slot
}

/// `j` is the first entry of `es` naming the field of entry `k`.
pub open spec fn first_same(es: Seq<FieldLayoutEntry>, k: int, j: int) -> bool {
    &&& 0 <= j <= k < es.len()
    &&& same_field(es[j], es[k])
    &&& forall|i: int| 0 <= i < j ==> !same_field(#[trigger] es[i], es[k])
}

proof fn lemma_first_same_unique(es: Seq<FieldLayoutEntry>, k: int, a: int, b: int)
    requires
        first_same(es, k, a),
        first_same(es, k, b),
    ensures
        a == b,
{
}

/// The byte offsets of the vector fields among the first `n` entries, in
/// order; a field named twice has the offset of its first entry.
pub open spec fn vector_offsets(es: Seq<FieldLayoutEntry>, n: nat) -> Seq<u32>
    decreases n,
{
    if n == 0 {
        Seq::empty()
    } else {
        let rest = vector_offsets(es, (n - 1) as nat);
        let k = n - 1;
        if es[k].ty@ is Vector {
            rest.push(field_offset(es, choose|j: int| first_same(es, k, j)))
        } else {
            rest
        }
    }
}

/// Every entry up to the last vector field has a storage layout.
pub open spec fn vector_prefix_storable(es: Seq<FieldLayoutEntry>) -> bool {
    forall|j: int, k: int|
        0 <= j <= k < es.len() && (#[trigger] es[k]).ty@ is Vector ==> spec_storage_layout((#[trigger] es[j]).ty@)
            is Some
}

/// The byte offsets of the vector fields of `owner`'s layout, whose buffers
/// an instance owns.
pub fn vector_field_offsets(m: &Module, owner: &str) -> (r: Vec<u32>)
    requires
        m.wf(),
        vector_prefix_storable(layout_entries(*m, owner@)),
    ensures
        r@ == vector_offsets(layout_entries(*m, owner@), layout_entries(*m, owner@).len()),
{
    let fields = class_layout_fields(m, owner);
    let ghost es = layout_entries(*m, owner@);
    let mut r: Vec<u32> = Vec::new();
    let mut k: usize = 0;
    while k < fields.len()
        invariant
            0 <= k <= fields@.len(),
            fields@.len() == es.len(),
            es == layout_entries(*m, owner@),
            m.wf(),
            vector_prefix_storable(es),
            forall|j: int|
                0 <= j < fields@.len() ==> {
                    &&& (#[trigger] fields@[j]).reference.owner@ == owner@
                    &&& fields@[j].reference.id == es[j].id
                    &&& fields@[j].reference.slot == es[j].slot
                    &&& fields@[j].ty@ == es[j].ty@
                },
            r@ == vector_offsets(es, k as nat),
        decreases fields@.len() - k,
    {
        let field = &fields[k];
        let is_vector = match &field.ty {
            Type::Vector { .. } => true,
            _ => false,
        };
        if is_vector {
            let reference = &field.reference;
            assert(refers_to(es[k as int], *reference));
            assert forall|k2: int|
                0 <= k2 < es.len() && (forall|j: int| 0 <= j < k2 ==> !refers_to(#[trigger] es[j], *reference))
                    implies spec_storage_layout(es[k2].ty@) is Some by {
                if k2 > k {
                    assert(refers_to(es[k as int], *reference));
                }
                assert(es[k as int].ty@ is Vector);
            }
            match field_byte_offset(m, reference) {
                Some(o) => {
                    proof {
                        let k2 = choose|j: int|
                            first_reference(es, *reference, j) && o == field_offset(es, j);
                        if k2 > k {
                            assert(refers_to(es[k as int], *reference));
                        }
                        assert forall|i: int| 0 <= i < k2 implies !same_field(#[trigger] es[i], es[k as int]) by {
                            assert(!refers_to(es[i], *reference));
                        }
                        assert(first_same(es, k as int, k2));
                        let c = choose|j: int| first_same(es, k as int, j);
                        lemma_first_same_unique(es, k as int, c, k2);
                    }
                    r.push(o);
                },
                None => {
                    assert(refers_to(es[k as int], *reference));
                    assert(false);
                },
            }
        }
        k += 1;
    }
    r
}

/// Aligning moves an offset to the next multiple of the alignment and never
/// back: the result is a multiple of `alignment`, at least `offset`, and less
/// than `offset + alignment` (away from the top of the `u32` range).
pub proof fn lemma_align_to(offset: u32, alignment: u32)
    requires
        alignment > 0,
        offset + alignment <= u32::MAX,
    ensures
        spec_align_to(offset, alignment) % alignment == 0,
        offset <= spec_align_to(offset, alignment) < offset + alignment,
{
    let r = offset % alignment;
    if r != 0 {
        let q = offset as int / alignment as int;
        vstd::arithmetic::div_mod::lemma_fundamental_div_mod(offset as int, alignment as int);
        vstd::arithmetic::div_mod::lemma_mod_multiples_basic(q + 1, alignment as int);
        vstd::arithmetic::mul::lemma_mul_is_commutative(q + 1, alignment as int);
        vstd::arithmetic::mul::lemma_mul_is_distributive_add(alignment as int, q, 1);
        assert(offset + (alignment - r) == (q + 1) * alignment);
    }
}

/// Every field lies after the object header, and the fields before it end no
/// later than where it starts.
pub proof fn lemma_fields_follow_header(es: Seq<FieldLayoutEntry>, k: int)
    requires
        0 <= k < es.len(),
        storable(es, es.len() as int),
    ensures
        OBJECT_HEADER_BYTES <= fields_end(es, k as nat) <= field_offset(es, k),
    decreases k,
{
    let a = (spec_storage_layout(es[k].ty@)->0).1;
    assert(spec_storage_layout(es[k].ty@) is Some);
    if k > 0 {
        lemma_fields_follow_header(es, k - 1);
    }
}

/// The size in bytes of an instance of `class`: its header and fields,
/// padded to the largest alignment.
pub open spec fn instance_bytes(es: Seq<FieldLayoutEntry>) -> u64 {
    spec_align_to(fields_end(es, es.len()), max_alignment(es, es.len())) as u64
}

pub fn class_instance_bytes(m: &Module, class: &str) -> (r: u64)
    requires
        m.wf(),
        storable(layout_entries(*m, class@), layout_entries(*m, class@).len() as int),
    ensures
        r == instance_bytes(layout_entries(*m, class@)),
{
    let fields = class_layout_fields(m, class);
    let ghost es = layout_entries(*m, class@);
    let mut total: u32 = OBJECT_HEADER_BYTES;
    let mut object_alignment: u32 = OBJECT_HEADER_BYTES;
    let mut k: usize = 0;
    while k < fields.len()
        invariant
            0 <= k <= fields@.len(),
            fields@.len() == es.len(),
            forall|j: int| 0 <= j < fields@.len() ==> (#[trigger] fields@[j]).ty@ == es[j].ty@,
            storable(es, es.len() as int),
            total == fields_end(es, k as nat),
            object_alignment == max_alignment(es, k as nat),
            object_alignment > 0,
        decreases fields@.len() - k,
    {
        let (size, alignment) = match llvm_storage_layout(&fields[k].ty) {
            Some(p) => p,
            None => {
                assert(spec_storage_layout(es[k as int].ty@) is Some);
                return 0;
            },
        };
        proof {
            lemma_storage_alignment_positive(es[k as int].ty@);
        }
        total = align_to(total, alignment).saturating_add(size);
        if alignment > object_alignment {
            object_alignment = alignment;
        }
        k += 1;
    }
    align_to(total, object_alignment) as u64
}

/// The declared type of field `field` of `owner`, through the owner's layout.
pub open spec fn spec_field_type(m: Module, owner: Seq<char>, field: Seq<char>) -> Option<TypeV> {
    match crate::model::spec_field_ref(m, owner, field) {
        None => None,
        Some((id, slot)) => {
            let es = layout_entries(m, owner);
            if exists|k: int| 0 <= k < es.len() && (#[trigger] es[k]).id.0 == id && es[k].slot.0 == slot {
                let k = choose|k: int|
                    0 <= k < es.len() && (#[trigger] es[k]).id.0 == id && es[k].slot.0 == slot
                        && forall|j: int| 0 <= j < k ==> !(es[j].id.0 == id && es[j].slot.0 == slot);
                Some(es[k].ty@)
            } else {
                None
            }
        },
    }
}

#[verifier::loop_isolation(false)]
pub fn field_type(m: &Module, owner: &str, field: &str) -> (r: Option<Type>)
    requires
        m.wf(),
    ensures
        match r {
            Some(t) => spec_field_type(*m, owner@, field@) == Some(t@),
            None => spec_field_type(*m, owner@, field@) is None,
        },
{
    let reference = match m.field_ref(owner, field) {
        Some(f) => f,
        None => return None,
    };
    let fields = class_layout_fields(m, owner);
    let ghost es = layout_entries(*m, owner@);
    let ghost id = reference.id.0;
    let ghost slot = reference.slot.0;
    let mut k: usize = 0;
    while k < fields.len()
        invariant
            0 <= k <= fields@.len(),
            fields@.len() == es.len(),
            id == reference.id.0,
            slot == reference.slot.0,
            forall|j: int|
                0 <= j < fields@.len() ==> {
                    &&& (#[trigger] fields@[j]).reference.id == es[j].id
                    &&& fields@[j].reference.slot == es[j].slot
                    &&& fields@[j].ty@ == es[j].ty@
                },
            forall|j: int| 0 <= j < k ==> !((#[trigger] es[j]).id.0 == id && es[j].slot.0 == slot),
        decreases fields@.len() - k,
    {
        if fields[k].reference.id.0 == reference.id.0 && fields[k].reference.slot.0 == reference.slot.0 {
            proof {
                assert(fields@[k as int].reference.id == es[k as int].id);
                assert(fields@[k as int].reference.slot == es[k as int].slot);
                assert((es[k as int]).id.0 == id && es[k as int].slot.0 == slot);
                let c = choose|c: int|
                    0 <= c < es.len() && (#[trigger] es[c]).id.0 == id && es[c].slot.0 == slot
                        && forall|j: int| 0 <= j < c ==> !(es[j].id.0 == id && es[j].slot.0 == slot);
                if c < k {
                    assert(!((es[c]).id.0 == id && es[c].slot.0 == slot));
                }
                if k < c {
                    assert(!((es[k as int]).id.0 == id && es[k as int].slot.0 == slot));
                }
            }
            return Some(copy_type(&fields[k].ty));
        }
        k += 1;
    }
    None
}

/// `t` names a record: a type with a default constructor.
pub open spec fn is_struct_type(m: Module, t: TypeV) -> bool {
    t matches TypeV::Named(name) && first_function(
        m,
        |f: crate::model::Function| is_owned_of_kind(f, FunctionKind::Default, name),
    ) is Some
}

pub fn is_struct_type_exec(m: &Module, t: &Type) -> (r: bool)
    ensures
        r == is_struct_type(*m, t@),
{
    match t {
        Type::Named(name) => m.function_of_kind(FunctionKind::Default, name.as_str()).is_some(),
        _ => false,
    }
}

/// A value of type `t` can be copied field by field: it is not a record, or
/// no field of the record is a vector or pointer.
pub open spec fn struct_copy_supported(m: Module, t: TypeV) -> bool {
    match t {
        TypeV::Named(name) => !is_struct_type(m, t) || forall|k: int|
            0 <= k < layout_entries(m, name).len() ==> !((#[trigger] layout_entries(m, name)[k]).ty@ is Vector
                || layout_entries(m, name)[k].ty@ is Pointer),
        _ => true,
    }
}

#[verifier::loop_isolation(false)]
pub fn struct_copy_supported_exec(m: &Module, t: &Type) -> (r: bool)
    requires
        m.wf(),
    ensures
        r == struct_copy_supported(*m, t@),
{
    let name = match t {
        Type::Named(name) => name,
        _ => return true,
    };
    if !is_struct_type_exec(m, t) {
        return true;
    }
    let fields = class_layout_fields(m, name.as_str());
    let ghost es = layout_entries(*m, name@);
    let mut k: usize = 0;
    while k < fields.len()
        invariant
            0 <= k <= fields@.len(),
            fields@.len() == es.len(),
            forall|j: int| 0 <= j < fields@.len() ==> (#[trigger] fields@[j]).ty@ == es[j].ty@,
            forall|j: int| 0 <= j < k ==> !((#[trigger] es[j]).ty@ is Vector || es[j].ty@ is Pointer),
        decreases fields@.len() - k,
    {
        if matches!(fields[k].ty, Type::Vector { .. } | Type::Pointer { .. }) {
            assert(fields@[k as int].ty@ == es[k as int].ty@);
            assert(es[k as int].ty@ is Vector || es[k as int].ty@ is Pointer);
            assert(!struct_copy_supported(*m, t@));
            return false;
        }
        k += 1;
    }
    true
}

} // verus!
